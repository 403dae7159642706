use smaragdine::inspect::{
    examples_of, first_argument, inspect, is_runnable, token_is_empty, Expected, Inspection, LineFacts,
};
use smaragdine::{Piece, Text};

fn message() -> Expected {
    Expected {
        name: "message".to_owned(),
        description: Some("要输出的内容".to_owned()),
        examples: vec![],
    }
}

fn level() -> Expected {
    Expected {
        name: "level".to_owned(),
        description: None,
        examples: vec!["0".to_owned(), "123".to_owned(), "-123".to_owned()],
    }
}

/// A line whose parse matched a command and needs nothing more.
fn runnable() -> LineFacts {
    LineFacts {
        has_leftover: false,
        runnable: true,
        matched_nothing: false,
        has_candidates: false,
        token_empty: false,
        expected: None,
    }
}

/// The cursor sits after a node whose argument is not typed yet.
fn waiting_for(expected: Expected) -> LineFacts {
    LineFacts {
        has_leftover: false,
        runnable: false,
        matched_nothing: false,
        has_candidates: false,
        token_empty: true,
        expected: Some(expected),
    }
}

/// Nothing of the line is a command.
fn unknown() -> LineFacts {
    LineFacts {
        has_leftover: true,
        runnable: false,
        matched_nothing: true,
        has_candidates: false,
        token_empty: false,
        expected: None,
    }
}

fn is_failure(seen: &Inspection) -> bool {
    matches!(seen.aside, Some((_, Piece::Failure)))
}

#[test]
fn an_argument_position_offers_a_placeholder() {
    let seen = inspect(&Text::default(), "echo ", waiting_for(message()));
    assert_eq!(seen.placeholder.as_deref(), Some("<message>"));
    assert_eq!(seen.aside, Some(("<message> 要输出的内容".to_owned(), Piece::Hint)));
}

#[test]
fn an_undescribed_argument_falls_back_to_examples() {
    let seen = inspect(&Text::default(), "log level ", waiting_for(level()));
    assert_eq!(seen.placeholder.as_deref(), Some("<level>"));
    assert_eq!(seen.aside, Some(("<level> 0 | 123 | -123".to_owned(), Piece::Hint)));
}

#[test]
fn a_typed_token_needs_no_placeholder() {
    for line in ["echo hel", "echo 你好", "echo hi 还有更多"] {
        let facts = LineFacts { expected: Some(message()), ..runnable() };
        let seen = inspect(&Text::default(), line, facts);
        assert_eq!(seen.placeholder, None, "{line:?}");
        assert_eq!(seen.aside, None, "{line:?}");
    }
}

#[test]
fn candidates_crowd_out_the_placeholder() {
    for line in ["", "e", "pro", "proxy ", "log "] {
        let facts = LineFacts { has_candidates: true, ..waiting_for(message()) };
        assert_eq!(inspect(&Text::default(), line, facts).placeholder, None, "{line:?}");
    }
}

#[test]
fn an_unknown_command_is_reported_without_a_placeholder() {
    let seen = inspect(&Text::default(), "zzz", unknown());
    assert_eq!(seen.aside, Some((Text::default().unknown_command, Piece::Failure)));
    assert_eq!(seen.placeholder, None);
}

#[test]
fn the_wording_comes_from_the_text_table() {
    let text = Text { unknown_command: "不认识的指令".to_owned(), ..Text::default() };
    let seen = inspect(&text, "zzz", unknown());
    assert_eq!(seen.aside, Some(("不认识的指令".to_owned(), Piece::Failure)));
}

#[test]
fn an_empty_line_says_nothing() {
    let empty = LineFacts { has_candidates: true, ..unknown() };
    assert_eq!(inspect(&Text::default(), "", empty), Inspection::default());
    assert_eq!(inspect(&Text::default(), "   ", unknown()), Inspection::default());
}

#[test]
fn a_runnable_line_is_not_an_error() {
    let quit = LineFacts { has_candidates: true, ..runnable() };
    assert_eq!(inspect(&Text::default(), "quit", quit).aside, None);
    assert!(!is_failure(&inspect(&Text::default(), "echo hi", runnable())));
    assert_eq!(inspect(&Text::default(), "echo hi", runnable()).aside, None);
}

#[test]
fn a_half_typed_command_is_not_an_error() {
    for line in ["e", "ec", "echo", "pro", "qui"] {
        let facts = LineFacts { has_candidates: true, ..unknown() };
        assert!(!is_failure(&inspect(&Text::default(), line, facts)), "{line:?}");
    }
}

#[test]
fn trailing_junk_is_an_argument_error() {
    let facts = LineFacts { has_leftover: true, ..runnable() };
    assert_eq!(
        inspect(&Text::default(), "quit x", facts).aside,
        Some((Text::default().incorrect_argument, Piece::Failure))
    );
}

#[test]
fn survives_anything() {
    for line in ["你好", "echo 你好", "🎮", "café", "\\", "echo \\", "?", "  x  "] {
        let _ = inspect(&Text::default(), line, unknown());
        let _ = inspect(&Text::default(), line, waiting_for(level()));
        let _ = inspect(&Text::default(), line, runnable());
    }
}

#[test]
fn a_matched_command_with_a_wrong_argument_is_an_argument_error() {
    let facts = LineFacts { runnable: false, ..runnable() };
    assert_eq!(
        inspect(&Text::default(), "log level x", facts).aside,
        Some((Text::default().incorrect_argument, Piece::Failure))
    );
}

#[test]
fn an_argument_without_description_or_examples_gets_only_a_placeholder() {
    let bare = Expected { name: "x".to_owned(), description: None, examples: vec![] };
    let seen = inspect(&Text::default(), "f ", waiting_for(bare));
    assert_eq!(seen.placeholder.as_deref(), Some("<x>"));
    assert_eq!(seen.aside, None);
}

#[test]
fn at_most_three_examples_are_listed() {
    let many: Vec<String> = ["0", "1.2", ".5", "-1", "-.5", "-1234.56"].iter().map(|s| s.to_string()).collect();
    assert_eq!(examples_of(&many).as_deref(), Some("0 | 1.2 | .5"));
    assert_eq!(examples_of(&vec!["7".to_owned()]).as_deref(), Some("7"));
    assert_eq!(examples_of(&vec![]), None);
}

#[test]
fn a_command_anywhere_along_the_chain_makes_the_line_runnable() {
    assert!(is_runnable(&vec![false, true]));
    assert!(is_runnable(&vec![true]));
    assert!(!is_runnable(&vec![false, false]));
    assert!(!is_runnable(&vec![]));
}

#[test]
fn a_token_is_empty_only_where_its_context_starts() {
    assert!(token_is_empty(Some(5), 5));
    assert!(!token_is_empty(Some(5), 8));
    assert!(!token_is_empty(None, 5));
}

#[test]
fn the_first_argument_child_is_the_one_expected() {
    let found = first_argument(vec![None, Some(level()), Some(message())]).expect("an argument child");
    assert_eq!(found.name, "level");
    assert!(first_argument(vec![None, None]).is_none());
    assert!(first_argument(vec![]).is_none());
}
