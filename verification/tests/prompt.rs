use smaragdine::prompt::{history_search_indicator, right_side, Aside, RightSide};
use smaragdine::{Piece, Text};

#[test]
fn the_aside_shows_up_on_the_right() {
    let mut aside = Aside::new();
    assert_eq!(right_side(&aside, false), RightSide::Blank);

    aside.set(Some(("<message> 要输出的内容".to_owned(), Piece::Hint)));
    match right_side(&aside, false) {
        RightSide::Note(text, piece) => {
            assert!(text.contains("<message> 要输出的内容"), "{text:?}");
            assert_eq!(piece, Piece::Hint);
        }
        other => panic!("{:?}", other),
    }
}

#[test]
fn the_history_search_label_comes_from_the_text_table() {
    let text = Text {
        history_search: "回溯".to_owned(),
        history_search_failing: "没找到 ".to_owned(),
        ..Text::default()
    };
    assert_eq!(history_search_indicator(&text, false, "ec"), "(回溯: ec) ");
    assert_eq!(history_search_indicator(&text, true, "ec"), "(没找到 回溯: ec) ");
}

#[test]
fn the_default_history_search_label_is_english() {
    assert_eq!(history_search_indicator(&Text::default(), false, "ec"), "(reverse-search: ec) ");
    assert_eq!(
        history_search_indicator(&Text::default(), true, ""),
        "(failing reverse-search: ) "
    );
}

#[test]
fn a_custom_prompt_takes_over() {
    let aside = Aside::new();
    assert_eq!(right_side(&aside, true), RightSide::Custom);
}

#[test]
fn the_console_takes_the_right_side_when_it_has_something_to_say() {
    let mut aside = Aside::new();
    aside.set(Some(("Unknown or incomplete command".to_owned(), Piece::Failure)));
    match right_side(&aside, true) {
        RightSide::Note(text, piece) => {
            assert!(text.contains("Unknown or incomplete command"), "{text:?}");
            assert_eq!(piece, Piece::Failure);
        }
        other => panic!("{:?}", other),
    }
}

#[test]
fn clearing_the_aside_gives_the_right_side_back() {
    let mut aside = Aside::new();
    aside.set(Some(("x".to_owned(), Piece::Hint)));
    assert_eq!(aside.get(), Some(("x".to_owned(), Piece::Hint)));
    aside.set(None);
    assert_eq!(aside.get(), None);
    assert_eq!(right_side(&aside, true), RightSide::Custom);
}
