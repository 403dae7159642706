use smaragdine::interrupt::{ExitArmed, ExitHint, Interrupt, LineShadow, on_interrupt};
use smaragdine::Text;

fn test_hint() -> ExitHint {
    ExitHint::new(Text::default().exit_hint)
}

fn render(hint: &ExitHint, armed: &mut ExitArmed, line: &str) -> String {
    hint.handle(armed, line)
}

#[test]
fn a_non_empty_line_is_only_cleared() {
    let mut shadow = LineShadow::new();
    let mut armed = ExitArmed::new();
    shadow.record("echo hi");

    assert_eq!(on_interrupt(&shadow, &mut armed), Interrupt::ClearedLine);
    assert!(!armed.is_armed(), "a line with text on it must not arm the exit");
}

#[test]
fn an_empty_line_arms_then_exits() {
    let mut shadow = LineShadow::new();
    let mut armed = ExitArmed::new();
    shadow.record("");

    assert_eq!(on_interrupt(&shadow, &mut armed), Interrupt::Armed);
    assert!(armed.is_armed());
    assert_eq!(on_interrupt(&shadow, &mut armed), Interrupt::Exit);
}

/// A line of blanks only is empty: a few spaces do not keep you from leaving.
#[test]
fn a_whitespace_only_line_counts_as_empty() {
    let mut shadow = LineShadow::new();
    let mut armed = ExitArmed::new();
    shadow.record("   ");

    assert_eq!(on_interrupt(&shadow, &mut armed), Interrupt::Armed);
}

/// Typing while the hint shows takes it down; the next Ctrl-C is a first
/// one again.
#[test]
fn typing_disarms_the_hint() {
    let mut shadow = LineShadow::new();
    let mut armed = ExitArmed::new();
    shadow.record("");
    assert_eq!(on_interrupt(&shadow, &mut armed), Interrupt::Armed);

    let hint = test_hint();
    assert!(!render(&hint, &mut armed, "").is_empty(), "shown on an empty line");
    assert!(render(&hint, &mut armed, "e").is_empty(), "taken down once typing starts");
    assert!(!armed.is_armed(), "and the exit is disarmed with it");

    shadow.record("");
    assert_eq!(on_interrupt(&shadow, &mut armed), Interrupt::Armed);
}

#[test]
fn nothing_is_shown_until_armed() {
    let mut armed = ExitArmed::new();
    let hint = test_hint();
    assert!(render(&hint, &mut armed, "").is_empty());

    armed.arm();
    assert!(!render(&hint, &mut armed, "").is_empty());
}

#[test]
fn the_hint_is_never_completable() {
    let hint = test_hint();
    assert!(hint.complete_hint().is_empty());
    assert!(hint.next_hint_token().is_empty());
}

#[test]
fn the_shadow_tracks_only_the_latest_line() {
    let mut shadow = LineShadow::new();
    shadow.record("echo hi");
    assert!(!shadow.was_empty());
    shadow.record("");
    assert!(shadow.was_empty());
}

#[test]
fn the_hint_shows_its_own_words() {
    let mut armed = ExitArmed::new();
    armed.arm();
    let hint = ExitHint::new("  again to leave".to_owned());
    assert_eq!(render(&hint, &mut armed, ""), "  again to leave");
    assert!(armed.is_armed(), "showing it keeps the exit armed");
}

#[test]
fn unicode_blanks_count_as_empty_but_other_text_does_not() {
    let mut shadow = LineShadow::new();
    shadow.record("\u{3000}\t\u{a0}");
    assert!(shadow.was_empty());
    shadow.record("\u{3000}x");
    assert!(!shadow.was_empty());
}
