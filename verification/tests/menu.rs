use smaragdine::menu::{is_awaiting_first_answer, is_visible, MenuCursor, MenuVisible};

#[test]
fn an_inactive_menu_is_not_visible() {
    assert!(!is_visible(false, false, 0));
    assert!(!is_visible(false, false, 3));
}

#[test]
fn an_empty_menu_is_hidden_but_still_active() {
    let active = true;
    assert!(!is_visible(active, false, 0), "no candidates, nothing drawn");
    assert!(is_awaiting_first_answer(false, 0), "it still takes input like a menu that waits");
    assert!(is_visible(active, false, 2));
}

#[test]
fn visibility_is_published_on_every_state_change() {
    let mut visible = MenuVisible::new();
    assert!(!visible.get(), "hidden before it is first activated");

    visible.set(is_visible(true, false, 0));
    assert!(!visible.get(), "an empty menu is published as hidden");

    visible.set(is_visible(true, false, 1));
    assert!(visible.get());

    visible.set(is_visible(false, false, 1));
    assert!(!visible.get());
}

#[test]
fn a_menu_awaiting_its_first_answer_is_not_drawn() {
    assert!(!is_visible(true, true, 4));
    assert!(is_awaiting_first_answer(true, 4));
    assert!(!is_awaiting_first_answer(false, 4));
}

#[test]
fn forcing_the_visibility_overrides_what_was_published() {
    let mut visible = MenuVisible::new();
    visible.force(true);
    assert!(visible.get());
    visible.force(false);
    assert!(!visible.get());
}

#[test]
fn the_selection_wraps_around_both_ways() {
    let mut cursor = MenuCursor::new();
    assert_eq!(cursor.index(3), Some(0));
    cursor.step(4);
    assert_eq!(cursor.index(3), Some(1));
    cursor.step(-6);
    assert_eq!(cursor.index(3), Some(1), "-2 moves among 3 is the second candidate");
    cursor.step(-1);
    assert_eq!(cursor.index(3), Some(0));
    assert_eq!(cursor.index(0), None, "no candidates, nothing selected");
}

#[test]
fn a_dismissed_menu_selects_nothing_until_reset() {
    let mut cursor = MenuCursor::new();
    cursor.step(2);
    cursor.dismiss();
    assert!(cursor.is_dismissed());
    assert_eq!(cursor.index(5), None);
    cursor.reset();
    assert!(!cursor.is_dismissed());
    assert_eq!(cursor.index(5), Some(0));
}

#[test]
fn the_cursor_counts_its_moves() {
    let mut cursor = MenuCursor::new();
    assert_eq!(cursor.steps(), 0);
    cursor.step(3);
    cursor.step(-5);
    assert_eq!(cursor.steps(), -2);
    cursor.reset();
    assert_eq!(cursor.steps(), 0);
}

#[test]
fn a_dismissed_menu_stays_dismissed_through_moves() {
    let mut cursor = MenuCursor::new();
    cursor.step(1);
    cursor.dismiss();
    cursor.step(2);
    cursor.step(-7);
    assert!(cursor.is_dismissed());
    assert_eq!(cursor.index(4), None);
    cursor.reset();
    assert!(!cursor.is_dismissed());
    assert_eq!(cursor.index(4), Some(0));
}

#[test]
fn a_copy_of_a_cursor_is_a_cursor_of_its_own() {
    let mut cursor = MenuCursor::new();
    let copy = cursor;
    cursor.step(2);
    assert_eq!(cursor.index(5), Some(2));
    assert_eq!(copy.index(5), Some(0));
}
