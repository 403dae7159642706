use smaragdine::Text;

#[test]
fn the_default_wording_is_the_command_bars() {
    let text = Text::default();
    assert_eq!(text.exit_hint, "  press Ctrl-C again to exit");
    assert_eq!(text.unknown_command, "Unknown or incomplete command");
    assert_eq!(text.incorrect_argument, "Incorrect argument for command");
    assert_eq!(text.history_search, "reverse-search");
    assert_eq!(text.history_search_failing, "failing ");
    assert_eq!(text.command_panicked, "the command panicked; the console caught it");
    assert_eq!(text.command_ran_inline, "could not spawn a thread; ran the command inline");
}

#[test]
fn a_table_can_be_written_as_a_literal() {
    let text = Text {
        exit_hint: "  再按一次 Ctrl-C 退出".into(),
        unknown_command: "不认识的指令，或还没打完".into(),
        ..Text::default()
    };
    assert_eq!(text.unknown_command, "不认识的指令，或还没打完");
    assert_eq!(text.incorrect_argument, Text::default().incorrect_argument);
}
