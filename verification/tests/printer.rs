use smaragdine::printer::{message_of, trim_trailing_newlines, PendingLine};

#[test]
fn an_attached_printer_sends_to_the_channel() {
    assert_eq!(message_of("你好").as_deref(), Some("你好"));
}

#[test]
fn trailing_newlines_are_trimmed() {
    assert_eq!(message_of("一行\n").as_deref(), Some("一行"));
    assert_eq!(trim_trailing_newlines("a\n\n\n"), "a");
    assert_eq!(trim_trailing_newlines("a\nb\n"), "a\nb");
}

#[test]
fn nothing_is_printed_for_nothing() {
    assert_eq!(message_of(""), None);
    assert_eq!(message_of("\n"), None);
    assert_eq!(message_of("\n\n"), None);
}

#[test]
fn the_writer_collects_one_event_into_one_message() {
    let mut pending = PendingLine::new();
    assert_eq!(pending.write("[12:00:00] ".as_bytes()), "[12:00:00] ".len());
    pending.write("[main/INFO]: ".as_bytes());
    pending.write("上游 503\n".as_bytes());
    assert_eq!(pending.take().as_deref(), Some("[12:00:00] [main/INFO]: 上游 503"));
}

#[test]
fn flushing_hands_it_over_once() {
    let mut pending = PendingLine::new();
    pending.write("一条".as_bytes());
    assert_eq!(pending.take().as_deref(), Some("一条"));
    assert_eq!(pending.take(), None, "a second flush hands over nothing");
}

#[test]
fn cloning_shares_the_channel_but_not_the_half_line() {
    let mut writer = PendingLine::new();
    writer.write("半行".as_bytes());
    // A clone of the writer starts with nothing collected.
    let mut other = PendingLine::new();
    assert_eq!(other.take(), None);
    assert_eq!(writer.take().as_deref(), Some("半行"));
}

#[test]
fn a_character_split_across_writes_is_put_back_together() {
    let bytes = "你".as_bytes();
    let mut pending = PendingLine::new();
    pending.write(&bytes[..1]);
    pending.write(&bytes[1..]);
    assert_eq!(pending.take().as_deref(), Some("你"));
}

#[test]
fn malformed_bytes_become_replacement_characters() {
    let mut pending = PendingLine::new();
    pending.write(&[b'a', 0xff, b'b']);
    assert_eq!(pending.take().as_deref(), Some("a\u{fffd}b"));
}
