use smaragdine::util::{blank, is_whitespace, slice, split_whitespace, starts_with, strip_matches, trim};

#[test]
fn blanks_are_unicode_white_space() {
    assert!(is_whitespace(' '));
    assert!(is_whitespace('\t'));
    assert!(is_whitespace('\u{3000}'));
    assert!(!is_whitespace('x'));
    assert!(blank(""));
    assert!(blank(" \t\n\u{3000}"));
    assert!(!blank(" x "));
}

#[test]
fn trimming_takes_white_space_off_both_ends_only() {
    assert_eq!(trim("  echo  hi \n"), "echo  hi");
    assert_eq!(trim("   "), "");
    assert_eq!(trim("\u{3000}你好\u{3000}"), "你好");
}

#[test]
fn words_are_split_on_runs_of_white_space() {
    assert_eq!(split_whitespace("  log   level\t<level> "), vec!["log", "level", "<level>"]);
    assert!(split_whitespace("").is_empty());
    assert!(split_whitespace(" \t ").is_empty());
    assert_eq!(split_whitespace("你好\u{3000}世界"), vec!["你好", "世界"]);
}

#[test]
fn prefixes_and_stripping() {
    assert!(starts_with("echo", "ec"));
    assert!(starts_with("echo", ""));
    assert!(!starts_with("ec", "echo"));
    assert_eq!(strip_matches("<<level>>", '<', '>'), "level");
    assert_eq!(strip_matches("level", '<', '>'), "level");
    assert_eq!(strip_matches("<>", '<', '>'), "");
}

#[test]
fn slices_are_taken_by_byte_offsets() {
    assert_eq!(slice("echo 你好", 5, 11), "你好");
    assert_eq!(slice("echo 你好", 0, 4), "echo");
    assert_eq!(slice("echo", 2, 2), "");
}
