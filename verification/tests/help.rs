use smaragdine::help::{
    next_level, path_names, path_token_name, render_rows, resolve_path, sort_rows, usage_rows, split_typed_path,
    text_le, usage_line, PathChild, PathNode, Usage,
};

fn row(usage: &str, description: Option<&str>) -> Usage {
    Usage { usage: usage.to_owned(), description: description.map(str::to_owned) }
}

fn child(name: &str, usable: bool, description: &str) -> PathChild {
    PathChild { name: name.to_owned(), usable, description: Some(description.to_owned()) }
}

#[test]
fn the_top_level_lists_one_line_per_command() {
    let found = vec![
        row("quit", None),
        row("proxy (off|on)", Some("查看或修改上游代理设置")),
        row("echo <message>", Some("把参数原样输出")),
        row("open", Some("只有解锁时才可用")),
        row("log (level|on)", Some("日志开关")),
    ];
    let lines: Vec<String> = sort_rows(found)
        .into_iter()
        .map(|row| format!("{}|{}", row.usage, row.description.unwrap_or_default()))
        .collect();
    assert_eq!(
        lines,
        vec![
            "echo <message>|把参数原样输出",
            "log (level|on)|日志开关",
            "open|只有解锁时才可用",
            "proxy (off|on)|查看或修改上游代理设置",
            "quit|",
        ]
    );
}

#[test]
fn drilling_down_keeps_the_path() {
    assert_eq!(usage_line("proxy", "off"), "proxy off");
    assert_eq!(usage_line("log", "level <level>"), "log level <level>");
    assert_eq!(usage_line("  log  ", "on"), "log on");
    assert_eq!(usage_line("", "echo <message>"), "echo <message>");
    assert_eq!(usage_line("   ", "quit"), "quit");
}

#[test]
fn a_path_may_be_copied_out_of_a_usage_line() {
    assert_eq!(path_names("log level <level>"), vec!["log", "level", "level"]);
    assert_eq!(path_names("log level level"), vec!["log", "level", "level"]);
    assert_eq!(path_token_name("<message>"), "message");
    assert_eq!(path_token_name("<<x>>"), "x");
}

#[test]
fn an_empty_path_walks_nowhere() {
    assert!(path_names("").is_empty());
    assert!(path_names("   ").is_empty());
    assert_eq!(path_names("  proxy   on "), vec!["proxy", "on"]);
}

#[test]
fn rows_are_ordered_by_their_bytes() {
    assert!(text_le("echo", "echobig"));
    assert!(text_le("echo", "echo"));
    assert!(!text_le("quit", "open"));
    assert!(text_le("Z", "a"), "upper case sorts first, as in str's order");
    let sorted = sort_rows(vec![row("b", None), row("a", None), row("b", Some("2")), row("a", None)]);
    let usages: Vec<&str> = sorted.iter().map(|r| r.usage.as_str()).collect();
    assert_eq!(usages, ["a", "a", "b", "b"]);
    assert_eq!(sorted[2].description, None, "rows with the same text keep their order");
    assert_eq!(sorted[3].description.as_deref(), Some("2"));
    let again = sort_rows(vec![row("b", Some("2")), row("b", None)]);
    assert_eq!(again[0].description.as_deref(), Some("2"));
}

#[test]
fn the_default_layout_aligns_the_descriptions() {
    let rows = vec![row("echo <message>", Some("回显")), row("quit", None), row("proxy", Some("代理"))];
    assert_eq!(
        render_rows(&rows),
        vec!["echo <message>  回显", "quit", "proxy           代理"]
    );
}

#[test]
fn width_counts_characters_not_bytes() {
    let rows = vec![row("你好", Some("x")), row("abc", Some("y"))];
    assert_eq!(render_rows(&rows), vec!["你好   x", "abc  y"]);
}

#[test]
fn the_path_argument_suggests_the_next_level() {
    assert_eq!(split_typed_path("pro"), Some((String::new(), "pro".to_owned())));
    assert_eq!(split_typed_path("proxy o"), Some(("proxy".to_owned(), "o".to_owned())));
    assert_eq!(split_typed_path("proxy "), Some(("proxy".to_owned(), String::new())));

    let children = vec![child("off", true, "关"), child("on", true, "开"), child("other", false, "锁着")];
    let offered: Vec<(String, Option<String>)> =
        next_level("o", children).into_iter().map(|c| (c.name, c.description)).collect();
    assert_eq!(
        offered,
        vec![("off".to_owned(), Some("关".to_owned())), ("on".to_owned(), Some("开".to_owned()))]
    );
}

#[test]
fn what_you_cannot_use_is_not_listed() {
    let children = vec![child("open", false, "只有解锁时才可用"), child("echo", true, "回显")];
    let offered: Vec<String> = next_level("", children).into_iter().map(|c| c.name).collect();
    assert_eq!(offered, vec!["echo"]);
}

#[test]
fn a_wide_last_blank_offers_nothing() {
    assert_eq!(split_typed_path("proxy\u{3000}o"), None);
    assert_eq!(split_typed_path("你好\u{3000}"), None);
    assert_eq!(split_typed_path("proxy\u{3000}o p"), Some(("proxy\u{3000}o".to_owned(), "p".to_owned())));
}

/// The test tree: the root, `proxy` with `on` and `off`, `log` with
/// `level <level>`, and `open`, which the source may not use.
fn tree() -> Vec<PathNode> {
    let node = |usable: bool, children: &[(&str, usize)]| PathNode {
        usable,
        children: children.iter().map(|(name, at)| (name.to_string(), *at)).collect(),
    };
    vec![
        node(true, &[("log", 1), ("open", 2), ("proxy", 3)]),
        node(true, &[("level", 4)]),
        node(false, &[]),
        node(true, &[("off", 5), ("on", 6)]),
        node(true, &[("level", 7)]),
        node(true, &[]),
        node(true, &[]),
        node(true, &[]),
    ]
}

#[test]
fn a_leaf_has_nothing_below_it() {
    assert_eq!(resolve_path(&tree(), ""), Some(0));
    assert_eq!(resolve_path(&tree(), "proxy on"), Some(6));
    assert_eq!(resolve_path(&tree(), "zzz"), None);
    assert_eq!(resolve_path(&tree(), "proxy zzz"), None);
}

#[test]
fn a_path_through_an_argument_may_name_it_as_printed() {
    assert_eq!(resolve_path(&tree(), "log level <level>"), Some(7));
    assert_eq!(resolve_path(&tree(), "  log   level level "), Some(7));
}

#[test]
fn a_node_the_source_may_not_use_leads_nowhere() {
    assert_eq!(resolve_path(&tree(), "open"), None);
    assert_eq!(resolve_path(&vec![], ""), None);
}

#[test]
fn drilling_down_lists_the_rows_under_the_path_in_order() {
    let found = vec![row("on", Some("启用上游代理")), row("off", Some("关闭上游代理，改为直连"))];
    let lines: Vec<String> = usage_rows("proxy", found)
        .into_iter()
        .map(|row| format!("{}|{}", row.usage, row.description.unwrap_or_default()))
        .collect();
    assert_eq!(lines, vec!["proxy off|关闭上游代理，改为直连", "proxy on|启用上游代理"]);
    let top: Vec<String> = usage_rows("  ", vec![row("quit", None), row("echo <message>", None)])
        .into_iter()
        .map(|row| row.usage)
        .collect();
    assert_eq!(top, vec!["echo <message>", "quit"]);
}
