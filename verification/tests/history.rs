use smaragdine::history::{without_prefix_filter, CommandLineSearch};

#[test]
fn history_is_not_filtered_by_what_is_typed() {
    let filter = Some(CommandLineSearch::Prefix("echo hello wor".to_owned()));
    assert_eq!(without_prefix_filter(filter), None);
}

#[test]
fn the_walk_is_the_same_whatever_is_typed() {
    for typed in ["", "echo", "echo hello wor", "zzz"] {
        let filter = Some(CommandLineSearch::Prefix(typed.to_owned()));
        assert_eq!(without_prefix_filter(filter), without_prefix_filter(None), "typed = {typed:?}");
    }
}

#[test]
fn substring_search_keeps_its_filter() {
    let filter = Some(CommandLineSearch::Substring("sto".to_owned()));
    assert_eq!(
        without_prefix_filter(filter),
        Some(CommandLineSearch::Substring("sto".to_owned()))
    );
}

#[test]
fn count_agrees_with_search() {
    for filter in [
        None,
        Some(CommandLineSearch::Prefix("zzz".to_owned())),
        Some(CommandLineSearch::Exact("stop".to_owned())),
    ] {
        let once = without_prefix_filter(filter.clone());
        assert_eq!(without_prefix_filter(once.clone()), once);
    }
}

#[test]
fn an_exact_filter_stays() {
    let filter = Some(CommandLineSearch::Exact("stop".to_owned()));
    assert_eq!(without_prefix_filter(filter.clone()), filter);
}
