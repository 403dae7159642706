//! The command history of the console.
//!
//! The line editor's Up and Down are not "previous / next" by default but a
//! prefix search, as in fish or zsh: with text on the line and the cursor at
//! its end, only entries that start with that text are walked. In a command
//! console that is fatal: `echo hello wor` is no entry's prefix, so Up does
//! nothing, and the further along the line the more so.
//!
//! The fix is a statement of fact rather than a key binding: this console's
//! history is not filtered by prefix. Put into the history's search, it turns
//! the editor's own navigation into a plain walk by index, while the draft is
//! still kept and given back at the end of the walk.

use vstd::prelude::*;

verus! {

/// How a history query filters the command line of entries.
#[derive(Debug, Clone, PartialEq, Eq)]
pub enum CommandLineSearch {
    /// Entries that start with the text (history navigation).
    Prefix(String),
    /// Entries that contain the text (reverse search, Ctrl-R).
    Substring(String),
    /// Entries that are the text.
    Exact(String),
}

/// A query's command-line filter with the prefix condition taken off; a
/// substring or exact filter is what the user asked for and stays.
pub open spec fn without_prefix_spec(filter: Option<CommandLineSearch>) -> Option<
    CommandLineSearch,
> {
    match filter {
        Some(CommandLineSearch::Prefix(_)) => None,
        other => other,
    }
}

/// Take the prefix condition off a query's command-line filter. Search and
/// count both go through it, so that how many entries there are and how many
/// can be walked agree.
pub fn without_prefix_filter(filter: Option<CommandLineSearch>) -> (kept: Option<
    CommandLineSearch,
>)
    ensures
        kept == without_prefix_spec(filter),
{
    match filter {
        Some(CommandLineSearch::Prefix(_)) => None,
        other => other,
    }
}

/// Whatever is typed, the walk is the same: every prefix filter becomes no
/// filter; and taking the prefix off twice is taking it off once.
pub proof fn the_walk_ignores_what_is_typed(typed: String, other: String, filter: Option<CommandLineSearch>)
    ensures
        without_prefix_spec(Some(CommandLineSearch::Prefix(typed))) == without_prefix_spec(
            Some(CommandLineSearch::Prefix(other)),
        ),
        without_prefix_spec(Some(CommandLineSearch::Prefix(typed))) == without_prefix_spec(None),
        without_prefix_spec(without_prefix_spec(filter)) == without_prefix_spec(filter),
        without_prefix_spec(Some(CommandLineSearch::Substring(typed))) == Some(
            CommandLineSearch::Substring(typed),
        ),
{
}

} // verus!
