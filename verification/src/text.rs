//! The few sentences that the console itself says.
//!
//! The console speaks only in these places, and all of them are here, so that
//! they can be put in any language. The finer wording of failed commands comes
//! from the command tree's own structured errors; rendering those belongs to
//! the error hook, not to this table.

use vstd::prelude::*;
use vstd::string::*;

verus! {

/// What the console says.
///
/// The defaults are English, worded as in the Minecraft command bar. A custom
/// table is best written as a struct literal that ends in `..Text::default()`.
#[derive(Debug, Clone, PartialEq, Eq)]
pub struct Text {
    /// The grey words at the end of an empty line after one Ctrl-C; a second
    /// Ctrl-C exits. Two leading spaces keep it off the cursor.
    pub exit_hint: String,
    /// The right-hand note when not even the command name was recognised (or
    /// it is not finished yet).
    pub unknown_command: String,
    /// The right-hand note when the command name was recognised but what
    /// follows it is wrong.
    pub incorrect_argument: String,
    /// The label of reverse history search in the default prompt.
    pub history_search: String,
    /// Put in front of the label when reverse search finds nothing.
    pub history_search_failing: String,
    /// A command body panicked and the console caught it.
    pub command_panicked: String,
    /// No thread could be started, so the command ran inline.
    pub command_ran_inline: String,
}

impl Text {
    /// The default wording, as one predicate over the views of the fields.
    pub open spec fn is_default_wording(self) -> bool {
        &&& self.exit_hint@ == "  press Ctrl-C again to exit"@
        &&& self.unknown_command@ == "Unknown or incomplete command"@
        &&& self.incorrect_argument@ == "Incorrect argument for command"@
        &&& self.history_search@ == "reverse-search"@
        &&& self.history_search_failing@ == "failing "@
        &&& self.command_panicked@ == "the command panicked; the console caught it"@
        &&& self.command_ran_inline@ == "could not spawn a thread; ran the command inline"@
    }
}

impl Default for Text {
    fn default() -> (text: Self)
        ensures
            text.is_default_wording(),
    {
        Text {
            exit_hint: String::from_str("  press Ctrl-C again to exit"),
            unknown_command: String::from_str("Unknown or incomplete command"),
            incorrect_argument: String::from_str("Incorrect argument for command"),
            history_search: String::from_str("reverse-search"),
            history_search_failing: String::from_str("failing "),
            command_panicked: String::from_str("the command panicked; the console caught it"),
            command_ran_inline: String::from_str(
                "could not spawn a thread; ran the command inline",
            ),
        }
    }
}

} // verus!
