//! What the prompt says.
//!
//! The default prompt is kept plain: the log and the command output are what
//! matter on screen, and the prompt only marks where to type. A prompt of the
//! user's own may replace it; the note to the right of the input is still the
//! console's whenever it has something to say.

use vstd::prelude::*;
use vstd::string::*;

use crate::text::Text;
use crate::theme::Piece;

verus! {

/// The note to the right of the input: why the line does not stand, or what
/// belongs here.
///
/// The highlighter fills it on every redraw and the prompt reads it: the
/// prompt cannot see the input, and the highlighter is the one place that sees
/// the whole line on every redraw, and parses it anyway.
#[derive(Debug, Clone, Default)]
pub struct Aside {
    text: Option<(String, Piece)>,
}

impl View for Aside {
    type V = Option<(Seq<char>, Piece)>;

    closed spec fn view(&self) -> Option<(Seq<char>, Piece)> {
        match self.text {
            Some((text, piece)) => Some((text@, piece)),
            None => None,
        }
    }
}

impl Aside {
    pub fn new() -> (aside: Self)
        ensures
            aside@ is None,
    {
        Aside { text: None }
    }

    pub fn set(&mut self, text: Option<(String, Piece)>)
        ensures
            final(self)@ == match text {
                Some((t, p)) => Some((t@, p)),
                None => None::<(Seq<char>, Piece)>,
            },
    {
        self.text = text;
    }

    pub fn get(&self) -> (text: Option<(String, Piece)>)
        ensures
            self@ == match text {
                Some((t, p)) => Some((t@, p)),
                None => None::<(Seq<char>, Piece)>,
            },
    {
        match &self.text {
            Some((text, piece)) => Some((text.clone(), *piece)),
            None => None,
        }
    }
}

/// Who draws the right-hand side of the prompt.
#[derive(Debug, Clone, PartialEq, Eq)]
pub enum RightSide {
    /// The console's note, coloured as the piece says.
    Note(String, Piece),
    /// The right-hand side of the user's own prompt.
    Custom,
    /// Nothing.
    Blank,
}

/// The right-hand side: the console's note whenever it has one, since it is
/// the console's only feedback on what is being typed; otherwise the user's
/// own prompt, if there is one.
pub fn right_side(aside: &Aside, custom_prompt: bool) -> (side: RightSide)
    ensures
        match aside@ {
            Some((text, piece)) => side matches RightSide::Note(t, p) && t@ == text && p == piece,
            None => if custom_prompt {
                side == RightSide::Custom
            } else {
                side == RightSide::Blank
            },
        },
{
    match aside.get() {
        Some((text, piece)) => RightSide::Note(text, piece),
        None => if custom_prompt {
            RightSide::Custom
        } else {
            RightSide::Blank
        },
    }
}

/// The history search indicator of the default prompt, such as
/// `(reverse-search: ec) ` or, when nothing is found,
/// `(failing reverse-search: ec) `.
pub open spec fn history_search_label(text: Text, failing: bool, term: Seq<char>) -> Seq<char> {
    "("@ + (if failing {
        text.history_search_failing@
    } else {
        Seq::empty()
    }) + text.history_search@ + ": "@ + term + ") "@
}

/// The history search indicator of the default prompt; its wording comes from
/// the text table.
pub fn history_search_indicator(text: &Text, failing: bool, term: &str) -> (indicator: String)
    ensures
        indicator@ == history_search_label(*text, failing, term@),
{
    let mut indicator = String::from_str("(");
    if failing {
        indicator.append(text.history_search_failing.as_str());
    }
    indicator.append(text.history_search.as_str());
    indicator.append(": ");
    indicator.append(term);
    indicator.append(") ");
    proof {
        reveal_strlit("(");
        reveal_strlit(": ");
        reveal_strlit(") ");
        assert(indicator@ =~= history_search_label(*text, failing, term@));
    }
    indicator
}

} // verus!
