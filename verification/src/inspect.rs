//! What a line says that is not a candidate.
//!
//! The completion menu holds only candidates that can be inserted. What an
//! argument wants and why a line does not stand are notes, and each has its
//! own place:
//!
//! | finding | drawn |
//! |---------|-------|
//! | which argument belongs here | ghost text at the cursor, as `<message>` |
//! | what that argument is | to the right of the input |
//! | why the line does not stand | to the right of the input |

use vstd::prelude::*;
use vstd::string::*;

use crate::text::Text;
use crate::theme::Piece;
use crate::util::{blank, is_blank};

verus! {

/// At most this many examples are listed for an argument; some argument
/// types give six, which would crowd the prompt line.
pub const EXAMPLES: usize = 3;

/// What a line says.
#[derive(Debug, Default, PartialEq, Eq)]
pub struct Inspection {
    /// The argument placeholder at the cursor, such as `<message>`.
    pub placeholder: Option<String>,
    /// The note to the right: the reason of a failure, or else what the
    /// argument is.
    pub aside: Option<(String, Piece)>,
}

/// The argument that belongs at the cursor.
#[derive(Debug)]
pub struct Expected {
    pub name: String,
    /// What the node says of itself.
    pub description: Option<String>,
    /// The examples that its argument type gives.
    pub examples: Vec<String>,
}

/// What the parse of a line found out, as far as the notes need it.
#[derive(Debug)]
pub struct LineFacts {
    /// Input was left over after the parse.
    pub has_leftover: bool,
    /// A command is attached somewhere along the chain of contexts.
    pub runnable: bool,
    /// Not even one node matched.
    pub matched_nothing: bool,
    /// The menu has candidates for the cursor.
    pub has_candidates: bool,
    /// Nothing of the token at the cursor is typed yet.
    pub token_empty: bool,
    /// The first argument child (by name) of the node before the cursor.
    pub expected: Option<Expected>,
}

/// The first child that is an argument, in the order given; a child that is
/// no argument is `None`.
pub open spec fn first_argument_spec(children: Seq<Option<Expected>>) -> Option<Expected>
    decreases children.len(),
{
    if children.len() == 0 {
        None
    } else if children[0] is Some {
        children[0]
    } else {
        first_argument_spec(children.drop_first())
    }
}

/// The first argument among the children of a node, in their order (the
/// command tree keeps them ordered by name, so the choice is stable between
/// redraws).
pub fn first_argument(children: Vec<Option<Expected>>) -> (found: Option<Expected>)
    ensures
        found == first_argument_spec(children@),
{
    let ghost all = children@;
    let mut rest = children;
    let mut found: Option<Expected> = None;
    while found.is_none() && rest.len() > 0
        invariant
            found is None ==> first_argument_spec(rest@) == first_argument_spec(all),
            found is Some ==> found == first_argument_spec(all),
        decreases rest@.len(),
    {
        let ghost before = rest@;
        let child = rest.remove(0);
        proof {
            assert(child == before[0]);
            assert(before.drop_first() =~= rest@);
        }
        found = child;
    }
    found
}

/// Texts joined by a separator.
pub open spec fn join_spec(parts: Seq<Seq<char>>, sep: Seq<char>) -> Seq<char>
    decreases parts.len(),
{
    if parts.len() == 0 {
        Seq::empty()
    } else if parts.len() == 1 {
        parts[0]
    } else {
        join_spec(parts.drop_last(), sep) + sep + parts.last()
    }
}

/// The examples of an argument, at most three of them, as `0 | 123 | -123`.
pub open spec fn examples_spec(examples: Seq<Seq<char>>) -> Option<Seq<char>> {
    if examples.len() == 0 {
        None
    } else {
        Some(join_spec(examples.take(if examples.len() < 3 { examples.len() as int } else { 3 }), " | "@))
    }
}

/// Some examples of what an argument takes, when it has no description.
pub fn examples_of(examples: &Vec<String>) -> (note: Option<String>)
    ensures
        match note {
            Some(n) => examples_spec(examples@.map_values(|e: String| e@)) == Some(n@),
            None => examples_spec(examples@.map_values(|e: String| e@)) is None,
        },
{
    let ghost all = examples@.map_values(|e: String| e@);
    if examples.len() == 0 {
        return None;
    }
    let count = if examples.len() < EXAMPLES {
        examples.len()
    } else {
        EXAMPLES
    };
    let mut note = examples[0].clone();
    let mut i: usize = 1;
    proof {
        assert(all.take(1) =~= seq![all[0]]);
    }
    while i < count
        invariant
            all == examples@.map_values(|e: String| e@),
            1 <= i <= count <= examples@.len(),
            note@ == join_spec(all.take(i as int), " | "@),
        decreases count - i,
    {
        note.append(" | ");
        note.append(examples[i].as_str());
        proof {
            reveal_strlit(" | ");
            assert(all.take(i + 1).drop_last() =~= all.take(i as int));
            assert(all.take(i + 1).last() == examples@[i as int]@);
        }
        i = i + 1;
    }
    Some(note)
}

/// Why the line does not stand, in one sentence; nothing for a blank line
/// or a line that can already run.
pub open spec fn failure_spec(text: Text, line: Seq<char>, facts: LineFacts) -> Option<Seq<char>> {
    if is_blank(line) {
        None
    } else if !facts.has_leftover && facts.runnable {
        None
    } else if facts.matched_nothing {
        Some(text.unknown_command@)
    } else {
        Some(text.incorrect_argument@)
    }
}

/// The notes of a line.
///
/// A placeholder is given only when nothing is to hand: not when the menu
/// has candidates (it already lists everything that can be typed there), and
/// not once the token at the cursor is being typed. A failure is reported
/// only when there is neither. The note on the right is the failure, or else
/// what the expected argument is.
pub open spec fn inspection_spec(text: Text, line: Seq<char>, facts: LineFacts) -> (Option<Seq<char>>, Option<(Seq<char>, Piece)>) {
    let expected = if !facts.has_candidates && facts.token_empty {
        facts.expected
    } else {
        None
    };
    let placeholder = match expected {
        Some(e) => Some("<"@ + e.name@ + ">"@),
        None => None,
    };
    let failure = if !facts.has_candidates && placeholder is None {
        failure_spec(text, line, facts)
    } else {
        None
    };
    let about = match expected {
        Some(e) => match e.description {
            Some(d) => Some(d@),
            None => examples_spec(e.examples@.map_values(|x: String| x@)),
        },
        None => None,
    };
    let aside = match failure {
        Some(f) => Some((f, Piece::Failure)),
        None => match (expected, about) {
            (Some(e), Some(a)) => Some(("<"@ + e.name@ + "> "@ + a, Piece::Hint)),
            _ => None,
        },
    };
    (placeholder, aside)
}

/// Whether a note on the right reports a failure.
pub open spec fn is_failure(aside: Option<(Seq<char>, Piece)>) -> bool {
    aside matches Some((_, piece)) && piece == Piece::Failure
}

/// The notes never contradict each other or the menu: with candidates in the
/// menu there is neither a placeholder nor a failure; a placeholder and a
/// failure never come together; a blank line, or one that can run as it is,
/// is never a failure; and a failure is reported exactly when nothing else is
/// to hand and the line neither is blank nor runs.
pub proof fn the_notes_agree(text: Text, line: Seq<char>, facts: LineFacts)
    ensures
        ({
            let (placeholder, aside) = inspection_spec(text, line, facts);
            &&& facts.has_candidates ==> placeholder is None && !is_failure(aside)
            &&& placeholder is Some ==> !is_failure(aside)
            &&& is_blank(line) ==> !is_failure(aside)
            &&& (!facts.has_leftover && facts.runnable) ==> !is_failure(aside)
            &&& is_failure(aside) <==> (!facts.has_candidates && placeholder is None
                && failure_spec(text, line, facts) is Some)
        }),
{
}

/// An argument's own description comes first: when one is written, the note
/// on the right is the argument's name and that description, whatever its
/// examples, and the placeholder is its name; the examples stand in only
/// when no description is written.
pub proof fn the_description_comes_first(text: Text, line: Seq<char>, facts: LineFacts)
    requires
        facts.expected is Some,
        !facts.has_candidates,
        facts.token_empty,
    ensures
        ({
            let e = facts.expected->0;
            let (placeholder, aside) = inspection_spec(text, line, facts);
            &&& placeholder == Some("<"@ + e.name@ + ">"@)
            &&& e.description matches Some(d) ==> aside == Some(("<"@ + e.name@ + "> "@ + d@, Piece::Hint))
            &&& e.description is None ==> aside == match examples_spec(e.examples@.map_values(|x: String| x@)) {
                Some(x) => Some(("<"@ + e.name@ + "> "@ + x, Piece::Hint)),
                None => None,
            }
        }),
{
}

/// Read the notes of a line out of what its parse found.
pub fn inspect(text: &Text, line: &str, facts: LineFacts) -> (seen: Inspection)
    ensures
        ({
            let (placeholder, aside) = inspection_spec(*text, line@, facts);
            &&& match seen.placeholder {
                Some(p) => placeholder == Some(p@),
                None => placeholder is None,
            }
            &&& match seen.aside {
                Some((a, piece)) => aside == Some((a@, piece)),
                None => aside is None,
            }
        }),
        // Where an argument is expected and nothing else is to hand, its own
        // description is the note, whatever examples its type gives.
        match facts.expected {
            Some(e) => match e.description {
                Some(d) => !facts.has_candidates && facts.token_empty ==> (seen.aside matches Some((a, piece))
                    && a@ == "<"@ + e.name@ + "> "@ + d@ && piece == Piece::Hint),
                None => true,
            },
            None => true,
        },
{
    let ghost given = facts;
    let LineFacts { has_leftover, runnable, matched_nothing, has_candidates, token_empty, expected } =
        facts;
    let expected = if !has_candidates && token_empty {
        expected
    } else {
        None
    };
    let placeholder = match &expected {
        Some(e) => {
            let mut p = String::from_str("<");
            p.append(e.name.as_str());
            p.append(">");
            proof {
                reveal_strlit("<");
                reveal_strlit(">");
            }
            Some(p)
        },
        None => None,
    };
    let failure = if !has_candidates && placeholder.is_none() {
        if blank(line) {
            None
        } else if !has_leftover && runnable {
            None
        } else if matched_nothing {
            Some(text.unknown_command.clone())
        } else {
            Some(text.incorrect_argument.clone())
        }
    } else {
        None
    };
    let aside = match failure {
        Some(f) => Some((f, Piece::Failure)),
        None => match expected {
            Some(e) => {
                let about = match e.description {
                    Some(d) => Some(d),
                    None => examples_of(&e.examples),
                };
                match about {
                    Some(a) => {
                        let mut note = String::from_str("<");
                        note.append(e.name.as_str());
                        note.append("> ");
                        note.append(a.as_str());
                        proof {
                            reveal_strlit("<");
                            reveal_strlit("> ");
                        }
                        Some((note, Piece::Hint))
                    },
                    None => None,
                }
            },
            None => None,
        },
    };
    Inspection { placeholder, aside }
}

/// Whether a line is attached to a command anywhere along its chain of
/// contexts (redirects and subcommands chain them).
pub fn is_runnable(has_command: &Vec<bool>) -> (runnable: bool)
    ensures
        runnable == exists|i: int| 0 <= i < has_command@.len() && #[trigger] has_command@[i],
{
    let mut i: usize = 0;
    while i < has_command.len()
        invariant
            i <= has_command@.len(),
            forall|j: int| 0 <= j < i ==> !(#[trigger] has_command@[j]),
        decreases has_command@.len() - i,
    {
        if has_command[i] {
            assert(has_command@[i as int]);
            return true;
        }
        i = i + 1;
    }
    false
}

/// Whether nothing of the token at the cursor is typed yet: the suggestion
/// context at the cursor starts right there. `context_start` is where the
/// suggestion context starts; it is only known when the parse started at or
/// before the cursor.
pub fn token_is_empty(context_start: Option<usize>, cursor: usize) -> (empty: bool)
    ensures
        empty == (context_start == Some(cursor)),
{
    match context_start {
        Some(start) => start == cursor,
        None => false,
    }
}

} // verus!
