//! What goes into the completion menu.
//!
//! Only candidates that can really be inserted into the line go into the
//! menu. What an argument wants and why a line does not stand are notes, not
//! candidates, and they have places of their own (see the inspection
//! module). Offsets on both sides are byte offsets, so non-ASCII input needs
//! no conversion.

use vstd::prelude::*;
use vstd::string::StringSliceAdditionalSpecFns;
use vstd::utf8::*;

use crate::util::slice;

verus! {

broadcast use vstd::utf8::encode_utf8_valid_utf8;

/// A range of a line, by byte offsets.
#[derive(Debug, Clone, Copy, PartialEq, Eq, Structural)]
pub struct Span {
    pub start: usize,
    pub end: usize,
}

/// A completion candidate: the text to put in, the byte range of the line
/// that it replaces, and the description of its node.
///
/// Taking a candidate only replaces its range; no blank is ever appended.
#[derive(Debug, Clone, PartialEq, Eq)]
pub struct Candidate {
    pub value: String,
    pub description: Option<String>,
    /// The replaced part of the line.
    pub span: Span,
}

/// Whether a candidate may be offered to the source right now.
///
/// The command tree lists candidates without asking `requires`: in the game
/// each player receives a tree filtered for them. A console shares one tree,
/// so the requirement is the only gate, and candidates are filtered here, or
/// a command would be in the menu, red when typed and unknown when run.
///
/// A literal child of that name answers for itself. Other values come from
/// argument children (`true` and `false`, custom providers); which one gave
/// the value is not told, so they pass while at least one argument child may
/// be used, or when there is none.
pub open spec fn usable_spec(literal: Option<bool>, arguments: Seq<bool>) -> bool {
    match literal {
        Some(can_use) => can_use,
        None => arguments.len() == 0 || exists|i: int| 0 <= i < arguments.len() && #[trigger] arguments[i],
    }
}

/// Whether a candidate may be offered: `literal` is whether the literal
/// child of that name may be used, if there is one; `arguments` whether each
/// argument child may.
pub fn usable(literal: Option<bool>, arguments: &Vec<bool>) -> (ok: bool)
    ensures
        ok == usable_spec(literal, arguments@),
        literal matches Some(can_use) ==> ok == can_use,
        literal is None && arguments@.len() > 0 && (forall|i: int|
            0 <= i < arguments@.len() ==> !(#[trigger] arguments@[i])) ==> !ok,
        literal is None && (exists|i: int| 0 <= i < arguments@.len() && #[trigger] arguments@[i]) ==> ok,
{
    match literal {
        Some(can_use) => can_use,
        None => {
            if arguments.len() == 0 {
                return true;
            }
            let mut i: usize = 0;
            while i < arguments.len()
                invariant
                    literal is None,
                    i <= arguments@.len(),
                    forall|j: int| 0 <= j < i ==> !(#[trigger] arguments@[j]),
                decreases arguments@.len() - i,
            {
                if arguments[i] {
                    assert(arguments@[i as int]);
                    return true;
                }
                i = i + 1;
            }
            false
        },
    }
}

/// Whether the suggestion context for the cursor can be looked up: the
/// command tree finds it only for a cursor at or after where the parse's
/// context starts, and gives up (with a panic) otherwise. Before that, the
/// candidates of the tree are taken as they are.
pub fn context_reaches(context_start: usize, cursor: usize) -> (reaches: bool)
    ensures
        reaches == (context_start <= cursor),
{
    context_start <= cursor
}

/// Completion offers nothing the source may not use: a literal of that name
/// answers for itself; otherwise, where the node has argument children and
/// the source may use none of them, their values are not offered, and where
/// it may use one, they are. Values of a node without argument children pass.
pub proof fn only_usable_values_are_offered(literal: Option<bool>, arguments: Seq<bool>)
    ensures
        literal matches Some(can_use) ==> usable_spec(literal, arguments) == can_use,
        literal is None && arguments.len() > 0 && (forall|i: int| 0 <= i < arguments.len() ==> !(#[trigger] arguments[i]))
            ==> !usable_spec(literal, arguments),
        literal is None && (exists|i: int| 0 <= i < arguments.len() && #[trigger] arguments[i])
            ==> usable_spec(literal, arguments),
        literal is None && arguments.len() == 0 ==> usable_spec(literal, arguments),
{
}

/// The part of the line that a command name typed in full occupies.
///
/// The command tree drops the candidate that equals what was typed ("a
/// completion that completes nothing"). In the game a separate error line
/// makes up for it; here the menu is the only feedback, and a command name
/// typed in full would show nothing, as if it were wrong. So the console puts
/// that one back, when the word typed is exactly the name of a literal.
pub open spec fn typed_span_spec(b: Seq<u8>, start_pos: int, pos: int) -> Option<(int, int)> {
    let start = if start_pos < pos {
        start_pos
    } else {
        pos
    };
    if pos > b.len() || !is_char_boundary(b, start) || !is_char_boundary(b, pos) || start == pos {
        None
    } else {
        Some((start, pos))
    }
}

/// The word typed at the cursor, from where the suggestion context starts up
/// to the cursor, with its span; nothing when it is empty or does not fall
/// between characters.
pub fn typed_word(line: &str, start_pos: usize, pos: usize) -> (typed: Option<(Span, &str)>)
    ensures
        match (typed, typed_span_spec(line.spec_bytes(), start_pos as int, pos as int)) {
            (Some((span, word)), Some((s2, e2))) => span.start == s2 && span.end == e2 && word.spec_bytes()
                == line.spec_bytes().subrange(s2, e2),
            (None, None) => true,
            _ => false,
        },
{
    let start = if start_pos < pos {
        start_pos
    } else {
        pos
    };
    let len = line.as_bytes().len();
    if pos > len || !line.is_char_boundary(start) || !line.is_char_boundary(pos) || start == pos {
        return None;
    }
    Some((Span { start, end: pos }, slice(line, start, pos)))
}

/// The candidate for a command name typed in full: the word itself, over the
/// span it occupies, with the description of the literal of that name; only
/// when there is such a literal (`literal` is whether the source may use it)
/// and the source may use it.
pub fn exact_literal_candidate(span: Span, word: &str, literal: Option<bool>, description: Option<String>) -> (candidate: Option<Candidate>)
    ensures
        candidate is Some <==> literal == Some(true),
        candidate matches Some(c) ==> c.value@ == word@ && c.span == span && c.description
            == description,
{
    match literal {
        Some(true) => Some(Candidate { value: word.to_owned(), description, span }),
        _ => None,
    }
}

/// The candidates whose verdict is `true`, in their order.
pub open spec fn kept_spec(found: Seq<Candidate>, verdicts: Seq<bool>) -> Seq<Candidate>
    decreases found.len(),
{
    if found.len() == 0 {
        Seq::empty()
    } else {
        let last = found.len() - 1;
        let rest = kept_spec(found.take(last), verdicts.take(last));
        if verdicts[last] {
            rest.push(found[last])
        } else {
            rest
        }
    }
}

/// What goes into the menu: the candidates of the command tree that the
/// source may use (`verdicts`, one per candidate, from [`usable`]), in their
/// order, followed by the command name typed in full, if there is one.
pub fn menu_candidates(found: Vec<Candidate>, verdicts: &Vec<bool>, exact: Option<Candidate>) -> (menu: Vec<Candidate>)
    requires
        found@.len() == verdicts@.len(),
    ensures
        menu@ == match exact {
            Some(c) => kept_spec(found@, verdicts@).push(c),
            None => kept_spec(found@, verdicts@),
        },
{
    let ghost all = found@;
    let mut rest = found;
    let mut menu: Vec<Candidate> = Vec::new();
    let mut i: usize = 0;
    while i < verdicts.len()
        invariant
            all.len() == verdicts@.len(),
            i <= all.len(),
            rest@ == all.skip(i as int),
            menu@ == kept_spec(all.take(i as int), verdicts@.take(i as int)),
        decreases all.len() - i,
    {
        let candidate = rest.remove(0);
        proof {
            let next = i + 1;
            assert(all.take(next).take(i as int) =~= all.take(i as int));
            assert(verdicts@.take(next).take(i as int) =~= verdicts@.take(i as int));
            assert(all.take(next)[i as int] == all[i as int]);
            assert(verdicts@.take(next)[i as int] == verdicts@[i as int]);
            assert(candidate == all[i as int]);
            assert(rest@ =~= all.skip(next));
        }
        if verdicts[i] {
            menu.push(candidate);
        }
        i = i + 1;
    }
    proof {
        assert(all.take(all.len() as int) =~= all);
        assert(verdicts@.take(verdicts@.len() as int) =~= verdicts@);
    }
    match exact {
        Some(c) => menu.push(c),
        None => {},
    }
    menu
}

} // verus!
