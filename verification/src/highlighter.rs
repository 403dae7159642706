//! Syntax colouring from the live parse of the line.
//!
//! A line is cut into three kinds of pieces for the colouring function:
//! literals with their blanks, arguments (with their position), and the tail
//! that did not parse. The kinds say nothing about validity or type: a command
//! name is a literal whether it is right or wrong, and a mistyped line looks
//! red because none of it parsed.
//!
//! The ghost text at the cursor is drawn here as well: the rest of the
//! candidate selected in the menu, or a `<placeholder>` where an argument
//! belongs.

use vstd::prelude::*;
use vstd::string::StringSliceAdditionalSpecFns;
use vstd::utf8::*;

use crate::theme::Piece;
use crate::completer::Candidate;
use crate::menu::{MenuCursor, selected_index};
use crate::util::{has_prefix, slice, starts_with};

verus! {

broadcast use {
    vstd::utf8::encode_utf8_valid_utf8,
    vstd::utf8::is_char_boundary_start_end_of_seq,
};

/// One piece of a coloured line: its kind, its position among the arguments
/// (0 for every other kind), and its text.
#[derive(Debug, Clone, PartialEq, Eq)]
pub struct Styled {
    pub piece: Piece,
    pub index: usize,
    pub text: String,
}

/// A piece by byte offsets: kind, position, start, end.
pub type Segment = (Piece, nat, int, int);

pub open spec fn literal_seg(at: int, start: int) -> Seq<Segment> {
    if at < start {
        seq![(Piece::Literal, 0nat, at, start)]
    } else {
        seq![]
    }
}

pub open spec fn piece_seg(piece: Piece, index: nat, start: int, end: int) -> Seq<Segment> {
    if start < end {
        seq![(piece, index, start, end)]
    } else {
        seq![]
    }
}

/// Whether an argument range is coloured: it starts where the line so far
/// ends or later, lies within the line, and falls between characters.
pub open spec fn accepted(b: Seq<u8>, range: (usize, usize), at: int) -> bool {
    &&& at <= range.0
    &&& range.0 <= range.1 <= b.len()
    &&& is_char_boundary(b, range.0 as int)
    &&& is_char_boundary(b, range.1 as int)
}

/// The pieces made of the arguments, in the order in which they were parsed,
/// and where the coloured part of the line ends.
pub open spec fn scan_arguments(b: Seq<u8>, ranges: Seq<(usize, usize)>) -> (Seq<Segment>, int)
    decreases ranges.len(),
{
    if ranges.len() == 0 {
        (seq![], 0)
    } else {
        let (segs, at) = scan_arguments(b, ranges.drop_last());
        let i = (ranges.len() - 1) as nat;
        let (s, e) = ranges.last();
        if accepted(b, ranges.last(), at) {
            (segs + literal_seg(at, s as int) + piece_seg(Piece::Argument, i, s as int, e as int), e as int)
        } else {
            (segs, at)
        }
    }
}

pub open spec fn min_int(a: int, b: int) -> int {
    if a < b {
        a
    } else {
        b
    }
}

pub open spec fn max_int(a: int, b: int) -> int {
    if a < b {
        b
    } else {
        a
    }
}

/// The pieces made of the tail that did not parse, given where the parse
/// stopped and how much was left.
pub open spec fn scan_tail(b: Seq<u8>, at: int, tail: Option<(usize, usize)>) -> (Seq<Segment>, int) {
    match tail {
        None => (seq![], at),
        Some((cursor, remaining)) => {
            let start = min_int(max_int(cursor as int, at), b.len() as int);
            let end = min_int(cursor + remaining, b.len() as int);
            if start < end && is_char_boundary(b, start) && is_char_boundary(b, end) {
                (literal_seg(at, start) + piece_seg(Piece::Unparsed, 0, start, end), end)
            } else {
                (seq![], at)
            }
        },
    }
}

/// The pieces of a line: arguments, the unparsed tail, and literals between
/// and after them.
pub open spec fn line_segments(b: Seq<u8>, ranges: Seq<(usize, usize)>, tail: Option<(usize, usize)>) -> Seq<Segment> {
    let (args, at) = scan_arguments(b, ranges);
    let (rest, end) = scan_tail(b, at, tail);
    args + rest + literal_seg(end, b.len() as int)
}

/// The texts of pieces.
pub open spec fn segment_texts(b: Seq<u8>, segs: Seq<Segment>) -> Seq<Seq<u8>> {
    segs.map_values(|s: Segment| b.subrange(s.2, s.3))
}

/// The pieces of `b` up to `at`, in order, none of them empty.
pub open spec fn covers(b: Seq<u8>, segs: Seq<Segment>, at: int) -> bool {
    &&& 0 <= at <= b.len()
    &&& is_char_boundary(b, at)
    &&& segment_texts(b, segs).flatten() == b.subrange(0, at)
    &&& forall|k: int| 0 <= k < segs.len() ==> (#[trigger] segs[k]).2 < segs[k].3
}

proof fn lemma_covers_extend(b: Seq<u8>, segs: Seq<Segment>, at: int, extra: Seq<Segment>, end: int)
    requires
        covers(b, segs, at),
        valid_utf8(b),
        at <= end <= b.len(),
        is_char_boundary(b, end),
        extra.len() == 0 ==> at == end,
        extra.len() == 1 ==> extra[0].2 == at && extra[0].3 == end && at < end,
        extra.len() <= 1,
    ensures
        covers(b, segs + extra, end),
{
    assert(segment_texts(b, segs + extra) =~= segment_texts(b, segs) + segment_texts(b, extra));
    vstd::seq_lib::lemma_flatten_concat(segment_texts(b, segs), segment_texts(b, extra));
    if extra.len() == 1 {
        assert(segment_texts(b, extra) =~= seq![b.subrange(at, end)]);
        assert(seq![b.subrange(at, end)] =~= Seq::<Seq<u8>>::empty().push(b.subrange(at, end)));
        Seq::<Seq<u8>>::empty().lemma_flatten_push(b.subrange(at, end));
        assert(Seq::<Seq<u8>>::empty().flatten() =~= Seq::<u8>::empty());
        assert(segment_texts(b, extra).flatten() =~= b.subrange(at, end));
    } else {
        assert(segment_texts(b, extra) =~= Seq::<Seq<u8>>::empty());
    }
    assert(b.subrange(0, at) + b.subrange(at, end) =~= b.subrange(0, end));
    assert forall|k: int| 0 <= k < (segs + extra).len() implies (#[trigger] (segs + extra)[k]).2 < (
    segs + extra)[k].3 by {
        if k >= segs.len() {
            assert((segs + extra)[k] == extra[k - segs.len()]);
        } else {
            assert((segs + extra)[k] == segs[k]);
        }
    }
}

proof fn lemma_literal_then_piece(
    b: Seq<u8>,
    segs: Seq<Segment>,
    at: int,
    start: int,
    end: int,
    piece: Piece,
    index: nat,
)
    requires
        covers(b, segs, at),
        valid_utf8(b),
        at <= start <= end <= b.len(),
        is_char_boundary(b, start),
        is_char_boundary(b, end),
    ensures
        covers(b, segs + literal_seg(at, start) + piece_seg(piece, index, start, end), end),
{
    lemma_covers_extend(b, segs, at, literal_seg(at, start), start);
    lemma_covers_extend(b, segs + literal_seg(at, start), start, piece_seg(piece, index, start, end), end);
}

pub proof fn lemma_scan_arguments(b: Seq<u8>, ranges: Seq<(usize, usize)>)
    requires
        valid_utf8(b),
    ensures
        covers(b, scan_arguments(b, ranges).0, scan_arguments(b, ranges).1),
    decreases ranges.len(),
{
    if ranges.len() == 0 {
        assert(segment_texts(b, seq![]) =~= Seq::<Seq<u8>>::empty());
        assert(b.subrange(0, 0) =~= Seq::<u8>::empty());
        is_char_boundary_start_end_of_seq(b);
    } else {
        lemma_scan_arguments(b, ranges.drop_last());
        let (segs, at) = scan_arguments(b, ranges.drop_last());
        let (s, e) = ranges.last();
        if accepted(b, ranges.last(), at) {
            lemma_literal_then_piece(b, segs, at, s as int, e as int, Piece::Argument, (ranges.len() - 1) as nat);
        }
    }
}

/// A line is cut into pieces that, put back together, are the line itself:
/// colouring never changes, drops or repeats a byte of the input, and no
/// piece is empty.
pub proof fn segments_preserve_the_line(b: Seq<u8>, ranges: Seq<(usize, usize)>, tail: Option<(usize, usize)>)
    requires
        valid_utf8(b),
    ensures
        segment_texts(b, line_segments(b, ranges, tail)).flatten() == b,
        forall|k: int|
            0 <= k < line_segments(b, ranges, tail).len() ==> (#[trigger] line_segments(b, ranges, tail)[k]).2
                < line_segments(b, ranges, tail)[k].3,
{
    lemma_scan_arguments(b, ranges);
    let (args, at) = scan_arguments(b, ranges);
    let (rest, end) = scan_tail(b, at, tail);
    match tail {
        None => {
            assert(rest =~= Seq::<Segment>::empty());
            assert(args + rest =~= args);
        },
        Some((cursor, remaining)) => {
            let start = min_int(max_int(cursor as int, at), b.len() as int);
            let stop = min_int(cursor + remaining, b.len() as int);
            if start < stop && is_char_boundary(b, start) && is_char_boundary(b, stop) {
                lemma_literal_then_piece(b, args, at, start, stop, Piece::Unparsed, 0);
                assert(args + rest =~= args + literal_seg(at, start) + piece_seg(Piece::Unparsed, 0, start, stop));
            } else {
                assert(rest =~= Seq::<Segment>::empty());
                assert(args + rest =~= args);
            }
        },
    }
    is_char_boundary_start_end_of_seq(b);
    lemma_covers_extend(b, args + rest, end, literal_seg(end, b.len() as int), b.len() as int);
    assert(b.subrange(0, b.len() as int) =~= b);
}

/// What a styled line holds: the pieces, each with the text that its offsets
/// cut out of the line.
pub open spec fn styled_as(out: Seq<Styled>, b: Seq<u8>, segs: Seq<Segment>) -> bool {
    &&& out.len() == segs.len()
    &&& forall|k: int|
        0 <= k < segs.len() ==> {
            &&& (#[trigger] out[k]).piece == segs[k].0
            &&& out[k].index == segs[k].1
            &&& encode_utf8(out[k].text@) == b.subrange(segs[k].2, segs[k].3)
        }
}

fn push_piece(
    out: &mut Vec<Styled>,
    line: &str,
    piece: Piece,
    index: usize,
    start: usize,
    end: usize,
    Ghost(segs): Ghost<Seq<Segment>>,
)
    requires
        start <= end <= line.spec_bytes().len(),
        is_char_boundary(line.spec_bytes(), start as int),
        is_char_boundary(line.spec_bytes(), end as int),
        styled_as(old(out)@, line.spec_bytes(), segs),
    ensures
        styled_as(
            final(out)@,
            line.spec_bytes(),
            segs + piece_seg(piece, index as nat, start as int, end as int),
        ),
{
    if start < end {
        let text = slice(line, start, end).to_owned();
        out.push(Styled { piece, index, text });
        proof {
            let new_segs = segs + piece_seg(piece, index as nat, start as int, end as int);
            assert forall|k: int| 0 <= k < new_segs.len() implies {
                &&& (#[trigger] out@[k]).piece == new_segs[k].0
                &&& out@[k].index == new_segs[k].1
                &&& encode_utf8(out@[k].text@) == line.spec_bytes().subrange(new_segs[k].2, new_segs[k].3)
            } by {
                if k < segs.len() {
                    assert(out@[k] == old(out)@[k]);
                    assert(new_segs[k] == segs[k]);
                }
            }
        }
    } else {
        assert(segs + piece_seg(piece, index as nat, start as int, end as int) =~= segs);
    }
}

/// A node that the parse of a line matched: whether it is an argument (a
/// literal otherwise), and the byte range that it covers.
#[derive(Debug, Clone, Copy, PartialEq, Eq, Structural)]
pub struct ParsedNode {
    pub argument: bool,
    pub start: usize,
    pub end: usize,
}

/// The ranges of the arguments among matched nodes, in the order given.
pub open spec fn argument_ranges_spec(nodes: Seq<ParsedNode>) -> Seq<(usize, usize)>
    decreases nodes.len(),
{
    if nodes.len() == 0 {
        Seq::empty()
    } else {
        let rest = argument_ranges_spec(nodes.drop_last());
        if nodes.last().argument {
            rest.push((nodes.last().start, nodes.last().end))
        } else {
            rest
        }
    }
}

/// The ranges of the arguments among the nodes that the parse of a line
/// matched, along the whole chain of contexts and in parse order: two
/// arguments of the same name, or arguments before a redirect, all count.
pub fn argument_ranges(nodes: &Vec<ParsedNode>) -> (ranges: Vec<(usize, usize)>)
    ensures
        ranges@ == argument_ranges_spec(nodes@),
{
    let mut ranges: Vec<(usize, usize)> = Vec::new();
    let mut i: usize = 0;
    proof {
        assert(nodes@.take(0) =~= Seq::<ParsedNode>::empty());
    }
    while i < nodes.len()
        invariant
            i <= nodes@.len(),
            ranges@ == argument_ranges_spec(nodes@.take(i as int)),
        decreases nodes@.len() - i,
    {
        let node = nodes[i];
        proof {
            assert(nodes@.take(i + 1).drop_last() =~= nodes@.take(i as int));
            assert(nodes@.take(i + 1).last() == node);
        }
        if node.argument {
            ranges.push((node.start, node.end));
        }
        i = i + 1;
    }
    proof {
        assert(nodes@.take(nodes@.len() as int) =~= nodes@);
    }
    ranges
}

/// Colour a line, given the byte ranges of its arguments in the order in
/// which they were parsed, and where the parse stopped with how much input
/// was left (nothing when all of it parsed).
///
/// Arguments are taken in parse order rather than by name: two arguments of
/// the same name on one chain, or arguments before a redirect, are all
/// coloured. Their position in that order is what the colouring function is
/// told, so a scheme that colours by position can be written.
pub fn styled_line(line: &str, arguments: &Vec<(usize, usize)>, tail: Option<(usize, usize)>) -> (styled: Vec<Styled>)
    ensures
        styled_as(styled@, line.spec_bytes(), line_segments(line.spec_bytes(), arguments@, tail)),
{
    let ghost b = line.spec_bytes();
    let len = line.as_bytes().len();
    let mut out: Vec<Styled> = Vec::new();
    let mut at: usize = 0;
    let ghost mut segs: Seq<Segment> = seq![];
    let mut i: usize = 0;
    proof {
        assert(arguments@.take(0) =~= Seq::<(usize, usize)>::empty());
        encode_utf8_valid_utf8(line@);
        is_char_boundary_start_end_of_seq(b);
        assert(segment_texts(b, segs) =~= Seq::<Seq<u8>>::empty());
        assert(b.subrange(0, 0) =~= Seq::<u8>::empty());
    }
    while i < arguments.len()
        invariant
            b == line.spec_bytes(),
            len == b.len(),
            i <= arguments@.len(),
            scan_arguments(b, arguments@.take(i as int)) == (segs, at as int),
            covers(b, segs, at as int),
            styled_as(out@, b, segs),
        decreases arguments@.len() - i,
    {
        proof {
            encode_utf8_valid_utf8(line@);
            lemma_scan_arguments(b, arguments@.take(i + 1));
            assert(arguments@.take(i + 1).drop_last() =~= arguments@.take(i as int));
            assert(arguments@.take(i + 1).last() == arguments@[i as int]);
        }
        let (start, end) = arguments[i];
        if at <= start && start <= end && end <= len && line.is_char_boundary(start)
            && line.is_char_boundary(end) {
            push_piece(&mut out, line, Piece::Literal, 0, at, start, Ghost(segs));
            proof {
                segs = segs + piece_seg(Piece::Literal, 0, at as int, start as int);
            }
            push_piece(&mut out, line, Piece::Argument, i, start, end, Ghost(segs));
            proof {
                segs = segs + piece_seg(Piece::Argument, i as nat, start as int, end as int);
            }
            at = end;
        }
        i = i + 1;
    }
    proof {
        encode_utf8_valid_utf8(line@);
        assert(arguments@.take(arguments@.len() as int) =~= arguments@);
    }
    match tail {
        Some((cursor, remaining)) => {
            let start = if cursor < at {
                at
            } else {
                cursor
            };
            let start = if start < len {
                start
            } else {
                len
            };
            let end = if (cursor as u128) + (remaining as u128) < (len as u128) {
                cursor + remaining
            } else {
                len
            };
            if start < end && line.is_char_boundary(start) && line.is_char_boundary(end) {
                proof {
                    lemma_literal_then_piece(b, segs, at as int, start as int, end as int, Piece::Unparsed, 0);
                }
                push_piece(&mut out, line, Piece::Literal, 0, at, start, Ghost(segs));
                proof {
                    segs = segs + piece_seg(Piece::Literal, 0, at as int, start as int);
                }
                push_piece(&mut out, line, Piece::Unparsed, 0, start, end, Ghost(segs));
                proof {
                    segs = segs + piece_seg(Piece::Unparsed, 0, start as int, end as int);
                }
                at = end;
            }
        },
        None => {},
    }
    proof {
        is_char_boundary_start_end_of_seq(b);
    }
    push_piece(&mut out, line, Piece::Literal, 0, at, len, Ghost(segs));
    proof {
        segs = segs + piece_seg(Piece::Literal, 0, at as int, len as int);
        let (args, a1) = scan_arguments(b, arguments@);
        let (rest, a2) = scan_tail(b, a1, tail);
        assert(segs =~= args + rest + literal_seg(a2, b.len() as int));
    }
    out
}

/// The texts of a coloured line, put back together, are the line itself.
pub proof fn styled_text_is_the_line(out: Seq<Styled>, b: Seq<u8>, ranges: Seq<(usize, usize)>, tail: Option<(usize, usize)>)
    requires
        valid_utf8(b),
        styled_as(out, b, line_segments(b, ranges, tail)),
    ensures
        out.map_values(|p: Styled| encode_utf8(p.text@)).flatten() == b,
{
    segments_preserve_the_line(b, ranges, tail);
    let segs = line_segments(b, ranges, tail);
    assert(out.map_values(|p: Styled| encode_utf8(p.text@)) =~= segment_texts(b, segs));
}

proof fn lemma_arguments_are_not_unparsed(b: Seq<u8>, ranges: Seq<(usize, usize)>)
    ensures
        forall|k: int|
            0 <= k < scan_arguments(b, ranges).0.len() ==> (#[trigger] scan_arguments(b, ranges).0[k]).0
                != Piece::Unparsed,
    decreases ranges.len(),
{
    if ranges.len() > 0 {
        lemma_arguments_are_not_unparsed(b, ranges.drop_last());
        let (segs, at) = scan_arguments(b, ranges.drop_last());
        let (s, e) = ranges.last();
        let extra = literal_seg(at, s as int) + piece_seg(Piece::Argument, (ranges.len() - 1) as nat, s as int, e as int);
        assert forall|k: int| 0 <= k < (segs + extra).len() implies (#[trigger] (segs + extra)[k]).0 != Piece::Unparsed by {
            if k >= segs.len() {
                assert((segs + extra)[k] == extra[k - segs.len()]);
            }
        }
    }
}

/// Only what did not parse is coloured as unparsed: no byte before the point
/// where the parse stopped is ever in an unparsed piece. And when the parse
/// stopped within the line after the last argument, the unparsed piece starts
/// exactly there, running to the end of what was left, and what lies between
/// the last argument and that point (a matched command name, say) is a
/// literal piece.
pub proof fn only_what_did_not_parse_is_unparsed(b: Seq<u8>, ranges: Seq<(usize, usize)>, tail: Option<(usize, usize)>)
    ensures
        forall|k: int|
            0 <= k < line_segments(b, ranges, tail).len() && (#[trigger] line_segments(b, ranges, tail)[k]).0
                == Piece::Unparsed ==> tail is Some && line_segments(b, ranges, tail)[k].2 >= (tail->0).0,
        match tail {
            Some((cursor, remaining)) => {
                let at = scan_arguments(b, ranges).1;
                let stop = min_int(cursor + remaining, b.len() as int);
                (at <= cursor && cursor < b.len() && remaining > 0 && is_char_boundary(b, cursor as int)
                    && is_char_boundary(b, stop)) ==> {
                    &&& line_segments(b, ranges, tail).contains((Piece::Unparsed, 0nat, cursor as int, stop))
                    &&& at < cursor ==> line_segments(b, ranges, tail).contains(
                        (Piece::Literal, 0nat, at, cursor as int),
                    )
                }
            },
            None => true,
        },
{
    lemma_arguments_are_not_unparsed(b, ranges);
    let (args, at) = scan_arguments(b, ranges);
    let (rest, end) = scan_tail(b, at, tail);
    let segs = line_segments(b, ranges, tail);
    assert(segs == args + rest + literal_seg(end, b.len() as int));
    assert forall|k: int| 0 <= k < segs.len() && (#[trigger] segs[k]).0 == Piece::Unparsed implies tail is Some
        && segs[k].2 >= (tail->0).0 by {
        if k < args.len() {
            assert(segs[k] == args[k]);
        } else if k < args.len() + rest.len() {
            assert(segs[k] == rest[k - args.len()]);
            match tail {
                Some((cursor, remaining)) => {
                    let start = min_int(max_int(cursor as int, at), b.len() as int);
                    let stop = min_int(cursor + remaining, b.len() as int);
                    if start < stop && is_char_boundary(b, start) && is_char_boundary(b, stop) {
                        if k - args.len() < literal_seg(at, start).len() {
                            assert(rest[k - args.len()] == literal_seg(at, start)[k - args.len()]);
                        } else {
                            assert(rest[k - args.len()] == piece_seg(Piece::Unparsed, 0, start, stop)[k
                                - args.len() - literal_seg(at, start).len()]);
                        }
                    }
                },
                None => {},
            }
        } else {
            assert(segs[k] == literal_seg(end, b.len() as int)[k - args.len() - rest.len()]);
        }
    }
    match tail {
        Some((cursor, remaining)) => {
            let stop = min_int(cursor + remaining, b.len() as int);
            if at <= cursor && cursor < b.len() && remaining > 0 && is_char_boundary(b, cursor as int)
                && is_char_boundary(b, stop) {
                assert(min_int(max_int(cursor as int, at), b.len() as int) == cursor);
                let lit = literal_seg(at, cursor as int);
                assert(rest == lit + seq![(Piece::Unparsed, 0nat, cursor as int, stop)]);
                assert(segs[(args.len() + lit.len()) as int] == (Piece::Unparsed, 0nat, cursor as int, stop));
                if at < cursor {
                    assert(segs[args.len() as int] == (Piece::Literal, 0nat, at, cursor as int));
                }
            }
        },
        None => {},
    }
}

/// What a candidate adds to what was typed: only when the typed part is
/// exactly the start of the candidate and the cursor is at the end of its
/// range is the rest what typing on would give; otherwise the preview would
/// lie, and there is none.
pub open spec fn remainder_spec(start: int, end: int, value: Seq<char>, b: Seq<u8>, cursor: int) -> Option<Seq<char>> {
    if end != cursor || start > end || end > b.len() || !is_char_boundary(b, start)
        || !is_char_boundary(b, end) {
        None
    } else {
        let typed = decode_utf8(b.subrange(start, end));
        if has_prefix(value, typed) && typed.len() < value.len() {
            Some(value.subrange(typed.len() as int, value.len() as int))
        } else {
            None
        }
    }
}

/// The rest of the selected candidate after what was typed.
pub fn remainder_of(selected: &Candidate, line: &str, cursor: usize) -> (rest: Option<String>)
    ensures
        match (rest, remainder_spec(selected.span.start as int, selected.span.end as int, selected.value@, line.spec_bytes(), cursor as int)) {
            (Some(r), Some(s)) => r@ == s,
            (None, None) => true,
            _ => false,
        },
{
    let start = selected.span.start;
    let end = selected.span.end;
    let len = line.as_bytes().len();
    if end != cursor || start > end || end > len {
        return None;
    }
    if !line.is_char_boundary(start) || !line.is_char_boundary(end) {
        return None;
    }
    let typed = slice(line, start, end);
    proof {
        vstd::utf8::encode_utf8_decode_utf8(typed@);
        assert(decode_utf8(line.spec_bytes().subrange(start as int, end as int)) == typed@);
    }
    let value = selected.value.as_str();
    if !starts_with(value, typed) {
        return None;
    }
    let n = value.unicode_len();
    let m = typed.unicode_len();
    if m < n {
        Some(value.substring_char(m, n).to_owned())
    } else {
        None
    }
}

/// The number of bytes in the first `k` pieces.
pub open spec fn bytes_before(pieces: Seq<Styled>, k: int) -> int
    decreases k,
{
    if k <= 0 {
        0
    } else {
        bytes_before(pieces, k - 1) + encode_utf8(pieces[k - 1].text@).len()
    }
}

/// Where the ghost goes among the pieces: before the first piece that starts
/// at the given byte offset, or after all of them.
pub open spec fn ghost_slot(pieces: Seq<Styled>, at: int, k: int) -> int
    decreases pieces.len() - k,
{
    if k >= pieces.len() {
        pieces.len() as int
    } else if bytes_before(pieces, k) == at {
        k
    } else {
        ghost_slot(pieces, at, k + 1)
    }
}

proof fn lemma_ghost_slot(pieces: Seq<Styled>, at: int, k: int)
    requires
        0 <= k <= pieces.len(),
    ensures
        k <= ghost_slot(pieces, at, k) <= pieces.len(),
    decreases pieces.len() - k,
{
    if k < pieces.len() && bytes_before(pieces, k) != at {
        lemma_ghost_slot(pieces, at, k + 1);
    }
}

/// Insert ghost text at byte offset `at` of a coloured line.
///
/// Put at the cursor, it is cut into what the editor draws after the
/// cursor, right next to it. The pieces of the line are left as they are.
pub fn with_ghost(styled: Vec<Styled>, at: usize, preview: String) -> (out: Vec<Styled>)
    ensures
        ({
            let k = ghost_slot(styled@, at as int, 0);
            out@ == styled@.take(k) + seq![Styled { piece: Piece::GhostText, index: 0, text: preview }]
                + styled@.skip(k)
        }),
{
    let ghost given = styled@;
    let ghost piece = Styled { piece: Piece::GhostText, index: 0, text: preview };
    let mut out: Vec<Styled> = Vec::new();
    let mut seen: u128 = 0;
    let mut inserted = false;
    let mut rest = styled;
    let mut i: usize = 0;
    let mut pending = Some(preview);
    let n = rest.len();
    proof {
        lemma_ghost_slot(given, at as int, 0);
    }
    while rest.len() > 0
        invariant
            n == given.len(),
            i + rest@.len() == n,
            rest@ == given.skip(i as int),
            seen as int == bytes_before(given, i as int),
            seen <= i * 0x1_0000_0000_0000_0000,
            inserted <==> pending is None,
            pending matches Some(g) ==> g == piece.text,
            piece.piece == Piece::GhostText,
            piece.index == 0,
            inserted ==> ghost_slot(given, at as int, 0) < i && out@ == given.take(i as int).take(
                ghost_slot(given, at as int, 0),
            ) + seq![piece] + given.take(i as int).skip(ghost_slot(given, at as int, 0)),
            !inserted ==> out@ == given.take(i as int) && ghost_slot(given, at as int, 0)
                == ghost_slot(given, at as int, i as int),
            0 <= ghost_slot(given, at as int, 0) <= n,
        decreases rest@.len(),
    {
        let existing = rest.remove(0);
        let ghost was_inserted = inserted;
        let ghost i0 = i as int;
        let ghost out0 = out@;
        proof {
            assert(existing == given[i as int]);
        }
        if !inserted && seen == at as u128 {
            let g = pending.take();
            match g {
                Some(text) => {
                    proof {
                        assert(Styled { piece: Piece::GhostText, index: 0, text } == piece);
                    }
                    out.push(Styled { piece: Piece::GhostText, index: 0, text });
                },
                None => {},
            }
            proof {
                assert(out@ == out0.push(piece));
            }
            inserted = true;
            proof {
                assert(ghost_slot(given, at as int, i as int) == i);
            }
        } else {
            proof {
                if !inserted {
                    assert(ghost_slot(given, at as int, i as int) == ghost_slot(given, at as int, i + 1));
                }
            }
        }
        let l = existing.text.as_str().as_bytes().len();
        seen = seen + l as u128;
        out.push(existing);
        i = i + 1;
        proof {
            let k = ghost_slot(given, at as int, 0);
            assert(rest@ =~= given.skip(i as int));
            if inserted {
                if was_inserted {
                    assert(k < i0);
                    assert(i0 < given.len());
                    assert(given.take(i as int).take(k) =~= given.take(i0).take(k));
                    assert(given.take(i as int).skip(k) =~= given.take(i0).skip(k).push(existing));
                } else {
                    assert(k == i0);
                    assert(given.take(i as int).take(k) =~= given.take(i0));
                    assert(given.take(i as int).skip(k) =~= seq![existing]);
                    assert(out@ == out0.push(piece).push(existing));
                }
                assert(out@ =~= given.take(i as int).take(k) + seq![piece] + given.take(i as int).skip(k));
            } else {
                assert(out@ =~= given.take(i as int));
            }
        }
    }
    if !inserted {
        match pending {
            Some(text) => {
                out.push(Styled { piece: Piece::GhostText, index: 0, text });
            },
            None => {},
        }
        proof {
            assert(ghost_slot(given, at as int, n as int) == n);
        }
    }
    proof {
        let k = ghost_slot(given, at as int, 0);
        assert(given.take(n as int) =~= given);
        assert(given.skip(k) =~= given.take(n as int).skip(k));
        if !inserted {
            assert(given.skip(n as int) =~= Seq::<Styled>::empty());
        }
        assert(out@ =~= given.take(k) + seq![piece] + given.skip(k));
    }
    out
}

/// Whether the completion menu is really open for a line: the editor closes
/// it when the line is emptied, and Esc puts it away. Ghost text previews the
/// selected candidate of an open menu only; an empty line lists every
/// command as a candidate, but its menu is not open.
pub fn menu_is_up(line: &str, cursor: &MenuCursor) -> (up: bool)
    ensures
        up == (line@.len() > 0 && !cursor@.1),
{
    !line.is_empty() && !cursor.is_dismissed()
}

/// What the ghost at the cursor shows: the rest of the selected candidate
/// while the menu is open and one can be previewed; otherwise the argument
/// placeholder, if any.
pub open spec fn ghost_spec(
    line: Seq<char>,
    b: Seq<u8>,
    at: int,
    cursor: (int, bool),
    candidates: Seq<Candidate>,
    placeholder: Option<Seq<char>>,
) -> Option<Seq<char>> {
    let preview = if line.len() > 0 && !cursor.1 {
        match selected_index(cursor.0, cursor.1, candidates.len()) {
            Some(i) => {
                let c = candidates[i as int];
                remainder_spec(c.span.start as int, c.span.end as int, c.value@, b, at)
            },
            None => None,
        }
    } else {
        None
    };
    match preview {
        Some(rest) => Some(rest),
        None => placeholder,
    }
}

/// The ghost text at the cursor, given the candidates computed for this very
/// line (the menu only catches up at the next redraw) and the placeholder of
/// the argument there, if any.
pub fn ghost_text(
    line: &str,
    at: usize,
    cursor: &MenuCursor,
    candidates: &Vec<Candidate>,
    placeholder: Option<String>,
) -> (shown: Option<String>)
    requires
        candidates@.len() <= isize::MAX,
    ensures
        match (shown, ghost_spec(line@, line.spec_bytes(), at as int, cursor@, candidates@, match placeholder {
            Some(p) => Some(p@),
            None => None,
        })) {
            (Some(s), Some(t)) => s@ == t,
            (None, None) => true,
            _ => false,
        },
{
    if menu_is_up(line, cursor) {
        match cursor.index(candidates.len()) {
            Some(index) => {
                match remainder_of(&candidates[index], line, at) {
                    Some(rest) => {
                        return Some(rest);
                    },
                    None => {},
                }
            },
            None => {},
        }
    }
    placeholder
}

/// The line uncoloured, as one piece, for when parsing failed outright.
pub fn plain(line: &str) -> (out: Vec<Styled>)
    ensures
        out@.len() == 1,
        out@[0].piece == Piece::Literal,
        out@[0].text@ == line@,
{
    let mut out = Vec::new();
    out.push(Styled { piece: Piece::Literal, index: 0, text: line.to_owned() });
    out
}

} // verus!
