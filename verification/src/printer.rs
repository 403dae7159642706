//! The output side of the console: what becomes one message.
//!
//! The console owns the terminal while it runs; text written there directly
//! would land in the middle of the prompt being redrawn. Output therefore goes
//! through a printer that hands whole messages to the line editor, which
//! prints them above the prompt. This module decides what one message is.

use vstd::prelude::*;
use vstd::string::StringSliceAdditionalSpecFns;
use vstd::utf8::*;

verus! {

broadcast use {vstd::utf8::encode_utf8_valid_utf8, vstd::utf8::is_char_boundary_start_end_of_seq};

/// `bytes` with the newlines at its end taken off, none left and no other
/// byte taken.
pub open spec fn newlines_trimmed(bytes: Seq<u8>, kept: Seq<u8>) -> bool {
    &&& kept.len() <= bytes.len()
    &&& kept == bytes.subrange(0, kept.len() as int)
    &&& forall|j: int| kept.len() <= j < bytes.len() ==> #[trigger] bytes[j] == 10u8
    &&& kept.len() == 0 || kept.last() != 10u8
}

/// The message without the newlines at its end (`trim_end_matches('\n')`).
pub fn trim_trailing_newlines(message: &str) -> (kept: &str)
    ensures
        newlines_trimmed(message.spec_bytes(), kept.spec_bytes()),
{
    let bytes = message.as_bytes();
    let mut k: usize = bytes.len();
    while k > 0 && bytes[k - 1] == 10u8
        invariant
            bytes@ == message.spec_bytes(),
            k <= bytes@.len(),
            forall|j: int| k <= j < bytes@.len() ==> #[trigger] bytes@[j] == 10u8,
        decreases k,
    {
        k = k - 1;
    }
    proof {
        let b = message.spec_bytes();
        assert(valid_utf8(b));
        if k < b.len() {
            is_char_boundary_iff_not_is_continuation_byte(b, k as int);
            assert(!is_continuation_byte(b[k as int]));
        }
        assert(is_char_boundary(b, k as int));
    }
    let (kept, _) = message.split_at(k);
    kept
}

/// A text encodes to no bytes exactly when it has no characters.
pub proof fn lemma_encode_empty(chars: Seq<char>)
    ensures
        encode_utf8(chars).len() == 0 <==> chars.len() == 0,
{
    if chars.len() > 0 {
        assert(encode_scalar(chars[0] as u32).len() > 0);
    }
}

/// Whether every byte of a text is a newline (a blank message).
pub open spec fn all_newlines(bytes: Seq<u8>) -> bool {
    forall|j: int| 0 <= j < bytes.len() ==> #[trigger] bytes[j] == 10u8
}

/// What a line printed as `line` is delivered as: the line without its
/// trailing newlines, or nothing at all when that leaves it empty.
pub fn message_of(line: &str) -> (message: Option<String>)
    ensures
        message is None <==> all_newlines(line.spec_bytes()),
        message matches Some(m) ==> newlines_trimmed(line.spec_bytes(), encode_utf8(m@))
            && m@.len() > 0,
{
    let kept = trim_trailing_newlines(line);
    proof {
        lemma_encode_empty(kept@);
    }
    if kept.is_empty() {
        None
    } else {
        let m = kept.to_owned();
        proof {
            let n = kept.spec_bytes().len() as int;
            assert(line.spec_bytes()[n - 1] == kept.spec_bytes()[n - 1]);
        }
        Some(m)
    }
}

/// `String::from_utf8_lossy`, as a function of the bytes: malformed
/// sequences become U+FFFD.
pub uninterp spec fn utf8_lossy(bytes: Seq<u8>) -> Seq<char>;

/// Decodes bytes as UTF-8 with `String::from_utf8_lossy`. Its documentation
/// states that valid UTF-8 is decoded as it is; this contract states that, and
/// names the result otherwise.
#[verifier::external_body]
fn decode_lossy(bytes: &[u8]) -> (text: String)
    ensures
        text@ == utf8_lossy(bytes@),
        valid_utf8(bytes@) ==> text@ == decode_utf8(bytes@),
{
    String::from_utf8_lossy(bytes).into_owned()
}

/// What the writer side of a printer collected so far: logging frameworks
/// write one event in several pieces, and it is handed over as one message
/// when it is flushed or dropped.
#[derive(Debug, Default)]
pub struct PendingLine {
    bytes: Vec<u8>,
}

impl View for PendingLine {
    type V = Seq<u8>;

    closed spec fn view(&self) -> Seq<u8> {
        self.bytes@
    }
}

impl PendingLine {
    pub fn new() -> (pending: Self)
        ensures
            pending@ == Seq::<u8>::empty(),
    {
        PendingLine { bytes: Vec::new() }
    }

    /// Collect a piece; all of it is taken.
    pub fn write(&mut self, buf: &[u8]) -> (written: usize)
        ensures
            final(self)@ == old(self)@ + buf@,
            written == buf@.len(),
    {
        let mut i: usize = 0;
        while i < buf.len()
            invariant
                i <= buf@.len(),
                self.bytes@ == old(self)@ + buf@.subrange(0, i as int),
            decreases buf@.len() - i,
        {
            self.bytes.push(buf[i]);
            i = i + 1;
            assert(buf@.subrange(0, i as int) =~= buf@.subrange(0, i - 1) + seq![buf@[i - 1]]);
        }
        assert(buf@.subrange(0, buf@.len() as int) =~= buf@);
        buf.len()
    }

    /// Hand over what was collected, decoded, and start afresh. Nothing is
    /// handed over when nothing but newlines was collected; what was handed
    /// over once is never handed over again.
    pub fn take(&mut self) -> (message: Option<String>)
        ensures
            final(self)@ == Seq::<u8>::empty(),
            old(self)@.len() == 0 ==> message is None,
            message matches Some(m) ==> m@.len() > 0,
            old(self)@.len() > 0 ==> ({
                let decoded = utf8_lossy(old(self)@);
                &&& (message is None <==> all_newlines(encode_utf8(decoded)))
                &&& message matches Some(m) ==> newlines_trimmed(
                    encode_utf8(decoded),
                    encode_utf8(m@),
                )
            }),
            // What was collected is well-formed text: the message is its
            // bytes without the trailing newlines, exactly.
            valid_utf8(old(self)@) ==> {
                &&& (message is None <==> all_newlines(old(self)@))
                &&& message matches Some(m) ==> newlines_trimmed(old(self)@, encode_utf8(m@))
            },
    {
        if self.bytes.len() == 0 {
            return None;
        }
        let text = decode_lossy(self.bytes.as_slice());
        proof {
            if valid_utf8(old(self)@) {
                decode_utf8_encode_utf8(old(self)@);
            }
        }
        self.bytes = Vec::new();
        let message = message_of(text.as_str());
        message
    }
}

} // verus!
