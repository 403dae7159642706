//! The two-stage Ctrl-C.
//!
//! As in most shells: with something on the line, Ctrl-C only wipes it; on an
//! empty line the first Ctrl-C shows "press again to exit", and the next one
//! exits.
//!
//! The line editor wipes the line before it reports Ctrl-C, so by the time the
//! signal arrives there is no telling whether the line was empty. The
//! highlighter sees the whole line on every redraw, so it keeps a shadow of it
//! in a [`LineShadow`].

use vstd::prelude::*;

use crate::util::{blank, is_blank};

verus! {

/// The input line as of the latest redraw.
#[derive(Debug, Clone, Default)]
pub struct LineShadow {
    line: String,
}

impl View for LineShadow {
    type V = Seq<char>;

    closed spec fn view(&self) -> Seq<char> {
        self.line@
    }
}

impl LineShadow {
    pub fn new() -> (shadow: Self)
        ensures
            shadow@ == Seq::<char>::empty(),
    {
        LineShadow { line: String::new() }
    }

    /// Remember the line that is being drawn. Only the latest one counts.
    pub fn record(&mut self, line: &str)
        ensures
            final(self)@ == line@,
    {
        self.line = line.to_owned();
    }

    /// Whether the line was empty (or only blank) when Ctrl-C came.
    pub fn was_empty(&self) -> (empty: bool)
        ensures
            empty == is_blank(self@),
    {
        blank(self.line.as_str())
    }
}

/// Whether "press again to exit" is showing.
#[derive(Debug, Clone, Copy, Default)]
pub struct ExitArmed {
    armed: bool,
}

impl View for ExitArmed {
    type V = bool;

    closed spec fn view(&self) -> bool {
        self.armed
    }
}

impl ExitArmed {
    pub fn new() -> (armed: Self)
        ensures
            !armed@,
    {
        ExitArmed { armed: false }
    }

    pub fn is_armed(&self) -> (armed: bool)
        ensures
            armed == self@,
    {
        self.armed
    }

    pub fn arm(&mut self)
        ensures
            final(self)@,
    {
        self.armed = true;
    }

    pub fn disarm(&mut self)
        ensures
            !final(self)@,
    {
        self.armed = false;
    }
}

/// What one Ctrl-C leads to.
#[derive(Debug, Clone, Copy, PartialEq, Eq, Structural)]
pub enum Interrupt {
    /// The line was wiped; keep waiting.
    ClearedLine,
    /// The first one on an empty line: "press again to exit" goes up.
    Armed,
    /// Pressed again while armed: exit.
    Exit,
}

/// One Ctrl-C, as a step: from whether the line was blank and whether the
/// exit was armed, to what happens and whether it is armed afterwards.
pub open spec fn interrupt_step(line_blank: bool, armed: bool) -> (Interrupt, bool) {
    if !line_blank {
        (Interrupt::ClearedLine, false)
    } else if armed {
        (Interrupt::Exit, true)
    } else {
        (Interrupt::Armed, true)
    }
}

/// Decide which of the three cases this Ctrl-C is, and update the hint state.
pub fn on_interrupt(shadow: &LineShadow, armed: &mut ExitArmed) -> (outcome: Interrupt)
    ensures
        (outcome, final(armed)@) == interrupt_step(is_blank(shadow@), old(armed)@),
{
    if !shadow.was_empty() {
        // The editor has already wiped the line; only the hint is reset.
        armed.disarm();
        return Interrupt::ClearedLine;
    }
    if armed.is_armed() {
        Interrupt::Exit
    } else {
        armed.arm();
        Interrupt::Armed
    }
}

/// On an empty line the first Ctrl-C arms the exit and the second one exits;
/// a line with anything but white space on it never exits, and disarms.
pub proof fn empty_line_arms_then_exits(line: Seq<char>)
    ensures
        is_blank(line) ==> interrupt_step(true, false) == (Interrupt::Armed, true)
            && interrupt_step(true, interrupt_step(true, false).1).0 == Interrupt::Exit,
        !is_blank(line) ==> forall|armed: bool|
            #[trigger] interrupt_step(is_blank(line), armed) == (Interrupt::ClearedLine, false),
{
}

/// The grey "press Ctrl-C again to exit" at the end of an empty line.
///
/// It is shown only while the exit is armed and the line is empty; typing
/// anything takes it down and disarms the exit.
#[derive(Debug, Clone)]
pub struct ExitHint {
    hint: String,
}

impl View for ExitHint {
    type V = Seq<char>;

    closed spec fn view(&self) -> Seq<char> {
        self.hint@
    }
}

/// What the hint shows for a line, and whether the exit stays armed.
pub open spec fn hint_step(hint: Seq<char>, armed: bool, line: Seq<char>) -> (Seq<char>, bool) {
    if !armed {
        (Seq::empty(), false)
    } else if line.len() > 0 {
        (Seq::empty(), false)
    } else {
        (hint, true)
    }
}

impl ExitHint {
    pub fn new(hint: String) -> (exit_hint: Self)
        ensures
            exit_hint@ == hint@,
    {
        ExitHint { hint }
    }

    /// The text shown at the end of `line`, without colour.
    pub fn handle(&self, armed: &mut ExitArmed, line: &str) -> (shown: String)
        ensures
            (shown@, final(armed)@) == hint_step(self@, old(armed)@, line@),
    {
        if !armed.is_armed() {
            return String::new();
        }
        // Anything typed takes the hint down: the user means to go on, not
        // to leave.
        if !line.is_empty() {
            armed.disarm();
            return String::new();
        }
        self.hint.clone()
    }

    /// The hint is no candidate: Tab and friends never put it into the line.
    pub fn complete_hint(&self) -> (completion: String)
        ensures
            completion@ == Seq::<char>::empty(),
    {
        String::new()
    }

    pub fn next_hint_token(&self) -> (token: String)
        ensures
            token@ == Seq::<char>::empty(),
    {
        String::new()
    }
}

/// Typing takes the hint down, and the next Ctrl-C on an emptied line is a
/// first one again.
pub proof fn typing_disarms(hint: Seq<char>, line: Seq<char>)
    requires
        line.len() > 0,
    ensures
        hint_step(hint, true, line) == (Seq::<char>::empty(), false),
        interrupt_step(true, hint_step(hint, true, line).1).0 == Interrupt::Armed,
{
}

} // verus!
