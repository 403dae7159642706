//! What a command can leave for the console's main loop.
//!
//! Commands run on their own threads and cannot reach the loop that reads the
//! terminal; all they can do is leave the wish to exit, and wake the loop so
//! that it reads it.

use vstd::prelude::*;

verus! {

/// The exit that a command asked for, and the flag that wakes the console.
///
/// First come, first served: one exit has one reason, and later requests are
/// ignored until the loop has taken it.
#[derive(Debug)]
pub struct ExitRequest<R> {
    exit: Option<R>,
    interrupt: bool,
}

impl<R> View for ExitRequest<R> {
    type V = (Option<R>, bool);

    closed spec fn view(&self) -> (Option<R>, bool) {
        (self.exit, self.interrupt)
    }
}

/// The state after a request for `exit`: the first reason stays, and the
/// console is woken either way.
pub open spec fn after_request<R>(state: (Option<R>, bool), exit: R) -> (Option<R>, bool) {
    (
        match state.0 {
            Some(first) => Some(first),
            None => Some(exit),
        },
        true,
    )
}

/// The state after the loop took the reason away.
pub open spec fn after_take<R>(state: (Option<R>, bool)) -> (Option<R>, bool) {
    (None, state.1)
}

impl<R> ExitRequest<R> {
    pub fn new() -> (request: Self)
        ensures
            request@ == (None::<R>, false),
    {
        ExitRequest { exit: None, interrupt: false }
    }

    /// Ask for an exit and wake the console. The first request wins.
    pub fn request_exit(&mut self, exit: R)
        ensures
            final(self)@ == after_request(old(self)@, exit),
    {
        if self.exit.is_none() {
            self.exit = Some(exit);
        }
        // Wake the console from waiting for a key, or the exit would wait for
        // the next keystroke.
        self.interrupt = true;
    }

    /// Whether a command asked for an exit.
    pub fn exit_requested(&self) -> (requested: bool)
        ensures
            requested == self@.0 is Some,
    {
        self.exit.is_some()
    }

    /// Take the exit reason away; the main loop reads it once per round.
    pub fn take_exit(&mut self) -> (exit: Option<R>)
        ensures
            exit == old(self)@.0,
            final(self)@ == after_take(old(self)@),
    {
        self.exit.take()
    }

    /// Whether the console was asked to wake.
    pub fn interrupt_raised(&self) -> (raised: bool)
        ensures
            raised == self@.1,
    {
        self.interrupt
    }
}

/// One exit has one reason: once a reason is left, later requests change
/// nothing until the loop has taken it; the loop then gets the first reason,
/// and a second take gets nothing. Every request wakes the console.
pub proof fn the_first_exit_request_wins<R>(state: (Option<R>, bool), first: R, second: R)
    ensures
        after_request(after_request(state, first), second) == after_request(state, first),
        state.0 is None ==> after_request(state, first).0 == Some(first),
        after_request(state, first).1,
        after_take(after_request(state, first)).0 is None,
        after_take(after_take(state)) == after_take(state),
{
}

} // verus!
