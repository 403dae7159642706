//! The decisions of the console's main loop.
//!
//! The loop itself reads the terminal and starts commands; what it does with
//! each thing the line editor hands back is decided here: run the line, wait
//! for more, or stop and say why.

use vstd::prelude::*;

use crate::interrupt::{ExitArmed, Interrupt, LineShadow, interrupt_step, on_interrupt};
use crate::source::ExitRequest;
use crate::util::{blank, is_blank};

verus! {

/// An I/O error, as the line editor reports it.
#[verifier::external_type_specification]
#[verifier::external_body]
pub struct ExIoError(std::io::Error);

/// Why the console ended.
///
/// `R` is the reason that a command leaves when it asks to exit; `()` when no
/// reason is needed.
#[derive(Debug)]
pub enum Exit<R = ()> {
    /// A command asked to exit, with this reason.
    Quit(R),
    /// Ctrl-D, or Ctrl-C twice on an empty line. No command said how to end;
    /// that is for the caller to decide.
    Interrupted,
    /// There is no interactive terminal at all: a service, a container
    /// without a tty, redirected output. The program must go on and stop on a
    /// signal instead; the line editor would return at once in such an
    /// environment, and taking that as the user leaving would end the program
    /// the moment it starts.
    NoTerminal,
    /// Reading failed. The console ended, but not by the user's wish.
    Failed(std::io::Error),
}

/// What the line editor handed back.
#[derive(Debug, PartialEq, Eq)]
pub enum Signal {
    /// A line was submitted.
    Success(String),
    /// Ctrl-C. The terminal is in raw mode, so it comes as a key, not as a
    /// signal to the process.
    CtrlC,
    /// Ctrl-D.
    CtrlD,
    /// Anything else; in particular the wake-up after a command asked to exit.
    Other,
}

/// What the main loop does next.
#[derive(Debug)]
pub enum Action<R> {
    /// Run this line, then see whether a command asked to exit.
    Run(String),
    /// Nothing to run; see whether a command asked to exit.
    Check,
    /// Go back to reading at once.
    Wait,
    /// The console ends.
    Stop(Exit<R>),
}

/// Decide what to do with what the line editor handed back.
///
/// A submitted line takes down "press again to exit" and runs unless it is
/// blank; Ctrl-C is the two-stage one; Ctrl-D ends the console; a read error
/// ends it as failed.
pub fn on_read<R>(read: Result<Signal, std::io::Error>, shadow: &LineShadow, armed: &mut ExitArmed) -> (action: Action<R>)
    ensures
        match read {
            Ok(Signal::Success(line)) => !final(armed)@ && if is_blank(line@) {
                action is Check
            } else {
                action matches Action::Run(l) && l@ == line@
            },
            Ok(Signal::CtrlC) => {
                let (outcome, now_armed) = interrupt_step(is_blank(shadow@), old(armed)@);
                &&& final(armed)@ == now_armed
                &&& if outcome == Interrupt::Exit {
                    action matches Action::Stop(Exit::Interrupted)
                } else {
                    action is Wait
                }
            },
            Ok(Signal::CtrlD) => action matches Action::Stop(Exit::Interrupted) && final(armed)@
                == old(armed)@,
            Ok(Signal::Other) => action is Check && final(armed)@ == old(armed)@,
            Err(e) => action matches Action::Stop(Exit::Failed(f)) && f == e && final(armed)@
                == old(armed)@,
        },
{
    match read {
        Ok(Signal::Success(line)) => {
            armed.disarm();
            if blank(line.as_str()) {
                Action::Check
            } else {
                Action::Run(line)
            }
        },
        // With something on the line Ctrl-C only wipes it; twice on an
        // empty line it exits.
        Ok(Signal::CtrlC) => match on_interrupt(shadow, armed) {
            Interrupt::Exit => Action::Stop(Exit::Interrupted),
            Interrupt::Armed | Interrupt::ClearedLine => Action::Wait,
        },
        Ok(Signal::CtrlD) => Action::Stop(Exit::Interrupted),
        // A command on another thread raised the wake-up flag; the exit it
        // left is read below.
        Ok(Signal::Other) => Action::Check,
        Err(e) => Action::Stop(Exit::Failed(e)),
    }
}

/// The end of a round: whether a command asked to exit. Commands cannot
/// reach the loop, so they leave the wish and the loop reads it here, after a
/// submitted line and after being woken alike.
pub fn after_round<R>(request: &mut ExitRequest<R>) -> (exit: Option<Exit<R>>)
    ensures
        match old(request)@.0 {
            Some(reason) => exit matches Some(Exit::Quit(r)) && r == reason,
            None => exit is None,
        },
        final(request)@ == (None::<R>, old(request)@.1),
{
    match request.take_exit() {
        Some(reason) => Some(Exit::Quit(reason)),
        None => None,
    }
}

} // verus!
