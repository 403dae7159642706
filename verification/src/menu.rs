//! The completion menu that is not drawn when it has no candidates, and the
//! two facts about it that the rest of the console reads: which candidate is
//! selected, and whether the menu is on screen.
//!
//! "Active" and "visible" are two different things to the line editor: an
//! active menu that is still awaiting its first answer takes input but claims
//! no rows. The menu of this console adds one more case: with no candidates it
//! stays active, keeps taking input and following edits, but is not drawn.

use vstd::prelude::*;

verus! {

/// Which candidate of the menu is selected.
///
/// A cursor is a plain value: a copy or clone is a cursor of its own, and
/// what is done to one is not seen by the other. Where the key handling and
/// the highlighter must see one cursor, the caller shares it behind a lock.
///
/// Kept by the key handling rather than asked of the menu: the menu only
/// updates its selection when it is redrawn, and highlighting runs before
/// that. What is kept is the number of moves, not an index: how many
/// candidates there are is only known when they are computed, and the index is
/// taken modulo that number.
#[derive(Debug, Clone, Copy, Default)]
pub struct MenuCursor {
    /// How many moves were made (down positive, up negative).
    steps: isize,
    /// Whether Esc put the menu away. A dismissed menu previews nothing.
    dismissed: bool,
}

impl View for MenuCursor {
    type V = (int, bool);

    closed spec fn view(&self) -> (int, bool) {
        (self.steps as int, self.dismissed)
    }
}

/// What can happen to a cursor.
#[derive(Debug, Clone, Copy, PartialEq, Eq, Structural)]
pub enum CursorOp {
    /// A move by this many places (down positive).
    Step(isize),
    /// Back to the first candidate, no longer dismissed.
    Reset,
    /// Esc put the menu away.
    Dismiss,
}

/// The cursor (moves, dismissed) after one operation.
pub open spec fn after(cursor: (int, bool), op: CursorOp) -> (int, bool) {
    match op {
        CursorOp::Step(delta) => (cursor.0 + delta, cursor.1),
        CursorOp::Reset => (0, false),
        CursorOp::Dismiss => (cursor.0, true),
    }
}

/// The cursor after a sequence of operations on a new one.
pub open spec fn run(ops: Seq<CursorOp>) -> (int, bool)
    decreases ops.len(),
{
    if ops.len() == 0 {
        (0, false)
    } else {
        after(run(ops.drop_last()), ops.last())
    }
}

/// The sum of the moves since the last reset.
pub open spec fn moves_since_reset(ops: Seq<CursorOp>) -> int
    decreases ops.len(),
{
    if ops.len() == 0 {
        0
    } else {
        match ops.last() {
            CursorOp::Step(delta) => moves_since_reset(ops.drop_last()) + delta,
            CursorOp::Reset => 0,
            CursorOp::Dismiss => moves_since_reset(ops.drop_last()),
        }
    }
}

/// Whether the menu was put away since the last reset.
pub open spec fn dismissed_since_reset(ops: Seq<CursorOp>) -> bool
    decreases ops.len(),
{
    if ops.len() == 0 {
        false
    } else {
        match ops.last() {
            CursorOp::Step(_) => dismissed_since_reset(ops.drop_last()),
            CursorOp::Reset => false,
            CursorOp::Dismiss => true,
        }
    }
}

/// The candidate selected among `count`, for a cursor that made `steps` moves.
pub open spec fn selected_index(steps: int, dismissed: bool, count: nat) -> Option<nat> {
    if dismissed || count == 0 {
        None
    } else {
        Some((steps % (count as int)) as nat)
    }
}

impl MenuCursor {
    pub fn new() -> (cursor: Self)
        ensures
            cursor@ == (0int, false),
    {
        MenuCursor { steps: 0, dismissed: false }
    }

    /// Move to a neighbouring candidate.
    pub fn step(&mut self, delta: isize)
        requires
            isize::MIN <= old(self)@.0 + delta <= isize::MAX,
        ensures
            final(self)@ == after(old(self)@, CursorOp::Step(delta)),
    {
        self.steps = self.steps + delta;
    }

    /// Back to the first candidate, and no longer dismissed. The menu is
    /// rebuilt whenever its content changes or it is opened again.
    pub fn reset(&mut self)
        ensures
            final(self)@ == after(old(self)@, CursorOp::Reset),
    {
        self.steps = 0;
        self.dismissed = false;
    }

    /// Esc put the menu away.
    pub fn dismiss(&mut self)
        ensures
            final(self)@ == after(old(self)@, CursorOp::Dismiss),
    {
        self.dismissed = true;
    }

    /// Whether Esc put the menu away.
    pub fn is_dismissed(&self) -> (dismissed: bool)
        ensures
            dismissed == self@.1,
    {
        self.dismissed
    }

    /// How many moves were made (down positive, up negative).
    pub fn steps(&self) -> (steps: isize)
        ensures
            steps == self@.0,
    {
        self.steps
    }

    /// Which of `count` candidates is selected right now.
    ///
    /// A vector never holds more than `isize::MAX` items, so `count` is a
    /// valid divisor for the signed move count.
    pub fn index(&self, count: usize) -> (selected: Option<usize>)
        requires
            count <= isize::MAX,
        ensures
            selected matches Some(i) ==> i < count,
            match (selected, selected_index(self@.0, self@.1, count as nat)) {
                (Some(i), Some(j)) => i as nat == j,
                (None, None) => true,
                _ => false,
            },
    {
        if self.dismissed || count == 0 {
            return None;
        }
        let steps = self.steps as i128;
        let n = count as i128;
        let r: i128 = if steps >= 0 {
            steps % n
        } else {
            let m: i128 = (-steps) % n;
            proof {
                lemma_negative_mod(steps as int, n as int, m as int);
            }
            if m == 0 {
                0
            } else {
                n - m
            }
        };
        Some(r as usize)
    }
}

proof fn lemma_negative_mod(steps: int, n: int, m: int)
    requires
        steps < 0,
        n > 0,
        m == (-steps) % n,
    ensures
        m == 0 ==> steps % n == 0,
        m != 0 ==> steps % n == n - m,
{
    vstd::arithmetic::div_mod::lemma_fundamental_div_mod(-steps, n);
    let q = (-steps) / n;
    assert(steps == (-q) * n - m) by (nonlinear_arith)
        requires
            -steps == n * q + m,
    {
    }
    if m == 0 {
        vstd::arithmetic::div_mod::lemma_mod_multiples_basic(-q, n);
    } else {
        assert(steps == (-q - 1) * n + (n - m)) by (nonlinear_arith)
            requires
                steps == (-q) * n - m,
        {
        }
        vstd::arithmetic::div_mod::lemma_mod_multiples_vanish(-q - 1, n - m, n);
        vstd::arithmetic::div_mod::lemma_small_mod((n - m) as nat, n as nat);
    }
}

/// Stepping moves the selection by the same number of places, modulo the
/// number of candidates, and a reset always selects the first one.
pub proof fn stepping_moves_the_selection(steps: int, delta: int, count: nat)
    requires
        count > 0,
    ensures
        selected_index(steps + delta, false, count) == Some(
            ((selected_index(steps, false, count)->0 + delta) % (count as int)) as nat,
        ),
        selected_index(0, false, count) == Some(0nat),
        selected_index(steps, true, count) is None,
{
    vstd::arithmetic::div_mod::lemma_add_mod_noop_right(delta, steps, count as int);
}

/// Whatever happened to a cursor since it was made: it holds the sum of the
/// moves since the last reset, and is dismissed exactly when Esc came since
/// then; the candidate it selects among `count` is that sum taken modulo
/// `count`, and none when it is dismissed or there are no candidates.
pub proof fn a_cursor_is_its_history(ops: Seq<CursorOp>, count: nat)
    ensures
        run(ops) == (moves_since_reset(ops), dismissed_since_reset(ops)),
        selected_index(run(ops).0, run(ops).1, count) == if dismissed_since_reset(ops) || count == 0 {
            None
        } else {
            Some((moves_since_reset(ops) % (count as int)) as nat)
        },
    decreases ops.len(),
{
    if ops.len() > 0 {
        a_cursor_is_its_history(ops.drop_last(), count);
    }
}

/// A dismissed cursor stays dismissed, and selects nothing, through any
/// number of moves; a reset brings it back.
pub proof fn a_dismissed_cursor_stays_dismissed(ops: Seq<CursorOp>, moves: Seq<isize>, count: nat)
    ensures
        ({
            let later = ops.push(CursorOp::Dismiss) + moves.map_values(|d: isize| CursorOp::Step(d));
            &&& run(later).1
            &&& selected_index(run(later).0, run(later).1, count) is None
            &&& !run(later.push(CursorOp::Reset)).1
        }),
    decreases moves.len(),
{
    let later = ops.push(CursorOp::Dismiss) + moves.map_values(|d: isize| CursorOp::Step(d));
    if moves.len() > 0 {
        a_dismissed_cursor_stays_dismissed(ops, moves.drop_last(), count);
        let shorter = ops.push(CursorOp::Dismiss) + moves.drop_last().map_values(|d: isize| CursorOp::Step(d));
        assert(later.drop_last() =~= shorter);
        assert(later.last() == CursorOp::Step(moves.last()));
    } else {
        assert(later =~= ops.push(CursorOp::Dismiss));
        assert(later.last() == CursorOp::Dismiss);
    }
    assert(later.push(CursorOp::Reset).drop_last() =~= later);
}

/// Whether the completion menu is on screen right now.
///
/// A plain value, like [`MenuCursor`]: a copy does not follow later changes;
/// the menu and the key handling share one behind a lock.
///
/// Published by the menu itself whenever its state changes, and read by the
/// key handling: keys go to the popup or to history according to it.
#[derive(Debug, Clone, Copy, Default)]
pub struct MenuVisible {
    visible: bool,
}

impl View for MenuVisible {
    type V = bool;

    closed spec fn view(&self) -> bool {
        self.visible
    }
}

impl MenuVisible {
    pub fn new() -> (visible: Self)
        ensures
            !visible@,
    {
        MenuVisible { visible: false }
    }

    pub fn get(&self) -> (visible: bool)
        ensures
            visible == self@,
    {
        self.visible
    }

    /// Publish the visibility of the menu.
    pub fn set(&mut self, visible: bool)
        ensures
            final(self)@ == visible,
    {
        self.visible = visible;
    }

    /// Set the visibility directly, whatever the menu did.
    pub fn force(&mut self, visible: bool)
        ensures
            final(self)@ == visible,
    {
        self.set(visible);
    }
}

/// A menu with no candidates counts as still awaiting its first answer: it
/// takes input but claims no rows.
pub open spec fn awaiting_answer(inner_awaiting: bool, value_count: nat) -> bool {
    inner_awaiting || value_count == 0
}

/// Drawn is active, and neither awaiting an answer nor empty.
pub open spec fn drawn(active: bool, inner_awaiting: bool, value_count: nat) -> bool {
    active && !awaiting_answer(inner_awaiting, value_count)
}

/// Whether the menu is awaiting its first answer, given whether the wrapped
/// menu is and how many candidates it holds.
pub fn is_awaiting_first_answer(inner_awaiting: bool, value_count: usize) -> (awaiting: bool)
    ensures
        awaiting == awaiting_answer(inner_awaiting, value_count as nat),
{
    inner_awaiting || value_count == 0
}

/// Whether the menu is drawn, given whether it is active, whether the wrapped
/// menu awaits its first answer and how many candidates it holds.
pub fn is_visible(active: bool, inner_awaiting: bool, value_count: usize) -> (visible: bool)
    ensures
        visible == drawn(active, inner_awaiting, value_count as nat),
{
    active && !is_awaiting_first_answer(inner_awaiting, value_count)
}

/// An empty menu is never drawn, however active it is; and activity is not
/// touched by it, so candidates are still fetched for it.
pub proof fn an_empty_menu_is_hidden(active: bool, inner_awaiting: bool)
    ensures
        !drawn(active, inner_awaiting, 0),
        !drawn(false, inner_awaiting, 1),
        drawn(true, false, 1),
{
}

} // verus!
