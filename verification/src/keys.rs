//! The console's key handling.
//!
//! Keys are handed out in three layers, as in the game's completion popup:
//! while the popup is visible it owns Up/Down, Tab, Shift+Tab and Esc; the
//! keys that it does not want go to the line editor; what the editor does not
//! want goes to history.
//!
//! | key | popup visible | popup hidden |
//! |-----|---------------|--------------|
//! | Up / Down | move the selection | walk history |
//! | Tab | take the selection, then cycle in place | open the popup |
//! | Shift+Tab | the same, backwards | open the popup |
//! | cursor movement | put the popup away, then move | move |
//! | Esc | put the popup away | clear the selection |
//! | Enter | run the line | run the line |
//!
//! Whether the menu should come back is decided by what an event does: any
//! event that changes the content of the line rebuilds the completion.

use vstd::prelude::*;

use crate::menu::{MenuCursor, selected_index};

verus! {

/// The keys that the console handles itself, and `Other` for the rest.
#[derive(Debug, Clone, Copy, PartialEq, Eq, Structural)]
pub enum KeyCode {
    Up,
    Down,
    Left,
    Right,
    Home,
    End,
    Tab,
    /// Shift+Tab, as most terminals report it.
    BackTab,
    Esc,
    Enter,
    Backspace,
    Delete,
    Char(char),
    Other,
}

/// The modifier keys held down with a key, as the bit set that terminals
/// report: shift, control, alt, super, hyper, meta from the lowest bit up.
pub type KeyModifiers = u8;

/// No modifier held.
pub const NONE: u8 = 0;

/// Shift held.
pub const SHIFT: u8 = 1;

/// Control held.
pub const CONTROL: u8 = 2;

/// Alt held.
pub const ALT: u8 = 4;

/// Control keys that the default key map of the console leaves unbound:
/// Emacs and terminal shortcuts that have no place in a command bar. An edit
/// mode handed in by the caller keeps all of its bindings.
pub const DISABLED_CONTROL_CHARS: [char; 7] = ['l', 'r', 'o', 'b', 'f', 'p', 'n'];

/// What an edit command does to the line, as the line editor classifies it.
#[derive(Debug, Clone, Copy, PartialEq, Eq, Structural)]
pub enum EditKind {
    /// Moves the cursor, selecting or not.
    MoveCursor { select: bool },
    /// Undo or redo.
    UndoRedo,
    /// Changes the text.
    EditText,
    /// Leaves the line as it is (a copy, say).
    NoOp,
}

/// What the key handling reads of an event that the wrapped edit mode made of
/// a key: its edit commands, its nesting, and whether it is a movement.
#[derive(Debug, PartialEq, Eq)]
pub enum EventShape {
    /// A batch of edit commands.
    Edit(Vec<EditKind>),
    /// Several events, all of them run.
    Multiple(Vec<EventShape>),
    /// Several events, the first that applies is run.
    UntilFound(Vec<EventShape>),
    /// The previous history entry.
    PreviousHistory,
    /// The next history entry.
    NextHistory,
    /// The line above (or the previous entry on the first line).
    Up,
    /// The line below (or the next entry on the last line).
    Down,
    /// One character to the left.
    Left,
    /// One character to the right.
    Right,
    /// The start of the line.
    ToStart,
    /// The end of the line.
    ToEnd,
    /// Anything else.
    Other,
}

/// The events that walk history or move the cursor by themselves.
pub open spec fn is_movement(event: EventShape) -> bool {
    ||| event is PreviousHistory
    ||| event is NextHistory
    ||| event is Up
    ||| event is Down
    ||| event is Left
    ||| event is Right
    ||| event is ToStart
    ||| event is ToEnd
}

/// What the key handling asks the line editor to do.
#[derive(Debug, PartialEq, Eq)]
pub enum Event {
    /// Nothing.
    Nothing,
    /// Put the menu away (or clear the selection).
    Esc,
    /// Submit the line.
    Enter,
    /// Select the candidate above.
    MenuUp,
    /// Select the candidate below.
    MenuDown,
    /// Take the selected candidate and keep the menu.
    MenuAccept,
    /// Open the completion menu of the console.
    Menu,
    /// The previous history entry.
    PreviousHistory,
    /// The next history entry.
    NextHistory,
    /// The event that the wrapped edit mode made of this key, unchanged.
    Inner,
    /// These events, in this order.
    Multiple(Vec<Event>),
}

/// The event made of two events run in turn.
pub open spec fn is_pair(event: Event, first: Event, second: Event) -> bool {
    event matches Event::Multiple(events) && events@ == seq![first, second]
}

/// Whether an edit command changes the content of the line: everything but a
/// cursor movement and a no-op does.
pub open spec fn edit_changes_line(kind: EditKind) -> bool {
    kind is UndoRedo || kind is EditText
}

/// Whether an edit command moves the cursor without selecting; a selection
/// that spans everything counts as a movement too.
pub open spec fn edit_moves_cursor(kind: EditKind) -> bool {
    kind is MoveCursor
}

pub open spec fn any_edit_changes(kinds: Seq<EditKind>) -> bool {
    exists|i: int| 0 <= i < kinds.len() && edit_changes_line(#[trigger] kinds[i])
}

pub open spec fn any_edit_moves(kinds: Seq<EditKind>) -> bool {
    exists|i: int| 0 <= i < kinds.len() && edit_moves_cursor(#[trigger] kinds[i])
}

/// Whether an event changes the content of the line, looking inside nested
/// events.
pub open spec fn changes_buffer_spec(event: EventShape) -> bool
    decreases event, 1nat,
{
    match event {
        EventShape::Edit(kinds) => any_edit_changes(kinds@),
        EventShape::Multiple(events) => {
            proof {
                vstd::std_specs::vec::axiom_vec_decreases_to_view(events);
            }
            any_changes_buffer(events@)
        },
        EventShape::UntilFound(events) => {
            proof {
                vstd::std_specs::vec::axiom_vec_decreases_to_view(events);
            }
            any_changes_buffer(events@)
        },
        _ => false,
    }
}

pub open spec fn any_changes_buffer(events: Seq<EventShape>) -> bool
    decreases events, 0nat,
{
    if events.len() == 0 {
        false
    } else {
        any_changes_buffer(events.drop_last()) || changes_buffer_spec(events.last())
    }
}

/// Whether an event holds a cursor movement or a history walk, looking inside
/// nested events, fallback events included.
pub open spec fn moves_cursor_spec(event: EventShape) -> bool
    decreases event, 1nat,
{
    match event {
        EventShape::Edit(kinds) => any_edit_moves(kinds@),
        EventShape::Multiple(events) => {
            proof {
                vstd::std_specs::vec::axiom_vec_decreases_to_view(events);
            }
            any_moves_cursor(events@)
        },
        EventShape::UntilFound(events) => {
            proof {
                vstd::std_specs::vec::axiom_vec_decreases_to_view(events);
            }
            any_moves_cursor(events@)
        },
        _ => is_movement(event),
    }
}

pub open spec fn any_moves_cursor(events: Seq<EventShape>) -> bool
    decreases events, 0nat,
{
    if events.len() == 0 {
        false
    } else {
        any_moves_cursor(events.drop_last()) || moves_cursor_spec(events.last())
    }
}

proof fn lemma_any_changes_buffer(events: Seq<EventShape>)
    ensures
        any_changes_buffer(events) <==> exists|i: int|
            0 <= i < events.len() && changes_buffer_spec(#[trigger] events[i]),
    decreases events.len(),
{
    if events.len() > 0 {
        lemma_any_changes_buffer(events.drop_last());
        if any_changes_buffer(events.drop_last()) {
            let i = choose|i: int|
                0 <= i < events.drop_last().len() && changes_buffer_spec(
                    #[trigger] events.drop_last()[i],
                );
            assert(events[i] == events.drop_last()[i]);
        }
        if exists|i: int| 0 <= i < events.len() && changes_buffer_spec(#[trigger] events[i]) {
            let i = choose|i: int| 0 <= i < events.len() && changes_buffer_spec(#[trigger] events[i]);
            if i < events.len() - 1 {
                assert(events.drop_last()[i] == events[i]);
            }
        }
    }
}

proof fn lemma_any_moves_cursor(events: Seq<EventShape>)
    ensures
        any_moves_cursor(events) <==> exists|i: int|
            0 <= i < events.len() && moves_cursor_spec(#[trigger] events[i]),
    decreases events.len(),
{
    if events.len() > 0 {
        lemma_any_moves_cursor(events.drop_last());
        if any_moves_cursor(events.drop_last()) {
            let i = choose|i: int|
                0 <= i < events.drop_last().len() && moves_cursor_spec(
                    #[trigger] events.drop_last()[i],
                );
            assert(events[i] == events.drop_last()[i]);
        }
        if exists|i: int| 0 <= i < events.len() && moves_cursor_spec(#[trigger] events[i]) {
            let i = choose|i: int| 0 <= i < events.len() && moves_cursor_spec(#[trigger] events[i]);
            if i < events.len() - 1 {
                assert(events.drop_last()[i] == events[i]);
            }
        }
    }
}

/// Whether one edit command changes the content of the line.
pub fn changes_line(kind: EditKind) -> (changes: bool)
    ensures
        changes == edit_changes_line(kind),
{
    match kind {
        EditKind::UndoRedo | EditKind::EditText => true,
        EditKind::MoveCursor { .. } | EditKind::NoOp => false,
    }
}

/// Whether one edit command moves the cursor.
pub fn moves_cursor_command(kind: EditKind) -> (moves: bool)
    ensures
        moves == edit_moves_cursor(kind),
{
    match kind {
        EditKind::MoveCursor { .. } => true,
        _ => false,
    }
}

/// Whether an event changes the content of the line.
pub fn changes_buffer(event: &EventShape) -> (changes: bool)
    ensures
        changes == changes_buffer_spec(*event),
    decreases event,
{
    match event {
        EventShape::Edit(kinds) => {
            let mut i: usize = 0;
            while i < kinds.len()
                invariant
                    i <= kinds@.len(),
                    forall|j: int| 0 <= j < i ==> !edit_changes_line(#[trigger] kinds@[j]),
                    *event == EventShape::Edit(*kinds),
                decreases kinds@.len() - i,
            {
                if changes_line(kinds[i]) {
                    assert(edit_changes_line(kinds@[i as int]));
                    return true;
                }
                i = i + 1;
            }
            false
        },
        EventShape::Multiple(events) => {
            proof {
                lemma_any_changes_buffer(events@);
            }
            let mut i: usize = 0;
            while i < events.len()
                invariant
                    i <= events@.len(),
                    forall|j: int| 0 <= j < i ==> !changes_buffer_spec(#[trigger] events@[j]),
                    *event == EventShape::Multiple(*events),
                decreases events@.len() - i,
            {
                proof {
                    vstd::std_specs::vec::axiom_vec_decreases_to_view(*events);
                    assert(decreases_to!(*event => event->Multiple_0));
                    assert(decreases_to!(*event => events@[i as int]));
                }
                if changes_buffer(&events[i]) {
                    proof {
                        lemma_any_changes_buffer(events@);
                        assert(changes_buffer_spec(events@[i as int]));
                    }
                    return true;
                }
                i = i + 1;
            }
            false
        },
        EventShape::UntilFound(events) => {
            proof {
                lemma_any_changes_buffer(events@);
            }
            let mut i: usize = 0;
            while i < events.len()
                invariant
                    i <= events@.len(),
                    forall|j: int| 0 <= j < i ==> !changes_buffer_spec(#[trigger] events@[j]),
                    *event == EventShape::UntilFound(*events),
                decreases events@.len() - i,
            {
                proof {
                    vstd::std_specs::vec::axiom_vec_decreases_to_view(*events);
                    assert(decreases_to!(*event => event->UntilFound_0));
                    assert(decreases_to!(*event => events@[i as int]));
                }
                if changes_buffer(&events[i]) {
                    proof {
                        lemma_any_changes_buffer(events@);
                        assert(changes_buffer_spec(events@[i as int]));
                    }
                    return true;
                }
                i = i + 1;
            }
            false
        },
        _ => false,
    }
}

/// Whether an event holds a cursor movement or a history walk.
///
/// A fallback chain such as "move within the menu, else move the cursor" is
/// the case that matters: neither its outer event alone nor its first choice
/// alone tells.
pub fn moves_cursor(event: &EventShape) -> (moves: bool)
    ensures
        moves == moves_cursor_spec(*event),
    decreases event,
{
    match event {
        EventShape::Edit(kinds) => {
            let mut i: usize = 0;
            while i < kinds.len()
                invariant
                    i <= kinds@.len(),
                    forall|j: int| 0 <= j < i ==> !edit_moves_cursor(#[trigger] kinds@[j]),
                    *event == EventShape::Edit(*kinds),
                decreases kinds@.len() - i,
            {
                if moves_cursor_command(kinds[i]) {
                    assert(edit_moves_cursor(kinds@[i as int]));
                    return true;
                }
                i = i + 1;
            }
            false
        },
        EventShape::Multiple(events) => {
            proof {
                lemma_any_moves_cursor(events@);
            }
            let mut i: usize = 0;
            while i < events.len()
                invariant
                    i <= events@.len(),
                    forall|j: int| 0 <= j < i ==> !moves_cursor_spec(#[trigger] events@[j]),
                    *event == EventShape::Multiple(*events),
                decreases events@.len() - i,
            {
                proof {
                    vstd::std_specs::vec::axiom_vec_decreases_to_view(*events);
                    assert(decreases_to!(*event => event->Multiple_0));
                    assert(decreases_to!(*event => events@[i as int]));
                }
                if moves_cursor(&events[i]) {
                    proof {
                        lemma_any_moves_cursor(events@);
                        assert(moves_cursor_spec(events@[i as int]));
                    }
                    return true;
                }
                i = i + 1;
            }
            false
        },
        EventShape::UntilFound(events) => {
            proof {
                lemma_any_moves_cursor(events@);
            }
            let mut i: usize = 0;
            while i < events.len()
                invariant
                    i <= events@.len(),
                    forall|j: int| 0 <= j < i ==> !moves_cursor_spec(#[trigger] events@[j]),
                    *event == EventShape::UntilFound(*events),
                decreases events@.len() - i,
            {
                proof {
                    vstd::std_specs::vec::axiom_vec_decreases_to_view(*events);
                    assert(decreases_to!(*event => event->UntilFound_0));
                    assert(decreases_to!(*event => events@[i as int]));
                }
                if moves_cursor(&events[i]) {
                    proof {
                        lemma_any_moves_cursor(events@);
                        assert(moves_cursor_spec(events@[i as int]));
                    }
                    return true;
                }
                i = i + 1;
            }
            false
        },
        EventShape::Other => false,
        _ => true,
    }
}

/// The cases of the key handling, in the order in which they are tried.
#[derive(Debug, Clone, Copy, PartialEq, Eq, Structural)]
pub enum Route {
    /// Up while the popup is visible: the candidate above.
    PopupUp,
    /// Down while the popup is visible: the candidate below.
    PopupDown,
    /// Tab (forwards) or Shift+Tab (backwards) while the popup is visible:
    /// take the selection, or move on and take the next one.
    Cycle { backwards: bool },
    /// Up while the popup is hidden: the previous history entry.
    HistoryUp,
    /// Down while the popup is hidden: the next history entry.
    HistoryDown,
    /// Tab or Shift+Tab while the popup is hidden: open it.
    OpenMenu,
    /// Esc: put the popup away.
    Dismiss,
    /// Enter: run the line, never take a candidate.
    Submit,
    /// None of the keys of the popup: the wrapped edit mode decides.
    Unrouted,
}

/// Which case a key falls under. `popup` is whether the popup is visible and
/// not put away by an earlier Esc of the same batch.
pub open spec fn route_of(code: KeyCode, modifiers: u8, popup: bool) -> Route {
    if code == KeyCode::Up && modifiers == NONE && popup {
        Route::PopupUp
    } else if code == KeyCode::Down && modifiers == NONE && popup {
        Route::PopupDown
    } else if code == KeyCode::Tab && modifiers == NONE && popup {
        Route::Cycle { backwards: false }
    } else if code == KeyCode::BackTab && popup {
        Route::Cycle { backwards: true }
    } else if code == KeyCode::Up && modifiers == NONE {
        Route::HistoryUp
    } else if code == KeyCode::Down && modifiers == NONE {
        Route::HistoryDown
    } else if (code == KeyCode::Tab && modifiers == NONE) || code == KeyCode::BackTab {
        Route::OpenMenu
    } else if code == KeyCode::Esc && modifiers == NONE {
        Route::Dismiss
    } else if code == KeyCode::Enter && modifiers == NONE {
        Route::Submit
    } else {
        Route::Unrouted
    }
}

/// Whether the next Tab cycles, and the cursor (moves, dismissed), after a
/// key of the given case.
pub open spec fn route_state(route: Route, tab_cycles: bool, cursor: (int, bool)) -> (
    bool,
    (int, bool),
) {
    match route {
        Route::PopupUp => (false, (cursor.0 - 1, cursor.1)),
        Route::PopupDown => (false, (cursor.0 + 1, cursor.1)),
        Route::Cycle { backwards } => (
            true,
            if tab_cycles {
                (
                    if backwards {
                        cursor.0 - 1
                    } else {
                        cursor.0 + 1
                    },
                    cursor.1,
                )
            } else {
                cursor
            },
        ),
        Route::HistoryUp | Route::HistoryDown | Route::Dismiss | Route::Submit => (
            false,
            (cursor.0, true),
        ),
        Route::OpenMenu => (false, (0, false)),
        Route::Unrouted => (tab_cycles, cursor),
    }
}

/// The event sent for a key of the given case.
pub open spec fn route_event(route: Route, tab_cycles: bool, event: Event) -> bool {
    match route {
        Route::PopupUp => event == Event::MenuUp,
        Route::PopupDown => event == Event::MenuDown,
        Route::Cycle { backwards } => if tab_cycles {
            is_pair(
                event,
                if backwards {
                    Event::MenuUp
                } else {
                    Event::MenuDown
                },
                Event::MenuAccept,
            )
        } else {
            event == Event::MenuAccept
        },
        Route::HistoryUp => is_pair(event, Event::Esc, Event::PreviousHistory),
        Route::HistoryDown => is_pair(event, Event::Esc, Event::NextHistory),
        Route::OpenMenu => event == Event::Menu,
        Route::Dismiss => event == Event::Esc,
        Route::Submit => is_pair(event, Event::Esc, Event::Enter),
        Route::Unrouted => false,
    }
}

/// What becomes of the event that the wrapped edit mode made of a key that
/// the popup did not take.
#[derive(Debug, Clone, Copy, PartialEq, Eq, Structural)]
pub enum Refinement {
    /// It changes the line: the menu is rebuilt, and asked for before the edit
    /// so that the edit has the last word (an emptied line closes it).
    RefreshMenu,
    /// It moves the cursor while completion is on: put the menu away first,
    /// or it would swallow the movement.
    DismissFirst,
    /// Anything else passes unchanged.
    PassThrough,
}

pub open spec fn refinement_of(resolved: EventShape, dismissed: bool) -> Refinement {
    if changes_buffer_spec(resolved) {
        Refinement::RefreshMenu
    } else if moves_cursor_spec(resolved) && !dismissed {
        Refinement::DismissFirst
    } else {
        Refinement::PassThrough
    }
}

pub open spec fn refinement_state(refinement: Refinement, tab_cycles: bool, cursor: (int, bool)) -> (
    bool,
    (int, bool),
) {
    match refinement {
        Refinement::RefreshMenu => (false, (0, false)),
        Refinement::DismissFirst => (false, (cursor.0, true)),
        Refinement::PassThrough => (tab_cycles, cursor),
    }
}

pub open spec fn refinement_event(refinement: Refinement, event: Event) -> bool {
    match refinement {
        Refinement::RefreshMenu => is_pair(event, Event::Menu, Event::Inner),
        Refinement::DismissFirst => is_pair(event, Event::Esc, Event::Inner),
        Refinement::PassThrough => event == Event::Inner,
    }
}

fn pair(first: Event, second: Event) -> (event: Event)
    ensures
        is_pair(event, first, second),
{
    let mut events = Vec::new();
    events.push(first);
    events.push(second);
    assert(events@ =~= seq![first, second]);
    Event::Multiple(events)
}

/// The key handling of the console: the popup, the editor and history.
#[derive(Debug, Clone, Copy, Default)]
pub struct ConsoleEditMode {
    /// Whether the next Tab moves on before it takes a candidate. Starts
    /// false with each popup, set once a candidate was taken, cleared again by
    /// a choice with the arrows.
    tab_cycles: bool,
}

impl View for ConsoleEditMode {
    type V = bool;

    closed spec fn view(&self) -> bool {
        self.tab_cycles
    }
}

impl ConsoleEditMode {
    pub fn new() -> (mode: Self)
        ensures
            !mode@,
    {
        ConsoleEditMode { tab_cycles: false }
    }

    /// The popup and history part of the key handling.
    ///
    /// `menu_visible` is what the menu last published; an Esc earlier in the
    /// same batch of keys has already put it away even though the menu has
    /// not been redrawn yet. `None` means that the key is not for the popup.
    pub fn route(
        &mut self,
        cursor: &mut MenuCursor,
        menu_visible: bool,
        code: KeyCode,
        modifiers: u8,
    ) -> (event: Option<Event>)
        requires
            isize::MIN < old(cursor)@.0 < isize::MAX,
        ensures
            ({
                let route = route_of(code, modifiers, menu_visible && !old(cursor)@.1);
                &&& (final(self)@, final(cursor)@) == route_state(route, old(self)@, old(cursor)@)
                &&& match event {
                    Some(e) => route_event(route, old(self)@, e),
                    None => route == Route::Unrouted,
                }
            }),
            // Tab or Shift+Tab on a hidden popup opens a new one: its first
            // candidate is selected, whatever moves were made before.
            (((code == KeyCode::Tab && modifiers == NONE) || code == KeyCode::BackTab) && !(
            menu_visible && !old(cursor)@.1)) ==> final(cursor)@ == (0int, false) && !final(self)@
                && event == Some(Event::Menu),
    {
        let visible = menu_visible && !cursor.is_dismissed();
        let none = modifiers == NONE;
        if code == KeyCode::Up && none && visible {
            // A choice with the arrows: the next Tab takes it, it does not
            // move on from it.
            self.tab_cycles = false;
            cursor.step(-1);
            Some(Event::MenuUp)
        } else if code == KeyCode::Down && none && visible {
            self.tab_cycles = false;
            cursor.step(1);
            Some(Event::MenuDown)
        } else if code == KeyCode::Tab && none && visible {
            Some(self.use_suggestion(cursor, false))
        } else if code == KeyCode::BackTab && visible {
            // Shift+Tab comes as BackTab, with or without SHIFT depending on
            // the terminal, so its modifiers are not looked at.
            Some(self.use_suggestion(cursor, true))
        } else if code == KeyCode::Up && none {
            // History walks by index; see the history module.
            Some(self.dismiss_then(cursor, Event::PreviousHistory))
        } else if code == KeyCode::Down && none {
            Some(self.dismiss_then(cursor, Event::NextHistory))
        } else if (code == KeyCode::Tab && none) || code == KeyCode::BackTab {
            Some(self.open_menu(cursor))
        } else if code == KeyCode::Esc && none {
            // Put away means thrown away: the next popup is a new one.
            self.dismiss(cursor);
            Some(Event::Esc)
        } else if code == KeyCode::Enter && none {
            // Enter runs the line and nothing else. The editor would take the
            // candidate of any active menu, even one that is not drawn, so
            // the menu is put away first.
            Some(self.dismiss_then(cursor, Event::Enter))
        } else {
            None
        }
    }

    /// The rest of the key handling: what becomes of the event that the
    /// wrapped edit mode made of a key that the popup did not take.
    pub fn parse_inner(&mut self, cursor: &mut MenuCursor, resolved: &EventShape) -> (event: Event)
        ensures
            ({
                let refinement = refinement_of(*resolved, old(cursor)@.1);
                &&& (final(self)@, final(cursor)@) == refinement_state(
                    refinement,
                    old(self)@,
                    old(cursor)@,
                )
                &&& refinement_event(refinement, event)
            }),
    {
        if changes_buffer(resolved) {
            self.refresh_menu(cursor)
        } else if moves_cursor(resolved) && !cursor.is_dismissed() {
            // The whole event of the wrapped mode is kept, so that custom,
            // Vi or selecting movements work as they mean; Esc only keeps the
            // menu from swallowing the fallback movement in it.
            self.dismiss_then(cursor, Event::Inner)
        } else {
            Event::Inner
        }
    }

    /// Open the popup; a new popup starts as not yet taken from.
    fn open_menu(&mut self, cursor: &mut MenuCursor) -> (event: Event)
        ensures
            !final(self)@,
            final(cursor)@ == (0int, false),
            event == Event::Menu,
    {
        self.tab_cycles = false;
        cursor.reset();
        Event::Menu
    }

    /// Forget the completion session of the key handling.
    fn dismiss(&mut self, cursor: &mut MenuCursor)
        ensures
            !final(self)@,
            final(cursor)@ == (old(cursor)@.0, true),
    {
        self.tab_cycles = false;
        cursor.dismiss();
    }

    /// Put the menu away in the editor first, then do what was meant.
    fn dismiss_then(&mut self, cursor: &mut MenuCursor, event: Event) -> (then: Event)
        ensures
            !final(self)@,
            final(cursor)@ == (old(cursor)@.0, true),
            is_pair(then, Event::Esc, event),
    {
        self.dismiss(cursor);
        pair(Event::Esc, event)
    }

    /// The content changed: the menu is rebuilt and the cycle starts over.
    fn refresh_menu(&mut self, cursor: &mut MenuCursor) -> (event: Event)
        ensures
            !final(self)@,
            final(cursor)@ == (0int, false),
            is_pair(event, Event::Menu, Event::Inner),
    {
        self.tab_cycles = false;
        cursor.reset();
        pair(Event::Menu, Event::Inner)
    }

    /// Take the selected candidate; once one was taken, move on first.
    fn use_suggestion(&mut self, cursor: &mut MenuCursor, backwards: bool) -> (event: Event)
        requires
            isize::MIN < old(cursor)@.0 < isize::MAX,
        ensures
            final(self)@,
            route_state(Route::Cycle { backwards }, old(self)@, old(cursor)@) == (
                true,
                final(cursor)@,
            ),
            route_event(Route::Cycle { backwards }, old(self)@, event),
    {
        let event = if self.tab_cycles {
            cursor.step(
                if backwards {
                    -1
                } else {
                    1
                },
            );
            // Both go in one batch: taking the candidate settles the move
            // first.
            pair(
                if backwards {
                    Event::MenuUp
                } else {
                    Event::MenuDown
                },
                Event::MenuAccept,
            )
        } else {
            Event::MenuAccept
        };
        self.tab_cycles = true;
        event
    }
}

/// Tab cycles in place: on a visible popup the first Tab only takes the
/// selected candidate; every further Tab moves on by one and takes that.
pub proof fn tab_takes_first_then_cycles(cursor: (int, bool))
    requires
        !cursor.1,
    ensures
        ({
            let first = route_of(KeyCode::Tab, NONE, true);
            let (cycles, after) = route_state(first, false, cursor);
            let second = route_of(KeyCode::Tab, NONE, !after.1);
            &&& first == Route::Cycle { backwards: false }
            &&& route_event(first, false, Event::MenuAccept)
            &&& cycles
            &&& second == Route::Cycle { backwards: false }
            &&& route_state(second, cycles, after) == (true, (cursor.0 + 1, false))
            &&& forall|e: Event|
                #![trigger route_event(second, cycles, e)]
                route_event(second, cycles, e) <==> is_pair(e, Event::MenuDown, Event::MenuAccept)
        }),
{
}

/// A choice with the arrows ends the cycle: the Tab right after an arrow
/// takes the candidate that was chosen instead of moving on.
pub proof fn arrows_reset_the_cycle(cycles: bool, cursor: (int, bool), code: KeyCode)
    requires
        code == KeyCode::Up || code == KeyCode::Down,
        !cursor.1,
    ensures
        ({
            let (after_cycles, after) = route_state(route_of(code, NONE, true), cycles, cursor);
            &&& !after_cycles
            &&& route_event(route_of(KeyCode::Tab, NONE, !after.1), after_cycles, Event::MenuAccept)
        }),
{
}

/// Esc throws the popup away with its cycle, and takes effect at once: a key
/// later in the same batch sees the popup as hidden, whatever the menu last
/// published, so Tab opens a new popup and Up walks history.
pub proof fn escape_takes_effect_at_once(cycles: bool, cursor: (int, bool), published: bool)
    ensures
        ({
            let (after_cycles, after) = route_state(route_of(KeyCode::Esc, NONE, published && !cursor.1), cycles, cursor);
            &&& !after_cycles
            &&& route_of(KeyCode::Tab, NONE, published && !after.1) == Route::OpenMenu
            &&& route_of(KeyCode::Up, NONE, published && !after.1) == Route::HistoryUp
        }),
{
}

/// Tab or Shift+Tab on a hidden popup opens a new popup, which starts from
/// its first candidate and not yet taken from, whatever moves, cycle or Esc
/// came before.
pub proof fn opening_a_popup_starts_afresh(code: KeyCode, modifiers: u8, published: bool, cycles: bool, cursor: (int, bool))
    requires
        (code == KeyCode::Tab && modifiers == NONE) || code == KeyCode::BackTab,
        !(published && !cursor.1),
    ensures
        route_of(code, modifiers, published && !cursor.1) == Route::OpenMenu,
        route_state(route_of(code, modifiers, published && !cursor.1), cycles, cursor) == (false, (0int, false)),
        forall|e: Event|
            #![trigger route_event(Route::OpenMenu, cycles, e)]
            route_event(Route::OpenMenu, cycles, e) <==> e == Event::Menu,
        forall|count: nat|
            #![trigger selected_index((route_state(Route::OpenMenu, cycles, cursor).1).0, (route_state(Route::OpenMenu, cycles, cursor).1).1, count)]
            count > 0 ==> selected_index(
                (route_state(Route::OpenMenu, cycles, cursor).1).0,
                (route_state(Route::OpenMenu, cycles, cursor).1).1,
                count,
            ) == Some(0nat),
{
    assert forall|count: nat| count > 0 implies selected_index(
        (route_state(Route::OpenMenu, cycles, cursor).1).0,
        (route_state(Route::OpenMenu, cycles, cursor).1).1,
        count,
    ) == Some(0nat) by {
        vstd::arithmetic::div_mod::lemma_small_mod(0, count);
    }
}

/// Enter always submits the line, with the menu put away first, whether or
/// not the popup is visible.
pub proof fn enter_always_submits(popup: bool, cycles: bool, cursor: (int, bool))
    ensures
        route_of(KeyCode::Enter, NONE, popup) == Route::Submit,
        forall|e: Event|
            #![trigger route_event(Route::Submit, cycles, e)]
            route_event(Route::Submit, cycles, e) <==> is_pair(e, Event::Esc, Event::Enter),
        route_state(Route::Submit, cycles, cursor) == (false, (cursor.0, true)),
{
}

/// A key that changes the line brings the menu back and starts a new cycle,
/// whatever it was before; and a movement after the menu was put away is
/// passed on unchanged, so that a selection is not cleared at every step.
pub proof fn edits_bring_the_menu_back(resolved: EventShape, cycles: bool, cursor: (int, bool))
    ensures
        changes_buffer_spec(resolved) ==> refinement_of(resolved, cursor.1) == Refinement::RefreshMenu
            && refinement_state(Refinement::RefreshMenu, cycles, cursor) == (false, (0int, false)),
        !changes_buffer_spec(resolved) && cursor.1 ==> refinement_of(resolved, cursor.1)
            == Refinement::PassThrough,
{
}

} // verus!
