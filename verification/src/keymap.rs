//! The key map under the console's own keys.
//!
//! By default it is the line editor's Emacs key map without a few control
//! keys: Emacs and terminal shortcuts that have no place in a command bar. A
//! key map handed in by the caller is used as it is.

use vstd::prelude::*;

use crate::keys::{KeyCode, CONTROL, DISABLED_CONTROL_CHARS};

verus! {

/// The line editor's key map, `reedline::Keybindings`, carried as an opaque
/// value; what it binds is read through [`bound_keys`].
#[verifier::external_type_specification]
#[verifier::external_body]
pub struct ExKeybindings(reedline::Keybindings);

/// The keys that a key map binds, each as its modifier bits and its key code
/// (`KeyCode::Other` for the keys that this library does not name).
pub uninterp spec fn bound_keys(bindings: reedline::Keybindings) -> Set<(u8, KeyCode)>;

/// The keys that the line editor's Emacs key map binds, as modifier bits
/// (shift 1, control 2, alt 4) and key code: its control keys (Esc, Ctrl-C,
/// D, L, R, O), its navigation (arrows, Home, End and their Ctrl, Shift and
/// Emacs variants, Alt-< and Alt->), its editing keys (Backspace, Delete,
/// Ctrl-H, W, J, Alt/Shift-Enter), its selection keys, and the Emacs keys
/// proper (Enter, Ctrl-B, F, G, Z, Y, K, U, T and the Alt word commands).
pub open spec fn emacs_default_keys() -> Set<(u8, KeyCode)> {
    set![
        (0u8, KeyCode::Esc), (2u8, KeyCode::Char('c')), (2u8, KeyCode::Char('d')), (2u8, KeyCode::Char('l')),
        (2u8, KeyCode::Char('r')), (2u8, KeyCode::Char('o')),
        (0u8, KeyCode::Up), (0u8, KeyCode::Down), (0u8, KeyCode::Left), (0u8, KeyCode::Right),
        (2u8, KeyCode::Left), (2u8, KeyCode::Right), (0u8, KeyCode::Home), (2u8, KeyCode::Char('a')),
        (0u8, KeyCode::End), (2u8, KeyCode::Char('e')), (2u8, KeyCode::Home), (2u8, KeyCode::End),
        (2u8, KeyCode::Char('p')), (2u8, KeyCode::Char('n')), (4u8, KeyCode::Char('<')),
        (4u8, KeyCode::Char('>')), (5u8, KeyCode::Char(',')), (5u8, KeyCode::Char('.')),
        (0u8, KeyCode::Backspace), (0u8, KeyCode::Delete), (2u8, KeyCode::Backspace),
        (2u8, KeyCode::Delete), (2u8, KeyCode::Char('h')), (2u8, KeyCode::Char('w')),
        (4u8, KeyCode::Enter), (1u8, KeyCode::Enter), (2u8, KeyCode::Char('j')),
        (1u8, KeyCode::Up), (1u8, KeyCode::Down), (1u8, KeyCode::Left), (1u8, KeyCode::Right),
        (3u8, KeyCode::Left), (3u8, KeyCode::Right), (1u8, KeyCode::End), (3u8, KeyCode::End),
        (1u8, KeyCode::Home), (3u8, KeyCode::Home), (3u8, KeyCode::Char('a')),
        (0u8, KeyCode::Enter), (2u8, KeyCode::Char('b')), (2u8, KeyCode::Char('f')),
        (2u8, KeyCode::Char('g')), (2u8, KeyCode::Char('z')), (2u8, KeyCode::Char('y')),
        (2u8, KeyCode::Char('k')), (2u8, KeyCode::Char('u')), (4u8, KeyCode::Char('d')),
        (2u8, KeyCode::Char('t')), (4u8, KeyCode::Left), (4u8, KeyCode::Right),
        (4u8, KeyCode::Char('b')), (4u8, KeyCode::Char('f')), (4u8, KeyCode::Delete),
        (4u8, KeyCode::Backspace), (4u8, KeyCode::Char('m')), (4u8, KeyCode::Char('u')),
        (4u8, KeyCode::Char('l')), (4u8, KeyCode::Char('c')),
    ]
}

/// `reedline::default_emacs_keybindings`: the line editor's Emacs key map.
/// Its source (`default_emacs_keybindings` and the `add_common_*` helpers it
/// calls) binds exactly the keys of [`emacs_default_keys`], as built here,
/// without the editor's `system_clipboard` feature (which would add
/// Ctrl-Shift-X, C and V).
#[verifier::external_body]
fn emacs_keybindings() -> (bindings: reedline::Keybindings)
    ensures
        bound_keys(bindings) == emacs_default_keys(),
{
    reedline::default_emacs_keybindings()
}

/// `Keybindings::remove_binding` for Ctrl with a character. Its source
/// removes that one key combination from the map of bindings, so the key goes
/// and every other key stays bound.
#[verifier::external_body]
fn remove_control_binding(bindings: &mut reedline::Keybindings, c: char)
    ensures
        bound_keys(*final(bindings)) == bound_keys(*old(bindings)).remove((CONTROL, KeyCode::Char(c))),
{
    let _ = bindings.remove_binding(reedline::KeyModifiers::CONTROL, reedline::KeyCode::Char(c));
}

/// Whether a key is one of the control keys that the default key map leaves
/// unbound, among the first `n` of them.
pub open spec fn disabled_among(key: (u8, KeyCode), n: int) -> bool {
    &&& key.0 == CONTROL
    &&& exists|i: int| 0 <= i < n && key.1 == KeyCode::Char(#[trigger] DISABLED_CONTROL_CHARS@[i])
}

/// Whether a key is one of the control keys that the default key map leaves
/// unbound.
pub open spec fn disabled(key: (u8, KeyCode)) -> bool {
    disabled_among(key, 7)
}

/// A key map without the disabled control keys: those keys are unbound, and
/// every other key stays bound.
pub fn without_disabled_controls(bindings: reedline::Keybindings) -> (kept: reedline::Keybindings)
    ensures
        bound_keys(kept) == bound_keys(bindings).filter(|key: (u8, KeyCode)| !disabled(key)),
{
    let mut kept = bindings;
    let mut i: usize = 0;
    proof {
        assert(bound_keys(kept) =~= bound_keys(bindings).filter(
            |key: (u8, KeyCode)| !disabled_among(key, 0),
        ));
    }
    while i < 7
        invariant
            i <= 7,
            bound_keys(kept) == bound_keys(bindings).filter(
                |key: (u8, KeyCode)| !disabled_among(key, i as int),
            ),
        decreases 7 - i,
    {
        let c = DISABLED_CONTROL_CHARS[i];
        remove_control_binding(&mut kept, c);
        proof {
            let next = (i + 1) as int;
            assert(DISABLED_CONTROL_CHARS@[i as int] == c);
            assert forall|key: (u8, KeyCode)|
                #![trigger disabled_among(key, next)]
                disabled_among(key, next) <==> (disabled_among(key, i as int) || key == (
                    CONTROL,
                    KeyCode::Char(c),
                )) by {
                if disabled_among(key, next) {
                    let j = choose|j: int|
                        0 <= j < next && key.1 == KeyCode::Char(#[trigger] DISABLED_CONTROL_CHARS@[j]);
                    if j < i {
                        assert(disabled_among(key, i as int));
                    }
                }
                if key == (CONTROL, KeyCode::Char(c)) {
                    assert(key.1 == KeyCode::Char(DISABLED_CONTROL_CHARS@[i as int]));
                }
            }
            assert(bound_keys(kept) =~= bound_keys(bindings).filter(
                |key: (u8, KeyCode)| !disabled_among(key, next),
            ));
        }
        i = i + 1;
    }
    kept
}

/// The default key map of the console: the line editor's Emacs key map
/// without the disabled control keys, and nothing else taken away.
pub fn default_keybindings() -> (bindings: reedline::Keybindings)
    ensures
        bound_keys(bindings) == emacs_default_keys().filter(|key: (u8, KeyCode)| !disabled(key)),
{
    without_disabled_controls(emacs_keybindings())
}

/// The Emacs key map binds every key that the default key map disables, so
/// each of them is really taken away, and exactly seven keys go.
pub proof fn every_disabled_key_was_bound()
    ensures
        forall|key: (u8, KeyCode)| disabled(key) ==> #[trigger] emacs_default_keys().contains(key),
{
    assert forall|key: (u8, KeyCode)| disabled(key) implies #[trigger] emacs_default_keys().contains(key) by {
        let i = choose|i: int| 0 <= i < 7 && key.1 == KeyCode::Char(#[trigger] DISABLED_CONTROL_CHARS@[i]);
        assert(DISABLED_CONTROL_CHARS@ == seq!['l', 'r', 'o', 'b', 'f', 'p', 'n']);
        assert(key == (CONTROL, KeyCode::Char(DISABLED_CONTROL_CHARS@[i])));
    }
}

} // verus!
