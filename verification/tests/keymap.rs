use crossterm::event::{Event, KeyCode, KeyEvent, KeyModifiers};
use reedline::{EditMode, ReedlineEvent, ReedlineRawEvent};
use smaragdine::keymap::{default_keybindings, without_disabled_controls};
use smaragdine::keys::DISABLED_CONTROL_CHARS;

fn edit_event(mode: &mut dyn EditMode, code: KeyCode, modifiers: KeyModifiers) -> ReedlineEvent {
    let raw = ReedlineRawEvent::try_from(Event::Key(KeyEvent::new(code, modifiers))).expect("a key press is taken");
    mode.parse_event(raw)
}

#[test]
fn the_default_mode_disables_only_the_selected_control_bindings() {
    let mut keys: Vec<KeyCode> = ('a'..='z').map(KeyCode::Char).collect();
    keys.extend([
        KeyCode::Left,
        KeyCode::Right,
        KeyCode::Up,
        KeyCode::Down,
        KeyCode::Home,
        KeyCode::End,
        KeyCode::Backspace,
        KeyCode::Delete,
        KeyCode::Enter,
        KeyCode::Tab,
    ]);

    for modifiers in [
        KeyModifiers::CONTROL,
        KeyModifiers::CONTROL | KeyModifiers::SHIFT,
        KeyModifiers::CONTROL | KeyModifiers::ALT,
        KeyModifiers::CONTROL | KeyModifiers::ALT | KeyModifiers::SHIFT,
    ] {
        for code in &keys {
            let mut baseline = reedline::Emacs::default();
            let mut console = reedline::Emacs::new(default_keybindings());
            let expected = edit_event(&mut baseline, *code, modifiers);
            let actual = edit_event(&mut console, *code, modifiers);
            let disabled = modifiers == KeyModifiers::CONTROL
                && matches!(code, KeyCode::Char(key) if DISABLED_CONTROL_CHARS.contains(key));

            if disabled {
                assert_ne!(expected, ReedlineEvent::None, "Ctrl-{code:?} is bound in the baseline");
                assert_eq!(actual, ReedlineEvent::None, "Ctrl-{code:?} is disabled");
            } else {
                assert_eq!(actual, expected, "{modifiers:?}+{code:?} is unchanged");
            }
        }
    }
}

#[test]
fn a_custom_key_map_keeps_what_is_not_disabled() {
    let mut bindings = reedline::Keybindings::new();
    bindings.add_binding(KeyModifiers::CONTROL, KeyCode::Char('l'), ReedlineEvent::ClearScreen);
    bindings.add_binding(KeyModifiers::CONTROL, KeyCode::Char('x'), ReedlineEvent::ClearScreen);
    bindings.add_binding(KeyModifiers::ALT, KeyCode::Char('l'), ReedlineEvent::ClearScreen);
    let kept = without_disabled_controls(bindings);
    assert_eq!(kept.find_binding(KeyModifiers::CONTROL, KeyCode::Char('l')), None);
    assert_eq!(kept.find_binding(KeyModifiers::CONTROL, KeyCode::Char('x')), Some(ReedlineEvent::ClearScreen));
    assert_eq!(kept.find_binding(KeyModifiers::ALT, KeyCode::Char('l')), Some(ReedlineEvent::ClearScreen));
}

/// Every key that the library lists for the Emacs key map is bound there, and
/// nothing else is.
#[test]
fn the_listed_emacs_keys_are_the_bound_ones() {
    let listed = [
        (KeyModifiers::NONE, KeyCode::Backspace),
        (KeyModifiers::NONE, KeyCode::Delete),
        (KeyModifiers::NONE, KeyCode::Down),
        (KeyModifiers::NONE, KeyCode::End),
        (KeyModifiers::NONE, KeyCode::Enter),
        (KeyModifiers::NONE, KeyCode::Esc),
        (KeyModifiers::NONE, KeyCode::Home),
        (KeyModifiers::NONE, KeyCode::Left),
        (KeyModifiers::NONE, KeyCode::Right),
        (KeyModifiers::NONE, KeyCode::Up),
        (KeyModifiers::SHIFT, KeyCode::Down),
        (KeyModifiers::SHIFT, KeyCode::End),
        (KeyModifiers::SHIFT, KeyCode::Enter),
        (KeyModifiers::SHIFT, KeyCode::Home),
        (KeyModifiers::SHIFT, KeyCode::Left),
        (KeyModifiers::SHIFT, KeyCode::Right),
        (KeyModifiers::SHIFT, KeyCode::Up),
        (KeyModifiers::CONTROL, KeyCode::Backspace),
        (KeyModifiers::CONTROL, KeyCode::Char('a')),
        (KeyModifiers::CONTROL, KeyCode::Char('b')),
        (KeyModifiers::CONTROL, KeyCode::Char('c')),
        (KeyModifiers::CONTROL, KeyCode::Char('d')),
        (KeyModifiers::CONTROL, KeyCode::Char('e')),
        (KeyModifiers::CONTROL, KeyCode::Char('f')),
        (KeyModifiers::CONTROL, KeyCode::Char('g')),
        (KeyModifiers::CONTROL, KeyCode::Char('h')),
        (KeyModifiers::CONTROL, KeyCode::Char('j')),
        (KeyModifiers::CONTROL, KeyCode::Char('k')),
        (KeyModifiers::CONTROL, KeyCode::Char('l')),
        (KeyModifiers::CONTROL, KeyCode::Char('n')),
        (KeyModifiers::CONTROL, KeyCode::Char('o')),
        (KeyModifiers::CONTROL, KeyCode::Char('p')),
        (KeyModifiers::CONTROL, KeyCode::Char('r')),
        (KeyModifiers::CONTROL, KeyCode::Char('t')),
        (KeyModifiers::CONTROL, KeyCode::Char('u')),
        (KeyModifiers::CONTROL, KeyCode::Char('w')),
        (KeyModifiers::CONTROL, KeyCode::Char('y')),
        (KeyModifiers::CONTROL, KeyCode::Char('z')),
        (KeyModifiers::CONTROL, KeyCode::Delete),
        (KeyModifiers::CONTROL, KeyCode::End),
        (KeyModifiers::CONTROL, KeyCode::Home),
        (KeyModifiers::CONTROL, KeyCode::Left),
        (KeyModifiers::CONTROL, KeyCode::Right),
        (KeyModifiers::SHIFT.union(KeyModifiers::CONTROL), KeyCode::Char('a')),
        (KeyModifiers::SHIFT.union(KeyModifiers::CONTROL), KeyCode::End),
        (KeyModifiers::SHIFT.union(KeyModifiers::CONTROL), KeyCode::Home),
        (KeyModifiers::SHIFT.union(KeyModifiers::CONTROL), KeyCode::Left),
        (KeyModifiers::SHIFT.union(KeyModifiers::CONTROL), KeyCode::Right),
        (KeyModifiers::ALT, KeyCode::Backspace),
        (KeyModifiers::ALT, KeyCode::Char('<')),
        (KeyModifiers::ALT, KeyCode::Char('>')),
        (KeyModifiers::ALT, KeyCode::Char('b')),
        (KeyModifiers::ALT, KeyCode::Char('c')),
        (KeyModifiers::ALT, KeyCode::Char('d')),
        (KeyModifiers::ALT, KeyCode::Char('f')),
        (KeyModifiers::ALT, KeyCode::Char('l')),
        (KeyModifiers::ALT, KeyCode::Char('m')),
        (KeyModifiers::ALT, KeyCode::Char('u')),
        (KeyModifiers::ALT, KeyCode::Delete),
        (KeyModifiers::ALT, KeyCode::Enter),
        (KeyModifiers::ALT, KeyCode::Left),
        (KeyModifiers::ALT, KeyCode::Right),
        (KeyModifiers::SHIFT.union(KeyModifiers::ALT), KeyCode::Char(',')),
        (KeyModifiers::SHIFT.union(KeyModifiers::ALT), KeyCode::Char('.')),
    ];
    let emacs = reedline::default_emacs_keybindings();
    for (modifiers, code) in listed {
        assert!(emacs.find_binding(modifiers, code).is_some(), "{modifiers:?}+{code:?}");
    }
    assert_eq!(emacs.get_keybindings().len(), listed.len());
    assert_eq!(default_keybindings().get_keybindings().len(), listed.len() - DISABLED_CONTROL_CHARS.len());
}
