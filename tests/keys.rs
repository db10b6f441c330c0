use diff_tool::keys::{shifted_key_name, InputEvent, Key};

#[test]
fn function_keys() {
    assert_eq!(Key::from_f(0), Key::F0);
    assert_eq!(Key::from_f(1), Key::F1);
    assert_eq!(Key::from_f(12), Key::F12);
    assert_eq!(Key::from_f(13), Key::Unknown);
    assert_eq!(Key::from_f(255), Key::Unknown);
}

#[test]
fn char_keys_with_modifiers() {
    assert_eq!(Key::from_char('x', true, false, false, false), Key::Alt('x'));
    assert_eq!(Key::from_char('c', false, true, false, false), Key::Ctrl('c'));
    assert_eq!(Key::from_char('G', false, false, true, false), Key::Shift('G'));
    assert_eq!(Key::from_char('j', false, false, false, false), Key::Char('j'));
    assert_eq!(Key::from_char('j', true, true, false, false), Key::Char('j'));
    assert_eq!(Key::from_char('j', false, false, false, true), Key::Char('j'));
}

#[test]
fn key_names() {
    assert_eq!(Key::Alt(' ').name(), "alt+space");
    assert_eq!(Key::Ctrl(' ').name(), "ctrl+space");
    assert_eq!(Key::Char(' ').name(), "space");
    assert_eq!(Key::Alt('x').name(), "alt+x");
    assert_eq!(Key::Ctrl('c').name(), "ctrl+c");
    assert_eq!(Key::Shift('G').name(), "shift+g");
    assert_eq!(Key::Char('q').name(), "q");
    assert_eq!(Key::Esc.name(), "Esc");
    assert_eq!(Key::PageDown.name(), "PageDown");
    assert_eq!(Key::F10.name(), "F10");
    assert_eq!(Key::Unknown.name(), "Unknown");
}

#[test]
fn shifted_name_from_lowered_char() {
    assert_eq!(shifted_key_name("g"), "shift+g");
    assert_eq!(shifted_key_name(""), "shift+");
}

#[test]
fn input_events_carry_keys() {
    assert_eq!(InputEvent::Input(Key::Up), InputEvent::Input(Key::Up));
    assert_ne!(InputEvent::Input(Key::Up), InputEvent::Tick);
}
