//! Keys as the viewer sees them, and the names the key map knows them by.

use vstd::prelude::*;

verus! {

/// A key press.
#[derive(Clone, Copy, Debug, PartialEq, Eq, Hash, Structural)]
pub enum Key {
    /// Both Enter (or Return) and numpad Enter
    Enter,
    Tab,
    Backspace,
    Esc,
    /// Left arrow
    Left,
    /// Right arrow
    Right,
    /// Up arrow
    Up,
    /// Down arrow
    Down,
    Ins,
    Delete,
    Home,
    End,
    PageUp,
    PageDown,
    F0,
    F1,
    F2,
    F3,
    F4,
    F5,
    F6,
    F7,
    F8,
    F9,
    F10,
    F11,
    F12,
    Char(char),
    Ctrl(char),
    Alt(char),
    Shift(char),
    Unknown,
}

/// What the input side hands over: a key press, or the tick of a timer.
#[derive(Clone, Copy, Debug, PartialEq, Eq, Structural)]
pub enum InputEvent {
    Input(Key),
    Tick,
}

/// The function key numbered `n`; `Unknown` past F12.
pub open spec fn function_key(n: u8) -> Key {
    if n == 0 {
        Key::F0
    } else if n == 1 {
        Key::F1
    } else if n == 2 {
        Key::F2
    } else if n == 3 {
        Key::F3
    } else if n == 4 {
        Key::F4
    } else if n == 5 {
        Key::F5
    } else if n == 6 {
        Key::F6
    } else if n == 7 {
        Key::F7
    } else if n == 8 {
        Key::F8
    } else if n == 9 {
        Key::F9
    } else if n == 10 {
        Key::F10
    } else if n == 11 {
        Key::F11
    } else if n == 12 {
        Key::F12
    } else {
        Key::Unknown
    }
}

/// The key for a character typed with the given modifiers held: a key with
/// one modifier when exactly that modifier is held, the plain character
/// otherwise.
pub open spec fn char_key(c: char, alt: bool, control: bool, shift: bool, other: bool) -> Key {
    if alt && !control && !shift && !other {
        Key::Alt(c)
    } else if control && !alt && !shift && !other {
        Key::Ctrl(c)
    } else if shift && !alt && !control && !other {
        Key::Shift(c)
    } else {
        Key::Char(c)
    }
}

/// What `char::to_lowercase` yields for `c`.
pub uninterp spec fn lower_char(c: char) -> Seq<char>;

/// Relies on `char::to_lowercase`, collected into a string: the lowercase
/// mapping of the character, which depends on the character alone.
#[verifier::external_body]
fn char_to_lowercase(c: char) -> (r: String)
    ensures
        r@ == lower_char(c),
{
    c.to_lowercase().to_string()
}

/// The name of a key in the key map.
pub open spec fn key_name(k: Key) -> Seq<char> {
    match k {
        Key::Alt(' ') => "alt+space"@,
        Key::Ctrl(' ') => "ctrl+space"@,
        Key::Char(' ') => "space"@,
        Key::Alt(c) => "alt+"@.push(c),
        Key::Ctrl(c) => "ctrl+"@.push(c),
        Key::Shift(c) => "shift+"@ + lower_char(c),
        Key::Char(c) => seq![c],
        Key::Enter => "Enter"@,
        Key::Tab => "Tab"@,
        Key::Backspace => "Backspace"@,
        Key::Esc => "Esc"@,
        Key::Left => "Left"@,
        Key::Right => "Right"@,
        Key::Up => "Up"@,
        Key::Down => "Down"@,
        Key::Ins => "Ins"@,
        Key::Delete => "Delete"@,
        Key::Home => "Home"@,
        Key::End => "End"@,
        Key::PageUp => "PageUp"@,
        Key::PageDown => "PageDown"@,
        Key::F0 => "F0"@,
        Key::F1 => "F1"@,
        Key::F2 => "F2"@,
        Key::F3 => "F3"@,
        Key::F4 => "F4"@,
        Key::F5 => "F5"@,
        Key::F6 => "F6"@,
        Key::F7 => "F7"@,
        Key::F8 => "F8"@,
        Key::F9 => "F9"@,
        Key::F10 => "F10"@,
        Key::F11 => "F11"@,
        Key::F12 => "F12"@,
        Key::Unknown => "Unknown"@,
    }
}

/// The key-map name of a shifted key, given the lowercase form of its character.
pub fn shifted_key_name(lowered: &str) -> (r: String)
    ensures
        r@ == "shift+"@ + lowered@,
{
    let mut name = "shift+".to_owned();
    name.append(lowered);
    name
}

fn prefixed_name(prefix: &str, c: char) -> (r: String)
    ensures
        r@ == prefix@.push(c),
{
    let mut name = prefix.to_owned();
    name.push(c);
    name
}

impl Key {
    /// Returns the function key corresponding to the given number
    ///
    /// 1 -> F1, etc...
    pub fn from_f(n: u8) -> (r: Key)
        ensures
            r == function_key(n),
    {
        match n {
            0 => Key::F0,
            1 => Key::F1,
            2 => Key::F2,
            3 => Key::F3,
            4 => Key::F4,
            5 => Key::F5,
            6 => Key::F6,
            7 => Key::F7,
            8 => Key::F8,
            9 => Key::F9,
            10 => Key::F10,
            11 => Key::F11,
            12 => Key::F12,
            _ => Key::Unknown,
        }
    }

    /// The key for a character typed while the given modifiers are held
    /// (`other`: any modifier besides alt, control and shift).
    pub fn from_char(c: char, alt: bool, control: bool, shift: bool, other: bool) -> (r: Key)
        ensures
            r == char_key(c, alt, control, shift, other),
    {
        if alt && !control && !shift && !other {
            Key::Alt(c)
        } else if control && !alt && !shift && !other {
            Key::Ctrl(c)
        } else if shift && !alt && !control && !other {
            Key::Shift(c)
        } else {
            Key::Char(c)
        }
    }

    /// The name under which the key map lists this key.
    pub fn name(&self) -> (r: String)
        ensures
            r@ == key_name(*self),
    {
        match *self {
            Key::Alt(' ') => "alt+space".to_owned(),
            Key::Ctrl(' ') => "ctrl+space".to_owned(),
            Key::Char(' ') => "space".to_owned(),
            Key::Alt(c) => prefixed_name("alt+", c),
            Key::Ctrl(c) => prefixed_name("ctrl+", c),
            Key::Shift(c) => {
                let lowered = char_to_lowercase(c);
                shifted_key_name(lowered.as_str())
            },
            Key::Char(c) => {
                let mut name = String::new();
                name.push(c);
                assert(name@ =~= seq![c]);
                name
            },
            Key::Enter => "Enter".to_owned(),
            Key::Tab => "Tab".to_owned(),
            Key::Backspace => "Backspace".to_owned(),
            Key::Esc => "Esc".to_owned(),
            Key::Left => "Left".to_owned(),
            Key::Right => "Right".to_owned(),
            Key::Up => "Up".to_owned(),
            Key::Down => "Down".to_owned(),
            Key::Ins => "Ins".to_owned(),
            Key::Delete => "Delete".to_owned(),
            Key::Home => "Home".to_owned(),
            Key::End => "End".to_owned(),
            Key::PageUp => "PageUp".to_owned(),
            Key::PageDown => "PageDown".to_owned(),
            Key::F0 => "F0".to_owned(),
            Key::F1 => "F1".to_owned(),
            Key::F2 => "F2".to_owned(),
            Key::F3 => "F3".to_owned(),
            Key::F4 => "F4".to_owned(),
            Key::F5 => "F5".to_owned(),
            Key::F6 => "F6".to_owned(),
            Key::F7 => "F7".to_owned(),
            Key::F8 => "F8".to_owned(),
            Key::F9 => "F9".to_owned(),
            Key::F10 => "F10".to_owned(),
            Key::F11 => "F11".to_owned(),
            Key::F12 => "F12".to_owned(),
            Key::Unknown => "Unknown".to_owned(),
        }
    }
}

} // verus!
