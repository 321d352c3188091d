//! Hotkeys: Left Ctrl + Alt + Left Shift + a digit runs the bind named by that digit.
use vstd::prelude::*;
use crate::text::{pieces, split_pieces, views};

verus! {

/// The keys that the hotkeys are made of; every other key is `Other`.
#[derive(Clone, Copy, PartialEq, Eq, Debug)]
pub enum Key {
    ControlLeft,
    ShiftLeft,
    Alt,
    Num0,
    Num1,
    Num2,
    Num3,
    Num4,
    Num5,
    Num6,
    Num7,
    Num8,
    Num9,
    Other,
}

/// A keyboard event: a key going down or up; `Other` for anything else (mouse, wheel).
#[derive(Clone, Copy, PartialEq, Eq, Debug)]
pub enum KeyEvent {
    KeyPress(Key),
    KeyRelease(Key),
    Other,
}

/// Which of the hotkey's modifier keys are held down.
#[derive(Clone, Copy, Debug)]
pub struct KeyBoardState {
    is_left_ctrl_pressed: bool,
    is_left_shift_pressed: bool,
    is_left_alt_pressed: bool,
}

/// The modifiers held: left Ctrl, left Shift, Alt.
pub struct Modifiers {
    pub ctrl: bool,
    pub shift: bool,
    pub alt: bool,
}

impl View for KeyBoardState {
    type V = Modifiers;

    closed spec fn view(&self) -> Modifiers {
        Modifiers {
            ctrl: self.is_left_ctrl_pressed,
            shift: self.is_left_shift_pressed,
            alt: self.is_left_alt_pressed,
        }
    }
}

impl KeyBoardState {
    /// No modifier held.
    pub fn new() -> (res: Self)
        ensures
            res@ == (Modifiers { ctrl: false, shift: false, alt: false }),
    {
        Self { is_left_ctrl_pressed: false, is_left_shift_pressed: false, is_left_alt_pressed: false }
    }
}

/// The text a key stands for in a hotkey: its digit, or nothing.
pub open spec fn key_text(key: Key) -> Seq<char> {
    match key {
        Key::Num0 => "0"@,
        Key::Num1 => "1"@,
        Key::Num2 => "2"@,
        Key::Num3 => "3"@,
        Key::Num4 => "4"@,
        Key::Num5 => "5"@,
        Key::Num6 => "6"@,
        Key::Num7 => "7"@,
        Key::Num8 => "8"@,
        Key::Num9 => "9"@,
        _ => ""@,
    }
}

/// The modifiers after `event`.
pub open spec fn modifiers_after(m: Modifiers, event: KeyEvent) -> Modifiers {
    match event {
        KeyEvent::KeyPress(Key::ControlLeft) => Modifiers { ctrl: true, ..m },
        KeyEvent::KeyRelease(Key::ControlLeft) => Modifiers { ctrl: false, ..m },
        KeyEvent::KeyPress(Key::ShiftLeft) => Modifiers { shift: true, ..m },
        KeyEvent::KeyRelease(Key::ShiftLeft) => Modifiers { shift: false, ..m },
        KeyEvent::KeyPress(Key::Alt) => Modifiers { alt: true, ..m },
        KeyEvent::KeyRelease(Key::Alt) => Modifiers { alt: false, ..m },
        _ => m,
    }
}

/// The command that `event` types while the modifiers `m` are held: the digit of a digit key
/// pressed with all three modifiers down.
pub open spec fn hotkey_command(m: Modifiers, event: KeyEvent) -> Option<Seq<char>> {
    match event {
        KeyEvent::KeyPress(key) => if key_text(key) != ""@ && m.ctrl && m.shift && m.alt {
            Some(key_text(key))
        } else {
            None
        },
        _ => None,
    }
}

/// Runs the commands given to the program and the hotkeys typed while it runs.
pub struct AppManager {}

impl AppManager {
    pub fn new() -> (res: Self) {
        Self {}
    }

    /// The commands given to the program at start: the parts of `parameters` between ';'.
    pub fn process_parameters(&mut self, parameters: Option<String>) -> (res: Vec<String>)
        ensures
            match parameters {
                None => res@.len() == 0,
                Some(p) => views(res@) == pieces(p@, ";"@),
            },
    {
        match parameters {
            None => Vec::new(),
            Some(p) => {
                proof {
                    reveal_strlit(";");
                }
                split_pieces(p.as_str(), ";")
            },
        }
    }

    /// Follows `event` on the keyboard: updates the modifiers held and gives the command that a
    /// completed hotkey types.
    pub fn callback(keyboard_state: &mut KeyBoardState, event: KeyEvent) -> (res: Option<String>)
        ensures
            final(keyboard_state)@ == modifiers_after(old(keyboard_state)@, event),
            match hotkey_command(old(keyboard_state)@, event) {
                Some(c) => res matches Some(s) && s@ == c,
                None => res is None,
            },
    {
        match event {
            KeyEvent::KeyPress(Key::ControlLeft) => {
                keyboard_state.is_left_ctrl_pressed = true;
                None
            },
            KeyEvent::KeyRelease(Key::ControlLeft) => {
                keyboard_state.is_left_ctrl_pressed = false;
                None
            },
            KeyEvent::KeyPress(Key::ShiftLeft) => {
                keyboard_state.is_left_shift_pressed = true;
                None
            },
            KeyEvent::KeyRelease(Key::ShiftLeft) => {
                keyboard_state.is_left_shift_pressed = false;
                None
            },
            KeyEvent::KeyPress(Key::Alt) => {
                keyboard_state.is_left_alt_pressed = true;
                None
            },
            KeyEvent::KeyRelease(Key::Alt) => {
                keyboard_state.is_left_alt_pressed = false;
                None
            },
            KeyEvent::KeyPress(key) => {
                let key_string = AppManager::key_to_string(key);
                if key_string != "".to_owned() && keyboard_state.is_left_ctrl_pressed
                    && keyboard_state.is_left_shift_pressed && keyboard_state.is_left_alt_pressed {
                    Some(key_string)
                } else {
                    None
                }
            },
            _ => None,
        }
    }

    /// The digit that a digit key stands for; the empty text for any other key.
    pub fn key_to_string(key: Key) -> (res: String)
        ensures
            res@ == key_text(key),
    {
        match key {
            Key::Num0 => "0".to_owned(),
            Key::Num1 => "1".to_owned(),
            Key::Num2 => "2".to_owned(),
            Key::Num3 => "3".to_owned(),
            Key::Num4 => "4".to_owned(),
            Key::Num5 => "5".to_owned(),
            Key::Num6 => "6".to_owned(),
            Key::Num7 => "7".to_owned(),
            Key::Num8 => "8".to_owned(),
            Key::Num9 => "9".to_owned(),
            _ => "".to_owned(),
        }
    }
}

} // verus!
