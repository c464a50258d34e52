//! Keys as the terminal reports them, and the single-line input handler.
use vstd::prelude::*;

verus! {

/// `SHIFT` in the terminal's modifier bits.
pub const MOD_SHIFT: u8 = 1;

/// `CONTROL` in the terminal's modifier bits.
pub const MOD_CONTROL: u8 = 2;

/// `ALT` in the terminal's modifier bits.
pub const MOD_ALT: u8 = 4;

/// The keys that the interface reacts to; every other key is `Other`.
#[derive(Debug, Clone, Copy, PartialEq, Eq, Structural)]
pub enum Key {
    Backspace,
    Enter,
    Left,
    Right,
    Up,
    Down,
    Home,
    End,
    Delete,
    Esc,
    Char(char),
    Other,
}

/// A key press: the key and the modifier bits held with it.
#[derive(Debug, Clone, Copy, PartialEq, Eq, Structural)]
pub struct KeyInput {
    pub code: Key,
    pub modifiers: u8,
}

/// Control is among the held modifiers.
pub open spec fn ctrl_held(k: KeyInput) -> bool {
    k.modifiers & MOD_CONTROL != 0
}

/// Control is the only held modifier.
pub open spec fn only_ctrl(k: KeyInput) -> bool {
    k.modifiers == MOD_CONTROL
}

/// What a key does to a plain input line.
#[derive(Debug, Clone, Copy, PartialEq, Eq, Structural)]
pub enum InputAction {
    Insert(char),
    Backspace,
    Submit,
    Quit,
}

/// Maps key presses to input actions.
pub struct InputHandler;

/// The action of a key: Ctrl+C quits, a character typed without Control is
/// inserted, Backspace and Enter edit and submit; anything else does nothing.
pub open spec fn key_action(k: KeyInput) -> Option<InputAction> {
    match k.code {
        Key::Char(c) => if ctrl_held(k) && c == 'c' {
            Some(InputAction::Quit)
        } else if !ctrl_held(k) {
            Some(InputAction::Insert(c))
        } else {
            None
        },
        Key::Backspace => Some(InputAction::Backspace),
        Key::Enter => Some(InputAction::Submit),
        _ => None,
    }
}

impl InputHandler {
    pub fn new() -> (r: Self) {
        InputHandler
    }

    /// The action of a key press, as `key_action` describes.
    pub fn handle_key(&self, key: KeyInput) -> (r: Option<InputAction>)
        ensures
            r == key_action(key),
    {
        match key.code {
            Key::Char(c) => {
                let ctrl = key.modifiers & MOD_CONTROL != 0;
                if ctrl && c == 'c' {
                    Some(InputAction::Quit)
                } else if !ctrl {
                    Some(InputAction::Insert(c))
                } else {
                    None
                }
            },
            Key::Backspace => Some(InputAction::Backspace),
            Key::Enter => Some(InputAction::Submit),
            _ => None,
        }
    }
}

} // verus!
