//! Which input device is in use, and who holds the mouse.

use vstd::prelude::*;

verus! {

/// The input device in use.
#[derive(Clone, Copy, Debug, PartialEq, Eq, Hash, Structural)]
pub enum ActiveInput {
    MouseKeyboard,
    Gamepad,
}

impl Default for ActiveInput {
    fn default() -> (a: ActiveInput)
        ensures
            a == ActiveInput::MouseKeyboard,
    {
        ActiveInput::MouseKeyboard
    }
}

/// What a gamepad reported.
#[derive(Clone, Copy, Debug, PartialEq, Eq, Hash, Structural)]
pub enum GamepadSignal {
    Connection,
    Button,
    Axis,
}

impl GamepadSignal {
    /// A button was moved or a stick was: the player uses the gamepad.
    pub open spec fn is_use(self) -> bool {
        self is Button || self is Axis
    }
}

/// The state of the mouse cursor.
#[derive(Clone, Copy, Debug, PartialEq, Eq, Structural)]
pub struct Cursor {
    pub visible: bool,
    /// The cursor is locked to the window.
    pub locked: bool,
}

/// Whether the gamepad takes over from mouse and keyboard: it does once a
/// button or a stick was moved.
pub fn activate_gamepad(signals: &Vec<GamepadSignal>) -> (next: Option<ActiveInput>)
    ensures
        next == if exists|i: int| 0 <= i < signals.len() && (#[trigger] signals[i]).is_use() {
            Some(ActiveInput::Gamepad)
        } else {
            None
        },
{
    let n: usize = signals.len();
    let mut i: usize = 0;
    while i < n
        invariant
            i <= n,
            n == signals.len(),
            forall|k: int| 0 <= k < i ==> !(#[trigger] signals[k]).is_use(),
        decreases n - i,
    {
        match signals[i] {
            GamepadSignal::Button => {
                return Some(ActiveInput::Gamepad);
            },
            GamepadSignal::Axis => {
                return Some(ActiveInput::Gamepad);
            },
            GamepadSignal::Connection => {},
        }
        i += 1;
    }
    None
}

/// Whether mouse and keyboard take over from the gamepad: they do once any
/// key was pressed or released.
pub fn activate_mnk(keyboard_events: usize) -> (next: Option<ActiveInput>)
    ensures
        next == if keyboard_events > 0 {
            Some(ActiveInput::MouseKeyboard)
        } else {
            None
        },
{
    if keyboard_events > 0 {
        Some(ActiveInput::MouseKeyboard)
    } else {
        None
    }
}

/// The cursor after a frame: a click of the left button hides and locks it,
/// the escape key shows and frees it, and escape has the last word.
pub fn grab_mouse(cursor: Cursor, left_click: bool, escape: bool) -> (next: Cursor)
    ensures
        next == if escape {
            Cursor { visible: true, locked: false }
        } else if left_click {
            Cursor { visible: false, locked: true }
        } else {
            cursor
        },
{
    let mut next: Cursor = cursor;
    if left_click {
        next.visible = false;
        next.locked = true;
    }
    if escape {
        next.visible = true;
        next.locked = false;
    }
    next
}

} // verus!
