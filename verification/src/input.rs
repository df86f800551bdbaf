//! Asking the desktop to copy the current selection.
//!
//! A capture is started by a hotkey that holds Control and Shift down. To
//! copy the selection the desktop has to see a plain Control+C, so Shift is
//! let go first and pressed again afterwards.

use vstd::prelude::*;

verus! {

/// A key that takes part in the copy keystroke.
#[derive(Debug, Clone, Copy, PartialEq, Eq)]
pub enum Key {
    Shift,
    Control,
    C,
}

/// A key going down or coming up.
#[derive(Debug, Clone, Copy, PartialEq, Eq)]
pub struct KeyEvent {
    pub key: Key,
    /// `true` where the key comes up, `false` where it goes down.
    pub released: bool,
}

/// The key events that make the desktop copy the selection while the
/// capture hotkey is held: Shift up; Control down, C down, C up, Control up;
/// Shift down again.
pub open spec fn copy_chord() -> Seq<KeyEvent> {
    seq![
        KeyEvent { key: Key::Shift, released: true },
        KeyEvent { key: Key::Control, released: false },
        KeyEvent { key: Key::C, released: false },
        KeyEvent { key: Key::C, released: true },
        KeyEvent { key: Key::Control, released: true },
        KeyEvent { key: Key::Shift, released: false },
    ]
}

/// The key events to send, in order, to make the desktop copy the
/// selection.
pub fn copy_keystrokes() -> (events: Vec<KeyEvent>)
    ensures
        events@ == copy_chord(),
{
    let mut events: Vec<KeyEvent> = Vec::new();
    events.push(KeyEvent { key: Key::Shift, released: true });
    events.push(KeyEvent { key: Key::Control, released: false });
    events.push(KeyEvent { key: Key::C, released: false });
    events.push(KeyEvent { key: Key::C, released: true });
    events.push(KeyEvent { key: Key::Control, released: true });
    events.push(KeyEvent { key: Key::Shift, released: false });
    events
}

/// Asks the desktop to copy the current selection to the clipboard. This
/// portable form sends no key event and returns at once; a platform that can
/// send key events sends those of [`copy_keystrokes`].
pub fn simulate_copy() {
}

} // verus!
