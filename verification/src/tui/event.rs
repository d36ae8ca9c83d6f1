//! What reaches the dashboard from the terminal.

use crate::tui::mvu::{key_action, spec_key_action, Action};
use vstd::prelude::*;

verus! {

/// A key of the keyboard, as far as the dashboard tells keys apart.
#[derive(Debug, Clone, Copy, PartialEq, Eq, Structural)]
pub enum Key {
    /// A key that writes a character.
    Char(char),
    Esc,
    Tab,
    /// Tab together with shift.
    BackTab,
    Left,
    Right,
    Up,
    Down,
    /// Any other key.
    Other,
}

/// A key as it was pressed.
#[derive(Debug, Clone, Copy, PartialEq, Eq, Structural)]
pub struct KeyPress {
    /// The key.
    pub key: Key,
    /// Whether the control key was held.
    pub control: bool,
}

impl KeyPress {
    /// The key pressed alone.
    pub fn plain(key: Key) -> (r: KeyPress)
        ensures
            r.key == key,
            !r.control,
    {
        KeyPress { key, control: false }
    }

    /// The key pressed together with control.
    pub fn with_control(key: Key) -> (r: KeyPress)
        ensures
            r.key == key,
            r.control,
    {
        KeyPress { key, control: true }
    }
}

/// An event in the terminal.
#[derive(Debug, Clone, Copy, PartialEq, Eq, Structural)]
pub enum Event {
    /// A key was pressed.
    Key(KeyPress),
    /// The terminal has a new size: columns, then rows.
    Resize(u16, u16),
    /// Nothing happened for the length of a tick.
    Tick,
}

/// The action that follows from what the event source delivered: the
/// action of a key that has one, and `Tick` for everything else: a tick, a
/// new size, a key without an action, and `None`, which stands for a source
/// that has closed.
pub open spec fn spec_next_action(received: Option<Event>) -> Action {
    match received {
        Some(Event::Key(key)) => match spec_key_action(key) {
            Some(action) => action,
            None => Action::Tick,
        },
        _ => Action::Tick,
    }
}

/// The action that follows from what the event source delivered (see
/// [`spec_next_action`]).
pub fn next_action(received: Option<Event>) -> (r: Action)
    ensures
        r == spec_next_action(received),
{
    match received {
        Some(Event::Key(key)) => match key_action(key) {
            Some(action) => action,
            None => Action::Tick,
        },
        _ => Action::Tick,
    }
}

} // verus!
