//! The events that drive the views: keys, and ticks of a timer.
use vstd::prelude::*;

verus! {

/// A key that the views know.
#[derive(Clone, Copy, Debug, PartialEq, Eq, Structural)]
pub enum Key {
    Up,
    Down,
    PageUp,
    PageDown,
    Enter,
    Esc,
    Char(char),
    Other,
}

/// One item of the input stream.
#[derive(Clone, Copy, Debug, PartialEq, Eq, Structural)]
pub enum Event {
    Tick,
    Key(Key),
}

/// What one read of the keyboard gave.
#[derive(Clone, Copy, Debug, PartialEq, Eq, Structural)]
pub enum KeyRead {
    /// No key is waiting.
    Idle,
    Pressed(Key),
    /// The keyboard can no longer be read.
    Failed,
}

/// The event that a read of the keyboard turns into: a waiting key at once,
/// else a tick once the timer's period is over; `None` ends the stream.
pub fn next_event(read: KeyRead) -> (r: Option<Event>)
    ensures
        r == match read {
            KeyRead::Idle => Some(Event::Tick),
            KeyRead::Pressed(k) => Some(Event::Key(k)),
            KeyRead::Failed => None::<Event>,
        },
{
    match read {
        KeyRead::Idle => Some(Event::Tick),
        KeyRead::Pressed(k) => Some(Event::Key(k)),
        KeyRead::Failed => None,
    }
}

} // verus!
