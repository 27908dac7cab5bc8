//! The events that drive the display loop, and the keyboard input from which
//! two of them come.

use vstd::prelude::*;

verus! {

/// What the display loop is told.
#[derive(Clone, Copy, Debug, PartialEq, Eq, Structural)]
pub enum TimerEvent {
    /// Draw the line of elapsed time again, now.
    Tick,
    /// A lap ends now and the next one begins.
    Lap,
    /// Leave the display loop.
    Stop,
}

/// The key of a key press, as far as the stopwatch tells keys apart.
#[derive(Clone, Copy, Debug, PartialEq, Eq, Structural)]
pub enum Key {
    /// The Enter key.
    Enter,
    /// A key that stands for a character.
    Char(char),
    /// Any other key.
    Other,
}

/// The modifier keys held down during a key press.
#[derive(Clone, Copy, Debug, PartialEq, Eq, Structural)]
pub struct Modifiers {
    /// Shift.
    pub shift: bool,
    /// Control.
    pub control: bool,
    /// Alt, or Option.
    pub alt: bool,
    /// The key with the system's logo: Super, Windows or Command.
    pub logo: bool,
    /// Hyper.
    pub hyper: bool,
    /// Meta.
    pub meta: bool,
}

impl Modifiers {
    /// Whether no modifier key is held.
    pub open spec fn is_none(self) -> bool {
        !self.shift && !self.control && !self.alt && !self.logo && !self.hyper && !self.meta
    }

    /// Whether Control is held and no other modifier key with it.
    pub open spec fn is_control_alone(self) -> bool {
        self.control && !self.shift && !self.alt && !self.logo && !self.hyper && !self.meta
    }

    /// No modifier key held.
    pub fn none() -> (modifiers: Modifiers)
        ensures
            modifiers.is_none(),
    {
        Modifiers {
            shift: false,
            control: false,
            alt: false,
            logo: false,
            hyper: false,
            meta: false,
        }
    }

    /// Control held, and nothing else.
    pub fn control() -> (modifiers: Modifiers)
        ensures
            modifiers.is_control_alone(),
    {
        Modifiers {
            shift: false,
            control: true,
            alt: false,
            logo: false,
            hyper: false,
            meta: false,
        }
    }
}

/// One thing that the terminal reports.
#[derive(Clone, Copy, Debug, PartialEq, Eq, Structural)]
pub enum Input {
    /// A key, with the modifier keys held while it was pressed.
    Key { key: Key, modifiers: Modifiers },
    /// Anything that is no key: the mouse, a new window size, pasted text, focus.
    Other,
}

/// The event that an input stands for. Enter with no modifier key held is a
/// lap; the character `c` with Control, and Control alone, is a stop; nothing
/// else is an event, and no input is a tick.
pub open spec fn meaning(input: Input) -> Option<TimerEvent> {
    match input {
        Input::Key { key: Key::Enter, modifiers } => if modifiers.is_none() {
            Some(TimerEvent::Lap)
        } else {
            None
        },
        Input::Key { key: Key::Char(c), modifiers } => if c == 'c'
            && modifiers.is_control_alone() {
            Some(TimerEvent::Stop)
        } else {
            None
        },
        _ => None,
    }
}

/// The event that `input` stands for, if it stands for one.
pub fn interpret(input: &Input) -> (event: Option<TimerEvent>)
    ensures
        event == meaning(*input),
        event != Some(TimerEvent::Tick),
{
    match input {
        Input::Key { key: Key::Enter, modifiers } => {
            if !modifiers.shift && !modifiers.control && !modifiers.alt && !modifiers.logo
                && !modifiers.hyper && !modifiers.meta {
                Some(TimerEvent::Lap)
            } else {
                None
            }
        },
        Input::Key { key: Key::Char(c), modifiers } => {
            if *c == 'c' && modifiers.control && !modifiers.shift && !modifiers.alt
                && !modifiers.logo && !modifiers.hyper && !modifiers.meta {
                Some(TimerEvent::Stop)
            } else {
                None
            }
        },
        _ => None,
    }
}

} // verus!
