//! What the number keys ask for: a waveform, or a gate to open or close.

use vstd::prelude::*;
use crate::binary64::{ONE, ZERO};
use crate::state::{Message, FIRST_GATE};

verus! {

/// The shape of one period of an oscillator.
#[derive(Clone, Copy, Debug, PartialEq, Eq, Structural)]
pub enum Waveform {
    Sine,
    Saw,
    Triangle,
    Square,
}

impl Default for Waveform {
    fn default() -> (waveform: Waveform)
        ensures
            waveform == Waveform::Sine,
    {
        Waveform::Sine
    }
}

impl Waveform {
    /// The waveform that a number key selects: keys 1 to 4 select the four
    /// waveforms in the order of their declaration, other keys none.
    pub open spec fn for_digit(digit: u8) -> Option<Waveform> {
        match digit {
            1 => Some(Waveform::Sine),
            2 => Some(Waveform::Saw),
            3 => Some(Waveform::Triangle),
            4 => Some(Waveform::Square),
            _ => None,
        }
    }

    /// Looks up the waveform that a number key selects.
    pub fn from_digit(digit: u8) -> (selected: Option<Waveform>)
        ensures
            selected == Waveform::for_digit(digit),
    {
        if digit == 1 {
            Some(Waveform::Sine)
        } else if digit == 2 {
            Some(Waveform::Saw)
        } else if digit == 3 {
            Some(Waveform::Triangle)
        } else if digit == 4 {
            Some(Waveform::Square)
        } else {
            None
        }
    }
}

/// The event that a number key sends: keys 1 to 4 drive the four gates,
/// one when the key goes down and zero when it comes up.
pub open spec fn gate_event(digit: u8, pressed: bool) -> Option<Message> {
    if 1 <= digit <= 4 {
        Some(Message::SetValue((FIRST_GATE + digit - 1) as usize, if pressed { ONE } else { ZERO }))
    } else {
        None
    }
}

/// Builds the event that a number key sends, if it sends one.
pub fn gate_message(digit: u8, pressed: bool) -> (event: Option<Message>)
    ensures
        event == gate_event(digit, pressed),
        event matches Some(message) ==> message.valid(),
{
    if 1 <= digit && digit <= 4 {
        let level = if pressed { ONE } else { ZERO };
        Some(Message::SetValue(FIRST_GATE + (digit as usize) - 1, level))
    } else {
        None
    }
}

} // verus!
