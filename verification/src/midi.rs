//! Reading raw MIDI bytes, and scaling a controller value into the unit
//! interval.

use vstd::prelude::*;
use vstd::arithmetic::power2::{pow2, lemma2_to64, lemma2_to64_rest, lemma_pow2_adds,
    lemma_pow2_unfold};
use crate::binary64::{encodes_dyadic, exponent_field, significand, lemma_encoding_unique};
use crate::state::MidiMessage;

verus! {

/// Status nibble of a note-off message.
pub const NOTE_OFF: u8 = 0x80;

/// Status nibble of a note-on message.
pub const NOTE_ON: u8 = 0x90;

/// Status nibble of a control-change message.
pub const CONTROL_CHANGE: u8 = 0xB0;

/// The kind of a message: the high four bits of its status byte, the channel
/// in the low four bits cleared.
pub open spec fn command_of(status: u8) -> int {
    (status / 16) * 16
}

/// What a raw message means.
///
/// A message shorter than three bytes, or of any kind but note-on, note-off
/// and control-change, means nothing. A note-on with velocity zero is a
/// note-off. Bytes after the third are ignored.
pub open spec fn parse_spec(bytes: Seq<u8>) -> Option<MidiMessage> {
    if bytes.len() < 3 {
        None
    } else if command_of(bytes[0]) == NOTE_ON {
        if bytes[2] > 0 {
            Some(MidiMessage::NoteOn { note: bytes[1], velocity: bytes[2] })
        } else {
            Some(MidiMessage::NoteOff { note: bytes[1] })
        }
    } else if command_of(bytes[0]) == NOTE_OFF {
        Some(MidiMessage::NoteOff { note: bytes[1] })
    } else if command_of(bytes[0]) == CONTROL_CHANGE {
        Some(MidiMessage::ControlChange { controller: bytes[1], value: bytes[2] })
    } else {
        None
    }
}

/// Reads one raw MIDI message.
pub fn parse_midi_message(message: &[u8]) -> (parsed: Option<MidiMessage>)
    ensures
        parsed == parse_spec(message@),
{
    if message.len() < 3 {
        return None;
    }
    let status = message[0];
    let command = status & 0xF0;
    assert(command == (status / 16) * 16) by (bit_vector)
        requires
            command == status & 0xF0,
    ;
    if command == NOTE_ON {
        let note = message[1];
        let velocity = message[2];
        if velocity > 0 {
            Some(MidiMessage::NoteOn { note, velocity })
        } else {
            Some(MidiMessage::NoteOff { note })
        }
    } else if command == NOTE_OFF {
        Some(MidiMessage::NoteOff { note: message[1] })
    } else if command == CONTROL_CHANGE {
        Some(MidiMessage::ControlChange { controller: message[1], value: message[2] })
    } else {
        None
    }
}

/// The binary64 bit pattern of `value / 128`.
pub open spec fn normalized(value: u8) -> u64 {
    choose|bits: u64| encodes_dyadic(bits, value as nat, 7)
}

/// Scales a raw controller value by 1/128 and returns the binary64 bit
/// pattern of the quotient, which is exact: the seven-bit values 0 to 127
/// land in `[0, 1)`.
pub fn normalize_midi(value: u8) -> (bits: u64)
    ensures
        bits == normalized(value),
        encodes_dyadic(bits, value as nat, 7),
{
    if value == 0 {
        assert(encodes_dyadic(0, 0, 7));
        return 0;
    }
    // value / 128 == (scaled / 128) * 2^(exponent - 1023), and the loop
    // brings scaled / 128 into [1, 2).
    let mut scaled: u64 = value as u64;
    let mut exponent: u64 = 1023;
    let ghost mut doublings: nat = 0;
    proof {
        lemma2_to64();
    }
    while scaled < 128
        invariant
            value > 0,
            0 < scaled < 256,
            doublings <= 7,
            scaled == value * pow2(doublings),
            exponent + doublings == 1023,
        decreases 256 - scaled,
    {
        proof {
            lemma2_to64();
            if doublings == 7 {
                assert(value * 128 >= 128) by (nonlinear_arith)
                    requires
                        value > 0,
                ;
            }
            lemma_pow2_unfold(doublings + 1);
            assert(scaled * 2 == value * (2 * pow2(doublings))) by (nonlinear_arith)
                requires
                    scaled == value * pow2(doublings),
            ;
        }
        scaled = scaled * 2;
        exponent = exponent - 1;
        proof {
            doublings = doublings + 1;
        }
    }
    let fraction: u64 = scaled - 128;
    let bits = (exponent << 52) | (fraction << 45);
    proof {
        assert(bits >> 52 == exponent && bits & 0x000F_FFFF_FFFF_FFFFu64 == fraction
            * 0x2000_0000_0000u64) by (bit_vector)
            requires
                bits == (exponent << 52) | (fraction << 45),
                exponent < 2048,
                fraction < 128,
        ;
        lemma2_to64_rest();
        assert(significand(bits) == scaled * pow2(45));
        lemma_pow2_adds(doublings, 45);
        lemma_pow2_adds(doublings + 45, (exponent + 7) as nat);
        assert(significand(bits) * pow2(exponent_field(bits) + 7) == value * pow2(1075))
            by (nonlinear_arith)
            requires
                significand(bits) == scaled * pow2(45),
                scaled == value * pow2(doublings),
                exponent_field(bits) == exponent,
                pow2(doublings + 45) == pow2(doublings) * pow2(45),
                pow2(1075) == pow2(doublings + 45) * pow2((exponent + 7) as nat),
        ;
        lemma_encoding_unique(bits, normalized(value), value as nat, 7);
    }
    bits
}

} // verus!
