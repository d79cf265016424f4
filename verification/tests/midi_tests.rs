use statecast::binary64::{HALF, ONE, ZERO};
use statecast::midi::{normalize_midi, parse_midi_message};
use statecast::state::MidiMessage;

#[test]
fn constants_are_the_bit_patterns_of_their_numbers() {
    assert_eq!(f64::from_bits(ZERO), 0.0);
    assert_eq!(f64::from_bits(HALF), 0.5);
    assert_eq!(f64::from_bits(ONE), 1.0);
}

#[test]
fn normalize_midi_divides_by_128_for_every_byte() {
    for value in 0..=255u8 {
        let expected = value as f64 / 128.0;
        assert_eq!(normalize_midi(value), expected.to_bits(), "value {}", value);
    }
}

#[test]
fn normalize_midi_of_64_is_one_half() {
    assert_eq!(f64::from_bits(normalize_midi(64)), 0.5);
    assert_eq!(normalize_midi(64), HALF);
}

#[test]
fn normalize_midi_edge_values() {
    assert_eq!(normalize_midi(0), 0);
    assert_eq!(f64::from_bits(normalize_midi(1)), 0.0078125);
    assert_eq!(f64::from_bits(normalize_midi(127)), 0.9921875);
    assert_eq!(f64::from_bits(normalize_midi(128)), 1.0);
    assert_eq!(f64::from_bits(normalize_midi(255)), 1.9921875);
    assert_eq!(normalize_midi(96), 0x3FE8_0000_0000_0000);
}

#[test]
fn parse_note_on() {
    assert_eq!(
        parse_midi_message(&[0x90, 53, 100]),
        Some(MidiMessage::NoteOn { note: 53, velocity: 100 })
    );
}

#[test]
fn parse_note_on_with_zero_velocity_is_note_off() {
    assert_eq!(parse_midi_message(&[0x90, 53, 0]), Some(MidiMessage::NoteOff { note: 53 }));
}

#[test]
fn parse_note_off() {
    assert_eq!(parse_midi_message(&[0x80, 60, 64]), Some(MidiMessage::NoteOff { note: 60 }));
}

#[test]
fn parse_control_change() {
    assert_eq!(
        parse_midi_message(&[0xB0, 77, 64]),
        Some(MidiMessage::ControlChange { controller: 77, value: 64 })
    );
}

#[test]
fn parse_ignores_the_channel() {
    for channel in 0..16u8 {
        assert_eq!(
            parse_midi_message(&[0x90 | channel, 1, 2]),
            Some(MidiMessage::NoteOn { note: 1, velocity: 2 })
        );
        assert_eq!(
            parse_midi_message(&[0x80 | channel, 1, 2]),
            Some(MidiMessage::NoteOff { note: 1 })
        );
        assert_eq!(
            parse_midi_message(&[0xB0 | channel, 1, 2]),
            Some(MidiMessage::ControlChange { controller: 1, value: 2 })
        );
    }
}

#[test]
fn parse_rejects_short_messages() {
    assert_eq!(parse_midi_message(&[]), None);
    assert_eq!(parse_midi_message(&[0x90]), None);
    assert_eq!(parse_midi_message(&[0x90, 53]), None);
}

#[test]
fn parse_discards_other_kinds() {
    for status in [0x00u8, 0x7F, 0xA0, 0xC0, 0xD0, 0xE0, 0xF0, 0xF8, 0xFF] {
        assert_eq!(parse_midi_message(&[status, 1, 2]), None, "status {:#x}", status);
    }
}

#[test]
fn parse_reads_only_the_first_three_bytes() {
    assert_eq!(
        parse_midi_message(&[0xB1, 80, 127, 9, 9]),
        Some(MidiMessage::ControlChange { controller: 80, value: 127 })
    );
}
