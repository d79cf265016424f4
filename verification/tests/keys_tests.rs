use statecast::keys::{gate_message, Waveform};
use statecast::state::{Message, FIRST_GATE};

#[test]
fn the_default_waveform_is_the_sine() {
    assert_eq!(Waveform::default(), Waveform::Sine);
}

#[test]
fn number_keys_select_the_waveforms() {
    assert_eq!(Waveform::from_digit(1), Some(Waveform::Sine));
    assert_eq!(Waveform::from_digit(2), Some(Waveform::Saw));
    assert_eq!(Waveform::from_digit(3), Some(Waveform::Triangle));
    assert_eq!(Waveform::from_digit(4), Some(Waveform::Square));
}

#[test]
fn other_keys_select_no_waveform() {
    assert_eq!(Waveform::from_digit(0), None);
    for digit in 5..=255u8 {
        assert_eq!(Waveform::from_digit(digit), None);
    }
}

#[test]
fn a_number_key_going_down_opens_its_gate() {
    for digit in 1..=4u8 {
        assert_eq!(
            gate_message(digit, true),
            Some(Message::SetValue(FIRST_GATE + digit as usize - 1, 1.0f64.to_bits()))
        );
    }
    assert_eq!(gate_message(1, true), Some(Message::SetValue(4, 1.0f64.to_bits())));
    assert_eq!(gate_message(4, true), Some(Message::SetValue(7, 1.0f64.to_bits())));
}

#[test]
fn a_number_key_coming_up_closes_its_gate() {
    for digit in 1..=4u8 {
        assert_eq!(
            gate_message(digit, false),
            Some(Message::SetValue(3 + digit as usize, 0.0f64.to_bits()))
        );
    }
}

#[test]
fn other_keys_send_nothing() {
    assert_eq!(gate_message(0, true), None);
    assert_eq!(gate_message(0, false), None);
    for digit in 5..=255u8 {
        assert_eq!(gate_message(digit, true), None);
        assert_eq!(gate_message(digit, false), None);
    }
}

#[test]
fn gate_messages_are_valid() {
    for digit in 0..=255u8 {
        for pressed in [false, true] {
            if let Some(message) = gate_message(digit, pressed) {
                assert!(message.is_valid());
            }
        }
    }
}
