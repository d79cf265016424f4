use statecast::state::{Message, MidiMessage, State, FIRST_GATE, VALUE_COUNT};

#[test]
fn default_state_is_time_zero_levels_at_one_half_and_gates_closed() {
    let state = State::default();
    assert_eq!(f64::from_bits(state.time), 0.0);
    assert_eq!(f32::from_bits(state.resolution[0]), 0.0);
    assert_eq!(f32::from_bits(state.resolution[1]), 0.0);
    assert_eq!(state.values.len(), VALUE_COUNT);
    assert_eq!(FIRST_GATE, 4);
    for level in &state.values[..FIRST_GATE] {
        assert_eq!(f64::from_bits(*level), 0.5);
    }
    for gate in &state.values[FIRST_GATE..] {
        assert_eq!(f64::from_bits(*gate), 0.0);
    }
}

#[test]
fn every_default_state_is_the_same() {
    assert_eq!(State::default(), State::default());
    let state = State::default();
    assert_eq!(state, state);
}

#[test]
fn a_message_fits_in_three_words() {
    assert!(std::mem::size_of::<Message>() <= 24);
}

#[test]
fn states_are_compared_field_by_field() {
    let base = State::default();
    assert!(base == State::default());

    let mut other = base;
    other.time = 1.0f64.to_bits();
    assert!(base != other);

    let mut other = base;
    other.resolution[0] = 960.0f32.to_bits();
    assert!(base != other);

    let mut other = base;
    other.resolution[1] = 540.0f32.to_bits();
    assert!(base != other);

    for slot in 0..VALUE_COUNT {
        let mut other = base;
        other.values[slot] = 0.25f64.to_bits();
        assert!(base != other, "slot {}", slot);
        other.values[slot] = base.values[slot];
        assert!(base == other, "slot {}", slot);
    }
}

#[test]
fn a_copy_of_a_state_is_equal_to_it() {
    let mut state = State::default();
    state.time = 12.5f64.to_bits();
    state.values[7] = 1.0f64.to_bits();
    let copy = state;
    assert_eq!(copy, state);
    assert_eq!(copy.clone(), state);
}

#[test]
fn set_value_is_valid_only_within_the_values() {
    assert!(Message::SetValue(0, 0).is_valid());
    assert!(Message::SetValue(VALUE_COUNT - 1, 0).is_valid());
    assert!(!Message::SetValue(VALUE_COUNT, 0).is_valid());
    assert!(!Message::SetValue(usize::MAX, 0).is_valid());
}

#[test]
fn other_messages_are_always_valid() {
    assert!(Message::SetTime(u64::MAX).is_valid());
    assert!(Message::SetResolution(u32::MAX, 0).is_valid());
    assert!(Message::MidiInput(MidiMessage::NoteOff { note: 255 }).is_valid());
    assert!(Message::MidiInput(MidiMessage::ControlChange { controller: 255, value: 255 })
        .is_valid());
}
