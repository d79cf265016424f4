use std::collections::VecDeque;

use statecast::channel::LatestValue;
use statecast::coordinator::{apply, Coordinator};
use statecast::queue::EventQueue;
use statecast::state::{Message, MidiMessage, State};

/// A small generator of repeatable numbers.
struct Numbers(u64);

impl Numbers {
    fn next(&mut self) -> u64 {
        self.0 = self.0.wrapping_mul(6364136223846793005).wrapping_add(1442695040888963407);
        self.0 >> 33
    }

    fn message(&mut self) -> Message {
        let levels = [0.0f64, 0.25, 0.5, 1.0];
        let level = levels[(self.next() % 4) as usize].to_bits();
        match self.next() % 6 {
            0 => Message::SetTime(level),
            1 => Message::SetResolution((self.next() % 3) as u32, (self.next() % 3) as u32),
            2 => Message::SetValue((self.next() % 8) as usize, level),
            3 => Message::MidiInput(MidiMessage::ControlChange {
                controller: [1u8, 4, 5, 77, 80, 81][(self.next() % 6) as usize],
                value: [0u8, 32, 64, 127][(self.next() % 4) as usize],
            }),
            4 => Message::MidiInput(MidiMessage::NoteOn {
                note: [52u8, 53][(self.next() % 2) as usize],
                velocity: 100,
            }),
            _ => Message::MidiInput(MidiMessage::NoteOff {
                note: [53u8, 54][(self.next() % 2) as usize],
            }),
        }
    }
}

#[test]
fn the_queue_behaves_like_a_bounded_deque() {
    for capacity in [0usize, 1, 2, 5] {
        let mut numbers = Numbers(capacity as u64 + 1);
        let mut queue = EventQueue::new(capacity);
        let mut model: VecDeque<Message> = VecDeque::new();
        for _ in 0..5_000 {
            if numbers.next() % 3 != 0 {
                let message = numbers.message();
                let expected = if model.len() < capacity {
                    model.push_back(message);
                    true
                } else {
                    false
                };
                assert_eq!(queue.push(message).is_ok(), expected);
            } else {
                assert_eq!(queue.pop(), model.pop_front());
            }
        }
        while let Some(expected) = model.pop_front() {
            assert_eq!(queue.pop(), Some(expected));
        }
        assert_eq!(queue.pop(), None);
    }
}

#[test]
fn the_channel_behaves_like_one_variable() {
    let mut numbers = Numbers(7);
    let mut model = State::default();
    let mut channel = LatestValue::new(&model);
    for _ in 0..5_000 {
        if numbers.next() % 2 == 0 {
            apply(&mut model, numbers.message());
            channel.write(model);
        } else {
            assert_eq!(channel.read(), model);
        }
    }
    assert_eq!(channel.read(), model);
}

#[test]
fn pump_publishes_every_change_and_nothing_else() {
    let mut numbers = Numbers(11);
    let mut coordinator = Coordinator::new();
    let mut channels = vec![
        LatestValue::new(&State::default()),
        LatestValue::new(&State::default()),
        LatestValue::new(&State::default()),
    ];
    let mut queue = EventQueue::new(5);
    let mut model = State::default();
    let mut changes_seen = 0;
    let mut quiet_rounds = 0;

    for _ in 0..2_000 {
        let mut expected_publishes = 0;
        let offered = numbers.next() % 8;
        for _ in 0..offered {
            let message = numbers.message();
            assert!(message.is_valid());
            if queue.push(message).is_ok() {
                let before = model;
                apply(&mut model, message);
                if model != before {
                    expected_publishes += 1;
                }
            }
        }
        assert_eq!(coordinator.pump(&mut queue, &mut channels), expected_publishes);
        assert_eq!(queue.pop(), None);
        assert_eq!(coordinator.state(), model);
        assert_eq!(coordinator.published(), model);
        for channel in channels.iter_mut() {
            assert_eq!(channel.read(), model);
        }
        changes_seen += expected_publishes;
        if expected_publishes == 0 {
            quiet_rounds += 1;
        }
    }
    assert!(changes_seen > 0);
    assert!(quiet_rounds > 0);
}

#[test]
fn step_agrees_with_apply_on_every_message() {
    let mut numbers = Numbers(3);
    let mut coordinator = Coordinator::new();
    let mut model = State::default();
    for _ in 0..5_000 {
        let message = numbers.message();
        let before = model;
        apply(&mut model, message);
        let published = coordinator.step(message);
        if model != before {
            assert_eq!(published, Some(model));
        } else {
            assert_eq!(published, None);
        }
        assert_eq!(coordinator.state(), model);
    }
}
