//! Real-time state distribution: producers push discrete events into a bounded
//! queue, a coordinator folds them into one canonical state, and every change
//! of that state is handed to latest-value channels, one per consumer.
//!
//! - [`state`]: the state, its mathematical snapshot, and the events.
//! - [`midi`]: raw MIDI bytes to messages, and controller values to levels.
//! - [`queue`]: the bounded event queue.
//! - [`channel`]: the latest-value channel.
//! - [`coordinator`]: the fold, the change detection and the fan-out.
//! - [`keys`]: what the number keys ask for.
//! - [`binary64`]: which number a bit pattern stands for.
//!
//! Numbers that consumers treat as reals are carried as the bit patterns of
//! their IEEE 754 encodings, so the whole control path is integer-only. Two
//! states are equal when their bit patterns are.
//!
//! The queue is a `crossbeam_channel` bounded channel and the latest-value
//! channel a `triple_buffer`. What is proved here is proved of one owner who
//! holds both ends of each, on top of six assumed contracts, which stand in
//! [`queue`] and [`channel`] next to the outside calls that they describe.
//! `split` hands the ends to the threads of a program; what happens between
//! threads rests on the two outside crates alone.

pub mod binary64;
pub mod state;
pub mod midi;
pub mod queue;
pub mod channel;
pub mod coordinator;
pub mod keys;
