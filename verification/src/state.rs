//! The snapshot that consumers read and the events that change it.

use vstd::prelude::*;
use vstd::std_specs::cmp::PartialEqSpecImpl;
use crate::binary64::{HALF, ZERO};

verus! {

/// Number of control values in a snapshot.
pub const VALUE_COUNT: usize = 8;

/// The first of the gates. The control values before it are continuous
/// levels; it and the ones after it are gates, which are open at one and
/// closed at zero.
pub const FIRST_GATE: usize = 4;

/// One consistent view of all control state at an instant.
///
/// `time` and each entry of `values` hold a binary64 bit pattern, each entry
/// of `resolution` (width, then height) a binary32 bit pattern. The first
/// four values are continuous levels, by convention in the unit interval;
/// the last four are gates. Two states are equal when all their bit patterns
/// are.
#[derive(Clone, Copy, Debug, Eq)]
pub struct State {
    pub time: u64,
    pub resolution: [u32; 2],
    pub values: [u64; 8],
}

/// What a `State` holds, as mathematical sequences.
pub struct Snapshot {
    pub time: u64,
    pub resolution: Seq<u32>,
    pub values: Seq<u64>,
}

impl Snapshot {
    /// The snapshot that everything starts from: time zero, a zero
    /// resolution, every level at one half and every gate closed.
    pub open spec fn initial() -> Snapshot {
        Snapshot {
            time: ZERO,
            resolution: Seq::new(2, |i: int| 0u32),
            values: Seq::new(
                VALUE_COUNT as nat,
                |i: int|
                    if i < FIRST_GATE {
                        HALF
                    } else {
                        ZERO
                    },
            ),
        }
    }

    /// Every `State` has a snapshot of this shape.
    pub open spec fn well_formed(self) -> bool {
        self.resolution.len() == 2 && self.values.len() == VALUE_COUNT
    }
}

impl View for State {
    type V = Snapshot;

    open spec fn view(&self) -> Snapshot {
        Snapshot { time: self.time, resolution: self.resolution@, values: self.values@ }
    }
}

impl State {
    /// The shape of a state's snapshot is fixed by its type.
    pub proof fn lemma_well_formed(self)
        ensures
            self@.well_formed(),
    {
    }

    /// States with the same snapshot are the same state.
    pub proof fn lemma_view_injective(self, other: State)
        requires
            self@ == other@,
        ensures
            self == other,
    {
        assert(self.resolution =~= other.resolution);
        assert(self.values =~= other.values);
    }
}

impl PartialEq for State {
    fn eq(&self, other: &State) -> (same: bool) {
        let mut same = self.time == other.time && self.resolution[0] == other.resolution[0]
            && self.resolution[1] == other.resolution[1];
        let mut i: usize = 0;
        while i < VALUE_COUNT
            invariant
                i <= VALUE_COUNT,
                same == (self.time == other.time && self.resolution@ =~= other.resolution@
                    && self.values@.take(i as int) =~= other.values@.take(i as int)),
            decreases VALUE_COUNT - i,
        {
            if self.values[i] != other.values[i] {
                same = false;
            }
            proof {
                let a = self.values@;
                let b = other.values@;
                assert(a.take(i + 1) =~= a.take(i as int).push(a[i as int]));
                assert(b.take(i + 1) =~= b.take(i as int).push(b[i as int]));
                if a.take(i as int) =~= b.take(i as int) && a[i as int] == b[i as int] {
                    assert(a.take(i + 1) =~= b.take(i + 1));
                }
                if a.take(i + 1) =~= b.take(i + 1) {
                    assert(a.take(i + 1)[i as int] == b.take(i + 1)[i as int]);
                    assert(a.take(i as int) =~= a.take(i + 1).take(i as int));
                    assert(b.take(i as int) =~= b.take(i + 1).take(i as int));
                }
            }
            i += 1;
        }
        proof {
            assert(self.values@.take(VALUE_COUNT as int) =~= self.values@);
            assert(other.values@.take(VALUE_COUNT as int) =~= other.values@);
        }
        same
    }
}

impl PartialEqSpecImpl for State {
    open spec fn obeys_eq_spec() -> bool {
        true
    }

    open spec fn eq_spec(&self, other: &State) -> bool {
        self@ == other@
    }
}

impl Default for State {
    fn default() -> (state: State)
        ensures
            state@ == Snapshot::initial(),
    {
        let state = State {
            time: ZERO,
            resolution: [0u32; 2],
            values: [HALF, HALF, HALF, HALF, ZERO, ZERO, ZERO, ZERO],
        };
        proof {
            assert(state@.resolution =~= Snapshot::initial().resolution);
            assert(state@.values =~= Snapshot::initial().values);
        }
        state
    }
}

/// A message of a MIDI device, reduced to what the control path reads.
#[derive(Clone, Copy, Debug, PartialEq, Eq, Structural)]
pub enum MidiMessage {
    NoteOn { note: u8, velocity: u8 },
    NoteOff { note: u8 },
    ControlChange { controller: u8, value: u8 },
}

/// One discrete update requested by a producer.
#[derive(Clone, Copy, Debug, PartialEq, Eq, Structural)]
pub enum Message {
    /// Replace the time, given as a binary64 bit pattern.
    SetTime(u64),
    /// Replace the resolution, width then height, given as binary32 bit patterns.
    SetResolution(u32, u32),
    /// Replace the control value at an index with a binary64 bit pattern.
    SetValue(usize, u64),
    /// Apply the controller mapping to a MIDI message.
    MidiInput(MidiMessage),
}

impl Message {
    /// A `SetValue` is well formed when its index names a control value;
    /// every other message is.
    pub open spec fn valid(self) -> bool {
        self matches Message::SetValue(index, _) ==> index < VALUE_COUNT
    }

    /// Decides `valid` at run time.
    pub fn is_valid(&self) -> (ok: bool)
        ensures
            ok == self.valid(),
    {
        match self {
            Message::SetValue(index, _) => *index < VALUE_COUNT,
            _ => true,
        }
    }
}

} // verus!
