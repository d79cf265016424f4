//! The coordinator: the one owner of the canonical state. It folds events
//! into the state and republishes the state only when it has changed.

use vstd::prelude::*;
use crate::binary64::{ONE, ZERO};
use crate::channel::LatestValue;
use crate::midi::{normalize_midi, normalized};
use crate::queue::EventQueue;
use crate::state::{Message, MidiMessage, Snapshot, State, FIRST_GATE, VALUE_COUNT};

verus! {

/// The note that drives a gate: held, it is open.
pub const GATE_NOTE: u8 = 53;

/// The control value of that gate: the first of the gates.
pub const GATE_SLOT: usize = FIRST_GATE;

/// The control value that a controller number drives, for the two supported
/// devices: one numbers its four knobs 77 to 80, the other 1 to 4.
pub open spec fn controller_slot(controller: u8) -> Option<int> {
    match controller {
        77 | 1 => Some(0),
        78 | 2 => Some(1),
        79 | 3 => Some(2),
        80 | 4 => Some(3),
        _ => None,
    }
}

/// Looks a controller number up in the mapping.
pub fn slot_of_controller(controller: u8) -> (slot: Option<usize>)
    ensures
        match slot {
            Some(index) => controller_slot(controller) == Some(index as int),
            None => controller_slot(controller) is None,
        },
{
    if 77 <= controller && controller <= 80 {
        Some((controller - 77) as usize)
    } else if 1 <= controller && controller <= 4 {
        Some((controller - 1) as usize)
    } else {
        None
    }
}

/// The snapshot after a MIDI message.
///
/// A mapped controller sets its control value to the controller value scaled
/// by 1/128. The note `GATE_NOTE` sets its gate to one when it starts and to
/// zero when it ends. Everything else changes nothing.
pub open spec fn apply_midi(snapshot: Snapshot, midi: MidiMessage) -> Snapshot {
    match midi {
        MidiMessage::ControlChange { controller, value } => match controller_slot(controller) {
            Some(slot) => Snapshot {
                values: snapshot.values.update(slot, normalized(value)),
                ..snapshot
            },
            None => snapshot,
        },
        MidiMessage::NoteOn { note, velocity } => if note == GATE_NOTE {
            Snapshot { values: snapshot.values.update(GATE_SLOT as int, ONE), ..snapshot }
        } else {
            snapshot
        },
        MidiMessage::NoteOff { note } => if note == GATE_NOTE {
            Snapshot { values: snapshot.values.update(GATE_SLOT as int, ZERO), ..snapshot }
        } else {
            snapshot
        },
    }
}

/// The snapshot after one event.
pub open spec fn apply_spec(snapshot: Snapshot, message: Message) -> Snapshot {
    match message {
        Message::SetTime(time) => Snapshot { time, ..snapshot },
        Message::SetResolution(width, height) => Snapshot {
            resolution: seq![width, height],
            ..snapshot
        },
        Message::SetValue(index, value) => Snapshot {
            values: snapshot.values.update(index as int, value),
            ..snapshot
        },
        Message::MidiInput(midi) => apply_midi(snapshot, midi),
    }
}

/// The snapshot after a run of events, applied oldest first.
pub open spec fn fold_spec(snapshot: Snapshot, events: Seq<Message>) -> Snapshot
    decreases events.len(),
{
    if events.len() == 0 {
        snapshot
    } else {
        fold_spec(apply_spec(snapshot, events[0]), events.skip(1))
    }
}

/// The snapshots that a coordinator publishes while it works through a run
/// of events, oldest first: after each event, the state it has reached, if
/// that differs from the last one published.
pub open spec fn publications(current: Snapshot, last_published: Snapshot, events: Seq<Message>)
    -> Seq<Snapshot>
    decreases events.len(),
{
    if events.len() == 0 {
        Seq::empty()
    } else {
        let next = apply_spec(current, events[0]);
        if next != last_published {
            seq![next] + publications(next, next, events.skip(1))
        } else {
            publications(next, last_published, events.skip(1))
        }
    }
}

/// Applies one event to a state in place.
///
/// A `SetValue` whose index names no control value is a caller's error,
/// which the precondition rules out.
pub fn apply(state: &mut State, message: Message)
    requires
        message.valid(),
    ensures
        final(state)@ == apply_spec(old(state)@, message),
{
    match message {
        Message::SetTime(time) => {
            state.time = time;
        },
        Message::SetResolution(width, height) => {
            state.resolution = [width, height];
            assert(state.resolution@ =~= seq![width, height]);
        },
        Message::SetValue(index, value) => {
            state.values[index] = value;
        },
        Message::MidiInput(midi) => match midi {
            MidiMessage::ControlChange { controller, value } => {
                match slot_of_controller(controller) {
                    Some(slot) => {
                        state.values[slot] = normalize_midi(value);
                    },
                    None => {},
                }
            },
            MidiMessage::NoteOn { note, velocity: _ } => {
                if note == GATE_NOTE {
                    state.values[GATE_SLOT] = ONE;
                }
            },
            MidiMessage::NoteOff { note } => {
                if note == GATE_NOTE {
                    state.values[GATE_SLOT] = ZERO;
                }
            },
        },
    }
}

/// Writes one state into every channel.
pub fn publish(channels: &mut Vec<LatestValue>, state: State)
    ensures
        final(channels)@.len() == old(channels)@.len(),
        forall|i: int|
            0 <= i < old(channels)@.len() ==> #[trigger] final(channels)@[i]@ == old(
                channels,
            )@[i]@.push(state@),
{
    let mut done: usize = 0;
    while done < channels.len()
        invariant
            done <= channels@.len(),
            channels@.len() == old(channels)@.len(),
            forall|i: int|
                0 <= i < done ==> #[trigger] channels@[i]@ == old(channels)@[i]@.push(state@),
            forall|i: int|
                done <= i < channels@.len() ==> #[trigger] channels@[i]@ == old(channels)@[i]@,
        decreases channels@.len() - done,
    {
        channels[done].write(state);
        done += 1;
    }
}

/// The canonical state, and the copy of it that consumers were last given.
/// Between two events the two agree: every change is published at once.
pub struct Coordinator {
    current: State,
    last_published: State,
}

impl Coordinator {
    /// The canonical snapshot.
    pub closed spec fn current(self) -> Snapshot {
        self.current@
    }

    /// The snapshot that was published last.
    pub closed spec fn last_published(self) -> Snapshot {
        self.last_published@
    }

    /// Nothing is waiting to be published.
    pub open spec fn in_sync(self) -> bool {
        self.current() == self.last_published()
    }

    /// Every coordinator is in sync.
    #[verifier::type_invariant]
    spec fn synced(self) -> bool {
        self.current@ == self.last_published@
    }

    /// Whether the coordinator publishes after `message`: it does when the
    /// state that the message leaves differs from what was published last.
    pub open spec fn publishes(self, message: Message) -> bool {
        apply_spec(self.current(), message) != self.last_published()
    }

    /// A coordinator whose state, and whose record of what was published, is
    /// the initial snapshot.
    pub fn new() -> (coordinator: Coordinator)
        ensures
            coordinator.current() == Snapshot::initial(),
            coordinator.last_published() == Snapshot::initial(),
    {
        let current = State::default();
        Coordinator { current, last_published: current }
    }

    /// The canonical state.
    pub fn state(&self) -> (state: State)
        ensures
            state@ == self.current(),
    {
        self.current
    }

    /// The state that was published last.
    pub fn published(&self) -> (state: State)
        ensures
            state@ == self.last_published(),
    {
        self.last_published
    }

    /// Applies one event and says whether consumers must be told.
    ///
    /// The event is folded into the canonical state. If that changes the
    /// state, the new state is returned and recorded as published; if it
    /// changes nothing, nothing is returned. The coordinator was in sync
    /// before the call and is in sync after it.
    ///
    /// A `SetValue` whose index names no control value is a caller's error,
    /// which the precondition rules out.
    pub fn step(&mut self, message: Message) -> (publish: Option<State>)
        requires
            message.valid(),
        ensures
            old(self).in_sync(),
            final(self).in_sync(),
            final(self).current() == apply_spec(old(self).current(), message),
            publish is Some <==> old(self).publishes(message),
            publish is Some <==> final(self).current() != old(self).current(),
            publish matches Some(state) ==> state@ == final(self).current(),
    {
        proof {
            use_type_invariant(&*self);
        }
        let mut next = self.current;
        apply(&mut next, message);
        if next != self.last_published {
            *self = Coordinator { current: next, last_published: next };
            Some(next)
        } else {
            None
        }
    }

    /// Works through every event that waits in the queue, oldest first, and
    /// writes each change of the canonical state into every channel. Returns
    /// the number of states published.
    pub fn pump(&mut self, queue: &mut EventQueue, channels: &mut Vec<LatestValue>) -> (count:
        usize)
        requires
            forall|i: int| 0 <= i < old(queue)@.len() ==> (#[trigger] old(queue)@[i]).valid(),
        ensures
            final(queue)@.len() == 0,
            final(queue).capacity() == old(queue).capacity(),
            old(self).in_sync(),
            final(self).in_sync(),
            final(self).current() == fold_spec(old(self).current(), old(queue)@),
            count == publications(
                old(self).current(),
                old(self).last_published(),
                old(queue)@,
            ).len(),
            final(channels)@.len() == old(channels)@.len(),
            forall|i: int|
                0 <= i < old(channels)@.len() ==> #[trigger] final(channels)@[i]@ == old(
                    channels,
                )@[i]@ + publications(
                    old(self).current(),
                    old(self).last_published(),
                    old(queue)@,
                ),
    {
        let mut count: usize = 0;
        let ghost all = publications(
            old(self).current(),
            old(self).last_published(),
            old(queue)@,
        );
        let ghost mut sent: Seq<Snapshot> = Seq::empty();
        proof {
            use_type_invariant(&*queue);
            use_type_invariant(&*self);
            queue.lemma_bounded();
        }
        loop
            invariant
                queue.capacity() == old(queue).capacity(),
                forall|i: int| 0 <= i < queue@.len() ==> (#[trigger] queue@[i]).valid(),
                fold_spec(self.current(), queue@) == fold_spec(
                    old(self).current(),
                    old(queue)@,
                ),
                all == sent + publications(self.current(), self.last_published(), queue@),
                count == sent.len(),
                count + queue@.len() <= usize::MAX,
                self.in_sync(),
                channels@.len() == old(channels)@.len(),
                forall|i: int|
                    0 <= i < channels@.len() ==> #[trigger] channels@[i]@ == old(channels)@[i]@
                        + sent,
            ensures
                queue@.len() == 0,
                queue.capacity() == old(queue).capacity(),
                self.current() == fold_spec(old(self).current(), old(queue)@),
                all == sent,
                count == sent.len(),
                self.in_sync(),
                channels@.len() == old(channels)@.len(),
                forall|i: int|
                    0 <= i < channels@.len() ==> #[trigger] channels@[i]@ == old(channels)@[i]@
                        + sent,
            decreases queue@.len(),
        {
            let ghost before = queue@;
            let ghost channels_before = channels@;
            match queue.pop() {
                None => {
                    break ;
                },
                Some(message) => {
                    assert(message == before[0] && before[0].valid());
                    assert forall|i: int| 0 <= i < queue@.len() implies (
                    #[trigger] queue@[i]).valid() by {
                        assert(queue@[i] == before[i + 1]);
                    }
                    match self.step(message) {
                        Some(state) => {
                            publish(channels, state);
                            count += 1;
                            proof {
                                assert forall|i: int| 0 <= i < channels@.len() implies (
                                #[trigger] channels@[i]@) == old(channels)@[i]@ + sent.push(
                                    state@,
                                ) by {
                                    assert(channels@[i]@ == channels_before[i]@.push(state@));
                                    assert(channels_before[i]@ == old(channels)@[i]@ + sent);
                                    assert((old(channels)@[i]@ + sent).push(state@) =~= old(
                                        channels,
                                    )@[i]@ + sent.push(state@));
                                }
                                assert(sent + (seq![state@] + publications(
                                    self.current(),
                                    self.last_published(),
                                    queue@,
                                )) =~= sent.push(state@) + publications(
                                    self.current(),
                                    self.last_published(),
                                    queue@,
                                ));
                                sent = sent.push(state@);
                            }
                        },
                        None => {},
                    }
                },
            }
        }
        proof {
            assert(sent + Seq::<Snapshot>::empty() =~= sent);
        }
        count
    }
}

impl Default for Coordinator {
    fn default() -> (coordinator: Coordinator)
        ensures
            coordinator.current() == Snapshot::initial(),
            coordinator.last_published() == Snapshot::initial(),
    {
        Coordinator::new()
    }
}

/// Applying an event a second time changes nothing: every event sets what
/// it touches to a value that depends on the event alone.
pub proof fn lemma_apply_idempotent(snapshot: Snapshot, message: Message)
    requires
        snapshot.well_formed(),
        message.valid(),
    ensures
        apply_spec(apply_spec(snapshot, message), message) == apply_spec(snapshot, message),
{
    let once = apply_spec(snapshot, message);
    let twice = apply_spec(once, message);
    assert(twice.resolution =~= once.resolution);
    assert(twice.values =~= once.values);
}

/// What a coordinator holds has the shape of a state.
pub proof fn lemma_coordinator_well_formed(coordinator: Coordinator)
    ensures
        coordinator.current().well_formed(),
        coordinator.last_published().well_formed(),
{
}

/// An event that leaves the canonical state as it is publishes nothing.
pub proof fn lemma_change_suppression(coordinator: Coordinator, message: Message)
    requires
        coordinator.in_sync(),
        apply_spec(coordinator.current(), message) == coordinator.current(),
    ensures
        !coordinator.publishes(message),
{
}

/// The same event twice in a row publishes at most once: after the first,
/// the second finds the state as it would leave it.
pub proof fn lemma_repeat_suppressed(before: Coordinator, after: Coordinator, message: Message)
    requires
        message.valid(),
        after.current() == apply_spec(before.current(), message),
        after.in_sync(),
    ensures
        !after.publishes(message),
{
    before.current.lemma_well_formed();
    lemma_apply_idempotent(before.current(), message);
}

/// Nothing is published twice in a row: the first publication differs from
/// what was published before, and each later one from the one before it.
pub proof fn lemma_publications_differ(
    current: Snapshot,
    last_published: Snapshot,
    events: Seq<Message>,
    i: int,
)
    requires
        0 <= i < publications(current, last_published, events).len(),
    ensures
        publications(current, last_published, events)[i] != if i == 0 {
            last_published
        } else {
            publications(current, last_published, events)[i - 1]
        },
    decreases events.len(),
{
    let next = apply_spec(current, events[0]);
    let rest = events.skip(1);
    if next != last_published {
        if i > 0 {
            lemma_publications_differ(next, next, rest, i - 1);
        }
    } else {
        lemma_publications_differ(next, last_published, rest, i);
    }
}

/// Consumers end up with the canonical state: after any run of events, the
/// last publication is the state that the events lead to; and if nothing was
/// published, that state is the one that consumers already have.
pub proof fn lemma_publications_end(
    current: Snapshot,
    last_published: Snapshot,
    events: Seq<Message>,
)
    requires
        current == last_published || events.len() > 0,
    ensures
        fold_spec(current, events) == if publications(current, last_published, events).len()
            > 0 {
            publications(current, last_published, events).last()
        } else {
            last_published
        },
    decreases events.len(),
{
    if events.len() > 0 {
        let next = apply_spec(current, events[0]);
        let rest = events.skip(1);
        if next != last_published {
            lemma_publications_end(next, next, rest);
        } else {
            lemma_publications_end(next, last_published, rest);
        }
    }
}

} // verus!
