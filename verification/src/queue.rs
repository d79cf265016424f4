//! The bounded event queue: events go in at the back until the queue is
//! full, and come out at the front in the order in which they went in.

use vstd::prelude::*;
use crossbeam_channel::{Receiver, Sender, TryRecvError, TrySendError};
use crate::state::Message;

verus! {

/// The largest capacity a queue can be made with.
///
/// The channel underneath panics on a capacity that, plus one, rounded up to
/// a power of two and doubled, no longer fits in a `usize`, and its slots,
/// which are allocated when it is made and take at most 32 bytes each, must
/// not come to more than `isize::MAX` bytes. A sixty-fourth of the range of
/// `usize` is the largest bound that keeps both out. Whether the machine has
/// that much memory is another matter, as with every allocation.
pub const MAX_CAPACITY: usize = usize::MAX / 64;

/// `crossbeam_channel::Sender`: the end of a channel that events go in at.
#[verifier::external_type_specification]
#[verifier::external_body]
#[verifier::reject_recursive_types(T)]
pub struct ExSender<T>(Sender<T>);

/// `crossbeam_channel::Receiver`: the end of a channel that events come out
/// at.
#[verifier::external_type_specification]
#[verifier::external_body]
#[verifier::reject_recursive_types(T)]
pub struct ExReceiver<T>(Receiver<T>);

/// `crossbeam_channel::TrySendError`: why an event was not taken, with the
/// event in it.
#[verifier::external_type_specification]
#[verifier::external_body]
#[verifier::reject_recursive_types(T)]
pub struct ExTrySendError<T>(TrySendError<T>);

/// `crossbeam_channel::TryRecvError`: why no event was handed out.
#[verifier::external_type_specification]
#[verifier::external_body]
pub struct ExTryRecvError(TryRecvError);

/// The events that wait in the channel behind a receiver, oldest first.
pub uninterp spec fn pending(receiver: Receiver<Message>) -> Seq<Message>;

/// The capacity that the channel behind a receiver was made with.
pub uninterp spec fn bound(receiver: Receiver<Message>) -> nat;

/// The sender and the receiver are the two ends of one channel, and no
/// other end of it exists.
pub uninterp spec fn feeds(sender: Sender<Message>, receiver: Receiver<Message>) -> bool;

/// `crossbeam_channel::bounded`: makes a channel that holds at most
/// `capacity` events and returns its two ends, the only ones. The channel
/// starts empty. The outside function panics where its index arithmetic or
/// the size of its slot array overflows; the precondition keeps both out
/// (see `MAX_CAPACITY`).
#[verifier::external_body]
fn bounded(capacity: usize) -> (ends: (Sender<Message>, Receiver<Message>))
    requires
        capacity <= MAX_CAPACITY,
    ensures
        feeds(ends.0, ends.1),
        pending(ends.1) == Seq::<Message>::empty(),
        bound(ends.1) == capacity,
{
    crossbeam_channel::bounded(capacity)
}

/// The queue after an attempt to add an event: the event goes to the back
/// if there is room, and is dropped if there is none.
pub open spec fn offer(queue: Seq<Message>, capacity: nat, event: Message) -> Seq<Message> {
    if queue.len() < capacity {
        queue.push(event)
    } else {
        queue
    }
}

/// The queue after an attempt to add each of `events` in turn.
pub open spec fn offer_all(queue: Seq<Message>, capacity: nat, events: Seq<Message>) -> Seq<
    Message,
>
    decreases events.len(),
{
    if events.len() == 0 {
        queue
    } else {
        offer_all(offer(queue, capacity, events[0]), capacity, events.skip(1))
    }
}

/// The error of a push into a full queue.
#[derive(Clone, Copy, Debug, PartialEq, Eq, Structural)]
pub struct QueueFull;

/// A bounded first-in first-out queue of events, with both of its ends in
/// one hand.
pub struct EventQueue {
    sender: Sender<Message>,
    receiver: Receiver<Message>,
}

impl View for EventQueue {
    type V = Seq<Message>;

    /// The events that wait in the queue, oldest first.
    closed spec fn view(&self) -> Seq<Message> {
        pending(self.receiver)
    }
}

impl EventQueue {
    /// The number of events that the queue has room for.
    pub closed spec fn capacity(self) -> nat {
        bound(self.receiver)
    }

    /// The two ends belong together, and the queue is within its capacity.
    #[verifier::type_invariant]
    pub(crate) closed spec fn well_formed(self) -> bool {
        &&& feeds(self.sender, self.receiver)
        &&& pending(self.receiver).len() <= bound(self.receiver)
        &&& bound(self.receiver) <= MAX_CAPACITY
    }

    /// `Sender::try_send` on a channel whose only two ends are held here, so
    /// that nobody else sends or receives meanwhile: the event is appended
    /// when fewer events wait than the channel was made for, and the call
    /// fails, changing nothing, when the channel is full.
    #[verifier::external_body]
    fn try_send(&mut self, event: Message) -> (sent: Result<(), TrySendError<Message>>)
        requires
            feeds(old(self).sender, old(self).receiver),
        ensures
            feeds(final(self).sender, final(self).receiver),
            bound(final(self).receiver) == bound(old(self).receiver),
            sent is Ok <==> pending(old(self).receiver).len() < bound(old(self).receiver),
            pending(final(self).receiver) == offer(
                pending(old(self).receiver),
                bound(old(self).receiver),
                event,
            ),
    {
        self.sender.try_send(event)
    }

    /// `Receiver::try_recv` on a channel whose only two ends are held here:
    /// the oldest waiting event is taken out and returned, and the call
    /// fails, changing nothing, when no event waits.
    #[verifier::external_body]
    fn try_recv(&mut self) -> (received: Result<Message, TryRecvError>)
        requires
            feeds(old(self).sender, old(self).receiver),
        ensures
            feeds(final(self).sender, final(self).receiver),
            bound(final(self).receiver) == bound(old(self).receiver),
            match received {
                Ok(event) => pending(old(self).receiver).len() > 0 && event == pending(
                    old(self).receiver,
                )[0] && pending(final(self).receiver) == pending(old(self).receiver).skip(1),
                Err(_) => pending(old(self).receiver).len() == 0 && pending(final(self).receiver)
                    == pending(old(self).receiver),
            },
    {
        self.receiver.try_recv()
    }

    /// An empty queue with room for `capacity` events.
    pub fn new(capacity: usize) -> (queue: EventQueue)
        requires
            capacity <= MAX_CAPACITY,
        ensures
            queue@ == Seq::<Message>::empty(),
            queue.capacity() == capacity,
    {
        let (sender, receiver) = bounded(capacity);
        EventQueue { sender, receiver }
    }

    /// Adds an event at the back, or fails at once when the queue is full;
    /// the event is then dropped and the queue is as before.
    pub fn push(&mut self, event: Message) -> (pushed: Result<(), QueueFull>)
        ensures
            pushed is Ok <==> old(self)@.len() < old(self).capacity(),
            final(self)@ == offer(old(self)@, old(self).capacity(), event),
            final(self).capacity() == old(self).capacity(),
            old(self)@.len() <= old(self).capacity() <= MAX_CAPACITY,
    {
        proof {
            use_type_invariant(&*self);
        }
        match self.try_send(event) {
            Ok(()) => Ok(()),
            Err(_) => Err(QueueFull),
        }
    }

    /// Takes the oldest event out, or returns `None` when the queue is
    /// empty.
    pub fn pop(&mut self) -> (popped: Option<Message>)
        ensures
            popped == if old(self)@.len() > 0 {
                Some(old(self)@[0])
            } else {
                None
            },
            final(self)@ == if old(self)@.len() > 0 {
                old(self)@.skip(1)
            } else {
                old(self)@
            },
            final(self).capacity() == old(self).capacity(),
            old(self)@.len() <= old(self).capacity() <= MAX_CAPACITY,
    {
        proof {
            use_type_invariant(&*self);
        }
        match self.try_recv() {
            Ok(event) => Some(event),
            Err(_) => None,
        }
    }

    /// A well-formed queue is within its capacity, and its capacity within
    /// `MAX_CAPACITY`.
    pub(crate) proof fn lemma_bounded(self)
        requires
            self.well_formed(),
        ensures
            self@.len() <= self.capacity() <= MAX_CAPACITY,
    {
    }

    /// Gives the two ends away, to be moved to the threads that use them.
    /// The events that wait stay in the channel.
    pub fn split(self) -> (ends: (Sender<Message>, Receiver<Message>))
        ensures
            feeds(ends.0, ends.1),
            pending(ends.1) == self@,
            bound(ends.1) == self.capacity(),
    {
        proof {
            use_type_invariant(&self);
        }
        (self.sender, self.receiver)
    }
}

/// Offering a run of events to a queue that is within its capacity fills
/// the room that is left with the first of them, in order, and drops the
/// rest.
pub proof fn lemma_offer_all(queue: Seq<Message>, capacity: nat, events: Seq<Message>)
    requires
        queue.len() <= capacity,
    ensures
        offer_all(queue, capacity, events) == queue + events.take(
            if events.len() <= capacity - queue.len() {
                events.len() as int
            } else {
                capacity - queue.len()
            },
        ),
    decreases events.len(),
{
    let room = capacity - queue.len();
    let kept = if events.len() <= room {
        events.len() as int
    } else {
        room
    };
    if events.len() == 0 {
        assert(queue + events.take(kept) =~= queue);
    } else {
        let rest = events.skip(1);
        let next = offer(queue, capacity, events[0]);
        lemma_offer_all(next, capacity, rest);
        if room > 0 {
            assert(queue.push(events[0]) + rest.take(kept - 1) =~= queue + events.take(kept));
        } else {
            assert(queue + rest.take(0) =~= queue + events.take(0));
        }
    }
}

/// Pushing more events than an empty queue has room for keeps exactly the
/// first `capacity` of them, oldest first, and each later push fails: the
/// push of `events[k]` finds room if and only if `k < capacity`.
pub proof fn lemma_bounded_drop(capacity: nat, events: Seq<Message>)
    requires
        events.len() >= capacity,
    ensures
        offer_all(Seq::empty(), capacity, events) == events.take(capacity as int),
        forall|k: int|
            0 <= k < events.len() ==> (#[trigger] offer_all(
                Seq::empty(),
                capacity,
                events.take(k),
            ).len() < capacity <==> k < capacity),
{
    lemma_offer_all(Seq::empty(), capacity, events);
    assert(Seq::<Message>::empty() + events.take(capacity as int) =~= events.take(
        capacity as int,
    ));
    assert forall|k: int| 0 <= k < events.len() implies (#[trigger] offer_all(
        Seq::empty(),
        capacity,
        events.take(k),
    ).len() < capacity <==> k < capacity) by {
        lemma_offer_all(Seq::empty(), capacity, events.take(k));
    }
}

} // verus!
