//! The latest-value channel: a writer publishes whole states, and a reader
//! gets the state that was published last.

use vstd::prelude::*;
use triple_buffer::{Input, Output};
use crate::state::{Snapshot, State};

verus! {

/// `triple_buffer::Input`: the end of a buffer that states are written at.
#[verifier::external_type_specification]
#[verifier::external_body]
#[verifier::reject_recursive_types(T)]
pub struct ExInput<T: Send>(Input<T>);

/// `triple_buffer::Output`: the end of a buffer that states are read at.
#[verifier::external_type_specification]
#[verifier::external_body]
#[verifier::reject_recursive_types(T)]
pub struct ExOutput<T: Send>(Output<T>);

/// Every state that was published through an input, oldest first, the
/// state that the buffer was made with in front.
pub uninterp spec fn published(input: Input<State>) -> Seq<State>;

/// The input and the output are the two ends of one buffer. A buffer has no
/// other ends.
pub uninterp spec fn drives(input: Input<State>, output: Output<State>) -> bool;

/// `triple_buffer::triple_buffer`: makes a buffer whose three slots hold
/// copies of `initial`, and returns its two ends. Nothing but the initial
/// state has been published.
#[verifier::external_body]
fn triple_buffer(initial: &State) -> (ends: (Input<State>, Output<State>))
    ensures
        drives(ends.0, ends.1),
        published(ends.0) == seq![*initial],
{
    triple_buffer::triple_buffer(initial)
}

/// A latest-value channel with both of its ends in one hand.
pub struct LatestValue {
    input: Input<State>,
    output: Output<State>,
}

impl View for LatestValue {
    type V = Seq<Snapshot>;

    /// Every snapshot that was published, oldest first. It is never empty:
    /// the state that the channel was made with comes first.
    closed spec fn view(&self) -> Seq<Snapshot> {
        published(self.input).map_values(|state: State| state@)
    }
}

impl LatestValue {
    /// The snapshot that a reader gets: the one published last.
    pub open spec fn latest(self) -> Snapshot {
        self@.last()
    }

    /// How many publications came before the one that a reader gets.
    pub open spec fn freshness(self) -> int {
        self@.len() - 1
    }

    /// The two ends belong together, and something has been published.
    #[verifier::type_invariant]
    spec fn well_formed(self) -> bool {
        &&& drives(self.input, self.output)
        &&& published(self.input).len() > 0
    }

    /// `Input::write` on a buffer whose two ends are both held here: the
    /// state becomes the one published last.
    #[verifier::external_body]
    fn input_write(&mut self, state: State)
        requires
            drives(old(self).input, old(self).output),
        ensures
            drives(final(self).input, final(self).output),
            published(final(self).input) == published(old(self).input).push(state),
    {
        self.input.write(state)
    }

    /// `Output::read` on a buffer whose two ends are both held here, so that
    /// no other thread writes meanwhile: returns a copy of the state
    /// published last. What was published is not changed by reading.
    #[verifier::external_body]
    fn output_read(&mut self) -> (state: State)
        requires
            drives(old(self).input, old(self).output),
            published(old(self).input).len() > 0,
        ensures
            drives(final(self).input, final(self).output),
            published(final(self).input) == published(old(self).input),
            state == published(old(self).input).last(),
    {
        *self.output.read()
    }

    /// A channel in which `initial` is the state published last.
    pub fn new(initial: &State) -> (channel: LatestValue)
        ensures
            channel@ == seq![initial@],
    {
        let (input, output) = triple_buffer(initial);
        let channel = LatestValue { input, output };
        assert(channel@ =~= seq![initial@]);
        channel
    }

    /// Publishes a state. Never blocks, never fails. What was published
    /// before stays in the history, in front of the new state.
    pub fn write(&mut self, state: State)
        ensures
            final(self)@ == old(self)@.push(state@),
            old(self)@.is_prefix_of(final(self)@),
    {
        proof {
            use_type_invariant(&*self);
        }
        self.input_write(state);
        assert(self@ =~= old(self)@.push(state@));
    }

    /// Returns a copy of the state published last. Never blocks, never
    /// fails, and changes nothing that a later read could see.
    pub fn read(&mut self) -> (state: State)
        ensures
            old(self)@.len() > 0,
            state@ == old(self).latest(),
            final(self)@ == old(self)@,
    {
        proof {
            use_type_invariant(&*self);
        }
        self.output_read()
    }

    /// Gives the two ends away, to be moved to the threads that use them.
    pub fn split(self) -> (ends: (Input<State>, Output<State>))
        ensures
            drives(ends.0, ends.1),
            published(ends.0).map_values(|state: State| state@) == self@,
    {
        proof {
            use_type_invariant(&self);
        }
        (self.input, self.output)
    }
}

/// A reader never goes back. Whatever is published between two reads (the
/// history only grows), the second read returns a snapshot that was published
/// no earlier than the one that the first read returned, and the first one is
/// still where it was in the history.
pub proof fn lemma_freshness(earlier: LatestValue, later: LatestValue)
    requires
        earlier@.len() > 0,
        earlier@.is_prefix_of(later@),
    ensures
        earlier.freshness() <= later.freshness(),
        later@[earlier.freshness()] == earlier.latest(),
{
}

/// With the two ends in one hand a read falls before, between or after two
/// writes. Before them it returns what was published last; between them, the
/// first state written; after them, the second: each time one whole state.
pub proof fn lemma_read_between_writes(
    before: LatestValue,
    between: LatestValue,
    after: LatestValue,
    first: Snapshot,
    second: Snapshot,
)
    requires
        between@ == before@.push(first),
        after@ == between@.push(second),
    ensures
        between.latest() == first,
        after.latest() == second,
        before@.len() > 0 ==> after@[before.freshness()] == before.latest(),
{
}

/// Publishing the same state twice in a row leaves a reader with what one
/// publication leaves it with.
pub proof fn lemma_equal_writes(
    before: LatestValue,
    once: LatestValue,
    twice: LatestValue,
    snapshot: Snapshot,
)
    requires
        once@ == before@.push(snapshot),
        twice@ == once@.push(snapshot),
    ensures
        twice.latest() == once.latest(),
{
}

} // verus!
