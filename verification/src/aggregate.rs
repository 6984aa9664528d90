//! Aggregates: domain entities that gather the events they raise until a unit of
//! work collects them.
use std::collections::VecDeque;
use vstd::prelude::*;

use crate::message::{views, Envelope, EnvelopeView};

verus! {

/// What one collection does: it hands out what was pending and leaves nothing
/// pending.
pub open spec fn collected(
    before: Seq<EnvelopeView>,
    after: Seq<EnvelopeView>,
    events: Seq<EnvelopeView>,
) -> bool {
    &&& events == before
    &&& after == Seq::<EnvelopeView>::empty()
}

/// A domain entity that is the unit of consistency and the origin of events.
///
/// The events raised on an aggregate wait in a queue, oldest first, until
/// `collect_events` drains them. An aggregate never dispatches them itself.
pub trait Aggregate: Send + Sync + Default {
    /// What the aggregate is apart from its pending events.
    type Domain;

    /// The domain state: everything but the pending events. Raising and
    /// collecting events leave it as it is.
    spec fn domain(&self) -> Self::Domain;

    /// The events raised and not yet collected, in the order of raising.
    spec fn pending(&self) -> Seq<EnvelopeView>;

    /// Empties the queue and returns what it held, in the order of raising.
    fn collect_events(&mut self) -> (events: VecDeque<Envelope>)
        ensures
            collected(old(self).pending(), final(self).pending(), views(events@)),
            final(self).domain() == old(self).domain(),
    {
        if self.events().len() != 0 {
            self.take_events()
        } else {
            let none: VecDeque<Envelope> = VecDeque::new();
            proof {
                assert(self.pending() =~= Seq::<EnvelopeView>::empty());
                assert(views(none@) =~= Seq::<EnvelopeView>::empty());
            }
            none
        }
    }

    /// The pending events, left in place.
    fn events(&self) -> (events: &VecDeque<Envelope>)
        ensures
            views(events@) == self.pending(),
    ;

    /// Moves the pending events out.
    fn take_events(&mut self) -> (events: VecDeque<Envelope>)
        ensures
            views(events@) == old(self).pending(),
            final(self).pending() == Seq::<EnvelopeView>::empty(),
            final(self).domain() == old(self).domain(),
    ;

    /// Appends `event` to the pending events. It cannot fail.
    fn raise_event(&mut self, event: Envelope)
        ensures
            final(self).pending() == old(self).pending().push(event@),
            final(self).domain() == old(self).domain(),
    ;
}

/// Collecting twice in a row yields everything that was raised, once, and then
/// nothing: whatever aggregate it is, the first collection returns its pending
/// events in the order of raising, and the second finds none.
pub proof fn lemma_collect_twice<A: Aggregate>(
    before: A,
    between: A,
    after: A,
    first: Seq<EnvelopeView>,
    second: Seq<EnvelopeView>,
)
    requires
        collected(before.pending(), between.pending(), first),
        collected(between.pending(), after.pending(), second),
    ensures
        first == before.pending(),
        second == Seq::<EnvelopeView>::empty(),
        after.pending() == Seq::<EnvelopeView>::empty(),
{
}

/// An aggregate type that can hand out a builder of itself.
pub trait Buildable<B: Aggregate> {
    /// A builder around the default aggregate.
    fn builder() -> (builder: Builder<B>)
        ensures
            call_ensures(B::default, (), builder.0),
    ;
}

/// Holds an aggregate while it is being put together.
pub struct Builder<T: Aggregate>(pub T);

impl<T: Aggregate> Builder<T> {
    /// A builder around the default aggregate.
    pub fn new() -> (builder: Self)
        ensures
            call_ensures(T::default, (), builder.0),
    {
        Builder(T::default())
    }

    /// The aggregate that was built.
    pub fn build(self) -> (aggregate: T)
        ensures
            aggregate == self.0,
    {
        self.0
    }
}

impl<T: Aggregate> Default for Builder<T> {
    fn default() -> (builder: Self)
        ensures
            call_ensures(T::default, (), builder.0),
    {
        Self::new()
    }
}

/// A domain state of any type together with the queue of the events raised on
/// it: the aggregate that a plain state type becomes.
#[derive(Debug)]
pub struct AggregateRoot<T> {
    state: T,
    events: VecDeque<Envelope>,
}

impl<T> AggregateRoot<T> {
    /// The domain state.
    pub closed spec fn model(&self) -> T {
        self.state
    }

    /// An aggregate with the given state and no pending event.
    pub fn new(state: T) -> (root: Self)
        ensures
            root.model() == state,
            root.raised() == Seq::<EnvelopeView>::empty(),
    {
        AggregateRoot { state, events: VecDeque::new() }
    }

    /// The events raised and not yet collected.
    pub closed spec fn raised(&self) -> Seq<EnvelopeView> {
        views(self.events@)
    }

    pub fn state(&self) -> (state: &T)
        ensures
            *state == self.model(),
    {
        &self.state
    }

    /// The domain state, to be changed in place. The pending events stay as they
    /// are.
    pub fn state_mut(&mut self) -> (state: &mut T)
        ensures
            *state == old(self).model(),
            final(self).model() == *final(state),
            final(self).raised() == old(self).raised(),
    {
        &mut self.state
    }

    /// Replaces the domain state and returns the former one. The pending events
    /// stay as they are.
    pub fn replace_state(&mut self, state: T) -> (former: T)
        ensures
            former == old(self).model(),
            final(self).model() == state,
            final(self).raised() == old(self).raised(),
    {
        let mut state = state;
        core::mem::swap(&mut self.state, &mut state);
        state
    }
}

impl<T: Default> Default for AggregateRoot<T> {
    fn default() -> (root: Self)
        ensures
            call_ensures(T::default, (), root.model()),
            root.raised() == Seq::<EnvelopeView>::empty(),
    {
        AggregateRoot { state: T::default(), events: VecDeque::new() }
    }
}

impl<T: Default + Send + Sync> Aggregate for AggregateRoot<T> {
    type Domain = T;

    open spec fn domain(&self) -> T {
        self.model()
    }

    open spec fn pending(&self) -> Seq<EnvelopeView> {
        self.raised()
    }

    fn events(&self) -> (events: &VecDeque<Envelope>) {
        &self.events
    }

    fn take_events(&mut self) -> (events: VecDeque<Envelope>) {
        let mut taken: VecDeque<Envelope> = VecDeque::new();
        core::mem::swap(&mut self.events, &mut taken);
        taken
    }

    fn raise_event(&mut self, event: Envelope) {
        self.events.push_back(event);
        proof {
            assert(views(self.events@) =~= views(old(self).events@).push(event@));
        }
    }
}

impl<T: Default + Send + Sync> Buildable<AggregateRoot<T>> for AggregateRoot<T> {
    fn builder() -> (builder: Builder<AggregateRoot<T>>) {
        Builder::new()
    }
}

} // verus!
