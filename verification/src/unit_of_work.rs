//! The unit of work: one transactional scope that binds the aggregates a command
//! touched and the outbox entries written for their events into one commit or
//! one rollback.
//!
//! The executor that holds the database transaction is outside. What it must do
//! is decided here, and what came of it is handed in: `commit` decides,
//! `complete` takes the outcome of the executor's commit, and `close` takes the
//! outcome of the rollback that it implies.
use std::collections::VecDeque;
use vstd::prelude::*;

use crate::aggregate::Aggregate;
use crate::message::{views, Envelope, EnvelopeView};
use crate::outbox::{
    entry_views, inserted_all, names, OutboxEntry, OutboxEntryView, OutboxStore,
};
use crate::responses::{failure_of, BaseError, BaseErrorView};

verus! {

/// Where a unit of work stands.
#[derive(Clone, Copy, Debug, PartialEq, Eq, Structural)]
pub enum TransactionState {
    /// No transaction has been begun.
    Idle,
    /// A transaction is open.
    Active,
    /// The commit of the open transaction was decided and the executor has not
    /// yet told how its own commit went.
    Committing,
    /// The last transaction was committed.
    Committed,
    /// The last transaction was rolled back.
    RolledBack,
}

impl TransactionState {
    pub open spec fn is_active(self) -> bool {
        self == TransactionState::Active
    }

    /// A transaction is open until it is committed or rolled back.
    pub open spec fn spec_is_open(self) -> bool {
        self == TransactionState::Active || self == TransactionState::Committing
    }

    /// Where `begin` leads: to an open transaction, unless one is open.
    pub open spec fn begun(self) -> Option<TransactionState> {
        if self.is_open() {
            None
        } else {
            Some(TransactionState::Active)
        }
    }

    /// Where `commit` leads: from an open transaction to one that awaits the
    /// executor, and nowhere from any other state.
    pub open spec fn committing(self) -> Option<TransactionState> {
        if self.is_active() {
            Some(TransactionState::Committing)
        } else {
            None
        }
    }

    /// Where `complete` leads when the executor reports `failure`, or success
    /// with `None`: a transaction that awaits the executor is committed if the
    /// executor committed and rolled back if it did not. Any other state stays.
    pub open spec fn completed(self, failure: Option<BaseErrorView>) -> TransactionState {
        if self != TransactionState::Committing {
            self
        } else if failure.is_none() {
            TransactionState::Committed
        } else {
            TransactionState::RolledBack
        }
    }

    /// What `complete` hands back: the executor's failure, or
    /// `TransactionError` where no commit awaits the executor.
    pub open spec fn completion_report(self, failure: Option<BaseErrorView>) -> Option<
        BaseErrorView,
    > {
        if self == TransactionState::Committing {
            failure
        } else {
            Some(BaseErrorView::TransactionError)
        }
    }

    /// Where `rollback` and `close` lead: out of an open transaction, and
    /// nowhere else.
    pub open spec fn ended(self) -> TransactionState {
        if self.is_open() {
            TransactionState::RolledBack
        } else {
            self
        }
    }

    /// What `close` hands back: the failure of the rollback that it implies,
    /// where a transaction was open, and nothing otherwise.
    pub open spec fn closing_report(self, rolled_back: Option<BaseErrorView>) -> Option<
        BaseErrorView,
    > {
        if self.is_open() {
            rolled_back
        } else {
            None
        }
    }

    /// Whether a transaction is open, so that a rollback has something to undo.
    #[verifier::when_used_as_spec(spec_is_open)]
    pub fn is_open(self) -> (open: bool)
        ensures
            open == self.spec_is_open(),
    {
        match self {
            TransactionState::Active => true,
            TransactionState::Committing => true,
            _ => false,
        }
    }

    /// Begins a transaction. Where one is open already, `TransactionError` comes
    /// back.
    pub fn begin(self) -> (next: Result<TransactionState, BaseError>)
        ensures
            match next {
                Ok(state) => self.begun() == Some(state),
                Err(e) => self.begun().is_none() && e@ == BaseErrorView::TransactionError,
            },
    {
        if self.is_open() {
            Err(BaseError::TransactionError)
        } else {
            Ok(TransactionState::Active)
        }
    }

    /// Decides the commit of the open transaction: the executor is to commit
    /// next, and `complete` takes what came of it. Without an open transaction,
    /// or with a commit already under way, `TransactionError` comes back.
    pub fn commit(self) -> (next: Result<TransactionState, BaseError>)
        ensures
            match next {
                Ok(state) => self.committing() == Some(state),
                Err(e) => self.committing().is_none() && e@ == BaseErrorView::TransactionError,
            },
    {
        match self {
            TransactionState::Active => Ok(TransactionState::Committing),
            _ => Err(BaseError::TransactionError),
        }
    }

    /// Takes the outcome of the executor's commit. Where the executor
    /// committed, the transaction is committed. Where it failed, the
    /// transaction is rolled back and the failure is handed back. Where no
    /// commit awaits the executor, nothing changes and `TransactionError` comes
    /// back.
    pub fn complete(self, outcome: Result<(), BaseError>) -> (next: (
        TransactionState,
        Result<(), BaseError>,
    ))
        ensures
            next.0 == self.completed(failure_of(outcome)),
            failure_of(next.1) == self.completion_report(failure_of(outcome)),
    {
        match self {
            TransactionState::Committing => match outcome {
                Ok(_) => (TransactionState::Committed, Ok(())),
                Err(e) => (TransactionState::RolledBack, Err(e)),
            },
            other => (other, Err(BaseError::TransactionError)),
        }
    }

    /// Rolls the open transaction back. Without one, nothing changes.
    pub fn rollback(self) -> (next: TransactionState)
        ensures
            next == self.ended(),
    {
        if self.is_open() {
            TransactionState::RolledBack
        } else {
            self
        }
    }

    /// The cleanup that ends every use: a transaction that is still open is
    /// rolled back, so that none is ever left open. `rolled_back` is what came
    /// of that rollback in the executor; where it failed, the failure is handed
    /// back, and the transaction is closed all the same. Without an open
    /// transaction there was nothing to roll back and nothing is reported.
    pub fn close(self, rolled_back: Result<(), BaseError>) -> (next: (
        TransactionState,
        Result<(), BaseError>,
    ))
        ensures
            next.0 == self.ended(),
            !next.0.is_open(),
            failure_of(next.1) == self.closing_report(failure_of(rolled_back)),
    {
        if self.is_open() {
            (TransactionState::RolledBack, rolled_back)
        } else {
            (self, Ok(()))
        }
    }
}

/// The events pending on a sequence of aggregates: those of the first aggregate,
/// then those of the second, and so on, each aggregate's own order kept.
pub open spec fn pending_of<A: Aggregate>(aggregates: Seq<A>) -> Seq<EnvelopeView>
    decreases aggregates.len(),
{
    if aggregates.len() == 0 {
        Seq::empty()
    } else {
        pending_of(aggregates.drop_last()) + aggregates.last().pending()
    }
}

/// No aggregate of the sequence has a pending event.
pub open spec fn all_collected<A: Aggregate>(aggregates: Seq<A>) -> bool {
    forall|i: int|
        0 <= i < aggregates.len() ==> (#[trigger] aggregates[i]).pending() == Seq::<
            EnvelopeView,
        >::empty()
}

/// The aggregates of `after` are those of `before` with their pending events
/// collected: as many, each with the domain state it had and nothing pending.
pub open spec fn collected_from<A: Aggregate>(before: Seq<A>, after: Seq<A>) -> bool {
    &&& after.len() == before.len()
    &&& all_collected(after)
    &&& forall|i: int|
        0 <= i < after.len() ==> (#[trigger] after[i]).domain() == before[i].domain()
}

/// Aggregates without pending events have, taken together, no pending event.
pub proof fn lemma_collected_nothing_pending<A: Aggregate>(aggregates: Seq<A>)
    requires
        all_collected(aggregates),
    ensures
        pending_of(aggregates) == Seq::<EnvelopeView>::empty(),
    decreases aggregates.len(),
{
    if aggregates.len() > 0 {
        let front = aggregates.drop_last();
        assert forall|i: int| 0 <= i < front.len() implies (#[trigger] front[i]).pending()
            == Seq::<EnvelopeView>::empty() by {
            assert(front[i] == aggregates[i]);
        }
        lemma_collected_nothing_pending(front);
        assert(aggregates.last() == aggregates[aggregates.len() - 1]);
        assert(pending_of(aggregates) =~= Seq::<EnvelopeView>::empty());
    }
}

/// One transactional scope: the aggregates touched in it, in the order of
/// touching, and the outbox entries written in it.
pub struct UnitOfWork<A: Aggregate> {
    state: TransactionState,
    aggregates: Vec<A>,
    outbox: Vec<OutboxEntry>,
}

pub struct UnitOfWorkView<A> {
    pub state: TransactionState,
    pub aggregates: Seq<A>,
    pub staged: Seq<OutboxEntryView>,
}

impl<A> UnitOfWorkView<A> {
    /// A unit of work in `state` that holds nothing.
    pub open spec fn empty(state: TransactionState) -> UnitOfWorkView<A> {
        UnitOfWorkView { state, aggregates: Seq::empty(), staged: Seq::empty() }
    }

    /// The unit of work after `rollback` or `close`: an open transaction is
    /// rolled back and what it held is dropped, anything else stays as it is.
    pub open spec fn ended(self) -> UnitOfWorkView<A> {
        if self.state.is_open() {
            UnitOfWorkView::empty(TransactionState::RolledBack)
        } else {
            self
        }
    }
}

impl<A: Aggregate> View for UnitOfWork<A> {
    type V = UnitOfWorkView<A>;

    closed spec fn view(&self) -> UnitOfWorkView<A> {
        UnitOfWorkView {
            state: self.state,
            aggregates: self.aggregates@,
            staged: entry_views(self.outbox@),
        }
    }
}

impl<A: Aggregate> UnitOfWork<A> {
    /// A unit of work in which no transaction has been begun.
    pub fn new() -> (unit: Self)
        ensures
            unit@ == UnitOfWorkView::<A>::empty(TransactionState::Idle),
    {
        let unit = UnitOfWork { state: TransactionState::Idle, aggregates: Vec::new(), outbox: Vec::new() };
        proof {
            assert(unit@.staged =~= Seq::<OutboxEntryView>::empty());
        }
        unit
    }

    pub fn state(&self) -> (state: TransactionState)
        ensures
            state == self@.state,
    {
        self.state
    }

    /// Whether a transaction is open.
    pub fn is_active(&self) -> (active: bool)
        ensures
            active == (self@.state == TransactionState::Active),
    {
        match self.state {
            TransactionState::Active => true,
            _ => false,
        }
    }

    /// Opens a transaction with nothing touched and nothing written. Where one is
    /// open already, nothing is changed and `TransactionError` comes back.
    pub fn begin(&mut self) -> (result: Result<(), BaseError>)
        ensures
            match result {
                Ok(()) => {
                    &&& !old(self)@.state.is_open()
                    &&& final(self)@ == UnitOfWorkView::<A>::empty(TransactionState::Active)
                },
                Err(e) => {
                    &&& old(self)@.state.is_open()
                    &&& e@ == BaseErrorView::TransactionError
                    &&& final(self)@ == old(self)@
                },
            },
    {
        match self.state.begin() {
            Err(e) => Err(e),
            Ok(state) => {
                self.state = state;
                self.aggregates = Vec::new();
                self.outbox = Vec::new();
                proof {
                    assert(self@.staged =~= Seq::<OutboxEntryView>::empty());
                }
                Ok(())
            },
        }
    }

    /// Takes `aggregate` into the open transaction, behind those touched before,
    /// and returns its place. Without an open transaction nothing is changed and
    /// `TransactionError` comes back.
    pub fn register(&mut self, aggregate: A) -> (result: Result<usize, BaseError>)
        ensures
            match result {
                Ok(index) => {
                    &&& old(self)@.state == TransactionState::Active
                    &&& index == old(self)@.aggregates.len()
                    &&& final(self)@ == (UnitOfWorkView {
                        aggregates: old(self)@.aggregates.push(aggregate),
                        ..old(self)@
                    })
                },
                Err(e) => {
                    &&& old(self)@.state != TransactionState::Active
                    &&& e@ == BaseErrorView::TransactionError
                    &&& final(self)@ == old(self)@
                },
            },
    {
        if !self.is_active() {
            return Err(BaseError::TransactionError);
        }
        let index = self.aggregates.len();
        self.aggregates.push(aggregate);
        Ok(index)
    }

    /// The number of aggregates touched.
    pub fn touched(&self) -> (n: usize)
        ensures
            n == self@.aggregates.len(),
    {
        self.aggregates.len()
    }

    /// The aggregate that was touched as the `index`-th.
    pub fn aggregate(&self, index: usize) -> (aggregate: &A)
        requires
            index < self@.aggregates.len(),
        ensures
            *aggregate == self@.aggregates[index as int],
    {
        &self.aggregates[index]
    }

    /// The same aggregate, to be changed in place. Nothing else of the unit of
    /// work changes with it.
    pub fn aggregate_mut(&mut self, index: usize) -> (aggregate: &mut A)
        requires
            index < old(self)@.aggregates.len(),
        ensures
            *aggregate == old(self)@.aggregates[index as int],
            final(self)@ == (UnitOfWorkView {
                aggregates: old(self)@.aggregates.update(index as int, *final(aggregate)),
                ..old(self)@
            }),
    {
        &mut self.aggregates[index]
    }

    /// Collects the pending events of every aggregate touched, in the order of
    /// touching, and leaves none pending.
    pub fn collect_events(&mut self) -> (events: VecDeque<Envelope>)
        ensures
            views(events@) == pending_of(old(self)@.aggregates),
            final(self)@.state == old(self)@.state,
            final(self)@.staged == old(self)@.staged,
            collected_from(old(self)@.aggregates, final(self)@.aggregates),
            pending_of(final(self)@.aggregates) == Seq::<EnvelopeView>::empty(),
    {
        let mut events: VecDeque<Envelope> = VecDeque::new();
        let mut i: usize = 0;
        proof {
            assert(old(self)@.aggregates.take(0) =~= Seq::<A>::empty());
            assert(views(events@) =~= Seq::<EnvelopeView>::empty());
        }
        while i < self.aggregates.len()
            invariant
                i <= self.aggregates.len(),
                self@.state == old(self)@.state,
                self@.staged == old(self)@.staged,
                self@.aggregates.len() == old(self)@.aggregates.len(),
                views(events@) == pending_of(old(self)@.aggregates.take(i as int)),
                forall|j: int|
                    0 <= j < i ==> (#[trigger] self@.aggregates[j]).pending() == Seq::<
                        EnvelopeView,
                    >::empty(),
                forall|j: int|
                    0 <= j < i ==> (#[trigger] self@.aggregates[j]).domain() == old(
                        self,
                    )@.aggregates[j].domain(),
                forall|j: int|
                    i <= j < self@.aggregates.len() ==> self@.aggregates[j] == old(
                        self,
                    )@.aggregates[j],
            decreases self.aggregates.len() - i,
        {
            let ghost held = events@;
            let mut raised = self.aggregates[i].collect_events();
            let ghost fresh = raised@;
            events.append(&mut raised);
            proof {
                let upto = old(self)@.aggregates.take(i as int + 1);
                assert(upto.drop_last() =~= old(self)@.aggregates.take(i as int));
                assert(upto.last() == old(self)@.aggregates[i as int]);
                assert(views(held + fresh) =~= views(held) + views(fresh));
            }
            i += 1;
        }
        proof {
            assert(old(self)@.aggregates.take(i as int) =~= old(self)@.aggregates);
            lemma_collected_nothing_pending(self@.aggregates);
        }
        events
    }

    /// Writes `entry` in the open transaction: it reaches the store when the
    /// transaction commits, and never otherwise.
    ///
    /// Without an open transaction nothing is changed and `TransactionError`
    /// comes back. Where an entry written earlier in the transaction has the same
    /// identifier, the transaction is rolled back and `DatabaseError` comes back.
    /// That the store itself holds the identifier shows at the commit.
    pub fn insert_outbox(&mut self, entry: OutboxEntry) -> (result: Result<(), BaseError>)
        ensures
            match result {
                Ok(()) => {
                    &&& old(self)@.state == TransactionState::Active
                    &&& !names(old(self)@.staged, entry@.id)
                    &&& final(self)@ == (UnitOfWorkView {
                        staged: old(self)@.staged.push(entry@),
                        ..old(self)@
                    })
                },
                Err(e) => if old(self)@.state.is_active() {
                    &&& names(old(self)@.staged, entry@.id)
                    &&& e@ == BaseErrorView::DatabaseError
                    &&& final(self)@ == old(self)@.ended()
                } else {
                    &&& e@ == BaseErrorView::TransactionError
                    &&& final(self)@ == old(self)@
                },
            },
    {
        if !self.is_active() {
            return Err(BaseError::TransactionError);
        }
        let mut k: usize = 0;
        while k < self.outbox.len()
            invariant
                k <= self.outbox.len(),
                self@ == old(self)@,
                self@.state == TransactionState::Active,
                forall|j: int| 0 <= j < k ==> (#[trigger] self@.staged[j]).id != entry@.id,
            decreases self.outbox.len() - k,
        {
            if self.outbox[k].id() == entry.id() {
                assert(names(self@.staged, entry@.id)) by {
                    assert(self@.staged[k as int].id == entry@.id);
                }
                self.rollback();
                return Err(BaseError::DatabaseError);
            }
            k += 1;
        }
        self.outbox.push(entry);
        proof {
            assert(entry_views(self.outbox@) =~= entry_views(old(self).outbox@).push(entry@));
        }
        Ok(())
    }

    /// The entries written in the open transaction, in the order of writing.
    pub fn written(&self) -> (entries: &Vec<OutboxEntry>)
        ensures
            entry_views(entries@) == self@.staged,
    {
        &self.outbox
    }

    /// Discards the open transaction: what was touched and what was written in it
    /// is dropped. Without an open transaction nothing happens.
    pub fn rollback(&mut self)
        ensures
            final(self)@ == old(self)@.ended(),
    {
        if self.state.is_open() {
            self.state = self.state.rollback();
            self.aggregates = Vec::new();
            self.outbox = Vec::new();
            proof {
                assert(self@.staged =~= Seq::<OutboxEntryView>::empty());
            }
        }
    }

    /// The cleanup that ends every use of a unit of work: a transaction that is
    /// still open is rolled back, so that none is ever left open. `rolled_back`
    /// is what came of that rollback in the executor; where it failed, the
    /// failure is handed back, and the unit of work is closed all the same.
    pub fn close(&mut self, rolled_back: Result<(), BaseError>) -> (result: Result<(), BaseError>)
        ensures
            final(self)@ == old(self)@.ended(),
            !final(self)@.state.is_open(),
            failure_of(result) == old(self)@.state.closing_report(failure_of(rolled_back)),
    {
        let was_open = self.state.is_open();
        self.rollback();
        if was_open {
            rolled_back
        } else {
            Ok(())
        }
    }

    /// Decides the commit of the open transaction.
    ///
    /// Events that are still pending on a touched aggregate must be dispatched
    /// first: they are collected and returned, and the transaction stays open.
    /// With no event pending, it is asked whether `store` would take the entries
    /// written in the transaction. Where it would, the executor is to commit
    /// next, and `complete` takes what came of it; where one entry would meet
    /// its own identifier, the transaction is rolled back and `DatabaseError`
    /// comes back. Without an open transaction, or with a commit already under
    /// way, nothing is changed and `TransactionError` comes back. The store is
    /// not written here.
    pub fn commit(&mut self, store: &OutboxStore) -> (result: Result<
        VecDeque<Envelope>,
        BaseError,
    >)
        ensures
            match result {
                Ok(events) => {
                    &&& old(self)@.state.is_active()
                    &&& views(events@) == pending_of(old(self)@.aggregates)
                    &&& collected_from(old(self)@.aggregates, final(self)@.aggregates)
                    &&& final(self)@.staged == old(self)@.staged
                    &&& if pending_of(old(self)@.aggregates).len() > 0 {
                        final(self)@.state == TransactionState::Active
                    } else {
                        &&& inserted_all(store@, old(self)@.staged).is_some()
                        &&& final(self)@.state == TransactionState::Committing
                    }
                },
                Err(e) => if old(self)@.state.is_active() {
                    &&& e@ == BaseErrorView::DatabaseError
                    &&& pending_of(old(self)@.aggregates) == Seq::<EnvelopeView>::empty()
                    &&& inserted_all(store@, old(self)@.staged).is_none()
                    &&& final(self)@ == UnitOfWorkView::<A>::empty(TransactionState::RolledBack)
                } else {
                    &&& e@ == BaseErrorView::TransactionError
                    &&& final(self)@ == old(self)@
                },
            },
    {
        if !self.is_active() {
            return Err(BaseError::TransactionError);
        }
        let events = self.collect_events();
        if events.len() > 0 {
            return Ok(events);
        }
        proof {
            assert(views(events@) =~= Seq::<EnvelopeView>::empty());
        }
        if store.accepts(&self.outbox) {
            self.state = TransactionState::Committing;
            Ok(events)
        } else {
            self.rollback();
            Err(BaseError::DatabaseError)
        }
    }

    /// Takes the outcome of the executor's commit and ends the transaction.
    ///
    /// Where the executor committed, the entries written in the transaction go
    /// into `store`, all or none, and the transaction is committed. Where the
    /// executor failed, the store is left as it was, the transaction is rolled
    /// back and the failure is handed back. The same happens, with
    /// `DatabaseError`, where the store no longer takes the entries. Where no
    /// commit awaits the executor, nothing is changed and `TransactionError`
    /// comes back.
    pub fn complete(&mut self, store: &mut OutboxStore, outcome: Result<(), BaseError>) -> (result:
        Result<(), BaseError>)
        ensures
            match result {
                Ok(()) => {
                    &&& old(self)@.state == TransactionState::Committing
                    &&& outcome is Ok
                    &&& inserted_all(old(store)@, old(self)@.staged) == Some(final(store)@)
                    &&& final(self)@ == (UnitOfWorkView {
                        state: TransactionState::Committed,
                        staged: Seq::empty(),
                        ..old(self)@
                    })
                },
                Err(e) => {
                    &&& final(store)@ == old(store)@
                    &&& if old(self)@.state != TransactionState::Committing {
                        &&& e@ == BaseErrorView::TransactionError
                        &&& final(self)@ == old(self)@
                    } else {
                        &&& final(self)@ == UnitOfWorkView::<A>::empty(
                            TransactionState::RolledBack,
                        )
                        &&& match failure_of(outcome) {
                            Some(failure) => e@ == failure,
                            None => e@ == BaseErrorView::DatabaseError && inserted_all(
                                old(store)@,
                                old(self)@.staged,
                            ).is_none(),
                        }
                    }
                },
            },
    {
        match self.state {
            TransactionState::Committing => {},
            _ => {
                return Err(BaseError::TransactionError);
            },
        }
        match outcome {
            Err(e) => {
                self.rollback();
                Err(e)
            },
            Ok(_) => match store.insert_all(&self.outbox) {
                Ok(()) => {
                    self.state = TransactionState::Committed;
                    self.outbox = Vec::new();
                    proof {
                        assert(self@.staged =~= Seq::<OutboxEntryView>::empty());
                    }
                    Ok(())
                },
                Err(e) => {
                    self.rollback();
                    Err(e)
                },
            },
        }
    }

    /// Ends the unit of work and hands over the aggregates of a committed
    /// transaction, in the order of touching, for the executor to persist. In
    /// every other state there is nothing to persist.
    pub fn into_aggregates(self) -> (aggregates: Vec<A>)
        ensures
            aggregates@ == if self@.state == TransactionState::Committed {
                self@.aggregates
            } else {
                Seq::<A>::empty()
            },
    {
        match self.state {
            TransactionState::Committed => self.aggregates,
            _ => Vec::new(),
        }
    }
}

} // verus!
