//! The message bus: it routes a command to its handler, drains the events that
//! handlers raise, breadth first, and ends the unit of work with a commit or a
//! rollback.
//!
//! The bus decides, it does not call. A `Cascade` is the state of one dispatch;
//! `MessageBus::next` says what is to be done, the application does it (it runs
//! the handler, which may await), and `MessageBus::settle` takes what came of it.
//! The end goes the same way: `Cascade::commit` decides the commit, the
//! application lets the executor commit, and `Cascade::complete` takes what came
//! of it and writes the outbox only if the executor committed.
use std::collections::VecDeque;
use vstd::prelude::*;

use crate::aggregate::Aggregate;
use crate::handler::{HandlerRegistry, HandlerRegistryView};
use crate::message::{views, Envelope, EnvelopeView, Message};
use crate::outbox::{
    entry_views, fresh, inserted_all, lemma_inserted_all_adds, names, well_formed, OutboxEntry,
    OutboxEntryView, OutboxRow, OutboxStore,
};
use crate::responses::{
    failure_of, BaseError, BaseErrorView, FailurePolicy, FailurePolicyView,
};
use crate::unit_of_work::{collected_from, pending_of, TransactionState, UnitOfWork};

verus! {

/// Where a dispatch stands.
#[derive(Clone, Copy, Debug, PartialEq, Eq, Structural)]
pub enum Stage {
    /// The bus can say what comes next.
    Ready,
    /// A handler has been handed out and its outcome is awaited.
    Awaiting,
    /// The commit was decided and the outcome of the executor's commit is
    /// awaited.
    Committing,
    /// The unit of work was committed.
    Committed,
    /// The unit of work was rolled back.
    RolledBack,
}

/// What the application is to do next.
#[derive(Debug, PartialEq, Eq)]
pub enum Action {
    /// Run this handler on this message, then settle its outcome.
    Invoke { handler: usize, message: Envelope },
    /// An event was taken from the queue that has no handler to run. Ask again.
    Continue,
    /// Nothing is left to dispatch. Ask for the commit.
    Commit,
    /// The commit was decided. Let the executor commit, then complete the
    /// dispatch with what came of it.
    Complete,
    /// The dispatch is over.
    Finished,
}

pub enum ActionView {
    Invoke { handler: usize, message: EnvelopeView },
    Continue,
    Commit,
    Complete,
    Finished,
}

impl View for Action {
    type V = ActionView;

    open spec fn view(&self) -> ActionView {
        match self {
            Action::Invoke { handler, message } => ActionView::Invoke {
                handler: *handler,
                message: message@,
            },
            Action::Continue => ActionView::Continue,
            Action::Commit => ActionView::Commit,
            Action::Complete => ActionView::Complete,
            Action::Finished => ActionView::Finished,
        }
    }
}

pub open spec fn is_external() -> spec_fn(EnvelopeView) -> bool {
    |event: EnvelopeView| event.externally_notifiable()
}

/// Those of `events` that must be written to the outbox, in the same order.
pub open spec fn externals(events: Seq<EnvelopeView>) -> Seq<EnvelopeView> {
    events.filter(is_external())
}

/// `staged` holds one unprocessed entry for each event of `handled` that must be
/// written to the outbox, in the same order, and nothing else.
pub open spec fn recorded(staged: Seq<OutboxEntryView>, handled: Seq<EnvelopeView>) -> bool {
    &&& staged.len() == externals(handled).len()
    &&& forall|k: int|
        0 <= k < staged.len() ==> (#[trigger] staged[k]).records(externals(handled)[k])
            && !staged[k].processed
}

/// A failure, if there is one, as contracts see it.
pub open spec fn failure_view(error: Option<BaseError>) -> Option<BaseErrorView> {
    match error {
        Some(error) => Some(error@),
        None => None,
    }
}

pub open spec fn error_views(errors: Seq<BaseError>) -> Seq<BaseErrorView> {
    errors.map_values(|error: BaseError| error@)
}

/// What can happen to a dispatch.
pub enum Input {
    /// The bus is asked what comes next, and is given this identifier and this
    /// time for an outbox entry.
    Next { id: u64, now: u64 },
    /// The outcome of the awaited handler is settled: it failed with `failure`,
    /// or succeeded, and it raised the events in `collected`.
    Settle { failure: Option<BaseErrorView>, collected: Seq<EnvelopeView> },
    /// A commit is asked for: the events in `surfaced` were still pending, and
    /// the store would take the entries or would not.
    Commit { surfaced: Seq<EnvelopeView>, accepted: bool },
    /// The outcome of the executor's commit is taken: it failed with `failure`,
    /// or succeeded, and the store took the entries or did not.
    Complete { failure: Option<BaseErrorView>, written: bool },
    /// The dispatch is given up.
    Abort { failure: Option<BaseErrorView> },
}

/// The state of one dispatch.
pub struct CascadeView {
    /// The command that started the dispatch.
    pub command: EnvelopeView,
    pub stage: Stage,
    /// The events raised and not yet taken, oldest first.
    pub queue: Seq<EnvelopeView>,
    /// The events taken from the queue so far, in the order of taking.
    pub handled: Seq<EnvelopeView>,
    /// The handlers still to run on the current message, the next one first.
    pub remaining: Seq<usize>,
    /// The outbox entries written in the open transaction.
    pub staged: Seq<OutboxEntryView>,
    /// The failures that the policy let pass.
    pub failures: Seq<BaseErrorView>,
    /// The compensating events that fatal service errors carried.
    pub compensations: Seq<EnvelopeView>,
    /// The failure that ended the dispatch, if one did.
    pub error: Option<BaseErrorView>,
}

impl CascadeView {
    /// The dispatch of `command` before anything was done: its one handler is
    /// still to run.
    pub open spec fn started(command: EnvelopeView, handler: usize) -> CascadeView {
        CascadeView {
            command,
            stage: Stage::Ready,
            queue: Seq::empty(),
            handled: Seq::empty(),
            remaining: seq![handler],
            staged: Seq::empty(),
            failures: Seq::empty(),
            compensations: Seq::empty(),
            error: None,
        }
    }

    /// The dispatch is not over: it is neither committed nor rolled back.
    pub open spec fn running(self) -> bool {
        self.stage is Ready || self.stage is Awaiting || self.stage is Committing
    }

    /// Handlers may still run: no commit has been decided.
    pub open spec fn dispatching(self) -> bool {
        self.stage is Ready || self.stage is Awaiting
    }

    /// Nothing is left to dispatch.
    pub open spec fn drained(self) -> bool {
        self.stage is Ready && self.remaining.len() == 0 && self.queue.len() == 0
    }

    /// Every event raised so far, in the order of raising.
    pub open spec fn raised(self) -> Seq<EnvelopeView> {
        self.handled + self.queue
    }

    /// The message whose handlers are being run: the command until the first
    /// event is taken, then the event taken last.
    pub open spec fn current(self) -> EnvelopeView {
        if self.handled.len() == 0 {
            self.command
        } else {
            self.handled.last()
        }
    }

    pub open spec fn wf(self) -> bool {
        &&& self.stage is Awaiting ==> self.remaining.len() > 0
        &&& self.stage is Committing ==> self.remaining.len() == 0 && self.queue.len() == 0
        &&& self.running() ==> recorded(self.staged, self.handled) && self.error is None
        &&& !self.running() ==> self.staged.len() == 0 && self.queue.len() == 0
            && self.remaining.len() == 0
        &&& self.stage is Committed ==> self.error is None
    }

    /// Whether the oldest event of the queue cannot be written to the outbox
    /// under `id`, because an entry written earlier in the dispatch has that
    /// identifier.
    pub open spec fn clashes(self, id: u64) -> bool {
        self.queue[0].externally_notifiable() && names(self.staged, id)
    }

    /// The state after the oldest event of the queue was taken: the event is
    /// handled, an entry for it is written if it notifies outside consumers, and
    /// `handlers` are to run on it if it notifies the bus. Where the entry cannot
    /// be written, the dispatch ends with `DatabaseError`.
    pub open spec fn taken(self, handlers: Seq<usize>, id: u64, now: u64) -> CascadeView {
        let event = self.queue[0];
        let to_run = if event.internally_notifiable() {
            handlers
        } else {
            Seq::empty()
        };
        if self.clashes(id) {
            self.aborted(Some(BaseErrorView::DatabaseError))
        } else {
            CascadeView {
                stage: if to_run.len() > 0 {
                    Stage::Awaiting
                } else {
                    Stage::Ready
                },
                queue: self.queue.drop_first(),
                handled: self.handled.push(event),
                remaining: to_run,
                staged: if event.externally_notifiable() {
                    self.staged.push(OutboxEntryView::of(event, id, now))
                } else {
                    self.staged
                },
                ..self
            }
        }
    }

    /// The state after the bus was asked what comes next.
    pub open spec fn stepped(self, registry: HandlerRegistryView, id: u64, now: u64) -> CascadeView {
        if !(self.stage is Ready) {
            self
        } else if self.remaining.len() > 0 {
            CascadeView { stage: Stage::Awaiting, ..self }
        } else if self.queue.len() > 0 {
            self.taken(registry.handlers_for(self.queue[0].metadata.topic), id, now)
        } else {
            self
        }
    }

    /// What the bus answers when that step leads from `self` to `after`.
    pub open spec fn announced(self, after: CascadeView) -> ActionView {
        if after.stage is Awaiting {
            ActionView::Invoke { handler: after.remaining[0], message: after.current() }
        } else if !after.running() {
            ActionView::Finished
        } else if after.stage is Committing {
            ActionView::Complete
        } else if self.queue.len() > 0 {
            ActionView::Continue
        } else {
            ActionView::Commit
        }
    }

    /// Whether `error`, reported by the handler that is awaited, ends the
    /// dispatch: every failure of the command's handler does, and of the others
    /// those that the policy holds fatal.
    pub open spec fn fatal(self, policy: FailurePolicyView, error: BaseErrorView) -> bool {
        self.handled.len() == 0 || policy.is_fatal(error.kind())
    }

    /// The state after the dispatch was given up because of `error`, or without
    /// one: rolled back, nothing queued, nothing written. A compensating event
    /// that the error carries is recorded.
    pub open spec fn aborted(self, error: Option<BaseErrorView>) -> CascadeView {
        CascadeView {
            stage: Stage::RolledBack,
            queue: Seq::empty(),
            remaining: Seq::empty(),
            staged: Seq::empty(),
            compensations: match error {
                Some(BaseErrorView::ServiceError(Some(event))) => self.compensations.push(event),
                _ => self.compensations,
            },
            error,
            ..self
        }
    }

    /// The state after the awaited handler is through and the events in
    /// `collected` were raised: they go to the back of the queue.
    pub open spec fn resumed(self, collected: Seq<EnvelopeView>) -> CascadeView {
        CascadeView {
            stage: Stage::Ready,
            queue: self.queue + collected,
            remaining: self.remaining.drop_first(),
            ..self
        }
    }

    /// The state after the awaited handler reported `failure` (`None` for
    /// success), having raised the events in `collected`.
    pub open spec fn settled(
        self,
        policy: FailurePolicyView,
        failure: Option<BaseErrorView>,
        collected: Seq<EnvelopeView>,
    ) -> CascadeView {
        match failure {
            None => self.resumed(collected),
            Some(error) => if self.fatal(policy, error) {
                self.aborted(Some(error))
            } else {
                CascadeView { failures: self.failures.push(error), ..self.resumed(collected) }
            },
        }
    }

    /// The state after a commit that found nothing left to dispatch and wrote
    /// every entry.
    pub open spec fn committed(self) -> CascadeView {
        CascadeView { stage: Stage::Committed, staged: Seq::empty(), ..self }
    }

    /// The state after a commit was asked for, `surfaced` being the events that
    /// were still pending on the aggregates and `accepted` telling whether the
    /// store would take the entries. While something is left to dispatch, or
    /// once a commit is decided or the dispatch is over, nothing changes. Events
    /// that surfaced go into the queue and the dispatch goes on. Otherwise the
    /// commit is decided if the store would take the entries, and the dispatch
    /// ends with `DatabaseError` if it would not.
    pub open spec fn closed(self, surfaced: Seq<EnvelopeView>, accepted: bool) -> CascadeView {
        if !self.drained() {
            self
        } else if surfaced.len() > 0 {
            CascadeView { queue: surfaced, ..self }
        } else if accepted {
            CascadeView { stage: Stage::Committing, ..self }
        } else {
            self.aborted(Some(BaseErrorView::DatabaseError))
        }
    }

    /// The state after the outcome of the executor's commit was taken,
    /// `failure` being what the executor reported and `written` telling whether
    /// the store took the entries. Unless a commit was decided, nothing changes.
    /// Where the executor failed, the dispatch ends with its failure; where it
    /// committed, the dispatch is committed if the store took the entries and
    /// ends with `DatabaseError` if it did not.
    pub open spec fn completed(self, failure: Option<BaseErrorView>, written: bool) -> CascadeView {
        if !(self.stage is Committing) {
            self
        } else if failure.is_some() {
            self.aborted(failure)
        } else if written {
            self.committed()
        } else {
            self.aborted(Some(BaseErrorView::DatabaseError))
        }
    }

    /// What `complete` hands back: nothing where the dispatch is committed, and
    /// otherwise the failure that kept it from being.
    pub open spec fn completion_report(self, failure: Option<BaseErrorView>, written: bool) -> Option<
        BaseErrorView,
    > {
        if !(self.stage is Committing) {
            Some(BaseErrorView::TransactionError)
        } else if failure.is_some() {
            failure
        } else if written {
            None
        } else {
            Some(BaseErrorView::DatabaseError)
        }
    }

    /// The state after one thing happened to the dispatch.
    pub open spec fn fed(
        self,
        registry: HandlerRegistryView,
        policy: FailurePolicyView,
        input: Input,
    ) -> CascadeView {
        match input {
            Input::Next { id, now } => self.stepped(registry, id, now),
            Input::Settle { failure, collected } => if self.stage is Awaiting {
                self.settled(policy, failure, collected)
            } else {
                self
            },
            Input::Commit { surfaced, accepted } => self.closed(surfaced, accepted),
            Input::Complete { failure, written } => self.completed(failure, written),
            Input::Abort { failure } => if self.running() {
                self.aborted(failure)
            } else {
                self
            },
        }
    }

    /// The state after all of `inputs` happened, one after the other.
    pub open spec fn run(
        self,
        registry: HandlerRegistryView,
        policy: FailurePolicyView,
        inputs: Seq<Input>,
    ) -> CascadeView
        decreases inputs.len(),
    {
        if inputs.len() == 0 {
            self
        } else {
            self.fed(registry, policy, inputs[0]).run(registry, policy, inputs.drop_first())
        }
    }

    /// The store as `complete` leaves it, `failure` being what the executor
    /// reported. The store is written only where a commit was decided and the
    /// executor committed, and then with all entries or none.
    pub open spec fn flushed(self, failure: Option<BaseErrorView>, store: Seq<OutboxRow>) -> Seq<
        OutboxRow,
    > {
        if self.stage is Committing && failure.is_none() {
            match inserted_all(store, self.staged) {
                Some(after) => after,
                None => store,
            }
        } else {
            store
        }
    }
}

/// The state of one dispatch: the unit of work, the queue of events, and what
/// has been done so far.
pub struct Cascade<A: Aggregate> {
    unit: UnitOfWork<A>,
    command: Envelope,
    stage: Stage,
    queue: VecDeque<Envelope>,
    handled: Vec<Envelope>,
    handlers: Vec<usize>,
    cursor: usize,
    failures: Vec<BaseError>,
    compensations: Vec<Envelope>,
    error: Option<BaseError>,
}

impl<A: Aggregate> View for Cascade<A> {
    type V = CascadeView;

    closed spec fn view(&self) -> CascadeView {
        CascadeView {
            command: self.command@,
            stage: self.stage,
            queue: views(self.queue@),
            handled: views(self.handled@),
            remaining: self.handlers@.skip(self.cursor as int),
            staged: self.unit@.staged,
            failures: error_views(self.failures@),
            compensations: views(self.compensations@),
            error: failure_view(self.error),
        }
    }
}

impl<A: Aggregate> Cascade<A> {
    /// The aggregates touched in the dispatch, in the order of touching.
    pub closed spec fn aggregates(&self) -> Seq<A> {
        self.unit@.aggregates
    }

    /// What every cascade that this module hands out satisfies: its state is well
    /// formed and agrees with its unit of work.
    pub closed spec fn wf(&self) -> bool {
        &&& self@.wf()
        &&& self.cursor <= self.handlers.len()
        &&& self.unit@.state == match self.stage {
            Stage::Ready => TransactionState::Active,
            Stage::Awaiting => TransactionState::Active,
            Stage::Committing => TransactionState::Committing,
            Stage::Committed => TransactionState::Committed,
            Stage::RolledBack => TransactionState::RolledBack,
        }
    }

    pub fn stage(&self) -> (stage: Stage)
        ensures
            stage == self@.stage,
    {
        self.stage
    }

    /// The command that started the dispatch.
    pub fn command(&self) -> (command: &Envelope)
        ensures
            command@ == self@.command,
    {
        &self.command
    }

    /// The events taken from the queue so far, in the order of taking.
    pub fn handled(&self) -> (handled: &Vec<Envelope>)
        ensures
            views(handled@) == self@.handled,
    {
        &self.handled
    }

    /// The number of events raised and not yet taken.
    pub fn queued(&self) -> (n: usize)
        ensures
            n == self@.queue.len(),
    {
        self.queue.len()
    }

    /// The failures that the policy let pass, in the order in which they came.
    pub fn failures(&self) -> (failures: &Vec<BaseError>)
        ensures
            error_views(failures@) == self@.failures,
    {
        &self.failures
    }

    /// The compensating events recorded, in the order in which they came.
    pub fn compensations(&self) -> (compensations: &Vec<Envelope>)
        ensures
            views(compensations@) == self@.compensations,
    {
        &self.compensations
    }

    /// The failure that ended the dispatch, if one did.
    pub fn error(&self) -> (error: &Option<BaseError>)
        ensures
            failure_view(*error) == self@.error,
    {
        &self.error
    }

    /// The outbox entries written in the open transaction, in the order of
    /// writing.
    pub fn written(&self) -> (entries: &Vec<OutboxEntry>)
        ensures
            entry_views(entries@) == self@.staged,
    {
        self.unit.written()
    }

    /// The number of aggregates touched.
    pub fn touched(&self) -> (n: usize)
        ensures
            n == self.aggregates().len(),
    {
        self.unit.touched()
    }

    /// Takes `aggregate` into the unit of work of the dispatch, behind those
    /// touched before, and returns its place. Once the commit is decided or the
    /// dispatch is over, nothing is changed and `TransactionError` comes back.
    pub fn register(&mut self, aggregate: A) -> (result: Result<usize, BaseError>)
        requires
            old(self).wf(),
        ensures
            final(self).wf(),
            final(self)@.wf(),
            final(self)@ == old(self)@,
            match result {
                Ok(index) => {
                    &&& old(self)@.dispatching()
                    &&& index == old(self).aggregates().len()
                    &&& final(self).aggregates() == old(self).aggregates().push(aggregate)
                },
                Err(e) => {
                    &&& !old(self)@.dispatching()
                    &&& e@ == BaseErrorView::TransactionError
                    &&& final(self).aggregates() == old(self).aggregates()
                },
            },
    {
        self.unit.register(aggregate)
    }

    /// The aggregate that was touched as the `index`-th.
    pub fn aggregate(&self, index: usize) -> (aggregate: &A)
        requires
            index < self.aggregates().len(),
        ensures
            *aggregate == self.aggregates()[index as int],
    {
        self.unit.aggregate(index)
    }

    /// The same aggregate, to be changed in place. Nothing else of the dispatch
    /// changes with it.
    pub fn aggregate_mut(&mut self, index: usize) -> (aggregate: &mut A)
        requires
            old(self).wf(),
            index < old(self).aggregates().len(),
        ensures
            *aggregate == old(self).aggregates()[index as int],
            final(self).wf(),
            final(self)@ == old(self)@,
            final(self).aggregates() == old(self).aggregates().update(
                index as int,
                *final(aggregate),
            ),
    {
        self.unit.aggregate_mut(index)
    }
}


impl<A: Aggregate> Cascade<A> {
    /// A copy of the message whose handlers are being run.
    fn current(&self) -> (message: Envelope)
        ensures
            message@ == self@.current(),
    {
        let n = self.handled.len();
        if n == 0 {
            self.command.clone()
        } else {
            self.handled[n - 1].clone()
        }
    }

    /// Ends the dispatch after its unit of work was rolled back: nothing stays
    /// queued, and `error` is kept as the failure that ended it.
    fn end(&mut self, error: Option<BaseError>)
        requires
            old(self)@.running(),
            old(self)@.staged.len() == 0,
            old(self).unit@.state == TransactionState::RolledBack,
        ensures
            final(self).wf(),
            final(self)@ == (CascadeView {
                stage: Stage::RolledBack,
                queue: Seq::empty(),
                remaining: Seq::empty(),
                error: failure_view(error),
                ..old(self)@
            }),
            final(self).aggregates() == old(self).aggregates(),
    {
        self.queue = VecDeque::new();
        self.handlers = Vec::new();
        self.cursor = 0;
        self.error = error;
        self.stage = Stage::RolledBack;
        proof {
            assert(self@.queue =~= Seq::<EnvelopeView>::empty());
            assert(self@.remaining =~= Seq::<usize>::empty());
        }
    }

    /// Goes on after the awaited handler is through: the events it raised are
    /// collected and put at the back of the queue.
    fn resume(&mut self)
        requires
            old(self).wf(),
            old(self)@.stage is Awaiting,
        ensures
            final(self).wf(),
            final(self)@ == old(self)@.resumed(pending_of(old(self).aggregates())),
            collected_from(old(self).aggregates(), final(self).aggregates()),
            pending_of(final(self).aggregates()) == Seq::<EnvelopeView>::empty(),
    {
        let ghost held = self.queue@;
        let mut collected = self.unit.collect_events();
        let ghost fresh = collected@;
        self.queue.append(&mut collected);
        self.cursor = self.cursor + 1;
        self.stage = Stage::Ready;
        proof {
            assert(views(held + fresh) =~= views(held) + views(fresh));
            assert(self@.remaining =~= old(self)@.remaining.drop_first());
        }
    }

    /// Gives the dispatch up, as a cancelled `execute` must: the unit of work is
    /// rolled back and the queue is dropped. `error` is kept as the failure that
    /// ended the dispatch, and a compensating event that it carries is recorded
    /// first. A dispatch that is over already is left as it is.
    pub fn abort(&mut self, error: Option<BaseError>)
        requires
            old(self).wf(),
        ensures
            final(self).wf(),
            final(self)@.wf(),
            final(self)@ == if old(self)@.running() {
                old(self)@.aborted(failure_view(error))
            } else {
                old(self)@
            },
            final(self).aggregates() == if old(self)@.running() {
                Seq::<A>::empty()
            } else {
                old(self).aggregates()
            },
    {
        match self.stage {
            Stage::Committed => {
                return;
            },
            Stage::RolledBack => {
                return;
            },
            _ => {},
        }
        match &error {
            Some(e) => {
                match e.compensation() {
                    Some(event) => {
                        self.compensations.push(event);
                        proof {
                            assert(views(self.compensations@) =~= views(
                                old(self).compensations@,
                            ).push(event@));
                        }
                    },
                    None => {},
                }
            },
            None => {},
        }
        self.unit.rollback();
        self.end(error);
    }

    /// Decides the commit of the dispatch once nothing is left to dispatch.
    ///
    /// Events that are still pending on a touched aggregate are put into the
    /// queue instead, and the dispatch goes on. Otherwise it is asked whether
    /// `store` would take the entries written for the events. Where it would,
    /// the commit is decided: the executor is to commit next, and `complete`
    /// takes what came of it. Where one entry would meet its own identifier, the
    /// dispatch is rolled back and `DatabaseError` comes back. While something
    /// is left to dispatch, or once a commit is decided or the dispatch is over,
    /// nothing is changed and `TransactionError` comes back. The store is not
    /// written here.
    pub fn commit(&mut self, store: &OutboxStore) -> (result: Result<Stage, BaseError>)
        requires
            old(self).wf(),
        ensures
            final(self).wf(),
            final(self)@.wf(),
            final(self)@ == old(self)@.closed(
                pending_of(old(self).aggregates()),
                inserted_all(store@, old(self)@.staged).is_some(),
            ),
            match result {
                Ok(stage) => {
                    &&& old(self)@.drained()
                    &&& stage == final(self)@.stage
                    &&& final(self)@.running()
                    &&& collected_from(old(self).aggregates(), final(self).aggregates())
                },
                Err(e) => if old(self)@.drained() {
                    &&& e@ == BaseErrorView::DatabaseError
                    &&& final(self)@.stage is RolledBack
                    &&& final(self).aggregates() == Seq::<A>::empty()
                } else {
                    &&& e@ == BaseErrorView::TransactionError
                    &&& final(self).aggregates() == old(self).aggregates()
                },
            },
    {
        match self.stage {
            Stage::Ready => {},
            _ => {
                return Err(BaseError::TransactionError);
            },
        }
        if self.cursor < self.handlers.len() || self.queue.len() > 0 {
            return Err(BaseError::TransactionError);
        }
        proof {
            assert(self@.queue =~= Seq::<EnvelopeView>::empty());
        }
        match self.unit.commit(store) {
            Ok(surfaced) => {
                if surfaced.len() > 0 {
                    self.queue = surfaced;
                    Ok(Stage::Ready)
                } else {
                    proof {
                        assert(views(surfaced@) =~= Seq::<EnvelopeView>::empty());
                    }
                    self.stage = Stage::Committing;
                    Ok(Stage::Committing)
                }
            },
            Err(e) => {
                self.end(Some(BaseError::DatabaseError));
                Err(e)
            },
        }
    }

    /// Takes the outcome of the executor's commit and ends the dispatch.
    ///
    /// Where the executor committed, the entries written for the events go into
    /// `store`, all or none, and the dispatch is committed. Where the executor
    /// failed, nothing is written: the dispatch is rolled back with the
    /// executor's failure, which is handed back. The same happens, with
    /// `DatabaseError`, where the store no longer takes the entries. Unless a
    /// commit was decided, nothing is changed and `TransactionError` comes back.
    pub fn complete(&mut self, store: &mut OutboxStore, outcome: Result<(), BaseError>) -> (result:
        Result<(), BaseError>)
        requires
            old(self).wf(),
        ensures
            final(self).wf(),
            final(self)@.wf(),
            final(self)@ == old(self)@.completed(
                failure_of(outcome),
                inserted_all(old(store)@, old(self)@.staged).is_some(),
            ),
            final(store)@ == old(self)@.flushed(failure_of(outcome), old(store)@),
            failure_of(result) == old(self)@.completion_report(
                failure_of(outcome),
                inserted_all(old(store)@, old(self)@.staged).is_some(),
            ),
            final(self).aggregates() == if old(self)@.stage is Committing && result is Err {
                Seq::<A>::empty()
            } else {
                old(self).aggregates()
            },
    {
        match self.stage {
            Stage::Committing => {},
            _ => {
                return Err(BaseError::TransactionError);
            },
        }
        match outcome {
            Err(e) => {
                self.abort(Some(e.clone()));
                Err(e)
            },
            Ok(_) => match self.unit.complete(store, Ok(())) {
                Ok(()) => {
                    self.stage = Stage::Committed;
                    Ok(())
                },
                Err(e) => {
                    self.end(Some(BaseError::DatabaseError));
                    Err(e)
                },
            },
        }
    }

    /// Ends the dispatch and hands over the aggregates of a committed unit of
    /// work, in the order of touching, for the executor to persist. In every
    /// other state there is nothing to persist.
    pub fn into_aggregates(self) -> (aggregates: Vec<A>)
        requires
            self.wf(),
        ensures
            aggregates@ == if self@.stage is Committed {
                self.aggregates()
            } else {
                Seq::<A>::empty()
            },
    {
        self.unit.into_aggregates()
    }
}

/// The dispatcher: the registry of handlers, read only from here on, and the
/// policy on failures.
pub struct MessageBus {
    registry: HandlerRegistry,
    policy: FailurePolicy,
}

pub struct MessageBusView {
    pub registry: HandlerRegistryView,
    pub policy: FailurePolicyView,
}

impl View for MessageBus {
    type V = MessageBusView;

    closed spec fn view(&self) -> MessageBusView {
        MessageBusView { registry: self.registry@, policy: self.policy@ }
    }
}

impl MessageBus {
    /// A bus over `registry`, which nobody can change any more.
    pub fn new(registry: HandlerRegistry, policy: FailurePolicy) -> (bus: MessageBus)
        ensures
            bus@ == (MessageBusView { registry: registry@, policy: policy@ }),
    {
        MessageBus { registry, policy }
    }

    pub fn registry(&self) -> (registry: &HandlerRegistry)
        ensures
            registry@ == self@.registry,
    {
        &self.registry
    }

    pub fn policy(&self) -> (policy: FailurePolicy)
        ensures
            policy@ == self@.policy,
    {
        self.policy
    }

    /// Starts the dispatch of `command`: finds its one handler and opens a unit
    /// of work. Where `command` is no command, or no handler is registered for
    /// its topic, `HandlerNotFound` comes back and no transaction is opened.
    pub fn execute<A: Aggregate>(&self, command: Envelope) -> (result: Result<Cascade<A>, BaseError>)
        ensures
            match result {
                Ok(cascade) => {
                    &&& command@.is_command()
                    &&& self@.registry.command_handler(command@.metadata.topic) matches Some(
                        handler,
                    )
                    &&& cascade@ == CascadeView::started(command@, handler)
                    &&& cascade.aggregates() == Seq::<A>::empty()
                    &&& cascade.wf()
                    &&& cascade@.wf()
                },
                Err(e) => {
                    &&& e@ == BaseErrorView::HandlerNotFound
                    &&& !command@.is_command() || self@.registry.command_handler(
                        command@.metadata.topic,
                    ).is_none()
                },
            },
    {
        if !command.is_command() {
            return Err(BaseError::HandlerNotFound);
        }
        match self.registry.command_handler(command.topic()) {
            None => Err(BaseError::HandlerNotFound),
            Some(handler) => {
                let mut unit: UnitOfWork<A> = UnitOfWork::new();
                let begun = unit.begin();
                assert(begun is Ok);
                let mut handlers: Vec<usize> = Vec::new();
                handlers.push(handler);
                let cascade = Cascade {
                    unit,
                    command,
                    stage: Stage::Ready,
                    queue: VecDeque::new(),
                    handled: Vec::new(),
                    handlers,
                    cursor: 0,
                    failures: Vec::new(),
                    compensations: Vec::new(),
                    error: None,
                };
                proof {
                    let started = CascadeView::started(command@, handler);
                    assert(cascade@.queue =~= started.queue);
                    assert(cascade@.handled =~= started.handled);
                    assert(cascade@.remaining =~= started.remaining);
                    assert(cascade@.failures =~= started.failures);
                    assert(cascade@.compensations =~= started.compensations);
                    assert(externals(started.handled) =~= Seq::<EnvelopeView>::empty());
                }
                Ok(cascade)
            },
        }
    }

    /// Says what comes next in the dispatch, and takes the step that leads to it.
    ///
    /// While handlers are left for the current message, the next of them is
    /// handed out. Otherwise the oldest event is taken from the queue: it is
    /// recorded as handled; if it notifies outside consumers, an outbox entry
    /// with the identifier `id` and the creation time `now` is written for it in
    /// the open transaction; if it notifies the bus, the handlers of its topic
    /// are to run on it, in the order of registration, and the first is handed
    /// out. Where the entry cannot be written, because the dispatch has used
    /// `id` already, the dispatch ends with `DatabaseError`. With an empty queue
    /// the answer is to ask for the commit, once the commit is decided that the
    /// executor is to commit, and once the dispatch is over that it is finished.
    pub fn next<A: Aggregate>(&self, cascade: &mut Cascade<A>, id: u64, now: u64) -> (action:
        Action)
        requires
            old(cascade).wf(),
        ensures
            final(cascade).wf(),
            final(cascade)@.wf(),
            final(cascade)@ == old(cascade)@.stepped(self@.registry, id, now),
            action@ == old(cascade)@.announced(final(cascade)@),
            final(cascade).aggregates() == if final(cascade)@.running() {
                old(cascade).aggregates()
            } else if old(cascade)@.running() {
                Seq::<A>::empty()
            } else {
                old(cascade).aggregates()
            },
    {
        match cascade.stage {
            Stage::Committed => {
                return Action::Finished;
            },
            Stage::RolledBack => {
                return Action::Finished;
            },
            Stage::Awaiting => {
                return Action::Invoke {
                    handler: cascade.handlers[cascade.cursor],
                    message: cascade.current(),
                };
            },
            Stage::Committing => {
                return Action::Complete;
            },
            Stage::Ready => {},
        }
        if cascade.cursor < cascade.handlers.len() {
            cascade.stage = Stage::Awaiting;
            return Action::Invoke {
                handler: cascade.handlers[cascade.cursor],
                message: cascade.current(),
            };
        }
        let ghost before = cascade@;
        match cascade.queue.pop_front() {
            None => Action::Commit,
            Some(event) => {
                if event.externally_notifiable() {
                    match cascade.unit.insert_outbox(OutboxEntry::of(&event, id, now)) {
                        Ok(()) => {},
                        Err(_) => {
                            cascade.end(Some(BaseError::DatabaseError));
                            return Action::Finished;
                        },
                    }
                }
                let handlers = if event.internally_notifiable() {
                    self.registry.event_handlers(event.topic())
                } else {
                    Vec::new()
                };
                let message = event.clone();
                cascade.handled.push(event);
                cascade.handlers = handlers;
                cascade.cursor = 0;
                proof {
                    let after = before.taken(
                        self@.registry.handlers_for(before.queue[0].metadata.topic),
                        id,
                        now,
                    );
                    assert(event@ == before.queue[0]);
                    assert(cascade@.queue =~= after.queue);
                    assert(cascade@.handled =~= after.handled);
                    assert(cascade@.remaining =~= after.remaining);
                    lemma_recorded_taken(before.staged, before.handled, event@, id, now);
                }
                if cascade.handlers.len() > 0 {
                    cascade.stage = Stage::Awaiting;
                    Action::Invoke { handler: cascade.handlers[0], message }
                } else {
                    Action::Continue
                }
            },
        }
    }

    /// Takes the outcome of the handler that was handed out.
    ///
    /// The events that the handler raised are collected from the aggregates
    /// touched, in the order of touching. Where the handler succeeded, or failed
    /// in a way that the policy lets pass, they go to the back of the queue, and
    /// the failure is recorded. A failure of the command's handler, and any
    /// failure that the policy holds fatal, ends the dispatch: the unit of work
    /// is rolled back, the queue is dropped, and a compensating event that the
    /// failure carries is recorded first. Where no handler is awaited, nothing is
    /// changed and `false` comes back.
    pub fn settle<A: Aggregate>(&self, cascade: &mut Cascade<A>, outcome: Result<(), BaseError>) -> (accepted:
        bool)
        requires
            old(cascade).wf(),
        ensures
            final(cascade).wf(),
            final(cascade)@.wf(),
            accepted == (old(cascade)@.stage is Awaiting),
            final(cascade)@ == if accepted {
                old(cascade)@.settled(
                    self@.policy,
                    failure_of(outcome),
                    pending_of(old(cascade).aggregates()),
                )
            } else {
                old(cascade)@
            },
            !accepted ==> final(cascade).aggregates() == old(cascade).aggregates(),
            accepted && final(cascade)@.running() ==> collected_from(
                old(cascade).aggregates(),
                final(cascade).aggregates(),
            ) && pending_of(final(cascade).aggregates()) == Seq::<EnvelopeView>::empty(),
            accepted && !final(cascade)@.running() ==> final(cascade).aggregates() == Seq::<
                A,
            >::empty(),
    {
        match cascade.stage {
            Stage::Awaiting => {},
            _ => {
                return false;
            },
        }
        match outcome {
            Ok(_) => {
                cascade.resume();
            },
            Err(error) => {
                if cascade.handled.len() == 0 || self.policy.is_fatal(error.kind()) {
                    cascade.abort(Some(error));
                } else {
                    let ghost recorded = cascade@.failures;
                    cascade.resume();
                    cascade.failures.push(error);
                    proof {
                        assert(error_views(cascade.failures@) =~= recorded.push(error@));
                    }
                }
            },
        }
        true
    }
}

/// Taking an event keeps the outbox entries in step with the events handled.
proof fn lemma_recorded_taken(
    staged: Seq<OutboxEntryView>,
    handled: Seq<EnvelopeView>,
    event: EnvelopeView,
    id: u64,
    now: u64,
)
    requires
        recorded(staged, handled),
    ensures
        recorded(
            if event.externally_notifiable() {
                staged.push(OutboxEntryView::of(event, id, now))
            } else {
                staged
            },
            handled.push(event),
        ),
{
    handled.lemma_filter_push(event, is_external());
}


/// Every state that a dispatch reaches is well formed: the state it starts in
/// is, and no step, no settling, no giving up, no deciding of the commit and no
/// completing of it leads out of the well-formed states.
pub proof fn lemma_well_formed_is_kept(
    cascade: CascadeView,
    registry: HandlerRegistryView,
    id: u64,
    now: u64,
    policy: FailurePolicyView,
    failure: Option<BaseErrorView>,
    collected: Seq<EnvelopeView>,
    handler: usize,
)
    requires
        cascade.wf(),
    ensures
        CascadeView::started(cascade.command, handler).wf(),
        cascade.stepped(registry, id, now).wf(),
        cascade.stage is Awaiting ==> cascade.settled(policy, failure, collected).wf(),
        cascade.running() ==> cascade.aborted(failure).wf(),
        forall|accepted: bool| #[trigger] cascade.closed(collected, accepted).wf(),
        forall|written: bool| #[trigger] cascade.completed(failure, written).wf(),
{
    let started = CascadeView::started(cascade.command, handler);
    assert(externals(started.handled) =~= Seq::<EnvelopeView>::empty());
    if cascade.stage is Ready && cascade.remaining.len() == 0 && cascade.queue.len() > 0 {
        lemma_recorded_taken(cascade.staged, cascade.handled, cascade.queue[0], id, now);
    }
}

/// Whatever happens to a dispatch, in whatever order:
///
/// - its state stays well formed;
/// - the events handled only grow, at the end, and are always the first of the
///   events raised, so that no event is handled before one raised earlier;
/// - while the dispatch runs, the events raised only grow, at the end;
/// - once the dispatch is over, committed or rolled back, nothing changes it
///   any more;
/// - a dispatch that was rolled back holds no written entry.
pub proof fn lemma_every_run(
    cascade: CascadeView,
    registry: HandlerRegistryView,
    policy: FailurePolicyView,
    inputs: Seq<Input>,
)
    requires
        cascade.wf(),
    ensures
        cascade.run(registry, policy, inputs).wf(),
        cascade.handled.is_prefix_of(cascade.run(registry, policy, inputs).handled),
        cascade.run(registry, policy, inputs).handled.is_prefix_of(
            cascade.run(registry, policy, inputs).raised(),
        ),
        cascade.run(registry, policy, inputs).running() ==> cascade.raised().is_prefix_of(
            cascade.run(registry, policy, inputs).raised(),
        ),
        !cascade.running() ==> cascade.run(registry, policy, inputs) == cascade,
        cascade.run(registry, policy, inputs).stage is RolledBack ==> cascade.run(
            registry,
            policy,
            inputs,
        ).staged.len() == 0,
    decreases inputs.len(),
{
    if inputs.len() > 0 {
        let next = cascade.fed(registry, policy, inputs[0]);
        let rest = inputs.drop_first();
        let last = next.run(registry, policy, rest);
        match inputs[0] {
            Input::Next { id, now } => {
                lemma_well_formed_is_kept(cascade, registry, id, now, policy, None, Seq::empty(), 0);
                lemma_dispatch_follows_raise_order(
                    cascade,
                    registry,
                    id,
                    now,
                    policy,
                    None,
                    Seq::empty(),
                );
            },
            Input::Settle { failure, collected } => {
                lemma_well_formed_is_kept(cascade, registry, 0, 0, policy, failure, collected, 0);
                lemma_dispatch_follows_raise_order(
                    cascade,
                    registry,
                    0,
                    0,
                    policy,
                    failure,
                    collected,
                );
            },
            Input::Commit { surfaced, accepted } => {
                lemma_well_formed_is_kept(cascade, registry, 0, 0, policy, None, surfaced, 0);
                if next.running() {
                    assert(cascade.raised().is_prefix_of(next.raised()));
                }
            },
            Input::Complete { failure, written } => {
                lemma_well_formed_is_kept(cascade, registry, 0, 0, policy, failure, Seq::empty(), 0);
            },
            Input::Abort { failure } => {
                lemma_well_formed_is_kept(cascade, registry, 0, 0, policy, failure, Seq::empty(), 0);
            },
        }
        lemma_every_run(next, registry, policy, rest);
        assert(cascade.handled.is_prefix_of(next.handled));
        assert(cascade.handled.is_prefix_of(last.handled));
        if last.running() {
            assert(next.running());
            assert(cascade.raised().is_prefix_of(next.raised()));
            assert(cascade.raised().is_prefix_of(last.raised()));
        }
    } else {
        assert(cascade.handled.is_prefix_of(cascade.raised()));
    }
}

/// A dispatch that ran to its end writes each event for outside consumers once.
///
/// Once the commit is decided, every event raised in the dispatch has been
/// handled. Of these events, those that notify outside consumers each have one
/// entry waiting, in the order of raising, and where the executor commits, the
/// completion adds exactly these entries to the outbox, unprocessed: the outbox
/// grows by their number, and every row that it held before is still in it.
pub proof fn lemma_commit_writes_each_external_event_once(
    cascade: CascadeView,
    store: Seq<OutboxRow>,
    after: Seq<OutboxRow>,
)
    requires
        cascade.wf(),
        cascade.stage is Committing,
        well_formed(store),
        inserted_all(store, cascade.staged) == Some(after),
    ensures
        cascade.raised() == cascade.handled,
        externals(cascade.raised()).len() <= cascade.raised().len(),
        cascade.staged.len() == externals(cascade.raised()).len(),
        forall|k: int|
            0 <= k < cascade.staged.len() ==> (#[trigger] cascade.staged[k]).records(
                externals(cascade.raised())[k],
            ),
        after.len() == store.len() + externals(cascade.raised()).len(),
        forall|row: OutboxRow|
            after.contains(row) <==> store.contains(row) || exists|k: int|
                0 <= k < cascade.staged.len() && row == fresh(#[trigger] cascade.staged[k]),
        forall|k: int|
            0 <= k < cascade.staged.len() ==> !(#[trigger] fresh(
                cascade.staged[k],
            )).entry.processed,
        cascade.flushed(None, store) == after,
        cascade.completed(None, true).stage is Committed,
{
    assert(cascade.raised() =~= cascade.handled);
    cascade.handled.lemma_filter_len(is_external());
    lemma_inserted_all_adds(store, cascade.staged, after);
}

/// A fatal failure leaves nothing behind.
///
/// Where the awaited handler fails fatally, the dispatch is rolled back: no
/// entry stays written, nothing stays queued, and from then on the bus only
/// answers that the dispatch is finished. No commit of it can be decided, and
/// completing it changes no store, whatever the executor reports. Nor is any
/// store changed where the executor fails to commit.
pub proof fn lemma_fatal_failure_persists_nothing(
    cascade: CascadeView,
    policy: FailurePolicyView,
    error: BaseErrorView,
    collected: Seq<EnvelopeView>,
    registry: HandlerRegistryView,
    id: u64,
    now: u64,
    surfaced: Seq<EnvelopeView>,
    report: Option<BaseErrorView>,
    store: Seq<OutboxRow>,
)
    requires
        cascade.wf(),
        cascade.stage is Awaiting,
        cascade.fatal(policy, error),
    ensures
        ({
            let after = cascade.settled(policy, Some(error), collected);
            &&& after.wf()
            &&& after.stage is RolledBack
            &&& after.error == Some(error)
            &&& after.staged.len() == 0
            &&& after.queue.len() == 0
            &&& after.handled == cascade.handled
            &&& after.stepped(registry, id, now) == after
            &&& after.announced(after) == ActionView::Finished
            &&& forall|accepted: bool| #[trigger] after.closed(surfaced, accepted) == after
            &&& after.flushed(report, store) == store
        }),
        forall|any: CascadeView|
            report.is_some() ==> (#[trigger] any.flushed(report, store)) == store,
{
}

/// Events are dispatched in the order in which they were raised.
///
/// What handlers raise goes to the back of the queue, and a step takes the
/// event at its front: neither changes the order of the events raised, of which
/// the events handled are always the first. So an event is handled before every
/// event raised after it, and a dispatch that ran to its end has handled the
/// events exactly in the order of raising.
pub proof fn lemma_dispatch_follows_raise_order(
    cascade: CascadeView,
    registry: HandlerRegistryView,
    id: u64,
    now: u64,
    policy: FailurePolicyView,
    failure: Option<BaseErrorView>,
    collected: Seq<EnvelopeView>,
)
    requires
        cascade.wf(),
    ensures
        cascade.handled == cascade.raised().take(cascade.handled.len() as int),
        cascade.stepped(registry, id, now).running() ==> cascade.stepped(
            registry,
            id,
            now,
        ).raised() == cascade.raised(),
        cascade.stepped(registry, id, now).handled.len() <= cascade.handled.len() + 1,
        cascade.handled.is_prefix_of(cascade.stepped(registry, id, now).handled),
        cascade.stage is Awaiting && cascade.settled(policy, failure, collected).running()
            ==> cascade.settled(policy, failure, collected).raised() == cascade.raised()
            + collected && cascade.settled(policy, failure, collected).handled == cascade.handled,
        cascade.drained() || cascade.stage is Committing ==> cascade.handled
            == cascade.raised(),
{
    let after = cascade.stepped(registry, id, now);
    assert(cascade.handled =~= cascade.raised().take(cascade.handled.len() as int));
    if after.running() {
        assert(after.raised() =~= cascade.raised());
    }
    if cascade.stage is Awaiting {
        let next = cascade.settled(policy, failure, collected);
        if next.running() {
            assert(next.raised() =~= cascade.raised() + collected);
        }
    }
    if cascade.drained() || cascade.stage is Committing {
        assert(cascade.handled =~= cascade.raised());
    }
}

/// Breadth first, not depth first: where the command's handler raises `first`
/// and `second`, and the one handler of `first` raises `third`, the events are
/// handled in the order `first`, `second`, `third`.
pub proof fn lemma_breadth_first(
    command: EnvelopeView,
    handler: usize,
    first: EnvelopeView,
    second: EnvelopeView,
    third: EnvelopeView,
    registry: HandlerRegistryView,
    policy: FailurePolicyView,
    ids: (u64, u64, u64),
    now: u64,
)
    requires
        first.internally_notifiable(),
        registry.handlers_for(first.metadata.topic).len() == 1,
        !second.internally_notifiable(),
        !third.internally_notifiable(),
        ids.0 != ids.1 && ids.0 != ids.2 && ids.1 != ids.2,
    ensures
        ({
            let begun = CascadeView::started(command, handler).stepped(registry, ids.0, now);
            let raised = begun.settled(policy, None, seq![first, second]);
            let at_first = raised.stepped(registry, ids.0, now);
            let after_first = at_first.settled(policy, None, seq![third]);
            let at_second = after_first.stepped(registry, ids.1, now);
            let at_third = at_second.stepped(registry, ids.2, now);
            &&& begun.announced(begun) == (ActionView::Invoke { handler, message: command })
            &&& at_first.current() == first
            &&& at_first.stage is Awaiting
            &&& after_first.queue == seq![second, third]
            &&& at_second.current() == second
            &&& at_third.current() == third
            &&& at_third.handled == seq![first, second, third]
            &&& at_third.drained()
        }),
{
    let begun = CascadeView::started(command, handler).stepped(registry, ids.0, now);
    let raised = begun.settled(policy, None, seq![first, second]);
    let at_first = raised.stepped(registry, ids.0, now);
    let after_first = at_first.settled(policy, None, seq![third]);
    let at_second = after_first.stepped(registry, ids.1, now);
    let at_third = at_second.stepped(registry, ids.2, now);
    assert(begun.remaining =~= seq![handler]);
    assert(raised.remaining =~= Seq::<usize>::empty());
    assert(raised.queue =~= seq![first, second]);
    assert(at_first.queue =~= seq![second]);
    assert(at_first.handled =~= seq![first]);
    assert(after_first.remaining =~= Seq::<usize>::empty());
    assert(after_first.queue =~= seq![second, third]);
    assert(at_second.queue =~= seq![third]);
    assert(at_second.handled =~= seq![first, second]);
    assert(at_third.queue =~= Seq::<EnvelopeView>::empty());
    assert(at_third.handled =~= seq![first, second, third]);
}

} // verus!
