use ruva_core::aggregate::{Aggregate, AggregateRoot};
use ruva_core::message::{Envelope, MessageMetadata};
use ruva_core::outbox::{OutboxEntry, OutboxStore};
use ruva_core::responses::BaseError;
use ruva_core::unit_of_work::TransactionState::{Active, Committed, Committing, Idle, RolledBack};
use ruva_core::unit_of_work::{TransactionState, UnitOfWork};

fn event(aggregate_id: &str, topic: &str) -> Envelope {
    Envelope::event(
        MessageMetadata { aggregate_id: aggregate_id.to_string(), topic: topic.to_string() },
        "{}".to_string(),
        true,
        true,
    )
}

fn entry(id: u64, created_at: u64) -> OutboxEntry {
    OutboxEntry::new(id, "A1".to_string(), "T".to_string(), "{}".to_string(), created_at)
}

fn unit() -> UnitOfWork<AggregateRoot<u32>> {
    UnitOfWork::new()
}

fn commit_all(u: &mut UnitOfWork<AggregateRoot<u32>>, store: &mut OutboxStore) -> Result<(), BaseError> {
    let surfaced = u.commit(store)?;
    assert!(surfaced.is_empty());
    u.complete(store, Ok(()))
}

#[test]
fn a_new_unit_of_work_is_idle() {
    let u = unit();
    assert_eq!(u.state(), TransactionState::Idle);
    assert!(!u.is_active());
    assert_eq!(u.touched(), 0);
}

#[test]
fn begin_opens_a_transaction_once() {
    let mut u = unit();
    assert_eq!(u.begin(), Ok(()));
    assert_eq!(u.state(), TransactionState::Active);
    assert_eq!(u.begin(), Err(BaseError::TransactionError));
    assert_eq!(u.state(), TransactionState::Active);
}

#[test]
fn begin_twice_keeps_what_the_open_transaction_holds() {
    let mut u = unit();
    u.begin().unwrap();
    u.register(AggregateRoot::new(1)).unwrap();
    assert_eq!(u.begin(), Err(BaseError::TransactionError));
    assert_eq!(u.touched(), 1);
}

#[test]
fn commit_without_begin_is_refused() {
    let mut u = unit();
    let mut store = OutboxStore::new();
    assert_eq!(u.commit(&mut store).unwrap_err(), BaseError::TransactionError);
    assert_eq!(u.state(), TransactionState::Idle);
    assert_eq!(store.len(), 0);
}

#[test]
fn rollback_on_idle_is_a_no_op() {
    let mut u = unit();
    u.rollback();
    assert_eq!(u.state(), TransactionState::Idle);
    assert_eq!(u.close(Ok(())), Ok(()));
    assert_eq!(u.state(), TransactionState::Idle);
    assert_eq!(u.close(Err(BaseError::DatabaseError)), Ok(()));
    assert_eq!(u.state(), TransactionState::Idle);
}

#[test]
fn rollback_discards_what_was_touched_and_written() {
    let mut u = unit();
    let mut store = OutboxStore::new();
    u.begin().unwrap();
    u.register(AggregateRoot::new(5)).unwrap();
    u.insert_outbox(entry(1, 10)).unwrap();
    u.rollback();
    assert_eq!(u.state(), TransactionState::RolledBack);
    assert_eq!(u.touched(), 0);
    assert_eq!(u.commit(&mut store).unwrap_err(), BaseError::TransactionError);
    assert_eq!(store.len(), 0);
    assert!(u.into_aggregates().is_empty());
}

#[test]
fn rollback_after_commit_changes_nothing() {
    let mut u = unit();
    let mut store = OutboxStore::new();
    u.begin().unwrap();
    u.insert_outbox(entry(1, 10)).unwrap();
    assert_eq!(commit_all(&mut u, &mut store), Ok(()));
    u.rollback();
    assert_eq!(u.state(), TransactionState::Committed);
    assert_eq!(store.len(), 1);
}

#[test]
fn close_rolls_an_open_transaction_back() {
    let mut u = unit();
    u.begin().unwrap();
    u.register(AggregateRoot::new(5)).unwrap();
    assert_eq!(u.close(Ok(())), Ok(()));
    assert_eq!(u.state(), TransactionState::RolledBack);
    assert_eq!(u.touched(), 0);
    assert_eq!(u.close(Ok(())), Ok(()));
    assert_eq!(u.state(), TransactionState::RolledBack);
}

#[test]
fn a_unit_of_work_can_begin_again_after_it_ended() {
    let mut u = unit();
    let mut store = OutboxStore::new();
    u.begin().unwrap();
    u.register(AggregateRoot::new(5)).unwrap();
    commit_all(&mut u, &mut store).unwrap();
    assert_eq!(u.state(), TransactionState::Committed);
    assert_eq!(u.begin(), Ok(()));
    assert_eq!(u.state(), TransactionState::Active);
    assert_eq!(u.touched(), 0);
    u.rollback();
    assert_eq!(u.begin(), Ok(()));
    assert_eq!(u.state(), TransactionState::Active);
}

#[test]
fn register_and_insert_outbox_need_an_open_transaction() {
    let mut u = unit();
    assert_eq!(u.register(AggregateRoot::new(1)), Err(BaseError::TransactionError));
    assert_eq!(u.insert_outbox(entry(1, 1)), Err(BaseError::TransactionError));
    assert_eq!(u.touched(), 0);
    u.begin().unwrap();
    assert_eq!(u.register(AggregateRoot::new(1)), Ok(0));
    assert_eq!(u.register(AggregateRoot::new(2)), Ok(1));
    assert_eq!(u.insert_outbox(entry(1, 1)), Ok(()));
    assert_eq!(*u.aggregate(1).state(), 2);
}

#[test]
fn collect_events_drains_the_aggregates_in_the_order_of_touching() {
    let mut u = unit();
    u.begin().unwrap();
    let mut first = AggregateRoot::new(1);
    first.raise_event(event("A", "a1"));
    first.raise_event(event("A", "a2"));
    let mut second = AggregateRoot::new(2);
    second.raise_event(event("B", "b1"));
    u.register(first).unwrap();
    u.register(AggregateRoot::new(3)).unwrap();
    u.register(second).unwrap();
    u.aggregate_mut(1).raise_event(event("C", "c1"));
    u.aggregate_mut(0).raise_event(event("A", "a3"));

    let topics: Vec<String> = u.collect_events().iter().map(|e| e.topic().clone()).collect();
    assert_eq!(topics, vec!["a1", "a2", "a3", "c1", "b1"]);
    assert!(u.collect_events().is_empty());
    assert_eq!(u.touched(), 3);
    assert_eq!(u.state(), TransactionState::Active);
}

#[test]
fn commit_hands_back_pending_events_before_it_commits() {
    let mut u = unit();
    let mut store = OutboxStore::new();
    u.begin().unwrap();
    let mut a = AggregateRoot::new(1);
    a.raise_event(event("A", "late"));
    u.register(a).unwrap();
    u.insert_outbox(entry(1, 10)).unwrap();

    let surfaced = u.commit(&mut store).unwrap();
    assert_eq!(surfaced.len(), 1);
    assert_eq!(surfaced[0].topic(), "late");
    assert_eq!(u.state(), TransactionState::Active);
    assert_eq!(store.len(), 0);

    assert!(u.commit(&store).unwrap().is_empty());
    assert_eq!(u.state(), TransactionState::Committing);
    assert_eq!(store.len(), 0);
    assert_eq!(u.complete(&mut store, Ok(())), Ok(()));
    assert_eq!(u.state(), TransactionState::Committed);
    assert_eq!(store.entries(), vec![entry(1, 10)]);
}

#[test]
fn commit_writes_the_entries_and_keeps_the_aggregates() {
    let mut u = unit();
    let mut store = OutboxStore::new();
    u.begin().unwrap();
    u.register(AggregateRoot::new(11)).unwrap();
    u.register(AggregateRoot::new(22)).unwrap();
    u.insert_outbox(entry(2, 20)).unwrap();
    u.insert_outbox(entry(1, 10)).unwrap();
    assert_eq!(commit_all(&mut u, &mut store), Ok(()));
    assert_eq!(u.state(), TransactionState::Committed);
    assert_eq!(store.entries(), vec![entry(1, 10), entry(2, 20)]);
    let kept: Vec<u32> = u.into_aggregates().iter().map(|a| *a.state()).collect();
    assert_eq!(kept, vec![11, 22]);
}

#[test]
fn a_commit_that_the_store_refuses_rolls_back_and_writes_nothing() {
    let mut u = unit();
    let mut store = OutboxStore::new();
    let mut earlier = unit();
    earlier.begin().unwrap();
    earlier.insert_outbox(entry(2, 5)).unwrap();
    commit_all(&mut earlier, &mut store).unwrap();
    u.begin().unwrap();
    u.register(AggregateRoot::new(11)).unwrap();
    u.insert_outbox(entry(1, 10)).unwrap();
    u.insert_outbox(entry(2, 20)).unwrap();
    assert_eq!(u.commit(&mut store).unwrap_err(), BaseError::DatabaseError);
    assert_eq!(u.state(), TransactionState::RolledBack);
    assert_eq!(u.touched(), 0);
    assert_eq!(store.entries(), vec![entry(2, 5)]);
}

#[test]
fn into_aggregates_of_an_open_transaction_is_empty() {
    let mut u = unit();
    u.begin().unwrap();
    u.register(AggregateRoot::new(11)).unwrap();
    assert!(u.into_aggregates().is_empty());
}

#[test]
fn the_states_follow_the_transitions() {
    assert_eq!(Idle.begin(), Ok(Active));
    assert_eq!(Committed.begin(), Ok(Active));
    assert_eq!(RolledBack.begin(), Ok(Active));
    assert_eq!(Active.begin(), Err(BaseError::TransactionError));

    assert_eq!(Committing.begin(), Err(BaseError::TransactionError));

    assert_eq!(Active.commit(), Ok(Committing));
    assert_eq!(Idle.commit(), Err(BaseError::TransactionError));
    assert_eq!(Committing.commit(), Err(BaseError::TransactionError));
    assert_eq!(Committed.commit(), Err(BaseError::TransactionError));
    assert_eq!(RolledBack.commit(), Err(BaseError::TransactionError));

    assert_eq!(Committing.complete(Ok(())), (Committed, Ok(())));
    assert_eq!(Committing.complete(Err(BaseError::DatabaseError)), (RolledBack, Err(BaseError::DatabaseError)));
    assert_eq!(Active.complete(Ok(())), (Active, Err(BaseError::TransactionError)));
    assert_eq!(Idle.complete(Ok(())), (Idle, Err(BaseError::TransactionError)));
    assert_eq!(Committed.complete(Err(BaseError::DatabaseError)), (Committed, Err(BaseError::TransactionError)));
    assert_eq!(RolledBack.complete(Ok(())), (RolledBack, Err(BaseError::TransactionError)));

    assert!(Active.is_open());
    assert!(Committing.is_open());
    assert!(!Idle.is_open());
    assert!(!Committed.is_open());
    assert!(!RolledBack.is_open());
    assert_eq!(Committing.rollback(), RolledBack);

    assert_eq!(Active.rollback(), RolledBack);
    assert_eq!(Idle.rollback(), Idle);
    assert_eq!(Committed.rollback(), Committed);
    assert_eq!(RolledBack.rollback(), RolledBack);

    assert_eq!(Active.close(Ok(())), (RolledBack, Ok(())));
    assert_eq!(Committing.close(Ok(())), (RolledBack, Ok(())));
    assert_eq!(Active.close(Err(BaseError::DatabaseError)), (RolledBack, Err(BaseError::DatabaseError)));
    assert_eq!(Committing.close(Err(BaseError::TransactionError)), (RolledBack, Err(BaseError::TransactionError)));
    assert_eq!(Idle.close(Ok(())), (Idle, Ok(())));
    assert_eq!(Idle.close(Err(BaseError::DatabaseError)), (Idle, Ok(())));
    assert_eq!(Committed.close(Err(BaseError::DatabaseError)), (Committed, Ok(())));
    assert_eq!(RolledBack.close(Ok(())), (RolledBack, Ok(())));
}

#[test]
fn collecting_leaves_the_domain_state_alone() {
    let mut u = unit();
    u.begin().unwrap();
    let mut a = AggregateRoot::new(41);
    a.raise_event(event("A", "a1"));
    u.register(a).unwrap();
    *u.aggregate_mut(0).state_mut() += 1;
    assert_eq!(u.collect_events().len(), 1);
    assert_eq!(*u.aggregate(0).state(), 42);
}

#[test]
fn close_reports_a_rollback_that_failed_and_closes_all_the_same() {
    let mut u = unit();
    u.begin().unwrap();
    u.register(AggregateRoot::new(5)).unwrap();
    assert_eq!(u.close(Err(BaseError::DatabaseError)), Err(BaseError::DatabaseError));
    assert_eq!(u.state(), TransactionState::RolledBack);
    assert_eq!(u.touched(), 0);
    assert!(!u.state().is_open());
}

#[test]
fn a_unit_of_work_writes_nothing_when_the_executor_fails_to_commit() {
    let mut u = unit();
    let mut store = OutboxStore::new();
    u.begin().unwrap();
    u.register(AggregateRoot::new(11)).unwrap();
    u.insert_outbox(entry(1, 10)).unwrap();
    assert!(u.commit(&store).unwrap().is_empty());
    assert_eq!(u.complete(&mut store, Err(BaseError::DatabaseError)), Err(BaseError::DatabaseError));
    assert_eq!(u.state(), TransactionState::RolledBack);
    assert_eq!(store.len(), 0);
    assert_eq!(u.touched(), 0);
    assert!(u.into_aggregates().is_empty());
}

#[test]
fn complete_needs_a_commit_that_was_decided() {
    let mut u = unit();
    let mut store = OutboxStore::new();
    assert_eq!(u.complete(&mut store, Ok(())), Err(BaseError::TransactionError));
    u.begin().unwrap();
    u.insert_outbox(entry(1, 10)).unwrap();
    assert_eq!(u.complete(&mut store, Ok(())), Err(BaseError::TransactionError));
    assert_eq!(u.state(), TransactionState::Active);
    assert_eq!(store.len(), 0);
    assert_eq!(commit_all(&mut u, &mut store), Ok(()));
    assert_eq!(u.complete(&mut store, Ok(())), Err(BaseError::TransactionError));
    assert_eq!(store.len(), 1);
}

#[test]
fn a_commit_under_way_takes_no_more_work() {
    let mut u = unit();
    let store = OutboxStore::new();
    u.begin().unwrap();
    assert!(u.commit(&store).unwrap().is_empty());
    assert_eq!(u.state(), TransactionState::Committing);
    assert_eq!(u.begin(), Err(BaseError::TransactionError));
    assert_eq!(u.commit(&store).unwrap_err(), BaseError::TransactionError);
    assert_eq!(u.register(AggregateRoot::new(1)), Err(BaseError::TransactionError));
    assert_eq!(u.insert_outbox(entry(1, 1)), Err(BaseError::TransactionError));
    assert_eq!(u.state(), TransactionState::Committing);
    u.rollback();
    assert_eq!(u.state(), TransactionState::RolledBack);
}

#[test]
fn a_store_that_changed_after_the_decision_refuses_at_the_end() {
    let mut u = unit();
    let mut store = OutboxStore::new();
    u.begin().unwrap();
    u.insert_outbox(entry(1, 10)).unwrap();
    assert!(u.commit(&store).unwrap().is_empty());
    let mut other = unit();
    other.begin().unwrap();
    other.insert_outbox(entry(1, 5)).unwrap();
    commit_all(&mut other, &mut store).unwrap();
    assert_eq!(u.complete(&mut store, Ok(())), Err(BaseError::DatabaseError));
    assert_eq!(u.state(), TransactionState::RolledBack);
    assert_eq!(store.entries(), vec![entry(1, 5)]);
}
