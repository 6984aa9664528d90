use ruva_core::aggregate::{Aggregate, AggregateRoot};
use ruva_core::handler::HandlerRegistry;
use ruva_core::message::{Envelope, MessageMetadata};
use ruva_core::messagebus::{Action, Cascade, MessageBus, Stage};
use ruva_core::outbox::OutboxStore;
use ruva_core::responses::{BaseError, FailurePolicy};

#[derive(Default, Debug, Clone, PartialEq)]
struct Account {
    id: String,
    open: bool,
    welcomed: bool,
}

type Root = AggregateRoot<Account>;
type Handler = fn(&Envelope, &mut Cascade<Root>, &Vec<Account>) -> Result<(), BaseError>;

fn metadata(aggregate_id: &str, topic: &str) -> MessageMetadata {
    MessageMetadata { aggregate_id: aggregate_id.to_string(), topic: topic.to_string() }
}

fn load(cascade: &mut Cascade<Root>, persisted: &Vec<Account>, id: &str) -> usize {
    for i in 0..cascade.touched() {
        if cascade.aggregate(i).state().id == id {
            return i;
        }
    }
    let state = persisted
        .iter()
        .find(|a| a.id == id)
        .cloned()
        .unwrap_or(Account { id: id.to_string(), open: false, welcomed: false });
    cascade.register(AggregateRoot::new(state)).unwrap()
}

fn open_account(command: &Envelope, cascade: &mut Cascade<Root>, persisted: &Vec<Account>) -> Result<(), BaseError> {
    let id = command.aggregate_id().clone();
    let at = load(cascade, persisted, &id);
    let account = cascade.aggregate_mut(at);
    account.state_mut().open = true;
    account.raise_event(Envelope::event(metadata(&id, "AccountOpened"), format!("{{\"id\":\"{}\"}}", id), true, true));
    Ok(())
}

fn queue_welcome_email(event: &Envelope, cascade: &mut Cascade<Root>, persisted: &Vec<Account>) -> Result<(), BaseError> {
    let id = event.aggregate_id().clone();
    let at = load(cascade, persisted, &id);
    let account = cascade.aggregate_mut(at);
    account.state_mut().welcomed = true;
    account.raise_event(Envelope::event(metadata(&id, "WelcomeEmailQueued"), "{}".to_string(), false, true));
    Ok(())
}

fn close_account(command: &Envelope, cascade: &mut Cascade<Root>, persisted: &Vec<Account>) -> Result<(), BaseError> {
    let id = command.aggregate_id().clone();
    let at = load(cascade, persisted, &id);
    let account = cascade.aggregate_mut(at);
    account.state_mut().open = false;
    account.raise_event(Envelope::event(metadata(&id, "AccountClosed"), "{}".to_string(), true, true));
    Err(BaseError::ServiceError(None))
}

fn bus() -> (MessageBus, Vec<Handler>) {
    let handlers: Vec<Handler> = vec![open_account, queue_welcome_email, close_account];
    let mut registry = HandlerRegistry::new();
    assert!(registry.register_command_handler("OpenAccount".to_string(), 0));
    registry.register_event_handler("AccountOpened".to_string(), 1);
    assert!(registry.register_command_handler("CloseAccount".to_string(), 2));
    (MessageBus::new(registry, FailurePolicy::strict()), handlers)
}

fn staged(cascade: &Cascade<Root>, persisted: &Vec<Account>) -> Vec<Account> {
    let mut next = persisted.clone();
    for i in 0..cascade.touched() {
        let state = cascade.aggregate(i).state().clone();
        match next.iter_mut().find(|a| a.id == state.id) {
            Some(slot) => *slot = state,
            None => next.push(state),
        }
    }
    next
}

fn execute(
    bus: &MessageBus,
    handlers: &Vec<Handler>,
    command: Envelope,
    persisted: &mut Vec<Account>,
    store: &mut OutboxStore,
    clock: &mut u64,
) -> Result<(), BaseError> {
    let mut cascade = bus.execute::<Root>(command)?;
    loop {
        *clock += 1;
        match bus.next(&mut cascade, *clock, *clock) {
            Action::Invoke { handler, message } => {
                let outcome = handlers[handler](&message, &mut cascade, persisted);
                assert!(bus.settle(&mut cascade, outcome));
            }
            Action::Continue => {}
            Action::Commit => {
                let _ = cascade.commit(store);
            }
            Action::Complete => {
                *persisted = staged(&cascade, persisted);
                let _ = cascade.complete(store, Ok(()));
            }
            Action::Finished => break,
        }
    }
    if cascade.stage() == Stage::Committed {
        Ok(())
    } else {
        match cascade.error() {
            Some(error) => Err(error.clone()),
            None => panic!("the dispatch ended without a failure"),
        }
    }
}

#[test]
fn opening_an_account_writes_two_outbox_entries() {
    let (bus, handlers) = bus();
    let mut persisted = Vec::new();
    let mut store = OutboxStore::new();
    let mut clock = 0;

    let command = Envelope::command(metadata("A1", "OpenAccount"), "{\"id\":\"A1\"}".to_string());
    assert_eq!(execute(&bus, &handlers, command, &mut persisted, &mut store, &mut clock), Ok(()));

    let entries = store.entries();
    assert_eq!(entries.len(), 2);
    assert_eq!(entries[0].topic(), "AccountOpened");
    assert_eq!(entries[1].topic(), "WelcomeEmailQueued");
    assert!(entries.iter().all(|e| e.aggregate_id() == "A1"));
    assert!(entries.iter().all(|e| !e.processed()));
    assert_eq!(entries[0].payload(), "{\"id\":\"A1\"}");
    assert_eq!(store.fetch_unprocessed(10).len(), 2);
    assert_eq!(persisted, vec![Account { id: "A1".to_string(), open: true, welcomed: true }]);
}

#[test]
fn a_service_error_leaves_the_persisted_state_and_the_outbox_untouched() {
    let (bus, handlers) = bus();
    let mut persisted = Vec::new();
    let mut store = OutboxStore::new();
    let mut clock = 0;
    let open = Envelope::command(metadata("A1", "OpenAccount"), "{}".to_string());
    execute(&bus, &handlers, open, &mut persisted, &mut store, &mut clock).unwrap();
    let state_before = persisted.clone();
    let outbox_before = store.entries();

    let close = Envelope::command(metadata("A1", "CloseAccount"), "{}".to_string());
    let result = execute(&bus, &handlers, close, &mut persisted, &mut store, &mut clock);

    assert_eq!(result, Err(BaseError::ServiceError(None)));
    assert_eq!(persisted, state_before);
    assert!(persisted[0].open);
    assert_eq!(store.entries(), outbox_before);
}

#[test]
fn a_service_error_in_the_first_command_creates_no_outbox_entry() {
    let (bus, handlers) = bus();
    let mut persisted = vec![Account { id: "A1".to_string(), open: true, welcomed: false }];
    let mut store = OutboxStore::new();
    let mut clock = 0;
    let close = Envelope::command(metadata("A1", "CloseAccount"), "{}".to_string());
    let result = execute(&bus, &handlers, close, &mut persisted, &mut store, &mut clock);
    assert_eq!(result, Err(BaseError::ServiceError(None)));
    assert_eq!(persisted, vec![Account { id: "A1".to_string(), open: true, welcomed: false }]);
    assert_eq!(store.len(), 0);
}

#[test]
fn a_command_without_a_handler_opens_no_transaction() {
    let (bus, handlers) = bus();
    let mut persisted = Vec::new();
    let mut store = OutboxStore::new();
    let mut clock = 0;
    let unknown = Envelope::command(metadata("A1", "FreezeAccount"), "{}".to_string());
    let result = execute(&bus, &handlers, unknown, &mut persisted, &mut store, &mut clock);
    assert_eq!(result, Err(BaseError::HandlerNotFound));
    assert_eq!(clock, 0);
    assert!(persisted.is_empty());
    assert_eq!(store.len(), 0);
}

#[test]
fn a_publisher_claims_processes_and_marks() {
    let (bus, handlers) = bus();
    let mut persisted = Vec::new();
    let mut store = OutboxStore::new();
    let mut clock = 0;
    for id in ["A1", "A2"] {
        let command = Envelope::command(metadata(id, "OpenAccount"), "{}".to_string());
        execute(&bus, &handlers, command, &mut persisted, &mut store, &mut clock).unwrap();
    }
    assert_eq!(store.len(), 4);

    let mut delivered = Vec::new();
    loop {
        let batch = store.fetch_unprocessed(3);
        if batch.is_empty() {
            break;
        }
        for entry in batch {
            delivered.push((entry.aggregate_id().clone(), entry.topic().clone()));
            store.mark_processed(entry.id());
        }
    }
    assert_eq!(
        delivered,
        vec![
            ("A1".to_string(), "AccountOpened".to_string()),
            ("A1".to_string(), "WelcomeEmailQueued".to_string()),
            ("A2".to_string(), "AccountOpened".to_string()),
            ("A2".to_string(), "WelcomeEmailQueued".to_string()),
        ]
    );
    assert_eq!(store.len(), 4);
    assert!(store.entries().iter().all(|e| e.processed()));
}
