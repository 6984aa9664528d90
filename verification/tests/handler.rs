use ruva_core::handler::HandlerRegistry;
use ruva_core::responses::{BaseError, ErrorKind, FailurePolicy};

#[test]
fn an_empty_registry_knows_no_topic() {
    let registry = HandlerRegistry::new();
    assert_eq!(registry.command_handler(&"OpenAccount".to_string()), None);
    assert!(registry.event_handlers(&"AccountOpened".to_string()).is_empty());
}

#[test]
fn a_command_topic_keeps_its_one_handler() {
    let mut registry = HandlerRegistry::new();
    assert!(registry.register_command_handler("OpenAccount".to_string(), 3));
    assert!(!registry.register_command_handler("OpenAccount".to_string(), 4));
    assert!(registry.register_command_handler("CloseAccount".to_string(), 5));
    assert_eq!(registry.command_handler(&"OpenAccount".to_string()), Some(3));
    assert_eq!(registry.command_handler(&"CloseAccount".to_string()), Some(5));
    assert_eq!(registry.command_handler(&"openaccount".to_string()), None);
    assert_eq!(registry.command_handler(&"".to_string()), None);
}

#[test]
fn event_handlers_come_back_in_the_order_of_registration() {
    let mut registry = HandlerRegistry::new();
    registry.register_event_handler("AccountOpened".to_string(), 9);
    registry.register_event_handler("AccountClosed".to_string(), 1);
    registry.register_event_handler("AccountOpened".to_string(), 2);
    registry.register_event_handler("AccountOpened".to_string(), 9);
    assert_eq!(registry.event_handlers(&"AccountOpened".to_string()), vec![9, 2, 9]);
    assert_eq!(registry.event_handlers(&"AccountClosed".to_string()), vec![1]);
    assert!(registry.event_handlers(&"Unknown".to_string()).is_empty());
}

#[test]
fn command_and_event_topics_do_not_mix() {
    let mut registry = HandlerRegistry::new();
    registry.register_command_handler("Same".to_string(), 1);
    registry.register_event_handler("Same".to_string(), 2);
    assert_eq!(registry.command_handler(&"Same".to_string()), Some(1));
    assert_eq!(registry.event_handlers(&"Same".to_string()), vec![2]);
}

#[test]
fn the_strict_policy_holds_every_kind_fatal() {
    let policy = FailurePolicy::strict();
    assert!(policy.is_fatal(ErrorKind::HandlerNotFound));
    assert!(policy.is_fatal(ErrorKind::Transaction));
    assert!(policy.is_fatal(ErrorKind::Database));
    assert!(policy.is_fatal(ErrorKind::Service));
    assert!(policy.is_fatal(ErrorKind::Serialization));
    assert_eq!(FailurePolicy::default(), policy);
}

#[test]
fn a_kind_that_was_marked_is_recoverable() {
    let policy = FailurePolicy::strict().recover(ErrorKind::Service);
    assert!(!policy.is_fatal(ErrorKind::Service));
    assert!(policy.is_fatal(ErrorKind::Transaction));
    assert!(policy.is_fatal(ErrorKind::HandlerNotFound));
    let wider = policy.recover(ErrorKind::Transaction).recover(ErrorKind::HandlerNotFound);
    assert!(!wider.is_fatal(ErrorKind::Service));
    assert!(!wider.is_fatal(ErrorKind::Transaction));
    assert!(!wider.is_fatal(ErrorKind::HandlerNotFound));
}

#[test]
fn database_and_serialization_failures_cannot_be_marked() {
    let policy = FailurePolicy::strict().recover(ErrorKind::Database).recover(ErrorKind::Serialization);
    assert!(policy.is_fatal(ErrorKind::Database));
    assert!(policy.is_fatal(ErrorKind::Serialization));
    assert_eq!(policy, FailurePolicy::strict());
}

#[test]
fn every_error_has_its_kind() {
    assert_eq!(BaseError::HandlerNotFound.kind(), ErrorKind::HandlerNotFound);
    assert_eq!(BaseError::TransactionError.kind(), ErrorKind::Transaction);
    assert_eq!(BaseError::DatabaseError.kind(), ErrorKind::Database);
    assert_eq!(BaseError::ServiceError(None).kind(), ErrorKind::Service);
    assert_eq!(BaseError::SerializationError.kind(), ErrorKind::Serialization);
    assert_eq!(BaseError::DatabaseError.compensation(), None);
    assert_eq!(BaseError::ServiceError(None).compensation(), None);
}
