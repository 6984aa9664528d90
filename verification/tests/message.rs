use ruva_core::message::{Command, Envelope, Message, MessageKind, MessageMetadata};
use ruva_core::outbox::OutboxEntry;
use ruva_core::responses::BaseError;

fn metadata(aggregate_id: &str, topic: &str) -> MessageMetadata {
    MessageMetadata { aggregate_id: aggregate_id.to_string(), topic: topic.to_string() }
}

struct OpenAccount;

impl Command for OpenAccount {}

fn is_command<C: Command>(_: &C) -> bool {
    true
}

#[test]
fn a_command_type_carries_the_mark() {
    assert!(is_command(&OpenAccount));
}

#[test]
fn a_command_carries_no_flags() {
    let command = Envelope::command(metadata("A1", "OpenAccount"), "{\"id\":\"A1\"}".to_string());
    assert!(command.is_command());
    assert_eq!(command.kind(), MessageKind::Command);
    assert!(!command.internally_notifiable());
    assert!(!command.externally_notifiable());
    assert!(!command.is_inert());
    assert_eq!(command.topic(), "OpenAccount");
    assert_eq!(command.aggregate_id(), "A1");
    assert_eq!(command.payload(), "{\"id\":\"A1\"}");
}

#[test]
fn an_event_carries_the_flags_it_was_made_with() {
    for internal in [false, true] {
        for external in [false, true] {
            let event = Envelope::event(metadata("A1", "AccountOpened"), "{}".to_string(), internal, external);
            assert!(!event.is_command());
            assert_eq!(
                event.kind(),
                MessageKind::Event { internally_notifiable: internal, externally_notifiable: external }
            );
            assert_eq!(event.internally_notifiable(), internal);
            assert_eq!(event.externally_notifiable(), external);
            assert_eq!(event.is_inert(), !internal && !external);
        }
    }
}

#[test]
fn metadata_and_state_are_those_given() {
    let event = Envelope::event(metadata("A9", "Renamed"), "{\"name\":\"x\"}".to_string(), true, false);
    assert_eq!(event.metadata(), metadata("A9", "Renamed"));
    assert_eq!(event.state(), Ok("{\"name\":\"x\"}".to_string()));
    assert_eq!(event.state(), event.state());
}

#[test]
fn message_clone_is_equal_and_owned() {
    let event = Envelope::event(metadata("A1", "AccountOpened"), "{\"n\":1}".to_string(), true, true);
    let copy = event.message_clone().unwrap();
    assert_eq!(copy, event);
    drop(event);
    assert_eq!(copy.topic(), "AccountOpened");
    assert_eq!(copy.clone(), copy);
}

#[test]
fn to_message_of_an_event_is_the_event() {
    let event = Envelope::event(metadata("A1", "AccountOpened"), "{}".to_string(), false, true);
    let expected = event.clone();
    assert_eq!(event.to_message(), Ok(expected));
}

#[test]
fn a_command_stays_a_command_when_it_is_cloned_or_raised() {
    let command = Envelope::command(metadata("A1", "OpenAccount"), "{}".to_string());
    let copy = command.message_clone().unwrap();
    assert_eq!(copy, command);
    assert!(copy.is_command());
    let expected = command.clone();
    let message = command.to_message().unwrap();
    assert_eq!(message, expected);
    assert!(message.is_command());
    assert!(!message.is_inert());
}

#[test]
fn the_clone_of_an_event_keeps_its_flags() {
    for internal in [false, true] {
        for external in [false, true] {
            let event = Envelope::event(metadata("A1", "Moved"), "{}".to_string(), internal, external);
            let copy = event.message_clone().unwrap();
            assert_eq!(copy.internally_notifiable(), internal);
            assert_eq!(copy.externally_notifiable(), external);
            assert_eq!(copy, event);
        }
    }
}

#[test]
fn outbox_records_the_message() {
    let event = Envelope::event(metadata("A1", "AccountOpened"), "{\"n\":1}".to_string(), false, true);
    let entry: Result<OutboxEntry, BaseError> = event.outbox(5, 100);
    assert_eq!(
        entry,
        Ok(OutboxEntry::new(5, "A1".to_string(), "AccountOpened".to_string(), "{\"n\":1}".to_string(), 100))
    );
}
