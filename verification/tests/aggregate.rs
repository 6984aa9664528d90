use ruva_core::aggregate::{Aggregate, AggregateRoot, Buildable, Builder};
use ruva_core::message::{Envelope, MessageMetadata};
use serde_json::Value;

#[derive(Default, Debug)]
struct SampleAggregate {
    id: String,
    entity: Vec<Entity>,
}

#[derive(Default, Debug)]
struct Entity {
    id: i64,
    sub_entity: Vec<SubEntity>,
}

#[derive(Default, Debug)]
struct SubEntity {
    id: i64,
}

fn event(aggregate_id: &str, topic: &str, state: &str) -> Envelope {
    Envelope::event(
        MessageMetadata { aggregate_id: aggregate_id.to_string(), topic: topic.to_string() },
        state.to_string(),
        true,
        false,
    )
}

#[test]
fn test_aggregate_macro() {
    let mut aggregate = AggregateRoot::<SampleAggregate>::default();
    let mut entity = Entity::default();
    entity.sub_entity.push(SubEntity { id: 1 });
    aggregate.state_mut().entity.push(entity);

    let entities: Vec<Value> = aggregate
        .state()
        .entity
        .iter()
        .map(|entity| {
            let sub_entities: Vec<Value> = entity
                .sub_entity
                .iter()
                .map(|sub_entity| {
                    let mut fields = serde_json::Map::new();
                    fields.insert("id".to_string(), Value::from(sub_entity.id));
                    Value::Object(fields)
                })
                .collect();
            let mut fields = serde_json::Map::new();
            fields.insert("id".to_string(), Value::from(entity.id));
            fields.insert("sub_entity".to_string(), Value::Array(sub_entities));
            Value::Object(fields)
        })
        .collect();
    let mut fields = serde_json::Map::new();
    fields.insert("id".to_string(), Value::from(aggregate.state().id.clone()));
    fields.insert("entity".to_string(), Value::Array(entities));
    let value = Value::Object(fields);

    let res = serde_json::to_string(&value).unwrap();
    println!("{:?}", res);
    assert_eq!(serde_json::from_str::<Value>(&res).unwrap(), value);
    assert!(res.contains("\"sub_entity\":[{\"id\":1}]"));
    assert!(!res.contains("events"));
    assert_eq!(aggregate.state().entity.len(), 1);
    assert_eq!(aggregate.state().entity[0].id, 0);
    assert_eq!(aggregate.state().entity[0].sub_entity[0].id, 1);
    assert_eq!(aggregate.state().id, "");
    assert!(aggregate.events().is_empty());
}

#[test]
fn builder_builds_the_default_aggregate() {
    let aggregate: AggregateRoot<SampleAggregate> = Builder::new().build();
    assert_eq!(aggregate.state().id, "");
    assert!(aggregate.state().entity.is_empty());
    assert_eq!(aggregate.events().len(), 0);

    let from_default: AggregateRoot<SampleAggregate> = Builder::default().build();
    assert_eq!(from_default.events().len(), 0);

    let built = <AggregateRoot<SampleAggregate> as Buildable<AggregateRoot<SampleAggregate>>>::builder()
        .build();
    assert_eq!(built.events().len(), 0);

    let mut given = Builder(AggregateRoot::new(SampleAggregate { id: "S1".to_string(), entity: vec![] }));
    given.0.raise_event(event("S1", "Made", "{}"));
    let kept = given.build();
    assert_eq!(kept.state().id, "S1");
    assert_eq!(kept.events().len(), 1);
}

#[test]
fn raise_event_appends_in_order_and_events_only_peeks() {
    let mut aggregate = AggregateRoot::new(7u32);
    aggregate.raise_event(event("A", "First", "1"));
    aggregate.raise_event(event("A", "Second", "2"));
    aggregate.raise_event(event("A", "Third", "3"));

    let topics: Vec<String> = aggregate.events().iter().map(|e| e.topic().clone()).collect();
    assert_eq!(topics, vec!["First", "Second", "Third"]);
    assert_eq!(aggregate.events().len(), 3);
    assert_eq!(aggregate.events().len(), 3);
    assert_eq!(*aggregate.state(), 7);
}

#[test]
fn collect_events_twice_returns_everything_then_nothing() {
    let mut aggregate = AggregateRoot::new(0u8);
    aggregate.raise_event(event("A", "First", "1"));
    aggregate.raise_event(event("A", "Second", "2"));

    let first = aggregate.collect_events();
    let second = aggregate.collect_events();

    assert_eq!(first.len(), 2);
    assert_eq!(first[0], event("A", "First", "1"));
    assert_eq!(first[1], event("A", "Second", "2"));
    assert!(second.is_empty());
    assert!(aggregate.events().is_empty());
}

#[test]
fn collect_events_on_a_fresh_aggregate_is_empty() {
    let mut aggregate = AggregateRoot::new(0u8);
    assert!(aggregate.collect_events().is_empty());
    assert!(aggregate.take_events().is_empty());
}

#[test]
fn take_events_moves_the_queue_out() {
    let mut aggregate = AggregateRoot::new(0u8);
    aggregate.raise_event(event("A", "Only", "x"));
    let taken = aggregate.take_events();
    assert_eq!(taken.len(), 1);
    assert_eq!(taken[0].topic(), "Only");
    assert!(aggregate.events().is_empty());
}

#[test]
fn replace_state_keeps_the_pending_events() {
    let mut aggregate = AggregateRoot::new(1u32);
    aggregate.raise_event(event("A", "Only", "x"));
    let former = aggregate.replace_state(2);
    assert_eq!(former, 1);
    assert_eq!(*aggregate.state(), 2);
    assert_eq!(aggregate.events().len(), 1);
    *aggregate.state_mut() += 40;
    assert_eq!(*aggregate.state(), 42);
    assert_eq!(aggregate.events().len(), 1);
}
