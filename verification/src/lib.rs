//! A transactional command and event dispatch core for event-sourced services.
//!
//! A command is routed to its one handler, the events that the handler raises on
//! aggregates are drained breadth first through their own handlers, and the events
//! meant for outside consumers are written to an outbox in the same unit of work as
//! the state they describe.
//!
//! - `message`: commands and events as immutable values, and the trait of the
//!   domain types that become events.
//! - `aggregate`: the trait of the entities that raise events, and an aggregate
//!   over any state type.
//! - `outbox`: the entries awaiting delivery and the store that a publisher polls.
//! - `unit_of_work`: the transactional scope, from `begin` to `commit` or
//!   `rollback`.
//! - `handler`: the registry that maps topics to handlers.
//! - `messagebus`: the dispatch itself, as a sequence of decisions that the
//!   application carries out.
//! - `responses`: the failures, and the policy that tells which of them end a
//!   dispatch.
//!
//! The library decides and keeps the books; it neither runs handlers nor talks to
//! a database. Its functions are verified against their contracts, all but the
//! three in `handler` that call into the hash map, and the properties that span
//! several functions are proved as lemmas next to them.
pub mod aggregate;
pub mod handler;
pub mod message;
pub mod messagebus;
pub mod outbox;
pub mod prelude;
pub mod responses;
pub mod unit_of_work;
