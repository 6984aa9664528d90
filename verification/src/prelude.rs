//! The names that most users of the library need, in one place.
pub use crate::aggregate::{Aggregate, AggregateRoot, Buildable, Builder};
pub use crate::handler::HandlerRegistry;
pub use crate::message::{Command, Envelope, Message, MessageKind, MessageMetadata};
pub use crate::messagebus::{Action, Cascade, MessageBus, Stage};
pub use crate::outbox::{next_identifier, OutboxEntry, OutboxStore};
pub use crate::responses::{BaseError, ErrorKind, FailurePolicy};
pub use crate::unit_of_work::{TransactionState, UnitOfWork};
