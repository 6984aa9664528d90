//! The failures that a dispatch can end in, and the policy that tells the fatal
//! ones from those that are only recorded.
use vstd::prelude::*;

use crate::message::{Envelope, EnvelopeView};

verus! {

/// The kinds of failure, without what a failure carries.
#[derive(Clone, Copy, Debug, PartialEq, Eq, Structural)]
pub enum ErrorKind {
    HandlerNotFound,
    Transaction,
    Database,
    Service,
    Serialization,
}

/// A failure reported by the bus, the unit of work, the outbox or a handler.
#[derive(Debug, PartialEq, Eq)]
pub enum BaseError {
    /// No handler is registered for the topic of a command.
    HandlerNotFound,
    /// A transaction was begun twice, or committed without having been begun.
    TransactionError,
    /// The executor or the outbox could not do its work.
    DatabaseError,
    /// A handler found a business rule broken. It may carry a compensating
    /// event, which the bus records before it rolls back.
    ServiceError(Option<Envelope>),
    /// The state of a message could not be produced.
    SerializationError,
}

/// What a `BaseError` stands for in contracts.
pub enum BaseErrorView {
    HandlerNotFound,
    TransactionError,
    DatabaseError,
    ServiceError(Option<EnvelopeView>),
    SerializationError,
}

impl BaseErrorView {
    pub open spec fn kind(self) -> ErrorKind {
        match self {
            BaseErrorView::HandlerNotFound => ErrorKind::HandlerNotFound,
            BaseErrorView::TransactionError => ErrorKind::Transaction,
            BaseErrorView::DatabaseError => ErrorKind::Database,
            BaseErrorView::ServiceError(_) => ErrorKind::Service,
            BaseErrorView::SerializationError => ErrorKind::Serialization,
        }
    }

    /// The compensating event that a service error carries, if any.
    pub open spec fn compensation(self) -> Option<EnvelopeView> {
        match self {
            BaseErrorView::ServiceError(event) => event,
            _ => None,
        }
    }
}

impl View for BaseError {
    type V = BaseErrorView;

    open spec fn view(&self) -> BaseErrorView {
        match self {
            BaseError::HandlerNotFound => BaseErrorView::HandlerNotFound,
            BaseError::TransactionError => BaseErrorView::TransactionError,
            BaseError::DatabaseError => BaseErrorView::DatabaseError,
            BaseError::ServiceError(event) => BaseErrorView::ServiceError(
                match event {
                    Some(e) => Some(e@),
                    None => None,
                },
            ),
            BaseError::SerializationError => BaseErrorView::SerializationError,
        }
    }
}

/// What an outcome reports, as contracts see it: `None` for success.
pub open spec fn failure_of(outcome: Result<(), BaseError>) -> Option<BaseErrorView> {
    match outcome {
        Ok(_) => None,
        Err(error) => Some(error@),
    }
}

impl Clone for BaseError {
    fn clone(&self) -> (copy: BaseError)
        ensures
            copy@ == self@,
    {
        match self {
            BaseError::HandlerNotFound => BaseError::HandlerNotFound,
            BaseError::TransactionError => BaseError::TransactionError,
            BaseError::DatabaseError => BaseError::DatabaseError,
            BaseError::ServiceError(Some(event)) => BaseError::ServiceError(Some(event.clone())),
            BaseError::ServiceError(None) => BaseError::ServiceError(None),
            BaseError::SerializationError => BaseError::SerializationError,
        }
    }
}

impl BaseError {
    pub fn kind(&self) -> (k: ErrorKind)
        ensures
            k == self@.kind(),
    {
        match self {
            BaseError::HandlerNotFound => ErrorKind::HandlerNotFound,
            BaseError::TransactionError => ErrorKind::Transaction,
            BaseError::DatabaseError => ErrorKind::Database,
            BaseError::ServiceError(_) => ErrorKind::Service,
            BaseError::SerializationError => ErrorKind::Serialization,
        }
    }

    /// A copy of the compensating event that a service error carries.
    pub fn compensation(&self) -> (event: Option<Envelope>)
        ensures
            match event {
                Some(e) => self@.compensation() == Some(e@),
                None => self@.compensation().is_none(),
            },
    {
        match self {
            BaseError::ServiceError(Some(e)) => Some(e.clone()),
            _ => None,
        }
    }
}

/// Which kinds of failure a cascade survives.
///
/// Every kind is fatal unless it was marked recoverable. Database and
/// serialization failures cannot be marked: they are fatal under every policy.
#[derive(Clone, Copy, Debug, PartialEq, Eq, Structural)]
pub struct FailurePolicy {
    handler_not_found: bool,
    transaction: bool,
    service: bool,
}

/// A policy as a function from kinds to "recoverable".
pub struct FailurePolicyView {
    pub handler_not_found: bool,
    pub transaction: bool,
    pub service: bool,
}

impl FailurePolicyView {
    pub open spec fn strict() -> FailurePolicyView {
        FailurePolicyView { handler_not_found: false, transaction: false, service: false }
    }

    pub open spec fn is_fatal(self, kind: ErrorKind) -> bool {
        match kind {
            ErrorKind::HandlerNotFound => !self.handler_not_found,
            ErrorKind::Transaction => !self.transaction,
            ErrorKind::Database => true,
            ErrorKind::Service => !self.service,
            ErrorKind::Serialization => true,
        }
    }

    pub open spec fn recover(self, kind: ErrorKind) -> FailurePolicyView {
        match kind {
            ErrorKind::HandlerNotFound => FailurePolicyView { handler_not_found: true, ..self },
            ErrorKind::Transaction => FailurePolicyView { transaction: true, ..self },
            ErrorKind::Service => FailurePolicyView { service: true, ..self },
            ErrorKind::Database => self,
            ErrorKind::Serialization => self,
        }
    }
}

impl View for FailurePolicy {
    type V = FailurePolicyView;

    closed spec fn view(&self) -> FailurePolicyView {
        FailurePolicyView {
            handler_not_found: self.handler_not_found,
            transaction: self.transaction,
            service: self.service,
        }
    }
}

impl FailurePolicy {
    /// The policy under which every failure is fatal.
    pub fn strict() -> (policy: FailurePolicy)
        ensures
            policy@ == FailurePolicyView::strict(),
    {
        FailurePolicy { handler_not_found: false, transaction: false, service: false }
    }

    /// This policy with `kind` marked recoverable, where it can be.
    pub fn recover(self, kind: ErrorKind) -> (policy: FailurePolicy)
        ensures
            policy@ == self@.recover(kind),
    {
        match kind {
            ErrorKind::HandlerNotFound => FailurePolicy {
                handler_not_found: true,
                transaction: self.transaction,
                service: self.service,
            },
            ErrorKind::Transaction => FailurePolicy {
                handler_not_found: self.handler_not_found,
                transaction: true,
                service: self.service,
            },
            ErrorKind::Service => FailurePolicy {
                handler_not_found: self.handler_not_found,
                transaction: self.transaction,
                service: true,
            },
            ErrorKind::Database => self,
            ErrorKind::Serialization => self,
        }
    }

    pub fn is_fatal(&self, kind: ErrorKind) -> (fatal: bool)
        ensures
            fatal == self@.is_fatal(kind),
    {
        match kind {
            ErrorKind::HandlerNotFound => !self.handler_not_found,
            ErrorKind::Transaction => !self.transaction,
            ErrorKind::Database => true,
            ErrorKind::Service => !self.service,
            ErrorKind::Serialization => true,
        }
    }
}

impl Default for FailurePolicy {
    fn default() -> (policy: FailurePolicy)
        ensures
            policy@ == FailurePolicyView::strict(),
    {
        FailurePolicy::strict()
    }
}

/// Database and serialization failures are fatal whatever was marked.
pub proof fn lemma_database_always_fatal(policy: FailurePolicyView, kind: ErrorKind)
    ensures
        policy.recover(kind).is_fatal(ErrorKind::Database),
        policy.recover(kind).is_fatal(ErrorKind::Serialization),
        FailurePolicyView::strict().is_fatal(kind),
{
}

} // verus!
