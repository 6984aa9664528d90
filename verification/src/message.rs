//! Commands and events as immutable values: who they are about, what they are
//! called, and the state they carried when they were made.
use vstd::prelude::*;

use crate::outbox::{OutboxEntry, OutboxEntryView};
use crate::responses::{BaseError, BaseErrorView};

verus! {

/// Who a message is about and what it is called. The topic is the key by which
/// handlers are found.
#[derive(Debug, PartialEq, Eq)]
pub struct MessageMetadata {
    pub aggregate_id: String,
    pub topic: String,
}

pub struct MessageMetadataView {
    pub aggregate_id: Seq<char>,
    pub topic: Seq<char>,
}

impl View for MessageMetadata {
    type V = MessageMetadataView;

    open spec fn view(&self) -> MessageMetadataView {
        MessageMetadataView { aggregate_id: self.aggregate_id@, topic: self.topic@ }
    }
}

impl Clone for MessageMetadata {
    fn clone(&self) -> (copy: MessageMetadata)
        ensures
            copy@ == self@,
    {
        MessageMetadata { aggregate_id: self.aggregate_id.clone(), topic: self.topic.clone() }
    }
}

/// The two kinds of message. Only an event says whom it notifies.
#[derive(Clone, Copy, Debug, PartialEq, Eq, Structural)]
pub enum MessageKind {
    /// An intent to change state, routed to exactly one handler.
    Command,
    /// A fact that already happened.
    Event {
        /// The event goes back into the queue of the bus that dispatches it.
        internally_notifiable: bool,
        /// The event must be written to the outbox.
        externally_notifiable: bool,
    },
}

impl MessageKind {
    pub open spec fn internal(self) -> bool {
        match self {
            MessageKind::Command => false,
            MessageKind::Event { internally_notifiable, .. } => internally_notifiable,
        }
    }

    pub open spec fn external(self) -> bool {
        match self {
            MessageKind::Command => false,
            MessageKind::Event { externally_notifiable, .. } => externally_notifiable,
        }
    }
}

/// A message as the bus carries it: metadata, the serialized state taken when the
/// message was made, and its kind. Nothing of it can be changed afterwards.
#[derive(Debug, PartialEq, Eq)]
pub struct Envelope {
    metadata: MessageMetadata,
    state: String,
    kind: MessageKind,
}

pub struct EnvelopeView {
    pub metadata: MessageMetadataView,
    pub state: Seq<char>,
    pub kind: MessageKind,
}

impl EnvelopeView {
    pub open spec fn is_command(self) -> bool {
        self.kind is Command
    }

    pub open spec fn internally_notifiable(self) -> bool {
        self.kind.internal()
    }

    pub open spec fn externally_notifiable(self) -> bool {
        self.kind.external()
    }

    /// An event that notifies nobody: it is recorded nowhere and dispatched
    /// nowhere.
    pub open spec fn is_inert(self) -> bool {
        !self.is_command() && !self.internally_notifiable() && !self.externally_notifiable()
    }

    pub open spec fn event(
        metadata: MessageMetadataView,
        state: Seq<char>,
        internally_notifiable: bool,
        externally_notifiable: bool,
    ) -> EnvelopeView {
        EnvelopeView {
            metadata,
            state,
            kind: MessageKind::Event { internally_notifiable, externally_notifiable },
        }
    }

    pub open spec fn command(metadata: MessageMetadataView, state: Seq<char>) -> EnvelopeView {
        EnvelopeView { metadata, state, kind: MessageKind::Command }
    }
}

impl View for Envelope {
    type V = EnvelopeView;

    closed spec fn view(&self) -> EnvelopeView {
        EnvelopeView { metadata: self.metadata@, state: self.state@, kind: self.kind }
    }
}

impl Clone for Envelope {
    fn clone(&self) -> (copy: Envelope)
        ensures
            copy@ == self@,
    {
        Envelope { metadata: self.metadata.clone(), state: self.state.clone(), kind: self.kind }
    }
}

impl Envelope {
    /// A command with the given metadata and state.
    pub fn command(metadata: MessageMetadata, state: String) -> (envelope: Envelope)
        ensures
            envelope@ == EnvelopeView::command(metadata@, state@),
    {
        Envelope { metadata, state, kind: MessageKind::Command }
    }

    /// An event with the given metadata, state and flags.
    pub fn event(
        metadata: MessageMetadata,
        state: String,
        internally_notifiable: bool,
        externally_notifiable: bool,
    ) -> (envelope: Envelope)
        ensures
            envelope@ == EnvelopeView::event(
                metadata@,
                state@,
                internally_notifiable,
                externally_notifiable,
            ),
    {
        Envelope {
            metadata,
            state,
            kind: MessageKind::Event { internally_notifiable, externally_notifiable },
        }
    }

    pub fn topic(&self) -> (topic: &String)
        ensures
            topic@ == self@.metadata.topic,
    {
        &self.metadata.topic
    }

    pub fn aggregate_id(&self) -> (id: &String)
        ensures
            id@ == self@.metadata.aggregate_id,
    {
        &self.metadata.aggregate_id
    }

    /// The serialized state, as it was when the message was made.
    pub fn payload(&self) -> (state: &String)
        ensures
            state@ == self@.state,
    {
        &self.state
    }

    pub fn kind(&self) -> (kind: MessageKind)
        ensures
            kind == self@.kind,
    {
        self.kind
    }

    pub fn is_command(&self) -> (b: bool)
        ensures
            b == self@.is_command(),
    {
        match self.kind {
            MessageKind::Command => true,
            MessageKind::Event { .. } => false,
        }
    }

    pub fn is_inert(&self) -> (b: bool)
        ensures
            b == self@.is_inert(),
    {
        match self.kind {
            MessageKind::Command => false,
            MessageKind::Event { internally_notifiable, externally_notifiable } => {
                !internally_notifiable && !externally_notifiable
            },
        }
    }
}

/// Whether `outcome` is what taking a message with this metadata and this
/// serialized state gives: a value that carries both, or `SerializationError`
/// where the message has no serialized state.
pub open spec fn carried_by(
    metadata: MessageMetadataView,
    state: Option<Seq<char>>,
    outcome: Result<Envelope, BaseError>,
) -> bool {
    match outcome {
        Ok(message) => state == Some(message@.state) && message@.metadata == metadata,
        Err(error) => state.is_none() && error@ == BaseErrorView::SerializationError,
    }
}

/// What a domain type offers to be raised as an event.
///
/// A type says who it is about and what it is called, and gives its serialized
/// state. Both flags are false unless the type says otherwise: a type that
/// opts into nothing is raised as an event that notifies nobody. The clone and
/// the message that is raised own their data, so that nothing done to the
/// domain value afterwards can change an event that was already raised.
pub trait Message: Sync + Send + Sized {
    /// What `metadata` returns.
    spec fn spec_metadata(&self) -> MessageMetadataView;

    /// What `state` returns: `None` where the state cannot be serialized.
    spec fn spec_state(&self) -> Option<Seq<char>>;

    /// Whether the event must be written to the outbox. It need not, unless the
    /// type says so.
    fn externally_notifiable(&self) -> (b: bool)
        default_ensures
            !b,
    {
        false
    }

    /// Whether the event goes back into the queue of the bus. It does not,
    /// unless the type says so.
    fn internally_notifiable(&self) -> (b: bool)
        default_ensures
            !b,
    {
        false
    }

    /// The aggregate that the message is about, and its topic.
    fn metadata(&self) -> (metadata: MessageMetadata)
        ensures
            metadata@ == self.spec_metadata(),
    ;

    /// The outbox entry that records the message under `id`, made at
    /// `created_at` and not yet processed.
    fn outbox(&self, id: u64, created_at: u64) -> (entry: Result<OutboxEntry, BaseError>)
        ensures
            match entry {
                Ok(e) => self.spec_state().is_some() && e@ == (OutboxEntryView {
                    id,
                    aggregate_id: self.spec_metadata().aggregate_id,
                    topic: self.spec_metadata().topic,
                    payload: self.spec_state().unwrap(),
                    processed: false,
                    created_at,
                }),
                Err(error) => self.spec_state().is_none() && error@
                    == BaseErrorView::SerializationError,
            },
    {
        match self.message_clone() {
            Ok(event) => Ok(OutboxEntry::of(&event, id, created_at)),
            Err(error) => Err(error),
        }
    }

    /// The message as a value of its own, which dispatches as `self` does and
    /// shares nothing with it: it has the metadata and the state of `self`, and
    /// the flags that `self` answers with. Unless the type says otherwise, it is
    /// an event.
    fn message_clone(&self) -> (copy: Result<Envelope, BaseError>)
        ensures
            carried_by(self.spec_metadata(), self.spec_state(), copy),
            copy matches Ok(message) ==> call_ensures(
                Self::internally_notifiable,
                (self,),
                message@.internally_notifiable(),
            ) && call_ensures(
                Self::externally_notifiable,
                (self,),
                message@.externally_notifiable(),
            ),
        default_ensures
            copy matches Ok(message) ==> !message@.is_command(),
    {
        match self.state() {
            Ok(state) => Ok(
                Envelope::event(
                    self.metadata(),
                    state,
                    self.internally_notifiable(),
                    self.externally_notifiable(),
                ),
            ),
            Err(_) => Err(BaseError::SerializationError),
        }
    }

    /// The serialized state of the message. It fails only where the state cannot
    /// be serialized, and then with `SerializationError`.
    fn state(&self) -> (state: Result<String, BaseError>)
        ensures
            match state {
                Ok(s) => self.spec_state() == Some(s@),
                Err(error) => self.spec_state().is_none() && error@
                    == BaseErrorView::SerializationError,
            },
    ;

    /// The message as the value that is raised: it has the metadata and the
    /// state of `self`, and the flags that `self` answers with. Unless the type
    /// says otherwise, it is an event.
    fn to_message(self) -> (message: Result<Envelope, BaseError>)
        ensures
            carried_by(self.spec_metadata(), self.spec_state(), message),
            message matches Ok(raised) ==> call_ensures(
                Self::internally_notifiable,
                (&self,),
                raised@.internally_notifiable(),
            ) && call_ensures(
                Self::externally_notifiable,
                (&self,),
                raised@.externally_notifiable(),
            ),
        default_ensures
            message matches Ok(raised) ==> !raised@.is_command(),
    {
        match self.state() {
            Ok(state) => Ok(
                Envelope::event(
                    self.metadata(),
                    state,
                    self.internally_notifiable(),
                    self.externally_notifiable(),
                ),
            ),
            Err(_) => Err(BaseError::SerializationError),
        }
    }
}

/// An envelope is a message in its own right: its flags are those of its kind,
/// and its clone is the same message, a command where it is a command.
impl Message for Envelope {
    open spec fn spec_metadata(&self) -> MessageMetadataView {
        self@.metadata
    }

    open spec fn spec_state(&self) -> Option<Seq<char>> {
        Some(self@.state)
    }

    fn externally_notifiable(&self) -> (b: bool)
        ensures
            b == self@.externally_notifiable(),
    {
        match self.kind {
            MessageKind::Command => false,
            MessageKind::Event { externally_notifiable, .. } => externally_notifiable,
        }
    }

    fn internally_notifiable(&self) -> (b: bool)
        ensures
            b == self@.internally_notifiable(),
    {
        match self.kind {
            MessageKind::Command => false,
            MessageKind::Event { internally_notifiable, .. } => internally_notifiable,
        }
    }

    fn metadata(&self) -> (metadata: MessageMetadata) {
        self.metadata.clone()
    }

    fn message_clone(&self) -> (copy: Result<Envelope, BaseError>)
        ensures
            copy matches Ok(message) && message@ == self@,
    {
        let internally_notifiable = self.internally_notifiable();
        let externally_notifiable = self.externally_notifiable();
        let kind = match self.kind {
            MessageKind::Command => MessageKind::Command,
            MessageKind::Event { .. } => MessageKind::Event {
                internally_notifiable,
                externally_notifiable,
            },
        };
        Ok(Envelope { metadata: self.metadata.clone(), state: self.state.clone(), kind })
    }

    fn state(&self) -> (state: Result<String, BaseError>) {
        Ok(self.state.clone())
    }

    fn to_message(self) -> (message: Result<Envelope, BaseError>)
        ensures
            message matches Ok(raised) && raised@ == self@,
    {
        self.message_clone()
    }
}

/// The mark of a domain type that is a command: an intent to change state, of
/// which each topic has exactly one handler.
pub trait Command: 'static + Send + Sync {}

/// The views of a sequence of envelopes, in the same order.
pub open spec fn views(envelopes: Seq<Envelope>) -> Seq<EnvelopeView> {
    envelopes.map_values(|e: Envelope| e@)
}

} // verus!
