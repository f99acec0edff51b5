//! The protobuf messages of the protocol, gathered in one place.
pub use crate::raw::events::{NewEvent, EventRecord, ResolvedIndexedEvent, ResolvedEvent};
pub use crate::raw::write::{
    OperationResult, WriteEvents, WriteEventsCompleted, DeleteStream, DeleteStreamCompleted,
};
pub use crate::raw::read::{
    ReadEventResult, ReadStreamResult, ReadAllResult, ReadEvent, ReadEventCompleted,
    ReadStreamEvents, ReadStreamEventsCompleted, ReadAllEvents, ReadAllEventsCompleted,
};
pub use crate::raw::not_handled::{NotHandledReason, NotHandled, MasterInfo};
pub use crate::raw::transactions::{
    TransactionStart, TransactionStartCompleted, TransactionWrite, TransactionWriteCompleted,
    TransactionCommit, TransactionCommitCompleted,
};
pub use crate::raw::persistent::{
    UpdatePersistentSubscriptionResult, CreatePersistentSubscriptionResult,
    DeletePersistentSubscriptionResult, NakAction, CreatePersistentSubscription,
    DeletePersistentSubscription, UpdatePersistentSubscription,
    UpdatePersistentSubscriptionCompleted, CreatePersistentSubscriptionCompleted,
    DeletePersistentSubscriptionCompleted, ConnectToPersistentSubscription,
    PersistentSubscriptionAckEvents, PersistentSubscriptionNakEvents,
    PersistentSubscriptionConfirmation, PersistentSubscriptionStreamEventAppeared,
};
pub use crate::raw::subscriptions::{
    SubscriptionDropReason, SubscribeToStream, SubscriptionConfirmation, StreamEventAppeared,
    UnsubscribeFromStream, SubscriptionDropped,
};
pub use crate::raw::scavenge::{ScavengeResult, ScavengeDatabase, ScavengeDatabaseCompleted};
