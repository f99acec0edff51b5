//! EventStore TCP protocol: frames, protobuf payloads, adapted messages and request builders.
use vstd::prelude::*;

pub mod errors;
pub mod stream_version;
pub mod event_number;
pub mod expected_version;
pub mod log_position;
pub mod content_type;
pub mod read_direction;
pub mod wire;
pub mod raw;
pub mod auth;
pub mod package;
pub mod codec;
pub mod adapted;
pub mod failures;
pub mod builder;
pub mod client;
pub mod decoder;
pub mod commands;

pub use errors::{ErrorKind, ResultStatusKind, CodecError};
pub use stream_version::StreamVersion;
pub use event_number::EventNumber;
pub use expected_version::ExpectedVersion;
pub use log_position::LogPosition;
pub use content_type::ContentType;
pub use read_direction::ReadDirection;
pub use raw::RawMessage;
pub use raw::client_messages::{WriteEvents, ResolvedIndexedEvent, EventRecord, ReadAllEvents, NotHandledReason, MasterInfo};
pub use package::Package;
pub use auth::UsernamePassword;
pub use adapted::AdaptedMessage;

verus! {

} // verus!
