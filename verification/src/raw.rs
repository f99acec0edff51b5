//! The messages of the protocol as they stand on the wire.
use vstd::prelude::*;
use vstd::slice::slice_to_vec;
use vstd::utf8::{valid_utf8, decode_utf8};
use crate::errors::{ErrorKind, CodecError};
use crate::read_direction::ReadDirection;
use crate::wire::copy_string;
use crate::raw::write::{
    WriteEvents, WriteEventsModel, write_events_decode, write_events_encode, write_events_wf,
    lemma_write_events_roundtrip, WriteEventsCompleted, WriteEventsCompletedModel,
    write_events_completed_decode, write_events_completed_encode, write_events_completed_wf,
    lemma_write_events_completed_roundtrip, DeleteStream, DeleteStreamModel, delete_stream_decode,
    delete_stream_encode, delete_stream_wf, lemma_delete_stream_roundtrip, DeleteStreamCompleted,
    DeleteStreamCompletedModel, delete_stream_completed_decode, delete_stream_completed_encode,
    delete_stream_completed_wf, lemma_delete_stream_completed_roundtrip,
};
use crate::raw::read::{
    ReadEvent, ReadEventModel, read_event_decode, read_event_encode, read_event_wf,
    lemma_read_event_roundtrip, ReadEventCompleted, ReadEventCompletedModel,
    read_event_completed_decode, read_event_completed_encode, read_event_completed_wf,
    lemma_read_event_completed_roundtrip, ReadStreamEvents, ReadStreamEventsModel,
    read_stream_events_decode, read_stream_events_encode, read_stream_events_wf,
    lemma_read_stream_events_roundtrip, ReadStreamEventsCompleted, ReadStreamEventsCompletedModel,
    read_stream_events_completed_decode, read_stream_events_completed_encode,
    read_stream_events_completed_wf, lemma_read_stream_events_completed_roundtrip, ReadAllEvents,
    ReadAllEventsModel, read_all_events_decode, read_all_events_encode, read_all_events_wf,
    lemma_read_all_events_roundtrip, ReadAllEventsCompleted, ReadAllEventsCompletedModel,
    read_all_events_completed_decode, read_all_events_completed_encode,
    read_all_events_completed_wf, lemma_read_all_events_completed_roundtrip,
};
use crate::raw::not_handled::{
    NotHandled, NotHandledModel, not_handled_decode, not_handled_encode, not_handled_wf,
    lemma_not_handled_roundtrip,
};

pub mod events;
pub mod write;
pub mod read;
pub mod not_handled;
pub mod transactions;
pub mod persistent;
pub mod subscriptions;
pub mod scavenge;
pub mod client_messages;
pub mod client_messages_ext;

verus! {

/// Fallible conversion of bytes into a string, giving the bytes back when they are not UTF-8.
pub trait ByteWrapper: Sized + View<V = Seq<u8>> {
    /// The string that the bytes encode, or the wrapper unchanged and `InvalidUtf8`.
    fn into_str_wrapper(self) -> (res: Result<String, (Self, ErrorKind)>)
        ensures
            valid_utf8(self@) ==> (res matches Ok(s) && s@ == decode_utf8(self@)),
            !valid_utf8(self@) ==> (res matches Err((w, e)) && w@ == self@ && e
                == ErrorKind::InvalidUtf8),
    ;
}

/// Newtype for an arbitrary NotAuthenticated "info", which could be a UTF-8 string.
#[derive(Debug, Clone, PartialEq)]
pub struct NotAuthenticatedPayload(Vec<u8>);

impl View for NotAuthenticatedPayload {
    type V = Seq<u8>;

    closed spec fn view(&self) -> Seq<u8> {
        self.0@
    }
}

impl NotAuthenticatedPayload {
    /// Wraps the bytes.
    pub fn from_bytes(bytes: Vec<u8>) -> (p: NotAuthenticatedPayload)
        ensures
            p@ == bytes@,
    {
        NotAuthenticatedPayload(bytes)
    }

    /// The bytes wrapped.
    pub fn as_ref(&self) -> (b: &[u8])
        ensures
            b@ == self@,
    {
        self.0.as_slice()
    }

    /// Unwraps the bytes.
    pub fn into_bytes(self) -> (b: Vec<u8>)
        ensures
            b@ == self@,
    {
        self.0
    }
}

impl ByteWrapper for NotAuthenticatedPayload {
    fn into_str_wrapper(self) -> (res: Result<String, (Self, ErrorKind)>) {
        match copy_string(self.0.as_slice(), 0, self.0.len()) {
            Some(s) => {
                assert(self.0@.subrange(0, self.0@.len() as int) =~= self.0@);
                Ok(s)
            },
            None => {
                assert(self.0@.subrange(0, self.0@.len() as int) =~= self.0@);
                Err((self, ErrorKind::InvalidUtf8))
            },
        }
    }
}

/// Newtype for an arbitrary BadRequest "info", which could be a UTF-8 string.
#[derive(Debug, Clone, PartialEq)]
pub struct BadRequestPayload(Vec<u8>);

impl View for BadRequestPayload {
    type V = Seq<u8>;

    closed spec fn view(&self) -> Seq<u8> {
        self.0@
    }
}

impl BadRequestPayload {
    /// Wraps the bytes.
    pub fn from_bytes(bytes: Vec<u8>) -> (p: BadRequestPayload)
        ensures
            p@ == bytes@,
    {
        BadRequestPayload(bytes)
    }

    /// The bytes wrapped.
    pub fn as_ref(&self) -> (b: &[u8])
        ensures
            b@ == self@,
    {
        self.0.as_slice()
    }

    /// Unwraps the bytes.
    pub fn into_bytes(self) -> (b: Vec<u8>)
        ensures
            b@ == self@,
    {
        self.0
    }
}

impl ByteWrapper for BadRequestPayload {
    fn into_str_wrapper(self) -> (res: Result<String, (Self, ErrorKind)>) {
        match copy_string(self.0.as_slice(), 0, self.0.len()) {
            Some(s) => {
                assert(self.0@.subrange(0, self.0@.len() as int) =~= self.0@);
                Ok(s)
            },
            None => {
                assert(self.0@.subrange(0, self.0@.len() as int) =~= self.0@);
                Err((self, ErrorKind::InvalidUtf8))
            },
        }
    }
}

/// Messages of the protocol with their payloads as they stand on the wire.
#[derive(Debug, Clone, PartialEq)]
pub enum RawMessage {
    /// Requests heartbeat from the other side.
    HeartbeatRequest,
    /// Response to a heartbeat request.
    HeartbeatResponse,
    /// Ping request, similar to heartbeat.
    Ping,
    /// Ping response.
    Pong,
    /// Append to stream request
    WriteEvents(WriteEvents),
    /// Append to stream response, which can fail for a number of reasons
    WriteEventsCompleted(WriteEventsCompleted),
    /// Request to delete a stream
    DeleteStream(DeleteStream),
    /// Response to a stream deletion
    DeleteStreamCompleted(DeleteStreamCompleted),
    /// Request to read a single event from a stream
    ReadEvent(ReadEvent),
    /// Response to a single event read
    ReadEventCompleted(ReadEventCompleted),
    /// Request to read a stream from a point forward or backward
    ReadStreamEvents(ReadDirection, ReadStreamEvents),
    /// Response to a stream read in given direction
    ReadStreamEventsCompleted(ReadDirection, ReadStreamEventsCompleted),
    /// Request to read a stream of all events from a position forward or backward
    ReadAllEvents(ReadDirection, ReadAllEvents),
    /// Response to a read all in given direction
    ReadAllEventsCompleted(ReadDirection, ReadAllEventsCompleted),
    /// Request was not understood.
    BadRequest(BadRequestPayload),
    /// Correlated request was not handled. This is the likely response to requests where
    /// `require_master` is `true`, but the connected endpoint is not master and cannot reach it.
    NotHandled(NotHandled),
    /// Request to authenticate attached credentials.
    Authenticate,
    /// Positive authentication response. The credentials used to `Authenticate` previously can be
    /// used in successive requests.
    Authenticated,
    /// Negative authentication response, or response to any sent request for which used
    /// authentication was not accepted. May contain a reason.
    NotAuthenticated(NotAuthenticatedPayload),
    /// Placeholder for a discriminator and the undecoded bytes
    Unsupported(u8, Vec<u8>),
}

/// The contents of a `RawMessage`.
pub enum RawMessageModel {
    HeartbeatRequest,
    HeartbeatResponse,
    Ping,
    Pong,
    WriteEvents(WriteEventsModel),
    WriteEventsCompleted(WriteEventsCompletedModel),
    DeleteStream(DeleteStreamModel),
    DeleteStreamCompleted(DeleteStreamCompletedModel),
    ReadEvent(ReadEventModel),
    ReadEventCompleted(ReadEventCompletedModel),
    ReadStreamEvents(ReadDirection, ReadStreamEventsModel),
    ReadStreamEventsCompleted(ReadDirection, ReadStreamEventsCompletedModel),
    ReadAllEvents(ReadDirection, ReadAllEventsModel),
    ReadAllEventsCompleted(ReadDirection, ReadAllEventsCompletedModel),
    BadRequest(Seq<u8>),
    NotHandled(NotHandledModel),
    Authenticate,
    Authenticated,
    NotAuthenticated(Seq<u8>),
    Unsupported(u8, Seq<u8>),
}

impl View for RawMessage {
    type V = RawMessageModel;

    open spec fn view(&self) -> RawMessageModel {
        match self {
            RawMessage::HeartbeatRequest => RawMessageModel::HeartbeatRequest,
            RawMessage::HeartbeatResponse => RawMessageModel::HeartbeatResponse,
            RawMessage::Ping => RawMessageModel::Ping,
            RawMessage::Pong => RawMessageModel::Pong,
            RawMessage::WriteEvents(x) => RawMessageModel::WriteEvents(x@),
            RawMessage::WriteEventsCompleted(x) => RawMessageModel::WriteEventsCompleted(x@),
            RawMessage::DeleteStream(x) => RawMessageModel::DeleteStream(x@),
            RawMessage::DeleteStreamCompleted(x) => RawMessageModel::DeleteStreamCompleted(x@),
            RawMessage::ReadEvent(x) => RawMessageModel::ReadEvent(x@),
            RawMessage::ReadEventCompleted(x) => RawMessageModel::ReadEventCompleted(x@),
            RawMessage::ReadStreamEvents(dir, x) => RawMessageModel::ReadStreamEvents(*dir, x@),
            RawMessage::ReadStreamEventsCompleted(dir, x) => RawMessageModel::ReadStreamEventsCompleted(*dir, x@),
            RawMessage::ReadAllEvents(dir, x) => RawMessageModel::ReadAllEvents(*dir, x@),
            RawMessage::ReadAllEventsCompleted(dir, x) => RawMessageModel::ReadAllEventsCompleted(*dir, x@),
            RawMessage::BadRequest(x) => RawMessageModel::BadRequest(x@),
            RawMessage::NotHandled(x) => RawMessageModel::NotHandled(x@),
            RawMessage::Authenticate => RawMessageModel::Authenticate,
            RawMessage::Authenticated => RawMessageModel::Authenticated,
            RawMessage::NotAuthenticated(x) => RawMessageModel::NotAuthenticated(x@),
            RawMessage::Unsupported(d, x) => RawMessageModel::Unsupported(*d, x@),
        }
    }
}

/// The discriminator byte that announces a message on the wire.
pub open spec fn discriminator_of(m: RawMessageModel) -> u8 {
    match m {
        RawMessageModel::HeartbeatRequest => 0x01,
        RawMessageModel::HeartbeatResponse => 0x02,
        RawMessageModel::Ping => 0x03,
        RawMessageModel::Pong => 0x04,
        RawMessageModel::WriteEvents(_) => 0x82,
        RawMessageModel::WriteEventsCompleted(_) => 0x83,
        RawMessageModel::DeleteStream(_) => 0x8A,
        RawMessageModel::DeleteStreamCompleted(_) => 0x8B,
        RawMessageModel::ReadEvent(_) => 0xB0,
        RawMessageModel::ReadEventCompleted(_) => 0xB1,
        RawMessageModel::ReadStreamEvents(ReadDirection::Forward, _) => 0xB2,
        RawMessageModel::ReadStreamEvents(ReadDirection::Backward, _) => 0xB4,
        RawMessageModel::ReadStreamEventsCompleted(ReadDirection::Forward, _) => 0xB3,
        RawMessageModel::ReadStreamEventsCompleted(ReadDirection::Backward, _) => 0xB5,
        RawMessageModel::ReadAllEvents(ReadDirection::Forward, _) => 0xB6,
        RawMessageModel::ReadAllEvents(ReadDirection::Backward, _) => 0xB8,
        RawMessageModel::ReadAllEventsCompleted(ReadDirection::Forward, _) => 0xB7,
        RawMessageModel::ReadAllEventsCompleted(ReadDirection::Backward, _) => 0xB9,
        RawMessageModel::BadRequest(_) => 0xF0,
        RawMessageModel::NotHandled(_) => 0xF1,
        RawMessageModel::Authenticate => 0xF2,
        RawMessageModel::Authenticated => 0xF3,
        RawMessageModel::NotAuthenticated(_) => 0xF4,
        RawMessageModel::Unsupported(d, _) => d,
    }
}

/// The discriminators of the messages that the library decodes.
pub open spec fn is_known_discriminator(d: u8) -> bool {
    d == 0x01
    || d == 0x02
    || d == 0x03
    || d == 0x04
    || d == 0x82
    || d == 0x83
    || d == 0x8A
    || d == 0x8B
    || d == 0xB0
    || d == 0xB1
    || d == 0xB2
    || d == 0xB4
    || d == 0xB3
    || d == 0xB5
    || d == 0xB6
    || d == 0xB8
    || d == 0xB7
    || d == 0xB9
    || d == 0xF0
    || d == 0xF1
    || d == 0xF2
    || d == 0xF3
    || d == 0xF4
}

/// The message that the discriminator `d` and the payload `body` stand for: messages
/// without a payload ignore it, protobuf payloads must decode, unknown discriminators
/// keep the bytes as they are.
pub open spec fn raw_decode(d: u8, body: Seq<u8>) -> Option<RawMessageModel> {
    if d == 0x01 {
        Some(RawMessageModel::HeartbeatRequest)
    } else {
        if d == 0x02 {
            Some(RawMessageModel::HeartbeatResponse)
        } else {
            if d == 0x03 {
                Some(RawMessageModel::Ping)
            } else {
                if d == 0x04 {
                    Some(RawMessageModel::Pong)
                } else {
                    if d == 0x82 {
                        match write_events_decode(body) {
                            Some(x) => Some(RawMessageModel::WriteEvents(x)),
                            None => None,
                        }
                    } else {
                        if d == 0x83 {
                            match write_events_completed_decode(body) {
                                Some(x) => Some(RawMessageModel::WriteEventsCompleted(x)),
                                None => None,
                            }
                        } else {
                            if d == 0x8A {
                                match delete_stream_decode(body) {
                                    Some(x) => Some(RawMessageModel::DeleteStream(x)),
                                    None => None,
                                }
                            } else {
                                if d == 0x8B {
                                    match delete_stream_completed_decode(body) {
                                        Some(x) => Some(RawMessageModel::DeleteStreamCompleted(x)),
                                        None => None,
                                    }
                                } else {
                                    if d == 0xB0 {
                                        match read_event_decode(body) {
                                            Some(x) => Some(RawMessageModel::ReadEvent(x)),
                                            None => None,
                                        }
                                    } else {
                                        if d == 0xB1 {
                                            match read_event_completed_decode(body) {
                                                Some(x) => Some(RawMessageModel::ReadEventCompleted(x)),
                                                None => None,
                                            }
                                        } else {
                                            if d == 0xB2 {
                                                match read_stream_events_decode(body) {
                                                    Some(x) => Some(RawMessageModel::ReadStreamEvents(ReadDirection::Forward, x)),
                                                    None => None,
                                                }
                                            } else {
                                                if d == 0xB4 {
                                                    match read_stream_events_decode(body) {
                                                        Some(x) => Some(RawMessageModel::ReadStreamEvents(ReadDirection::Backward, x)),
                                                        None => None,
                                                    }
                                                } else {
                                                    if d == 0xB3 {
                                                        match read_stream_events_completed_decode(body) {
                                                            Some(x) => Some(RawMessageModel::ReadStreamEventsCompleted(ReadDirection::Forward, x)),
                                                            None => None,
                                                        }
                                                    } else {
                                                        if d == 0xB5 {
                                                            match read_stream_events_completed_decode(body) {
                                                                Some(x) => Some(RawMessageModel::ReadStreamEventsCompleted(ReadDirection::Backward, x)),
                                                                None => None,
                                                            }
                                                        } else {
                                                            if d == 0xB6 {
                                                                match read_all_events_decode(body) {
                                                                    Some(x) => Some(RawMessageModel::ReadAllEvents(ReadDirection::Forward, x)),
                                                                    None => None,
                                                                }
                                                            } else {
                                                                if d == 0xB8 {
                                                                    match read_all_events_decode(body) {
                                                                        Some(x) => Some(RawMessageModel::ReadAllEvents(ReadDirection::Backward, x)),
                                                                        None => None,
                                                                    }
                                                                } else {
                                                                    if d == 0xB7 {
                                                                        match read_all_events_completed_decode(body) {
                                                                            Some(x) => Some(RawMessageModel::ReadAllEventsCompleted(ReadDirection::Forward, x)),
                                                                            None => None,
                                                                        }
                                                                    } else {
                                                                        if d == 0xB9 {
                                                                            match read_all_events_completed_decode(body) {
                                                                                Some(x) => Some(RawMessageModel::ReadAllEventsCompleted(ReadDirection::Backward, x)),
                                                                                None => None,
                                                                            }
                                                                        } else {
                                                                            if d == 0xF0 {
                                                                                Some(RawMessageModel::BadRequest(body))
                                                                            } else {
                                                                                if d == 0xF1 {
                                                                                    match not_handled_decode(body) {
                                                                                        Some(x) => Some(RawMessageModel::NotHandled(x)),
                                                                                        None => None,
                                                                                    }
                                                                                } else {
                                                                                    if d == 0xF2 {
                                                                                        Some(RawMessageModel::Authenticate)
                                                                                    } else {
                                                                                        if d == 0xF3 {
                                                                                            Some(RawMessageModel::Authenticated)
                                                                                        } else {
                                                                                            if d == 0xF4 {
                                                                                                Some(RawMessageModel::NotAuthenticated(body))
                                                                                            } else {
                                                                                                Some(RawMessageModel::Unsupported(d, body))
                                                                                            }
                                                                                        }
                                                                                    }
                                                                                }
                                                                            }
                                                                        }
                                                                    }
                                                                }
                                                            }
                                                        }
                                                    }
                                                }
                                            }
                                        }
                                    }
                                }
                            }
                        }
                    }
                }
            }
        }
    }
}

/// The payload bytes of a message.
pub open spec fn raw_encode(m: RawMessageModel) -> Seq<u8> {
    match m {
        RawMessageModel::HeartbeatRequest => Seq::empty(),
        RawMessageModel::HeartbeatResponse => Seq::empty(),
        RawMessageModel::Ping => Seq::empty(),
        RawMessageModel::Pong => Seq::empty(),
        RawMessageModel::WriteEvents(x) => write_events_encode(x),
        RawMessageModel::WriteEventsCompleted(x) => write_events_completed_encode(x),
        RawMessageModel::DeleteStream(x) => delete_stream_encode(x),
        RawMessageModel::DeleteStreamCompleted(x) => delete_stream_completed_encode(x),
        RawMessageModel::ReadEvent(x) => read_event_encode(x),
        RawMessageModel::ReadEventCompleted(x) => read_event_completed_encode(x),
        RawMessageModel::ReadStreamEvents(_, x) => read_stream_events_encode(x),
        RawMessageModel::ReadStreamEventsCompleted(_, x) => read_stream_events_completed_encode(x),
        RawMessageModel::ReadAllEvents(_, x) => read_all_events_encode(x),
        RawMessageModel::ReadAllEventsCompleted(_, x) => read_all_events_completed_encode(x),
        RawMessageModel::BadRequest(b) => b,
        RawMessageModel::NotHandled(x) => not_handled_encode(x),
        RawMessageModel::Authenticate => Seq::empty(),
        RawMessageModel::Authenticated => Seq::empty(),
        RawMessageModel::NotAuthenticated(b) => b,
        RawMessageModel::Unsupported(_, b) => b,
    }
}

/// A message that can be written and read back: every length-delimited field of a protobuf
/// payload holds fewer than 2^32 bytes, and an unsupported message does not use the
/// discriminator of a known one.
pub open spec fn raw_wf(m: RawMessageModel) -> bool {
    match m {
        RawMessageModel::WriteEvents(x) => write_events_wf(x),
        RawMessageModel::WriteEventsCompleted(x) => write_events_completed_wf(x),
        RawMessageModel::DeleteStream(x) => delete_stream_wf(x),
        RawMessageModel::DeleteStreamCompleted(x) => delete_stream_completed_wf(x),
        RawMessageModel::ReadEvent(x) => read_event_wf(x),
        RawMessageModel::ReadEventCompleted(x) => read_event_completed_wf(x),
        RawMessageModel::ReadStreamEvents(_, x) => read_stream_events_wf(x),
        RawMessageModel::ReadStreamEventsCompleted(_, x) => read_stream_events_completed_wf(x),
        RawMessageModel::ReadAllEvents(_, x) => read_all_events_wf(x),
        RawMessageModel::ReadAllEventsCompleted(_, x) => read_all_events_completed_wf(x),
        RawMessageModel::NotHandled(x) => not_handled_wf(x),
        RawMessageModel::Unsupported(d, _) => !is_known_discriminator(d),
        _ => true,
    }
}

/// Reading the payload of a written message under its discriminator gives it back.
pub proof fn lemma_raw_roundtrip(m: RawMessageModel)
    requires
        raw_wf(m),
    ensures
        raw_decode(discriminator_of(m), raw_encode(m)) == Some(m),
{
    match m {
        RawMessageModel::WriteEvents(x) => lemma_write_events_roundtrip(x),
        RawMessageModel::WriteEventsCompleted(x) => lemma_write_events_completed_roundtrip(x),
        RawMessageModel::DeleteStream(x) => lemma_delete_stream_roundtrip(x),
        RawMessageModel::DeleteStreamCompleted(x) => lemma_delete_stream_completed_roundtrip(x),
        RawMessageModel::ReadEvent(x) => lemma_read_event_roundtrip(x),
        RawMessageModel::ReadEventCompleted(x) => lemma_read_event_completed_roundtrip(x),
        RawMessageModel::ReadStreamEvents(_, x) => lemma_read_stream_events_roundtrip(x),
        RawMessageModel::ReadStreamEventsCompleted(_, x) => lemma_read_stream_events_completed_roundtrip(x),
        RawMessageModel::ReadAllEvents(_, x) => lemma_read_all_events_roundtrip(x),
        RawMessageModel::ReadAllEventsCompleted(_, x) => lemma_read_all_events_completed_roundtrip(x),
        RawMessageModel::NotHandled(x) => lemma_not_handled_roundtrip(x),
        _ => {},
    }
}

impl RawMessage {
    /// Decodes the message from its discriminator and payload bytes.
    pub fn decode(discriminator: u8, buf: &[u8]) -> (res: Result<RawMessage, CodecError>)
        ensures
            raw_decode(discriminator, buf@) matches Some(m) ==> (res matches Ok(x) && x@ == m),
            raw_decode(discriminator, buf@) is None ==> res == Err::<RawMessage, CodecError>(
                CodecError::InvalidMessage(discriminator),
            ),
    {
        let d = discriminator;
        if d == 0x01 {
            Ok(RawMessage::HeartbeatRequest)
        } else if d == 0x02 {
            Ok(RawMessage::HeartbeatResponse)
        } else if d == 0x03 {
            Ok(RawMessage::Ping)
        } else if d == 0x04 {
            Ok(RawMessage::Pong)
        } else if d == 0x82 {
            match WriteEvents::from_reader(buf) {
                Some(x) => Ok(RawMessage::WriteEvents(x)),
                None => Err(CodecError::InvalidMessage(d)),
            }
        } else if d == 0x83 {
            match WriteEventsCompleted::from_reader(buf) {
                Some(x) => Ok(RawMessage::WriteEventsCompleted(x)),
                None => Err(CodecError::InvalidMessage(d)),
            }
        } else if d == 0x8A {
            match DeleteStream::from_reader(buf) {
                Some(x) => Ok(RawMessage::DeleteStream(x)),
                None => Err(CodecError::InvalidMessage(d)),
            }
        } else if d == 0x8B {
            match DeleteStreamCompleted::from_reader(buf) {
                Some(x) => Ok(RawMessage::DeleteStreamCompleted(x)),
                None => Err(CodecError::InvalidMessage(d)),
            }
        } else if d == 0xB0 {
            match ReadEvent::from_reader(buf) {
                Some(x) => Ok(RawMessage::ReadEvent(x)),
                None => Err(CodecError::InvalidMessage(d)),
            }
        } else if d == 0xB1 {
            match ReadEventCompleted::from_reader(buf) {
                Some(x) => Ok(RawMessage::ReadEventCompleted(x)),
                None => Err(CodecError::InvalidMessage(d)),
            }
        } else if d == 0xB2 {
            match ReadStreamEvents::from_reader(buf) {
                Some(x) => Ok(RawMessage::ReadStreamEvents(ReadDirection::Forward, x)),
                None => Err(CodecError::InvalidMessage(d)),
            }
        } else if d == 0xB4 {
            match ReadStreamEvents::from_reader(buf) {
                Some(x) => Ok(RawMessage::ReadStreamEvents(ReadDirection::Backward, x)),
                None => Err(CodecError::InvalidMessage(d)),
            }
        } else if d == 0xB3 {
            match ReadStreamEventsCompleted::from_reader(buf) {
                Some(x) => Ok(RawMessage::ReadStreamEventsCompleted(ReadDirection::Forward, x)),
                None => Err(CodecError::InvalidMessage(d)),
            }
        } else if d == 0xB5 {
            match ReadStreamEventsCompleted::from_reader(buf) {
                Some(x) => Ok(RawMessage::ReadStreamEventsCompleted(ReadDirection::Backward, x)),
                None => Err(CodecError::InvalidMessage(d)),
            }
        } else if d == 0xB6 {
            match ReadAllEvents::from_reader(buf) {
                Some(x) => Ok(RawMessage::ReadAllEvents(ReadDirection::Forward, x)),
                None => Err(CodecError::InvalidMessage(d)),
            }
        } else if d == 0xB8 {
            match ReadAllEvents::from_reader(buf) {
                Some(x) => Ok(RawMessage::ReadAllEvents(ReadDirection::Backward, x)),
                None => Err(CodecError::InvalidMessage(d)),
            }
        } else if d == 0xB7 {
            match ReadAllEventsCompleted::from_reader(buf) {
                Some(x) => Ok(RawMessage::ReadAllEventsCompleted(ReadDirection::Forward, x)),
                None => Err(CodecError::InvalidMessage(d)),
            }
        } else if d == 0xB9 {
            match ReadAllEventsCompleted::from_reader(buf) {
                Some(x) => Ok(RawMessage::ReadAllEventsCompleted(ReadDirection::Backward, x)),
                None => Err(CodecError::InvalidMessage(d)),
            }
        } else if d == 0xF0 {
            Ok(RawMessage::BadRequest(BadRequestPayload::from_bytes(slice_to_vec(buf))))
        } else if d == 0xF1 {
            match NotHandled::from_reader(buf) {
                Some(x) => Ok(RawMessage::NotHandled(x)),
                None => Err(CodecError::InvalidMessage(d)),
            }
        } else if d == 0xF2 {
            Ok(RawMessage::Authenticate)
        } else if d == 0xF3 {
            Ok(RawMessage::Authenticated)
        } else if d == 0xF4 {
            Ok(RawMessage::NotAuthenticated(NotAuthenticatedPayload::from_bytes(slice_to_vec(buf))))
        } else {
            Ok(RawMessage::Unsupported(d, slice_to_vec(buf)))
        }
    }

    /// Encodes the payload of the message.
    pub fn encode(&self) -> (out: Vec<u8>)
        ensures
            out@ == raw_encode(self@),
            self@ matches RawMessageModel::Unsupported(_, _) || (out@.len() < 0x1_0000_0000 ==> raw_wf(
                self@,
            )),
    {
        match self {
            RawMessage::HeartbeatRequest => Vec::new(),
            RawMessage::HeartbeatResponse => Vec::new(),
            RawMessage::Ping => Vec::new(),
            RawMessage::Pong => Vec::new(),
            RawMessage::WriteEvents(x) => x.encode(),
            RawMessage::WriteEventsCompleted(x) => x.encode(),
            RawMessage::DeleteStream(x) => x.encode(),
            RawMessage::DeleteStreamCompleted(x) => x.encode(),
            RawMessage::ReadEvent(x) => x.encode(),
            RawMessage::ReadEventCompleted(x) => x.encode(),
            RawMessage::ReadStreamEvents(_, x) => x.encode(),
            RawMessage::ReadStreamEventsCompleted(_, x) => x.encode(),
            RawMessage::ReadAllEvents(_, x) => x.encode(),
            RawMessage::ReadAllEventsCompleted(_, x) => x.encode(),
            RawMessage::BadRequest(x) => slice_to_vec(x.as_ref()),
            RawMessage::NotHandled(x) => x.encode(),
            RawMessage::Authenticate => Vec::new(),
            RawMessage::Authenticated => Vec::new(),
            RawMessage::NotAuthenticated(x) => slice_to_vec(x.as_ref()),
            RawMessage::Unsupported(_, x) => slice_to_vec(x.as_slice()),
        }
    }

    /// Returns the protocol discriminator value for the variant
    pub fn discriminator(&self) -> (d: u8)
        ensures
            d == discriminator_of(self@),
    {
        match self {
            RawMessage::HeartbeatRequest => 0x01,
            RawMessage::HeartbeatResponse => 0x02,
            RawMessage::Ping => 0x03,
            RawMessage::Pong => 0x04,
            RawMessage::WriteEvents(_) => 0x82,
            RawMessage::WriteEventsCompleted(_) => 0x83,
            RawMessage::DeleteStream(_) => 0x8A,
            RawMessage::DeleteStreamCompleted(_) => 0x8B,
            RawMessage::ReadEvent(_) => 0xB0,
            RawMessage::ReadEventCompleted(_) => 0xB1,
            RawMessage::ReadStreamEvents(ReadDirection::Forward, _) => 0xB2,
            RawMessage::ReadStreamEvents(ReadDirection::Backward, _) => 0xB4,
            RawMessage::ReadStreamEventsCompleted(ReadDirection::Forward, _) => 0xB3,
            RawMessage::ReadStreamEventsCompleted(ReadDirection::Backward, _) => 0xB5,
            RawMessage::ReadAllEvents(ReadDirection::Forward, _) => 0xB6,
            RawMessage::ReadAllEvents(ReadDirection::Backward, _) => 0xB8,
            RawMessage::ReadAllEventsCompleted(ReadDirection::Forward, _) => 0xB7,
            RawMessage::ReadAllEventsCompleted(ReadDirection::Backward, _) => 0xB9,
            RawMessage::BadRequest(_) => 0xF0,
            RawMessage::NotHandled(_) => 0xF1,
            RawMessage::Authenticate => 0xF2,
            RawMessage::Authenticated => 0xF3,
            RawMessage::NotAuthenticated(_) => 0xF4,
            RawMessage::Unsupported(d, _) => *d,
        }
    }
}

/// The command bytes of the protocol: every kind of message has its own, and a read or its
/// answer carries its direction in it (forwards 0xB2, 0xB3, 0xB6, 0xB7; backwards 0xB4,
/// 0xB5, 0xB8, 0xB9).
pub proof fn lemma_discriminator_table(m: RawMessageModel)
    ensures
        (m matches RawMessageModel::HeartbeatRequest) ==> discriminator_of(m) == 0x01,
        (m matches RawMessageModel::HeartbeatResponse) ==> discriminator_of(m) == 0x02,
        (m matches RawMessageModel::Ping) ==> discriminator_of(m) == 0x03,
        (m matches RawMessageModel::Pong) ==> discriminator_of(m) == 0x04,
        (m matches RawMessageModel::WriteEvents(_)) ==> discriminator_of(m) == 0x82,
        (m matches RawMessageModel::WriteEventsCompleted(_)) ==> discriminator_of(m) == 0x83,
        (m matches RawMessageModel::DeleteStream(_)) ==> discriminator_of(m) == 0x8A,
        (m matches RawMessageModel::DeleteStreamCompleted(_)) ==> discriminator_of(m) == 0x8B,
        (m matches RawMessageModel::ReadEvent(_)) ==> discriminator_of(m) == 0xB0,
        (m matches RawMessageModel::ReadEventCompleted(_)) ==> discriminator_of(m) == 0xB1,
        (m matches RawMessageModel::ReadStreamEvents(ReadDirection::Forward, _)) ==> discriminator_of(m) == 0xB2,
        (m matches RawMessageModel::ReadStreamEvents(ReadDirection::Backward, _)) ==> discriminator_of(m) == 0xB4,
        (m matches RawMessageModel::ReadStreamEventsCompleted(ReadDirection::Forward, _)) ==> discriminator_of(m) == 0xB3,
        (m matches RawMessageModel::ReadStreamEventsCompleted(ReadDirection::Backward, _)) ==> discriminator_of(m) == 0xB5,
        (m matches RawMessageModel::ReadAllEvents(ReadDirection::Forward, _)) ==> discriminator_of(m) == 0xB6,
        (m matches RawMessageModel::ReadAllEvents(ReadDirection::Backward, _)) ==> discriminator_of(m) == 0xB8,
        (m matches RawMessageModel::ReadAllEventsCompleted(ReadDirection::Forward, _)) ==> discriminator_of(m) == 0xB7,
        (m matches RawMessageModel::ReadAllEventsCompleted(ReadDirection::Backward, _)) ==> discriminator_of(m) == 0xB9,
        (m matches RawMessageModel::BadRequest(_)) ==> discriminator_of(m) == 0xF0,
        (m matches RawMessageModel::NotHandled(_)) ==> discriminator_of(m) == 0xF1,
        (m matches RawMessageModel::Authenticate) ==> discriminator_of(m) == 0xF2,
        (m matches RawMessageModel::Authenticated) ==> discriminator_of(m) == 0xF3,
        (m matches RawMessageModel::NotAuthenticated(_)) ==> discriminator_of(m) == 0xF4,
        (m matches RawMessageModel::Unsupported(d, _)) ==> discriminator_of(m) == m->Unsupported_0,
{
}

/// What is read under a command byte has that command byte: the decoder and the table agree,
/// and only a byte that no message of the protocol uses is kept as unsupported.
pub proof fn lemma_decode_keeps_discriminator(d: u8, body: Seq<u8>)
    ensures
        raw_decode(d, body) matches Some(m) ==> discriminator_of(m) == d,
        (raw_decode(d, body) matches Some(RawMessageModel::Unsupported(_, _))) ==> !is_known_discriminator(d),
        !is_known_discriminator(d) ==> raw_decode(d, body) == Some(RawMessageModel::Unsupported(d, body)),
{
    if d == 0x01 {
    } else if d == 0x02 {
    } else if d == 0x03 {
    } else if d == 0x04 {
    } else if d == 0x82 {
    } else if d == 0x83 {
    } else if d == 0x8A {
    } else if d == 0x8B {
    } else if d == 0xB0 {
    } else if d == 0xB1 {
    } else if d == 0xB2 {
    } else if d == 0xB4 {
    } else if d == 0xB3 {
    } else if d == 0xB5 {
    } else if d == 0xB6 {
    } else if d == 0xB8 {
    } else if d == 0xB7 {
    } else if d == 0xB9 {
    } else if d == 0xF0 {
    } else if d == 0xF1 {
    } else if d == 0xF2 {
    } else if d == 0xF3 {
    } else if d == 0xF4 {
    } else {
        assert(!is_known_discriminator(d));
    }
}

} // verus!
