//! Adapted or refined types providing a more convenient API for handling the messages of the
//! protocol. Unlike `RawMessage`, the variants of `AdaptedMessage` are validated, which makes
//! the conversion from a raw message fallible.
use vstd::prelude::*;
use vstd::slice::slice_to_vec;
use vstd::pervasive::unreached;
use vstd::utf8::{valid_utf8, decode_utf8, encode_utf8};
use std::ops::Range;
use crate::errors::{ErrorKind, ResultStatusKind};
use crate::read_direction::ReadDirection;
use crate::stream_version::{StreamVersion, stream_version_from_i32, stream_version_wf};
use crate::event_number::EventNumber;
use crate::log_position::{LogPosition, log_position_from_i64, log_position_to_i64, log_position_wf};
use crate::raw::{RawMessage, RawMessageModel, BadRequestPayload, NotAuthenticatedPayload, ByteWrapper};
use crate::raw::write::{OperationResult, WriteEvents, WriteEventsModel, WriteEventsCompletedModel};
use crate::raw::read::{
    self, ReadEvent, ReadEventModel, ReadEventResult, ReadEventCompletedModel, ReadStreamEvents,
    ReadStreamEventsModel, ReadStreamResult, ReadStreamEventsCompletedModel, ReadAllEvents,
    ReadAllEventsModel, ReadAllResult, ReadAllEventsCompletedModel,
};
use crate::raw::events::{self, ResolvedIndexedEvent, ResolvedIndexedEventModel};

pub mod write_events;
pub mod read_event;
pub mod read_stream;
pub mod read_all;

pub use write_events::{WriteEventsCompleted, WriteEventsFailure};
pub use read_event::ReadEventError;
pub use read_stream::{ReadStreamCompleted, ReadStreamError};
pub use read_all::{ReadAllCompleted, ReadAllError, ResolvedEvent};

use write_events::{write_failure_of, write_completed_as_raw, write_failure_as_raw};
use read_event::{ReadEventErrorModel, read_event_error_of, read_event_success_as_raw, read_event_error_as_raw};
use read_stream::{
    ReadStreamCompletedModel, ReadStreamErrorModel, read_stream_error_of,
    read_stream_completed_as_raw, read_stream_error_as_raw,
};
use read_all::{
    ReadAllCompletedModel, ReadAllErrorModel, ResolvedEventModel, read_all_error_of, log_position_of,
    resolved_event_of, read_all_completed_as_raw, read_all_error_as_raw, position_of,
};

verus! {

broadcast use crate::stream_version::group_stream_version;

/// Newtype for wrapping a specific message, `AdaptedMessage::BadRequest`
#[derive(Debug, Clone, PartialEq)]
pub struct BadRequestMessage(String);

impl View for BadRequestMessage {
    type V = Seq<char>;

    closed spec fn view(&self) -> Seq<char> {
        self.0@
    }
}

impl BadRequestMessage {
    /// Wraps the text.
    pub fn from(s: String) -> (m: BadRequestMessage)
        ensures
            m@ == s@,
    {
        BadRequestMessage(s)
    }

    /// The text wrapped.
    pub fn as_ref(&self) -> (s: &str)
        ensures
            s@ == self@,
    {
        self.0.as_str()
    }

    /// The payload this message is sent as: the UTF-8 bytes of the text.
    pub fn as_raw(&self) -> (p: BadRequestPayload)
        ensures
            p@ == encode_utf8(self@),
    {
        BadRequestPayload::from_bytes(slice_to_vec(self.0.as_str().as_bytes()))
    }
}

/// Newtype for wrapping a specific message, `AdaptedMessage::NotAuthenticated`
#[derive(Debug, Clone, PartialEq)]
pub struct NotAuthenticatedMessage(String);

impl View for NotAuthenticatedMessage {
    type V = Seq<char>;

    closed spec fn view(&self) -> Seq<char> {
        self.0@
    }
}

impl NotAuthenticatedMessage {
    /// Wraps the text.
    pub fn from(s: String) -> (m: NotAuthenticatedMessage)
        ensures
            m@ == s@,
    {
        NotAuthenticatedMessage(s)
    }

    /// The text wrapped.
    pub fn as_ref(&self) -> (s: &str)
        ensures
            s@ == self@,
    {
        self.0.as_str()
    }

    /// The payload this message is sent as: the UTF-8 bytes of the text.
    pub fn as_raw(&self) -> (p: NotAuthenticatedPayload)
        ensures
            p@ == encode_utf8(self@),
    {
        NotAuthenticatedPayload::from_bytes(slice_to_vec(self.0.as_str().as_bytes()))
    }
}

/// Placeholder for the contents of a `NotHandled` answer; the conversion is not implemented, so
/// no value of it is ever made.
#[derive(Debug, Clone, PartialEq)]
pub struct NotHandledInfo {
    ph: String,
}

/// Enumeration of converted messages for more oxidized API. Unlike the `RawMessage` variants,
/// `AdaptedMessage` variants are validated and converted into nicer API. This validation comes at
/// a cost of a fallible conversion exposed in `try_from`.
#[derive(Debug, PartialEq)]
pub enum AdaptedMessage {
    /// Requests heartbeat from the other side. Unsure if clients or server sends these.
    HeartbeatRequest,
    /// Response to a heartbeat request.
    HeartbeatResponse,
    /// Ping request, similar to heartbeat.
    Ping,
    /// Ping response.
    Pong,
    /// Append to stream request
    WriteEvents(WriteEvents),
    /// Append to stream response, which can fail for a number of reasons
    WriteEventsCompleted(Result<WriteEventsCompleted, WriteEventsFailure>),
    /// Request to read a single event from a stream
    ReadEvent(ReadEvent),
    /// Response to a single event read
    ReadEventCompleted(Result<ResolvedIndexedEvent, ReadEventError>),
    /// Request to read a stream from a point forward or backward
    ReadStreamEvents(ReadDirection, ReadStreamEvents),
    /// Response to a stream read in given direction
    ReadStreamEventsCompleted(ReadDirection, Result<ReadStreamCompleted, ReadStreamError>),
    /// Request to read a stream of all events from a position forward or backward
    ReadAllEvents(ReadDirection, ReadAllEvents),
    /// Response to a read all in given direction
    ReadAllEventsCompleted(ReadDirection, Result<ReadAllCompleted, ReadAllError>),
    /// Request was not understood. Please open an issue!
    BadRequest(BadRequestMessage),
    /// Correlated request was not handled. This is the likely response to requests where
    /// `require_master` is `true`, but the connected endpoint is not master and cannot reach it.
    NotHandled(NotHandledInfo),
    /// Request to authenticate attached credentials.
    Authenticate,
    /// Positive authentication response. The credentials used to `Authenticate` previously can be
    /// used in successive requests.
    Authenticated,
    /// Negative authentication response, or response to any sent request for which used
    /// authentication was not accepted.
    NotAuthenticated(NotAuthenticatedMessage),
}

/// The model of an adapted message: each payload by its model.
pub enum AdaptedMessageModel {
    HeartbeatRequest,
    HeartbeatResponse,
    Ping,
    Pong,
    WriteEvents(WriteEventsModel),
    WriteEventsCompleted(Result<WriteEventsCompleted, WriteEventsFailure>),
    ReadEvent(ReadEventModel),
    ReadEventCompleted(Result<ResolvedIndexedEventModel, ReadEventErrorModel>),
    ReadStreamEvents(ReadDirection, ReadStreamEventsModel),
    ReadStreamEventsCompleted(ReadDirection, Result<ReadStreamCompletedModel, ReadStreamErrorModel>),
    ReadAllEvents(ReadDirection, ReadAllEventsModel),
    ReadAllEventsCompleted(ReadDirection, Result<ReadAllCompletedModel, ReadAllErrorModel>),
    BadRequest(Seq<char>),
    NotHandled,
    Authenticate,
    Authenticated,
    NotAuthenticated(Seq<char>),
}

impl View for AdaptedMessage {
    type V = AdaptedMessageModel;

    open spec fn view(&self) -> AdaptedMessageModel {
        match self {
            AdaptedMessage::HeartbeatRequest => AdaptedMessageModel::HeartbeatRequest,
            AdaptedMessage::HeartbeatResponse => AdaptedMessageModel::HeartbeatResponse,
            AdaptedMessage::Ping => AdaptedMessageModel::Ping,
            AdaptedMessage::Pong => AdaptedMessageModel::Pong,
            AdaptedMessage::WriteEvents(e) => AdaptedMessageModel::WriteEvents(e@),
            AdaptedMessage::WriteEventsCompleted(r) => AdaptedMessageModel::WriteEventsCompleted(*r),
            AdaptedMessage::ReadEvent(e) => AdaptedMessageModel::ReadEvent(e@),
            AdaptedMessage::ReadEventCompleted(r) => AdaptedMessageModel::ReadEventCompleted(
                match r {
                    Ok(x) => Ok(x@),
                    Err(e) => Err(e@),
                },
            ),
            AdaptedMessage::ReadStreamEvents(d, e) => AdaptedMessageModel::ReadStreamEvents(*d, e@),
            AdaptedMessage::ReadStreamEventsCompleted(d, r) =>
                AdaptedMessageModel::ReadStreamEventsCompleted(
                    *d,
                    match r {
                        Ok(x) => Ok(x@),
                        Err(e) => Err(e@),
                    },
                ),
            AdaptedMessage::ReadAllEvents(d, e) => AdaptedMessageModel::ReadAllEvents(*d, e@),
            AdaptedMessage::ReadAllEventsCompleted(d, r) =>
                AdaptedMessageModel::ReadAllEventsCompleted(
                    *d,
                    match r {
                        Ok(x) => Ok(x@),
                        Err(e) => Err(e@),
                    },
                ),
            AdaptedMessage::BadRequest(m) => AdaptedMessageModel::BadRequest(m@),
            AdaptedMessage::NotHandled(_) => AdaptedMessageModel::NotHandled,
            AdaptedMessage::Authenticate => AdaptedMessageModel::Authenticate,
            AdaptedMessage::Authenticated => AdaptedMessageModel::Authenticated,
            AdaptedMessage::NotAuthenticated(m) => AdaptedMessageModel::NotAuthenticated(m@),
        }
    }
}

/// The range of stream versions from `start` to `end` inclusive: the end bound is `end + 1`,
/// wrapping at `i32::MAX`, and each bound must be a valid stream version.
pub open spec fn range_from_parts_spec(start: i32, end: i32) -> Result<Range<StreamVersion>, ErrorKind> {
    match stream_version_from_i32(start) {
        Err(e) => Err(e),
        Ok(s) => match stream_version_from_i32(
            if end == i32::MAX {
                i32::MIN
            } else {
                (end + 1) as i32
            },
        ) {
            Err(e) => Err(e),
            Ok(e) => Ok(Range { start: s, end: e }),
        },
    }
}

/// The first and last version of a range: its start, and its end minus one.
pub open spec fn range_to_parts_spec(r: Range<StreamVersion>) -> (i32, i32) {
    (r.start.value() as i32, (r.end.value() - 1) as i32)
}

/// The range from `start` to `end` inclusive.
pub fn range_from_parts(start: i32, end: i32) -> (res: Result<Range<StreamVersion>, ErrorKind>)
    ensures
        res == range_from_parts_spec(start, end),
{
    let start = match StreamVersion::try_from(start) {
        Ok(s) => s,
        Err(e) => return Err(e),
    };
    let end = match StreamVersion::try_from(end.wrapping_add(1)) {
        Ok(e) => e,
        Err(e) => return Err(e),
    };
    Ok(start..end)
}

/// The first and last version of a range.
pub fn range_to_parts(r: &Range<StreamVersion>) -> (parts: (i32, i32))
    ensures
        parts == range_to_parts_spec(*r),
{
    let start: i32 = r.start.to_i32();
    let end: i32 = r.end.to_i32();
    (start, end - 1)
}

/// Splitting a range into its first and last version and joining them again gives the range
/// back; joining two numbers into a range and splitting it gives the numbers back.
pub proof fn lemma_range_parts_roundtrip(r: Range<StreamVersion>, start: i32, end: i32)
    requires
        stream_version_wf(r.start),
        stream_version_wf(r.end),
    ensures
        range_from_parts_spec(range_to_parts_spec(r).0, range_to_parts_spec(r).1) == Ok::<
            Range<StreamVersion>,
            ErrorKind,
        >(r),
        range_from_parts_spec(start, end) matches Ok(q) ==> range_to_parts_spec(q) == (start, end),
{
}

/// The log position of an optional wire position, or `UnderflowLogPosition` below -1.
pub open spec fn opt_log_position_from(p: Option<i64>) -> Result<Option<LogPosition>, ErrorKind> {
    match p {
        Some(x) => match log_position_from_i64(x) {
            Ok(l) => Ok(Some(l)),
            Err(e) => Err(e),
        },
        None => Ok(None),
    }
}

/// The log position of a wire value, or `None` below -1.
pub open spec fn log_position_or_none(x: i64) -> Option<LogPosition> {
    match log_position_from_i64(x) {
        Ok(p) => Some(p),
        Err(_) => None,
    }
}

/// The refined answer to a write: a missing result and an invalid transaction are errors, a
/// success needs a valid range of event numbers, then a prepare and a commit position that
/// are not below -1.
pub open spec fn adapt_write_completed(m: WriteEventsCompletedModel) -> Result<AdaptedMessageModel, ErrorKind> {
    match m.result {
        None => Err(ErrorKind::MissingResultField(ResultStatusKind::WriteEvents)),
        Some(OperationResult::Success) => match range_from_parts_spec(
            m.first_event_number,
            m.last_event_number,
        ) {
            Err(e) => Err(e),
            Ok(r) => match opt_log_position_from(m.prepare_position) {
                Err(e) => Err(e),
                Ok(pp) => match opt_log_position_from(m.commit_position) {
                    Err(e) => Err(e),
                    Ok(cp) => Ok(
                        AdaptedMessageModel::WriteEventsCompleted(
                            Ok(
                                WriteEventsCompleted {
                                    event_numbers: r,
                                    prepare_position: pp,
                                    commit_position: cp,
                                },
                            ),
                        ),
                    ),
                },
            },
        },
        Some(OperationResult::InvalidTransaction) => Err(ErrorKind::WriteEventsInvalidTransaction),
        Some(other) => Ok(AdaptedMessageModel::WriteEventsCompleted(Err(write_failure_of(other)->0))),
    }
}

/// The refined answer to a single event read: a missing result is an error.
pub open spec fn adapt_read_event_completed(m: ReadEventCompletedModel) -> Result<AdaptedMessageModel, ErrorKind> {
    match m.result {
        None => Err(ErrorKind::MissingResultField(ResultStatusKind::ReadEvent)),
        Some(ReadEventResult::Success) => Ok(AdaptedMessageModel::ReadEventCompleted(Ok(m.event))),
        Some(other) => Ok(
            AdaptedMessageModel::ReadEventCompleted(Err(read_event_error_of(other, m.error))),
        ),
    }
}

/// The next page of a stream read: none when reading backwards past the start, else the
/// event number of the wire value, which must be a valid stream version.
pub open spec fn next_page_of(dir: ReadDirection, next: i32) -> Result<Option<EventNumber>, ErrorKind> {
    if dir == ReadDirection::Backward && next < 0 {
        Ok(None)
    } else {
        match stream_version_from_i32(next) {
            Ok(v) => Ok(Some(EventNumber::Exact(v))),
            Err(e) => Err(e),
        }
    }
}

/// The refined answer to a stream read: a missing result is an error; a failure gives its
/// `ReadStreamError` whatever the event numbers hold; a success needs a valid next page and
/// last event number.
pub open spec fn adapt_read_stream_completed(dir: ReadDirection, m: ReadStreamEventsCompletedModel) -> Result<AdaptedMessageModel, ErrorKind> {
    match m.result {
        None => Err(ErrorKind::MissingResultField(ResultStatusKind::ReadStream)),
        Some(ReadStreamResult::Success) => match next_page_of(dir, m.next_event_number) {
            Err(e) => Err(e),
            Ok(next_page) => match stream_version_from_i32(m.last_event_number) {
                Err(e) => Err(e),
                Ok(last) => Ok(
                    AdaptedMessageModel::ReadStreamEventsCompleted(
                        dir,
                        Ok(
                            ReadStreamCompletedModel {
                                events: m.events,
                                next_page: next_page,
                                last_event_number: last,
                                end_of_stream: m.is_end_of_stream,
                                last_commit_position: m.last_commit_position,
                            },
                        ),
                    ),
                ),
            },
        },
        Some(res) => Ok(
            AdaptedMessageModel::ReadStreamEventsCompleted(
                dir,
                Err(read_stream_error_of(res, m.error)),
            ),
        ),
    }
}

/// The first position below -1 among the events from the `k`-th on, the commit position of
/// each event before its prepare position.
pub open spec fn events_underflow_from(evs: Seq<events::ResolvedEventModel>, k: int) -> Option<i64>
    decreases evs.len() - k,
{
    if k < 0 || k >= evs.len() {
        None
    } else if evs[k].commit_position < -1 {
        Some(evs[k].commit_position)
    } else if evs[k].prepare_position < -1 {
        Some(evs[k].prepare_position)
    } else {
        events_underflow_from(evs, k + 1)
    }
}

/// No event from the `k`-th on has a position below -1 exactly when none is found.
pub proof fn lemma_events_underflow_none(evs: Seq<events::ResolvedEventModel>, k: int)
    requires
        0 <= k <= evs.len(),
    ensures
        events_underflow_from(evs, k) is None <==> (forall|i: int|
            k <= i < evs.len() ==> #[trigger] evs[i].commit_position >= -1
                && evs[i].prepare_position >= -1),
    decreases evs.len() - k,
{
    if k < evs.len() {
        lemma_events_underflow_none(evs, k + 1);
    }
}

/// The refined answer to a read of all events. A success needs a commit position, then a
/// prepare position, then event positions that are not below -1 (else `UnderflowLogPosition`
/// of the first one below); next positions below -1 are left out.
pub open spec fn adapt_read_all_completed(dir: ReadDirection, m: ReadAllEventsCompletedModel) -> Result<AdaptedMessageModel, ErrorKind> {
    if m.result == ReadAllResult::Success {
        if m.commit_position < -1 {
            Err(ErrorKind::UnderflowLogPosition(m.commit_position))
        } else if m.prepare_position < -1 {
            Err(ErrorKind::UnderflowLogPosition(m.prepare_position))
        } else {
            match events_underflow_from(m.events, 0) {
                Some(x) => Err(ErrorKind::UnderflowLogPosition(x)),
                None => Ok(
                    AdaptedMessageModel::ReadAllEventsCompleted(
                        dir,
                        Ok(
                            ReadAllCompletedModel {
                                commit_position: log_position_of(m.commit_position),
                                prepare_position: log_position_of(m.prepare_position),
                                events: m.events.map_values(
                                    |e: events::ResolvedEventModel| resolved_event_of(e),
                                ),
                                next_commit_position: log_position_or_none(m.next_commit_position),
                                next_prepare_position: log_position_or_none(m.next_prepare_position),
                            },
                        ),
                    ),
                ),
            }
        }
    } else {
        Ok(
            AdaptedMessageModel::ReadAllEventsCompleted(
                dir,
                Err(read_all_error_of(m.result, m.error)),
            ),
        )
    }
}

/// The text of a payload, or `InvalidUtf8`.
pub open spec fn text_of(b: Seq<u8>) -> Result<Seq<char>, ErrorKind> {
    if valid_utf8(b) {
        Ok(decode_utf8(b))
    } else {
        Err(ErrorKind::InvalidUtf8)
    }
}

/// The adapted message of a raw message, or the reason it cannot be adapted.
pub open spec fn adapt(m: RawMessageModel) -> Result<AdaptedMessageModel, ErrorKind> {
    match m {
        RawMessageModel::HeartbeatRequest => Ok(AdaptedMessageModel::HeartbeatRequest),
        RawMessageModel::HeartbeatResponse => Ok(AdaptedMessageModel::HeartbeatResponse),
        RawMessageModel::Ping => Ok(AdaptedMessageModel::Ping),
        RawMessageModel::Pong => Ok(AdaptedMessageModel::Pong),
        RawMessageModel::WriteEvents(e) => Ok(AdaptedMessageModel::WriteEvents(e)),
        RawMessageModel::WriteEventsCompleted(e) => adapt_write_completed(e),
        RawMessageModel::ReadEvent(e) => Ok(AdaptedMessageModel::ReadEvent(e)),
        RawMessageModel::ReadEventCompleted(e) => adapt_read_event_completed(e),
        RawMessageModel::ReadStreamEvents(d, e) => Ok(AdaptedMessageModel::ReadStreamEvents(d, e)),
        RawMessageModel::ReadStreamEventsCompleted(d, e) => adapt_read_stream_completed(d, e),
        RawMessageModel::ReadAllEvents(d, e) => Ok(AdaptedMessageModel::ReadAllEvents(d, e)),
        RawMessageModel::ReadAllEventsCompleted(d, e) => adapt_read_all_completed(d, e),
        RawMessageModel::BadRequest(b) => match text_of(b) {
            Ok(s) => Ok(AdaptedMessageModel::BadRequest(s)),
            Err(e) => Err(e),
        },
        RawMessageModel::NotHandled(_) => Err(ErrorKind::UnimplementedConversion),
        RawMessageModel::Authenticate => Ok(AdaptedMessageModel::Authenticate),
        RawMessageModel::Authenticated => Ok(AdaptedMessageModel::Authenticated),
        RawMessageModel::NotAuthenticated(b) => match text_of(b) {
            Ok(s) => Ok(AdaptedMessageModel::NotAuthenticated(s)),
            Err(e) => Err(e),
        },
        RawMessageModel::Unsupported(d, _) => Err(ErrorKind::UnsupportedDiscriminator(d)),
        _ => Err(ErrorKind::UnimplementedConversion),
    }
}

fn opt_position_from(p: Option<i64>) -> (r: Result<Option<LogPosition>, ErrorKind>)
    ensures
        r == opt_log_position_from(p),
{
    match p {
        Some(x) => match LogPosition::try_from(x) {
            Ok(l) => Ok(Some(l)),
            Err(e) => Err(e),
        },
        None => Ok(None),
    }
}

fn adapt_write_events_completed(msg: crate::raw::write::WriteEventsCompleted) -> (res: Result<AdaptedMessage, (RawMessage, ErrorKind)>)
    ensures
        match res {
            Ok(a) => adapt_write_completed(msg@) == Ok::<AdaptedMessageModel, ErrorKind>(a@),
            Err((r, e)) => r@ == RawMessageModel::WriteEventsCompleted(msg@)
                && adapt_write_completed(msg@) == Err::<AdaptedMessageModel, ErrorKind>(e),
        },
{
    let status = match msg.result {
        Some(s) => s,
        None => {
            return Err(
                (
                    RawMessage::WriteEventsCompleted(msg),
                    ErrorKind::MissingResultField(ResultStatusKind::WriteEvents),
                ),
            )
        },
    };
    match status {
        OperationResult::Success => {
            let range = match range_from_parts(msg.first_event_number, msg.last_event_number) {
                Ok(x) => x,
                Err(e) => return Err((RawMessage::WriteEventsCompleted(msg), e)),
            };
            let prepare_position = match opt_position_from(msg.prepare_position) {
                Ok(x) => x,
                Err(e) => return Err((RawMessage::WriteEventsCompleted(msg), e)),
            };
            let commit_position = match opt_position_from(msg.commit_position) {
                Ok(x) => x,
                Err(e) => return Err((RawMessage::WriteEventsCompleted(msg), e)),
            };
            Ok(
                AdaptedMessage::WriteEventsCompleted(
                    Ok(
                        WriteEventsCompleted {
                            event_numbers: range,
                            prepare_position: prepare_position,
                            commit_position: commit_position,
                        },
                    ),
                ),
            )
        },
        OperationResult::InvalidTransaction => Err(
            (RawMessage::WriteEventsCompleted(msg), ErrorKind::WriteEventsInvalidTransaction),
        ),
        other => Ok(AdaptedMessage::WriteEventsCompleted(Err(WriteEventsFailure::from(other)))),
    }
}

fn adapt_read_event(msg: read::ReadEventCompleted) -> (res: Result<AdaptedMessage, (RawMessage, ErrorKind)>)
    ensures
        match res {
            Ok(a) => adapt_read_event_completed(msg@) == Ok::<AdaptedMessageModel, ErrorKind>(a@),
            Err((r, e)) => r@ == RawMessageModel::ReadEventCompleted(msg@)
                && adapt_read_event_completed(msg@) == Err::<AdaptedMessageModel, ErrorKind>(e),
        },
{
    let result = msg.result;
    match result {
        None => Err(
            (
                RawMessage::ReadEventCompleted(msg),
                ErrorKind::MissingResultField(ResultStatusKind::ReadEvent),
            ),
        ),
        Some(ReadEventResult::Success) => Ok(AdaptedMessage::ReadEventCompleted(Ok(msg.event))),
        Some(other) => Ok(
            AdaptedMessage::ReadEventCompleted(Err(ReadEventError::from(other, msg.error))),
        ),
    }
}

fn adapt_read_stream(dir: ReadDirection, msg: read::ReadStreamEventsCompleted) -> (res: Result<AdaptedMessage, (RawMessage, ErrorKind)>)
    ensures
        match res {
            Ok(a) => adapt_read_stream_completed(dir, msg@) == Ok::<AdaptedMessageModel, ErrorKind>(a@),
            Err((r, e)) => r@ == RawMessageModel::ReadStreamEventsCompleted(dir, msg@)
                && adapt_read_stream_completed(dir, msg@) == Err::<AdaptedMessageModel, ErrorKind>(e),
        },
{
    let result = match msg.result {
        Some(r) => r,
        None => {
            return Err(
                (
                    RawMessage::ReadStreamEventsCompleted(dir, msg),
                    ErrorKind::MissingResultField(ResultStatusKind::ReadStream),
                ),
            )
        },
    };
    if result != ReadStreamResult::Success {
        return Ok(
            AdaptedMessage::ReadStreamEventsCompleted(
                dir,
                Err(ReadStreamError::from(result, msg.error)),
            ),
        );
    }
    let next_page = if dir == ReadDirection::Backward && msg.next_event_number < 0 {
        None
    } else {
        match StreamVersion::try_from(msg.next_event_number) {
            Ok(v) => Some(EventNumber::from_stream_version(v)),
            Err(e) => return Err((RawMessage::ReadStreamEventsCompleted(dir, msg), e)),
        }
    };
    let last_event_number = match StreamVersion::try_from(msg.last_event_number) {
        Ok(v) => v,
        Err(e) => return Err((RawMessage::ReadStreamEventsCompleted(dir, msg), e)),
    };
    Ok(
        AdaptedMessage::ReadStreamEventsCompleted(
            dir,
            Ok(
                ReadStreamCompleted {
                    events: msg.events,
                    next_page: next_page,
                    last_event_number: last_event_number,
                    end_of_stream: msg.is_end_of_stream,
                    last_commit_position: msg.last_commit_position,
                },
            ),
        ),
    )
}

fn first_underflow(evs: &Vec<events::ResolvedEvent>) -> (r: Option<i64>)
    ensures
        r == events_underflow_from(evs@.map_values(|e: events::ResolvedEvent| e@), 0),
{
    let ghost m = evs@.map_values(|e: events::ResolvedEvent| e@);
    let mut k: usize = 0;
    while k < evs.len()
        invariant
            k <= evs@.len(),
            m == evs@.map_values(|e: events::ResolvedEvent| e@),
            events_underflow_from(m, 0) == events_underflow_from(m, k as int),
        decreases evs@.len() - k,
    {
        assert(m[k as int] == evs@[k as int]@);
        if evs[k].commit_position < -1 {
            return Some(evs[k].commit_position);
        }
        if evs[k].prepare_position < -1 {
            return Some(evs[k].prepare_position);
        }
        k = k + 1;
    }
    None
}

fn adapt_read_all(dir: ReadDirection, msg: read::ReadAllEventsCompleted) -> (res: Result<AdaptedMessage, (RawMessage, ErrorKind)>)
    ensures
        match res {
            Ok(a) => adapt_read_all_completed(dir, msg@) == Ok::<AdaptedMessageModel, ErrorKind>(a@),
            Err((r, e)) => r@ == RawMessageModel::ReadAllEventsCompleted(dir, msg@)
                && adapt_read_all_completed(dir, msg@) == Err::<AdaptedMessageModel, ErrorKind>(e),
        },
{
    if msg.result != ReadAllResult::Success {
        return Ok(
            AdaptedMessage::ReadAllEventsCompleted(dir, Err(ReadAllError::from(msg.result, msg.error))),
        );
    }
    if msg.commit_position < -1 {
        let x = msg.commit_position;
        return Err((RawMessage::ReadAllEventsCompleted(dir, msg), ErrorKind::UnderflowLogPosition(x)));
    }
    if msg.prepare_position < -1 {
        let x = msg.prepare_position;
        return Err((RawMessage::ReadAllEventsCompleted(dir, msg), ErrorKind::UnderflowLogPosition(x)));
    }
    match first_underflow(&msg.events) {
        Some(x) => {
            return Err((RawMessage::ReadAllEventsCompleted(dir, msg), ErrorKind::UnderflowLogPosition(x)));
        },
        None => {},
    }
    proof {
        lemma_events_underflow_none(msg@.events, 0);
    }
    let next_commit_position = LogPosition::from_i64_opt(msg.next_commit_position);
    let next_prepare_position = LogPosition::from_i64_opt(msg.next_prepare_position);
    let commit_position = position_of(msg.commit_position);
    let prepare_position = position_of(msg.prepare_position);
    let mut evs: Vec<ResolvedEvent> = Vec::new();
    let mut k: usize = 0;
    while k < msg.events.len()
        invariant
            k <= msg.events@.len(),
            forall|i: int|
                0 <= i < msg@.events.len() ==> #[trigger] msg@.events[i].commit_position >= -1
                    && msg@.events[i].prepare_position >= -1,
            evs@.map_values(|e: ResolvedEvent| e@) =~= msg@.events.take(k as int).map_values(
                |e: events::ResolvedEventModel| resolved_event_of(e),
            ),
        decreases msg.events@.len() - k,
    {
        assert(msg@.events[k as int] == msg.events@[k as int]@);
        let e = ResolvedEvent::from(msg.events[k].copy());
        let ghost old_evs = evs@;
        evs.push(e);
        assert(msg@.events.take(k + 1) =~= msg@.events.take(k as int).push(msg.events@[k as int]@));
        assert(evs@.map_values(|e: ResolvedEvent| e@) =~= old_evs.map_values(|e: ResolvedEvent| e@).push(e@));
        assert(msg@.events.take(k + 1).map_values(|e: events::ResolvedEventModel| resolved_event_of(e))
            =~= msg@.events.take(k as int).map_values(
            |e: events::ResolvedEventModel| resolved_event_of(e),
        ).push(resolved_event_of(msg.events@[k as int]@)));
        k = k + 1;
    }
    assert(msg@.events.take(k as int) =~= msg@.events);
    Ok(
        AdaptedMessage::ReadAllEventsCompleted(
            dir,
            Ok(
                ReadAllCompleted {
                    commit_position: commit_position,
                    prepare_position: prepare_position,
                    events: evs,
                    next_commit_position: next_commit_position,
                    next_prepare_position: next_prepare_position,
                },
            ),
        ),
    )
}

impl AdaptedMessage {
    /// Validates and converts a raw message. On failure the raw message is given back with the
    /// reason: a missing result field, an invalid stream version, a log position below -1, an
    /// invalid transaction, text that is not UTF-8, an unsupported discriminator, or a
    /// conversion that is not implemented.
    pub fn try_from(raw: RawMessage) -> (res: Result<AdaptedMessage, (RawMessage, ErrorKind)>)
        ensures
            match res {
                Ok(a) => adapt(raw@) == Ok::<AdaptedMessageModel, ErrorKind>(a@),
                Err((r, e)) => r@ == raw@ && adapt(raw@) == Err::<AdaptedMessageModel, ErrorKind>(e),
            },
    {
        match raw {
            RawMessage::HeartbeatRequest => Ok(AdaptedMessage::HeartbeatRequest),
            RawMessage::HeartbeatResponse => Ok(AdaptedMessage::HeartbeatResponse),
            RawMessage::Ping => Ok(AdaptedMessage::Ping),
            RawMessage::Pong => Ok(AdaptedMessage::Pong),
            RawMessage::WriteEvents(e) => Ok(AdaptedMessage::WriteEvents(e)),
            RawMessage::WriteEventsCompleted(e) => adapt_write_events_completed(e),
            RawMessage::ReadEvent(e) => Ok(AdaptedMessage::ReadEvent(e)),
            RawMessage::ReadEventCompleted(e) => adapt_read_event(e),
            RawMessage::ReadStreamEvents(dir, e) => Ok(AdaptedMessage::ReadStreamEvents(dir, e)),
            RawMessage::ReadStreamEventsCompleted(dir, e) => adapt_read_stream(dir, e),
            RawMessage::ReadAllEvents(dir, e) => Ok(AdaptedMessage::ReadAllEvents(dir, e)),
            RawMessage::ReadAllEventsCompleted(dir, e) => adapt_read_all(dir, e),
            RawMessage::BadRequest(bytes) => match bytes.into_str_wrapper() {
                Ok(s) => Ok(AdaptedMessage::BadRequest(BadRequestMessage(s))),
                Err((w, e)) => Err((RawMessage::BadRequest(w), e)),
            },
            RawMessage::NotHandled(e) => Err((RawMessage::NotHandled(e), ErrorKind::UnimplementedConversion)),
            RawMessage::Authenticate => Ok(AdaptedMessage::Authenticate),
            RawMessage::Authenticated => Ok(AdaptedMessage::Authenticated),
            RawMessage::NotAuthenticated(reason) => match reason.into_str_wrapper() {
                Ok(s) => Ok(AdaptedMessage::NotAuthenticated(NotAuthenticatedMessage(s))),
                Err((w, e)) => Err((RawMessage::NotAuthenticated(w), e)),
            },
            RawMessage::Unsupported(d, bytes) => Err(
                (RawMessage::Unsupported(d, bytes), ErrorKind::UnsupportedDiscriminator(d)),
            ),
            unimpl => Err((unimpl, ErrorKind::UnimplementedConversion)),
        }
    }
}

/// The raw message that an adapted message is sent as. A `NotHandled` message is never made,
/// and has no raw form.
pub open spec fn adapted_as_raw(a: AdaptedMessageModel) -> RawMessageModel
    recommends
        !(a is NotHandled),
{
    match a {
        AdaptedMessageModel::HeartbeatRequest => RawMessageModel::HeartbeatRequest,
        AdaptedMessageModel::HeartbeatResponse => RawMessageModel::HeartbeatResponse,
        AdaptedMessageModel::Ping => RawMessageModel::Ping,
        AdaptedMessageModel::Pong => RawMessageModel::Pong,
        AdaptedMessageModel::WriteEvents(e) => RawMessageModel::WriteEvents(e),
        AdaptedMessageModel::WriteEventsCompleted(r) => RawMessageModel::WriteEventsCompleted(
            match r {
                Ok(c) => write_completed_as_raw(c),
                Err(f) => write_failure_as_raw(f),
            },
        ),
        AdaptedMessageModel::ReadEvent(e) => RawMessageModel::ReadEvent(e),
        AdaptedMessageModel::ReadEventCompleted(r) => RawMessageModel::ReadEventCompleted(
            match r {
                Ok(e) => read_event_success_as_raw(e),
                Err(e) => read_event_error_as_raw(e),
            },
        ),
        AdaptedMessageModel::ReadStreamEvents(d, e) => RawMessageModel::ReadStreamEvents(d, e),
        AdaptedMessageModel::ReadStreamEventsCompleted(d, r) =>
            RawMessageModel::ReadStreamEventsCompleted(
                d,
                match r {
                    Ok(c) => read_stream_completed_as_raw(c),
                    Err(e) => read_stream_error_as_raw(e),
                },
            ),
        AdaptedMessageModel::ReadAllEvents(d, e) => RawMessageModel::ReadAllEvents(d, e),
        AdaptedMessageModel::ReadAllEventsCompleted(d, r) => RawMessageModel::ReadAllEventsCompleted(
            d,
            match r {
                Ok(c) => read_all_completed_as_raw(c),
                Err(e) => read_all_error_as_raw(e),
            },
        ),
        AdaptedMessageModel::BadRequest(s) => RawMessageModel::BadRequest(encode_utf8(s)),
        AdaptedMessageModel::NotHandled => arbitrary(),
        AdaptedMessageModel::Authenticate => RawMessageModel::Authenticate,
        AdaptedMessageModel::Authenticated => RawMessageModel::Authenticated,
        AdaptedMessageModel::NotAuthenticated(s) => RawMessageModel::NotAuthenticated(encode_utf8(s)),
    }
}

impl AdaptedMessage {
    /// Converts the adapted message back to a raw one for encoding. Every variant but
    /// `NotHandled`, of which no value is ever made, has a raw form.
    pub fn as_raw(&self) -> (r: RawMessage)
        requires
            !(self@ is NotHandled),
        ensures
            r@ == adapted_as_raw(self@),
    {
        match self {
            AdaptedMessage::HeartbeatRequest => RawMessage::HeartbeatRequest,
            AdaptedMessage::HeartbeatResponse => RawMessage::HeartbeatResponse,
            AdaptedMessage::Ping => RawMessage::Ping,
            AdaptedMessage::Pong => RawMessage::Pong,
            AdaptedMessage::Authenticate => RawMessage::Authenticate,
            AdaptedMessage::Authenticated => RawMessage::Authenticated,
            AdaptedMessage::WriteEvents(we) => RawMessage::WriteEvents(we.copy()),
            AdaptedMessage::WriteEventsCompleted(Ok(body)) => RawMessage::WriteEventsCompleted(body.as_raw()),
            AdaptedMessage::WriteEventsCompleted(Err(err)) => RawMessage::WriteEventsCompleted(err.as_raw()),
            AdaptedMessage::ReadEvent(re) => RawMessage::ReadEvent(re.copy()),
            AdaptedMessage::ReadEventCompleted(Ok(event)) => RawMessage::ReadEventCompleted(event.as_raw()),
            AdaptedMessage::ReadEventCompleted(Err(err)) => RawMessage::ReadEventCompleted(err.as_raw()),
            AdaptedMessage::ReadStreamEvents(dir, rse) => RawMessage::ReadStreamEvents(*dir, rse.copy()),
            AdaptedMessage::ReadStreamEventsCompleted(dir, Ok(body)) =>
                RawMessage::ReadStreamEventsCompleted(*dir, body.as_raw()),
            AdaptedMessage::ReadStreamEventsCompleted(dir, Err(err)) =>
                RawMessage::ReadStreamEventsCompleted(*dir, err.as_raw()),
            AdaptedMessage::ReadAllEvents(dir, rae) => RawMessage::ReadAllEvents(*dir, rae.copy()),
            AdaptedMessage::ReadAllEventsCompleted(dir, Ok(body)) =>
                RawMessage::ReadAllEventsCompleted(*dir, body.as_raw()),
            AdaptedMessage::ReadAllEventsCompleted(dir, Err(err)) =>
                RawMessage::ReadAllEventsCompleted(*dir, err.as_raw()),
            AdaptedMessage::BadRequest(msg) => RawMessage::BadRequest(msg.as_raw()),
            AdaptedMessage::NotHandled(_) => unreached(),
            AdaptedMessage::NotAuthenticated(msg) => RawMessage::NotAuthenticated(msg.as_raw()),
        }
    }
}

/// A log position that the wire can carry, when there is one.
pub open spec fn opt_log_position_wf(p: Option<LogPosition>) -> bool {
    p matches Some(x) ==> log_position_wf(x)
}

/// The values that an adapted message carries are valid: stream versions are at most
/// `i32::MAX`, exact log positions between 1 and `i64::MAX`.
pub open spec fn adapted_wf(a: AdaptedMessageModel) -> bool {
    match a {
        AdaptedMessageModel::WriteEventsCompleted(Ok(c)) => stream_version_wf(c.event_numbers.start)
            && stream_version_wf(c.event_numbers.end) && opt_log_position_wf(c.prepare_position)
            && opt_log_position_wf(c.commit_position),
        AdaptedMessageModel::ReadStreamEventsCompleted(_, Ok(c)) => stream_version_wf(
            c.last_event_number,
        ) && (c.next_page matches Some(EventNumber::Exact(v)) ==> stream_version_wf(v)),
        AdaptedMessageModel::ReadAllEventsCompleted(_, Ok(c)) => log_position_wf(c.commit_position)
            && log_position_wf(c.prepare_position) && opt_log_position_wf(c.next_commit_position)
            && opt_log_position_wf(c.next_prepare_position) && forall|i: int|
            0 <= i < c.events.len() ==> log_position_wf(#[trigger] c.events[i].commit_position)
                && log_position_wf(c.events[i].prepare_position),
        _ => true,
    }
}

/// The adapted messages that their raw form converts back to. Left out are: `NotHandled`,
/// which has no raw form; a successful stream read whose next page is the first or the last
/// event, or is missing while reading forwards; and a successful read of all events with a
/// missing next position, which is sent as -1 and read back as the last position.
pub open spec fn survives_as_raw(a: AdaptedMessageModel) -> bool {
    match a {
        AdaptedMessageModel::NotHandled => false,
        AdaptedMessageModel::ReadStreamEventsCompleted(d, Ok(c)) => (c.next_page matches Some(
            EventNumber::Exact(_),
        )) || (c.next_page is None && d == ReadDirection::Backward),
        AdaptedMessageModel::ReadAllEventsCompleted(_, Ok(c)) => c.next_commit_position is Some
            && c.next_prepare_position is Some,
        _ => true,
    }
}

proof fn lemma_position_roundtrip(p: LogPosition)
    requires
        log_position_wf(p),
    ensures
        log_position_to_i64(p) >= -1,
        log_position_of(log_position_to_i64(p)) == p,
        log_position_or_none(log_position_to_i64(p)) == Some(p),
{
    crate::log_position::lemma_log_position_roundtrip(p);
}

proof fn lemma_read_all_events_roundtrip(evs: Seq<ResolvedEventModel>)
    requires
        forall|i: int|
            0 <= i < evs.len() ==> log_position_wf(#[trigger] evs[i].commit_position)
                && log_position_wf(evs[i].prepare_position),
    ensures
        forall|i: int|
            0 <= i < evs.len() ==> #[trigger] read_all::resolved_event_as_raw(evs[i]).commit_position >= -1
                && read_all::resolved_event_as_raw(evs[i]).prepare_position >= -1,
        evs.map_values(|e: ResolvedEventModel| read_all::resolved_event_as_raw(e)).map_values(
            |e: events::ResolvedEventModel| resolved_event_of(e),
        ) == evs,
{
    assert forall|i: int| 0 <= i < evs.len() implies #[trigger] read_all::resolved_event_as_raw(
        evs[i],
    ).commit_position >= -1 && read_all::resolved_event_as_raw(evs[i]).prepare_position >= -1 by {
        lemma_position_roundtrip(evs[i].commit_position);
        lemma_position_roundtrip(evs[i].prepare_position);
    }
    let back = evs.map_values(|e: ResolvedEventModel| read_all::resolved_event_as_raw(e)).map_values(
        |e: events::ResolvedEventModel| resolved_event_of(e),
    );
    assert forall|i: int| 0 <= i < evs.len() implies #[trigger] back[i] == evs[i] by {
        lemma_position_roundtrip(evs[i].commit_position);
        lemma_position_roundtrip(evs[i].prepare_position);
    }
    assert(back =~= evs);
}

/// Converting the raw form of a valid adapted message gets through and gives the message back,
/// for every message but those that `survives_as_raw` leaves out.
pub proof fn lemma_adapt_as_raw(a: AdaptedMessageModel)
    requires
        adapted_wf(a),
        survives_as_raw(a),
    ensures
        adapt(adapted_as_raw(a)) == Ok::<AdaptedMessageModel, ErrorKind>(a),
{
    match a {
        AdaptedMessageModel::WriteEventsCompleted(Ok(c)) => {
            if let Some(p) = c.prepare_position {
                lemma_position_roundtrip(p);
            }
            if let Some(p) = c.commit_position {
                lemma_position_roundtrip(p);
            }
            let r = write_completed_as_raw(c);
            assert(range_from_parts_spec(r.first_event_number, r.last_event_number) == Ok::<
                Range<StreamVersion>,
                ErrorKind,
            >(c.event_numbers));
            assert(opt_log_position_from(r.prepare_position) == Ok::<Option<LogPosition>, ErrorKind>(
                c.prepare_position,
            ));
            assert(opt_log_position_from(r.commit_position) == Ok::<Option<LogPosition>, ErrorKind>(
                c.commit_position,
            ));
        },
        AdaptedMessageModel::WriteEventsCompleted(Err(f)) => {
            write_events::lemma_write_failure_roundtrip(f, OperationResult::Success);
        },
        AdaptedMessageModel::ReadEventCompleted(Err(e)) => {
            read_event::lemma_read_event_error_roundtrip(e);
        },
        AdaptedMessageModel::ReadStreamEventsCompleted(d, Ok(c)) => {},
        AdaptedMessageModel::ReadStreamEventsCompleted(d, Err(e)) => {
            read_stream::lemma_read_stream_error_roundtrip(e);
        },
        AdaptedMessageModel::ReadAllEventsCompleted(d, Ok(c)) => {
            lemma_position_roundtrip(c.commit_position);
            lemma_position_roundtrip(c.prepare_position);
            lemma_position_roundtrip(c.next_commit_position->0);
            lemma_position_roundtrip(c.next_prepare_position->0);
            lemma_read_all_events_roundtrip(c.events);
            let r = read_all_completed_as_raw(c);
            assert forall|i: int| 0 <= i < r.events.len() implies #[trigger] r.events[i].commit_position
                >= -1 && r.events[i].prepare_position >= -1 by {
                assert(r.events[i] == read_all::resolved_event_as_raw(c.events[i]));
            }
            lemma_events_underflow_none(r.events, 0);
        },
        AdaptedMessageModel::ReadAllEventsCompleted(d, Err(e)) => {
            read_all::lemma_read_all_error_roundtrip(e);
        },
        AdaptedMessageModel::BadRequest(s) => {
            vstd::utf8::encode_utf8_valid_utf8(s);
            vstd::utf8::encode_utf8_decode_utf8(s);
        },
        AdaptedMessageModel::NotAuthenticated(s) => {
            vstd::utf8::encode_utf8_valid_utf8(s);
            vstd::utf8::encode_utf8_decode_utf8(s);
        },
        _ => {},
    }
}

/// The raw messages that converting and sending back leaves unchanged: the messages without
/// payload, the requests, the texts, a successful single event read without an error text,
/// and a write answer without an explanation whose failure carries no numbers or positions.
pub open spec fn kept_by_adapt(m: RawMessageModel) -> bool {
    match m {
        RawMessageModel::WriteEventsCompleted(w) => w.message is None && (w.result != Some(
            OperationResult::Success,
        ) ==> (w.first_event_number == -1 && w.last_event_number == -1 && w.prepare_position is None
            && w.commit_position is None)),
        RawMessageModel::ReadEventCompleted(r) => r.result == Some(ReadEventResult::Success)
            && r.error is None,
        RawMessageModel::ReadStreamEventsCompleted(_, _) => false,
        RawMessageModel::ReadAllEventsCompleted(_, _) => false,
        RawMessageModel::NotHandled(_) => false,
        RawMessageModel::Unsupported(_, _) => false,
        RawMessageModel::DeleteStream(_) => false,
        RawMessageModel::DeleteStreamCompleted(_) => false,
        _ => true,
    }
}

proof fn lemma_wire_position_roundtrip(x: i64)
    requires
        x >= -1,
    ensures
        log_position_to_i64(log_position_of(x)) == x,
{
}

/// Sending back the adapted message of a raw message that `kept_by_adapt` admits gives the raw
/// message again.
pub proof fn lemma_as_raw_adapt(m: RawMessageModel)
    requires
        adapt(m) is Ok,
        kept_by_adapt(m),
    ensures
        adapted_as_raw(adapt(m)->Ok_0) == m,
{
    match m {
        RawMessageModel::WriteEventsCompleted(w) => {
            if w.result == Some(OperationResult::Success) {
                if let Some(x) = w.prepare_position {
                    lemma_wire_position_roundtrip(x);
                }
                if let Some(x) = w.commit_position {
                    lemma_wire_position_roundtrip(x);
                }
            } else {
                write_events::lemma_write_failure_roundtrip(
                    WriteEventsFailure::AccessDenied,
                    w.result->0,
                );
            }
        },
        RawMessageModel::BadRequest(b) => {
            vstd::utf8::decode_utf8_encode_utf8(b);
        },
        RawMessageModel::NotAuthenticated(b) => {
            vstd::utf8::decode_utf8_encode_utf8(b);
        },
        _ => {},
    }
}

impl RawMessage {
    /// Validates and converts this message, as `AdaptedMessage::try_from` does.
    pub fn try_adapt(self) -> (res: Result<AdaptedMessage, (RawMessage, ErrorKind)>)
        ensures
            match res {
                Ok(a) => adapt(self@) == Ok::<AdaptedMessageModel, ErrorKind>(a@),
                Err((r, e)) => r@ == self@ && adapt(self@) == Err::<AdaptedMessageModel, ErrorKind>(e),
            },
    {
        AdaptedMessage::try_from(self)
    }
}

} // verus!
