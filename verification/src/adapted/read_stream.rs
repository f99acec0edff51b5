//! The refined answer to a `ReadStreamEvents` request.
use vstd::prelude::*;
use crate::raw::read::{ReadStreamResult, ReadStreamEventsCompleted, ReadStreamEventsCompletedModel};
use crate::raw::events::{ResolvedIndexedEvent, ResolvedIndexedEventModel};
use crate::stream_version::StreamVersion;
use crate::event_number::{EventNumber, event_number_to_i32};
use crate::raw::events::opt_string_view;

verus! {

/// Successful response to a `ReadStreamEvents` request.
#[derive(Debug, Clone, PartialEq)]
pub struct ReadStreamCompleted {
    /// The actual events returned by the server. Subject to `resolve_link_tos` setting on the read
    /// request.
    pub events: Vec<ResolvedIndexedEvent>,
    /// `EventNumber` for a query for the next page in the same direction, `None` if start has been
    /// reached when reading backwards. When reading forwards, this will never be `None` as new
    /// events might have appeared while receiving this response.
    pub next_page: Option<EventNumber>,
    /// Event number of the last event
    pub last_event_number: StreamVersion,
    /// Has the end of the stream been reached (or could more events be read immediatedly)
    pub end_of_stream: bool,
    /// Last commit position of the last event.
    pub last_commit_position: i64,
}

/// The model of a `ReadStreamCompleted`: its events by their models.
pub struct ReadStreamCompletedModel {
    pub events: Seq<ResolvedIndexedEventModel>,
    pub next_page: Option<EventNumber>,
    pub last_event_number: StreamVersion,
    pub end_of_stream: bool,
    pub last_commit_position: i64,
}

impl View for ReadStreamCompleted {
    type V = ReadStreamCompletedModel;

    open spec fn view(&self) -> ReadStreamCompletedModel {
        ReadStreamCompletedModel {
            events: self.events@.map_values(|e: ResolvedIndexedEvent| e@),
            next_page: self.next_page,
            last_event_number: self.last_event_number,
            end_of_stream: self.end_of_stream,
            last_commit_position: self.last_commit_position,
        }
    }
}

/// Non-success projection of the `ReadStreamResult` enum on the wire representing
/// a failed `ReadStreamCompleted` request.
#[derive(Debug, Clone, PartialEq, Eq)]
pub enum ReadStreamError {
    /// Stream was not found
    NoStream,
    /// Stream has been deleted
    StreamDeleted,
    /// Unknown when this happens: it is not retuned when reading past the last event in a stream
    /// forwards.
    NotModified,
    /// Other error
    Error(Option<String>),
    /// Access was denied (no credentials provided or insufficient permissions)
    AccessDenied,
}

/// The model of a `ReadStreamError`: its message as characters.
pub enum ReadStreamErrorModel {
    NoStream,
    StreamDeleted,
    NotModified,
    Error(Option<Seq<char>>),
    AccessDenied,
}

impl View for ReadStreamError {
    type V = ReadStreamErrorModel;

    open spec fn view(&self) -> ReadStreamErrorModel {
        match self {
            ReadStreamError::NoStream => ReadStreamErrorModel::NoStream,
            ReadStreamError::StreamDeleted => ReadStreamErrorModel::StreamDeleted,
            ReadStreamError::NotModified => ReadStreamErrorModel::NotModified,
            ReadStreamError::Error(m) => ReadStreamErrorModel::Error(opt_string_view(*m)),
            ReadStreamError::AccessDenied => ReadStreamErrorModel::AccessDenied,
        }
    }
}

/// The error that a non-success result and its message stand for; the message is kept only
/// for `Error`.
pub open spec fn read_stream_error_of(res: ReadStreamResult, msg: Option<Seq<char>>) -> ReadStreamErrorModel {
    match res {
        ReadStreamResult::NoStream => ReadStreamErrorModel::NoStream,
        ReadStreamResult::StreamDeleted => ReadStreamErrorModel::StreamDeleted,
        ReadStreamResult::NotModified => ReadStreamErrorModel::NotModified,
        ReadStreamResult::Error => ReadStreamErrorModel::Error(msg),
        _ => ReadStreamErrorModel::AccessDenied,
    }
}

/// The wire result and message that an error is sent as.
pub open spec fn read_stream_error_parts(e: ReadStreamErrorModel) -> (ReadStreamResult, Option<Seq<char>>) {
    match e {
        ReadStreamErrorModel::NoStream => (ReadStreamResult::NoStream, None),
        ReadStreamErrorModel::StreamDeleted => (ReadStreamResult::StreamDeleted, None),
        ReadStreamErrorModel::NotModified => (ReadStreamResult::NotModified, None),
        ReadStreamErrorModel::Error(m) => (ReadStreamResult::Error, m),
        ReadStreamErrorModel::AccessDenied => (ReadStreamResult::AccessDenied, None),
    }
}

/// Sending an error as its parts and reading them back gives the error again.
pub proof fn lemma_read_stream_error_roundtrip(e: ReadStreamErrorModel)
    ensures
        read_stream_error_parts(e).0 != ReadStreamResult::Success,
        read_stream_error_of(read_stream_error_parts(e).0, read_stream_error_parts(e).1) == e,
{
}

/// The wire value of the next page: -1 when there is none.
pub open spec fn next_page_to_i32(p: Option<EventNumber>) -> i32 {
    match p {
        Some(n) => event_number_to_i32(n),
        None => -1i32,
    }
}

/// The wire message that a successful read is sent as.
pub open spec fn read_stream_completed_as_raw(c: ReadStreamCompletedModel) -> ReadStreamEventsCompletedModel {
    ReadStreamEventsCompletedModel {
        events: c.events,
        result: Some(ReadStreamResult::Success),
        next_event_number: next_page_to_i32(c.next_page),
        last_event_number: c.last_event_number.value() as i32,
        is_end_of_stream: c.end_of_stream,
        last_commit_position: c.last_commit_position,
        error: None,
    }
}

/// The wire message that a failed read is sent as: no events, and -1 for the numbers and the
/// position.
pub open spec fn read_stream_error_as_raw(e: ReadStreamErrorModel) -> ReadStreamEventsCompletedModel {
    ReadStreamEventsCompletedModel {
        events: Seq::empty(),
        result: Some(read_stream_error_parts(e).0),
        next_event_number: -1i32,
        last_event_number: -1i32,
        is_end_of_stream: false,
        last_commit_position: -1i64,
        error: read_stream_error_parts(e).1,
    }
}

impl ReadStreamCompleted {
    /// The wire message this successful read is sent as.
    pub fn as_raw(&self) -> (m: ReadStreamEventsCompleted)
        ensures
            m@ == read_stream_completed_as_raw(self@),
    {
        let mut events: Vec<ResolvedIndexedEvent> = Vec::new();
        let mut k: usize = 0;
        while k < self.events.len()
            invariant
                k <= self.events@.len(),
                events@.map_values(|e: ResolvedIndexedEvent| e@) =~= self@.events.take(k as int),
            decreases self.events@.len() - k,
        {
            let e = self.events[k].copy();
            events.push(e);
            assert(self@.events.take(k + 1) =~= self@.events.take(k as int).push(e@));
            k = k + 1;
        }
        assert(self@.events.take(k as int) =~= self@.events);
        let next: i32 = match self.next_page {
            Some(n) => n.to_i32(),
            None => -1,
        };
        ReadStreamEventsCompleted {
            events: events,
            result: Some(ReadStreamResult::Success),
            next_event_number: next,
            last_event_number: self.last_event_number.to_i32(),
            is_end_of_stream: self.end_of_stream,
            last_commit_position: self.last_commit_position,
            error: None,
        }
    }
}

impl ReadStreamError {
    /// The wire message this failure is sent as.
    pub fn as_raw(&self) -> (m: ReadStreamEventsCompleted)
        ensures
            m@ == read_stream_error_as_raw(self@),
    {
        let (res, msg): (ReadStreamResult, Option<String>) = match self {
            ReadStreamError::NoStream => (ReadStreamResult::NoStream, None),
            ReadStreamError::StreamDeleted => (ReadStreamResult::StreamDeleted, None),
            ReadStreamError::NotModified => (ReadStreamResult::NotModified, None),
            ReadStreamError::Error(x) => (ReadStreamResult::Error, match x {
                Some(s) => Some(s.clone()),
                None => None,
            }),
            ReadStreamError::AccessDenied => (ReadStreamResult::AccessDenied, None),
        };
        let m = ReadStreamEventsCompleted {
            events: Vec::new(),
            result: Some(res),
            next_event_number: -1,
            last_event_number: -1,
            is_end_of_stream: false,
            last_commit_position: -1,
            error: msg,
        };
        assert(m@.events =~= Seq::<ResolvedIndexedEventModel>::empty());
        m
    }

    /// The error that the non-success result `res` stands for, keeping `msg` for `Error`.
    pub fn from(res: ReadStreamResult, msg: Option<String>) -> (e: ReadStreamError)
        requires
            res != ReadStreamResult::Success,
        ensures
            e@ == read_stream_error_of(res, opt_string_view(msg)),
    {
        match res {
            ReadStreamResult::NoStream => ReadStreamError::NoStream,
            ReadStreamResult::StreamDeleted => ReadStreamError::StreamDeleted,
            ReadStreamResult::NotModified => ReadStreamError::NotModified,
            ReadStreamResult::Error => ReadStreamError::Error(msg),
            _ => ReadStreamError::AccessDenied,
        }
    }
}

/// Each non-success result of a stream read is the error of the same name, and that error is
/// sent back as that result; only `Error` keeps the message.
pub proof fn lemma_read_stream_errors_by_name(msg: Option<Seq<char>>)
    ensures
        read_stream_error_of(ReadStreamResult::NoStream, msg) == ReadStreamErrorModel::NoStream,
        read_stream_error_of(ReadStreamResult::StreamDeleted, msg) == ReadStreamErrorModel::StreamDeleted,
        read_stream_error_of(ReadStreamResult::NotModified, msg) == ReadStreamErrorModel::NotModified,
        read_stream_error_of(ReadStreamResult::Error, msg) == ReadStreamErrorModel::Error(msg),
        read_stream_error_of(ReadStreamResult::AccessDenied, msg) == ReadStreamErrorModel::AccessDenied,
        read_stream_error_parts(ReadStreamErrorModel::NoStream) == (ReadStreamResult::NoStream, None::<Seq<char>>),
        read_stream_error_parts(ReadStreamErrorModel::StreamDeleted) == (ReadStreamResult::StreamDeleted, None::<Seq<char>>),
        read_stream_error_parts(ReadStreamErrorModel::NotModified) == (ReadStreamResult::NotModified, None::<Seq<char>>),
        read_stream_error_parts(ReadStreamErrorModel::Error(msg)) == (ReadStreamResult::Error, msg),
        read_stream_error_parts(ReadStreamErrorModel::AccessDenied) == (ReadStreamResult::AccessDenied, None::<Seq<char>>),
{
}

} // verus!
