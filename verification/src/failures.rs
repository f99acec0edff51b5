//! The non-success results of the protocol's result enumerations, each with the conversions
//! from and to the wire.
use vstd::prelude::*;
use crate::raw::write::{OperationResult, WriteEventsCompletedModel};
use crate::adapted::write_events::ends_with;
use crate::raw::read::{
    ReadEventResult, ReadEventCompleted, ReadStreamResult, ReadStreamEventsCompleted,
    ReadAllResult, ReadAllEventsCompleted,
};
use crate::raw::events::{EventRecord, ResolvedIndexedEvent, ResolvedIndexedEventModel, opt_string_view};
use crate::adapted::read_event::{
    ReadEventErrorModel, read_event_error_of, read_event_error_parts, read_event_error_as_raw,
    placeholder_event,
};
use crate::adapted::read_stream::{
    ReadStreamErrorModel, read_stream_error_of, read_stream_error_parts, read_stream_error_as_raw,
};
use crate::adapted::read_all::{
    ReadAllErrorModel, read_all_error_of, read_all_error_as_raw,
};
use crate::raw::events::ResolvedEventModel;

pub use crate::adapted::write_events::WriteEventsFailure;

verus! {

/// Like `OperationResult` on the wire but does not have a success value. Explains the reason for
/// failure.
#[derive(Debug, Clone, Copy, PartialEq, Eq, Structural)]
pub enum OperationFailure {
    /// Server failed to process the request before timeout
    PrepareTimeout,
    /// Server timed out while awaiting commit to be processed
    CommitTimeout,
    /// Server timed out while awaiting for a forwarded request to complete
    ForwardTimeout,
    /// Optimistic locking failure; stream version was not the expected
    WrongExpectedVersion,
    /// Stream has been deleted
    StreamDeleted,
    /// Transaction had been rolled back
    InvalidTransaction,
    /// No authentication provided or insufficient permissions to a stream
    AccessDenied,
}

/// The failure that a non-success wire result stands for.
pub open spec fn operation_failure_of(or: OperationResult) -> OperationFailure
    recommends
        or != OperationResult::Success,
{
    match or {
        OperationResult::PrepareTimeout => OperationFailure::PrepareTimeout,
        OperationResult::CommitTimeout => OperationFailure::CommitTimeout,
        OperationResult::ForwardTimeout => OperationFailure::ForwardTimeout,
        OperationResult::WrongExpectedVersion => OperationFailure::WrongExpectedVersion,
        OperationResult::StreamDeleted => OperationFailure::StreamDeleted,
        OperationResult::InvalidTransaction => OperationFailure::InvalidTransaction,
        _ => OperationFailure::AccessDenied,
    }
}

/// The wire result that a failure is sent as.
pub open spec fn operation_failure_result(f: OperationFailure) -> OperationResult {
    match f {
        OperationFailure::PrepareTimeout => OperationResult::PrepareTimeout,
        OperationFailure::CommitTimeout => OperationResult::CommitTimeout,
        OperationFailure::ForwardTimeout => OperationResult::ForwardTimeout,
        OperationFailure::WrongExpectedVersion => OperationResult::WrongExpectedVersion,
        OperationFailure::StreamDeleted => OperationResult::StreamDeleted,
        OperationFailure::InvalidTransaction => OperationResult::InvalidTransaction,
        OperationFailure::AccessDenied => OperationResult::AccessDenied,
    }
}

/// A failure is transient when retrying may resolve it: the three timeouts.
pub open spec fn operation_failure_is_transient(f: OperationFailure) -> bool {
    f is PrepareTimeout || f is CommitTimeout || f is ForwardTimeout
}

/// The text that describes a `OperationFailure`.
pub open spec fn operation_failure_description(f: OperationFailure) -> Seq<char> {
    match f {
        OperationFailure::PrepareTimeout => "Internal server timeout, should be retried"@,
        OperationFailure::CommitTimeout => "Internal server timeout, should be retried"@,
        OperationFailure::ForwardTimeout => "Server timed out while awaiting response to forwarded request, should be retried"@,
        OperationFailure::WrongExpectedVersion => "Stream version was not expected, optimistic locking failure"@,
        OperationFailure::StreamDeleted => "Stream had been deleted"@,
        OperationFailure::InvalidTransaction => "Transaction had been rolled back"@,
        OperationFailure::AccessDenied => "Access to stream was denied"@,
    }
}

/// A `OperationFailure` is transient, so that retrying may resolve it, exactly when its description
/// ends in "should be retried".
pub proof fn lemma_operation_failure_transient_iff_retry_advised(f: OperationFailure)
    ensures
        operation_failure_is_transient(f) <==> ends_with(operation_failure_description(f), "should be retried"@),
{
    reveal_strlit("should be retried");
    let t = "should be retried"@;
    let s = operation_failure_description(f);
    match f {
        OperationFailure::PrepareTimeout => {
            reveal_strlit("Internal server timeout, should be retried");
            assert(s.subrange(s.len() - t.len(), s.len() as int) =~= t);
        },
        OperationFailure::CommitTimeout => {
            reveal_strlit("Internal server timeout, should be retried");
            assert(s.subrange(s.len() - t.len(), s.len() as int) =~= t);
        },
        OperationFailure::ForwardTimeout => {
            reveal_strlit("Server timed out while awaiting response to forwarded request, should be retried");
            assert(s.subrange(s.len() - t.len(), s.len() as int) =~= t);
        },
        OperationFailure::WrongExpectedVersion => {
            reveal_strlit("Stream version was not expected, optimistic locking failure");
            assert(s.subrange(s.len() - t.len(), s.len() as int)[0] != t[0]);
        },
        OperationFailure::StreamDeleted => {
            reveal_strlit("Stream had been deleted");
            assert(s.subrange(s.len() - t.len(), s.len() as int)[0] != t[0]);
        },
        OperationFailure::InvalidTransaction => {
            reveal_strlit("Transaction had been rolled back");
            assert(s.subrange(s.len() - t.len(), s.len() as int)[0] != t[0]);
        },
        OperationFailure::AccessDenied => {
            reveal_strlit("Access to stream was denied");
            assert(s.subrange(s.len() - t.len(), s.len() as int)[1] != t[1]);
        },
    }
}

/// The wire message that a failed write is sent as.
pub open spec fn operation_failure_as_raw(f: OperationFailure) -> WriteEventsCompletedModel {
    WriteEventsCompletedModel {
        result: Some(operation_failure_result(f)),
        message: None,
        first_event_number: -1i32,
        last_event_number: -1i32,
        prepare_position: None,
        commit_position: None,
    }
}

/// Sending a failure as its wire result and reading it back gives the failure again; every
/// non-success result is the wire result of its failure.
pub proof fn lemma_operation_failure_roundtrip(f: OperationFailure, or: OperationResult)
    ensures
        operation_failure_result(f) != OperationResult::Success,
        operation_failure_of(operation_failure_result(f)) == f,
        or != OperationResult::Success ==> operation_failure_result(operation_failure_of(or)) == or,
{
}

impl OperationFailure {
    /// Return `true` if the operation failed in a transient way that might be resolved by
    /// retrying.
    pub fn is_transient(&self) -> (b: bool)
        ensures
            b == operation_failure_is_transient(*self),
    {
        match *self {
            OperationFailure::PrepareTimeout | OperationFailure::CommitTimeout
            | OperationFailure::ForwardTimeout => true,
            _ => false,
        }
    }

    /// The failure that the non-success wire result `or` stands for.
    pub fn from(or: OperationResult) -> (f: OperationFailure)
        requires
            or != OperationResult::Success,
        ensures
            f == operation_failure_of(or),
    {
        match or {
            OperationResult::PrepareTimeout => OperationFailure::PrepareTimeout,
            OperationResult::CommitTimeout => OperationFailure::CommitTimeout,
            OperationResult::ForwardTimeout => OperationFailure::ForwardTimeout,
            OperationResult::WrongExpectedVersion => OperationFailure::WrongExpectedVersion,
            OperationResult::StreamDeleted => OperationFailure::StreamDeleted,
            OperationResult::InvalidTransaction => OperationFailure::InvalidTransaction,
            _ => OperationFailure::AccessDenied,
        }
    }

    /// The wire result this failure is sent as.
    pub fn to_operation_result(self) -> (or: OperationResult)
        ensures
            or == operation_failure_result(self),
    {
        match self {
            OperationFailure::PrepareTimeout => OperationResult::PrepareTimeout,
            OperationFailure::CommitTimeout => OperationResult::CommitTimeout,
            OperationFailure::ForwardTimeout => OperationResult::ForwardTimeout,
            OperationFailure::WrongExpectedVersion => OperationResult::WrongExpectedVersion,
            OperationFailure::StreamDeleted => OperationResult::StreamDeleted,
            OperationFailure::InvalidTransaction => OperationResult::InvalidTransaction,
            OperationFailure::AccessDenied => OperationResult::AccessDenied,
        }
    }

    /// The wire message this failure is sent as.
    pub fn as_write_events_completed(&self) -> (m: crate::raw::write::WriteEventsCompleted)
        ensures
            m@ == operation_failure_as_raw(*self),
    {
        crate::raw::write::WriteEventsCompleted {
            result: Some(self.to_operation_result()),
            message: None,
            first_event_number: -1,
            last_event_number: -1,
            prepare_position: None,
            commit_position: None,
        }
    }

    /// A human readable explanation of the failure.
    pub fn description(&self) -> (s: &'static str)
        ensures
            *self is PrepareTimeout ==> s@ == "Internal server timeout, should be retried"@,
            *self is CommitTimeout ==> s@ == "Internal server timeout, should be retried"@,
            *self is ForwardTimeout ==> s@
                == "Server timed out while awaiting response to forwarded request, should be retried"@,
            *self is WrongExpectedVersion ==> s@
                == "Stream version was not expected, optimistic locking failure"@,
            *self is StreamDeleted ==> s@ == "Stream had been deleted"@,
            *self is InvalidTransaction ==> s@ == "Transaction had been rolled back"@,
            *self is AccessDenied ==> s@ == "Access to stream was denied"@,
            s@ == operation_failure_description(*self),
    {
        match *self {
            OperationFailure::PrepareTimeout => "Internal server timeout, should be retried",
            OperationFailure::CommitTimeout => "Internal server timeout, should be retried",
            OperationFailure::ForwardTimeout =>
                "Server timed out while awaiting response to forwarded request, should be retried",
            OperationFailure::WrongExpectedVersion =>
                "Stream version was not expected, optimistic locking failure",
            OperationFailure::StreamDeleted => "Stream had been deleted",
            OperationFailure::InvalidTransaction => "Transaction had been rolled back",
            OperationFailure::AccessDenied => "Access to stream was denied",
        }
    }
}

/// `ReadEventFailure` maps to non-success of `ReadEventResult`
#[derive(Debug, Clone, PartialEq, Eq)]
pub enum ReadEventFailure {
    /// Event of requested number was not found (scavenged or never existed)
    NotFound,
    /// No such stream
    NoStream,
    /// Stream has been deleted
    StreamDeleted,
    /// Other error
    Error(Option<String>),
    /// Access was denied (no credentials provided or insufficient permissions)
    AccessDenied,
}

impl View for ReadEventFailure {
    type V = ReadEventErrorModel;

    open spec fn view(&self) -> ReadEventErrorModel {
        match self {
            ReadEventFailure::NotFound => ReadEventErrorModel::NotFound,
            ReadEventFailure::NoStream => ReadEventErrorModel::NoStream,
            ReadEventFailure::StreamDeleted => ReadEventErrorModel::StreamDeleted,
            ReadEventFailure::Error(m) => ReadEventErrorModel::Error(opt_string_view(*m)),
            ReadEventFailure::AccessDenied => ReadEventErrorModel::AccessDenied,
        }
    }
}

fn copy_opt_string(s: &Option<String>) -> (c: Option<String>)
    ensures
        opt_string_view(c) == opt_string_view(*s),
{
    match s {
        Some(x) => Some(x.clone()),
        None => None,
    }
}

impl ReadEventFailure {
    /// The failure that the non-success result `res` stands for, keeping `err` for `Error`.
    pub fn from(res: ReadEventResult, err: Option<String>) -> (f: ReadEventFailure)
        requires
            res != ReadEventResult::Success,
        ensures
            f@ == read_event_error_of(res, opt_string_view(err)),
    {
        match res {
            ReadEventResult::NotFound => ReadEventFailure::NotFound,
            ReadEventResult::NoStream => ReadEventFailure::NoStream,
            ReadEventResult::StreamDeleted => ReadEventFailure::StreamDeleted,
            ReadEventResult::Error => ReadEventFailure::Error(err),
            _ => ReadEventFailure::AccessDenied,
        }
    }

    /// The wire result and message this failure is sent as.
    pub fn into_parts(self) -> (parts: (ReadEventResult, Option<String>))
        ensures
            (parts.0, opt_string_view(parts.1)) == read_event_error_parts(self@),
    {
        match self {
            ReadEventFailure::NotFound => (ReadEventResult::NotFound, None),
            ReadEventFailure::NoStream => (ReadEventResult::NoStream, None),
            ReadEventFailure::StreamDeleted => (ReadEventResult::StreamDeleted, None),
            ReadEventFailure::Error(x) => (ReadEventResult::Error, x),
            ReadEventFailure::AccessDenied => (ReadEventResult::AccessDenied, None),
        }
    }

    /// The wire message this failure is sent as, beside a placeholder event.
    pub fn as_read_event_completed(&self) -> (m: ReadEventCompleted)
        ensures
            m@ == read_event_error_as_raw(self@),
    {
        let (res, msg): (ReadEventResult, Option<String>) = match self {
            ReadEventFailure::NotFound => (ReadEventResult::NotFound, None),
            ReadEventFailure::NoStream => (ReadEventResult::NoStream, None),
            ReadEventFailure::StreamDeleted => (ReadEventResult::StreamDeleted, None),
            ReadEventFailure::Error(x) => (ReadEventResult::Error, copy_opt_string(x)),
            ReadEventFailure::AccessDenied => (ReadEventResult::AccessDenied, None),
        };
        let m = ReadEventCompleted {
            result: Some(res),
            event: ResolvedIndexedEvent {
                event: EventRecord {
                    event_stream_id: String::new(),
                    event_number: -1,
                    event_id: Vec::new(),
                    event_type: String::new(),
                    data_content_type: 0,
                    metadata_content_type: 0,
                    data: Vec::new(),
                    metadata: None,
                    created: None,
                    created_epoch: None,
                },
                link: None,
            },
            error: msg,
        };
        assert(m@.event.event =~= placeholder_event().event);
        m
    }
}

/// Non-success projection of the `ReadStreamResult` enum on the wire representing
/// a failed stream read.
#[derive(Debug, Clone, PartialEq, Eq)]
pub enum ReadStreamFailure {
    /// Stream was not found
    NoStream,
    /// Stream has been deleted
    StreamDeleted,
    /// Unknown when this happens: it is not retuned when reading past the last event in a stream
    /// forwards.
    NotModified,
    /// Other error
    Error(Option<String>),
    /// Access was denied (no credentials provided or insufficient permissions)
    AccessDenied,
}

impl View for ReadStreamFailure {
    type V = ReadStreamErrorModel;

    open spec fn view(&self) -> ReadStreamErrorModel {
        match self {
            ReadStreamFailure::NoStream => ReadStreamErrorModel::NoStream,
            ReadStreamFailure::StreamDeleted => ReadStreamErrorModel::StreamDeleted,
            ReadStreamFailure::NotModified => ReadStreamErrorModel::NotModified,
            ReadStreamFailure::Error(m) => ReadStreamErrorModel::Error(opt_string_view(*m)),
            ReadStreamFailure::AccessDenied => ReadStreamErrorModel::AccessDenied,
        }
    }
}

impl ReadStreamFailure {
    /// The failure that the non-success result `res` stands for, keeping `err` for `Error`.
    pub fn from(res: ReadStreamResult, err: Option<String>) -> (f: ReadStreamFailure)
        requires
            res != ReadStreamResult::Success,
        ensures
            f@ == read_stream_error_of(res, opt_string_view(err)),
    {
        match res {
            ReadStreamResult::NoStream => ReadStreamFailure::NoStream,
            ReadStreamResult::StreamDeleted => ReadStreamFailure::StreamDeleted,
            ReadStreamResult::NotModified => ReadStreamFailure::NotModified,
            ReadStreamResult::Error => ReadStreamFailure::Error(err),
            _ => ReadStreamFailure::AccessDenied,
        }
    }

    /// The wire result and message this failure is sent as.
    pub fn into_parts(self) -> (parts: (ReadStreamResult, Option<String>))
        ensures
            (parts.0, opt_string_view(parts.1)) == read_stream_error_parts(self@),
    {
        match self {
            ReadStreamFailure::NoStream => (ReadStreamResult::NoStream, None),
            ReadStreamFailure::StreamDeleted => (ReadStreamResult::StreamDeleted, None),
            ReadStreamFailure::NotModified => (ReadStreamResult::NotModified, None),
            ReadStreamFailure::Error(x) => (ReadStreamResult::Error, x),
            ReadStreamFailure::AccessDenied => (ReadStreamResult::AccessDenied, None),
        }
    }

    /// The wire message this failure is sent as: no events, and -1 for the numbers and the
    /// position.
    pub fn as_message_write(&self) -> (m: ReadStreamEventsCompleted)
        ensures
            m@ == read_stream_error_as_raw(self@),
    {
        let (res, msg): (ReadStreamResult, Option<String>) = match self {
            ReadStreamFailure::NoStream => (ReadStreamResult::NoStream, None),
            ReadStreamFailure::StreamDeleted => (ReadStreamResult::StreamDeleted, None),
            ReadStreamFailure::NotModified => (ReadStreamResult::NotModified, None),
            ReadStreamFailure::Error(x) => (ReadStreamResult::Error, copy_opt_string(x)),
            ReadStreamFailure::AccessDenied => (ReadStreamResult::AccessDenied, None),
        };
        let m = ReadStreamEventsCompleted {
            events: Vec::new(),
            result: Some(res),
            next_event_number: -1,
            last_event_number: -1,
            is_end_of_stream: false,
            last_commit_position: -1,
            error: msg,
        };
        assert(m@.events =~= Seq::<ResolvedIndexedEventModel>::empty());
        m
    }
}

/// Failure cases of wire enum `ReadAllResult`.
#[derive(Debug, Clone, PartialEq)]
pub enum ReadAllFailure {
    /// Unknown when this happens,
    NotModified,
    /// Other error
    Error(Option<String>),
    /// Access was denied (no credentials provided or insufficient permissions)
    AccessDenied,
}

impl View for ReadAllFailure {
    type V = ReadAllErrorModel;

    open spec fn view(&self) -> ReadAllErrorModel {
        match self {
            ReadAllFailure::NotModified => ReadAllErrorModel::NotModified,
            ReadAllFailure::Error(m) => ReadAllErrorModel::Error(opt_string_view(*m)),
            ReadAllFailure::AccessDenied => ReadAllErrorModel::AccessDenied,
        }
    }
}

impl ReadAllFailure {
    /// The failure that the non-success result `r` stands for, keeping `msg` for `Error`.
    pub fn from(r: ReadAllResult, msg: Option<String>) -> (f: ReadAllFailure)
        requires
            r != ReadAllResult::Success,
        ensures
            f@ == read_all_error_of(r, opt_string_view(msg)),
    {
        match r {
            ReadAllResult::NotModified => ReadAllFailure::NotModified,
            ReadAllResult::Error => ReadAllFailure::Error(msg),
            _ => ReadAllFailure::AccessDenied,
        }
    }

    /// The wire message this failure is sent as: no events, and -1 for every position.
    pub fn as_message_write(&self) -> (m: ReadAllEventsCompleted)
        ensures
            m@ == read_all_error_as_raw(self@),
    {
        let (res, msg): (ReadAllResult, Option<String>) = match self {
            ReadAllFailure::NotModified => (ReadAllResult::NotModified, None),
            ReadAllFailure::Error(x) => (ReadAllResult::Error, copy_opt_string(x)),
            ReadAllFailure::AccessDenied => (ReadAllResult::AccessDenied, None),
        };
        let m = ReadAllEventsCompleted {
            commit_position: -1,
            prepare_position: -1,
            events: Vec::new(),
            next_commit_position: -1,
            next_prepare_position: -1,
            result: res,
            error: msg,
        };
        assert(m@.events =~= Seq::<ResolvedEventModel>::empty());
        m
    }
}

/// Each failing result of an operation is the failure of the same name, and that failure is
/// sent back as that result.
pub proof fn lemma_operation_failures_by_name()
    ensures
        operation_failure_of(OperationResult::PrepareTimeout) == OperationFailure::PrepareTimeout,
        operation_failure_result(OperationFailure::PrepareTimeout) == OperationResult::PrepareTimeout,
        operation_failure_of(OperationResult::CommitTimeout) == OperationFailure::CommitTimeout,
        operation_failure_result(OperationFailure::CommitTimeout) == OperationResult::CommitTimeout,
        operation_failure_of(OperationResult::ForwardTimeout) == OperationFailure::ForwardTimeout,
        operation_failure_result(OperationFailure::ForwardTimeout) == OperationResult::ForwardTimeout,
        operation_failure_of(OperationResult::WrongExpectedVersion) == OperationFailure::WrongExpectedVersion,
        operation_failure_result(OperationFailure::WrongExpectedVersion) == OperationResult::WrongExpectedVersion,
        operation_failure_of(OperationResult::StreamDeleted) == OperationFailure::StreamDeleted,
        operation_failure_result(OperationFailure::StreamDeleted) == OperationResult::StreamDeleted,
        operation_failure_of(OperationResult::InvalidTransaction) == OperationFailure::InvalidTransaction,
        operation_failure_result(OperationFailure::InvalidTransaction) == OperationResult::InvalidTransaction,
        operation_failure_of(OperationResult::AccessDenied) == OperationFailure::AccessDenied,
        operation_failure_result(OperationFailure::AccessDenied) == OperationResult::AccessDenied,
{
}

} // verus!
