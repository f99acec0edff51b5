//! The refined answer to a `WriteEvents` request.
use vstd::prelude::*;
use std::ops::Range;
use crate::stream_version::StreamVersion;
use crate::log_position::LogPosition;
use crate::raw::write::{OperationResult, WriteEventsCompletedModel};
use crate::log_position::log_position_to_i64;
use crate::adapted::{range_to_parts, range_to_parts_spec};

verus! {

/// Successful response to a `WriteEvents` request.
#[derive(Debug, PartialEq, Eq)]
pub struct WriteEventsCompleted {
    /// The event number range assigned to the written events
    pub event_numbers: Range<StreamVersion>,
    /// Position for `$all` query for one of the written events, perhaps the first?
    pub prepare_position: Option<LogPosition>,
    /// These can be used to locate last written event from the `$all` stream
    pub commit_position: Option<LogPosition>,
}

/// Like `OperationResult` on the wire but does not have a success value. Explains the reason for
/// failure.
#[derive(Debug, Clone, Copy, PartialEq, Eq, Structural)]
pub enum WriteEventsFailure {
    /// Server failed to process the request before timeout
    PrepareTimeout,
    /// Server timed out while awaiting commit to be processed
    CommitTimeout,
    /// Server timed out while awaiting for a forwarded request to complete
    ForwardTimeout,
    /// Optimistic locking failure; stream version was not the expected
    WrongExpectedVersion,
    /// Stream has been deleted
    StreamDeleted,
    /// No authentication provided or insufficient permissions to a stream
    AccessDenied,
}

/// The failure that a wire result stands for; `Success` and `InvalidTransaction` have none.
pub open spec fn write_failure_of(or: OperationResult) -> Option<WriteEventsFailure> {
    match or {
        OperationResult::Success => None,
        OperationResult::PrepareTimeout => Some(WriteEventsFailure::PrepareTimeout),
        OperationResult::CommitTimeout => Some(WriteEventsFailure::CommitTimeout),
        OperationResult::ForwardTimeout => Some(WriteEventsFailure::ForwardTimeout),
        OperationResult::WrongExpectedVersion => Some(WriteEventsFailure::WrongExpectedVersion),
        OperationResult::StreamDeleted => Some(WriteEventsFailure::StreamDeleted),
        OperationResult::InvalidTransaction => None,
        OperationResult::AccessDenied => Some(WriteEventsFailure::AccessDenied),
    }
}

/// The wire result that a failure is sent as.
pub open spec fn write_failure_result(f: WriteEventsFailure) -> OperationResult {
    match f {
        WriteEventsFailure::PrepareTimeout => OperationResult::PrepareTimeout,
        WriteEventsFailure::CommitTimeout => OperationResult::CommitTimeout,
        WriteEventsFailure::ForwardTimeout => OperationResult::ForwardTimeout,
        WriteEventsFailure::WrongExpectedVersion => OperationResult::WrongExpectedVersion,
        WriteEventsFailure::StreamDeleted => OperationResult::StreamDeleted,
        WriteEventsFailure::AccessDenied => OperationResult::AccessDenied,
    }
}

/// A failure is transient when retrying may resolve it: the three timeouts.
pub open spec fn write_failure_is_transient(f: WriteEventsFailure) -> bool {
    f is PrepareTimeout || f is CommitTimeout || f is ForwardTimeout
}

/// Whether `s` ends with `t`.
pub open spec fn ends_with(s: Seq<char>, t: Seq<char>) -> bool {
    t.len() <= s.len() && s.subrange(s.len() - t.len(), s.len() as int) == t
}

/// The text that describes a `WriteEventsFailure`.
pub open spec fn write_failure_description(f: WriteEventsFailure) -> Seq<char> {
    match f {
        WriteEventsFailure::PrepareTimeout => "Internal server timeout, should be retried"@,
        WriteEventsFailure::CommitTimeout => "Internal server timeout, should be retried"@,
        WriteEventsFailure::ForwardTimeout => "Server timed out while awaiting response to forwarded request, should be retried"@,
        WriteEventsFailure::WrongExpectedVersion => "Stream version was not expected, optimistic locking failure"@,
        WriteEventsFailure::StreamDeleted => "Stream had been deleted"@,
        WriteEventsFailure::AccessDenied => "Access to stream was denied"@,
    }
}

/// A `WriteEventsFailure` is transient, so that retrying may resolve it, exactly when its description
/// ends in "should be retried".
pub proof fn lemma_write_failure_transient_iff_retry_advised(f: WriteEventsFailure)
    ensures
        write_failure_is_transient(f) <==> ends_with(write_failure_description(f), "should be retried"@),
{
    reveal_strlit("should be retried");
    let t = "should be retried"@;
    let s = write_failure_description(f);
    match f {
        WriteEventsFailure::PrepareTimeout => {
            reveal_strlit("Internal server timeout, should be retried");
            assert(s.subrange(s.len() - t.len(), s.len() as int) =~= t);
        },
        WriteEventsFailure::CommitTimeout => {
            reveal_strlit("Internal server timeout, should be retried");
            assert(s.subrange(s.len() - t.len(), s.len() as int) =~= t);
        },
        WriteEventsFailure::ForwardTimeout => {
            reveal_strlit("Server timed out while awaiting response to forwarded request, should be retried");
            assert(s.subrange(s.len() - t.len(), s.len() as int) =~= t);
        },
        WriteEventsFailure::WrongExpectedVersion => {
            reveal_strlit("Stream version was not expected, optimistic locking failure");
            assert(s.subrange(s.len() - t.len(), s.len() as int)[0] != t[0]);
        },
        WriteEventsFailure::StreamDeleted => {
            reveal_strlit("Stream had been deleted");
            assert(s.subrange(s.len() - t.len(), s.len() as int)[0] != t[0]);
        },
        WriteEventsFailure::AccessDenied => {
            reveal_strlit("Access to stream was denied");
            assert(s.subrange(s.len() - t.len(), s.len() as int)[1] != t[1]);
        },
    }
}

/// Sending a failure as its wire result and reading that result back gives the failure again,
/// and a result that stands for a failure is the wire result of that failure.
pub proof fn lemma_write_failure_roundtrip(f: WriteEventsFailure, or: OperationResult)
    ensures
        write_failure_of(write_failure_result(f)) == Some(f),
        write_failure_of(or) matches Some(g) ==> write_failure_result(g) == or,
{
}

/// The wire value of an optional log position.
pub open spec fn opt_log_position_to_i64(p: Option<LogPosition>) -> Option<i64> {
    match p {
        Some(x) => Some(log_position_to_i64(x)),
        None => None,
    }
}

/// The wire message that a successful write is sent as: the range as its first and last
/// event numbers.
pub open spec fn write_completed_as_raw(c: WriteEventsCompleted) -> WriteEventsCompletedModel {
    WriteEventsCompletedModel {
        result: Some(OperationResult::Success),
        message: None,
        first_event_number: range_to_parts_spec(c.event_numbers).0,
        last_event_number: range_to_parts_spec(c.event_numbers).1,
        prepare_position: opt_log_position_to_i64(c.prepare_position),
        commit_position: opt_log_position_to_i64(c.commit_position),
    }
}

/// The wire message that a failed write is sent as.
pub open spec fn write_failure_as_raw(f: WriteEventsFailure) -> WriteEventsCompletedModel {
    WriteEventsCompletedModel {
        result: Some(write_failure_result(f)),
        message: None,
        first_event_number: -1i32,
        last_event_number: -1i32,
        prepare_position: None,
        commit_position: None,
    }
}

fn opt_position_to_i64(p: Option<LogPosition>) -> (v: Option<i64>)
    ensures
        v == opt_log_position_to_i64(p),
{
    match p {
        Some(x) => Some(x.to_i64()),
        None => None,
    }
}

impl WriteEventsCompleted {
    /// The wire message this successful write is sent as.
    pub fn as_raw(&self) -> (m: crate::raw::write::WriteEventsCompleted)
        ensures
            m@ == write_completed_as_raw(*self),
    {
        let parts = range_to_parts(&self.event_numbers);
        crate::raw::write::WriteEventsCompleted {
            result: Some(OperationResult::Success),
            message: None,
            first_event_number: parts.0,
            last_event_number: parts.1,
            prepare_position: opt_position_to_i64(self.prepare_position),
            commit_position: opt_position_to_i64(self.commit_position),
        }
    }
}

impl WriteEventsFailure {
    /// The wire message this failure is sent as.
    pub fn as_raw(&self) -> (m: crate::raw::write::WriteEventsCompleted)
        ensures
            m@ == write_failure_as_raw(*self),
    {
        crate::raw::write::WriteEventsCompleted {
            result: Some(self.to_operation_result()),
            message: None,
            first_event_number: -1,
            last_event_number: -1,
            prepare_position: None,
            commit_position: None,
        }
    }

    /// Return `true` if the operation failed in a transient way that might be resolved by
    /// retrying.
    pub fn is_transient(&self) -> (b: bool)
        ensures
            b == write_failure_is_transient(*self),
    {
        match *self {
            WriteEventsFailure::PrepareTimeout | WriteEventsFailure::CommitTimeout
            | WriteEventsFailure::ForwardTimeout => true,
            _ => false,
        }
    }

    /// The failure that the wire result `or` stands for; `or` is neither `Success` nor
    /// `InvalidTransaction`.
    pub fn from(or: OperationResult) -> (f: WriteEventsFailure)
        requires
            write_failure_of(or) is Some,
        ensures
            write_failure_of(or) == Some(f),
    {
        match or {
            OperationResult::PrepareTimeout => WriteEventsFailure::PrepareTimeout,
            OperationResult::CommitTimeout => WriteEventsFailure::CommitTimeout,
            OperationResult::ForwardTimeout => WriteEventsFailure::ForwardTimeout,
            OperationResult::WrongExpectedVersion => WriteEventsFailure::WrongExpectedVersion,
            OperationResult::StreamDeleted => WriteEventsFailure::StreamDeleted,
            _ => WriteEventsFailure::AccessDenied,
        }
    }

    /// The wire result this failure is sent as.
    pub fn to_operation_result(self) -> (or: OperationResult)
        ensures
            or == write_failure_result(self),
    {
        match self {
            WriteEventsFailure::PrepareTimeout => OperationResult::PrepareTimeout,
            WriteEventsFailure::CommitTimeout => OperationResult::CommitTimeout,
            WriteEventsFailure::ForwardTimeout => OperationResult::ForwardTimeout,
            WriteEventsFailure::WrongExpectedVersion => OperationResult::WrongExpectedVersion,
            WriteEventsFailure::StreamDeleted => OperationResult::StreamDeleted,
            WriteEventsFailure::AccessDenied => OperationResult::AccessDenied,
        }
    }

    /// A human readable explanation of the failure.
    pub fn description(&self) -> (s: &'static str)
        ensures
            *self is PrepareTimeout ==> s@ == "Internal server timeout, should be retried"@,
            *self is CommitTimeout ==> s@ == "Internal server timeout, should be retried"@,
            *self is ForwardTimeout ==> s@
                == "Server timed out while awaiting response to forwarded request, should be retried"@,
            *self is WrongExpectedVersion ==> s@
                == "Stream version was not expected, optimistic locking failure"@,
            *self is StreamDeleted ==> s@ == "Stream had been deleted"@,
            *self is AccessDenied ==> s@ == "Access to stream was denied"@,
            s@ == write_failure_description(*self),
    {
        match *self {
            WriteEventsFailure::PrepareTimeout => "Internal server timeout, should be retried",
            WriteEventsFailure::CommitTimeout => "Internal server timeout, should be retried",
            WriteEventsFailure::ForwardTimeout =>
                "Server timed out while awaiting response to forwarded request, should be retried",
            WriteEventsFailure::WrongExpectedVersion =>
                "Stream version was not expected, optimistic locking failure",
            WriteEventsFailure::StreamDeleted => "Stream had been deleted",
            WriteEventsFailure::AccessDenied => "Access to stream was denied",
        }
    }
}

/// Each failing result of a write is the failure of the same name, and that failure is sent back
/// as that result; `Success` and `InvalidTransaction` are no failures of a write.
pub proof fn lemma_write_failures_by_name()
    ensures
        write_failure_of(OperationResult::PrepareTimeout) == Some(WriteEventsFailure::PrepareTimeout),
        write_failure_result(WriteEventsFailure::PrepareTimeout) == OperationResult::PrepareTimeout,
        write_failure_of(OperationResult::CommitTimeout) == Some(WriteEventsFailure::CommitTimeout),
        write_failure_result(WriteEventsFailure::CommitTimeout) == OperationResult::CommitTimeout,
        write_failure_of(OperationResult::ForwardTimeout) == Some(WriteEventsFailure::ForwardTimeout),
        write_failure_result(WriteEventsFailure::ForwardTimeout) == OperationResult::ForwardTimeout,
        write_failure_of(OperationResult::WrongExpectedVersion) == Some(WriteEventsFailure::WrongExpectedVersion),
        write_failure_result(WriteEventsFailure::WrongExpectedVersion) == OperationResult::WrongExpectedVersion,
        write_failure_of(OperationResult::StreamDeleted) == Some(WriteEventsFailure::StreamDeleted),
        write_failure_result(WriteEventsFailure::StreamDeleted) == OperationResult::StreamDeleted,
        write_failure_of(OperationResult::AccessDenied) == Some(WriteEventsFailure::AccessDenied),
        write_failure_result(WriteEventsFailure::AccessDenied) == OperationResult::AccessDenied,
        write_failure_of(OperationResult::Success) is None,
        write_failure_of(OperationResult::InvalidTransaction) is None,
{
}

} // verus!
