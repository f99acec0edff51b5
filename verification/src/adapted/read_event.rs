//! The refined failure of a `ReadEvent` request.
use vstd::prelude::*;
use crate::raw::read::{ReadEventResult, ReadEventCompleted, ReadEventCompletedModel};
use crate::raw::events::{
    opt_string_view, EventRecord, EventRecordModel, ResolvedIndexedEvent, ResolvedIndexedEventModel,
};

verus! {

/// `ReadEventError` maps to non-success of `ReadEventResult`
#[derive(Debug, Clone, PartialEq, Eq)]
pub enum ReadEventError {
    /// Event of requested number was not found (scavenged or never existed)
    NotFound,
    /// No such stream
    NoStream,
    /// Stream has been deleted
    StreamDeleted,
    /// Other error
    Error(Option<String>),
    /// Access was denied (no credentials provided or insufficient permissions)
    AccessDenied,
}

/// The model of a `ReadEventError`: its message as characters.
pub enum ReadEventErrorModel {
    NotFound,
    NoStream,
    StreamDeleted,
    Error(Option<Seq<char>>),
    AccessDenied,
}

impl View for ReadEventError {
    type V = ReadEventErrorModel;

    open spec fn view(&self) -> ReadEventErrorModel {
        match self {
            ReadEventError::NotFound => ReadEventErrorModel::NotFound,
            ReadEventError::NoStream => ReadEventErrorModel::NoStream,
            ReadEventError::StreamDeleted => ReadEventErrorModel::StreamDeleted,
            ReadEventError::Error(m) => ReadEventErrorModel::Error(opt_string_view(*m)),
            ReadEventError::AccessDenied => ReadEventErrorModel::AccessDenied,
        }
    }
}

/// The error that a non-success result and its message stand for; the message is kept only
/// for `Error`.
pub open spec fn read_event_error_of(res: ReadEventResult, msg: Option<Seq<char>>) -> ReadEventErrorModel {
    match res {
        ReadEventResult::NotFound => ReadEventErrorModel::NotFound,
        ReadEventResult::NoStream => ReadEventErrorModel::NoStream,
        ReadEventResult::StreamDeleted => ReadEventErrorModel::StreamDeleted,
        ReadEventResult::Error => ReadEventErrorModel::Error(msg),
        _ => ReadEventErrorModel::AccessDenied,
    }
}

/// The wire result and message that an error is sent as.
pub open spec fn read_event_error_parts(e: ReadEventErrorModel) -> (ReadEventResult, Option<Seq<char>>) {
    match e {
        ReadEventErrorModel::NotFound => (ReadEventResult::NotFound, None),
        ReadEventErrorModel::NoStream => (ReadEventResult::NoStream, None),
        ReadEventErrorModel::StreamDeleted => (ReadEventResult::StreamDeleted, None),
        ReadEventErrorModel::Error(m) => (ReadEventResult::Error, m),
        ReadEventErrorModel::AccessDenied => (ReadEventResult::AccessDenied, None),
    }
}

/// Sending an error as its parts and reading them back gives the error again.
pub proof fn lemma_read_event_error_roundtrip(e: ReadEventErrorModel)
    ensures
        read_event_error_parts(e).0 != ReadEventResult::Success,
        read_event_error_of(read_event_error_parts(e).0, read_event_error_parts(e).1) == e,
{
}

/// The placeholder event sent beside a failed read: empty strings and bytes, event number -1.
pub open spec fn placeholder_event() -> ResolvedIndexedEventModel {
    ResolvedIndexedEventModel {
        event: EventRecordModel {
            event_stream_id: Seq::empty(),
            event_number: -1i32,
            event_id: Seq::empty(),
            event_type: Seq::empty(),
            data_content_type: 0,
            metadata_content_type: 0,
            data: Seq::empty(),
            metadata: None,
            created: None,
            created_epoch: None,
        },
        link: None,
    }
}

/// The wire message that a read event is sent as.
pub open spec fn read_event_success_as_raw(e: ResolvedIndexedEventModel) -> ReadEventCompletedModel {
    ReadEventCompletedModel { result: Some(ReadEventResult::Success), event: e, error: None }
}

/// The wire message that a failed read is sent as.
pub open spec fn read_event_error_as_raw(e: ReadEventErrorModel) -> ReadEventCompletedModel {
    ReadEventCompletedModel {
        result: Some(read_event_error_parts(e).0),
        event: placeholder_event(),
        error: read_event_error_parts(e).1,
    }
}

impl ResolvedIndexedEvent {
    /// The wire message that a successful read of this event is sent as.
    pub fn as_raw(&self) -> (m: ReadEventCompleted)
        ensures
            m@ == read_event_success_as_raw(self@),
    {
        ReadEventCompleted { result: Some(ReadEventResult::Success), event: self.copy(), error: None }
    }
}

impl ReadEventError {
    /// The wire message this failure is sent as, beside a placeholder event.
    pub fn as_raw(&self) -> (m: ReadEventCompleted)
        ensures
            m@ == read_event_error_as_raw(self@),
    {
        let (res, msg): (ReadEventResult, Option<String>) = match self {
            ReadEventError::NotFound => (ReadEventResult::NotFound, None),
            ReadEventError::NoStream => (ReadEventResult::NoStream, None),
            ReadEventError::StreamDeleted => (ReadEventResult::StreamDeleted, None),
            ReadEventError::Error(x) => (ReadEventResult::Error, match x {
                Some(s) => Some(s.clone()),
                None => None,
            }),
            ReadEventError::AccessDenied => (ReadEventResult::AccessDenied, None),
        };
        let m = ReadEventCompleted {
            result: Some(res),
            event: ResolvedIndexedEvent {
                event: EventRecord {
                    event_stream_id: String::new(),
                    event_number: -1,
                    event_id: Vec::new(),
                    event_type: String::new(),
                    data_content_type: 0,
                    metadata_content_type: 0,
                    data: Vec::new(),
                    metadata: None,
                    created: None,
                    created_epoch: None,
                },
                link: None,
            },
            error: msg,
        };
        assert(m@.event.event =~= placeholder_event().event);
        m
    }

    /// The error that the non-success result `res` stands for, keeping `msg` for `Error`.
    pub fn from(res: ReadEventResult, msg: Option<String>) -> (e: ReadEventError)
        requires
            res != ReadEventResult::Success,
        ensures
            e@ == read_event_error_of(res, opt_string_view(msg)),
    {
        match res {
            ReadEventResult::NotFound => ReadEventError::NotFound,
            ReadEventResult::NoStream => ReadEventError::NoStream,
            ReadEventResult::StreamDeleted => ReadEventError::StreamDeleted,
            ReadEventResult::Error => ReadEventError::Error(msg),
            _ => ReadEventError::AccessDenied,
        }
    }
}

/// Each non-success result of a single event read is the error of the same name, and that error
/// is sent back as that result; only `Error` keeps the message.
pub proof fn lemma_read_event_errors_by_name(msg: Option<Seq<char>>)
    ensures
        read_event_error_of(ReadEventResult::NotFound, msg) == ReadEventErrorModel::NotFound,
        read_event_error_of(ReadEventResult::NoStream, msg) == ReadEventErrorModel::NoStream,
        read_event_error_of(ReadEventResult::StreamDeleted, msg) == ReadEventErrorModel::StreamDeleted,
        read_event_error_of(ReadEventResult::Error, msg) == ReadEventErrorModel::Error(msg),
        read_event_error_of(ReadEventResult::AccessDenied, msg) == ReadEventErrorModel::AccessDenied,
        read_event_error_parts(ReadEventErrorModel::NotFound) == (ReadEventResult::NotFound, None::<Seq<char>>),
        read_event_error_parts(ReadEventErrorModel::NoStream) == (ReadEventResult::NoStream, None::<Seq<char>>),
        read_event_error_parts(ReadEventErrorModel::StreamDeleted) == (ReadEventResult::StreamDeleted, None::<Seq<char>>),
        read_event_error_parts(ReadEventErrorModel::Error(msg)) == (ReadEventResult::Error, msg),
        read_event_error_parts(ReadEventErrorModel::AccessDenied) == (ReadEventResult::AccessDenied, None::<Seq<char>>),
{
}

} // verus!
