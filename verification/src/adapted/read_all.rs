//! The refined answer to a `ReadAllEvents` request.
use vstd::prelude::*;
use vstd::pervasive::unreached;
use crate::raw::read::{ReadAllResult, ReadAllEventsCompleted, ReadAllEventsCompletedModel};
use crate::raw::events::{self, EventRecord, EventRecordModel};
use crate::log_position::{LogPosition, log_position_from_i64, log_position_to_i64};
use crate::raw::events::opt_string_view;

verus! {

/// Successful response to a `ReadAllEvents` request.
#[derive(Debug, Clone, PartialEq)]
pub struct ReadAllCompleted {
    /// Position of the commit of the current prepare
    pub commit_position: LogPosition,
    /// Position of the current prepare
    pub prepare_position: LogPosition,
    /// The read events, with position metadata
    pub events: Vec<ResolvedEvent>,
    /// For paging: next commit position
    pub next_commit_position: Option<LogPosition>,
    /// For paging: next prepare position
    pub next_prepare_position: Option<LogPosition>,
}

/// Read event in a `ReadAllCompleted` response
#[derive(Debug, Clone, PartialEq)]
pub struct ResolvedEvent {
    /// The read event
    pub event: EventRecord,
    /// Possible linking event
    pub link: Option<EventRecord>,
    /// Position where this events transaction is commited
    pub commit_position: LogPosition,
    /// Position where this event is stored
    pub prepare_position: LogPosition,
}

/// The model of a `ResolvedEvent`: its records by their models.
pub struct ResolvedEventModel {
    pub event: EventRecordModel,
    pub link: Option<EventRecordModel>,
    pub commit_position: LogPosition,
    pub prepare_position: LogPosition,
}

impl View for ResolvedEvent {
    type V = ResolvedEventModel;

    open spec fn view(&self) -> ResolvedEventModel {
        ResolvedEventModel {
            event: self.event@,
            link: match self.link {
                Some(x) => Some(x@),
                None => None,
            },
            commit_position: self.commit_position,
            prepare_position: self.prepare_position,
        }
    }
}

/// The log position of a wire value that is at least -1.
pub open spec fn log_position_of(x: i64) -> LogPosition
    recommends
        x >= -1,
{
    log_position_from_i64(x)->Ok_0
}

/// The refined event of a wire event: its positions as log positions.
pub open spec fn resolved_event_of(e: events::ResolvedEventModel) -> ResolvedEventModel {
    ResolvedEventModel {
        event: e.event,
        link: e.link,
        commit_position: log_position_of(e.commit_position),
        prepare_position: log_position_of(e.prepare_position),
    }
}

/// The wire event that a refined event is sent as.
pub open spec fn resolved_event_as_raw(e: ResolvedEventModel) -> events::ResolvedEventModel {
    events::ResolvedEventModel {
        event: e.event,
        link: e.link,
        commit_position: log_position_to_i64(e.commit_position),
        prepare_position: log_position_to_i64(e.prepare_position),
    }
}

/// Converts a wire position that is at least -1.
pub(crate) fn position_of(x: i64) -> (p: LogPosition)
    requires
        x >= -1,
    ensures
        p == log_position_of(x),
{
    match LogPosition::try_from(x) {
        Ok(p) => p,
        Err(_) => unreached(),
    }
}

impl ResolvedEvent {
    /// The refined event of a wire event whose positions are at least -1.
    pub fn from(e: events::ResolvedEvent) -> (r: ResolvedEvent)
        requires
            e.commit_position >= -1,
            e.prepare_position >= -1,
        ensures
            r@ == resolved_event_of(e@),
    {
        ResolvedEvent {
            event: e.event,
            link: e.link,
            commit_position: position_of(e.commit_position),
            prepare_position: position_of(e.prepare_position),
        }
    }

    /// The wire event this event is sent as.
    pub fn as_raw(&self) -> (r: events::ResolvedEvent)
        ensures
            r@ == resolved_event_as_raw(self@),
    {
        events::ResolvedEvent {
            event: self.event.copy(),
            link: match &self.link {
                Some(l) => Some(l.copy()),
                None => None,
            },
            commit_position: self.commit_position.to_i64(),
            prepare_position: self.prepare_position.to_i64(),
        }
    }
}

/// The model of a `ReadAllCompleted`: its events by their models.
pub struct ReadAllCompletedModel {
    pub commit_position: LogPosition,
    pub prepare_position: LogPosition,
    pub events: Seq<ResolvedEventModel>,
    pub next_commit_position: Option<LogPosition>,
    pub next_prepare_position: Option<LogPosition>,
}

impl View for ReadAllCompleted {
    type V = ReadAllCompletedModel;

    open spec fn view(&self) -> ReadAllCompletedModel {
        ReadAllCompletedModel {
            commit_position: self.commit_position,
            prepare_position: self.prepare_position,
            events: self.events@.map_values(|e: ResolvedEvent| e@),
            next_commit_position: self.next_commit_position,
            next_prepare_position: self.next_prepare_position,
        }
    }
}

/// Failure cases of wire enum `ReadAllResult`.
#[derive(Debug, Clone, PartialEq)]
pub enum ReadAllError {
    /// Unknown when this happens,
    NotModified,
    /// Other error
    Error(Option<String>),
    /// Access was denied (no credentials provided or insufficient permissions)
    AccessDenied,
}

/// The model of a `ReadAllError`: its message as characters.
pub enum ReadAllErrorModel {
    NotModified,
    Error(Option<Seq<char>>),
    AccessDenied,
}

impl View for ReadAllError {
    type V = ReadAllErrorModel;

    open spec fn view(&self) -> ReadAllErrorModel {
        match self {
            ReadAllError::NotModified => ReadAllErrorModel::NotModified,
            ReadAllError::Error(m) => ReadAllErrorModel::Error(opt_string_view(*m)),
            ReadAllError::AccessDenied => ReadAllErrorModel::AccessDenied,
        }
    }
}

/// The error that a non-success result and its message stand for; the message is kept only
/// for `Error`.
pub open spec fn read_all_error_of(res: ReadAllResult, msg: Option<Seq<char>>) -> ReadAllErrorModel {
    match res {
        ReadAllResult::NotModified => ReadAllErrorModel::NotModified,
        ReadAllResult::Error => ReadAllErrorModel::Error(msg),
        _ => ReadAllErrorModel::AccessDenied,
    }
}

/// The wire result and message that an error is sent as.
pub open spec fn read_all_error_parts(e: ReadAllErrorModel) -> (ReadAllResult, Option<Seq<char>>) {
    match e {
        ReadAllErrorModel::NotModified => (ReadAllResult::NotModified, None),
        ReadAllErrorModel::Error(m) => (ReadAllResult::Error, m),
        ReadAllErrorModel::AccessDenied => (ReadAllResult::AccessDenied, None),
    }
}

/// Sending an error as its parts and reading them back gives the error again.
pub proof fn lemma_read_all_error_roundtrip(e: ReadAllErrorModel)
    ensures
        read_all_error_parts(e).0 != ReadAllResult::Success,
        read_all_error_of(read_all_error_parts(e).0, read_all_error_parts(e).1) == e,
{
}

/// The wire value of an optional next position: -1 when there is none.
pub open spec fn next_position_to_i64(p: Option<LogPosition>) -> i64 {
    match p {
        Some(x) => log_position_to_i64(x),
        None => -1i64,
    }
}

/// The wire message that a successful read is sent as.
pub open spec fn read_all_completed_as_raw(c: ReadAllCompletedModel) -> ReadAllEventsCompletedModel {
    ReadAllEventsCompletedModel {
        commit_position: log_position_to_i64(c.commit_position),
        prepare_position: log_position_to_i64(c.prepare_position),
        events: c.events.map_values(|e: ResolvedEventModel| resolved_event_as_raw(e)),
        next_commit_position: next_position_to_i64(c.next_commit_position),
        next_prepare_position: next_position_to_i64(c.next_prepare_position),
        result: ReadAllResult::Success,
        error: None,
    }
}

/// The wire message that a failed read is sent as: no events, and -1 for every position.
pub open spec fn read_all_error_as_raw(e: ReadAllErrorModel) -> ReadAllEventsCompletedModel {
    ReadAllEventsCompletedModel {
        commit_position: -1i64,
        prepare_position: -1i64,
        events: Seq::empty(),
        next_commit_position: -1i64,
        next_prepare_position: -1i64,
        result: read_all_error_parts(e).0,
        error: read_all_error_parts(e).1,
    }
}

impl ReadAllCompleted {
    /// The wire message this successful read is sent as; a missing next position is sent as -1.
    pub fn as_raw(&self) -> (m: ReadAllEventsCompleted)
        ensures
            m@ == read_all_completed_as_raw(self@),
    {
        let mut evs: Vec<events::ResolvedEvent> = Vec::new();
        let mut k: usize = 0;
        while k < self.events.len()
            invariant
                k <= self.events@.len(),
                evs@.map_values(|e: events::ResolvedEvent| e@) =~= self@.events.take(k as int).map_values(
                    |e: ResolvedEventModel| resolved_event_as_raw(e),
                ),
            decreases self.events@.len() - k,
        {
            let e = self.events[k].as_raw();
            let ghost old_evs = evs@;
            evs.push(e);
            assert(self@.events.take(k + 1) =~= self@.events.take(k as int).push(self.events@[k as int]@));
            assert(evs@.map_values(|e: events::ResolvedEvent| e@) =~= old_evs.map_values(
                |e: events::ResolvedEvent| e@,
            ).push(e@));
            assert(self@.events.take(k + 1).map_values(|e: ResolvedEventModel| resolved_event_as_raw(e))
                =~= self@.events.take(k as int).map_values(
                |e: ResolvedEventModel| resolved_event_as_raw(e),
            ).push(resolved_event_as_raw(self.events@[k as int]@)));
            k = k + 1;
        }
        assert(self@.events.take(k as int) =~= self@.events);
        let next_commit: i64 = match self.next_commit_position {
            Some(p) => p.to_i64(),
            None => -1,
        };
        let next_prepare: i64 = match self.next_prepare_position {
            Some(p) => p.to_i64(),
            None => -1,
        };
        ReadAllEventsCompleted {
            commit_position: self.commit_position.to_i64(),
            prepare_position: self.prepare_position.to_i64(),
            events: evs,
            next_commit_position: next_commit,
            next_prepare_position: next_prepare,
            result: ReadAllResult::Success,
            error: None,
        }
    }
}

impl ReadAllError {
    /// The wire message this failure is sent as.
    pub fn as_raw(&self) -> (m: ReadAllEventsCompleted)
        ensures
            m@ == read_all_error_as_raw(self@),
    {
        let (res, msg): (ReadAllResult, Option<String>) = match self {
            ReadAllError::NotModified => (ReadAllResult::NotModified, None),
            ReadAllError::Error(x) => (ReadAllResult::Error, match x {
                Some(s) => Some(s.clone()),
                None => None,
            }),
            ReadAllError::AccessDenied => (ReadAllResult::AccessDenied, None),
        };
        let m = ReadAllEventsCompleted {
            commit_position: -1,
            prepare_position: -1,
            events: Vec::new(),
            next_commit_position: -1,
            next_prepare_position: -1,
            result: res,
            error: msg,
        };
        assert(m@.events =~= Seq::<events::ResolvedEventModel>::empty());
        m
    }

    /// The error that the non-success result `res` stands for, keeping `msg` for `Error`.
    pub fn from(res: ReadAllResult, msg: Option<String>) -> (e: ReadAllError)
        requires
            res != ReadAllResult::Success,
        ensures
            e@ == read_all_error_of(res, opt_string_view(msg)),
    {
        match res {
            ReadAllResult::NotModified => ReadAllError::NotModified,
            ReadAllResult::Error => ReadAllError::Error(msg),
            _ => ReadAllError::AccessDenied,
        }
    }
}

/// Each non-success result of a read of all events is the error of the same name, and that
/// error is sent back as that result; only `Error` keeps the message.
pub proof fn lemma_read_all_errors_by_name(msg: Option<Seq<char>>)
    ensures
        read_all_error_of(ReadAllResult::NotModified, msg) == ReadAllErrorModel::NotModified,
        read_all_error_of(ReadAllResult::Error, msg) == ReadAllErrorModel::Error(msg),
        read_all_error_of(ReadAllResult::AccessDenied, msg) == ReadAllErrorModel::AccessDenied,
        read_all_error_parts(ReadAllErrorModel::NotModified) == (ReadAllResult::NotModified, None::<Seq<char>>),
        read_all_error_parts(ReadAllErrorModel::Error(msg)) == (ReadAllResult::Error, msg),
        read_all_error_parts(ReadAllErrorModel::AccessDenied) == (ReadAllResult::AccessDenied, None::<Seq<char>>),
{
}

} // verus!
