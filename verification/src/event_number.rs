//! `EventNumber`: a position to read from in a stream.
use vstd::prelude::*;
use crate::stream_version::{StreamVersion, stream_version_wf};

verus! {

/// `EventNumber` is similar to `StreamVersion` and `ExpectedVersion` but is used when
/// specifying a position to read from in the stream. Allows specifying the first or last (when
/// reading backwards) event in addition to exact event number.
#[derive(Debug, Copy, Clone, PartialEq, Eq, Structural)]
pub enum EventNumber {
    /// The first event in a stream
    First,
    /// Exactly the given event number
    Exact(StreamVersion),
    /// The last event in a stream
    Last,
}

/// The wire representation of an event number.
pub open spec fn event_number_to_i32(n: EventNumber) -> i32 {
    match n {
        EventNumber::First => 0,
        EventNumber::Exact(v) => v.value() as i32,
        EventNumber::Last => -1i32,
    }
}

impl EventNumber {
    /// The event number of exactly `ver`.
    pub fn from_stream_version(ver: StreamVersion) -> (n: EventNumber)
        ensures
            n == EventNumber::Exact(ver),
    {
        EventNumber::Exact(ver)
    }

    /// Returns the wire representation: 0 for the first event, -1 for the last one.
    pub fn to_i32(self) -> (n: i32)
        ensures
            n == event_number_to_i32(self),
            self matches EventNumber::Exact(_) ==> n >= 0,
    {
        match self {
            EventNumber::First => 0,
            EventNumber::Exact(x) => x.to_i32(),
            EventNumber::Last => -1i32,
        }
    }
}

/// On the wire, the first event is 0, the last is -1, and an exact event number is itself.
pub proof fn lemma_event_number_wire(n: EventNumber)
    ensures
        n is First ==> event_number_to_i32(n) == 0,
        n is Last ==> event_number_to_i32(n) == -1,
        n matches EventNumber::Exact(v) ==> (stream_version_wf(v) ==> event_number_to_i32(n)
            == v.value()),
{
}

} // verus!
