//! `ExpectedVersion`: the optimistic locking modes of writes.
use vstd::prelude::*;
use crate::stream_version::{StreamVersion, stream_version_wf};

verus! {

/// `ExpectedVersion` represents the different modes of optimistic locking when writing to a
/// stream using `WriteEventsBuilder`.
#[derive(Debug, Copy, Clone, PartialEq, Eq, Structural)]
pub enum ExpectedVersion {
    /// No optimistic locking
    Any,
    /// Expect a stream not to exist
    NoStream,
    /// Expect exact number of events in the stream
    Exact(StreamVersion),
}

/// The wire representation of an expected version.
pub open spec fn expected_version_to_i32(v: ExpectedVersion) -> i32 {
    match v {
        ExpectedVersion::Any => -2i32,
        ExpectedVersion::NoStream => -1i32,
        ExpectedVersion::Exact(ver) => ver.value() as i32,
    }
}

impl ExpectedVersion {
    /// Expect exactly `version`.
    pub fn from_stream_version(version: StreamVersion) -> (v: ExpectedVersion)
        ensures
            v == ExpectedVersion::Exact(version),
    {
        ExpectedVersion::Exact(version)
    }

    /// Returns the wire representation: -2 for any version, -1 for no stream.
    pub fn to_i32(self) -> (n: i32)
        ensures
            n == expected_version_to_i32(self),
    {
        match self {
            ExpectedVersion::Any => -2,
            ExpectedVersion::NoStream => -1,
            ExpectedVersion::Exact(ver) => ver.to_i32(),
        }
    }
}

/// On the wire, any version is -2, no stream yet is -1, and an exact version is itself.
pub proof fn lemma_expected_version_wire(v: ExpectedVersion)
    ensures
        v is Any ==> expected_version_to_i32(v) == -2,
        v is NoStream ==> expected_version_to_i32(v) == -1,
        v matches ExpectedVersion::Exact(s) ==> (stream_version_wf(s) ==> expected_version_to_i32(v)
            == s.value()),
{
}

} // verus!
