//! `ContentType` of event data and metadata.
use vstd::prelude::*;

verus! {

/// Content type of the event `data` or `metadata`.
#[derive(Debug, Copy, Clone, PartialEq, Eq, Structural)]
pub enum ContentType {
    /// Raw bytes
    Bytes,
    /// JSON values usable with projections in EventStore
    Json,
}

/// The wire representation of a content type.
pub open spec fn content_type_to_i32(c: ContentType) -> i32 {
    match c {
        ContentType::Bytes => 0,
        ContentType::Json => 1,
    }
}

impl ContentType {
    /// Returns the wire representation: 0 for bytes, 1 for JSON.
    pub fn to_i32(self) -> (n: i32)
        ensures
            n == content_type_to_i32(self),
    {
        match self {
            ContentType::Bytes => 0,
            ContentType::Json => 1,
        }
    }
}

/// On the wire, bytes are 0 and JSON is 1.
pub proof fn lemma_content_type_wire(c: ContentType)
    ensures
        (c == ContentType::Bytes) <==> content_type_to_i32(c) == 0,
        (c == ContentType::Json) <==> content_type_to_i32(c) == 1,
{
}

} // verus!
