//! Protobuf messages of reads.
use vstd::prelude::*;
use vstd::utf8::encode_utf8;
use vstd::slice::slice_subrange;
use crate::wire::{
    WireField, WireValue, FieldValue, string_of, i32_of_varint, i64_of_varint, bool_of_varint,
    varint_of_i32, varint_of_i64, varint_of_bool, decode_fields, encode_fields, fields_shaped,
    apply_fields, lemma_decode_encoded_fields, lemma_apply_fields_append, lemma_string_roundtrip,
    lemma_scalar_roundtrips, parse_field, read_tag, read_value, lemma_field_parts,
    lemma_decode_step, lemma_parse_field_len, copy_string, varint_i32, varint_i64, varint_bool,
    i32_varint, i64_varint, bool_varint, write_bytes_field, write_varint_field,
    lemma_encode_fields_push, lemma_fields_shaped_push, lemma_fields_canonical_of_len, modulus32,
    lemma_encode_fields_append, lemma_encode_fields_one, lemma_encode_fields_take_len,
    sizeof_varint_field, sizeof_len_field, fields_short, fields_tagged, lemma_fields_tagged_append,
    lemma_fields_canonical_of_short, varint_field_bytes, bytes_field_bytes, repeated_field_bytes,
    lemma_varint_field_layout, lemma_bytes_field_layout, lemma_repeated_field_layout,
};
use crate::raw::events::{
    ResolvedIndexedEvent, ResolvedIndexedEventModel, resolved_indexed_event_decode,
    resolved_indexed_event_encode, resolved_indexed_event_wf,
    lemma_resolved_indexed_event_roundtrip, resolved_indexed_event_default, ResolvedEvent,
    ResolvedEventModel, resolved_event_decode, resolved_event_encode, resolved_event_wf,
    lemma_resolved_event_roundtrip, opt_string_view,
};

verus! {

/// Result of a single event read on the wire.
#[derive(Debug, Clone, Copy, PartialEq, Eq, Structural)]
pub enum ReadEventResult {
    /// The event was read
    Success,
    /// No event of that number
    NotFound,
    /// No such stream
    NoStream,
    /// The stream has been deleted
    StreamDeleted,
    /// Another error
    Error,
    /// Access to the stream was denied
    AccessDenied,
}

impl ReadEventResult {
    /// The variant that the wire number `i` stands for; unknown numbers give `Success`.
    pub open spec fn from_i32_spec(i: i32) -> ReadEventResult {
        if i == 1 {
            ReadEventResult::NotFound
        } else {
            if i == 2 {
                ReadEventResult::NoStream
            } else {
                if i == 3 {
                    ReadEventResult::StreamDeleted
                } else {
                    if i == 4 {
                        ReadEventResult::Error
                    } else {
                        if i == 5 {
                            ReadEventResult::AccessDenied
                        } else {
                            ReadEventResult::Success
                        }
                    }
                }
            }
        }
    }

    /// The wire number of the variant.
    pub open spec fn to_i32_spec(self) -> i32 {
        match self {
            ReadEventResult::Success => 0,
            ReadEventResult::NotFound => 1,
            ReadEventResult::NoStream => 2,
            ReadEventResult::StreamDeleted => 3,
            ReadEventResult::Error => 4,
            ReadEventResult::AccessDenied => 5,
        }
    }

    /// The variant that the wire number `i` stands for; unknown numbers give `Success`.
    pub fn from_i32(i: i32) -> (r: ReadEventResult)
        ensures
            r == ReadEventResult::from_i32_spec(i),
    {
        if i == 1 {
            ReadEventResult::NotFound
        } else {
            if i == 2 {
                ReadEventResult::NoStream
            } else {
                if i == 3 {
                    ReadEventResult::StreamDeleted
                } else {
                    if i == 4 {
                        ReadEventResult::Error
                    } else {
                        if i == 5 {
                            ReadEventResult::AccessDenied
                        } else {
                            ReadEventResult::Success
                        }
                    }
                }
            }
        }
    }

    /// The wire number of the variant.
    pub fn to_i32(self) -> (i: i32)
        ensures
            i == self.to_i32_spec(),
    {
        match self {
            ReadEventResult::Success => 0,
            ReadEventResult::NotFound => 1,
            ReadEventResult::NoStream => 2,
            ReadEventResult::StreamDeleted => 3,
            ReadEventResult::Error => 4,
            ReadEventResult::AccessDenied => 5,
        }
    }

    /// The wire numbers that the protocol gives the variants: each variant is written as its
    /// own number, and read from that number alone; any other number reads as `Success`.
    pub proof fn lemma_wire_numbers(i: i32)
        ensures
            ReadEventResult::Success.to_i32_spec() == 0,
            ReadEventResult::NotFound.to_i32_spec() == 1,
            ReadEventResult::NoStream.to_i32_spec() == 2,
            ReadEventResult::StreamDeleted.to_i32_spec() == 3,
            ReadEventResult::Error.to_i32_spec() == 4,
            ReadEventResult::AccessDenied.to_i32_spec() == 5,
            (ReadEventResult::from_i32_spec(i) == ReadEventResult::NotFound) <==> i == 1,
            (ReadEventResult::from_i32_spec(i) == ReadEventResult::NoStream) <==> i == 2,
            (ReadEventResult::from_i32_spec(i) == ReadEventResult::StreamDeleted) <==> i == 3,
            (ReadEventResult::from_i32_spec(i) == ReadEventResult::Error) <==> i == 4,
            (ReadEventResult::from_i32_spec(i) == ReadEventResult::AccessDenied) <==> i == 5,
            (ReadEventResult::from_i32_spec(i) == ReadEventResult::Success) <==> (i != 1 && i != 2 && i != 3 && i != 4 && i != 5),
    {
    }

    /// Reading the wire number of a variant gives the variant back.
    pub proof fn lemma_i32_roundtrip(self)
        ensures
            ReadEventResult::from_i32_spec(self.to_i32_spec()) == self,
    {
    }
}

/// Result of a stream read on the wire.
#[derive(Debug, Clone, Copy, PartialEq, Eq, Structural)]
pub enum ReadStreamResult {
    /// The events were read
    Success,
    /// No such stream
    NoStream,
    /// The stream has been deleted
    StreamDeleted,
    /// Nothing changed
    NotModified,
    /// Another error
    Error,
    /// Access to the stream was denied
    AccessDenied,
}

impl ReadStreamResult {
    /// The variant that the wire number `i` stands for; unknown numbers give `Success`.
    pub open spec fn from_i32_spec(i: i32) -> ReadStreamResult {
        if i == 1 {
            ReadStreamResult::NoStream
        } else {
            if i == 2 {
                ReadStreamResult::StreamDeleted
            } else {
                if i == 3 {
                    ReadStreamResult::NotModified
                } else {
                    if i == 4 {
                        ReadStreamResult::Error
                    } else {
                        if i == 5 {
                            ReadStreamResult::AccessDenied
                        } else {
                            ReadStreamResult::Success
                        }
                    }
                }
            }
        }
    }

    /// The wire number of the variant.
    pub open spec fn to_i32_spec(self) -> i32 {
        match self {
            ReadStreamResult::Success => 0,
            ReadStreamResult::NoStream => 1,
            ReadStreamResult::StreamDeleted => 2,
            ReadStreamResult::NotModified => 3,
            ReadStreamResult::Error => 4,
            ReadStreamResult::AccessDenied => 5,
        }
    }

    /// The variant that the wire number `i` stands for; unknown numbers give `Success`.
    pub fn from_i32(i: i32) -> (r: ReadStreamResult)
        ensures
            r == ReadStreamResult::from_i32_spec(i),
    {
        if i == 1 {
            ReadStreamResult::NoStream
        } else {
            if i == 2 {
                ReadStreamResult::StreamDeleted
            } else {
                if i == 3 {
                    ReadStreamResult::NotModified
                } else {
                    if i == 4 {
                        ReadStreamResult::Error
                    } else {
                        if i == 5 {
                            ReadStreamResult::AccessDenied
                        } else {
                            ReadStreamResult::Success
                        }
                    }
                }
            }
        }
    }

    /// The wire number of the variant.
    pub fn to_i32(self) -> (i: i32)
        ensures
            i == self.to_i32_spec(),
    {
        match self {
            ReadStreamResult::Success => 0,
            ReadStreamResult::NoStream => 1,
            ReadStreamResult::StreamDeleted => 2,
            ReadStreamResult::NotModified => 3,
            ReadStreamResult::Error => 4,
            ReadStreamResult::AccessDenied => 5,
        }
    }

    /// The wire numbers that the protocol gives the variants: each variant is written as its
    /// own number, and read from that number alone; any other number reads as `Success`.
    pub proof fn lemma_wire_numbers(i: i32)
        ensures
            ReadStreamResult::Success.to_i32_spec() == 0,
            ReadStreamResult::NoStream.to_i32_spec() == 1,
            ReadStreamResult::StreamDeleted.to_i32_spec() == 2,
            ReadStreamResult::NotModified.to_i32_spec() == 3,
            ReadStreamResult::Error.to_i32_spec() == 4,
            ReadStreamResult::AccessDenied.to_i32_spec() == 5,
            (ReadStreamResult::from_i32_spec(i) == ReadStreamResult::NoStream) <==> i == 1,
            (ReadStreamResult::from_i32_spec(i) == ReadStreamResult::StreamDeleted) <==> i == 2,
            (ReadStreamResult::from_i32_spec(i) == ReadStreamResult::NotModified) <==> i == 3,
            (ReadStreamResult::from_i32_spec(i) == ReadStreamResult::Error) <==> i == 4,
            (ReadStreamResult::from_i32_spec(i) == ReadStreamResult::AccessDenied) <==> i == 5,
            (ReadStreamResult::from_i32_spec(i) == ReadStreamResult::Success) <==> (i != 1 && i != 2 && i != 3 && i != 4 && i != 5),
    {
    }

    /// Reading the wire number of a variant gives the variant back.
    pub proof fn lemma_i32_roundtrip(self)
        ensures
            ReadStreamResult::from_i32_spec(self.to_i32_spec()) == self,
    {
    }
}

/// Result of a read of all events on the wire.
#[derive(Debug, Clone, Copy, PartialEq, Eq, Structural)]
pub enum ReadAllResult {
    /// The events were read
    Success,
    /// Nothing changed
    NotModified,
    /// Another error
    Error,
    /// Access was denied
    AccessDenied,
}

impl ReadAllResult {
    /// The variant that the wire number `i` stands for; unknown numbers give `Success`.
    pub open spec fn from_i32_spec(i: i32) -> ReadAllResult {
        if i == 1 {
            ReadAllResult::NotModified
        } else {
            if i == 2 {
                ReadAllResult::Error
            } else {
                if i == 3 {
                    ReadAllResult::AccessDenied
                } else {
                    ReadAllResult::Success
                }
            }
        }
    }

    /// The wire number of the variant.
    pub open spec fn to_i32_spec(self) -> i32 {
        match self {
            ReadAllResult::Success => 0,
            ReadAllResult::NotModified => 1,
            ReadAllResult::Error => 2,
            ReadAllResult::AccessDenied => 3,
        }
    }

    /// The variant that the wire number `i` stands for; unknown numbers give `Success`.
    pub fn from_i32(i: i32) -> (r: ReadAllResult)
        ensures
            r == ReadAllResult::from_i32_spec(i),
    {
        if i == 1 {
            ReadAllResult::NotModified
        } else {
            if i == 2 {
                ReadAllResult::Error
            } else {
                if i == 3 {
                    ReadAllResult::AccessDenied
                } else {
                    ReadAllResult::Success
                }
            }
        }
    }

    /// The wire number of the variant.
    pub fn to_i32(self) -> (i: i32)
        ensures
            i == self.to_i32_spec(),
    {
        match self {
            ReadAllResult::Success => 0,
            ReadAllResult::NotModified => 1,
            ReadAllResult::Error => 2,
            ReadAllResult::AccessDenied => 3,
        }
    }

    /// The wire numbers that the protocol gives the variants: each variant is written as its
    /// own number, and read from that number alone; any other number reads as `Success`.
    pub proof fn lemma_wire_numbers(i: i32)
        ensures
            ReadAllResult::Success.to_i32_spec() == 0,
            ReadAllResult::NotModified.to_i32_spec() == 1,
            ReadAllResult::Error.to_i32_spec() == 2,
            ReadAllResult::AccessDenied.to_i32_spec() == 3,
            (ReadAllResult::from_i32_spec(i) == ReadAllResult::NotModified) <==> i == 1,
            (ReadAllResult::from_i32_spec(i) == ReadAllResult::Error) <==> i == 2,
            (ReadAllResult::from_i32_spec(i) == ReadAllResult::AccessDenied) <==> i == 3,
            (ReadAllResult::from_i32_spec(i) == ReadAllResult::Success) <==> (i != 1 && i != 2 && i != 3),
    {
    }

    /// Reading the wire number of a variant gives the variant back.
    pub proof fn lemma_i32_roundtrip(self)
        ensures
            ReadAllResult::from_i32_spec(self.to_i32_spec()) == self,
    {
    }
}

/// Request to read one event of a stream.
#[derive(Debug, Clone, PartialEq)]
pub struct ReadEvent {
    /// The stream to read from
    pub event_stream_id: String,
    /// The number of the event: -1 for the last one
    pub event_number: i32,
    /// Whether to follow link events
    pub resolve_link_tos: bool,
    /// Whether only the master may handle the request
    pub require_master: bool,
}

/// The contents of a `ReadEvent`.
pub struct ReadEventModel {
    pub event_stream_id: Seq<char>,
    pub event_number: i32,
    pub resolve_link_tos: bool,
    pub require_master: bool,
}

impl View for ReadEvent {
    type V = ReadEventModel;

    open spec fn view(&self) -> ReadEventModel {
        ReadEventModel {
            event_stream_id: self.event_stream_id@,
            event_number: self.event_number,
            resolve_link_tos: self.resolve_link_tos,
            require_master: self.require_master,
        }
    }
}

/// A `ReadEvent` with every field at its default.
pub open spec fn read_event_default() -> ReadEventModel {
    ReadEventModel {
        event_stream_id: Seq::empty(),
        event_number: 0,
        resolve_link_tos: false,
        require_master: false,
    }
}

/// Folds one field into a `ReadEvent`; fields of unknown tags are skipped.
pub open spec fn read_event_apply(m: ReadEventModel, f: WireField) -> Option<ReadEventModel> {
    if f.tag == 10 {
        match f.value {
            WireValue::Bytes(b) => match string_of(b) {
                Some(s) => Some(ReadEventModel { event_stream_id: s, ..m }),
                None => None,
            },
            _ => None,
        }
    } else {
        if f.tag == 16 {
            match f.value {
                WireValue::Varint(v) => Some(ReadEventModel { event_number: i32_of_varint(v), ..m }),
                _ => None,
            }
        } else {
            if f.tag == 24 {
                match f.value {
                    WireValue::Varint(v) => Some(ReadEventModel { resolve_link_tos: bool_of_varint(v), ..m }),
                    _ => None,
                }
            } else {
                if f.tag == 32 {
                    match f.value {
                        WireValue::Varint(v) => Some(ReadEventModel { require_master: bool_of_varint(v), ..m }),
                        _ => None,
                    }
                } else {
                    Some(m)
                }
            }
        }
    }
}

/// `read_event_apply` as a value.
pub open spec fn read_event_applier() -> spec_fn(ReadEventModel, WireField) -> Option<ReadEventModel> {
    |m: ReadEventModel, f: WireField| read_event_apply(m, f)
}

/// The tags of the fields that a `ReadEvent` reads; the others are skipped.
pub open spec fn read_event_known() -> spec_fn(u32) -> bool {
    |t: u32| t == 10 || t == 16 || t == 24 || t == 32
}

/// The `ReadEvent` that `bytes` encode, if they encode one.
pub open spec fn read_event_decode(bytes: Seq<u8>) -> Option<ReadEventModel> {
    decode_fields(bytes, read_event_default(), read_event_applier(), read_event_known())
}

/// The fields that encode a `ReadEvent`, in the order they are written.
pub open spec fn read_event_fields(m: ReadEventModel) -> Seq<WireField> {
    (seq![WireField { tag: 10, value: WireValue::Bytes(encode_utf8(m.event_stream_id)) }]) + ((seq![WireField { tag: 16, value: WireValue::Varint(varint_of_i32(m.event_number)) }]) + ((seq![WireField { tag: 24, value: WireValue::Varint(varint_of_bool(m.resolve_link_tos)) }]) + ((seq![WireField { tag: 32, value: WireValue::Varint(varint_of_bool(m.require_master)) }]))))
}

/// The encoding of a `ReadEvent`.
pub open spec fn read_event_encode(m: ReadEventModel) -> Seq<u8> {
    encode_fields(read_event_fields(m))
}

/// A `ReadEvent` that reads back as written: every length-delimited field, those of the
/// embedded messages included, holds fewer than 2^32 bytes.
pub open spec fn read_event_wf(m: ReadEventModel) -> bool {
    fields_short(read_event_fields(m))
}

/// The fields of a `ReadEvent` carry the wire types of their payloads.
pub proof fn lemma_read_event_fields_tagged(m: ReadEventModel)
    ensures
        fields_tagged(read_event_fields(m)),
{
    assert(fields_tagged((seq![WireField { tag: 32, value: WireValue::Varint(varint_of_bool(m.require_master)) }])));
    assert(fields_tagged((seq![WireField { tag: 24, value: WireValue::Varint(varint_of_bool(m.resolve_link_tos)) }])));
    lemma_fields_tagged_append(
        (seq![WireField { tag: 24, value: WireValue::Varint(varint_of_bool(m.resolve_link_tos)) }]),
        (seq![WireField { tag: 32, value: WireValue::Varint(varint_of_bool(m.require_master)) }]),
    );
    assert(fields_tagged((seq![WireField { tag: 16, value: WireValue::Varint(varint_of_i32(m.event_number)) }])));
    lemma_fields_tagged_append(
        (seq![WireField { tag: 16, value: WireValue::Varint(varint_of_i32(m.event_number)) }]),
        (seq![WireField { tag: 24, value: WireValue::Varint(varint_of_bool(m.resolve_link_tos)) }]) + ((seq![WireField { tag: 32, value: WireValue::Varint(varint_of_bool(m.require_master)) }])),
    );
    assert(fields_tagged((seq![WireField { tag: 10, value: WireValue::Bytes(encode_utf8(m.event_stream_id)) }])));
    lemma_fields_tagged_append(
        (seq![WireField { tag: 10, value: WireValue::Bytes(encode_utf8(m.event_stream_id)) }]),
        (seq![WireField { tag: 16, value: WireValue::Varint(varint_of_i32(m.event_number)) }]) + ((seq![WireField { tag: 24, value: WireValue::Varint(varint_of_bool(m.resolve_link_tos)) }]) + ((seq![WireField { tag: 32, value: WireValue::Varint(varint_of_bool(m.require_master)) }]))),
    );
}

/// The bytes of an encoded `ReadEvent`: `event_stream_id` under tag 10, `event_number` under tag 16, `resolve_link_tos` under tag 24, `require_master` under tag 32, in this order; optional fields only
/// when present, repeated ones once per element.
pub proof fn lemma_read_event_encode_layout(m: ReadEventModel)
    ensures
        read_event_encode(m) == (bytes_field_bytes(10, encode_utf8(m.event_stream_id))) + ((varint_field_bytes(16, varint_of_i32(m.event_number))) + ((varint_field_bytes(24, varint_of_bool(m.resolve_link_tos))) + ((varint_field_bytes(32, varint_of_bool(m.require_master)))))),
{
    lemma_encode_fields_append(
        (seq![WireField { tag: 10, value: WireValue::Bytes(encode_utf8(m.event_stream_id)) }]),
        (seq![WireField { tag: 16, value: WireValue::Varint(varint_of_i32(m.event_number)) }]) + ((seq![WireField { tag: 24, value: WireValue::Varint(varint_of_bool(m.resolve_link_tos)) }]) + ((seq![WireField { tag: 32, value: WireValue::Varint(varint_of_bool(m.require_master)) }]))),
    );
    lemma_encode_fields_append(
        (seq![WireField { tag: 16, value: WireValue::Varint(varint_of_i32(m.event_number)) }]),
        (seq![WireField { tag: 24, value: WireValue::Varint(varint_of_bool(m.resolve_link_tos)) }]) + ((seq![WireField { tag: 32, value: WireValue::Varint(varint_of_bool(m.require_master)) }])),
    );
    lemma_encode_fields_append(
        (seq![WireField { tag: 24, value: WireValue::Varint(varint_of_bool(m.resolve_link_tos)) }]),
        (seq![WireField { tag: 32, value: WireValue::Varint(varint_of_bool(m.require_master)) }]),
    );
    lemma_bytes_field_layout(10, encode_utf8(m.event_stream_id));
    lemma_varint_field_layout(16, varint_of_i32(m.event_number));
    lemma_varint_field_layout(24, varint_of_bool(m.resolve_link_tos));
    lemma_varint_field_layout(32, varint_of_bool(m.require_master));
}

/// Reading a written `ReadEvent` gives it back.
pub proof fn lemma_read_event_roundtrip(m: ReadEventModel)
    requires
        read_event_wf(m),
    ensures
        read_event_decode(read_event_encode(m)) == Some(m),
{
    let ap = read_event_applier();
    lemma_read_event_fields_tagged(m);
    lemma_fields_canonical_of_short(read_event_fields(m));
    lemma_decode_encoded_fields(read_event_fields(m), read_event_default(), ap, read_event_known());
    let a0 = read_event_default();
    let a1 = ReadEventModel { event_stream_id: m.event_stream_id, ..a0 };
    lemma_apply_fields_append(
        (seq![WireField { tag: 10, value: WireValue::Bytes(encode_utf8(m.event_stream_id)) }]),
        (seq![WireField { tag: 16, value: WireValue::Varint(varint_of_i32(m.event_number)) }]) + ((seq![WireField { tag: 24, value: WireValue::Varint(varint_of_bool(m.resolve_link_tos)) }]) + ((seq![WireField { tag: 32, value: WireValue::Varint(varint_of_bool(m.require_master)) }]))),
        a0,
        ap,
    );
    assert(apply_fields((seq![WireField { tag: 10, value: WireValue::Bytes(encode_utf8(m.event_stream_id)) }]), a0, ap) == Some(a1)) by {
        reveal_with_fuel(apply_fields, 2);
        lemma_string_roundtrip(m.event_stream_id);
    }
    let a2 = ReadEventModel { event_number: m.event_number, ..a1 };
    lemma_apply_fields_append(
        (seq![WireField { tag: 16, value: WireValue::Varint(varint_of_i32(m.event_number)) }]),
        (seq![WireField { tag: 24, value: WireValue::Varint(varint_of_bool(m.resolve_link_tos)) }]) + ((seq![WireField { tag: 32, value: WireValue::Varint(varint_of_bool(m.require_master)) }])),
        a1,
        ap,
    );
    assert(apply_fields((seq![WireField { tag: 16, value: WireValue::Varint(varint_of_i32(m.event_number)) }]), a1, ap) == Some(a2)) by {
        reveal_with_fuel(apply_fields, 2);
        lemma_scalar_roundtrips(m.event_number, 0, false);
    }
    let a3 = ReadEventModel { resolve_link_tos: m.resolve_link_tos, ..a2 };
    lemma_apply_fields_append(
        (seq![WireField { tag: 24, value: WireValue::Varint(varint_of_bool(m.resolve_link_tos)) }]),
        (seq![WireField { tag: 32, value: WireValue::Varint(varint_of_bool(m.require_master)) }]),
        a2,
        ap,
    );
    assert(apply_fields((seq![WireField { tag: 24, value: WireValue::Varint(varint_of_bool(m.resolve_link_tos)) }]), a2, ap) == Some(a3)) by {
        reveal_with_fuel(apply_fields, 2);
        lemma_scalar_roundtrips(0, 0, m.resolve_link_tos);
    }
    let a4 = ReadEventModel { require_master: m.require_master, ..a3 };
    assert(apply_fields((seq![WireField { tag: 32, value: WireValue::Varint(varint_of_bool(m.require_master)) }]), a3, ap) == Some(a4)) by {
        reveal_with_fuel(apply_fields, 2);
        lemma_scalar_roundtrips(0, 0, m.require_master);
    }
    assert(a4 == m);
}

impl ReadEvent {
    /// Decodes a `ReadEvent` from its protobuf bytes.
    pub fn from_reader(bytes: &[u8]) -> (res: Option<ReadEvent>)
        ensures
            read_event_decode(bytes@) matches Some(m) ==> (res matches Some(e) && e@ == m),
            read_event_decode(bytes@) is None ==> res is None,
    {
        let mut msg = ReadEvent::default_value();
        let mut pos: usize = 0;
        assert(bytes@.skip(0) =~= bytes@);
        while pos < bytes.len()
            invariant
                pos <= bytes@.len(),
                read_event_decode(bytes@) == decode_fields(bytes@.skip(pos as int), msg@, read_event_applier(), read_event_known()),
            decreases bytes@.len() - pos,
        {
            let ghost old_msg = msg@;
            let (tag, p) = match read_tag(bytes, pos) {
                Some(x) => x,
                None => {
                    return None;
                },
            };
            proof {
                lemma_field_parts(bytes@, pos as int, read_event_known());
            }
            let known: bool = tag == 10 || tag == 16 || tag == 24 || tag == 32;
            let (value, next) = match read_value(bytes, p, tag, known) {
                Some(x) => x,
                None => {
                    return None;
                },
            };
            let ghost f = parse_field(bytes@.skip(pos as int), read_event_known()).unwrap().0;
            proof {
                lemma_decode_step(bytes@, pos as int, old_msg, read_event_applier(), read_event_known());
                lemma_parse_field_len(bytes@.skip(pos as int), read_event_known());
            }
            if tag == 10 {
                match value {
                    FieldValue::Bytes(i, j) => match copy_string(bytes, i, j) {
                        Some(s) => {
                            msg.event_stream_id = s;
                        },
                        None => {
                            return None;
                        },
                    },
                    _ => {
                        return None;
                    },
                }
            } else if tag == 16 {
                match value {
                    FieldValue::Varint(v) => {
                        msg.event_number = varint_i32(v);
                    },
                    _ => {
                        return None;
                    },
                }
            } else if tag == 24 {
                match value {
                    FieldValue::Varint(v) => {
                        msg.resolve_link_tos = varint_bool(v);
                    },
                    _ => {
                        return None;
                    },
                }
            } else if tag == 32 {
                match value {
                    FieldValue::Varint(v) => {
                        msg.require_master = varint_bool(v);
                    },
                    _ => {
                        return None;
                    },
                }
            }
            assert(read_event_apply(old_msg, f) == Some(msg@));
            pos = next;
        }
        assert(bytes@.skip(pos as int).len() == 0);
        Some(msg)
    }

    /// A `ReadEvent` with every field at its default.
    pub fn default_value() -> (m: ReadEvent)
        ensures
            m@ == read_event_default(),
    {
        let m = ReadEvent {
            event_stream_id: String::new(),
            event_number: 0,
            resolve_link_tos: false,
            require_master: false,
        };
        m
    }

    /// A copy of this `ReadEvent`.
    pub fn copy(&self) -> (c: ReadEvent)
        ensures
            c@ == self@,
    {
        let c = ReadEvent {
            event_stream_id: self.event_stream_id.clone(),
            event_number: self.event_number,
            resolve_link_tos: self.resolve_link_tos,
            require_master: self.require_master,
        };
        assert(c@.event_stream_id =~= self@.event_stream_id);
        c
    }

    /// Encodes this `ReadEvent` as protobuf bytes.
    #[verifier::spinoff_prover]
    #[verifier::rlimit(30)]
    pub fn encode(&self) -> (out: Vec<u8>)
        ensures
            out@ == read_event_encode(self@),
            out@.len() < modulus32() ==> read_event_wf(self@),
    {
        let mut out: Vec<u8> = Vec::new();
        let ghost mut fs: Seq<WireField> = Seq::empty();
        write_bytes_field(&mut out, 10, self.event_stream_id.as_str().as_bytes());
        proof {
            let f = WireField { tag: 10, value: WireValue::Bytes(encode_utf8(self.event_stream_id@)) };
            lemma_encode_fields_push(fs, f);
            lemma_fields_shaped_push(fs, f);
            fs = fs.push(f);
        }
        write_varint_field(&mut out, 16, i32_varint(self.event_number));
        proof {
            let f = WireField { tag: 16, value: WireValue::Varint(varint_of_i32(self.event_number)) };
            lemma_encode_fields_push(fs, f);
            lemma_fields_shaped_push(fs, f);
            fs = fs.push(f);
        }
        write_varint_field(&mut out, 24, bool_varint(self.resolve_link_tos));
        proof {
            let f = WireField { tag: 24, value: WireValue::Varint(varint_of_bool(self.resolve_link_tos)) };
            lemma_encode_fields_push(fs, f);
            lemma_fields_shaped_push(fs, f);
            fs = fs.push(f);
        }
        write_varint_field(&mut out, 32, bool_varint(self.require_master));
        proof {
            let f = WireField { tag: 32, value: WireValue::Varint(varint_of_bool(self.require_master)) };
            lemma_encode_fields_push(fs, f);
            lemma_fields_shaped_push(fs, f);
            fs = fs.push(f);
        }
        assert(fs =~= read_event_fields(self@));
        proof {
            if out@.len() < modulus32() {
                lemma_fields_canonical_of_len(fs);
            }
        }
        out
    }

    /// The number of bytes of the encoding of this `ReadEvent`, computed without encoding it.
    #[verifier::spinoff_prover]
    #[verifier::rlimit(30)]
    pub fn get_size(&self) -> (n: usize)
        requires
            read_event_encode(self@).len() <= usize::MAX,
        ensures
            n == read_event_encode(self@).len(),
    {
        let ghost m = self@;
        proof {
            lemma_encode_fields_append(
                (seq![WireField { tag: 10, value: WireValue::Bytes(encode_utf8(m.event_stream_id)) }]),
                (seq![WireField { tag: 16, value: WireValue::Varint(varint_of_i32(m.event_number)) }]) + ((seq![WireField { tag: 24, value: WireValue::Varint(varint_of_bool(m.resolve_link_tos)) }]) + ((seq![WireField { tag: 32, value: WireValue::Varint(varint_of_bool(m.require_master)) }]))),
            );
            lemma_encode_fields_append(
                (seq![WireField { tag: 16, value: WireValue::Varint(varint_of_i32(m.event_number)) }]),
                (seq![WireField { tag: 24, value: WireValue::Varint(varint_of_bool(m.resolve_link_tos)) }]) + ((seq![WireField { tag: 32, value: WireValue::Varint(varint_of_bool(m.require_master)) }])),
            );
            lemma_encode_fields_append(
                (seq![WireField { tag: 24, value: WireValue::Varint(varint_of_bool(m.resolve_link_tos)) }]),
                (seq![WireField { tag: 32, value: WireValue::Varint(varint_of_bool(m.require_master)) }]),
            );
        }
        let mut n: usize = 0;
        let s3: usize = {
            proof {
                lemma_encode_fields_one(WireField { tag: 32, value: WireValue::Varint(varint_of_bool(m.require_master)) });
            }
            sizeof_varint_field(32, bool_varint(self.require_master))
        };
        n = s3 + n;
        let s2: usize = {
            proof {
                lemma_encode_fields_one(WireField { tag: 24, value: WireValue::Varint(varint_of_bool(m.resolve_link_tos)) });
            }
            sizeof_varint_field(24, bool_varint(self.resolve_link_tos))
        };
        n = s2 + n;
        let s1: usize = {
            proof {
                lemma_encode_fields_one(WireField { tag: 16, value: WireValue::Varint(varint_of_i32(m.event_number)) });
            }
            sizeof_varint_field(16, i32_varint(self.event_number))
        };
        n = s1 + n;
        let s0: usize = {
            proof {
                lemma_encode_fields_one(WireField { tag: 10, value: WireValue::Bytes(encode_utf8(m.event_stream_id)) });
            }
            sizeof_len_field(10, self.event_stream_id.as_str().as_bytes().len())
        };
        n = s0 + n;
        n
    }
}

/// Response to `ReadEvent`.
#[derive(Debug, Clone, PartialEq)]
pub struct ReadEventCompleted {
    /// The outcome
    pub result: Option<ReadEventResult>,
    /// The event read
    pub event: ResolvedIndexedEvent,
    /// An explanation
    pub error: Option<String>,
}

/// The contents of a `ReadEventCompleted`.
pub struct ReadEventCompletedModel {
    pub result: Option<ReadEventResult>,
    pub event: ResolvedIndexedEventModel,
    pub error: Option<Seq<char>>,
}

impl View for ReadEventCompleted {
    type V = ReadEventCompletedModel;

    open spec fn view(&self) -> ReadEventCompletedModel {
        ReadEventCompletedModel {
            result: self.result,
            event: self.event@,
            error: opt_string_view(self.error),
        }
    }
}

/// A `ReadEventCompleted` with every field at its default.
pub open spec fn read_event_completed_default() -> ReadEventCompletedModel {
    ReadEventCompletedModel {
        result: None,
        event: resolved_indexed_event_default(),
        error: None,
    }
}

/// Folds one field into a `ReadEventCompleted`; fields of unknown tags are skipped.
pub open spec fn read_event_completed_apply(m: ReadEventCompletedModel, f: WireField) -> Option<ReadEventCompletedModel> {
    if f.tag == 8 {
        match f.value {
            WireValue::Varint(v) => Some(ReadEventCompletedModel { result: Some(ReadEventResult::from_i32_spec(i32_of_varint(v))), ..m }),
            _ => None,
        }
    } else {
        if f.tag == 18 {
            match f.value {
                WireValue::Bytes(b) => match resolved_indexed_event_decode(b) {
                    Some(s) => Some(ReadEventCompletedModel { event: s, ..m }),
                    None => None,
                },
                _ => None,
            }
        } else {
            if f.tag == 26 {
                match f.value {
                    WireValue::Bytes(b) => match string_of(b) {
                        Some(s) => Some(ReadEventCompletedModel { error: Some(s), ..m }),
                        None => None,
                    },
                    _ => None,
                }
            } else {
                Some(m)
            }
        }
    }
}

/// `read_event_completed_apply` as a value.
pub open spec fn read_event_completed_applier() -> spec_fn(ReadEventCompletedModel, WireField) -> Option<ReadEventCompletedModel> {
    |m: ReadEventCompletedModel, f: WireField| read_event_completed_apply(m, f)
}

/// The tags of the fields that a `ReadEventCompleted` reads; the others are skipped.
pub open spec fn read_event_completed_known() -> spec_fn(u32) -> bool {
    |t: u32| t == 8 || t == 18 || t == 26
}

/// The `ReadEventCompleted` that `bytes` encode, if they encode one.
pub open spec fn read_event_completed_decode(bytes: Seq<u8>) -> Option<ReadEventCompletedModel> {
    decode_fields(bytes, read_event_completed_default(), read_event_completed_applier(), read_event_completed_known())
}

/// The fields that encode a `ReadEventCompleted`, in the order they are written.
pub open spec fn read_event_completed_fields(m: ReadEventCompletedModel) -> Seq<WireField> {
    (match m.result {
        Some(x) => seq![WireField { tag: 8, value: WireValue::Varint(varint_of_i32(x.to_i32_spec())) }],
        None => Seq::<WireField>::empty(),
    }) + ((seq![WireField { tag: 18, value: WireValue::Bytes(resolved_indexed_event_encode(m.event)) }]) + ((match m.error {
        Some(x) => seq![WireField { tag: 26, value: WireValue::Bytes(encode_utf8(x)) }],
        None => Seq::<WireField>::empty(),
    })))
}

/// The encoding of a `ReadEventCompleted`.
pub open spec fn read_event_completed_encode(m: ReadEventCompletedModel) -> Seq<u8> {
    encode_fields(read_event_completed_fields(m))
}

/// A `ReadEventCompleted` that reads back as written: every length-delimited field, those of the
/// embedded messages included, holds fewer than 2^32 bytes.
pub open spec fn read_event_completed_wf(m: ReadEventCompletedModel) -> bool {
    fields_short(read_event_completed_fields(m))
    && resolved_indexed_event_wf(m.event)
}

/// The fields of a `ReadEventCompleted` carry the wire types of their payloads.
pub proof fn lemma_read_event_completed_fields_tagged(m: ReadEventCompletedModel)
    ensures
        fields_tagged(read_event_completed_fields(m)),
{
    assert(fields_tagged((match m.error {
        Some(x) => seq![WireField { tag: 26, value: WireValue::Bytes(encode_utf8(x)) }],
        None => Seq::<WireField>::empty(),
    })));
    assert(fields_tagged((seq![WireField { tag: 18, value: WireValue::Bytes(resolved_indexed_event_encode(m.event)) }])));
    lemma_fields_tagged_append(
        (seq![WireField { tag: 18, value: WireValue::Bytes(resolved_indexed_event_encode(m.event)) }]),
        (match m.error {
            Some(x) => seq![WireField { tag: 26, value: WireValue::Bytes(encode_utf8(x)) }],
            None => Seq::<WireField>::empty(),
        }),
    );
    assert(fields_tagged((match m.result {
        Some(x) => seq![WireField { tag: 8, value: WireValue::Varint(varint_of_i32(x.to_i32_spec())) }],
        None => Seq::<WireField>::empty(),
    })));
    lemma_fields_tagged_append(
        (match m.result {
            Some(x) => seq![WireField { tag: 8, value: WireValue::Varint(varint_of_i32(x.to_i32_spec())) }],
            None => Seq::<WireField>::empty(),
        }),
        (seq![WireField { tag: 18, value: WireValue::Bytes(resolved_indexed_event_encode(m.event)) }]) + ((match m.error {
            Some(x) => seq![WireField { tag: 26, value: WireValue::Bytes(encode_utf8(x)) }],
            None => Seq::<WireField>::empty(),
        })),
    );
}

/// The bytes of an encoded `ReadEventCompleted`: `result` under tag 8, `event` under tag 18, `error` under tag 26, in this order; optional fields only
/// when present, repeated ones once per element.
pub proof fn lemma_read_event_completed_encode_layout(m: ReadEventCompletedModel)
    ensures
        read_event_completed_encode(m) == ((match m.result {
            Some(x) => varint_field_bytes(8, varint_of_i32(x.to_i32_spec())),
            None => Seq::<u8>::empty(),
        })) + ((bytes_field_bytes(18, resolved_indexed_event_encode(m.event))) + (((match m.error {
            Some(x) => bytes_field_bytes(26, encode_utf8(x)),
            None => Seq::<u8>::empty(),
        })))),
{
    lemma_encode_fields_append(
        (match m.result {
            Some(x) => seq![WireField { tag: 8, value: WireValue::Varint(varint_of_i32(x.to_i32_spec())) }],
            None => Seq::<WireField>::empty(),
        }),
        (seq![WireField { tag: 18, value: WireValue::Bytes(resolved_indexed_event_encode(m.event)) }]) + ((match m.error {
            Some(x) => seq![WireField { tag: 26, value: WireValue::Bytes(encode_utf8(x)) }],
            None => Seq::<WireField>::empty(),
        })),
    );
    lemma_encode_fields_append(
        (seq![WireField { tag: 18, value: WireValue::Bytes(resolved_indexed_event_encode(m.event)) }]),
        (match m.error {
            Some(x) => seq![WireField { tag: 26, value: WireValue::Bytes(encode_utf8(x)) }],
            None => Seq::<WireField>::empty(),
        }),
    );
    if let Some(x) = m.result {
        lemma_varint_field_layout(8, varint_of_i32(x.to_i32_spec()));
    }
    lemma_bytes_field_layout(18, resolved_indexed_event_encode(m.event));
    if let Some(x) = m.error {
        lemma_bytes_field_layout(26, encode_utf8(x));
    }
}

/// Reading a written `ReadEventCompleted` gives it back.
pub proof fn lemma_read_event_completed_roundtrip(m: ReadEventCompletedModel)
    requires
        read_event_completed_wf(m),
    ensures
        read_event_completed_decode(read_event_completed_encode(m)) == Some(m),
{
    let ap = read_event_completed_applier();
    lemma_read_event_completed_fields_tagged(m);
    lemma_fields_canonical_of_short(read_event_completed_fields(m));
    lemma_decode_encoded_fields(read_event_completed_fields(m), read_event_completed_default(), ap, read_event_completed_known());
    let a0 = read_event_completed_default();
    let a1 = ReadEventCompletedModel { result: m.result, ..a0 };
    lemma_apply_fields_append(
        (match m.result {
            Some(x) => seq![WireField { tag: 8, value: WireValue::Varint(varint_of_i32(x.to_i32_spec())) }],
            None => Seq::<WireField>::empty(),
        }),
        (seq![WireField { tag: 18, value: WireValue::Bytes(resolved_indexed_event_encode(m.event)) }]) + ((match m.error {
            Some(x) => seq![WireField { tag: 26, value: WireValue::Bytes(encode_utf8(x)) }],
            None => Seq::<WireField>::empty(),
        })),
        a0,
        ap,
    );
    assert(apply_fields((match m.result {
        Some(x) => seq![WireField { tag: 8, value: WireValue::Varint(varint_of_i32(x.to_i32_spec())) }],
        None => Seq::<WireField>::empty(),
    }), a0, ap) == Some(a1)) by {
        reveal_with_fuel(apply_fields, 2);
        if let Some(x) = m.result {
            lemma_scalar_roundtrips(x.to_i32_spec(), 0, false);
            x.lemma_i32_roundtrip();
        }
    }
    let a2 = ReadEventCompletedModel { event: m.event, ..a1 };
    lemma_apply_fields_append(
        (seq![WireField { tag: 18, value: WireValue::Bytes(resolved_indexed_event_encode(m.event)) }]),
        (match m.error {
            Some(x) => seq![WireField { tag: 26, value: WireValue::Bytes(encode_utf8(x)) }],
            None => Seq::<WireField>::empty(),
        }),
        a1,
        ap,
    );
    assert(apply_fields((seq![WireField { tag: 18, value: WireValue::Bytes(resolved_indexed_event_encode(m.event)) }]), a1, ap) == Some(a2)) by {
        reveal_with_fuel(apply_fields, 2);
        lemma_resolved_indexed_event_roundtrip(m.event);
    }
    let a3 = ReadEventCompletedModel { error: m.error, ..a2 };
    assert(apply_fields((match m.error {
        Some(x) => seq![WireField { tag: 26, value: WireValue::Bytes(encode_utf8(x)) }],
        None => Seq::<WireField>::empty(),
    }), a2, ap) == Some(a3)) by {
        reveal_with_fuel(apply_fields, 2);
        if let Some(x) = m.error {
            lemma_string_roundtrip(x);
        }
    }
    assert(a3 == m);
}

impl ReadEventCompleted {
    /// Decodes a `ReadEventCompleted` from its protobuf bytes.
    pub fn from_reader(bytes: &[u8]) -> (res: Option<ReadEventCompleted>)
        ensures
            read_event_completed_decode(bytes@) matches Some(m) ==> (res matches Some(e) && e@ == m),
            read_event_completed_decode(bytes@) is None ==> res is None,
    {
        let mut msg = ReadEventCompleted::default_value();
        let mut pos: usize = 0;
        assert(bytes@.skip(0) =~= bytes@);
        while pos < bytes.len()
            invariant
                pos <= bytes@.len(),
                read_event_completed_decode(bytes@) == decode_fields(bytes@.skip(pos as int), msg@, read_event_completed_applier(), read_event_completed_known()),
            decreases bytes@.len() - pos,
        {
            let ghost old_msg = msg@;
            let (tag, p) = match read_tag(bytes, pos) {
                Some(x) => x,
                None => {
                    return None;
                },
            };
            proof {
                lemma_field_parts(bytes@, pos as int, read_event_completed_known());
            }
            let known: bool = tag == 8 || tag == 18 || tag == 26;
            let (value, next) = match read_value(bytes, p, tag, known) {
                Some(x) => x,
                None => {
                    return None;
                },
            };
            let ghost f = parse_field(bytes@.skip(pos as int), read_event_completed_known()).unwrap().0;
            proof {
                lemma_decode_step(bytes@, pos as int, old_msg, read_event_completed_applier(), read_event_completed_known());
                lemma_parse_field_len(bytes@.skip(pos as int), read_event_completed_known());
            }
            if tag == 8 {
                match value {
                    FieldValue::Varint(v) => {
                        msg.result = Some(ReadEventResult::from_i32(varint_i32(v)));
                    },
                    _ => {
                        return None;
                    },
                }
            } else if tag == 18 {
                match value {
                    FieldValue::Bytes(i, j) => match ResolvedIndexedEvent::from_reader(slice_subrange(bytes, i, j)) {
                        Some(s) => {
                            msg.event = s;
                        },
                        None => {
                            return None;
                        },
                    },
                    _ => {
                        return None;
                    },
                }
            } else if tag == 26 {
                match value {
                    FieldValue::Bytes(i, j) => match copy_string(bytes, i, j) {
                        Some(s) => {
                            msg.error = Some(s);
                        },
                        None => {
                            return None;
                        },
                    },
                    _ => {
                        return None;
                    },
                }
            }
            assert(read_event_completed_apply(old_msg, f) == Some(msg@));
            pos = next;
        }
        assert(bytes@.skip(pos as int).len() == 0);
        Some(msg)
    }

    /// A `ReadEventCompleted` with every field at its default.
    pub fn default_value() -> (m: ReadEventCompleted)
        ensures
            m@ == read_event_completed_default(),
    {
        let m = ReadEventCompleted {
            result: None,
            event: ResolvedIndexedEvent::default_value(),
            error: None,
        };
        m
    }

    /// A copy of this `ReadEventCompleted`.
    pub fn copy(&self) -> (c: ReadEventCompleted)
        ensures
            c@ == self@,
    {
        let c = ReadEventCompleted {
            result: self.result,
            event: self.event.copy(),
            error: match &self.error {
                Some(x) => Some(x.clone()),
                None => None,
            },
        };
        assert(c@.error =~= self@.error);
        c
    }

    /// Encodes this `ReadEventCompleted` as protobuf bytes.
    #[verifier::spinoff_prover]
    #[verifier::rlimit(30)]
    pub fn encode(&self) -> (out: Vec<u8>)
        ensures
            out@ == read_event_completed_encode(self@),
            out@.len() < modulus32() ==> read_event_completed_wf(self@),
    {
        let mut out: Vec<u8> = Vec::new();
        let ghost mut fs: Seq<WireField> = Seq::empty();
        match self.result {
            Some(x) => {
                write_varint_field(&mut out, 8, i32_varint(x.to_i32()));
                proof {
                    let f = WireField { tag: 8, value: WireValue::Varint(varint_of_i32(x.to_i32_spec())) };
                    lemma_encode_fields_push(fs, f);
                    lemma_fields_shaped_push(fs, f);
                    fs = fs.push(f);
                }
            },
            None => {},
        }
        let sub = self.event.encode();
        write_bytes_field(&mut out, 18, sub.as_slice());
        proof {
            let f = WireField { tag: 18, value: WireValue::Bytes(resolved_indexed_event_encode(self.event@)) };
            lemma_encode_fields_push(fs, f);
            lemma_fields_shaped_push(fs, f);
            fs = fs.push(f);
        }
        match &self.error {
            Some(x) => {
                write_bytes_field(&mut out, 26, x.as_str().as_bytes());
                proof {
                    let f = WireField { tag: 26, value: WireValue::Bytes(encode_utf8(x@)) };
                    lemma_encode_fields_push(fs, f);
                    lemma_fields_shaped_push(fs, f);
                    fs = fs.push(f);
                }
            },
            None => {},
        }
        assert(fs =~= read_event_completed_fields(self@));
        proof {
            if out@.len() < modulus32() {
                lemma_fields_canonical_of_len(fs);
            }
        }
        out
    }

    /// The number of bytes of the encoding of this `ReadEventCompleted`, computed without encoding it.
    #[verifier::spinoff_prover]
    #[verifier::rlimit(30)]
    pub fn get_size(&self) -> (n: usize)
        requires
            read_event_completed_encode(self@).len() <= usize::MAX,
        ensures
            n == read_event_completed_encode(self@).len(),
    {
        let ghost m = self@;
        proof {
            lemma_encode_fields_append(
                (match m.result {
                    Some(x) => seq![WireField { tag: 8, value: WireValue::Varint(varint_of_i32(x.to_i32_spec())) }],
                    None => Seq::<WireField>::empty(),
                }),
                (seq![WireField { tag: 18, value: WireValue::Bytes(resolved_indexed_event_encode(m.event)) }]) + ((match m.error {
                    Some(x) => seq![WireField { tag: 26, value: WireValue::Bytes(encode_utf8(x)) }],
                    None => Seq::<WireField>::empty(),
                })),
            );
            lemma_encode_fields_append(
                (seq![WireField { tag: 18, value: WireValue::Bytes(resolved_indexed_event_encode(m.event)) }]),
                (match m.error {
                    Some(x) => seq![WireField { tag: 26, value: WireValue::Bytes(encode_utf8(x)) }],
                    None => Seq::<WireField>::empty(),
                }),
            );
        }
        let mut n: usize = 0;
        let s2: usize = match &self.error {
            Some(x) => {
                proof {
                    lemma_encode_fields_one(WireField { tag: 26, value: WireValue::Bytes(encode_utf8(x@)) });
                }
                sizeof_len_field(26, x.as_str().as_bytes().len())
            },
            None => 0,
        };
        n = s2 + n;
        let s1: usize = {
            proof {
                lemma_encode_fields_one(WireField { tag: 18, value: WireValue::Bytes(resolved_indexed_event_encode(m.event)) });
            }
            sizeof_len_field(18, self.event.get_size())
        };
        n = s1 + n;
        let s0: usize = match self.result {
            Some(x) => {
                proof {
                    lemma_encode_fields_one(WireField { tag: 8, value: WireValue::Varint(varint_of_i32(x.to_i32_spec())) });
                }
                sizeof_varint_field(8, i32_varint(x.to_i32()))
            },
            None => 0,
        };
        n = s0 + n;
        n
    }
}

/// Request to read events of a stream in one direction.
#[derive(Debug, Clone, PartialEq)]
pub struct ReadStreamEvents {
    /// The stream to read from
    pub event_stream_id: String,
    /// The number of the first event to read
    pub from_event_number: i32,
    /// The most events to read
    pub max_count: i32,
    /// Whether to follow link events
    pub resolve_link_tos: bool,
    /// Whether only the master may handle the request
    pub require_master: bool,
}

/// The contents of a `ReadStreamEvents`.
pub struct ReadStreamEventsModel {
    pub event_stream_id: Seq<char>,
    pub from_event_number: i32,
    pub max_count: i32,
    pub resolve_link_tos: bool,
    pub require_master: bool,
}

impl View for ReadStreamEvents {
    type V = ReadStreamEventsModel;

    open spec fn view(&self) -> ReadStreamEventsModel {
        ReadStreamEventsModel {
            event_stream_id: self.event_stream_id@,
            from_event_number: self.from_event_number,
            max_count: self.max_count,
            resolve_link_tos: self.resolve_link_tos,
            require_master: self.require_master,
        }
    }
}

/// A `ReadStreamEvents` with every field at its default.
pub open spec fn read_stream_events_default() -> ReadStreamEventsModel {
    ReadStreamEventsModel {
        event_stream_id: Seq::empty(),
        from_event_number: 0,
        max_count: 0,
        resolve_link_tos: false,
        require_master: false,
    }
}

/// Folds one field into a `ReadStreamEvents`; fields of unknown tags are skipped.
pub open spec fn read_stream_events_apply(m: ReadStreamEventsModel, f: WireField) -> Option<ReadStreamEventsModel> {
    if f.tag == 10 {
        match f.value {
            WireValue::Bytes(b) => match string_of(b) {
                Some(s) => Some(ReadStreamEventsModel { event_stream_id: s, ..m }),
                None => None,
            },
            _ => None,
        }
    } else {
        if f.tag == 16 {
            match f.value {
                WireValue::Varint(v) => Some(ReadStreamEventsModel { from_event_number: i32_of_varint(v), ..m }),
                _ => None,
            }
        } else {
            if f.tag == 24 {
                match f.value {
                    WireValue::Varint(v) => Some(ReadStreamEventsModel { max_count: i32_of_varint(v), ..m }),
                    _ => None,
                }
            } else {
                if f.tag == 32 {
                    match f.value {
                        WireValue::Varint(v) => Some(ReadStreamEventsModel { resolve_link_tos: bool_of_varint(v), ..m }),
                        _ => None,
                    }
                } else {
                    if f.tag == 40 {
                        match f.value {
                            WireValue::Varint(v) => Some(ReadStreamEventsModel { require_master: bool_of_varint(v), ..m }),
                            _ => None,
                        }
                    } else {
                        Some(m)
                    }
                }
            }
        }
    }
}

/// `read_stream_events_apply` as a value.
pub open spec fn read_stream_events_applier() -> spec_fn(ReadStreamEventsModel, WireField) -> Option<ReadStreamEventsModel> {
    |m: ReadStreamEventsModel, f: WireField| read_stream_events_apply(m, f)
}

/// The tags of the fields that a `ReadStreamEvents` reads; the others are skipped.
pub open spec fn read_stream_events_known() -> spec_fn(u32) -> bool {
    |t: u32| t == 10 || t == 16 || t == 24 || t == 32 || t == 40
}

/// The `ReadStreamEvents` that `bytes` encode, if they encode one.
pub open spec fn read_stream_events_decode(bytes: Seq<u8>) -> Option<ReadStreamEventsModel> {
    decode_fields(bytes, read_stream_events_default(), read_stream_events_applier(), read_stream_events_known())
}

/// The fields that encode a `ReadStreamEvents`, in the order they are written.
pub open spec fn read_stream_events_fields(m: ReadStreamEventsModel) -> Seq<WireField> {
    (seq![WireField { tag: 10, value: WireValue::Bytes(encode_utf8(m.event_stream_id)) }]) + ((seq![WireField { tag: 16, value: WireValue::Varint(varint_of_i32(m.from_event_number)) }]) + ((seq![WireField { tag: 24, value: WireValue::Varint(varint_of_i32(m.max_count)) }]) + ((seq![WireField { tag: 32, value: WireValue::Varint(varint_of_bool(m.resolve_link_tos)) }]) + ((seq![WireField { tag: 40, value: WireValue::Varint(varint_of_bool(m.require_master)) }])))))
}

/// The encoding of a `ReadStreamEvents`.
pub open spec fn read_stream_events_encode(m: ReadStreamEventsModel) -> Seq<u8> {
    encode_fields(read_stream_events_fields(m))
}

/// A `ReadStreamEvents` that reads back as written: every length-delimited field, those of the
/// embedded messages included, holds fewer than 2^32 bytes.
pub open spec fn read_stream_events_wf(m: ReadStreamEventsModel) -> bool {
    fields_short(read_stream_events_fields(m))
}

/// The fields of a `ReadStreamEvents` carry the wire types of their payloads.
pub proof fn lemma_read_stream_events_fields_tagged(m: ReadStreamEventsModel)
    ensures
        fields_tagged(read_stream_events_fields(m)),
{
    assert(fields_tagged((seq![WireField { tag: 40, value: WireValue::Varint(varint_of_bool(m.require_master)) }])));
    assert(fields_tagged((seq![WireField { tag: 32, value: WireValue::Varint(varint_of_bool(m.resolve_link_tos)) }])));
    lemma_fields_tagged_append(
        (seq![WireField { tag: 32, value: WireValue::Varint(varint_of_bool(m.resolve_link_tos)) }]),
        (seq![WireField { tag: 40, value: WireValue::Varint(varint_of_bool(m.require_master)) }]),
    );
    assert(fields_tagged((seq![WireField { tag: 24, value: WireValue::Varint(varint_of_i32(m.max_count)) }])));
    lemma_fields_tagged_append(
        (seq![WireField { tag: 24, value: WireValue::Varint(varint_of_i32(m.max_count)) }]),
        (seq![WireField { tag: 32, value: WireValue::Varint(varint_of_bool(m.resolve_link_tos)) }]) + ((seq![WireField { tag: 40, value: WireValue::Varint(varint_of_bool(m.require_master)) }])),
    );
    assert(fields_tagged((seq![WireField { tag: 16, value: WireValue::Varint(varint_of_i32(m.from_event_number)) }])));
    lemma_fields_tagged_append(
        (seq![WireField { tag: 16, value: WireValue::Varint(varint_of_i32(m.from_event_number)) }]),
        (seq![WireField { tag: 24, value: WireValue::Varint(varint_of_i32(m.max_count)) }]) + ((seq![WireField { tag: 32, value: WireValue::Varint(varint_of_bool(m.resolve_link_tos)) }]) + ((seq![WireField { tag: 40, value: WireValue::Varint(varint_of_bool(m.require_master)) }]))),
    );
    assert(fields_tagged((seq![WireField { tag: 10, value: WireValue::Bytes(encode_utf8(m.event_stream_id)) }])));
    lemma_fields_tagged_append(
        (seq![WireField { tag: 10, value: WireValue::Bytes(encode_utf8(m.event_stream_id)) }]),
        (seq![WireField { tag: 16, value: WireValue::Varint(varint_of_i32(m.from_event_number)) }]) + ((seq![WireField { tag: 24, value: WireValue::Varint(varint_of_i32(m.max_count)) }]) + ((seq![WireField { tag: 32, value: WireValue::Varint(varint_of_bool(m.resolve_link_tos)) }]) + ((seq![WireField { tag: 40, value: WireValue::Varint(varint_of_bool(m.require_master)) }])))),
    );
}

/// The bytes of an encoded `ReadStreamEvents`: `event_stream_id` under tag 10, `from_event_number` under tag 16, `max_count` under tag 24, `resolve_link_tos` under tag 32, `require_master` under tag 40, in this order; optional fields only
/// when present, repeated ones once per element.
pub proof fn lemma_read_stream_events_encode_layout(m: ReadStreamEventsModel)
    ensures
        read_stream_events_encode(m) == (bytes_field_bytes(10, encode_utf8(m.event_stream_id))) + ((varint_field_bytes(16, varint_of_i32(m.from_event_number))) + ((varint_field_bytes(24, varint_of_i32(m.max_count))) + ((varint_field_bytes(32, varint_of_bool(m.resolve_link_tos))) + ((varint_field_bytes(40, varint_of_bool(m.require_master))))))),
{
    lemma_encode_fields_append(
        (seq![WireField { tag: 10, value: WireValue::Bytes(encode_utf8(m.event_stream_id)) }]),
        (seq![WireField { tag: 16, value: WireValue::Varint(varint_of_i32(m.from_event_number)) }]) + ((seq![WireField { tag: 24, value: WireValue::Varint(varint_of_i32(m.max_count)) }]) + ((seq![WireField { tag: 32, value: WireValue::Varint(varint_of_bool(m.resolve_link_tos)) }]) + ((seq![WireField { tag: 40, value: WireValue::Varint(varint_of_bool(m.require_master)) }])))),
    );
    lemma_encode_fields_append(
        (seq![WireField { tag: 16, value: WireValue::Varint(varint_of_i32(m.from_event_number)) }]),
        (seq![WireField { tag: 24, value: WireValue::Varint(varint_of_i32(m.max_count)) }]) + ((seq![WireField { tag: 32, value: WireValue::Varint(varint_of_bool(m.resolve_link_tos)) }]) + ((seq![WireField { tag: 40, value: WireValue::Varint(varint_of_bool(m.require_master)) }]))),
    );
    lemma_encode_fields_append(
        (seq![WireField { tag: 24, value: WireValue::Varint(varint_of_i32(m.max_count)) }]),
        (seq![WireField { tag: 32, value: WireValue::Varint(varint_of_bool(m.resolve_link_tos)) }]) + ((seq![WireField { tag: 40, value: WireValue::Varint(varint_of_bool(m.require_master)) }])),
    );
    lemma_encode_fields_append(
        (seq![WireField { tag: 32, value: WireValue::Varint(varint_of_bool(m.resolve_link_tos)) }]),
        (seq![WireField { tag: 40, value: WireValue::Varint(varint_of_bool(m.require_master)) }]),
    );
    lemma_bytes_field_layout(10, encode_utf8(m.event_stream_id));
    lemma_varint_field_layout(16, varint_of_i32(m.from_event_number));
    lemma_varint_field_layout(24, varint_of_i32(m.max_count));
    lemma_varint_field_layout(32, varint_of_bool(m.resolve_link_tos));
    lemma_varint_field_layout(40, varint_of_bool(m.require_master));
}

/// Reading a written `ReadStreamEvents` gives it back.
pub proof fn lemma_read_stream_events_roundtrip(m: ReadStreamEventsModel)
    requires
        read_stream_events_wf(m),
    ensures
        read_stream_events_decode(read_stream_events_encode(m)) == Some(m),
{
    let ap = read_stream_events_applier();
    lemma_read_stream_events_fields_tagged(m);
    lemma_fields_canonical_of_short(read_stream_events_fields(m));
    lemma_decode_encoded_fields(read_stream_events_fields(m), read_stream_events_default(), ap, read_stream_events_known());
    let a0 = read_stream_events_default();
    let a1 = ReadStreamEventsModel { event_stream_id: m.event_stream_id, ..a0 };
    lemma_apply_fields_append(
        (seq![WireField { tag: 10, value: WireValue::Bytes(encode_utf8(m.event_stream_id)) }]),
        (seq![WireField { tag: 16, value: WireValue::Varint(varint_of_i32(m.from_event_number)) }]) + ((seq![WireField { tag: 24, value: WireValue::Varint(varint_of_i32(m.max_count)) }]) + ((seq![WireField { tag: 32, value: WireValue::Varint(varint_of_bool(m.resolve_link_tos)) }]) + ((seq![WireField { tag: 40, value: WireValue::Varint(varint_of_bool(m.require_master)) }])))),
        a0,
        ap,
    );
    assert(apply_fields((seq![WireField { tag: 10, value: WireValue::Bytes(encode_utf8(m.event_stream_id)) }]), a0, ap) == Some(a1)) by {
        reveal_with_fuel(apply_fields, 2);
        lemma_string_roundtrip(m.event_stream_id);
    }
    let a2 = ReadStreamEventsModel { from_event_number: m.from_event_number, ..a1 };
    lemma_apply_fields_append(
        (seq![WireField { tag: 16, value: WireValue::Varint(varint_of_i32(m.from_event_number)) }]),
        (seq![WireField { tag: 24, value: WireValue::Varint(varint_of_i32(m.max_count)) }]) + ((seq![WireField { tag: 32, value: WireValue::Varint(varint_of_bool(m.resolve_link_tos)) }]) + ((seq![WireField { tag: 40, value: WireValue::Varint(varint_of_bool(m.require_master)) }]))),
        a1,
        ap,
    );
    assert(apply_fields((seq![WireField { tag: 16, value: WireValue::Varint(varint_of_i32(m.from_event_number)) }]), a1, ap) == Some(a2)) by {
        reveal_with_fuel(apply_fields, 2);
        lemma_scalar_roundtrips(m.from_event_number, 0, false);
    }
    let a3 = ReadStreamEventsModel { max_count: m.max_count, ..a2 };
    lemma_apply_fields_append(
        (seq![WireField { tag: 24, value: WireValue::Varint(varint_of_i32(m.max_count)) }]),
        (seq![WireField { tag: 32, value: WireValue::Varint(varint_of_bool(m.resolve_link_tos)) }]) + ((seq![WireField { tag: 40, value: WireValue::Varint(varint_of_bool(m.require_master)) }])),
        a2,
        ap,
    );
    assert(apply_fields((seq![WireField { tag: 24, value: WireValue::Varint(varint_of_i32(m.max_count)) }]), a2, ap) == Some(a3)) by {
        reveal_with_fuel(apply_fields, 2);
        lemma_scalar_roundtrips(m.max_count, 0, false);
    }
    let a4 = ReadStreamEventsModel { resolve_link_tos: m.resolve_link_tos, ..a3 };
    lemma_apply_fields_append(
        (seq![WireField { tag: 32, value: WireValue::Varint(varint_of_bool(m.resolve_link_tos)) }]),
        (seq![WireField { tag: 40, value: WireValue::Varint(varint_of_bool(m.require_master)) }]),
        a3,
        ap,
    );
    assert(apply_fields((seq![WireField { tag: 32, value: WireValue::Varint(varint_of_bool(m.resolve_link_tos)) }]), a3, ap) == Some(a4)) by {
        reveal_with_fuel(apply_fields, 2);
        lemma_scalar_roundtrips(0, 0, m.resolve_link_tos);
    }
    let a5 = ReadStreamEventsModel { require_master: m.require_master, ..a4 };
    assert(apply_fields((seq![WireField { tag: 40, value: WireValue::Varint(varint_of_bool(m.require_master)) }]), a4, ap) == Some(a5)) by {
        reveal_with_fuel(apply_fields, 2);
        lemma_scalar_roundtrips(0, 0, m.require_master);
    }
    assert(a5 == m);
}

impl ReadStreamEvents {
    /// Decodes a `ReadStreamEvents` from its protobuf bytes.
    pub fn from_reader(bytes: &[u8]) -> (res: Option<ReadStreamEvents>)
        ensures
            read_stream_events_decode(bytes@) matches Some(m) ==> (res matches Some(e) && e@ == m),
            read_stream_events_decode(bytes@) is None ==> res is None,
    {
        let mut msg = ReadStreamEvents::default_value();
        let mut pos: usize = 0;
        assert(bytes@.skip(0) =~= bytes@);
        while pos < bytes.len()
            invariant
                pos <= bytes@.len(),
                read_stream_events_decode(bytes@) == decode_fields(bytes@.skip(pos as int), msg@, read_stream_events_applier(), read_stream_events_known()),
            decreases bytes@.len() - pos,
        {
            let ghost old_msg = msg@;
            let (tag, p) = match read_tag(bytes, pos) {
                Some(x) => x,
                None => {
                    return None;
                },
            };
            proof {
                lemma_field_parts(bytes@, pos as int, read_stream_events_known());
            }
            let known: bool = tag == 10 || tag == 16 || tag == 24 || tag == 32 || tag == 40;
            let (value, next) = match read_value(bytes, p, tag, known) {
                Some(x) => x,
                None => {
                    return None;
                },
            };
            let ghost f = parse_field(bytes@.skip(pos as int), read_stream_events_known()).unwrap().0;
            proof {
                lemma_decode_step(bytes@, pos as int, old_msg, read_stream_events_applier(), read_stream_events_known());
                lemma_parse_field_len(bytes@.skip(pos as int), read_stream_events_known());
            }
            if tag == 10 {
                match value {
                    FieldValue::Bytes(i, j) => match copy_string(bytes, i, j) {
                        Some(s) => {
                            msg.event_stream_id = s;
                        },
                        None => {
                            return None;
                        },
                    },
                    _ => {
                        return None;
                    },
                }
            } else if tag == 16 {
                match value {
                    FieldValue::Varint(v) => {
                        msg.from_event_number = varint_i32(v);
                    },
                    _ => {
                        return None;
                    },
                }
            } else if tag == 24 {
                match value {
                    FieldValue::Varint(v) => {
                        msg.max_count = varint_i32(v);
                    },
                    _ => {
                        return None;
                    },
                }
            } else if tag == 32 {
                match value {
                    FieldValue::Varint(v) => {
                        msg.resolve_link_tos = varint_bool(v);
                    },
                    _ => {
                        return None;
                    },
                }
            } else if tag == 40 {
                match value {
                    FieldValue::Varint(v) => {
                        msg.require_master = varint_bool(v);
                    },
                    _ => {
                        return None;
                    },
                }
            }
            assert(read_stream_events_apply(old_msg, f) == Some(msg@));
            pos = next;
        }
        assert(bytes@.skip(pos as int).len() == 0);
        Some(msg)
    }

    /// A `ReadStreamEvents` with every field at its default.
    pub fn default_value() -> (m: ReadStreamEvents)
        ensures
            m@ == read_stream_events_default(),
    {
        let m = ReadStreamEvents {
            event_stream_id: String::new(),
            from_event_number: 0,
            max_count: 0,
            resolve_link_tos: false,
            require_master: false,
        };
        m
    }

    /// A copy of this `ReadStreamEvents`.
    pub fn copy(&self) -> (c: ReadStreamEvents)
        ensures
            c@ == self@,
    {
        let c = ReadStreamEvents {
            event_stream_id: self.event_stream_id.clone(),
            from_event_number: self.from_event_number,
            max_count: self.max_count,
            resolve_link_tos: self.resolve_link_tos,
            require_master: self.require_master,
        };
        assert(c@.event_stream_id =~= self@.event_stream_id);
        c
    }

    /// Encodes this `ReadStreamEvents` as protobuf bytes.
    #[verifier::spinoff_prover]
    #[verifier::rlimit(30)]
    pub fn encode(&self) -> (out: Vec<u8>)
        ensures
            out@ == read_stream_events_encode(self@),
            out@.len() < modulus32() ==> read_stream_events_wf(self@),
    {
        let mut out: Vec<u8> = Vec::new();
        let ghost mut fs: Seq<WireField> = Seq::empty();
        write_bytes_field(&mut out, 10, self.event_stream_id.as_str().as_bytes());
        proof {
            let f = WireField { tag: 10, value: WireValue::Bytes(encode_utf8(self.event_stream_id@)) };
            lemma_encode_fields_push(fs, f);
            lemma_fields_shaped_push(fs, f);
            fs = fs.push(f);
        }
        write_varint_field(&mut out, 16, i32_varint(self.from_event_number));
        proof {
            let f = WireField { tag: 16, value: WireValue::Varint(varint_of_i32(self.from_event_number)) };
            lemma_encode_fields_push(fs, f);
            lemma_fields_shaped_push(fs, f);
            fs = fs.push(f);
        }
        write_varint_field(&mut out, 24, i32_varint(self.max_count));
        proof {
            let f = WireField { tag: 24, value: WireValue::Varint(varint_of_i32(self.max_count)) };
            lemma_encode_fields_push(fs, f);
            lemma_fields_shaped_push(fs, f);
            fs = fs.push(f);
        }
        write_varint_field(&mut out, 32, bool_varint(self.resolve_link_tos));
        proof {
            let f = WireField { tag: 32, value: WireValue::Varint(varint_of_bool(self.resolve_link_tos)) };
            lemma_encode_fields_push(fs, f);
            lemma_fields_shaped_push(fs, f);
            fs = fs.push(f);
        }
        write_varint_field(&mut out, 40, bool_varint(self.require_master));
        proof {
            let f = WireField { tag: 40, value: WireValue::Varint(varint_of_bool(self.require_master)) };
            lemma_encode_fields_push(fs, f);
            lemma_fields_shaped_push(fs, f);
            fs = fs.push(f);
        }
        assert(fs =~= read_stream_events_fields(self@));
        proof {
            if out@.len() < modulus32() {
                lemma_fields_canonical_of_len(fs);
            }
        }
        out
    }

    /// The number of bytes of the encoding of this `ReadStreamEvents`, computed without encoding it.
    #[verifier::spinoff_prover]
    #[verifier::rlimit(30)]
    pub fn get_size(&self) -> (n: usize)
        requires
            read_stream_events_encode(self@).len() <= usize::MAX,
        ensures
            n == read_stream_events_encode(self@).len(),
    {
        let ghost m = self@;
        proof {
            lemma_encode_fields_append(
                (seq![WireField { tag: 10, value: WireValue::Bytes(encode_utf8(m.event_stream_id)) }]),
                (seq![WireField { tag: 16, value: WireValue::Varint(varint_of_i32(m.from_event_number)) }]) + ((seq![WireField { tag: 24, value: WireValue::Varint(varint_of_i32(m.max_count)) }]) + ((seq![WireField { tag: 32, value: WireValue::Varint(varint_of_bool(m.resolve_link_tos)) }]) + ((seq![WireField { tag: 40, value: WireValue::Varint(varint_of_bool(m.require_master)) }])))),
            );
            lemma_encode_fields_append(
                (seq![WireField { tag: 16, value: WireValue::Varint(varint_of_i32(m.from_event_number)) }]),
                (seq![WireField { tag: 24, value: WireValue::Varint(varint_of_i32(m.max_count)) }]) + ((seq![WireField { tag: 32, value: WireValue::Varint(varint_of_bool(m.resolve_link_tos)) }]) + ((seq![WireField { tag: 40, value: WireValue::Varint(varint_of_bool(m.require_master)) }]))),
            );
            lemma_encode_fields_append(
                (seq![WireField { tag: 24, value: WireValue::Varint(varint_of_i32(m.max_count)) }]),
                (seq![WireField { tag: 32, value: WireValue::Varint(varint_of_bool(m.resolve_link_tos)) }]) + ((seq![WireField { tag: 40, value: WireValue::Varint(varint_of_bool(m.require_master)) }])),
            );
            lemma_encode_fields_append(
                (seq![WireField { tag: 32, value: WireValue::Varint(varint_of_bool(m.resolve_link_tos)) }]),
                (seq![WireField { tag: 40, value: WireValue::Varint(varint_of_bool(m.require_master)) }]),
            );
        }
        let mut n: usize = 0;
        let s4: usize = {
            proof {
                lemma_encode_fields_one(WireField { tag: 40, value: WireValue::Varint(varint_of_bool(m.require_master)) });
            }
            sizeof_varint_field(40, bool_varint(self.require_master))
        };
        n = s4 + n;
        let s3: usize = {
            proof {
                lemma_encode_fields_one(WireField { tag: 32, value: WireValue::Varint(varint_of_bool(m.resolve_link_tos)) });
            }
            sizeof_varint_field(32, bool_varint(self.resolve_link_tos))
        };
        n = s3 + n;
        let s2: usize = {
            proof {
                lemma_encode_fields_one(WireField { tag: 24, value: WireValue::Varint(varint_of_i32(m.max_count)) });
            }
            sizeof_varint_field(24, i32_varint(self.max_count))
        };
        n = s2 + n;
        let s1: usize = {
            proof {
                lemma_encode_fields_one(WireField { tag: 16, value: WireValue::Varint(varint_of_i32(m.from_event_number)) });
            }
            sizeof_varint_field(16, i32_varint(self.from_event_number))
        };
        n = s1 + n;
        let s0: usize = {
            proof {
                lemma_encode_fields_one(WireField { tag: 10, value: WireValue::Bytes(encode_utf8(m.event_stream_id)) });
            }
            sizeof_len_field(10, self.event_stream_id.as_str().as_bytes().len())
        };
        n = s0 + n;
        n
    }
}

/// Response to `ReadStreamEvents`.
#[derive(Debug, Clone, PartialEq)]
pub struct ReadStreamEventsCompleted {
    /// The events read
    pub events: Vec<ResolvedIndexedEvent>,
    /// The outcome
    pub result: Option<ReadStreamResult>,
    /// Where the next page starts
    pub next_event_number: i32,
    /// Number of the last event of the stream
    pub last_event_number: i32,
    /// Whether the end of the stream was reached
    pub is_end_of_stream: bool,
    /// Commit position of the last event
    pub last_commit_position: i64,
    /// An explanation
    pub error: Option<String>,
}

/// The contents of a `ReadStreamEventsCompleted`.
pub struct ReadStreamEventsCompletedModel {
    pub events: Seq<ResolvedIndexedEventModel>,
    pub result: Option<ReadStreamResult>,
    pub next_event_number: i32,
    pub last_event_number: i32,
    pub is_end_of_stream: bool,
    pub last_commit_position: i64,
    pub error: Option<Seq<char>>,
}

impl View for ReadStreamEventsCompleted {
    type V = ReadStreamEventsCompletedModel;

    open spec fn view(&self) -> ReadStreamEventsCompletedModel {
        ReadStreamEventsCompletedModel {
            events: self.events@.map_values(|e: ResolvedIndexedEvent| e@),
            result: self.result,
            next_event_number: self.next_event_number,
            last_event_number: self.last_event_number,
            is_end_of_stream: self.is_end_of_stream,
            last_commit_position: self.last_commit_position,
            error: opt_string_view(self.error),
        }
    }
}

/// A `ReadStreamEventsCompleted` with every field at its default.
pub open spec fn read_stream_events_completed_default() -> ReadStreamEventsCompletedModel {
    ReadStreamEventsCompletedModel {
        events: Seq::empty(),
        result: None,
        next_event_number: 0,
        last_event_number: 0,
        is_end_of_stream: false,
        last_commit_position: 0,
        error: None,
    }
}

/// Folds one field into a `ReadStreamEventsCompleted`; fields of unknown tags are skipped.
pub open spec fn read_stream_events_completed_apply(m: ReadStreamEventsCompletedModel, f: WireField) -> Option<ReadStreamEventsCompletedModel> {
    if f.tag == 10 {
        match f.value {
            WireValue::Bytes(b) => match resolved_indexed_event_decode(b) {
                Some(s) => Some(ReadStreamEventsCompletedModel { events: m.events.push(s), ..m }),
                None => None,
            },
            _ => None,
        }
    } else {
        if f.tag == 16 {
            match f.value {
                WireValue::Varint(v) => Some(ReadStreamEventsCompletedModel { result: Some(ReadStreamResult::from_i32_spec(i32_of_varint(v))), ..m }),
                _ => None,
            }
        } else {
            if f.tag == 24 {
                match f.value {
                    WireValue::Varint(v) => Some(ReadStreamEventsCompletedModel { next_event_number: i32_of_varint(v), ..m }),
                    _ => None,
                }
            } else {
                if f.tag == 32 {
                    match f.value {
                        WireValue::Varint(v) => Some(ReadStreamEventsCompletedModel { last_event_number: i32_of_varint(v), ..m }),
                        _ => None,
                    }
                } else {
                    if f.tag == 40 {
                        match f.value {
                            WireValue::Varint(v) => Some(ReadStreamEventsCompletedModel { is_end_of_stream: bool_of_varint(v), ..m }),
                            _ => None,
                        }
                    } else {
                        if f.tag == 48 {
                            match f.value {
                                WireValue::Varint(v) => Some(ReadStreamEventsCompletedModel { last_commit_position: i64_of_varint(v), ..m }),
                                _ => None,
                            }
                        } else {
                            if f.tag == 58 {
                                match f.value {
                                    WireValue::Bytes(b) => match string_of(b) {
                                        Some(s) => Some(ReadStreamEventsCompletedModel { error: Some(s), ..m }),
                                        None => None,
                                    },
                                    _ => None,
                                }
                            } else {
                                Some(m)
                            }
                        }
                    }
                }
            }
        }
    }
}

/// `read_stream_events_completed_apply` as a value.
pub open spec fn read_stream_events_completed_applier() -> spec_fn(ReadStreamEventsCompletedModel, WireField) -> Option<ReadStreamEventsCompletedModel> {
    |m: ReadStreamEventsCompletedModel, f: WireField| read_stream_events_completed_apply(m, f)
}

/// The tags of the fields that a `ReadStreamEventsCompleted` reads; the others are skipped.
pub open spec fn read_stream_events_completed_known() -> spec_fn(u32) -> bool {
    |t: u32| t == 10 || t == 16 || t == 24 || t == 32 || t == 40 || t == 48 || t == 58
}

/// The `ReadStreamEventsCompleted` that `bytes` encode, if they encode one.
pub open spec fn read_stream_events_completed_decode(bytes: Seq<u8>) -> Option<ReadStreamEventsCompletedModel> {
    decode_fields(bytes, read_stream_events_completed_default(), read_stream_events_completed_applier(), read_stream_events_completed_known())
}

/// The fields that encode the `events` of a `ReadStreamEventsCompleted`, one per element.
pub open spec fn read_stream_events_completed_events_fields(es: Seq<ResolvedIndexedEventModel>) -> Seq<WireField> {
    Seq::new(es.len(), |i: int| WireField { tag: 10, value: WireValue::Bytes(resolved_indexed_event_encode(es[i])) })
}

/// The fields that encode a `ReadStreamEventsCompleted`, in the order they are written.
pub open spec fn read_stream_events_completed_fields(m: ReadStreamEventsCompletedModel) -> Seq<WireField> {
    (read_stream_events_completed_events_fields(m.events)) + ((match m.result {
        Some(x) => seq![WireField { tag: 16, value: WireValue::Varint(varint_of_i32(x.to_i32_spec())) }],
        None => Seq::<WireField>::empty(),
    }) + ((seq![WireField { tag: 24, value: WireValue::Varint(varint_of_i32(m.next_event_number)) }]) + ((seq![WireField { tag: 32, value: WireValue::Varint(varint_of_i32(m.last_event_number)) }]) + ((seq![WireField { tag: 40, value: WireValue::Varint(varint_of_bool(m.is_end_of_stream)) }]) + ((seq![WireField { tag: 48, value: WireValue::Varint(varint_of_i64(m.last_commit_position)) }]) + ((match m.error {
        Some(x) => seq![WireField { tag: 58, value: WireValue::Bytes(encode_utf8(x)) }],
        None => Seq::<WireField>::empty(),
    })))))))
}

/// The encoding of a `ReadStreamEventsCompleted`.
pub open spec fn read_stream_events_completed_encode(m: ReadStreamEventsCompletedModel) -> Seq<u8> {
    encode_fields(read_stream_events_completed_fields(m))
}

/// A `ReadStreamEventsCompleted` that reads back as written: every length-delimited field, those of the
/// embedded messages included, holds fewer than 2^32 bytes.
pub open spec fn read_stream_events_completed_wf(m: ReadStreamEventsCompletedModel) -> bool {
    fields_short(read_stream_events_completed_fields(m))
    && (forall|i: int| 0 <= i < m.events.len() ==> resolved_indexed_event_wf(#[trigger] m.events[i]))
}

/// The fields of a `ReadStreamEventsCompleted` carry the wire types of their payloads.
pub proof fn lemma_read_stream_events_completed_fields_tagged(m: ReadStreamEventsCompletedModel)
    ensures
        fields_tagged(read_stream_events_completed_fields(m)),
{
    assert(fields_tagged((match m.error {
        Some(x) => seq![WireField { tag: 58, value: WireValue::Bytes(encode_utf8(x)) }],
        None => Seq::<WireField>::empty(),
    })));
    assert(fields_tagged((seq![WireField { tag: 48, value: WireValue::Varint(varint_of_i64(m.last_commit_position)) }])));
    lemma_fields_tagged_append(
        (seq![WireField { tag: 48, value: WireValue::Varint(varint_of_i64(m.last_commit_position)) }]),
        (match m.error {
            Some(x) => seq![WireField { tag: 58, value: WireValue::Bytes(encode_utf8(x)) }],
            None => Seq::<WireField>::empty(),
        }),
    );
    assert(fields_tagged((seq![WireField { tag: 40, value: WireValue::Varint(varint_of_bool(m.is_end_of_stream)) }])));
    lemma_fields_tagged_append(
        (seq![WireField { tag: 40, value: WireValue::Varint(varint_of_bool(m.is_end_of_stream)) }]),
        (seq![WireField { tag: 48, value: WireValue::Varint(varint_of_i64(m.last_commit_position)) }]) + ((match m.error {
            Some(x) => seq![WireField { tag: 58, value: WireValue::Bytes(encode_utf8(x)) }],
            None => Seq::<WireField>::empty(),
        })),
    );
    assert(fields_tagged((seq![WireField { tag: 32, value: WireValue::Varint(varint_of_i32(m.last_event_number)) }])));
    lemma_fields_tagged_append(
        (seq![WireField { tag: 32, value: WireValue::Varint(varint_of_i32(m.last_event_number)) }]),
        (seq![WireField { tag: 40, value: WireValue::Varint(varint_of_bool(m.is_end_of_stream)) }]) + ((seq![WireField { tag: 48, value: WireValue::Varint(varint_of_i64(m.last_commit_position)) }]) + ((match m.error {
            Some(x) => seq![WireField { tag: 58, value: WireValue::Bytes(encode_utf8(x)) }],
            None => Seq::<WireField>::empty(),
        }))),
    );
    assert(fields_tagged((seq![WireField { tag: 24, value: WireValue::Varint(varint_of_i32(m.next_event_number)) }])));
    lemma_fields_tagged_append(
        (seq![WireField { tag: 24, value: WireValue::Varint(varint_of_i32(m.next_event_number)) }]),
        (seq![WireField { tag: 32, value: WireValue::Varint(varint_of_i32(m.last_event_number)) }]) + ((seq![WireField { tag: 40, value: WireValue::Varint(varint_of_bool(m.is_end_of_stream)) }]) + ((seq![WireField { tag: 48, value: WireValue::Varint(varint_of_i64(m.last_commit_position)) }]) + ((match m.error {
            Some(x) => seq![WireField { tag: 58, value: WireValue::Bytes(encode_utf8(x)) }],
            None => Seq::<WireField>::empty(),
        })))),
    );
    assert(fields_tagged((match m.result {
        Some(x) => seq![WireField { tag: 16, value: WireValue::Varint(varint_of_i32(x.to_i32_spec())) }],
        None => Seq::<WireField>::empty(),
    })));
    lemma_fields_tagged_append(
        (match m.result {
            Some(x) => seq![WireField { tag: 16, value: WireValue::Varint(varint_of_i32(x.to_i32_spec())) }],
            None => Seq::<WireField>::empty(),
        }),
        (seq![WireField { tag: 24, value: WireValue::Varint(varint_of_i32(m.next_event_number)) }]) + ((seq![WireField { tag: 32, value: WireValue::Varint(varint_of_i32(m.last_event_number)) }]) + ((seq![WireField { tag: 40, value: WireValue::Varint(varint_of_bool(m.is_end_of_stream)) }]) + ((seq![WireField { tag: 48, value: WireValue::Varint(varint_of_i64(m.last_commit_position)) }]) + ((match m.error {
            Some(x) => seq![WireField { tag: 58, value: WireValue::Bytes(encode_utf8(x)) }],
            None => Seq::<WireField>::empty(),
        }))))),
    );
    assert(fields_tagged((read_stream_events_completed_events_fields(m.events))));
    lemma_fields_tagged_append(
        (read_stream_events_completed_events_fields(m.events)),
        (match m.result {
            Some(x) => seq![WireField { tag: 16, value: WireValue::Varint(varint_of_i32(x.to_i32_spec())) }],
            None => Seq::<WireField>::empty(),
        }) + ((seq![WireField { tag: 24, value: WireValue::Varint(varint_of_i32(m.next_event_number)) }]) + ((seq![WireField { tag: 32, value: WireValue::Varint(varint_of_i32(m.last_event_number)) }]) + ((seq![WireField { tag: 40, value: WireValue::Varint(varint_of_bool(m.is_end_of_stream)) }]) + ((seq![WireField { tag: 48, value: WireValue::Varint(varint_of_i64(m.last_commit_position)) }]) + ((match m.error {
            Some(x) => seq![WireField { tag: 58, value: WireValue::Bytes(encode_utf8(x)) }],
            None => Seq::<WireField>::empty(),
        })))))),
    );
}

/// Folding the fields of `es` into a `ReadStreamEventsCompleted` appends `es` to its `events`.
pub proof fn lemma_read_stream_events_completed_apply_events(es: Seq<ResolvedIndexedEventModel>, acc: ReadStreamEventsCompletedModel)
    requires
        forall|i: int| 0 <= i < es.len() ==> resolved_indexed_event_wf(#[trigger] es[i]),
    ensures
        apply_fields(read_stream_events_completed_events_fields(es), acc, read_stream_events_completed_applier()) == Some(
            ReadStreamEventsCompletedModel { events: acc.events + es, ..acc },
        ),
    decreases es.len(),
{
    if es.len() == 0 {
        assert(acc.events + es =~= acc.events);
    } else {
        lemma_resolved_indexed_event_roundtrip(es[0]);
        let next = ReadStreamEventsCompletedModel { events: acc.events.push(es[0]), ..acc };
        assert(read_stream_events_completed_events_fields(es).drop_first() =~= read_stream_events_completed_events_fields(es.drop_first()));
        assert(read_stream_events_completed_events_fields(es)[0] == WireField { tag: 10, value: WireValue::Bytes(resolved_indexed_event_encode(es[0])) });
        lemma_read_stream_events_completed_apply_events(es.drop_first(), next);
        assert(acc.events.push(es[0]) + es.drop_first() =~= acc.events + es);
    }
}

/// The bytes of an encoded `ReadStreamEventsCompleted`: `events` under tag 10, `result` under tag 16, `next_event_number` under tag 24, `last_event_number` under tag 32, `is_end_of_stream` under tag 40, `last_commit_position` under tag 48, `error` under tag 58, in this order; optional fields only
/// when present, repeated ones once per element.
pub proof fn lemma_read_stream_events_completed_encode_layout(m: ReadStreamEventsCompletedModel)
    ensures
        read_stream_events_completed_encode(m) == (repeated_field_bytes(10, m.events.map_values(|e: ResolvedIndexedEventModel| resolved_indexed_event_encode(e)))) + (((match m.result {
            Some(x) => varint_field_bytes(16, varint_of_i32(x.to_i32_spec())),
            None => Seq::<u8>::empty(),
        })) + ((varint_field_bytes(24, varint_of_i32(m.next_event_number))) + ((varint_field_bytes(32, varint_of_i32(m.last_event_number))) + ((varint_field_bytes(40, varint_of_bool(m.is_end_of_stream))) + ((varint_field_bytes(48, varint_of_i64(m.last_commit_position))) + (((match m.error {
            Some(x) => bytes_field_bytes(58, encode_utf8(x)),
            None => Seq::<u8>::empty(),
        })))))))),
{
    lemma_encode_fields_append(
        (read_stream_events_completed_events_fields(m.events)),
        (match m.result {
            Some(x) => seq![WireField { tag: 16, value: WireValue::Varint(varint_of_i32(x.to_i32_spec())) }],
            None => Seq::<WireField>::empty(),
        }) + ((seq![WireField { tag: 24, value: WireValue::Varint(varint_of_i32(m.next_event_number)) }]) + ((seq![WireField { tag: 32, value: WireValue::Varint(varint_of_i32(m.last_event_number)) }]) + ((seq![WireField { tag: 40, value: WireValue::Varint(varint_of_bool(m.is_end_of_stream)) }]) + ((seq![WireField { tag: 48, value: WireValue::Varint(varint_of_i64(m.last_commit_position)) }]) + ((match m.error {
            Some(x) => seq![WireField { tag: 58, value: WireValue::Bytes(encode_utf8(x)) }],
            None => Seq::<WireField>::empty(),
        })))))),
    );
    lemma_encode_fields_append(
        (match m.result {
            Some(x) => seq![WireField { tag: 16, value: WireValue::Varint(varint_of_i32(x.to_i32_spec())) }],
            None => Seq::<WireField>::empty(),
        }),
        (seq![WireField { tag: 24, value: WireValue::Varint(varint_of_i32(m.next_event_number)) }]) + ((seq![WireField { tag: 32, value: WireValue::Varint(varint_of_i32(m.last_event_number)) }]) + ((seq![WireField { tag: 40, value: WireValue::Varint(varint_of_bool(m.is_end_of_stream)) }]) + ((seq![WireField { tag: 48, value: WireValue::Varint(varint_of_i64(m.last_commit_position)) }]) + ((match m.error {
            Some(x) => seq![WireField { tag: 58, value: WireValue::Bytes(encode_utf8(x)) }],
            None => Seq::<WireField>::empty(),
        }))))),
    );
    lemma_encode_fields_append(
        (seq![WireField { tag: 24, value: WireValue::Varint(varint_of_i32(m.next_event_number)) }]),
        (seq![WireField { tag: 32, value: WireValue::Varint(varint_of_i32(m.last_event_number)) }]) + ((seq![WireField { tag: 40, value: WireValue::Varint(varint_of_bool(m.is_end_of_stream)) }]) + ((seq![WireField { tag: 48, value: WireValue::Varint(varint_of_i64(m.last_commit_position)) }]) + ((match m.error {
            Some(x) => seq![WireField { tag: 58, value: WireValue::Bytes(encode_utf8(x)) }],
            None => Seq::<WireField>::empty(),
        })))),
    );
    lemma_encode_fields_append(
        (seq![WireField { tag: 32, value: WireValue::Varint(varint_of_i32(m.last_event_number)) }]),
        (seq![WireField { tag: 40, value: WireValue::Varint(varint_of_bool(m.is_end_of_stream)) }]) + ((seq![WireField { tag: 48, value: WireValue::Varint(varint_of_i64(m.last_commit_position)) }]) + ((match m.error {
            Some(x) => seq![WireField { tag: 58, value: WireValue::Bytes(encode_utf8(x)) }],
            None => Seq::<WireField>::empty(),
        }))),
    );
    lemma_encode_fields_append(
        (seq![WireField { tag: 40, value: WireValue::Varint(varint_of_bool(m.is_end_of_stream)) }]),
        (seq![WireField { tag: 48, value: WireValue::Varint(varint_of_i64(m.last_commit_position)) }]) + ((match m.error {
            Some(x) => seq![WireField { tag: 58, value: WireValue::Bytes(encode_utf8(x)) }],
            None => Seq::<WireField>::empty(),
        })),
    );
    lemma_encode_fields_append(
        (seq![WireField { tag: 48, value: WireValue::Varint(varint_of_i64(m.last_commit_position)) }]),
        (match m.error {
            Some(x) => seq![WireField { tag: 58, value: WireValue::Bytes(encode_utf8(x)) }],
            None => Seq::<WireField>::empty(),
        }),
    );
    lemma_repeated_field_layout(10, read_stream_events_completed_events_fields(m.events), m.events.map_values(|e: ResolvedIndexedEventModel| resolved_indexed_event_encode(e)));
    if let Some(x) = m.result {
        lemma_varint_field_layout(16, varint_of_i32(x.to_i32_spec()));
    }
    lemma_varint_field_layout(24, varint_of_i32(m.next_event_number));
    lemma_varint_field_layout(32, varint_of_i32(m.last_event_number));
    lemma_varint_field_layout(40, varint_of_bool(m.is_end_of_stream));
    lemma_varint_field_layout(48, varint_of_i64(m.last_commit_position));
    if let Some(x) = m.error {
        lemma_bytes_field_layout(58, encode_utf8(x));
    }
}

/// Reading a written `ReadStreamEventsCompleted` gives it back.
pub proof fn lemma_read_stream_events_completed_roundtrip(m: ReadStreamEventsCompletedModel)
    requires
        read_stream_events_completed_wf(m),
    ensures
        read_stream_events_completed_decode(read_stream_events_completed_encode(m)) == Some(m),
{
    let ap = read_stream_events_completed_applier();
    lemma_read_stream_events_completed_fields_tagged(m);
    lemma_fields_canonical_of_short(read_stream_events_completed_fields(m));
    lemma_decode_encoded_fields(read_stream_events_completed_fields(m), read_stream_events_completed_default(), ap, read_stream_events_completed_known());
    let a0 = read_stream_events_completed_default();
    let a1 = ReadStreamEventsCompletedModel { events: m.events, ..a0 };
    lemma_apply_fields_append(
        (read_stream_events_completed_events_fields(m.events)),
        (match m.result {
            Some(x) => seq![WireField { tag: 16, value: WireValue::Varint(varint_of_i32(x.to_i32_spec())) }],
            None => Seq::<WireField>::empty(),
        }) + ((seq![WireField { tag: 24, value: WireValue::Varint(varint_of_i32(m.next_event_number)) }]) + ((seq![WireField { tag: 32, value: WireValue::Varint(varint_of_i32(m.last_event_number)) }]) + ((seq![WireField { tag: 40, value: WireValue::Varint(varint_of_bool(m.is_end_of_stream)) }]) + ((seq![WireField { tag: 48, value: WireValue::Varint(varint_of_i64(m.last_commit_position)) }]) + ((match m.error {
            Some(x) => seq![WireField { tag: 58, value: WireValue::Bytes(encode_utf8(x)) }],
            None => Seq::<WireField>::empty(),
        })))))),
        a0,
        ap,
    );
    assert(apply_fields((read_stream_events_completed_events_fields(m.events)), a0, ap) == Some(a1)) by {
        lemma_read_stream_events_completed_apply_events(m.events, a0);
        assert(a0.events + m.events =~= m.events);
    }
    let a2 = ReadStreamEventsCompletedModel { result: m.result, ..a1 };
    lemma_apply_fields_append(
        (match m.result {
            Some(x) => seq![WireField { tag: 16, value: WireValue::Varint(varint_of_i32(x.to_i32_spec())) }],
            None => Seq::<WireField>::empty(),
        }),
        (seq![WireField { tag: 24, value: WireValue::Varint(varint_of_i32(m.next_event_number)) }]) + ((seq![WireField { tag: 32, value: WireValue::Varint(varint_of_i32(m.last_event_number)) }]) + ((seq![WireField { tag: 40, value: WireValue::Varint(varint_of_bool(m.is_end_of_stream)) }]) + ((seq![WireField { tag: 48, value: WireValue::Varint(varint_of_i64(m.last_commit_position)) }]) + ((match m.error {
            Some(x) => seq![WireField { tag: 58, value: WireValue::Bytes(encode_utf8(x)) }],
            None => Seq::<WireField>::empty(),
        }))))),
        a1,
        ap,
    );
    assert(apply_fields((match m.result {
        Some(x) => seq![WireField { tag: 16, value: WireValue::Varint(varint_of_i32(x.to_i32_spec())) }],
        None => Seq::<WireField>::empty(),
    }), a1, ap) == Some(a2)) by {
        reveal_with_fuel(apply_fields, 2);
        if let Some(x) = m.result {
            lemma_scalar_roundtrips(x.to_i32_spec(), 0, false);
            x.lemma_i32_roundtrip();
        }
    }
    let a3 = ReadStreamEventsCompletedModel { next_event_number: m.next_event_number, ..a2 };
    lemma_apply_fields_append(
        (seq![WireField { tag: 24, value: WireValue::Varint(varint_of_i32(m.next_event_number)) }]),
        (seq![WireField { tag: 32, value: WireValue::Varint(varint_of_i32(m.last_event_number)) }]) + ((seq![WireField { tag: 40, value: WireValue::Varint(varint_of_bool(m.is_end_of_stream)) }]) + ((seq![WireField { tag: 48, value: WireValue::Varint(varint_of_i64(m.last_commit_position)) }]) + ((match m.error {
            Some(x) => seq![WireField { tag: 58, value: WireValue::Bytes(encode_utf8(x)) }],
            None => Seq::<WireField>::empty(),
        })))),
        a2,
        ap,
    );
    assert(apply_fields((seq![WireField { tag: 24, value: WireValue::Varint(varint_of_i32(m.next_event_number)) }]), a2, ap) == Some(a3)) by {
        reveal_with_fuel(apply_fields, 2);
        lemma_scalar_roundtrips(m.next_event_number, 0, false);
    }
    let a4 = ReadStreamEventsCompletedModel { last_event_number: m.last_event_number, ..a3 };
    lemma_apply_fields_append(
        (seq![WireField { tag: 32, value: WireValue::Varint(varint_of_i32(m.last_event_number)) }]),
        (seq![WireField { tag: 40, value: WireValue::Varint(varint_of_bool(m.is_end_of_stream)) }]) + ((seq![WireField { tag: 48, value: WireValue::Varint(varint_of_i64(m.last_commit_position)) }]) + ((match m.error {
            Some(x) => seq![WireField { tag: 58, value: WireValue::Bytes(encode_utf8(x)) }],
            None => Seq::<WireField>::empty(),
        }))),
        a3,
        ap,
    );
    assert(apply_fields((seq![WireField { tag: 32, value: WireValue::Varint(varint_of_i32(m.last_event_number)) }]), a3, ap) == Some(a4)) by {
        reveal_with_fuel(apply_fields, 2);
        lemma_scalar_roundtrips(m.last_event_number, 0, false);
    }
    let a5 = ReadStreamEventsCompletedModel { is_end_of_stream: m.is_end_of_stream, ..a4 };
    lemma_apply_fields_append(
        (seq![WireField { tag: 40, value: WireValue::Varint(varint_of_bool(m.is_end_of_stream)) }]),
        (seq![WireField { tag: 48, value: WireValue::Varint(varint_of_i64(m.last_commit_position)) }]) + ((match m.error {
            Some(x) => seq![WireField { tag: 58, value: WireValue::Bytes(encode_utf8(x)) }],
            None => Seq::<WireField>::empty(),
        })),
        a4,
        ap,
    );
    assert(apply_fields((seq![WireField { tag: 40, value: WireValue::Varint(varint_of_bool(m.is_end_of_stream)) }]), a4, ap) == Some(a5)) by {
        reveal_with_fuel(apply_fields, 2);
        lemma_scalar_roundtrips(0, 0, m.is_end_of_stream);
    }
    let a6 = ReadStreamEventsCompletedModel { last_commit_position: m.last_commit_position, ..a5 };
    lemma_apply_fields_append(
        (seq![WireField { tag: 48, value: WireValue::Varint(varint_of_i64(m.last_commit_position)) }]),
        (match m.error {
            Some(x) => seq![WireField { tag: 58, value: WireValue::Bytes(encode_utf8(x)) }],
            None => Seq::<WireField>::empty(),
        }),
        a5,
        ap,
    );
    assert(apply_fields((seq![WireField { tag: 48, value: WireValue::Varint(varint_of_i64(m.last_commit_position)) }]), a5, ap) == Some(a6)) by {
        reveal_with_fuel(apply_fields, 2);
        lemma_scalar_roundtrips(0, m.last_commit_position, false);
    }
    let a7 = ReadStreamEventsCompletedModel { error: m.error, ..a6 };
    assert(apply_fields((match m.error {
        Some(x) => seq![WireField { tag: 58, value: WireValue::Bytes(encode_utf8(x)) }],
        None => Seq::<WireField>::empty(),
    }), a6, ap) == Some(a7)) by {
        reveal_with_fuel(apply_fields, 2);
        if let Some(x) = m.error {
            lemma_string_roundtrip(x);
        }
    }
    assert(a7 == m);
}

impl ReadStreamEventsCompleted {
    /// Decodes a `ReadStreamEventsCompleted` from its protobuf bytes.
    pub fn from_reader(bytes: &[u8]) -> (res: Option<ReadStreamEventsCompleted>)
        ensures
            read_stream_events_completed_decode(bytes@) matches Some(m) ==> (res matches Some(e) && e@ == m),
            read_stream_events_completed_decode(bytes@) is None ==> res is None,
    {
        let mut msg = ReadStreamEventsCompleted::default_value();
        let mut pos: usize = 0;
        assert(bytes@.skip(0) =~= bytes@);
        while pos < bytes.len()
            invariant
                pos <= bytes@.len(),
                read_stream_events_completed_decode(bytes@) == decode_fields(bytes@.skip(pos as int), msg@, read_stream_events_completed_applier(), read_stream_events_completed_known()),
            decreases bytes@.len() - pos,
        {
            let ghost old_msg = msg@;
            let (tag, p) = match read_tag(bytes, pos) {
                Some(x) => x,
                None => {
                    return None;
                },
            };
            proof {
                lemma_field_parts(bytes@, pos as int, read_stream_events_completed_known());
            }
            let known: bool = tag == 10 || tag == 16 || tag == 24 || tag == 32 || tag == 40 || tag == 48 || tag == 58;
            let (value, next) = match read_value(bytes, p, tag, known) {
                Some(x) => x,
                None => {
                    return None;
                },
            };
            let ghost f = parse_field(bytes@.skip(pos as int), read_stream_events_completed_known()).unwrap().0;
            proof {
                lemma_decode_step(bytes@, pos as int, old_msg, read_stream_events_completed_applier(), read_stream_events_completed_known());
                lemma_parse_field_len(bytes@.skip(pos as int), read_stream_events_completed_known());
            }
            if tag == 10 {
                match value {
                    FieldValue::Bytes(i, j) => match ResolvedIndexedEvent::from_reader(slice_subrange(bytes, i, j)) {
                        Some(s) => {
                            let ghost sv = s@;
                            msg.events.push(s);
                            assert(msg@.events =~= old_msg.events.push(sv));
                        },
                        None => {
                            return None;
                        },
                    },
                    _ => {
                        return None;
                    },
                }
            } else if tag == 16 {
                match value {
                    FieldValue::Varint(v) => {
                        msg.result = Some(ReadStreamResult::from_i32(varint_i32(v)));
                    },
                    _ => {
                        return None;
                    },
                }
            } else if tag == 24 {
                match value {
                    FieldValue::Varint(v) => {
                        msg.next_event_number = varint_i32(v);
                    },
                    _ => {
                        return None;
                    },
                }
            } else if tag == 32 {
                match value {
                    FieldValue::Varint(v) => {
                        msg.last_event_number = varint_i32(v);
                    },
                    _ => {
                        return None;
                    },
                }
            } else if tag == 40 {
                match value {
                    FieldValue::Varint(v) => {
                        msg.is_end_of_stream = varint_bool(v);
                    },
                    _ => {
                        return None;
                    },
                }
            } else if tag == 48 {
                match value {
                    FieldValue::Varint(v) => {
                        msg.last_commit_position = varint_i64(v);
                    },
                    _ => {
                        return None;
                    },
                }
            } else if tag == 58 {
                match value {
                    FieldValue::Bytes(i, j) => match copy_string(bytes, i, j) {
                        Some(s) => {
                            msg.error = Some(s);
                        },
                        None => {
                            return None;
                        },
                    },
                    _ => {
                        return None;
                    },
                }
            }
            assert(read_stream_events_completed_apply(old_msg, f) == Some(msg@));
            pos = next;
        }
        assert(bytes@.skip(pos as int).len() == 0);
        Some(msg)
    }

    /// A `ReadStreamEventsCompleted` with every field at its default.
    pub fn default_value() -> (m: ReadStreamEventsCompleted)
        ensures
            m@ == read_stream_events_completed_default(),
    {
        let m = ReadStreamEventsCompleted {
            events: Vec::new(),
            result: None,
            next_event_number: 0,
            last_event_number: 0,
            is_end_of_stream: false,
            last_commit_position: 0,
            error: None,
        };
        assert(m@.events =~= Seq::empty());
        m
    }

    /// A copy of this `ReadStreamEventsCompleted`.
    pub fn copy(&self) -> (c: ReadStreamEventsCompleted)
        ensures
            c@ == self@,
    {
        let mut events: Vec<ResolvedIndexedEvent> = Vec::new();
        let mut k: usize = 0;
        while k < self.events.len()
            invariant
                k <= self.events@.len(),
                events@.map_values(|e: ResolvedIndexedEvent| e@) =~= self@.events.take(k as int),
            decreases self.events@.len() - k,
        {
            let e = self.events[k].copy();
            events.push(e);
            assert(self@.events.take(k + 1) =~= self@.events.take(k as int).push(e@));
            k = k + 1;
        }
        assert(self@.events.take(k as int) =~= self@.events);
        let c = ReadStreamEventsCompleted {
            events: events,
            result: self.result,
            next_event_number: self.next_event_number,
            last_event_number: self.last_event_number,
            is_end_of_stream: self.is_end_of_stream,
            last_commit_position: self.last_commit_position,
            error: match &self.error {
                Some(x) => Some(x.clone()),
                None => None,
            },
        };
        assert(c@.events =~= self@.events);
        assert(c@.error =~= self@.error);
        c
    }

    /// Encodes this `ReadStreamEventsCompleted` as protobuf bytes.
    #[verifier::spinoff_prover]
    #[verifier::rlimit(30)]
    pub fn encode(&self) -> (out: Vec<u8>)
        ensures
            out@ == read_stream_events_completed_encode(self@),
            out@.len() < modulus32() ==> read_stream_events_completed_wf(self@),
    {
        let mut out: Vec<u8> = Vec::new();
        let ghost mut fs: Seq<WireField> = Seq::empty();
        let ghost fs0 = fs;
        let ghost out_len0 = out@.len();
        let mut k: usize = 0;
        assert(self@.events.take(0) =~= Seq::empty());
        assert(fs0 + read_stream_events_completed_events_fields(self@.events.take(0)) =~= fs0);
        while k < self.events.len()
            invariant
                k <= self.events@.len(),
                out@ == encode_fields(fs),
                fields_shaped(fs),
                out@.len() >= out_len0,
                fs == fs0 + read_stream_events_completed_events_fields(self@.events.take(k as int)),
                forall|i: int| 0 <= i < k ==> (resolved_indexed_event_encode(#[trigger] self@.events[i]).len() < modulus32() ==> resolved_indexed_event_wf(self@.events[i])),
                forall|i: int| 0 <= i < k ==> resolved_indexed_event_encode(#[trigger] self@.events[i]).len() <= out@.len(),
            decreases self.events@.len() - k,
        {
            let sub = self.events[k].encode();
            write_bytes_field(&mut out, 10, sub.as_slice());
            proof {
                let f = WireField { tag: 10, value: WireValue::Bytes(sub@) };
                lemma_encode_fields_push(fs, f);
                lemma_fields_shaped_push(fs, f);
                fs = fs.push(f);
                assert(self@.events[k as int] == self.events@[k as int]@);
                assert(read_stream_events_completed_events_fields(self@.events.take(k + 1)) =~= read_stream_events_completed_events_fields(
                    self@.events.take(k as int),
                ).push(f));
                assert(fs =~= fs0 + read_stream_events_completed_events_fields(self@.events.take(k + 1)));
            }
            k = k + 1;
        }
        assert(self@.events.take(k as int) =~= self@.events);
        match self.result {
            Some(x) => {
                write_varint_field(&mut out, 16, i32_varint(x.to_i32()));
                proof {
                    let f = WireField { tag: 16, value: WireValue::Varint(varint_of_i32(x.to_i32_spec())) };
                    lemma_encode_fields_push(fs, f);
                    lemma_fields_shaped_push(fs, f);
                    fs = fs.push(f);
                }
            },
            None => {},
        }
        write_varint_field(&mut out, 24, i32_varint(self.next_event_number));
        proof {
            let f = WireField { tag: 24, value: WireValue::Varint(varint_of_i32(self.next_event_number)) };
            lemma_encode_fields_push(fs, f);
            lemma_fields_shaped_push(fs, f);
            fs = fs.push(f);
        }
        write_varint_field(&mut out, 32, i32_varint(self.last_event_number));
        proof {
            let f = WireField { tag: 32, value: WireValue::Varint(varint_of_i32(self.last_event_number)) };
            lemma_encode_fields_push(fs, f);
            lemma_fields_shaped_push(fs, f);
            fs = fs.push(f);
        }
        write_varint_field(&mut out, 40, bool_varint(self.is_end_of_stream));
        proof {
            let f = WireField { tag: 40, value: WireValue::Varint(varint_of_bool(self.is_end_of_stream)) };
            lemma_encode_fields_push(fs, f);
            lemma_fields_shaped_push(fs, f);
            fs = fs.push(f);
        }
        write_varint_field(&mut out, 48, i64_varint(self.last_commit_position));
        proof {
            let f = WireField { tag: 48, value: WireValue::Varint(varint_of_i64(self.last_commit_position)) };
            lemma_encode_fields_push(fs, f);
            lemma_fields_shaped_push(fs, f);
            fs = fs.push(f);
        }
        match &self.error {
            Some(x) => {
                write_bytes_field(&mut out, 58, x.as_str().as_bytes());
                proof {
                    let f = WireField { tag: 58, value: WireValue::Bytes(encode_utf8(x@)) };
                    lemma_encode_fields_push(fs, f);
                    lemma_fields_shaped_push(fs, f);
                    fs = fs.push(f);
                }
            },
            None => {},
        }
        assert(fs =~= read_stream_events_completed_fields(self@));
        proof {
            if out@.len() < modulus32() {
                lemma_fields_canonical_of_len(fs);
            }
        }
        out
    }

    /// The number of bytes of the encoding of this `ReadStreamEventsCompleted`, computed without encoding it.
    #[verifier::spinoff_prover]
    #[verifier::rlimit(30)]
    pub fn get_size(&self) -> (n: usize)
        requires
            read_stream_events_completed_encode(self@).len() <= usize::MAX,
        ensures
            n == read_stream_events_completed_encode(self@).len(),
    {
        let ghost m = self@;
        proof {
            lemma_encode_fields_append(
                (read_stream_events_completed_events_fields(m.events)),
                (match m.result {
                    Some(x) => seq![WireField { tag: 16, value: WireValue::Varint(varint_of_i32(x.to_i32_spec())) }],
                    None => Seq::<WireField>::empty(),
                }) + ((seq![WireField { tag: 24, value: WireValue::Varint(varint_of_i32(m.next_event_number)) }]) + ((seq![WireField { tag: 32, value: WireValue::Varint(varint_of_i32(m.last_event_number)) }]) + ((seq![WireField { tag: 40, value: WireValue::Varint(varint_of_bool(m.is_end_of_stream)) }]) + ((seq![WireField { tag: 48, value: WireValue::Varint(varint_of_i64(m.last_commit_position)) }]) + ((match m.error {
                    Some(x) => seq![WireField { tag: 58, value: WireValue::Bytes(encode_utf8(x)) }],
                    None => Seq::<WireField>::empty(),
                })))))),
            );
            lemma_encode_fields_append(
                (match m.result {
                    Some(x) => seq![WireField { tag: 16, value: WireValue::Varint(varint_of_i32(x.to_i32_spec())) }],
                    None => Seq::<WireField>::empty(),
                }),
                (seq![WireField { tag: 24, value: WireValue::Varint(varint_of_i32(m.next_event_number)) }]) + ((seq![WireField { tag: 32, value: WireValue::Varint(varint_of_i32(m.last_event_number)) }]) + ((seq![WireField { tag: 40, value: WireValue::Varint(varint_of_bool(m.is_end_of_stream)) }]) + ((seq![WireField { tag: 48, value: WireValue::Varint(varint_of_i64(m.last_commit_position)) }]) + ((match m.error {
                    Some(x) => seq![WireField { tag: 58, value: WireValue::Bytes(encode_utf8(x)) }],
                    None => Seq::<WireField>::empty(),
                }))))),
            );
            lemma_encode_fields_append(
                (seq![WireField { tag: 24, value: WireValue::Varint(varint_of_i32(m.next_event_number)) }]),
                (seq![WireField { tag: 32, value: WireValue::Varint(varint_of_i32(m.last_event_number)) }]) + ((seq![WireField { tag: 40, value: WireValue::Varint(varint_of_bool(m.is_end_of_stream)) }]) + ((seq![WireField { tag: 48, value: WireValue::Varint(varint_of_i64(m.last_commit_position)) }]) + ((match m.error {
                    Some(x) => seq![WireField { tag: 58, value: WireValue::Bytes(encode_utf8(x)) }],
                    None => Seq::<WireField>::empty(),
                })))),
            );
            lemma_encode_fields_append(
                (seq![WireField { tag: 32, value: WireValue::Varint(varint_of_i32(m.last_event_number)) }]),
                (seq![WireField { tag: 40, value: WireValue::Varint(varint_of_bool(m.is_end_of_stream)) }]) + ((seq![WireField { tag: 48, value: WireValue::Varint(varint_of_i64(m.last_commit_position)) }]) + ((match m.error {
                    Some(x) => seq![WireField { tag: 58, value: WireValue::Bytes(encode_utf8(x)) }],
                    None => Seq::<WireField>::empty(),
                }))),
            );
            lemma_encode_fields_append(
                (seq![WireField { tag: 40, value: WireValue::Varint(varint_of_bool(m.is_end_of_stream)) }]),
                (seq![WireField { tag: 48, value: WireValue::Varint(varint_of_i64(m.last_commit_position)) }]) + ((match m.error {
                    Some(x) => seq![WireField { tag: 58, value: WireValue::Bytes(encode_utf8(x)) }],
                    None => Seq::<WireField>::empty(),
                })),
            );
            lemma_encode_fields_append(
                (seq![WireField { tag: 48, value: WireValue::Varint(varint_of_i64(m.last_commit_position)) }]),
                (match m.error {
                    Some(x) => seq![WireField { tag: 58, value: WireValue::Bytes(encode_utf8(x)) }],
                    None => Seq::<WireField>::empty(),
                }),
            );
        }
        let mut n: usize = 0;
        let s6: usize = match &self.error {
            Some(x) => {
                proof {
                    lemma_encode_fields_one(WireField { tag: 58, value: WireValue::Bytes(encode_utf8(x@)) });
                }
                sizeof_len_field(58, x.as_str().as_bytes().len())
            },
            None => 0,
        };
        n = s6 + n;
        let s5: usize = {
            proof {
                lemma_encode_fields_one(WireField { tag: 48, value: WireValue::Varint(varint_of_i64(m.last_commit_position)) });
            }
            sizeof_varint_field(48, i64_varint(self.last_commit_position))
        };
        n = s5 + n;
        let s4: usize = {
            proof {
                lemma_encode_fields_one(WireField { tag: 40, value: WireValue::Varint(varint_of_bool(m.is_end_of_stream)) });
            }
            sizeof_varint_field(40, bool_varint(self.is_end_of_stream))
        };
        n = s4 + n;
        let s3: usize = {
            proof {
                lemma_encode_fields_one(WireField { tag: 32, value: WireValue::Varint(varint_of_i32(m.last_event_number)) });
            }
            sizeof_varint_field(32, i32_varint(self.last_event_number))
        };
        n = s3 + n;
        let s2: usize = {
            proof {
                lemma_encode_fields_one(WireField { tag: 24, value: WireValue::Varint(varint_of_i32(m.next_event_number)) });
            }
            sizeof_varint_field(24, i32_varint(self.next_event_number))
        };
        n = s2 + n;
        let s1: usize = match self.result {
            Some(x) => {
                proof {
                    lemma_encode_fields_one(WireField { tag: 16, value: WireValue::Varint(varint_of_i32(x.to_i32_spec())) });
                }
                sizeof_varint_field(16, i32_varint(x.to_i32()))
            },
            None => 0,
        };
        n = s1 + n;
        let mut s0: usize = 0;
        let mut k0: usize = 0;
        assert(read_stream_events_completed_events_fields(m.events.take(0)) =~= Seq::<WireField>::empty());
        while k0 < self.events.len()
            invariant
                m == self@,
                k0 <= self.events@.len(),
                s0 == encode_fields(read_stream_events_completed_events_fields(m.events.take(k0 as int))).len(),
                encode_fields(read_stream_events_completed_events_fields(m.events)).len() <= usize::MAX,
            decreases self.events@.len() - k0,
        {
            let ghost f = WireField { tag: 10, value: WireValue::Bytes(resolved_indexed_event_encode(m.events[k0 as int])) };
            proof {
                assert(read_stream_events_completed_events_fields(m.events.take(k0 + 1)) =~= read_stream_events_completed_events_fields(m.events.take(k0 as int)).push(f));
                lemma_encode_fields_push(read_stream_events_completed_events_fields(m.events.take(k0 as int)), f);
                assert(read_stream_events_completed_events_fields(m.events.take(k0 + 1)) =~= read_stream_events_completed_events_fields(m.events).take(k0 + 1));
                lemma_encode_fields_take_len(read_stream_events_completed_events_fields(m.events), k0 + 1);
                assert(m.events[k0 as int] == self.events@[k0 as int]@);
            }
            let x = sizeof_len_field(10, self.events[k0].get_size());
            s0 = s0 + x;
            k0 = k0 + 1;
        }
        assert(m.events.take(k0 as int) =~= m.events);
        n = s0 + n;
        n
    }
}

/// Request to read the `$all` stream in one direction.
#[derive(Debug, Clone, PartialEq)]
pub struct ReadAllEvents {
    /// Commit position to read from
    pub commit_position: i64,
    /// Prepare position to read from
    pub prepare_position: i64,
    /// The most events to read
    pub max_count: i32,
    /// Whether to follow link events
    pub resolve_link_tos: bool,
    /// Whether only the master may handle the request
    pub require_master: bool,
}

/// The contents of a `ReadAllEvents`.
pub struct ReadAllEventsModel {
    pub commit_position: i64,
    pub prepare_position: i64,
    pub max_count: i32,
    pub resolve_link_tos: bool,
    pub require_master: bool,
}

impl View for ReadAllEvents {
    type V = ReadAllEventsModel;

    open spec fn view(&self) -> ReadAllEventsModel {
        ReadAllEventsModel {
            commit_position: self.commit_position,
            prepare_position: self.prepare_position,
            max_count: self.max_count,
            resolve_link_tos: self.resolve_link_tos,
            require_master: self.require_master,
        }
    }
}

/// A `ReadAllEvents` with every field at its default.
pub open spec fn read_all_events_default() -> ReadAllEventsModel {
    ReadAllEventsModel {
        commit_position: 0,
        prepare_position: 0,
        max_count: 0,
        resolve_link_tos: false,
        require_master: false,
    }
}

/// Folds one field into a `ReadAllEvents`; fields of unknown tags are skipped.
pub open spec fn read_all_events_apply(m: ReadAllEventsModel, f: WireField) -> Option<ReadAllEventsModel> {
    if f.tag == 8 {
        match f.value {
            WireValue::Varint(v) => Some(ReadAllEventsModel { commit_position: i64_of_varint(v), ..m }),
            _ => None,
        }
    } else {
        if f.tag == 16 {
            match f.value {
                WireValue::Varint(v) => Some(ReadAllEventsModel { prepare_position: i64_of_varint(v), ..m }),
                _ => None,
            }
        } else {
            if f.tag == 24 {
                match f.value {
                    WireValue::Varint(v) => Some(ReadAllEventsModel { max_count: i32_of_varint(v), ..m }),
                    _ => None,
                }
            } else {
                if f.tag == 32 {
                    match f.value {
                        WireValue::Varint(v) => Some(ReadAllEventsModel { resolve_link_tos: bool_of_varint(v), ..m }),
                        _ => None,
                    }
                } else {
                    if f.tag == 40 {
                        match f.value {
                            WireValue::Varint(v) => Some(ReadAllEventsModel { require_master: bool_of_varint(v), ..m }),
                            _ => None,
                        }
                    } else {
                        Some(m)
                    }
                }
            }
        }
    }
}

/// `read_all_events_apply` as a value.
pub open spec fn read_all_events_applier() -> spec_fn(ReadAllEventsModel, WireField) -> Option<ReadAllEventsModel> {
    |m: ReadAllEventsModel, f: WireField| read_all_events_apply(m, f)
}

/// The tags of the fields that a `ReadAllEvents` reads; the others are skipped.
pub open spec fn read_all_events_known() -> spec_fn(u32) -> bool {
    |t: u32| t == 8 || t == 16 || t == 24 || t == 32 || t == 40
}

/// The `ReadAllEvents` that `bytes` encode, if they encode one.
pub open spec fn read_all_events_decode(bytes: Seq<u8>) -> Option<ReadAllEventsModel> {
    decode_fields(bytes, read_all_events_default(), read_all_events_applier(), read_all_events_known())
}

/// The fields that encode a `ReadAllEvents`, in the order they are written.
pub open spec fn read_all_events_fields(m: ReadAllEventsModel) -> Seq<WireField> {
    (seq![WireField { tag: 8, value: WireValue::Varint(varint_of_i64(m.commit_position)) }]) + ((seq![WireField { tag: 16, value: WireValue::Varint(varint_of_i64(m.prepare_position)) }]) + ((seq![WireField { tag: 24, value: WireValue::Varint(varint_of_i32(m.max_count)) }]) + ((seq![WireField { tag: 32, value: WireValue::Varint(varint_of_bool(m.resolve_link_tos)) }]) + ((seq![WireField { tag: 40, value: WireValue::Varint(varint_of_bool(m.require_master)) }])))))
}

/// The encoding of a `ReadAllEvents`.
pub open spec fn read_all_events_encode(m: ReadAllEventsModel) -> Seq<u8> {
    encode_fields(read_all_events_fields(m))
}

/// A `ReadAllEvents` that reads back as written: every length-delimited field, those of the
/// embedded messages included, holds fewer than 2^32 bytes.
pub open spec fn read_all_events_wf(m: ReadAllEventsModel) -> bool {
    fields_short(read_all_events_fields(m))
}

/// The fields of a `ReadAllEvents` carry the wire types of their payloads.
pub proof fn lemma_read_all_events_fields_tagged(m: ReadAllEventsModel)
    ensures
        fields_tagged(read_all_events_fields(m)),
{
    assert(fields_tagged((seq![WireField { tag: 40, value: WireValue::Varint(varint_of_bool(m.require_master)) }])));
    assert(fields_tagged((seq![WireField { tag: 32, value: WireValue::Varint(varint_of_bool(m.resolve_link_tos)) }])));
    lemma_fields_tagged_append(
        (seq![WireField { tag: 32, value: WireValue::Varint(varint_of_bool(m.resolve_link_tos)) }]),
        (seq![WireField { tag: 40, value: WireValue::Varint(varint_of_bool(m.require_master)) }]),
    );
    assert(fields_tagged((seq![WireField { tag: 24, value: WireValue::Varint(varint_of_i32(m.max_count)) }])));
    lemma_fields_tagged_append(
        (seq![WireField { tag: 24, value: WireValue::Varint(varint_of_i32(m.max_count)) }]),
        (seq![WireField { tag: 32, value: WireValue::Varint(varint_of_bool(m.resolve_link_tos)) }]) + ((seq![WireField { tag: 40, value: WireValue::Varint(varint_of_bool(m.require_master)) }])),
    );
    assert(fields_tagged((seq![WireField { tag: 16, value: WireValue::Varint(varint_of_i64(m.prepare_position)) }])));
    lemma_fields_tagged_append(
        (seq![WireField { tag: 16, value: WireValue::Varint(varint_of_i64(m.prepare_position)) }]),
        (seq![WireField { tag: 24, value: WireValue::Varint(varint_of_i32(m.max_count)) }]) + ((seq![WireField { tag: 32, value: WireValue::Varint(varint_of_bool(m.resolve_link_tos)) }]) + ((seq![WireField { tag: 40, value: WireValue::Varint(varint_of_bool(m.require_master)) }]))),
    );
    assert(fields_tagged((seq![WireField { tag: 8, value: WireValue::Varint(varint_of_i64(m.commit_position)) }])));
    lemma_fields_tagged_append(
        (seq![WireField { tag: 8, value: WireValue::Varint(varint_of_i64(m.commit_position)) }]),
        (seq![WireField { tag: 16, value: WireValue::Varint(varint_of_i64(m.prepare_position)) }]) + ((seq![WireField { tag: 24, value: WireValue::Varint(varint_of_i32(m.max_count)) }]) + ((seq![WireField { tag: 32, value: WireValue::Varint(varint_of_bool(m.resolve_link_tos)) }]) + ((seq![WireField { tag: 40, value: WireValue::Varint(varint_of_bool(m.require_master)) }])))),
    );
}

/// The bytes of an encoded `ReadAllEvents`: `commit_position` under tag 8, `prepare_position` under tag 16, `max_count` under tag 24, `resolve_link_tos` under tag 32, `require_master` under tag 40, in this order; optional fields only
/// when present, repeated ones once per element.
pub proof fn lemma_read_all_events_encode_layout(m: ReadAllEventsModel)
    ensures
        read_all_events_encode(m) == (varint_field_bytes(8, varint_of_i64(m.commit_position))) + ((varint_field_bytes(16, varint_of_i64(m.prepare_position))) + ((varint_field_bytes(24, varint_of_i32(m.max_count))) + ((varint_field_bytes(32, varint_of_bool(m.resolve_link_tos))) + ((varint_field_bytes(40, varint_of_bool(m.require_master))))))),
{
    lemma_encode_fields_append(
        (seq![WireField { tag: 8, value: WireValue::Varint(varint_of_i64(m.commit_position)) }]),
        (seq![WireField { tag: 16, value: WireValue::Varint(varint_of_i64(m.prepare_position)) }]) + ((seq![WireField { tag: 24, value: WireValue::Varint(varint_of_i32(m.max_count)) }]) + ((seq![WireField { tag: 32, value: WireValue::Varint(varint_of_bool(m.resolve_link_tos)) }]) + ((seq![WireField { tag: 40, value: WireValue::Varint(varint_of_bool(m.require_master)) }])))),
    );
    lemma_encode_fields_append(
        (seq![WireField { tag: 16, value: WireValue::Varint(varint_of_i64(m.prepare_position)) }]),
        (seq![WireField { tag: 24, value: WireValue::Varint(varint_of_i32(m.max_count)) }]) + ((seq![WireField { tag: 32, value: WireValue::Varint(varint_of_bool(m.resolve_link_tos)) }]) + ((seq![WireField { tag: 40, value: WireValue::Varint(varint_of_bool(m.require_master)) }]))),
    );
    lemma_encode_fields_append(
        (seq![WireField { tag: 24, value: WireValue::Varint(varint_of_i32(m.max_count)) }]),
        (seq![WireField { tag: 32, value: WireValue::Varint(varint_of_bool(m.resolve_link_tos)) }]) + ((seq![WireField { tag: 40, value: WireValue::Varint(varint_of_bool(m.require_master)) }])),
    );
    lemma_encode_fields_append(
        (seq![WireField { tag: 32, value: WireValue::Varint(varint_of_bool(m.resolve_link_tos)) }]),
        (seq![WireField { tag: 40, value: WireValue::Varint(varint_of_bool(m.require_master)) }]),
    );
    lemma_varint_field_layout(8, varint_of_i64(m.commit_position));
    lemma_varint_field_layout(16, varint_of_i64(m.prepare_position));
    lemma_varint_field_layout(24, varint_of_i32(m.max_count));
    lemma_varint_field_layout(32, varint_of_bool(m.resolve_link_tos));
    lemma_varint_field_layout(40, varint_of_bool(m.require_master));
}

/// Reading a written `ReadAllEvents` gives it back.
pub proof fn lemma_read_all_events_roundtrip(m: ReadAllEventsModel)
    requires
        read_all_events_wf(m),
    ensures
        read_all_events_decode(read_all_events_encode(m)) == Some(m),
{
    let ap = read_all_events_applier();
    lemma_read_all_events_fields_tagged(m);
    lemma_fields_canonical_of_short(read_all_events_fields(m));
    lemma_decode_encoded_fields(read_all_events_fields(m), read_all_events_default(), ap, read_all_events_known());
    let a0 = read_all_events_default();
    let a1 = ReadAllEventsModel { commit_position: m.commit_position, ..a0 };
    lemma_apply_fields_append(
        (seq![WireField { tag: 8, value: WireValue::Varint(varint_of_i64(m.commit_position)) }]),
        (seq![WireField { tag: 16, value: WireValue::Varint(varint_of_i64(m.prepare_position)) }]) + ((seq![WireField { tag: 24, value: WireValue::Varint(varint_of_i32(m.max_count)) }]) + ((seq![WireField { tag: 32, value: WireValue::Varint(varint_of_bool(m.resolve_link_tos)) }]) + ((seq![WireField { tag: 40, value: WireValue::Varint(varint_of_bool(m.require_master)) }])))),
        a0,
        ap,
    );
    assert(apply_fields((seq![WireField { tag: 8, value: WireValue::Varint(varint_of_i64(m.commit_position)) }]), a0, ap) == Some(a1)) by {
        reveal_with_fuel(apply_fields, 2);
        lemma_scalar_roundtrips(0, m.commit_position, false);
    }
    let a2 = ReadAllEventsModel { prepare_position: m.prepare_position, ..a1 };
    lemma_apply_fields_append(
        (seq![WireField { tag: 16, value: WireValue::Varint(varint_of_i64(m.prepare_position)) }]),
        (seq![WireField { tag: 24, value: WireValue::Varint(varint_of_i32(m.max_count)) }]) + ((seq![WireField { tag: 32, value: WireValue::Varint(varint_of_bool(m.resolve_link_tos)) }]) + ((seq![WireField { tag: 40, value: WireValue::Varint(varint_of_bool(m.require_master)) }]))),
        a1,
        ap,
    );
    assert(apply_fields((seq![WireField { tag: 16, value: WireValue::Varint(varint_of_i64(m.prepare_position)) }]), a1, ap) == Some(a2)) by {
        reveal_with_fuel(apply_fields, 2);
        lemma_scalar_roundtrips(0, m.prepare_position, false);
    }
    let a3 = ReadAllEventsModel { max_count: m.max_count, ..a2 };
    lemma_apply_fields_append(
        (seq![WireField { tag: 24, value: WireValue::Varint(varint_of_i32(m.max_count)) }]),
        (seq![WireField { tag: 32, value: WireValue::Varint(varint_of_bool(m.resolve_link_tos)) }]) + ((seq![WireField { tag: 40, value: WireValue::Varint(varint_of_bool(m.require_master)) }])),
        a2,
        ap,
    );
    assert(apply_fields((seq![WireField { tag: 24, value: WireValue::Varint(varint_of_i32(m.max_count)) }]), a2, ap) == Some(a3)) by {
        reveal_with_fuel(apply_fields, 2);
        lemma_scalar_roundtrips(m.max_count, 0, false);
    }
    let a4 = ReadAllEventsModel { resolve_link_tos: m.resolve_link_tos, ..a3 };
    lemma_apply_fields_append(
        (seq![WireField { tag: 32, value: WireValue::Varint(varint_of_bool(m.resolve_link_tos)) }]),
        (seq![WireField { tag: 40, value: WireValue::Varint(varint_of_bool(m.require_master)) }]),
        a3,
        ap,
    );
    assert(apply_fields((seq![WireField { tag: 32, value: WireValue::Varint(varint_of_bool(m.resolve_link_tos)) }]), a3, ap) == Some(a4)) by {
        reveal_with_fuel(apply_fields, 2);
        lemma_scalar_roundtrips(0, 0, m.resolve_link_tos);
    }
    let a5 = ReadAllEventsModel { require_master: m.require_master, ..a4 };
    assert(apply_fields((seq![WireField { tag: 40, value: WireValue::Varint(varint_of_bool(m.require_master)) }]), a4, ap) == Some(a5)) by {
        reveal_with_fuel(apply_fields, 2);
        lemma_scalar_roundtrips(0, 0, m.require_master);
    }
    assert(a5 == m);
}

impl ReadAllEvents {
    /// Decodes a `ReadAllEvents` from its protobuf bytes.
    pub fn from_reader(bytes: &[u8]) -> (res: Option<ReadAllEvents>)
        ensures
            read_all_events_decode(bytes@) matches Some(m) ==> (res matches Some(e) && e@ == m),
            read_all_events_decode(bytes@) is None ==> res is None,
    {
        let mut msg = ReadAllEvents::default_value();
        let mut pos: usize = 0;
        assert(bytes@.skip(0) =~= bytes@);
        while pos < bytes.len()
            invariant
                pos <= bytes@.len(),
                read_all_events_decode(bytes@) == decode_fields(bytes@.skip(pos as int), msg@, read_all_events_applier(), read_all_events_known()),
            decreases bytes@.len() - pos,
        {
            let ghost old_msg = msg@;
            let (tag, p) = match read_tag(bytes, pos) {
                Some(x) => x,
                None => {
                    return None;
                },
            };
            proof {
                lemma_field_parts(bytes@, pos as int, read_all_events_known());
            }
            let known: bool = tag == 8 || tag == 16 || tag == 24 || tag == 32 || tag == 40;
            let (value, next) = match read_value(bytes, p, tag, known) {
                Some(x) => x,
                None => {
                    return None;
                },
            };
            let ghost f = parse_field(bytes@.skip(pos as int), read_all_events_known()).unwrap().0;
            proof {
                lemma_decode_step(bytes@, pos as int, old_msg, read_all_events_applier(), read_all_events_known());
                lemma_parse_field_len(bytes@.skip(pos as int), read_all_events_known());
            }
            if tag == 8 {
                match value {
                    FieldValue::Varint(v) => {
                        msg.commit_position = varint_i64(v);
                    },
                    _ => {
                        return None;
                    },
                }
            } else if tag == 16 {
                match value {
                    FieldValue::Varint(v) => {
                        msg.prepare_position = varint_i64(v);
                    },
                    _ => {
                        return None;
                    },
                }
            } else if tag == 24 {
                match value {
                    FieldValue::Varint(v) => {
                        msg.max_count = varint_i32(v);
                    },
                    _ => {
                        return None;
                    },
                }
            } else if tag == 32 {
                match value {
                    FieldValue::Varint(v) => {
                        msg.resolve_link_tos = varint_bool(v);
                    },
                    _ => {
                        return None;
                    },
                }
            } else if tag == 40 {
                match value {
                    FieldValue::Varint(v) => {
                        msg.require_master = varint_bool(v);
                    },
                    _ => {
                        return None;
                    },
                }
            }
            assert(read_all_events_apply(old_msg, f) == Some(msg@));
            pos = next;
        }
        assert(bytes@.skip(pos as int).len() == 0);
        Some(msg)
    }

    /// A `ReadAllEvents` with every field at its default.
    pub fn default_value() -> (m: ReadAllEvents)
        ensures
            m@ == read_all_events_default(),
    {
        let m = ReadAllEvents {
            commit_position: 0,
            prepare_position: 0,
            max_count: 0,
            resolve_link_tos: false,
            require_master: false,
        };
        m
    }

    /// A copy of this `ReadAllEvents`.
    pub fn copy(&self) -> (c: ReadAllEvents)
        ensures
            c@ == self@,
    {
        let c = ReadAllEvents {
            commit_position: self.commit_position,
            prepare_position: self.prepare_position,
            max_count: self.max_count,
            resolve_link_tos: self.resolve_link_tos,
            require_master: self.require_master,
        };
        c
    }

    /// Encodes this `ReadAllEvents` as protobuf bytes.
    #[verifier::spinoff_prover]
    #[verifier::rlimit(30)]
    pub fn encode(&self) -> (out: Vec<u8>)
        ensures
            out@ == read_all_events_encode(self@),
            out@.len() < modulus32() ==> read_all_events_wf(self@),
    {
        let mut out: Vec<u8> = Vec::new();
        let ghost mut fs: Seq<WireField> = Seq::empty();
        write_varint_field(&mut out, 8, i64_varint(self.commit_position));
        proof {
            let f = WireField { tag: 8, value: WireValue::Varint(varint_of_i64(self.commit_position)) };
            lemma_encode_fields_push(fs, f);
            lemma_fields_shaped_push(fs, f);
            fs = fs.push(f);
        }
        write_varint_field(&mut out, 16, i64_varint(self.prepare_position));
        proof {
            let f = WireField { tag: 16, value: WireValue::Varint(varint_of_i64(self.prepare_position)) };
            lemma_encode_fields_push(fs, f);
            lemma_fields_shaped_push(fs, f);
            fs = fs.push(f);
        }
        write_varint_field(&mut out, 24, i32_varint(self.max_count));
        proof {
            let f = WireField { tag: 24, value: WireValue::Varint(varint_of_i32(self.max_count)) };
            lemma_encode_fields_push(fs, f);
            lemma_fields_shaped_push(fs, f);
            fs = fs.push(f);
        }
        write_varint_field(&mut out, 32, bool_varint(self.resolve_link_tos));
        proof {
            let f = WireField { tag: 32, value: WireValue::Varint(varint_of_bool(self.resolve_link_tos)) };
            lemma_encode_fields_push(fs, f);
            lemma_fields_shaped_push(fs, f);
            fs = fs.push(f);
        }
        write_varint_field(&mut out, 40, bool_varint(self.require_master));
        proof {
            let f = WireField { tag: 40, value: WireValue::Varint(varint_of_bool(self.require_master)) };
            lemma_encode_fields_push(fs, f);
            lemma_fields_shaped_push(fs, f);
            fs = fs.push(f);
        }
        assert(fs =~= read_all_events_fields(self@));
        proof {
            if out@.len() < modulus32() {
                lemma_fields_canonical_of_len(fs);
            }
        }
        out
    }

    /// The number of bytes of the encoding of this `ReadAllEvents`, computed without encoding it.
    #[verifier::spinoff_prover]
    #[verifier::rlimit(30)]
    pub fn get_size(&self) -> (n: usize)
        requires
            read_all_events_encode(self@).len() <= usize::MAX,
        ensures
            n == read_all_events_encode(self@).len(),
    {
        let ghost m = self@;
        proof {
            lemma_encode_fields_append(
                (seq![WireField { tag: 8, value: WireValue::Varint(varint_of_i64(m.commit_position)) }]),
                (seq![WireField { tag: 16, value: WireValue::Varint(varint_of_i64(m.prepare_position)) }]) + ((seq![WireField { tag: 24, value: WireValue::Varint(varint_of_i32(m.max_count)) }]) + ((seq![WireField { tag: 32, value: WireValue::Varint(varint_of_bool(m.resolve_link_tos)) }]) + ((seq![WireField { tag: 40, value: WireValue::Varint(varint_of_bool(m.require_master)) }])))),
            );
            lemma_encode_fields_append(
                (seq![WireField { tag: 16, value: WireValue::Varint(varint_of_i64(m.prepare_position)) }]),
                (seq![WireField { tag: 24, value: WireValue::Varint(varint_of_i32(m.max_count)) }]) + ((seq![WireField { tag: 32, value: WireValue::Varint(varint_of_bool(m.resolve_link_tos)) }]) + ((seq![WireField { tag: 40, value: WireValue::Varint(varint_of_bool(m.require_master)) }]))),
            );
            lemma_encode_fields_append(
                (seq![WireField { tag: 24, value: WireValue::Varint(varint_of_i32(m.max_count)) }]),
                (seq![WireField { tag: 32, value: WireValue::Varint(varint_of_bool(m.resolve_link_tos)) }]) + ((seq![WireField { tag: 40, value: WireValue::Varint(varint_of_bool(m.require_master)) }])),
            );
            lemma_encode_fields_append(
                (seq![WireField { tag: 32, value: WireValue::Varint(varint_of_bool(m.resolve_link_tos)) }]),
                (seq![WireField { tag: 40, value: WireValue::Varint(varint_of_bool(m.require_master)) }]),
            );
        }
        let mut n: usize = 0;
        let s4: usize = {
            proof {
                lemma_encode_fields_one(WireField { tag: 40, value: WireValue::Varint(varint_of_bool(m.require_master)) });
            }
            sizeof_varint_field(40, bool_varint(self.require_master))
        };
        n = s4 + n;
        let s3: usize = {
            proof {
                lemma_encode_fields_one(WireField { tag: 32, value: WireValue::Varint(varint_of_bool(m.resolve_link_tos)) });
            }
            sizeof_varint_field(32, bool_varint(self.resolve_link_tos))
        };
        n = s3 + n;
        let s2: usize = {
            proof {
                lemma_encode_fields_one(WireField { tag: 24, value: WireValue::Varint(varint_of_i32(m.max_count)) });
            }
            sizeof_varint_field(24, i32_varint(self.max_count))
        };
        n = s2 + n;
        let s1: usize = {
            proof {
                lemma_encode_fields_one(WireField { tag: 16, value: WireValue::Varint(varint_of_i64(m.prepare_position)) });
            }
            sizeof_varint_field(16, i64_varint(self.prepare_position))
        };
        n = s1 + n;
        let s0: usize = {
            proof {
                lemma_encode_fields_one(WireField { tag: 8, value: WireValue::Varint(varint_of_i64(m.commit_position)) });
            }
            sizeof_varint_field(8, i64_varint(self.commit_position))
        };
        n = s0 + n;
        n
    }
}

/// Response to `ReadAllEvents`.
#[derive(Debug, Clone, PartialEq)]
pub struct ReadAllEventsCompleted {
    /// Commit position read from
    pub commit_position: i64,
    /// Prepare position read from
    pub prepare_position: i64,
    /// The events read
    pub events: Vec<ResolvedEvent>,
    /// Commit position of the next page
    pub next_commit_position: i64,
    /// Prepare position of the next page
    pub next_prepare_position: i64,
    /// The outcome
    pub result: ReadAllResult,
    /// An explanation
    pub error: Option<String>,
}

/// The contents of a `ReadAllEventsCompleted`.
pub struct ReadAllEventsCompletedModel {
    pub commit_position: i64,
    pub prepare_position: i64,
    pub events: Seq<ResolvedEventModel>,
    pub next_commit_position: i64,
    pub next_prepare_position: i64,
    pub result: ReadAllResult,
    pub error: Option<Seq<char>>,
}

impl View for ReadAllEventsCompleted {
    type V = ReadAllEventsCompletedModel;

    open spec fn view(&self) -> ReadAllEventsCompletedModel {
        ReadAllEventsCompletedModel {
            commit_position: self.commit_position,
            prepare_position: self.prepare_position,
            events: self.events@.map_values(|e: ResolvedEvent| e@),
            next_commit_position: self.next_commit_position,
            next_prepare_position: self.next_prepare_position,
            result: self.result,
            error: opt_string_view(self.error),
        }
    }
}

/// A `ReadAllEventsCompleted` with every field at its default.
pub open spec fn read_all_events_completed_default() -> ReadAllEventsCompletedModel {
    ReadAllEventsCompletedModel {
        commit_position: 0,
        prepare_position: 0,
        events: Seq::empty(),
        next_commit_position: 0,
        next_prepare_position: 0,
        result: ReadAllResult::Success,
        error: None,
    }
}

/// Folds one field into a `ReadAllEventsCompleted`; fields of unknown tags are skipped.
pub open spec fn read_all_events_completed_apply(m: ReadAllEventsCompletedModel, f: WireField) -> Option<ReadAllEventsCompletedModel> {
    if f.tag == 8 {
        match f.value {
            WireValue::Varint(v) => Some(ReadAllEventsCompletedModel { commit_position: i64_of_varint(v), ..m }),
            _ => None,
        }
    } else {
        if f.tag == 16 {
            match f.value {
                WireValue::Varint(v) => Some(ReadAllEventsCompletedModel { prepare_position: i64_of_varint(v), ..m }),
                _ => None,
            }
        } else {
            if f.tag == 26 {
                match f.value {
                    WireValue::Bytes(b) => match resolved_event_decode(b) {
                        Some(s) => Some(ReadAllEventsCompletedModel { events: m.events.push(s), ..m }),
                        None => None,
                    },
                    _ => None,
                }
            } else {
                if f.tag == 32 {
                    match f.value {
                        WireValue::Varint(v) => Some(ReadAllEventsCompletedModel { next_commit_position: i64_of_varint(v), ..m }),
                        _ => None,
                    }
                } else {
                    if f.tag == 40 {
                        match f.value {
                            WireValue::Varint(v) => Some(ReadAllEventsCompletedModel { next_prepare_position: i64_of_varint(v), ..m }),
                            _ => None,
                        }
                    } else {
                        if f.tag == 48 {
                            match f.value {
                                WireValue::Varint(v) => Some(ReadAllEventsCompletedModel { result: ReadAllResult::from_i32_spec(i32_of_varint(v)), ..m }),
                                _ => None,
                            }
                        } else {
                            if f.tag == 58 {
                                match f.value {
                                    WireValue::Bytes(b) => match string_of(b) {
                                        Some(s) => Some(ReadAllEventsCompletedModel { error: Some(s), ..m }),
                                        None => None,
                                    },
                                    _ => None,
                                }
                            } else {
                                Some(m)
                            }
                        }
                    }
                }
            }
        }
    }
}

/// `read_all_events_completed_apply` as a value.
pub open spec fn read_all_events_completed_applier() -> spec_fn(ReadAllEventsCompletedModel, WireField) -> Option<ReadAllEventsCompletedModel> {
    |m: ReadAllEventsCompletedModel, f: WireField| read_all_events_completed_apply(m, f)
}

/// The tags of the fields that a `ReadAllEventsCompleted` reads; the others are skipped.
pub open spec fn read_all_events_completed_known() -> spec_fn(u32) -> bool {
    |t: u32| t == 8 || t == 16 || t == 26 || t == 32 || t == 40 || t == 48 || t == 58
}

/// The `ReadAllEventsCompleted` that `bytes` encode, if they encode one.
pub open spec fn read_all_events_completed_decode(bytes: Seq<u8>) -> Option<ReadAllEventsCompletedModel> {
    decode_fields(bytes, read_all_events_completed_default(), read_all_events_completed_applier(), read_all_events_completed_known())
}

/// The fields that encode the `events` of a `ReadAllEventsCompleted`, one per element.
pub open spec fn read_all_events_completed_events_fields(es: Seq<ResolvedEventModel>) -> Seq<WireField> {
    Seq::new(es.len(), |i: int| WireField { tag: 26, value: WireValue::Bytes(resolved_event_encode(es[i])) })
}

/// The fields that encode a `ReadAllEventsCompleted`, in the order they are written.
pub open spec fn read_all_events_completed_fields(m: ReadAllEventsCompletedModel) -> Seq<WireField> {
    (seq![WireField { tag: 8, value: WireValue::Varint(varint_of_i64(m.commit_position)) }]) + ((seq![WireField { tag: 16, value: WireValue::Varint(varint_of_i64(m.prepare_position)) }]) + ((read_all_events_completed_events_fields(m.events)) + ((seq![WireField { tag: 32, value: WireValue::Varint(varint_of_i64(m.next_commit_position)) }]) + ((seq![WireField { tag: 40, value: WireValue::Varint(varint_of_i64(m.next_prepare_position)) }]) + ((if m.result != ReadAllResult::Success {
        seq![WireField { tag: 48, value: WireValue::Varint(varint_of_i32(m.result.to_i32_spec())) }]
    } else {
        Seq::<WireField>::empty()
    }) + ((match m.error {
        Some(x) => seq![WireField { tag: 58, value: WireValue::Bytes(encode_utf8(x)) }],
        None => Seq::<WireField>::empty(),
    })))))))
}

/// The encoding of a `ReadAllEventsCompleted`.
pub open spec fn read_all_events_completed_encode(m: ReadAllEventsCompletedModel) -> Seq<u8> {
    encode_fields(read_all_events_completed_fields(m))
}

/// A `ReadAllEventsCompleted` that reads back as written: every length-delimited field, those of the
/// embedded messages included, holds fewer than 2^32 bytes.
pub open spec fn read_all_events_completed_wf(m: ReadAllEventsCompletedModel) -> bool {
    fields_short(read_all_events_completed_fields(m))
    && (forall|i: int| 0 <= i < m.events.len() ==> resolved_event_wf(#[trigger] m.events[i]))
}

/// The fields of a `ReadAllEventsCompleted` carry the wire types of their payloads.
pub proof fn lemma_read_all_events_completed_fields_tagged(m: ReadAllEventsCompletedModel)
    ensures
        fields_tagged(read_all_events_completed_fields(m)),
{
    assert(fields_tagged((match m.error {
        Some(x) => seq![WireField { tag: 58, value: WireValue::Bytes(encode_utf8(x)) }],
        None => Seq::<WireField>::empty(),
    })));
    assert(fields_tagged((if m.result != ReadAllResult::Success {
        seq![WireField { tag: 48, value: WireValue::Varint(varint_of_i32(m.result.to_i32_spec())) }]
    } else {
        Seq::<WireField>::empty()
    })));
    lemma_fields_tagged_append(
        (if m.result != ReadAllResult::Success {
            seq![WireField { tag: 48, value: WireValue::Varint(varint_of_i32(m.result.to_i32_spec())) }]
        } else {
            Seq::<WireField>::empty()
        }),
        (match m.error {
            Some(x) => seq![WireField { tag: 58, value: WireValue::Bytes(encode_utf8(x)) }],
            None => Seq::<WireField>::empty(),
        }),
    );
    assert(fields_tagged((seq![WireField { tag: 40, value: WireValue::Varint(varint_of_i64(m.next_prepare_position)) }])));
    lemma_fields_tagged_append(
        (seq![WireField { tag: 40, value: WireValue::Varint(varint_of_i64(m.next_prepare_position)) }]),
        (if m.result != ReadAllResult::Success {
            seq![WireField { tag: 48, value: WireValue::Varint(varint_of_i32(m.result.to_i32_spec())) }]
        } else {
            Seq::<WireField>::empty()
        }) + ((match m.error {
            Some(x) => seq![WireField { tag: 58, value: WireValue::Bytes(encode_utf8(x)) }],
            None => Seq::<WireField>::empty(),
        })),
    );
    assert(fields_tagged((seq![WireField { tag: 32, value: WireValue::Varint(varint_of_i64(m.next_commit_position)) }])));
    lemma_fields_tagged_append(
        (seq![WireField { tag: 32, value: WireValue::Varint(varint_of_i64(m.next_commit_position)) }]),
        (seq![WireField { tag: 40, value: WireValue::Varint(varint_of_i64(m.next_prepare_position)) }]) + ((if m.result != ReadAllResult::Success {
            seq![WireField { tag: 48, value: WireValue::Varint(varint_of_i32(m.result.to_i32_spec())) }]
        } else {
            Seq::<WireField>::empty()
        }) + ((match m.error {
            Some(x) => seq![WireField { tag: 58, value: WireValue::Bytes(encode_utf8(x)) }],
            None => Seq::<WireField>::empty(),
        }))),
    );
    assert(fields_tagged((read_all_events_completed_events_fields(m.events))));
    lemma_fields_tagged_append(
        (read_all_events_completed_events_fields(m.events)),
        (seq![WireField { tag: 32, value: WireValue::Varint(varint_of_i64(m.next_commit_position)) }]) + ((seq![WireField { tag: 40, value: WireValue::Varint(varint_of_i64(m.next_prepare_position)) }]) + ((if m.result != ReadAllResult::Success {
            seq![WireField { tag: 48, value: WireValue::Varint(varint_of_i32(m.result.to_i32_spec())) }]
        } else {
            Seq::<WireField>::empty()
        }) + ((match m.error {
            Some(x) => seq![WireField { tag: 58, value: WireValue::Bytes(encode_utf8(x)) }],
            None => Seq::<WireField>::empty(),
        })))),
    );
    assert(fields_tagged((seq![WireField { tag: 16, value: WireValue::Varint(varint_of_i64(m.prepare_position)) }])));
    lemma_fields_tagged_append(
        (seq![WireField { tag: 16, value: WireValue::Varint(varint_of_i64(m.prepare_position)) }]),
        (read_all_events_completed_events_fields(m.events)) + ((seq![WireField { tag: 32, value: WireValue::Varint(varint_of_i64(m.next_commit_position)) }]) + ((seq![WireField { tag: 40, value: WireValue::Varint(varint_of_i64(m.next_prepare_position)) }]) + ((if m.result != ReadAllResult::Success {
            seq![WireField { tag: 48, value: WireValue::Varint(varint_of_i32(m.result.to_i32_spec())) }]
        } else {
            Seq::<WireField>::empty()
        }) + ((match m.error {
            Some(x) => seq![WireField { tag: 58, value: WireValue::Bytes(encode_utf8(x)) }],
            None => Seq::<WireField>::empty(),
        }))))),
    );
    assert(fields_tagged((seq![WireField { tag: 8, value: WireValue::Varint(varint_of_i64(m.commit_position)) }])));
    lemma_fields_tagged_append(
        (seq![WireField { tag: 8, value: WireValue::Varint(varint_of_i64(m.commit_position)) }]),
        (seq![WireField { tag: 16, value: WireValue::Varint(varint_of_i64(m.prepare_position)) }]) + ((read_all_events_completed_events_fields(m.events)) + ((seq![WireField { tag: 32, value: WireValue::Varint(varint_of_i64(m.next_commit_position)) }]) + ((seq![WireField { tag: 40, value: WireValue::Varint(varint_of_i64(m.next_prepare_position)) }]) + ((if m.result != ReadAllResult::Success {
            seq![WireField { tag: 48, value: WireValue::Varint(varint_of_i32(m.result.to_i32_spec())) }]
        } else {
            Seq::<WireField>::empty()
        }) + ((match m.error {
            Some(x) => seq![WireField { tag: 58, value: WireValue::Bytes(encode_utf8(x)) }],
            None => Seq::<WireField>::empty(),
        })))))),
    );
}

/// Folding the fields of `es` into a `ReadAllEventsCompleted` appends `es` to its `events`.
pub proof fn lemma_read_all_events_completed_apply_events(es: Seq<ResolvedEventModel>, acc: ReadAllEventsCompletedModel)
    requires
        forall|i: int| 0 <= i < es.len() ==> resolved_event_wf(#[trigger] es[i]),
    ensures
        apply_fields(read_all_events_completed_events_fields(es), acc, read_all_events_completed_applier()) == Some(
            ReadAllEventsCompletedModel { events: acc.events + es, ..acc },
        ),
    decreases es.len(),
{
    if es.len() == 0 {
        assert(acc.events + es =~= acc.events);
    } else {
        lemma_resolved_event_roundtrip(es[0]);
        let next = ReadAllEventsCompletedModel { events: acc.events.push(es[0]), ..acc };
        assert(read_all_events_completed_events_fields(es).drop_first() =~= read_all_events_completed_events_fields(es.drop_first()));
        assert(read_all_events_completed_events_fields(es)[0] == WireField { tag: 26, value: WireValue::Bytes(resolved_event_encode(es[0])) });
        lemma_read_all_events_completed_apply_events(es.drop_first(), next);
        assert(acc.events.push(es[0]) + es.drop_first() =~= acc.events + es);
    }
}

/// The bytes of an encoded `ReadAllEventsCompleted`: `commit_position` under tag 8, `prepare_position` under tag 16, `events` under tag 26, `next_commit_position` under tag 32, `next_prepare_position` under tag 40, `result` under tag 48, `error` under tag 58, in this order; optional fields only
/// when present, repeated ones once per element.
pub proof fn lemma_read_all_events_completed_encode_layout(m: ReadAllEventsCompletedModel)
    ensures
        read_all_events_completed_encode(m) == (varint_field_bytes(8, varint_of_i64(m.commit_position))) + ((varint_field_bytes(16, varint_of_i64(m.prepare_position))) + ((repeated_field_bytes(26, m.events.map_values(|e: ResolvedEventModel| resolved_event_encode(e)))) + ((varint_field_bytes(32, varint_of_i64(m.next_commit_position))) + ((varint_field_bytes(40, varint_of_i64(m.next_prepare_position))) + (((if m.result != ReadAllResult::Success {
            varint_field_bytes(48, varint_of_i32(m.result.to_i32_spec()))
        } else {
            Seq::<u8>::empty()
        })) + (((match m.error {
            Some(x) => bytes_field_bytes(58, encode_utf8(x)),
            None => Seq::<u8>::empty(),
        })))))))),
{
    lemma_encode_fields_append(
        (seq![WireField { tag: 8, value: WireValue::Varint(varint_of_i64(m.commit_position)) }]),
        (seq![WireField { tag: 16, value: WireValue::Varint(varint_of_i64(m.prepare_position)) }]) + ((read_all_events_completed_events_fields(m.events)) + ((seq![WireField { tag: 32, value: WireValue::Varint(varint_of_i64(m.next_commit_position)) }]) + ((seq![WireField { tag: 40, value: WireValue::Varint(varint_of_i64(m.next_prepare_position)) }]) + ((if m.result != ReadAllResult::Success {
            seq![WireField { tag: 48, value: WireValue::Varint(varint_of_i32(m.result.to_i32_spec())) }]
        } else {
            Seq::<WireField>::empty()
        }) + ((match m.error {
            Some(x) => seq![WireField { tag: 58, value: WireValue::Bytes(encode_utf8(x)) }],
            None => Seq::<WireField>::empty(),
        })))))),
    );
    lemma_encode_fields_append(
        (seq![WireField { tag: 16, value: WireValue::Varint(varint_of_i64(m.prepare_position)) }]),
        (read_all_events_completed_events_fields(m.events)) + ((seq![WireField { tag: 32, value: WireValue::Varint(varint_of_i64(m.next_commit_position)) }]) + ((seq![WireField { tag: 40, value: WireValue::Varint(varint_of_i64(m.next_prepare_position)) }]) + ((if m.result != ReadAllResult::Success {
            seq![WireField { tag: 48, value: WireValue::Varint(varint_of_i32(m.result.to_i32_spec())) }]
        } else {
            Seq::<WireField>::empty()
        }) + ((match m.error {
            Some(x) => seq![WireField { tag: 58, value: WireValue::Bytes(encode_utf8(x)) }],
            None => Seq::<WireField>::empty(),
        }))))),
    );
    lemma_encode_fields_append(
        (read_all_events_completed_events_fields(m.events)),
        (seq![WireField { tag: 32, value: WireValue::Varint(varint_of_i64(m.next_commit_position)) }]) + ((seq![WireField { tag: 40, value: WireValue::Varint(varint_of_i64(m.next_prepare_position)) }]) + ((if m.result != ReadAllResult::Success {
            seq![WireField { tag: 48, value: WireValue::Varint(varint_of_i32(m.result.to_i32_spec())) }]
        } else {
            Seq::<WireField>::empty()
        }) + ((match m.error {
            Some(x) => seq![WireField { tag: 58, value: WireValue::Bytes(encode_utf8(x)) }],
            None => Seq::<WireField>::empty(),
        })))),
    );
    lemma_encode_fields_append(
        (seq![WireField { tag: 32, value: WireValue::Varint(varint_of_i64(m.next_commit_position)) }]),
        (seq![WireField { tag: 40, value: WireValue::Varint(varint_of_i64(m.next_prepare_position)) }]) + ((if m.result != ReadAllResult::Success {
            seq![WireField { tag: 48, value: WireValue::Varint(varint_of_i32(m.result.to_i32_spec())) }]
        } else {
            Seq::<WireField>::empty()
        }) + ((match m.error {
            Some(x) => seq![WireField { tag: 58, value: WireValue::Bytes(encode_utf8(x)) }],
            None => Seq::<WireField>::empty(),
        }))),
    );
    lemma_encode_fields_append(
        (seq![WireField { tag: 40, value: WireValue::Varint(varint_of_i64(m.next_prepare_position)) }]),
        (if m.result != ReadAllResult::Success {
            seq![WireField { tag: 48, value: WireValue::Varint(varint_of_i32(m.result.to_i32_spec())) }]
        } else {
            Seq::<WireField>::empty()
        }) + ((match m.error {
            Some(x) => seq![WireField { tag: 58, value: WireValue::Bytes(encode_utf8(x)) }],
            None => Seq::<WireField>::empty(),
        })),
    );
    lemma_encode_fields_append(
        (if m.result != ReadAllResult::Success {
            seq![WireField { tag: 48, value: WireValue::Varint(varint_of_i32(m.result.to_i32_spec())) }]
        } else {
            Seq::<WireField>::empty()
        }),
        (match m.error {
            Some(x) => seq![WireField { tag: 58, value: WireValue::Bytes(encode_utf8(x)) }],
            None => Seq::<WireField>::empty(),
        }),
    );
    lemma_varint_field_layout(8, varint_of_i64(m.commit_position));
    lemma_varint_field_layout(16, varint_of_i64(m.prepare_position));
    lemma_repeated_field_layout(26, read_all_events_completed_events_fields(m.events), m.events.map_values(|e: ResolvedEventModel| resolved_event_encode(e)));
    lemma_varint_field_layout(32, varint_of_i64(m.next_commit_position));
    lemma_varint_field_layout(40, varint_of_i64(m.next_prepare_position));
    if m.result != ReadAllResult::Success {
        lemma_varint_field_layout(48, varint_of_i32(m.result.to_i32_spec()));
    }
    if let Some(x) = m.error {
        lemma_bytes_field_layout(58, encode_utf8(x));
    }
}

/// Reading a written `ReadAllEventsCompleted` gives it back.
pub proof fn lemma_read_all_events_completed_roundtrip(m: ReadAllEventsCompletedModel)
    requires
        read_all_events_completed_wf(m),
    ensures
        read_all_events_completed_decode(read_all_events_completed_encode(m)) == Some(m),
{
    let ap = read_all_events_completed_applier();
    lemma_read_all_events_completed_fields_tagged(m);
    lemma_fields_canonical_of_short(read_all_events_completed_fields(m));
    lemma_decode_encoded_fields(read_all_events_completed_fields(m), read_all_events_completed_default(), ap, read_all_events_completed_known());
    let a0 = read_all_events_completed_default();
    let a1 = ReadAllEventsCompletedModel { commit_position: m.commit_position, ..a0 };
    lemma_apply_fields_append(
        (seq![WireField { tag: 8, value: WireValue::Varint(varint_of_i64(m.commit_position)) }]),
        (seq![WireField { tag: 16, value: WireValue::Varint(varint_of_i64(m.prepare_position)) }]) + ((read_all_events_completed_events_fields(m.events)) + ((seq![WireField { tag: 32, value: WireValue::Varint(varint_of_i64(m.next_commit_position)) }]) + ((seq![WireField { tag: 40, value: WireValue::Varint(varint_of_i64(m.next_prepare_position)) }]) + ((if m.result != ReadAllResult::Success {
            seq![WireField { tag: 48, value: WireValue::Varint(varint_of_i32(m.result.to_i32_spec())) }]
        } else {
            Seq::<WireField>::empty()
        }) + ((match m.error {
            Some(x) => seq![WireField { tag: 58, value: WireValue::Bytes(encode_utf8(x)) }],
            None => Seq::<WireField>::empty(),
        })))))),
        a0,
        ap,
    );
    assert(apply_fields((seq![WireField { tag: 8, value: WireValue::Varint(varint_of_i64(m.commit_position)) }]), a0, ap) == Some(a1)) by {
        reveal_with_fuel(apply_fields, 2);
        lemma_scalar_roundtrips(0, m.commit_position, false);
    }
    let a2 = ReadAllEventsCompletedModel { prepare_position: m.prepare_position, ..a1 };
    lemma_apply_fields_append(
        (seq![WireField { tag: 16, value: WireValue::Varint(varint_of_i64(m.prepare_position)) }]),
        (read_all_events_completed_events_fields(m.events)) + ((seq![WireField { tag: 32, value: WireValue::Varint(varint_of_i64(m.next_commit_position)) }]) + ((seq![WireField { tag: 40, value: WireValue::Varint(varint_of_i64(m.next_prepare_position)) }]) + ((if m.result != ReadAllResult::Success {
            seq![WireField { tag: 48, value: WireValue::Varint(varint_of_i32(m.result.to_i32_spec())) }]
        } else {
            Seq::<WireField>::empty()
        }) + ((match m.error {
            Some(x) => seq![WireField { tag: 58, value: WireValue::Bytes(encode_utf8(x)) }],
            None => Seq::<WireField>::empty(),
        }))))),
        a1,
        ap,
    );
    assert(apply_fields((seq![WireField { tag: 16, value: WireValue::Varint(varint_of_i64(m.prepare_position)) }]), a1, ap) == Some(a2)) by {
        reveal_with_fuel(apply_fields, 2);
        lemma_scalar_roundtrips(0, m.prepare_position, false);
    }
    let a3 = ReadAllEventsCompletedModel { events: m.events, ..a2 };
    lemma_apply_fields_append(
        (read_all_events_completed_events_fields(m.events)),
        (seq![WireField { tag: 32, value: WireValue::Varint(varint_of_i64(m.next_commit_position)) }]) + ((seq![WireField { tag: 40, value: WireValue::Varint(varint_of_i64(m.next_prepare_position)) }]) + ((if m.result != ReadAllResult::Success {
            seq![WireField { tag: 48, value: WireValue::Varint(varint_of_i32(m.result.to_i32_spec())) }]
        } else {
            Seq::<WireField>::empty()
        }) + ((match m.error {
            Some(x) => seq![WireField { tag: 58, value: WireValue::Bytes(encode_utf8(x)) }],
            None => Seq::<WireField>::empty(),
        })))),
        a2,
        ap,
    );
    assert(apply_fields((read_all_events_completed_events_fields(m.events)), a2, ap) == Some(a3)) by {
        lemma_read_all_events_completed_apply_events(m.events, a2);
        assert(a2.events + m.events =~= m.events);
    }
    let a4 = ReadAllEventsCompletedModel { next_commit_position: m.next_commit_position, ..a3 };
    lemma_apply_fields_append(
        (seq![WireField { tag: 32, value: WireValue::Varint(varint_of_i64(m.next_commit_position)) }]),
        (seq![WireField { tag: 40, value: WireValue::Varint(varint_of_i64(m.next_prepare_position)) }]) + ((if m.result != ReadAllResult::Success {
            seq![WireField { tag: 48, value: WireValue::Varint(varint_of_i32(m.result.to_i32_spec())) }]
        } else {
            Seq::<WireField>::empty()
        }) + ((match m.error {
            Some(x) => seq![WireField { tag: 58, value: WireValue::Bytes(encode_utf8(x)) }],
            None => Seq::<WireField>::empty(),
        }))),
        a3,
        ap,
    );
    assert(apply_fields((seq![WireField { tag: 32, value: WireValue::Varint(varint_of_i64(m.next_commit_position)) }]), a3, ap) == Some(a4)) by {
        reveal_with_fuel(apply_fields, 2);
        lemma_scalar_roundtrips(0, m.next_commit_position, false);
    }
    let a5 = ReadAllEventsCompletedModel { next_prepare_position: m.next_prepare_position, ..a4 };
    lemma_apply_fields_append(
        (seq![WireField { tag: 40, value: WireValue::Varint(varint_of_i64(m.next_prepare_position)) }]),
        (if m.result != ReadAllResult::Success {
            seq![WireField { tag: 48, value: WireValue::Varint(varint_of_i32(m.result.to_i32_spec())) }]
        } else {
            Seq::<WireField>::empty()
        }) + ((match m.error {
            Some(x) => seq![WireField { tag: 58, value: WireValue::Bytes(encode_utf8(x)) }],
            None => Seq::<WireField>::empty(),
        })),
        a4,
        ap,
    );
    assert(apply_fields((seq![WireField { tag: 40, value: WireValue::Varint(varint_of_i64(m.next_prepare_position)) }]), a4, ap) == Some(a5)) by {
        reveal_with_fuel(apply_fields, 2);
        lemma_scalar_roundtrips(0, m.next_prepare_position, false);
    }
    let a6 = ReadAllEventsCompletedModel { result: m.result, ..a5 };
    lemma_apply_fields_append(
        (if m.result != ReadAllResult::Success {
            seq![WireField { tag: 48, value: WireValue::Varint(varint_of_i32(m.result.to_i32_spec())) }]
        } else {
            Seq::<WireField>::empty()
        }),
        (match m.error {
            Some(x) => seq![WireField { tag: 58, value: WireValue::Bytes(encode_utf8(x)) }],
            None => Seq::<WireField>::empty(),
        }),
        a5,
        ap,
    );
    assert(apply_fields((if m.result != ReadAllResult::Success {
        seq![WireField { tag: 48, value: WireValue::Varint(varint_of_i32(m.result.to_i32_spec())) }]
    } else {
        Seq::<WireField>::empty()
    }), a5, ap) == Some(a6)) by {
        reveal_with_fuel(apply_fields, 2);
        lemma_scalar_roundtrips(m.result.to_i32_spec(), 0, false);
        m.result.lemma_i32_roundtrip();
    }
    let a7 = ReadAllEventsCompletedModel { error: m.error, ..a6 };
    assert(apply_fields((match m.error {
        Some(x) => seq![WireField { tag: 58, value: WireValue::Bytes(encode_utf8(x)) }],
        None => Seq::<WireField>::empty(),
    }), a6, ap) == Some(a7)) by {
        reveal_with_fuel(apply_fields, 2);
        if let Some(x) = m.error {
            lemma_string_roundtrip(x);
        }
    }
    assert(a7 == m);
}

impl ReadAllEventsCompleted {
    /// Decodes a `ReadAllEventsCompleted` from its protobuf bytes.
    pub fn from_reader(bytes: &[u8]) -> (res: Option<ReadAllEventsCompleted>)
        ensures
            read_all_events_completed_decode(bytes@) matches Some(m) ==> (res matches Some(e) && e@ == m),
            read_all_events_completed_decode(bytes@) is None ==> res is None,
    {
        let mut msg = ReadAllEventsCompleted::default_value();
        let mut pos: usize = 0;
        assert(bytes@.skip(0) =~= bytes@);
        while pos < bytes.len()
            invariant
                pos <= bytes@.len(),
                read_all_events_completed_decode(bytes@) == decode_fields(bytes@.skip(pos as int), msg@, read_all_events_completed_applier(), read_all_events_completed_known()),
            decreases bytes@.len() - pos,
        {
            let ghost old_msg = msg@;
            let (tag, p) = match read_tag(bytes, pos) {
                Some(x) => x,
                None => {
                    return None;
                },
            };
            proof {
                lemma_field_parts(bytes@, pos as int, read_all_events_completed_known());
            }
            let known: bool = tag == 8 || tag == 16 || tag == 26 || tag == 32 || tag == 40 || tag == 48 || tag == 58;
            let (value, next) = match read_value(bytes, p, tag, known) {
                Some(x) => x,
                None => {
                    return None;
                },
            };
            let ghost f = parse_field(bytes@.skip(pos as int), read_all_events_completed_known()).unwrap().0;
            proof {
                lemma_decode_step(bytes@, pos as int, old_msg, read_all_events_completed_applier(), read_all_events_completed_known());
                lemma_parse_field_len(bytes@.skip(pos as int), read_all_events_completed_known());
            }
            if tag == 8 {
                match value {
                    FieldValue::Varint(v) => {
                        msg.commit_position = varint_i64(v);
                    },
                    _ => {
                        return None;
                    },
                }
            } else if tag == 16 {
                match value {
                    FieldValue::Varint(v) => {
                        msg.prepare_position = varint_i64(v);
                    },
                    _ => {
                        return None;
                    },
                }
            } else if tag == 26 {
                match value {
                    FieldValue::Bytes(i, j) => match ResolvedEvent::from_reader(slice_subrange(bytes, i, j)) {
                        Some(s) => {
                            let ghost sv = s@;
                            msg.events.push(s);
                            assert(msg@.events =~= old_msg.events.push(sv));
                        },
                        None => {
                            return None;
                        },
                    },
                    _ => {
                        return None;
                    },
                }
            } else if tag == 32 {
                match value {
                    FieldValue::Varint(v) => {
                        msg.next_commit_position = varint_i64(v);
                    },
                    _ => {
                        return None;
                    },
                }
            } else if tag == 40 {
                match value {
                    FieldValue::Varint(v) => {
                        msg.next_prepare_position = varint_i64(v);
                    },
                    _ => {
                        return None;
                    },
                }
            } else if tag == 48 {
                match value {
                    FieldValue::Varint(v) => {
                        msg.result = ReadAllResult::from_i32(varint_i32(v));
                    },
                    _ => {
                        return None;
                    },
                }
            } else if tag == 58 {
                match value {
                    FieldValue::Bytes(i, j) => match copy_string(bytes, i, j) {
                        Some(s) => {
                            msg.error = Some(s);
                        },
                        None => {
                            return None;
                        },
                    },
                    _ => {
                        return None;
                    },
                }
            }
            assert(read_all_events_completed_apply(old_msg, f) == Some(msg@));
            pos = next;
        }
        assert(bytes@.skip(pos as int).len() == 0);
        Some(msg)
    }

    /// A `ReadAllEventsCompleted` with every field at its default.
    pub fn default_value() -> (m: ReadAllEventsCompleted)
        ensures
            m@ == read_all_events_completed_default(),
    {
        let m = ReadAllEventsCompleted {
            commit_position: 0,
            prepare_position: 0,
            events: Vec::new(),
            next_commit_position: 0,
            next_prepare_position: 0,
            result: ReadAllResult::Success,
            error: None,
        };
        assert(m@.events =~= Seq::empty());
        m
    }

    /// A copy of this `ReadAllEventsCompleted`.
    pub fn copy(&self) -> (c: ReadAllEventsCompleted)
        ensures
            c@ == self@,
    {
        let mut events: Vec<ResolvedEvent> = Vec::new();
        let mut k: usize = 0;
        while k < self.events.len()
            invariant
                k <= self.events@.len(),
                events@.map_values(|e: ResolvedEvent| e@) =~= self@.events.take(k as int),
            decreases self.events@.len() - k,
        {
            let e = self.events[k].copy();
            events.push(e);
            assert(self@.events.take(k + 1) =~= self@.events.take(k as int).push(e@));
            k = k + 1;
        }
        assert(self@.events.take(k as int) =~= self@.events);
        let c = ReadAllEventsCompleted {
            commit_position: self.commit_position,
            prepare_position: self.prepare_position,
            events: events,
            next_commit_position: self.next_commit_position,
            next_prepare_position: self.next_prepare_position,
            result: self.result,
            error: match &self.error {
                Some(x) => Some(x.clone()),
                None => None,
            },
        };
        assert(c@.events =~= self@.events);
        assert(c@.error =~= self@.error);
        c
    }

    /// Encodes this `ReadAllEventsCompleted` as protobuf bytes.
    #[verifier::spinoff_prover]
    #[verifier::rlimit(30)]
    pub fn encode(&self) -> (out: Vec<u8>)
        ensures
            out@ == read_all_events_completed_encode(self@),
            out@.len() < modulus32() ==> read_all_events_completed_wf(self@),
    {
        let mut out: Vec<u8> = Vec::new();
        let ghost mut fs: Seq<WireField> = Seq::empty();
        write_varint_field(&mut out, 8, i64_varint(self.commit_position));
        proof {
            let f = WireField { tag: 8, value: WireValue::Varint(varint_of_i64(self.commit_position)) };
            lemma_encode_fields_push(fs, f);
            lemma_fields_shaped_push(fs, f);
            fs = fs.push(f);
        }
        write_varint_field(&mut out, 16, i64_varint(self.prepare_position));
        proof {
            let f = WireField { tag: 16, value: WireValue::Varint(varint_of_i64(self.prepare_position)) };
            lemma_encode_fields_push(fs, f);
            lemma_fields_shaped_push(fs, f);
            fs = fs.push(f);
        }
        let ghost fs0 = fs;
        let ghost out_len0 = out@.len();
        let mut k: usize = 0;
        assert(self@.events.take(0) =~= Seq::empty());
        assert(fs0 + read_all_events_completed_events_fields(self@.events.take(0)) =~= fs0);
        while k < self.events.len()
            invariant
                k <= self.events@.len(),
                out@ == encode_fields(fs),
                fields_shaped(fs),
                out@.len() >= out_len0,
                fs == fs0 + read_all_events_completed_events_fields(self@.events.take(k as int)),
                forall|i: int| 0 <= i < k ==> (resolved_event_encode(#[trigger] self@.events[i]).len() < modulus32() ==> resolved_event_wf(self@.events[i])),
                forall|i: int| 0 <= i < k ==> resolved_event_encode(#[trigger] self@.events[i]).len() <= out@.len(),
            decreases self.events@.len() - k,
        {
            let sub = self.events[k].encode();
            write_bytes_field(&mut out, 26, sub.as_slice());
            proof {
                let f = WireField { tag: 26, value: WireValue::Bytes(sub@) };
                lemma_encode_fields_push(fs, f);
                lemma_fields_shaped_push(fs, f);
                fs = fs.push(f);
                assert(self@.events[k as int] == self.events@[k as int]@);
                assert(read_all_events_completed_events_fields(self@.events.take(k + 1)) =~= read_all_events_completed_events_fields(
                    self@.events.take(k as int),
                ).push(f));
                assert(fs =~= fs0 + read_all_events_completed_events_fields(self@.events.take(k + 1)));
            }
            k = k + 1;
        }
        assert(self@.events.take(k as int) =~= self@.events);
        write_varint_field(&mut out, 32, i64_varint(self.next_commit_position));
        proof {
            let f = WireField { tag: 32, value: WireValue::Varint(varint_of_i64(self.next_commit_position)) };
            lemma_encode_fields_push(fs, f);
            lemma_fields_shaped_push(fs, f);
            fs = fs.push(f);
        }
        write_varint_field(&mut out, 40, i64_varint(self.next_prepare_position));
        proof {
            let f = WireField { tag: 40, value: WireValue::Varint(varint_of_i64(self.next_prepare_position)) };
            lemma_encode_fields_push(fs, f);
            lemma_fields_shaped_push(fs, f);
            fs = fs.push(f);
        }
        if self.result != ReadAllResult::Success {
            write_varint_field(&mut out, 48, i32_varint(self.result.to_i32()));
            proof {
                let f = WireField { tag: 48, value: WireValue::Varint(varint_of_i32(self.result.to_i32_spec())) };
                lemma_encode_fields_push(fs, f);
                lemma_fields_shaped_push(fs, f);
                fs = fs.push(f);
            }
        }
        match &self.error {
            Some(x) => {
                write_bytes_field(&mut out, 58, x.as_str().as_bytes());
                proof {
                    let f = WireField { tag: 58, value: WireValue::Bytes(encode_utf8(x@)) };
                    lemma_encode_fields_push(fs, f);
                    lemma_fields_shaped_push(fs, f);
                    fs = fs.push(f);
                }
            },
            None => {},
        }
        assert(fs =~= read_all_events_completed_fields(self@));
        proof {
            if out@.len() < modulus32() {
                lemma_fields_canonical_of_len(fs);
            }
        }
        out
    }

    /// The number of bytes of the encoding of this `ReadAllEventsCompleted`, computed without encoding it.
    #[verifier::spinoff_prover]
    #[verifier::rlimit(30)]
    pub fn get_size(&self) -> (n: usize)
        requires
            read_all_events_completed_encode(self@).len() <= usize::MAX,
        ensures
            n == read_all_events_completed_encode(self@).len(),
    {
        let ghost m = self@;
        proof {
            lemma_encode_fields_append(
                (seq![WireField { tag: 8, value: WireValue::Varint(varint_of_i64(m.commit_position)) }]),
                (seq![WireField { tag: 16, value: WireValue::Varint(varint_of_i64(m.prepare_position)) }]) + ((read_all_events_completed_events_fields(m.events)) + ((seq![WireField { tag: 32, value: WireValue::Varint(varint_of_i64(m.next_commit_position)) }]) + ((seq![WireField { tag: 40, value: WireValue::Varint(varint_of_i64(m.next_prepare_position)) }]) + ((if m.result != ReadAllResult::Success {
                    seq![WireField { tag: 48, value: WireValue::Varint(varint_of_i32(m.result.to_i32_spec())) }]
                } else {
                    Seq::<WireField>::empty()
                }) + ((match m.error {
                    Some(x) => seq![WireField { tag: 58, value: WireValue::Bytes(encode_utf8(x)) }],
                    None => Seq::<WireField>::empty(),
                })))))),
            );
            lemma_encode_fields_append(
                (seq![WireField { tag: 16, value: WireValue::Varint(varint_of_i64(m.prepare_position)) }]),
                (read_all_events_completed_events_fields(m.events)) + ((seq![WireField { tag: 32, value: WireValue::Varint(varint_of_i64(m.next_commit_position)) }]) + ((seq![WireField { tag: 40, value: WireValue::Varint(varint_of_i64(m.next_prepare_position)) }]) + ((if m.result != ReadAllResult::Success {
                    seq![WireField { tag: 48, value: WireValue::Varint(varint_of_i32(m.result.to_i32_spec())) }]
                } else {
                    Seq::<WireField>::empty()
                }) + ((match m.error {
                    Some(x) => seq![WireField { tag: 58, value: WireValue::Bytes(encode_utf8(x)) }],
                    None => Seq::<WireField>::empty(),
                }))))),
            );
            lemma_encode_fields_append(
                (read_all_events_completed_events_fields(m.events)),
                (seq![WireField { tag: 32, value: WireValue::Varint(varint_of_i64(m.next_commit_position)) }]) + ((seq![WireField { tag: 40, value: WireValue::Varint(varint_of_i64(m.next_prepare_position)) }]) + ((if m.result != ReadAllResult::Success {
                    seq![WireField { tag: 48, value: WireValue::Varint(varint_of_i32(m.result.to_i32_spec())) }]
                } else {
                    Seq::<WireField>::empty()
                }) + ((match m.error {
                    Some(x) => seq![WireField { tag: 58, value: WireValue::Bytes(encode_utf8(x)) }],
                    None => Seq::<WireField>::empty(),
                })))),
            );
            lemma_encode_fields_append(
                (seq![WireField { tag: 32, value: WireValue::Varint(varint_of_i64(m.next_commit_position)) }]),
                (seq![WireField { tag: 40, value: WireValue::Varint(varint_of_i64(m.next_prepare_position)) }]) + ((if m.result != ReadAllResult::Success {
                    seq![WireField { tag: 48, value: WireValue::Varint(varint_of_i32(m.result.to_i32_spec())) }]
                } else {
                    Seq::<WireField>::empty()
                }) + ((match m.error {
                    Some(x) => seq![WireField { tag: 58, value: WireValue::Bytes(encode_utf8(x)) }],
                    None => Seq::<WireField>::empty(),
                }))),
            );
            lemma_encode_fields_append(
                (seq![WireField { tag: 40, value: WireValue::Varint(varint_of_i64(m.next_prepare_position)) }]),
                (if m.result != ReadAllResult::Success {
                    seq![WireField { tag: 48, value: WireValue::Varint(varint_of_i32(m.result.to_i32_spec())) }]
                } else {
                    Seq::<WireField>::empty()
                }) + ((match m.error {
                    Some(x) => seq![WireField { tag: 58, value: WireValue::Bytes(encode_utf8(x)) }],
                    None => Seq::<WireField>::empty(),
                })),
            );
            lemma_encode_fields_append(
                (if m.result != ReadAllResult::Success {
                    seq![WireField { tag: 48, value: WireValue::Varint(varint_of_i32(m.result.to_i32_spec())) }]
                } else {
                    Seq::<WireField>::empty()
                }),
                (match m.error {
                    Some(x) => seq![WireField { tag: 58, value: WireValue::Bytes(encode_utf8(x)) }],
                    None => Seq::<WireField>::empty(),
                }),
            );
        }
        let mut n: usize = 0;
        let s6: usize = match &self.error {
            Some(x) => {
                proof {
                    lemma_encode_fields_one(WireField { tag: 58, value: WireValue::Bytes(encode_utf8(x@)) });
                }
                sizeof_len_field(58, x.as_str().as_bytes().len())
            },
            None => 0,
        };
        n = s6 + n;
        let s5: usize = if self.result != ReadAllResult::Success {
            proof {
                lemma_encode_fields_one(WireField { tag: 48, value: WireValue::Varint(varint_of_i32(self.result.to_i32_spec())) });
            }
            sizeof_varint_field(48, i32_varint(self.result.to_i32()))
        } else {
            0
        };
        n = s5 + n;
        let s4: usize = {
            proof {
                lemma_encode_fields_one(WireField { tag: 40, value: WireValue::Varint(varint_of_i64(m.next_prepare_position)) });
            }
            sizeof_varint_field(40, i64_varint(self.next_prepare_position))
        };
        n = s4 + n;
        let s3: usize = {
            proof {
                lemma_encode_fields_one(WireField { tag: 32, value: WireValue::Varint(varint_of_i64(m.next_commit_position)) });
            }
            sizeof_varint_field(32, i64_varint(self.next_commit_position))
        };
        n = s3 + n;
        let mut s2: usize = 0;
        let mut k2: usize = 0;
        assert(read_all_events_completed_events_fields(m.events.take(0)) =~= Seq::<WireField>::empty());
        while k2 < self.events.len()
            invariant
                m == self@,
                k2 <= self.events@.len(),
                s2 == encode_fields(read_all_events_completed_events_fields(m.events.take(k2 as int))).len(),
                encode_fields(read_all_events_completed_events_fields(m.events)).len() <= usize::MAX,
            decreases self.events@.len() - k2,
        {
            let ghost f = WireField { tag: 26, value: WireValue::Bytes(resolved_event_encode(m.events[k2 as int])) };
            proof {
                assert(read_all_events_completed_events_fields(m.events.take(k2 + 1)) =~= read_all_events_completed_events_fields(m.events.take(k2 as int)).push(f));
                lemma_encode_fields_push(read_all_events_completed_events_fields(m.events.take(k2 as int)), f);
                assert(read_all_events_completed_events_fields(m.events.take(k2 + 1)) =~= read_all_events_completed_events_fields(m.events).take(k2 + 1));
                lemma_encode_fields_take_len(read_all_events_completed_events_fields(m.events), k2 + 1);
                assert(m.events[k2 as int] == self.events@[k2 as int]@);
            }
            let x = sizeof_len_field(26, self.events[k2].get_size());
            s2 = s2 + x;
            k2 = k2 + 1;
        }
        assert(m.events.take(k2 as int) =~= m.events);
        n = s2 + n;
        let s1: usize = {
            proof {
                lemma_encode_fields_one(WireField { tag: 16, value: WireValue::Varint(varint_of_i64(m.prepare_position)) });
            }
            sizeof_varint_field(16, i64_varint(self.prepare_position))
        };
        n = s1 + n;
        let s0: usize = {
            proof {
                lemma_encode_fields_one(WireField { tag: 8, value: WireValue::Varint(varint_of_i64(m.commit_position)) });
            }
            sizeof_varint_field(8, i64_varint(self.commit_position))
        };
        n = s0 + n;
        n
    }
}

} // verus!
