//! Protobuf messages of writes and deletes.
use vstd::prelude::*;
use vstd::utf8::encode_utf8;
use vstd::slice::slice_subrange;
use crate::wire::{
    WireField, WireValue, FieldValue, string_of, i32_of_varint, i64_of_varint, bool_of_varint,
    varint_of_i32, varint_of_i64, varint_of_bool, decode_fields, encode_fields, fields_shaped,
    apply_fields, lemma_decode_encoded_fields, lemma_apply_fields_append, lemma_string_roundtrip,
    lemma_scalar_roundtrips, parse_field, read_tag, read_value, lemma_field_parts,
    lemma_decode_step, lemma_parse_field_len, copy_string, varint_i32, varint_i64, varint_bool,
    i32_varint, i64_varint, bool_varint, write_bytes_field, write_varint_field,
    lemma_encode_fields_push, lemma_fields_shaped_push, lemma_fields_canonical_of_len, modulus32,
    lemma_encode_fields_append, lemma_encode_fields_one, lemma_encode_fields_take_len,
    sizeof_varint_field, sizeof_len_field, fields_short, fields_tagged, lemma_fields_tagged_append,
    lemma_fields_canonical_of_short, varint_field_bytes, bytes_field_bytes, repeated_field_bytes,
    lemma_varint_field_layout, lemma_bytes_field_layout, lemma_repeated_field_layout,
};
use crate::raw::events::{
    NewEvent, NewEventModel, new_event_decode, new_event_encode, new_event_wf,
    lemma_new_event_roundtrip, opt_string_view,
};

verus! {

/// Result of a write or delete on the wire.
#[derive(Debug, Clone, Copy, PartialEq, Eq, Structural)]
pub enum OperationResult {
    /// The operation succeeded
    Success,
    /// The server timed out preparing the operation
    PrepareTimeout,
    /// The server timed out committing the operation
    CommitTimeout,
    /// A forwarded request timed out
    ForwardTimeout,
    /// The stream was not at the expected version
    WrongExpectedVersion,
    /// The stream has been deleted
    StreamDeleted,
    /// The transaction was invalid
    InvalidTransaction,
    /// Access to the stream was denied
    AccessDenied,
}

impl OperationResult {
    /// The variant that the wire number `i` stands for; unknown numbers give `Success`.
    pub open spec fn from_i32_spec(i: i32) -> OperationResult {
        if i == 1 {
            OperationResult::PrepareTimeout
        } else {
            if i == 2 {
                OperationResult::CommitTimeout
            } else {
                if i == 3 {
                    OperationResult::ForwardTimeout
                } else {
                    if i == 4 {
                        OperationResult::WrongExpectedVersion
                    } else {
                        if i == 5 {
                            OperationResult::StreamDeleted
                        } else {
                            if i == 6 {
                                OperationResult::InvalidTransaction
                            } else {
                                if i == 7 {
                                    OperationResult::AccessDenied
                                } else {
                                    OperationResult::Success
                                }
                            }
                        }
                    }
                }
            }
        }
    }

    /// The wire number of the variant.
    pub open spec fn to_i32_spec(self) -> i32 {
        match self {
            OperationResult::Success => 0,
            OperationResult::PrepareTimeout => 1,
            OperationResult::CommitTimeout => 2,
            OperationResult::ForwardTimeout => 3,
            OperationResult::WrongExpectedVersion => 4,
            OperationResult::StreamDeleted => 5,
            OperationResult::InvalidTransaction => 6,
            OperationResult::AccessDenied => 7,
        }
    }

    /// The variant that the wire number `i` stands for; unknown numbers give `Success`.
    pub fn from_i32(i: i32) -> (r: OperationResult)
        ensures
            r == OperationResult::from_i32_spec(i),
    {
        if i == 1 {
            OperationResult::PrepareTimeout
        } else {
            if i == 2 {
                OperationResult::CommitTimeout
            } else {
                if i == 3 {
                    OperationResult::ForwardTimeout
                } else {
                    if i == 4 {
                        OperationResult::WrongExpectedVersion
                    } else {
                        if i == 5 {
                            OperationResult::StreamDeleted
                        } else {
                            if i == 6 {
                                OperationResult::InvalidTransaction
                            } else {
                                if i == 7 {
                                    OperationResult::AccessDenied
                                } else {
                                    OperationResult::Success
                                }
                            }
                        }
                    }
                }
            }
        }
    }

    /// The wire number of the variant.
    pub fn to_i32(self) -> (i: i32)
        ensures
            i == self.to_i32_spec(),
    {
        match self {
            OperationResult::Success => 0,
            OperationResult::PrepareTimeout => 1,
            OperationResult::CommitTimeout => 2,
            OperationResult::ForwardTimeout => 3,
            OperationResult::WrongExpectedVersion => 4,
            OperationResult::StreamDeleted => 5,
            OperationResult::InvalidTransaction => 6,
            OperationResult::AccessDenied => 7,
        }
    }

    /// The wire numbers that the protocol gives the variants: each variant is written as its
    /// own number, and read from that number alone; any other number reads as `Success`.
    pub proof fn lemma_wire_numbers(i: i32)
        ensures
            OperationResult::Success.to_i32_spec() == 0,
            OperationResult::PrepareTimeout.to_i32_spec() == 1,
            OperationResult::CommitTimeout.to_i32_spec() == 2,
            OperationResult::ForwardTimeout.to_i32_spec() == 3,
            OperationResult::WrongExpectedVersion.to_i32_spec() == 4,
            OperationResult::StreamDeleted.to_i32_spec() == 5,
            OperationResult::InvalidTransaction.to_i32_spec() == 6,
            OperationResult::AccessDenied.to_i32_spec() == 7,
            (OperationResult::from_i32_spec(i) == OperationResult::PrepareTimeout) <==> i == 1,
            (OperationResult::from_i32_spec(i) == OperationResult::CommitTimeout) <==> i == 2,
            (OperationResult::from_i32_spec(i) == OperationResult::ForwardTimeout) <==> i == 3,
            (OperationResult::from_i32_spec(i) == OperationResult::WrongExpectedVersion) <==> i == 4,
            (OperationResult::from_i32_spec(i) == OperationResult::StreamDeleted) <==> i == 5,
            (OperationResult::from_i32_spec(i) == OperationResult::InvalidTransaction) <==> i == 6,
            (OperationResult::from_i32_spec(i) == OperationResult::AccessDenied) <==> i == 7,
            (OperationResult::from_i32_spec(i) == OperationResult::Success) <==> (i != 1 && i != 2 && i != 3 && i != 4 && i != 5 && i != 6 && i != 7),
    {
    }

    /// Reading the wire number of a variant gives the variant back.
    pub proof fn lemma_i32_roundtrip(self)
        ensures
            OperationResult::from_i32_spec(self.to_i32_spec()) == self,
    {
    }
}

/// Request to append events to a stream.
#[derive(Debug, Clone, PartialEq)]
pub struct WriteEvents {
    /// The stream to write to
    pub event_stream_id: String,
    /// The expected version of the stream: -2 any, -1 no stream, or a version
    pub expected_version: i32,
    /// The events to append
    pub events: Vec<NewEvent>,
    /// Whether only the master may handle the request
    pub require_master: bool,
}

/// The contents of a `WriteEvents`.
pub struct WriteEventsModel {
    pub event_stream_id: Seq<char>,
    pub expected_version: i32,
    pub events: Seq<NewEventModel>,
    pub require_master: bool,
}

impl View for WriteEvents {
    type V = WriteEventsModel;

    open spec fn view(&self) -> WriteEventsModel {
        WriteEventsModel {
            event_stream_id: self.event_stream_id@,
            expected_version: self.expected_version,
            events: self.events@.map_values(|e: NewEvent| e@),
            require_master: self.require_master,
        }
    }
}

/// A `WriteEvents` with every field at its default.
pub open spec fn write_events_default() -> WriteEventsModel {
    WriteEventsModel {
        event_stream_id: Seq::empty(),
        expected_version: 0,
        events: Seq::empty(),
        require_master: false,
    }
}

/// Folds one field into a `WriteEvents`; fields of unknown tags are skipped.
pub open spec fn write_events_apply(m: WriteEventsModel, f: WireField) -> Option<WriteEventsModel> {
    if f.tag == 10 {
        match f.value {
            WireValue::Bytes(b) => match string_of(b) {
                Some(s) => Some(WriteEventsModel { event_stream_id: s, ..m }),
                None => None,
            },
            _ => None,
        }
    } else {
        if f.tag == 16 {
            match f.value {
                WireValue::Varint(v) => Some(WriteEventsModel { expected_version: i32_of_varint(v), ..m }),
                _ => None,
            }
        } else {
            if f.tag == 26 {
                match f.value {
                    WireValue::Bytes(b) => match new_event_decode(b) {
                        Some(s) => Some(WriteEventsModel { events: m.events.push(s), ..m }),
                        None => None,
                    },
                    _ => None,
                }
            } else {
                if f.tag == 32 {
                    match f.value {
                        WireValue::Varint(v) => Some(WriteEventsModel { require_master: bool_of_varint(v), ..m }),
                        _ => None,
                    }
                } else {
                    Some(m)
                }
            }
        }
    }
}

/// `write_events_apply` as a value.
pub open spec fn write_events_applier() -> spec_fn(WriteEventsModel, WireField) -> Option<WriteEventsModel> {
    |m: WriteEventsModel, f: WireField| write_events_apply(m, f)
}

/// The tags of the fields that a `WriteEvents` reads; the others are skipped.
pub open spec fn write_events_known() -> spec_fn(u32) -> bool {
    |t: u32| t == 10 || t == 16 || t == 26 || t == 32
}

/// The `WriteEvents` that `bytes` encode, if they encode one.
pub open spec fn write_events_decode(bytes: Seq<u8>) -> Option<WriteEventsModel> {
    decode_fields(bytes, write_events_default(), write_events_applier(), write_events_known())
}

/// The fields that encode the `events` of a `WriteEvents`, one per element.
pub open spec fn write_events_events_fields(es: Seq<NewEventModel>) -> Seq<WireField> {
    Seq::new(es.len(), |i: int| WireField { tag: 26, value: WireValue::Bytes(new_event_encode(es[i])) })
}

/// The fields that encode a `WriteEvents`, in the order they are written.
pub open spec fn write_events_fields(m: WriteEventsModel) -> Seq<WireField> {
    (seq![WireField { tag: 10, value: WireValue::Bytes(encode_utf8(m.event_stream_id)) }]) + ((seq![WireField { tag: 16, value: WireValue::Varint(varint_of_i32(m.expected_version)) }]) + ((write_events_events_fields(m.events)) + ((seq![WireField { tag: 32, value: WireValue::Varint(varint_of_bool(m.require_master)) }]))))
}

/// The encoding of a `WriteEvents`.
pub open spec fn write_events_encode(m: WriteEventsModel) -> Seq<u8> {
    encode_fields(write_events_fields(m))
}

/// A `WriteEvents` that reads back as written: every length-delimited field, those of the
/// embedded messages included, holds fewer than 2^32 bytes.
pub open spec fn write_events_wf(m: WriteEventsModel) -> bool {
    fields_short(write_events_fields(m))
    && (forall|i: int| 0 <= i < m.events.len() ==> new_event_wf(#[trigger] m.events[i]))
}

/// The fields of a `WriteEvents` carry the wire types of their payloads.
pub proof fn lemma_write_events_fields_tagged(m: WriteEventsModel)
    ensures
        fields_tagged(write_events_fields(m)),
{
    assert(fields_tagged((seq![WireField { tag: 32, value: WireValue::Varint(varint_of_bool(m.require_master)) }])));
    assert(fields_tagged((write_events_events_fields(m.events))));
    lemma_fields_tagged_append(
        (write_events_events_fields(m.events)),
        (seq![WireField { tag: 32, value: WireValue::Varint(varint_of_bool(m.require_master)) }]),
    );
    assert(fields_tagged((seq![WireField { tag: 16, value: WireValue::Varint(varint_of_i32(m.expected_version)) }])));
    lemma_fields_tagged_append(
        (seq![WireField { tag: 16, value: WireValue::Varint(varint_of_i32(m.expected_version)) }]),
        (write_events_events_fields(m.events)) + ((seq![WireField { tag: 32, value: WireValue::Varint(varint_of_bool(m.require_master)) }])),
    );
    assert(fields_tagged((seq![WireField { tag: 10, value: WireValue::Bytes(encode_utf8(m.event_stream_id)) }])));
    lemma_fields_tagged_append(
        (seq![WireField { tag: 10, value: WireValue::Bytes(encode_utf8(m.event_stream_id)) }]),
        (seq![WireField { tag: 16, value: WireValue::Varint(varint_of_i32(m.expected_version)) }]) + ((write_events_events_fields(m.events)) + ((seq![WireField { tag: 32, value: WireValue::Varint(varint_of_bool(m.require_master)) }]))),
    );
}

/// Folding the fields of `es` into a `WriteEvents` appends `es` to its `events`.
pub proof fn lemma_write_events_apply_events(es: Seq<NewEventModel>, acc: WriteEventsModel)
    requires
        forall|i: int| 0 <= i < es.len() ==> new_event_wf(#[trigger] es[i]),
    ensures
        apply_fields(write_events_events_fields(es), acc, write_events_applier()) == Some(
            WriteEventsModel { events: acc.events + es, ..acc },
        ),
    decreases es.len(),
{
    if es.len() == 0 {
        assert(acc.events + es =~= acc.events);
    } else {
        lemma_new_event_roundtrip(es[0]);
        let next = WriteEventsModel { events: acc.events.push(es[0]), ..acc };
        assert(write_events_events_fields(es).drop_first() =~= write_events_events_fields(es.drop_first()));
        assert(write_events_events_fields(es)[0] == WireField { tag: 26, value: WireValue::Bytes(new_event_encode(es[0])) });
        lemma_write_events_apply_events(es.drop_first(), next);
        assert(acc.events.push(es[0]) + es.drop_first() =~= acc.events + es);
    }
}

/// The bytes of an encoded `WriteEvents`: `event_stream_id` under tag 10, `expected_version` under tag 16, `events` under tag 26, `require_master` under tag 32, in this order; optional fields only
/// when present, repeated ones once per element.
pub proof fn lemma_write_events_encode_layout(m: WriteEventsModel)
    ensures
        write_events_encode(m) == (bytes_field_bytes(10, encode_utf8(m.event_stream_id))) + ((varint_field_bytes(16, varint_of_i32(m.expected_version))) + ((repeated_field_bytes(26, m.events.map_values(|e: NewEventModel| new_event_encode(e)))) + ((varint_field_bytes(32, varint_of_bool(m.require_master)))))),
{
    lemma_encode_fields_append(
        (seq![WireField { tag: 10, value: WireValue::Bytes(encode_utf8(m.event_stream_id)) }]),
        (seq![WireField { tag: 16, value: WireValue::Varint(varint_of_i32(m.expected_version)) }]) + ((write_events_events_fields(m.events)) + ((seq![WireField { tag: 32, value: WireValue::Varint(varint_of_bool(m.require_master)) }]))),
    );
    lemma_encode_fields_append(
        (seq![WireField { tag: 16, value: WireValue::Varint(varint_of_i32(m.expected_version)) }]),
        (write_events_events_fields(m.events)) + ((seq![WireField { tag: 32, value: WireValue::Varint(varint_of_bool(m.require_master)) }])),
    );
    lemma_encode_fields_append(
        (write_events_events_fields(m.events)),
        (seq![WireField { tag: 32, value: WireValue::Varint(varint_of_bool(m.require_master)) }]),
    );
    lemma_bytes_field_layout(10, encode_utf8(m.event_stream_id));
    lemma_varint_field_layout(16, varint_of_i32(m.expected_version));
    lemma_repeated_field_layout(26, write_events_events_fields(m.events), m.events.map_values(|e: NewEventModel| new_event_encode(e)));
    lemma_varint_field_layout(32, varint_of_bool(m.require_master));
}

/// Reading a written `WriteEvents` gives it back.
pub proof fn lemma_write_events_roundtrip(m: WriteEventsModel)
    requires
        write_events_wf(m),
    ensures
        write_events_decode(write_events_encode(m)) == Some(m),
{
    let ap = write_events_applier();
    lemma_write_events_fields_tagged(m);
    lemma_fields_canonical_of_short(write_events_fields(m));
    lemma_decode_encoded_fields(write_events_fields(m), write_events_default(), ap, write_events_known());
    let a0 = write_events_default();
    let a1 = WriteEventsModel { event_stream_id: m.event_stream_id, ..a0 };
    lemma_apply_fields_append(
        (seq![WireField { tag: 10, value: WireValue::Bytes(encode_utf8(m.event_stream_id)) }]),
        (seq![WireField { tag: 16, value: WireValue::Varint(varint_of_i32(m.expected_version)) }]) + ((write_events_events_fields(m.events)) + ((seq![WireField { tag: 32, value: WireValue::Varint(varint_of_bool(m.require_master)) }]))),
        a0,
        ap,
    );
    assert(apply_fields((seq![WireField { tag: 10, value: WireValue::Bytes(encode_utf8(m.event_stream_id)) }]), a0, ap) == Some(a1)) by {
        reveal_with_fuel(apply_fields, 2);
        lemma_string_roundtrip(m.event_stream_id);
    }
    let a2 = WriteEventsModel { expected_version: m.expected_version, ..a1 };
    lemma_apply_fields_append(
        (seq![WireField { tag: 16, value: WireValue::Varint(varint_of_i32(m.expected_version)) }]),
        (write_events_events_fields(m.events)) + ((seq![WireField { tag: 32, value: WireValue::Varint(varint_of_bool(m.require_master)) }])),
        a1,
        ap,
    );
    assert(apply_fields((seq![WireField { tag: 16, value: WireValue::Varint(varint_of_i32(m.expected_version)) }]), a1, ap) == Some(a2)) by {
        reveal_with_fuel(apply_fields, 2);
        lemma_scalar_roundtrips(m.expected_version, 0, false);
    }
    let a3 = WriteEventsModel { events: m.events, ..a2 };
    lemma_apply_fields_append(
        (write_events_events_fields(m.events)),
        (seq![WireField { tag: 32, value: WireValue::Varint(varint_of_bool(m.require_master)) }]),
        a2,
        ap,
    );
    assert(apply_fields((write_events_events_fields(m.events)), a2, ap) == Some(a3)) by {
        lemma_write_events_apply_events(m.events, a2);
        assert(a2.events + m.events =~= m.events);
    }
    let a4 = WriteEventsModel { require_master: m.require_master, ..a3 };
    assert(apply_fields((seq![WireField { tag: 32, value: WireValue::Varint(varint_of_bool(m.require_master)) }]), a3, ap) == Some(a4)) by {
        reveal_with_fuel(apply_fields, 2);
        lemma_scalar_roundtrips(0, 0, m.require_master);
    }
    assert(a4 == m);
}

impl WriteEvents {
    /// Decodes a `WriteEvents` from its protobuf bytes.
    pub fn from_reader(bytes: &[u8]) -> (res: Option<WriteEvents>)
        ensures
            write_events_decode(bytes@) matches Some(m) ==> (res matches Some(e) && e@ == m),
            write_events_decode(bytes@) is None ==> res is None,
    {
        let mut msg = WriteEvents::default_value();
        let mut pos: usize = 0;
        assert(bytes@.skip(0) =~= bytes@);
        while pos < bytes.len()
            invariant
                pos <= bytes@.len(),
                write_events_decode(bytes@) == decode_fields(bytes@.skip(pos as int), msg@, write_events_applier(), write_events_known()),
            decreases bytes@.len() - pos,
        {
            let ghost old_msg = msg@;
            let (tag, p) = match read_tag(bytes, pos) {
                Some(x) => x,
                None => {
                    return None;
                },
            };
            proof {
                lemma_field_parts(bytes@, pos as int, write_events_known());
            }
            let known: bool = tag == 10 || tag == 16 || tag == 26 || tag == 32;
            let (value, next) = match read_value(bytes, p, tag, known) {
                Some(x) => x,
                None => {
                    return None;
                },
            };
            let ghost f = parse_field(bytes@.skip(pos as int), write_events_known()).unwrap().0;
            proof {
                lemma_decode_step(bytes@, pos as int, old_msg, write_events_applier(), write_events_known());
                lemma_parse_field_len(bytes@.skip(pos as int), write_events_known());
            }
            if tag == 10 {
                match value {
                    FieldValue::Bytes(i, j) => match copy_string(bytes, i, j) {
                        Some(s) => {
                            msg.event_stream_id = s;
                        },
                        None => {
                            return None;
                        },
                    },
                    _ => {
                        return None;
                    },
                }
            } else if tag == 16 {
                match value {
                    FieldValue::Varint(v) => {
                        msg.expected_version = varint_i32(v);
                    },
                    _ => {
                        return None;
                    },
                }
            } else if tag == 26 {
                match value {
                    FieldValue::Bytes(i, j) => match NewEvent::from_reader(slice_subrange(bytes, i, j)) {
                        Some(s) => {
                            let ghost sv = s@;
                            msg.events.push(s);
                            assert(msg@.events =~= old_msg.events.push(sv));
                        },
                        None => {
                            return None;
                        },
                    },
                    _ => {
                        return None;
                    },
                }
            } else if tag == 32 {
                match value {
                    FieldValue::Varint(v) => {
                        msg.require_master = varint_bool(v);
                    },
                    _ => {
                        return None;
                    },
                }
            }
            assert(write_events_apply(old_msg, f) == Some(msg@));
            pos = next;
        }
        assert(bytes@.skip(pos as int).len() == 0);
        Some(msg)
    }

    /// A `WriteEvents` with every field at its default.
    pub fn default_value() -> (m: WriteEvents)
        ensures
            m@ == write_events_default(),
    {
        let m = WriteEvents {
            event_stream_id: String::new(),
            expected_version: 0,
            events: Vec::new(),
            require_master: false,
        };
        assert(m@.events =~= Seq::empty());
        m
    }

    /// A copy of this `WriteEvents`.
    pub fn copy(&self) -> (c: WriteEvents)
        ensures
            c@ == self@,
    {
        let mut events: Vec<NewEvent> = Vec::new();
        let mut k: usize = 0;
        while k < self.events.len()
            invariant
                k <= self.events@.len(),
                events@.map_values(|e: NewEvent| e@) =~= self@.events.take(k as int),
            decreases self.events@.len() - k,
        {
            let e = self.events[k].copy();
            events.push(e);
            assert(self@.events.take(k + 1) =~= self@.events.take(k as int).push(e@));
            k = k + 1;
        }
        assert(self@.events.take(k as int) =~= self@.events);
        let c = WriteEvents {
            event_stream_id: self.event_stream_id.clone(),
            expected_version: self.expected_version,
            events: events,
            require_master: self.require_master,
        };
        assert(c@.event_stream_id =~= self@.event_stream_id);
        assert(c@.events =~= self@.events);
        c
    }

    /// Encodes this `WriteEvents` as protobuf bytes.
    #[verifier::spinoff_prover]
    #[verifier::rlimit(30)]
    pub fn encode(&self) -> (out: Vec<u8>)
        ensures
            out@ == write_events_encode(self@),
            out@.len() < modulus32() ==> write_events_wf(self@),
    {
        let mut out: Vec<u8> = Vec::new();
        let ghost mut fs: Seq<WireField> = Seq::empty();
        write_bytes_field(&mut out, 10, self.event_stream_id.as_str().as_bytes());
        proof {
            let f = WireField { tag: 10, value: WireValue::Bytes(encode_utf8(self.event_stream_id@)) };
            lemma_encode_fields_push(fs, f);
            lemma_fields_shaped_push(fs, f);
            fs = fs.push(f);
        }
        write_varint_field(&mut out, 16, i32_varint(self.expected_version));
        proof {
            let f = WireField { tag: 16, value: WireValue::Varint(varint_of_i32(self.expected_version)) };
            lemma_encode_fields_push(fs, f);
            lemma_fields_shaped_push(fs, f);
            fs = fs.push(f);
        }
        let ghost fs0 = fs;
        let ghost out_len0 = out@.len();
        let mut k: usize = 0;
        assert(self@.events.take(0) =~= Seq::empty());
        assert(fs0 + write_events_events_fields(self@.events.take(0)) =~= fs0);
        while k < self.events.len()
            invariant
                k <= self.events@.len(),
                out@ == encode_fields(fs),
                fields_shaped(fs),
                out@.len() >= out_len0,
                fs == fs0 + write_events_events_fields(self@.events.take(k as int)),
                forall|i: int| 0 <= i < k ==> (new_event_encode(#[trigger] self@.events[i]).len() < modulus32() ==> new_event_wf(self@.events[i])),
                forall|i: int| 0 <= i < k ==> new_event_encode(#[trigger] self@.events[i]).len() <= out@.len(),
            decreases self.events@.len() - k,
        {
            let sub = self.events[k].encode();
            write_bytes_field(&mut out, 26, sub.as_slice());
            proof {
                let f = WireField { tag: 26, value: WireValue::Bytes(sub@) };
                lemma_encode_fields_push(fs, f);
                lemma_fields_shaped_push(fs, f);
                fs = fs.push(f);
                assert(self@.events[k as int] == self.events@[k as int]@);
                assert(write_events_events_fields(self@.events.take(k + 1)) =~= write_events_events_fields(
                    self@.events.take(k as int),
                ).push(f));
                assert(fs =~= fs0 + write_events_events_fields(self@.events.take(k + 1)));
            }
            k = k + 1;
        }
        assert(self@.events.take(k as int) =~= self@.events);
        write_varint_field(&mut out, 32, bool_varint(self.require_master));
        proof {
            let f = WireField { tag: 32, value: WireValue::Varint(varint_of_bool(self.require_master)) };
            lemma_encode_fields_push(fs, f);
            lemma_fields_shaped_push(fs, f);
            fs = fs.push(f);
        }
        assert(fs =~= write_events_fields(self@));
        proof {
            if out@.len() < modulus32() {
                lemma_fields_canonical_of_len(fs);
            }
        }
        out
    }

    /// The number of bytes of the encoding of this `WriteEvents`, computed without encoding it.
    #[verifier::spinoff_prover]
    #[verifier::rlimit(30)]
    pub fn get_size(&self) -> (n: usize)
        requires
            write_events_encode(self@).len() <= usize::MAX,
        ensures
            n == write_events_encode(self@).len(),
    {
        let ghost m = self@;
        proof {
            lemma_encode_fields_append(
                (seq![WireField { tag: 10, value: WireValue::Bytes(encode_utf8(m.event_stream_id)) }]),
                (seq![WireField { tag: 16, value: WireValue::Varint(varint_of_i32(m.expected_version)) }]) + ((write_events_events_fields(m.events)) + ((seq![WireField { tag: 32, value: WireValue::Varint(varint_of_bool(m.require_master)) }]))),
            );
            lemma_encode_fields_append(
                (seq![WireField { tag: 16, value: WireValue::Varint(varint_of_i32(m.expected_version)) }]),
                (write_events_events_fields(m.events)) + ((seq![WireField { tag: 32, value: WireValue::Varint(varint_of_bool(m.require_master)) }])),
            );
            lemma_encode_fields_append(
                (write_events_events_fields(m.events)),
                (seq![WireField { tag: 32, value: WireValue::Varint(varint_of_bool(m.require_master)) }]),
            );
        }
        let mut n: usize = 0;
        let s3: usize = {
            proof {
                lemma_encode_fields_one(WireField { tag: 32, value: WireValue::Varint(varint_of_bool(m.require_master)) });
            }
            sizeof_varint_field(32, bool_varint(self.require_master))
        };
        n = s3 + n;
        let mut s2: usize = 0;
        let mut k2: usize = 0;
        assert(write_events_events_fields(m.events.take(0)) =~= Seq::<WireField>::empty());
        while k2 < self.events.len()
            invariant
                m == self@,
                k2 <= self.events@.len(),
                s2 == encode_fields(write_events_events_fields(m.events.take(k2 as int))).len(),
                encode_fields(write_events_events_fields(m.events)).len() <= usize::MAX,
            decreases self.events@.len() - k2,
        {
            let ghost f = WireField { tag: 26, value: WireValue::Bytes(new_event_encode(m.events[k2 as int])) };
            proof {
                assert(write_events_events_fields(m.events.take(k2 + 1)) =~= write_events_events_fields(m.events.take(k2 as int)).push(f));
                lemma_encode_fields_push(write_events_events_fields(m.events.take(k2 as int)), f);
                assert(write_events_events_fields(m.events.take(k2 + 1)) =~= write_events_events_fields(m.events).take(k2 + 1));
                lemma_encode_fields_take_len(write_events_events_fields(m.events), k2 + 1);
                assert(m.events[k2 as int] == self.events@[k2 as int]@);
            }
            let x = sizeof_len_field(26, self.events[k2].get_size());
            s2 = s2 + x;
            k2 = k2 + 1;
        }
        assert(m.events.take(k2 as int) =~= m.events);
        n = s2 + n;
        let s1: usize = {
            proof {
                lemma_encode_fields_one(WireField { tag: 16, value: WireValue::Varint(varint_of_i32(m.expected_version)) });
            }
            sizeof_varint_field(16, i32_varint(self.expected_version))
        };
        n = s1 + n;
        let s0: usize = {
            proof {
                lemma_encode_fields_one(WireField { tag: 10, value: WireValue::Bytes(encode_utf8(m.event_stream_id)) });
            }
            sizeof_len_field(10, self.event_stream_id.as_str().as_bytes().len())
        };
        n = s0 + n;
        n
    }
}

/// Response to `WriteEvents`.
#[derive(Debug, Clone, PartialEq)]
pub struct WriteEventsCompleted {
    /// The outcome
    pub result: Option<OperationResult>,
    /// An explanation
    pub message: Option<String>,
    /// Number of the first written event
    pub first_event_number: i32,
    /// Number of the last written event
    pub last_event_number: i32,
    /// Prepare position of the write
    pub prepare_position: Option<i64>,
    /// Commit position of the write
    pub commit_position: Option<i64>,
}

/// The contents of a `WriteEventsCompleted`.
pub struct WriteEventsCompletedModel {
    pub result: Option<OperationResult>,
    pub message: Option<Seq<char>>,
    pub first_event_number: i32,
    pub last_event_number: i32,
    pub prepare_position: Option<i64>,
    pub commit_position: Option<i64>,
}

impl View for WriteEventsCompleted {
    type V = WriteEventsCompletedModel;

    open spec fn view(&self) -> WriteEventsCompletedModel {
        WriteEventsCompletedModel {
            result: self.result,
            message: opt_string_view(self.message),
            first_event_number: self.first_event_number,
            last_event_number: self.last_event_number,
            prepare_position: self.prepare_position,
            commit_position: self.commit_position,
        }
    }
}

/// A `WriteEventsCompleted` with every field at its default.
pub open spec fn write_events_completed_default() -> WriteEventsCompletedModel {
    WriteEventsCompletedModel {
        result: None,
        message: None,
        first_event_number: 0,
        last_event_number: 0,
        prepare_position: None,
        commit_position: None,
    }
}

/// Folds one field into a `WriteEventsCompleted`; fields of unknown tags are skipped.
pub open spec fn write_events_completed_apply(m: WriteEventsCompletedModel, f: WireField) -> Option<WriteEventsCompletedModel> {
    if f.tag == 8 {
        match f.value {
            WireValue::Varint(v) => Some(WriteEventsCompletedModel { result: Some(OperationResult::from_i32_spec(i32_of_varint(v))), ..m }),
            _ => None,
        }
    } else {
        if f.tag == 18 {
            match f.value {
                WireValue::Bytes(b) => match string_of(b) {
                    Some(s) => Some(WriteEventsCompletedModel { message: Some(s), ..m }),
                    None => None,
                },
                _ => None,
            }
        } else {
            if f.tag == 24 {
                match f.value {
                    WireValue::Varint(v) => Some(WriteEventsCompletedModel { first_event_number: i32_of_varint(v), ..m }),
                    _ => None,
                }
            } else {
                if f.tag == 32 {
                    match f.value {
                        WireValue::Varint(v) => Some(WriteEventsCompletedModel { last_event_number: i32_of_varint(v), ..m }),
                        _ => None,
                    }
                } else {
                    if f.tag == 40 {
                        match f.value {
                            WireValue::Varint(v) => Some(WriteEventsCompletedModel { prepare_position: Some(i64_of_varint(v)), ..m }),
                            _ => None,
                        }
                    } else {
                        if f.tag == 48 {
                            match f.value {
                                WireValue::Varint(v) => Some(WriteEventsCompletedModel { commit_position: Some(i64_of_varint(v)), ..m }),
                                _ => None,
                            }
                        } else {
                            Some(m)
                        }
                    }
                }
            }
        }
    }
}

/// `write_events_completed_apply` as a value.
pub open spec fn write_events_completed_applier() -> spec_fn(WriteEventsCompletedModel, WireField) -> Option<WriteEventsCompletedModel> {
    |m: WriteEventsCompletedModel, f: WireField| write_events_completed_apply(m, f)
}

/// The tags of the fields that a `WriteEventsCompleted` reads; the others are skipped.
pub open spec fn write_events_completed_known() -> spec_fn(u32) -> bool {
    |t: u32| t == 8 || t == 18 || t == 24 || t == 32 || t == 40 || t == 48
}

/// The `WriteEventsCompleted` that `bytes` encode, if they encode one.
pub open spec fn write_events_completed_decode(bytes: Seq<u8>) -> Option<WriteEventsCompletedModel> {
    decode_fields(bytes, write_events_completed_default(), write_events_completed_applier(), write_events_completed_known())
}

/// The fields that encode a `WriteEventsCompleted`, in the order they are written.
pub open spec fn write_events_completed_fields(m: WriteEventsCompletedModel) -> Seq<WireField> {
    (match m.result {
        Some(x) => seq![WireField { tag: 8, value: WireValue::Varint(varint_of_i32(x.to_i32_spec())) }],
        None => Seq::<WireField>::empty(),
    }) + ((match m.message {
        Some(x) => seq![WireField { tag: 18, value: WireValue::Bytes(encode_utf8(x)) }],
        None => Seq::<WireField>::empty(),
    }) + ((seq![WireField { tag: 24, value: WireValue::Varint(varint_of_i32(m.first_event_number)) }]) + ((seq![WireField { tag: 32, value: WireValue::Varint(varint_of_i32(m.last_event_number)) }]) + ((match m.prepare_position {
        Some(x) => seq![WireField { tag: 40, value: WireValue::Varint(varint_of_i64(x)) }],
        None => Seq::<WireField>::empty(),
    }) + ((match m.commit_position {
        Some(x) => seq![WireField { tag: 48, value: WireValue::Varint(varint_of_i64(x)) }],
        None => Seq::<WireField>::empty(),
    }))))))
}

/// The encoding of a `WriteEventsCompleted`.
pub open spec fn write_events_completed_encode(m: WriteEventsCompletedModel) -> Seq<u8> {
    encode_fields(write_events_completed_fields(m))
}

/// A `WriteEventsCompleted` that reads back as written: every length-delimited field, those of the
/// embedded messages included, holds fewer than 2^32 bytes.
pub open spec fn write_events_completed_wf(m: WriteEventsCompletedModel) -> bool {
    fields_short(write_events_completed_fields(m))
}

/// The fields of a `WriteEventsCompleted` carry the wire types of their payloads.
pub proof fn lemma_write_events_completed_fields_tagged(m: WriteEventsCompletedModel)
    ensures
        fields_tagged(write_events_completed_fields(m)),
{
    assert(fields_tagged((match m.commit_position {
        Some(x) => seq![WireField { tag: 48, value: WireValue::Varint(varint_of_i64(x)) }],
        None => Seq::<WireField>::empty(),
    })));
    assert(fields_tagged((match m.prepare_position {
        Some(x) => seq![WireField { tag: 40, value: WireValue::Varint(varint_of_i64(x)) }],
        None => Seq::<WireField>::empty(),
    })));
    lemma_fields_tagged_append(
        (match m.prepare_position {
            Some(x) => seq![WireField { tag: 40, value: WireValue::Varint(varint_of_i64(x)) }],
            None => Seq::<WireField>::empty(),
        }),
        (match m.commit_position {
            Some(x) => seq![WireField { tag: 48, value: WireValue::Varint(varint_of_i64(x)) }],
            None => Seq::<WireField>::empty(),
        }),
    );
    assert(fields_tagged((seq![WireField { tag: 32, value: WireValue::Varint(varint_of_i32(m.last_event_number)) }])));
    lemma_fields_tagged_append(
        (seq![WireField { tag: 32, value: WireValue::Varint(varint_of_i32(m.last_event_number)) }]),
        (match m.prepare_position {
            Some(x) => seq![WireField { tag: 40, value: WireValue::Varint(varint_of_i64(x)) }],
            None => Seq::<WireField>::empty(),
        }) + ((match m.commit_position {
            Some(x) => seq![WireField { tag: 48, value: WireValue::Varint(varint_of_i64(x)) }],
            None => Seq::<WireField>::empty(),
        })),
    );
    assert(fields_tagged((seq![WireField { tag: 24, value: WireValue::Varint(varint_of_i32(m.first_event_number)) }])));
    lemma_fields_tagged_append(
        (seq![WireField { tag: 24, value: WireValue::Varint(varint_of_i32(m.first_event_number)) }]),
        (seq![WireField { tag: 32, value: WireValue::Varint(varint_of_i32(m.last_event_number)) }]) + ((match m.prepare_position {
            Some(x) => seq![WireField { tag: 40, value: WireValue::Varint(varint_of_i64(x)) }],
            None => Seq::<WireField>::empty(),
        }) + ((match m.commit_position {
            Some(x) => seq![WireField { tag: 48, value: WireValue::Varint(varint_of_i64(x)) }],
            None => Seq::<WireField>::empty(),
        }))),
    );
    assert(fields_tagged((match m.message {
        Some(x) => seq![WireField { tag: 18, value: WireValue::Bytes(encode_utf8(x)) }],
        None => Seq::<WireField>::empty(),
    })));
    lemma_fields_tagged_append(
        (match m.message {
            Some(x) => seq![WireField { tag: 18, value: WireValue::Bytes(encode_utf8(x)) }],
            None => Seq::<WireField>::empty(),
        }),
        (seq![WireField { tag: 24, value: WireValue::Varint(varint_of_i32(m.first_event_number)) }]) + ((seq![WireField { tag: 32, value: WireValue::Varint(varint_of_i32(m.last_event_number)) }]) + ((match m.prepare_position {
            Some(x) => seq![WireField { tag: 40, value: WireValue::Varint(varint_of_i64(x)) }],
            None => Seq::<WireField>::empty(),
        }) + ((match m.commit_position {
            Some(x) => seq![WireField { tag: 48, value: WireValue::Varint(varint_of_i64(x)) }],
            None => Seq::<WireField>::empty(),
        })))),
    );
    assert(fields_tagged((match m.result {
        Some(x) => seq![WireField { tag: 8, value: WireValue::Varint(varint_of_i32(x.to_i32_spec())) }],
        None => Seq::<WireField>::empty(),
    })));
    lemma_fields_tagged_append(
        (match m.result {
            Some(x) => seq![WireField { tag: 8, value: WireValue::Varint(varint_of_i32(x.to_i32_spec())) }],
            None => Seq::<WireField>::empty(),
        }),
        (match m.message {
            Some(x) => seq![WireField { tag: 18, value: WireValue::Bytes(encode_utf8(x)) }],
            None => Seq::<WireField>::empty(),
        }) + ((seq![WireField { tag: 24, value: WireValue::Varint(varint_of_i32(m.first_event_number)) }]) + ((seq![WireField { tag: 32, value: WireValue::Varint(varint_of_i32(m.last_event_number)) }]) + ((match m.prepare_position {
            Some(x) => seq![WireField { tag: 40, value: WireValue::Varint(varint_of_i64(x)) }],
            None => Seq::<WireField>::empty(),
        }) + ((match m.commit_position {
            Some(x) => seq![WireField { tag: 48, value: WireValue::Varint(varint_of_i64(x)) }],
            None => Seq::<WireField>::empty(),
        }))))),
    );
}

/// The bytes of an encoded `WriteEventsCompleted`: `result` under tag 8, `message` under tag 18, `first_event_number` under tag 24, `last_event_number` under tag 32, `prepare_position` under tag 40, `commit_position` under tag 48, in this order; optional fields only
/// when present, repeated ones once per element.
pub proof fn lemma_write_events_completed_encode_layout(m: WriteEventsCompletedModel)
    ensures
        write_events_completed_encode(m) == ((match m.result {
            Some(x) => varint_field_bytes(8, varint_of_i32(x.to_i32_spec())),
            None => Seq::<u8>::empty(),
        })) + (((match m.message {
            Some(x) => bytes_field_bytes(18, encode_utf8(x)),
            None => Seq::<u8>::empty(),
        })) + ((varint_field_bytes(24, varint_of_i32(m.first_event_number))) + ((varint_field_bytes(32, varint_of_i32(m.last_event_number))) + (((match m.prepare_position {
            Some(x) => varint_field_bytes(40, varint_of_i64(x)),
            None => Seq::<u8>::empty(),
        })) + (((match m.commit_position {
            Some(x) => varint_field_bytes(48, varint_of_i64(x)),
            None => Seq::<u8>::empty(),
        }))))))),
{
    lemma_encode_fields_append(
        (match m.result {
            Some(x) => seq![WireField { tag: 8, value: WireValue::Varint(varint_of_i32(x.to_i32_spec())) }],
            None => Seq::<WireField>::empty(),
        }),
        (match m.message {
            Some(x) => seq![WireField { tag: 18, value: WireValue::Bytes(encode_utf8(x)) }],
            None => Seq::<WireField>::empty(),
        }) + ((seq![WireField { tag: 24, value: WireValue::Varint(varint_of_i32(m.first_event_number)) }]) + ((seq![WireField { tag: 32, value: WireValue::Varint(varint_of_i32(m.last_event_number)) }]) + ((match m.prepare_position {
            Some(x) => seq![WireField { tag: 40, value: WireValue::Varint(varint_of_i64(x)) }],
            None => Seq::<WireField>::empty(),
        }) + ((match m.commit_position {
            Some(x) => seq![WireField { tag: 48, value: WireValue::Varint(varint_of_i64(x)) }],
            None => Seq::<WireField>::empty(),
        }))))),
    );
    lemma_encode_fields_append(
        (match m.message {
            Some(x) => seq![WireField { tag: 18, value: WireValue::Bytes(encode_utf8(x)) }],
            None => Seq::<WireField>::empty(),
        }),
        (seq![WireField { tag: 24, value: WireValue::Varint(varint_of_i32(m.first_event_number)) }]) + ((seq![WireField { tag: 32, value: WireValue::Varint(varint_of_i32(m.last_event_number)) }]) + ((match m.prepare_position {
            Some(x) => seq![WireField { tag: 40, value: WireValue::Varint(varint_of_i64(x)) }],
            None => Seq::<WireField>::empty(),
        }) + ((match m.commit_position {
            Some(x) => seq![WireField { tag: 48, value: WireValue::Varint(varint_of_i64(x)) }],
            None => Seq::<WireField>::empty(),
        })))),
    );
    lemma_encode_fields_append(
        (seq![WireField { tag: 24, value: WireValue::Varint(varint_of_i32(m.first_event_number)) }]),
        (seq![WireField { tag: 32, value: WireValue::Varint(varint_of_i32(m.last_event_number)) }]) + ((match m.prepare_position {
            Some(x) => seq![WireField { tag: 40, value: WireValue::Varint(varint_of_i64(x)) }],
            None => Seq::<WireField>::empty(),
        }) + ((match m.commit_position {
            Some(x) => seq![WireField { tag: 48, value: WireValue::Varint(varint_of_i64(x)) }],
            None => Seq::<WireField>::empty(),
        }))),
    );
    lemma_encode_fields_append(
        (seq![WireField { tag: 32, value: WireValue::Varint(varint_of_i32(m.last_event_number)) }]),
        (match m.prepare_position {
            Some(x) => seq![WireField { tag: 40, value: WireValue::Varint(varint_of_i64(x)) }],
            None => Seq::<WireField>::empty(),
        }) + ((match m.commit_position {
            Some(x) => seq![WireField { tag: 48, value: WireValue::Varint(varint_of_i64(x)) }],
            None => Seq::<WireField>::empty(),
        })),
    );
    lemma_encode_fields_append(
        (match m.prepare_position {
            Some(x) => seq![WireField { tag: 40, value: WireValue::Varint(varint_of_i64(x)) }],
            None => Seq::<WireField>::empty(),
        }),
        (match m.commit_position {
            Some(x) => seq![WireField { tag: 48, value: WireValue::Varint(varint_of_i64(x)) }],
            None => Seq::<WireField>::empty(),
        }),
    );
    if let Some(x) = m.result {
        lemma_varint_field_layout(8, varint_of_i32(x.to_i32_spec()));
    }
    if let Some(x) = m.message {
        lemma_bytes_field_layout(18, encode_utf8(x));
    }
    lemma_varint_field_layout(24, varint_of_i32(m.first_event_number));
    lemma_varint_field_layout(32, varint_of_i32(m.last_event_number));
    if let Some(x) = m.prepare_position {
        lemma_varint_field_layout(40, varint_of_i64(x));
    }
    if let Some(x) = m.commit_position {
        lemma_varint_field_layout(48, varint_of_i64(x));
    }
}

/// Reading a written `WriteEventsCompleted` gives it back.
pub proof fn lemma_write_events_completed_roundtrip(m: WriteEventsCompletedModel)
    requires
        write_events_completed_wf(m),
    ensures
        write_events_completed_decode(write_events_completed_encode(m)) == Some(m),
{
    let ap = write_events_completed_applier();
    lemma_write_events_completed_fields_tagged(m);
    lemma_fields_canonical_of_short(write_events_completed_fields(m));
    lemma_decode_encoded_fields(write_events_completed_fields(m), write_events_completed_default(), ap, write_events_completed_known());
    let a0 = write_events_completed_default();
    let a1 = WriteEventsCompletedModel { result: m.result, ..a0 };
    lemma_apply_fields_append(
        (match m.result {
            Some(x) => seq![WireField { tag: 8, value: WireValue::Varint(varint_of_i32(x.to_i32_spec())) }],
            None => Seq::<WireField>::empty(),
        }),
        (match m.message {
            Some(x) => seq![WireField { tag: 18, value: WireValue::Bytes(encode_utf8(x)) }],
            None => Seq::<WireField>::empty(),
        }) + ((seq![WireField { tag: 24, value: WireValue::Varint(varint_of_i32(m.first_event_number)) }]) + ((seq![WireField { tag: 32, value: WireValue::Varint(varint_of_i32(m.last_event_number)) }]) + ((match m.prepare_position {
            Some(x) => seq![WireField { tag: 40, value: WireValue::Varint(varint_of_i64(x)) }],
            None => Seq::<WireField>::empty(),
        }) + ((match m.commit_position {
            Some(x) => seq![WireField { tag: 48, value: WireValue::Varint(varint_of_i64(x)) }],
            None => Seq::<WireField>::empty(),
        }))))),
        a0,
        ap,
    );
    assert(apply_fields((match m.result {
        Some(x) => seq![WireField { tag: 8, value: WireValue::Varint(varint_of_i32(x.to_i32_spec())) }],
        None => Seq::<WireField>::empty(),
    }), a0, ap) == Some(a1)) by {
        reveal_with_fuel(apply_fields, 2);
        if let Some(x) = m.result {
            lemma_scalar_roundtrips(x.to_i32_spec(), 0, false);
            x.lemma_i32_roundtrip();
        }
    }
    let a2 = WriteEventsCompletedModel { message: m.message, ..a1 };
    lemma_apply_fields_append(
        (match m.message {
            Some(x) => seq![WireField { tag: 18, value: WireValue::Bytes(encode_utf8(x)) }],
            None => Seq::<WireField>::empty(),
        }),
        (seq![WireField { tag: 24, value: WireValue::Varint(varint_of_i32(m.first_event_number)) }]) + ((seq![WireField { tag: 32, value: WireValue::Varint(varint_of_i32(m.last_event_number)) }]) + ((match m.prepare_position {
            Some(x) => seq![WireField { tag: 40, value: WireValue::Varint(varint_of_i64(x)) }],
            None => Seq::<WireField>::empty(),
        }) + ((match m.commit_position {
            Some(x) => seq![WireField { tag: 48, value: WireValue::Varint(varint_of_i64(x)) }],
            None => Seq::<WireField>::empty(),
        })))),
        a1,
        ap,
    );
    assert(apply_fields((match m.message {
        Some(x) => seq![WireField { tag: 18, value: WireValue::Bytes(encode_utf8(x)) }],
        None => Seq::<WireField>::empty(),
    }), a1, ap) == Some(a2)) by {
        reveal_with_fuel(apply_fields, 2);
        if let Some(x) = m.message {
            lemma_string_roundtrip(x);
        }
    }
    let a3 = WriteEventsCompletedModel { first_event_number: m.first_event_number, ..a2 };
    lemma_apply_fields_append(
        (seq![WireField { tag: 24, value: WireValue::Varint(varint_of_i32(m.first_event_number)) }]),
        (seq![WireField { tag: 32, value: WireValue::Varint(varint_of_i32(m.last_event_number)) }]) + ((match m.prepare_position {
            Some(x) => seq![WireField { tag: 40, value: WireValue::Varint(varint_of_i64(x)) }],
            None => Seq::<WireField>::empty(),
        }) + ((match m.commit_position {
            Some(x) => seq![WireField { tag: 48, value: WireValue::Varint(varint_of_i64(x)) }],
            None => Seq::<WireField>::empty(),
        }))),
        a2,
        ap,
    );
    assert(apply_fields((seq![WireField { tag: 24, value: WireValue::Varint(varint_of_i32(m.first_event_number)) }]), a2, ap) == Some(a3)) by {
        reveal_with_fuel(apply_fields, 2);
        lemma_scalar_roundtrips(m.first_event_number, 0, false);
    }
    let a4 = WriteEventsCompletedModel { last_event_number: m.last_event_number, ..a3 };
    lemma_apply_fields_append(
        (seq![WireField { tag: 32, value: WireValue::Varint(varint_of_i32(m.last_event_number)) }]),
        (match m.prepare_position {
            Some(x) => seq![WireField { tag: 40, value: WireValue::Varint(varint_of_i64(x)) }],
            None => Seq::<WireField>::empty(),
        }) + ((match m.commit_position {
            Some(x) => seq![WireField { tag: 48, value: WireValue::Varint(varint_of_i64(x)) }],
            None => Seq::<WireField>::empty(),
        })),
        a3,
        ap,
    );
    assert(apply_fields((seq![WireField { tag: 32, value: WireValue::Varint(varint_of_i32(m.last_event_number)) }]), a3, ap) == Some(a4)) by {
        reveal_with_fuel(apply_fields, 2);
        lemma_scalar_roundtrips(m.last_event_number, 0, false);
    }
    let a5 = WriteEventsCompletedModel { prepare_position: m.prepare_position, ..a4 };
    lemma_apply_fields_append(
        (match m.prepare_position {
            Some(x) => seq![WireField { tag: 40, value: WireValue::Varint(varint_of_i64(x)) }],
            None => Seq::<WireField>::empty(),
        }),
        (match m.commit_position {
            Some(x) => seq![WireField { tag: 48, value: WireValue::Varint(varint_of_i64(x)) }],
            None => Seq::<WireField>::empty(),
        }),
        a4,
        ap,
    );
    assert(apply_fields((match m.prepare_position {
        Some(x) => seq![WireField { tag: 40, value: WireValue::Varint(varint_of_i64(x)) }],
        None => Seq::<WireField>::empty(),
    }), a4, ap) == Some(a5)) by {
        reveal_with_fuel(apply_fields, 2);
        if let Some(x) = m.prepare_position {
            lemma_scalar_roundtrips(0, x, false);
        }
    }
    let a6 = WriteEventsCompletedModel { commit_position: m.commit_position, ..a5 };
    assert(apply_fields((match m.commit_position {
        Some(x) => seq![WireField { tag: 48, value: WireValue::Varint(varint_of_i64(x)) }],
        None => Seq::<WireField>::empty(),
    }), a5, ap) == Some(a6)) by {
        reveal_with_fuel(apply_fields, 2);
        if let Some(x) = m.commit_position {
            lemma_scalar_roundtrips(0, x, false);
        }
    }
    assert(a6 == m);
}

impl WriteEventsCompleted {
    /// Decodes a `WriteEventsCompleted` from its protobuf bytes.
    pub fn from_reader(bytes: &[u8]) -> (res: Option<WriteEventsCompleted>)
        ensures
            write_events_completed_decode(bytes@) matches Some(m) ==> (res matches Some(e) && e@ == m),
            write_events_completed_decode(bytes@) is None ==> res is None,
    {
        let mut msg = WriteEventsCompleted::default_value();
        let mut pos: usize = 0;
        assert(bytes@.skip(0) =~= bytes@);
        while pos < bytes.len()
            invariant
                pos <= bytes@.len(),
                write_events_completed_decode(bytes@) == decode_fields(bytes@.skip(pos as int), msg@, write_events_completed_applier(), write_events_completed_known()),
            decreases bytes@.len() - pos,
        {
            let ghost old_msg = msg@;
            let (tag, p) = match read_tag(bytes, pos) {
                Some(x) => x,
                None => {
                    return None;
                },
            };
            proof {
                lemma_field_parts(bytes@, pos as int, write_events_completed_known());
            }
            let known: bool = tag == 8 || tag == 18 || tag == 24 || tag == 32 || tag == 40 || tag == 48;
            let (value, next) = match read_value(bytes, p, tag, known) {
                Some(x) => x,
                None => {
                    return None;
                },
            };
            let ghost f = parse_field(bytes@.skip(pos as int), write_events_completed_known()).unwrap().0;
            proof {
                lemma_decode_step(bytes@, pos as int, old_msg, write_events_completed_applier(), write_events_completed_known());
                lemma_parse_field_len(bytes@.skip(pos as int), write_events_completed_known());
            }
            if tag == 8 {
                match value {
                    FieldValue::Varint(v) => {
                        msg.result = Some(OperationResult::from_i32(varint_i32(v)));
                    },
                    _ => {
                        return None;
                    },
                }
            } else if tag == 18 {
                match value {
                    FieldValue::Bytes(i, j) => match copy_string(bytes, i, j) {
                        Some(s) => {
                            msg.message = Some(s);
                        },
                        None => {
                            return None;
                        },
                    },
                    _ => {
                        return None;
                    },
                }
            } else if tag == 24 {
                match value {
                    FieldValue::Varint(v) => {
                        msg.first_event_number = varint_i32(v);
                    },
                    _ => {
                        return None;
                    },
                }
            } else if tag == 32 {
                match value {
                    FieldValue::Varint(v) => {
                        msg.last_event_number = varint_i32(v);
                    },
                    _ => {
                        return None;
                    },
                }
            } else if tag == 40 {
                match value {
                    FieldValue::Varint(v) => {
                        msg.prepare_position = Some(varint_i64(v));
                    },
                    _ => {
                        return None;
                    },
                }
            } else if tag == 48 {
                match value {
                    FieldValue::Varint(v) => {
                        msg.commit_position = Some(varint_i64(v));
                    },
                    _ => {
                        return None;
                    },
                }
            }
            assert(write_events_completed_apply(old_msg, f) == Some(msg@));
            pos = next;
        }
        assert(bytes@.skip(pos as int).len() == 0);
        Some(msg)
    }

    /// A `WriteEventsCompleted` with every field at its default.
    pub fn default_value() -> (m: WriteEventsCompleted)
        ensures
            m@ == write_events_completed_default(),
    {
        let m = WriteEventsCompleted {
            result: None,
            message: None,
            first_event_number: 0,
            last_event_number: 0,
            prepare_position: None,
            commit_position: None,
        };
        m
    }

    /// A copy of this `WriteEventsCompleted`.
    pub fn copy(&self) -> (c: WriteEventsCompleted)
        ensures
            c@ == self@,
    {
        let c = WriteEventsCompleted {
            result: self.result,
            message: match &self.message {
                Some(x) => Some(x.clone()),
                None => None,
            },
            first_event_number: self.first_event_number,
            last_event_number: self.last_event_number,
            prepare_position: self.prepare_position,
            commit_position: self.commit_position,
        };
        assert(c@.message =~= self@.message);
        c
    }

    /// Encodes this `WriteEventsCompleted` as protobuf bytes.
    #[verifier::spinoff_prover]
    #[verifier::rlimit(30)]
    pub fn encode(&self) -> (out: Vec<u8>)
        ensures
            out@ == write_events_completed_encode(self@),
            out@.len() < modulus32() ==> write_events_completed_wf(self@),
    {
        let mut out: Vec<u8> = Vec::new();
        let ghost mut fs: Seq<WireField> = Seq::empty();
        match self.result {
            Some(x) => {
                write_varint_field(&mut out, 8, i32_varint(x.to_i32()));
                proof {
                    let f = WireField { tag: 8, value: WireValue::Varint(varint_of_i32(x.to_i32_spec())) };
                    lemma_encode_fields_push(fs, f);
                    lemma_fields_shaped_push(fs, f);
                    fs = fs.push(f);
                }
            },
            None => {},
        }
        match &self.message {
            Some(x) => {
                write_bytes_field(&mut out, 18, x.as_str().as_bytes());
                proof {
                    let f = WireField { tag: 18, value: WireValue::Bytes(encode_utf8(x@)) };
                    lemma_encode_fields_push(fs, f);
                    lemma_fields_shaped_push(fs, f);
                    fs = fs.push(f);
                }
            },
            None => {},
        }
        write_varint_field(&mut out, 24, i32_varint(self.first_event_number));
        proof {
            let f = WireField { tag: 24, value: WireValue::Varint(varint_of_i32(self.first_event_number)) };
            lemma_encode_fields_push(fs, f);
            lemma_fields_shaped_push(fs, f);
            fs = fs.push(f);
        }
        write_varint_field(&mut out, 32, i32_varint(self.last_event_number));
        proof {
            let f = WireField { tag: 32, value: WireValue::Varint(varint_of_i32(self.last_event_number)) };
            lemma_encode_fields_push(fs, f);
            lemma_fields_shaped_push(fs, f);
            fs = fs.push(f);
        }
        match self.prepare_position {
            Some(x) => {
                write_varint_field(&mut out, 40, i64_varint(x));
                proof {
                    let f = WireField { tag: 40, value: WireValue::Varint(varint_of_i64(x)) };
                    lemma_encode_fields_push(fs, f);
                    lemma_fields_shaped_push(fs, f);
                    fs = fs.push(f);
                }
            },
            None => {},
        }
        match self.commit_position {
            Some(x) => {
                write_varint_field(&mut out, 48, i64_varint(x));
                proof {
                    let f = WireField { tag: 48, value: WireValue::Varint(varint_of_i64(x)) };
                    lemma_encode_fields_push(fs, f);
                    lemma_fields_shaped_push(fs, f);
                    fs = fs.push(f);
                }
            },
            None => {},
        }
        assert(fs =~= write_events_completed_fields(self@));
        proof {
            if out@.len() < modulus32() {
                lemma_fields_canonical_of_len(fs);
            }
        }
        out
    }

    /// The number of bytes of the encoding of this `WriteEventsCompleted`, computed without encoding it.
    #[verifier::spinoff_prover]
    #[verifier::rlimit(30)]
    pub fn get_size(&self) -> (n: usize)
        requires
            write_events_completed_encode(self@).len() <= usize::MAX,
        ensures
            n == write_events_completed_encode(self@).len(),
    {
        let ghost m = self@;
        proof {
            lemma_encode_fields_append(
                (match m.result {
                    Some(x) => seq![WireField { tag: 8, value: WireValue::Varint(varint_of_i32(x.to_i32_spec())) }],
                    None => Seq::<WireField>::empty(),
                }),
                (match m.message {
                    Some(x) => seq![WireField { tag: 18, value: WireValue::Bytes(encode_utf8(x)) }],
                    None => Seq::<WireField>::empty(),
                }) + ((seq![WireField { tag: 24, value: WireValue::Varint(varint_of_i32(m.first_event_number)) }]) + ((seq![WireField { tag: 32, value: WireValue::Varint(varint_of_i32(m.last_event_number)) }]) + ((match m.prepare_position {
                    Some(x) => seq![WireField { tag: 40, value: WireValue::Varint(varint_of_i64(x)) }],
                    None => Seq::<WireField>::empty(),
                }) + ((match m.commit_position {
                    Some(x) => seq![WireField { tag: 48, value: WireValue::Varint(varint_of_i64(x)) }],
                    None => Seq::<WireField>::empty(),
                }))))),
            );
            lemma_encode_fields_append(
                (match m.message {
                    Some(x) => seq![WireField { tag: 18, value: WireValue::Bytes(encode_utf8(x)) }],
                    None => Seq::<WireField>::empty(),
                }),
                (seq![WireField { tag: 24, value: WireValue::Varint(varint_of_i32(m.first_event_number)) }]) + ((seq![WireField { tag: 32, value: WireValue::Varint(varint_of_i32(m.last_event_number)) }]) + ((match m.prepare_position {
                    Some(x) => seq![WireField { tag: 40, value: WireValue::Varint(varint_of_i64(x)) }],
                    None => Seq::<WireField>::empty(),
                }) + ((match m.commit_position {
                    Some(x) => seq![WireField { tag: 48, value: WireValue::Varint(varint_of_i64(x)) }],
                    None => Seq::<WireField>::empty(),
                })))),
            );
            lemma_encode_fields_append(
                (seq![WireField { tag: 24, value: WireValue::Varint(varint_of_i32(m.first_event_number)) }]),
                (seq![WireField { tag: 32, value: WireValue::Varint(varint_of_i32(m.last_event_number)) }]) + ((match m.prepare_position {
                    Some(x) => seq![WireField { tag: 40, value: WireValue::Varint(varint_of_i64(x)) }],
                    None => Seq::<WireField>::empty(),
                }) + ((match m.commit_position {
                    Some(x) => seq![WireField { tag: 48, value: WireValue::Varint(varint_of_i64(x)) }],
                    None => Seq::<WireField>::empty(),
                }))),
            );
            lemma_encode_fields_append(
                (seq![WireField { tag: 32, value: WireValue::Varint(varint_of_i32(m.last_event_number)) }]),
                (match m.prepare_position {
                    Some(x) => seq![WireField { tag: 40, value: WireValue::Varint(varint_of_i64(x)) }],
                    None => Seq::<WireField>::empty(),
                }) + ((match m.commit_position {
                    Some(x) => seq![WireField { tag: 48, value: WireValue::Varint(varint_of_i64(x)) }],
                    None => Seq::<WireField>::empty(),
                })),
            );
            lemma_encode_fields_append(
                (match m.prepare_position {
                    Some(x) => seq![WireField { tag: 40, value: WireValue::Varint(varint_of_i64(x)) }],
                    None => Seq::<WireField>::empty(),
                }),
                (match m.commit_position {
                    Some(x) => seq![WireField { tag: 48, value: WireValue::Varint(varint_of_i64(x)) }],
                    None => Seq::<WireField>::empty(),
                }),
            );
        }
        let mut n: usize = 0;
        let s5: usize = match self.commit_position {
            Some(x) => {
                proof {
                    lemma_encode_fields_one(WireField { tag: 48, value: WireValue::Varint(varint_of_i64(x)) });
                }
                sizeof_varint_field(48, i64_varint(x))
            },
            None => 0,
        };
        n = s5 + n;
        let s4: usize = match self.prepare_position {
            Some(x) => {
                proof {
                    lemma_encode_fields_one(WireField { tag: 40, value: WireValue::Varint(varint_of_i64(x)) });
                }
                sizeof_varint_field(40, i64_varint(x))
            },
            None => 0,
        };
        n = s4 + n;
        let s3: usize = {
            proof {
                lemma_encode_fields_one(WireField { tag: 32, value: WireValue::Varint(varint_of_i32(m.last_event_number)) });
            }
            sizeof_varint_field(32, i32_varint(self.last_event_number))
        };
        n = s3 + n;
        let s2: usize = {
            proof {
                lemma_encode_fields_one(WireField { tag: 24, value: WireValue::Varint(varint_of_i32(m.first_event_number)) });
            }
            sizeof_varint_field(24, i32_varint(self.first_event_number))
        };
        n = s2 + n;
        let s1: usize = match &self.message {
            Some(x) => {
                proof {
                    lemma_encode_fields_one(WireField { tag: 18, value: WireValue::Bytes(encode_utf8(x@)) });
                }
                sizeof_len_field(18, x.as_str().as_bytes().len())
            },
            None => 0,
        };
        n = s1 + n;
        let s0: usize = match self.result {
            Some(x) => {
                proof {
                    lemma_encode_fields_one(WireField { tag: 8, value: WireValue::Varint(varint_of_i32(x.to_i32_spec())) });
                }
                sizeof_varint_field(8, i32_varint(x.to_i32()))
            },
            None => 0,
        };
        n = s0 + n;
        n
    }
}

/// Request to delete a stream.
#[derive(Debug, Clone, PartialEq)]
pub struct DeleteStream {
    /// The stream to delete
    pub event_stream_id: String,
    /// The expected version of the stream
    pub expected_version: i32,
    /// Whether only the master may handle the request
    pub require_master: bool,
    /// Whether to delete the data and not only mark the stream deleted
    pub hard_delete: Option<bool>,
}

/// The contents of a `DeleteStream`.
pub struct DeleteStreamModel {
    pub event_stream_id: Seq<char>,
    pub expected_version: i32,
    pub require_master: bool,
    pub hard_delete: Option<bool>,
}

impl View for DeleteStream {
    type V = DeleteStreamModel;

    open spec fn view(&self) -> DeleteStreamModel {
        DeleteStreamModel {
            event_stream_id: self.event_stream_id@,
            expected_version: self.expected_version,
            require_master: self.require_master,
            hard_delete: self.hard_delete,
        }
    }
}

/// A `DeleteStream` with every field at its default.
pub open spec fn delete_stream_default() -> DeleteStreamModel {
    DeleteStreamModel {
        event_stream_id: Seq::empty(),
        expected_version: 0,
        require_master: false,
        hard_delete: None,
    }
}

/// Folds one field into a `DeleteStream`; fields of unknown tags are skipped.
pub open spec fn delete_stream_apply(m: DeleteStreamModel, f: WireField) -> Option<DeleteStreamModel> {
    if f.tag == 10 {
        match f.value {
            WireValue::Bytes(b) => match string_of(b) {
                Some(s) => Some(DeleteStreamModel { event_stream_id: s, ..m }),
                None => None,
            },
            _ => None,
        }
    } else {
        if f.tag == 16 {
            match f.value {
                WireValue::Varint(v) => Some(DeleteStreamModel { expected_version: i32_of_varint(v), ..m }),
                _ => None,
            }
        } else {
            if f.tag == 24 {
                match f.value {
                    WireValue::Varint(v) => Some(DeleteStreamModel { require_master: bool_of_varint(v), ..m }),
                    _ => None,
                }
            } else {
                if f.tag == 32 {
                    match f.value {
                        WireValue::Varint(v) => Some(DeleteStreamModel { hard_delete: Some(bool_of_varint(v)), ..m }),
                        _ => None,
                    }
                } else {
                    Some(m)
                }
            }
        }
    }
}

/// `delete_stream_apply` as a value.
pub open spec fn delete_stream_applier() -> spec_fn(DeleteStreamModel, WireField) -> Option<DeleteStreamModel> {
    |m: DeleteStreamModel, f: WireField| delete_stream_apply(m, f)
}

/// The tags of the fields that a `DeleteStream` reads; the others are skipped.
pub open spec fn delete_stream_known() -> spec_fn(u32) -> bool {
    |t: u32| t == 10 || t == 16 || t == 24 || t == 32
}

/// The `DeleteStream` that `bytes` encode, if they encode one.
pub open spec fn delete_stream_decode(bytes: Seq<u8>) -> Option<DeleteStreamModel> {
    decode_fields(bytes, delete_stream_default(), delete_stream_applier(), delete_stream_known())
}

/// The fields that encode a `DeleteStream`, in the order they are written.
pub open spec fn delete_stream_fields(m: DeleteStreamModel) -> Seq<WireField> {
    (seq![WireField { tag: 10, value: WireValue::Bytes(encode_utf8(m.event_stream_id)) }]) + ((seq![WireField { tag: 16, value: WireValue::Varint(varint_of_i32(m.expected_version)) }]) + ((seq![WireField { tag: 24, value: WireValue::Varint(varint_of_bool(m.require_master)) }]) + ((match m.hard_delete {
        Some(x) => seq![WireField { tag: 32, value: WireValue::Varint(varint_of_bool(x)) }],
        None => Seq::<WireField>::empty(),
    }))))
}

/// The encoding of a `DeleteStream`.
pub open spec fn delete_stream_encode(m: DeleteStreamModel) -> Seq<u8> {
    encode_fields(delete_stream_fields(m))
}

/// A `DeleteStream` that reads back as written: every length-delimited field, those of the
/// embedded messages included, holds fewer than 2^32 bytes.
pub open spec fn delete_stream_wf(m: DeleteStreamModel) -> bool {
    fields_short(delete_stream_fields(m))
}

/// The fields of a `DeleteStream` carry the wire types of their payloads.
pub proof fn lemma_delete_stream_fields_tagged(m: DeleteStreamModel)
    ensures
        fields_tagged(delete_stream_fields(m)),
{
    assert(fields_tagged((match m.hard_delete {
        Some(x) => seq![WireField { tag: 32, value: WireValue::Varint(varint_of_bool(x)) }],
        None => Seq::<WireField>::empty(),
    })));
    assert(fields_tagged((seq![WireField { tag: 24, value: WireValue::Varint(varint_of_bool(m.require_master)) }])));
    lemma_fields_tagged_append(
        (seq![WireField { tag: 24, value: WireValue::Varint(varint_of_bool(m.require_master)) }]),
        (match m.hard_delete {
            Some(x) => seq![WireField { tag: 32, value: WireValue::Varint(varint_of_bool(x)) }],
            None => Seq::<WireField>::empty(),
        }),
    );
    assert(fields_tagged((seq![WireField { tag: 16, value: WireValue::Varint(varint_of_i32(m.expected_version)) }])));
    lemma_fields_tagged_append(
        (seq![WireField { tag: 16, value: WireValue::Varint(varint_of_i32(m.expected_version)) }]),
        (seq![WireField { tag: 24, value: WireValue::Varint(varint_of_bool(m.require_master)) }]) + ((match m.hard_delete {
            Some(x) => seq![WireField { tag: 32, value: WireValue::Varint(varint_of_bool(x)) }],
            None => Seq::<WireField>::empty(),
        })),
    );
    assert(fields_tagged((seq![WireField { tag: 10, value: WireValue::Bytes(encode_utf8(m.event_stream_id)) }])));
    lemma_fields_tagged_append(
        (seq![WireField { tag: 10, value: WireValue::Bytes(encode_utf8(m.event_stream_id)) }]),
        (seq![WireField { tag: 16, value: WireValue::Varint(varint_of_i32(m.expected_version)) }]) + ((seq![WireField { tag: 24, value: WireValue::Varint(varint_of_bool(m.require_master)) }]) + ((match m.hard_delete {
            Some(x) => seq![WireField { tag: 32, value: WireValue::Varint(varint_of_bool(x)) }],
            None => Seq::<WireField>::empty(),
        }))),
    );
}

/// The bytes of an encoded `DeleteStream`: `event_stream_id` under tag 10, `expected_version` under tag 16, `require_master` under tag 24, `hard_delete` under tag 32, in this order; optional fields only
/// when present, repeated ones once per element.
pub proof fn lemma_delete_stream_encode_layout(m: DeleteStreamModel)
    ensures
        delete_stream_encode(m) == (bytes_field_bytes(10, encode_utf8(m.event_stream_id))) + ((varint_field_bytes(16, varint_of_i32(m.expected_version))) + ((varint_field_bytes(24, varint_of_bool(m.require_master))) + (((match m.hard_delete {
            Some(x) => varint_field_bytes(32, varint_of_bool(x)),
            None => Seq::<u8>::empty(),
        }))))),
{
    lemma_encode_fields_append(
        (seq![WireField { tag: 10, value: WireValue::Bytes(encode_utf8(m.event_stream_id)) }]),
        (seq![WireField { tag: 16, value: WireValue::Varint(varint_of_i32(m.expected_version)) }]) + ((seq![WireField { tag: 24, value: WireValue::Varint(varint_of_bool(m.require_master)) }]) + ((match m.hard_delete {
            Some(x) => seq![WireField { tag: 32, value: WireValue::Varint(varint_of_bool(x)) }],
            None => Seq::<WireField>::empty(),
        }))),
    );
    lemma_encode_fields_append(
        (seq![WireField { tag: 16, value: WireValue::Varint(varint_of_i32(m.expected_version)) }]),
        (seq![WireField { tag: 24, value: WireValue::Varint(varint_of_bool(m.require_master)) }]) + ((match m.hard_delete {
            Some(x) => seq![WireField { tag: 32, value: WireValue::Varint(varint_of_bool(x)) }],
            None => Seq::<WireField>::empty(),
        })),
    );
    lemma_encode_fields_append(
        (seq![WireField { tag: 24, value: WireValue::Varint(varint_of_bool(m.require_master)) }]),
        (match m.hard_delete {
            Some(x) => seq![WireField { tag: 32, value: WireValue::Varint(varint_of_bool(x)) }],
            None => Seq::<WireField>::empty(),
        }),
    );
    lemma_bytes_field_layout(10, encode_utf8(m.event_stream_id));
    lemma_varint_field_layout(16, varint_of_i32(m.expected_version));
    lemma_varint_field_layout(24, varint_of_bool(m.require_master));
    if let Some(x) = m.hard_delete {
        lemma_varint_field_layout(32, varint_of_bool(x));
    }
}

/// Reading a written `DeleteStream` gives it back.
pub proof fn lemma_delete_stream_roundtrip(m: DeleteStreamModel)
    requires
        delete_stream_wf(m),
    ensures
        delete_stream_decode(delete_stream_encode(m)) == Some(m),
{
    let ap = delete_stream_applier();
    lemma_delete_stream_fields_tagged(m);
    lemma_fields_canonical_of_short(delete_stream_fields(m));
    lemma_decode_encoded_fields(delete_stream_fields(m), delete_stream_default(), ap, delete_stream_known());
    let a0 = delete_stream_default();
    let a1 = DeleteStreamModel { event_stream_id: m.event_stream_id, ..a0 };
    lemma_apply_fields_append(
        (seq![WireField { tag: 10, value: WireValue::Bytes(encode_utf8(m.event_stream_id)) }]),
        (seq![WireField { tag: 16, value: WireValue::Varint(varint_of_i32(m.expected_version)) }]) + ((seq![WireField { tag: 24, value: WireValue::Varint(varint_of_bool(m.require_master)) }]) + ((match m.hard_delete {
            Some(x) => seq![WireField { tag: 32, value: WireValue::Varint(varint_of_bool(x)) }],
            None => Seq::<WireField>::empty(),
        }))),
        a0,
        ap,
    );
    assert(apply_fields((seq![WireField { tag: 10, value: WireValue::Bytes(encode_utf8(m.event_stream_id)) }]), a0, ap) == Some(a1)) by {
        reveal_with_fuel(apply_fields, 2);
        lemma_string_roundtrip(m.event_stream_id);
    }
    let a2 = DeleteStreamModel { expected_version: m.expected_version, ..a1 };
    lemma_apply_fields_append(
        (seq![WireField { tag: 16, value: WireValue::Varint(varint_of_i32(m.expected_version)) }]),
        (seq![WireField { tag: 24, value: WireValue::Varint(varint_of_bool(m.require_master)) }]) + ((match m.hard_delete {
            Some(x) => seq![WireField { tag: 32, value: WireValue::Varint(varint_of_bool(x)) }],
            None => Seq::<WireField>::empty(),
        })),
        a1,
        ap,
    );
    assert(apply_fields((seq![WireField { tag: 16, value: WireValue::Varint(varint_of_i32(m.expected_version)) }]), a1, ap) == Some(a2)) by {
        reveal_with_fuel(apply_fields, 2);
        lemma_scalar_roundtrips(m.expected_version, 0, false);
    }
    let a3 = DeleteStreamModel { require_master: m.require_master, ..a2 };
    lemma_apply_fields_append(
        (seq![WireField { tag: 24, value: WireValue::Varint(varint_of_bool(m.require_master)) }]),
        (match m.hard_delete {
            Some(x) => seq![WireField { tag: 32, value: WireValue::Varint(varint_of_bool(x)) }],
            None => Seq::<WireField>::empty(),
        }),
        a2,
        ap,
    );
    assert(apply_fields((seq![WireField { tag: 24, value: WireValue::Varint(varint_of_bool(m.require_master)) }]), a2, ap) == Some(a3)) by {
        reveal_with_fuel(apply_fields, 2);
        lemma_scalar_roundtrips(0, 0, m.require_master);
    }
    let a4 = DeleteStreamModel { hard_delete: m.hard_delete, ..a3 };
    assert(apply_fields((match m.hard_delete {
        Some(x) => seq![WireField { tag: 32, value: WireValue::Varint(varint_of_bool(x)) }],
        None => Seq::<WireField>::empty(),
    }), a3, ap) == Some(a4)) by {
        reveal_with_fuel(apply_fields, 2);
        if let Some(x) = m.hard_delete {
            lemma_scalar_roundtrips(0, 0, x);
        }
    }
    assert(a4 == m);
}

impl DeleteStream {
    /// Decodes a `DeleteStream` from its protobuf bytes.
    pub fn from_reader(bytes: &[u8]) -> (res: Option<DeleteStream>)
        ensures
            delete_stream_decode(bytes@) matches Some(m) ==> (res matches Some(e) && e@ == m),
            delete_stream_decode(bytes@) is None ==> res is None,
    {
        let mut msg = DeleteStream::default_value();
        let mut pos: usize = 0;
        assert(bytes@.skip(0) =~= bytes@);
        while pos < bytes.len()
            invariant
                pos <= bytes@.len(),
                delete_stream_decode(bytes@) == decode_fields(bytes@.skip(pos as int), msg@, delete_stream_applier(), delete_stream_known()),
            decreases bytes@.len() - pos,
        {
            let ghost old_msg = msg@;
            let (tag, p) = match read_tag(bytes, pos) {
                Some(x) => x,
                None => {
                    return None;
                },
            };
            proof {
                lemma_field_parts(bytes@, pos as int, delete_stream_known());
            }
            let known: bool = tag == 10 || tag == 16 || tag == 24 || tag == 32;
            let (value, next) = match read_value(bytes, p, tag, known) {
                Some(x) => x,
                None => {
                    return None;
                },
            };
            let ghost f = parse_field(bytes@.skip(pos as int), delete_stream_known()).unwrap().0;
            proof {
                lemma_decode_step(bytes@, pos as int, old_msg, delete_stream_applier(), delete_stream_known());
                lemma_parse_field_len(bytes@.skip(pos as int), delete_stream_known());
            }
            if tag == 10 {
                match value {
                    FieldValue::Bytes(i, j) => match copy_string(bytes, i, j) {
                        Some(s) => {
                            msg.event_stream_id = s;
                        },
                        None => {
                            return None;
                        },
                    },
                    _ => {
                        return None;
                    },
                }
            } else if tag == 16 {
                match value {
                    FieldValue::Varint(v) => {
                        msg.expected_version = varint_i32(v);
                    },
                    _ => {
                        return None;
                    },
                }
            } else if tag == 24 {
                match value {
                    FieldValue::Varint(v) => {
                        msg.require_master = varint_bool(v);
                    },
                    _ => {
                        return None;
                    },
                }
            } else if tag == 32 {
                match value {
                    FieldValue::Varint(v) => {
                        msg.hard_delete = Some(varint_bool(v));
                    },
                    _ => {
                        return None;
                    },
                }
            }
            assert(delete_stream_apply(old_msg, f) == Some(msg@));
            pos = next;
        }
        assert(bytes@.skip(pos as int).len() == 0);
        Some(msg)
    }

    /// A `DeleteStream` with every field at its default.
    pub fn default_value() -> (m: DeleteStream)
        ensures
            m@ == delete_stream_default(),
    {
        let m = DeleteStream {
            event_stream_id: String::new(),
            expected_version: 0,
            require_master: false,
            hard_delete: None,
        };
        m
    }

    /// A copy of this `DeleteStream`.
    pub fn copy(&self) -> (c: DeleteStream)
        ensures
            c@ == self@,
    {
        let c = DeleteStream {
            event_stream_id: self.event_stream_id.clone(),
            expected_version: self.expected_version,
            require_master: self.require_master,
            hard_delete: self.hard_delete,
        };
        assert(c@.event_stream_id =~= self@.event_stream_id);
        c
    }

    /// Encodes this `DeleteStream` as protobuf bytes.
    #[verifier::spinoff_prover]
    #[verifier::rlimit(30)]
    pub fn encode(&self) -> (out: Vec<u8>)
        ensures
            out@ == delete_stream_encode(self@),
            out@.len() < modulus32() ==> delete_stream_wf(self@),
    {
        let mut out: Vec<u8> = Vec::new();
        let ghost mut fs: Seq<WireField> = Seq::empty();
        write_bytes_field(&mut out, 10, self.event_stream_id.as_str().as_bytes());
        proof {
            let f = WireField { tag: 10, value: WireValue::Bytes(encode_utf8(self.event_stream_id@)) };
            lemma_encode_fields_push(fs, f);
            lemma_fields_shaped_push(fs, f);
            fs = fs.push(f);
        }
        write_varint_field(&mut out, 16, i32_varint(self.expected_version));
        proof {
            let f = WireField { tag: 16, value: WireValue::Varint(varint_of_i32(self.expected_version)) };
            lemma_encode_fields_push(fs, f);
            lemma_fields_shaped_push(fs, f);
            fs = fs.push(f);
        }
        write_varint_field(&mut out, 24, bool_varint(self.require_master));
        proof {
            let f = WireField { tag: 24, value: WireValue::Varint(varint_of_bool(self.require_master)) };
            lemma_encode_fields_push(fs, f);
            lemma_fields_shaped_push(fs, f);
            fs = fs.push(f);
        }
        match self.hard_delete {
            Some(x) => {
                write_varint_field(&mut out, 32, bool_varint(x));
                proof {
                    let f = WireField { tag: 32, value: WireValue::Varint(varint_of_bool(x)) };
                    lemma_encode_fields_push(fs, f);
                    lemma_fields_shaped_push(fs, f);
                    fs = fs.push(f);
                }
            },
            None => {},
        }
        assert(fs =~= delete_stream_fields(self@));
        proof {
            if out@.len() < modulus32() {
                lemma_fields_canonical_of_len(fs);
            }
        }
        out
    }

    /// The number of bytes of the encoding of this `DeleteStream`, computed without encoding it.
    #[verifier::spinoff_prover]
    #[verifier::rlimit(30)]
    pub fn get_size(&self) -> (n: usize)
        requires
            delete_stream_encode(self@).len() <= usize::MAX,
        ensures
            n == delete_stream_encode(self@).len(),
    {
        let ghost m = self@;
        proof {
            lemma_encode_fields_append(
                (seq![WireField { tag: 10, value: WireValue::Bytes(encode_utf8(m.event_stream_id)) }]),
                (seq![WireField { tag: 16, value: WireValue::Varint(varint_of_i32(m.expected_version)) }]) + ((seq![WireField { tag: 24, value: WireValue::Varint(varint_of_bool(m.require_master)) }]) + ((match m.hard_delete {
                    Some(x) => seq![WireField { tag: 32, value: WireValue::Varint(varint_of_bool(x)) }],
                    None => Seq::<WireField>::empty(),
                }))),
            );
            lemma_encode_fields_append(
                (seq![WireField { tag: 16, value: WireValue::Varint(varint_of_i32(m.expected_version)) }]),
                (seq![WireField { tag: 24, value: WireValue::Varint(varint_of_bool(m.require_master)) }]) + ((match m.hard_delete {
                    Some(x) => seq![WireField { tag: 32, value: WireValue::Varint(varint_of_bool(x)) }],
                    None => Seq::<WireField>::empty(),
                })),
            );
            lemma_encode_fields_append(
                (seq![WireField { tag: 24, value: WireValue::Varint(varint_of_bool(m.require_master)) }]),
                (match m.hard_delete {
                    Some(x) => seq![WireField { tag: 32, value: WireValue::Varint(varint_of_bool(x)) }],
                    None => Seq::<WireField>::empty(),
                }),
            );
        }
        let mut n: usize = 0;
        let s3: usize = match self.hard_delete {
            Some(x) => {
                proof {
                    lemma_encode_fields_one(WireField { tag: 32, value: WireValue::Varint(varint_of_bool(x)) });
                }
                sizeof_varint_field(32, bool_varint(x))
            },
            None => 0,
        };
        n = s3 + n;
        let s2: usize = {
            proof {
                lemma_encode_fields_one(WireField { tag: 24, value: WireValue::Varint(varint_of_bool(m.require_master)) });
            }
            sizeof_varint_field(24, bool_varint(self.require_master))
        };
        n = s2 + n;
        let s1: usize = {
            proof {
                lemma_encode_fields_one(WireField { tag: 16, value: WireValue::Varint(varint_of_i32(m.expected_version)) });
            }
            sizeof_varint_field(16, i32_varint(self.expected_version))
        };
        n = s1 + n;
        let s0: usize = {
            proof {
                lemma_encode_fields_one(WireField { tag: 10, value: WireValue::Bytes(encode_utf8(m.event_stream_id)) });
            }
            sizeof_len_field(10, self.event_stream_id.as_str().as_bytes().len())
        };
        n = s0 + n;
        n
    }
}

/// Response to `DeleteStream`.
#[derive(Debug, Clone, PartialEq)]
pub struct DeleteStreamCompleted {
    /// The outcome
    pub result: Option<OperationResult>,
    /// An explanation
    pub message: Option<String>,
    /// Prepare position of the delete
    pub prepare_position: Option<i64>,
    /// Commit position of the delete
    pub commit_position: Option<i64>,
}

/// The contents of a `DeleteStreamCompleted`.
pub struct DeleteStreamCompletedModel {
    pub result: Option<OperationResult>,
    pub message: Option<Seq<char>>,
    pub prepare_position: Option<i64>,
    pub commit_position: Option<i64>,
}

impl View for DeleteStreamCompleted {
    type V = DeleteStreamCompletedModel;

    open spec fn view(&self) -> DeleteStreamCompletedModel {
        DeleteStreamCompletedModel {
            result: self.result,
            message: opt_string_view(self.message),
            prepare_position: self.prepare_position,
            commit_position: self.commit_position,
        }
    }
}

/// A `DeleteStreamCompleted` with every field at its default.
pub open spec fn delete_stream_completed_default() -> DeleteStreamCompletedModel {
    DeleteStreamCompletedModel {
        result: None,
        message: None,
        prepare_position: None,
        commit_position: None,
    }
}

/// Folds one field into a `DeleteStreamCompleted`; fields of unknown tags are skipped.
pub open spec fn delete_stream_completed_apply(m: DeleteStreamCompletedModel, f: WireField) -> Option<DeleteStreamCompletedModel> {
    if f.tag == 8 {
        match f.value {
            WireValue::Varint(v) => Some(DeleteStreamCompletedModel { result: Some(OperationResult::from_i32_spec(i32_of_varint(v))), ..m }),
            _ => None,
        }
    } else {
        if f.tag == 18 {
            match f.value {
                WireValue::Bytes(b) => match string_of(b) {
                    Some(s) => Some(DeleteStreamCompletedModel { message: Some(s), ..m }),
                    None => None,
                },
                _ => None,
            }
        } else {
            if f.tag == 24 {
                match f.value {
                    WireValue::Varint(v) => Some(DeleteStreamCompletedModel { prepare_position: Some(i64_of_varint(v)), ..m }),
                    _ => None,
                }
            } else {
                if f.tag == 32 {
                    match f.value {
                        WireValue::Varint(v) => Some(DeleteStreamCompletedModel { commit_position: Some(i64_of_varint(v)), ..m }),
                        _ => None,
                    }
                } else {
                    Some(m)
                }
            }
        }
    }
}

/// `delete_stream_completed_apply` as a value.
pub open spec fn delete_stream_completed_applier() -> spec_fn(DeleteStreamCompletedModel, WireField) -> Option<DeleteStreamCompletedModel> {
    |m: DeleteStreamCompletedModel, f: WireField| delete_stream_completed_apply(m, f)
}

/// The tags of the fields that a `DeleteStreamCompleted` reads; the others are skipped.
pub open spec fn delete_stream_completed_known() -> spec_fn(u32) -> bool {
    |t: u32| t == 8 || t == 18 || t == 24 || t == 32
}

/// The `DeleteStreamCompleted` that `bytes` encode, if they encode one.
pub open spec fn delete_stream_completed_decode(bytes: Seq<u8>) -> Option<DeleteStreamCompletedModel> {
    decode_fields(bytes, delete_stream_completed_default(), delete_stream_completed_applier(), delete_stream_completed_known())
}

/// The fields that encode a `DeleteStreamCompleted`, in the order they are written.
pub open spec fn delete_stream_completed_fields(m: DeleteStreamCompletedModel) -> Seq<WireField> {
    (match m.result {
        Some(x) => seq![WireField { tag: 8, value: WireValue::Varint(varint_of_i32(x.to_i32_spec())) }],
        None => Seq::<WireField>::empty(),
    }) + ((match m.message {
        Some(x) => seq![WireField { tag: 18, value: WireValue::Bytes(encode_utf8(x)) }],
        None => Seq::<WireField>::empty(),
    }) + ((match m.prepare_position {
        Some(x) => seq![WireField { tag: 24, value: WireValue::Varint(varint_of_i64(x)) }],
        None => Seq::<WireField>::empty(),
    }) + ((match m.commit_position {
        Some(x) => seq![WireField { tag: 32, value: WireValue::Varint(varint_of_i64(x)) }],
        None => Seq::<WireField>::empty(),
    }))))
}

/// The encoding of a `DeleteStreamCompleted`.
pub open spec fn delete_stream_completed_encode(m: DeleteStreamCompletedModel) -> Seq<u8> {
    encode_fields(delete_stream_completed_fields(m))
}

/// A `DeleteStreamCompleted` that reads back as written: every length-delimited field, those of the
/// embedded messages included, holds fewer than 2^32 bytes.
pub open spec fn delete_stream_completed_wf(m: DeleteStreamCompletedModel) -> bool {
    fields_short(delete_stream_completed_fields(m))
}

/// The fields of a `DeleteStreamCompleted` carry the wire types of their payloads.
pub proof fn lemma_delete_stream_completed_fields_tagged(m: DeleteStreamCompletedModel)
    ensures
        fields_tagged(delete_stream_completed_fields(m)),
{
    assert(fields_tagged((match m.commit_position {
        Some(x) => seq![WireField { tag: 32, value: WireValue::Varint(varint_of_i64(x)) }],
        None => Seq::<WireField>::empty(),
    })));
    assert(fields_tagged((match m.prepare_position {
        Some(x) => seq![WireField { tag: 24, value: WireValue::Varint(varint_of_i64(x)) }],
        None => Seq::<WireField>::empty(),
    })));
    lemma_fields_tagged_append(
        (match m.prepare_position {
            Some(x) => seq![WireField { tag: 24, value: WireValue::Varint(varint_of_i64(x)) }],
            None => Seq::<WireField>::empty(),
        }),
        (match m.commit_position {
            Some(x) => seq![WireField { tag: 32, value: WireValue::Varint(varint_of_i64(x)) }],
            None => Seq::<WireField>::empty(),
        }),
    );
    assert(fields_tagged((match m.message {
        Some(x) => seq![WireField { tag: 18, value: WireValue::Bytes(encode_utf8(x)) }],
        None => Seq::<WireField>::empty(),
    })));
    lemma_fields_tagged_append(
        (match m.message {
            Some(x) => seq![WireField { tag: 18, value: WireValue::Bytes(encode_utf8(x)) }],
            None => Seq::<WireField>::empty(),
        }),
        (match m.prepare_position {
            Some(x) => seq![WireField { tag: 24, value: WireValue::Varint(varint_of_i64(x)) }],
            None => Seq::<WireField>::empty(),
        }) + ((match m.commit_position {
            Some(x) => seq![WireField { tag: 32, value: WireValue::Varint(varint_of_i64(x)) }],
            None => Seq::<WireField>::empty(),
        })),
    );
    assert(fields_tagged((match m.result {
        Some(x) => seq![WireField { tag: 8, value: WireValue::Varint(varint_of_i32(x.to_i32_spec())) }],
        None => Seq::<WireField>::empty(),
    })));
    lemma_fields_tagged_append(
        (match m.result {
            Some(x) => seq![WireField { tag: 8, value: WireValue::Varint(varint_of_i32(x.to_i32_spec())) }],
            None => Seq::<WireField>::empty(),
        }),
        (match m.message {
            Some(x) => seq![WireField { tag: 18, value: WireValue::Bytes(encode_utf8(x)) }],
            None => Seq::<WireField>::empty(),
        }) + ((match m.prepare_position {
            Some(x) => seq![WireField { tag: 24, value: WireValue::Varint(varint_of_i64(x)) }],
            None => Seq::<WireField>::empty(),
        }) + ((match m.commit_position {
            Some(x) => seq![WireField { tag: 32, value: WireValue::Varint(varint_of_i64(x)) }],
            None => Seq::<WireField>::empty(),
        }))),
    );
}

/// The bytes of an encoded `DeleteStreamCompleted`: `result` under tag 8, `message` under tag 18, `prepare_position` under tag 24, `commit_position` under tag 32, in this order; optional fields only
/// when present, repeated ones once per element.
pub proof fn lemma_delete_stream_completed_encode_layout(m: DeleteStreamCompletedModel)
    ensures
        delete_stream_completed_encode(m) == ((match m.result {
            Some(x) => varint_field_bytes(8, varint_of_i32(x.to_i32_spec())),
            None => Seq::<u8>::empty(),
        })) + (((match m.message {
            Some(x) => bytes_field_bytes(18, encode_utf8(x)),
            None => Seq::<u8>::empty(),
        })) + (((match m.prepare_position {
            Some(x) => varint_field_bytes(24, varint_of_i64(x)),
            None => Seq::<u8>::empty(),
        })) + (((match m.commit_position {
            Some(x) => varint_field_bytes(32, varint_of_i64(x)),
            None => Seq::<u8>::empty(),
        }))))),
{
    lemma_encode_fields_append(
        (match m.result {
            Some(x) => seq![WireField { tag: 8, value: WireValue::Varint(varint_of_i32(x.to_i32_spec())) }],
            None => Seq::<WireField>::empty(),
        }),
        (match m.message {
            Some(x) => seq![WireField { tag: 18, value: WireValue::Bytes(encode_utf8(x)) }],
            None => Seq::<WireField>::empty(),
        }) + ((match m.prepare_position {
            Some(x) => seq![WireField { tag: 24, value: WireValue::Varint(varint_of_i64(x)) }],
            None => Seq::<WireField>::empty(),
        }) + ((match m.commit_position {
            Some(x) => seq![WireField { tag: 32, value: WireValue::Varint(varint_of_i64(x)) }],
            None => Seq::<WireField>::empty(),
        }))),
    );
    lemma_encode_fields_append(
        (match m.message {
            Some(x) => seq![WireField { tag: 18, value: WireValue::Bytes(encode_utf8(x)) }],
            None => Seq::<WireField>::empty(),
        }),
        (match m.prepare_position {
            Some(x) => seq![WireField { tag: 24, value: WireValue::Varint(varint_of_i64(x)) }],
            None => Seq::<WireField>::empty(),
        }) + ((match m.commit_position {
            Some(x) => seq![WireField { tag: 32, value: WireValue::Varint(varint_of_i64(x)) }],
            None => Seq::<WireField>::empty(),
        })),
    );
    lemma_encode_fields_append(
        (match m.prepare_position {
            Some(x) => seq![WireField { tag: 24, value: WireValue::Varint(varint_of_i64(x)) }],
            None => Seq::<WireField>::empty(),
        }),
        (match m.commit_position {
            Some(x) => seq![WireField { tag: 32, value: WireValue::Varint(varint_of_i64(x)) }],
            None => Seq::<WireField>::empty(),
        }),
    );
    if let Some(x) = m.result {
        lemma_varint_field_layout(8, varint_of_i32(x.to_i32_spec()));
    }
    if let Some(x) = m.message {
        lemma_bytes_field_layout(18, encode_utf8(x));
    }
    if let Some(x) = m.prepare_position {
        lemma_varint_field_layout(24, varint_of_i64(x));
    }
    if let Some(x) = m.commit_position {
        lemma_varint_field_layout(32, varint_of_i64(x));
    }
}

/// Reading a written `DeleteStreamCompleted` gives it back.
pub proof fn lemma_delete_stream_completed_roundtrip(m: DeleteStreamCompletedModel)
    requires
        delete_stream_completed_wf(m),
    ensures
        delete_stream_completed_decode(delete_stream_completed_encode(m)) == Some(m),
{
    let ap = delete_stream_completed_applier();
    lemma_delete_stream_completed_fields_tagged(m);
    lemma_fields_canonical_of_short(delete_stream_completed_fields(m));
    lemma_decode_encoded_fields(delete_stream_completed_fields(m), delete_stream_completed_default(), ap, delete_stream_completed_known());
    let a0 = delete_stream_completed_default();
    let a1 = DeleteStreamCompletedModel { result: m.result, ..a0 };
    lemma_apply_fields_append(
        (match m.result {
            Some(x) => seq![WireField { tag: 8, value: WireValue::Varint(varint_of_i32(x.to_i32_spec())) }],
            None => Seq::<WireField>::empty(),
        }),
        (match m.message {
            Some(x) => seq![WireField { tag: 18, value: WireValue::Bytes(encode_utf8(x)) }],
            None => Seq::<WireField>::empty(),
        }) + ((match m.prepare_position {
            Some(x) => seq![WireField { tag: 24, value: WireValue::Varint(varint_of_i64(x)) }],
            None => Seq::<WireField>::empty(),
        }) + ((match m.commit_position {
            Some(x) => seq![WireField { tag: 32, value: WireValue::Varint(varint_of_i64(x)) }],
            None => Seq::<WireField>::empty(),
        }))),
        a0,
        ap,
    );
    assert(apply_fields((match m.result {
        Some(x) => seq![WireField { tag: 8, value: WireValue::Varint(varint_of_i32(x.to_i32_spec())) }],
        None => Seq::<WireField>::empty(),
    }), a0, ap) == Some(a1)) by {
        reveal_with_fuel(apply_fields, 2);
        if let Some(x) = m.result {
            lemma_scalar_roundtrips(x.to_i32_spec(), 0, false);
            x.lemma_i32_roundtrip();
        }
    }
    let a2 = DeleteStreamCompletedModel { message: m.message, ..a1 };
    lemma_apply_fields_append(
        (match m.message {
            Some(x) => seq![WireField { tag: 18, value: WireValue::Bytes(encode_utf8(x)) }],
            None => Seq::<WireField>::empty(),
        }),
        (match m.prepare_position {
            Some(x) => seq![WireField { tag: 24, value: WireValue::Varint(varint_of_i64(x)) }],
            None => Seq::<WireField>::empty(),
        }) + ((match m.commit_position {
            Some(x) => seq![WireField { tag: 32, value: WireValue::Varint(varint_of_i64(x)) }],
            None => Seq::<WireField>::empty(),
        })),
        a1,
        ap,
    );
    assert(apply_fields((match m.message {
        Some(x) => seq![WireField { tag: 18, value: WireValue::Bytes(encode_utf8(x)) }],
        None => Seq::<WireField>::empty(),
    }), a1, ap) == Some(a2)) by {
        reveal_with_fuel(apply_fields, 2);
        if let Some(x) = m.message {
            lemma_string_roundtrip(x);
        }
    }
    let a3 = DeleteStreamCompletedModel { prepare_position: m.prepare_position, ..a2 };
    lemma_apply_fields_append(
        (match m.prepare_position {
            Some(x) => seq![WireField { tag: 24, value: WireValue::Varint(varint_of_i64(x)) }],
            None => Seq::<WireField>::empty(),
        }),
        (match m.commit_position {
            Some(x) => seq![WireField { tag: 32, value: WireValue::Varint(varint_of_i64(x)) }],
            None => Seq::<WireField>::empty(),
        }),
        a2,
        ap,
    );
    assert(apply_fields((match m.prepare_position {
        Some(x) => seq![WireField { tag: 24, value: WireValue::Varint(varint_of_i64(x)) }],
        None => Seq::<WireField>::empty(),
    }), a2, ap) == Some(a3)) by {
        reveal_with_fuel(apply_fields, 2);
        if let Some(x) = m.prepare_position {
            lemma_scalar_roundtrips(0, x, false);
        }
    }
    let a4 = DeleteStreamCompletedModel { commit_position: m.commit_position, ..a3 };
    assert(apply_fields((match m.commit_position {
        Some(x) => seq![WireField { tag: 32, value: WireValue::Varint(varint_of_i64(x)) }],
        None => Seq::<WireField>::empty(),
    }), a3, ap) == Some(a4)) by {
        reveal_with_fuel(apply_fields, 2);
        if let Some(x) = m.commit_position {
            lemma_scalar_roundtrips(0, x, false);
        }
    }
    assert(a4 == m);
}

impl DeleteStreamCompleted {
    /// Decodes a `DeleteStreamCompleted` from its protobuf bytes.
    pub fn from_reader(bytes: &[u8]) -> (res: Option<DeleteStreamCompleted>)
        ensures
            delete_stream_completed_decode(bytes@) matches Some(m) ==> (res matches Some(e) && e@ == m),
            delete_stream_completed_decode(bytes@) is None ==> res is None,
    {
        let mut msg = DeleteStreamCompleted::default_value();
        let mut pos: usize = 0;
        assert(bytes@.skip(0) =~= bytes@);
        while pos < bytes.len()
            invariant
                pos <= bytes@.len(),
                delete_stream_completed_decode(bytes@) == decode_fields(bytes@.skip(pos as int), msg@, delete_stream_completed_applier(), delete_stream_completed_known()),
            decreases bytes@.len() - pos,
        {
            let ghost old_msg = msg@;
            let (tag, p) = match read_tag(bytes, pos) {
                Some(x) => x,
                None => {
                    return None;
                },
            };
            proof {
                lemma_field_parts(bytes@, pos as int, delete_stream_completed_known());
            }
            let known: bool = tag == 8 || tag == 18 || tag == 24 || tag == 32;
            let (value, next) = match read_value(bytes, p, tag, known) {
                Some(x) => x,
                None => {
                    return None;
                },
            };
            let ghost f = parse_field(bytes@.skip(pos as int), delete_stream_completed_known()).unwrap().0;
            proof {
                lemma_decode_step(bytes@, pos as int, old_msg, delete_stream_completed_applier(), delete_stream_completed_known());
                lemma_parse_field_len(bytes@.skip(pos as int), delete_stream_completed_known());
            }
            if tag == 8 {
                match value {
                    FieldValue::Varint(v) => {
                        msg.result = Some(OperationResult::from_i32(varint_i32(v)));
                    },
                    _ => {
                        return None;
                    },
                }
            } else if tag == 18 {
                match value {
                    FieldValue::Bytes(i, j) => match copy_string(bytes, i, j) {
                        Some(s) => {
                            msg.message = Some(s);
                        },
                        None => {
                            return None;
                        },
                    },
                    _ => {
                        return None;
                    },
                }
            } else if tag == 24 {
                match value {
                    FieldValue::Varint(v) => {
                        msg.prepare_position = Some(varint_i64(v));
                    },
                    _ => {
                        return None;
                    },
                }
            } else if tag == 32 {
                match value {
                    FieldValue::Varint(v) => {
                        msg.commit_position = Some(varint_i64(v));
                    },
                    _ => {
                        return None;
                    },
                }
            }
            assert(delete_stream_completed_apply(old_msg, f) == Some(msg@));
            pos = next;
        }
        assert(bytes@.skip(pos as int).len() == 0);
        Some(msg)
    }

    /// A `DeleteStreamCompleted` with every field at its default.
    pub fn default_value() -> (m: DeleteStreamCompleted)
        ensures
            m@ == delete_stream_completed_default(),
    {
        let m = DeleteStreamCompleted {
            result: None,
            message: None,
            prepare_position: None,
            commit_position: None,
        };
        m
    }

    /// A copy of this `DeleteStreamCompleted`.
    pub fn copy(&self) -> (c: DeleteStreamCompleted)
        ensures
            c@ == self@,
    {
        let c = DeleteStreamCompleted {
            result: self.result,
            message: match &self.message {
                Some(x) => Some(x.clone()),
                None => None,
            },
            prepare_position: self.prepare_position,
            commit_position: self.commit_position,
        };
        assert(c@.message =~= self@.message);
        c
    }

    /// Encodes this `DeleteStreamCompleted` as protobuf bytes.
    #[verifier::spinoff_prover]
    #[verifier::rlimit(30)]
    pub fn encode(&self) -> (out: Vec<u8>)
        ensures
            out@ == delete_stream_completed_encode(self@),
            out@.len() < modulus32() ==> delete_stream_completed_wf(self@),
    {
        let mut out: Vec<u8> = Vec::new();
        let ghost mut fs: Seq<WireField> = Seq::empty();
        match self.result {
            Some(x) => {
                write_varint_field(&mut out, 8, i32_varint(x.to_i32()));
                proof {
                    let f = WireField { tag: 8, value: WireValue::Varint(varint_of_i32(x.to_i32_spec())) };
                    lemma_encode_fields_push(fs, f);
                    lemma_fields_shaped_push(fs, f);
                    fs = fs.push(f);
                }
            },
            None => {},
        }
        match &self.message {
            Some(x) => {
                write_bytes_field(&mut out, 18, x.as_str().as_bytes());
                proof {
                    let f = WireField { tag: 18, value: WireValue::Bytes(encode_utf8(x@)) };
                    lemma_encode_fields_push(fs, f);
                    lemma_fields_shaped_push(fs, f);
                    fs = fs.push(f);
                }
            },
            None => {},
        }
        match self.prepare_position {
            Some(x) => {
                write_varint_field(&mut out, 24, i64_varint(x));
                proof {
                    let f = WireField { tag: 24, value: WireValue::Varint(varint_of_i64(x)) };
                    lemma_encode_fields_push(fs, f);
                    lemma_fields_shaped_push(fs, f);
                    fs = fs.push(f);
                }
            },
            None => {},
        }
        match self.commit_position {
            Some(x) => {
                write_varint_field(&mut out, 32, i64_varint(x));
                proof {
                    let f = WireField { tag: 32, value: WireValue::Varint(varint_of_i64(x)) };
                    lemma_encode_fields_push(fs, f);
                    lemma_fields_shaped_push(fs, f);
                    fs = fs.push(f);
                }
            },
            None => {},
        }
        assert(fs =~= delete_stream_completed_fields(self@));
        proof {
            if out@.len() < modulus32() {
                lemma_fields_canonical_of_len(fs);
            }
        }
        out
    }

    /// The number of bytes of the encoding of this `DeleteStreamCompleted`, computed without encoding it.
    #[verifier::spinoff_prover]
    #[verifier::rlimit(30)]
    pub fn get_size(&self) -> (n: usize)
        requires
            delete_stream_completed_encode(self@).len() <= usize::MAX,
        ensures
            n == delete_stream_completed_encode(self@).len(),
    {
        let ghost m = self@;
        proof {
            lemma_encode_fields_append(
                (match m.result {
                    Some(x) => seq![WireField { tag: 8, value: WireValue::Varint(varint_of_i32(x.to_i32_spec())) }],
                    None => Seq::<WireField>::empty(),
                }),
                (match m.message {
                    Some(x) => seq![WireField { tag: 18, value: WireValue::Bytes(encode_utf8(x)) }],
                    None => Seq::<WireField>::empty(),
                }) + ((match m.prepare_position {
                    Some(x) => seq![WireField { tag: 24, value: WireValue::Varint(varint_of_i64(x)) }],
                    None => Seq::<WireField>::empty(),
                }) + ((match m.commit_position {
                    Some(x) => seq![WireField { tag: 32, value: WireValue::Varint(varint_of_i64(x)) }],
                    None => Seq::<WireField>::empty(),
                }))),
            );
            lemma_encode_fields_append(
                (match m.message {
                    Some(x) => seq![WireField { tag: 18, value: WireValue::Bytes(encode_utf8(x)) }],
                    None => Seq::<WireField>::empty(),
                }),
                (match m.prepare_position {
                    Some(x) => seq![WireField { tag: 24, value: WireValue::Varint(varint_of_i64(x)) }],
                    None => Seq::<WireField>::empty(),
                }) + ((match m.commit_position {
                    Some(x) => seq![WireField { tag: 32, value: WireValue::Varint(varint_of_i64(x)) }],
                    None => Seq::<WireField>::empty(),
                })),
            );
            lemma_encode_fields_append(
                (match m.prepare_position {
                    Some(x) => seq![WireField { tag: 24, value: WireValue::Varint(varint_of_i64(x)) }],
                    None => Seq::<WireField>::empty(),
                }),
                (match m.commit_position {
                    Some(x) => seq![WireField { tag: 32, value: WireValue::Varint(varint_of_i64(x)) }],
                    None => Seq::<WireField>::empty(),
                }),
            );
        }
        let mut n: usize = 0;
        let s3: usize = match self.commit_position {
            Some(x) => {
                proof {
                    lemma_encode_fields_one(WireField { tag: 32, value: WireValue::Varint(varint_of_i64(x)) });
                }
                sizeof_varint_field(32, i64_varint(x))
            },
            None => 0,
        };
        n = s3 + n;
        let s2: usize = match self.prepare_position {
            Some(x) => {
                proof {
                    lemma_encode_fields_one(WireField { tag: 24, value: WireValue::Varint(varint_of_i64(x)) });
                }
                sizeof_varint_field(24, i64_varint(x))
            },
            None => 0,
        };
        n = s2 + n;
        let s1: usize = match &self.message {
            Some(x) => {
                proof {
                    lemma_encode_fields_one(WireField { tag: 18, value: WireValue::Bytes(encode_utf8(x@)) });
                }
                sizeof_len_field(18, x.as_str().as_bytes().len())
            },
            None => 0,
        };
        n = s1 + n;
        let s0: usize = match self.result {
            Some(x) => {
                proof {
                    lemma_encode_fields_one(WireField { tag: 8, value: WireValue::Varint(varint_of_i32(x.to_i32_spec())) });
                }
                sizeof_varint_field(8, i32_varint(x.to_i32()))
            },
            None => 0,
        };
        n = s0 + n;
        n
    }
}

} // verus!
