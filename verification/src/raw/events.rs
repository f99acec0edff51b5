//! Protobuf messages that carry events: `NewEvent`, `EventRecord`, `ResolvedIndexedEvent` and `ResolvedEvent`.
use vstd::prelude::*;
use vstd::utf8::encode_utf8;
use vstd::slice::{slice_subrange, slice_to_vec};
use crate::wire::{
    WireField, WireValue, FieldValue, string_of, i32_of_varint, i64_of_varint, varint_of_i32,
    varint_of_i64, decode_fields, encode_fields, apply_fields, lemma_decode_encoded_fields,
    lemma_apply_fields_append, lemma_string_roundtrip, lemma_scalar_roundtrips, parse_field,
    read_tag, read_value, lemma_field_parts, lemma_decode_step, lemma_parse_field_len, copy_bytes,
    copy_string, varint_i32, varint_i64, i32_varint, i64_varint, write_bytes_field,
    write_varint_field, lemma_encode_fields_push, lemma_fields_shaped_push,
    lemma_fields_canonical_of_len, modulus32, lemma_encode_fields_append, lemma_encode_fields_one,
    sizeof_varint_field, sizeof_len_field, fields_short, fields_tagged, lemma_fields_tagged_append,
    lemma_fields_canonical_of_short, varint_field_bytes, bytes_field_bytes,
    lemma_varint_field_layout, lemma_bytes_field_layout,
};

verus! {

/// The view of optional bytes.
pub open spec fn opt_bytes_view(o: Option<Vec<u8>>) -> Option<Seq<u8>> {
    match o {
        Some(v) => Some(v@),
        None => None,
    }
}

/// The view of an optional string.
pub open spec fn opt_string_view(o: Option<String>) -> Option<Seq<char>> {
    match o {
        Some(v) => Some(v@),
        None => None,
    }
}

/// An event to be written, as it stands in `WriteEvents`.
#[derive(Debug, Clone, PartialEq)]
pub struct NewEvent {
    /// The 16 bytes of the event identifier
    pub event_id: Vec<u8>,
    /// The type of the event
    pub event_type: String,
    /// Content type of `data`: 0 for bytes, 1 for JSON
    pub data_content_type: i32,
    /// Content type of `metadata`: 0 for bytes, 1 for JSON
    pub metadata_content_type: i32,
    /// The payload of the event
    pub data: Vec<u8>,
    /// The metadata of the event
    pub metadata: Option<Vec<u8>>,
}

/// The contents of a `NewEvent`.
pub struct NewEventModel {
    pub event_id: Seq<u8>,
    pub event_type: Seq<char>,
    pub data_content_type: i32,
    pub metadata_content_type: i32,
    pub data: Seq<u8>,
    pub metadata: Option<Seq<u8>>,
}

impl View for NewEvent {
    type V = NewEventModel;

    open spec fn view(&self) -> NewEventModel {
        NewEventModel {
            event_id: self.event_id@,
            event_type: self.event_type@,
            data_content_type: self.data_content_type,
            metadata_content_type: self.metadata_content_type,
            data: self.data@,
            metadata: opt_bytes_view(self.metadata),
        }
    }
}

/// A `NewEvent` with every field at its default.
pub open spec fn new_event_default() -> NewEventModel {
    NewEventModel {
        event_id: Seq::empty(),
        event_type: Seq::empty(),
        data_content_type: 0,
        metadata_content_type: 0,
        data: Seq::empty(),
        metadata: None,
    }
}

/// Folds one field into a `NewEvent`; fields of unknown tags are skipped.
pub open spec fn new_event_apply(m: NewEventModel, f: WireField) -> Option<NewEventModel> {
    if f.tag == 10 {
        match f.value {
            WireValue::Bytes(b) => Some(NewEventModel { event_id: b, ..m }),
            _ => None,
        }
    } else {
        if f.tag == 18 {
            match f.value {
                WireValue::Bytes(b) => match string_of(b) {
                    Some(s) => Some(NewEventModel { event_type: s, ..m }),
                    None => None,
                },
                _ => None,
            }
        } else {
            if f.tag == 24 {
                match f.value {
                    WireValue::Varint(v) => Some(NewEventModel { data_content_type: i32_of_varint(v), ..m }),
                    _ => None,
                }
            } else {
                if f.tag == 32 {
                    match f.value {
                        WireValue::Varint(v) => Some(NewEventModel { metadata_content_type: i32_of_varint(v), ..m }),
                        _ => None,
                    }
                } else {
                    if f.tag == 42 {
                        match f.value {
                            WireValue::Bytes(b) => Some(NewEventModel { data: b, ..m }),
                            _ => None,
                        }
                    } else {
                        if f.tag == 50 {
                            match f.value {
                                WireValue::Bytes(b) => Some(NewEventModel { metadata: Some(b), ..m }),
                                _ => None,
                            }
                        } else {
                            Some(m)
                        }
                    }
                }
            }
        }
    }
}

/// `new_event_apply` as a value.
pub open spec fn new_event_applier() -> spec_fn(NewEventModel, WireField) -> Option<NewEventModel> {
    |m: NewEventModel, f: WireField| new_event_apply(m, f)
}

/// The tags of the fields that a `NewEvent` reads; the others are skipped.
pub open spec fn new_event_known() -> spec_fn(u32) -> bool {
    |t: u32| t == 10 || t == 18 || t == 24 || t == 32 || t == 42 || t == 50
}

/// The `NewEvent` that `bytes` encode, if they encode one.
pub open spec fn new_event_decode(bytes: Seq<u8>) -> Option<NewEventModel> {
    decode_fields(bytes, new_event_default(), new_event_applier(), new_event_known())
}

/// The fields that encode a `NewEvent`, in the order they are written.
pub open spec fn new_event_fields(m: NewEventModel) -> Seq<WireField> {
    (seq![WireField { tag: 10, value: WireValue::Bytes(m.event_id) }]) + ((seq![WireField { tag: 18, value: WireValue::Bytes(encode_utf8(m.event_type)) }]) + ((seq![WireField { tag: 24, value: WireValue::Varint(varint_of_i32(m.data_content_type)) }]) + ((seq![WireField { tag: 32, value: WireValue::Varint(varint_of_i32(m.metadata_content_type)) }]) + ((seq![WireField { tag: 42, value: WireValue::Bytes(m.data) }]) + ((match m.metadata {
        Some(x) => seq![WireField { tag: 50, value: WireValue::Bytes(x) }],
        None => Seq::<WireField>::empty(),
    }))))))
}

/// The encoding of a `NewEvent`.
pub open spec fn new_event_encode(m: NewEventModel) -> Seq<u8> {
    encode_fields(new_event_fields(m))
}

/// A `NewEvent` that reads back as written: every length-delimited field, those of the
/// embedded messages included, holds fewer than 2^32 bytes.
pub open spec fn new_event_wf(m: NewEventModel) -> bool {
    fields_short(new_event_fields(m))
}

/// The fields of a `NewEvent` carry the wire types of their payloads.
pub proof fn lemma_new_event_fields_tagged(m: NewEventModel)
    ensures
        fields_tagged(new_event_fields(m)),
{
    assert(fields_tagged((match m.metadata {
        Some(x) => seq![WireField { tag: 50, value: WireValue::Bytes(x) }],
        None => Seq::<WireField>::empty(),
    })));
    assert(fields_tagged((seq![WireField { tag: 42, value: WireValue::Bytes(m.data) }])));
    lemma_fields_tagged_append(
        (seq![WireField { tag: 42, value: WireValue::Bytes(m.data) }]),
        (match m.metadata {
            Some(x) => seq![WireField { tag: 50, value: WireValue::Bytes(x) }],
            None => Seq::<WireField>::empty(),
        }),
    );
    assert(fields_tagged((seq![WireField { tag: 32, value: WireValue::Varint(varint_of_i32(m.metadata_content_type)) }])));
    lemma_fields_tagged_append(
        (seq![WireField { tag: 32, value: WireValue::Varint(varint_of_i32(m.metadata_content_type)) }]),
        (seq![WireField { tag: 42, value: WireValue::Bytes(m.data) }]) + ((match m.metadata {
            Some(x) => seq![WireField { tag: 50, value: WireValue::Bytes(x) }],
            None => Seq::<WireField>::empty(),
        })),
    );
    assert(fields_tagged((seq![WireField { tag: 24, value: WireValue::Varint(varint_of_i32(m.data_content_type)) }])));
    lemma_fields_tagged_append(
        (seq![WireField { tag: 24, value: WireValue::Varint(varint_of_i32(m.data_content_type)) }]),
        (seq![WireField { tag: 32, value: WireValue::Varint(varint_of_i32(m.metadata_content_type)) }]) + ((seq![WireField { tag: 42, value: WireValue::Bytes(m.data) }]) + ((match m.metadata {
            Some(x) => seq![WireField { tag: 50, value: WireValue::Bytes(x) }],
            None => Seq::<WireField>::empty(),
        }))),
    );
    assert(fields_tagged((seq![WireField { tag: 18, value: WireValue::Bytes(encode_utf8(m.event_type)) }])));
    lemma_fields_tagged_append(
        (seq![WireField { tag: 18, value: WireValue::Bytes(encode_utf8(m.event_type)) }]),
        (seq![WireField { tag: 24, value: WireValue::Varint(varint_of_i32(m.data_content_type)) }]) + ((seq![WireField { tag: 32, value: WireValue::Varint(varint_of_i32(m.metadata_content_type)) }]) + ((seq![WireField { tag: 42, value: WireValue::Bytes(m.data) }]) + ((match m.metadata {
            Some(x) => seq![WireField { tag: 50, value: WireValue::Bytes(x) }],
            None => Seq::<WireField>::empty(),
        })))),
    );
    assert(fields_tagged((seq![WireField { tag: 10, value: WireValue::Bytes(m.event_id) }])));
    lemma_fields_tagged_append(
        (seq![WireField { tag: 10, value: WireValue::Bytes(m.event_id) }]),
        (seq![WireField { tag: 18, value: WireValue::Bytes(encode_utf8(m.event_type)) }]) + ((seq![WireField { tag: 24, value: WireValue::Varint(varint_of_i32(m.data_content_type)) }]) + ((seq![WireField { tag: 32, value: WireValue::Varint(varint_of_i32(m.metadata_content_type)) }]) + ((seq![WireField { tag: 42, value: WireValue::Bytes(m.data) }]) + ((match m.metadata {
            Some(x) => seq![WireField { tag: 50, value: WireValue::Bytes(x) }],
            None => Seq::<WireField>::empty(),
        }))))),
    );
}

/// The bytes of an encoded `NewEvent`: `event_id` under tag 10, `event_type` under tag 18, `data_content_type` under tag 24, `metadata_content_type` under tag 32, `data` under tag 42, `metadata` under tag 50, in this order; optional fields only
/// when present, repeated ones once per element.
pub proof fn lemma_new_event_encode_layout(m: NewEventModel)
    ensures
        new_event_encode(m) == (bytes_field_bytes(10, m.event_id)) + ((bytes_field_bytes(18, encode_utf8(m.event_type))) + ((varint_field_bytes(24, varint_of_i32(m.data_content_type))) + ((varint_field_bytes(32, varint_of_i32(m.metadata_content_type))) + ((bytes_field_bytes(42, m.data)) + (((match m.metadata {
            Some(x) => bytes_field_bytes(50, x),
            None => Seq::<u8>::empty(),
        }))))))),
{
    lemma_encode_fields_append(
        (seq![WireField { tag: 10, value: WireValue::Bytes(m.event_id) }]),
        (seq![WireField { tag: 18, value: WireValue::Bytes(encode_utf8(m.event_type)) }]) + ((seq![WireField { tag: 24, value: WireValue::Varint(varint_of_i32(m.data_content_type)) }]) + ((seq![WireField { tag: 32, value: WireValue::Varint(varint_of_i32(m.metadata_content_type)) }]) + ((seq![WireField { tag: 42, value: WireValue::Bytes(m.data) }]) + ((match m.metadata {
            Some(x) => seq![WireField { tag: 50, value: WireValue::Bytes(x) }],
            None => Seq::<WireField>::empty(),
        }))))),
    );
    lemma_encode_fields_append(
        (seq![WireField { tag: 18, value: WireValue::Bytes(encode_utf8(m.event_type)) }]),
        (seq![WireField { tag: 24, value: WireValue::Varint(varint_of_i32(m.data_content_type)) }]) + ((seq![WireField { tag: 32, value: WireValue::Varint(varint_of_i32(m.metadata_content_type)) }]) + ((seq![WireField { tag: 42, value: WireValue::Bytes(m.data) }]) + ((match m.metadata {
            Some(x) => seq![WireField { tag: 50, value: WireValue::Bytes(x) }],
            None => Seq::<WireField>::empty(),
        })))),
    );
    lemma_encode_fields_append(
        (seq![WireField { tag: 24, value: WireValue::Varint(varint_of_i32(m.data_content_type)) }]),
        (seq![WireField { tag: 32, value: WireValue::Varint(varint_of_i32(m.metadata_content_type)) }]) + ((seq![WireField { tag: 42, value: WireValue::Bytes(m.data) }]) + ((match m.metadata {
            Some(x) => seq![WireField { tag: 50, value: WireValue::Bytes(x) }],
            None => Seq::<WireField>::empty(),
        }))),
    );
    lemma_encode_fields_append(
        (seq![WireField { tag: 32, value: WireValue::Varint(varint_of_i32(m.metadata_content_type)) }]),
        (seq![WireField { tag: 42, value: WireValue::Bytes(m.data) }]) + ((match m.metadata {
            Some(x) => seq![WireField { tag: 50, value: WireValue::Bytes(x) }],
            None => Seq::<WireField>::empty(),
        })),
    );
    lemma_encode_fields_append(
        (seq![WireField { tag: 42, value: WireValue::Bytes(m.data) }]),
        (match m.metadata {
            Some(x) => seq![WireField { tag: 50, value: WireValue::Bytes(x) }],
            None => Seq::<WireField>::empty(),
        }),
    );
    lemma_bytes_field_layout(10, m.event_id);
    lemma_bytes_field_layout(18, encode_utf8(m.event_type));
    lemma_varint_field_layout(24, varint_of_i32(m.data_content_type));
    lemma_varint_field_layout(32, varint_of_i32(m.metadata_content_type));
    lemma_bytes_field_layout(42, m.data);
    if let Some(x) = m.metadata {
        lemma_bytes_field_layout(50, x);
    }
}

/// Reading a written `NewEvent` gives it back.
pub proof fn lemma_new_event_roundtrip(m: NewEventModel)
    requires
        new_event_wf(m),
    ensures
        new_event_decode(new_event_encode(m)) == Some(m),
{
    let ap = new_event_applier();
    lemma_new_event_fields_tagged(m);
    lemma_fields_canonical_of_short(new_event_fields(m));
    lemma_decode_encoded_fields(new_event_fields(m), new_event_default(), ap, new_event_known());
    let a0 = new_event_default();
    let a1 = NewEventModel { event_id: m.event_id, ..a0 };
    lemma_apply_fields_append(
        (seq![WireField { tag: 10, value: WireValue::Bytes(m.event_id) }]),
        (seq![WireField { tag: 18, value: WireValue::Bytes(encode_utf8(m.event_type)) }]) + ((seq![WireField { tag: 24, value: WireValue::Varint(varint_of_i32(m.data_content_type)) }]) + ((seq![WireField { tag: 32, value: WireValue::Varint(varint_of_i32(m.metadata_content_type)) }]) + ((seq![WireField { tag: 42, value: WireValue::Bytes(m.data) }]) + ((match m.metadata {
            Some(x) => seq![WireField { tag: 50, value: WireValue::Bytes(x) }],
            None => Seq::<WireField>::empty(),
        }))))),
        a0,
        ap,
    );
    assert(apply_fields((seq![WireField { tag: 10, value: WireValue::Bytes(m.event_id) }]), a0, ap) == Some(a1)) by {
        reveal_with_fuel(apply_fields, 2);
    }
    let a2 = NewEventModel { event_type: m.event_type, ..a1 };
    lemma_apply_fields_append(
        (seq![WireField { tag: 18, value: WireValue::Bytes(encode_utf8(m.event_type)) }]),
        (seq![WireField { tag: 24, value: WireValue::Varint(varint_of_i32(m.data_content_type)) }]) + ((seq![WireField { tag: 32, value: WireValue::Varint(varint_of_i32(m.metadata_content_type)) }]) + ((seq![WireField { tag: 42, value: WireValue::Bytes(m.data) }]) + ((match m.metadata {
            Some(x) => seq![WireField { tag: 50, value: WireValue::Bytes(x) }],
            None => Seq::<WireField>::empty(),
        })))),
        a1,
        ap,
    );
    assert(apply_fields((seq![WireField { tag: 18, value: WireValue::Bytes(encode_utf8(m.event_type)) }]), a1, ap) == Some(a2)) by {
        reveal_with_fuel(apply_fields, 2);
        lemma_string_roundtrip(m.event_type);
    }
    let a3 = NewEventModel { data_content_type: m.data_content_type, ..a2 };
    lemma_apply_fields_append(
        (seq![WireField { tag: 24, value: WireValue::Varint(varint_of_i32(m.data_content_type)) }]),
        (seq![WireField { tag: 32, value: WireValue::Varint(varint_of_i32(m.metadata_content_type)) }]) + ((seq![WireField { tag: 42, value: WireValue::Bytes(m.data) }]) + ((match m.metadata {
            Some(x) => seq![WireField { tag: 50, value: WireValue::Bytes(x) }],
            None => Seq::<WireField>::empty(),
        }))),
        a2,
        ap,
    );
    assert(apply_fields((seq![WireField { tag: 24, value: WireValue::Varint(varint_of_i32(m.data_content_type)) }]), a2, ap) == Some(a3)) by {
        reveal_with_fuel(apply_fields, 2);
        lemma_scalar_roundtrips(m.data_content_type, 0, false);
    }
    let a4 = NewEventModel { metadata_content_type: m.metadata_content_type, ..a3 };
    lemma_apply_fields_append(
        (seq![WireField { tag: 32, value: WireValue::Varint(varint_of_i32(m.metadata_content_type)) }]),
        (seq![WireField { tag: 42, value: WireValue::Bytes(m.data) }]) + ((match m.metadata {
            Some(x) => seq![WireField { tag: 50, value: WireValue::Bytes(x) }],
            None => Seq::<WireField>::empty(),
        })),
        a3,
        ap,
    );
    assert(apply_fields((seq![WireField { tag: 32, value: WireValue::Varint(varint_of_i32(m.metadata_content_type)) }]), a3, ap) == Some(a4)) by {
        reveal_with_fuel(apply_fields, 2);
        lemma_scalar_roundtrips(m.metadata_content_type, 0, false);
    }
    let a5 = NewEventModel { data: m.data, ..a4 };
    lemma_apply_fields_append(
        (seq![WireField { tag: 42, value: WireValue::Bytes(m.data) }]),
        (match m.metadata {
            Some(x) => seq![WireField { tag: 50, value: WireValue::Bytes(x) }],
            None => Seq::<WireField>::empty(),
        }),
        a4,
        ap,
    );
    assert(apply_fields((seq![WireField { tag: 42, value: WireValue::Bytes(m.data) }]), a4, ap) == Some(a5)) by {
        reveal_with_fuel(apply_fields, 2);
    }
    let a6 = NewEventModel { metadata: m.metadata, ..a5 };
    assert(apply_fields((match m.metadata {
        Some(x) => seq![WireField { tag: 50, value: WireValue::Bytes(x) }],
        None => Seq::<WireField>::empty(),
    }), a5, ap) == Some(a6)) by {
        reveal_with_fuel(apply_fields, 2);
        if let Some(x) = m.metadata {
        }
    }
    assert(a6 == m);
}

impl NewEvent {
    /// Decodes a `NewEvent` from its protobuf bytes.
    pub fn from_reader(bytes: &[u8]) -> (res: Option<NewEvent>)
        ensures
            new_event_decode(bytes@) matches Some(m) ==> (res matches Some(e) && e@ == m),
            new_event_decode(bytes@) is None ==> res is None,
    {
        let mut msg = NewEvent::default_value();
        let mut pos: usize = 0;
        assert(bytes@.skip(0) =~= bytes@);
        while pos < bytes.len()
            invariant
                pos <= bytes@.len(),
                new_event_decode(bytes@) == decode_fields(bytes@.skip(pos as int), msg@, new_event_applier(), new_event_known()),
            decreases bytes@.len() - pos,
        {
            let ghost old_msg = msg@;
            let (tag, p) = match read_tag(bytes, pos) {
                Some(x) => x,
                None => {
                    return None;
                },
            };
            proof {
                lemma_field_parts(bytes@, pos as int, new_event_known());
            }
            let known: bool = tag == 10 || tag == 18 || tag == 24 || tag == 32 || tag == 42 || tag == 50;
            let (value, next) = match read_value(bytes, p, tag, known) {
                Some(x) => x,
                None => {
                    return None;
                },
            };
            let ghost f = parse_field(bytes@.skip(pos as int), new_event_known()).unwrap().0;
            proof {
                lemma_decode_step(bytes@, pos as int, old_msg, new_event_applier(), new_event_known());
                lemma_parse_field_len(bytes@.skip(pos as int), new_event_known());
            }
            if tag == 10 {
                match value {
                    FieldValue::Bytes(i, j) => {
                        msg.event_id = copy_bytes(bytes, i, j);
                    },
                    _ => {
                        return None;
                    },
                }
            } else if tag == 18 {
                match value {
                    FieldValue::Bytes(i, j) => match copy_string(bytes, i, j) {
                        Some(s) => {
                            msg.event_type = s;
                        },
                        None => {
                            return None;
                        },
                    },
                    _ => {
                        return None;
                    },
                }
            } else if tag == 24 {
                match value {
                    FieldValue::Varint(v) => {
                        msg.data_content_type = varint_i32(v);
                    },
                    _ => {
                        return None;
                    },
                }
            } else if tag == 32 {
                match value {
                    FieldValue::Varint(v) => {
                        msg.metadata_content_type = varint_i32(v);
                    },
                    _ => {
                        return None;
                    },
                }
            } else if tag == 42 {
                match value {
                    FieldValue::Bytes(i, j) => {
                        msg.data = copy_bytes(bytes, i, j);
                    },
                    _ => {
                        return None;
                    },
                }
            } else if tag == 50 {
                match value {
                    FieldValue::Bytes(i, j) => {
                        msg.metadata = Some(copy_bytes(bytes, i, j));
                    },
                    _ => {
                        return None;
                    },
                }
            }
            assert(new_event_apply(old_msg, f) == Some(msg@));
            pos = next;
        }
        assert(bytes@.skip(pos as int).len() == 0);
        Some(msg)
    }

    /// A `NewEvent` with every field at its default.
    pub fn default_value() -> (m: NewEvent)
        ensures
            m@ == new_event_default(),
    {
        let m = NewEvent {
            event_id: Vec::new(),
            event_type: String::new(),
            data_content_type: 0,
            metadata_content_type: 0,
            data: Vec::new(),
            metadata: None,
        };
        m
    }

    /// A copy of this `NewEvent`.
    pub fn copy(&self) -> (c: NewEvent)
        ensures
            c@ == self@,
    {
        let c = NewEvent {
            event_id: slice_to_vec(self.event_id.as_slice()),
            event_type: self.event_type.clone(),
            data_content_type: self.data_content_type,
            metadata_content_type: self.metadata_content_type,
            data: slice_to_vec(self.data.as_slice()),
            metadata: match &self.metadata {
                Some(x) => Some(slice_to_vec(x.as_slice())),
                None => None,
            },
        };
        assert(c@.event_id =~= self@.event_id);
        assert(c@.event_type =~= self@.event_type);
        assert(c@.data =~= self@.data);
        assert(c@.metadata =~= self@.metadata);
        c
    }

    /// Encodes this `NewEvent` as protobuf bytes.
    #[verifier::spinoff_prover]
    #[verifier::rlimit(30)]
    pub fn encode(&self) -> (out: Vec<u8>)
        ensures
            out@ == new_event_encode(self@),
            out@.len() < modulus32() ==> new_event_wf(self@),
    {
        let mut out: Vec<u8> = Vec::new();
        let ghost mut fs: Seq<WireField> = Seq::empty();
        write_bytes_field(&mut out, 10, self.event_id.as_slice());
        proof {
            let f = WireField { tag: 10, value: WireValue::Bytes(self.event_id@) };
            lemma_encode_fields_push(fs, f);
            lemma_fields_shaped_push(fs, f);
            fs = fs.push(f);
        }
        write_bytes_field(&mut out, 18, self.event_type.as_str().as_bytes());
        proof {
            let f = WireField { tag: 18, value: WireValue::Bytes(encode_utf8(self.event_type@)) };
            lemma_encode_fields_push(fs, f);
            lemma_fields_shaped_push(fs, f);
            fs = fs.push(f);
        }
        write_varint_field(&mut out, 24, i32_varint(self.data_content_type));
        proof {
            let f = WireField { tag: 24, value: WireValue::Varint(varint_of_i32(self.data_content_type)) };
            lemma_encode_fields_push(fs, f);
            lemma_fields_shaped_push(fs, f);
            fs = fs.push(f);
        }
        write_varint_field(&mut out, 32, i32_varint(self.metadata_content_type));
        proof {
            let f = WireField { tag: 32, value: WireValue::Varint(varint_of_i32(self.metadata_content_type)) };
            lemma_encode_fields_push(fs, f);
            lemma_fields_shaped_push(fs, f);
            fs = fs.push(f);
        }
        write_bytes_field(&mut out, 42, self.data.as_slice());
        proof {
            let f = WireField { tag: 42, value: WireValue::Bytes(self.data@) };
            lemma_encode_fields_push(fs, f);
            lemma_fields_shaped_push(fs, f);
            fs = fs.push(f);
        }
        match &self.metadata {
            Some(x) => {
                write_bytes_field(&mut out, 50, x.as_slice());
                proof {
                    let f = WireField { tag: 50, value: WireValue::Bytes(x@) };
                    lemma_encode_fields_push(fs, f);
                    lemma_fields_shaped_push(fs, f);
                    fs = fs.push(f);
                }
            },
            None => {},
        }
        assert(fs =~= new_event_fields(self@));
        proof {
            if out@.len() < modulus32() {
                lemma_fields_canonical_of_len(fs);
            }
        }
        out
    }

    /// The number of bytes of the encoding of this `NewEvent`, computed without encoding it.
    #[verifier::spinoff_prover]
    #[verifier::rlimit(30)]
    pub fn get_size(&self) -> (n: usize)
        requires
            new_event_encode(self@).len() <= usize::MAX,
        ensures
            n == new_event_encode(self@).len(),
    {
        let ghost m = self@;
        proof {
            lemma_encode_fields_append(
                (seq![WireField { tag: 10, value: WireValue::Bytes(m.event_id) }]),
                (seq![WireField { tag: 18, value: WireValue::Bytes(encode_utf8(m.event_type)) }]) + ((seq![WireField { tag: 24, value: WireValue::Varint(varint_of_i32(m.data_content_type)) }]) + ((seq![WireField { tag: 32, value: WireValue::Varint(varint_of_i32(m.metadata_content_type)) }]) + ((seq![WireField { tag: 42, value: WireValue::Bytes(m.data) }]) + ((match m.metadata {
                    Some(x) => seq![WireField { tag: 50, value: WireValue::Bytes(x) }],
                    None => Seq::<WireField>::empty(),
                }))))),
            );
            lemma_encode_fields_append(
                (seq![WireField { tag: 18, value: WireValue::Bytes(encode_utf8(m.event_type)) }]),
                (seq![WireField { tag: 24, value: WireValue::Varint(varint_of_i32(m.data_content_type)) }]) + ((seq![WireField { tag: 32, value: WireValue::Varint(varint_of_i32(m.metadata_content_type)) }]) + ((seq![WireField { tag: 42, value: WireValue::Bytes(m.data) }]) + ((match m.metadata {
                    Some(x) => seq![WireField { tag: 50, value: WireValue::Bytes(x) }],
                    None => Seq::<WireField>::empty(),
                })))),
            );
            lemma_encode_fields_append(
                (seq![WireField { tag: 24, value: WireValue::Varint(varint_of_i32(m.data_content_type)) }]),
                (seq![WireField { tag: 32, value: WireValue::Varint(varint_of_i32(m.metadata_content_type)) }]) + ((seq![WireField { tag: 42, value: WireValue::Bytes(m.data) }]) + ((match m.metadata {
                    Some(x) => seq![WireField { tag: 50, value: WireValue::Bytes(x) }],
                    None => Seq::<WireField>::empty(),
                }))),
            );
            lemma_encode_fields_append(
                (seq![WireField { tag: 32, value: WireValue::Varint(varint_of_i32(m.metadata_content_type)) }]),
                (seq![WireField { tag: 42, value: WireValue::Bytes(m.data) }]) + ((match m.metadata {
                    Some(x) => seq![WireField { tag: 50, value: WireValue::Bytes(x) }],
                    None => Seq::<WireField>::empty(),
                })),
            );
            lemma_encode_fields_append(
                (seq![WireField { tag: 42, value: WireValue::Bytes(m.data) }]),
                (match m.metadata {
                    Some(x) => seq![WireField { tag: 50, value: WireValue::Bytes(x) }],
                    None => Seq::<WireField>::empty(),
                }),
            );
        }
        let mut n: usize = 0;
        let s5: usize = match &self.metadata {
            Some(x) => {
                proof {
                    lemma_encode_fields_one(WireField { tag: 50, value: WireValue::Bytes(x@) });
                }
                sizeof_len_field(50, x.len())
            },
            None => 0,
        };
        n = s5 + n;
        let s4: usize = {
            proof {
                lemma_encode_fields_one(WireField { tag: 42, value: WireValue::Bytes(m.data) });
            }
            sizeof_len_field(42, self.data.len())
        };
        n = s4 + n;
        let s3: usize = {
            proof {
                lemma_encode_fields_one(WireField { tag: 32, value: WireValue::Varint(varint_of_i32(m.metadata_content_type)) });
            }
            sizeof_varint_field(32, i32_varint(self.metadata_content_type))
        };
        n = s3 + n;
        let s2: usize = {
            proof {
                lemma_encode_fields_one(WireField { tag: 24, value: WireValue::Varint(varint_of_i32(m.data_content_type)) });
            }
            sizeof_varint_field(24, i32_varint(self.data_content_type))
        };
        n = s2 + n;
        let s1: usize = {
            proof {
                lemma_encode_fields_one(WireField { tag: 18, value: WireValue::Bytes(encode_utf8(m.event_type)) });
            }
            sizeof_len_field(18, self.event_type.as_str().as_bytes().len())
        };
        n = s1 + n;
        let s0: usize = {
            proof {
                lemma_encode_fields_one(WireField { tag: 10, value: WireValue::Bytes(m.event_id) });
            }
            sizeof_len_field(10, self.event_id.len())
        };
        n = s0 + n;
        n
    }
}

/// A stored event, as the server returns it.
#[derive(Debug, Clone, PartialEq)]
pub struct EventRecord {
    /// The stream of the event
    pub event_stream_id: String,
    /// The number of the event in its stream
    pub event_number: i32,
    /// The 16 bytes of the event identifier
    pub event_id: Vec<u8>,
    /// The type of the event
    pub event_type: String,
    /// Content type of `data`
    pub data_content_type: i32,
    /// Content type of `metadata`
    pub metadata_content_type: i32,
    /// The payload of the event
    pub data: Vec<u8>,
    /// The metadata of the event
    pub metadata: Option<Vec<u8>>,
    /// Creation time
    pub created: Option<i64>,
    /// Creation time in milliseconds since the epoch
    pub created_epoch: Option<i64>,
}

/// The contents of a `EventRecord`.
pub struct EventRecordModel {
    pub event_stream_id: Seq<char>,
    pub event_number: i32,
    pub event_id: Seq<u8>,
    pub event_type: Seq<char>,
    pub data_content_type: i32,
    pub metadata_content_type: i32,
    pub data: Seq<u8>,
    pub metadata: Option<Seq<u8>>,
    pub created: Option<i64>,
    pub created_epoch: Option<i64>,
}

impl View for EventRecord {
    type V = EventRecordModel;

    open spec fn view(&self) -> EventRecordModel {
        EventRecordModel {
            event_stream_id: self.event_stream_id@,
            event_number: self.event_number,
            event_id: self.event_id@,
            event_type: self.event_type@,
            data_content_type: self.data_content_type,
            metadata_content_type: self.metadata_content_type,
            data: self.data@,
            metadata: opt_bytes_view(self.metadata),
            created: self.created,
            created_epoch: self.created_epoch,
        }
    }
}

/// A `EventRecord` with every field at its default.
pub open spec fn event_record_default() -> EventRecordModel {
    EventRecordModel {
        event_stream_id: Seq::empty(),
        event_number: 0,
        event_id: Seq::empty(),
        event_type: Seq::empty(),
        data_content_type: 0,
        metadata_content_type: 0,
        data: Seq::empty(),
        metadata: None,
        created: None,
        created_epoch: None,
    }
}

/// Folds one field into a `EventRecord`; fields of unknown tags are skipped.
pub open spec fn event_record_apply(m: EventRecordModel, f: WireField) -> Option<EventRecordModel> {
    if f.tag == 10 {
        match f.value {
            WireValue::Bytes(b) => match string_of(b) {
                Some(s) => Some(EventRecordModel { event_stream_id: s, ..m }),
                None => None,
            },
            _ => None,
        }
    } else {
        if f.tag == 16 {
            match f.value {
                WireValue::Varint(v) => Some(EventRecordModel { event_number: i32_of_varint(v), ..m }),
                _ => None,
            }
        } else {
            if f.tag == 26 {
                match f.value {
                    WireValue::Bytes(b) => Some(EventRecordModel { event_id: b, ..m }),
                    _ => None,
                }
            } else {
                if f.tag == 34 {
                    match f.value {
                        WireValue::Bytes(b) => match string_of(b) {
                            Some(s) => Some(EventRecordModel { event_type: s, ..m }),
                            None => None,
                        },
                        _ => None,
                    }
                } else {
                    if f.tag == 40 {
                        match f.value {
                            WireValue::Varint(v) => Some(EventRecordModel { data_content_type: i32_of_varint(v), ..m }),
                            _ => None,
                        }
                    } else {
                        if f.tag == 48 {
                            match f.value {
                                WireValue::Varint(v) => Some(EventRecordModel { metadata_content_type: i32_of_varint(v), ..m }),
                                _ => None,
                            }
                        } else {
                            if f.tag == 58 {
                                match f.value {
                                    WireValue::Bytes(b) => Some(EventRecordModel { data: b, ..m }),
                                    _ => None,
                                }
                            } else {
                                if f.tag == 66 {
                                    match f.value {
                                        WireValue::Bytes(b) => Some(EventRecordModel { metadata: Some(b), ..m }),
                                        _ => None,
                                    }
                                } else {
                                    if f.tag == 72 {
                                        match f.value {
                                            WireValue::Varint(v) => Some(EventRecordModel { created: Some(i64_of_varint(v)), ..m }),
                                            _ => None,
                                        }
                                    } else {
                                        if f.tag == 80 {
                                            match f.value {
                                                WireValue::Varint(v) => Some(EventRecordModel { created_epoch: Some(i64_of_varint(v)), ..m }),
                                                _ => None,
                                            }
                                        } else {
                                            Some(m)
                                        }
                                    }
                                }
                            }
                        }
                    }
                }
            }
        }
    }
}

/// `event_record_apply` as a value.
pub open spec fn event_record_applier() -> spec_fn(EventRecordModel, WireField) -> Option<EventRecordModel> {
    |m: EventRecordModel, f: WireField| event_record_apply(m, f)
}

/// The tags of the fields that a `EventRecord` reads; the others are skipped.
pub open spec fn event_record_known() -> spec_fn(u32) -> bool {
    |t: u32| t == 10 || t == 16 || t == 26 || t == 34 || t == 40 || t == 48 || t == 58 || t == 66 || t == 72 || t == 80
}

/// The `EventRecord` that `bytes` encode, if they encode one.
pub open spec fn event_record_decode(bytes: Seq<u8>) -> Option<EventRecordModel> {
    decode_fields(bytes, event_record_default(), event_record_applier(), event_record_known())
}

/// The fields that encode a `EventRecord`, in the order they are written.
pub open spec fn event_record_fields(m: EventRecordModel) -> Seq<WireField> {
    (seq![WireField { tag: 10, value: WireValue::Bytes(encode_utf8(m.event_stream_id)) }]) + ((seq![WireField { tag: 16, value: WireValue::Varint(varint_of_i32(m.event_number)) }]) + ((seq![WireField { tag: 26, value: WireValue::Bytes(m.event_id) }]) + ((seq![WireField { tag: 34, value: WireValue::Bytes(encode_utf8(m.event_type)) }]) + ((seq![WireField { tag: 40, value: WireValue::Varint(varint_of_i32(m.data_content_type)) }]) + ((seq![WireField { tag: 48, value: WireValue::Varint(varint_of_i32(m.metadata_content_type)) }]) + ((seq![WireField { tag: 58, value: WireValue::Bytes(m.data) }]) + ((match m.metadata {
        Some(x) => seq![WireField { tag: 66, value: WireValue::Bytes(x) }],
        None => Seq::<WireField>::empty(),
    }) + ((match m.created {
        Some(x) => seq![WireField { tag: 72, value: WireValue::Varint(varint_of_i64(x)) }],
        None => Seq::<WireField>::empty(),
    }) + ((match m.created_epoch {
        Some(x) => seq![WireField { tag: 80, value: WireValue::Varint(varint_of_i64(x)) }],
        None => Seq::<WireField>::empty(),
    }))))))))))
}

/// The encoding of a `EventRecord`.
pub open spec fn event_record_encode(m: EventRecordModel) -> Seq<u8> {
    encode_fields(event_record_fields(m))
}

/// A `EventRecord` that reads back as written: every length-delimited field, those of the
/// embedded messages included, holds fewer than 2^32 bytes.
pub open spec fn event_record_wf(m: EventRecordModel) -> bool {
    fields_short(event_record_fields(m))
}

/// The fields of a `EventRecord` carry the wire types of their payloads.
pub proof fn lemma_event_record_fields_tagged(m: EventRecordModel)
    ensures
        fields_tagged(event_record_fields(m)),
{
    assert(fields_tagged((match m.created_epoch {
        Some(x) => seq![WireField { tag: 80, value: WireValue::Varint(varint_of_i64(x)) }],
        None => Seq::<WireField>::empty(),
    })));
    assert(fields_tagged((match m.created {
        Some(x) => seq![WireField { tag: 72, value: WireValue::Varint(varint_of_i64(x)) }],
        None => Seq::<WireField>::empty(),
    })));
    lemma_fields_tagged_append(
        (match m.created {
            Some(x) => seq![WireField { tag: 72, value: WireValue::Varint(varint_of_i64(x)) }],
            None => Seq::<WireField>::empty(),
        }),
        (match m.created_epoch {
            Some(x) => seq![WireField { tag: 80, value: WireValue::Varint(varint_of_i64(x)) }],
            None => Seq::<WireField>::empty(),
        }),
    );
    assert(fields_tagged((match m.metadata {
        Some(x) => seq![WireField { tag: 66, value: WireValue::Bytes(x) }],
        None => Seq::<WireField>::empty(),
    })));
    lemma_fields_tagged_append(
        (match m.metadata {
            Some(x) => seq![WireField { tag: 66, value: WireValue::Bytes(x) }],
            None => Seq::<WireField>::empty(),
        }),
        (match m.created {
            Some(x) => seq![WireField { tag: 72, value: WireValue::Varint(varint_of_i64(x)) }],
            None => Seq::<WireField>::empty(),
        }) + ((match m.created_epoch {
            Some(x) => seq![WireField { tag: 80, value: WireValue::Varint(varint_of_i64(x)) }],
            None => Seq::<WireField>::empty(),
        })),
    );
    assert(fields_tagged((seq![WireField { tag: 58, value: WireValue::Bytes(m.data) }])));
    lemma_fields_tagged_append(
        (seq![WireField { tag: 58, value: WireValue::Bytes(m.data) }]),
        (match m.metadata {
            Some(x) => seq![WireField { tag: 66, value: WireValue::Bytes(x) }],
            None => Seq::<WireField>::empty(),
        }) + ((match m.created {
            Some(x) => seq![WireField { tag: 72, value: WireValue::Varint(varint_of_i64(x)) }],
            None => Seq::<WireField>::empty(),
        }) + ((match m.created_epoch {
            Some(x) => seq![WireField { tag: 80, value: WireValue::Varint(varint_of_i64(x)) }],
            None => Seq::<WireField>::empty(),
        }))),
    );
    assert(fields_tagged((seq![WireField { tag: 48, value: WireValue::Varint(varint_of_i32(m.metadata_content_type)) }])));
    lemma_fields_tagged_append(
        (seq![WireField { tag: 48, value: WireValue::Varint(varint_of_i32(m.metadata_content_type)) }]),
        (seq![WireField { tag: 58, value: WireValue::Bytes(m.data) }]) + ((match m.metadata {
            Some(x) => seq![WireField { tag: 66, value: WireValue::Bytes(x) }],
            None => Seq::<WireField>::empty(),
        }) + ((match m.created {
            Some(x) => seq![WireField { tag: 72, value: WireValue::Varint(varint_of_i64(x)) }],
            None => Seq::<WireField>::empty(),
        }) + ((match m.created_epoch {
            Some(x) => seq![WireField { tag: 80, value: WireValue::Varint(varint_of_i64(x)) }],
            None => Seq::<WireField>::empty(),
        })))),
    );
    assert(fields_tagged((seq![WireField { tag: 40, value: WireValue::Varint(varint_of_i32(m.data_content_type)) }])));
    lemma_fields_tagged_append(
        (seq![WireField { tag: 40, value: WireValue::Varint(varint_of_i32(m.data_content_type)) }]),
        (seq![WireField { tag: 48, value: WireValue::Varint(varint_of_i32(m.metadata_content_type)) }]) + ((seq![WireField { tag: 58, value: WireValue::Bytes(m.data) }]) + ((match m.metadata {
            Some(x) => seq![WireField { tag: 66, value: WireValue::Bytes(x) }],
            None => Seq::<WireField>::empty(),
        }) + ((match m.created {
            Some(x) => seq![WireField { tag: 72, value: WireValue::Varint(varint_of_i64(x)) }],
            None => Seq::<WireField>::empty(),
        }) + ((match m.created_epoch {
            Some(x) => seq![WireField { tag: 80, value: WireValue::Varint(varint_of_i64(x)) }],
            None => Seq::<WireField>::empty(),
        }))))),
    );
    assert(fields_tagged((seq![WireField { tag: 34, value: WireValue::Bytes(encode_utf8(m.event_type)) }])));
    lemma_fields_tagged_append(
        (seq![WireField { tag: 34, value: WireValue::Bytes(encode_utf8(m.event_type)) }]),
        (seq![WireField { tag: 40, value: WireValue::Varint(varint_of_i32(m.data_content_type)) }]) + ((seq![WireField { tag: 48, value: WireValue::Varint(varint_of_i32(m.metadata_content_type)) }]) + ((seq![WireField { tag: 58, value: WireValue::Bytes(m.data) }]) + ((match m.metadata {
            Some(x) => seq![WireField { tag: 66, value: WireValue::Bytes(x) }],
            None => Seq::<WireField>::empty(),
        }) + ((match m.created {
            Some(x) => seq![WireField { tag: 72, value: WireValue::Varint(varint_of_i64(x)) }],
            None => Seq::<WireField>::empty(),
        }) + ((match m.created_epoch {
            Some(x) => seq![WireField { tag: 80, value: WireValue::Varint(varint_of_i64(x)) }],
            None => Seq::<WireField>::empty(),
        })))))),
    );
    assert(fields_tagged((seq![WireField { tag: 26, value: WireValue::Bytes(m.event_id) }])));
    lemma_fields_tagged_append(
        (seq![WireField { tag: 26, value: WireValue::Bytes(m.event_id) }]),
        (seq![WireField { tag: 34, value: WireValue::Bytes(encode_utf8(m.event_type)) }]) + ((seq![WireField { tag: 40, value: WireValue::Varint(varint_of_i32(m.data_content_type)) }]) + ((seq![WireField { tag: 48, value: WireValue::Varint(varint_of_i32(m.metadata_content_type)) }]) + ((seq![WireField { tag: 58, value: WireValue::Bytes(m.data) }]) + ((match m.metadata {
            Some(x) => seq![WireField { tag: 66, value: WireValue::Bytes(x) }],
            None => Seq::<WireField>::empty(),
        }) + ((match m.created {
            Some(x) => seq![WireField { tag: 72, value: WireValue::Varint(varint_of_i64(x)) }],
            None => Seq::<WireField>::empty(),
        }) + ((match m.created_epoch {
            Some(x) => seq![WireField { tag: 80, value: WireValue::Varint(varint_of_i64(x)) }],
            None => Seq::<WireField>::empty(),
        }))))))),
    );
    assert(fields_tagged((seq![WireField { tag: 16, value: WireValue::Varint(varint_of_i32(m.event_number)) }])));
    lemma_fields_tagged_append(
        (seq![WireField { tag: 16, value: WireValue::Varint(varint_of_i32(m.event_number)) }]),
        (seq![WireField { tag: 26, value: WireValue::Bytes(m.event_id) }]) + ((seq![WireField { tag: 34, value: WireValue::Bytes(encode_utf8(m.event_type)) }]) + ((seq![WireField { tag: 40, value: WireValue::Varint(varint_of_i32(m.data_content_type)) }]) + ((seq![WireField { tag: 48, value: WireValue::Varint(varint_of_i32(m.metadata_content_type)) }]) + ((seq![WireField { tag: 58, value: WireValue::Bytes(m.data) }]) + ((match m.metadata {
            Some(x) => seq![WireField { tag: 66, value: WireValue::Bytes(x) }],
            None => Seq::<WireField>::empty(),
        }) + ((match m.created {
            Some(x) => seq![WireField { tag: 72, value: WireValue::Varint(varint_of_i64(x)) }],
            None => Seq::<WireField>::empty(),
        }) + ((match m.created_epoch {
            Some(x) => seq![WireField { tag: 80, value: WireValue::Varint(varint_of_i64(x)) }],
            None => Seq::<WireField>::empty(),
        })))))))),
    );
    assert(fields_tagged((seq![WireField { tag: 10, value: WireValue::Bytes(encode_utf8(m.event_stream_id)) }])));
    lemma_fields_tagged_append(
        (seq![WireField { tag: 10, value: WireValue::Bytes(encode_utf8(m.event_stream_id)) }]),
        (seq![WireField { tag: 16, value: WireValue::Varint(varint_of_i32(m.event_number)) }]) + ((seq![WireField { tag: 26, value: WireValue::Bytes(m.event_id) }]) + ((seq![WireField { tag: 34, value: WireValue::Bytes(encode_utf8(m.event_type)) }]) + ((seq![WireField { tag: 40, value: WireValue::Varint(varint_of_i32(m.data_content_type)) }]) + ((seq![WireField { tag: 48, value: WireValue::Varint(varint_of_i32(m.metadata_content_type)) }]) + ((seq![WireField { tag: 58, value: WireValue::Bytes(m.data) }]) + ((match m.metadata {
            Some(x) => seq![WireField { tag: 66, value: WireValue::Bytes(x) }],
            None => Seq::<WireField>::empty(),
        }) + ((match m.created {
            Some(x) => seq![WireField { tag: 72, value: WireValue::Varint(varint_of_i64(x)) }],
            None => Seq::<WireField>::empty(),
        }) + ((match m.created_epoch {
            Some(x) => seq![WireField { tag: 80, value: WireValue::Varint(varint_of_i64(x)) }],
            None => Seq::<WireField>::empty(),
        }))))))))),
    );
}

/// The bytes of an encoded `EventRecord`: `event_stream_id` under tag 10, `event_number` under tag 16, `event_id` under tag 26, `event_type` under tag 34, `data_content_type` under tag 40, `metadata_content_type` under tag 48, `data` under tag 58, `metadata` under tag 66, `created` under tag 72, `created_epoch` under tag 80, in this order; optional fields only
/// when present, repeated ones once per element.
pub proof fn lemma_event_record_encode_layout(m: EventRecordModel)
    ensures
        event_record_encode(m) == (bytes_field_bytes(10, encode_utf8(m.event_stream_id))) + ((varint_field_bytes(16, varint_of_i32(m.event_number))) + ((bytes_field_bytes(26, m.event_id)) + ((bytes_field_bytes(34, encode_utf8(m.event_type))) + ((varint_field_bytes(40, varint_of_i32(m.data_content_type))) + ((varint_field_bytes(48, varint_of_i32(m.metadata_content_type))) + ((bytes_field_bytes(58, m.data)) + (((match m.metadata {
            Some(x) => bytes_field_bytes(66, x),
            None => Seq::<u8>::empty(),
        })) + (((match m.created {
            Some(x) => varint_field_bytes(72, varint_of_i64(x)),
            None => Seq::<u8>::empty(),
        })) + (((match m.created_epoch {
            Some(x) => varint_field_bytes(80, varint_of_i64(x)),
            None => Seq::<u8>::empty(),
        }))))))))))),
{
    lemma_encode_fields_append(
        (seq![WireField { tag: 10, value: WireValue::Bytes(encode_utf8(m.event_stream_id)) }]),
        (seq![WireField { tag: 16, value: WireValue::Varint(varint_of_i32(m.event_number)) }]) + ((seq![WireField { tag: 26, value: WireValue::Bytes(m.event_id) }]) + ((seq![WireField { tag: 34, value: WireValue::Bytes(encode_utf8(m.event_type)) }]) + ((seq![WireField { tag: 40, value: WireValue::Varint(varint_of_i32(m.data_content_type)) }]) + ((seq![WireField { tag: 48, value: WireValue::Varint(varint_of_i32(m.metadata_content_type)) }]) + ((seq![WireField { tag: 58, value: WireValue::Bytes(m.data) }]) + ((match m.metadata {
            Some(x) => seq![WireField { tag: 66, value: WireValue::Bytes(x) }],
            None => Seq::<WireField>::empty(),
        }) + ((match m.created {
            Some(x) => seq![WireField { tag: 72, value: WireValue::Varint(varint_of_i64(x)) }],
            None => Seq::<WireField>::empty(),
        }) + ((match m.created_epoch {
            Some(x) => seq![WireField { tag: 80, value: WireValue::Varint(varint_of_i64(x)) }],
            None => Seq::<WireField>::empty(),
        }))))))))),
    );
    lemma_encode_fields_append(
        (seq![WireField { tag: 16, value: WireValue::Varint(varint_of_i32(m.event_number)) }]),
        (seq![WireField { tag: 26, value: WireValue::Bytes(m.event_id) }]) + ((seq![WireField { tag: 34, value: WireValue::Bytes(encode_utf8(m.event_type)) }]) + ((seq![WireField { tag: 40, value: WireValue::Varint(varint_of_i32(m.data_content_type)) }]) + ((seq![WireField { tag: 48, value: WireValue::Varint(varint_of_i32(m.metadata_content_type)) }]) + ((seq![WireField { tag: 58, value: WireValue::Bytes(m.data) }]) + ((match m.metadata {
            Some(x) => seq![WireField { tag: 66, value: WireValue::Bytes(x) }],
            None => Seq::<WireField>::empty(),
        }) + ((match m.created {
            Some(x) => seq![WireField { tag: 72, value: WireValue::Varint(varint_of_i64(x)) }],
            None => Seq::<WireField>::empty(),
        }) + ((match m.created_epoch {
            Some(x) => seq![WireField { tag: 80, value: WireValue::Varint(varint_of_i64(x)) }],
            None => Seq::<WireField>::empty(),
        })))))))),
    );
    lemma_encode_fields_append(
        (seq![WireField { tag: 26, value: WireValue::Bytes(m.event_id) }]),
        (seq![WireField { tag: 34, value: WireValue::Bytes(encode_utf8(m.event_type)) }]) + ((seq![WireField { tag: 40, value: WireValue::Varint(varint_of_i32(m.data_content_type)) }]) + ((seq![WireField { tag: 48, value: WireValue::Varint(varint_of_i32(m.metadata_content_type)) }]) + ((seq![WireField { tag: 58, value: WireValue::Bytes(m.data) }]) + ((match m.metadata {
            Some(x) => seq![WireField { tag: 66, value: WireValue::Bytes(x) }],
            None => Seq::<WireField>::empty(),
        }) + ((match m.created {
            Some(x) => seq![WireField { tag: 72, value: WireValue::Varint(varint_of_i64(x)) }],
            None => Seq::<WireField>::empty(),
        }) + ((match m.created_epoch {
            Some(x) => seq![WireField { tag: 80, value: WireValue::Varint(varint_of_i64(x)) }],
            None => Seq::<WireField>::empty(),
        }))))))),
    );
    lemma_encode_fields_append(
        (seq![WireField { tag: 34, value: WireValue::Bytes(encode_utf8(m.event_type)) }]),
        (seq![WireField { tag: 40, value: WireValue::Varint(varint_of_i32(m.data_content_type)) }]) + ((seq![WireField { tag: 48, value: WireValue::Varint(varint_of_i32(m.metadata_content_type)) }]) + ((seq![WireField { tag: 58, value: WireValue::Bytes(m.data) }]) + ((match m.metadata {
            Some(x) => seq![WireField { tag: 66, value: WireValue::Bytes(x) }],
            None => Seq::<WireField>::empty(),
        }) + ((match m.created {
            Some(x) => seq![WireField { tag: 72, value: WireValue::Varint(varint_of_i64(x)) }],
            None => Seq::<WireField>::empty(),
        }) + ((match m.created_epoch {
            Some(x) => seq![WireField { tag: 80, value: WireValue::Varint(varint_of_i64(x)) }],
            None => Seq::<WireField>::empty(),
        })))))),
    );
    lemma_encode_fields_append(
        (seq![WireField { tag: 40, value: WireValue::Varint(varint_of_i32(m.data_content_type)) }]),
        (seq![WireField { tag: 48, value: WireValue::Varint(varint_of_i32(m.metadata_content_type)) }]) + ((seq![WireField { tag: 58, value: WireValue::Bytes(m.data) }]) + ((match m.metadata {
            Some(x) => seq![WireField { tag: 66, value: WireValue::Bytes(x) }],
            None => Seq::<WireField>::empty(),
        }) + ((match m.created {
            Some(x) => seq![WireField { tag: 72, value: WireValue::Varint(varint_of_i64(x)) }],
            None => Seq::<WireField>::empty(),
        }) + ((match m.created_epoch {
            Some(x) => seq![WireField { tag: 80, value: WireValue::Varint(varint_of_i64(x)) }],
            None => Seq::<WireField>::empty(),
        }))))),
    );
    lemma_encode_fields_append(
        (seq![WireField { tag: 48, value: WireValue::Varint(varint_of_i32(m.metadata_content_type)) }]),
        (seq![WireField { tag: 58, value: WireValue::Bytes(m.data) }]) + ((match m.metadata {
            Some(x) => seq![WireField { tag: 66, value: WireValue::Bytes(x) }],
            None => Seq::<WireField>::empty(),
        }) + ((match m.created {
            Some(x) => seq![WireField { tag: 72, value: WireValue::Varint(varint_of_i64(x)) }],
            None => Seq::<WireField>::empty(),
        }) + ((match m.created_epoch {
            Some(x) => seq![WireField { tag: 80, value: WireValue::Varint(varint_of_i64(x)) }],
            None => Seq::<WireField>::empty(),
        })))),
    );
    lemma_encode_fields_append(
        (seq![WireField { tag: 58, value: WireValue::Bytes(m.data) }]),
        (match m.metadata {
            Some(x) => seq![WireField { tag: 66, value: WireValue::Bytes(x) }],
            None => Seq::<WireField>::empty(),
        }) + ((match m.created {
            Some(x) => seq![WireField { tag: 72, value: WireValue::Varint(varint_of_i64(x)) }],
            None => Seq::<WireField>::empty(),
        }) + ((match m.created_epoch {
            Some(x) => seq![WireField { tag: 80, value: WireValue::Varint(varint_of_i64(x)) }],
            None => Seq::<WireField>::empty(),
        }))),
    );
    lemma_encode_fields_append(
        (match m.metadata {
            Some(x) => seq![WireField { tag: 66, value: WireValue::Bytes(x) }],
            None => Seq::<WireField>::empty(),
        }),
        (match m.created {
            Some(x) => seq![WireField { tag: 72, value: WireValue::Varint(varint_of_i64(x)) }],
            None => Seq::<WireField>::empty(),
        }) + ((match m.created_epoch {
            Some(x) => seq![WireField { tag: 80, value: WireValue::Varint(varint_of_i64(x)) }],
            None => Seq::<WireField>::empty(),
        })),
    );
    lemma_encode_fields_append(
        (match m.created {
            Some(x) => seq![WireField { tag: 72, value: WireValue::Varint(varint_of_i64(x)) }],
            None => Seq::<WireField>::empty(),
        }),
        (match m.created_epoch {
            Some(x) => seq![WireField { tag: 80, value: WireValue::Varint(varint_of_i64(x)) }],
            None => Seq::<WireField>::empty(),
        }),
    );
    lemma_bytes_field_layout(10, encode_utf8(m.event_stream_id));
    lemma_varint_field_layout(16, varint_of_i32(m.event_number));
    lemma_bytes_field_layout(26, m.event_id);
    lemma_bytes_field_layout(34, encode_utf8(m.event_type));
    lemma_varint_field_layout(40, varint_of_i32(m.data_content_type));
    lemma_varint_field_layout(48, varint_of_i32(m.metadata_content_type));
    lemma_bytes_field_layout(58, m.data);
    if let Some(x) = m.metadata {
        lemma_bytes_field_layout(66, x);
    }
    if let Some(x) = m.created {
        lemma_varint_field_layout(72, varint_of_i64(x));
    }
    if let Some(x) = m.created_epoch {
        lemma_varint_field_layout(80, varint_of_i64(x));
    }
}

/// Reading a written `EventRecord` gives it back.
pub proof fn lemma_event_record_roundtrip(m: EventRecordModel)
    requires
        event_record_wf(m),
    ensures
        event_record_decode(event_record_encode(m)) == Some(m),
{
    let ap = event_record_applier();
    lemma_event_record_fields_tagged(m);
    lemma_fields_canonical_of_short(event_record_fields(m));
    lemma_decode_encoded_fields(event_record_fields(m), event_record_default(), ap, event_record_known());
    let a0 = event_record_default();
    let a1 = EventRecordModel { event_stream_id: m.event_stream_id, ..a0 };
    lemma_apply_fields_append(
        (seq![WireField { tag: 10, value: WireValue::Bytes(encode_utf8(m.event_stream_id)) }]),
        (seq![WireField { tag: 16, value: WireValue::Varint(varint_of_i32(m.event_number)) }]) + ((seq![WireField { tag: 26, value: WireValue::Bytes(m.event_id) }]) + ((seq![WireField { tag: 34, value: WireValue::Bytes(encode_utf8(m.event_type)) }]) + ((seq![WireField { tag: 40, value: WireValue::Varint(varint_of_i32(m.data_content_type)) }]) + ((seq![WireField { tag: 48, value: WireValue::Varint(varint_of_i32(m.metadata_content_type)) }]) + ((seq![WireField { tag: 58, value: WireValue::Bytes(m.data) }]) + ((match m.metadata {
            Some(x) => seq![WireField { tag: 66, value: WireValue::Bytes(x) }],
            None => Seq::<WireField>::empty(),
        }) + ((match m.created {
            Some(x) => seq![WireField { tag: 72, value: WireValue::Varint(varint_of_i64(x)) }],
            None => Seq::<WireField>::empty(),
        }) + ((match m.created_epoch {
            Some(x) => seq![WireField { tag: 80, value: WireValue::Varint(varint_of_i64(x)) }],
            None => Seq::<WireField>::empty(),
        }))))))))),
        a0,
        ap,
    );
    assert(apply_fields((seq![WireField { tag: 10, value: WireValue::Bytes(encode_utf8(m.event_stream_id)) }]), a0, ap) == Some(a1)) by {
        reveal_with_fuel(apply_fields, 2);
        lemma_string_roundtrip(m.event_stream_id);
    }
    let a2 = EventRecordModel { event_number: m.event_number, ..a1 };
    lemma_apply_fields_append(
        (seq![WireField { tag: 16, value: WireValue::Varint(varint_of_i32(m.event_number)) }]),
        (seq![WireField { tag: 26, value: WireValue::Bytes(m.event_id) }]) + ((seq![WireField { tag: 34, value: WireValue::Bytes(encode_utf8(m.event_type)) }]) + ((seq![WireField { tag: 40, value: WireValue::Varint(varint_of_i32(m.data_content_type)) }]) + ((seq![WireField { tag: 48, value: WireValue::Varint(varint_of_i32(m.metadata_content_type)) }]) + ((seq![WireField { tag: 58, value: WireValue::Bytes(m.data) }]) + ((match m.metadata {
            Some(x) => seq![WireField { tag: 66, value: WireValue::Bytes(x) }],
            None => Seq::<WireField>::empty(),
        }) + ((match m.created {
            Some(x) => seq![WireField { tag: 72, value: WireValue::Varint(varint_of_i64(x)) }],
            None => Seq::<WireField>::empty(),
        }) + ((match m.created_epoch {
            Some(x) => seq![WireField { tag: 80, value: WireValue::Varint(varint_of_i64(x)) }],
            None => Seq::<WireField>::empty(),
        })))))))),
        a1,
        ap,
    );
    assert(apply_fields((seq![WireField { tag: 16, value: WireValue::Varint(varint_of_i32(m.event_number)) }]), a1, ap) == Some(a2)) by {
        reveal_with_fuel(apply_fields, 2);
        lemma_scalar_roundtrips(m.event_number, 0, false);
    }
    let a3 = EventRecordModel { event_id: m.event_id, ..a2 };
    lemma_apply_fields_append(
        (seq![WireField { tag: 26, value: WireValue::Bytes(m.event_id) }]),
        (seq![WireField { tag: 34, value: WireValue::Bytes(encode_utf8(m.event_type)) }]) + ((seq![WireField { tag: 40, value: WireValue::Varint(varint_of_i32(m.data_content_type)) }]) + ((seq![WireField { tag: 48, value: WireValue::Varint(varint_of_i32(m.metadata_content_type)) }]) + ((seq![WireField { tag: 58, value: WireValue::Bytes(m.data) }]) + ((match m.metadata {
            Some(x) => seq![WireField { tag: 66, value: WireValue::Bytes(x) }],
            None => Seq::<WireField>::empty(),
        }) + ((match m.created {
            Some(x) => seq![WireField { tag: 72, value: WireValue::Varint(varint_of_i64(x)) }],
            None => Seq::<WireField>::empty(),
        }) + ((match m.created_epoch {
            Some(x) => seq![WireField { tag: 80, value: WireValue::Varint(varint_of_i64(x)) }],
            None => Seq::<WireField>::empty(),
        }))))))),
        a2,
        ap,
    );
    assert(apply_fields((seq![WireField { tag: 26, value: WireValue::Bytes(m.event_id) }]), a2, ap) == Some(a3)) by {
        reveal_with_fuel(apply_fields, 2);
    }
    let a4 = EventRecordModel { event_type: m.event_type, ..a3 };
    lemma_apply_fields_append(
        (seq![WireField { tag: 34, value: WireValue::Bytes(encode_utf8(m.event_type)) }]),
        (seq![WireField { tag: 40, value: WireValue::Varint(varint_of_i32(m.data_content_type)) }]) + ((seq![WireField { tag: 48, value: WireValue::Varint(varint_of_i32(m.metadata_content_type)) }]) + ((seq![WireField { tag: 58, value: WireValue::Bytes(m.data) }]) + ((match m.metadata {
            Some(x) => seq![WireField { tag: 66, value: WireValue::Bytes(x) }],
            None => Seq::<WireField>::empty(),
        }) + ((match m.created {
            Some(x) => seq![WireField { tag: 72, value: WireValue::Varint(varint_of_i64(x)) }],
            None => Seq::<WireField>::empty(),
        }) + ((match m.created_epoch {
            Some(x) => seq![WireField { tag: 80, value: WireValue::Varint(varint_of_i64(x)) }],
            None => Seq::<WireField>::empty(),
        })))))),
        a3,
        ap,
    );
    assert(apply_fields((seq![WireField { tag: 34, value: WireValue::Bytes(encode_utf8(m.event_type)) }]), a3, ap) == Some(a4)) by {
        reveal_with_fuel(apply_fields, 2);
        lemma_string_roundtrip(m.event_type);
    }
    let a5 = EventRecordModel { data_content_type: m.data_content_type, ..a4 };
    lemma_apply_fields_append(
        (seq![WireField { tag: 40, value: WireValue::Varint(varint_of_i32(m.data_content_type)) }]),
        (seq![WireField { tag: 48, value: WireValue::Varint(varint_of_i32(m.metadata_content_type)) }]) + ((seq![WireField { tag: 58, value: WireValue::Bytes(m.data) }]) + ((match m.metadata {
            Some(x) => seq![WireField { tag: 66, value: WireValue::Bytes(x) }],
            None => Seq::<WireField>::empty(),
        }) + ((match m.created {
            Some(x) => seq![WireField { tag: 72, value: WireValue::Varint(varint_of_i64(x)) }],
            None => Seq::<WireField>::empty(),
        }) + ((match m.created_epoch {
            Some(x) => seq![WireField { tag: 80, value: WireValue::Varint(varint_of_i64(x)) }],
            None => Seq::<WireField>::empty(),
        }))))),
        a4,
        ap,
    );
    assert(apply_fields((seq![WireField { tag: 40, value: WireValue::Varint(varint_of_i32(m.data_content_type)) }]), a4, ap) == Some(a5)) by {
        reveal_with_fuel(apply_fields, 2);
        lemma_scalar_roundtrips(m.data_content_type, 0, false);
    }
    let a6 = EventRecordModel { metadata_content_type: m.metadata_content_type, ..a5 };
    lemma_apply_fields_append(
        (seq![WireField { tag: 48, value: WireValue::Varint(varint_of_i32(m.metadata_content_type)) }]),
        (seq![WireField { tag: 58, value: WireValue::Bytes(m.data) }]) + ((match m.metadata {
            Some(x) => seq![WireField { tag: 66, value: WireValue::Bytes(x) }],
            None => Seq::<WireField>::empty(),
        }) + ((match m.created {
            Some(x) => seq![WireField { tag: 72, value: WireValue::Varint(varint_of_i64(x)) }],
            None => Seq::<WireField>::empty(),
        }) + ((match m.created_epoch {
            Some(x) => seq![WireField { tag: 80, value: WireValue::Varint(varint_of_i64(x)) }],
            None => Seq::<WireField>::empty(),
        })))),
        a5,
        ap,
    );
    assert(apply_fields((seq![WireField { tag: 48, value: WireValue::Varint(varint_of_i32(m.metadata_content_type)) }]), a5, ap) == Some(a6)) by {
        reveal_with_fuel(apply_fields, 2);
        lemma_scalar_roundtrips(m.metadata_content_type, 0, false);
    }
    let a7 = EventRecordModel { data: m.data, ..a6 };
    lemma_apply_fields_append(
        (seq![WireField { tag: 58, value: WireValue::Bytes(m.data) }]),
        (match m.metadata {
            Some(x) => seq![WireField { tag: 66, value: WireValue::Bytes(x) }],
            None => Seq::<WireField>::empty(),
        }) + ((match m.created {
            Some(x) => seq![WireField { tag: 72, value: WireValue::Varint(varint_of_i64(x)) }],
            None => Seq::<WireField>::empty(),
        }) + ((match m.created_epoch {
            Some(x) => seq![WireField { tag: 80, value: WireValue::Varint(varint_of_i64(x)) }],
            None => Seq::<WireField>::empty(),
        }))),
        a6,
        ap,
    );
    assert(apply_fields((seq![WireField { tag: 58, value: WireValue::Bytes(m.data) }]), a6, ap) == Some(a7)) by {
        reveal_with_fuel(apply_fields, 2);
    }
    let a8 = EventRecordModel { metadata: m.metadata, ..a7 };
    lemma_apply_fields_append(
        (match m.metadata {
            Some(x) => seq![WireField { tag: 66, value: WireValue::Bytes(x) }],
            None => Seq::<WireField>::empty(),
        }),
        (match m.created {
            Some(x) => seq![WireField { tag: 72, value: WireValue::Varint(varint_of_i64(x)) }],
            None => Seq::<WireField>::empty(),
        }) + ((match m.created_epoch {
            Some(x) => seq![WireField { tag: 80, value: WireValue::Varint(varint_of_i64(x)) }],
            None => Seq::<WireField>::empty(),
        })),
        a7,
        ap,
    );
    assert(apply_fields((match m.metadata {
        Some(x) => seq![WireField { tag: 66, value: WireValue::Bytes(x) }],
        None => Seq::<WireField>::empty(),
    }), a7, ap) == Some(a8)) by {
        reveal_with_fuel(apply_fields, 2);
        if let Some(x) = m.metadata {
        }
    }
    let a9 = EventRecordModel { created: m.created, ..a8 };
    lemma_apply_fields_append(
        (match m.created {
            Some(x) => seq![WireField { tag: 72, value: WireValue::Varint(varint_of_i64(x)) }],
            None => Seq::<WireField>::empty(),
        }),
        (match m.created_epoch {
            Some(x) => seq![WireField { tag: 80, value: WireValue::Varint(varint_of_i64(x)) }],
            None => Seq::<WireField>::empty(),
        }),
        a8,
        ap,
    );
    assert(apply_fields((match m.created {
        Some(x) => seq![WireField { tag: 72, value: WireValue::Varint(varint_of_i64(x)) }],
        None => Seq::<WireField>::empty(),
    }), a8, ap) == Some(a9)) by {
        reveal_with_fuel(apply_fields, 2);
        if let Some(x) = m.created {
            lemma_scalar_roundtrips(0, x, false);
        }
    }
    let a10 = EventRecordModel { created_epoch: m.created_epoch, ..a9 };
    assert(apply_fields((match m.created_epoch {
        Some(x) => seq![WireField { tag: 80, value: WireValue::Varint(varint_of_i64(x)) }],
        None => Seq::<WireField>::empty(),
    }), a9, ap) == Some(a10)) by {
        reveal_with_fuel(apply_fields, 2);
        if let Some(x) = m.created_epoch {
            lemma_scalar_roundtrips(0, x, false);
        }
    }
    assert(a10 == m);
}

impl EventRecord {
    /// Decodes a `EventRecord` from its protobuf bytes.
    pub fn from_reader(bytes: &[u8]) -> (res: Option<EventRecord>)
        ensures
            event_record_decode(bytes@) matches Some(m) ==> (res matches Some(e) && e@ == m),
            event_record_decode(bytes@) is None ==> res is None,
    {
        let mut msg = EventRecord::default_value();
        let mut pos: usize = 0;
        assert(bytes@.skip(0) =~= bytes@);
        while pos < bytes.len()
            invariant
                pos <= bytes@.len(),
                event_record_decode(bytes@) == decode_fields(bytes@.skip(pos as int), msg@, event_record_applier(), event_record_known()),
            decreases bytes@.len() - pos,
        {
            let ghost old_msg = msg@;
            let (tag, p) = match read_tag(bytes, pos) {
                Some(x) => x,
                None => {
                    return None;
                },
            };
            proof {
                lemma_field_parts(bytes@, pos as int, event_record_known());
            }
            let known: bool = tag == 10 || tag == 16 || tag == 26 || tag == 34 || tag == 40 || tag == 48 || tag == 58 || tag == 66 || tag == 72 || tag == 80;
            let (value, next) = match read_value(bytes, p, tag, known) {
                Some(x) => x,
                None => {
                    return None;
                },
            };
            let ghost f = parse_field(bytes@.skip(pos as int), event_record_known()).unwrap().0;
            proof {
                lemma_decode_step(bytes@, pos as int, old_msg, event_record_applier(), event_record_known());
                lemma_parse_field_len(bytes@.skip(pos as int), event_record_known());
            }
            if tag == 10 {
                match value {
                    FieldValue::Bytes(i, j) => match copy_string(bytes, i, j) {
                        Some(s) => {
                            msg.event_stream_id = s;
                        },
                        None => {
                            return None;
                        },
                    },
                    _ => {
                        return None;
                    },
                }
            } else if tag == 16 {
                match value {
                    FieldValue::Varint(v) => {
                        msg.event_number = varint_i32(v);
                    },
                    _ => {
                        return None;
                    },
                }
            } else if tag == 26 {
                match value {
                    FieldValue::Bytes(i, j) => {
                        msg.event_id = copy_bytes(bytes, i, j);
                    },
                    _ => {
                        return None;
                    },
                }
            } else if tag == 34 {
                match value {
                    FieldValue::Bytes(i, j) => match copy_string(bytes, i, j) {
                        Some(s) => {
                            msg.event_type = s;
                        },
                        None => {
                            return None;
                        },
                    },
                    _ => {
                        return None;
                    },
                }
            } else if tag == 40 {
                match value {
                    FieldValue::Varint(v) => {
                        msg.data_content_type = varint_i32(v);
                    },
                    _ => {
                        return None;
                    },
                }
            } else if tag == 48 {
                match value {
                    FieldValue::Varint(v) => {
                        msg.metadata_content_type = varint_i32(v);
                    },
                    _ => {
                        return None;
                    },
                }
            } else if tag == 58 {
                match value {
                    FieldValue::Bytes(i, j) => {
                        msg.data = copy_bytes(bytes, i, j);
                    },
                    _ => {
                        return None;
                    },
                }
            } else if tag == 66 {
                match value {
                    FieldValue::Bytes(i, j) => {
                        msg.metadata = Some(copy_bytes(bytes, i, j));
                    },
                    _ => {
                        return None;
                    },
                }
            } else if tag == 72 {
                match value {
                    FieldValue::Varint(v) => {
                        msg.created = Some(varint_i64(v));
                    },
                    _ => {
                        return None;
                    },
                }
            } else if tag == 80 {
                match value {
                    FieldValue::Varint(v) => {
                        msg.created_epoch = Some(varint_i64(v));
                    },
                    _ => {
                        return None;
                    },
                }
            }
            assert(event_record_apply(old_msg, f) == Some(msg@));
            pos = next;
        }
        assert(bytes@.skip(pos as int).len() == 0);
        Some(msg)
    }

    /// A `EventRecord` with every field at its default.
    pub fn default_value() -> (m: EventRecord)
        ensures
            m@ == event_record_default(),
    {
        let m = EventRecord {
            event_stream_id: String::new(),
            event_number: 0,
            event_id: Vec::new(),
            event_type: String::new(),
            data_content_type: 0,
            metadata_content_type: 0,
            data: Vec::new(),
            metadata: None,
            created: None,
            created_epoch: None,
        };
        m
    }

    /// A copy of this `EventRecord`.
    pub fn copy(&self) -> (c: EventRecord)
        ensures
            c@ == self@,
    {
        let c = EventRecord {
            event_stream_id: self.event_stream_id.clone(),
            event_number: self.event_number,
            event_id: slice_to_vec(self.event_id.as_slice()),
            event_type: self.event_type.clone(),
            data_content_type: self.data_content_type,
            metadata_content_type: self.metadata_content_type,
            data: slice_to_vec(self.data.as_slice()),
            metadata: match &self.metadata {
                Some(x) => Some(slice_to_vec(x.as_slice())),
                None => None,
            },
            created: self.created,
            created_epoch: self.created_epoch,
        };
        assert(c@.event_stream_id =~= self@.event_stream_id);
        assert(c@.event_id =~= self@.event_id);
        assert(c@.event_type =~= self@.event_type);
        assert(c@.data =~= self@.data);
        assert(c@.metadata =~= self@.metadata);
        c
    }

    /// Encodes this `EventRecord` as protobuf bytes.
    #[verifier::spinoff_prover]
    #[verifier::rlimit(30)]
    pub fn encode(&self) -> (out: Vec<u8>)
        ensures
            out@ == event_record_encode(self@),
            out@.len() < modulus32() ==> event_record_wf(self@),
    {
        let mut out: Vec<u8> = Vec::new();
        let ghost mut fs: Seq<WireField> = Seq::empty();
        write_bytes_field(&mut out, 10, self.event_stream_id.as_str().as_bytes());
        proof {
            let f = WireField { tag: 10, value: WireValue::Bytes(encode_utf8(self.event_stream_id@)) };
            lemma_encode_fields_push(fs, f);
            lemma_fields_shaped_push(fs, f);
            fs = fs.push(f);
        }
        write_varint_field(&mut out, 16, i32_varint(self.event_number));
        proof {
            let f = WireField { tag: 16, value: WireValue::Varint(varint_of_i32(self.event_number)) };
            lemma_encode_fields_push(fs, f);
            lemma_fields_shaped_push(fs, f);
            fs = fs.push(f);
        }
        write_bytes_field(&mut out, 26, self.event_id.as_slice());
        proof {
            let f = WireField { tag: 26, value: WireValue::Bytes(self.event_id@) };
            lemma_encode_fields_push(fs, f);
            lemma_fields_shaped_push(fs, f);
            fs = fs.push(f);
        }
        write_bytes_field(&mut out, 34, self.event_type.as_str().as_bytes());
        proof {
            let f = WireField { tag: 34, value: WireValue::Bytes(encode_utf8(self.event_type@)) };
            lemma_encode_fields_push(fs, f);
            lemma_fields_shaped_push(fs, f);
            fs = fs.push(f);
        }
        write_varint_field(&mut out, 40, i32_varint(self.data_content_type));
        proof {
            let f = WireField { tag: 40, value: WireValue::Varint(varint_of_i32(self.data_content_type)) };
            lemma_encode_fields_push(fs, f);
            lemma_fields_shaped_push(fs, f);
            fs = fs.push(f);
        }
        write_varint_field(&mut out, 48, i32_varint(self.metadata_content_type));
        proof {
            let f = WireField { tag: 48, value: WireValue::Varint(varint_of_i32(self.metadata_content_type)) };
            lemma_encode_fields_push(fs, f);
            lemma_fields_shaped_push(fs, f);
            fs = fs.push(f);
        }
        write_bytes_field(&mut out, 58, self.data.as_slice());
        proof {
            let f = WireField { tag: 58, value: WireValue::Bytes(self.data@) };
            lemma_encode_fields_push(fs, f);
            lemma_fields_shaped_push(fs, f);
            fs = fs.push(f);
        }
        match &self.metadata {
            Some(x) => {
                write_bytes_field(&mut out, 66, x.as_slice());
                proof {
                    let f = WireField { tag: 66, value: WireValue::Bytes(x@) };
                    lemma_encode_fields_push(fs, f);
                    lemma_fields_shaped_push(fs, f);
                    fs = fs.push(f);
                }
            },
            None => {},
        }
        match self.created {
            Some(x) => {
                write_varint_field(&mut out, 72, i64_varint(x));
                proof {
                    let f = WireField { tag: 72, value: WireValue::Varint(varint_of_i64(x)) };
                    lemma_encode_fields_push(fs, f);
                    lemma_fields_shaped_push(fs, f);
                    fs = fs.push(f);
                }
            },
            None => {},
        }
        match self.created_epoch {
            Some(x) => {
                write_varint_field(&mut out, 80, i64_varint(x));
                proof {
                    let f = WireField { tag: 80, value: WireValue::Varint(varint_of_i64(x)) };
                    lemma_encode_fields_push(fs, f);
                    lemma_fields_shaped_push(fs, f);
                    fs = fs.push(f);
                }
            },
            None => {},
        }
        assert(fs =~= event_record_fields(self@));
        proof {
            if out@.len() < modulus32() {
                lemma_fields_canonical_of_len(fs);
            }
        }
        out
    }

    /// The number of bytes of the encoding of this `EventRecord`, computed without encoding it.
    #[verifier::spinoff_prover]
    #[verifier::rlimit(30)]
    pub fn get_size(&self) -> (n: usize)
        requires
            event_record_encode(self@).len() <= usize::MAX,
        ensures
            n == event_record_encode(self@).len(),
    {
        let ghost m = self@;
        proof {
            lemma_encode_fields_append(
                (seq![WireField { tag: 10, value: WireValue::Bytes(encode_utf8(m.event_stream_id)) }]),
                (seq![WireField { tag: 16, value: WireValue::Varint(varint_of_i32(m.event_number)) }]) + ((seq![WireField { tag: 26, value: WireValue::Bytes(m.event_id) }]) + ((seq![WireField { tag: 34, value: WireValue::Bytes(encode_utf8(m.event_type)) }]) + ((seq![WireField { tag: 40, value: WireValue::Varint(varint_of_i32(m.data_content_type)) }]) + ((seq![WireField { tag: 48, value: WireValue::Varint(varint_of_i32(m.metadata_content_type)) }]) + ((seq![WireField { tag: 58, value: WireValue::Bytes(m.data) }]) + ((match m.metadata {
                    Some(x) => seq![WireField { tag: 66, value: WireValue::Bytes(x) }],
                    None => Seq::<WireField>::empty(),
                }) + ((match m.created {
                    Some(x) => seq![WireField { tag: 72, value: WireValue::Varint(varint_of_i64(x)) }],
                    None => Seq::<WireField>::empty(),
                }) + ((match m.created_epoch {
                    Some(x) => seq![WireField { tag: 80, value: WireValue::Varint(varint_of_i64(x)) }],
                    None => Seq::<WireField>::empty(),
                }))))))))),
            );
            lemma_encode_fields_append(
                (seq![WireField { tag: 16, value: WireValue::Varint(varint_of_i32(m.event_number)) }]),
                (seq![WireField { tag: 26, value: WireValue::Bytes(m.event_id) }]) + ((seq![WireField { tag: 34, value: WireValue::Bytes(encode_utf8(m.event_type)) }]) + ((seq![WireField { tag: 40, value: WireValue::Varint(varint_of_i32(m.data_content_type)) }]) + ((seq![WireField { tag: 48, value: WireValue::Varint(varint_of_i32(m.metadata_content_type)) }]) + ((seq![WireField { tag: 58, value: WireValue::Bytes(m.data) }]) + ((match m.metadata {
                    Some(x) => seq![WireField { tag: 66, value: WireValue::Bytes(x) }],
                    None => Seq::<WireField>::empty(),
                }) + ((match m.created {
                    Some(x) => seq![WireField { tag: 72, value: WireValue::Varint(varint_of_i64(x)) }],
                    None => Seq::<WireField>::empty(),
                }) + ((match m.created_epoch {
                    Some(x) => seq![WireField { tag: 80, value: WireValue::Varint(varint_of_i64(x)) }],
                    None => Seq::<WireField>::empty(),
                })))))))),
            );
            lemma_encode_fields_append(
                (seq![WireField { tag: 26, value: WireValue::Bytes(m.event_id) }]),
                (seq![WireField { tag: 34, value: WireValue::Bytes(encode_utf8(m.event_type)) }]) + ((seq![WireField { tag: 40, value: WireValue::Varint(varint_of_i32(m.data_content_type)) }]) + ((seq![WireField { tag: 48, value: WireValue::Varint(varint_of_i32(m.metadata_content_type)) }]) + ((seq![WireField { tag: 58, value: WireValue::Bytes(m.data) }]) + ((match m.metadata {
                    Some(x) => seq![WireField { tag: 66, value: WireValue::Bytes(x) }],
                    None => Seq::<WireField>::empty(),
                }) + ((match m.created {
                    Some(x) => seq![WireField { tag: 72, value: WireValue::Varint(varint_of_i64(x)) }],
                    None => Seq::<WireField>::empty(),
                }) + ((match m.created_epoch {
                    Some(x) => seq![WireField { tag: 80, value: WireValue::Varint(varint_of_i64(x)) }],
                    None => Seq::<WireField>::empty(),
                }))))))),
            );
            lemma_encode_fields_append(
                (seq![WireField { tag: 34, value: WireValue::Bytes(encode_utf8(m.event_type)) }]),
                (seq![WireField { tag: 40, value: WireValue::Varint(varint_of_i32(m.data_content_type)) }]) + ((seq![WireField { tag: 48, value: WireValue::Varint(varint_of_i32(m.metadata_content_type)) }]) + ((seq![WireField { tag: 58, value: WireValue::Bytes(m.data) }]) + ((match m.metadata {
                    Some(x) => seq![WireField { tag: 66, value: WireValue::Bytes(x) }],
                    None => Seq::<WireField>::empty(),
                }) + ((match m.created {
                    Some(x) => seq![WireField { tag: 72, value: WireValue::Varint(varint_of_i64(x)) }],
                    None => Seq::<WireField>::empty(),
                }) + ((match m.created_epoch {
                    Some(x) => seq![WireField { tag: 80, value: WireValue::Varint(varint_of_i64(x)) }],
                    None => Seq::<WireField>::empty(),
                })))))),
            );
            lemma_encode_fields_append(
                (seq![WireField { tag: 40, value: WireValue::Varint(varint_of_i32(m.data_content_type)) }]),
                (seq![WireField { tag: 48, value: WireValue::Varint(varint_of_i32(m.metadata_content_type)) }]) + ((seq![WireField { tag: 58, value: WireValue::Bytes(m.data) }]) + ((match m.metadata {
                    Some(x) => seq![WireField { tag: 66, value: WireValue::Bytes(x) }],
                    None => Seq::<WireField>::empty(),
                }) + ((match m.created {
                    Some(x) => seq![WireField { tag: 72, value: WireValue::Varint(varint_of_i64(x)) }],
                    None => Seq::<WireField>::empty(),
                }) + ((match m.created_epoch {
                    Some(x) => seq![WireField { tag: 80, value: WireValue::Varint(varint_of_i64(x)) }],
                    None => Seq::<WireField>::empty(),
                }))))),
            );
            lemma_encode_fields_append(
                (seq![WireField { tag: 48, value: WireValue::Varint(varint_of_i32(m.metadata_content_type)) }]),
                (seq![WireField { tag: 58, value: WireValue::Bytes(m.data) }]) + ((match m.metadata {
                    Some(x) => seq![WireField { tag: 66, value: WireValue::Bytes(x) }],
                    None => Seq::<WireField>::empty(),
                }) + ((match m.created {
                    Some(x) => seq![WireField { tag: 72, value: WireValue::Varint(varint_of_i64(x)) }],
                    None => Seq::<WireField>::empty(),
                }) + ((match m.created_epoch {
                    Some(x) => seq![WireField { tag: 80, value: WireValue::Varint(varint_of_i64(x)) }],
                    None => Seq::<WireField>::empty(),
                })))),
            );
            lemma_encode_fields_append(
                (seq![WireField { tag: 58, value: WireValue::Bytes(m.data) }]),
                (match m.metadata {
                    Some(x) => seq![WireField { tag: 66, value: WireValue::Bytes(x) }],
                    None => Seq::<WireField>::empty(),
                }) + ((match m.created {
                    Some(x) => seq![WireField { tag: 72, value: WireValue::Varint(varint_of_i64(x)) }],
                    None => Seq::<WireField>::empty(),
                }) + ((match m.created_epoch {
                    Some(x) => seq![WireField { tag: 80, value: WireValue::Varint(varint_of_i64(x)) }],
                    None => Seq::<WireField>::empty(),
                }))),
            );
            lemma_encode_fields_append(
                (match m.metadata {
                    Some(x) => seq![WireField { tag: 66, value: WireValue::Bytes(x) }],
                    None => Seq::<WireField>::empty(),
                }),
                (match m.created {
                    Some(x) => seq![WireField { tag: 72, value: WireValue::Varint(varint_of_i64(x)) }],
                    None => Seq::<WireField>::empty(),
                }) + ((match m.created_epoch {
                    Some(x) => seq![WireField { tag: 80, value: WireValue::Varint(varint_of_i64(x)) }],
                    None => Seq::<WireField>::empty(),
                })),
            );
            lemma_encode_fields_append(
                (match m.created {
                    Some(x) => seq![WireField { tag: 72, value: WireValue::Varint(varint_of_i64(x)) }],
                    None => Seq::<WireField>::empty(),
                }),
                (match m.created_epoch {
                    Some(x) => seq![WireField { tag: 80, value: WireValue::Varint(varint_of_i64(x)) }],
                    None => Seq::<WireField>::empty(),
                }),
            );
        }
        let mut n: usize = 0;
        let s9: usize = match self.created_epoch {
            Some(x) => {
                proof {
                    lemma_encode_fields_one(WireField { tag: 80, value: WireValue::Varint(varint_of_i64(x)) });
                }
                sizeof_varint_field(80, i64_varint(x))
            },
            None => 0,
        };
        n = s9 + n;
        let s8: usize = match self.created {
            Some(x) => {
                proof {
                    lemma_encode_fields_one(WireField { tag: 72, value: WireValue::Varint(varint_of_i64(x)) });
                }
                sizeof_varint_field(72, i64_varint(x))
            },
            None => 0,
        };
        n = s8 + n;
        let s7: usize = match &self.metadata {
            Some(x) => {
                proof {
                    lemma_encode_fields_one(WireField { tag: 66, value: WireValue::Bytes(x@) });
                }
                sizeof_len_field(66, x.len())
            },
            None => 0,
        };
        n = s7 + n;
        let s6: usize = {
            proof {
                lemma_encode_fields_one(WireField { tag: 58, value: WireValue::Bytes(m.data) });
            }
            sizeof_len_field(58, self.data.len())
        };
        n = s6 + n;
        let s5: usize = {
            proof {
                lemma_encode_fields_one(WireField { tag: 48, value: WireValue::Varint(varint_of_i32(m.metadata_content_type)) });
            }
            sizeof_varint_field(48, i32_varint(self.metadata_content_type))
        };
        n = s5 + n;
        let s4: usize = {
            proof {
                lemma_encode_fields_one(WireField { tag: 40, value: WireValue::Varint(varint_of_i32(m.data_content_type)) });
            }
            sizeof_varint_field(40, i32_varint(self.data_content_type))
        };
        n = s4 + n;
        let s3: usize = {
            proof {
                lemma_encode_fields_one(WireField { tag: 34, value: WireValue::Bytes(encode_utf8(m.event_type)) });
            }
            sizeof_len_field(34, self.event_type.as_str().as_bytes().len())
        };
        n = s3 + n;
        let s2: usize = {
            proof {
                lemma_encode_fields_one(WireField { tag: 26, value: WireValue::Bytes(m.event_id) });
            }
            sizeof_len_field(26, self.event_id.len())
        };
        n = s2 + n;
        let s1: usize = {
            proof {
                lemma_encode_fields_one(WireField { tag: 16, value: WireValue::Varint(varint_of_i32(m.event_number)) });
            }
            sizeof_varint_field(16, i32_varint(self.event_number))
        };
        n = s1 + n;
        let s0: usize = {
            proof {
                lemma_encode_fields_one(WireField { tag: 10, value: WireValue::Bytes(encode_utf8(m.event_stream_id)) });
            }
            sizeof_len_field(10, self.event_stream_id.as_str().as_bytes().len())
        };
        n = s0 + n;
        n
    }
}

/// An event of a stream, with the link that led to it.
#[derive(Debug, Clone, PartialEq)]
pub struct ResolvedIndexedEvent {
    /// The event
    pub event: EventRecord,
    /// The link event, when the event was reached through one
    pub link: Option<EventRecord>,
}

/// The contents of a `ResolvedIndexedEvent`.
pub struct ResolvedIndexedEventModel {
    pub event: EventRecordModel,
    pub link: Option<EventRecordModel>,
}

impl View for ResolvedIndexedEvent {
    type V = ResolvedIndexedEventModel;

    open spec fn view(&self) -> ResolvedIndexedEventModel {
        ResolvedIndexedEventModel {
            event: self.event@,
            link: match self.link {
                Some(x) => Some(x@),
                None => None,
            },
        }
    }
}

/// A `ResolvedIndexedEvent` with every field at its default.
pub open spec fn resolved_indexed_event_default() -> ResolvedIndexedEventModel {
    ResolvedIndexedEventModel {
        event: event_record_default(),
        link: None,
    }
}

/// Folds one field into a `ResolvedIndexedEvent`; fields of unknown tags are skipped.
pub open spec fn resolved_indexed_event_apply(m: ResolvedIndexedEventModel, f: WireField) -> Option<ResolvedIndexedEventModel> {
    if f.tag == 10 {
        match f.value {
            WireValue::Bytes(b) => match event_record_decode(b) {
                Some(s) => Some(ResolvedIndexedEventModel { event: s, ..m }),
                None => None,
            },
            _ => None,
        }
    } else {
        if f.tag == 18 {
            match f.value {
                WireValue::Bytes(b) => match event_record_decode(b) {
                    Some(s) => Some(ResolvedIndexedEventModel { link: Some(s), ..m }),
                    None => None,
                },
                _ => None,
            }
        } else {
            Some(m)
        }
    }
}

/// `resolved_indexed_event_apply` as a value.
pub open spec fn resolved_indexed_event_applier() -> spec_fn(ResolvedIndexedEventModel, WireField) -> Option<ResolvedIndexedEventModel> {
    |m: ResolvedIndexedEventModel, f: WireField| resolved_indexed_event_apply(m, f)
}

/// The tags of the fields that a `ResolvedIndexedEvent` reads; the others are skipped.
pub open spec fn resolved_indexed_event_known() -> spec_fn(u32) -> bool {
    |t: u32| t == 10 || t == 18
}

/// The `ResolvedIndexedEvent` that `bytes` encode, if they encode one.
pub open spec fn resolved_indexed_event_decode(bytes: Seq<u8>) -> Option<ResolvedIndexedEventModel> {
    decode_fields(bytes, resolved_indexed_event_default(), resolved_indexed_event_applier(), resolved_indexed_event_known())
}

/// The fields that encode a `ResolvedIndexedEvent`, in the order they are written.
pub open spec fn resolved_indexed_event_fields(m: ResolvedIndexedEventModel) -> Seq<WireField> {
    (seq![WireField { tag: 10, value: WireValue::Bytes(event_record_encode(m.event)) }]) + ((match m.link {
        Some(x) => seq![WireField { tag: 18, value: WireValue::Bytes(event_record_encode(x)) }],
        None => Seq::<WireField>::empty(),
    }))
}

/// The encoding of a `ResolvedIndexedEvent`.
pub open spec fn resolved_indexed_event_encode(m: ResolvedIndexedEventModel) -> Seq<u8> {
    encode_fields(resolved_indexed_event_fields(m))
}

/// A `ResolvedIndexedEvent` that reads back as written: every length-delimited field, those of the
/// embedded messages included, holds fewer than 2^32 bytes.
pub open spec fn resolved_indexed_event_wf(m: ResolvedIndexedEventModel) -> bool {
    fields_short(resolved_indexed_event_fields(m))
    && event_record_wf(m.event)
    && (m.link matches Some(x) ==> event_record_wf(x))
}

/// The fields of a `ResolvedIndexedEvent` carry the wire types of their payloads.
pub proof fn lemma_resolved_indexed_event_fields_tagged(m: ResolvedIndexedEventModel)
    ensures
        fields_tagged(resolved_indexed_event_fields(m)),
{
    assert(fields_tagged((match m.link {
        Some(x) => seq![WireField { tag: 18, value: WireValue::Bytes(event_record_encode(x)) }],
        None => Seq::<WireField>::empty(),
    })));
    assert(fields_tagged((seq![WireField { tag: 10, value: WireValue::Bytes(event_record_encode(m.event)) }])));
    lemma_fields_tagged_append(
        (seq![WireField { tag: 10, value: WireValue::Bytes(event_record_encode(m.event)) }]),
        (match m.link {
            Some(x) => seq![WireField { tag: 18, value: WireValue::Bytes(event_record_encode(x)) }],
            None => Seq::<WireField>::empty(),
        }),
    );
}

/// The bytes of an encoded `ResolvedIndexedEvent`: `event` under tag 10, `link` under tag 18, in this order; optional fields only
/// when present, repeated ones once per element.
pub proof fn lemma_resolved_indexed_event_encode_layout(m: ResolvedIndexedEventModel)
    ensures
        resolved_indexed_event_encode(m) == (bytes_field_bytes(10, event_record_encode(m.event))) + (((match m.link {
            Some(x) => bytes_field_bytes(18, event_record_encode(x)),
            None => Seq::<u8>::empty(),
        }))),
{
    lemma_encode_fields_append(
        (seq![WireField { tag: 10, value: WireValue::Bytes(event_record_encode(m.event)) }]),
        (match m.link {
            Some(x) => seq![WireField { tag: 18, value: WireValue::Bytes(event_record_encode(x)) }],
            None => Seq::<WireField>::empty(),
        }),
    );
    lemma_bytes_field_layout(10, event_record_encode(m.event));
    if let Some(x) = m.link {
        lemma_bytes_field_layout(18, event_record_encode(x));
    }
}

/// Reading a written `ResolvedIndexedEvent` gives it back.
pub proof fn lemma_resolved_indexed_event_roundtrip(m: ResolvedIndexedEventModel)
    requires
        resolved_indexed_event_wf(m),
    ensures
        resolved_indexed_event_decode(resolved_indexed_event_encode(m)) == Some(m),
{
    let ap = resolved_indexed_event_applier();
    lemma_resolved_indexed_event_fields_tagged(m);
    lemma_fields_canonical_of_short(resolved_indexed_event_fields(m));
    lemma_decode_encoded_fields(resolved_indexed_event_fields(m), resolved_indexed_event_default(), ap, resolved_indexed_event_known());
    let a0 = resolved_indexed_event_default();
    let a1 = ResolvedIndexedEventModel { event: m.event, ..a0 };
    lemma_apply_fields_append(
        (seq![WireField { tag: 10, value: WireValue::Bytes(event_record_encode(m.event)) }]),
        (match m.link {
            Some(x) => seq![WireField { tag: 18, value: WireValue::Bytes(event_record_encode(x)) }],
            None => Seq::<WireField>::empty(),
        }),
        a0,
        ap,
    );
    assert(apply_fields((seq![WireField { tag: 10, value: WireValue::Bytes(event_record_encode(m.event)) }]), a0, ap) == Some(a1)) by {
        reveal_with_fuel(apply_fields, 2);
        lemma_event_record_roundtrip(m.event);
    }
    let a2 = ResolvedIndexedEventModel { link: m.link, ..a1 };
    assert(apply_fields((match m.link {
        Some(x) => seq![WireField { tag: 18, value: WireValue::Bytes(event_record_encode(x)) }],
        None => Seq::<WireField>::empty(),
    }), a1, ap) == Some(a2)) by {
        reveal_with_fuel(apply_fields, 2);
        if let Some(x) = m.link {
            lemma_event_record_roundtrip(x);
        }
    }
    assert(a2 == m);
}

impl ResolvedIndexedEvent {
    /// Decodes a `ResolvedIndexedEvent` from its protobuf bytes.
    pub fn from_reader(bytes: &[u8]) -> (res: Option<ResolvedIndexedEvent>)
        ensures
            resolved_indexed_event_decode(bytes@) matches Some(m) ==> (res matches Some(e) && e@ == m),
            resolved_indexed_event_decode(bytes@) is None ==> res is None,
    {
        let mut msg = ResolvedIndexedEvent::default_value();
        let mut pos: usize = 0;
        assert(bytes@.skip(0) =~= bytes@);
        while pos < bytes.len()
            invariant
                pos <= bytes@.len(),
                resolved_indexed_event_decode(bytes@) == decode_fields(bytes@.skip(pos as int), msg@, resolved_indexed_event_applier(), resolved_indexed_event_known()),
            decreases bytes@.len() - pos,
        {
            let ghost old_msg = msg@;
            let (tag, p) = match read_tag(bytes, pos) {
                Some(x) => x,
                None => {
                    return None;
                },
            };
            proof {
                lemma_field_parts(bytes@, pos as int, resolved_indexed_event_known());
            }
            let known: bool = tag == 10 || tag == 18;
            let (value, next) = match read_value(bytes, p, tag, known) {
                Some(x) => x,
                None => {
                    return None;
                },
            };
            let ghost f = parse_field(bytes@.skip(pos as int), resolved_indexed_event_known()).unwrap().0;
            proof {
                lemma_decode_step(bytes@, pos as int, old_msg, resolved_indexed_event_applier(), resolved_indexed_event_known());
                lemma_parse_field_len(bytes@.skip(pos as int), resolved_indexed_event_known());
            }
            if tag == 10 {
                match value {
                    FieldValue::Bytes(i, j) => match EventRecord::from_reader(slice_subrange(bytes, i, j)) {
                        Some(s) => {
                            msg.event = s;
                        },
                        None => {
                            return None;
                        },
                    },
                    _ => {
                        return None;
                    },
                }
            } else if tag == 18 {
                match value {
                    FieldValue::Bytes(i, j) => match EventRecord::from_reader(slice_subrange(bytes, i, j)) {
                        Some(s) => {
                            msg.link = Some(s);
                        },
                        None => {
                            return None;
                        },
                    },
                    _ => {
                        return None;
                    },
                }
            }
            assert(resolved_indexed_event_apply(old_msg, f) == Some(msg@));
            pos = next;
        }
        assert(bytes@.skip(pos as int).len() == 0);
        Some(msg)
    }

    /// A `ResolvedIndexedEvent` with every field at its default.
    pub fn default_value() -> (m: ResolvedIndexedEvent)
        ensures
            m@ == resolved_indexed_event_default(),
    {
        let m = ResolvedIndexedEvent {
            event: EventRecord::default_value(),
            link: None,
        };
        m
    }

    /// A copy of this `ResolvedIndexedEvent`.
    pub fn copy(&self) -> (c: ResolvedIndexedEvent)
        ensures
            c@ == self@,
    {
        let c = ResolvedIndexedEvent {
            event: self.event.copy(),
            link: match &self.link {
                Some(x) => Some(x.copy()),
                None => None,
            },
        };
        c
    }

    /// Encodes this `ResolvedIndexedEvent` as protobuf bytes.
    #[verifier::spinoff_prover]
    #[verifier::rlimit(30)]
    pub fn encode(&self) -> (out: Vec<u8>)
        ensures
            out@ == resolved_indexed_event_encode(self@),
            out@.len() < modulus32() ==> resolved_indexed_event_wf(self@),
    {
        let mut out: Vec<u8> = Vec::new();
        let ghost mut fs: Seq<WireField> = Seq::empty();
        let sub = self.event.encode();
        write_bytes_field(&mut out, 10, sub.as_slice());
        proof {
            let f = WireField { tag: 10, value: WireValue::Bytes(event_record_encode(self.event@)) };
            lemma_encode_fields_push(fs, f);
            lemma_fields_shaped_push(fs, f);
            fs = fs.push(f);
        }
        match &self.link {
            Some(x) => {
                let sub = x.encode();
                write_bytes_field(&mut out, 18, sub.as_slice());
                proof {
                    let f = WireField { tag: 18, value: WireValue::Bytes(event_record_encode(x@)) };
                    lemma_encode_fields_push(fs, f);
                    lemma_fields_shaped_push(fs, f);
                    fs = fs.push(f);
                }
            },
            None => {},
        }
        assert(fs =~= resolved_indexed_event_fields(self@));
        proof {
            if out@.len() < modulus32() {
                lemma_fields_canonical_of_len(fs);
            }
        }
        out
    }

    /// The number of bytes of the encoding of this `ResolvedIndexedEvent`, computed without encoding it.
    #[verifier::spinoff_prover]
    #[verifier::rlimit(30)]
    pub fn get_size(&self) -> (n: usize)
        requires
            resolved_indexed_event_encode(self@).len() <= usize::MAX,
        ensures
            n == resolved_indexed_event_encode(self@).len(),
    {
        let ghost m = self@;
        proof {
            lemma_encode_fields_append(
                (seq![WireField { tag: 10, value: WireValue::Bytes(event_record_encode(m.event)) }]),
                (match m.link {
                    Some(x) => seq![WireField { tag: 18, value: WireValue::Bytes(event_record_encode(x)) }],
                    None => Seq::<WireField>::empty(),
                }),
            );
        }
        let mut n: usize = 0;
        let s1: usize = match &self.link {
            Some(x) => {
                proof {
                    lemma_encode_fields_one(WireField { tag: 18, value: WireValue::Bytes(event_record_encode(x@)) });
                }
                sizeof_len_field(18, x.get_size())
            },
            None => 0,
        };
        n = s1 + n;
        let s0: usize = {
            proof {
                lemma_encode_fields_one(WireField { tag: 10, value: WireValue::Bytes(event_record_encode(m.event)) });
            }
            sizeof_len_field(10, self.event.get_size())
        };
        n = s0 + n;
        n
    }
}

/// An event of the `$all` stream, with its positions.
#[derive(Debug, Clone, PartialEq)]
pub struct ResolvedEvent {
    /// The event
    pub event: EventRecord,
    /// The link event, when the event was reached through one
    pub link: Option<EventRecord>,
    /// Commit position of the event
    pub commit_position: i64,
    /// Prepare position of the event
    pub prepare_position: i64,
}

/// The contents of a `ResolvedEvent`.
pub struct ResolvedEventModel {
    pub event: EventRecordModel,
    pub link: Option<EventRecordModel>,
    pub commit_position: i64,
    pub prepare_position: i64,
}

impl View for ResolvedEvent {
    type V = ResolvedEventModel;

    open spec fn view(&self) -> ResolvedEventModel {
        ResolvedEventModel {
            event: self.event@,
            link: match self.link {
                Some(x) => Some(x@),
                None => None,
            },
            commit_position: self.commit_position,
            prepare_position: self.prepare_position,
        }
    }
}

/// A `ResolvedEvent` with every field at its default.
pub open spec fn resolved_event_default() -> ResolvedEventModel {
    ResolvedEventModel {
        event: event_record_default(),
        link: None,
        commit_position: 0,
        prepare_position: 0,
    }
}

/// Folds one field into a `ResolvedEvent`; fields of unknown tags are skipped.
pub open spec fn resolved_event_apply(m: ResolvedEventModel, f: WireField) -> Option<ResolvedEventModel> {
    if f.tag == 10 {
        match f.value {
            WireValue::Bytes(b) => match event_record_decode(b) {
                Some(s) => Some(ResolvedEventModel { event: s, ..m }),
                None => None,
            },
            _ => None,
        }
    } else {
        if f.tag == 18 {
            match f.value {
                WireValue::Bytes(b) => match event_record_decode(b) {
                    Some(s) => Some(ResolvedEventModel { link: Some(s), ..m }),
                    None => None,
                },
                _ => None,
            }
        } else {
            if f.tag == 24 {
                match f.value {
                    WireValue::Varint(v) => Some(ResolvedEventModel { commit_position: i64_of_varint(v), ..m }),
                    _ => None,
                }
            } else {
                if f.tag == 32 {
                    match f.value {
                        WireValue::Varint(v) => Some(ResolvedEventModel { prepare_position: i64_of_varint(v), ..m }),
                        _ => None,
                    }
                } else {
                    Some(m)
                }
            }
        }
    }
}

/// `resolved_event_apply` as a value.
pub open spec fn resolved_event_applier() -> spec_fn(ResolvedEventModel, WireField) -> Option<ResolvedEventModel> {
    |m: ResolvedEventModel, f: WireField| resolved_event_apply(m, f)
}

/// The tags of the fields that a `ResolvedEvent` reads; the others are skipped.
pub open spec fn resolved_event_known() -> spec_fn(u32) -> bool {
    |t: u32| t == 10 || t == 18 || t == 24 || t == 32
}

/// The `ResolvedEvent` that `bytes` encode, if they encode one.
pub open spec fn resolved_event_decode(bytes: Seq<u8>) -> Option<ResolvedEventModel> {
    decode_fields(bytes, resolved_event_default(), resolved_event_applier(), resolved_event_known())
}

/// The fields that encode a `ResolvedEvent`, in the order they are written.
pub open spec fn resolved_event_fields(m: ResolvedEventModel) -> Seq<WireField> {
    (seq![WireField { tag: 10, value: WireValue::Bytes(event_record_encode(m.event)) }]) + ((match m.link {
        Some(x) => seq![WireField { tag: 18, value: WireValue::Bytes(event_record_encode(x)) }],
        None => Seq::<WireField>::empty(),
    }) + ((seq![WireField { tag: 24, value: WireValue::Varint(varint_of_i64(m.commit_position)) }]) + ((seq![WireField { tag: 32, value: WireValue::Varint(varint_of_i64(m.prepare_position)) }]))))
}

/// The encoding of a `ResolvedEvent`.
pub open spec fn resolved_event_encode(m: ResolvedEventModel) -> Seq<u8> {
    encode_fields(resolved_event_fields(m))
}

/// A `ResolvedEvent` that reads back as written: every length-delimited field, those of the
/// embedded messages included, holds fewer than 2^32 bytes.
pub open spec fn resolved_event_wf(m: ResolvedEventModel) -> bool {
    fields_short(resolved_event_fields(m))
    && event_record_wf(m.event)
    && (m.link matches Some(x) ==> event_record_wf(x))
}

/// The fields of a `ResolvedEvent` carry the wire types of their payloads.
pub proof fn lemma_resolved_event_fields_tagged(m: ResolvedEventModel)
    ensures
        fields_tagged(resolved_event_fields(m)),
{
    assert(fields_tagged((seq![WireField { tag: 32, value: WireValue::Varint(varint_of_i64(m.prepare_position)) }])));
    assert(fields_tagged((seq![WireField { tag: 24, value: WireValue::Varint(varint_of_i64(m.commit_position)) }])));
    lemma_fields_tagged_append(
        (seq![WireField { tag: 24, value: WireValue::Varint(varint_of_i64(m.commit_position)) }]),
        (seq![WireField { tag: 32, value: WireValue::Varint(varint_of_i64(m.prepare_position)) }]),
    );
    assert(fields_tagged((match m.link {
        Some(x) => seq![WireField { tag: 18, value: WireValue::Bytes(event_record_encode(x)) }],
        None => Seq::<WireField>::empty(),
    })));
    lemma_fields_tagged_append(
        (match m.link {
            Some(x) => seq![WireField { tag: 18, value: WireValue::Bytes(event_record_encode(x)) }],
            None => Seq::<WireField>::empty(),
        }),
        (seq![WireField { tag: 24, value: WireValue::Varint(varint_of_i64(m.commit_position)) }]) + ((seq![WireField { tag: 32, value: WireValue::Varint(varint_of_i64(m.prepare_position)) }])),
    );
    assert(fields_tagged((seq![WireField { tag: 10, value: WireValue::Bytes(event_record_encode(m.event)) }])));
    lemma_fields_tagged_append(
        (seq![WireField { tag: 10, value: WireValue::Bytes(event_record_encode(m.event)) }]),
        (match m.link {
            Some(x) => seq![WireField { tag: 18, value: WireValue::Bytes(event_record_encode(x)) }],
            None => Seq::<WireField>::empty(),
        }) + ((seq![WireField { tag: 24, value: WireValue::Varint(varint_of_i64(m.commit_position)) }]) + ((seq![WireField { tag: 32, value: WireValue::Varint(varint_of_i64(m.prepare_position)) }]))),
    );
}

/// The bytes of an encoded `ResolvedEvent`: `event` under tag 10, `link` under tag 18, `commit_position` under tag 24, `prepare_position` under tag 32, in this order; optional fields only
/// when present, repeated ones once per element.
pub proof fn lemma_resolved_event_encode_layout(m: ResolvedEventModel)
    ensures
        resolved_event_encode(m) == (bytes_field_bytes(10, event_record_encode(m.event))) + (((match m.link {
            Some(x) => bytes_field_bytes(18, event_record_encode(x)),
            None => Seq::<u8>::empty(),
        })) + ((varint_field_bytes(24, varint_of_i64(m.commit_position))) + ((varint_field_bytes(32, varint_of_i64(m.prepare_position)))))),
{
    lemma_encode_fields_append(
        (seq![WireField { tag: 10, value: WireValue::Bytes(event_record_encode(m.event)) }]),
        (match m.link {
            Some(x) => seq![WireField { tag: 18, value: WireValue::Bytes(event_record_encode(x)) }],
            None => Seq::<WireField>::empty(),
        }) + ((seq![WireField { tag: 24, value: WireValue::Varint(varint_of_i64(m.commit_position)) }]) + ((seq![WireField { tag: 32, value: WireValue::Varint(varint_of_i64(m.prepare_position)) }]))),
    );
    lemma_encode_fields_append(
        (match m.link {
            Some(x) => seq![WireField { tag: 18, value: WireValue::Bytes(event_record_encode(x)) }],
            None => Seq::<WireField>::empty(),
        }),
        (seq![WireField { tag: 24, value: WireValue::Varint(varint_of_i64(m.commit_position)) }]) + ((seq![WireField { tag: 32, value: WireValue::Varint(varint_of_i64(m.prepare_position)) }])),
    );
    lemma_encode_fields_append(
        (seq![WireField { tag: 24, value: WireValue::Varint(varint_of_i64(m.commit_position)) }]),
        (seq![WireField { tag: 32, value: WireValue::Varint(varint_of_i64(m.prepare_position)) }]),
    );
    lemma_bytes_field_layout(10, event_record_encode(m.event));
    if let Some(x) = m.link {
        lemma_bytes_field_layout(18, event_record_encode(x));
    }
    lemma_varint_field_layout(24, varint_of_i64(m.commit_position));
    lemma_varint_field_layout(32, varint_of_i64(m.prepare_position));
}

/// Reading a written `ResolvedEvent` gives it back.
pub proof fn lemma_resolved_event_roundtrip(m: ResolvedEventModel)
    requires
        resolved_event_wf(m),
    ensures
        resolved_event_decode(resolved_event_encode(m)) == Some(m),
{
    let ap = resolved_event_applier();
    lemma_resolved_event_fields_tagged(m);
    lemma_fields_canonical_of_short(resolved_event_fields(m));
    lemma_decode_encoded_fields(resolved_event_fields(m), resolved_event_default(), ap, resolved_event_known());
    let a0 = resolved_event_default();
    let a1 = ResolvedEventModel { event: m.event, ..a0 };
    lemma_apply_fields_append(
        (seq![WireField { tag: 10, value: WireValue::Bytes(event_record_encode(m.event)) }]),
        (match m.link {
            Some(x) => seq![WireField { tag: 18, value: WireValue::Bytes(event_record_encode(x)) }],
            None => Seq::<WireField>::empty(),
        }) + ((seq![WireField { tag: 24, value: WireValue::Varint(varint_of_i64(m.commit_position)) }]) + ((seq![WireField { tag: 32, value: WireValue::Varint(varint_of_i64(m.prepare_position)) }]))),
        a0,
        ap,
    );
    assert(apply_fields((seq![WireField { tag: 10, value: WireValue::Bytes(event_record_encode(m.event)) }]), a0, ap) == Some(a1)) by {
        reveal_with_fuel(apply_fields, 2);
        lemma_event_record_roundtrip(m.event);
    }
    let a2 = ResolvedEventModel { link: m.link, ..a1 };
    lemma_apply_fields_append(
        (match m.link {
            Some(x) => seq![WireField { tag: 18, value: WireValue::Bytes(event_record_encode(x)) }],
            None => Seq::<WireField>::empty(),
        }),
        (seq![WireField { tag: 24, value: WireValue::Varint(varint_of_i64(m.commit_position)) }]) + ((seq![WireField { tag: 32, value: WireValue::Varint(varint_of_i64(m.prepare_position)) }])),
        a1,
        ap,
    );
    assert(apply_fields((match m.link {
        Some(x) => seq![WireField { tag: 18, value: WireValue::Bytes(event_record_encode(x)) }],
        None => Seq::<WireField>::empty(),
    }), a1, ap) == Some(a2)) by {
        reveal_with_fuel(apply_fields, 2);
        if let Some(x) = m.link {
            lemma_event_record_roundtrip(x);
        }
    }
    let a3 = ResolvedEventModel { commit_position: m.commit_position, ..a2 };
    lemma_apply_fields_append(
        (seq![WireField { tag: 24, value: WireValue::Varint(varint_of_i64(m.commit_position)) }]),
        (seq![WireField { tag: 32, value: WireValue::Varint(varint_of_i64(m.prepare_position)) }]),
        a2,
        ap,
    );
    assert(apply_fields((seq![WireField { tag: 24, value: WireValue::Varint(varint_of_i64(m.commit_position)) }]), a2, ap) == Some(a3)) by {
        reveal_with_fuel(apply_fields, 2);
        lemma_scalar_roundtrips(0, m.commit_position, false);
    }
    let a4 = ResolvedEventModel { prepare_position: m.prepare_position, ..a3 };
    assert(apply_fields((seq![WireField { tag: 32, value: WireValue::Varint(varint_of_i64(m.prepare_position)) }]), a3, ap) == Some(a4)) by {
        reveal_with_fuel(apply_fields, 2);
        lemma_scalar_roundtrips(0, m.prepare_position, false);
    }
    assert(a4 == m);
}

impl ResolvedEvent {
    /// Decodes a `ResolvedEvent` from its protobuf bytes.
    pub fn from_reader(bytes: &[u8]) -> (res: Option<ResolvedEvent>)
        ensures
            resolved_event_decode(bytes@) matches Some(m) ==> (res matches Some(e) && e@ == m),
            resolved_event_decode(bytes@) is None ==> res is None,
    {
        let mut msg = ResolvedEvent::default_value();
        let mut pos: usize = 0;
        assert(bytes@.skip(0) =~= bytes@);
        while pos < bytes.len()
            invariant
                pos <= bytes@.len(),
                resolved_event_decode(bytes@) == decode_fields(bytes@.skip(pos as int), msg@, resolved_event_applier(), resolved_event_known()),
            decreases bytes@.len() - pos,
        {
            let ghost old_msg = msg@;
            let (tag, p) = match read_tag(bytes, pos) {
                Some(x) => x,
                None => {
                    return None;
                },
            };
            proof {
                lemma_field_parts(bytes@, pos as int, resolved_event_known());
            }
            let known: bool = tag == 10 || tag == 18 || tag == 24 || tag == 32;
            let (value, next) = match read_value(bytes, p, tag, known) {
                Some(x) => x,
                None => {
                    return None;
                },
            };
            let ghost f = parse_field(bytes@.skip(pos as int), resolved_event_known()).unwrap().0;
            proof {
                lemma_decode_step(bytes@, pos as int, old_msg, resolved_event_applier(), resolved_event_known());
                lemma_parse_field_len(bytes@.skip(pos as int), resolved_event_known());
            }
            if tag == 10 {
                match value {
                    FieldValue::Bytes(i, j) => match EventRecord::from_reader(slice_subrange(bytes, i, j)) {
                        Some(s) => {
                            msg.event = s;
                        },
                        None => {
                            return None;
                        },
                    },
                    _ => {
                        return None;
                    },
                }
            } else if tag == 18 {
                match value {
                    FieldValue::Bytes(i, j) => match EventRecord::from_reader(slice_subrange(bytes, i, j)) {
                        Some(s) => {
                            msg.link = Some(s);
                        },
                        None => {
                            return None;
                        },
                    },
                    _ => {
                        return None;
                    },
                }
            } else if tag == 24 {
                match value {
                    FieldValue::Varint(v) => {
                        msg.commit_position = varint_i64(v);
                    },
                    _ => {
                        return None;
                    },
                }
            } else if tag == 32 {
                match value {
                    FieldValue::Varint(v) => {
                        msg.prepare_position = varint_i64(v);
                    },
                    _ => {
                        return None;
                    },
                }
            }
            assert(resolved_event_apply(old_msg, f) == Some(msg@));
            pos = next;
        }
        assert(bytes@.skip(pos as int).len() == 0);
        Some(msg)
    }

    /// A `ResolvedEvent` with every field at its default.
    pub fn default_value() -> (m: ResolvedEvent)
        ensures
            m@ == resolved_event_default(),
    {
        let m = ResolvedEvent {
            event: EventRecord::default_value(),
            link: None,
            commit_position: 0,
            prepare_position: 0,
        };
        m
    }

    /// A copy of this `ResolvedEvent`.
    pub fn copy(&self) -> (c: ResolvedEvent)
        ensures
            c@ == self@,
    {
        let c = ResolvedEvent {
            event: self.event.copy(),
            link: match &self.link {
                Some(x) => Some(x.copy()),
                None => None,
            },
            commit_position: self.commit_position,
            prepare_position: self.prepare_position,
        };
        c
    }

    /// Encodes this `ResolvedEvent` as protobuf bytes.
    #[verifier::spinoff_prover]
    #[verifier::rlimit(30)]
    pub fn encode(&self) -> (out: Vec<u8>)
        ensures
            out@ == resolved_event_encode(self@),
            out@.len() < modulus32() ==> resolved_event_wf(self@),
    {
        let mut out: Vec<u8> = Vec::new();
        let ghost mut fs: Seq<WireField> = Seq::empty();
        let sub = self.event.encode();
        write_bytes_field(&mut out, 10, sub.as_slice());
        proof {
            let f = WireField { tag: 10, value: WireValue::Bytes(event_record_encode(self.event@)) };
            lemma_encode_fields_push(fs, f);
            lemma_fields_shaped_push(fs, f);
            fs = fs.push(f);
        }
        match &self.link {
            Some(x) => {
                let sub = x.encode();
                write_bytes_field(&mut out, 18, sub.as_slice());
                proof {
                    let f = WireField { tag: 18, value: WireValue::Bytes(event_record_encode(x@)) };
                    lemma_encode_fields_push(fs, f);
                    lemma_fields_shaped_push(fs, f);
                    fs = fs.push(f);
                }
            },
            None => {},
        }
        write_varint_field(&mut out, 24, i64_varint(self.commit_position));
        proof {
            let f = WireField { tag: 24, value: WireValue::Varint(varint_of_i64(self.commit_position)) };
            lemma_encode_fields_push(fs, f);
            lemma_fields_shaped_push(fs, f);
            fs = fs.push(f);
        }
        write_varint_field(&mut out, 32, i64_varint(self.prepare_position));
        proof {
            let f = WireField { tag: 32, value: WireValue::Varint(varint_of_i64(self.prepare_position)) };
            lemma_encode_fields_push(fs, f);
            lemma_fields_shaped_push(fs, f);
            fs = fs.push(f);
        }
        assert(fs =~= resolved_event_fields(self@));
        proof {
            if out@.len() < modulus32() {
                lemma_fields_canonical_of_len(fs);
            }
        }
        out
    }

    /// The number of bytes of the encoding of this `ResolvedEvent`, computed without encoding it.
    #[verifier::spinoff_prover]
    #[verifier::rlimit(30)]
    pub fn get_size(&self) -> (n: usize)
        requires
            resolved_event_encode(self@).len() <= usize::MAX,
        ensures
            n == resolved_event_encode(self@).len(),
    {
        let ghost m = self@;
        proof {
            lemma_encode_fields_append(
                (seq![WireField { tag: 10, value: WireValue::Bytes(event_record_encode(m.event)) }]),
                (match m.link {
                    Some(x) => seq![WireField { tag: 18, value: WireValue::Bytes(event_record_encode(x)) }],
                    None => Seq::<WireField>::empty(),
                }) + ((seq![WireField { tag: 24, value: WireValue::Varint(varint_of_i64(m.commit_position)) }]) + ((seq![WireField { tag: 32, value: WireValue::Varint(varint_of_i64(m.prepare_position)) }]))),
            );
            lemma_encode_fields_append(
                (match m.link {
                    Some(x) => seq![WireField { tag: 18, value: WireValue::Bytes(event_record_encode(x)) }],
                    None => Seq::<WireField>::empty(),
                }),
                (seq![WireField { tag: 24, value: WireValue::Varint(varint_of_i64(m.commit_position)) }]) + ((seq![WireField { tag: 32, value: WireValue::Varint(varint_of_i64(m.prepare_position)) }])),
            );
            lemma_encode_fields_append(
                (seq![WireField { tag: 24, value: WireValue::Varint(varint_of_i64(m.commit_position)) }]),
                (seq![WireField { tag: 32, value: WireValue::Varint(varint_of_i64(m.prepare_position)) }]),
            );
        }
        let mut n: usize = 0;
        let s3: usize = {
            proof {
                lemma_encode_fields_one(WireField { tag: 32, value: WireValue::Varint(varint_of_i64(m.prepare_position)) });
            }
            sizeof_varint_field(32, i64_varint(self.prepare_position))
        };
        n = s3 + n;
        let s2: usize = {
            proof {
                lemma_encode_fields_one(WireField { tag: 24, value: WireValue::Varint(varint_of_i64(m.commit_position)) });
            }
            sizeof_varint_field(24, i64_varint(self.commit_position))
        };
        n = s2 + n;
        let s1: usize = match &self.link {
            Some(x) => {
                proof {
                    lemma_encode_fields_one(WireField { tag: 18, value: WireValue::Bytes(event_record_encode(x@)) });
                }
                sizeof_len_field(18, x.get_size())
            },
            None => 0,
        };
        n = s1 + n;
        let s0: usize = {
            proof {
                lemma_encode_fields_one(WireField { tag: 10, value: WireValue::Bytes(event_record_encode(m.event)) });
            }
            sizeof_len_field(10, self.event.get_size())
        };
        n = s0 + n;
        n
    }
}

} // verus!
