//! Protobuf messages of transactions.
use vstd::prelude::*;
use vstd::utf8::encode_utf8;
use vstd::slice::slice_subrange;
use crate::wire::{
    WireField, WireValue, FieldValue, string_of, i32_of_varint, i64_of_varint, bool_of_varint,
    varint_of_i32, varint_of_i64, varint_of_bool, decode_fields, encode_fields, fields_shaped,
    apply_fields, lemma_decode_encoded_fields, lemma_apply_fields_append, lemma_string_roundtrip,
    lemma_scalar_roundtrips, parse_field, read_tag, read_value, lemma_field_parts,
    lemma_decode_step, lemma_parse_field_len, copy_string, varint_i32, varint_i64, varint_bool,
    i32_varint, i64_varint, bool_varint, write_bytes_field, write_varint_field,
    lemma_encode_fields_push, lemma_fields_shaped_push, lemma_fields_canonical_of_len, modulus32,
    lemma_encode_fields_append, lemma_encode_fields_one, lemma_encode_fields_take_len,
    sizeof_varint_field, sizeof_len_field, fields_short, fields_tagged, lemma_fields_tagged_append,
    lemma_fields_canonical_of_short, varint_field_bytes, bytes_field_bytes, repeated_field_bytes,
    lemma_varint_field_layout, lemma_bytes_field_layout, lemma_repeated_field_layout,
};
use crate::raw::events::{
    NewEvent, NewEventModel, new_event_decode, new_event_encode, new_event_wf,
    lemma_new_event_roundtrip, opt_string_view,
};
use crate::raw::write::OperationResult;

verus! {

/// Request to start a transaction on a stream.
#[derive(Debug, Clone, PartialEq)]
pub struct TransactionStart {
    /// The stream of the transaction
    pub event_stream_id: String,
    /// The expected version of the stream
    pub expected_version: i32,
    /// Whether only the master may handle the request
    pub require_master: bool,
}

/// The contents of a `TransactionStart`.
pub struct TransactionStartModel {
    pub event_stream_id: Seq<char>,
    pub expected_version: i32,
    pub require_master: bool,
}

impl View for TransactionStart {
    type V = TransactionStartModel;

    open spec fn view(&self) -> TransactionStartModel {
        TransactionStartModel {
            event_stream_id: self.event_stream_id@,
            expected_version: self.expected_version,
            require_master: self.require_master,
        }
    }
}

/// A `TransactionStart` with every field at its default.
pub open spec fn transaction_start_default() -> TransactionStartModel {
    TransactionStartModel {
        event_stream_id: Seq::empty(),
        expected_version: 0,
        require_master: false,
    }
}

/// Folds one field into a `TransactionStart`; fields of unknown tags are skipped.
pub open spec fn transaction_start_apply(m: TransactionStartModel, f: WireField) -> Option<TransactionStartModel> {
    if f.tag == 10 {
        match f.value {
            WireValue::Bytes(b) => match string_of(b) {
                Some(s) => Some(TransactionStartModel { event_stream_id: s, ..m }),
                None => None,
            },
            _ => None,
        }
    } else {
        if f.tag == 16 {
            match f.value {
                WireValue::Varint(v) => Some(TransactionStartModel { expected_version: i32_of_varint(v), ..m }),
                _ => None,
            }
        } else {
            if f.tag == 24 {
                match f.value {
                    WireValue::Varint(v) => Some(TransactionStartModel { require_master: bool_of_varint(v), ..m }),
                    _ => None,
                }
            } else {
                Some(m)
            }
        }
    }
}

/// `transaction_start_apply` as a value.
pub open spec fn transaction_start_applier() -> spec_fn(TransactionStartModel, WireField) -> Option<TransactionStartModel> {
    |m: TransactionStartModel, f: WireField| transaction_start_apply(m, f)
}

/// The tags of the fields that a `TransactionStart` reads; the others are skipped.
pub open spec fn transaction_start_known() -> spec_fn(u32) -> bool {
    |t: u32| t == 10 || t == 16 || t == 24
}

/// The `TransactionStart` that `bytes` encode, if they encode one.
pub open spec fn transaction_start_decode(bytes: Seq<u8>) -> Option<TransactionStartModel> {
    decode_fields(bytes, transaction_start_default(), transaction_start_applier(), transaction_start_known())
}

/// The fields that encode a `TransactionStart`, in the order they are written.
pub open spec fn transaction_start_fields(m: TransactionStartModel) -> Seq<WireField> {
    (seq![WireField { tag: 10, value: WireValue::Bytes(encode_utf8(m.event_stream_id)) }]) + ((seq![WireField { tag: 16, value: WireValue::Varint(varint_of_i32(m.expected_version)) }]) + ((seq![WireField { tag: 24, value: WireValue::Varint(varint_of_bool(m.require_master)) }])))
}

/// The encoding of a `TransactionStart`.
pub open spec fn transaction_start_encode(m: TransactionStartModel) -> Seq<u8> {
    encode_fields(transaction_start_fields(m))
}

/// A `TransactionStart` that reads back as written: every length-delimited field, those of the
/// embedded messages included, holds fewer than 2^32 bytes.
pub open spec fn transaction_start_wf(m: TransactionStartModel) -> bool {
    fields_short(transaction_start_fields(m))
}

/// The fields of a `TransactionStart` carry the wire types of their payloads.
pub proof fn lemma_transaction_start_fields_tagged(m: TransactionStartModel)
    ensures
        fields_tagged(transaction_start_fields(m)),
{
    assert(fields_tagged((seq![WireField { tag: 24, value: WireValue::Varint(varint_of_bool(m.require_master)) }])));
    assert(fields_tagged((seq![WireField { tag: 16, value: WireValue::Varint(varint_of_i32(m.expected_version)) }])));
    lemma_fields_tagged_append(
        (seq![WireField { tag: 16, value: WireValue::Varint(varint_of_i32(m.expected_version)) }]),
        (seq![WireField { tag: 24, value: WireValue::Varint(varint_of_bool(m.require_master)) }]),
    );
    assert(fields_tagged((seq![WireField { tag: 10, value: WireValue::Bytes(encode_utf8(m.event_stream_id)) }])));
    lemma_fields_tagged_append(
        (seq![WireField { tag: 10, value: WireValue::Bytes(encode_utf8(m.event_stream_id)) }]),
        (seq![WireField { tag: 16, value: WireValue::Varint(varint_of_i32(m.expected_version)) }]) + ((seq![WireField { tag: 24, value: WireValue::Varint(varint_of_bool(m.require_master)) }])),
    );
}

/// The bytes of an encoded `TransactionStart`: `event_stream_id` under tag 10, `expected_version` under tag 16, `require_master` under tag 24, in this order; optional fields only
/// when present, repeated ones once per element.
pub proof fn lemma_transaction_start_encode_layout(m: TransactionStartModel)
    ensures
        transaction_start_encode(m) == (bytes_field_bytes(10, encode_utf8(m.event_stream_id))) + ((varint_field_bytes(16, varint_of_i32(m.expected_version))) + ((varint_field_bytes(24, varint_of_bool(m.require_master))))),
{
    lemma_encode_fields_append(
        (seq![WireField { tag: 10, value: WireValue::Bytes(encode_utf8(m.event_stream_id)) }]),
        (seq![WireField { tag: 16, value: WireValue::Varint(varint_of_i32(m.expected_version)) }]) + ((seq![WireField { tag: 24, value: WireValue::Varint(varint_of_bool(m.require_master)) }])),
    );
    lemma_encode_fields_append(
        (seq![WireField { tag: 16, value: WireValue::Varint(varint_of_i32(m.expected_version)) }]),
        (seq![WireField { tag: 24, value: WireValue::Varint(varint_of_bool(m.require_master)) }]),
    );
    lemma_bytes_field_layout(10, encode_utf8(m.event_stream_id));
    lemma_varint_field_layout(16, varint_of_i32(m.expected_version));
    lemma_varint_field_layout(24, varint_of_bool(m.require_master));
}

/// Reading a written `TransactionStart` gives it back.
pub proof fn lemma_transaction_start_roundtrip(m: TransactionStartModel)
    requires
        transaction_start_wf(m),
    ensures
        transaction_start_decode(transaction_start_encode(m)) == Some(m),
{
    let ap = transaction_start_applier();
    lemma_transaction_start_fields_tagged(m);
    lemma_fields_canonical_of_short(transaction_start_fields(m));
    lemma_decode_encoded_fields(transaction_start_fields(m), transaction_start_default(), ap, transaction_start_known());
    let a0 = transaction_start_default();
    let a1 = TransactionStartModel { event_stream_id: m.event_stream_id, ..a0 };
    lemma_apply_fields_append(
        (seq![WireField { tag: 10, value: WireValue::Bytes(encode_utf8(m.event_stream_id)) }]),
        (seq![WireField { tag: 16, value: WireValue::Varint(varint_of_i32(m.expected_version)) }]) + ((seq![WireField { tag: 24, value: WireValue::Varint(varint_of_bool(m.require_master)) }])),
        a0,
        ap,
    );
    assert(apply_fields((seq![WireField { tag: 10, value: WireValue::Bytes(encode_utf8(m.event_stream_id)) }]), a0, ap) == Some(a1)) by {
        reveal_with_fuel(apply_fields, 2);
        lemma_string_roundtrip(m.event_stream_id);
    }
    let a2 = TransactionStartModel { expected_version: m.expected_version, ..a1 };
    lemma_apply_fields_append(
        (seq![WireField { tag: 16, value: WireValue::Varint(varint_of_i32(m.expected_version)) }]),
        (seq![WireField { tag: 24, value: WireValue::Varint(varint_of_bool(m.require_master)) }]),
        a1,
        ap,
    );
    assert(apply_fields((seq![WireField { tag: 16, value: WireValue::Varint(varint_of_i32(m.expected_version)) }]), a1, ap) == Some(a2)) by {
        reveal_with_fuel(apply_fields, 2);
        lemma_scalar_roundtrips(m.expected_version, 0, false);
    }
    let a3 = TransactionStartModel { require_master: m.require_master, ..a2 };
    assert(apply_fields((seq![WireField { tag: 24, value: WireValue::Varint(varint_of_bool(m.require_master)) }]), a2, ap) == Some(a3)) by {
        reveal_with_fuel(apply_fields, 2);
        lemma_scalar_roundtrips(0, 0, m.require_master);
    }
    assert(a3 == m);
}

impl TransactionStart {
    /// Decodes a `TransactionStart` from its protobuf bytes.
    pub fn from_reader(bytes: &[u8]) -> (res: Option<TransactionStart>)
        ensures
            transaction_start_decode(bytes@) matches Some(m) ==> (res matches Some(e) && e@ == m),
            transaction_start_decode(bytes@) is None ==> res is None,
    {
        let mut msg = TransactionStart::default_value();
        let mut pos: usize = 0;
        assert(bytes@.skip(0) =~= bytes@);
        while pos < bytes.len()
            invariant
                pos <= bytes@.len(),
                transaction_start_decode(bytes@) == decode_fields(bytes@.skip(pos as int), msg@, transaction_start_applier(), transaction_start_known()),
            decreases bytes@.len() - pos,
        {
            let ghost old_msg = msg@;
            let (tag, p) = match read_tag(bytes, pos) {
                Some(x) => x,
                None => {
                    return None;
                },
            };
            proof {
                lemma_field_parts(bytes@, pos as int, transaction_start_known());
            }
            let known: bool = tag == 10 || tag == 16 || tag == 24;
            let (value, next) = match read_value(bytes, p, tag, known) {
                Some(x) => x,
                None => {
                    return None;
                },
            };
            let ghost f = parse_field(bytes@.skip(pos as int), transaction_start_known()).unwrap().0;
            proof {
                lemma_decode_step(bytes@, pos as int, old_msg, transaction_start_applier(), transaction_start_known());
                lemma_parse_field_len(bytes@.skip(pos as int), transaction_start_known());
            }
            if tag == 10 {
                match value {
                    FieldValue::Bytes(i, j) => match copy_string(bytes, i, j) {
                        Some(s) => {
                            msg.event_stream_id = s;
                        },
                        None => {
                            return None;
                        },
                    },
                    _ => {
                        return None;
                    },
                }
            } else if tag == 16 {
                match value {
                    FieldValue::Varint(v) => {
                        msg.expected_version = varint_i32(v);
                    },
                    _ => {
                        return None;
                    },
                }
            } else if tag == 24 {
                match value {
                    FieldValue::Varint(v) => {
                        msg.require_master = varint_bool(v);
                    },
                    _ => {
                        return None;
                    },
                }
            }
            assert(transaction_start_apply(old_msg, f) == Some(msg@));
            pos = next;
        }
        assert(bytes@.skip(pos as int).len() == 0);
        Some(msg)
    }

    /// A `TransactionStart` with every field at its default.
    pub fn default_value() -> (m: TransactionStart)
        ensures
            m@ == transaction_start_default(),
    {
        let m = TransactionStart {
            event_stream_id: String::new(),
            expected_version: 0,
            require_master: false,
        };
        m
    }

    /// A copy of this `TransactionStart`.
    pub fn copy(&self) -> (c: TransactionStart)
        ensures
            c@ == self@,
    {
        let c = TransactionStart {
            event_stream_id: self.event_stream_id.clone(),
            expected_version: self.expected_version,
            require_master: self.require_master,
        };
        assert(c@.event_stream_id =~= self@.event_stream_id);
        c
    }

    /// Encodes this `TransactionStart` as protobuf bytes.
    #[verifier::spinoff_prover]
    #[verifier::rlimit(30)]
    pub fn encode(&self) -> (out: Vec<u8>)
        ensures
            out@ == transaction_start_encode(self@),
            out@.len() < modulus32() ==> transaction_start_wf(self@),
    {
        let mut out: Vec<u8> = Vec::new();
        let ghost mut fs: Seq<WireField> = Seq::empty();
        write_bytes_field(&mut out, 10, self.event_stream_id.as_str().as_bytes());
        proof {
            let f = WireField { tag: 10, value: WireValue::Bytes(encode_utf8(self.event_stream_id@)) };
            lemma_encode_fields_push(fs, f);
            lemma_fields_shaped_push(fs, f);
            fs = fs.push(f);
        }
        write_varint_field(&mut out, 16, i32_varint(self.expected_version));
        proof {
            let f = WireField { tag: 16, value: WireValue::Varint(varint_of_i32(self.expected_version)) };
            lemma_encode_fields_push(fs, f);
            lemma_fields_shaped_push(fs, f);
            fs = fs.push(f);
        }
        write_varint_field(&mut out, 24, bool_varint(self.require_master));
        proof {
            let f = WireField { tag: 24, value: WireValue::Varint(varint_of_bool(self.require_master)) };
            lemma_encode_fields_push(fs, f);
            lemma_fields_shaped_push(fs, f);
            fs = fs.push(f);
        }
        assert(fs =~= transaction_start_fields(self@));
        proof {
            if out@.len() < modulus32() {
                lemma_fields_canonical_of_len(fs);
            }
        }
        out
    }

    /// The number of bytes of the encoding of this `TransactionStart`, computed without encoding it.
    #[verifier::spinoff_prover]
    #[verifier::rlimit(30)]
    pub fn get_size(&self) -> (n: usize)
        requires
            transaction_start_encode(self@).len() <= usize::MAX,
        ensures
            n == transaction_start_encode(self@).len(),
    {
        let ghost m = self@;
        proof {
            lemma_encode_fields_append(
                (seq![WireField { tag: 10, value: WireValue::Bytes(encode_utf8(m.event_stream_id)) }]),
                (seq![WireField { tag: 16, value: WireValue::Varint(varint_of_i32(m.expected_version)) }]) + ((seq![WireField { tag: 24, value: WireValue::Varint(varint_of_bool(m.require_master)) }])),
            );
            lemma_encode_fields_append(
                (seq![WireField { tag: 16, value: WireValue::Varint(varint_of_i32(m.expected_version)) }]),
                (seq![WireField { tag: 24, value: WireValue::Varint(varint_of_bool(m.require_master)) }]),
            );
        }
        let mut n: usize = 0;
        let s2: usize = {
            proof {
                lemma_encode_fields_one(WireField { tag: 24, value: WireValue::Varint(varint_of_bool(m.require_master)) });
            }
            sizeof_varint_field(24, bool_varint(self.require_master))
        };
        n = s2 + n;
        let s1: usize = {
            proof {
                lemma_encode_fields_one(WireField { tag: 16, value: WireValue::Varint(varint_of_i32(m.expected_version)) });
            }
            sizeof_varint_field(16, i32_varint(self.expected_version))
        };
        n = s1 + n;
        let s0: usize = {
            proof {
                lemma_encode_fields_one(WireField { tag: 10, value: WireValue::Bytes(encode_utf8(m.event_stream_id)) });
            }
            sizeof_len_field(10, self.event_stream_id.as_str().as_bytes().len())
        };
        n = s0 + n;
        n
    }
}

/// Response to `TransactionStart`.
#[derive(Debug, Clone, PartialEq)]
pub struct TransactionStartCompleted {
    /// The id of the transaction started
    pub transaction_id: i64,
    /// The outcome
    pub result: Option<OperationResult>,
    /// An explanation
    pub message: Option<String>,
}

/// The contents of a `TransactionStartCompleted`.
pub struct TransactionStartCompletedModel {
    pub transaction_id: i64,
    pub result: Option<OperationResult>,
    pub message: Option<Seq<char>>,
}

impl View for TransactionStartCompleted {
    type V = TransactionStartCompletedModel;

    open spec fn view(&self) -> TransactionStartCompletedModel {
        TransactionStartCompletedModel {
            transaction_id: self.transaction_id,
            result: self.result,
            message: opt_string_view(self.message),
        }
    }
}

/// A `TransactionStartCompleted` with every field at its default.
pub open spec fn transaction_start_completed_default() -> TransactionStartCompletedModel {
    TransactionStartCompletedModel {
        transaction_id: 0,
        result: None,
        message: None,
    }
}

/// Folds one field into a `TransactionStartCompleted`; fields of unknown tags are skipped.
pub open spec fn transaction_start_completed_apply(m: TransactionStartCompletedModel, f: WireField) -> Option<TransactionStartCompletedModel> {
    if f.tag == 8 {
        match f.value {
            WireValue::Varint(v) => Some(TransactionStartCompletedModel { transaction_id: i64_of_varint(v), ..m }),
            _ => None,
        }
    } else {
        if f.tag == 16 {
            match f.value {
                WireValue::Varint(v) => Some(TransactionStartCompletedModel { result: Some(OperationResult::from_i32_spec(i32_of_varint(v))), ..m }),
                _ => None,
            }
        } else {
            if f.tag == 26 {
                match f.value {
                    WireValue::Bytes(b) => match string_of(b) {
                        Some(s) => Some(TransactionStartCompletedModel { message: Some(s), ..m }),
                        None => None,
                    },
                    _ => None,
                }
            } else {
                Some(m)
            }
        }
    }
}

/// `transaction_start_completed_apply` as a value.
pub open spec fn transaction_start_completed_applier() -> spec_fn(TransactionStartCompletedModel, WireField) -> Option<TransactionStartCompletedModel> {
    |m: TransactionStartCompletedModel, f: WireField| transaction_start_completed_apply(m, f)
}

/// The tags of the fields that a `TransactionStartCompleted` reads; the others are skipped.
pub open spec fn transaction_start_completed_known() -> spec_fn(u32) -> bool {
    |t: u32| t == 8 || t == 16 || t == 26
}

/// The `TransactionStartCompleted` that `bytes` encode, if they encode one.
pub open spec fn transaction_start_completed_decode(bytes: Seq<u8>) -> Option<TransactionStartCompletedModel> {
    decode_fields(bytes, transaction_start_completed_default(), transaction_start_completed_applier(), transaction_start_completed_known())
}

/// The fields that encode a `TransactionStartCompleted`, in the order they are written.
pub open spec fn transaction_start_completed_fields(m: TransactionStartCompletedModel) -> Seq<WireField> {
    (seq![WireField { tag: 8, value: WireValue::Varint(varint_of_i64(m.transaction_id)) }]) + ((match m.result {
        Some(x) => seq![WireField { tag: 16, value: WireValue::Varint(varint_of_i32(x.to_i32_spec())) }],
        None => Seq::<WireField>::empty(),
    }) + ((match m.message {
        Some(x) => seq![WireField { tag: 26, value: WireValue::Bytes(encode_utf8(x)) }],
        None => Seq::<WireField>::empty(),
    })))
}

/// The encoding of a `TransactionStartCompleted`.
pub open spec fn transaction_start_completed_encode(m: TransactionStartCompletedModel) -> Seq<u8> {
    encode_fields(transaction_start_completed_fields(m))
}

/// A `TransactionStartCompleted` that reads back as written: every length-delimited field, those of the
/// embedded messages included, holds fewer than 2^32 bytes.
pub open spec fn transaction_start_completed_wf(m: TransactionStartCompletedModel) -> bool {
    fields_short(transaction_start_completed_fields(m))
}

/// The fields of a `TransactionStartCompleted` carry the wire types of their payloads.
pub proof fn lemma_transaction_start_completed_fields_tagged(m: TransactionStartCompletedModel)
    ensures
        fields_tagged(transaction_start_completed_fields(m)),
{
    assert(fields_tagged((match m.message {
        Some(x) => seq![WireField { tag: 26, value: WireValue::Bytes(encode_utf8(x)) }],
        None => Seq::<WireField>::empty(),
    })));
    assert(fields_tagged((match m.result {
        Some(x) => seq![WireField { tag: 16, value: WireValue::Varint(varint_of_i32(x.to_i32_spec())) }],
        None => Seq::<WireField>::empty(),
    })));
    lemma_fields_tagged_append(
        (match m.result {
            Some(x) => seq![WireField { tag: 16, value: WireValue::Varint(varint_of_i32(x.to_i32_spec())) }],
            None => Seq::<WireField>::empty(),
        }),
        (match m.message {
            Some(x) => seq![WireField { tag: 26, value: WireValue::Bytes(encode_utf8(x)) }],
            None => Seq::<WireField>::empty(),
        }),
    );
    assert(fields_tagged((seq![WireField { tag: 8, value: WireValue::Varint(varint_of_i64(m.transaction_id)) }])));
    lemma_fields_tagged_append(
        (seq![WireField { tag: 8, value: WireValue::Varint(varint_of_i64(m.transaction_id)) }]),
        (match m.result {
            Some(x) => seq![WireField { tag: 16, value: WireValue::Varint(varint_of_i32(x.to_i32_spec())) }],
            None => Seq::<WireField>::empty(),
        }) + ((match m.message {
            Some(x) => seq![WireField { tag: 26, value: WireValue::Bytes(encode_utf8(x)) }],
            None => Seq::<WireField>::empty(),
        })),
    );
}

/// The bytes of an encoded `TransactionStartCompleted`: `transaction_id` under tag 8, `result` under tag 16, `message` under tag 26, in this order; optional fields only
/// when present, repeated ones once per element.
pub proof fn lemma_transaction_start_completed_encode_layout(m: TransactionStartCompletedModel)
    ensures
        transaction_start_completed_encode(m) == (varint_field_bytes(8, varint_of_i64(m.transaction_id))) + (((match m.result {
            Some(x) => varint_field_bytes(16, varint_of_i32(x.to_i32_spec())),
            None => Seq::<u8>::empty(),
        })) + (((match m.message {
            Some(x) => bytes_field_bytes(26, encode_utf8(x)),
            None => Seq::<u8>::empty(),
        })))),
{
    lemma_encode_fields_append(
        (seq![WireField { tag: 8, value: WireValue::Varint(varint_of_i64(m.transaction_id)) }]),
        (match m.result {
            Some(x) => seq![WireField { tag: 16, value: WireValue::Varint(varint_of_i32(x.to_i32_spec())) }],
            None => Seq::<WireField>::empty(),
        }) + ((match m.message {
            Some(x) => seq![WireField { tag: 26, value: WireValue::Bytes(encode_utf8(x)) }],
            None => Seq::<WireField>::empty(),
        })),
    );
    lemma_encode_fields_append(
        (match m.result {
            Some(x) => seq![WireField { tag: 16, value: WireValue::Varint(varint_of_i32(x.to_i32_spec())) }],
            None => Seq::<WireField>::empty(),
        }),
        (match m.message {
            Some(x) => seq![WireField { tag: 26, value: WireValue::Bytes(encode_utf8(x)) }],
            None => Seq::<WireField>::empty(),
        }),
    );
    lemma_varint_field_layout(8, varint_of_i64(m.transaction_id));
    if let Some(x) = m.result {
        lemma_varint_field_layout(16, varint_of_i32(x.to_i32_spec()));
    }
    if let Some(x) = m.message {
        lemma_bytes_field_layout(26, encode_utf8(x));
    }
}

/// Reading a written `TransactionStartCompleted` gives it back.
pub proof fn lemma_transaction_start_completed_roundtrip(m: TransactionStartCompletedModel)
    requires
        transaction_start_completed_wf(m),
    ensures
        transaction_start_completed_decode(transaction_start_completed_encode(m)) == Some(m),
{
    let ap = transaction_start_completed_applier();
    lemma_transaction_start_completed_fields_tagged(m);
    lemma_fields_canonical_of_short(transaction_start_completed_fields(m));
    lemma_decode_encoded_fields(transaction_start_completed_fields(m), transaction_start_completed_default(), ap, transaction_start_completed_known());
    let a0 = transaction_start_completed_default();
    let a1 = TransactionStartCompletedModel { transaction_id: m.transaction_id, ..a0 };
    lemma_apply_fields_append(
        (seq![WireField { tag: 8, value: WireValue::Varint(varint_of_i64(m.transaction_id)) }]),
        (match m.result {
            Some(x) => seq![WireField { tag: 16, value: WireValue::Varint(varint_of_i32(x.to_i32_spec())) }],
            None => Seq::<WireField>::empty(),
        }) + ((match m.message {
            Some(x) => seq![WireField { tag: 26, value: WireValue::Bytes(encode_utf8(x)) }],
            None => Seq::<WireField>::empty(),
        })),
        a0,
        ap,
    );
    assert(apply_fields((seq![WireField { tag: 8, value: WireValue::Varint(varint_of_i64(m.transaction_id)) }]), a0, ap) == Some(a1)) by {
        reveal_with_fuel(apply_fields, 2);
        lemma_scalar_roundtrips(0, m.transaction_id, false);
    }
    let a2 = TransactionStartCompletedModel { result: m.result, ..a1 };
    lemma_apply_fields_append(
        (match m.result {
            Some(x) => seq![WireField { tag: 16, value: WireValue::Varint(varint_of_i32(x.to_i32_spec())) }],
            None => Seq::<WireField>::empty(),
        }),
        (match m.message {
            Some(x) => seq![WireField { tag: 26, value: WireValue::Bytes(encode_utf8(x)) }],
            None => Seq::<WireField>::empty(),
        }),
        a1,
        ap,
    );
    assert(apply_fields((match m.result {
        Some(x) => seq![WireField { tag: 16, value: WireValue::Varint(varint_of_i32(x.to_i32_spec())) }],
        None => Seq::<WireField>::empty(),
    }), a1, ap) == Some(a2)) by {
        reveal_with_fuel(apply_fields, 2);
        if let Some(x) = m.result {
            lemma_scalar_roundtrips(x.to_i32_spec(), 0, false);
            x.lemma_i32_roundtrip();
        }
    }
    let a3 = TransactionStartCompletedModel { message: m.message, ..a2 };
    assert(apply_fields((match m.message {
        Some(x) => seq![WireField { tag: 26, value: WireValue::Bytes(encode_utf8(x)) }],
        None => Seq::<WireField>::empty(),
    }), a2, ap) == Some(a3)) by {
        reveal_with_fuel(apply_fields, 2);
        if let Some(x) = m.message {
            lemma_string_roundtrip(x);
        }
    }
    assert(a3 == m);
}

impl TransactionStartCompleted {
    /// Decodes a `TransactionStartCompleted` from its protobuf bytes.
    pub fn from_reader(bytes: &[u8]) -> (res: Option<TransactionStartCompleted>)
        ensures
            transaction_start_completed_decode(bytes@) matches Some(m) ==> (res matches Some(e) && e@ == m),
            transaction_start_completed_decode(bytes@) is None ==> res is None,
    {
        let mut msg = TransactionStartCompleted::default_value();
        let mut pos: usize = 0;
        assert(bytes@.skip(0) =~= bytes@);
        while pos < bytes.len()
            invariant
                pos <= bytes@.len(),
                transaction_start_completed_decode(bytes@) == decode_fields(bytes@.skip(pos as int), msg@, transaction_start_completed_applier(), transaction_start_completed_known()),
            decreases bytes@.len() - pos,
        {
            let ghost old_msg = msg@;
            let (tag, p) = match read_tag(bytes, pos) {
                Some(x) => x,
                None => {
                    return None;
                },
            };
            proof {
                lemma_field_parts(bytes@, pos as int, transaction_start_completed_known());
            }
            let known: bool = tag == 8 || tag == 16 || tag == 26;
            let (value, next) = match read_value(bytes, p, tag, known) {
                Some(x) => x,
                None => {
                    return None;
                },
            };
            let ghost f = parse_field(bytes@.skip(pos as int), transaction_start_completed_known()).unwrap().0;
            proof {
                lemma_decode_step(bytes@, pos as int, old_msg, transaction_start_completed_applier(), transaction_start_completed_known());
                lemma_parse_field_len(bytes@.skip(pos as int), transaction_start_completed_known());
            }
            if tag == 8 {
                match value {
                    FieldValue::Varint(v) => {
                        msg.transaction_id = varint_i64(v);
                    },
                    _ => {
                        return None;
                    },
                }
            } else if tag == 16 {
                match value {
                    FieldValue::Varint(v) => {
                        msg.result = Some(OperationResult::from_i32(varint_i32(v)));
                    },
                    _ => {
                        return None;
                    },
                }
            } else if tag == 26 {
                match value {
                    FieldValue::Bytes(i, j) => match copy_string(bytes, i, j) {
                        Some(s) => {
                            msg.message = Some(s);
                        },
                        None => {
                            return None;
                        },
                    },
                    _ => {
                        return None;
                    },
                }
            }
            assert(transaction_start_completed_apply(old_msg, f) == Some(msg@));
            pos = next;
        }
        assert(bytes@.skip(pos as int).len() == 0);
        Some(msg)
    }

    /// A `TransactionStartCompleted` with every field at its default.
    pub fn default_value() -> (m: TransactionStartCompleted)
        ensures
            m@ == transaction_start_completed_default(),
    {
        let m = TransactionStartCompleted {
            transaction_id: 0,
            result: None,
            message: None,
        };
        m
    }

    /// A copy of this `TransactionStartCompleted`.
    pub fn copy(&self) -> (c: TransactionStartCompleted)
        ensures
            c@ == self@,
    {
        let c = TransactionStartCompleted {
            transaction_id: self.transaction_id,
            result: self.result,
            message: match &self.message {
                Some(x) => Some(x.clone()),
                None => None,
            },
        };
        assert(c@.message =~= self@.message);
        c
    }

    /// Encodes this `TransactionStartCompleted` as protobuf bytes.
    #[verifier::spinoff_prover]
    #[verifier::rlimit(30)]
    pub fn encode(&self) -> (out: Vec<u8>)
        ensures
            out@ == transaction_start_completed_encode(self@),
            out@.len() < modulus32() ==> transaction_start_completed_wf(self@),
    {
        let mut out: Vec<u8> = Vec::new();
        let ghost mut fs: Seq<WireField> = Seq::empty();
        write_varint_field(&mut out, 8, i64_varint(self.transaction_id));
        proof {
            let f = WireField { tag: 8, value: WireValue::Varint(varint_of_i64(self.transaction_id)) };
            lemma_encode_fields_push(fs, f);
            lemma_fields_shaped_push(fs, f);
            fs = fs.push(f);
        }
        match self.result {
            Some(x) => {
                write_varint_field(&mut out, 16, i32_varint(x.to_i32()));
                proof {
                    let f = WireField { tag: 16, value: WireValue::Varint(varint_of_i32(x.to_i32_spec())) };
                    lemma_encode_fields_push(fs, f);
                    lemma_fields_shaped_push(fs, f);
                    fs = fs.push(f);
                }
            },
            None => {},
        }
        match &self.message {
            Some(x) => {
                write_bytes_field(&mut out, 26, x.as_str().as_bytes());
                proof {
                    let f = WireField { tag: 26, value: WireValue::Bytes(encode_utf8(x@)) };
                    lemma_encode_fields_push(fs, f);
                    lemma_fields_shaped_push(fs, f);
                    fs = fs.push(f);
                }
            },
            None => {},
        }
        assert(fs =~= transaction_start_completed_fields(self@));
        proof {
            if out@.len() < modulus32() {
                lemma_fields_canonical_of_len(fs);
            }
        }
        out
    }

    /// The number of bytes of the encoding of this `TransactionStartCompleted`, computed without encoding it.
    #[verifier::spinoff_prover]
    #[verifier::rlimit(30)]
    pub fn get_size(&self) -> (n: usize)
        requires
            transaction_start_completed_encode(self@).len() <= usize::MAX,
        ensures
            n == transaction_start_completed_encode(self@).len(),
    {
        let ghost m = self@;
        proof {
            lemma_encode_fields_append(
                (seq![WireField { tag: 8, value: WireValue::Varint(varint_of_i64(m.transaction_id)) }]),
                (match m.result {
                    Some(x) => seq![WireField { tag: 16, value: WireValue::Varint(varint_of_i32(x.to_i32_spec())) }],
                    None => Seq::<WireField>::empty(),
                }) + ((match m.message {
                    Some(x) => seq![WireField { tag: 26, value: WireValue::Bytes(encode_utf8(x)) }],
                    None => Seq::<WireField>::empty(),
                })),
            );
            lemma_encode_fields_append(
                (match m.result {
                    Some(x) => seq![WireField { tag: 16, value: WireValue::Varint(varint_of_i32(x.to_i32_spec())) }],
                    None => Seq::<WireField>::empty(),
                }),
                (match m.message {
                    Some(x) => seq![WireField { tag: 26, value: WireValue::Bytes(encode_utf8(x)) }],
                    None => Seq::<WireField>::empty(),
                }),
            );
        }
        let mut n: usize = 0;
        let s2: usize = match &self.message {
            Some(x) => {
                proof {
                    lemma_encode_fields_one(WireField { tag: 26, value: WireValue::Bytes(encode_utf8(x@)) });
                }
                sizeof_len_field(26, x.as_str().as_bytes().len())
            },
            None => 0,
        };
        n = s2 + n;
        let s1: usize = match self.result {
            Some(x) => {
                proof {
                    lemma_encode_fields_one(WireField { tag: 16, value: WireValue::Varint(varint_of_i32(x.to_i32_spec())) });
                }
                sizeof_varint_field(16, i32_varint(x.to_i32()))
            },
            None => 0,
        };
        n = s1 + n;
        let s0: usize = {
            proof {
                lemma_encode_fields_one(WireField { tag: 8, value: WireValue::Varint(varint_of_i64(m.transaction_id)) });
            }
            sizeof_varint_field(8, i64_varint(self.transaction_id))
        };
        n = s0 + n;
        n
    }
}

/// Request to write events within a transaction.
#[derive(Debug, Clone, PartialEq)]
pub struct TransactionWrite {
    /// The id of the transaction
    pub transaction_id: i64,
    /// The events to write
    pub events: Vec<NewEvent>,
    /// Whether only the master may handle the request
    pub require_master: bool,
}

/// The contents of a `TransactionWrite`.
pub struct TransactionWriteModel {
    pub transaction_id: i64,
    pub events: Seq<NewEventModel>,
    pub require_master: bool,
}

impl View for TransactionWrite {
    type V = TransactionWriteModel;

    open spec fn view(&self) -> TransactionWriteModel {
        TransactionWriteModel {
            transaction_id: self.transaction_id,
            events: self.events@.map_values(|e: NewEvent| e@),
            require_master: self.require_master,
        }
    }
}

/// A `TransactionWrite` with every field at its default.
pub open spec fn transaction_write_default() -> TransactionWriteModel {
    TransactionWriteModel {
        transaction_id: 0,
        events: Seq::empty(),
        require_master: false,
    }
}

/// Folds one field into a `TransactionWrite`; fields of unknown tags are skipped.
pub open spec fn transaction_write_apply(m: TransactionWriteModel, f: WireField) -> Option<TransactionWriteModel> {
    if f.tag == 8 {
        match f.value {
            WireValue::Varint(v) => Some(TransactionWriteModel { transaction_id: i64_of_varint(v), ..m }),
            _ => None,
        }
    } else {
        if f.tag == 18 {
            match f.value {
                WireValue::Bytes(b) => match new_event_decode(b) {
                    Some(s) => Some(TransactionWriteModel { events: m.events.push(s), ..m }),
                    None => None,
                },
                _ => None,
            }
        } else {
            if f.tag == 24 {
                match f.value {
                    WireValue::Varint(v) => Some(TransactionWriteModel { require_master: bool_of_varint(v), ..m }),
                    _ => None,
                }
            } else {
                Some(m)
            }
        }
    }
}

/// `transaction_write_apply` as a value.
pub open spec fn transaction_write_applier() -> spec_fn(TransactionWriteModel, WireField) -> Option<TransactionWriteModel> {
    |m: TransactionWriteModel, f: WireField| transaction_write_apply(m, f)
}

/// The tags of the fields that a `TransactionWrite` reads; the others are skipped.
pub open spec fn transaction_write_known() -> spec_fn(u32) -> bool {
    |t: u32| t == 8 || t == 18 || t == 24
}

/// The `TransactionWrite` that `bytes` encode, if they encode one.
pub open spec fn transaction_write_decode(bytes: Seq<u8>) -> Option<TransactionWriteModel> {
    decode_fields(bytes, transaction_write_default(), transaction_write_applier(), transaction_write_known())
}

/// The fields that encode the `events` of a `TransactionWrite`, one per element.
pub open spec fn transaction_write_events_fields(es: Seq<NewEventModel>) -> Seq<WireField> {
    Seq::new(es.len(), |i: int| WireField { tag: 18, value: WireValue::Bytes(new_event_encode(es[i])) })
}

/// The fields that encode a `TransactionWrite`, in the order they are written.
pub open spec fn transaction_write_fields(m: TransactionWriteModel) -> Seq<WireField> {
    (seq![WireField { tag: 8, value: WireValue::Varint(varint_of_i64(m.transaction_id)) }]) + ((transaction_write_events_fields(m.events)) + ((seq![WireField { tag: 24, value: WireValue::Varint(varint_of_bool(m.require_master)) }])))
}

/// The encoding of a `TransactionWrite`.
pub open spec fn transaction_write_encode(m: TransactionWriteModel) -> Seq<u8> {
    encode_fields(transaction_write_fields(m))
}

/// A `TransactionWrite` that reads back as written: every length-delimited field, those of the
/// embedded messages included, holds fewer than 2^32 bytes.
pub open spec fn transaction_write_wf(m: TransactionWriteModel) -> bool {
    fields_short(transaction_write_fields(m))
    && (forall|i: int| 0 <= i < m.events.len() ==> new_event_wf(#[trigger] m.events[i]))
}

/// The fields of a `TransactionWrite` carry the wire types of their payloads.
pub proof fn lemma_transaction_write_fields_tagged(m: TransactionWriteModel)
    ensures
        fields_tagged(transaction_write_fields(m)),
{
    assert(fields_tagged((seq![WireField { tag: 24, value: WireValue::Varint(varint_of_bool(m.require_master)) }])));
    assert(fields_tagged((transaction_write_events_fields(m.events))));
    lemma_fields_tagged_append(
        (transaction_write_events_fields(m.events)),
        (seq![WireField { tag: 24, value: WireValue::Varint(varint_of_bool(m.require_master)) }]),
    );
    assert(fields_tagged((seq![WireField { tag: 8, value: WireValue::Varint(varint_of_i64(m.transaction_id)) }])));
    lemma_fields_tagged_append(
        (seq![WireField { tag: 8, value: WireValue::Varint(varint_of_i64(m.transaction_id)) }]),
        (transaction_write_events_fields(m.events)) + ((seq![WireField { tag: 24, value: WireValue::Varint(varint_of_bool(m.require_master)) }])),
    );
}

/// Folding the fields of `es` into a `TransactionWrite` appends `es` to its `events`.
pub proof fn lemma_transaction_write_apply_events(es: Seq<NewEventModel>, acc: TransactionWriteModel)
    requires
        forall|i: int| 0 <= i < es.len() ==> new_event_wf(#[trigger] es[i]),
    ensures
        apply_fields(transaction_write_events_fields(es), acc, transaction_write_applier()) == Some(
            TransactionWriteModel { events: acc.events + es, ..acc },
        ),
    decreases es.len(),
{
    if es.len() == 0 {
        assert(acc.events + es =~= acc.events);
    } else {
        lemma_new_event_roundtrip(es[0]);
        let next = TransactionWriteModel { events: acc.events.push(es[0]), ..acc };
        assert(transaction_write_events_fields(es).drop_first() =~= transaction_write_events_fields(es.drop_first()));
        assert(transaction_write_events_fields(es)[0] == WireField { tag: 18, value: WireValue::Bytes(new_event_encode(es[0])) });
        lemma_transaction_write_apply_events(es.drop_first(), next);
        assert(acc.events.push(es[0]) + es.drop_first() =~= acc.events + es);
    }
}

/// The bytes of an encoded `TransactionWrite`: `transaction_id` under tag 8, `events` under tag 18, `require_master` under tag 24, in this order; optional fields only
/// when present, repeated ones once per element.
pub proof fn lemma_transaction_write_encode_layout(m: TransactionWriteModel)
    ensures
        transaction_write_encode(m) == (varint_field_bytes(8, varint_of_i64(m.transaction_id))) + ((repeated_field_bytes(18, m.events.map_values(|e: NewEventModel| new_event_encode(e)))) + ((varint_field_bytes(24, varint_of_bool(m.require_master))))),
{
    lemma_encode_fields_append(
        (seq![WireField { tag: 8, value: WireValue::Varint(varint_of_i64(m.transaction_id)) }]),
        (transaction_write_events_fields(m.events)) + ((seq![WireField { tag: 24, value: WireValue::Varint(varint_of_bool(m.require_master)) }])),
    );
    lemma_encode_fields_append(
        (transaction_write_events_fields(m.events)),
        (seq![WireField { tag: 24, value: WireValue::Varint(varint_of_bool(m.require_master)) }]),
    );
    lemma_varint_field_layout(8, varint_of_i64(m.transaction_id));
    lemma_repeated_field_layout(18, transaction_write_events_fields(m.events), m.events.map_values(|e: NewEventModel| new_event_encode(e)));
    lemma_varint_field_layout(24, varint_of_bool(m.require_master));
}

/// Reading a written `TransactionWrite` gives it back.
pub proof fn lemma_transaction_write_roundtrip(m: TransactionWriteModel)
    requires
        transaction_write_wf(m),
    ensures
        transaction_write_decode(transaction_write_encode(m)) == Some(m),
{
    let ap = transaction_write_applier();
    lemma_transaction_write_fields_tagged(m);
    lemma_fields_canonical_of_short(transaction_write_fields(m));
    lemma_decode_encoded_fields(transaction_write_fields(m), transaction_write_default(), ap, transaction_write_known());
    let a0 = transaction_write_default();
    let a1 = TransactionWriteModel { transaction_id: m.transaction_id, ..a0 };
    lemma_apply_fields_append(
        (seq![WireField { tag: 8, value: WireValue::Varint(varint_of_i64(m.transaction_id)) }]),
        (transaction_write_events_fields(m.events)) + ((seq![WireField { tag: 24, value: WireValue::Varint(varint_of_bool(m.require_master)) }])),
        a0,
        ap,
    );
    assert(apply_fields((seq![WireField { tag: 8, value: WireValue::Varint(varint_of_i64(m.transaction_id)) }]), a0, ap) == Some(a1)) by {
        reveal_with_fuel(apply_fields, 2);
        lemma_scalar_roundtrips(0, m.transaction_id, false);
    }
    let a2 = TransactionWriteModel { events: m.events, ..a1 };
    lemma_apply_fields_append(
        (transaction_write_events_fields(m.events)),
        (seq![WireField { tag: 24, value: WireValue::Varint(varint_of_bool(m.require_master)) }]),
        a1,
        ap,
    );
    assert(apply_fields((transaction_write_events_fields(m.events)), a1, ap) == Some(a2)) by {
        lemma_transaction_write_apply_events(m.events, a1);
        assert(a1.events + m.events =~= m.events);
    }
    let a3 = TransactionWriteModel { require_master: m.require_master, ..a2 };
    assert(apply_fields((seq![WireField { tag: 24, value: WireValue::Varint(varint_of_bool(m.require_master)) }]), a2, ap) == Some(a3)) by {
        reveal_with_fuel(apply_fields, 2);
        lemma_scalar_roundtrips(0, 0, m.require_master);
    }
    assert(a3 == m);
}

impl TransactionWrite {
    /// Decodes a `TransactionWrite` from its protobuf bytes.
    pub fn from_reader(bytes: &[u8]) -> (res: Option<TransactionWrite>)
        ensures
            transaction_write_decode(bytes@) matches Some(m) ==> (res matches Some(e) && e@ == m),
            transaction_write_decode(bytes@) is None ==> res is None,
    {
        let mut msg = TransactionWrite::default_value();
        let mut pos: usize = 0;
        assert(bytes@.skip(0) =~= bytes@);
        while pos < bytes.len()
            invariant
                pos <= bytes@.len(),
                transaction_write_decode(bytes@) == decode_fields(bytes@.skip(pos as int), msg@, transaction_write_applier(), transaction_write_known()),
            decreases bytes@.len() - pos,
        {
            let ghost old_msg = msg@;
            let (tag, p) = match read_tag(bytes, pos) {
                Some(x) => x,
                None => {
                    return None;
                },
            };
            proof {
                lemma_field_parts(bytes@, pos as int, transaction_write_known());
            }
            let known: bool = tag == 8 || tag == 18 || tag == 24;
            let (value, next) = match read_value(bytes, p, tag, known) {
                Some(x) => x,
                None => {
                    return None;
                },
            };
            let ghost f = parse_field(bytes@.skip(pos as int), transaction_write_known()).unwrap().0;
            proof {
                lemma_decode_step(bytes@, pos as int, old_msg, transaction_write_applier(), transaction_write_known());
                lemma_parse_field_len(bytes@.skip(pos as int), transaction_write_known());
            }
            if tag == 8 {
                match value {
                    FieldValue::Varint(v) => {
                        msg.transaction_id = varint_i64(v);
                    },
                    _ => {
                        return None;
                    },
                }
            } else if tag == 18 {
                match value {
                    FieldValue::Bytes(i, j) => match NewEvent::from_reader(slice_subrange(bytes, i, j)) {
                        Some(s) => {
                            let ghost sv = s@;
                            msg.events.push(s);
                            assert(msg@.events =~= old_msg.events.push(sv));
                        },
                        None => {
                            return None;
                        },
                    },
                    _ => {
                        return None;
                    },
                }
            } else if tag == 24 {
                match value {
                    FieldValue::Varint(v) => {
                        msg.require_master = varint_bool(v);
                    },
                    _ => {
                        return None;
                    },
                }
            }
            assert(transaction_write_apply(old_msg, f) == Some(msg@));
            pos = next;
        }
        assert(bytes@.skip(pos as int).len() == 0);
        Some(msg)
    }

    /// A `TransactionWrite` with every field at its default.
    pub fn default_value() -> (m: TransactionWrite)
        ensures
            m@ == transaction_write_default(),
    {
        let m = TransactionWrite {
            transaction_id: 0,
            events: Vec::new(),
            require_master: false,
        };
        assert(m@.events =~= Seq::empty());
        m
    }

    /// A copy of this `TransactionWrite`.
    pub fn copy(&self) -> (c: TransactionWrite)
        ensures
            c@ == self@,
    {
        let mut events: Vec<NewEvent> = Vec::new();
        let mut k: usize = 0;
        while k < self.events.len()
            invariant
                k <= self.events@.len(),
                events@.map_values(|e: NewEvent| e@) =~= self@.events.take(k as int),
            decreases self.events@.len() - k,
        {
            let e = self.events[k].copy();
            events.push(e);
            assert(self@.events.take(k + 1) =~= self@.events.take(k as int).push(e@));
            k = k + 1;
        }
        assert(self@.events.take(k as int) =~= self@.events);
        let c = TransactionWrite {
            transaction_id: self.transaction_id,
            events: events,
            require_master: self.require_master,
        };
        assert(c@.events =~= self@.events);
        c
    }

    /// Encodes this `TransactionWrite` as protobuf bytes.
    #[verifier::spinoff_prover]
    #[verifier::rlimit(30)]
    pub fn encode(&self) -> (out: Vec<u8>)
        ensures
            out@ == transaction_write_encode(self@),
            out@.len() < modulus32() ==> transaction_write_wf(self@),
    {
        let mut out: Vec<u8> = Vec::new();
        let ghost mut fs: Seq<WireField> = Seq::empty();
        write_varint_field(&mut out, 8, i64_varint(self.transaction_id));
        proof {
            let f = WireField { tag: 8, value: WireValue::Varint(varint_of_i64(self.transaction_id)) };
            lemma_encode_fields_push(fs, f);
            lemma_fields_shaped_push(fs, f);
            fs = fs.push(f);
        }
        let ghost fs0 = fs;
        let ghost out_len0 = out@.len();
        let mut k: usize = 0;
        assert(self@.events.take(0) =~= Seq::empty());
        assert(fs0 + transaction_write_events_fields(self@.events.take(0)) =~= fs0);
        while k < self.events.len()
            invariant
                k <= self.events@.len(),
                out@ == encode_fields(fs),
                fields_shaped(fs),
                out@.len() >= out_len0,
                fs == fs0 + transaction_write_events_fields(self@.events.take(k as int)),
                forall|i: int| 0 <= i < k ==> (new_event_encode(#[trigger] self@.events[i]).len() < modulus32() ==> new_event_wf(self@.events[i])),
                forall|i: int| 0 <= i < k ==> new_event_encode(#[trigger] self@.events[i]).len() <= out@.len(),
            decreases self.events@.len() - k,
        {
            let sub = self.events[k].encode();
            write_bytes_field(&mut out, 18, sub.as_slice());
            proof {
                let f = WireField { tag: 18, value: WireValue::Bytes(sub@) };
                lemma_encode_fields_push(fs, f);
                lemma_fields_shaped_push(fs, f);
                fs = fs.push(f);
                assert(self@.events[k as int] == self.events@[k as int]@);
                assert(transaction_write_events_fields(self@.events.take(k + 1)) =~= transaction_write_events_fields(
                    self@.events.take(k as int),
                ).push(f));
                assert(fs =~= fs0 + transaction_write_events_fields(self@.events.take(k + 1)));
            }
            k = k + 1;
        }
        assert(self@.events.take(k as int) =~= self@.events);
        write_varint_field(&mut out, 24, bool_varint(self.require_master));
        proof {
            let f = WireField { tag: 24, value: WireValue::Varint(varint_of_bool(self.require_master)) };
            lemma_encode_fields_push(fs, f);
            lemma_fields_shaped_push(fs, f);
            fs = fs.push(f);
        }
        assert(fs =~= transaction_write_fields(self@));
        proof {
            if out@.len() < modulus32() {
                lemma_fields_canonical_of_len(fs);
            }
        }
        out
    }

    /// The number of bytes of the encoding of this `TransactionWrite`, computed without encoding it.
    #[verifier::spinoff_prover]
    #[verifier::rlimit(30)]
    pub fn get_size(&self) -> (n: usize)
        requires
            transaction_write_encode(self@).len() <= usize::MAX,
        ensures
            n == transaction_write_encode(self@).len(),
    {
        let ghost m = self@;
        proof {
            lemma_encode_fields_append(
                (seq![WireField { tag: 8, value: WireValue::Varint(varint_of_i64(m.transaction_id)) }]),
                (transaction_write_events_fields(m.events)) + ((seq![WireField { tag: 24, value: WireValue::Varint(varint_of_bool(m.require_master)) }])),
            );
            lemma_encode_fields_append(
                (transaction_write_events_fields(m.events)),
                (seq![WireField { tag: 24, value: WireValue::Varint(varint_of_bool(m.require_master)) }]),
            );
        }
        let mut n: usize = 0;
        let s2: usize = {
            proof {
                lemma_encode_fields_one(WireField { tag: 24, value: WireValue::Varint(varint_of_bool(m.require_master)) });
            }
            sizeof_varint_field(24, bool_varint(self.require_master))
        };
        n = s2 + n;
        let mut s1: usize = 0;
        let mut k1: usize = 0;
        assert(transaction_write_events_fields(m.events.take(0)) =~= Seq::<WireField>::empty());
        while k1 < self.events.len()
            invariant
                m == self@,
                k1 <= self.events@.len(),
                s1 == encode_fields(transaction_write_events_fields(m.events.take(k1 as int))).len(),
                encode_fields(transaction_write_events_fields(m.events)).len() <= usize::MAX,
            decreases self.events@.len() - k1,
        {
            let ghost f = WireField { tag: 18, value: WireValue::Bytes(new_event_encode(m.events[k1 as int])) };
            proof {
                assert(transaction_write_events_fields(m.events.take(k1 + 1)) =~= transaction_write_events_fields(m.events.take(k1 as int)).push(f));
                lemma_encode_fields_push(transaction_write_events_fields(m.events.take(k1 as int)), f);
                assert(transaction_write_events_fields(m.events.take(k1 + 1)) =~= transaction_write_events_fields(m.events).take(k1 + 1));
                lemma_encode_fields_take_len(transaction_write_events_fields(m.events), k1 + 1);
                assert(m.events[k1 as int] == self.events@[k1 as int]@);
            }
            let x = sizeof_len_field(18, self.events[k1].get_size());
            s1 = s1 + x;
            k1 = k1 + 1;
        }
        assert(m.events.take(k1 as int) =~= m.events);
        n = s1 + n;
        let s0: usize = {
            proof {
                lemma_encode_fields_one(WireField { tag: 8, value: WireValue::Varint(varint_of_i64(m.transaction_id)) });
            }
            sizeof_varint_field(8, i64_varint(self.transaction_id))
        };
        n = s0 + n;
        n
    }
}

/// Response to `TransactionWrite`.
#[derive(Debug, Clone, PartialEq)]
pub struct TransactionWriteCompleted {
    /// The id of the transaction
    pub transaction_id: i64,
    /// The outcome
    pub result: Option<OperationResult>,
    /// An explanation
    pub message: Option<String>,
}

/// The contents of a `TransactionWriteCompleted`.
pub struct TransactionWriteCompletedModel {
    pub transaction_id: i64,
    pub result: Option<OperationResult>,
    pub message: Option<Seq<char>>,
}

impl View for TransactionWriteCompleted {
    type V = TransactionWriteCompletedModel;

    open spec fn view(&self) -> TransactionWriteCompletedModel {
        TransactionWriteCompletedModel {
            transaction_id: self.transaction_id,
            result: self.result,
            message: opt_string_view(self.message),
        }
    }
}

/// A `TransactionWriteCompleted` with every field at its default.
pub open spec fn transaction_write_completed_default() -> TransactionWriteCompletedModel {
    TransactionWriteCompletedModel {
        transaction_id: 0,
        result: None,
        message: None,
    }
}

/// Folds one field into a `TransactionWriteCompleted`; fields of unknown tags are skipped.
pub open spec fn transaction_write_completed_apply(m: TransactionWriteCompletedModel, f: WireField) -> Option<TransactionWriteCompletedModel> {
    if f.tag == 8 {
        match f.value {
            WireValue::Varint(v) => Some(TransactionWriteCompletedModel { transaction_id: i64_of_varint(v), ..m }),
            _ => None,
        }
    } else {
        if f.tag == 16 {
            match f.value {
                WireValue::Varint(v) => Some(TransactionWriteCompletedModel { result: Some(OperationResult::from_i32_spec(i32_of_varint(v))), ..m }),
                _ => None,
            }
        } else {
            if f.tag == 26 {
                match f.value {
                    WireValue::Bytes(b) => match string_of(b) {
                        Some(s) => Some(TransactionWriteCompletedModel { message: Some(s), ..m }),
                        None => None,
                    },
                    _ => None,
                }
            } else {
                Some(m)
            }
        }
    }
}

/// `transaction_write_completed_apply` as a value.
pub open spec fn transaction_write_completed_applier() -> spec_fn(TransactionWriteCompletedModel, WireField) -> Option<TransactionWriteCompletedModel> {
    |m: TransactionWriteCompletedModel, f: WireField| transaction_write_completed_apply(m, f)
}

/// The tags of the fields that a `TransactionWriteCompleted` reads; the others are skipped.
pub open spec fn transaction_write_completed_known() -> spec_fn(u32) -> bool {
    |t: u32| t == 8 || t == 16 || t == 26
}

/// The `TransactionWriteCompleted` that `bytes` encode, if they encode one.
pub open spec fn transaction_write_completed_decode(bytes: Seq<u8>) -> Option<TransactionWriteCompletedModel> {
    decode_fields(bytes, transaction_write_completed_default(), transaction_write_completed_applier(), transaction_write_completed_known())
}

/// The fields that encode a `TransactionWriteCompleted`, in the order they are written.
pub open spec fn transaction_write_completed_fields(m: TransactionWriteCompletedModel) -> Seq<WireField> {
    (seq![WireField { tag: 8, value: WireValue::Varint(varint_of_i64(m.transaction_id)) }]) + ((match m.result {
        Some(x) => seq![WireField { tag: 16, value: WireValue::Varint(varint_of_i32(x.to_i32_spec())) }],
        None => Seq::<WireField>::empty(),
    }) + ((match m.message {
        Some(x) => seq![WireField { tag: 26, value: WireValue::Bytes(encode_utf8(x)) }],
        None => Seq::<WireField>::empty(),
    })))
}

/// The encoding of a `TransactionWriteCompleted`.
pub open spec fn transaction_write_completed_encode(m: TransactionWriteCompletedModel) -> Seq<u8> {
    encode_fields(transaction_write_completed_fields(m))
}

/// A `TransactionWriteCompleted` that reads back as written: every length-delimited field, those of the
/// embedded messages included, holds fewer than 2^32 bytes.
pub open spec fn transaction_write_completed_wf(m: TransactionWriteCompletedModel) -> bool {
    fields_short(transaction_write_completed_fields(m))
}

/// The fields of a `TransactionWriteCompleted` carry the wire types of their payloads.
pub proof fn lemma_transaction_write_completed_fields_tagged(m: TransactionWriteCompletedModel)
    ensures
        fields_tagged(transaction_write_completed_fields(m)),
{
    assert(fields_tagged((match m.message {
        Some(x) => seq![WireField { tag: 26, value: WireValue::Bytes(encode_utf8(x)) }],
        None => Seq::<WireField>::empty(),
    })));
    assert(fields_tagged((match m.result {
        Some(x) => seq![WireField { tag: 16, value: WireValue::Varint(varint_of_i32(x.to_i32_spec())) }],
        None => Seq::<WireField>::empty(),
    })));
    lemma_fields_tagged_append(
        (match m.result {
            Some(x) => seq![WireField { tag: 16, value: WireValue::Varint(varint_of_i32(x.to_i32_spec())) }],
            None => Seq::<WireField>::empty(),
        }),
        (match m.message {
            Some(x) => seq![WireField { tag: 26, value: WireValue::Bytes(encode_utf8(x)) }],
            None => Seq::<WireField>::empty(),
        }),
    );
    assert(fields_tagged((seq![WireField { tag: 8, value: WireValue::Varint(varint_of_i64(m.transaction_id)) }])));
    lemma_fields_tagged_append(
        (seq![WireField { tag: 8, value: WireValue::Varint(varint_of_i64(m.transaction_id)) }]),
        (match m.result {
            Some(x) => seq![WireField { tag: 16, value: WireValue::Varint(varint_of_i32(x.to_i32_spec())) }],
            None => Seq::<WireField>::empty(),
        }) + ((match m.message {
            Some(x) => seq![WireField { tag: 26, value: WireValue::Bytes(encode_utf8(x)) }],
            None => Seq::<WireField>::empty(),
        })),
    );
}

/// The bytes of an encoded `TransactionWriteCompleted`: `transaction_id` under tag 8, `result` under tag 16, `message` under tag 26, in this order; optional fields only
/// when present, repeated ones once per element.
pub proof fn lemma_transaction_write_completed_encode_layout(m: TransactionWriteCompletedModel)
    ensures
        transaction_write_completed_encode(m) == (varint_field_bytes(8, varint_of_i64(m.transaction_id))) + (((match m.result {
            Some(x) => varint_field_bytes(16, varint_of_i32(x.to_i32_spec())),
            None => Seq::<u8>::empty(),
        })) + (((match m.message {
            Some(x) => bytes_field_bytes(26, encode_utf8(x)),
            None => Seq::<u8>::empty(),
        })))),
{
    lemma_encode_fields_append(
        (seq![WireField { tag: 8, value: WireValue::Varint(varint_of_i64(m.transaction_id)) }]),
        (match m.result {
            Some(x) => seq![WireField { tag: 16, value: WireValue::Varint(varint_of_i32(x.to_i32_spec())) }],
            None => Seq::<WireField>::empty(),
        }) + ((match m.message {
            Some(x) => seq![WireField { tag: 26, value: WireValue::Bytes(encode_utf8(x)) }],
            None => Seq::<WireField>::empty(),
        })),
    );
    lemma_encode_fields_append(
        (match m.result {
            Some(x) => seq![WireField { tag: 16, value: WireValue::Varint(varint_of_i32(x.to_i32_spec())) }],
            None => Seq::<WireField>::empty(),
        }),
        (match m.message {
            Some(x) => seq![WireField { tag: 26, value: WireValue::Bytes(encode_utf8(x)) }],
            None => Seq::<WireField>::empty(),
        }),
    );
    lemma_varint_field_layout(8, varint_of_i64(m.transaction_id));
    if let Some(x) = m.result {
        lemma_varint_field_layout(16, varint_of_i32(x.to_i32_spec()));
    }
    if let Some(x) = m.message {
        lemma_bytes_field_layout(26, encode_utf8(x));
    }
}

/// Reading a written `TransactionWriteCompleted` gives it back.
pub proof fn lemma_transaction_write_completed_roundtrip(m: TransactionWriteCompletedModel)
    requires
        transaction_write_completed_wf(m),
    ensures
        transaction_write_completed_decode(transaction_write_completed_encode(m)) == Some(m),
{
    let ap = transaction_write_completed_applier();
    lemma_transaction_write_completed_fields_tagged(m);
    lemma_fields_canonical_of_short(transaction_write_completed_fields(m));
    lemma_decode_encoded_fields(transaction_write_completed_fields(m), transaction_write_completed_default(), ap, transaction_write_completed_known());
    let a0 = transaction_write_completed_default();
    let a1 = TransactionWriteCompletedModel { transaction_id: m.transaction_id, ..a0 };
    lemma_apply_fields_append(
        (seq![WireField { tag: 8, value: WireValue::Varint(varint_of_i64(m.transaction_id)) }]),
        (match m.result {
            Some(x) => seq![WireField { tag: 16, value: WireValue::Varint(varint_of_i32(x.to_i32_spec())) }],
            None => Seq::<WireField>::empty(),
        }) + ((match m.message {
            Some(x) => seq![WireField { tag: 26, value: WireValue::Bytes(encode_utf8(x)) }],
            None => Seq::<WireField>::empty(),
        })),
        a0,
        ap,
    );
    assert(apply_fields((seq![WireField { tag: 8, value: WireValue::Varint(varint_of_i64(m.transaction_id)) }]), a0, ap) == Some(a1)) by {
        reveal_with_fuel(apply_fields, 2);
        lemma_scalar_roundtrips(0, m.transaction_id, false);
    }
    let a2 = TransactionWriteCompletedModel { result: m.result, ..a1 };
    lemma_apply_fields_append(
        (match m.result {
            Some(x) => seq![WireField { tag: 16, value: WireValue::Varint(varint_of_i32(x.to_i32_spec())) }],
            None => Seq::<WireField>::empty(),
        }),
        (match m.message {
            Some(x) => seq![WireField { tag: 26, value: WireValue::Bytes(encode_utf8(x)) }],
            None => Seq::<WireField>::empty(),
        }),
        a1,
        ap,
    );
    assert(apply_fields((match m.result {
        Some(x) => seq![WireField { tag: 16, value: WireValue::Varint(varint_of_i32(x.to_i32_spec())) }],
        None => Seq::<WireField>::empty(),
    }), a1, ap) == Some(a2)) by {
        reveal_with_fuel(apply_fields, 2);
        if let Some(x) = m.result {
            lemma_scalar_roundtrips(x.to_i32_spec(), 0, false);
            x.lemma_i32_roundtrip();
        }
    }
    let a3 = TransactionWriteCompletedModel { message: m.message, ..a2 };
    assert(apply_fields((match m.message {
        Some(x) => seq![WireField { tag: 26, value: WireValue::Bytes(encode_utf8(x)) }],
        None => Seq::<WireField>::empty(),
    }), a2, ap) == Some(a3)) by {
        reveal_with_fuel(apply_fields, 2);
        if let Some(x) = m.message {
            lemma_string_roundtrip(x);
        }
    }
    assert(a3 == m);
}

impl TransactionWriteCompleted {
    /// Decodes a `TransactionWriteCompleted` from its protobuf bytes.
    pub fn from_reader(bytes: &[u8]) -> (res: Option<TransactionWriteCompleted>)
        ensures
            transaction_write_completed_decode(bytes@) matches Some(m) ==> (res matches Some(e) && e@ == m),
            transaction_write_completed_decode(bytes@) is None ==> res is None,
    {
        let mut msg = TransactionWriteCompleted::default_value();
        let mut pos: usize = 0;
        assert(bytes@.skip(0) =~= bytes@);
        while pos < bytes.len()
            invariant
                pos <= bytes@.len(),
                transaction_write_completed_decode(bytes@) == decode_fields(bytes@.skip(pos as int), msg@, transaction_write_completed_applier(), transaction_write_completed_known()),
            decreases bytes@.len() - pos,
        {
            let ghost old_msg = msg@;
            let (tag, p) = match read_tag(bytes, pos) {
                Some(x) => x,
                None => {
                    return None;
                },
            };
            proof {
                lemma_field_parts(bytes@, pos as int, transaction_write_completed_known());
            }
            let known: bool = tag == 8 || tag == 16 || tag == 26;
            let (value, next) = match read_value(bytes, p, tag, known) {
                Some(x) => x,
                None => {
                    return None;
                },
            };
            let ghost f = parse_field(bytes@.skip(pos as int), transaction_write_completed_known()).unwrap().0;
            proof {
                lemma_decode_step(bytes@, pos as int, old_msg, transaction_write_completed_applier(), transaction_write_completed_known());
                lemma_parse_field_len(bytes@.skip(pos as int), transaction_write_completed_known());
            }
            if tag == 8 {
                match value {
                    FieldValue::Varint(v) => {
                        msg.transaction_id = varint_i64(v);
                    },
                    _ => {
                        return None;
                    },
                }
            } else if tag == 16 {
                match value {
                    FieldValue::Varint(v) => {
                        msg.result = Some(OperationResult::from_i32(varint_i32(v)));
                    },
                    _ => {
                        return None;
                    },
                }
            } else if tag == 26 {
                match value {
                    FieldValue::Bytes(i, j) => match copy_string(bytes, i, j) {
                        Some(s) => {
                            msg.message = Some(s);
                        },
                        None => {
                            return None;
                        },
                    },
                    _ => {
                        return None;
                    },
                }
            }
            assert(transaction_write_completed_apply(old_msg, f) == Some(msg@));
            pos = next;
        }
        assert(bytes@.skip(pos as int).len() == 0);
        Some(msg)
    }

    /// A `TransactionWriteCompleted` with every field at its default.
    pub fn default_value() -> (m: TransactionWriteCompleted)
        ensures
            m@ == transaction_write_completed_default(),
    {
        let m = TransactionWriteCompleted {
            transaction_id: 0,
            result: None,
            message: None,
        };
        m
    }

    /// A copy of this `TransactionWriteCompleted`.
    pub fn copy(&self) -> (c: TransactionWriteCompleted)
        ensures
            c@ == self@,
    {
        let c = TransactionWriteCompleted {
            transaction_id: self.transaction_id,
            result: self.result,
            message: match &self.message {
                Some(x) => Some(x.clone()),
                None => None,
            },
        };
        assert(c@.message =~= self@.message);
        c
    }

    /// Encodes this `TransactionWriteCompleted` as protobuf bytes.
    #[verifier::spinoff_prover]
    #[verifier::rlimit(30)]
    pub fn encode(&self) -> (out: Vec<u8>)
        ensures
            out@ == transaction_write_completed_encode(self@),
            out@.len() < modulus32() ==> transaction_write_completed_wf(self@),
    {
        let mut out: Vec<u8> = Vec::new();
        let ghost mut fs: Seq<WireField> = Seq::empty();
        write_varint_field(&mut out, 8, i64_varint(self.transaction_id));
        proof {
            let f = WireField { tag: 8, value: WireValue::Varint(varint_of_i64(self.transaction_id)) };
            lemma_encode_fields_push(fs, f);
            lemma_fields_shaped_push(fs, f);
            fs = fs.push(f);
        }
        match self.result {
            Some(x) => {
                write_varint_field(&mut out, 16, i32_varint(x.to_i32()));
                proof {
                    let f = WireField { tag: 16, value: WireValue::Varint(varint_of_i32(x.to_i32_spec())) };
                    lemma_encode_fields_push(fs, f);
                    lemma_fields_shaped_push(fs, f);
                    fs = fs.push(f);
                }
            },
            None => {},
        }
        match &self.message {
            Some(x) => {
                write_bytes_field(&mut out, 26, x.as_str().as_bytes());
                proof {
                    let f = WireField { tag: 26, value: WireValue::Bytes(encode_utf8(x@)) };
                    lemma_encode_fields_push(fs, f);
                    lemma_fields_shaped_push(fs, f);
                    fs = fs.push(f);
                }
            },
            None => {},
        }
        assert(fs =~= transaction_write_completed_fields(self@));
        proof {
            if out@.len() < modulus32() {
                lemma_fields_canonical_of_len(fs);
            }
        }
        out
    }

    /// The number of bytes of the encoding of this `TransactionWriteCompleted`, computed without encoding it.
    #[verifier::spinoff_prover]
    #[verifier::rlimit(30)]
    pub fn get_size(&self) -> (n: usize)
        requires
            transaction_write_completed_encode(self@).len() <= usize::MAX,
        ensures
            n == transaction_write_completed_encode(self@).len(),
    {
        let ghost m = self@;
        proof {
            lemma_encode_fields_append(
                (seq![WireField { tag: 8, value: WireValue::Varint(varint_of_i64(m.transaction_id)) }]),
                (match m.result {
                    Some(x) => seq![WireField { tag: 16, value: WireValue::Varint(varint_of_i32(x.to_i32_spec())) }],
                    None => Seq::<WireField>::empty(),
                }) + ((match m.message {
                    Some(x) => seq![WireField { tag: 26, value: WireValue::Bytes(encode_utf8(x)) }],
                    None => Seq::<WireField>::empty(),
                })),
            );
            lemma_encode_fields_append(
                (match m.result {
                    Some(x) => seq![WireField { tag: 16, value: WireValue::Varint(varint_of_i32(x.to_i32_spec())) }],
                    None => Seq::<WireField>::empty(),
                }),
                (match m.message {
                    Some(x) => seq![WireField { tag: 26, value: WireValue::Bytes(encode_utf8(x)) }],
                    None => Seq::<WireField>::empty(),
                }),
            );
        }
        let mut n: usize = 0;
        let s2: usize = match &self.message {
            Some(x) => {
                proof {
                    lemma_encode_fields_one(WireField { tag: 26, value: WireValue::Bytes(encode_utf8(x@)) });
                }
                sizeof_len_field(26, x.as_str().as_bytes().len())
            },
            None => 0,
        };
        n = s2 + n;
        let s1: usize = match self.result {
            Some(x) => {
                proof {
                    lemma_encode_fields_one(WireField { tag: 16, value: WireValue::Varint(varint_of_i32(x.to_i32_spec())) });
                }
                sizeof_varint_field(16, i32_varint(x.to_i32()))
            },
            None => 0,
        };
        n = s1 + n;
        let s0: usize = {
            proof {
                lemma_encode_fields_one(WireField { tag: 8, value: WireValue::Varint(varint_of_i64(m.transaction_id)) });
            }
            sizeof_varint_field(8, i64_varint(self.transaction_id))
        };
        n = s0 + n;
        n
    }
}

/// Request to commit a transaction.
#[derive(Debug, Clone, PartialEq)]
pub struct TransactionCommit {
    /// The id of the transaction
    pub transaction_id: i64,
    /// Whether only the master may handle the request
    pub require_master: bool,
}

/// The contents of a `TransactionCommit`.
pub struct TransactionCommitModel {
    pub transaction_id: i64,
    pub require_master: bool,
}

impl View for TransactionCommit {
    type V = TransactionCommitModel;

    open spec fn view(&self) -> TransactionCommitModel {
        TransactionCommitModel {
            transaction_id: self.transaction_id,
            require_master: self.require_master,
        }
    }
}

/// A `TransactionCommit` with every field at its default.
pub open spec fn transaction_commit_default() -> TransactionCommitModel {
    TransactionCommitModel {
        transaction_id: 0,
        require_master: false,
    }
}

/// Folds one field into a `TransactionCommit`; fields of unknown tags are skipped.
pub open spec fn transaction_commit_apply(m: TransactionCommitModel, f: WireField) -> Option<TransactionCommitModel> {
    if f.tag == 8 {
        match f.value {
            WireValue::Varint(v) => Some(TransactionCommitModel { transaction_id: i64_of_varint(v), ..m }),
            _ => None,
        }
    } else {
        if f.tag == 16 {
            match f.value {
                WireValue::Varint(v) => Some(TransactionCommitModel { require_master: bool_of_varint(v), ..m }),
                _ => None,
            }
        } else {
            Some(m)
        }
    }
}

/// `transaction_commit_apply` as a value.
pub open spec fn transaction_commit_applier() -> spec_fn(TransactionCommitModel, WireField) -> Option<TransactionCommitModel> {
    |m: TransactionCommitModel, f: WireField| transaction_commit_apply(m, f)
}

/// The tags of the fields that a `TransactionCommit` reads; the others are skipped.
pub open spec fn transaction_commit_known() -> spec_fn(u32) -> bool {
    |t: u32| t == 8 || t == 16
}

/// The `TransactionCommit` that `bytes` encode, if they encode one.
pub open spec fn transaction_commit_decode(bytes: Seq<u8>) -> Option<TransactionCommitModel> {
    decode_fields(bytes, transaction_commit_default(), transaction_commit_applier(), transaction_commit_known())
}

/// The fields that encode a `TransactionCommit`, in the order they are written.
pub open spec fn transaction_commit_fields(m: TransactionCommitModel) -> Seq<WireField> {
    (seq![WireField { tag: 8, value: WireValue::Varint(varint_of_i64(m.transaction_id)) }]) + ((seq![WireField { tag: 16, value: WireValue::Varint(varint_of_bool(m.require_master)) }]))
}

/// The encoding of a `TransactionCommit`.
pub open spec fn transaction_commit_encode(m: TransactionCommitModel) -> Seq<u8> {
    encode_fields(transaction_commit_fields(m))
}

/// A `TransactionCommit` that reads back as written: every length-delimited field, those of the
/// embedded messages included, holds fewer than 2^32 bytes.
pub open spec fn transaction_commit_wf(m: TransactionCommitModel) -> bool {
    fields_short(transaction_commit_fields(m))
}

/// The fields of a `TransactionCommit` carry the wire types of their payloads.
pub proof fn lemma_transaction_commit_fields_tagged(m: TransactionCommitModel)
    ensures
        fields_tagged(transaction_commit_fields(m)),
{
    assert(fields_tagged((seq![WireField { tag: 16, value: WireValue::Varint(varint_of_bool(m.require_master)) }])));
    assert(fields_tagged((seq![WireField { tag: 8, value: WireValue::Varint(varint_of_i64(m.transaction_id)) }])));
    lemma_fields_tagged_append(
        (seq![WireField { tag: 8, value: WireValue::Varint(varint_of_i64(m.transaction_id)) }]),
        (seq![WireField { tag: 16, value: WireValue::Varint(varint_of_bool(m.require_master)) }]),
    );
}

/// The bytes of an encoded `TransactionCommit`: `transaction_id` under tag 8, `require_master` under tag 16, in this order; optional fields only
/// when present, repeated ones once per element.
pub proof fn lemma_transaction_commit_encode_layout(m: TransactionCommitModel)
    ensures
        transaction_commit_encode(m) == (varint_field_bytes(8, varint_of_i64(m.transaction_id))) + ((varint_field_bytes(16, varint_of_bool(m.require_master)))),
{
    lemma_encode_fields_append(
        (seq![WireField { tag: 8, value: WireValue::Varint(varint_of_i64(m.transaction_id)) }]),
        (seq![WireField { tag: 16, value: WireValue::Varint(varint_of_bool(m.require_master)) }]),
    );
    lemma_varint_field_layout(8, varint_of_i64(m.transaction_id));
    lemma_varint_field_layout(16, varint_of_bool(m.require_master));
}

/// Reading a written `TransactionCommit` gives it back.
pub proof fn lemma_transaction_commit_roundtrip(m: TransactionCommitModel)
    requires
        transaction_commit_wf(m),
    ensures
        transaction_commit_decode(transaction_commit_encode(m)) == Some(m),
{
    let ap = transaction_commit_applier();
    lemma_transaction_commit_fields_tagged(m);
    lemma_fields_canonical_of_short(transaction_commit_fields(m));
    lemma_decode_encoded_fields(transaction_commit_fields(m), transaction_commit_default(), ap, transaction_commit_known());
    let a0 = transaction_commit_default();
    let a1 = TransactionCommitModel { transaction_id: m.transaction_id, ..a0 };
    lemma_apply_fields_append(
        (seq![WireField { tag: 8, value: WireValue::Varint(varint_of_i64(m.transaction_id)) }]),
        (seq![WireField { tag: 16, value: WireValue::Varint(varint_of_bool(m.require_master)) }]),
        a0,
        ap,
    );
    assert(apply_fields((seq![WireField { tag: 8, value: WireValue::Varint(varint_of_i64(m.transaction_id)) }]), a0, ap) == Some(a1)) by {
        reveal_with_fuel(apply_fields, 2);
        lemma_scalar_roundtrips(0, m.transaction_id, false);
    }
    let a2 = TransactionCommitModel { require_master: m.require_master, ..a1 };
    assert(apply_fields((seq![WireField { tag: 16, value: WireValue::Varint(varint_of_bool(m.require_master)) }]), a1, ap) == Some(a2)) by {
        reveal_with_fuel(apply_fields, 2);
        lemma_scalar_roundtrips(0, 0, m.require_master);
    }
    assert(a2 == m);
}

impl TransactionCommit {
    /// Decodes a `TransactionCommit` from its protobuf bytes.
    pub fn from_reader(bytes: &[u8]) -> (res: Option<TransactionCommit>)
        ensures
            transaction_commit_decode(bytes@) matches Some(m) ==> (res matches Some(e) && e@ == m),
            transaction_commit_decode(bytes@) is None ==> res is None,
    {
        let mut msg = TransactionCommit::default_value();
        let mut pos: usize = 0;
        assert(bytes@.skip(0) =~= bytes@);
        while pos < bytes.len()
            invariant
                pos <= bytes@.len(),
                transaction_commit_decode(bytes@) == decode_fields(bytes@.skip(pos as int), msg@, transaction_commit_applier(), transaction_commit_known()),
            decreases bytes@.len() - pos,
        {
            let ghost old_msg = msg@;
            let (tag, p) = match read_tag(bytes, pos) {
                Some(x) => x,
                None => {
                    return None;
                },
            };
            proof {
                lemma_field_parts(bytes@, pos as int, transaction_commit_known());
            }
            let known: bool = tag == 8 || tag == 16;
            let (value, next) = match read_value(bytes, p, tag, known) {
                Some(x) => x,
                None => {
                    return None;
                },
            };
            let ghost f = parse_field(bytes@.skip(pos as int), transaction_commit_known()).unwrap().0;
            proof {
                lemma_decode_step(bytes@, pos as int, old_msg, transaction_commit_applier(), transaction_commit_known());
                lemma_parse_field_len(bytes@.skip(pos as int), transaction_commit_known());
            }
            if tag == 8 {
                match value {
                    FieldValue::Varint(v) => {
                        msg.transaction_id = varint_i64(v);
                    },
                    _ => {
                        return None;
                    },
                }
            } else if tag == 16 {
                match value {
                    FieldValue::Varint(v) => {
                        msg.require_master = varint_bool(v);
                    },
                    _ => {
                        return None;
                    },
                }
            }
            assert(transaction_commit_apply(old_msg, f) == Some(msg@));
            pos = next;
        }
        assert(bytes@.skip(pos as int).len() == 0);
        Some(msg)
    }

    /// A `TransactionCommit` with every field at its default.
    pub fn default_value() -> (m: TransactionCommit)
        ensures
            m@ == transaction_commit_default(),
    {
        let m = TransactionCommit {
            transaction_id: 0,
            require_master: false,
        };
        m
    }

    /// A copy of this `TransactionCommit`.
    pub fn copy(&self) -> (c: TransactionCommit)
        ensures
            c@ == self@,
    {
        let c = TransactionCommit {
            transaction_id: self.transaction_id,
            require_master: self.require_master,
        };
        c
    }

    /// Encodes this `TransactionCommit` as protobuf bytes.
    #[verifier::spinoff_prover]
    #[verifier::rlimit(30)]
    pub fn encode(&self) -> (out: Vec<u8>)
        ensures
            out@ == transaction_commit_encode(self@),
            out@.len() < modulus32() ==> transaction_commit_wf(self@),
    {
        let mut out: Vec<u8> = Vec::new();
        let ghost mut fs: Seq<WireField> = Seq::empty();
        write_varint_field(&mut out, 8, i64_varint(self.transaction_id));
        proof {
            let f = WireField { tag: 8, value: WireValue::Varint(varint_of_i64(self.transaction_id)) };
            lemma_encode_fields_push(fs, f);
            lemma_fields_shaped_push(fs, f);
            fs = fs.push(f);
        }
        write_varint_field(&mut out, 16, bool_varint(self.require_master));
        proof {
            let f = WireField { tag: 16, value: WireValue::Varint(varint_of_bool(self.require_master)) };
            lemma_encode_fields_push(fs, f);
            lemma_fields_shaped_push(fs, f);
            fs = fs.push(f);
        }
        assert(fs =~= transaction_commit_fields(self@));
        proof {
            if out@.len() < modulus32() {
                lemma_fields_canonical_of_len(fs);
            }
        }
        out
    }

    /// The number of bytes of the encoding of this `TransactionCommit`, computed without encoding it.
    #[verifier::spinoff_prover]
    #[verifier::rlimit(30)]
    pub fn get_size(&self) -> (n: usize)
        requires
            transaction_commit_encode(self@).len() <= usize::MAX,
        ensures
            n == transaction_commit_encode(self@).len(),
    {
        let ghost m = self@;
        proof {
            lemma_encode_fields_append(
                (seq![WireField { tag: 8, value: WireValue::Varint(varint_of_i64(m.transaction_id)) }]),
                (seq![WireField { tag: 16, value: WireValue::Varint(varint_of_bool(m.require_master)) }]),
            );
        }
        let mut n: usize = 0;
        let s1: usize = {
            proof {
                lemma_encode_fields_one(WireField { tag: 16, value: WireValue::Varint(varint_of_bool(m.require_master)) });
            }
            sizeof_varint_field(16, bool_varint(self.require_master))
        };
        n = s1 + n;
        let s0: usize = {
            proof {
                lemma_encode_fields_one(WireField { tag: 8, value: WireValue::Varint(varint_of_i64(m.transaction_id)) });
            }
            sizeof_varint_field(8, i64_varint(self.transaction_id))
        };
        n = s0 + n;
        n
    }
}

/// Response to `TransactionCommit`.
#[derive(Debug, Clone, PartialEq)]
pub struct TransactionCommitCompleted {
    /// The id of the transaction
    pub transaction_id: i64,
    /// The outcome
    pub result: Option<OperationResult>,
    /// An explanation
    pub message: Option<String>,
    /// Number of the first written event
    pub first_event_number: i32,
    /// Number of the last written event
    pub last_event_number: i32,
    /// Prepare position of the commit
    pub prepare_position: Option<i64>,
    /// Commit position of the commit
    pub commit_position: Option<i64>,
}

/// The contents of a `TransactionCommitCompleted`.
pub struct TransactionCommitCompletedModel {
    pub transaction_id: i64,
    pub result: Option<OperationResult>,
    pub message: Option<Seq<char>>,
    pub first_event_number: i32,
    pub last_event_number: i32,
    pub prepare_position: Option<i64>,
    pub commit_position: Option<i64>,
}

impl View for TransactionCommitCompleted {
    type V = TransactionCommitCompletedModel;

    open spec fn view(&self) -> TransactionCommitCompletedModel {
        TransactionCommitCompletedModel {
            transaction_id: self.transaction_id,
            result: self.result,
            message: opt_string_view(self.message),
            first_event_number: self.first_event_number,
            last_event_number: self.last_event_number,
            prepare_position: self.prepare_position,
            commit_position: self.commit_position,
        }
    }
}

/// A `TransactionCommitCompleted` with every field at its default.
pub open spec fn transaction_commit_completed_default() -> TransactionCommitCompletedModel {
    TransactionCommitCompletedModel {
        transaction_id: 0,
        result: None,
        message: None,
        first_event_number: 0,
        last_event_number: 0,
        prepare_position: None,
        commit_position: None,
    }
}

/// Folds one field into a `TransactionCommitCompleted`; fields of unknown tags are skipped.
pub open spec fn transaction_commit_completed_apply(m: TransactionCommitCompletedModel, f: WireField) -> Option<TransactionCommitCompletedModel> {
    if f.tag == 8 {
        match f.value {
            WireValue::Varint(v) => Some(TransactionCommitCompletedModel { transaction_id: i64_of_varint(v), ..m }),
            _ => None,
        }
    } else {
        if f.tag == 16 {
            match f.value {
                WireValue::Varint(v) => Some(TransactionCommitCompletedModel { result: Some(OperationResult::from_i32_spec(i32_of_varint(v))), ..m }),
                _ => None,
            }
        } else {
            if f.tag == 26 {
                match f.value {
                    WireValue::Bytes(b) => match string_of(b) {
                        Some(s) => Some(TransactionCommitCompletedModel { message: Some(s), ..m }),
                        None => None,
                    },
                    _ => None,
                }
            } else {
                if f.tag == 32 {
                    match f.value {
                        WireValue::Varint(v) => Some(TransactionCommitCompletedModel { first_event_number: i32_of_varint(v), ..m }),
                        _ => None,
                    }
                } else {
                    if f.tag == 40 {
                        match f.value {
                            WireValue::Varint(v) => Some(TransactionCommitCompletedModel { last_event_number: i32_of_varint(v), ..m }),
                            _ => None,
                        }
                    } else {
                        if f.tag == 48 {
                            match f.value {
                                WireValue::Varint(v) => Some(TransactionCommitCompletedModel { prepare_position: Some(i64_of_varint(v)), ..m }),
                                _ => None,
                            }
                        } else {
                            if f.tag == 56 {
                                match f.value {
                                    WireValue::Varint(v) => Some(TransactionCommitCompletedModel { commit_position: Some(i64_of_varint(v)), ..m }),
                                    _ => None,
                                }
                            } else {
                                Some(m)
                            }
                        }
                    }
                }
            }
        }
    }
}

/// `transaction_commit_completed_apply` as a value.
pub open spec fn transaction_commit_completed_applier() -> spec_fn(TransactionCommitCompletedModel, WireField) -> Option<TransactionCommitCompletedModel> {
    |m: TransactionCommitCompletedModel, f: WireField| transaction_commit_completed_apply(m, f)
}

/// The tags of the fields that a `TransactionCommitCompleted` reads; the others are skipped.
pub open spec fn transaction_commit_completed_known() -> spec_fn(u32) -> bool {
    |t: u32| t == 8 || t == 16 || t == 26 || t == 32 || t == 40 || t == 48 || t == 56
}

/// The `TransactionCommitCompleted` that `bytes` encode, if they encode one.
pub open spec fn transaction_commit_completed_decode(bytes: Seq<u8>) -> Option<TransactionCommitCompletedModel> {
    decode_fields(bytes, transaction_commit_completed_default(), transaction_commit_completed_applier(), transaction_commit_completed_known())
}

/// The fields that encode a `TransactionCommitCompleted`, in the order they are written.
pub open spec fn transaction_commit_completed_fields(m: TransactionCommitCompletedModel) -> Seq<WireField> {
    (seq![WireField { tag: 8, value: WireValue::Varint(varint_of_i64(m.transaction_id)) }]) + ((match m.result {
        Some(x) => seq![WireField { tag: 16, value: WireValue::Varint(varint_of_i32(x.to_i32_spec())) }],
        None => Seq::<WireField>::empty(),
    }) + ((match m.message {
        Some(x) => seq![WireField { tag: 26, value: WireValue::Bytes(encode_utf8(x)) }],
        None => Seq::<WireField>::empty(),
    }) + ((seq![WireField { tag: 32, value: WireValue::Varint(varint_of_i32(m.first_event_number)) }]) + ((seq![WireField { tag: 40, value: WireValue::Varint(varint_of_i32(m.last_event_number)) }]) + ((match m.prepare_position {
        Some(x) => seq![WireField { tag: 48, value: WireValue::Varint(varint_of_i64(x)) }],
        None => Seq::<WireField>::empty(),
    }) + ((match m.commit_position {
        Some(x) => seq![WireField { tag: 56, value: WireValue::Varint(varint_of_i64(x)) }],
        None => Seq::<WireField>::empty(),
    })))))))
}

/// The encoding of a `TransactionCommitCompleted`.
pub open spec fn transaction_commit_completed_encode(m: TransactionCommitCompletedModel) -> Seq<u8> {
    encode_fields(transaction_commit_completed_fields(m))
}

/// A `TransactionCommitCompleted` that reads back as written: every length-delimited field, those of the
/// embedded messages included, holds fewer than 2^32 bytes.
pub open spec fn transaction_commit_completed_wf(m: TransactionCommitCompletedModel) -> bool {
    fields_short(transaction_commit_completed_fields(m))
}

/// The fields of a `TransactionCommitCompleted` carry the wire types of their payloads.
pub proof fn lemma_transaction_commit_completed_fields_tagged(m: TransactionCommitCompletedModel)
    ensures
        fields_tagged(transaction_commit_completed_fields(m)),
{
    assert(fields_tagged((match m.commit_position {
        Some(x) => seq![WireField { tag: 56, value: WireValue::Varint(varint_of_i64(x)) }],
        None => Seq::<WireField>::empty(),
    })));
    assert(fields_tagged((match m.prepare_position {
        Some(x) => seq![WireField { tag: 48, value: WireValue::Varint(varint_of_i64(x)) }],
        None => Seq::<WireField>::empty(),
    })));
    lemma_fields_tagged_append(
        (match m.prepare_position {
            Some(x) => seq![WireField { tag: 48, value: WireValue::Varint(varint_of_i64(x)) }],
            None => Seq::<WireField>::empty(),
        }),
        (match m.commit_position {
            Some(x) => seq![WireField { tag: 56, value: WireValue::Varint(varint_of_i64(x)) }],
            None => Seq::<WireField>::empty(),
        }),
    );
    assert(fields_tagged((seq![WireField { tag: 40, value: WireValue::Varint(varint_of_i32(m.last_event_number)) }])));
    lemma_fields_tagged_append(
        (seq![WireField { tag: 40, value: WireValue::Varint(varint_of_i32(m.last_event_number)) }]),
        (match m.prepare_position {
            Some(x) => seq![WireField { tag: 48, value: WireValue::Varint(varint_of_i64(x)) }],
            None => Seq::<WireField>::empty(),
        }) + ((match m.commit_position {
            Some(x) => seq![WireField { tag: 56, value: WireValue::Varint(varint_of_i64(x)) }],
            None => Seq::<WireField>::empty(),
        })),
    );
    assert(fields_tagged((seq![WireField { tag: 32, value: WireValue::Varint(varint_of_i32(m.first_event_number)) }])));
    lemma_fields_tagged_append(
        (seq![WireField { tag: 32, value: WireValue::Varint(varint_of_i32(m.first_event_number)) }]),
        (seq![WireField { tag: 40, value: WireValue::Varint(varint_of_i32(m.last_event_number)) }]) + ((match m.prepare_position {
            Some(x) => seq![WireField { tag: 48, value: WireValue::Varint(varint_of_i64(x)) }],
            None => Seq::<WireField>::empty(),
        }) + ((match m.commit_position {
            Some(x) => seq![WireField { tag: 56, value: WireValue::Varint(varint_of_i64(x)) }],
            None => Seq::<WireField>::empty(),
        }))),
    );
    assert(fields_tagged((match m.message {
        Some(x) => seq![WireField { tag: 26, value: WireValue::Bytes(encode_utf8(x)) }],
        None => Seq::<WireField>::empty(),
    })));
    lemma_fields_tagged_append(
        (match m.message {
            Some(x) => seq![WireField { tag: 26, value: WireValue::Bytes(encode_utf8(x)) }],
            None => Seq::<WireField>::empty(),
        }),
        (seq![WireField { tag: 32, value: WireValue::Varint(varint_of_i32(m.first_event_number)) }]) + ((seq![WireField { tag: 40, value: WireValue::Varint(varint_of_i32(m.last_event_number)) }]) + ((match m.prepare_position {
            Some(x) => seq![WireField { tag: 48, value: WireValue::Varint(varint_of_i64(x)) }],
            None => Seq::<WireField>::empty(),
        }) + ((match m.commit_position {
            Some(x) => seq![WireField { tag: 56, value: WireValue::Varint(varint_of_i64(x)) }],
            None => Seq::<WireField>::empty(),
        })))),
    );
    assert(fields_tagged((match m.result {
        Some(x) => seq![WireField { tag: 16, value: WireValue::Varint(varint_of_i32(x.to_i32_spec())) }],
        None => Seq::<WireField>::empty(),
    })));
    lemma_fields_tagged_append(
        (match m.result {
            Some(x) => seq![WireField { tag: 16, value: WireValue::Varint(varint_of_i32(x.to_i32_spec())) }],
            None => Seq::<WireField>::empty(),
        }),
        (match m.message {
            Some(x) => seq![WireField { tag: 26, value: WireValue::Bytes(encode_utf8(x)) }],
            None => Seq::<WireField>::empty(),
        }) + ((seq![WireField { tag: 32, value: WireValue::Varint(varint_of_i32(m.first_event_number)) }]) + ((seq![WireField { tag: 40, value: WireValue::Varint(varint_of_i32(m.last_event_number)) }]) + ((match m.prepare_position {
            Some(x) => seq![WireField { tag: 48, value: WireValue::Varint(varint_of_i64(x)) }],
            None => Seq::<WireField>::empty(),
        }) + ((match m.commit_position {
            Some(x) => seq![WireField { tag: 56, value: WireValue::Varint(varint_of_i64(x)) }],
            None => Seq::<WireField>::empty(),
        }))))),
    );
    assert(fields_tagged((seq![WireField { tag: 8, value: WireValue::Varint(varint_of_i64(m.transaction_id)) }])));
    lemma_fields_tagged_append(
        (seq![WireField { tag: 8, value: WireValue::Varint(varint_of_i64(m.transaction_id)) }]),
        (match m.result {
            Some(x) => seq![WireField { tag: 16, value: WireValue::Varint(varint_of_i32(x.to_i32_spec())) }],
            None => Seq::<WireField>::empty(),
        }) + ((match m.message {
            Some(x) => seq![WireField { tag: 26, value: WireValue::Bytes(encode_utf8(x)) }],
            None => Seq::<WireField>::empty(),
        }) + ((seq![WireField { tag: 32, value: WireValue::Varint(varint_of_i32(m.first_event_number)) }]) + ((seq![WireField { tag: 40, value: WireValue::Varint(varint_of_i32(m.last_event_number)) }]) + ((match m.prepare_position {
            Some(x) => seq![WireField { tag: 48, value: WireValue::Varint(varint_of_i64(x)) }],
            None => Seq::<WireField>::empty(),
        }) + ((match m.commit_position {
            Some(x) => seq![WireField { tag: 56, value: WireValue::Varint(varint_of_i64(x)) }],
            None => Seq::<WireField>::empty(),
        })))))),
    );
}

/// The bytes of an encoded `TransactionCommitCompleted`: `transaction_id` under tag 8, `result` under tag 16, `message` under tag 26, `first_event_number` under tag 32, `last_event_number` under tag 40, `prepare_position` under tag 48, `commit_position` under tag 56, in this order; optional fields only
/// when present, repeated ones once per element.
pub proof fn lemma_transaction_commit_completed_encode_layout(m: TransactionCommitCompletedModel)
    ensures
        transaction_commit_completed_encode(m) == (varint_field_bytes(8, varint_of_i64(m.transaction_id))) + (((match m.result {
            Some(x) => varint_field_bytes(16, varint_of_i32(x.to_i32_spec())),
            None => Seq::<u8>::empty(),
        })) + (((match m.message {
            Some(x) => bytes_field_bytes(26, encode_utf8(x)),
            None => Seq::<u8>::empty(),
        })) + ((varint_field_bytes(32, varint_of_i32(m.first_event_number))) + ((varint_field_bytes(40, varint_of_i32(m.last_event_number))) + (((match m.prepare_position {
            Some(x) => varint_field_bytes(48, varint_of_i64(x)),
            None => Seq::<u8>::empty(),
        })) + (((match m.commit_position {
            Some(x) => varint_field_bytes(56, varint_of_i64(x)),
            None => Seq::<u8>::empty(),
        })))))))),
{
    lemma_encode_fields_append(
        (seq![WireField { tag: 8, value: WireValue::Varint(varint_of_i64(m.transaction_id)) }]),
        (match m.result {
            Some(x) => seq![WireField { tag: 16, value: WireValue::Varint(varint_of_i32(x.to_i32_spec())) }],
            None => Seq::<WireField>::empty(),
        }) + ((match m.message {
            Some(x) => seq![WireField { tag: 26, value: WireValue::Bytes(encode_utf8(x)) }],
            None => Seq::<WireField>::empty(),
        }) + ((seq![WireField { tag: 32, value: WireValue::Varint(varint_of_i32(m.first_event_number)) }]) + ((seq![WireField { tag: 40, value: WireValue::Varint(varint_of_i32(m.last_event_number)) }]) + ((match m.prepare_position {
            Some(x) => seq![WireField { tag: 48, value: WireValue::Varint(varint_of_i64(x)) }],
            None => Seq::<WireField>::empty(),
        }) + ((match m.commit_position {
            Some(x) => seq![WireField { tag: 56, value: WireValue::Varint(varint_of_i64(x)) }],
            None => Seq::<WireField>::empty(),
        })))))),
    );
    lemma_encode_fields_append(
        (match m.result {
            Some(x) => seq![WireField { tag: 16, value: WireValue::Varint(varint_of_i32(x.to_i32_spec())) }],
            None => Seq::<WireField>::empty(),
        }),
        (match m.message {
            Some(x) => seq![WireField { tag: 26, value: WireValue::Bytes(encode_utf8(x)) }],
            None => Seq::<WireField>::empty(),
        }) + ((seq![WireField { tag: 32, value: WireValue::Varint(varint_of_i32(m.first_event_number)) }]) + ((seq![WireField { tag: 40, value: WireValue::Varint(varint_of_i32(m.last_event_number)) }]) + ((match m.prepare_position {
            Some(x) => seq![WireField { tag: 48, value: WireValue::Varint(varint_of_i64(x)) }],
            None => Seq::<WireField>::empty(),
        }) + ((match m.commit_position {
            Some(x) => seq![WireField { tag: 56, value: WireValue::Varint(varint_of_i64(x)) }],
            None => Seq::<WireField>::empty(),
        }))))),
    );
    lemma_encode_fields_append(
        (match m.message {
            Some(x) => seq![WireField { tag: 26, value: WireValue::Bytes(encode_utf8(x)) }],
            None => Seq::<WireField>::empty(),
        }),
        (seq![WireField { tag: 32, value: WireValue::Varint(varint_of_i32(m.first_event_number)) }]) + ((seq![WireField { tag: 40, value: WireValue::Varint(varint_of_i32(m.last_event_number)) }]) + ((match m.prepare_position {
            Some(x) => seq![WireField { tag: 48, value: WireValue::Varint(varint_of_i64(x)) }],
            None => Seq::<WireField>::empty(),
        }) + ((match m.commit_position {
            Some(x) => seq![WireField { tag: 56, value: WireValue::Varint(varint_of_i64(x)) }],
            None => Seq::<WireField>::empty(),
        })))),
    );
    lemma_encode_fields_append(
        (seq![WireField { tag: 32, value: WireValue::Varint(varint_of_i32(m.first_event_number)) }]),
        (seq![WireField { tag: 40, value: WireValue::Varint(varint_of_i32(m.last_event_number)) }]) + ((match m.prepare_position {
            Some(x) => seq![WireField { tag: 48, value: WireValue::Varint(varint_of_i64(x)) }],
            None => Seq::<WireField>::empty(),
        }) + ((match m.commit_position {
            Some(x) => seq![WireField { tag: 56, value: WireValue::Varint(varint_of_i64(x)) }],
            None => Seq::<WireField>::empty(),
        }))),
    );
    lemma_encode_fields_append(
        (seq![WireField { tag: 40, value: WireValue::Varint(varint_of_i32(m.last_event_number)) }]),
        (match m.prepare_position {
            Some(x) => seq![WireField { tag: 48, value: WireValue::Varint(varint_of_i64(x)) }],
            None => Seq::<WireField>::empty(),
        }) + ((match m.commit_position {
            Some(x) => seq![WireField { tag: 56, value: WireValue::Varint(varint_of_i64(x)) }],
            None => Seq::<WireField>::empty(),
        })),
    );
    lemma_encode_fields_append(
        (match m.prepare_position {
            Some(x) => seq![WireField { tag: 48, value: WireValue::Varint(varint_of_i64(x)) }],
            None => Seq::<WireField>::empty(),
        }),
        (match m.commit_position {
            Some(x) => seq![WireField { tag: 56, value: WireValue::Varint(varint_of_i64(x)) }],
            None => Seq::<WireField>::empty(),
        }),
    );
    lemma_varint_field_layout(8, varint_of_i64(m.transaction_id));
    if let Some(x) = m.result {
        lemma_varint_field_layout(16, varint_of_i32(x.to_i32_spec()));
    }
    if let Some(x) = m.message {
        lemma_bytes_field_layout(26, encode_utf8(x));
    }
    lemma_varint_field_layout(32, varint_of_i32(m.first_event_number));
    lemma_varint_field_layout(40, varint_of_i32(m.last_event_number));
    if let Some(x) = m.prepare_position {
        lemma_varint_field_layout(48, varint_of_i64(x));
    }
    if let Some(x) = m.commit_position {
        lemma_varint_field_layout(56, varint_of_i64(x));
    }
}

/// Reading a written `TransactionCommitCompleted` gives it back.
pub proof fn lemma_transaction_commit_completed_roundtrip(m: TransactionCommitCompletedModel)
    requires
        transaction_commit_completed_wf(m),
    ensures
        transaction_commit_completed_decode(transaction_commit_completed_encode(m)) == Some(m),
{
    let ap = transaction_commit_completed_applier();
    lemma_transaction_commit_completed_fields_tagged(m);
    lemma_fields_canonical_of_short(transaction_commit_completed_fields(m));
    lemma_decode_encoded_fields(transaction_commit_completed_fields(m), transaction_commit_completed_default(), ap, transaction_commit_completed_known());
    let a0 = transaction_commit_completed_default();
    let a1 = TransactionCommitCompletedModel { transaction_id: m.transaction_id, ..a0 };
    lemma_apply_fields_append(
        (seq![WireField { tag: 8, value: WireValue::Varint(varint_of_i64(m.transaction_id)) }]),
        (match m.result {
            Some(x) => seq![WireField { tag: 16, value: WireValue::Varint(varint_of_i32(x.to_i32_spec())) }],
            None => Seq::<WireField>::empty(),
        }) + ((match m.message {
            Some(x) => seq![WireField { tag: 26, value: WireValue::Bytes(encode_utf8(x)) }],
            None => Seq::<WireField>::empty(),
        }) + ((seq![WireField { tag: 32, value: WireValue::Varint(varint_of_i32(m.first_event_number)) }]) + ((seq![WireField { tag: 40, value: WireValue::Varint(varint_of_i32(m.last_event_number)) }]) + ((match m.prepare_position {
            Some(x) => seq![WireField { tag: 48, value: WireValue::Varint(varint_of_i64(x)) }],
            None => Seq::<WireField>::empty(),
        }) + ((match m.commit_position {
            Some(x) => seq![WireField { tag: 56, value: WireValue::Varint(varint_of_i64(x)) }],
            None => Seq::<WireField>::empty(),
        })))))),
        a0,
        ap,
    );
    assert(apply_fields((seq![WireField { tag: 8, value: WireValue::Varint(varint_of_i64(m.transaction_id)) }]), a0, ap) == Some(a1)) by {
        reveal_with_fuel(apply_fields, 2);
        lemma_scalar_roundtrips(0, m.transaction_id, false);
    }
    let a2 = TransactionCommitCompletedModel { result: m.result, ..a1 };
    lemma_apply_fields_append(
        (match m.result {
            Some(x) => seq![WireField { tag: 16, value: WireValue::Varint(varint_of_i32(x.to_i32_spec())) }],
            None => Seq::<WireField>::empty(),
        }),
        (match m.message {
            Some(x) => seq![WireField { tag: 26, value: WireValue::Bytes(encode_utf8(x)) }],
            None => Seq::<WireField>::empty(),
        }) + ((seq![WireField { tag: 32, value: WireValue::Varint(varint_of_i32(m.first_event_number)) }]) + ((seq![WireField { tag: 40, value: WireValue::Varint(varint_of_i32(m.last_event_number)) }]) + ((match m.prepare_position {
            Some(x) => seq![WireField { tag: 48, value: WireValue::Varint(varint_of_i64(x)) }],
            None => Seq::<WireField>::empty(),
        }) + ((match m.commit_position {
            Some(x) => seq![WireField { tag: 56, value: WireValue::Varint(varint_of_i64(x)) }],
            None => Seq::<WireField>::empty(),
        }))))),
        a1,
        ap,
    );
    assert(apply_fields((match m.result {
        Some(x) => seq![WireField { tag: 16, value: WireValue::Varint(varint_of_i32(x.to_i32_spec())) }],
        None => Seq::<WireField>::empty(),
    }), a1, ap) == Some(a2)) by {
        reveal_with_fuel(apply_fields, 2);
        if let Some(x) = m.result {
            lemma_scalar_roundtrips(x.to_i32_spec(), 0, false);
            x.lemma_i32_roundtrip();
        }
    }
    let a3 = TransactionCommitCompletedModel { message: m.message, ..a2 };
    lemma_apply_fields_append(
        (match m.message {
            Some(x) => seq![WireField { tag: 26, value: WireValue::Bytes(encode_utf8(x)) }],
            None => Seq::<WireField>::empty(),
        }),
        (seq![WireField { tag: 32, value: WireValue::Varint(varint_of_i32(m.first_event_number)) }]) + ((seq![WireField { tag: 40, value: WireValue::Varint(varint_of_i32(m.last_event_number)) }]) + ((match m.prepare_position {
            Some(x) => seq![WireField { tag: 48, value: WireValue::Varint(varint_of_i64(x)) }],
            None => Seq::<WireField>::empty(),
        }) + ((match m.commit_position {
            Some(x) => seq![WireField { tag: 56, value: WireValue::Varint(varint_of_i64(x)) }],
            None => Seq::<WireField>::empty(),
        })))),
        a2,
        ap,
    );
    assert(apply_fields((match m.message {
        Some(x) => seq![WireField { tag: 26, value: WireValue::Bytes(encode_utf8(x)) }],
        None => Seq::<WireField>::empty(),
    }), a2, ap) == Some(a3)) by {
        reveal_with_fuel(apply_fields, 2);
        if let Some(x) = m.message {
            lemma_string_roundtrip(x);
        }
    }
    let a4 = TransactionCommitCompletedModel { first_event_number: m.first_event_number, ..a3 };
    lemma_apply_fields_append(
        (seq![WireField { tag: 32, value: WireValue::Varint(varint_of_i32(m.first_event_number)) }]),
        (seq![WireField { tag: 40, value: WireValue::Varint(varint_of_i32(m.last_event_number)) }]) + ((match m.prepare_position {
            Some(x) => seq![WireField { tag: 48, value: WireValue::Varint(varint_of_i64(x)) }],
            None => Seq::<WireField>::empty(),
        }) + ((match m.commit_position {
            Some(x) => seq![WireField { tag: 56, value: WireValue::Varint(varint_of_i64(x)) }],
            None => Seq::<WireField>::empty(),
        }))),
        a3,
        ap,
    );
    assert(apply_fields((seq![WireField { tag: 32, value: WireValue::Varint(varint_of_i32(m.first_event_number)) }]), a3, ap) == Some(a4)) by {
        reveal_with_fuel(apply_fields, 2);
        lemma_scalar_roundtrips(m.first_event_number, 0, false);
    }
    let a5 = TransactionCommitCompletedModel { last_event_number: m.last_event_number, ..a4 };
    lemma_apply_fields_append(
        (seq![WireField { tag: 40, value: WireValue::Varint(varint_of_i32(m.last_event_number)) }]),
        (match m.prepare_position {
            Some(x) => seq![WireField { tag: 48, value: WireValue::Varint(varint_of_i64(x)) }],
            None => Seq::<WireField>::empty(),
        }) + ((match m.commit_position {
            Some(x) => seq![WireField { tag: 56, value: WireValue::Varint(varint_of_i64(x)) }],
            None => Seq::<WireField>::empty(),
        })),
        a4,
        ap,
    );
    assert(apply_fields((seq![WireField { tag: 40, value: WireValue::Varint(varint_of_i32(m.last_event_number)) }]), a4, ap) == Some(a5)) by {
        reveal_with_fuel(apply_fields, 2);
        lemma_scalar_roundtrips(m.last_event_number, 0, false);
    }
    let a6 = TransactionCommitCompletedModel { prepare_position: m.prepare_position, ..a5 };
    lemma_apply_fields_append(
        (match m.prepare_position {
            Some(x) => seq![WireField { tag: 48, value: WireValue::Varint(varint_of_i64(x)) }],
            None => Seq::<WireField>::empty(),
        }),
        (match m.commit_position {
            Some(x) => seq![WireField { tag: 56, value: WireValue::Varint(varint_of_i64(x)) }],
            None => Seq::<WireField>::empty(),
        }),
        a5,
        ap,
    );
    assert(apply_fields((match m.prepare_position {
        Some(x) => seq![WireField { tag: 48, value: WireValue::Varint(varint_of_i64(x)) }],
        None => Seq::<WireField>::empty(),
    }), a5, ap) == Some(a6)) by {
        reveal_with_fuel(apply_fields, 2);
        if let Some(x) = m.prepare_position {
            lemma_scalar_roundtrips(0, x, false);
        }
    }
    let a7 = TransactionCommitCompletedModel { commit_position: m.commit_position, ..a6 };
    assert(apply_fields((match m.commit_position {
        Some(x) => seq![WireField { tag: 56, value: WireValue::Varint(varint_of_i64(x)) }],
        None => Seq::<WireField>::empty(),
    }), a6, ap) == Some(a7)) by {
        reveal_with_fuel(apply_fields, 2);
        if let Some(x) = m.commit_position {
            lemma_scalar_roundtrips(0, x, false);
        }
    }
    assert(a7 == m);
}

impl TransactionCommitCompleted {
    /// Decodes a `TransactionCommitCompleted` from its protobuf bytes.
    pub fn from_reader(bytes: &[u8]) -> (res: Option<TransactionCommitCompleted>)
        ensures
            transaction_commit_completed_decode(bytes@) matches Some(m) ==> (res matches Some(e) && e@ == m),
            transaction_commit_completed_decode(bytes@) is None ==> res is None,
    {
        let mut msg = TransactionCommitCompleted::default_value();
        let mut pos: usize = 0;
        assert(bytes@.skip(0) =~= bytes@);
        while pos < bytes.len()
            invariant
                pos <= bytes@.len(),
                transaction_commit_completed_decode(bytes@) == decode_fields(bytes@.skip(pos as int), msg@, transaction_commit_completed_applier(), transaction_commit_completed_known()),
            decreases bytes@.len() - pos,
        {
            let ghost old_msg = msg@;
            let (tag, p) = match read_tag(bytes, pos) {
                Some(x) => x,
                None => {
                    return None;
                },
            };
            proof {
                lemma_field_parts(bytes@, pos as int, transaction_commit_completed_known());
            }
            let known: bool = tag == 8 || tag == 16 || tag == 26 || tag == 32 || tag == 40 || tag == 48 || tag == 56;
            let (value, next) = match read_value(bytes, p, tag, known) {
                Some(x) => x,
                None => {
                    return None;
                },
            };
            let ghost f = parse_field(bytes@.skip(pos as int), transaction_commit_completed_known()).unwrap().0;
            proof {
                lemma_decode_step(bytes@, pos as int, old_msg, transaction_commit_completed_applier(), transaction_commit_completed_known());
                lemma_parse_field_len(bytes@.skip(pos as int), transaction_commit_completed_known());
            }
            if tag == 8 {
                match value {
                    FieldValue::Varint(v) => {
                        msg.transaction_id = varint_i64(v);
                    },
                    _ => {
                        return None;
                    },
                }
            } else if tag == 16 {
                match value {
                    FieldValue::Varint(v) => {
                        msg.result = Some(OperationResult::from_i32(varint_i32(v)));
                    },
                    _ => {
                        return None;
                    },
                }
            } else if tag == 26 {
                match value {
                    FieldValue::Bytes(i, j) => match copy_string(bytes, i, j) {
                        Some(s) => {
                            msg.message = Some(s);
                        },
                        None => {
                            return None;
                        },
                    },
                    _ => {
                        return None;
                    },
                }
            } else if tag == 32 {
                match value {
                    FieldValue::Varint(v) => {
                        msg.first_event_number = varint_i32(v);
                    },
                    _ => {
                        return None;
                    },
                }
            } else if tag == 40 {
                match value {
                    FieldValue::Varint(v) => {
                        msg.last_event_number = varint_i32(v);
                    },
                    _ => {
                        return None;
                    },
                }
            } else if tag == 48 {
                match value {
                    FieldValue::Varint(v) => {
                        msg.prepare_position = Some(varint_i64(v));
                    },
                    _ => {
                        return None;
                    },
                }
            } else if tag == 56 {
                match value {
                    FieldValue::Varint(v) => {
                        msg.commit_position = Some(varint_i64(v));
                    },
                    _ => {
                        return None;
                    },
                }
            }
            assert(transaction_commit_completed_apply(old_msg, f) == Some(msg@));
            pos = next;
        }
        assert(bytes@.skip(pos as int).len() == 0);
        Some(msg)
    }

    /// A `TransactionCommitCompleted` with every field at its default.
    pub fn default_value() -> (m: TransactionCommitCompleted)
        ensures
            m@ == transaction_commit_completed_default(),
    {
        let m = TransactionCommitCompleted {
            transaction_id: 0,
            result: None,
            message: None,
            first_event_number: 0,
            last_event_number: 0,
            prepare_position: None,
            commit_position: None,
        };
        m
    }

    /// A copy of this `TransactionCommitCompleted`.
    pub fn copy(&self) -> (c: TransactionCommitCompleted)
        ensures
            c@ == self@,
    {
        let c = TransactionCommitCompleted {
            transaction_id: self.transaction_id,
            result: self.result,
            message: match &self.message {
                Some(x) => Some(x.clone()),
                None => None,
            },
            first_event_number: self.first_event_number,
            last_event_number: self.last_event_number,
            prepare_position: self.prepare_position,
            commit_position: self.commit_position,
        };
        assert(c@.message =~= self@.message);
        c
    }

    /// Encodes this `TransactionCommitCompleted` as protobuf bytes.
    #[verifier::spinoff_prover]
    #[verifier::rlimit(30)]
    pub fn encode(&self) -> (out: Vec<u8>)
        ensures
            out@ == transaction_commit_completed_encode(self@),
            out@.len() < modulus32() ==> transaction_commit_completed_wf(self@),
    {
        let mut out: Vec<u8> = Vec::new();
        let ghost mut fs: Seq<WireField> = Seq::empty();
        write_varint_field(&mut out, 8, i64_varint(self.transaction_id));
        proof {
            let f = WireField { tag: 8, value: WireValue::Varint(varint_of_i64(self.transaction_id)) };
            lemma_encode_fields_push(fs, f);
            lemma_fields_shaped_push(fs, f);
            fs = fs.push(f);
        }
        match self.result {
            Some(x) => {
                write_varint_field(&mut out, 16, i32_varint(x.to_i32()));
                proof {
                    let f = WireField { tag: 16, value: WireValue::Varint(varint_of_i32(x.to_i32_spec())) };
                    lemma_encode_fields_push(fs, f);
                    lemma_fields_shaped_push(fs, f);
                    fs = fs.push(f);
                }
            },
            None => {},
        }
        match &self.message {
            Some(x) => {
                write_bytes_field(&mut out, 26, x.as_str().as_bytes());
                proof {
                    let f = WireField { tag: 26, value: WireValue::Bytes(encode_utf8(x@)) };
                    lemma_encode_fields_push(fs, f);
                    lemma_fields_shaped_push(fs, f);
                    fs = fs.push(f);
                }
            },
            None => {},
        }
        write_varint_field(&mut out, 32, i32_varint(self.first_event_number));
        proof {
            let f = WireField { tag: 32, value: WireValue::Varint(varint_of_i32(self.first_event_number)) };
            lemma_encode_fields_push(fs, f);
            lemma_fields_shaped_push(fs, f);
            fs = fs.push(f);
        }
        write_varint_field(&mut out, 40, i32_varint(self.last_event_number));
        proof {
            let f = WireField { tag: 40, value: WireValue::Varint(varint_of_i32(self.last_event_number)) };
            lemma_encode_fields_push(fs, f);
            lemma_fields_shaped_push(fs, f);
            fs = fs.push(f);
        }
        match self.prepare_position {
            Some(x) => {
                write_varint_field(&mut out, 48, i64_varint(x));
                proof {
                    let f = WireField { tag: 48, value: WireValue::Varint(varint_of_i64(x)) };
                    lemma_encode_fields_push(fs, f);
                    lemma_fields_shaped_push(fs, f);
                    fs = fs.push(f);
                }
            },
            None => {},
        }
        match self.commit_position {
            Some(x) => {
                write_varint_field(&mut out, 56, i64_varint(x));
                proof {
                    let f = WireField { tag: 56, value: WireValue::Varint(varint_of_i64(x)) };
                    lemma_encode_fields_push(fs, f);
                    lemma_fields_shaped_push(fs, f);
                    fs = fs.push(f);
                }
            },
            None => {},
        }
        assert(fs =~= transaction_commit_completed_fields(self@));
        proof {
            if out@.len() < modulus32() {
                lemma_fields_canonical_of_len(fs);
            }
        }
        out
    }

    /// The number of bytes of the encoding of this `TransactionCommitCompleted`, computed without encoding it.
    #[verifier::spinoff_prover]
    #[verifier::rlimit(30)]
    pub fn get_size(&self) -> (n: usize)
        requires
            transaction_commit_completed_encode(self@).len() <= usize::MAX,
        ensures
            n == transaction_commit_completed_encode(self@).len(),
    {
        let ghost m = self@;
        proof {
            lemma_encode_fields_append(
                (seq![WireField { tag: 8, value: WireValue::Varint(varint_of_i64(m.transaction_id)) }]),
                (match m.result {
                    Some(x) => seq![WireField { tag: 16, value: WireValue::Varint(varint_of_i32(x.to_i32_spec())) }],
                    None => Seq::<WireField>::empty(),
                }) + ((match m.message {
                    Some(x) => seq![WireField { tag: 26, value: WireValue::Bytes(encode_utf8(x)) }],
                    None => Seq::<WireField>::empty(),
                }) + ((seq![WireField { tag: 32, value: WireValue::Varint(varint_of_i32(m.first_event_number)) }]) + ((seq![WireField { tag: 40, value: WireValue::Varint(varint_of_i32(m.last_event_number)) }]) + ((match m.prepare_position {
                    Some(x) => seq![WireField { tag: 48, value: WireValue::Varint(varint_of_i64(x)) }],
                    None => Seq::<WireField>::empty(),
                }) + ((match m.commit_position {
                    Some(x) => seq![WireField { tag: 56, value: WireValue::Varint(varint_of_i64(x)) }],
                    None => Seq::<WireField>::empty(),
                })))))),
            );
            lemma_encode_fields_append(
                (match m.result {
                    Some(x) => seq![WireField { tag: 16, value: WireValue::Varint(varint_of_i32(x.to_i32_spec())) }],
                    None => Seq::<WireField>::empty(),
                }),
                (match m.message {
                    Some(x) => seq![WireField { tag: 26, value: WireValue::Bytes(encode_utf8(x)) }],
                    None => Seq::<WireField>::empty(),
                }) + ((seq![WireField { tag: 32, value: WireValue::Varint(varint_of_i32(m.first_event_number)) }]) + ((seq![WireField { tag: 40, value: WireValue::Varint(varint_of_i32(m.last_event_number)) }]) + ((match m.prepare_position {
                    Some(x) => seq![WireField { tag: 48, value: WireValue::Varint(varint_of_i64(x)) }],
                    None => Seq::<WireField>::empty(),
                }) + ((match m.commit_position {
                    Some(x) => seq![WireField { tag: 56, value: WireValue::Varint(varint_of_i64(x)) }],
                    None => Seq::<WireField>::empty(),
                }))))),
            );
            lemma_encode_fields_append(
                (match m.message {
                    Some(x) => seq![WireField { tag: 26, value: WireValue::Bytes(encode_utf8(x)) }],
                    None => Seq::<WireField>::empty(),
                }),
                (seq![WireField { tag: 32, value: WireValue::Varint(varint_of_i32(m.first_event_number)) }]) + ((seq![WireField { tag: 40, value: WireValue::Varint(varint_of_i32(m.last_event_number)) }]) + ((match m.prepare_position {
                    Some(x) => seq![WireField { tag: 48, value: WireValue::Varint(varint_of_i64(x)) }],
                    None => Seq::<WireField>::empty(),
                }) + ((match m.commit_position {
                    Some(x) => seq![WireField { tag: 56, value: WireValue::Varint(varint_of_i64(x)) }],
                    None => Seq::<WireField>::empty(),
                })))),
            );
            lemma_encode_fields_append(
                (seq![WireField { tag: 32, value: WireValue::Varint(varint_of_i32(m.first_event_number)) }]),
                (seq![WireField { tag: 40, value: WireValue::Varint(varint_of_i32(m.last_event_number)) }]) + ((match m.prepare_position {
                    Some(x) => seq![WireField { tag: 48, value: WireValue::Varint(varint_of_i64(x)) }],
                    None => Seq::<WireField>::empty(),
                }) + ((match m.commit_position {
                    Some(x) => seq![WireField { tag: 56, value: WireValue::Varint(varint_of_i64(x)) }],
                    None => Seq::<WireField>::empty(),
                }))),
            );
            lemma_encode_fields_append(
                (seq![WireField { tag: 40, value: WireValue::Varint(varint_of_i32(m.last_event_number)) }]),
                (match m.prepare_position {
                    Some(x) => seq![WireField { tag: 48, value: WireValue::Varint(varint_of_i64(x)) }],
                    None => Seq::<WireField>::empty(),
                }) + ((match m.commit_position {
                    Some(x) => seq![WireField { tag: 56, value: WireValue::Varint(varint_of_i64(x)) }],
                    None => Seq::<WireField>::empty(),
                })),
            );
            lemma_encode_fields_append(
                (match m.prepare_position {
                    Some(x) => seq![WireField { tag: 48, value: WireValue::Varint(varint_of_i64(x)) }],
                    None => Seq::<WireField>::empty(),
                }),
                (match m.commit_position {
                    Some(x) => seq![WireField { tag: 56, value: WireValue::Varint(varint_of_i64(x)) }],
                    None => Seq::<WireField>::empty(),
                }),
            );
        }
        let mut n: usize = 0;
        let s6: usize = match self.commit_position {
            Some(x) => {
                proof {
                    lemma_encode_fields_one(WireField { tag: 56, value: WireValue::Varint(varint_of_i64(x)) });
                }
                sizeof_varint_field(56, i64_varint(x))
            },
            None => 0,
        };
        n = s6 + n;
        let s5: usize = match self.prepare_position {
            Some(x) => {
                proof {
                    lemma_encode_fields_one(WireField { tag: 48, value: WireValue::Varint(varint_of_i64(x)) });
                }
                sizeof_varint_field(48, i64_varint(x))
            },
            None => 0,
        };
        n = s5 + n;
        let s4: usize = {
            proof {
                lemma_encode_fields_one(WireField { tag: 40, value: WireValue::Varint(varint_of_i32(m.last_event_number)) });
            }
            sizeof_varint_field(40, i32_varint(self.last_event_number))
        };
        n = s4 + n;
        let s3: usize = {
            proof {
                lemma_encode_fields_one(WireField { tag: 32, value: WireValue::Varint(varint_of_i32(m.first_event_number)) });
            }
            sizeof_varint_field(32, i32_varint(self.first_event_number))
        };
        n = s3 + n;
        let s2: usize = match &self.message {
            Some(x) => {
                proof {
                    lemma_encode_fields_one(WireField { tag: 26, value: WireValue::Bytes(encode_utf8(x@)) });
                }
                sizeof_len_field(26, x.as_str().as_bytes().len())
            },
            None => 0,
        };
        n = s2 + n;
        let s1: usize = match self.result {
            Some(x) => {
                proof {
                    lemma_encode_fields_one(WireField { tag: 16, value: WireValue::Varint(varint_of_i32(x.to_i32_spec())) });
                }
                sizeof_varint_field(16, i32_varint(x.to_i32()))
            },
            None => 0,
        };
        n = s1 + n;
        let s0: usize = {
            proof {
                lemma_encode_fields_one(WireField { tag: 8, value: WireValue::Varint(varint_of_i64(m.transaction_id)) });
            }
            sizeof_varint_field(8, i64_varint(self.transaction_id))
        };
        n = s0 + n;
        n
    }
}

} // verus!
