//! Protobuf messages of database scavenges.
use vstd::prelude::*;
use vstd::utf8::encode_utf8;

use crate::wire::{
    WireField, WireValue, FieldValue, string_of, i32_of_varint, i64_of_varint, varint_of_i32,
    varint_of_i64, decode_fields, encode_fields, apply_fields, lemma_decode_encoded_fields,
    lemma_apply_fields_append, lemma_string_roundtrip, lemma_scalar_roundtrips, parse_field,
    read_tag, read_value, lemma_field_parts, lemma_decode_step, lemma_parse_field_len, copy_string,
    varint_i32, varint_i64, i32_varint, i64_varint, write_bytes_field, write_varint_field,
    lemma_encode_fields_push, lemma_fields_shaped_push, lemma_fields_canonical_of_len, modulus32,
    lemma_encode_fields_append, lemma_encode_fields_one, sizeof_varint_field, sizeof_len_field,
    fields_short, fields_tagged, lemma_fields_tagged_append, lemma_fields_canonical_of_short,
    varint_field_bytes, bytes_field_bytes, lemma_varint_field_layout, lemma_bytes_field_layout,
};
use crate::raw::events::opt_string_view;

verus! {

/// Result of a scavenge of the database.
#[derive(Debug, Clone, Copy, PartialEq, Eq, Structural)]
pub enum ScavengeResult {
    /// The scavenge succeeded
    Success,
    /// A scavenge is running
    InProgress,
    /// The scavenge failed
    Failed,
}

impl ScavengeResult {
    /// The variant that the wire number `i` stands for; unknown numbers give `Success`.
    pub open spec fn from_i32_spec(i: i32) -> ScavengeResult {
        if i == 1 {
            ScavengeResult::InProgress
        } else {
            if i == 2 {
                ScavengeResult::Failed
            } else {
                ScavengeResult::Success
            }
        }
    }

    /// The wire number of the variant.
    pub open spec fn to_i32_spec(self) -> i32 {
        match self {
            ScavengeResult::Success => 0,
            ScavengeResult::InProgress => 1,
            ScavengeResult::Failed => 2,
        }
    }

    /// The variant that the wire number `i` stands for; unknown numbers give `Success`.
    pub fn from_i32(i: i32) -> (r: ScavengeResult)
        ensures
            r == ScavengeResult::from_i32_spec(i),
    {
        if i == 1 {
            ScavengeResult::InProgress
        } else {
            if i == 2 {
                ScavengeResult::Failed
            } else {
                ScavengeResult::Success
            }
        }
    }

    /// The wire number of the variant.
    pub fn to_i32(self) -> (i: i32)
        ensures
            i == self.to_i32_spec(),
    {
        match self {
            ScavengeResult::Success => 0,
            ScavengeResult::InProgress => 1,
            ScavengeResult::Failed => 2,
        }
    }

    /// The wire numbers that the protocol gives the variants: each variant is written as its
    /// own number, and read from that number alone; any other number reads as `Success`.
    pub proof fn lemma_wire_numbers(i: i32)
        ensures
            ScavengeResult::Success.to_i32_spec() == 0,
            ScavengeResult::InProgress.to_i32_spec() == 1,
            ScavengeResult::Failed.to_i32_spec() == 2,
            (ScavengeResult::from_i32_spec(i) == ScavengeResult::InProgress) <==> i == 1,
            (ScavengeResult::from_i32_spec(i) == ScavengeResult::Failed) <==> i == 2,
            (ScavengeResult::from_i32_spec(i) == ScavengeResult::Success) <==> (i != 1 && i != 2),
    {
    }

    /// Reading the wire number of a variant gives the variant back.
    pub proof fn lemma_i32_roundtrip(self)
        ensures
            ScavengeResult::from_i32_spec(self.to_i32_spec()) == self,
    {
    }
}

/// Request to scavenge the database.
#[derive(Debug, Clone, PartialEq)]
pub struct ScavengeDatabase {
}

/// The contents of a `ScavengeDatabase`.
pub struct ScavengeDatabaseModel {
}

impl View for ScavengeDatabase {
    type V = ScavengeDatabaseModel;

    open spec fn view(&self) -> ScavengeDatabaseModel {
        ScavengeDatabaseModel {
        }
    }
}

/// A `ScavengeDatabase` with every field at its default.
pub open spec fn scavenge_database_default() -> ScavengeDatabaseModel {
    ScavengeDatabaseModel {
    }
}

/// Folds one field into a `ScavengeDatabase`; fields of unknown tags are skipped.
pub open spec fn scavenge_database_apply(m: ScavengeDatabaseModel, f: WireField) -> Option<ScavengeDatabaseModel> {
    Some(m)
}

/// `scavenge_database_apply` as a value.
pub open spec fn scavenge_database_applier() -> spec_fn(ScavengeDatabaseModel, WireField) -> Option<ScavengeDatabaseModel> {
    |m: ScavengeDatabaseModel, f: WireField| scavenge_database_apply(m, f)
}

/// The tags of the fields that a `ScavengeDatabase` reads; the others are skipped.
pub open spec fn scavenge_database_known() -> spec_fn(u32) -> bool {
    |t: u32| false
}

/// The `ScavengeDatabase` that `bytes` encode, if they encode one.
pub open spec fn scavenge_database_decode(bytes: Seq<u8>) -> Option<ScavengeDatabaseModel> {
    decode_fields(bytes, scavenge_database_default(), scavenge_database_applier(), scavenge_database_known())
}

/// The fields that encode a `ScavengeDatabase`, in the order they are written.
pub open spec fn scavenge_database_fields(m: ScavengeDatabaseModel) -> Seq<WireField> {
    Seq::<WireField>::empty()
}

/// The encoding of a `ScavengeDatabase`.
pub open spec fn scavenge_database_encode(m: ScavengeDatabaseModel) -> Seq<u8> {
    encode_fields(scavenge_database_fields(m))
}

/// A `ScavengeDatabase` that reads back as written: every length-delimited field, those of the
/// embedded messages included, holds fewer than 2^32 bytes.
pub open spec fn scavenge_database_wf(m: ScavengeDatabaseModel) -> bool {
    fields_short(scavenge_database_fields(m))
}

/// The fields of a `ScavengeDatabase` carry the wire types of their payloads.
pub proof fn lemma_scavenge_database_fields_tagged(m: ScavengeDatabaseModel)
    ensures
        fields_tagged(scavenge_database_fields(m)),
{
}

/// The bytes of an encoded `ScavengeDatabase`: nothing, in this order; optional fields only
/// when present, repeated ones once per element.
pub proof fn lemma_scavenge_database_encode_layout(m: ScavengeDatabaseModel)
    ensures
        scavenge_database_encode(m) == Seq::<u8>::empty(),
{
}

/// Reading a written `ScavengeDatabase` gives it back.
pub proof fn lemma_scavenge_database_roundtrip(m: ScavengeDatabaseModel)
    requires
        scavenge_database_wf(m),
    ensures
        scavenge_database_decode(scavenge_database_encode(m)) == Some(m),
{
    let ap = scavenge_database_applier();
    lemma_scavenge_database_fields_tagged(m);
    lemma_fields_canonical_of_short(scavenge_database_fields(m));
    lemma_decode_encoded_fields(scavenge_database_fields(m), scavenge_database_default(), ap, scavenge_database_known());
    let a0 = scavenge_database_default();
    assert(a0 == m);
}

impl ScavengeDatabase {
    /// Decodes a `ScavengeDatabase` from its protobuf bytes.
    pub fn from_reader(bytes: &[u8]) -> (res: Option<ScavengeDatabase>)
        ensures
            scavenge_database_decode(bytes@) matches Some(m) ==> (res matches Some(e) && e@ == m),
            scavenge_database_decode(bytes@) is None ==> res is None,
    {
        let mut msg = ScavengeDatabase::default_value();
        let mut pos: usize = 0;
        assert(bytes@.skip(0) =~= bytes@);
        while pos < bytes.len()
            invariant
                pos <= bytes@.len(),
                scavenge_database_decode(bytes@) == decode_fields(bytes@.skip(pos as int), msg@, scavenge_database_applier(), scavenge_database_known()),
            decreases bytes@.len() - pos,
        {
            let ghost old_msg = msg@;
            let (tag, p) = match read_tag(bytes, pos) {
                Some(x) => x,
                None => {
                    return None;
                },
            };
            proof {
                lemma_field_parts(bytes@, pos as int, scavenge_database_known());
            }
            let known: bool = false;
            let (value, next) = match read_value(bytes, p, tag, known) {
                Some(x) => x,
                None => {
                    return None;
                },
            };
            let ghost f = parse_field(bytes@.skip(pos as int), scavenge_database_known()).unwrap().0;
            proof {
                lemma_decode_step(bytes@, pos as int, old_msg, scavenge_database_applier(), scavenge_database_known());
                lemma_parse_field_len(bytes@.skip(pos as int), scavenge_database_known());
            }
            assert(scavenge_database_apply(old_msg, f) == Some(msg@));
            pos = next;
        }
        assert(bytes@.skip(pos as int).len() == 0);
        Some(msg)
    }

    /// A `ScavengeDatabase` with every field at its default.
    pub fn default_value() -> (m: ScavengeDatabase)
        ensures
            m@ == scavenge_database_default(),
    {
        let m = ScavengeDatabase {
        };
        m
    }

    /// A copy of this `ScavengeDatabase`.
    pub fn copy(&self) -> (c: ScavengeDatabase)
        ensures
            c@ == self@,
    {
        let c = ScavengeDatabase {
        };
        c
    }

    /// Encodes this `ScavengeDatabase` as protobuf bytes.
    #[verifier::spinoff_prover]
    #[verifier::rlimit(30)]
    pub fn encode(&self) -> (out: Vec<u8>)
        ensures
            out@ == scavenge_database_encode(self@),
            out@.len() < modulus32() ==> scavenge_database_wf(self@),
    {
        let mut out: Vec<u8> = Vec::new();
        let ghost mut fs: Seq<WireField> = Seq::empty();
        assert(fs =~= scavenge_database_fields(self@));
        proof {
            if out@.len() < modulus32() {
                lemma_fields_canonical_of_len(fs);
            }
        }
        out
    }

    /// The number of bytes of the encoding of this `ScavengeDatabase`, computed without encoding it.
    #[verifier::spinoff_prover]
    #[verifier::rlimit(30)]
    pub fn get_size(&self) -> (n: usize)
        requires
            scavenge_database_encode(self@).len() <= usize::MAX,
        ensures
            n == scavenge_database_encode(self@).len(),
    {
        let ghost m = self@;
        let mut n: usize = 0;
        n
    }
}

/// Response to `ScavengeDatabase`.
#[derive(Debug, Clone, PartialEq)]
pub struct ScavengeDatabaseCompleted {
    /// The outcome
    pub result: Option<ScavengeResult>,
    /// An explanation
    pub error: Option<String>,
    /// How long the scavenge took
    pub total_time_ms: i32,
    /// How many bytes the scavenge saved
    pub total_space_saved: i64,
}

/// The contents of a `ScavengeDatabaseCompleted`.
pub struct ScavengeDatabaseCompletedModel {
    pub result: Option<ScavengeResult>,
    pub error: Option<Seq<char>>,
    pub total_time_ms: i32,
    pub total_space_saved: i64,
}

impl View for ScavengeDatabaseCompleted {
    type V = ScavengeDatabaseCompletedModel;

    open spec fn view(&self) -> ScavengeDatabaseCompletedModel {
        ScavengeDatabaseCompletedModel {
            result: self.result,
            error: opt_string_view(self.error),
            total_time_ms: self.total_time_ms,
            total_space_saved: self.total_space_saved,
        }
    }
}

/// A `ScavengeDatabaseCompleted` with every field at its default.
pub open spec fn scavenge_database_completed_default() -> ScavengeDatabaseCompletedModel {
    ScavengeDatabaseCompletedModel {
        result: None,
        error: None,
        total_time_ms: 0,
        total_space_saved: 0,
    }
}

/// Folds one field into a `ScavengeDatabaseCompleted`; fields of unknown tags are skipped.
pub open spec fn scavenge_database_completed_apply(m: ScavengeDatabaseCompletedModel, f: WireField) -> Option<ScavengeDatabaseCompletedModel> {
    if f.tag == 8 {
        match f.value {
            WireValue::Varint(v) => Some(ScavengeDatabaseCompletedModel { result: Some(ScavengeResult::from_i32_spec(i32_of_varint(v))), ..m }),
            _ => None,
        }
    } else {
        if f.tag == 18 {
            match f.value {
                WireValue::Bytes(b) => match string_of(b) {
                    Some(s) => Some(ScavengeDatabaseCompletedModel { error: Some(s), ..m }),
                    None => None,
                },
                _ => None,
            }
        } else {
            if f.tag == 24 {
                match f.value {
                    WireValue::Varint(v) => Some(ScavengeDatabaseCompletedModel { total_time_ms: i32_of_varint(v), ..m }),
                    _ => None,
                }
            } else {
                if f.tag == 32 {
                    match f.value {
                        WireValue::Varint(v) => Some(ScavengeDatabaseCompletedModel { total_space_saved: i64_of_varint(v), ..m }),
                        _ => None,
                    }
                } else {
                    Some(m)
                }
            }
        }
    }
}

/// `scavenge_database_completed_apply` as a value.
pub open spec fn scavenge_database_completed_applier() -> spec_fn(ScavengeDatabaseCompletedModel, WireField) -> Option<ScavengeDatabaseCompletedModel> {
    |m: ScavengeDatabaseCompletedModel, f: WireField| scavenge_database_completed_apply(m, f)
}

/// The tags of the fields that a `ScavengeDatabaseCompleted` reads; the others are skipped.
pub open spec fn scavenge_database_completed_known() -> spec_fn(u32) -> bool {
    |t: u32| t == 8 || t == 18 || t == 24 || t == 32
}

/// The `ScavengeDatabaseCompleted` that `bytes` encode, if they encode one.
pub open spec fn scavenge_database_completed_decode(bytes: Seq<u8>) -> Option<ScavengeDatabaseCompletedModel> {
    decode_fields(bytes, scavenge_database_completed_default(), scavenge_database_completed_applier(), scavenge_database_completed_known())
}

/// The fields that encode a `ScavengeDatabaseCompleted`, in the order they are written.
pub open spec fn scavenge_database_completed_fields(m: ScavengeDatabaseCompletedModel) -> Seq<WireField> {
    (match m.result {
        Some(x) => seq![WireField { tag: 8, value: WireValue::Varint(varint_of_i32(x.to_i32_spec())) }],
        None => Seq::<WireField>::empty(),
    }) + ((match m.error {
        Some(x) => seq![WireField { tag: 18, value: WireValue::Bytes(encode_utf8(x)) }],
        None => Seq::<WireField>::empty(),
    }) + ((seq![WireField { tag: 24, value: WireValue::Varint(varint_of_i32(m.total_time_ms)) }]) + ((seq![WireField { tag: 32, value: WireValue::Varint(varint_of_i64(m.total_space_saved)) }]))))
}

/// The encoding of a `ScavengeDatabaseCompleted`.
pub open spec fn scavenge_database_completed_encode(m: ScavengeDatabaseCompletedModel) -> Seq<u8> {
    encode_fields(scavenge_database_completed_fields(m))
}

/// A `ScavengeDatabaseCompleted` that reads back as written: every length-delimited field, those of the
/// embedded messages included, holds fewer than 2^32 bytes.
pub open spec fn scavenge_database_completed_wf(m: ScavengeDatabaseCompletedModel) -> bool {
    fields_short(scavenge_database_completed_fields(m))
}

/// The fields of a `ScavengeDatabaseCompleted` carry the wire types of their payloads.
pub proof fn lemma_scavenge_database_completed_fields_tagged(m: ScavengeDatabaseCompletedModel)
    ensures
        fields_tagged(scavenge_database_completed_fields(m)),
{
    assert(fields_tagged((seq![WireField { tag: 32, value: WireValue::Varint(varint_of_i64(m.total_space_saved)) }])));
    assert(fields_tagged((seq![WireField { tag: 24, value: WireValue::Varint(varint_of_i32(m.total_time_ms)) }])));
    lemma_fields_tagged_append(
        (seq![WireField { tag: 24, value: WireValue::Varint(varint_of_i32(m.total_time_ms)) }]),
        (seq![WireField { tag: 32, value: WireValue::Varint(varint_of_i64(m.total_space_saved)) }]),
    );
    assert(fields_tagged((match m.error {
        Some(x) => seq![WireField { tag: 18, value: WireValue::Bytes(encode_utf8(x)) }],
        None => Seq::<WireField>::empty(),
    })));
    lemma_fields_tagged_append(
        (match m.error {
            Some(x) => seq![WireField { tag: 18, value: WireValue::Bytes(encode_utf8(x)) }],
            None => Seq::<WireField>::empty(),
        }),
        (seq![WireField { tag: 24, value: WireValue::Varint(varint_of_i32(m.total_time_ms)) }]) + ((seq![WireField { tag: 32, value: WireValue::Varint(varint_of_i64(m.total_space_saved)) }])),
    );
    assert(fields_tagged((match m.result {
        Some(x) => seq![WireField { tag: 8, value: WireValue::Varint(varint_of_i32(x.to_i32_spec())) }],
        None => Seq::<WireField>::empty(),
    })));
    lemma_fields_tagged_append(
        (match m.result {
            Some(x) => seq![WireField { tag: 8, value: WireValue::Varint(varint_of_i32(x.to_i32_spec())) }],
            None => Seq::<WireField>::empty(),
        }),
        (match m.error {
            Some(x) => seq![WireField { tag: 18, value: WireValue::Bytes(encode_utf8(x)) }],
            None => Seq::<WireField>::empty(),
        }) + ((seq![WireField { tag: 24, value: WireValue::Varint(varint_of_i32(m.total_time_ms)) }]) + ((seq![WireField { tag: 32, value: WireValue::Varint(varint_of_i64(m.total_space_saved)) }]))),
    );
}

/// The bytes of an encoded `ScavengeDatabaseCompleted`: `result` under tag 8, `error` under tag 18, `total_time_ms` under tag 24, `total_space_saved` under tag 32, in this order; optional fields only
/// when present, repeated ones once per element.
pub proof fn lemma_scavenge_database_completed_encode_layout(m: ScavengeDatabaseCompletedModel)
    ensures
        scavenge_database_completed_encode(m) == ((match m.result {
            Some(x) => varint_field_bytes(8, varint_of_i32(x.to_i32_spec())),
            None => Seq::<u8>::empty(),
        })) + (((match m.error {
            Some(x) => bytes_field_bytes(18, encode_utf8(x)),
            None => Seq::<u8>::empty(),
        })) + ((varint_field_bytes(24, varint_of_i32(m.total_time_ms))) + ((varint_field_bytes(32, varint_of_i64(m.total_space_saved)))))),
{
    lemma_encode_fields_append(
        (match m.result {
            Some(x) => seq![WireField { tag: 8, value: WireValue::Varint(varint_of_i32(x.to_i32_spec())) }],
            None => Seq::<WireField>::empty(),
        }),
        (match m.error {
            Some(x) => seq![WireField { tag: 18, value: WireValue::Bytes(encode_utf8(x)) }],
            None => Seq::<WireField>::empty(),
        }) + ((seq![WireField { tag: 24, value: WireValue::Varint(varint_of_i32(m.total_time_ms)) }]) + ((seq![WireField { tag: 32, value: WireValue::Varint(varint_of_i64(m.total_space_saved)) }]))),
    );
    lemma_encode_fields_append(
        (match m.error {
            Some(x) => seq![WireField { tag: 18, value: WireValue::Bytes(encode_utf8(x)) }],
            None => Seq::<WireField>::empty(),
        }),
        (seq![WireField { tag: 24, value: WireValue::Varint(varint_of_i32(m.total_time_ms)) }]) + ((seq![WireField { tag: 32, value: WireValue::Varint(varint_of_i64(m.total_space_saved)) }])),
    );
    lemma_encode_fields_append(
        (seq![WireField { tag: 24, value: WireValue::Varint(varint_of_i32(m.total_time_ms)) }]),
        (seq![WireField { tag: 32, value: WireValue::Varint(varint_of_i64(m.total_space_saved)) }]),
    );
    if let Some(x) = m.result {
        lemma_varint_field_layout(8, varint_of_i32(x.to_i32_spec()));
    }
    if let Some(x) = m.error {
        lemma_bytes_field_layout(18, encode_utf8(x));
    }
    lemma_varint_field_layout(24, varint_of_i32(m.total_time_ms));
    lemma_varint_field_layout(32, varint_of_i64(m.total_space_saved));
}

/// Reading a written `ScavengeDatabaseCompleted` gives it back.
pub proof fn lemma_scavenge_database_completed_roundtrip(m: ScavengeDatabaseCompletedModel)
    requires
        scavenge_database_completed_wf(m),
    ensures
        scavenge_database_completed_decode(scavenge_database_completed_encode(m)) == Some(m),
{
    let ap = scavenge_database_completed_applier();
    lemma_scavenge_database_completed_fields_tagged(m);
    lemma_fields_canonical_of_short(scavenge_database_completed_fields(m));
    lemma_decode_encoded_fields(scavenge_database_completed_fields(m), scavenge_database_completed_default(), ap, scavenge_database_completed_known());
    let a0 = scavenge_database_completed_default();
    let a1 = ScavengeDatabaseCompletedModel { result: m.result, ..a0 };
    lemma_apply_fields_append(
        (match m.result {
            Some(x) => seq![WireField { tag: 8, value: WireValue::Varint(varint_of_i32(x.to_i32_spec())) }],
            None => Seq::<WireField>::empty(),
        }),
        (match m.error {
            Some(x) => seq![WireField { tag: 18, value: WireValue::Bytes(encode_utf8(x)) }],
            None => Seq::<WireField>::empty(),
        }) + ((seq![WireField { tag: 24, value: WireValue::Varint(varint_of_i32(m.total_time_ms)) }]) + ((seq![WireField { tag: 32, value: WireValue::Varint(varint_of_i64(m.total_space_saved)) }]))),
        a0,
        ap,
    );
    assert(apply_fields((match m.result {
        Some(x) => seq![WireField { tag: 8, value: WireValue::Varint(varint_of_i32(x.to_i32_spec())) }],
        None => Seq::<WireField>::empty(),
    }), a0, ap) == Some(a1)) by {
        reveal_with_fuel(apply_fields, 2);
        if let Some(x) = m.result {
            lemma_scalar_roundtrips(x.to_i32_spec(), 0, false);
            x.lemma_i32_roundtrip();
        }
    }
    let a2 = ScavengeDatabaseCompletedModel { error: m.error, ..a1 };
    lemma_apply_fields_append(
        (match m.error {
            Some(x) => seq![WireField { tag: 18, value: WireValue::Bytes(encode_utf8(x)) }],
            None => Seq::<WireField>::empty(),
        }),
        (seq![WireField { tag: 24, value: WireValue::Varint(varint_of_i32(m.total_time_ms)) }]) + ((seq![WireField { tag: 32, value: WireValue::Varint(varint_of_i64(m.total_space_saved)) }])),
        a1,
        ap,
    );
    assert(apply_fields((match m.error {
        Some(x) => seq![WireField { tag: 18, value: WireValue::Bytes(encode_utf8(x)) }],
        None => Seq::<WireField>::empty(),
    }), a1, ap) == Some(a2)) by {
        reveal_with_fuel(apply_fields, 2);
        if let Some(x) = m.error {
            lemma_string_roundtrip(x);
        }
    }
    let a3 = ScavengeDatabaseCompletedModel { total_time_ms: m.total_time_ms, ..a2 };
    lemma_apply_fields_append(
        (seq![WireField { tag: 24, value: WireValue::Varint(varint_of_i32(m.total_time_ms)) }]),
        (seq![WireField { tag: 32, value: WireValue::Varint(varint_of_i64(m.total_space_saved)) }]),
        a2,
        ap,
    );
    assert(apply_fields((seq![WireField { tag: 24, value: WireValue::Varint(varint_of_i32(m.total_time_ms)) }]), a2, ap) == Some(a3)) by {
        reveal_with_fuel(apply_fields, 2);
        lemma_scalar_roundtrips(m.total_time_ms, 0, false);
    }
    let a4 = ScavengeDatabaseCompletedModel { total_space_saved: m.total_space_saved, ..a3 };
    assert(apply_fields((seq![WireField { tag: 32, value: WireValue::Varint(varint_of_i64(m.total_space_saved)) }]), a3, ap) == Some(a4)) by {
        reveal_with_fuel(apply_fields, 2);
        lemma_scalar_roundtrips(0, m.total_space_saved, false);
    }
    assert(a4 == m);
}

impl ScavengeDatabaseCompleted {
    /// Decodes a `ScavengeDatabaseCompleted` from its protobuf bytes.
    pub fn from_reader(bytes: &[u8]) -> (res: Option<ScavengeDatabaseCompleted>)
        ensures
            scavenge_database_completed_decode(bytes@) matches Some(m) ==> (res matches Some(e) && e@ == m),
            scavenge_database_completed_decode(bytes@) is None ==> res is None,
    {
        let mut msg = ScavengeDatabaseCompleted::default_value();
        let mut pos: usize = 0;
        assert(bytes@.skip(0) =~= bytes@);
        while pos < bytes.len()
            invariant
                pos <= bytes@.len(),
                scavenge_database_completed_decode(bytes@) == decode_fields(bytes@.skip(pos as int), msg@, scavenge_database_completed_applier(), scavenge_database_completed_known()),
            decreases bytes@.len() - pos,
        {
            let ghost old_msg = msg@;
            let (tag, p) = match read_tag(bytes, pos) {
                Some(x) => x,
                None => {
                    return None;
                },
            };
            proof {
                lemma_field_parts(bytes@, pos as int, scavenge_database_completed_known());
            }
            let known: bool = tag == 8 || tag == 18 || tag == 24 || tag == 32;
            let (value, next) = match read_value(bytes, p, tag, known) {
                Some(x) => x,
                None => {
                    return None;
                },
            };
            let ghost f = parse_field(bytes@.skip(pos as int), scavenge_database_completed_known()).unwrap().0;
            proof {
                lemma_decode_step(bytes@, pos as int, old_msg, scavenge_database_completed_applier(), scavenge_database_completed_known());
                lemma_parse_field_len(bytes@.skip(pos as int), scavenge_database_completed_known());
            }
            if tag == 8 {
                match value {
                    FieldValue::Varint(v) => {
                        msg.result = Some(ScavengeResult::from_i32(varint_i32(v)));
                    },
                    _ => {
                        return None;
                    },
                }
            } else if tag == 18 {
                match value {
                    FieldValue::Bytes(i, j) => match copy_string(bytes, i, j) {
                        Some(s) => {
                            msg.error = Some(s);
                        },
                        None => {
                            return None;
                        },
                    },
                    _ => {
                        return None;
                    },
                }
            } else if tag == 24 {
                match value {
                    FieldValue::Varint(v) => {
                        msg.total_time_ms = varint_i32(v);
                    },
                    _ => {
                        return None;
                    },
                }
            } else if tag == 32 {
                match value {
                    FieldValue::Varint(v) => {
                        msg.total_space_saved = varint_i64(v);
                    },
                    _ => {
                        return None;
                    },
                }
            }
            assert(scavenge_database_completed_apply(old_msg, f) == Some(msg@));
            pos = next;
        }
        assert(bytes@.skip(pos as int).len() == 0);
        Some(msg)
    }

    /// A `ScavengeDatabaseCompleted` with every field at its default.
    pub fn default_value() -> (m: ScavengeDatabaseCompleted)
        ensures
            m@ == scavenge_database_completed_default(),
    {
        let m = ScavengeDatabaseCompleted {
            result: None,
            error: None,
            total_time_ms: 0,
            total_space_saved: 0,
        };
        m
    }

    /// A copy of this `ScavengeDatabaseCompleted`.
    pub fn copy(&self) -> (c: ScavengeDatabaseCompleted)
        ensures
            c@ == self@,
    {
        let c = ScavengeDatabaseCompleted {
            result: self.result,
            error: match &self.error {
                Some(x) => Some(x.clone()),
                None => None,
            },
            total_time_ms: self.total_time_ms,
            total_space_saved: self.total_space_saved,
        };
        assert(c@.error =~= self@.error);
        c
    }

    /// Encodes this `ScavengeDatabaseCompleted` as protobuf bytes.
    #[verifier::spinoff_prover]
    #[verifier::rlimit(30)]
    pub fn encode(&self) -> (out: Vec<u8>)
        ensures
            out@ == scavenge_database_completed_encode(self@),
            out@.len() < modulus32() ==> scavenge_database_completed_wf(self@),
    {
        let mut out: Vec<u8> = Vec::new();
        let ghost mut fs: Seq<WireField> = Seq::empty();
        match self.result {
            Some(x) => {
                write_varint_field(&mut out, 8, i32_varint(x.to_i32()));
                proof {
                    let f = WireField { tag: 8, value: WireValue::Varint(varint_of_i32(x.to_i32_spec())) };
                    lemma_encode_fields_push(fs, f);
                    lemma_fields_shaped_push(fs, f);
                    fs = fs.push(f);
                }
            },
            None => {},
        }
        match &self.error {
            Some(x) => {
                write_bytes_field(&mut out, 18, x.as_str().as_bytes());
                proof {
                    let f = WireField { tag: 18, value: WireValue::Bytes(encode_utf8(x@)) };
                    lemma_encode_fields_push(fs, f);
                    lemma_fields_shaped_push(fs, f);
                    fs = fs.push(f);
                }
            },
            None => {},
        }
        write_varint_field(&mut out, 24, i32_varint(self.total_time_ms));
        proof {
            let f = WireField { tag: 24, value: WireValue::Varint(varint_of_i32(self.total_time_ms)) };
            lemma_encode_fields_push(fs, f);
            lemma_fields_shaped_push(fs, f);
            fs = fs.push(f);
        }
        write_varint_field(&mut out, 32, i64_varint(self.total_space_saved));
        proof {
            let f = WireField { tag: 32, value: WireValue::Varint(varint_of_i64(self.total_space_saved)) };
            lemma_encode_fields_push(fs, f);
            lemma_fields_shaped_push(fs, f);
            fs = fs.push(f);
        }
        assert(fs =~= scavenge_database_completed_fields(self@));
        proof {
            if out@.len() < modulus32() {
                lemma_fields_canonical_of_len(fs);
            }
        }
        out
    }

    /// The number of bytes of the encoding of this `ScavengeDatabaseCompleted`, computed without encoding it.
    #[verifier::spinoff_prover]
    #[verifier::rlimit(30)]
    pub fn get_size(&self) -> (n: usize)
        requires
            scavenge_database_completed_encode(self@).len() <= usize::MAX,
        ensures
            n == scavenge_database_completed_encode(self@).len(),
    {
        let ghost m = self@;
        proof {
            lemma_encode_fields_append(
                (match m.result {
                    Some(x) => seq![WireField { tag: 8, value: WireValue::Varint(varint_of_i32(x.to_i32_spec())) }],
                    None => Seq::<WireField>::empty(),
                }),
                (match m.error {
                    Some(x) => seq![WireField { tag: 18, value: WireValue::Bytes(encode_utf8(x)) }],
                    None => Seq::<WireField>::empty(),
                }) + ((seq![WireField { tag: 24, value: WireValue::Varint(varint_of_i32(m.total_time_ms)) }]) + ((seq![WireField { tag: 32, value: WireValue::Varint(varint_of_i64(m.total_space_saved)) }]))),
            );
            lemma_encode_fields_append(
                (match m.error {
                    Some(x) => seq![WireField { tag: 18, value: WireValue::Bytes(encode_utf8(x)) }],
                    None => Seq::<WireField>::empty(),
                }),
                (seq![WireField { tag: 24, value: WireValue::Varint(varint_of_i32(m.total_time_ms)) }]) + ((seq![WireField { tag: 32, value: WireValue::Varint(varint_of_i64(m.total_space_saved)) }])),
            );
            lemma_encode_fields_append(
                (seq![WireField { tag: 24, value: WireValue::Varint(varint_of_i32(m.total_time_ms)) }]),
                (seq![WireField { tag: 32, value: WireValue::Varint(varint_of_i64(m.total_space_saved)) }]),
            );
        }
        let mut n: usize = 0;
        let s3: usize = {
            proof {
                lemma_encode_fields_one(WireField { tag: 32, value: WireValue::Varint(varint_of_i64(m.total_space_saved)) });
            }
            sizeof_varint_field(32, i64_varint(self.total_space_saved))
        };
        n = s3 + n;
        let s2: usize = {
            proof {
                lemma_encode_fields_one(WireField { tag: 24, value: WireValue::Varint(varint_of_i32(m.total_time_ms)) });
            }
            sizeof_varint_field(24, i32_varint(self.total_time_ms))
        };
        n = s2 + n;
        let s1: usize = match &self.error {
            Some(x) => {
                proof {
                    lemma_encode_fields_one(WireField { tag: 18, value: WireValue::Bytes(encode_utf8(x@)) });
                }
                sizeof_len_field(18, x.as_str().as_bytes().len())
            },
            None => 0,
        };
        n = s1 + n;
        let s0: usize = match self.result {
            Some(x) => {
                proof {
                    lemma_encode_fields_one(WireField { tag: 8, value: WireValue::Varint(varint_of_i32(x.to_i32_spec())) });
                }
                sizeof_varint_field(8, i32_varint(x.to_i32()))
            },
            None => 0,
        };
        n = s0 + n;
        n
    }
}

} // verus!
