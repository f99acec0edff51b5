//! Protobuf messages of requests that the server did not handle.
use vstd::prelude::*;
use vstd::utf8::encode_utf8;
use vstd::slice::slice_to_vec;
use crate::wire::{
    WireField, WireValue, FieldValue, string_of, i32_of_varint, varint_of_i32, decode_fields,
    encode_fields, apply_fields, lemma_decode_encoded_fields, lemma_apply_fields_append,
    lemma_string_roundtrip, lemma_scalar_roundtrips, parse_field, read_tag, read_value,
    lemma_field_parts, lemma_decode_step, lemma_parse_field_len, copy_bytes, copy_string,
    varint_i32, i32_varint, write_bytes_field, write_varint_field, lemma_encode_fields_push,
    lemma_fields_shaped_push, lemma_fields_canonical_of_len, modulus32, lemma_encode_fields_append,
    lemma_encode_fields_one, sizeof_varint_field, sizeof_len_field, fields_short, fields_tagged,
    lemma_fields_tagged_append, lemma_fields_canonical_of_short, varint_field_bytes,
    bytes_field_bytes, lemma_varint_field_layout, lemma_bytes_field_layout,
};
use crate::raw::events::{opt_bytes_view, opt_string_view};

verus! {

/// Why a request was not handled.
#[derive(Debug, Clone, Copy, PartialEq, Eq, Structural)]
pub enum NotHandledReason {
    /// The server is not ready
    NotReady,
    /// The server is too busy
    TooBusy,
    /// The server is not the cluster master
    NotMaster,
}

impl NotHandledReason {
    /// The variant that the wire number `i` stands for; unknown numbers give `NotReady`.
    pub open spec fn from_i32_spec(i: i32) -> NotHandledReason {
        if i == 1 {
            NotHandledReason::TooBusy
        } else {
            if i == 2 {
                NotHandledReason::NotMaster
            } else {
                NotHandledReason::NotReady
            }
        }
    }

    /// The wire number of the variant.
    pub open spec fn to_i32_spec(self) -> i32 {
        match self {
            NotHandledReason::NotReady => 0,
            NotHandledReason::TooBusy => 1,
            NotHandledReason::NotMaster => 2,
        }
    }

    /// The variant that the wire number `i` stands for; unknown numbers give `NotReady`.
    pub fn from_i32(i: i32) -> (r: NotHandledReason)
        ensures
            r == NotHandledReason::from_i32_spec(i),
    {
        if i == 1 {
            NotHandledReason::TooBusy
        } else {
            if i == 2 {
                NotHandledReason::NotMaster
            } else {
                NotHandledReason::NotReady
            }
        }
    }

    /// The wire number of the variant.
    pub fn to_i32(self) -> (i: i32)
        ensures
            i == self.to_i32_spec(),
    {
        match self {
            NotHandledReason::NotReady => 0,
            NotHandledReason::TooBusy => 1,
            NotHandledReason::NotMaster => 2,
        }
    }

    /// The wire numbers that the protocol gives the variants: each variant is written as its
    /// own number, and read from that number alone; any other number reads as `NotReady`.
    pub proof fn lemma_wire_numbers(i: i32)
        ensures
            NotHandledReason::NotReady.to_i32_spec() == 0,
            NotHandledReason::TooBusy.to_i32_spec() == 1,
            NotHandledReason::NotMaster.to_i32_spec() == 2,
            (NotHandledReason::from_i32_spec(i) == NotHandledReason::TooBusy) <==> i == 1,
            (NotHandledReason::from_i32_spec(i) == NotHandledReason::NotMaster) <==> i == 2,
            (NotHandledReason::from_i32_spec(i) == NotHandledReason::NotReady) <==> (i != 1 && i != 2),
    {
    }

    /// Reading the wire number of a variant gives the variant back.
    pub proof fn lemma_i32_roundtrip(self)
        ensures
            NotHandledReason::from_i32_spec(self.to_i32_spec()) == self,
    {
    }
}

/// Response to a request that the server did not handle.
#[derive(Debug, Clone, PartialEq)]
pub struct NotHandled {
    /// Why the request was not handled
    pub reason: Option<NotHandledReason>,
    /// More information, such as where the master is
    pub additional_info: Option<Vec<u8>>,
}

/// The contents of a `NotHandled`.
pub struct NotHandledModel {
    pub reason: Option<NotHandledReason>,
    pub additional_info: Option<Seq<u8>>,
}

impl View for NotHandled {
    type V = NotHandledModel;

    open spec fn view(&self) -> NotHandledModel {
        NotHandledModel {
            reason: self.reason,
            additional_info: opt_bytes_view(self.additional_info),
        }
    }
}

/// A `NotHandled` with every field at its default.
pub open spec fn not_handled_default() -> NotHandledModel {
    NotHandledModel {
        reason: None,
        additional_info: None,
    }
}

/// Folds one field into a `NotHandled`; fields of unknown tags are skipped.
pub open spec fn not_handled_apply(m: NotHandledModel, f: WireField) -> Option<NotHandledModel> {
    if f.tag == 8 {
        match f.value {
            WireValue::Varint(v) => Some(NotHandledModel { reason: Some(NotHandledReason::from_i32_spec(i32_of_varint(v))), ..m }),
            _ => None,
        }
    } else {
        if f.tag == 18 {
            match f.value {
                WireValue::Bytes(b) => Some(NotHandledModel { additional_info: Some(b), ..m }),
                _ => None,
            }
        } else {
            Some(m)
        }
    }
}

/// `not_handled_apply` as a value.
pub open spec fn not_handled_applier() -> spec_fn(NotHandledModel, WireField) -> Option<NotHandledModel> {
    |m: NotHandledModel, f: WireField| not_handled_apply(m, f)
}

/// The tags of the fields that a `NotHandled` reads; the others are skipped.
pub open spec fn not_handled_known() -> spec_fn(u32) -> bool {
    |t: u32| t == 8 || t == 18
}

/// The `NotHandled` that `bytes` encode, if they encode one.
pub open spec fn not_handled_decode(bytes: Seq<u8>) -> Option<NotHandledModel> {
    decode_fields(bytes, not_handled_default(), not_handled_applier(), not_handled_known())
}

/// The fields that encode a `NotHandled`, in the order they are written.
pub open spec fn not_handled_fields(m: NotHandledModel) -> Seq<WireField> {
    (match m.reason {
        Some(x) => seq![WireField { tag: 8, value: WireValue::Varint(varint_of_i32(x.to_i32_spec())) }],
        None => Seq::<WireField>::empty(),
    }) + ((match m.additional_info {
        Some(x) => seq![WireField { tag: 18, value: WireValue::Bytes(x) }],
        None => Seq::<WireField>::empty(),
    }))
}

/// The encoding of a `NotHandled`.
pub open spec fn not_handled_encode(m: NotHandledModel) -> Seq<u8> {
    encode_fields(not_handled_fields(m))
}

/// A `NotHandled` that reads back as written: every length-delimited field, those of the
/// embedded messages included, holds fewer than 2^32 bytes.
pub open spec fn not_handled_wf(m: NotHandledModel) -> bool {
    fields_short(not_handled_fields(m))
}

/// The fields of a `NotHandled` carry the wire types of their payloads.
pub proof fn lemma_not_handled_fields_tagged(m: NotHandledModel)
    ensures
        fields_tagged(not_handled_fields(m)),
{
    assert(fields_tagged((match m.additional_info {
        Some(x) => seq![WireField { tag: 18, value: WireValue::Bytes(x) }],
        None => Seq::<WireField>::empty(),
    })));
    assert(fields_tagged((match m.reason {
        Some(x) => seq![WireField { tag: 8, value: WireValue::Varint(varint_of_i32(x.to_i32_spec())) }],
        None => Seq::<WireField>::empty(),
    })));
    lemma_fields_tagged_append(
        (match m.reason {
            Some(x) => seq![WireField { tag: 8, value: WireValue::Varint(varint_of_i32(x.to_i32_spec())) }],
            None => Seq::<WireField>::empty(),
        }),
        (match m.additional_info {
            Some(x) => seq![WireField { tag: 18, value: WireValue::Bytes(x) }],
            None => Seq::<WireField>::empty(),
        }),
    );
}

/// The bytes of an encoded `NotHandled`: `reason` under tag 8, `additional_info` under tag 18, in this order; optional fields only
/// when present, repeated ones once per element.
pub proof fn lemma_not_handled_encode_layout(m: NotHandledModel)
    ensures
        not_handled_encode(m) == ((match m.reason {
            Some(x) => varint_field_bytes(8, varint_of_i32(x.to_i32_spec())),
            None => Seq::<u8>::empty(),
        })) + (((match m.additional_info {
            Some(x) => bytes_field_bytes(18, x),
            None => Seq::<u8>::empty(),
        }))),
{
    lemma_encode_fields_append(
        (match m.reason {
            Some(x) => seq![WireField { tag: 8, value: WireValue::Varint(varint_of_i32(x.to_i32_spec())) }],
            None => Seq::<WireField>::empty(),
        }),
        (match m.additional_info {
            Some(x) => seq![WireField { tag: 18, value: WireValue::Bytes(x) }],
            None => Seq::<WireField>::empty(),
        }),
    );
    if let Some(x) = m.reason {
        lemma_varint_field_layout(8, varint_of_i32(x.to_i32_spec()));
    }
    if let Some(x) = m.additional_info {
        lemma_bytes_field_layout(18, x);
    }
}

/// Reading a written `NotHandled` gives it back.
pub proof fn lemma_not_handled_roundtrip(m: NotHandledModel)
    requires
        not_handled_wf(m),
    ensures
        not_handled_decode(not_handled_encode(m)) == Some(m),
{
    let ap = not_handled_applier();
    lemma_not_handled_fields_tagged(m);
    lemma_fields_canonical_of_short(not_handled_fields(m));
    lemma_decode_encoded_fields(not_handled_fields(m), not_handled_default(), ap, not_handled_known());
    let a0 = not_handled_default();
    let a1 = NotHandledModel { reason: m.reason, ..a0 };
    lemma_apply_fields_append(
        (match m.reason {
            Some(x) => seq![WireField { tag: 8, value: WireValue::Varint(varint_of_i32(x.to_i32_spec())) }],
            None => Seq::<WireField>::empty(),
        }),
        (match m.additional_info {
            Some(x) => seq![WireField { tag: 18, value: WireValue::Bytes(x) }],
            None => Seq::<WireField>::empty(),
        }),
        a0,
        ap,
    );
    assert(apply_fields((match m.reason {
        Some(x) => seq![WireField { tag: 8, value: WireValue::Varint(varint_of_i32(x.to_i32_spec())) }],
        None => Seq::<WireField>::empty(),
    }), a0, ap) == Some(a1)) by {
        reveal_with_fuel(apply_fields, 2);
        if let Some(x) = m.reason {
            lemma_scalar_roundtrips(x.to_i32_spec(), 0, false);
            x.lemma_i32_roundtrip();
        }
    }
    let a2 = NotHandledModel { additional_info: m.additional_info, ..a1 };
    assert(apply_fields((match m.additional_info {
        Some(x) => seq![WireField { tag: 18, value: WireValue::Bytes(x) }],
        None => Seq::<WireField>::empty(),
    }), a1, ap) == Some(a2)) by {
        reveal_with_fuel(apply_fields, 2);
        if let Some(x) = m.additional_info {
        }
    }
    assert(a2 == m);
}

impl NotHandled {
    /// Decodes a `NotHandled` from its protobuf bytes.
    pub fn from_reader(bytes: &[u8]) -> (res: Option<NotHandled>)
        ensures
            not_handled_decode(bytes@) matches Some(m) ==> (res matches Some(e) && e@ == m),
            not_handled_decode(bytes@) is None ==> res is None,
    {
        let mut msg = NotHandled::default_value();
        let mut pos: usize = 0;
        assert(bytes@.skip(0) =~= bytes@);
        while pos < bytes.len()
            invariant
                pos <= bytes@.len(),
                not_handled_decode(bytes@) == decode_fields(bytes@.skip(pos as int), msg@, not_handled_applier(), not_handled_known()),
            decreases bytes@.len() - pos,
        {
            let ghost old_msg = msg@;
            let (tag, p) = match read_tag(bytes, pos) {
                Some(x) => x,
                None => {
                    return None;
                },
            };
            proof {
                lemma_field_parts(bytes@, pos as int, not_handled_known());
            }
            let known: bool = tag == 8 || tag == 18;
            let (value, next) = match read_value(bytes, p, tag, known) {
                Some(x) => x,
                None => {
                    return None;
                },
            };
            let ghost f = parse_field(bytes@.skip(pos as int), not_handled_known()).unwrap().0;
            proof {
                lemma_decode_step(bytes@, pos as int, old_msg, not_handled_applier(), not_handled_known());
                lemma_parse_field_len(bytes@.skip(pos as int), not_handled_known());
            }
            if tag == 8 {
                match value {
                    FieldValue::Varint(v) => {
                        msg.reason = Some(NotHandledReason::from_i32(varint_i32(v)));
                    },
                    _ => {
                        return None;
                    },
                }
            } else if tag == 18 {
                match value {
                    FieldValue::Bytes(i, j) => {
                        msg.additional_info = Some(copy_bytes(bytes, i, j));
                    },
                    _ => {
                        return None;
                    },
                }
            }
            assert(not_handled_apply(old_msg, f) == Some(msg@));
            pos = next;
        }
        assert(bytes@.skip(pos as int).len() == 0);
        Some(msg)
    }

    /// A `NotHandled` with every field at its default.
    pub fn default_value() -> (m: NotHandled)
        ensures
            m@ == not_handled_default(),
    {
        let m = NotHandled {
            reason: None,
            additional_info: None,
        };
        m
    }

    /// A copy of this `NotHandled`.
    pub fn copy(&self) -> (c: NotHandled)
        ensures
            c@ == self@,
    {
        let c = NotHandled {
            reason: self.reason,
            additional_info: match &self.additional_info {
                Some(x) => Some(slice_to_vec(x.as_slice())),
                None => None,
            },
        };
        assert(c@.additional_info =~= self@.additional_info);
        c
    }

    /// Encodes this `NotHandled` as protobuf bytes.
    #[verifier::spinoff_prover]
    #[verifier::rlimit(30)]
    pub fn encode(&self) -> (out: Vec<u8>)
        ensures
            out@ == not_handled_encode(self@),
            out@.len() < modulus32() ==> not_handled_wf(self@),
    {
        let mut out: Vec<u8> = Vec::new();
        let ghost mut fs: Seq<WireField> = Seq::empty();
        match self.reason {
            Some(x) => {
                write_varint_field(&mut out, 8, i32_varint(x.to_i32()));
                proof {
                    let f = WireField { tag: 8, value: WireValue::Varint(varint_of_i32(x.to_i32_spec())) };
                    lemma_encode_fields_push(fs, f);
                    lemma_fields_shaped_push(fs, f);
                    fs = fs.push(f);
                }
            },
            None => {},
        }
        match &self.additional_info {
            Some(x) => {
                write_bytes_field(&mut out, 18, x.as_slice());
                proof {
                    let f = WireField { tag: 18, value: WireValue::Bytes(x@) };
                    lemma_encode_fields_push(fs, f);
                    lemma_fields_shaped_push(fs, f);
                    fs = fs.push(f);
                }
            },
            None => {},
        }
        assert(fs =~= not_handled_fields(self@));
        proof {
            if out@.len() < modulus32() {
                lemma_fields_canonical_of_len(fs);
            }
        }
        out
    }

    /// The number of bytes of the encoding of this `NotHandled`, computed without encoding it.
    #[verifier::spinoff_prover]
    #[verifier::rlimit(30)]
    pub fn get_size(&self) -> (n: usize)
        requires
            not_handled_encode(self@).len() <= usize::MAX,
        ensures
            n == not_handled_encode(self@).len(),
    {
        let ghost m = self@;
        proof {
            lemma_encode_fields_append(
                (match m.reason {
                    Some(x) => seq![WireField { tag: 8, value: WireValue::Varint(varint_of_i32(x.to_i32_spec())) }],
                    None => Seq::<WireField>::empty(),
                }),
                (match m.additional_info {
                    Some(x) => seq![WireField { tag: 18, value: WireValue::Bytes(x) }],
                    None => Seq::<WireField>::empty(),
                }),
            );
        }
        let mut n: usize = 0;
        let s1: usize = match &self.additional_info {
            Some(x) => {
                proof {
                    lemma_encode_fields_one(WireField { tag: 18, value: WireValue::Bytes(x@) });
                }
                sizeof_len_field(18, x.len())
            },
            None => 0,
        };
        n = s1 + n;
        let s0: usize = match self.reason {
            Some(x) => {
                proof {
                    lemma_encode_fields_one(WireField { tag: 8, value: WireValue::Varint(varint_of_i32(x.to_i32_spec())) });
                }
                sizeof_varint_field(8, i32_varint(x.to_i32()))
            },
            None => 0,
        };
        n = s0 + n;
        n
    }
}

/// Where the cluster master can be reached.
#[derive(Debug, Clone, PartialEq)]
pub struct MasterInfo {
    /// TCP address
    pub external_tcp_address: String,
    /// TCP port
    pub external_tcp_port: i32,
    /// HTTP address
    pub external_http_address: String,
    /// HTTP port
    pub external_http_port: i32,
    /// Secure TCP address
    pub external_secure_tcp_address: Option<String>,
    /// Secure TCP port
    pub external_secure_tcp_port: Option<i32>,
}

/// The contents of a `MasterInfo`.
pub struct MasterInfoModel {
    pub external_tcp_address: Seq<char>,
    pub external_tcp_port: i32,
    pub external_http_address: Seq<char>,
    pub external_http_port: i32,
    pub external_secure_tcp_address: Option<Seq<char>>,
    pub external_secure_tcp_port: Option<i32>,
}

impl View for MasterInfo {
    type V = MasterInfoModel;

    open spec fn view(&self) -> MasterInfoModel {
        MasterInfoModel {
            external_tcp_address: self.external_tcp_address@,
            external_tcp_port: self.external_tcp_port,
            external_http_address: self.external_http_address@,
            external_http_port: self.external_http_port,
            external_secure_tcp_address: opt_string_view(self.external_secure_tcp_address),
            external_secure_tcp_port: self.external_secure_tcp_port,
        }
    }
}

/// A `MasterInfo` with every field at its default.
pub open spec fn master_info_default() -> MasterInfoModel {
    MasterInfoModel {
        external_tcp_address: Seq::empty(),
        external_tcp_port: 0,
        external_http_address: Seq::empty(),
        external_http_port: 0,
        external_secure_tcp_address: None,
        external_secure_tcp_port: None,
    }
}

/// Folds one field into a `MasterInfo`; fields of unknown tags are skipped.
pub open spec fn master_info_apply(m: MasterInfoModel, f: WireField) -> Option<MasterInfoModel> {
    if f.tag == 10 {
        match f.value {
            WireValue::Bytes(b) => match string_of(b) {
                Some(s) => Some(MasterInfoModel { external_tcp_address: s, ..m }),
                None => None,
            },
            _ => None,
        }
    } else {
        if f.tag == 16 {
            match f.value {
                WireValue::Varint(v) => Some(MasterInfoModel { external_tcp_port: i32_of_varint(v), ..m }),
                _ => None,
            }
        } else {
            if f.tag == 26 {
                match f.value {
                    WireValue::Bytes(b) => match string_of(b) {
                        Some(s) => Some(MasterInfoModel { external_http_address: s, ..m }),
                        None => None,
                    },
                    _ => None,
                }
            } else {
                if f.tag == 32 {
                    match f.value {
                        WireValue::Varint(v) => Some(MasterInfoModel { external_http_port: i32_of_varint(v), ..m }),
                        _ => None,
                    }
                } else {
                    if f.tag == 42 {
                        match f.value {
                            WireValue::Bytes(b) => match string_of(b) {
                                Some(s) => Some(MasterInfoModel { external_secure_tcp_address: Some(s), ..m }),
                                None => None,
                            },
                            _ => None,
                        }
                    } else {
                        if f.tag == 48 {
                            match f.value {
                                WireValue::Varint(v) => Some(MasterInfoModel { external_secure_tcp_port: Some(i32_of_varint(v)), ..m }),
                                _ => None,
                            }
                        } else {
                            Some(m)
                        }
                    }
                }
            }
        }
    }
}

/// `master_info_apply` as a value.
pub open spec fn master_info_applier() -> spec_fn(MasterInfoModel, WireField) -> Option<MasterInfoModel> {
    |m: MasterInfoModel, f: WireField| master_info_apply(m, f)
}

/// The tags of the fields that a `MasterInfo` reads; the others are skipped.
pub open spec fn master_info_known() -> spec_fn(u32) -> bool {
    |t: u32| t == 10 || t == 16 || t == 26 || t == 32 || t == 42 || t == 48
}

/// The `MasterInfo` that `bytes` encode, if they encode one.
pub open spec fn master_info_decode(bytes: Seq<u8>) -> Option<MasterInfoModel> {
    decode_fields(bytes, master_info_default(), master_info_applier(), master_info_known())
}

/// The fields that encode a `MasterInfo`, in the order they are written.
pub open spec fn master_info_fields(m: MasterInfoModel) -> Seq<WireField> {
    (seq![WireField { tag: 10, value: WireValue::Bytes(encode_utf8(m.external_tcp_address)) }]) + ((seq![WireField { tag: 16, value: WireValue::Varint(varint_of_i32(m.external_tcp_port)) }]) + ((seq![WireField { tag: 26, value: WireValue::Bytes(encode_utf8(m.external_http_address)) }]) + ((seq![WireField { tag: 32, value: WireValue::Varint(varint_of_i32(m.external_http_port)) }]) + ((match m.external_secure_tcp_address {
        Some(x) => seq![WireField { tag: 42, value: WireValue::Bytes(encode_utf8(x)) }],
        None => Seq::<WireField>::empty(),
    }) + ((match m.external_secure_tcp_port {
        Some(x) => seq![WireField { tag: 48, value: WireValue::Varint(varint_of_i32(x)) }],
        None => Seq::<WireField>::empty(),
    }))))))
}

/// The encoding of a `MasterInfo`.
pub open spec fn master_info_encode(m: MasterInfoModel) -> Seq<u8> {
    encode_fields(master_info_fields(m))
}

/// A `MasterInfo` that reads back as written: every length-delimited field, those of the
/// embedded messages included, holds fewer than 2^32 bytes.
pub open spec fn master_info_wf(m: MasterInfoModel) -> bool {
    fields_short(master_info_fields(m))
}

/// The fields of a `MasterInfo` carry the wire types of their payloads.
pub proof fn lemma_master_info_fields_tagged(m: MasterInfoModel)
    ensures
        fields_tagged(master_info_fields(m)),
{
    assert(fields_tagged((match m.external_secure_tcp_port {
        Some(x) => seq![WireField { tag: 48, value: WireValue::Varint(varint_of_i32(x)) }],
        None => Seq::<WireField>::empty(),
    })));
    assert(fields_tagged((match m.external_secure_tcp_address {
        Some(x) => seq![WireField { tag: 42, value: WireValue::Bytes(encode_utf8(x)) }],
        None => Seq::<WireField>::empty(),
    })));
    lemma_fields_tagged_append(
        (match m.external_secure_tcp_address {
            Some(x) => seq![WireField { tag: 42, value: WireValue::Bytes(encode_utf8(x)) }],
            None => Seq::<WireField>::empty(),
        }),
        (match m.external_secure_tcp_port {
            Some(x) => seq![WireField { tag: 48, value: WireValue::Varint(varint_of_i32(x)) }],
            None => Seq::<WireField>::empty(),
        }),
    );
    assert(fields_tagged((seq![WireField { tag: 32, value: WireValue::Varint(varint_of_i32(m.external_http_port)) }])));
    lemma_fields_tagged_append(
        (seq![WireField { tag: 32, value: WireValue::Varint(varint_of_i32(m.external_http_port)) }]),
        (match m.external_secure_tcp_address {
            Some(x) => seq![WireField { tag: 42, value: WireValue::Bytes(encode_utf8(x)) }],
            None => Seq::<WireField>::empty(),
        }) + ((match m.external_secure_tcp_port {
            Some(x) => seq![WireField { tag: 48, value: WireValue::Varint(varint_of_i32(x)) }],
            None => Seq::<WireField>::empty(),
        })),
    );
    assert(fields_tagged((seq![WireField { tag: 26, value: WireValue::Bytes(encode_utf8(m.external_http_address)) }])));
    lemma_fields_tagged_append(
        (seq![WireField { tag: 26, value: WireValue::Bytes(encode_utf8(m.external_http_address)) }]),
        (seq![WireField { tag: 32, value: WireValue::Varint(varint_of_i32(m.external_http_port)) }]) + ((match m.external_secure_tcp_address {
            Some(x) => seq![WireField { tag: 42, value: WireValue::Bytes(encode_utf8(x)) }],
            None => Seq::<WireField>::empty(),
        }) + ((match m.external_secure_tcp_port {
            Some(x) => seq![WireField { tag: 48, value: WireValue::Varint(varint_of_i32(x)) }],
            None => Seq::<WireField>::empty(),
        }))),
    );
    assert(fields_tagged((seq![WireField { tag: 16, value: WireValue::Varint(varint_of_i32(m.external_tcp_port)) }])));
    lemma_fields_tagged_append(
        (seq![WireField { tag: 16, value: WireValue::Varint(varint_of_i32(m.external_tcp_port)) }]),
        (seq![WireField { tag: 26, value: WireValue::Bytes(encode_utf8(m.external_http_address)) }]) + ((seq![WireField { tag: 32, value: WireValue::Varint(varint_of_i32(m.external_http_port)) }]) + ((match m.external_secure_tcp_address {
            Some(x) => seq![WireField { tag: 42, value: WireValue::Bytes(encode_utf8(x)) }],
            None => Seq::<WireField>::empty(),
        }) + ((match m.external_secure_tcp_port {
            Some(x) => seq![WireField { tag: 48, value: WireValue::Varint(varint_of_i32(x)) }],
            None => Seq::<WireField>::empty(),
        })))),
    );
    assert(fields_tagged((seq![WireField { tag: 10, value: WireValue::Bytes(encode_utf8(m.external_tcp_address)) }])));
    lemma_fields_tagged_append(
        (seq![WireField { tag: 10, value: WireValue::Bytes(encode_utf8(m.external_tcp_address)) }]),
        (seq![WireField { tag: 16, value: WireValue::Varint(varint_of_i32(m.external_tcp_port)) }]) + ((seq![WireField { tag: 26, value: WireValue::Bytes(encode_utf8(m.external_http_address)) }]) + ((seq![WireField { tag: 32, value: WireValue::Varint(varint_of_i32(m.external_http_port)) }]) + ((match m.external_secure_tcp_address {
            Some(x) => seq![WireField { tag: 42, value: WireValue::Bytes(encode_utf8(x)) }],
            None => Seq::<WireField>::empty(),
        }) + ((match m.external_secure_tcp_port {
            Some(x) => seq![WireField { tag: 48, value: WireValue::Varint(varint_of_i32(x)) }],
            None => Seq::<WireField>::empty(),
        }))))),
    );
}

/// The bytes of an encoded `MasterInfo`: `external_tcp_address` under tag 10, `external_tcp_port` under tag 16, `external_http_address` under tag 26, `external_http_port` under tag 32, `external_secure_tcp_address` under tag 42, `external_secure_tcp_port` under tag 48, in this order; optional fields only
/// when present, repeated ones once per element.
pub proof fn lemma_master_info_encode_layout(m: MasterInfoModel)
    ensures
        master_info_encode(m) == (bytes_field_bytes(10, encode_utf8(m.external_tcp_address))) + ((varint_field_bytes(16, varint_of_i32(m.external_tcp_port))) + ((bytes_field_bytes(26, encode_utf8(m.external_http_address))) + ((varint_field_bytes(32, varint_of_i32(m.external_http_port))) + (((match m.external_secure_tcp_address {
            Some(x) => bytes_field_bytes(42, encode_utf8(x)),
            None => Seq::<u8>::empty(),
        })) + (((match m.external_secure_tcp_port {
            Some(x) => varint_field_bytes(48, varint_of_i32(x)),
            None => Seq::<u8>::empty(),
        }))))))),
{
    lemma_encode_fields_append(
        (seq![WireField { tag: 10, value: WireValue::Bytes(encode_utf8(m.external_tcp_address)) }]),
        (seq![WireField { tag: 16, value: WireValue::Varint(varint_of_i32(m.external_tcp_port)) }]) + ((seq![WireField { tag: 26, value: WireValue::Bytes(encode_utf8(m.external_http_address)) }]) + ((seq![WireField { tag: 32, value: WireValue::Varint(varint_of_i32(m.external_http_port)) }]) + ((match m.external_secure_tcp_address {
            Some(x) => seq![WireField { tag: 42, value: WireValue::Bytes(encode_utf8(x)) }],
            None => Seq::<WireField>::empty(),
        }) + ((match m.external_secure_tcp_port {
            Some(x) => seq![WireField { tag: 48, value: WireValue::Varint(varint_of_i32(x)) }],
            None => Seq::<WireField>::empty(),
        }))))),
    );
    lemma_encode_fields_append(
        (seq![WireField { tag: 16, value: WireValue::Varint(varint_of_i32(m.external_tcp_port)) }]),
        (seq![WireField { tag: 26, value: WireValue::Bytes(encode_utf8(m.external_http_address)) }]) + ((seq![WireField { tag: 32, value: WireValue::Varint(varint_of_i32(m.external_http_port)) }]) + ((match m.external_secure_tcp_address {
            Some(x) => seq![WireField { tag: 42, value: WireValue::Bytes(encode_utf8(x)) }],
            None => Seq::<WireField>::empty(),
        }) + ((match m.external_secure_tcp_port {
            Some(x) => seq![WireField { tag: 48, value: WireValue::Varint(varint_of_i32(x)) }],
            None => Seq::<WireField>::empty(),
        })))),
    );
    lemma_encode_fields_append(
        (seq![WireField { tag: 26, value: WireValue::Bytes(encode_utf8(m.external_http_address)) }]),
        (seq![WireField { tag: 32, value: WireValue::Varint(varint_of_i32(m.external_http_port)) }]) + ((match m.external_secure_tcp_address {
            Some(x) => seq![WireField { tag: 42, value: WireValue::Bytes(encode_utf8(x)) }],
            None => Seq::<WireField>::empty(),
        }) + ((match m.external_secure_tcp_port {
            Some(x) => seq![WireField { tag: 48, value: WireValue::Varint(varint_of_i32(x)) }],
            None => Seq::<WireField>::empty(),
        }))),
    );
    lemma_encode_fields_append(
        (seq![WireField { tag: 32, value: WireValue::Varint(varint_of_i32(m.external_http_port)) }]),
        (match m.external_secure_tcp_address {
            Some(x) => seq![WireField { tag: 42, value: WireValue::Bytes(encode_utf8(x)) }],
            None => Seq::<WireField>::empty(),
        }) + ((match m.external_secure_tcp_port {
            Some(x) => seq![WireField { tag: 48, value: WireValue::Varint(varint_of_i32(x)) }],
            None => Seq::<WireField>::empty(),
        })),
    );
    lemma_encode_fields_append(
        (match m.external_secure_tcp_address {
            Some(x) => seq![WireField { tag: 42, value: WireValue::Bytes(encode_utf8(x)) }],
            None => Seq::<WireField>::empty(),
        }),
        (match m.external_secure_tcp_port {
            Some(x) => seq![WireField { tag: 48, value: WireValue::Varint(varint_of_i32(x)) }],
            None => Seq::<WireField>::empty(),
        }),
    );
    lemma_bytes_field_layout(10, encode_utf8(m.external_tcp_address));
    lemma_varint_field_layout(16, varint_of_i32(m.external_tcp_port));
    lemma_bytes_field_layout(26, encode_utf8(m.external_http_address));
    lemma_varint_field_layout(32, varint_of_i32(m.external_http_port));
    if let Some(x) = m.external_secure_tcp_address {
        lemma_bytes_field_layout(42, encode_utf8(x));
    }
    if let Some(x) = m.external_secure_tcp_port {
        lemma_varint_field_layout(48, varint_of_i32(x));
    }
}

/// Reading a written `MasterInfo` gives it back.
pub proof fn lemma_master_info_roundtrip(m: MasterInfoModel)
    requires
        master_info_wf(m),
    ensures
        master_info_decode(master_info_encode(m)) == Some(m),
{
    let ap = master_info_applier();
    lemma_master_info_fields_tagged(m);
    lemma_fields_canonical_of_short(master_info_fields(m));
    lemma_decode_encoded_fields(master_info_fields(m), master_info_default(), ap, master_info_known());
    let a0 = master_info_default();
    let a1 = MasterInfoModel { external_tcp_address: m.external_tcp_address, ..a0 };
    lemma_apply_fields_append(
        (seq![WireField { tag: 10, value: WireValue::Bytes(encode_utf8(m.external_tcp_address)) }]),
        (seq![WireField { tag: 16, value: WireValue::Varint(varint_of_i32(m.external_tcp_port)) }]) + ((seq![WireField { tag: 26, value: WireValue::Bytes(encode_utf8(m.external_http_address)) }]) + ((seq![WireField { tag: 32, value: WireValue::Varint(varint_of_i32(m.external_http_port)) }]) + ((match m.external_secure_tcp_address {
            Some(x) => seq![WireField { tag: 42, value: WireValue::Bytes(encode_utf8(x)) }],
            None => Seq::<WireField>::empty(),
        }) + ((match m.external_secure_tcp_port {
            Some(x) => seq![WireField { tag: 48, value: WireValue::Varint(varint_of_i32(x)) }],
            None => Seq::<WireField>::empty(),
        }))))),
        a0,
        ap,
    );
    assert(apply_fields((seq![WireField { tag: 10, value: WireValue::Bytes(encode_utf8(m.external_tcp_address)) }]), a0, ap) == Some(a1)) by {
        reveal_with_fuel(apply_fields, 2);
        lemma_string_roundtrip(m.external_tcp_address);
    }
    let a2 = MasterInfoModel { external_tcp_port: m.external_tcp_port, ..a1 };
    lemma_apply_fields_append(
        (seq![WireField { tag: 16, value: WireValue::Varint(varint_of_i32(m.external_tcp_port)) }]),
        (seq![WireField { tag: 26, value: WireValue::Bytes(encode_utf8(m.external_http_address)) }]) + ((seq![WireField { tag: 32, value: WireValue::Varint(varint_of_i32(m.external_http_port)) }]) + ((match m.external_secure_tcp_address {
            Some(x) => seq![WireField { tag: 42, value: WireValue::Bytes(encode_utf8(x)) }],
            None => Seq::<WireField>::empty(),
        }) + ((match m.external_secure_tcp_port {
            Some(x) => seq![WireField { tag: 48, value: WireValue::Varint(varint_of_i32(x)) }],
            None => Seq::<WireField>::empty(),
        })))),
        a1,
        ap,
    );
    assert(apply_fields((seq![WireField { tag: 16, value: WireValue::Varint(varint_of_i32(m.external_tcp_port)) }]), a1, ap) == Some(a2)) by {
        reveal_with_fuel(apply_fields, 2);
        lemma_scalar_roundtrips(m.external_tcp_port, 0, false);
    }
    let a3 = MasterInfoModel { external_http_address: m.external_http_address, ..a2 };
    lemma_apply_fields_append(
        (seq![WireField { tag: 26, value: WireValue::Bytes(encode_utf8(m.external_http_address)) }]),
        (seq![WireField { tag: 32, value: WireValue::Varint(varint_of_i32(m.external_http_port)) }]) + ((match m.external_secure_tcp_address {
            Some(x) => seq![WireField { tag: 42, value: WireValue::Bytes(encode_utf8(x)) }],
            None => Seq::<WireField>::empty(),
        }) + ((match m.external_secure_tcp_port {
            Some(x) => seq![WireField { tag: 48, value: WireValue::Varint(varint_of_i32(x)) }],
            None => Seq::<WireField>::empty(),
        }))),
        a2,
        ap,
    );
    assert(apply_fields((seq![WireField { tag: 26, value: WireValue::Bytes(encode_utf8(m.external_http_address)) }]), a2, ap) == Some(a3)) by {
        reveal_with_fuel(apply_fields, 2);
        lemma_string_roundtrip(m.external_http_address);
    }
    let a4 = MasterInfoModel { external_http_port: m.external_http_port, ..a3 };
    lemma_apply_fields_append(
        (seq![WireField { tag: 32, value: WireValue::Varint(varint_of_i32(m.external_http_port)) }]),
        (match m.external_secure_tcp_address {
            Some(x) => seq![WireField { tag: 42, value: WireValue::Bytes(encode_utf8(x)) }],
            None => Seq::<WireField>::empty(),
        }) + ((match m.external_secure_tcp_port {
            Some(x) => seq![WireField { tag: 48, value: WireValue::Varint(varint_of_i32(x)) }],
            None => Seq::<WireField>::empty(),
        })),
        a3,
        ap,
    );
    assert(apply_fields((seq![WireField { tag: 32, value: WireValue::Varint(varint_of_i32(m.external_http_port)) }]), a3, ap) == Some(a4)) by {
        reveal_with_fuel(apply_fields, 2);
        lemma_scalar_roundtrips(m.external_http_port, 0, false);
    }
    let a5 = MasterInfoModel { external_secure_tcp_address: m.external_secure_tcp_address, ..a4 };
    lemma_apply_fields_append(
        (match m.external_secure_tcp_address {
            Some(x) => seq![WireField { tag: 42, value: WireValue::Bytes(encode_utf8(x)) }],
            None => Seq::<WireField>::empty(),
        }),
        (match m.external_secure_tcp_port {
            Some(x) => seq![WireField { tag: 48, value: WireValue::Varint(varint_of_i32(x)) }],
            None => Seq::<WireField>::empty(),
        }),
        a4,
        ap,
    );
    assert(apply_fields((match m.external_secure_tcp_address {
        Some(x) => seq![WireField { tag: 42, value: WireValue::Bytes(encode_utf8(x)) }],
        None => Seq::<WireField>::empty(),
    }), a4, ap) == Some(a5)) by {
        reveal_with_fuel(apply_fields, 2);
        if let Some(x) = m.external_secure_tcp_address {
            lemma_string_roundtrip(x);
        }
    }
    let a6 = MasterInfoModel { external_secure_tcp_port: m.external_secure_tcp_port, ..a5 };
    assert(apply_fields((match m.external_secure_tcp_port {
        Some(x) => seq![WireField { tag: 48, value: WireValue::Varint(varint_of_i32(x)) }],
        None => Seq::<WireField>::empty(),
    }), a5, ap) == Some(a6)) by {
        reveal_with_fuel(apply_fields, 2);
        if let Some(x) = m.external_secure_tcp_port {
            lemma_scalar_roundtrips(x, 0, false);
        }
    }
    assert(a6 == m);
}

impl MasterInfo {
    /// Decodes a `MasterInfo` from its protobuf bytes.
    pub fn from_reader(bytes: &[u8]) -> (res: Option<MasterInfo>)
        ensures
            master_info_decode(bytes@) matches Some(m) ==> (res matches Some(e) && e@ == m),
            master_info_decode(bytes@) is None ==> res is None,
    {
        let mut msg = MasterInfo::default_value();
        let mut pos: usize = 0;
        assert(bytes@.skip(0) =~= bytes@);
        while pos < bytes.len()
            invariant
                pos <= bytes@.len(),
                master_info_decode(bytes@) == decode_fields(bytes@.skip(pos as int), msg@, master_info_applier(), master_info_known()),
            decreases bytes@.len() - pos,
        {
            let ghost old_msg = msg@;
            let (tag, p) = match read_tag(bytes, pos) {
                Some(x) => x,
                None => {
                    return None;
                },
            };
            proof {
                lemma_field_parts(bytes@, pos as int, master_info_known());
            }
            let known: bool = tag == 10 || tag == 16 || tag == 26 || tag == 32 || tag == 42 || tag == 48;
            let (value, next) = match read_value(bytes, p, tag, known) {
                Some(x) => x,
                None => {
                    return None;
                },
            };
            let ghost f = parse_field(bytes@.skip(pos as int), master_info_known()).unwrap().0;
            proof {
                lemma_decode_step(bytes@, pos as int, old_msg, master_info_applier(), master_info_known());
                lemma_parse_field_len(bytes@.skip(pos as int), master_info_known());
            }
            if tag == 10 {
                match value {
                    FieldValue::Bytes(i, j) => match copy_string(bytes, i, j) {
                        Some(s) => {
                            msg.external_tcp_address = s;
                        },
                        None => {
                            return None;
                        },
                    },
                    _ => {
                        return None;
                    },
                }
            } else if tag == 16 {
                match value {
                    FieldValue::Varint(v) => {
                        msg.external_tcp_port = varint_i32(v);
                    },
                    _ => {
                        return None;
                    },
                }
            } else if tag == 26 {
                match value {
                    FieldValue::Bytes(i, j) => match copy_string(bytes, i, j) {
                        Some(s) => {
                            msg.external_http_address = s;
                        },
                        None => {
                            return None;
                        },
                    },
                    _ => {
                        return None;
                    },
                }
            } else if tag == 32 {
                match value {
                    FieldValue::Varint(v) => {
                        msg.external_http_port = varint_i32(v);
                    },
                    _ => {
                        return None;
                    },
                }
            } else if tag == 42 {
                match value {
                    FieldValue::Bytes(i, j) => match copy_string(bytes, i, j) {
                        Some(s) => {
                            msg.external_secure_tcp_address = Some(s);
                        },
                        None => {
                            return None;
                        },
                    },
                    _ => {
                        return None;
                    },
                }
            } else if tag == 48 {
                match value {
                    FieldValue::Varint(v) => {
                        msg.external_secure_tcp_port = Some(varint_i32(v));
                    },
                    _ => {
                        return None;
                    },
                }
            }
            assert(master_info_apply(old_msg, f) == Some(msg@));
            pos = next;
        }
        assert(bytes@.skip(pos as int).len() == 0);
        Some(msg)
    }

    /// A `MasterInfo` with every field at its default.
    pub fn default_value() -> (m: MasterInfo)
        ensures
            m@ == master_info_default(),
    {
        let m = MasterInfo {
            external_tcp_address: String::new(),
            external_tcp_port: 0,
            external_http_address: String::new(),
            external_http_port: 0,
            external_secure_tcp_address: None,
            external_secure_tcp_port: None,
        };
        m
    }

    /// A copy of this `MasterInfo`.
    pub fn copy(&self) -> (c: MasterInfo)
        ensures
            c@ == self@,
    {
        let c = MasterInfo {
            external_tcp_address: self.external_tcp_address.clone(),
            external_tcp_port: self.external_tcp_port,
            external_http_address: self.external_http_address.clone(),
            external_http_port: self.external_http_port,
            external_secure_tcp_address: match &self.external_secure_tcp_address {
                Some(x) => Some(x.clone()),
                None => None,
            },
            external_secure_tcp_port: self.external_secure_tcp_port,
        };
        assert(c@.external_tcp_address =~= self@.external_tcp_address);
        assert(c@.external_http_address =~= self@.external_http_address);
        assert(c@.external_secure_tcp_address =~= self@.external_secure_tcp_address);
        c
    }

    /// Encodes this `MasterInfo` as protobuf bytes.
    #[verifier::spinoff_prover]
    #[verifier::rlimit(30)]
    pub fn encode(&self) -> (out: Vec<u8>)
        ensures
            out@ == master_info_encode(self@),
            out@.len() < modulus32() ==> master_info_wf(self@),
    {
        let mut out: Vec<u8> = Vec::new();
        let ghost mut fs: Seq<WireField> = Seq::empty();
        write_bytes_field(&mut out, 10, self.external_tcp_address.as_str().as_bytes());
        proof {
            let f = WireField { tag: 10, value: WireValue::Bytes(encode_utf8(self.external_tcp_address@)) };
            lemma_encode_fields_push(fs, f);
            lemma_fields_shaped_push(fs, f);
            fs = fs.push(f);
        }
        write_varint_field(&mut out, 16, i32_varint(self.external_tcp_port));
        proof {
            let f = WireField { tag: 16, value: WireValue::Varint(varint_of_i32(self.external_tcp_port)) };
            lemma_encode_fields_push(fs, f);
            lemma_fields_shaped_push(fs, f);
            fs = fs.push(f);
        }
        write_bytes_field(&mut out, 26, self.external_http_address.as_str().as_bytes());
        proof {
            let f = WireField { tag: 26, value: WireValue::Bytes(encode_utf8(self.external_http_address@)) };
            lemma_encode_fields_push(fs, f);
            lemma_fields_shaped_push(fs, f);
            fs = fs.push(f);
        }
        write_varint_field(&mut out, 32, i32_varint(self.external_http_port));
        proof {
            let f = WireField { tag: 32, value: WireValue::Varint(varint_of_i32(self.external_http_port)) };
            lemma_encode_fields_push(fs, f);
            lemma_fields_shaped_push(fs, f);
            fs = fs.push(f);
        }
        match &self.external_secure_tcp_address {
            Some(x) => {
                write_bytes_field(&mut out, 42, x.as_str().as_bytes());
                proof {
                    let f = WireField { tag: 42, value: WireValue::Bytes(encode_utf8(x@)) };
                    lemma_encode_fields_push(fs, f);
                    lemma_fields_shaped_push(fs, f);
                    fs = fs.push(f);
                }
            },
            None => {},
        }
        match self.external_secure_tcp_port {
            Some(x) => {
                write_varint_field(&mut out, 48, i32_varint(x));
                proof {
                    let f = WireField { tag: 48, value: WireValue::Varint(varint_of_i32(x)) };
                    lemma_encode_fields_push(fs, f);
                    lemma_fields_shaped_push(fs, f);
                    fs = fs.push(f);
                }
            },
            None => {},
        }
        assert(fs =~= master_info_fields(self@));
        proof {
            if out@.len() < modulus32() {
                lemma_fields_canonical_of_len(fs);
            }
        }
        out
    }

    /// The number of bytes of the encoding of this `MasterInfo`, computed without encoding it.
    #[verifier::spinoff_prover]
    #[verifier::rlimit(30)]
    pub fn get_size(&self) -> (n: usize)
        requires
            master_info_encode(self@).len() <= usize::MAX,
        ensures
            n == master_info_encode(self@).len(),
    {
        let ghost m = self@;
        proof {
            lemma_encode_fields_append(
                (seq![WireField { tag: 10, value: WireValue::Bytes(encode_utf8(m.external_tcp_address)) }]),
                (seq![WireField { tag: 16, value: WireValue::Varint(varint_of_i32(m.external_tcp_port)) }]) + ((seq![WireField { tag: 26, value: WireValue::Bytes(encode_utf8(m.external_http_address)) }]) + ((seq![WireField { tag: 32, value: WireValue::Varint(varint_of_i32(m.external_http_port)) }]) + ((match m.external_secure_tcp_address {
                    Some(x) => seq![WireField { tag: 42, value: WireValue::Bytes(encode_utf8(x)) }],
                    None => Seq::<WireField>::empty(),
                }) + ((match m.external_secure_tcp_port {
                    Some(x) => seq![WireField { tag: 48, value: WireValue::Varint(varint_of_i32(x)) }],
                    None => Seq::<WireField>::empty(),
                }))))),
            );
            lemma_encode_fields_append(
                (seq![WireField { tag: 16, value: WireValue::Varint(varint_of_i32(m.external_tcp_port)) }]),
                (seq![WireField { tag: 26, value: WireValue::Bytes(encode_utf8(m.external_http_address)) }]) + ((seq![WireField { tag: 32, value: WireValue::Varint(varint_of_i32(m.external_http_port)) }]) + ((match m.external_secure_tcp_address {
                    Some(x) => seq![WireField { tag: 42, value: WireValue::Bytes(encode_utf8(x)) }],
                    None => Seq::<WireField>::empty(),
                }) + ((match m.external_secure_tcp_port {
                    Some(x) => seq![WireField { tag: 48, value: WireValue::Varint(varint_of_i32(x)) }],
                    None => Seq::<WireField>::empty(),
                })))),
            );
            lemma_encode_fields_append(
                (seq![WireField { tag: 26, value: WireValue::Bytes(encode_utf8(m.external_http_address)) }]),
                (seq![WireField { tag: 32, value: WireValue::Varint(varint_of_i32(m.external_http_port)) }]) + ((match m.external_secure_tcp_address {
                    Some(x) => seq![WireField { tag: 42, value: WireValue::Bytes(encode_utf8(x)) }],
                    None => Seq::<WireField>::empty(),
                }) + ((match m.external_secure_tcp_port {
                    Some(x) => seq![WireField { tag: 48, value: WireValue::Varint(varint_of_i32(x)) }],
                    None => Seq::<WireField>::empty(),
                }))),
            );
            lemma_encode_fields_append(
                (seq![WireField { tag: 32, value: WireValue::Varint(varint_of_i32(m.external_http_port)) }]),
                (match m.external_secure_tcp_address {
                    Some(x) => seq![WireField { tag: 42, value: WireValue::Bytes(encode_utf8(x)) }],
                    None => Seq::<WireField>::empty(),
                }) + ((match m.external_secure_tcp_port {
                    Some(x) => seq![WireField { tag: 48, value: WireValue::Varint(varint_of_i32(x)) }],
                    None => Seq::<WireField>::empty(),
                })),
            );
            lemma_encode_fields_append(
                (match m.external_secure_tcp_address {
                    Some(x) => seq![WireField { tag: 42, value: WireValue::Bytes(encode_utf8(x)) }],
                    None => Seq::<WireField>::empty(),
                }),
                (match m.external_secure_tcp_port {
                    Some(x) => seq![WireField { tag: 48, value: WireValue::Varint(varint_of_i32(x)) }],
                    None => Seq::<WireField>::empty(),
                }),
            );
        }
        let mut n: usize = 0;
        let s5: usize = match self.external_secure_tcp_port {
            Some(x) => {
                proof {
                    lemma_encode_fields_one(WireField { tag: 48, value: WireValue::Varint(varint_of_i32(x)) });
                }
                sizeof_varint_field(48, i32_varint(x))
            },
            None => 0,
        };
        n = s5 + n;
        let s4: usize = match &self.external_secure_tcp_address {
            Some(x) => {
                proof {
                    lemma_encode_fields_one(WireField { tag: 42, value: WireValue::Bytes(encode_utf8(x@)) });
                }
                sizeof_len_field(42, x.as_str().as_bytes().len())
            },
            None => 0,
        };
        n = s4 + n;
        let s3: usize = {
            proof {
                lemma_encode_fields_one(WireField { tag: 32, value: WireValue::Varint(varint_of_i32(m.external_http_port)) });
            }
            sizeof_varint_field(32, i32_varint(self.external_http_port))
        };
        n = s3 + n;
        let s2: usize = {
            proof {
                lemma_encode_fields_one(WireField { tag: 26, value: WireValue::Bytes(encode_utf8(m.external_http_address)) });
            }
            sizeof_len_field(26, self.external_http_address.as_str().as_bytes().len())
        };
        n = s2 + n;
        let s1: usize = {
            proof {
                lemma_encode_fields_one(WireField { tag: 16, value: WireValue::Varint(varint_of_i32(m.external_tcp_port)) });
            }
            sizeof_varint_field(16, i32_varint(self.external_tcp_port))
        };
        n = s1 + n;
        let s0: usize = {
            proof {
                lemma_encode_fields_one(WireField { tag: 10, value: WireValue::Bytes(encode_utf8(m.external_tcp_address)) });
            }
            sizeof_len_field(10, self.external_tcp_address.as_str().as_bytes().len())
        };
        n = s0 + n;
        n
    }
}

} // verus!
