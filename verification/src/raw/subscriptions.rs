//! Protobuf messages of volatile subscriptions.
use vstd::prelude::*;
use vstd::utf8::encode_utf8;
use vstd::slice::slice_subrange;
use crate::wire::{
    WireField, WireValue, FieldValue, string_of, i32_of_varint, i64_of_varint, bool_of_varint,
    varint_of_i32, varint_of_i64, varint_of_bool, decode_fields, encode_fields, apply_fields,
    lemma_decode_encoded_fields, lemma_apply_fields_append, lemma_string_roundtrip,
    lemma_scalar_roundtrips, parse_field, read_tag, read_value, lemma_field_parts,
    lemma_decode_step, lemma_parse_field_len, copy_string, varint_i32, varint_i64, varint_bool,
    i32_varint, i64_varint, bool_varint, write_bytes_field, write_varint_field,
    lemma_encode_fields_push, lemma_fields_shaped_push, lemma_fields_canonical_of_len, modulus32,
    lemma_encode_fields_append, lemma_encode_fields_one, sizeof_varint_field, sizeof_len_field,
    fields_short, fields_tagged, lemma_fields_tagged_append, lemma_fields_canonical_of_short,
    varint_field_bytes, bytes_field_bytes, lemma_varint_field_layout, lemma_bytes_field_layout,
};
use crate::raw::events::{
    ResolvedEvent, ResolvedEventModel, resolved_event_decode, resolved_event_encode,
    resolved_event_wf, lemma_resolved_event_roundtrip, resolved_event_default,
};

verus! {

/// Why a subscription was dropped.
#[derive(Debug, Clone, Copy, PartialEq, Eq, Structural)]
pub enum SubscriptionDropReason {
    /// The client unsubscribed
    Unsubscribed,
    /// Access was denied
    AccessDenied,
    /// No such stream or subscription
    NotFound,
    /// The persistent subscription was deleted
    PersistentSubscriptionDeleted,
    /// Too many subscribers
    SubscriberMaxCountReached,
}

impl SubscriptionDropReason {
    /// The variant that the wire number `i` stands for; unknown numbers give `Unsubscribed`.
    pub open spec fn from_i32_spec(i: i32) -> SubscriptionDropReason {
        if i == 1 {
            SubscriptionDropReason::AccessDenied
        } else {
            if i == 2 {
                SubscriptionDropReason::NotFound
            } else {
                if i == 3 {
                    SubscriptionDropReason::PersistentSubscriptionDeleted
                } else {
                    if i == 4 {
                        SubscriptionDropReason::SubscriberMaxCountReached
                    } else {
                        SubscriptionDropReason::Unsubscribed
                    }
                }
            }
        }
    }

    /// The wire number of the variant.
    pub open spec fn to_i32_spec(self) -> i32 {
        match self {
            SubscriptionDropReason::Unsubscribed => 0,
            SubscriptionDropReason::AccessDenied => 1,
            SubscriptionDropReason::NotFound => 2,
            SubscriptionDropReason::PersistentSubscriptionDeleted => 3,
            SubscriptionDropReason::SubscriberMaxCountReached => 4,
        }
    }

    /// The variant that the wire number `i` stands for; unknown numbers give `Unsubscribed`.
    pub fn from_i32(i: i32) -> (r: SubscriptionDropReason)
        ensures
            r == SubscriptionDropReason::from_i32_spec(i),
    {
        if i == 1 {
            SubscriptionDropReason::AccessDenied
        } else {
            if i == 2 {
                SubscriptionDropReason::NotFound
            } else {
                if i == 3 {
                    SubscriptionDropReason::PersistentSubscriptionDeleted
                } else {
                    if i == 4 {
                        SubscriptionDropReason::SubscriberMaxCountReached
                    } else {
                        SubscriptionDropReason::Unsubscribed
                    }
                }
            }
        }
    }

    /// The wire number of the variant.
    pub fn to_i32(self) -> (i: i32)
        ensures
            i == self.to_i32_spec(),
    {
        match self {
            SubscriptionDropReason::Unsubscribed => 0,
            SubscriptionDropReason::AccessDenied => 1,
            SubscriptionDropReason::NotFound => 2,
            SubscriptionDropReason::PersistentSubscriptionDeleted => 3,
            SubscriptionDropReason::SubscriberMaxCountReached => 4,
        }
    }

    /// The wire numbers that the protocol gives the variants: each variant is written as its
    /// own number, and read from that number alone; any other number reads as `Unsubscribed`.
    pub proof fn lemma_wire_numbers(i: i32)
        ensures
            SubscriptionDropReason::Unsubscribed.to_i32_spec() == 0,
            SubscriptionDropReason::AccessDenied.to_i32_spec() == 1,
            SubscriptionDropReason::NotFound.to_i32_spec() == 2,
            SubscriptionDropReason::PersistentSubscriptionDeleted.to_i32_spec() == 3,
            SubscriptionDropReason::SubscriberMaxCountReached.to_i32_spec() == 4,
            (SubscriptionDropReason::from_i32_spec(i) == SubscriptionDropReason::AccessDenied) <==> i == 1,
            (SubscriptionDropReason::from_i32_spec(i) == SubscriptionDropReason::NotFound) <==> i == 2,
            (SubscriptionDropReason::from_i32_spec(i) == SubscriptionDropReason::PersistentSubscriptionDeleted) <==> i == 3,
            (SubscriptionDropReason::from_i32_spec(i) == SubscriptionDropReason::SubscriberMaxCountReached) <==> i == 4,
            (SubscriptionDropReason::from_i32_spec(i) == SubscriptionDropReason::Unsubscribed) <==> (i != 1 && i != 2 && i != 3 && i != 4),
    {
    }

    /// Reading the wire number of a variant gives the variant back.
    pub proof fn lemma_i32_roundtrip(self)
        ensures
            SubscriptionDropReason::from_i32_spec(self.to_i32_spec()) == self,
    {
    }
}

/// Request to subscribe to the events of a stream.
#[derive(Debug, Clone, PartialEq)]
pub struct SubscribeToStream {
    /// The stream to subscribe to
    pub event_stream_id: String,
    /// Whether to follow link events
    pub resolve_link_tos: bool,
}

/// The contents of a `SubscribeToStream`.
pub struct SubscribeToStreamModel {
    pub event_stream_id: Seq<char>,
    pub resolve_link_tos: bool,
}

impl View for SubscribeToStream {
    type V = SubscribeToStreamModel;

    open spec fn view(&self) -> SubscribeToStreamModel {
        SubscribeToStreamModel {
            event_stream_id: self.event_stream_id@,
            resolve_link_tos: self.resolve_link_tos,
        }
    }
}

/// A `SubscribeToStream` with every field at its default.
pub open spec fn subscribe_to_stream_default() -> SubscribeToStreamModel {
    SubscribeToStreamModel {
        event_stream_id: Seq::empty(),
        resolve_link_tos: false,
    }
}

/// Folds one field into a `SubscribeToStream`; fields of unknown tags are skipped.
pub open spec fn subscribe_to_stream_apply(m: SubscribeToStreamModel, f: WireField) -> Option<SubscribeToStreamModel> {
    if f.tag == 10 {
        match f.value {
            WireValue::Bytes(b) => match string_of(b) {
                Some(s) => Some(SubscribeToStreamModel { event_stream_id: s, ..m }),
                None => None,
            },
            _ => None,
        }
    } else {
        if f.tag == 16 {
            match f.value {
                WireValue::Varint(v) => Some(SubscribeToStreamModel { resolve_link_tos: bool_of_varint(v), ..m }),
                _ => None,
            }
        } else {
            Some(m)
        }
    }
}

/// `subscribe_to_stream_apply` as a value.
pub open spec fn subscribe_to_stream_applier() -> spec_fn(SubscribeToStreamModel, WireField) -> Option<SubscribeToStreamModel> {
    |m: SubscribeToStreamModel, f: WireField| subscribe_to_stream_apply(m, f)
}

/// The tags of the fields that a `SubscribeToStream` reads; the others are skipped.
pub open spec fn subscribe_to_stream_known() -> spec_fn(u32) -> bool {
    |t: u32| t == 10 || t == 16
}

/// The `SubscribeToStream` that `bytes` encode, if they encode one.
pub open spec fn subscribe_to_stream_decode(bytes: Seq<u8>) -> Option<SubscribeToStreamModel> {
    decode_fields(bytes, subscribe_to_stream_default(), subscribe_to_stream_applier(), subscribe_to_stream_known())
}

/// The fields that encode a `SubscribeToStream`, in the order they are written.
pub open spec fn subscribe_to_stream_fields(m: SubscribeToStreamModel) -> Seq<WireField> {
    (seq![WireField { tag: 10, value: WireValue::Bytes(encode_utf8(m.event_stream_id)) }]) + ((seq![WireField { tag: 16, value: WireValue::Varint(varint_of_bool(m.resolve_link_tos)) }]))
}

/// The encoding of a `SubscribeToStream`.
pub open spec fn subscribe_to_stream_encode(m: SubscribeToStreamModel) -> Seq<u8> {
    encode_fields(subscribe_to_stream_fields(m))
}

/// A `SubscribeToStream` that reads back as written: every length-delimited field, those of the
/// embedded messages included, holds fewer than 2^32 bytes.
pub open spec fn subscribe_to_stream_wf(m: SubscribeToStreamModel) -> bool {
    fields_short(subscribe_to_stream_fields(m))
}

/// The fields of a `SubscribeToStream` carry the wire types of their payloads.
pub proof fn lemma_subscribe_to_stream_fields_tagged(m: SubscribeToStreamModel)
    ensures
        fields_tagged(subscribe_to_stream_fields(m)),
{
    assert(fields_tagged((seq![WireField { tag: 16, value: WireValue::Varint(varint_of_bool(m.resolve_link_tos)) }])));
    assert(fields_tagged((seq![WireField { tag: 10, value: WireValue::Bytes(encode_utf8(m.event_stream_id)) }])));
    lemma_fields_tagged_append(
        (seq![WireField { tag: 10, value: WireValue::Bytes(encode_utf8(m.event_stream_id)) }]),
        (seq![WireField { tag: 16, value: WireValue::Varint(varint_of_bool(m.resolve_link_tos)) }]),
    );
}

/// The bytes of an encoded `SubscribeToStream`: `event_stream_id` under tag 10, `resolve_link_tos` under tag 16, in this order; optional fields only
/// when present, repeated ones once per element.
pub proof fn lemma_subscribe_to_stream_encode_layout(m: SubscribeToStreamModel)
    ensures
        subscribe_to_stream_encode(m) == (bytes_field_bytes(10, encode_utf8(m.event_stream_id))) + ((varint_field_bytes(16, varint_of_bool(m.resolve_link_tos)))),
{
    lemma_encode_fields_append(
        (seq![WireField { tag: 10, value: WireValue::Bytes(encode_utf8(m.event_stream_id)) }]),
        (seq![WireField { tag: 16, value: WireValue::Varint(varint_of_bool(m.resolve_link_tos)) }]),
    );
    lemma_bytes_field_layout(10, encode_utf8(m.event_stream_id));
    lemma_varint_field_layout(16, varint_of_bool(m.resolve_link_tos));
}

/// Reading a written `SubscribeToStream` gives it back.
pub proof fn lemma_subscribe_to_stream_roundtrip(m: SubscribeToStreamModel)
    requires
        subscribe_to_stream_wf(m),
    ensures
        subscribe_to_stream_decode(subscribe_to_stream_encode(m)) == Some(m),
{
    let ap = subscribe_to_stream_applier();
    lemma_subscribe_to_stream_fields_tagged(m);
    lemma_fields_canonical_of_short(subscribe_to_stream_fields(m));
    lemma_decode_encoded_fields(subscribe_to_stream_fields(m), subscribe_to_stream_default(), ap, subscribe_to_stream_known());
    let a0 = subscribe_to_stream_default();
    let a1 = SubscribeToStreamModel { event_stream_id: m.event_stream_id, ..a0 };
    lemma_apply_fields_append(
        (seq![WireField { tag: 10, value: WireValue::Bytes(encode_utf8(m.event_stream_id)) }]),
        (seq![WireField { tag: 16, value: WireValue::Varint(varint_of_bool(m.resolve_link_tos)) }]),
        a0,
        ap,
    );
    assert(apply_fields((seq![WireField { tag: 10, value: WireValue::Bytes(encode_utf8(m.event_stream_id)) }]), a0, ap) == Some(a1)) by {
        reveal_with_fuel(apply_fields, 2);
        lemma_string_roundtrip(m.event_stream_id);
    }
    let a2 = SubscribeToStreamModel { resolve_link_tos: m.resolve_link_tos, ..a1 };
    assert(apply_fields((seq![WireField { tag: 16, value: WireValue::Varint(varint_of_bool(m.resolve_link_tos)) }]), a1, ap) == Some(a2)) by {
        reveal_with_fuel(apply_fields, 2);
        lemma_scalar_roundtrips(0, 0, m.resolve_link_tos);
    }
    assert(a2 == m);
}

impl SubscribeToStream {
    /// Decodes a `SubscribeToStream` from its protobuf bytes.
    pub fn from_reader(bytes: &[u8]) -> (res: Option<SubscribeToStream>)
        ensures
            subscribe_to_stream_decode(bytes@) matches Some(m) ==> (res matches Some(e) && e@ == m),
            subscribe_to_stream_decode(bytes@) is None ==> res is None,
    {
        let mut msg = SubscribeToStream::default_value();
        let mut pos: usize = 0;
        assert(bytes@.skip(0) =~= bytes@);
        while pos < bytes.len()
            invariant
                pos <= bytes@.len(),
                subscribe_to_stream_decode(bytes@) == decode_fields(bytes@.skip(pos as int), msg@, subscribe_to_stream_applier(), subscribe_to_stream_known()),
            decreases bytes@.len() - pos,
        {
            let ghost old_msg = msg@;
            let (tag, p) = match read_tag(bytes, pos) {
                Some(x) => x,
                None => {
                    return None;
                },
            };
            proof {
                lemma_field_parts(bytes@, pos as int, subscribe_to_stream_known());
            }
            let known: bool = tag == 10 || tag == 16;
            let (value, next) = match read_value(bytes, p, tag, known) {
                Some(x) => x,
                None => {
                    return None;
                },
            };
            let ghost f = parse_field(bytes@.skip(pos as int), subscribe_to_stream_known()).unwrap().0;
            proof {
                lemma_decode_step(bytes@, pos as int, old_msg, subscribe_to_stream_applier(), subscribe_to_stream_known());
                lemma_parse_field_len(bytes@.skip(pos as int), subscribe_to_stream_known());
            }
            if tag == 10 {
                match value {
                    FieldValue::Bytes(i, j) => match copy_string(bytes, i, j) {
                        Some(s) => {
                            msg.event_stream_id = s;
                        },
                        None => {
                            return None;
                        },
                    },
                    _ => {
                        return None;
                    },
                }
            } else if tag == 16 {
                match value {
                    FieldValue::Varint(v) => {
                        msg.resolve_link_tos = varint_bool(v);
                    },
                    _ => {
                        return None;
                    },
                }
            }
            assert(subscribe_to_stream_apply(old_msg, f) == Some(msg@));
            pos = next;
        }
        assert(bytes@.skip(pos as int).len() == 0);
        Some(msg)
    }

    /// A `SubscribeToStream` with every field at its default.
    pub fn default_value() -> (m: SubscribeToStream)
        ensures
            m@ == subscribe_to_stream_default(),
    {
        let m = SubscribeToStream {
            event_stream_id: String::new(),
            resolve_link_tos: false,
        };
        m
    }

    /// A copy of this `SubscribeToStream`.
    pub fn copy(&self) -> (c: SubscribeToStream)
        ensures
            c@ == self@,
    {
        let c = SubscribeToStream {
            event_stream_id: self.event_stream_id.clone(),
            resolve_link_tos: self.resolve_link_tos,
        };
        assert(c@.event_stream_id =~= self@.event_stream_id);
        c
    }

    /// Encodes this `SubscribeToStream` as protobuf bytes.
    #[verifier::spinoff_prover]
    #[verifier::rlimit(30)]
    pub fn encode(&self) -> (out: Vec<u8>)
        ensures
            out@ == subscribe_to_stream_encode(self@),
            out@.len() < modulus32() ==> subscribe_to_stream_wf(self@),
    {
        let mut out: Vec<u8> = Vec::new();
        let ghost mut fs: Seq<WireField> = Seq::empty();
        write_bytes_field(&mut out, 10, self.event_stream_id.as_str().as_bytes());
        proof {
            let f = WireField { tag: 10, value: WireValue::Bytes(encode_utf8(self.event_stream_id@)) };
            lemma_encode_fields_push(fs, f);
            lemma_fields_shaped_push(fs, f);
            fs = fs.push(f);
        }
        write_varint_field(&mut out, 16, bool_varint(self.resolve_link_tos));
        proof {
            let f = WireField { tag: 16, value: WireValue::Varint(varint_of_bool(self.resolve_link_tos)) };
            lemma_encode_fields_push(fs, f);
            lemma_fields_shaped_push(fs, f);
            fs = fs.push(f);
        }
        assert(fs =~= subscribe_to_stream_fields(self@));
        proof {
            if out@.len() < modulus32() {
                lemma_fields_canonical_of_len(fs);
            }
        }
        out
    }

    /// The number of bytes of the encoding of this `SubscribeToStream`, computed without encoding it.
    #[verifier::spinoff_prover]
    #[verifier::rlimit(30)]
    pub fn get_size(&self) -> (n: usize)
        requires
            subscribe_to_stream_encode(self@).len() <= usize::MAX,
        ensures
            n == subscribe_to_stream_encode(self@).len(),
    {
        let ghost m = self@;
        proof {
            lemma_encode_fields_append(
                (seq![WireField { tag: 10, value: WireValue::Bytes(encode_utf8(m.event_stream_id)) }]),
                (seq![WireField { tag: 16, value: WireValue::Varint(varint_of_bool(m.resolve_link_tos)) }]),
            );
        }
        let mut n: usize = 0;
        let s1: usize = {
            proof {
                lemma_encode_fields_one(WireField { tag: 16, value: WireValue::Varint(varint_of_bool(m.resolve_link_tos)) });
            }
            sizeof_varint_field(16, bool_varint(self.resolve_link_tos))
        };
        n = s1 + n;
        let s0: usize = {
            proof {
                lemma_encode_fields_one(WireField { tag: 10, value: WireValue::Bytes(encode_utf8(m.event_stream_id)) });
            }
            sizeof_len_field(10, self.event_stream_id.as_str().as_bytes().len())
        };
        n = s0 + n;
        n
    }
}

/// Confirmation of a subscription.
#[derive(Debug, Clone, PartialEq)]
pub struct SubscriptionConfirmation {
    /// The last commit position
    pub last_commit_position: i64,
    /// The last event number
    pub last_event_number: Option<i32>,
}

/// The contents of a `SubscriptionConfirmation`.
pub struct SubscriptionConfirmationModel {
    pub last_commit_position: i64,
    pub last_event_number: Option<i32>,
}

impl View for SubscriptionConfirmation {
    type V = SubscriptionConfirmationModel;

    open spec fn view(&self) -> SubscriptionConfirmationModel {
        SubscriptionConfirmationModel {
            last_commit_position: self.last_commit_position,
            last_event_number: self.last_event_number,
        }
    }
}

/// A `SubscriptionConfirmation` with every field at its default.
pub open spec fn subscription_confirmation_default() -> SubscriptionConfirmationModel {
    SubscriptionConfirmationModel {
        last_commit_position: 0,
        last_event_number: None,
    }
}

/// Folds one field into a `SubscriptionConfirmation`; fields of unknown tags are skipped.
pub open spec fn subscription_confirmation_apply(m: SubscriptionConfirmationModel, f: WireField) -> Option<SubscriptionConfirmationModel> {
    if f.tag == 8 {
        match f.value {
            WireValue::Varint(v) => Some(SubscriptionConfirmationModel { last_commit_position: i64_of_varint(v), ..m }),
            _ => None,
        }
    } else {
        if f.tag == 16 {
            match f.value {
                WireValue::Varint(v) => Some(SubscriptionConfirmationModel { last_event_number: Some(i32_of_varint(v)), ..m }),
                _ => None,
            }
        } else {
            Some(m)
        }
    }
}

/// `subscription_confirmation_apply` as a value.
pub open spec fn subscription_confirmation_applier() -> spec_fn(SubscriptionConfirmationModel, WireField) -> Option<SubscriptionConfirmationModel> {
    |m: SubscriptionConfirmationModel, f: WireField| subscription_confirmation_apply(m, f)
}

/// The tags of the fields that a `SubscriptionConfirmation` reads; the others are skipped.
pub open spec fn subscription_confirmation_known() -> spec_fn(u32) -> bool {
    |t: u32| t == 8 || t == 16
}

/// The `SubscriptionConfirmation` that `bytes` encode, if they encode one.
pub open spec fn subscription_confirmation_decode(bytes: Seq<u8>) -> Option<SubscriptionConfirmationModel> {
    decode_fields(bytes, subscription_confirmation_default(), subscription_confirmation_applier(), subscription_confirmation_known())
}

/// The fields that encode a `SubscriptionConfirmation`, in the order they are written.
pub open spec fn subscription_confirmation_fields(m: SubscriptionConfirmationModel) -> Seq<WireField> {
    (seq![WireField { tag: 8, value: WireValue::Varint(varint_of_i64(m.last_commit_position)) }]) + ((match m.last_event_number {
        Some(x) => seq![WireField { tag: 16, value: WireValue::Varint(varint_of_i32(x)) }],
        None => Seq::<WireField>::empty(),
    }))
}

/// The encoding of a `SubscriptionConfirmation`.
pub open spec fn subscription_confirmation_encode(m: SubscriptionConfirmationModel) -> Seq<u8> {
    encode_fields(subscription_confirmation_fields(m))
}

/// A `SubscriptionConfirmation` that reads back as written: every length-delimited field, those of the
/// embedded messages included, holds fewer than 2^32 bytes.
pub open spec fn subscription_confirmation_wf(m: SubscriptionConfirmationModel) -> bool {
    fields_short(subscription_confirmation_fields(m))
}

/// The fields of a `SubscriptionConfirmation` carry the wire types of their payloads.
pub proof fn lemma_subscription_confirmation_fields_tagged(m: SubscriptionConfirmationModel)
    ensures
        fields_tagged(subscription_confirmation_fields(m)),
{
    assert(fields_tagged((match m.last_event_number {
        Some(x) => seq![WireField { tag: 16, value: WireValue::Varint(varint_of_i32(x)) }],
        None => Seq::<WireField>::empty(),
    })));
    assert(fields_tagged((seq![WireField { tag: 8, value: WireValue::Varint(varint_of_i64(m.last_commit_position)) }])));
    lemma_fields_tagged_append(
        (seq![WireField { tag: 8, value: WireValue::Varint(varint_of_i64(m.last_commit_position)) }]),
        (match m.last_event_number {
            Some(x) => seq![WireField { tag: 16, value: WireValue::Varint(varint_of_i32(x)) }],
            None => Seq::<WireField>::empty(),
        }),
    );
}

/// The bytes of an encoded `SubscriptionConfirmation`: `last_commit_position` under tag 8, `last_event_number` under tag 16, in this order; optional fields only
/// when present, repeated ones once per element.
pub proof fn lemma_subscription_confirmation_encode_layout(m: SubscriptionConfirmationModel)
    ensures
        subscription_confirmation_encode(m) == (varint_field_bytes(8, varint_of_i64(m.last_commit_position))) + (((match m.last_event_number {
            Some(x) => varint_field_bytes(16, varint_of_i32(x)),
            None => Seq::<u8>::empty(),
        }))),
{
    lemma_encode_fields_append(
        (seq![WireField { tag: 8, value: WireValue::Varint(varint_of_i64(m.last_commit_position)) }]),
        (match m.last_event_number {
            Some(x) => seq![WireField { tag: 16, value: WireValue::Varint(varint_of_i32(x)) }],
            None => Seq::<WireField>::empty(),
        }),
    );
    lemma_varint_field_layout(8, varint_of_i64(m.last_commit_position));
    if let Some(x) = m.last_event_number {
        lemma_varint_field_layout(16, varint_of_i32(x));
    }
}

/// Reading a written `SubscriptionConfirmation` gives it back.
pub proof fn lemma_subscription_confirmation_roundtrip(m: SubscriptionConfirmationModel)
    requires
        subscription_confirmation_wf(m),
    ensures
        subscription_confirmation_decode(subscription_confirmation_encode(m)) == Some(m),
{
    let ap = subscription_confirmation_applier();
    lemma_subscription_confirmation_fields_tagged(m);
    lemma_fields_canonical_of_short(subscription_confirmation_fields(m));
    lemma_decode_encoded_fields(subscription_confirmation_fields(m), subscription_confirmation_default(), ap, subscription_confirmation_known());
    let a0 = subscription_confirmation_default();
    let a1 = SubscriptionConfirmationModel { last_commit_position: m.last_commit_position, ..a0 };
    lemma_apply_fields_append(
        (seq![WireField { tag: 8, value: WireValue::Varint(varint_of_i64(m.last_commit_position)) }]),
        (match m.last_event_number {
            Some(x) => seq![WireField { tag: 16, value: WireValue::Varint(varint_of_i32(x)) }],
            None => Seq::<WireField>::empty(),
        }),
        a0,
        ap,
    );
    assert(apply_fields((seq![WireField { tag: 8, value: WireValue::Varint(varint_of_i64(m.last_commit_position)) }]), a0, ap) == Some(a1)) by {
        reveal_with_fuel(apply_fields, 2);
        lemma_scalar_roundtrips(0, m.last_commit_position, false);
    }
    let a2 = SubscriptionConfirmationModel { last_event_number: m.last_event_number, ..a1 };
    assert(apply_fields((match m.last_event_number {
        Some(x) => seq![WireField { tag: 16, value: WireValue::Varint(varint_of_i32(x)) }],
        None => Seq::<WireField>::empty(),
    }), a1, ap) == Some(a2)) by {
        reveal_with_fuel(apply_fields, 2);
        if let Some(x) = m.last_event_number {
            lemma_scalar_roundtrips(x, 0, false);
        }
    }
    assert(a2 == m);
}

impl SubscriptionConfirmation {
    /// Decodes a `SubscriptionConfirmation` from its protobuf bytes.
    pub fn from_reader(bytes: &[u8]) -> (res: Option<SubscriptionConfirmation>)
        ensures
            subscription_confirmation_decode(bytes@) matches Some(m) ==> (res matches Some(e) && e@ == m),
            subscription_confirmation_decode(bytes@) is None ==> res is None,
    {
        let mut msg = SubscriptionConfirmation::default_value();
        let mut pos: usize = 0;
        assert(bytes@.skip(0) =~= bytes@);
        while pos < bytes.len()
            invariant
                pos <= bytes@.len(),
                subscription_confirmation_decode(bytes@) == decode_fields(bytes@.skip(pos as int), msg@, subscription_confirmation_applier(), subscription_confirmation_known()),
            decreases bytes@.len() - pos,
        {
            let ghost old_msg = msg@;
            let (tag, p) = match read_tag(bytes, pos) {
                Some(x) => x,
                None => {
                    return None;
                },
            };
            proof {
                lemma_field_parts(bytes@, pos as int, subscription_confirmation_known());
            }
            let known: bool = tag == 8 || tag == 16;
            let (value, next) = match read_value(bytes, p, tag, known) {
                Some(x) => x,
                None => {
                    return None;
                },
            };
            let ghost f = parse_field(bytes@.skip(pos as int), subscription_confirmation_known()).unwrap().0;
            proof {
                lemma_decode_step(bytes@, pos as int, old_msg, subscription_confirmation_applier(), subscription_confirmation_known());
                lemma_parse_field_len(bytes@.skip(pos as int), subscription_confirmation_known());
            }
            if tag == 8 {
                match value {
                    FieldValue::Varint(v) => {
                        msg.last_commit_position = varint_i64(v);
                    },
                    _ => {
                        return None;
                    },
                }
            } else if tag == 16 {
                match value {
                    FieldValue::Varint(v) => {
                        msg.last_event_number = Some(varint_i32(v));
                    },
                    _ => {
                        return None;
                    },
                }
            }
            assert(subscription_confirmation_apply(old_msg, f) == Some(msg@));
            pos = next;
        }
        assert(bytes@.skip(pos as int).len() == 0);
        Some(msg)
    }

    /// A `SubscriptionConfirmation` with every field at its default.
    pub fn default_value() -> (m: SubscriptionConfirmation)
        ensures
            m@ == subscription_confirmation_default(),
    {
        let m = SubscriptionConfirmation {
            last_commit_position: 0,
            last_event_number: None,
        };
        m
    }

    /// A copy of this `SubscriptionConfirmation`.
    pub fn copy(&self) -> (c: SubscriptionConfirmation)
        ensures
            c@ == self@,
    {
        let c = SubscriptionConfirmation {
            last_commit_position: self.last_commit_position,
            last_event_number: self.last_event_number,
        };
        c
    }

    /// Encodes this `SubscriptionConfirmation` as protobuf bytes.
    #[verifier::spinoff_prover]
    #[verifier::rlimit(30)]
    pub fn encode(&self) -> (out: Vec<u8>)
        ensures
            out@ == subscription_confirmation_encode(self@),
            out@.len() < modulus32() ==> subscription_confirmation_wf(self@),
    {
        let mut out: Vec<u8> = Vec::new();
        let ghost mut fs: Seq<WireField> = Seq::empty();
        write_varint_field(&mut out, 8, i64_varint(self.last_commit_position));
        proof {
            let f = WireField { tag: 8, value: WireValue::Varint(varint_of_i64(self.last_commit_position)) };
            lemma_encode_fields_push(fs, f);
            lemma_fields_shaped_push(fs, f);
            fs = fs.push(f);
        }
        match self.last_event_number {
            Some(x) => {
                write_varint_field(&mut out, 16, i32_varint(x));
                proof {
                    let f = WireField { tag: 16, value: WireValue::Varint(varint_of_i32(x)) };
                    lemma_encode_fields_push(fs, f);
                    lemma_fields_shaped_push(fs, f);
                    fs = fs.push(f);
                }
            },
            None => {},
        }
        assert(fs =~= subscription_confirmation_fields(self@));
        proof {
            if out@.len() < modulus32() {
                lemma_fields_canonical_of_len(fs);
            }
        }
        out
    }

    /// The number of bytes of the encoding of this `SubscriptionConfirmation`, computed without encoding it.
    #[verifier::spinoff_prover]
    #[verifier::rlimit(30)]
    pub fn get_size(&self) -> (n: usize)
        requires
            subscription_confirmation_encode(self@).len() <= usize::MAX,
        ensures
            n == subscription_confirmation_encode(self@).len(),
    {
        let ghost m = self@;
        proof {
            lemma_encode_fields_append(
                (seq![WireField { tag: 8, value: WireValue::Varint(varint_of_i64(m.last_commit_position)) }]),
                (match m.last_event_number {
                    Some(x) => seq![WireField { tag: 16, value: WireValue::Varint(varint_of_i32(x)) }],
                    None => Seq::<WireField>::empty(),
                }),
            );
        }
        let mut n: usize = 0;
        let s1: usize = match self.last_event_number {
            Some(x) => {
                proof {
                    lemma_encode_fields_one(WireField { tag: 16, value: WireValue::Varint(varint_of_i32(x)) });
                }
                sizeof_varint_field(16, i32_varint(x))
            },
            None => 0,
        };
        n = s1 + n;
        let s0: usize = {
            proof {
                lemma_encode_fields_one(WireField { tag: 8, value: WireValue::Varint(varint_of_i64(m.last_commit_position)) });
            }
            sizeof_varint_field(8, i64_varint(self.last_commit_position))
        };
        n = s0 + n;
        n
    }
}

/// An event that appeared in a subscribed stream.
#[derive(Debug, Clone, PartialEq)]
pub struct StreamEventAppeared {
    /// The event
    pub event: ResolvedEvent,
}

/// The contents of a `StreamEventAppeared`.
pub struct StreamEventAppearedModel {
    pub event: ResolvedEventModel,
}

impl View for StreamEventAppeared {
    type V = StreamEventAppearedModel;

    open spec fn view(&self) -> StreamEventAppearedModel {
        StreamEventAppearedModel {
            event: self.event@,
        }
    }
}

/// A `StreamEventAppeared` with every field at its default.
pub open spec fn stream_event_appeared_default() -> StreamEventAppearedModel {
    StreamEventAppearedModel {
        event: resolved_event_default(),
    }
}

/// Folds one field into a `StreamEventAppeared`; fields of unknown tags are skipped.
pub open spec fn stream_event_appeared_apply(m: StreamEventAppearedModel, f: WireField) -> Option<StreamEventAppearedModel> {
    if f.tag == 10 {
        match f.value {
            WireValue::Bytes(b) => match resolved_event_decode(b) {
                Some(s) => Some(StreamEventAppearedModel { event: s, ..m }),
                None => None,
            },
            _ => None,
        }
    } else {
        Some(m)
    }
}

/// `stream_event_appeared_apply` as a value.
pub open spec fn stream_event_appeared_applier() -> spec_fn(StreamEventAppearedModel, WireField) -> Option<StreamEventAppearedModel> {
    |m: StreamEventAppearedModel, f: WireField| stream_event_appeared_apply(m, f)
}

/// The tags of the fields that a `StreamEventAppeared` reads; the others are skipped.
pub open spec fn stream_event_appeared_known() -> spec_fn(u32) -> bool {
    |t: u32| t == 10
}

/// The `StreamEventAppeared` that `bytes` encode, if they encode one.
pub open spec fn stream_event_appeared_decode(bytes: Seq<u8>) -> Option<StreamEventAppearedModel> {
    decode_fields(bytes, stream_event_appeared_default(), stream_event_appeared_applier(), stream_event_appeared_known())
}

/// The fields that encode a `StreamEventAppeared`, in the order they are written.
pub open spec fn stream_event_appeared_fields(m: StreamEventAppearedModel) -> Seq<WireField> {
    (seq![WireField { tag: 10, value: WireValue::Bytes(resolved_event_encode(m.event)) }])
}

/// The encoding of a `StreamEventAppeared`.
pub open spec fn stream_event_appeared_encode(m: StreamEventAppearedModel) -> Seq<u8> {
    encode_fields(stream_event_appeared_fields(m))
}

/// A `StreamEventAppeared` that reads back as written: every length-delimited field, those of the
/// embedded messages included, holds fewer than 2^32 bytes.
pub open spec fn stream_event_appeared_wf(m: StreamEventAppearedModel) -> bool {
    fields_short(stream_event_appeared_fields(m))
    && resolved_event_wf(m.event)
}

/// The fields of a `StreamEventAppeared` carry the wire types of their payloads.
pub proof fn lemma_stream_event_appeared_fields_tagged(m: StreamEventAppearedModel)
    ensures
        fields_tagged(stream_event_appeared_fields(m)),
{
    assert(fields_tagged((seq![WireField { tag: 10, value: WireValue::Bytes(resolved_event_encode(m.event)) }])));
}

/// The bytes of an encoded `StreamEventAppeared`: `event` under tag 10, in this order; optional fields only
/// when present, repeated ones once per element.
pub proof fn lemma_stream_event_appeared_encode_layout(m: StreamEventAppearedModel)
    ensures
        stream_event_appeared_encode(m) == (bytes_field_bytes(10, resolved_event_encode(m.event))),
{
    lemma_bytes_field_layout(10, resolved_event_encode(m.event));
}

/// Reading a written `StreamEventAppeared` gives it back.
pub proof fn lemma_stream_event_appeared_roundtrip(m: StreamEventAppearedModel)
    requires
        stream_event_appeared_wf(m),
    ensures
        stream_event_appeared_decode(stream_event_appeared_encode(m)) == Some(m),
{
    let ap = stream_event_appeared_applier();
    lemma_stream_event_appeared_fields_tagged(m);
    lemma_fields_canonical_of_short(stream_event_appeared_fields(m));
    lemma_decode_encoded_fields(stream_event_appeared_fields(m), stream_event_appeared_default(), ap, stream_event_appeared_known());
    let a0 = stream_event_appeared_default();
    let a1 = StreamEventAppearedModel { event: m.event, ..a0 };
    assert(apply_fields((seq![WireField { tag: 10, value: WireValue::Bytes(resolved_event_encode(m.event)) }]), a0, ap) == Some(a1)) by {
        reveal_with_fuel(apply_fields, 2);
        lemma_resolved_event_roundtrip(m.event);
    }
    assert(a1 == m);
}

impl StreamEventAppeared {
    /// Decodes a `StreamEventAppeared` from its protobuf bytes.
    pub fn from_reader(bytes: &[u8]) -> (res: Option<StreamEventAppeared>)
        ensures
            stream_event_appeared_decode(bytes@) matches Some(m) ==> (res matches Some(e) && e@ == m),
            stream_event_appeared_decode(bytes@) is None ==> res is None,
    {
        let mut msg = StreamEventAppeared::default_value();
        let mut pos: usize = 0;
        assert(bytes@.skip(0) =~= bytes@);
        while pos < bytes.len()
            invariant
                pos <= bytes@.len(),
                stream_event_appeared_decode(bytes@) == decode_fields(bytes@.skip(pos as int), msg@, stream_event_appeared_applier(), stream_event_appeared_known()),
            decreases bytes@.len() - pos,
        {
            let ghost old_msg = msg@;
            let (tag, p) = match read_tag(bytes, pos) {
                Some(x) => x,
                None => {
                    return None;
                },
            };
            proof {
                lemma_field_parts(bytes@, pos as int, stream_event_appeared_known());
            }
            let known: bool = tag == 10;
            let (value, next) = match read_value(bytes, p, tag, known) {
                Some(x) => x,
                None => {
                    return None;
                },
            };
            let ghost f = parse_field(bytes@.skip(pos as int), stream_event_appeared_known()).unwrap().0;
            proof {
                lemma_decode_step(bytes@, pos as int, old_msg, stream_event_appeared_applier(), stream_event_appeared_known());
                lemma_parse_field_len(bytes@.skip(pos as int), stream_event_appeared_known());
            }
            if tag == 10 {
                match value {
                    FieldValue::Bytes(i, j) => match ResolvedEvent::from_reader(slice_subrange(bytes, i, j)) {
                        Some(s) => {
                            msg.event = s;
                        },
                        None => {
                            return None;
                        },
                    },
                    _ => {
                        return None;
                    },
                }
            }
            assert(stream_event_appeared_apply(old_msg, f) == Some(msg@));
            pos = next;
        }
        assert(bytes@.skip(pos as int).len() == 0);
        Some(msg)
    }

    /// A `StreamEventAppeared` with every field at its default.
    pub fn default_value() -> (m: StreamEventAppeared)
        ensures
            m@ == stream_event_appeared_default(),
    {
        let m = StreamEventAppeared {
            event: ResolvedEvent::default_value(),
        };
        m
    }

    /// A copy of this `StreamEventAppeared`.
    pub fn copy(&self) -> (c: StreamEventAppeared)
        ensures
            c@ == self@,
    {
        let c = StreamEventAppeared {
            event: self.event.copy(),
        };
        c
    }

    /// Encodes this `StreamEventAppeared` as protobuf bytes.
    #[verifier::spinoff_prover]
    #[verifier::rlimit(30)]
    pub fn encode(&self) -> (out: Vec<u8>)
        ensures
            out@ == stream_event_appeared_encode(self@),
            out@.len() < modulus32() ==> stream_event_appeared_wf(self@),
    {
        let mut out: Vec<u8> = Vec::new();
        let ghost mut fs: Seq<WireField> = Seq::empty();
        let sub = self.event.encode();
        write_bytes_field(&mut out, 10, sub.as_slice());
        proof {
            let f = WireField { tag: 10, value: WireValue::Bytes(resolved_event_encode(self.event@)) };
            lemma_encode_fields_push(fs, f);
            lemma_fields_shaped_push(fs, f);
            fs = fs.push(f);
        }
        assert(fs =~= stream_event_appeared_fields(self@));
        proof {
            if out@.len() < modulus32() {
                lemma_fields_canonical_of_len(fs);
            }
        }
        out
    }

    /// The number of bytes of the encoding of this `StreamEventAppeared`, computed without encoding it.
    #[verifier::spinoff_prover]
    #[verifier::rlimit(30)]
    pub fn get_size(&self) -> (n: usize)
        requires
            stream_event_appeared_encode(self@).len() <= usize::MAX,
        ensures
            n == stream_event_appeared_encode(self@).len(),
    {
        let ghost m = self@;
        let mut n: usize = 0;
        let s0: usize = {
            proof {
                lemma_encode_fields_one(WireField { tag: 10, value: WireValue::Bytes(resolved_event_encode(m.event)) });
            }
            sizeof_len_field(10, self.event.get_size())
        };
        n = s0 + n;
        n
    }
}

/// Request to end a subscription.
#[derive(Debug, Clone, PartialEq)]
pub struct UnsubscribeFromStream {
}

/// The contents of a `UnsubscribeFromStream`.
pub struct UnsubscribeFromStreamModel {
}

impl View for UnsubscribeFromStream {
    type V = UnsubscribeFromStreamModel;

    open spec fn view(&self) -> UnsubscribeFromStreamModel {
        UnsubscribeFromStreamModel {
        }
    }
}

/// A `UnsubscribeFromStream` with every field at its default.
pub open spec fn unsubscribe_from_stream_default() -> UnsubscribeFromStreamModel {
    UnsubscribeFromStreamModel {
    }
}

/// Folds one field into a `UnsubscribeFromStream`; fields of unknown tags are skipped.
pub open spec fn unsubscribe_from_stream_apply(m: UnsubscribeFromStreamModel, f: WireField) -> Option<UnsubscribeFromStreamModel> {
    Some(m)
}

/// `unsubscribe_from_stream_apply` as a value.
pub open spec fn unsubscribe_from_stream_applier() -> spec_fn(UnsubscribeFromStreamModel, WireField) -> Option<UnsubscribeFromStreamModel> {
    |m: UnsubscribeFromStreamModel, f: WireField| unsubscribe_from_stream_apply(m, f)
}

/// The tags of the fields that a `UnsubscribeFromStream` reads; the others are skipped.
pub open spec fn unsubscribe_from_stream_known() -> spec_fn(u32) -> bool {
    |t: u32| false
}

/// The `UnsubscribeFromStream` that `bytes` encode, if they encode one.
pub open spec fn unsubscribe_from_stream_decode(bytes: Seq<u8>) -> Option<UnsubscribeFromStreamModel> {
    decode_fields(bytes, unsubscribe_from_stream_default(), unsubscribe_from_stream_applier(), unsubscribe_from_stream_known())
}

/// The fields that encode a `UnsubscribeFromStream`, in the order they are written.
pub open spec fn unsubscribe_from_stream_fields(m: UnsubscribeFromStreamModel) -> Seq<WireField> {
    Seq::<WireField>::empty()
}

/// The encoding of a `UnsubscribeFromStream`.
pub open spec fn unsubscribe_from_stream_encode(m: UnsubscribeFromStreamModel) -> Seq<u8> {
    encode_fields(unsubscribe_from_stream_fields(m))
}

/// A `UnsubscribeFromStream` that reads back as written: every length-delimited field, those of the
/// embedded messages included, holds fewer than 2^32 bytes.
pub open spec fn unsubscribe_from_stream_wf(m: UnsubscribeFromStreamModel) -> bool {
    fields_short(unsubscribe_from_stream_fields(m))
}

/// The fields of a `UnsubscribeFromStream` carry the wire types of their payloads.
pub proof fn lemma_unsubscribe_from_stream_fields_tagged(m: UnsubscribeFromStreamModel)
    ensures
        fields_tagged(unsubscribe_from_stream_fields(m)),
{
}

/// The bytes of an encoded `UnsubscribeFromStream`: nothing, in this order; optional fields only
/// when present, repeated ones once per element.
pub proof fn lemma_unsubscribe_from_stream_encode_layout(m: UnsubscribeFromStreamModel)
    ensures
        unsubscribe_from_stream_encode(m) == Seq::<u8>::empty(),
{
}

/// Reading a written `UnsubscribeFromStream` gives it back.
pub proof fn lemma_unsubscribe_from_stream_roundtrip(m: UnsubscribeFromStreamModel)
    requires
        unsubscribe_from_stream_wf(m),
    ensures
        unsubscribe_from_stream_decode(unsubscribe_from_stream_encode(m)) == Some(m),
{
    let ap = unsubscribe_from_stream_applier();
    lemma_unsubscribe_from_stream_fields_tagged(m);
    lemma_fields_canonical_of_short(unsubscribe_from_stream_fields(m));
    lemma_decode_encoded_fields(unsubscribe_from_stream_fields(m), unsubscribe_from_stream_default(), ap, unsubscribe_from_stream_known());
    let a0 = unsubscribe_from_stream_default();
    assert(a0 == m);
}

impl UnsubscribeFromStream {
    /// Decodes a `UnsubscribeFromStream` from its protobuf bytes.
    pub fn from_reader(bytes: &[u8]) -> (res: Option<UnsubscribeFromStream>)
        ensures
            unsubscribe_from_stream_decode(bytes@) matches Some(m) ==> (res matches Some(e) && e@ == m),
            unsubscribe_from_stream_decode(bytes@) is None ==> res is None,
    {
        let mut msg = UnsubscribeFromStream::default_value();
        let mut pos: usize = 0;
        assert(bytes@.skip(0) =~= bytes@);
        while pos < bytes.len()
            invariant
                pos <= bytes@.len(),
                unsubscribe_from_stream_decode(bytes@) == decode_fields(bytes@.skip(pos as int), msg@, unsubscribe_from_stream_applier(), unsubscribe_from_stream_known()),
            decreases bytes@.len() - pos,
        {
            let ghost old_msg = msg@;
            let (tag, p) = match read_tag(bytes, pos) {
                Some(x) => x,
                None => {
                    return None;
                },
            };
            proof {
                lemma_field_parts(bytes@, pos as int, unsubscribe_from_stream_known());
            }
            let known: bool = false;
            let (value, next) = match read_value(bytes, p, tag, known) {
                Some(x) => x,
                None => {
                    return None;
                },
            };
            let ghost f = parse_field(bytes@.skip(pos as int), unsubscribe_from_stream_known()).unwrap().0;
            proof {
                lemma_decode_step(bytes@, pos as int, old_msg, unsubscribe_from_stream_applier(), unsubscribe_from_stream_known());
                lemma_parse_field_len(bytes@.skip(pos as int), unsubscribe_from_stream_known());
            }
            assert(unsubscribe_from_stream_apply(old_msg, f) == Some(msg@));
            pos = next;
        }
        assert(bytes@.skip(pos as int).len() == 0);
        Some(msg)
    }

    /// A `UnsubscribeFromStream` with every field at its default.
    pub fn default_value() -> (m: UnsubscribeFromStream)
        ensures
            m@ == unsubscribe_from_stream_default(),
    {
        let m = UnsubscribeFromStream {
        };
        m
    }

    /// A copy of this `UnsubscribeFromStream`.
    pub fn copy(&self) -> (c: UnsubscribeFromStream)
        ensures
            c@ == self@,
    {
        let c = UnsubscribeFromStream {
        };
        c
    }

    /// Encodes this `UnsubscribeFromStream` as protobuf bytes.
    #[verifier::spinoff_prover]
    #[verifier::rlimit(30)]
    pub fn encode(&self) -> (out: Vec<u8>)
        ensures
            out@ == unsubscribe_from_stream_encode(self@),
            out@.len() < modulus32() ==> unsubscribe_from_stream_wf(self@),
    {
        let mut out: Vec<u8> = Vec::new();
        let ghost mut fs: Seq<WireField> = Seq::empty();
        assert(fs =~= unsubscribe_from_stream_fields(self@));
        proof {
            if out@.len() < modulus32() {
                lemma_fields_canonical_of_len(fs);
            }
        }
        out
    }

    /// The number of bytes of the encoding of this `UnsubscribeFromStream`, computed without encoding it.
    #[verifier::spinoff_prover]
    #[verifier::rlimit(30)]
    pub fn get_size(&self) -> (n: usize)
        requires
            unsubscribe_from_stream_encode(self@).len() <= usize::MAX,
        ensures
            n == unsubscribe_from_stream_encode(self@).len(),
    {
        let ghost m = self@;
        let mut n: usize = 0;
        n
    }
}

/// Notice that a subscription was dropped.
#[derive(Debug, Clone, PartialEq)]
pub struct SubscriptionDropped {
    /// Why it was dropped
    pub reason: SubscriptionDropReason,
}

/// The contents of a `SubscriptionDropped`.
pub struct SubscriptionDroppedModel {
    pub reason: SubscriptionDropReason,
}

impl View for SubscriptionDropped {
    type V = SubscriptionDroppedModel;

    open spec fn view(&self) -> SubscriptionDroppedModel {
        SubscriptionDroppedModel {
            reason: self.reason,
        }
    }
}

/// A `SubscriptionDropped` with every field at its default.
pub open spec fn subscription_dropped_default() -> SubscriptionDroppedModel {
    SubscriptionDroppedModel {
        reason: SubscriptionDropReason::Unsubscribed,
    }
}

/// Folds one field into a `SubscriptionDropped`; fields of unknown tags are skipped.
pub open spec fn subscription_dropped_apply(m: SubscriptionDroppedModel, f: WireField) -> Option<SubscriptionDroppedModel> {
    if f.tag == 8 {
        match f.value {
            WireValue::Varint(v) => Some(SubscriptionDroppedModel { reason: SubscriptionDropReason::from_i32_spec(i32_of_varint(v)), ..m }),
            _ => None,
        }
    } else {
        Some(m)
    }
}

/// `subscription_dropped_apply` as a value.
pub open spec fn subscription_dropped_applier() -> spec_fn(SubscriptionDroppedModel, WireField) -> Option<SubscriptionDroppedModel> {
    |m: SubscriptionDroppedModel, f: WireField| subscription_dropped_apply(m, f)
}

/// The tags of the fields that a `SubscriptionDropped` reads; the others are skipped.
pub open spec fn subscription_dropped_known() -> spec_fn(u32) -> bool {
    |t: u32| t == 8
}

/// The `SubscriptionDropped` that `bytes` encode, if they encode one.
pub open spec fn subscription_dropped_decode(bytes: Seq<u8>) -> Option<SubscriptionDroppedModel> {
    decode_fields(bytes, subscription_dropped_default(), subscription_dropped_applier(), subscription_dropped_known())
}

/// The fields that encode a `SubscriptionDropped`, in the order they are written.
pub open spec fn subscription_dropped_fields(m: SubscriptionDroppedModel) -> Seq<WireField> {
    (if m.reason != SubscriptionDropReason::Unsubscribed {
        seq![WireField { tag: 8, value: WireValue::Varint(varint_of_i32(m.reason.to_i32_spec())) }]
    } else {
        Seq::<WireField>::empty()
    })
}

/// The encoding of a `SubscriptionDropped`.
pub open spec fn subscription_dropped_encode(m: SubscriptionDroppedModel) -> Seq<u8> {
    encode_fields(subscription_dropped_fields(m))
}

/// A `SubscriptionDropped` that reads back as written: every length-delimited field, those of the
/// embedded messages included, holds fewer than 2^32 bytes.
pub open spec fn subscription_dropped_wf(m: SubscriptionDroppedModel) -> bool {
    fields_short(subscription_dropped_fields(m))
}

/// The fields of a `SubscriptionDropped` carry the wire types of their payloads.
pub proof fn lemma_subscription_dropped_fields_tagged(m: SubscriptionDroppedModel)
    ensures
        fields_tagged(subscription_dropped_fields(m)),
{
    assert(fields_tagged((if m.reason != SubscriptionDropReason::Unsubscribed {
        seq![WireField { tag: 8, value: WireValue::Varint(varint_of_i32(m.reason.to_i32_spec())) }]
    } else {
        Seq::<WireField>::empty()
    })));
}

/// The bytes of an encoded `SubscriptionDropped`: `reason` under tag 8, in this order; optional fields only
/// when present, repeated ones once per element.
pub proof fn lemma_subscription_dropped_encode_layout(m: SubscriptionDroppedModel)
    ensures
        subscription_dropped_encode(m) == ((if m.reason != SubscriptionDropReason::Unsubscribed {
            varint_field_bytes(8, varint_of_i32(m.reason.to_i32_spec()))
        } else {
            Seq::<u8>::empty()
        })),
{
    if m.reason != SubscriptionDropReason::Unsubscribed {
        lemma_varint_field_layout(8, varint_of_i32(m.reason.to_i32_spec()));
    }
}

/// Reading a written `SubscriptionDropped` gives it back.
pub proof fn lemma_subscription_dropped_roundtrip(m: SubscriptionDroppedModel)
    requires
        subscription_dropped_wf(m),
    ensures
        subscription_dropped_decode(subscription_dropped_encode(m)) == Some(m),
{
    let ap = subscription_dropped_applier();
    lemma_subscription_dropped_fields_tagged(m);
    lemma_fields_canonical_of_short(subscription_dropped_fields(m));
    lemma_decode_encoded_fields(subscription_dropped_fields(m), subscription_dropped_default(), ap, subscription_dropped_known());
    let a0 = subscription_dropped_default();
    let a1 = SubscriptionDroppedModel { reason: m.reason, ..a0 };
    assert(apply_fields((if m.reason != SubscriptionDropReason::Unsubscribed {
        seq![WireField { tag: 8, value: WireValue::Varint(varint_of_i32(m.reason.to_i32_spec())) }]
    } else {
        Seq::<WireField>::empty()
    }), a0, ap) == Some(a1)) by {
        reveal_with_fuel(apply_fields, 2);
        lemma_scalar_roundtrips(m.reason.to_i32_spec(), 0, false);
        m.reason.lemma_i32_roundtrip();
    }
    assert(a1 == m);
}

impl SubscriptionDropped {
    /// Decodes a `SubscriptionDropped` from its protobuf bytes.
    pub fn from_reader(bytes: &[u8]) -> (res: Option<SubscriptionDropped>)
        ensures
            subscription_dropped_decode(bytes@) matches Some(m) ==> (res matches Some(e) && e@ == m),
            subscription_dropped_decode(bytes@) is None ==> res is None,
    {
        let mut msg = SubscriptionDropped::default_value();
        let mut pos: usize = 0;
        assert(bytes@.skip(0) =~= bytes@);
        while pos < bytes.len()
            invariant
                pos <= bytes@.len(),
                subscription_dropped_decode(bytes@) == decode_fields(bytes@.skip(pos as int), msg@, subscription_dropped_applier(), subscription_dropped_known()),
            decreases bytes@.len() - pos,
        {
            let ghost old_msg = msg@;
            let (tag, p) = match read_tag(bytes, pos) {
                Some(x) => x,
                None => {
                    return None;
                },
            };
            proof {
                lemma_field_parts(bytes@, pos as int, subscription_dropped_known());
            }
            let known: bool = tag == 8;
            let (value, next) = match read_value(bytes, p, tag, known) {
                Some(x) => x,
                None => {
                    return None;
                },
            };
            let ghost f = parse_field(bytes@.skip(pos as int), subscription_dropped_known()).unwrap().0;
            proof {
                lemma_decode_step(bytes@, pos as int, old_msg, subscription_dropped_applier(), subscription_dropped_known());
                lemma_parse_field_len(bytes@.skip(pos as int), subscription_dropped_known());
            }
            if tag == 8 {
                match value {
                    FieldValue::Varint(v) => {
                        msg.reason = SubscriptionDropReason::from_i32(varint_i32(v));
                    },
                    _ => {
                        return None;
                    },
                }
            }
            assert(subscription_dropped_apply(old_msg, f) == Some(msg@));
            pos = next;
        }
        assert(bytes@.skip(pos as int).len() == 0);
        Some(msg)
    }

    /// A `SubscriptionDropped` with every field at its default.
    pub fn default_value() -> (m: SubscriptionDropped)
        ensures
            m@ == subscription_dropped_default(),
    {
        let m = SubscriptionDropped {
            reason: SubscriptionDropReason::Unsubscribed,
        };
        m
    }

    /// A copy of this `SubscriptionDropped`.
    pub fn copy(&self) -> (c: SubscriptionDropped)
        ensures
            c@ == self@,
    {
        let c = SubscriptionDropped {
            reason: self.reason,
        };
        c
    }

    /// Encodes this `SubscriptionDropped` as protobuf bytes.
    #[verifier::spinoff_prover]
    #[verifier::rlimit(30)]
    pub fn encode(&self) -> (out: Vec<u8>)
        ensures
            out@ == subscription_dropped_encode(self@),
            out@.len() < modulus32() ==> subscription_dropped_wf(self@),
    {
        let mut out: Vec<u8> = Vec::new();
        let ghost mut fs: Seq<WireField> = Seq::empty();
        if self.reason != SubscriptionDropReason::Unsubscribed {
            write_varint_field(&mut out, 8, i32_varint(self.reason.to_i32()));
            proof {
                let f = WireField { tag: 8, value: WireValue::Varint(varint_of_i32(self.reason.to_i32_spec())) };
                lemma_encode_fields_push(fs, f);
                lemma_fields_shaped_push(fs, f);
                fs = fs.push(f);
            }
        }
        assert(fs =~= subscription_dropped_fields(self@));
        proof {
            if out@.len() < modulus32() {
                lemma_fields_canonical_of_len(fs);
            }
        }
        out
    }

    /// The number of bytes of the encoding of this `SubscriptionDropped`, computed without encoding it.
    #[verifier::spinoff_prover]
    #[verifier::rlimit(30)]
    pub fn get_size(&self) -> (n: usize)
        requires
            subscription_dropped_encode(self@).len() <= usize::MAX,
        ensures
            n == subscription_dropped_encode(self@).len(),
    {
        let ghost m = self@;
        let mut n: usize = 0;
        let s0: usize = if self.reason != SubscriptionDropReason::Unsubscribed {
            proof {
                lemma_encode_fields_one(WireField { tag: 8, value: WireValue::Varint(varint_of_i32(self.reason.to_i32_spec())) });
            }
            sizeof_varint_field(8, i32_varint(self.reason.to_i32()))
        } else {
            0
        };
        n = s0 + n;
        n
    }
}

} // verus!
