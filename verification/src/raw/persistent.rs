//! Protobuf messages of persistent subscriptions.
use vstd::prelude::*;
use vstd::utf8::encode_utf8;
use vstd::slice::{slice_subrange, slice_to_vec};
use crate::wire::{
    WireField, WireValue, FieldValue, string_of, i32_of_varint, i64_of_varint, bool_of_varint,
    varint_of_i32, varint_of_i64, varint_of_bool, decode_fields, encode_fields, fields_shaped,
    apply_fields, lemma_decode_encoded_fields, lemma_apply_fields_append, lemma_string_roundtrip,
    lemma_scalar_roundtrips, parse_field, read_tag, read_value, lemma_field_parts,
    lemma_decode_step, lemma_parse_field_len, copy_bytes, copy_string, varint_i32, varint_i64,
    varint_bool, i32_varint, i64_varint, bool_varint, write_bytes_field, write_varint_field,
    lemma_encode_fields_push, lemma_fields_shaped_push, lemma_fields_canonical_of_len, modulus32,
    lemma_encode_fields_append, lemma_encode_fields_one, lemma_encode_fields_take_len,
    sizeof_varint_field, sizeof_len_field, fields_short, fields_tagged, lemma_fields_tagged_append,
    lemma_fields_canonical_of_short, varint_field_bytes, bytes_field_bytes, repeated_field_bytes,
    lemma_varint_field_layout, lemma_bytes_field_layout, lemma_repeated_field_layout,
};
use crate::raw::events::{
    ResolvedIndexedEvent, ResolvedIndexedEventModel, resolved_indexed_event_decode,
    resolved_indexed_event_encode, resolved_indexed_event_wf,
    lemma_resolved_indexed_event_roundtrip, resolved_indexed_event_default, opt_string_view,
};

verus! {

/// Result of an update of a persistent subscription.
#[derive(Debug, Clone, Copy, PartialEq, Eq, Structural)]
pub enum UpdatePersistentSubscriptionResult {
    /// The subscription was updated
    Success,
    /// No such subscription
    DoesNotExist,
    /// The update failed
    Fail,
    /// Access was denied
    AccessDenied,
}

impl UpdatePersistentSubscriptionResult {
    /// The variant that the wire number `i` stands for; unknown numbers give `Success`.
    pub open spec fn from_i32_spec(i: i32) -> UpdatePersistentSubscriptionResult {
        if i == 1 {
            UpdatePersistentSubscriptionResult::DoesNotExist
        } else {
            if i == 2 {
                UpdatePersistentSubscriptionResult::Fail
            } else {
                if i == 3 {
                    UpdatePersistentSubscriptionResult::AccessDenied
                } else {
                    UpdatePersistentSubscriptionResult::Success
                }
            }
        }
    }

    /// The wire number of the variant.
    pub open spec fn to_i32_spec(self) -> i32 {
        match self {
            UpdatePersistentSubscriptionResult::Success => 0,
            UpdatePersistentSubscriptionResult::DoesNotExist => 1,
            UpdatePersistentSubscriptionResult::Fail => 2,
            UpdatePersistentSubscriptionResult::AccessDenied => 3,
        }
    }

    /// The variant that the wire number `i` stands for; unknown numbers give `Success`.
    pub fn from_i32(i: i32) -> (r: UpdatePersistentSubscriptionResult)
        ensures
            r == UpdatePersistentSubscriptionResult::from_i32_spec(i),
    {
        if i == 1 {
            UpdatePersistentSubscriptionResult::DoesNotExist
        } else {
            if i == 2 {
                UpdatePersistentSubscriptionResult::Fail
            } else {
                if i == 3 {
                    UpdatePersistentSubscriptionResult::AccessDenied
                } else {
                    UpdatePersistentSubscriptionResult::Success
                }
            }
        }
    }

    /// The wire number of the variant.
    pub fn to_i32(self) -> (i: i32)
        ensures
            i == self.to_i32_spec(),
    {
        match self {
            UpdatePersistentSubscriptionResult::Success => 0,
            UpdatePersistentSubscriptionResult::DoesNotExist => 1,
            UpdatePersistentSubscriptionResult::Fail => 2,
            UpdatePersistentSubscriptionResult::AccessDenied => 3,
        }
    }

    /// The wire numbers that the protocol gives the variants: each variant is written as its
    /// own number, and read from that number alone; any other number reads as `Success`.
    pub proof fn lemma_wire_numbers(i: i32)
        ensures
            UpdatePersistentSubscriptionResult::Success.to_i32_spec() == 0,
            UpdatePersistentSubscriptionResult::DoesNotExist.to_i32_spec() == 1,
            UpdatePersistentSubscriptionResult::Fail.to_i32_spec() == 2,
            UpdatePersistentSubscriptionResult::AccessDenied.to_i32_spec() == 3,
            (UpdatePersistentSubscriptionResult::from_i32_spec(i) == UpdatePersistentSubscriptionResult::DoesNotExist) <==> i == 1,
            (UpdatePersistentSubscriptionResult::from_i32_spec(i) == UpdatePersistentSubscriptionResult::Fail) <==> i == 2,
            (UpdatePersistentSubscriptionResult::from_i32_spec(i) == UpdatePersistentSubscriptionResult::AccessDenied) <==> i == 3,
            (UpdatePersistentSubscriptionResult::from_i32_spec(i) == UpdatePersistentSubscriptionResult::Success) <==> (i != 1 && i != 2 && i != 3),
    {
    }

    /// Reading the wire number of a variant gives the variant back.
    pub proof fn lemma_i32_roundtrip(self)
        ensures
            UpdatePersistentSubscriptionResult::from_i32_spec(self.to_i32_spec()) == self,
    {
    }
}

/// Result of the creation of a persistent subscription.
#[derive(Debug, Clone, Copy, PartialEq, Eq, Structural)]
pub enum CreatePersistentSubscriptionResult {
    /// The subscription was created
    Success,
    /// The subscription exists already
    AlreadyExists,
    /// The creation failed
    Fail,
    /// Access was denied
    AccessDenied,
}

impl CreatePersistentSubscriptionResult {
    /// The variant that the wire number `i` stands for; unknown numbers give `Success`.
    pub open spec fn from_i32_spec(i: i32) -> CreatePersistentSubscriptionResult {
        if i == 1 {
            CreatePersistentSubscriptionResult::AlreadyExists
        } else {
            if i == 2 {
                CreatePersistentSubscriptionResult::Fail
            } else {
                if i == 3 {
                    CreatePersistentSubscriptionResult::AccessDenied
                } else {
                    CreatePersistentSubscriptionResult::Success
                }
            }
        }
    }

    /// The wire number of the variant.
    pub open spec fn to_i32_spec(self) -> i32 {
        match self {
            CreatePersistentSubscriptionResult::Success => 0,
            CreatePersistentSubscriptionResult::AlreadyExists => 1,
            CreatePersistentSubscriptionResult::Fail => 2,
            CreatePersistentSubscriptionResult::AccessDenied => 3,
        }
    }

    /// The variant that the wire number `i` stands for; unknown numbers give `Success`.
    pub fn from_i32(i: i32) -> (r: CreatePersistentSubscriptionResult)
        ensures
            r == CreatePersistentSubscriptionResult::from_i32_spec(i),
    {
        if i == 1 {
            CreatePersistentSubscriptionResult::AlreadyExists
        } else {
            if i == 2 {
                CreatePersistentSubscriptionResult::Fail
            } else {
                if i == 3 {
                    CreatePersistentSubscriptionResult::AccessDenied
                } else {
                    CreatePersistentSubscriptionResult::Success
                }
            }
        }
    }

    /// The wire number of the variant.
    pub fn to_i32(self) -> (i: i32)
        ensures
            i == self.to_i32_spec(),
    {
        match self {
            CreatePersistentSubscriptionResult::Success => 0,
            CreatePersistentSubscriptionResult::AlreadyExists => 1,
            CreatePersistentSubscriptionResult::Fail => 2,
            CreatePersistentSubscriptionResult::AccessDenied => 3,
        }
    }

    /// The wire numbers that the protocol gives the variants: each variant is written as its
    /// own number, and read from that number alone; any other number reads as `Success`.
    pub proof fn lemma_wire_numbers(i: i32)
        ensures
            CreatePersistentSubscriptionResult::Success.to_i32_spec() == 0,
            CreatePersistentSubscriptionResult::AlreadyExists.to_i32_spec() == 1,
            CreatePersistentSubscriptionResult::Fail.to_i32_spec() == 2,
            CreatePersistentSubscriptionResult::AccessDenied.to_i32_spec() == 3,
            (CreatePersistentSubscriptionResult::from_i32_spec(i) == CreatePersistentSubscriptionResult::AlreadyExists) <==> i == 1,
            (CreatePersistentSubscriptionResult::from_i32_spec(i) == CreatePersistentSubscriptionResult::Fail) <==> i == 2,
            (CreatePersistentSubscriptionResult::from_i32_spec(i) == CreatePersistentSubscriptionResult::AccessDenied) <==> i == 3,
            (CreatePersistentSubscriptionResult::from_i32_spec(i) == CreatePersistentSubscriptionResult::Success) <==> (i != 1 && i != 2 && i != 3),
    {
    }

    /// Reading the wire number of a variant gives the variant back.
    pub proof fn lemma_i32_roundtrip(self)
        ensures
            CreatePersistentSubscriptionResult::from_i32_spec(self.to_i32_spec()) == self,
    {
    }
}

/// Result of the deletion of a persistent subscription.
#[derive(Debug, Clone, Copy, PartialEq, Eq, Structural)]
pub enum DeletePersistentSubscriptionResult {
    /// The subscription was deleted
    Success,
    /// No such subscription
    DoesNotExist,
    /// The deletion failed
    Fail,
    /// Access was denied
    AccessDenied,
}

impl DeletePersistentSubscriptionResult {
    /// The variant that the wire number `i` stands for; unknown numbers give `Success`.
    pub open spec fn from_i32_spec(i: i32) -> DeletePersistentSubscriptionResult {
        if i == 1 {
            DeletePersistentSubscriptionResult::DoesNotExist
        } else {
            if i == 2 {
                DeletePersistentSubscriptionResult::Fail
            } else {
                if i == 3 {
                    DeletePersistentSubscriptionResult::AccessDenied
                } else {
                    DeletePersistentSubscriptionResult::Success
                }
            }
        }
    }

    /// The wire number of the variant.
    pub open spec fn to_i32_spec(self) -> i32 {
        match self {
            DeletePersistentSubscriptionResult::Success => 0,
            DeletePersistentSubscriptionResult::DoesNotExist => 1,
            DeletePersistentSubscriptionResult::Fail => 2,
            DeletePersistentSubscriptionResult::AccessDenied => 3,
        }
    }

    /// The variant that the wire number `i` stands for; unknown numbers give `Success`.
    pub fn from_i32(i: i32) -> (r: DeletePersistentSubscriptionResult)
        ensures
            r == DeletePersistentSubscriptionResult::from_i32_spec(i),
    {
        if i == 1 {
            DeletePersistentSubscriptionResult::DoesNotExist
        } else {
            if i == 2 {
                DeletePersistentSubscriptionResult::Fail
            } else {
                if i == 3 {
                    DeletePersistentSubscriptionResult::AccessDenied
                } else {
                    DeletePersistentSubscriptionResult::Success
                }
            }
        }
    }

    /// The wire number of the variant.
    pub fn to_i32(self) -> (i: i32)
        ensures
            i == self.to_i32_spec(),
    {
        match self {
            DeletePersistentSubscriptionResult::Success => 0,
            DeletePersistentSubscriptionResult::DoesNotExist => 1,
            DeletePersistentSubscriptionResult::Fail => 2,
            DeletePersistentSubscriptionResult::AccessDenied => 3,
        }
    }

    /// The wire numbers that the protocol gives the variants: each variant is written as its
    /// own number, and read from that number alone; any other number reads as `Success`.
    pub proof fn lemma_wire_numbers(i: i32)
        ensures
            DeletePersistentSubscriptionResult::Success.to_i32_spec() == 0,
            DeletePersistentSubscriptionResult::DoesNotExist.to_i32_spec() == 1,
            DeletePersistentSubscriptionResult::Fail.to_i32_spec() == 2,
            DeletePersistentSubscriptionResult::AccessDenied.to_i32_spec() == 3,
            (DeletePersistentSubscriptionResult::from_i32_spec(i) == DeletePersistentSubscriptionResult::DoesNotExist) <==> i == 1,
            (DeletePersistentSubscriptionResult::from_i32_spec(i) == DeletePersistentSubscriptionResult::Fail) <==> i == 2,
            (DeletePersistentSubscriptionResult::from_i32_spec(i) == DeletePersistentSubscriptionResult::AccessDenied) <==> i == 3,
            (DeletePersistentSubscriptionResult::from_i32_spec(i) == DeletePersistentSubscriptionResult::Success) <==> (i != 1 && i != 2 && i != 3),
    {
    }

    /// Reading the wire number of a variant gives the variant back.
    pub proof fn lemma_i32_roundtrip(self)
        ensures
            DeletePersistentSubscriptionResult::from_i32_spec(self.to_i32_spec()) == self,
    {
    }
}

/// What to do with events that were not acknowledged.
#[derive(Debug, Clone, Copy, PartialEq, Eq, Structural)]
pub enum NakAction {
    /// No action given
    Unknown,
    /// Park the events
    Park,
    /// Retry the events
    Retry,
    /// Skip the events
    Skip,
    /// Stop the subscription
    Stop,
}

impl NakAction {
    /// The variant that the wire number `i` stands for; unknown numbers give `Unknown`.
    pub open spec fn from_i32_spec(i: i32) -> NakAction {
        if i == 1 {
            NakAction::Park
        } else {
            if i == 2 {
                NakAction::Retry
            } else {
                if i == 3 {
                    NakAction::Skip
                } else {
                    if i == 4 {
                        NakAction::Stop
                    } else {
                        NakAction::Unknown
                    }
                }
            }
        }
    }

    /// The wire number of the variant.
    pub open spec fn to_i32_spec(self) -> i32 {
        match self {
            NakAction::Unknown => 0,
            NakAction::Park => 1,
            NakAction::Retry => 2,
            NakAction::Skip => 3,
            NakAction::Stop => 4,
        }
    }

    /// The variant that the wire number `i` stands for; unknown numbers give `Unknown`.
    pub fn from_i32(i: i32) -> (r: NakAction)
        ensures
            r == NakAction::from_i32_spec(i),
    {
        if i == 1 {
            NakAction::Park
        } else {
            if i == 2 {
                NakAction::Retry
            } else {
                if i == 3 {
                    NakAction::Skip
                } else {
                    if i == 4 {
                        NakAction::Stop
                    } else {
                        NakAction::Unknown
                    }
                }
            }
        }
    }

    /// The wire number of the variant.
    pub fn to_i32(self) -> (i: i32)
        ensures
            i == self.to_i32_spec(),
    {
        match self {
            NakAction::Unknown => 0,
            NakAction::Park => 1,
            NakAction::Retry => 2,
            NakAction::Skip => 3,
            NakAction::Stop => 4,
        }
    }

    /// The wire numbers that the protocol gives the variants: each variant is written as its
    /// own number, and read from that number alone; any other number reads as `Unknown`.
    pub proof fn lemma_wire_numbers(i: i32)
        ensures
            NakAction::Unknown.to_i32_spec() == 0,
            NakAction::Park.to_i32_spec() == 1,
            NakAction::Retry.to_i32_spec() == 2,
            NakAction::Skip.to_i32_spec() == 3,
            NakAction::Stop.to_i32_spec() == 4,
            (NakAction::from_i32_spec(i) == NakAction::Park) <==> i == 1,
            (NakAction::from_i32_spec(i) == NakAction::Retry) <==> i == 2,
            (NakAction::from_i32_spec(i) == NakAction::Skip) <==> i == 3,
            (NakAction::from_i32_spec(i) == NakAction::Stop) <==> i == 4,
            (NakAction::from_i32_spec(i) == NakAction::Unknown) <==> (i != 1 && i != 2 && i != 3 && i != 4),
    {
    }

    /// Reading the wire number of a variant gives the variant back.
    pub proof fn lemma_i32_roundtrip(self)
        ensures
            NakAction::from_i32_spec(self.to_i32_spec()) == self,
    {
    }
}

/// Request to create a persistent subscription.
#[derive(Debug, Clone, PartialEq)]
pub struct CreatePersistentSubscription {
    /// The group of the subscription
    pub subscription_group_name: String,
    /// The stream subscribed to
    pub event_stream_id: String,
    /// Whether to follow link events
    pub resolve_link_tos: bool,
    /// The event number to start from
    pub start_from: i32,
    /// How long a message may go unacknowledged
    pub message_timeout_milliseconds: i32,
    /// Whether to record statistics
    pub record_statistics: bool,
    /// The size of the live buffer
    pub live_buffer_size: i32,
    /// The number of events read at a time
    pub read_batch_size: i32,
    /// The size of the buffer
    pub buffer_size: i32,
    /// How often a message is retried
    pub max_retry_count: i32,
    /// Whether to hand out events round robin
    pub prefer_round_robin: bool,
    /// The time after which to checkpoint
    pub checkpoint_after_time: i32,
    /// The most events between checkpoints
    pub checkpoint_max_count: i32,
    /// The fewest events between checkpoints
    pub checkpoint_min_count: i32,
    /// The most subscribers
    pub subscriber_max_count: i32,
    /// The strategy of handing out events
    pub named_consumer_strategy: Option<String>,
}

/// The contents of a `CreatePersistentSubscription`.
pub struct CreatePersistentSubscriptionModel {
    pub subscription_group_name: Seq<char>,
    pub event_stream_id: Seq<char>,
    pub resolve_link_tos: bool,
    pub start_from: i32,
    pub message_timeout_milliseconds: i32,
    pub record_statistics: bool,
    pub live_buffer_size: i32,
    pub read_batch_size: i32,
    pub buffer_size: i32,
    pub max_retry_count: i32,
    pub prefer_round_robin: bool,
    pub checkpoint_after_time: i32,
    pub checkpoint_max_count: i32,
    pub checkpoint_min_count: i32,
    pub subscriber_max_count: i32,
    pub named_consumer_strategy: Option<Seq<char>>,
}

impl View for CreatePersistentSubscription {
    type V = CreatePersistentSubscriptionModel;

    open spec fn view(&self) -> CreatePersistentSubscriptionModel {
        CreatePersistentSubscriptionModel {
            subscription_group_name: self.subscription_group_name@,
            event_stream_id: self.event_stream_id@,
            resolve_link_tos: self.resolve_link_tos,
            start_from: self.start_from,
            message_timeout_milliseconds: self.message_timeout_milliseconds,
            record_statistics: self.record_statistics,
            live_buffer_size: self.live_buffer_size,
            read_batch_size: self.read_batch_size,
            buffer_size: self.buffer_size,
            max_retry_count: self.max_retry_count,
            prefer_round_robin: self.prefer_round_robin,
            checkpoint_after_time: self.checkpoint_after_time,
            checkpoint_max_count: self.checkpoint_max_count,
            checkpoint_min_count: self.checkpoint_min_count,
            subscriber_max_count: self.subscriber_max_count,
            named_consumer_strategy: opt_string_view(self.named_consumer_strategy),
        }
    }
}

/// A `CreatePersistentSubscription` with every field at its default.
pub open spec fn create_persistent_subscription_default() -> CreatePersistentSubscriptionModel {
    CreatePersistentSubscriptionModel {
        subscription_group_name: Seq::empty(),
        event_stream_id: Seq::empty(),
        resolve_link_tos: false,
        start_from: 0,
        message_timeout_milliseconds: 0,
        record_statistics: false,
        live_buffer_size: 0,
        read_batch_size: 0,
        buffer_size: 0,
        max_retry_count: 0,
        prefer_round_robin: false,
        checkpoint_after_time: 0,
        checkpoint_max_count: 0,
        checkpoint_min_count: 0,
        subscriber_max_count: 0,
        named_consumer_strategy: None,
    }
}

/// Folds one field into a `CreatePersistentSubscription`; fields of unknown tags are skipped.
pub open spec fn create_persistent_subscription_apply(m: CreatePersistentSubscriptionModel, f: WireField) -> Option<CreatePersistentSubscriptionModel> {
    if f.tag == 10 {
        match f.value {
            WireValue::Bytes(b) => match string_of(b) {
                Some(s) => Some(CreatePersistentSubscriptionModel { subscription_group_name: s, ..m }),
                None => None,
            },
            _ => None,
        }
    } else {
        if f.tag == 18 {
            match f.value {
                WireValue::Bytes(b) => match string_of(b) {
                    Some(s) => Some(CreatePersistentSubscriptionModel { event_stream_id: s, ..m }),
                    None => None,
                },
                _ => None,
            }
        } else {
            if f.tag == 24 {
                match f.value {
                    WireValue::Varint(v) => Some(CreatePersistentSubscriptionModel { resolve_link_tos: bool_of_varint(v), ..m }),
                    _ => None,
                }
            } else {
                if f.tag == 32 {
                    match f.value {
                        WireValue::Varint(v) => Some(CreatePersistentSubscriptionModel { start_from: i32_of_varint(v), ..m }),
                        _ => None,
                    }
                } else {
                    if f.tag == 40 {
                        match f.value {
                            WireValue::Varint(v) => Some(CreatePersistentSubscriptionModel { message_timeout_milliseconds: i32_of_varint(v), ..m }),
                            _ => None,
                        }
                    } else {
                        if f.tag == 48 {
                            match f.value {
                                WireValue::Varint(v) => Some(CreatePersistentSubscriptionModel { record_statistics: bool_of_varint(v), ..m }),
                                _ => None,
                            }
                        } else {
                            if f.tag == 56 {
                                match f.value {
                                    WireValue::Varint(v) => Some(CreatePersistentSubscriptionModel { live_buffer_size: i32_of_varint(v), ..m }),
                                    _ => None,
                                }
                            } else {
                                if f.tag == 64 {
                                    match f.value {
                                        WireValue::Varint(v) => Some(CreatePersistentSubscriptionModel { read_batch_size: i32_of_varint(v), ..m }),
                                        _ => None,
                                    }
                                } else {
                                    if f.tag == 72 {
                                        match f.value {
                                            WireValue::Varint(v) => Some(CreatePersistentSubscriptionModel { buffer_size: i32_of_varint(v), ..m }),
                                            _ => None,
                                        }
                                    } else {
                                        if f.tag == 80 {
                                            match f.value {
                                                WireValue::Varint(v) => Some(CreatePersistentSubscriptionModel { max_retry_count: i32_of_varint(v), ..m }),
                                                _ => None,
                                            }
                                        } else {
                                            if f.tag == 88 {
                                                match f.value {
                                                    WireValue::Varint(v) => Some(CreatePersistentSubscriptionModel { prefer_round_robin: bool_of_varint(v), ..m }),
                                                    _ => None,
                                                }
                                            } else {
                                                if f.tag == 96 {
                                                    match f.value {
                                                        WireValue::Varint(v) => Some(CreatePersistentSubscriptionModel { checkpoint_after_time: i32_of_varint(v), ..m }),
                                                        _ => None,
                                                    }
                                                } else {
                                                    if f.tag == 104 {
                                                        match f.value {
                                                            WireValue::Varint(v) => Some(CreatePersistentSubscriptionModel { checkpoint_max_count: i32_of_varint(v), ..m }),
                                                            _ => None,
                                                        }
                                                    } else {
                                                        if f.tag == 112 {
                                                            match f.value {
                                                                WireValue::Varint(v) => Some(CreatePersistentSubscriptionModel { checkpoint_min_count: i32_of_varint(v), ..m }),
                                                                _ => None,
                                                            }
                                                        } else {
                                                            if f.tag == 120 {
                                                                match f.value {
                                                                    WireValue::Varint(v) => Some(CreatePersistentSubscriptionModel { subscriber_max_count: i32_of_varint(v), ..m }),
                                                                    _ => None,
                                                                }
                                                            } else {
                                                                if f.tag == 130 {
                                                                    match f.value {
                                                                        WireValue::Bytes(b) => match string_of(b) {
                                                                            Some(s) => Some(CreatePersistentSubscriptionModel { named_consumer_strategy: Some(s), ..m }),
                                                                            None => None,
                                                                        },
                                                                        _ => None,
                                                                    }
                                                                } else {
                                                                    Some(m)
                                                                }
                                                            }
                                                        }
                                                    }
                                                }
                                            }
                                        }
                                    }
                                }
                            }
                        }
                    }
                }
            }
        }
    }
}

/// `create_persistent_subscription_apply` as a value.
pub open spec fn create_persistent_subscription_applier() -> spec_fn(CreatePersistentSubscriptionModel, WireField) -> Option<CreatePersistentSubscriptionModel> {
    |m: CreatePersistentSubscriptionModel, f: WireField| create_persistent_subscription_apply(m, f)
}

/// The tags of the fields that a `CreatePersistentSubscription` reads; the others are skipped.
pub open spec fn create_persistent_subscription_known() -> spec_fn(u32) -> bool {
    |t: u32| t == 10 || t == 18 || t == 24 || t == 32 || t == 40 || t == 48 || t == 56 || t == 64 || t == 72 || t == 80 || t == 88 || t == 96 || t == 104 || t == 112 || t == 120 || t == 130
}

/// The `CreatePersistentSubscription` that `bytes` encode, if they encode one.
pub open spec fn create_persistent_subscription_decode(bytes: Seq<u8>) -> Option<CreatePersistentSubscriptionModel> {
    decode_fields(bytes, create_persistent_subscription_default(), create_persistent_subscription_applier(), create_persistent_subscription_known())
}

/// The fields that encode a `CreatePersistentSubscription`, in the order they are written.
pub open spec fn create_persistent_subscription_fields(m: CreatePersistentSubscriptionModel) -> Seq<WireField> {
    (seq![WireField { tag: 10, value: WireValue::Bytes(encode_utf8(m.subscription_group_name)) }]) + ((seq![WireField { tag: 18, value: WireValue::Bytes(encode_utf8(m.event_stream_id)) }]) + ((seq![WireField { tag: 24, value: WireValue::Varint(varint_of_bool(m.resolve_link_tos)) }]) + ((seq![WireField { tag: 32, value: WireValue::Varint(varint_of_i32(m.start_from)) }]) + ((seq![WireField { tag: 40, value: WireValue::Varint(varint_of_i32(m.message_timeout_milliseconds)) }]) + ((seq![WireField { tag: 48, value: WireValue::Varint(varint_of_bool(m.record_statistics)) }]) + ((seq![WireField { tag: 56, value: WireValue::Varint(varint_of_i32(m.live_buffer_size)) }]) + ((seq![WireField { tag: 64, value: WireValue::Varint(varint_of_i32(m.read_batch_size)) }]) + ((seq![WireField { tag: 72, value: WireValue::Varint(varint_of_i32(m.buffer_size)) }]) + ((seq![WireField { tag: 80, value: WireValue::Varint(varint_of_i32(m.max_retry_count)) }]) + ((seq![WireField { tag: 88, value: WireValue::Varint(varint_of_bool(m.prefer_round_robin)) }]) + ((seq![WireField { tag: 96, value: WireValue::Varint(varint_of_i32(m.checkpoint_after_time)) }]) + ((seq![WireField { tag: 104, value: WireValue::Varint(varint_of_i32(m.checkpoint_max_count)) }]) + ((seq![WireField { tag: 112, value: WireValue::Varint(varint_of_i32(m.checkpoint_min_count)) }]) + ((seq![WireField { tag: 120, value: WireValue::Varint(varint_of_i32(m.subscriber_max_count)) }]) + ((match m.named_consumer_strategy {
        Some(x) => seq![WireField { tag: 130, value: WireValue::Bytes(encode_utf8(x)) }],
        None => Seq::<WireField>::empty(),
    }))))))))))))))))
}

/// The encoding of a `CreatePersistentSubscription`.
pub open spec fn create_persistent_subscription_encode(m: CreatePersistentSubscriptionModel) -> Seq<u8> {
    encode_fields(create_persistent_subscription_fields(m))
}

/// A `CreatePersistentSubscription` that reads back as written: every length-delimited field, those of the
/// embedded messages included, holds fewer than 2^32 bytes.
pub open spec fn create_persistent_subscription_wf(m: CreatePersistentSubscriptionModel) -> bool {
    fields_short(create_persistent_subscription_fields(m))
}

/// The fields of a `CreatePersistentSubscription` carry the wire types of their payloads.
pub proof fn lemma_create_persistent_subscription_fields_tagged(m: CreatePersistentSubscriptionModel)
    ensures
        fields_tagged(create_persistent_subscription_fields(m)),
{
    assert(fields_tagged((match m.named_consumer_strategy {
        Some(x) => seq![WireField { tag: 130, value: WireValue::Bytes(encode_utf8(x)) }],
        None => Seq::<WireField>::empty(),
    })));
    assert(fields_tagged((seq![WireField { tag: 120, value: WireValue::Varint(varint_of_i32(m.subscriber_max_count)) }])));
    lemma_fields_tagged_append(
        (seq![WireField { tag: 120, value: WireValue::Varint(varint_of_i32(m.subscriber_max_count)) }]),
        (match m.named_consumer_strategy {
            Some(x) => seq![WireField { tag: 130, value: WireValue::Bytes(encode_utf8(x)) }],
            None => Seq::<WireField>::empty(),
        }),
    );
    assert(fields_tagged((seq![WireField { tag: 112, value: WireValue::Varint(varint_of_i32(m.checkpoint_min_count)) }])));
    lemma_fields_tagged_append(
        (seq![WireField { tag: 112, value: WireValue::Varint(varint_of_i32(m.checkpoint_min_count)) }]),
        (seq![WireField { tag: 120, value: WireValue::Varint(varint_of_i32(m.subscriber_max_count)) }]) + ((match m.named_consumer_strategy {
            Some(x) => seq![WireField { tag: 130, value: WireValue::Bytes(encode_utf8(x)) }],
            None => Seq::<WireField>::empty(),
        })),
    );
    assert(fields_tagged((seq![WireField { tag: 104, value: WireValue::Varint(varint_of_i32(m.checkpoint_max_count)) }])));
    lemma_fields_tagged_append(
        (seq![WireField { tag: 104, value: WireValue::Varint(varint_of_i32(m.checkpoint_max_count)) }]),
        (seq![WireField { tag: 112, value: WireValue::Varint(varint_of_i32(m.checkpoint_min_count)) }]) + ((seq![WireField { tag: 120, value: WireValue::Varint(varint_of_i32(m.subscriber_max_count)) }]) + ((match m.named_consumer_strategy {
            Some(x) => seq![WireField { tag: 130, value: WireValue::Bytes(encode_utf8(x)) }],
            None => Seq::<WireField>::empty(),
        }))),
    );
    assert(fields_tagged((seq![WireField { tag: 96, value: WireValue::Varint(varint_of_i32(m.checkpoint_after_time)) }])));
    lemma_fields_tagged_append(
        (seq![WireField { tag: 96, value: WireValue::Varint(varint_of_i32(m.checkpoint_after_time)) }]),
        (seq![WireField { tag: 104, value: WireValue::Varint(varint_of_i32(m.checkpoint_max_count)) }]) + ((seq![WireField { tag: 112, value: WireValue::Varint(varint_of_i32(m.checkpoint_min_count)) }]) + ((seq![WireField { tag: 120, value: WireValue::Varint(varint_of_i32(m.subscriber_max_count)) }]) + ((match m.named_consumer_strategy {
            Some(x) => seq![WireField { tag: 130, value: WireValue::Bytes(encode_utf8(x)) }],
            None => Seq::<WireField>::empty(),
        })))),
    );
    assert(fields_tagged((seq![WireField { tag: 88, value: WireValue::Varint(varint_of_bool(m.prefer_round_robin)) }])));
    lemma_fields_tagged_append(
        (seq![WireField { tag: 88, value: WireValue::Varint(varint_of_bool(m.prefer_round_robin)) }]),
        (seq![WireField { tag: 96, value: WireValue::Varint(varint_of_i32(m.checkpoint_after_time)) }]) + ((seq![WireField { tag: 104, value: WireValue::Varint(varint_of_i32(m.checkpoint_max_count)) }]) + ((seq![WireField { tag: 112, value: WireValue::Varint(varint_of_i32(m.checkpoint_min_count)) }]) + ((seq![WireField { tag: 120, value: WireValue::Varint(varint_of_i32(m.subscriber_max_count)) }]) + ((match m.named_consumer_strategy {
            Some(x) => seq![WireField { tag: 130, value: WireValue::Bytes(encode_utf8(x)) }],
            None => Seq::<WireField>::empty(),
        }))))),
    );
    assert(fields_tagged((seq![WireField { tag: 80, value: WireValue::Varint(varint_of_i32(m.max_retry_count)) }])));
    lemma_fields_tagged_append(
        (seq![WireField { tag: 80, value: WireValue::Varint(varint_of_i32(m.max_retry_count)) }]),
        (seq![WireField { tag: 88, value: WireValue::Varint(varint_of_bool(m.prefer_round_robin)) }]) + ((seq![WireField { tag: 96, value: WireValue::Varint(varint_of_i32(m.checkpoint_after_time)) }]) + ((seq![WireField { tag: 104, value: WireValue::Varint(varint_of_i32(m.checkpoint_max_count)) }]) + ((seq![WireField { tag: 112, value: WireValue::Varint(varint_of_i32(m.checkpoint_min_count)) }]) + ((seq![WireField { tag: 120, value: WireValue::Varint(varint_of_i32(m.subscriber_max_count)) }]) + ((match m.named_consumer_strategy {
            Some(x) => seq![WireField { tag: 130, value: WireValue::Bytes(encode_utf8(x)) }],
            None => Seq::<WireField>::empty(),
        })))))),
    );
    assert(fields_tagged((seq![WireField { tag: 72, value: WireValue::Varint(varint_of_i32(m.buffer_size)) }])));
    lemma_fields_tagged_append(
        (seq![WireField { tag: 72, value: WireValue::Varint(varint_of_i32(m.buffer_size)) }]),
        (seq![WireField { tag: 80, value: WireValue::Varint(varint_of_i32(m.max_retry_count)) }]) + ((seq![WireField { tag: 88, value: WireValue::Varint(varint_of_bool(m.prefer_round_robin)) }]) + ((seq![WireField { tag: 96, value: WireValue::Varint(varint_of_i32(m.checkpoint_after_time)) }]) + ((seq![WireField { tag: 104, value: WireValue::Varint(varint_of_i32(m.checkpoint_max_count)) }]) + ((seq![WireField { tag: 112, value: WireValue::Varint(varint_of_i32(m.checkpoint_min_count)) }]) + ((seq![WireField { tag: 120, value: WireValue::Varint(varint_of_i32(m.subscriber_max_count)) }]) + ((match m.named_consumer_strategy {
            Some(x) => seq![WireField { tag: 130, value: WireValue::Bytes(encode_utf8(x)) }],
            None => Seq::<WireField>::empty(),
        }))))))),
    );
    assert(fields_tagged((seq![WireField { tag: 64, value: WireValue::Varint(varint_of_i32(m.read_batch_size)) }])));
    lemma_fields_tagged_append(
        (seq![WireField { tag: 64, value: WireValue::Varint(varint_of_i32(m.read_batch_size)) }]),
        (seq![WireField { tag: 72, value: WireValue::Varint(varint_of_i32(m.buffer_size)) }]) + ((seq![WireField { tag: 80, value: WireValue::Varint(varint_of_i32(m.max_retry_count)) }]) + ((seq![WireField { tag: 88, value: WireValue::Varint(varint_of_bool(m.prefer_round_robin)) }]) + ((seq![WireField { tag: 96, value: WireValue::Varint(varint_of_i32(m.checkpoint_after_time)) }]) + ((seq![WireField { tag: 104, value: WireValue::Varint(varint_of_i32(m.checkpoint_max_count)) }]) + ((seq![WireField { tag: 112, value: WireValue::Varint(varint_of_i32(m.checkpoint_min_count)) }]) + ((seq![WireField { tag: 120, value: WireValue::Varint(varint_of_i32(m.subscriber_max_count)) }]) + ((match m.named_consumer_strategy {
            Some(x) => seq![WireField { tag: 130, value: WireValue::Bytes(encode_utf8(x)) }],
            None => Seq::<WireField>::empty(),
        })))))))),
    );
    assert(fields_tagged((seq![WireField { tag: 56, value: WireValue::Varint(varint_of_i32(m.live_buffer_size)) }])));
    lemma_fields_tagged_append(
        (seq![WireField { tag: 56, value: WireValue::Varint(varint_of_i32(m.live_buffer_size)) }]),
        (seq![WireField { tag: 64, value: WireValue::Varint(varint_of_i32(m.read_batch_size)) }]) + ((seq![WireField { tag: 72, value: WireValue::Varint(varint_of_i32(m.buffer_size)) }]) + ((seq![WireField { tag: 80, value: WireValue::Varint(varint_of_i32(m.max_retry_count)) }]) + ((seq![WireField { tag: 88, value: WireValue::Varint(varint_of_bool(m.prefer_round_robin)) }]) + ((seq![WireField { tag: 96, value: WireValue::Varint(varint_of_i32(m.checkpoint_after_time)) }]) + ((seq![WireField { tag: 104, value: WireValue::Varint(varint_of_i32(m.checkpoint_max_count)) }]) + ((seq![WireField { tag: 112, value: WireValue::Varint(varint_of_i32(m.checkpoint_min_count)) }]) + ((seq![WireField { tag: 120, value: WireValue::Varint(varint_of_i32(m.subscriber_max_count)) }]) + ((match m.named_consumer_strategy {
            Some(x) => seq![WireField { tag: 130, value: WireValue::Bytes(encode_utf8(x)) }],
            None => Seq::<WireField>::empty(),
        }))))))))),
    );
    assert(fields_tagged((seq![WireField { tag: 48, value: WireValue::Varint(varint_of_bool(m.record_statistics)) }])));
    lemma_fields_tagged_append(
        (seq![WireField { tag: 48, value: WireValue::Varint(varint_of_bool(m.record_statistics)) }]),
        (seq![WireField { tag: 56, value: WireValue::Varint(varint_of_i32(m.live_buffer_size)) }]) + ((seq![WireField { tag: 64, value: WireValue::Varint(varint_of_i32(m.read_batch_size)) }]) + ((seq![WireField { tag: 72, value: WireValue::Varint(varint_of_i32(m.buffer_size)) }]) + ((seq![WireField { tag: 80, value: WireValue::Varint(varint_of_i32(m.max_retry_count)) }]) + ((seq![WireField { tag: 88, value: WireValue::Varint(varint_of_bool(m.prefer_round_robin)) }]) + ((seq![WireField { tag: 96, value: WireValue::Varint(varint_of_i32(m.checkpoint_after_time)) }]) + ((seq![WireField { tag: 104, value: WireValue::Varint(varint_of_i32(m.checkpoint_max_count)) }]) + ((seq![WireField { tag: 112, value: WireValue::Varint(varint_of_i32(m.checkpoint_min_count)) }]) + ((seq![WireField { tag: 120, value: WireValue::Varint(varint_of_i32(m.subscriber_max_count)) }]) + ((match m.named_consumer_strategy {
            Some(x) => seq![WireField { tag: 130, value: WireValue::Bytes(encode_utf8(x)) }],
            None => Seq::<WireField>::empty(),
        })))))))))),
    );
    assert(fields_tagged((seq![WireField { tag: 40, value: WireValue::Varint(varint_of_i32(m.message_timeout_milliseconds)) }])));
    lemma_fields_tagged_append(
        (seq![WireField { tag: 40, value: WireValue::Varint(varint_of_i32(m.message_timeout_milliseconds)) }]),
        (seq![WireField { tag: 48, value: WireValue::Varint(varint_of_bool(m.record_statistics)) }]) + ((seq![WireField { tag: 56, value: WireValue::Varint(varint_of_i32(m.live_buffer_size)) }]) + ((seq![WireField { tag: 64, value: WireValue::Varint(varint_of_i32(m.read_batch_size)) }]) + ((seq![WireField { tag: 72, value: WireValue::Varint(varint_of_i32(m.buffer_size)) }]) + ((seq![WireField { tag: 80, value: WireValue::Varint(varint_of_i32(m.max_retry_count)) }]) + ((seq![WireField { tag: 88, value: WireValue::Varint(varint_of_bool(m.prefer_round_robin)) }]) + ((seq![WireField { tag: 96, value: WireValue::Varint(varint_of_i32(m.checkpoint_after_time)) }]) + ((seq![WireField { tag: 104, value: WireValue::Varint(varint_of_i32(m.checkpoint_max_count)) }]) + ((seq![WireField { tag: 112, value: WireValue::Varint(varint_of_i32(m.checkpoint_min_count)) }]) + ((seq![WireField { tag: 120, value: WireValue::Varint(varint_of_i32(m.subscriber_max_count)) }]) + ((match m.named_consumer_strategy {
            Some(x) => seq![WireField { tag: 130, value: WireValue::Bytes(encode_utf8(x)) }],
            None => Seq::<WireField>::empty(),
        }))))))))))),
    );
    assert(fields_tagged((seq![WireField { tag: 32, value: WireValue::Varint(varint_of_i32(m.start_from)) }])));
    lemma_fields_tagged_append(
        (seq![WireField { tag: 32, value: WireValue::Varint(varint_of_i32(m.start_from)) }]),
        (seq![WireField { tag: 40, value: WireValue::Varint(varint_of_i32(m.message_timeout_milliseconds)) }]) + ((seq![WireField { tag: 48, value: WireValue::Varint(varint_of_bool(m.record_statistics)) }]) + ((seq![WireField { tag: 56, value: WireValue::Varint(varint_of_i32(m.live_buffer_size)) }]) + ((seq![WireField { tag: 64, value: WireValue::Varint(varint_of_i32(m.read_batch_size)) }]) + ((seq![WireField { tag: 72, value: WireValue::Varint(varint_of_i32(m.buffer_size)) }]) + ((seq![WireField { tag: 80, value: WireValue::Varint(varint_of_i32(m.max_retry_count)) }]) + ((seq![WireField { tag: 88, value: WireValue::Varint(varint_of_bool(m.prefer_round_robin)) }]) + ((seq![WireField { tag: 96, value: WireValue::Varint(varint_of_i32(m.checkpoint_after_time)) }]) + ((seq![WireField { tag: 104, value: WireValue::Varint(varint_of_i32(m.checkpoint_max_count)) }]) + ((seq![WireField { tag: 112, value: WireValue::Varint(varint_of_i32(m.checkpoint_min_count)) }]) + ((seq![WireField { tag: 120, value: WireValue::Varint(varint_of_i32(m.subscriber_max_count)) }]) + ((match m.named_consumer_strategy {
            Some(x) => seq![WireField { tag: 130, value: WireValue::Bytes(encode_utf8(x)) }],
            None => Seq::<WireField>::empty(),
        })))))))))))),
    );
    assert(fields_tagged((seq![WireField { tag: 24, value: WireValue::Varint(varint_of_bool(m.resolve_link_tos)) }])));
    lemma_fields_tagged_append(
        (seq![WireField { tag: 24, value: WireValue::Varint(varint_of_bool(m.resolve_link_tos)) }]),
        (seq![WireField { tag: 32, value: WireValue::Varint(varint_of_i32(m.start_from)) }]) + ((seq![WireField { tag: 40, value: WireValue::Varint(varint_of_i32(m.message_timeout_milliseconds)) }]) + ((seq![WireField { tag: 48, value: WireValue::Varint(varint_of_bool(m.record_statistics)) }]) + ((seq![WireField { tag: 56, value: WireValue::Varint(varint_of_i32(m.live_buffer_size)) }]) + ((seq![WireField { tag: 64, value: WireValue::Varint(varint_of_i32(m.read_batch_size)) }]) + ((seq![WireField { tag: 72, value: WireValue::Varint(varint_of_i32(m.buffer_size)) }]) + ((seq![WireField { tag: 80, value: WireValue::Varint(varint_of_i32(m.max_retry_count)) }]) + ((seq![WireField { tag: 88, value: WireValue::Varint(varint_of_bool(m.prefer_round_robin)) }]) + ((seq![WireField { tag: 96, value: WireValue::Varint(varint_of_i32(m.checkpoint_after_time)) }]) + ((seq![WireField { tag: 104, value: WireValue::Varint(varint_of_i32(m.checkpoint_max_count)) }]) + ((seq![WireField { tag: 112, value: WireValue::Varint(varint_of_i32(m.checkpoint_min_count)) }]) + ((seq![WireField { tag: 120, value: WireValue::Varint(varint_of_i32(m.subscriber_max_count)) }]) + ((match m.named_consumer_strategy {
            Some(x) => seq![WireField { tag: 130, value: WireValue::Bytes(encode_utf8(x)) }],
            None => Seq::<WireField>::empty(),
        }))))))))))))),
    );
    assert(fields_tagged((seq![WireField { tag: 18, value: WireValue::Bytes(encode_utf8(m.event_stream_id)) }])));
    lemma_fields_tagged_append(
        (seq![WireField { tag: 18, value: WireValue::Bytes(encode_utf8(m.event_stream_id)) }]),
        (seq![WireField { tag: 24, value: WireValue::Varint(varint_of_bool(m.resolve_link_tos)) }]) + ((seq![WireField { tag: 32, value: WireValue::Varint(varint_of_i32(m.start_from)) }]) + ((seq![WireField { tag: 40, value: WireValue::Varint(varint_of_i32(m.message_timeout_milliseconds)) }]) + ((seq![WireField { tag: 48, value: WireValue::Varint(varint_of_bool(m.record_statistics)) }]) + ((seq![WireField { tag: 56, value: WireValue::Varint(varint_of_i32(m.live_buffer_size)) }]) + ((seq![WireField { tag: 64, value: WireValue::Varint(varint_of_i32(m.read_batch_size)) }]) + ((seq![WireField { tag: 72, value: WireValue::Varint(varint_of_i32(m.buffer_size)) }]) + ((seq![WireField { tag: 80, value: WireValue::Varint(varint_of_i32(m.max_retry_count)) }]) + ((seq![WireField { tag: 88, value: WireValue::Varint(varint_of_bool(m.prefer_round_robin)) }]) + ((seq![WireField { tag: 96, value: WireValue::Varint(varint_of_i32(m.checkpoint_after_time)) }]) + ((seq![WireField { tag: 104, value: WireValue::Varint(varint_of_i32(m.checkpoint_max_count)) }]) + ((seq![WireField { tag: 112, value: WireValue::Varint(varint_of_i32(m.checkpoint_min_count)) }]) + ((seq![WireField { tag: 120, value: WireValue::Varint(varint_of_i32(m.subscriber_max_count)) }]) + ((match m.named_consumer_strategy {
            Some(x) => seq![WireField { tag: 130, value: WireValue::Bytes(encode_utf8(x)) }],
            None => Seq::<WireField>::empty(),
        })))))))))))))),
    );
    assert(fields_tagged((seq![WireField { tag: 10, value: WireValue::Bytes(encode_utf8(m.subscription_group_name)) }])));
    lemma_fields_tagged_append(
        (seq![WireField { tag: 10, value: WireValue::Bytes(encode_utf8(m.subscription_group_name)) }]),
        (seq![WireField { tag: 18, value: WireValue::Bytes(encode_utf8(m.event_stream_id)) }]) + ((seq![WireField { tag: 24, value: WireValue::Varint(varint_of_bool(m.resolve_link_tos)) }]) + ((seq![WireField { tag: 32, value: WireValue::Varint(varint_of_i32(m.start_from)) }]) + ((seq![WireField { tag: 40, value: WireValue::Varint(varint_of_i32(m.message_timeout_milliseconds)) }]) + ((seq![WireField { tag: 48, value: WireValue::Varint(varint_of_bool(m.record_statistics)) }]) + ((seq![WireField { tag: 56, value: WireValue::Varint(varint_of_i32(m.live_buffer_size)) }]) + ((seq![WireField { tag: 64, value: WireValue::Varint(varint_of_i32(m.read_batch_size)) }]) + ((seq![WireField { tag: 72, value: WireValue::Varint(varint_of_i32(m.buffer_size)) }]) + ((seq![WireField { tag: 80, value: WireValue::Varint(varint_of_i32(m.max_retry_count)) }]) + ((seq![WireField { tag: 88, value: WireValue::Varint(varint_of_bool(m.prefer_round_robin)) }]) + ((seq![WireField { tag: 96, value: WireValue::Varint(varint_of_i32(m.checkpoint_after_time)) }]) + ((seq![WireField { tag: 104, value: WireValue::Varint(varint_of_i32(m.checkpoint_max_count)) }]) + ((seq![WireField { tag: 112, value: WireValue::Varint(varint_of_i32(m.checkpoint_min_count)) }]) + ((seq![WireField { tag: 120, value: WireValue::Varint(varint_of_i32(m.subscriber_max_count)) }]) + ((match m.named_consumer_strategy {
            Some(x) => seq![WireField { tag: 130, value: WireValue::Bytes(encode_utf8(x)) }],
            None => Seq::<WireField>::empty(),
        }))))))))))))))),
    );
}

/// The bytes of an encoded `CreatePersistentSubscription`: `subscription_group_name` under tag 10, `event_stream_id` under tag 18, `resolve_link_tos` under tag 24, `start_from` under tag 32, `message_timeout_milliseconds` under tag 40, `record_statistics` under tag 48, `live_buffer_size` under tag 56, `read_batch_size` under tag 64, `buffer_size` under tag 72, `max_retry_count` under tag 80, `prefer_round_robin` under tag 88, `checkpoint_after_time` under tag 96, `checkpoint_max_count` under tag 104, `checkpoint_min_count` under tag 112, `subscriber_max_count` under tag 120, `named_consumer_strategy` under tag 130, in this order; optional fields only
/// when present, repeated ones once per element.
pub proof fn lemma_create_persistent_subscription_encode_layout(m: CreatePersistentSubscriptionModel)
    ensures
        create_persistent_subscription_encode(m) == (bytes_field_bytes(10, encode_utf8(m.subscription_group_name))) + ((bytes_field_bytes(18, encode_utf8(m.event_stream_id))) + ((varint_field_bytes(24, varint_of_bool(m.resolve_link_tos))) + ((varint_field_bytes(32, varint_of_i32(m.start_from))) + ((varint_field_bytes(40, varint_of_i32(m.message_timeout_milliseconds))) + ((varint_field_bytes(48, varint_of_bool(m.record_statistics))) + ((varint_field_bytes(56, varint_of_i32(m.live_buffer_size))) + ((varint_field_bytes(64, varint_of_i32(m.read_batch_size))) + ((varint_field_bytes(72, varint_of_i32(m.buffer_size))) + ((varint_field_bytes(80, varint_of_i32(m.max_retry_count))) + ((varint_field_bytes(88, varint_of_bool(m.prefer_round_robin))) + ((varint_field_bytes(96, varint_of_i32(m.checkpoint_after_time))) + ((varint_field_bytes(104, varint_of_i32(m.checkpoint_max_count))) + ((varint_field_bytes(112, varint_of_i32(m.checkpoint_min_count))) + ((varint_field_bytes(120, varint_of_i32(m.subscriber_max_count))) + (((match m.named_consumer_strategy {
            Some(x) => bytes_field_bytes(130, encode_utf8(x)),
            None => Seq::<u8>::empty(),
        }))))))))))))))))),
{
    lemma_encode_fields_append(
        (seq![WireField { tag: 10, value: WireValue::Bytes(encode_utf8(m.subscription_group_name)) }]),
        (seq![WireField { tag: 18, value: WireValue::Bytes(encode_utf8(m.event_stream_id)) }]) + ((seq![WireField { tag: 24, value: WireValue::Varint(varint_of_bool(m.resolve_link_tos)) }]) + ((seq![WireField { tag: 32, value: WireValue::Varint(varint_of_i32(m.start_from)) }]) + ((seq![WireField { tag: 40, value: WireValue::Varint(varint_of_i32(m.message_timeout_milliseconds)) }]) + ((seq![WireField { tag: 48, value: WireValue::Varint(varint_of_bool(m.record_statistics)) }]) + ((seq![WireField { tag: 56, value: WireValue::Varint(varint_of_i32(m.live_buffer_size)) }]) + ((seq![WireField { tag: 64, value: WireValue::Varint(varint_of_i32(m.read_batch_size)) }]) + ((seq![WireField { tag: 72, value: WireValue::Varint(varint_of_i32(m.buffer_size)) }]) + ((seq![WireField { tag: 80, value: WireValue::Varint(varint_of_i32(m.max_retry_count)) }]) + ((seq![WireField { tag: 88, value: WireValue::Varint(varint_of_bool(m.prefer_round_robin)) }]) + ((seq![WireField { tag: 96, value: WireValue::Varint(varint_of_i32(m.checkpoint_after_time)) }]) + ((seq![WireField { tag: 104, value: WireValue::Varint(varint_of_i32(m.checkpoint_max_count)) }]) + ((seq![WireField { tag: 112, value: WireValue::Varint(varint_of_i32(m.checkpoint_min_count)) }]) + ((seq![WireField { tag: 120, value: WireValue::Varint(varint_of_i32(m.subscriber_max_count)) }]) + ((match m.named_consumer_strategy {
            Some(x) => seq![WireField { tag: 130, value: WireValue::Bytes(encode_utf8(x)) }],
            None => Seq::<WireField>::empty(),
        }))))))))))))))),
    );
    lemma_encode_fields_append(
        (seq![WireField { tag: 18, value: WireValue::Bytes(encode_utf8(m.event_stream_id)) }]),
        (seq![WireField { tag: 24, value: WireValue::Varint(varint_of_bool(m.resolve_link_tos)) }]) + ((seq![WireField { tag: 32, value: WireValue::Varint(varint_of_i32(m.start_from)) }]) + ((seq![WireField { tag: 40, value: WireValue::Varint(varint_of_i32(m.message_timeout_milliseconds)) }]) + ((seq![WireField { tag: 48, value: WireValue::Varint(varint_of_bool(m.record_statistics)) }]) + ((seq![WireField { tag: 56, value: WireValue::Varint(varint_of_i32(m.live_buffer_size)) }]) + ((seq![WireField { tag: 64, value: WireValue::Varint(varint_of_i32(m.read_batch_size)) }]) + ((seq![WireField { tag: 72, value: WireValue::Varint(varint_of_i32(m.buffer_size)) }]) + ((seq![WireField { tag: 80, value: WireValue::Varint(varint_of_i32(m.max_retry_count)) }]) + ((seq![WireField { tag: 88, value: WireValue::Varint(varint_of_bool(m.prefer_round_robin)) }]) + ((seq![WireField { tag: 96, value: WireValue::Varint(varint_of_i32(m.checkpoint_after_time)) }]) + ((seq![WireField { tag: 104, value: WireValue::Varint(varint_of_i32(m.checkpoint_max_count)) }]) + ((seq![WireField { tag: 112, value: WireValue::Varint(varint_of_i32(m.checkpoint_min_count)) }]) + ((seq![WireField { tag: 120, value: WireValue::Varint(varint_of_i32(m.subscriber_max_count)) }]) + ((match m.named_consumer_strategy {
            Some(x) => seq![WireField { tag: 130, value: WireValue::Bytes(encode_utf8(x)) }],
            None => Seq::<WireField>::empty(),
        })))))))))))))),
    );
    lemma_encode_fields_append(
        (seq![WireField { tag: 24, value: WireValue::Varint(varint_of_bool(m.resolve_link_tos)) }]),
        (seq![WireField { tag: 32, value: WireValue::Varint(varint_of_i32(m.start_from)) }]) + ((seq![WireField { tag: 40, value: WireValue::Varint(varint_of_i32(m.message_timeout_milliseconds)) }]) + ((seq![WireField { tag: 48, value: WireValue::Varint(varint_of_bool(m.record_statistics)) }]) + ((seq![WireField { tag: 56, value: WireValue::Varint(varint_of_i32(m.live_buffer_size)) }]) + ((seq![WireField { tag: 64, value: WireValue::Varint(varint_of_i32(m.read_batch_size)) }]) + ((seq![WireField { tag: 72, value: WireValue::Varint(varint_of_i32(m.buffer_size)) }]) + ((seq![WireField { tag: 80, value: WireValue::Varint(varint_of_i32(m.max_retry_count)) }]) + ((seq![WireField { tag: 88, value: WireValue::Varint(varint_of_bool(m.prefer_round_robin)) }]) + ((seq![WireField { tag: 96, value: WireValue::Varint(varint_of_i32(m.checkpoint_after_time)) }]) + ((seq![WireField { tag: 104, value: WireValue::Varint(varint_of_i32(m.checkpoint_max_count)) }]) + ((seq![WireField { tag: 112, value: WireValue::Varint(varint_of_i32(m.checkpoint_min_count)) }]) + ((seq![WireField { tag: 120, value: WireValue::Varint(varint_of_i32(m.subscriber_max_count)) }]) + ((match m.named_consumer_strategy {
            Some(x) => seq![WireField { tag: 130, value: WireValue::Bytes(encode_utf8(x)) }],
            None => Seq::<WireField>::empty(),
        }))))))))))))),
    );
    lemma_encode_fields_append(
        (seq![WireField { tag: 32, value: WireValue::Varint(varint_of_i32(m.start_from)) }]),
        (seq![WireField { tag: 40, value: WireValue::Varint(varint_of_i32(m.message_timeout_milliseconds)) }]) + ((seq![WireField { tag: 48, value: WireValue::Varint(varint_of_bool(m.record_statistics)) }]) + ((seq![WireField { tag: 56, value: WireValue::Varint(varint_of_i32(m.live_buffer_size)) }]) + ((seq![WireField { tag: 64, value: WireValue::Varint(varint_of_i32(m.read_batch_size)) }]) + ((seq![WireField { tag: 72, value: WireValue::Varint(varint_of_i32(m.buffer_size)) }]) + ((seq![WireField { tag: 80, value: WireValue::Varint(varint_of_i32(m.max_retry_count)) }]) + ((seq![WireField { tag: 88, value: WireValue::Varint(varint_of_bool(m.prefer_round_robin)) }]) + ((seq![WireField { tag: 96, value: WireValue::Varint(varint_of_i32(m.checkpoint_after_time)) }]) + ((seq![WireField { tag: 104, value: WireValue::Varint(varint_of_i32(m.checkpoint_max_count)) }]) + ((seq![WireField { tag: 112, value: WireValue::Varint(varint_of_i32(m.checkpoint_min_count)) }]) + ((seq![WireField { tag: 120, value: WireValue::Varint(varint_of_i32(m.subscriber_max_count)) }]) + ((match m.named_consumer_strategy {
            Some(x) => seq![WireField { tag: 130, value: WireValue::Bytes(encode_utf8(x)) }],
            None => Seq::<WireField>::empty(),
        })))))))))))),
    );
    lemma_encode_fields_append(
        (seq![WireField { tag: 40, value: WireValue::Varint(varint_of_i32(m.message_timeout_milliseconds)) }]),
        (seq![WireField { tag: 48, value: WireValue::Varint(varint_of_bool(m.record_statistics)) }]) + ((seq![WireField { tag: 56, value: WireValue::Varint(varint_of_i32(m.live_buffer_size)) }]) + ((seq![WireField { tag: 64, value: WireValue::Varint(varint_of_i32(m.read_batch_size)) }]) + ((seq![WireField { tag: 72, value: WireValue::Varint(varint_of_i32(m.buffer_size)) }]) + ((seq![WireField { tag: 80, value: WireValue::Varint(varint_of_i32(m.max_retry_count)) }]) + ((seq![WireField { tag: 88, value: WireValue::Varint(varint_of_bool(m.prefer_round_robin)) }]) + ((seq![WireField { tag: 96, value: WireValue::Varint(varint_of_i32(m.checkpoint_after_time)) }]) + ((seq![WireField { tag: 104, value: WireValue::Varint(varint_of_i32(m.checkpoint_max_count)) }]) + ((seq![WireField { tag: 112, value: WireValue::Varint(varint_of_i32(m.checkpoint_min_count)) }]) + ((seq![WireField { tag: 120, value: WireValue::Varint(varint_of_i32(m.subscriber_max_count)) }]) + ((match m.named_consumer_strategy {
            Some(x) => seq![WireField { tag: 130, value: WireValue::Bytes(encode_utf8(x)) }],
            None => Seq::<WireField>::empty(),
        }))))))))))),
    );
    lemma_encode_fields_append(
        (seq![WireField { tag: 48, value: WireValue::Varint(varint_of_bool(m.record_statistics)) }]),
        (seq![WireField { tag: 56, value: WireValue::Varint(varint_of_i32(m.live_buffer_size)) }]) + ((seq![WireField { tag: 64, value: WireValue::Varint(varint_of_i32(m.read_batch_size)) }]) + ((seq![WireField { tag: 72, value: WireValue::Varint(varint_of_i32(m.buffer_size)) }]) + ((seq![WireField { tag: 80, value: WireValue::Varint(varint_of_i32(m.max_retry_count)) }]) + ((seq![WireField { tag: 88, value: WireValue::Varint(varint_of_bool(m.prefer_round_robin)) }]) + ((seq![WireField { tag: 96, value: WireValue::Varint(varint_of_i32(m.checkpoint_after_time)) }]) + ((seq![WireField { tag: 104, value: WireValue::Varint(varint_of_i32(m.checkpoint_max_count)) }]) + ((seq![WireField { tag: 112, value: WireValue::Varint(varint_of_i32(m.checkpoint_min_count)) }]) + ((seq![WireField { tag: 120, value: WireValue::Varint(varint_of_i32(m.subscriber_max_count)) }]) + ((match m.named_consumer_strategy {
            Some(x) => seq![WireField { tag: 130, value: WireValue::Bytes(encode_utf8(x)) }],
            None => Seq::<WireField>::empty(),
        })))))))))),
    );
    lemma_encode_fields_append(
        (seq![WireField { tag: 56, value: WireValue::Varint(varint_of_i32(m.live_buffer_size)) }]),
        (seq![WireField { tag: 64, value: WireValue::Varint(varint_of_i32(m.read_batch_size)) }]) + ((seq![WireField { tag: 72, value: WireValue::Varint(varint_of_i32(m.buffer_size)) }]) + ((seq![WireField { tag: 80, value: WireValue::Varint(varint_of_i32(m.max_retry_count)) }]) + ((seq![WireField { tag: 88, value: WireValue::Varint(varint_of_bool(m.prefer_round_robin)) }]) + ((seq![WireField { tag: 96, value: WireValue::Varint(varint_of_i32(m.checkpoint_after_time)) }]) + ((seq![WireField { tag: 104, value: WireValue::Varint(varint_of_i32(m.checkpoint_max_count)) }]) + ((seq![WireField { tag: 112, value: WireValue::Varint(varint_of_i32(m.checkpoint_min_count)) }]) + ((seq![WireField { tag: 120, value: WireValue::Varint(varint_of_i32(m.subscriber_max_count)) }]) + ((match m.named_consumer_strategy {
            Some(x) => seq![WireField { tag: 130, value: WireValue::Bytes(encode_utf8(x)) }],
            None => Seq::<WireField>::empty(),
        }))))))))),
    );
    lemma_encode_fields_append(
        (seq![WireField { tag: 64, value: WireValue::Varint(varint_of_i32(m.read_batch_size)) }]),
        (seq![WireField { tag: 72, value: WireValue::Varint(varint_of_i32(m.buffer_size)) }]) + ((seq![WireField { tag: 80, value: WireValue::Varint(varint_of_i32(m.max_retry_count)) }]) + ((seq![WireField { tag: 88, value: WireValue::Varint(varint_of_bool(m.prefer_round_robin)) }]) + ((seq![WireField { tag: 96, value: WireValue::Varint(varint_of_i32(m.checkpoint_after_time)) }]) + ((seq![WireField { tag: 104, value: WireValue::Varint(varint_of_i32(m.checkpoint_max_count)) }]) + ((seq![WireField { tag: 112, value: WireValue::Varint(varint_of_i32(m.checkpoint_min_count)) }]) + ((seq![WireField { tag: 120, value: WireValue::Varint(varint_of_i32(m.subscriber_max_count)) }]) + ((match m.named_consumer_strategy {
            Some(x) => seq![WireField { tag: 130, value: WireValue::Bytes(encode_utf8(x)) }],
            None => Seq::<WireField>::empty(),
        })))))))),
    );
    lemma_encode_fields_append(
        (seq![WireField { tag: 72, value: WireValue::Varint(varint_of_i32(m.buffer_size)) }]),
        (seq![WireField { tag: 80, value: WireValue::Varint(varint_of_i32(m.max_retry_count)) }]) + ((seq![WireField { tag: 88, value: WireValue::Varint(varint_of_bool(m.prefer_round_robin)) }]) + ((seq![WireField { tag: 96, value: WireValue::Varint(varint_of_i32(m.checkpoint_after_time)) }]) + ((seq![WireField { tag: 104, value: WireValue::Varint(varint_of_i32(m.checkpoint_max_count)) }]) + ((seq![WireField { tag: 112, value: WireValue::Varint(varint_of_i32(m.checkpoint_min_count)) }]) + ((seq![WireField { tag: 120, value: WireValue::Varint(varint_of_i32(m.subscriber_max_count)) }]) + ((match m.named_consumer_strategy {
            Some(x) => seq![WireField { tag: 130, value: WireValue::Bytes(encode_utf8(x)) }],
            None => Seq::<WireField>::empty(),
        }))))))),
    );
    lemma_encode_fields_append(
        (seq![WireField { tag: 80, value: WireValue::Varint(varint_of_i32(m.max_retry_count)) }]),
        (seq![WireField { tag: 88, value: WireValue::Varint(varint_of_bool(m.prefer_round_robin)) }]) + ((seq![WireField { tag: 96, value: WireValue::Varint(varint_of_i32(m.checkpoint_after_time)) }]) + ((seq![WireField { tag: 104, value: WireValue::Varint(varint_of_i32(m.checkpoint_max_count)) }]) + ((seq![WireField { tag: 112, value: WireValue::Varint(varint_of_i32(m.checkpoint_min_count)) }]) + ((seq![WireField { tag: 120, value: WireValue::Varint(varint_of_i32(m.subscriber_max_count)) }]) + ((match m.named_consumer_strategy {
            Some(x) => seq![WireField { tag: 130, value: WireValue::Bytes(encode_utf8(x)) }],
            None => Seq::<WireField>::empty(),
        })))))),
    );
    lemma_encode_fields_append(
        (seq![WireField { tag: 88, value: WireValue::Varint(varint_of_bool(m.prefer_round_robin)) }]),
        (seq![WireField { tag: 96, value: WireValue::Varint(varint_of_i32(m.checkpoint_after_time)) }]) + ((seq![WireField { tag: 104, value: WireValue::Varint(varint_of_i32(m.checkpoint_max_count)) }]) + ((seq![WireField { tag: 112, value: WireValue::Varint(varint_of_i32(m.checkpoint_min_count)) }]) + ((seq![WireField { tag: 120, value: WireValue::Varint(varint_of_i32(m.subscriber_max_count)) }]) + ((match m.named_consumer_strategy {
            Some(x) => seq![WireField { tag: 130, value: WireValue::Bytes(encode_utf8(x)) }],
            None => Seq::<WireField>::empty(),
        }))))),
    );
    lemma_encode_fields_append(
        (seq![WireField { tag: 96, value: WireValue::Varint(varint_of_i32(m.checkpoint_after_time)) }]),
        (seq![WireField { tag: 104, value: WireValue::Varint(varint_of_i32(m.checkpoint_max_count)) }]) + ((seq![WireField { tag: 112, value: WireValue::Varint(varint_of_i32(m.checkpoint_min_count)) }]) + ((seq![WireField { tag: 120, value: WireValue::Varint(varint_of_i32(m.subscriber_max_count)) }]) + ((match m.named_consumer_strategy {
            Some(x) => seq![WireField { tag: 130, value: WireValue::Bytes(encode_utf8(x)) }],
            None => Seq::<WireField>::empty(),
        })))),
    );
    lemma_encode_fields_append(
        (seq![WireField { tag: 104, value: WireValue::Varint(varint_of_i32(m.checkpoint_max_count)) }]),
        (seq![WireField { tag: 112, value: WireValue::Varint(varint_of_i32(m.checkpoint_min_count)) }]) + ((seq![WireField { tag: 120, value: WireValue::Varint(varint_of_i32(m.subscriber_max_count)) }]) + ((match m.named_consumer_strategy {
            Some(x) => seq![WireField { tag: 130, value: WireValue::Bytes(encode_utf8(x)) }],
            None => Seq::<WireField>::empty(),
        }))),
    );
    lemma_encode_fields_append(
        (seq![WireField { tag: 112, value: WireValue::Varint(varint_of_i32(m.checkpoint_min_count)) }]),
        (seq![WireField { tag: 120, value: WireValue::Varint(varint_of_i32(m.subscriber_max_count)) }]) + ((match m.named_consumer_strategy {
            Some(x) => seq![WireField { tag: 130, value: WireValue::Bytes(encode_utf8(x)) }],
            None => Seq::<WireField>::empty(),
        })),
    );
    lemma_encode_fields_append(
        (seq![WireField { tag: 120, value: WireValue::Varint(varint_of_i32(m.subscriber_max_count)) }]),
        (match m.named_consumer_strategy {
            Some(x) => seq![WireField { tag: 130, value: WireValue::Bytes(encode_utf8(x)) }],
            None => Seq::<WireField>::empty(),
        }),
    );
    lemma_bytes_field_layout(10, encode_utf8(m.subscription_group_name));
    lemma_bytes_field_layout(18, encode_utf8(m.event_stream_id));
    lemma_varint_field_layout(24, varint_of_bool(m.resolve_link_tos));
    lemma_varint_field_layout(32, varint_of_i32(m.start_from));
    lemma_varint_field_layout(40, varint_of_i32(m.message_timeout_milliseconds));
    lemma_varint_field_layout(48, varint_of_bool(m.record_statistics));
    lemma_varint_field_layout(56, varint_of_i32(m.live_buffer_size));
    lemma_varint_field_layout(64, varint_of_i32(m.read_batch_size));
    lemma_varint_field_layout(72, varint_of_i32(m.buffer_size));
    lemma_varint_field_layout(80, varint_of_i32(m.max_retry_count));
    lemma_varint_field_layout(88, varint_of_bool(m.prefer_round_robin));
    lemma_varint_field_layout(96, varint_of_i32(m.checkpoint_after_time));
    lemma_varint_field_layout(104, varint_of_i32(m.checkpoint_max_count));
    lemma_varint_field_layout(112, varint_of_i32(m.checkpoint_min_count));
    lemma_varint_field_layout(120, varint_of_i32(m.subscriber_max_count));
    if let Some(x) = m.named_consumer_strategy {
        lemma_bytes_field_layout(130, encode_utf8(x));
    }
}

/// Reading a written `CreatePersistentSubscription` gives it back.
pub proof fn lemma_create_persistent_subscription_roundtrip(m: CreatePersistentSubscriptionModel)
    requires
        create_persistent_subscription_wf(m),
    ensures
        create_persistent_subscription_decode(create_persistent_subscription_encode(m)) == Some(m),
{
    let ap = create_persistent_subscription_applier();
    lemma_create_persistent_subscription_fields_tagged(m);
    lemma_fields_canonical_of_short(create_persistent_subscription_fields(m));
    lemma_decode_encoded_fields(create_persistent_subscription_fields(m), create_persistent_subscription_default(), ap, create_persistent_subscription_known());
    let a0 = create_persistent_subscription_default();
    let a1 = CreatePersistentSubscriptionModel { subscription_group_name: m.subscription_group_name, ..a0 };
    lemma_apply_fields_append(
        (seq![WireField { tag: 10, value: WireValue::Bytes(encode_utf8(m.subscription_group_name)) }]),
        (seq![WireField { tag: 18, value: WireValue::Bytes(encode_utf8(m.event_stream_id)) }]) + ((seq![WireField { tag: 24, value: WireValue::Varint(varint_of_bool(m.resolve_link_tos)) }]) + ((seq![WireField { tag: 32, value: WireValue::Varint(varint_of_i32(m.start_from)) }]) + ((seq![WireField { tag: 40, value: WireValue::Varint(varint_of_i32(m.message_timeout_milliseconds)) }]) + ((seq![WireField { tag: 48, value: WireValue::Varint(varint_of_bool(m.record_statistics)) }]) + ((seq![WireField { tag: 56, value: WireValue::Varint(varint_of_i32(m.live_buffer_size)) }]) + ((seq![WireField { tag: 64, value: WireValue::Varint(varint_of_i32(m.read_batch_size)) }]) + ((seq![WireField { tag: 72, value: WireValue::Varint(varint_of_i32(m.buffer_size)) }]) + ((seq![WireField { tag: 80, value: WireValue::Varint(varint_of_i32(m.max_retry_count)) }]) + ((seq![WireField { tag: 88, value: WireValue::Varint(varint_of_bool(m.prefer_round_robin)) }]) + ((seq![WireField { tag: 96, value: WireValue::Varint(varint_of_i32(m.checkpoint_after_time)) }]) + ((seq![WireField { tag: 104, value: WireValue::Varint(varint_of_i32(m.checkpoint_max_count)) }]) + ((seq![WireField { tag: 112, value: WireValue::Varint(varint_of_i32(m.checkpoint_min_count)) }]) + ((seq![WireField { tag: 120, value: WireValue::Varint(varint_of_i32(m.subscriber_max_count)) }]) + ((match m.named_consumer_strategy {
            Some(x) => seq![WireField { tag: 130, value: WireValue::Bytes(encode_utf8(x)) }],
            None => Seq::<WireField>::empty(),
        }))))))))))))))),
        a0,
        ap,
    );
    assert(apply_fields((seq![WireField { tag: 10, value: WireValue::Bytes(encode_utf8(m.subscription_group_name)) }]), a0, ap) == Some(a1)) by {
        reveal_with_fuel(apply_fields, 2);
        lemma_string_roundtrip(m.subscription_group_name);
    }
    let a2 = CreatePersistentSubscriptionModel { event_stream_id: m.event_stream_id, ..a1 };
    lemma_apply_fields_append(
        (seq![WireField { tag: 18, value: WireValue::Bytes(encode_utf8(m.event_stream_id)) }]),
        (seq![WireField { tag: 24, value: WireValue::Varint(varint_of_bool(m.resolve_link_tos)) }]) + ((seq![WireField { tag: 32, value: WireValue::Varint(varint_of_i32(m.start_from)) }]) + ((seq![WireField { tag: 40, value: WireValue::Varint(varint_of_i32(m.message_timeout_milliseconds)) }]) + ((seq![WireField { tag: 48, value: WireValue::Varint(varint_of_bool(m.record_statistics)) }]) + ((seq![WireField { tag: 56, value: WireValue::Varint(varint_of_i32(m.live_buffer_size)) }]) + ((seq![WireField { tag: 64, value: WireValue::Varint(varint_of_i32(m.read_batch_size)) }]) + ((seq![WireField { tag: 72, value: WireValue::Varint(varint_of_i32(m.buffer_size)) }]) + ((seq![WireField { tag: 80, value: WireValue::Varint(varint_of_i32(m.max_retry_count)) }]) + ((seq![WireField { tag: 88, value: WireValue::Varint(varint_of_bool(m.prefer_round_robin)) }]) + ((seq![WireField { tag: 96, value: WireValue::Varint(varint_of_i32(m.checkpoint_after_time)) }]) + ((seq![WireField { tag: 104, value: WireValue::Varint(varint_of_i32(m.checkpoint_max_count)) }]) + ((seq![WireField { tag: 112, value: WireValue::Varint(varint_of_i32(m.checkpoint_min_count)) }]) + ((seq![WireField { tag: 120, value: WireValue::Varint(varint_of_i32(m.subscriber_max_count)) }]) + ((match m.named_consumer_strategy {
            Some(x) => seq![WireField { tag: 130, value: WireValue::Bytes(encode_utf8(x)) }],
            None => Seq::<WireField>::empty(),
        })))))))))))))),
        a1,
        ap,
    );
    assert(apply_fields((seq![WireField { tag: 18, value: WireValue::Bytes(encode_utf8(m.event_stream_id)) }]), a1, ap) == Some(a2)) by {
        reveal_with_fuel(apply_fields, 2);
        lemma_string_roundtrip(m.event_stream_id);
    }
    let a3 = CreatePersistentSubscriptionModel { resolve_link_tos: m.resolve_link_tos, ..a2 };
    lemma_apply_fields_append(
        (seq![WireField { tag: 24, value: WireValue::Varint(varint_of_bool(m.resolve_link_tos)) }]),
        (seq![WireField { tag: 32, value: WireValue::Varint(varint_of_i32(m.start_from)) }]) + ((seq![WireField { tag: 40, value: WireValue::Varint(varint_of_i32(m.message_timeout_milliseconds)) }]) + ((seq![WireField { tag: 48, value: WireValue::Varint(varint_of_bool(m.record_statistics)) }]) + ((seq![WireField { tag: 56, value: WireValue::Varint(varint_of_i32(m.live_buffer_size)) }]) + ((seq![WireField { tag: 64, value: WireValue::Varint(varint_of_i32(m.read_batch_size)) }]) + ((seq![WireField { tag: 72, value: WireValue::Varint(varint_of_i32(m.buffer_size)) }]) + ((seq![WireField { tag: 80, value: WireValue::Varint(varint_of_i32(m.max_retry_count)) }]) + ((seq![WireField { tag: 88, value: WireValue::Varint(varint_of_bool(m.prefer_round_robin)) }]) + ((seq![WireField { tag: 96, value: WireValue::Varint(varint_of_i32(m.checkpoint_after_time)) }]) + ((seq![WireField { tag: 104, value: WireValue::Varint(varint_of_i32(m.checkpoint_max_count)) }]) + ((seq![WireField { tag: 112, value: WireValue::Varint(varint_of_i32(m.checkpoint_min_count)) }]) + ((seq![WireField { tag: 120, value: WireValue::Varint(varint_of_i32(m.subscriber_max_count)) }]) + ((match m.named_consumer_strategy {
            Some(x) => seq![WireField { tag: 130, value: WireValue::Bytes(encode_utf8(x)) }],
            None => Seq::<WireField>::empty(),
        }))))))))))))),
        a2,
        ap,
    );
    assert(apply_fields((seq![WireField { tag: 24, value: WireValue::Varint(varint_of_bool(m.resolve_link_tos)) }]), a2, ap) == Some(a3)) by {
        reveal_with_fuel(apply_fields, 2);
        lemma_scalar_roundtrips(0, 0, m.resolve_link_tos);
    }
    let a4 = CreatePersistentSubscriptionModel { start_from: m.start_from, ..a3 };
    lemma_apply_fields_append(
        (seq![WireField { tag: 32, value: WireValue::Varint(varint_of_i32(m.start_from)) }]),
        (seq![WireField { tag: 40, value: WireValue::Varint(varint_of_i32(m.message_timeout_milliseconds)) }]) + ((seq![WireField { tag: 48, value: WireValue::Varint(varint_of_bool(m.record_statistics)) }]) + ((seq![WireField { tag: 56, value: WireValue::Varint(varint_of_i32(m.live_buffer_size)) }]) + ((seq![WireField { tag: 64, value: WireValue::Varint(varint_of_i32(m.read_batch_size)) }]) + ((seq![WireField { tag: 72, value: WireValue::Varint(varint_of_i32(m.buffer_size)) }]) + ((seq![WireField { tag: 80, value: WireValue::Varint(varint_of_i32(m.max_retry_count)) }]) + ((seq![WireField { tag: 88, value: WireValue::Varint(varint_of_bool(m.prefer_round_robin)) }]) + ((seq![WireField { tag: 96, value: WireValue::Varint(varint_of_i32(m.checkpoint_after_time)) }]) + ((seq![WireField { tag: 104, value: WireValue::Varint(varint_of_i32(m.checkpoint_max_count)) }]) + ((seq![WireField { tag: 112, value: WireValue::Varint(varint_of_i32(m.checkpoint_min_count)) }]) + ((seq![WireField { tag: 120, value: WireValue::Varint(varint_of_i32(m.subscriber_max_count)) }]) + ((match m.named_consumer_strategy {
            Some(x) => seq![WireField { tag: 130, value: WireValue::Bytes(encode_utf8(x)) }],
            None => Seq::<WireField>::empty(),
        })))))))))))),
        a3,
        ap,
    );
    assert(apply_fields((seq![WireField { tag: 32, value: WireValue::Varint(varint_of_i32(m.start_from)) }]), a3, ap) == Some(a4)) by {
        reveal_with_fuel(apply_fields, 2);
        lemma_scalar_roundtrips(m.start_from, 0, false);
    }
    let a5 = CreatePersistentSubscriptionModel { message_timeout_milliseconds: m.message_timeout_milliseconds, ..a4 };
    lemma_apply_fields_append(
        (seq![WireField { tag: 40, value: WireValue::Varint(varint_of_i32(m.message_timeout_milliseconds)) }]),
        (seq![WireField { tag: 48, value: WireValue::Varint(varint_of_bool(m.record_statistics)) }]) + ((seq![WireField { tag: 56, value: WireValue::Varint(varint_of_i32(m.live_buffer_size)) }]) + ((seq![WireField { tag: 64, value: WireValue::Varint(varint_of_i32(m.read_batch_size)) }]) + ((seq![WireField { tag: 72, value: WireValue::Varint(varint_of_i32(m.buffer_size)) }]) + ((seq![WireField { tag: 80, value: WireValue::Varint(varint_of_i32(m.max_retry_count)) }]) + ((seq![WireField { tag: 88, value: WireValue::Varint(varint_of_bool(m.prefer_round_robin)) }]) + ((seq![WireField { tag: 96, value: WireValue::Varint(varint_of_i32(m.checkpoint_after_time)) }]) + ((seq![WireField { tag: 104, value: WireValue::Varint(varint_of_i32(m.checkpoint_max_count)) }]) + ((seq![WireField { tag: 112, value: WireValue::Varint(varint_of_i32(m.checkpoint_min_count)) }]) + ((seq![WireField { tag: 120, value: WireValue::Varint(varint_of_i32(m.subscriber_max_count)) }]) + ((match m.named_consumer_strategy {
            Some(x) => seq![WireField { tag: 130, value: WireValue::Bytes(encode_utf8(x)) }],
            None => Seq::<WireField>::empty(),
        }))))))))))),
        a4,
        ap,
    );
    assert(apply_fields((seq![WireField { tag: 40, value: WireValue::Varint(varint_of_i32(m.message_timeout_milliseconds)) }]), a4, ap) == Some(a5)) by {
        reveal_with_fuel(apply_fields, 2);
        lemma_scalar_roundtrips(m.message_timeout_milliseconds, 0, false);
    }
    let a6 = CreatePersistentSubscriptionModel { record_statistics: m.record_statistics, ..a5 };
    lemma_apply_fields_append(
        (seq![WireField { tag: 48, value: WireValue::Varint(varint_of_bool(m.record_statistics)) }]),
        (seq![WireField { tag: 56, value: WireValue::Varint(varint_of_i32(m.live_buffer_size)) }]) + ((seq![WireField { tag: 64, value: WireValue::Varint(varint_of_i32(m.read_batch_size)) }]) + ((seq![WireField { tag: 72, value: WireValue::Varint(varint_of_i32(m.buffer_size)) }]) + ((seq![WireField { tag: 80, value: WireValue::Varint(varint_of_i32(m.max_retry_count)) }]) + ((seq![WireField { tag: 88, value: WireValue::Varint(varint_of_bool(m.prefer_round_robin)) }]) + ((seq![WireField { tag: 96, value: WireValue::Varint(varint_of_i32(m.checkpoint_after_time)) }]) + ((seq![WireField { tag: 104, value: WireValue::Varint(varint_of_i32(m.checkpoint_max_count)) }]) + ((seq![WireField { tag: 112, value: WireValue::Varint(varint_of_i32(m.checkpoint_min_count)) }]) + ((seq![WireField { tag: 120, value: WireValue::Varint(varint_of_i32(m.subscriber_max_count)) }]) + ((match m.named_consumer_strategy {
            Some(x) => seq![WireField { tag: 130, value: WireValue::Bytes(encode_utf8(x)) }],
            None => Seq::<WireField>::empty(),
        })))))))))),
        a5,
        ap,
    );
    assert(apply_fields((seq![WireField { tag: 48, value: WireValue::Varint(varint_of_bool(m.record_statistics)) }]), a5, ap) == Some(a6)) by {
        reveal_with_fuel(apply_fields, 2);
        lemma_scalar_roundtrips(0, 0, m.record_statistics);
    }
    let a7 = CreatePersistentSubscriptionModel { live_buffer_size: m.live_buffer_size, ..a6 };
    lemma_apply_fields_append(
        (seq![WireField { tag: 56, value: WireValue::Varint(varint_of_i32(m.live_buffer_size)) }]),
        (seq![WireField { tag: 64, value: WireValue::Varint(varint_of_i32(m.read_batch_size)) }]) + ((seq![WireField { tag: 72, value: WireValue::Varint(varint_of_i32(m.buffer_size)) }]) + ((seq![WireField { tag: 80, value: WireValue::Varint(varint_of_i32(m.max_retry_count)) }]) + ((seq![WireField { tag: 88, value: WireValue::Varint(varint_of_bool(m.prefer_round_robin)) }]) + ((seq![WireField { tag: 96, value: WireValue::Varint(varint_of_i32(m.checkpoint_after_time)) }]) + ((seq![WireField { tag: 104, value: WireValue::Varint(varint_of_i32(m.checkpoint_max_count)) }]) + ((seq![WireField { tag: 112, value: WireValue::Varint(varint_of_i32(m.checkpoint_min_count)) }]) + ((seq![WireField { tag: 120, value: WireValue::Varint(varint_of_i32(m.subscriber_max_count)) }]) + ((match m.named_consumer_strategy {
            Some(x) => seq![WireField { tag: 130, value: WireValue::Bytes(encode_utf8(x)) }],
            None => Seq::<WireField>::empty(),
        }))))))))),
        a6,
        ap,
    );
    assert(apply_fields((seq![WireField { tag: 56, value: WireValue::Varint(varint_of_i32(m.live_buffer_size)) }]), a6, ap) == Some(a7)) by {
        reveal_with_fuel(apply_fields, 2);
        lemma_scalar_roundtrips(m.live_buffer_size, 0, false);
    }
    let a8 = CreatePersistentSubscriptionModel { read_batch_size: m.read_batch_size, ..a7 };
    lemma_apply_fields_append(
        (seq![WireField { tag: 64, value: WireValue::Varint(varint_of_i32(m.read_batch_size)) }]),
        (seq![WireField { tag: 72, value: WireValue::Varint(varint_of_i32(m.buffer_size)) }]) + ((seq![WireField { tag: 80, value: WireValue::Varint(varint_of_i32(m.max_retry_count)) }]) + ((seq![WireField { tag: 88, value: WireValue::Varint(varint_of_bool(m.prefer_round_robin)) }]) + ((seq![WireField { tag: 96, value: WireValue::Varint(varint_of_i32(m.checkpoint_after_time)) }]) + ((seq![WireField { tag: 104, value: WireValue::Varint(varint_of_i32(m.checkpoint_max_count)) }]) + ((seq![WireField { tag: 112, value: WireValue::Varint(varint_of_i32(m.checkpoint_min_count)) }]) + ((seq![WireField { tag: 120, value: WireValue::Varint(varint_of_i32(m.subscriber_max_count)) }]) + ((match m.named_consumer_strategy {
            Some(x) => seq![WireField { tag: 130, value: WireValue::Bytes(encode_utf8(x)) }],
            None => Seq::<WireField>::empty(),
        })))))))),
        a7,
        ap,
    );
    assert(apply_fields((seq![WireField { tag: 64, value: WireValue::Varint(varint_of_i32(m.read_batch_size)) }]), a7, ap) == Some(a8)) by {
        reveal_with_fuel(apply_fields, 2);
        lemma_scalar_roundtrips(m.read_batch_size, 0, false);
    }
    let a9 = CreatePersistentSubscriptionModel { buffer_size: m.buffer_size, ..a8 };
    lemma_apply_fields_append(
        (seq![WireField { tag: 72, value: WireValue::Varint(varint_of_i32(m.buffer_size)) }]),
        (seq![WireField { tag: 80, value: WireValue::Varint(varint_of_i32(m.max_retry_count)) }]) + ((seq![WireField { tag: 88, value: WireValue::Varint(varint_of_bool(m.prefer_round_robin)) }]) + ((seq![WireField { tag: 96, value: WireValue::Varint(varint_of_i32(m.checkpoint_after_time)) }]) + ((seq![WireField { tag: 104, value: WireValue::Varint(varint_of_i32(m.checkpoint_max_count)) }]) + ((seq![WireField { tag: 112, value: WireValue::Varint(varint_of_i32(m.checkpoint_min_count)) }]) + ((seq![WireField { tag: 120, value: WireValue::Varint(varint_of_i32(m.subscriber_max_count)) }]) + ((match m.named_consumer_strategy {
            Some(x) => seq![WireField { tag: 130, value: WireValue::Bytes(encode_utf8(x)) }],
            None => Seq::<WireField>::empty(),
        }))))))),
        a8,
        ap,
    );
    assert(apply_fields((seq![WireField { tag: 72, value: WireValue::Varint(varint_of_i32(m.buffer_size)) }]), a8, ap) == Some(a9)) by {
        reveal_with_fuel(apply_fields, 2);
        lemma_scalar_roundtrips(m.buffer_size, 0, false);
    }
    let a10 = CreatePersistentSubscriptionModel { max_retry_count: m.max_retry_count, ..a9 };
    lemma_apply_fields_append(
        (seq![WireField { tag: 80, value: WireValue::Varint(varint_of_i32(m.max_retry_count)) }]),
        (seq![WireField { tag: 88, value: WireValue::Varint(varint_of_bool(m.prefer_round_robin)) }]) + ((seq![WireField { tag: 96, value: WireValue::Varint(varint_of_i32(m.checkpoint_after_time)) }]) + ((seq![WireField { tag: 104, value: WireValue::Varint(varint_of_i32(m.checkpoint_max_count)) }]) + ((seq![WireField { tag: 112, value: WireValue::Varint(varint_of_i32(m.checkpoint_min_count)) }]) + ((seq![WireField { tag: 120, value: WireValue::Varint(varint_of_i32(m.subscriber_max_count)) }]) + ((match m.named_consumer_strategy {
            Some(x) => seq![WireField { tag: 130, value: WireValue::Bytes(encode_utf8(x)) }],
            None => Seq::<WireField>::empty(),
        })))))),
        a9,
        ap,
    );
    assert(apply_fields((seq![WireField { tag: 80, value: WireValue::Varint(varint_of_i32(m.max_retry_count)) }]), a9, ap) == Some(a10)) by {
        reveal_with_fuel(apply_fields, 2);
        lemma_scalar_roundtrips(m.max_retry_count, 0, false);
    }
    let a11 = CreatePersistentSubscriptionModel { prefer_round_robin: m.prefer_round_robin, ..a10 };
    lemma_apply_fields_append(
        (seq![WireField { tag: 88, value: WireValue::Varint(varint_of_bool(m.prefer_round_robin)) }]),
        (seq![WireField { tag: 96, value: WireValue::Varint(varint_of_i32(m.checkpoint_after_time)) }]) + ((seq![WireField { tag: 104, value: WireValue::Varint(varint_of_i32(m.checkpoint_max_count)) }]) + ((seq![WireField { tag: 112, value: WireValue::Varint(varint_of_i32(m.checkpoint_min_count)) }]) + ((seq![WireField { tag: 120, value: WireValue::Varint(varint_of_i32(m.subscriber_max_count)) }]) + ((match m.named_consumer_strategy {
            Some(x) => seq![WireField { tag: 130, value: WireValue::Bytes(encode_utf8(x)) }],
            None => Seq::<WireField>::empty(),
        }))))),
        a10,
        ap,
    );
    assert(apply_fields((seq![WireField { tag: 88, value: WireValue::Varint(varint_of_bool(m.prefer_round_robin)) }]), a10, ap) == Some(a11)) by {
        reveal_with_fuel(apply_fields, 2);
        lemma_scalar_roundtrips(0, 0, m.prefer_round_robin);
    }
    let a12 = CreatePersistentSubscriptionModel { checkpoint_after_time: m.checkpoint_after_time, ..a11 };
    lemma_apply_fields_append(
        (seq![WireField { tag: 96, value: WireValue::Varint(varint_of_i32(m.checkpoint_after_time)) }]),
        (seq![WireField { tag: 104, value: WireValue::Varint(varint_of_i32(m.checkpoint_max_count)) }]) + ((seq![WireField { tag: 112, value: WireValue::Varint(varint_of_i32(m.checkpoint_min_count)) }]) + ((seq![WireField { tag: 120, value: WireValue::Varint(varint_of_i32(m.subscriber_max_count)) }]) + ((match m.named_consumer_strategy {
            Some(x) => seq![WireField { tag: 130, value: WireValue::Bytes(encode_utf8(x)) }],
            None => Seq::<WireField>::empty(),
        })))),
        a11,
        ap,
    );
    assert(apply_fields((seq![WireField { tag: 96, value: WireValue::Varint(varint_of_i32(m.checkpoint_after_time)) }]), a11, ap) == Some(a12)) by {
        reveal_with_fuel(apply_fields, 2);
        lemma_scalar_roundtrips(m.checkpoint_after_time, 0, false);
    }
    let a13 = CreatePersistentSubscriptionModel { checkpoint_max_count: m.checkpoint_max_count, ..a12 };
    lemma_apply_fields_append(
        (seq![WireField { tag: 104, value: WireValue::Varint(varint_of_i32(m.checkpoint_max_count)) }]),
        (seq![WireField { tag: 112, value: WireValue::Varint(varint_of_i32(m.checkpoint_min_count)) }]) + ((seq![WireField { tag: 120, value: WireValue::Varint(varint_of_i32(m.subscriber_max_count)) }]) + ((match m.named_consumer_strategy {
            Some(x) => seq![WireField { tag: 130, value: WireValue::Bytes(encode_utf8(x)) }],
            None => Seq::<WireField>::empty(),
        }))),
        a12,
        ap,
    );
    assert(apply_fields((seq![WireField { tag: 104, value: WireValue::Varint(varint_of_i32(m.checkpoint_max_count)) }]), a12, ap) == Some(a13)) by {
        reveal_with_fuel(apply_fields, 2);
        lemma_scalar_roundtrips(m.checkpoint_max_count, 0, false);
    }
    let a14 = CreatePersistentSubscriptionModel { checkpoint_min_count: m.checkpoint_min_count, ..a13 };
    lemma_apply_fields_append(
        (seq![WireField { tag: 112, value: WireValue::Varint(varint_of_i32(m.checkpoint_min_count)) }]),
        (seq![WireField { tag: 120, value: WireValue::Varint(varint_of_i32(m.subscriber_max_count)) }]) + ((match m.named_consumer_strategy {
            Some(x) => seq![WireField { tag: 130, value: WireValue::Bytes(encode_utf8(x)) }],
            None => Seq::<WireField>::empty(),
        })),
        a13,
        ap,
    );
    assert(apply_fields((seq![WireField { tag: 112, value: WireValue::Varint(varint_of_i32(m.checkpoint_min_count)) }]), a13, ap) == Some(a14)) by {
        reveal_with_fuel(apply_fields, 2);
        lemma_scalar_roundtrips(m.checkpoint_min_count, 0, false);
    }
    let a15 = CreatePersistentSubscriptionModel { subscriber_max_count: m.subscriber_max_count, ..a14 };
    lemma_apply_fields_append(
        (seq![WireField { tag: 120, value: WireValue::Varint(varint_of_i32(m.subscriber_max_count)) }]),
        (match m.named_consumer_strategy {
            Some(x) => seq![WireField { tag: 130, value: WireValue::Bytes(encode_utf8(x)) }],
            None => Seq::<WireField>::empty(),
        }),
        a14,
        ap,
    );
    assert(apply_fields((seq![WireField { tag: 120, value: WireValue::Varint(varint_of_i32(m.subscriber_max_count)) }]), a14, ap) == Some(a15)) by {
        reveal_with_fuel(apply_fields, 2);
        lemma_scalar_roundtrips(m.subscriber_max_count, 0, false);
    }
    let a16 = CreatePersistentSubscriptionModel { named_consumer_strategy: m.named_consumer_strategy, ..a15 };
    assert(apply_fields((match m.named_consumer_strategy {
        Some(x) => seq![WireField { tag: 130, value: WireValue::Bytes(encode_utf8(x)) }],
        None => Seq::<WireField>::empty(),
    }), a15, ap) == Some(a16)) by {
        reveal_with_fuel(apply_fields, 2);
        if let Some(x) = m.named_consumer_strategy {
            lemma_string_roundtrip(x);
        }
    }
    assert(a16 == m);
}

impl CreatePersistentSubscription {
    /// Decodes a `CreatePersistentSubscription` from its protobuf bytes.
    pub fn from_reader(bytes: &[u8]) -> (res: Option<CreatePersistentSubscription>)
        ensures
            create_persistent_subscription_decode(bytes@) matches Some(m) ==> (res matches Some(e) && e@ == m),
            create_persistent_subscription_decode(bytes@) is None ==> res is None,
    {
        let mut msg = CreatePersistentSubscription::default_value();
        let mut pos: usize = 0;
        assert(bytes@.skip(0) =~= bytes@);
        while pos < bytes.len()
            invariant
                pos <= bytes@.len(),
                create_persistent_subscription_decode(bytes@) == decode_fields(bytes@.skip(pos as int), msg@, create_persistent_subscription_applier(), create_persistent_subscription_known()),
            decreases bytes@.len() - pos,
        {
            let ghost old_msg = msg@;
            let (tag, p) = match read_tag(bytes, pos) {
                Some(x) => x,
                None => {
                    return None;
                },
            };
            proof {
                lemma_field_parts(bytes@, pos as int, create_persistent_subscription_known());
            }
            let known: bool = tag == 10 || tag == 18 || tag == 24 || tag == 32 || tag == 40 || tag == 48 || tag == 56 || tag == 64 || tag == 72 || tag == 80 || tag == 88 || tag == 96 || tag == 104 || tag == 112 || tag == 120 || tag == 130;
            let (value, next) = match read_value(bytes, p, tag, known) {
                Some(x) => x,
                None => {
                    return None;
                },
            };
            let ghost f = parse_field(bytes@.skip(pos as int), create_persistent_subscription_known()).unwrap().0;
            proof {
                lemma_decode_step(bytes@, pos as int, old_msg, create_persistent_subscription_applier(), create_persistent_subscription_known());
                lemma_parse_field_len(bytes@.skip(pos as int), create_persistent_subscription_known());
            }
            if tag == 10 {
                match value {
                    FieldValue::Bytes(i, j) => match copy_string(bytes, i, j) {
                        Some(s) => {
                            msg.subscription_group_name = s;
                        },
                        None => {
                            return None;
                        },
                    },
                    _ => {
                        return None;
                    },
                }
            } else if tag == 18 {
                match value {
                    FieldValue::Bytes(i, j) => match copy_string(bytes, i, j) {
                        Some(s) => {
                            msg.event_stream_id = s;
                        },
                        None => {
                            return None;
                        },
                    },
                    _ => {
                        return None;
                    },
                }
            } else if tag == 24 {
                match value {
                    FieldValue::Varint(v) => {
                        msg.resolve_link_tos = varint_bool(v);
                    },
                    _ => {
                        return None;
                    },
                }
            } else if tag == 32 {
                match value {
                    FieldValue::Varint(v) => {
                        msg.start_from = varint_i32(v);
                    },
                    _ => {
                        return None;
                    },
                }
            } else if tag == 40 {
                match value {
                    FieldValue::Varint(v) => {
                        msg.message_timeout_milliseconds = varint_i32(v);
                    },
                    _ => {
                        return None;
                    },
                }
            } else if tag == 48 {
                match value {
                    FieldValue::Varint(v) => {
                        msg.record_statistics = varint_bool(v);
                    },
                    _ => {
                        return None;
                    },
                }
            } else if tag == 56 {
                match value {
                    FieldValue::Varint(v) => {
                        msg.live_buffer_size = varint_i32(v);
                    },
                    _ => {
                        return None;
                    },
                }
            } else if tag == 64 {
                match value {
                    FieldValue::Varint(v) => {
                        msg.read_batch_size = varint_i32(v);
                    },
                    _ => {
                        return None;
                    },
                }
            } else if tag == 72 {
                match value {
                    FieldValue::Varint(v) => {
                        msg.buffer_size = varint_i32(v);
                    },
                    _ => {
                        return None;
                    },
                }
            } else if tag == 80 {
                match value {
                    FieldValue::Varint(v) => {
                        msg.max_retry_count = varint_i32(v);
                    },
                    _ => {
                        return None;
                    },
                }
            } else if tag == 88 {
                match value {
                    FieldValue::Varint(v) => {
                        msg.prefer_round_robin = varint_bool(v);
                    },
                    _ => {
                        return None;
                    },
                }
            } else if tag == 96 {
                match value {
                    FieldValue::Varint(v) => {
                        msg.checkpoint_after_time = varint_i32(v);
                    },
                    _ => {
                        return None;
                    },
                }
            } else if tag == 104 {
                match value {
                    FieldValue::Varint(v) => {
                        msg.checkpoint_max_count = varint_i32(v);
                    },
                    _ => {
                        return None;
                    },
                }
            } else if tag == 112 {
                match value {
                    FieldValue::Varint(v) => {
                        msg.checkpoint_min_count = varint_i32(v);
                    },
                    _ => {
                        return None;
                    },
                }
            } else if tag == 120 {
                match value {
                    FieldValue::Varint(v) => {
                        msg.subscriber_max_count = varint_i32(v);
                    },
                    _ => {
                        return None;
                    },
                }
            } else if tag == 130 {
                match value {
                    FieldValue::Bytes(i, j) => match copy_string(bytes, i, j) {
                        Some(s) => {
                            msg.named_consumer_strategy = Some(s);
                        },
                        None => {
                            return None;
                        },
                    },
                    _ => {
                        return None;
                    },
                }
            }
            assert(create_persistent_subscription_apply(old_msg, f) == Some(msg@));
            pos = next;
        }
        assert(bytes@.skip(pos as int).len() == 0);
        Some(msg)
    }

    /// A `CreatePersistentSubscription` with every field at its default.
    pub fn default_value() -> (m: CreatePersistentSubscription)
        ensures
            m@ == create_persistent_subscription_default(),
    {
        let m = CreatePersistentSubscription {
            subscription_group_name: String::new(),
            event_stream_id: String::new(),
            resolve_link_tos: false,
            start_from: 0,
            message_timeout_milliseconds: 0,
            record_statistics: false,
            live_buffer_size: 0,
            read_batch_size: 0,
            buffer_size: 0,
            max_retry_count: 0,
            prefer_round_robin: false,
            checkpoint_after_time: 0,
            checkpoint_max_count: 0,
            checkpoint_min_count: 0,
            subscriber_max_count: 0,
            named_consumer_strategy: None,
        };
        m
    }

    /// A copy of this `CreatePersistentSubscription`.
    pub fn copy(&self) -> (c: CreatePersistentSubscription)
        ensures
            c@ == self@,
    {
        let c = CreatePersistentSubscription {
            subscription_group_name: self.subscription_group_name.clone(),
            event_stream_id: self.event_stream_id.clone(),
            resolve_link_tos: self.resolve_link_tos,
            start_from: self.start_from,
            message_timeout_milliseconds: self.message_timeout_milliseconds,
            record_statistics: self.record_statistics,
            live_buffer_size: self.live_buffer_size,
            read_batch_size: self.read_batch_size,
            buffer_size: self.buffer_size,
            max_retry_count: self.max_retry_count,
            prefer_round_robin: self.prefer_round_robin,
            checkpoint_after_time: self.checkpoint_after_time,
            checkpoint_max_count: self.checkpoint_max_count,
            checkpoint_min_count: self.checkpoint_min_count,
            subscriber_max_count: self.subscriber_max_count,
            named_consumer_strategy: match &self.named_consumer_strategy {
                Some(x) => Some(x.clone()),
                None => None,
            },
        };
        assert(c@.subscription_group_name =~= self@.subscription_group_name);
        assert(c@.event_stream_id =~= self@.event_stream_id);
        assert(c@.named_consumer_strategy =~= self@.named_consumer_strategy);
        c
    }

    /// Encodes this `CreatePersistentSubscription` as protobuf bytes.
    #[verifier::spinoff_prover]
    #[verifier::rlimit(30)]
    pub fn encode(&self) -> (out: Vec<u8>)
        ensures
            out@ == create_persistent_subscription_encode(self@),
            out@.len() < modulus32() ==> create_persistent_subscription_wf(self@),
    {
        let mut out: Vec<u8> = Vec::new();
        let ghost mut fs: Seq<WireField> = Seq::empty();
        write_bytes_field(&mut out, 10, self.subscription_group_name.as_str().as_bytes());
        proof {
            let f = WireField { tag: 10, value: WireValue::Bytes(encode_utf8(self.subscription_group_name@)) };
            lemma_encode_fields_push(fs, f);
            lemma_fields_shaped_push(fs, f);
            fs = fs.push(f);
        }
        write_bytes_field(&mut out, 18, self.event_stream_id.as_str().as_bytes());
        proof {
            let f = WireField { tag: 18, value: WireValue::Bytes(encode_utf8(self.event_stream_id@)) };
            lemma_encode_fields_push(fs, f);
            lemma_fields_shaped_push(fs, f);
            fs = fs.push(f);
        }
        write_varint_field(&mut out, 24, bool_varint(self.resolve_link_tos));
        proof {
            let f = WireField { tag: 24, value: WireValue::Varint(varint_of_bool(self.resolve_link_tos)) };
            lemma_encode_fields_push(fs, f);
            lemma_fields_shaped_push(fs, f);
            fs = fs.push(f);
        }
        write_varint_field(&mut out, 32, i32_varint(self.start_from));
        proof {
            let f = WireField { tag: 32, value: WireValue::Varint(varint_of_i32(self.start_from)) };
            lemma_encode_fields_push(fs, f);
            lemma_fields_shaped_push(fs, f);
            fs = fs.push(f);
        }
        write_varint_field(&mut out, 40, i32_varint(self.message_timeout_milliseconds));
        proof {
            let f = WireField { tag: 40, value: WireValue::Varint(varint_of_i32(self.message_timeout_milliseconds)) };
            lemma_encode_fields_push(fs, f);
            lemma_fields_shaped_push(fs, f);
            fs = fs.push(f);
        }
        write_varint_field(&mut out, 48, bool_varint(self.record_statistics));
        proof {
            let f = WireField { tag: 48, value: WireValue::Varint(varint_of_bool(self.record_statistics)) };
            lemma_encode_fields_push(fs, f);
            lemma_fields_shaped_push(fs, f);
            fs = fs.push(f);
        }
        write_varint_field(&mut out, 56, i32_varint(self.live_buffer_size));
        proof {
            let f = WireField { tag: 56, value: WireValue::Varint(varint_of_i32(self.live_buffer_size)) };
            lemma_encode_fields_push(fs, f);
            lemma_fields_shaped_push(fs, f);
            fs = fs.push(f);
        }
        write_varint_field(&mut out, 64, i32_varint(self.read_batch_size));
        proof {
            let f = WireField { tag: 64, value: WireValue::Varint(varint_of_i32(self.read_batch_size)) };
            lemma_encode_fields_push(fs, f);
            lemma_fields_shaped_push(fs, f);
            fs = fs.push(f);
        }
        write_varint_field(&mut out, 72, i32_varint(self.buffer_size));
        proof {
            let f = WireField { tag: 72, value: WireValue::Varint(varint_of_i32(self.buffer_size)) };
            lemma_encode_fields_push(fs, f);
            lemma_fields_shaped_push(fs, f);
            fs = fs.push(f);
        }
        write_varint_field(&mut out, 80, i32_varint(self.max_retry_count));
        proof {
            let f = WireField { tag: 80, value: WireValue::Varint(varint_of_i32(self.max_retry_count)) };
            lemma_encode_fields_push(fs, f);
            lemma_fields_shaped_push(fs, f);
            fs = fs.push(f);
        }
        write_varint_field(&mut out, 88, bool_varint(self.prefer_round_robin));
        proof {
            let f = WireField { tag: 88, value: WireValue::Varint(varint_of_bool(self.prefer_round_robin)) };
            lemma_encode_fields_push(fs, f);
            lemma_fields_shaped_push(fs, f);
            fs = fs.push(f);
        }
        write_varint_field(&mut out, 96, i32_varint(self.checkpoint_after_time));
        proof {
            let f = WireField { tag: 96, value: WireValue::Varint(varint_of_i32(self.checkpoint_after_time)) };
            lemma_encode_fields_push(fs, f);
            lemma_fields_shaped_push(fs, f);
            fs = fs.push(f);
        }
        write_varint_field(&mut out, 104, i32_varint(self.checkpoint_max_count));
        proof {
            let f = WireField { tag: 104, value: WireValue::Varint(varint_of_i32(self.checkpoint_max_count)) };
            lemma_encode_fields_push(fs, f);
            lemma_fields_shaped_push(fs, f);
            fs = fs.push(f);
        }
        write_varint_field(&mut out, 112, i32_varint(self.checkpoint_min_count));
        proof {
            let f = WireField { tag: 112, value: WireValue::Varint(varint_of_i32(self.checkpoint_min_count)) };
            lemma_encode_fields_push(fs, f);
            lemma_fields_shaped_push(fs, f);
            fs = fs.push(f);
        }
        write_varint_field(&mut out, 120, i32_varint(self.subscriber_max_count));
        proof {
            let f = WireField { tag: 120, value: WireValue::Varint(varint_of_i32(self.subscriber_max_count)) };
            lemma_encode_fields_push(fs, f);
            lemma_fields_shaped_push(fs, f);
            fs = fs.push(f);
        }
        match &self.named_consumer_strategy {
            Some(x) => {
                write_bytes_field(&mut out, 130, x.as_str().as_bytes());
                proof {
                    let f = WireField { tag: 130, value: WireValue::Bytes(encode_utf8(x@)) };
                    lemma_encode_fields_push(fs, f);
                    lemma_fields_shaped_push(fs, f);
                    fs = fs.push(f);
                }
            },
            None => {},
        }
        assert(fs =~= create_persistent_subscription_fields(self@));
        proof {
            if out@.len() < modulus32() {
                lemma_fields_canonical_of_len(fs);
            }
        }
        out
    }

    /// The number of bytes of the encoding of this `CreatePersistentSubscription`, computed without encoding it.
    #[verifier::spinoff_prover]
    #[verifier::rlimit(30)]
    pub fn get_size(&self) -> (n: usize)
        requires
            create_persistent_subscription_encode(self@).len() <= usize::MAX,
        ensures
            n == create_persistent_subscription_encode(self@).len(),
    {
        let ghost m = self@;
        proof {
            lemma_encode_fields_append(
                (seq![WireField { tag: 10, value: WireValue::Bytes(encode_utf8(m.subscription_group_name)) }]),
                (seq![WireField { tag: 18, value: WireValue::Bytes(encode_utf8(m.event_stream_id)) }]) + ((seq![WireField { tag: 24, value: WireValue::Varint(varint_of_bool(m.resolve_link_tos)) }]) + ((seq![WireField { tag: 32, value: WireValue::Varint(varint_of_i32(m.start_from)) }]) + ((seq![WireField { tag: 40, value: WireValue::Varint(varint_of_i32(m.message_timeout_milliseconds)) }]) + ((seq![WireField { tag: 48, value: WireValue::Varint(varint_of_bool(m.record_statistics)) }]) + ((seq![WireField { tag: 56, value: WireValue::Varint(varint_of_i32(m.live_buffer_size)) }]) + ((seq![WireField { tag: 64, value: WireValue::Varint(varint_of_i32(m.read_batch_size)) }]) + ((seq![WireField { tag: 72, value: WireValue::Varint(varint_of_i32(m.buffer_size)) }]) + ((seq![WireField { tag: 80, value: WireValue::Varint(varint_of_i32(m.max_retry_count)) }]) + ((seq![WireField { tag: 88, value: WireValue::Varint(varint_of_bool(m.prefer_round_robin)) }]) + ((seq![WireField { tag: 96, value: WireValue::Varint(varint_of_i32(m.checkpoint_after_time)) }]) + ((seq![WireField { tag: 104, value: WireValue::Varint(varint_of_i32(m.checkpoint_max_count)) }]) + ((seq![WireField { tag: 112, value: WireValue::Varint(varint_of_i32(m.checkpoint_min_count)) }]) + ((seq![WireField { tag: 120, value: WireValue::Varint(varint_of_i32(m.subscriber_max_count)) }]) + ((match m.named_consumer_strategy {
                    Some(x) => seq![WireField { tag: 130, value: WireValue::Bytes(encode_utf8(x)) }],
                    None => Seq::<WireField>::empty(),
                }))))))))))))))),
            );
            lemma_encode_fields_append(
                (seq![WireField { tag: 18, value: WireValue::Bytes(encode_utf8(m.event_stream_id)) }]),
                (seq![WireField { tag: 24, value: WireValue::Varint(varint_of_bool(m.resolve_link_tos)) }]) + ((seq![WireField { tag: 32, value: WireValue::Varint(varint_of_i32(m.start_from)) }]) + ((seq![WireField { tag: 40, value: WireValue::Varint(varint_of_i32(m.message_timeout_milliseconds)) }]) + ((seq![WireField { tag: 48, value: WireValue::Varint(varint_of_bool(m.record_statistics)) }]) + ((seq![WireField { tag: 56, value: WireValue::Varint(varint_of_i32(m.live_buffer_size)) }]) + ((seq![WireField { tag: 64, value: WireValue::Varint(varint_of_i32(m.read_batch_size)) }]) + ((seq![WireField { tag: 72, value: WireValue::Varint(varint_of_i32(m.buffer_size)) }]) + ((seq![WireField { tag: 80, value: WireValue::Varint(varint_of_i32(m.max_retry_count)) }]) + ((seq![WireField { tag: 88, value: WireValue::Varint(varint_of_bool(m.prefer_round_robin)) }]) + ((seq![WireField { tag: 96, value: WireValue::Varint(varint_of_i32(m.checkpoint_after_time)) }]) + ((seq![WireField { tag: 104, value: WireValue::Varint(varint_of_i32(m.checkpoint_max_count)) }]) + ((seq![WireField { tag: 112, value: WireValue::Varint(varint_of_i32(m.checkpoint_min_count)) }]) + ((seq![WireField { tag: 120, value: WireValue::Varint(varint_of_i32(m.subscriber_max_count)) }]) + ((match m.named_consumer_strategy {
                    Some(x) => seq![WireField { tag: 130, value: WireValue::Bytes(encode_utf8(x)) }],
                    None => Seq::<WireField>::empty(),
                })))))))))))))),
            );
            lemma_encode_fields_append(
                (seq![WireField { tag: 24, value: WireValue::Varint(varint_of_bool(m.resolve_link_tos)) }]),
                (seq![WireField { tag: 32, value: WireValue::Varint(varint_of_i32(m.start_from)) }]) + ((seq![WireField { tag: 40, value: WireValue::Varint(varint_of_i32(m.message_timeout_milliseconds)) }]) + ((seq![WireField { tag: 48, value: WireValue::Varint(varint_of_bool(m.record_statistics)) }]) + ((seq![WireField { tag: 56, value: WireValue::Varint(varint_of_i32(m.live_buffer_size)) }]) + ((seq![WireField { tag: 64, value: WireValue::Varint(varint_of_i32(m.read_batch_size)) }]) + ((seq![WireField { tag: 72, value: WireValue::Varint(varint_of_i32(m.buffer_size)) }]) + ((seq![WireField { tag: 80, value: WireValue::Varint(varint_of_i32(m.max_retry_count)) }]) + ((seq![WireField { tag: 88, value: WireValue::Varint(varint_of_bool(m.prefer_round_robin)) }]) + ((seq![WireField { tag: 96, value: WireValue::Varint(varint_of_i32(m.checkpoint_after_time)) }]) + ((seq![WireField { tag: 104, value: WireValue::Varint(varint_of_i32(m.checkpoint_max_count)) }]) + ((seq![WireField { tag: 112, value: WireValue::Varint(varint_of_i32(m.checkpoint_min_count)) }]) + ((seq![WireField { tag: 120, value: WireValue::Varint(varint_of_i32(m.subscriber_max_count)) }]) + ((match m.named_consumer_strategy {
                    Some(x) => seq![WireField { tag: 130, value: WireValue::Bytes(encode_utf8(x)) }],
                    None => Seq::<WireField>::empty(),
                }))))))))))))),
            );
            lemma_encode_fields_append(
                (seq![WireField { tag: 32, value: WireValue::Varint(varint_of_i32(m.start_from)) }]),
                (seq![WireField { tag: 40, value: WireValue::Varint(varint_of_i32(m.message_timeout_milliseconds)) }]) + ((seq![WireField { tag: 48, value: WireValue::Varint(varint_of_bool(m.record_statistics)) }]) + ((seq![WireField { tag: 56, value: WireValue::Varint(varint_of_i32(m.live_buffer_size)) }]) + ((seq![WireField { tag: 64, value: WireValue::Varint(varint_of_i32(m.read_batch_size)) }]) + ((seq![WireField { tag: 72, value: WireValue::Varint(varint_of_i32(m.buffer_size)) }]) + ((seq![WireField { tag: 80, value: WireValue::Varint(varint_of_i32(m.max_retry_count)) }]) + ((seq![WireField { tag: 88, value: WireValue::Varint(varint_of_bool(m.prefer_round_robin)) }]) + ((seq![WireField { tag: 96, value: WireValue::Varint(varint_of_i32(m.checkpoint_after_time)) }]) + ((seq![WireField { tag: 104, value: WireValue::Varint(varint_of_i32(m.checkpoint_max_count)) }]) + ((seq![WireField { tag: 112, value: WireValue::Varint(varint_of_i32(m.checkpoint_min_count)) }]) + ((seq![WireField { tag: 120, value: WireValue::Varint(varint_of_i32(m.subscriber_max_count)) }]) + ((match m.named_consumer_strategy {
                    Some(x) => seq![WireField { tag: 130, value: WireValue::Bytes(encode_utf8(x)) }],
                    None => Seq::<WireField>::empty(),
                })))))))))))),
            );
            lemma_encode_fields_append(
                (seq![WireField { tag: 40, value: WireValue::Varint(varint_of_i32(m.message_timeout_milliseconds)) }]),
                (seq![WireField { tag: 48, value: WireValue::Varint(varint_of_bool(m.record_statistics)) }]) + ((seq![WireField { tag: 56, value: WireValue::Varint(varint_of_i32(m.live_buffer_size)) }]) + ((seq![WireField { tag: 64, value: WireValue::Varint(varint_of_i32(m.read_batch_size)) }]) + ((seq![WireField { tag: 72, value: WireValue::Varint(varint_of_i32(m.buffer_size)) }]) + ((seq![WireField { tag: 80, value: WireValue::Varint(varint_of_i32(m.max_retry_count)) }]) + ((seq![WireField { tag: 88, value: WireValue::Varint(varint_of_bool(m.prefer_round_robin)) }]) + ((seq![WireField { tag: 96, value: WireValue::Varint(varint_of_i32(m.checkpoint_after_time)) }]) + ((seq![WireField { tag: 104, value: WireValue::Varint(varint_of_i32(m.checkpoint_max_count)) }]) + ((seq![WireField { tag: 112, value: WireValue::Varint(varint_of_i32(m.checkpoint_min_count)) }]) + ((seq![WireField { tag: 120, value: WireValue::Varint(varint_of_i32(m.subscriber_max_count)) }]) + ((match m.named_consumer_strategy {
                    Some(x) => seq![WireField { tag: 130, value: WireValue::Bytes(encode_utf8(x)) }],
                    None => Seq::<WireField>::empty(),
                }))))))))))),
            );
            lemma_encode_fields_append(
                (seq![WireField { tag: 48, value: WireValue::Varint(varint_of_bool(m.record_statistics)) }]),
                (seq![WireField { tag: 56, value: WireValue::Varint(varint_of_i32(m.live_buffer_size)) }]) + ((seq![WireField { tag: 64, value: WireValue::Varint(varint_of_i32(m.read_batch_size)) }]) + ((seq![WireField { tag: 72, value: WireValue::Varint(varint_of_i32(m.buffer_size)) }]) + ((seq![WireField { tag: 80, value: WireValue::Varint(varint_of_i32(m.max_retry_count)) }]) + ((seq![WireField { tag: 88, value: WireValue::Varint(varint_of_bool(m.prefer_round_robin)) }]) + ((seq![WireField { tag: 96, value: WireValue::Varint(varint_of_i32(m.checkpoint_after_time)) }]) + ((seq![WireField { tag: 104, value: WireValue::Varint(varint_of_i32(m.checkpoint_max_count)) }]) + ((seq![WireField { tag: 112, value: WireValue::Varint(varint_of_i32(m.checkpoint_min_count)) }]) + ((seq![WireField { tag: 120, value: WireValue::Varint(varint_of_i32(m.subscriber_max_count)) }]) + ((match m.named_consumer_strategy {
                    Some(x) => seq![WireField { tag: 130, value: WireValue::Bytes(encode_utf8(x)) }],
                    None => Seq::<WireField>::empty(),
                })))))))))),
            );
            lemma_encode_fields_append(
                (seq![WireField { tag: 56, value: WireValue::Varint(varint_of_i32(m.live_buffer_size)) }]),
                (seq![WireField { tag: 64, value: WireValue::Varint(varint_of_i32(m.read_batch_size)) }]) + ((seq![WireField { tag: 72, value: WireValue::Varint(varint_of_i32(m.buffer_size)) }]) + ((seq![WireField { tag: 80, value: WireValue::Varint(varint_of_i32(m.max_retry_count)) }]) + ((seq![WireField { tag: 88, value: WireValue::Varint(varint_of_bool(m.prefer_round_robin)) }]) + ((seq![WireField { tag: 96, value: WireValue::Varint(varint_of_i32(m.checkpoint_after_time)) }]) + ((seq![WireField { tag: 104, value: WireValue::Varint(varint_of_i32(m.checkpoint_max_count)) }]) + ((seq![WireField { tag: 112, value: WireValue::Varint(varint_of_i32(m.checkpoint_min_count)) }]) + ((seq![WireField { tag: 120, value: WireValue::Varint(varint_of_i32(m.subscriber_max_count)) }]) + ((match m.named_consumer_strategy {
                    Some(x) => seq![WireField { tag: 130, value: WireValue::Bytes(encode_utf8(x)) }],
                    None => Seq::<WireField>::empty(),
                }))))))))),
            );
            lemma_encode_fields_append(
                (seq![WireField { tag: 64, value: WireValue::Varint(varint_of_i32(m.read_batch_size)) }]),
                (seq![WireField { tag: 72, value: WireValue::Varint(varint_of_i32(m.buffer_size)) }]) + ((seq![WireField { tag: 80, value: WireValue::Varint(varint_of_i32(m.max_retry_count)) }]) + ((seq![WireField { tag: 88, value: WireValue::Varint(varint_of_bool(m.prefer_round_robin)) }]) + ((seq![WireField { tag: 96, value: WireValue::Varint(varint_of_i32(m.checkpoint_after_time)) }]) + ((seq![WireField { tag: 104, value: WireValue::Varint(varint_of_i32(m.checkpoint_max_count)) }]) + ((seq![WireField { tag: 112, value: WireValue::Varint(varint_of_i32(m.checkpoint_min_count)) }]) + ((seq![WireField { tag: 120, value: WireValue::Varint(varint_of_i32(m.subscriber_max_count)) }]) + ((match m.named_consumer_strategy {
                    Some(x) => seq![WireField { tag: 130, value: WireValue::Bytes(encode_utf8(x)) }],
                    None => Seq::<WireField>::empty(),
                })))))))),
            );
            lemma_encode_fields_append(
                (seq![WireField { tag: 72, value: WireValue::Varint(varint_of_i32(m.buffer_size)) }]),
                (seq![WireField { tag: 80, value: WireValue::Varint(varint_of_i32(m.max_retry_count)) }]) + ((seq![WireField { tag: 88, value: WireValue::Varint(varint_of_bool(m.prefer_round_robin)) }]) + ((seq![WireField { tag: 96, value: WireValue::Varint(varint_of_i32(m.checkpoint_after_time)) }]) + ((seq![WireField { tag: 104, value: WireValue::Varint(varint_of_i32(m.checkpoint_max_count)) }]) + ((seq![WireField { tag: 112, value: WireValue::Varint(varint_of_i32(m.checkpoint_min_count)) }]) + ((seq![WireField { tag: 120, value: WireValue::Varint(varint_of_i32(m.subscriber_max_count)) }]) + ((match m.named_consumer_strategy {
                    Some(x) => seq![WireField { tag: 130, value: WireValue::Bytes(encode_utf8(x)) }],
                    None => Seq::<WireField>::empty(),
                }))))))),
            );
            lemma_encode_fields_append(
                (seq![WireField { tag: 80, value: WireValue::Varint(varint_of_i32(m.max_retry_count)) }]),
                (seq![WireField { tag: 88, value: WireValue::Varint(varint_of_bool(m.prefer_round_robin)) }]) + ((seq![WireField { tag: 96, value: WireValue::Varint(varint_of_i32(m.checkpoint_after_time)) }]) + ((seq![WireField { tag: 104, value: WireValue::Varint(varint_of_i32(m.checkpoint_max_count)) }]) + ((seq![WireField { tag: 112, value: WireValue::Varint(varint_of_i32(m.checkpoint_min_count)) }]) + ((seq![WireField { tag: 120, value: WireValue::Varint(varint_of_i32(m.subscriber_max_count)) }]) + ((match m.named_consumer_strategy {
                    Some(x) => seq![WireField { tag: 130, value: WireValue::Bytes(encode_utf8(x)) }],
                    None => Seq::<WireField>::empty(),
                })))))),
            );
            lemma_encode_fields_append(
                (seq![WireField { tag: 88, value: WireValue::Varint(varint_of_bool(m.prefer_round_robin)) }]),
                (seq![WireField { tag: 96, value: WireValue::Varint(varint_of_i32(m.checkpoint_after_time)) }]) + ((seq![WireField { tag: 104, value: WireValue::Varint(varint_of_i32(m.checkpoint_max_count)) }]) + ((seq![WireField { tag: 112, value: WireValue::Varint(varint_of_i32(m.checkpoint_min_count)) }]) + ((seq![WireField { tag: 120, value: WireValue::Varint(varint_of_i32(m.subscriber_max_count)) }]) + ((match m.named_consumer_strategy {
                    Some(x) => seq![WireField { tag: 130, value: WireValue::Bytes(encode_utf8(x)) }],
                    None => Seq::<WireField>::empty(),
                }))))),
            );
            lemma_encode_fields_append(
                (seq![WireField { tag: 96, value: WireValue::Varint(varint_of_i32(m.checkpoint_after_time)) }]),
                (seq![WireField { tag: 104, value: WireValue::Varint(varint_of_i32(m.checkpoint_max_count)) }]) + ((seq![WireField { tag: 112, value: WireValue::Varint(varint_of_i32(m.checkpoint_min_count)) }]) + ((seq![WireField { tag: 120, value: WireValue::Varint(varint_of_i32(m.subscriber_max_count)) }]) + ((match m.named_consumer_strategy {
                    Some(x) => seq![WireField { tag: 130, value: WireValue::Bytes(encode_utf8(x)) }],
                    None => Seq::<WireField>::empty(),
                })))),
            );
            lemma_encode_fields_append(
                (seq![WireField { tag: 104, value: WireValue::Varint(varint_of_i32(m.checkpoint_max_count)) }]),
                (seq![WireField { tag: 112, value: WireValue::Varint(varint_of_i32(m.checkpoint_min_count)) }]) + ((seq![WireField { tag: 120, value: WireValue::Varint(varint_of_i32(m.subscriber_max_count)) }]) + ((match m.named_consumer_strategy {
                    Some(x) => seq![WireField { tag: 130, value: WireValue::Bytes(encode_utf8(x)) }],
                    None => Seq::<WireField>::empty(),
                }))),
            );
            lemma_encode_fields_append(
                (seq![WireField { tag: 112, value: WireValue::Varint(varint_of_i32(m.checkpoint_min_count)) }]),
                (seq![WireField { tag: 120, value: WireValue::Varint(varint_of_i32(m.subscriber_max_count)) }]) + ((match m.named_consumer_strategy {
                    Some(x) => seq![WireField { tag: 130, value: WireValue::Bytes(encode_utf8(x)) }],
                    None => Seq::<WireField>::empty(),
                })),
            );
            lemma_encode_fields_append(
                (seq![WireField { tag: 120, value: WireValue::Varint(varint_of_i32(m.subscriber_max_count)) }]),
                (match m.named_consumer_strategy {
                    Some(x) => seq![WireField { tag: 130, value: WireValue::Bytes(encode_utf8(x)) }],
                    None => Seq::<WireField>::empty(),
                }),
            );
        }
        let mut n: usize = 0;
        let s15: usize = match &self.named_consumer_strategy {
            Some(x) => {
                proof {
                    lemma_encode_fields_one(WireField { tag: 130, value: WireValue::Bytes(encode_utf8(x@)) });
                }
                sizeof_len_field(130, x.as_str().as_bytes().len())
            },
            None => 0,
        };
        n = s15 + n;
        let s14: usize = {
            proof {
                lemma_encode_fields_one(WireField { tag: 120, value: WireValue::Varint(varint_of_i32(m.subscriber_max_count)) });
            }
            sizeof_varint_field(120, i32_varint(self.subscriber_max_count))
        };
        n = s14 + n;
        let s13: usize = {
            proof {
                lemma_encode_fields_one(WireField { tag: 112, value: WireValue::Varint(varint_of_i32(m.checkpoint_min_count)) });
            }
            sizeof_varint_field(112, i32_varint(self.checkpoint_min_count))
        };
        n = s13 + n;
        let s12: usize = {
            proof {
                lemma_encode_fields_one(WireField { tag: 104, value: WireValue::Varint(varint_of_i32(m.checkpoint_max_count)) });
            }
            sizeof_varint_field(104, i32_varint(self.checkpoint_max_count))
        };
        n = s12 + n;
        let s11: usize = {
            proof {
                lemma_encode_fields_one(WireField { tag: 96, value: WireValue::Varint(varint_of_i32(m.checkpoint_after_time)) });
            }
            sizeof_varint_field(96, i32_varint(self.checkpoint_after_time))
        };
        n = s11 + n;
        let s10: usize = {
            proof {
                lemma_encode_fields_one(WireField { tag: 88, value: WireValue::Varint(varint_of_bool(m.prefer_round_robin)) });
            }
            sizeof_varint_field(88, bool_varint(self.prefer_round_robin))
        };
        n = s10 + n;
        let s9: usize = {
            proof {
                lemma_encode_fields_one(WireField { tag: 80, value: WireValue::Varint(varint_of_i32(m.max_retry_count)) });
            }
            sizeof_varint_field(80, i32_varint(self.max_retry_count))
        };
        n = s9 + n;
        let s8: usize = {
            proof {
                lemma_encode_fields_one(WireField { tag: 72, value: WireValue::Varint(varint_of_i32(m.buffer_size)) });
            }
            sizeof_varint_field(72, i32_varint(self.buffer_size))
        };
        n = s8 + n;
        let s7: usize = {
            proof {
                lemma_encode_fields_one(WireField { tag: 64, value: WireValue::Varint(varint_of_i32(m.read_batch_size)) });
            }
            sizeof_varint_field(64, i32_varint(self.read_batch_size))
        };
        n = s7 + n;
        let s6: usize = {
            proof {
                lemma_encode_fields_one(WireField { tag: 56, value: WireValue::Varint(varint_of_i32(m.live_buffer_size)) });
            }
            sizeof_varint_field(56, i32_varint(self.live_buffer_size))
        };
        n = s6 + n;
        let s5: usize = {
            proof {
                lemma_encode_fields_one(WireField { tag: 48, value: WireValue::Varint(varint_of_bool(m.record_statistics)) });
            }
            sizeof_varint_field(48, bool_varint(self.record_statistics))
        };
        n = s5 + n;
        let s4: usize = {
            proof {
                lemma_encode_fields_one(WireField { tag: 40, value: WireValue::Varint(varint_of_i32(m.message_timeout_milliseconds)) });
            }
            sizeof_varint_field(40, i32_varint(self.message_timeout_milliseconds))
        };
        n = s4 + n;
        let s3: usize = {
            proof {
                lemma_encode_fields_one(WireField { tag: 32, value: WireValue::Varint(varint_of_i32(m.start_from)) });
            }
            sizeof_varint_field(32, i32_varint(self.start_from))
        };
        n = s3 + n;
        let s2: usize = {
            proof {
                lemma_encode_fields_one(WireField { tag: 24, value: WireValue::Varint(varint_of_bool(m.resolve_link_tos)) });
            }
            sizeof_varint_field(24, bool_varint(self.resolve_link_tos))
        };
        n = s2 + n;
        let s1: usize = {
            proof {
                lemma_encode_fields_one(WireField { tag: 18, value: WireValue::Bytes(encode_utf8(m.event_stream_id)) });
            }
            sizeof_len_field(18, self.event_stream_id.as_str().as_bytes().len())
        };
        n = s1 + n;
        let s0: usize = {
            proof {
                lemma_encode_fields_one(WireField { tag: 10, value: WireValue::Bytes(encode_utf8(m.subscription_group_name)) });
            }
            sizeof_len_field(10, self.subscription_group_name.as_str().as_bytes().len())
        };
        n = s0 + n;
        n
    }
}

/// Request to delete a persistent subscription.
#[derive(Debug, Clone, PartialEq)]
pub struct DeletePersistentSubscription {
    /// The group of the subscription
    pub subscription_group_name: String,
    /// The stream subscribed to
    pub event_stream_id: String,
}

/// The contents of a `DeletePersistentSubscription`.
pub struct DeletePersistentSubscriptionModel {
    pub subscription_group_name: Seq<char>,
    pub event_stream_id: Seq<char>,
}

impl View for DeletePersistentSubscription {
    type V = DeletePersistentSubscriptionModel;

    open spec fn view(&self) -> DeletePersistentSubscriptionModel {
        DeletePersistentSubscriptionModel {
            subscription_group_name: self.subscription_group_name@,
            event_stream_id: self.event_stream_id@,
        }
    }
}

/// A `DeletePersistentSubscription` with every field at its default.
pub open spec fn delete_persistent_subscription_default() -> DeletePersistentSubscriptionModel {
    DeletePersistentSubscriptionModel {
        subscription_group_name: Seq::empty(),
        event_stream_id: Seq::empty(),
    }
}

/// Folds one field into a `DeletePersistentSubscription`; fields of unknown tags are skipped.
pub open spec fn delete_persistent_subscription_apply(m: DeletePersistentSubscriptionModel, f: WireField) -> Option<DeletePersistentSubscriptionModel> {
    if f.tag == 10 {
        match f.value {
            WireValue::Bytes(b) => match string_of(b) {
                Some(s) => Some(DeletePersistentSubscriptionModel { subscription_group_name: s, ..m }),
                None => None,
            },
            _ => None,
        }
    } else {
        if f.tag == 18 {
            match f.value {
                WireValue::Bytes(b) => match string_of(b) {
                    Some(s) => Some(DeletePersistentSubscriptionModel { event_stream_id: s, ..m }),
                    None => None,
                },
                _ => None,
            }
        } else {
            Some(m)
        }
    }
}

/// `delete_persistent_subscription_apply` as a value.
pub open spec fn delete_persistent_subscription_applier() -> spec_fn(DeletePersistentSubscriptionModel, WireField) -> Option<DeletePersistentSubscriptionModel> {
    |m: DeletePersistentSubscriptionModel, f: WireField| delete_persistent_subscription_apply(m, f)
}

/// The tags of the fields that a `DeletePersistentSubscription` reads; the others are skipped.
pub open spec fn delete_persistent_subscription_known() -> spec_fn(u32) -> bool {
    |t: u32| t == 10 || t == 18
}

/// The `DeletePersistentSubscription` that `bytes` encode, if they encode one.
pub open spec fn delete_persistent_subscription_decode(bytes: Seq<u8>) -> Option<DeletePersistentSubscriptionModel> {
    decode_fields(bytes, delete_persistent_subscription_default(), delete_persistent_subscription_applier(), delete_persistent_subscription_known())
}

/// The fields that encode a `DeletePersistentSubscription`, in the order they are written.
pub open spec fn delete_persistent_subscription_fields(m: DeletePersistentSubscriptionModel) -> Seq<WireField> {
    (seq![WireField { tag: 10, value: WireValue::Bytes(encode_utf8(m.subscription_group_name)) }]) + ((seq![WireField { tag: 18, value: WireValue::Bytes(encode_utf8(m.event_stream_id)) }]))
}

/// The encoding of a `DeletePersistentSubscription`.
pub open spec fn delete_persistent_subscription_encode(m: DeletePersistentSubscriptionModel) -> Seq<u8> {
    encode_fields(delete_persistent_subscription_fields(m))
}

/// A `DeletePersistentSubscription` that reads back as written: every length-delimited field, those of the
/// embedded messages included, holds fewer than 2^32 bytes.
pub open spec fn delete_persistent_subscription_wf(m: DeletePersistentSubscriptionModel) -> bool {
    fields_short(delete_persistent_subscription_fields(m))
}

/// The fields of a `DeletePersistentSubscription` carry the wire types of their payloads.
pub proof fn lemma_delete_persistent_subscription_fields_tagged(m: DeletePersistentSubscriptionModel)
    ensures
        fields_tagged(delete_persistent_subscription_fields(m)),
{
    assert(fields_tagged((seq![WireField { tag: 18, value: WireValue::Bytes(encode_utf8(m.event_stream_id)) }])));
    assert(fields_tagged((seq![WireField { tag: 10, value: WireValue::Bytes(encode_utf8(m.subscription_group_name)) }])));
    lemma_fields_tagged_append(
        (seq![WireField { tag: 10, value: WireValue::Bytes(encode_utf8(m.subscription_group_name)) }]),
        (seq![WireField { tag: 18, value: WireValue::Bytes(encode_utf8(m.event_stream_id)) }]),
    );
}

/// The bytes of an encoded `DeletePersistentSubscription`: `subscription_group_name` under tag 10, `event_stream_id` under tag 18, in this order; optional fields only
/// when present, repeated ones once per element.
pub proof fn lemma_delete_persistent_subscription_encode_layout(m: DeletePersistentSubscriptionModel)
    ensures
        delete_persistent_subscription_encode(m) == (bytes_field_bytes(10, encode_utf8(m.subscription_group_name))) + ((bytes_field_bytes(18, encode_utf8(m.event_stream_id)))),
{
    lemma_encode_fields_append(
        (seq![WireField { tag: 10, value: WireValue::Bytes(encode_utf8(m.subscription_group_name)) }]),
        (seq![WireField { tag: 18, value: WireValue::Bytes(encode_utf8(m.event_stream_id)) }]),
    );
    lemma_bytes_field_layout(10, encode_utf8(m.subscription_group_name));
    lemma_bytes_field_layout(18, encode_utf8(m.event_stream_id));
}

/// Reading a written `DeletePersistentSubscription` gives it back.
pub proof fn lemma_delete_persistent_subscription_roundtrip(m: DeletePersistentSubscriptionModel)
    requires
        delete_persistent_subscription_wf(m),
    ensures
        delete_persistent_subscription_decode(delete_persistent_subscription_encode(m)) == Some(m),
{
    let ap = delete_persistent_subscription_applier();
    lemma_delete_persistent_subscription_fields_tagged(m);
    lemma_fields_canonical_of_short(delete_persistent_subscription_fields(m));
    lemma_decode_encoded_fields(delete_persistent_subscription_fields(m), delete_persistent_subscription_default(), ap, delete_persistent_subscription_known());
    let a0 = delete_persistent_subscription_default();
    let a1 = DeletePersistentSubscriptionModel { subscription_group_name: m.subscription_group_name, ..a0 };
    lemma_apply_fields_append(
        (seq![WireField { tag: 10, value: WireValue::Bytes(encode_utf8(m.subscription_group_name)) }]),
        (seq![WireField { tag: 18, value: WireValue::Bytes(encode_utf8(m.event_stream_id)) }]),
        a0,
        ap,
    );
    assert(apply_fields((seq![WireField { tag: 10, value: WireValue::Bytes(encode_utf8(m.subscription_group_name)) }]), a0, ap) == Some(a1)) by {
        reveal_with_fuel(apply_fields, 2);
        lemma_string_roundtrip(m.subscription_group_name);
    }
    let a2 = DeletePersistentSubscriptionModel { event_stream_id: m.event_stream_id, ..a1 };
    assert(apply_fields((seq![WireField { tag: 18, value: WireValue::Bytes(encode_utf8(m.event_stream_id)) }]), a1, ap) == Some(a2)) by {
        reveal_with_fuel(apply_fields, 2);
        lemma_string_roundtrip(m.event_stream_id);
    }
    assert(a2 == m);
}

impl DeletePersistentSubscription {
    /// Decodes a `DeletePersistentSubscription` from its protobuf bytes.
    pub fn from_reader(bytes: &[u8]) -> (res: Option<DeletePersistentSubscription>)
        ensures
            delete_persistent_subscription_decode(bytes@) matches Some(m) ==> (res matches Some(e) && e@ == m),
            delete_persistent_subscription_decode(bytes@) is None ==> res is None,
    {
        let mut msg = DeletePersistentSubscription::default_value();
        let mut pos: usize = 0;
        assert(bytes@.skip(0) =~= bytes@);
        while pos < bytes.len()
            invariant
                pos <= bytes@.len(),
                delete_persistent_subscription_decode(bytes@) == decode_fields(bytes@.skip(pos as int), msg@, delete_persistent_subscription_applier(), delete_persistent_subscription_known()),
            decreases bytes@.len() - pos,
        {
            let ghost old_msg = msg@;
            let (tag, p) = match read_tag(bytes, pos) {
                Some(x) => x,
                None => {
                    return None;
                },
            };
            proof {
                lemma_field_parts(bytes@, pos as int, delete_persistent_subscription_known());
            }
            let known: bool = tag == 10 || tag == 18;
            let (value, next) = match read_value(bytes, p, tag, known) {
                Some(x) => x,
                None => {
                    return None;
                },
            };
            let ghost f = parse_field(bytes@.skip(pos as int), delete_persistent_subscription_known()).unwrap().0;
            proof {
                lemma_decode_step(bytes@, pos as int, old_msg, delete_persistent_subscription_applier(), delete_persistent_subscription_known());
                lemma_parse_field_len(bytes@.skip(pos as int), delete_persistent_subscription_known());
            }
            if tag == 10 {
                match value {
                    FieldValue::Bytes(i, j) => match copy_string(bytes, i, j) {
                        Some(s) => {
                            msg.subscription_group_name = s;
                        },
                        None => {
                            return None;
                        },
                    },
                    _ => {
                        return None;
                    },
                }
            } else if tag == 18 {
                match value {
                    FieldValue::Bytes(i, j) => match copy_string(bytes, i, j) {
                        Some(s) => {
                            msg.event_stream_id = s;
                        },
                        None => {
                            return None;
                        },
                    },
                    _ => {
                        return None;
                    },
                }
            }
            assert(delete_persistent_subscription_apply(old_msg, f) == Some(msg@));
            pos = next;
        }
        assert(bytes@.skip(pos as int).len() == 0);
        Some(msg)
    }

    /// A `DeletePersistentSubscription` with every field at its default.
    pub fn default_value() -> (m: DeletePersistentSubscription)
        ensures
            m@ == delete_persistent_subscription_default(),
    {
        let m = DeletePersistentSubscription {
            subscription_group_name: String::new(),
            event_stream_id: String::new(),
        };
        m
    }

    /// A copy of this `DeletePersistentSubscription`.
    pub fn copy(&self) -> (c: DeletePersistentSubscription)
        ensures
            c@ == self@,
    {
        let c = DeletePersistentSubscription {
            subscription_group_name: self.subscription_group_name.clone(),
            event_stream_id: self.event_stream_id.clone(),
        };
        assert(c@.subscription_group_name =~= self@.subscription_group_name);
        assert(c@.event_stream_id =~= self@.event_stream_id);
        c
    }

    /// Encodes this `DeletePersistentSubscription` as protobuf bytes.
    #[verifier::spinoff_prover]
    #[verifier::rlimit(30)]
    pub fn encode(&self) -> (out: Vec<u8>)
        ensures
            out@ == delete_persistent_subscription_encode(self@),
            out@.len() < modulus32() ==> delete_persistent_subscription_wf(self@),
    {
        let mut out: Vec<u8> = Vec::new();
        let ghost mut fs: Seq<WireField> = Seq::empty();
        write_bytes_field(&mut out, 10, self.subscription_group_name.as_str().as_bytes());
        proof {
            let f = WireField { tag: 10, value: WireValue::Bytes(encode_utf8(self.subscription_group_name@)) };
            lemma_encode_fields_push(fs, f);
            lemma_fields_shaped_push(fs, f);
            fs = fs.push(f);
        }
        write_bytes_field(&mut out, 18, self.event_stream_id.as_str().as_bytes());
        proof {
            let f = WireField { tag: 18, value: WireValue::Bytes(encode_utf8(self.event_stream_id@)) };
            lemma_encode_fields_push(fs, f);
            lemma_fields_shaped_push(fs, f);
            fs = fs.push(f);
        }
        assert(fs =~= delete_persistent_subscription_fields(self@));
        proof {
            if out@.len() < modulus32() {
                lemma_fields_canonical_of_len(fs);
            }
        }
        out
    }

    /// The number of bytes of the encoding of this `DeletePersistentSubscription`, computed without encoding it.
    #[verifier::spinoff_prover]
    #[verifier::rlimit(30)]
    pub fn get_size(&self) -> (n: usize)
        requires
            delete_persistent_subscription_encode(self@).len() <= usize::MAX,
        ensures
            n == delete_persistent_subscription_encode(self@).len(),
    {
        let ghost m = self@;
        proof {
            lemma_encode_fields_append(
                (seq![WireField { tag: 10, value: WireValue::Bytes(encode_utf8(m.subscription_group_name)) }]),
                (seq![WireField { tag: 18, value: WireValue::Bytes(encode_utf8(m.event_stream_id)) }]),
            );
        }
        let mut n: usize = 0;
        let s1: usize = {
            proof {
                lemma_encode_fields_one(WireField { tag: 18, value: WireValue::Bytes(encode_utf8(m.event_stream_id)) });
            }
            sizeof_len_field(18, self.event_stream_id.as_str().as_bytes().len())
        };
        n = s1 + n;
        let s0: usize = {
            proof {
                lemma_encode_fields_one(WireField { tag: 10, value: WireValue::Bytes(encode_utf8(m.subscription_group_name)) });
            }
            sizeof_len_field(10, self.subscription_group_name.as_str().as_bytes().len())
        };
        n = s0 + n;
        n
    }
}

/// Request to update a persistent subscription.
#[derive(Debug, Clone, PartialEq)]
pub struct UpdatePersistentSubscription {
    /// The group of the subscription
    pub subscription_group_name: String,
    /// The stream subscribed to
    pub event_stream_id: String,
    /// Whether to follow link events
    pub resolve_link_tos: bool,
    /// The event number to start from
    pub start_from: i32,
    /// How long a message may go unacknowledged
    pub message_timeout_milliseconds: i32,
    /// Whether to record statistics
    pub record_statistics: bool,
    /// The size of the live buffer
    pub live_buffer_size: i32,
    /// The number of events read at a time
    pub read_batch_size: i32,
    /// The size of the buffer
    pub buffer_size: i32,
    /// How often a message is retried
    pub max_retry_count: i32,
    /// Whether to hand out events round robin
    pub prefer_round_robin: bool,
    /// The time after which to checkpoint
    pub checkpoint_after_time: i32,
    /// The most events between checkpoints
    pub checkpoint_max_count: i32,
    /// The fewest events between checkpoints
    pub checkpoint_min_count: i32,
    /// The most subscribers
    pub subscriber_max_count: i32,
    /// The strategy of handing out events
    pub named_consumer_strategy: Option<String>,
}

/// The contents of a `UpdatePersistentSubscription`.
pub struct UpdatePersistentSubscriptionModel {
    pub subscription_group_name: Seq<char>,
    pub event_stream_id: Seq<char>,
    pub resolve_link_tos: bool,
    pub start_from: i32,
    pub message_timeout_milliseconds: i32,
    pub record_statistics: bool,
    pub live_buffer_size: i32,
    pub read_batch_size: i32,
    pub buffer_size: i32,
    pub max_retry_count: i32,
    pub prefer_round_robin: bool,
    pub checkpoint_after_time: i32,
    pub checkpoint_max_count: i32,
    pub checkpoint_min_count: i32,
    pub subscriber_max_count: i32,
    pub named_consumer_strategy: Option<Seq<char>>,
}

impl View for UpdatePersistentSubscription {
    type V = UpdatePersistentSubscriptionModel;

    open spec fn view(&self) -> UpdatePersistentSubscriptionModel {
        UpdatePersistentSubscriptionModel {
            subscription_group_name: self.subscription_group_name@,
            event_stream_id: self.event_stream_id@,
            resolve_link_tos: self.resolve_link_tos,
            start_from: self.start_from,
            message_timeout_milliseconds: self.message_timeout_milliseconds,
            record_statistics: self.record_statistics,
            live_buffer_size: self.live_buffer_size,
            read_batch_size: self.read_batch_size,
            buffer_size: self.buffer_size,
            max_retry_count: self.max_retry_count,
            prefer_round_robin: self.prefer_round_robin,
            checkpoint_after_time: self.checkpoint_after_time,
            checkpoint_max_count: self.checkpoint_max_count,
            checkpoint_min_count: self.checkpoint_min_count,
            subscriber_max_count: self.subscriber_max_count,
            named_consumer_strategy: opt_string_view(self.named_consumer_strategy),
        }
    }
}

/// A `UpdatePersistentSubscription` with every field at its default.
pub open spec fn update_persistent_subscription_default() -> UpdatePersistentSubscriptionModel {
    UpdatePersistentSubscriptionModel {
        subscription_group_name: Seq::empty(),
        event_stream_id: Seq::empty(),
        resolve_link_tos: false,
        start_from: 0,
        message_timeout_milliseconds: 0,
        record_statistics: false,
        live_buffer_size: 0,
        read_batch_size: 0,
        buffer_size: 0,
        max_retry_count: 0,
        prefer_round_robin: false,
        checkpoint_after_time: 0,
        checkpoint_max_count: 0,
        checkpoint_min_count: 0,
        subscriber_max_count: 0,
        named_consumer_strategy: None,
    }
}

/// Folds one field into a `UpdatePersistentSubscription`; fields of unknown tags are skipped.
pub open spec fn update_persistent_subscription_apply(m: UpdatePersistentSubscriptionModel, f: WireField) -> Option<UpdatePersistentSubscriptionModel> {
    if f.tag == 10 {
        match f.value {
            WireValue::Bytes(b) => match string_of(b) {
                Some(s) => Some(UpdatePersistentSubscriptionModel { subscription_group_name: s, ..m }),
                None => None,
            },
            _ => None,
        }
    } else {
        if f.tag == 18 {
            match f.value {
                WireValue::Bytes(b) => match string_of(b) {
                    Some(s) => Some(UpdatePersistentSubscriptionModel { event_stream_id: s, ..m }),
                    None => None,
                },
                _ => None,
            }
        } else {
            if f.tag == 24 {
                match f.value {
                    WireValue::Varint(v) => Some(UpdatePersistentSubscriptionModel { resolve_link_tos: bool_of_varint(v), ..m }),
                    _ => None,
                }
            } else {
                if f.tag == 32 {
                    match f.value {
                        WireValue::Varint(v) => Some(UpdatePersistentSubscriptionModel { start_from: i32_of_varint(v), ..m }),
                        _ => None,
                    }
                } else {
                    if f.tag == 40 {
                        match f.value {
                            WireValue::Varint(v) => Some(UpdatePersistentSubscriptionModel { message_timeout_milliseconds: i32_of_varint(v), ..m }),
                            _ => None,
                        }
                    } else {
                        if f.tag == 48 {
                            match f.value {
                                WireValue::Varint(v) => Some(UpdatePersistentSubscriptionModel { record_statistics: bool_of_varint(v), ..m }),
                                _ => None,
                            }
                        } else {
                            if f.tag == 56 {
                                match f.value {
                                    WireValue::Varint(v) => Some(UpdatePersistentSubscriptionModel { live_buffer_size: i32_of_varint(v), ..m }),
                                    _ => None,
                                }
                            } else {
                                if f.tag == 64 {
                                    match f.value {
                                        WireValue::Varint(v) => Some(UpdatePersistentSubscriptionModel { read_batch_size: i32_of_varint(v), ..m }),
                                        _ => None,
                                    }
                                } else {
                                    if f.tag == 72 {
                                        match f.value {
                                            WireValue::Varint(v) => Some(UpdatePersistentSubscriptionModel { buffer_size: i32_of_varint(v), ..m }),
                                            _ => None,
                                        }
                                    } else {
                                        if f.tag == 80 {
                                            match f.value {
                                                WireValue::Varint(v) => Some(UpdatePersistentSubscriptionModel { max_retry_count: i32_of_varint(v), ..m }),
                                                _ => None,
                                            }
                                        } else {
                                            if f.tag == 88 {
                                                match f.value {
                                                    WireValue::Varint(v) => Some(UpdatePersistentSubscriptionModel { prefer_round_robin: bool_of_varint(v), ..m }),
                                                    _ => None,
                                                }
                                            } else {
                                                if f.tag == 96 {
                                                    match f.value {
                                                        WireValue::Varint(v) => Some(UpdatePersistentSubscriptionModel { checkpoint_after_time: i32_of_varint(v), ..m }),
                                                        _ => None,
                                                    }
                                                } else {
                                                    if f.tag == 104 {
                                                        match f.value {
                                                            WireValue::Varint(v) => Some(UpdatePersistentSubscriptionModel { checkpoint_max_count: i32_of_varint(v), ..m }),
                                                            _ => None,
                                                        }
                                                    } else {
                                                        if f.tag == 112 {
                                                            match f.value {
                                                                WireValue::Varint(v) => Some(UpdatePersistentSubscriptionModel { checkpoint_min_count: i32_of_varint(v), ..m }),
                                                                _ => None,
                                                            }
                                                        } else {
                                                            if f.tag == 120 {
                                                                match f.value {
                                                                    WireValue::Varint(v) => Some(UpdatePersistentSubscriptionModel { subscriber_max_count: i32_of_varint(v), ..m }),
                                                                    _ => None,
                                                                }
                                                            } else {
                                                                if f.tag == 130 {
                                                                    match f.value {
                                                                        WireValue::Bytes(b) => match string_of(b) {
                                                                            Some(s) => Some(UpdatePersistentSubscriptionModel { named_consumer_strategy: Some(s), ..m }),
                                                                            None => None,
                                                                        },
                                                                        _ => None,
                                                                    }
                                                                } else {
                                                                    Some(m)
                                                                }
                                                            }
                                                        }
                                                    }
                                                }
                                            }
                                        }
                                    }
                                }
                            }
                        }
                    }
                }
            }
        }
    }
}

/// `update_persistent_subscription_apply` as a value.
pub open spec fn update_persistent_subscription_applier() -> spec_fn(UpdatePersistentSubscriptionModel, WireField) -> Option<UpdatePersistentSubscriptionModel> {
    |m: UpdatePersistentSubscriptionModel, f: WireField| update_persistent_subscription_apply(m, f)
}

/// The tags of the fields that a `UpdatePersistentSubscription` reads; the others are skipped.
pub open spec fn update_persistent_subscription_known() -> spec_fn(u32) -> bool {
    |t: u32| t == 10 || t == 18 || t == 24 || t == 32 || t == 40 || t == 48 || t == 56 || t == 64 || t == 72 || t == 80 || t == 88 || t == 96 || t == 104 || t == 112 || t == 120 || t == 130
}

/// The `UpdatePersistentSubscription` that `bytes` encode, if they encode one.
pub open spec fn update_persistent_subscription_decode(bytes: Seq<u8>) -> Option<UpdatePersistentSubscriptionModel> {
    decode_fields(bytes, update_persistent_subscription_default(), update_persistent_subscription_applier(), update_persistent_subscription_known())
}

/// The fields that encode a `UpdatePersistentSubscription`, in the order they are written.
pub open spec fn update_persistent_subscription_fields(m: UpdatePersistentSubscriptionModel) -> Seq<WireField> {
    (seq![WireField { tag: 10, value: WireValue::Bytes(encode_utf8(m.subscription_group_name)) }]) + ((seq![WireField { tag: 18, value: WireValue::Bytes(encode_utf8(m.event_stream_id)) }]) + ((seq![WireField { tag: 24, value: WireValue::Varint(varint_of_bool(m.resolve_link_tos)) }]) + ((seq![WireField { tag: 32, value: WireValue::Varint(varint_of_i32(m.start_from)) }]) + ((seq![WireField { tag: 40, value: WireValue::Varint(varint_of_i32(m.message_timeout_milliseconds)) }]) + ((seq![WireField { tag: 48, value: WireValue::Varint(varint_of_bool(m.record_statistics)) }]) + ((seq![WireField { tag: 56, value: WireValue::Varint(varint_of_i32(m.live_buffer_size)) }]) + ((seq![WireField { tag: 64, value: WireValue::Varint(varint_of_i32(m.read_batch_size)) }]) + ((seq![WireField { tag: 72, value: WireValue::Varint(varint_of_i32(m.buffer_size)) }]) + ((seq![WireField { tag: 80, value: WireValue::Varint(varint_of_i32(m.max_retry_count)) }]) + ((seq![WireField { tag: 88, value: WireValue::Varint(varint_of_bool(m.prefer_round_robin)) }]) + ((seq![WireField { tag: 96, value: WireValue::Varint(varint_of_i32(m.checkpoint_after_time)) }]) + ((seq![WireField { tag: 104, value: WireValue::Varint(varint_of_i32(m.checkpoint_max_count)) }]) + ((seq![WireField { tag: 112, value: WireValue::Varint(varint_of_i32(m.checkpoint_min_count)) }]) + ((seq![WireField { tag: 120, value: WireValue::Varint(varint_of_i32(m.subscriber_max_count)) }]) + ((match m.named_consumer_strategy {
        Some(x) => seq![WireField { tag: 130, value: WireValue::Bytes(encode_utf8(x)) }],
        None => Seq::<WireField>::empty(),
    }))))))))))))))))
}

/// The encoding of a `UpdatePersistentSubscription`.
pub open spec fn update_persistent_subscription_encode(m: UpdatePersistentSubscriptionModel) -> Seq<u8> {
    encode_fields(update_persistent_subscription_fields(m))
}

/// A `UpdatePersistentSubscription` that reads back as written: every length-delimited field, those of the
/// embedded messages included, holds fewer than 2^32 bytes.
pub open spec fn update_persistent_subscription_wf(m: UpdatePersistentSubscriptionModel) -> bool {
    fields_short(update_persistent_subscription_fields(m))
}

/// The fields of a `UpdatePersistentSubscription` carry the wire types of their payloads.
pub proof fn lemma_update_persistent_subscription_fields_tagged(m: UpdatePersistentSubscriptionModel)
    ensures
        fields_tagged(update_persistent_subscription_fields(m)),
{
    assert(fields_tagged((match m.named_consumer_strategy {
        Some(x) => seq![WireField { tag: 130, value: WireValue::Bytes(encode_utf8(x)) }],
        None => Seq::<WireField>::empty(),
    })));
    assert(fields_tagged((seq![WireField { tag: 120, value: WireValue::Varint(varint_of_i32(m.subscriber_max_count)) }])));
    lemma_fields_tagged_append(
        (seq![WireField { tag: 120, value: WireValue::Varint(varint_of_i32(m.subscriber_max_count)) }]),
        (match m.named_consumer_strategy {
            Some(x) => seq![WireField { tag: 130, value: WireValue::Bytes(encode_utf8(x)) }],
            None => Seq::<WireField>::empty(),
        }),
    );
    assert(fields_tagged((seq![WireField { tag: 112, value: WireValue::Varint(varint_of_i32(m.checkpoint_min_count)) }])));
    lemma_fields_tagged_append(
        (seq![WireField { tag: 112, value: WireValue::Varint(varint_of_i32(m.checkpoint_min_count)) }]),
        (seq![WireField { tag: 120, value: WireValue::Varint(varint_of_i32(m.subscriber_max_count)) }]) + ((match m.named_consumer_strategy {
            Some(x) => seq![WireField { tag: 130, value: WireValue::Bytes(encode_utf8(x)) }],
            None => Seq::<WireField>::empty(),
        })),
    );
    assert(fields_tagged((seq![WireField { tag: 104, value: WireValue::Varint(varint_of_i32(m.checkpoint_max_count)) }])));
    lemma_fields_tagged_append(
        (seq![WireField { tag: 104, value: WireValue::Varint(varint_of_i32(m.checkpoint_max_count)) }]),
        (seq![WireField { tag: 112, value: WireValue::Varint(varint_of_i32(m.checkpoint_min_count)) }]) + ((seq![WireField { tag: 120, value: WireValue::Varint(varint_of_i32(m.subscriber_max_count)) }]) + ((match m.named_consumer_strategy {
            Some(x) => seq![WireField { tag: 130, value: WireValue::Bytes(encode_utf8(x)) }],
            None => Seq::<WireField>::empty(),
        }))),
    );
    assert(fields_tagged((seq![WireField { tag: 96, value: WireValue::Varint(varint_of_i32(m.checkpoint_after_time)) }])));
    lemma_fields_tagged_append(
        (seq![WireField { tag: 96, value: WireValue::Varint(varint_of_i32(m.checkpoint_after_time)) }]),
        (seq![WireField { tag: 104, value: WireValue::Varint(varint_of_i32(m.checkpoint_max_count)) }]) + ((seq![WireField { tag: 112, value: WireValue::Varint(varint_of_i32(m.checkpoint_min_count)) }]) + ((seq![WireField { tag: 120, value: WireValue::Varint(varint_of_i32(m.subscriber_max_count)) }]) + ((match m.named_consumer_strategy {
            Some(x) => seq![WireField { tag: 130, value: WireValue::Bytes(encode_utf8(x)) }],
            None => Seq::<WireField>::empty(),
        })))),
    );
    assert(fields_tagged((seq![WireField { tag: 88, value: WireValue::Varint(varint_of_bool(m.prefer_round_robin)) }])));
    lemma_fields_tagged_append(
        (seq![WireField { tag: 88, value: WireValue::Varint(varint_of_bool(m.prefer_round_robin)) }]),
        (seq![WireField { tag: 96, value: WireValue::Varint(varint_of_i32(m.checkpoint_after_time)) }]) + ((seq![WireField { tag: 104, value: WireValue::Varint(varint_of_i32(m.checkpoint_max_count)) }]) + ((seq![WireField { tag: 112, value: WireValue::Varint(varint_of_i32(m.checkpoint_min_count)) }]) + ((seq![WireField { tag: 120, value: WireValue::Varint(varint_of_i32(m.subscriber_max_count)) }]) + ((match m.named_consumer_strategy {
            Some(x) => seq![WireField { tag: 130, value: WireValue::Bytes(encode_utf8(x)) }],
            None => Seq::<WireField>::empty(),
        }))))),
    );
    assert(fields_tagged((seq![WireField { tag: 80, value: WireValue::Varint(varint_of_i32(m.max_retry_count)) }])));
    lemma_fields_tagged_append(
        (seq![WireField { tag: 80, value: WireValue::Varint(varint_of_i32(m.max_retry_count)) }]),
        (seq![WireField { tag: 88, value: WireValue::Varint(varint_of_bool(m.prefer_round_robin)) }]) + ((seq![WireField { tag: 96, value: WireValue::Varint(varint_of_i32(m.checkpoint_after_time)) }]) + ((seq![WireField { tag: 104, value: WireValue::Varint(varint_of_i32(m.checkpoint_max_count)) }]) + ((seq![WireField { tag: 112, value: WireValue::Varint(varint_of_i32(m.checkpoint_min_count)) }]) + ((seq![WireField { tag: 120, value: WireValue::Varint(varint_of_i32(m.subscriber_max_count)) }]) + ((match m.named_consumer_strategy {
            Some(x) => seq![WireField { tag: 130, value: WireValue::Bytes(encode_utf8(x)) }],
            None => Seq::<WireField>::empty(),
        })))))),
    );
    assert(fields_tagged((seq![WireField { tag: 72, value: WireValue::Varint(varint_of_i32(m.buffer_size)) }])));
    lemma_fields_tagged_append(
        (seq![WireField { tag: 72, value: WireValue::Varint(varint_of_i32(m.buffer_size)) }]),
        (seq![WireField { tag: 80, value: WireValue::Varint(varint_of_i32(m.max_retry_count)) }]) + ((seq![WireField { tag: 88, value: WireValue::Varint(varint_of_bool(m.prefer_round_robin)) }]) + ((seq![WireField { tag: 96, value: WireValue::Varint(varint_of_i32(m.checkpoint_after_time)) }]) + ((seq![WireField { tag: 104, value: WireValue::Varint(varint_of_i32(m.checkpoint_max_count)) }]) + ((seq![WireField { tag: 112, value: WireValue::Varint(varint_of_i32(m.checkpoint_min_count)) }]) + ((seq![WireField { tag: 120, value: WireValue::Varint(varint_of_i32(m.subscriber_max_count)) }]) + ((match m.named_consumer_strategy {
            Some(x) => seq![WireField { tag: 130, value: WireValue::Bytes(encode_utf8(x)) }],
            None => Seq::<WireField>::empty(),
        }))))))),
    );
    assert(fields_tagged((seq![WireField { tag: 64, value: WireValue::Varint(varint_of_i32(m.read_batch_size)) }])));
    lemma_fields_tagged_append(
        (seq![WireField { tag: 64, value: WireValue::Varint(varint_of_i32(m.read_batch_size)) }]),
        (seq![WireField { tag: 72, value: WireValue::Varint(varint_of_i32(m.buffer_size)) }]) + ((seq![WireField { tag: 80, value: WireValue::Varint(varint_of_i32(m.max_retry_count)) }]) + ((seq![WireField { tag: 88, value: WireValue::Varint(varint_of_bool(m.prefer_round_robin)) }]) + ((seq![WireField { tag: 96, value: WireValue::Varint(varint_of_i32(m.checkpoint_after_time)) }]) + ((seq![WireField { tag: 104, value: WireValue::Varint(varint_of_i32(m.checkpoint_max_count)) }]) + ((seq![WireField { tag: 112, value: WireValue::Varint(varint_of_i32(m.checkpoint_min_count)) }]) + ((seq![WireField { tag: 120, value: WireValue::Varint(varint_of_i32(m.subscriber_max_count)) }]) + ((match m.named_consumer_strategy {
            Some(x) => seq![WireField { tag: 130, value: WireValue::Bytes(encode_utf8(x)) }],
            None => Seq::<WireField>::empty(),
        })))))))),
    );
    assert(fields_tagged((seq![WireField { tag: 56, value: WireValue::Varint(varint_of_i32(m.live_buffer_size)) }])));
    lemma_fields_tagged_append(
        (seq![WireField { tag: 56, value: WireValue::Varint(varint_of_i32(m.live_buffer_size)) }]),
        (seq![WireField { tag: 64, value: WireValue::Varint(varint_of_i32(m.read_batch_size)) }]) + ((seq![WireField { tag: 72, value: WireValue::Varint(varint_of_i32(m.buffer_size)) }]) + ((seq![WireField { tag: 80, value: WireValue::Varint(varint_of_i32(m.max_retry_count)) }]) + ((seq![WireField { tag: 88, value: WireValue::Varint(varint_of_bool(m.prefer_round_robin)) }]) + ((seq![WireField { tag: 96, value: WireValue::Varint(varint_of_i32(m.checkpoint_after_time)) }]) + ((seq![WireField { tag: 104, value: WireValue::Varint(varint_of_i32(m.checkpoint_max_count)) }]) + ((seq![WireField { tag: 112, value: WireValue::Varint(varint_of_i32(m.checkpoint_min_count)) }]) + ((seq![WireField { tag: 120, value: WireValue::Varint(varint_of_i32(m.subscriber_max_count)) }]) + ((match m.named_consumer_strategy {
            Some(x) => seq![WireField { tag: 130, value: WireValue::Bytes(encode_utf8(x)) }],
            None => Seq::<WireField>::empty(),
        }))))))))),
    );
    assert(fields_tagged((seq![WireField { tag: 48, value: WireValue::Varint(varint_of_bool(m.record_statistics)) }])));
    lemma_fields_tagged_append(
        (seq![WireField { tag: 48, value: WireValue::Varint(varint_of_bool(m.record_statistics)) }]),
        (seq![WireField { tag: 56, value: WireValue::Varint(varint_of_i32(m.live_buffer_size)) }]) + ((seq![WireField { tag: 64, value: WireValue::Varint(varint_of_i32(m.read_batch_size)) }]) + ((seq![WireField { tag: 72, value: WireValue::Varint(varint_of_i32(m.buffer_size)) }]) + ((seq![WireField { tag: 80, value: WireValue::Varint(varint_of_i32(m.max_retry_count)) }]) + ((seq![WireField { tag: 88, value: WireValue::Varint(varint_of_bool(m.prefer_round_robin)) }]) + ((seq![WireField { tag: 96, value: WireValue::Varint(varint_of_i32(m.checkpoint_after_time)) }]) + ((seq![WireField { tag: 104, value: WireValue::Varint(varint_of_i32(m.checkpoint_max_count)) }]) + ((seq![WireField { tag: 112, value: WireValue::Varint(varint_of_i32(m.checkpoint_min_count)) }]) + ((seq![WireField { tag: 120, value: WireValue::Varint(varint_of_i32(m.subscriber_max_count)) }]) + ((match m.named_consumer_strategy {
            Some(x) => seq![WireField { tag: 130, value: WireValue::Bytes(encode_utf8(x)) }],
            None => Seq::<WireField>::empty(),
        })))))))))),
    );
    assert(fields_tagged((seq![WireField { tag: 40, value: WireValue::Varint(varint_of_i32(m.message_timeout_milliseconds)) }])));
    lemma_fields_tagged_append(
        (seq![WireField { tag: 40, value: WireValue::Varint(varint_of_i32(m.message_timeout_milliseconds)) }]),
        (seq![WireField { tag: 48, value: WireValue::Varint(varint_of_bool(m.record_statistics)) }]) + ((seq![WireField { tag: 56, value: WireValue::Varint(varint_of_i32(m.live_buffer_size)) }]) + ((seq![WireField { tag: 64, value: WireValue::Varint(varint_of_i32(m.read_batch_size)) }]) + ((seq![WireField { tag: 72, value: WireValue::Varint(varint_of_i32(m.buffer_size)) }]) + ((seq![WireField { tag: 80, value: WireValue::Varint(varint_of_i32(m.max_retry_count)) }]) + ((seq![WireField { tag: 88, value: WireValue::Varint(varint_of_bool(m.prefer_round_robin)) }]) + ((seq![WireField { tag: 96, value: WireValue::Varint(varint_of_i32(m.checkpoint_after_time)) }]) + ((seq![WireField { tag: 104, value: WireValue::Varint(varint_of_i32(m.checkpoint_max_count)) }]) + ((seq![WireField { tag: 112, value: WireValue::Varint(varint_of_i32(m.checkpoint_min_count)) }]) + ((seq![WireField { tag: 120, value: WireValue::Varint(varint_of_i32(m.subscriber_max_count)) }]) + ((match m.named_consumer_strategy {
            Some(x) => seq![WireField { tag: 130, value: WireValue::Bytes(encode_utf8(x)) }],
            None => Seq::<WireField>::empty(),
        }))))))))))),
    );
    assert(fields_tagged((seq![WireField { tag: 32, value: WireValue::Varint(varint_of_i32(m.start_from)) }])));
    lemma_fields_tagged_append(
        (seq![WireField { tag: 32, value: WireValue::Varint(varint_of_i32(m.start_from)) }]),
        (seq![WireField { tag: 40, value: WireValue::Varint(varint_of_i32(m.message_timeout_milliseconds)) }]) + ((seq![WireField { tag: 48, value: WireValue::Varint(varint_of_bool(m.record_statistics)) }]) + ((seq![WireField { tag: 56, value: WireValue::Varint(varint_of_i32(m.live_buffer_size)) }]) + ((seq![WireField { tag: 64, value: WireValue::Varint(varint_of_i32(m.read_batch_size)) }]) + ((seq![WireField { tag: 72, value: WireValue::Varint(varint_of_i32(m.buffer_size)) }]) + ((seq![WireField { tag: 80, value: WireValue::Varint(varint_of_i32(m.max_retry_count)) }]) + ((seq![WireField { tag: 88, value: WireValue::Varint(varint_of_bool(m.prefer_round_robin)) }]) + ((seq![WireField { tag: 96, value: WireValue::Varint(varint_of_i32(m.checkpoint_after_time)) }]) + ((seq![WireField { tag: 104, value: WireValue::Varint(varint_of_i32(m.checkpoint_max_count)) }]) + ((seq![WireField { tag: 112, value: WireValue::Varint(varint_of_i32(m.checkpoint_min_count)) }]) + ((seq![WireField { tag: 120, value: WireValue::Varint(varint_of_i32(m.subscriber_max_count)) }]) + ((match m.named_consumer_strategy {
            Some(x) => seq![WireField { tag: 130, value: WireValue::Bytes(encode_utf8(x)) }],
            None => Seq::<WireField>::empty(),
        })))))))))))),
    );
    assert(fields_tagged((seq![WireField { tag: 24, value: WireValue::Varint(varint_of_bool(m.resolve_link_tos)) }])));
    lemma_fields_tagged_append(
        (seq![WireField { tag: 24, value: WireValue::Varint(varint_of_bool(m.resolve_link_tos)) }]),
        (seq![WireField { tag: 32, value: WireValue::Varint(varint_of_i32(m.start_from)) }]) + ((seq![WireField { tag: 40, value: WireValue::Varint(varint_of_i32(m.message_timeout_milliseconds)) }]) + ((seq![WireField { tag: 48, value: WireValue::Varint(varint_of_bool(m.record_statistics)) }]) + ((seq![WireField { tag: 56, value: WireValue::Varint(varint_of_i32(m.live_buffer_size)) }]) + ((seq![WireField { tag: 64, value: WireValue::Varint(varint_of_i32(m.read_batch_size)) }]) + ((seq![WireField { tag: 72, value: WireValue::Varint(varint_of_i32(m.buffer_size)) }]) + ((seq![WireField { tag: 80, value: WireValue::Varint(varint_of_i32(m.max_retry_count)) }]) + ((seq![WireField { tag: 88, value: WireValue::Varint(varint_of_bool(m.prefer_round_robin)) }]) + ((seq![WireField { tag: 96, value: WireValue::Varint(varint_of_i32(m.checkpoint_after_time)) }]) + ((seq![WireField { tag: 104, value: WireValue::Varint(varint_of_i32(m.checkpoint_max_count)) }]) + ((seq![WireField { tag: 112, value: WireValue::Varint(varint_of_i32(m.checkpoint_min_count)) }]) + ((seq![WireField { tag: 120, value: WireValue::Varint(varint_of_i32(m.subscriber_max_count)) }]) + ((match m.named_consumer_strategy {
            Some(x) => seq![WireField { tag: 130, value: WireValue::Bytes(encode_utf8(x)) }],
            None => Seq::<WireField>::empty(),
        }))))))))))))),
    );
    assert(fields_tagged((seq![WireField { tag: 18, value: WireValue::Bytes(encode_utf8(m.event_stream_id)) }])));
    lemma_fields_tagged_append(
        (seq![WireField { tag: 18, value: WireValue::Bytes(encode_utf8(m.event_stream_id)) }]),
        (seq![WireField { tag: 24, value: WireValue::Varint(varint_of_bool(m.resolve_link_tos)) }]) + ((seq![WireField { tag: 32, value: WireValue::Varint(varint_of_i32(m.start_from)) }]) + ((seq![WireField { tag: 40, value: WireValue::Varint(varint_of_i32(m.message_timeout_milliseconds)) }]) + ((seq![WireField { tag: 48, value: WireValue::Varint(varint_of_bool(m.record_statistics)) }]) + ((seq![WireField { tag: 56, value: WireValue::Varint(varint_of_i32(m.live_buffer_size)) }]) + ((seq![WireField { tag: 64, value: WireValue::Varint(varint_of_i32(m.read_batch_size)) }]) + ((seq![WireField { tag: 72, value: WireValue::Varint(varint_of_i32(m.buffer_size)) }]) + ((seq![WireField { tag: 80, value: WireValue::Varint(varint_of_i32(m.max_retry_count)) }]) + ((seq![WireField { tag: 88, value: WireValue::Varint(varint_of_bool(m.prefer_round_robin)) }]) + ((seq![WireField { tag: 96, value: WireValue::Varint(varint_of_i32(m.checkpoint_after_time)) }]) + ((seq![WireField { tag: 104, value: WireValue::Varint(varint_of_i32(m.checkpoint_max_count)) }]) + ((seq![WireField { tag: 112, value: WireValue::Varint(varint_of_i32(m.checkpoint_min_count)) }]) + ((seq![WireField { tag: 120, value: WireValue::Varint(varint_of_i32(m.subscriber_max_count)) }]) + ((match m.named_consumer_strategy {
            Some(x) => seq![WireField { tag: 130, value: WireValue::Bytes(encode_utf8(x)) }],
            None => Seq::<WireField>::empty(),
        })))))))))))))),
    );
    assert(fields_tagged((seq![WireField { tag: 10, value: WireValue::Bytes(encode_utf8(m.subscription_group_name)) }])));
    lemma_fields_tagged_append(
        (seq![WireField { tag: 10, value: WireValue::Bytes(encode_utf8(m.subscription_group_name)) }]),
        (seq![WireField { tag: 18, value: WireValue::Bytes(encode_utf8(m.event_stream_id)) }]) + ((seq![WireField { tag: 24, value: WireValue::Varint(varint_of_bool(m.resolve_link_tos)) }]) + ((seq![WireField { tag: 32, value: WireValue::Varint(varint_of_i32(m.start_from)) }]) + ((seq![WireField { tag: 40, value: WireValue::Varint(varint_of_i32(m.message_timeout_milliseconds)) }]) + ((seq![WireField { tag: 48, value: WireValue::Varint(varint_of_bool(m.record_statistics)) }]) + ((seq![WireField { tag: 56, value: WireValue::Varint(varint_of_i32(m.live_buffer_size)) }]) + ((seq![WireField { tag: 64, value: WireValue::Varint(varint_of_i32(m.read_batch_size)) }]) + ((seq![WireField { tag: 72, value: WireValue::Varint(varint_of_i32(m.buffer_size)) }]) + ((seq![WireField { tag: 80, value: WireValue::Varint(varint_of_i32(m.max_retry_count)) }]) + ((seq![WireField { tag: 88, value: WireValue::Varint(varint_of_bool(m.prefer_round_robin)) }]) + ((seq![WireField { tag: 96, value: WireValue::Varint(varint_of_i32(m.checkpoint_after_time)) }]) + ((seq![WireField { tag: 104, value: WireValue::Varint(varint_of_i32(m.checkpoint_max_count)) }]) + ((seq![WireField { tag: 112, value: WireValue::Varint(varint_of_i32(m.checkpoint_min_count)) }]) + ((seq![WireField { tag: 120, value: WireValue::Varint(varint_of_i32(m.subscriber_max_count)) }]) + ((match m.named_consumer_strategy {
            Some(x) => seq![WireField { tag: 130, value: WireValue::Bytes(encode_utf8(x)) }],
            None => Seq::<WireField>::empty(),
        }))))))))))))))),
    );
}

/// The bytes of an encoded `UpdatePersistentSubscription`: `subscription_group_name` under tag 10, `event_stream_id` under tag 18, `resolve_link_tos` under tag 24, `start_from` under tag 32, `message_timeout_milliseconds` under tag 40, `record_statistics` under tag 48, `live_buffer_size` under tag 56, `read_batch_size` under tag 64, `buffer_size` under tag 72, `max_retry_count` under tag 80, `prefer_round_robin` under tag 88, `checkpoint_after_time` under tag 96, `checkpoint_max_count` under tag 104, `checkpoint_min_count` under tag 112, `subscriber_max_count` under tag 120, `named_consumer_strategy` under tag 130, in this order; optional fields only
/// when present, repeated ones once per element.
pub proof fn lemma_update_persistent_subscription_encode_layout(m: UpdatePersistentSubscriptionModel)
    ensures
        update_persistent_subscription_encode(m) == (bytes_field_bytes(10, encode_utf8(m.subscription_group_name))) + ((bytes_field_bytes(18, encode_utf8(m.event_stream_id))) + ((varint_field_bytes(24, varint_of_bool(m.resolve_link_tos))) + ((varint_field_bytes(32, varint_of_i32(m.start_from))) + ((varint_field_bytes(40, varint_of_i32(m.message_timeout_milliseconds))) + ((varint_field_bytes(48, varint_of_bool(m.record_statistics))) + ((varint_field_bytes(56, varint_of_i32(m.live_buffer_size))) + ((varint_field_bytes(64, varint_of_i32(m.read_batch_size))) + ((varint_field_bytes(72, varint_of_i32(m.buffer_size))) + ((varint_field_bytes(80, varint_of_i32(m.max_retry_count))) + ((varint_field_bytes(88, varint_of_bool(m.prefer_round_robin))) + ((varint_field_bytes(96, varint_of_i32(m.checkpoint_after_time))) + ((varint_field_bytes(104, varint_of_i32(m.checkpoint_max_count))) + ((varint_field_bytes(112, varint_of_i32(m.checkpoint_min_count))) + ((varint_field_bytes(120, varint_of_i32(m.subscriber_max_count))) + (((match m.named_consumer_strategy {
            Some(x) => bytes_field_bytes(130, encode_utf8(x)),
            None => Seq::<u8>::empty(),
        }))))))))))))))))),
{
    lemma_encode_fields_append(
        (seq![WireField { tag: 10, value: WireValue::Bytes(encode_utf8(m.subscription_group_name)) }]),
        (seq![WireField { tag: 18, value: WireValue::Bytes(encode_utf8(m.event_stream_id)) }]) + ((seq![WireField { tag: 24, value: WireValue::Varint(varint_of_bool(m.resolve_link_tos)) }]) + ((seq![WireField { tag: 32, value: WireValue::Varint(varint_of_i32(m.start_from)) }]) + ((seq![WireField { tag: 40, value: WireValue::Varint(varint_of_i32(m.message_timeout_milliseconds)) }]) + ((seq![WireField { tag: 48, value: WireValue::Varint(varint_of_bool(m.record_statistics)) }]) + ((seq![WireField { tag: 56, value: WireValue::Varint(varint_of_i32(m.live_buffer_size)) }]) + ((seq![WireField { tag: 64, value: WireValue::Varint(varint_of_i32(m.read_batch_size)) }]) + ((seq![WireField { tag: 72, value: WireValue::Varint(varint_of_i32(m.buffer_size)) }]) + ((seq![WireField { tag: 80, value: WireValue::Varint(varint_of_i32(m.max_retry_count)) }]) + ((seq![WireField { tag: 88, value: WireValue::Varint(varint_of_bool(m.prefer_round_robin)) }]) + ((seq![WireField { tag: 96, value: WireValue::Varint(varint_of_i32(m.checkpoint_after_time)) }]) + ((seq![WireField { tag: 104, value: WireValue::Varint(varint_of_i32(m.checkpoint_max_count)) }]) + ((seq![WireField { tag: 112, value: WireValue::Varint(varint_of_i32(m.checkpoint_min_count)) }]) + ((seq![WireField { tag: 120, value: WireValue::Varint(varint_of_i32(m.subscriber_max_count)) }]) + ((match m.named_consumer_strategy {
            Some(x) => seq![WireField { tag: 130, value: WireValue::Bytes(encode_utf8(x)) }],
            None => Seq::<WireField>::empty(),
        }))))))))))))))),
    );
    lemma_encode_fields_append(
        (seq![WireField { tag: 18, value: WireValue::Bytes(encode_utf8(m.event_stream_id)) }]),
        (seq![WireField { tag: 24, value: WireValue::Varint(varint_of_bool(m.resolve_link_tos)) }]) + ((seq![WireField { tag: 32, value: WireValue::Varint(varint_of_i32(m.start_from)) }]) + ((seq![WireField { tag: 40, value: WireValue::Varint(varint_of_i32(m.message_timeout_milliseconds)) }]) + ((seq![WireField { tag: 48, value: WireValue::Varint(varint_of_bool(m.record_statistics)) }]) + ((seq![WireField { tag: 56, value: WireValue::Varint(varint_of_i32(m.live_buffer_size)) }]) + ((seq![WireField { tag: 64, value: WireValue::Varint(varint_of_i32(m.read_batch_size)) }]) + ((seq![WireField { tag: 72, value: WireValue::Varint(varint_of_i32(m.buffer_size)) }]) + ((seq![WireField { tag: 80, value: WireValue::Varint(varint_of_i32(m.max_retry_count)) }]) + ((seq![WireField { tag: 88, value: WireValue::Varint(varint_of_bool(m.prefer_round_robin)) }]) + ((seq![WireField { tag: 96, value: WireValue::Varint(varint_of_i32(m.checkpoint_after_time)) }]) + ((seq![WireField { tag: 104, value: WireValue::Varint(varint_of_i32(m.checkpoint_max_count)) }]) + ((seq![WireField { tag: 112, value: WireValue::Varint(varint_of_i32(m.checkpoint_min_count)) }]) + ((seq![WireField { tag: 120, value: WireValue::Varint(varint_of_i32(m.subscriber_max_count)) }]) + ((match m.named_consumer_strategy {
            Some(x) => seq![WireField { tag: 130, value: WireValue::Bytes(encode_utf8(x)) }],
            None => Seq::<WireField>::empty(),
        })))))))))))))),
    );
    lemma_encode_fields_append(
        (seq![WireField { tag: 24, value: WireValue::Varint(varint_of_bool(m.resolve_link_tos)) }]),
        (seq![WireField { tag: 32, value: WireValue::Varint(varint_of_i32(m.start_from)) }]) + ((seq![WireField { tag: 40, value: WireValue::Varint(varint_of_i32(m.message_timeout_milliseconds)) }]) + ((seq![WireField { tag: 48, value: WireValue::Varint(varint_of_bool(m.record_statistics)) }]) + ((seq![WireField { tag: 56, value: WireValue::Varint(varint_of_i32(m.live_buffer_size)) }]) + ((seq![WireField { tag: 64, value: WireValue::Varint(varint_of_i32(m.read_batch_size)) }]) + ((seq![WireField { tag: 72, value: WireValue::Varint(varint_of_i32(m.buffer_size)) }]) + ((seq![WireField { tag: 80, value: WireValue::Varint(varint_of_i32(m.max_retry_count)) }]) + ((seq![WireField { tag: 88, value: WireValue::Varint(varint_of_bool(m.prefer_round_robin)) }]) + ((seq![WireField { tag: 96, value: WireValue::Varint(varint_of_i32(m.checkpoint_after_time)) }]) + ((seq![WireField { tag: 104, value: WireValue::Varint(varint_of_i32(m.checkpoint_max_count)) }]) + ((seq![WireField { tag: 112, value: WireValue::Varint(varint_of_i32(m.checkpoint_min_count)) }]) + ((seq![WireField { tag: 120, value: WireValue::Varint(varint_of_i32(m.subscriber_max_count)) }]) + ((match m.named_consumer_strategy {
            Some(x) => seq![WireField { tag: 130, value: WireValue::Bytes(encode_utf8(x)) }],
            None => Seq::<WireField>::empty(),
        }))))))))))))),
    );
    lemma_encode_fields_append(
        (seq![WireField { tag: 32, value: WireValue::Varint(varint_of_i32(m.start_from)) }]),
        (seq![WireField { tag: 40, value: WireValue::Varint(varint_of_i32(m.message_timeout_milliseconds)) }]) + ((seq![WireField { tag: 48, value: WireValue::Varint(varint_of_bool(m.record_statistics)) }]) + ((seq![WireField { tag: 56, value: WireValue::Varint(varint_of_i32(m.live_buffer_size)) }]) + ((seq![WireField { tag: 64, value: WireValue::Varint(varint_of_i32(m.read_batch_size)) }]) + ((seq![WireField { tag: 72, value: WireValue::Varint(varint_of_i32(m.buffer_size)) }]) + ((seq![WireField { tag: 80, value: WireValue::Varint(varint_of_i32(m.max_retry_count)) }]) + ((seq![WireField { tag: 88, value: WireValue::Varint(varint_of_bool(m.prefer_round_robin)) }]) + ((seq![WireField { tag: 96, value: WireValue::Varint(varint_of_i32(m.checkpoint_after_time)) }]) + ((seq![WireField { tag: 104, value: WireValue::Varint(varint_of_i32(m.checkpoint_max_count)) }]) + ((seq![WireField { tag: 112, value: WireValue::Varint(varint_of_i32(m.checkpoint_min_count)) }]) + ((seq![WireField { tag: 120, value: WireValue::Varint(varint_of_i32(m.subscriber_max_count)) }]) + ((match m.named_consumer_strategy {
            Some(x) => seq![WireField { tag: 130, value: WireValue::Bytes(encode_utf8(x)) }],
            None => Seq::<WireField>::empty(),
        })))))))))))),
    );
    lemma_encode_fields_append(
        (seq![WireField { tag: 40, value: WireValue::Varint(varint_of_i32(m.message_timeout_milliseconds)) }]),
        (seq![WireField { tag: 48, value: WireValue::Varint(varint_of_bool(m.record_statistics)) }]) + ((seq![WireField { tag: 56, value: WireValue::Varint(varint_of_i32(m.live_buffer_size)) }]) + ((seq![WireField { tag: 64, value: WireValue::Varint(varint_of_i32(m.read_batch_size)) }]) + ((seq![WireField { tag: 72, value: WireValue::Varint(varint_of_i32(m.buffer_size)) }]) + ((seq![WireField { tag: 80, value: WireValue::Varint(varint_of_i32(m.max_retry_count)) }]) + ((seq![WireField { tag: 88, value: WireValue::Varint(varint_of_bool(m.prefer_round_robin)) }]) + ((seq![WireField { tag: 96, value: WireValue::Varint(varint_of_i32(m.checkpoint_after_time)) }]) + ((seq![WireField { tag: 104, value: WireValue::Varint(varint_of_i32(m.checkpoint_max_count)) }]) + ((seq![WireField { tag: 112, value: WireValue::Varint(varint_of_i32(m.checkpoint_min_count)) }]) + ((seq![WireField { tag: 120, value: WireValue::Varint(varint_of_i32(m.subscriber_max_count)) }]) + ((match m.named_consumer_strategy {
            Some(x) => seq![WireField { tag: 130, value: WireValue::Bytes(encode_utf8(x)) }],
            None => Seq::<WireField>::empty(),
        }))))))))))),
    );
    lemma_encode_fields_append(
        (seq![WireField { tag: 48, value: WireValue::Varint(varint_of_bool(m.record_statistics)) }]),
        (seq![WireField { tag: 56, value: WireValue::Varint(varint_of_i32(m.live_buffer_size)) }]) + ((seq![WireField { tag: 64, value: WireValue::Varint(varint_of_i32(m.read_batch_size)) }]) + ((seq![WireField { tag: 72, value: WireValue::Varint(varint_of_i32(m.buffer_size)) }]) + ((seq![WireField { tag: 80, value: WireValue::Varint(varint_of_i32(m.max_retry_count)) }]) + ((seq![WireField { tag: 88, value: WireValue::Varint(varint_of_bool(m.prefer_round_robin)) }]) + ((seq![WireField { tag: 96, value: WireValue::Varint(varint_of_i32(m.checkpoint_after_time)) }]) + ((seq![WireField { tag: 104, value: WireValue::Varint(varint_of_i32(m.checkpoint_max_count)) }]) + ((seq![WireField { tag: 112, value: WireValue::Varint(varint_of_i32(m.checkpoint_min_count)) }]) + ((seq![WireField { tag: 120, value: WireValue::Varint(varint_of_i32(m.subscriber_max_count)) }]) + ((match m.named_consumer_strategy {
            Some(x) => seq![WireField { tag: 130, value: WireValue::Bytes(encode_utf8(x)) }],
            None => Seq::<WireField>::empty(),
        })))))))))),
    );
    lemma_encode_fields_append(
        (seq![WireField { tag: 56, value: WireValue::Varint(varint_of_i32(m.live_buffer_size)) }]),
        (seq![WireField { tag: 64, value: WireValue::Varint(varint_of_i32(m.read_batch_size)) }]) + ((seq![WireField { tag: 72, value: WireValue::Varint(varint_of_i32(m.buffer_size)) }]) + ((seq![WireField { tag: 80, value: WireValue::Varint(varint_of_i32(m.max_retry_count)) }]) + ((seq![WireField { tag: 88, value: WireValue::Varint(varint_of_bool(m.prefer_round_robin)) }]) + ((seq![WireField { tag: 96, value: WireValue::Varint(varint_of_i32(m.checkpoint_after_time)) }]) + ((seq![WireField { tag: 104, value: WireValue::Varint(varint_of_i32(m.checkpoint_max_count)) }]) + ((seq![WireField { tag: 112, value: WireValue::Varint(varint_of_i32(m.checkpoint_min_count)) }]) + ((seq![WireField { tag: 120, value: WireValue::Varint(varint_of_i32(m.subscriber_max_count)) }]) + ((match m.named_consumer_strategy {
            Some(x) => seq![WireField { tag: 130, value: WireValue::Bytes(encode_utf8(x)) }],
            None => Seq::<WireField>::empty(),
        }))))))))),
    );
    lemma_encode_fields_append(
        (seq![WireField { tag: 64, value: WireValue::Varint(varint_of_i32(m.read_batch_size)) }]),
        (seq![WireField { tag: 72, value: WireValue::Varint(varint_of_i32(m.buffer_size)) }]) + ((seq![WireField { tag: 80, value: WireValue::Varint(varint_of_i32(m.max_retry_count)) }]) + ((seq![WireField { tag: 88, value: WireValue::Varint(varint_of_bool(m.prefer_round_robin)) }]) + ((seq![WireField { tag: 96, value: WireValue::Varint(varint_of_i32(m.checkpoint_after_time)) }]) + ((seq![WireField { tag: 104, value: WireValue::Varint(varint_of_i32(m.checkpoint_max_count)) }]) + ((seq![WireField { tag: 112, value: WireValue::Varint(varint_of_i32(m.checkpoint_min_count)) }]) + ((seq![WireField { tag: 120, value: WireValue::Varint(varint_of_i32(m.subscriber_max_count)) }]) + ((match m.named_consumer_strategy {
            Some(x) => seq![WireField { tag: 130, value: WireValue::Bytes(encode_utf8(x)) }],
            None => Seq::<WireField>::empty(),
        })))))))),
    );
    lemma_encode_fields_append(
        (seq![WireField { tag: 72, value: WireValue::Varint(varint_of_i32(m.buffer_size)) }]),
        (seq![WireField { tag: 80, value: WireValue::Varint(varint_of_i32(m.max_retry_count)) }]) + ((seq![WireField { tag: 88, value: WireValue::Varint(varint_of_bool(m.prefer_round_robin)) }]) + ((seq![WireField { tag: 96, value: WireValue::Varint(varint_of_i32(m.checkpoint_after_time)) }]) + ((seq![WireField { tag: 104, value: WireValue::Varint(varint_of_i32(m.checkpoint_max_count)) }]) + ((seq![WireField { tag: 112, value: WireValue::Varint(varint_of_i32(m.checkpoint_min_count)) }]) + ((seq![WireField { tag: 120, value: WireValue::Varint(varint_of_i32(m.subscriber_max_count)) }]) + ((match m.named_consumer_strategy {
            Some(x) => seq![WireField { tag: 130, value: WireValue::Bytes(encode_utf8(x)) }],
            None => Seq::<WireField>::empty(),
        }))))))),
    );
    lemma_encode_fields_append(
        (seq![WireField { tag: 80, value: WireValue::Varint(varint_of_i32(m.max_retry_count)) }]),
        (seq![WireField { tag: 88, value: WireValue::Varint(varint_of_bool(m.prefer_round_robin)) }]) + ((seq![WireField { tag: 96, value: WireValue::Varint(varint_of_i32(m.checkpoint_after_time)) }]) + ((seq![WireField { tag: 104, value: WireValue::Varint(varint_of_i32(m.checkpoint_max_count)) }]) + ((seq![WireField { tag: 112, value: WireValue::Varint(varint_of_i32(m.checkpoint_min_count)) }]) + ((seq![WireField { tag: 120, value: WireValue::Varint(varint_of_i32(m.subscriber_max_count)) }]) + ((match m.named_consumer_strategy {
            Some(x) => seq![WireField { tag: 130, value: WireValue::Bytes(encode_utf8(x)) }],
            None => Seq::<WireField>::empty(),
        })))))),
    );
    lemma_encode_fields_append(
        (seq![WireField { tag: 88, value: WireValue::Varint(varint_of_bool(m.prefer_round_robin)) }]),
        (seq![WireField { tag: 96, value: WireValue::Varint(varint_of_i32(m.checkpoint_after_time)) }]) + ((seq![WireField { tag: 104, value: WireValue::Varint(varint_of_i32(m.checkpoint_max_count)) }]) + ((seq![WireField { tag: 112, value: WireValue::Varint(varint_of_i32(m.checkpoint_min_count)) }]) + ((seq![WireField { tag: 120, value: WireValue::Varint(varint_of_i32(m.subscriber_max_count)) }]) + ((match m.named_consumer_strategy {
            Some(x) => seq![WireField { tag: 130, value: WireValue::Bytes(encode_utf8(x)) }],
            None => Seq::<WireField>::empty(),
        }))))),
    );
    lemma_encode_fields_append(
        (seq![WireField { tag: 96, value: WireValue::Varint(varint_of_i32(m.checkpoint_after_time)) }]),
        (seq![WireField { tag: 104, value: WireValue::Varint(varint_of_i32(m.checkpoint_max_count)) }]) + ((seq![WireField { tag: 112, value: WireValue::Varint(varint_of_i32(m.checkpoint_min_count)) }]) + ((seq![WireField { tag: 120, value: WireValue::Varint(varint_of_i32(m.subscriber_max_count)) }]) + ((match m.named_consumer_strategy {
            Some(x) => seq![WireField { tag: 130, value: WireValue::Bytes(encode_utf8(x)) }],
            None => Seq::<WireField>::empty(),
        })))),
    );
    lemma_encode_fields_append(
        (seq![WireField { tag: 104, value: WireValue::Varint(varint_of_i32(m.checkpoint_max_count)) }]),
        (seq![WireField { tag: 112, value: WireValue::Varint(varint_of_i32(m.checkpoint_min_count)) }]) + ((seq![WireField { tag: 120, value: WireValue::Varint(varint_of_i32(m.subscriber_max_count)) }]) + ((match m.named_consumer_strategy {
            Some(x) => seq![WireField { tag: 130, value: WireValue::Bytes(encode_utf8(x)) }],
            None => Seq::<WireField>::empty(),
        }))),
    );
    lemma_encode_fields_append(
        (seq![WireField { tag: 112, value: WireValue::Varint(varint_of_i32(m.checkpoint_min_count)) }]),
        (seq![WireField { tag: 120, value: WireValue::Varint(varint_of_i32(m.subscriber_max_count)) }]) + ((match m.named_consumer_strategy {
            Some(x) => seq![WireField { tag: 130, value: WireValue::Bytes(encode_utf8(x)) }],
            None => Seq::<WireField>::empty(),
        })),
    );
    lemma_encode_fields_append(
        (seq![WireField { tag: 120, value: WireValue::Varint(varint_of_i32(m.subscriber_max_count)) }]),
        (match m.named_consumer_strategy {
            Some(x) => seq![WireField { tag: 130, value: WireValue::Bytes(encode_utf8(x)) }],
            None => Seq::<WireField>::empty(),
        }),
    );
    lemma_bytes_field_layout(10, encode_utf8(m.subscription_group_name));
    lemma_bytes_field_layout(18, encode_utf8(m.event_stream_id));
    lemma_varint_field_layout(24, varint_of_bool(m.resolve_link_tos));
    lemma_varint_field_layout(32, varint_of_i32(m.start_from));
    lemma_varint_field_layout(40, varint_of_i32(m.message_timeout_milliseconds));
    lemma_varint_field_layout(48, varint_of_bool(m.record_statistics));
    lemma_varint_field_layout(56, varint_of_i32(m.live_buffer_size));
    lemma_varint_field_layout(64, varint_of_i32(m.read_batch_size));
    lemma_varint_field_layout(72, varint_of_i32(m.buffer_size));
    lemma_varint_field_layout(80, varint_of_i32(m.max_retry_count));
    lemma_varint_field_layout(88, varint_of_bool(m.prefer_round_robin));
    lemma_varint_field_layout(96, varint_of_i32(m.checkpoint_after_time));
    lemma_varint_field_layout(104, varint_of_i32(m.checkpoint_max_count));
    lemma_varint_field_layout(112, varint_of_i32(m.checkpoint_min_count));
    lemma_varint_field_layout(120, varint_of_i32(m.subscriber_max_count));
    if let Some(x) = m.named_consumer_strategy {
        lemma_bytes_field_layout(130, encode_utf8(x));
    }
}

/// Reading a written `UpdatePersistentSubscription` gives it back.
pub proof fn lemma_update_persistent_subscription_roundtrip(m: UpdatePersistentSubscriptionModel)
    requires
        update_persistent_subscription_wf(m),
    ensures
        update_persistent_subscription_decode(update_persistent_subscription_encode(m)) == Some(m),
{
    let ap = update_persistent_subscription_applier();
    lemma_update_persistent_subscription_fields_tagged(m);
    lemma_fields_canonical_of_short(update_persistent_subscription_fields(m));
    lemma_decode_encoded_fields(update_persistent_subscription_fields(m), update_persistent_subscription_default(), ap, update_persistent_subscription_known());
    let a0 = update_persistent_subscription_default();
    let a1 = UpdatePersistentSubscriptionModel { subscription_group_name: m.subscription_group_name, ..a0 };
    lemma_apply_fields_append(
        (seq![WireField { tag: 10, value: WireValue::Bytes(encode_utf8(m.subscription_group_name)) }]),
        (seq![WireField { tag: 18, value: WireValue::Bytes(encode_utf8(m.event_stream_id)) }]) + ((seq![WireField { tag: 24, value: WireValue::Varint(varint_of_bool(m.resolve_link_tos)) }]) + ((seq![WireField { tag: 32, value: WireValue::Varint(varint_of_i32(m.start_from)) }]) + ((seq![WireField { tag: 40, value: WireValue::Varint(varint_of_i32(m.message_timeout_milliseconds)) }]) + ((seq![WireField { tag: 48, value: WireValue::Varint(varint_of_bool(m.record_statistics)) }]) + ((seq![WireField { tag: 56, value: WireValue::Varint(varint_of_i32(m.live_buffer_size)) }]) + ((seq![WireField { tag: 64, value: WireValue::Varint(varint_of_i32(m.read_batch_size)) }]) + ((seq![WireField { tag: 72, value: WireValue::Varint(varint_of_i32(m.buffer_size)) }]) + ((seq![WireField { tag: 80, value: WireValue::Varint(varint_of_i32(m.max_retry_count)) }]) + ((seq![WireField { tag: 88, value: WireValue::Varint(varint_of_bool(m.prefer_round_robin)) }]) + ((seq![WireField { tag: 96, value: WireValue::Varint(varint_of_i32(m.checkpoint_after_time)) }]) + ((seq![WireField { tag: 104, value: WireValue::Varint(varint_of_i32(m.checkpoint_max_count)) }]) + ((seq![WireField { tag: 112, value: WireValue::Varint(varint_of_i32(m.checkpoint_min_count)) }]) + ((seq![WireField { tag: 120, value: WireValue::Varint(varint_of_i32(m.subscriber_max_count)) }]) + ((match m.named_consumer_strategy {
            Some(x) => seq![WireField { tag: 130, value: WireValue::Bytes(encode_utf8(x)) }],
            None => Seq::<WireField>::empty(),
        }))))))))))))))),
        a0,
        ap,
    );
    assert(apply_fields((seq![WireField { tag: 10, value: WireValue::Bytes(encode_utf8(m.subscription_group_name)) }]), a0, ap) == Some(a1)) by {
        reveal_with_fuel(apply_fields, 2);
        lemma_string_roundtrip(m.subscription_group_name);
    }
    let a2 = UpdatePersistentSubscriptionModel { event_stream_id: m.event_stream_id, ..a1 };
    lemma_apply_fields_append(
        (seq![WireField { tag: 18, value: WireValue::Bytes(encode_utf8(m.event_stream_id)) }]),
        (seq![WireField { tag: 24, value: WireValue::Varint(varint_of_bool(m.resolve_link_tos)) }]) + ((seq![WireField { tag: 32, value: WireValue::Varint(varint_of_i32(m.start_from)) }]) + ((seq![WireField { tag: 40, value: WireValue::Varint(varint_of_i32(m.message_timeout_milliseconds)) }]) + ((seq![WireField { tag: 48, value: WireValue::Varint(varint_of_bool(m.record_statistics)) }]) + ((seq![WireField { tag: 56, value: WireValue::Varint(varint_of_i32(m.live_buffer_size)) }]) + ((seq![WireField { tag: 64, value: WireValue::Varint(varint_of_i32(m.read_batch_size)) }]) + ((seq![WireField { tag: 72, value: WireValue::Varint(varint_of_i32(m.buffer_size)) }]) + ((seq![WireField { tag: 80, value: WireValue::Varint(varint_of_i32(m.max_retry_count)) }]) + ((seq![WireField { tag: 88, value: WireValue::Varint(varint_of_bool(m.prefer_round_robin)) }]) + ((seq![WireField { tag: 96, value: WireValue::Varint(varint_of_i32(m.checkpoint_after_time)) }]) + ((seq![WireField { tag: 104, value: WireValue::Varint(varint_of_i32(m.checkpoint_max_count)) }]) + ((seq![WireField { tag: 112, value: WireValue::Varint(varint_of_i32(m.checkpoint_min_count)) }]) + ((seq![WireField { tag: 120, value: WireValue::Varint(varint_of_i32(m.subscriber_max_count)) }]) + ((match m.named_consumer_strategy {
            Some(x) => seq![WireField { tag: 130, value: WireValue::Bytes(encode_utf8(x)) }],
            None => Seq::<WireField>::empty(),
        })))))))))))))),
        a1,
        ap,
    );
    assert(apply_fields((seq![WireField { tag: 18, value: WireValue::Bytes(encode_utf8(m.event_stream_id)) }]), a1, ap) == Some(a2)) by {
        reveal_with_fuel(apply_fields, 2);
        lemma_string_roundtrip(m.event_stream_id);
    }
    let a3 = UpdatePersistentSubscriptionModel { resolve_link_tos: m.resolve_link_tos, ..a2 };
    lemma_apply_fields_append(
        (seq![WireField { tag: 24, value: WireValue::Varint(varint_of_bool(m.resolve_link_tos)) }]),
        (seq![WireField { tag: 32, value: WireValue::Varint(varint_of_i32(m.start_from)) }]) + ((seq![WireField { tag: 40, value: WireValue::Varint(varint_of_i32(m.message_timeout_milliseconds)) }]) + ((seq![WireField { tag: 48, value: WireValue::Varint(varint_of_bool(m.record_statistics)) }]) + ((seq![WireField { tag: 56, value: WireValue::Varint(varint_of_i32(m.live_buffer_size)) }]) + ((seq![WireField { tag: 64, value: WireValue::Varint(varint_of_i32(m.read_batch_size)) }]) + ((seq![WireField { tag: 72, value: WireValue::Varint(varint_of_i32(m.buffer_size)) }]) + ((seq![WireField { tag: 80, value: WireValue::Varint(varint_of_i32(m.max_retry_count)) }]) + ((seq![WireField { tag: 88, value: WireValue::Varint(varint_of_bool(m.prefer_round_robin)) }]) + ((seq![WireField { tag: 96, value: WireValue::Varint(varint_of_i32(m.checkpoint_after_time)) }]) + ((seq![WireField { tag: 104, value: WireValue::Varint(varint_of_i32(m.checkpoint_max_count)) }]) + ((seq![WireField { tag: 112, value: WireValue::Varint(varint_of_i32(m.checkpoint_min_count)) }]) + ((seq![WireField { tag: 120, value: WireValue::Varint(varint_of_i32(m.subscriber_max_count)) }]) + ((match m.named_consumer_strategy {
            Some(x) => seq![WireField { tag: 130, value: WireValue::Bytes(encode_utf8(x)) }],
            None => Seq::<WireField>::empty(),
        }))))))))))))),
        a2,
        ap,
    );
    assert(apply_fields((seq![WireField { tag: 24, value: WireValue::Varint(varint_of_bool(m.resolve_link_tos)) }]), a2, ap) == Some(a3)) by {
        reveal_with_fuel(apply_fields, 2);
        lemma_scalar_roundtrips(0, 0, m.resolve_link_tos);
    }
    let a4 = UpdatePersistentSubscriptionModel { start_from: m.start_from, ..a3 };
    lemma_apply_fields_append(
        (seq![WireField { tag: 32, value: WireValue::Varint(varint_of_i32(m.start_from)) }]),
        (seq![WireField { tag: 40, value: WireValue::Varint(varint_of_i32(m.message_timeout_milliseconds)) }]) + ((seq![WireField { tag: 48, value: WireValue::Varint(varint_of_bool(m.record_statistics)) }]) + ((seq![WireField { tag: 56, value: WireValue::Varint(varint_of_i32(m.live_buffer_size)) }]) + ((seq![WireField { tag: 64, value: WireValue::Varint(varint_of_i32(m.read_batch_size)) }]) + ((seq![WireField { tag: 72, value: WireValue::Varint(varint_of_i32(m.buffer_size)) }]) + ((seq![WireField { tag: 80, value: WireValue::Varint(varint_of_i32(m.max_retry_count)) }]) + ((seq![WireField { tag: 88, value: WireValue::Varint(varint_of_bool(m.prefer_round_robin)) }]) + ((seq![WireField { tag: 96, value: WireValue::Varint(varint_of_i32(m.checkpoint_after_time)) }]) + ((seq![WireField { tag: 104, value: WireValue::Varint(varint_of_i32(m.checkpoint_max_count)) }]) + ((seq![WireField { tag: 112, value: WireValue::Varint(varint_of_i32(m.checkpoint_min_count)) }]) + ((seq![WireField { tag: 120, value: WireValue::Varint(varint_of_i32(m.subscriber_max_count)) }]) + ((match m.named_consumer_strategy {
            Some(x) => seq![WireField { tag: 130, value: WireValue::Bytes(encode_utf8(x)) }],
            None => Seq::<WireField>::empty(),
        })))))))))))),
        a3,
        ap,
    );
    assert(apply_fields((seq![WireField { tag: 32, value: WireValue::Varint(varint_of_i32(m.start_from)) }]), a3, ap) == Some(a4)) by {
        reveal_with_fuel(apply_fields, 2);
        lemma_scalar_roundtrips(m.start_from, 0, false);
    }
    let a5 = UpdatePersistentSubscriptionModel { message_timeout_milliseconds: m.message_timeout_milliseconds, ..a4 };
    lemma_apply_fields_append(
        (seq![WireField { tag: 40, value: WireValue::Varint(varint_of_i32(m.message_timeout_milliseconds)) }]),
        (seq![WireField { tag: 48, value: WireValue::Varint(varint_of_bool(m.record_statistics)) }]) + ((seq![WireField { tag: 56, value: WireValue::Varint(varint_of_i32(m.live_buffer_size)) }]) + ((seq![WireField { tag: 64, value: WireValue::Varint(varint_of_i32(m.read_batch_size)) }]) + ((seq![WireField { tag: 72, value: WireValue::Varint(varint_of_i32(m.buffer_size)) }]) + ((seq![WireField { tag: 80, value: WireValue::Varint(varint_of_i32(m.max_retry_count)) }]) + ((seq![WireField { tag: 88, value: WireValue::Varint(varint_of_bool(m.prefer_round_robin)) }]) + ((seq![WireField { tag: 96, value: WireValue::Varint(varint_of_i32(m.checkpoint_after_time)) }]) + ((seq![WireField { tag: 104, value: WireValue::Varint(varint_of_i32(m.checkpoint_max_count)) }]) + ((seq![WireField { tag: 112, value: WireValue::Varint(varint_of_i32(m.checkpoint_min_count)) }]) + ((seq![WireField { tag: 120, value: WireValue::Varint(varint_of_i32(m.subscriber_max_count)) }]) + ((match m.named_consumer_strategy {
            Some(x) => seq![WireField { tag: 130, value: WireValue::Bytes(encode_utf8(x)) }],
            None => Seq::<WireField>::empty(),
        }))))))))))),
        a4,
        ap,
    );
    assert(apply_fields((seq![WireField { tag: 40, value: WireValue::Varint(varint_of_i32(m.message_timeout_milliseconds)) }]), a4, ap) == Some(a5)) by {
        reveal_with_fuel(apply_fields, 2);
        lemma_scalar_roundtrips(m.message_timeout_milliseconds, 0, false);
    }
    let a6 = UpdatePersistentSubscriptionModel { record_statistics: m.record_statistics, ..a5 };
    lemma_apply_fields_append(
        (seq![WireField { tag: 48, value: WireValue::Varint(varint_of_bool(m.record_statistics)) }]),
        (seq![WireField { tag: 56, value: WireValue::Varint(varint_of_i32(m.live_buffer_size)) }]) + ((seq![WireField { tag: 64, value: WireValue::Varint(varint_of_i32(m.read_batch_size)) }]) + ((seq![WireField { tag: 72, value: WireValue::Varint(varint_of_i32(m.buffer_size)) }]) + ((seq![WireField { tag: 80, value: WireValue::Varint(varint_of_i32(m.max_retry_count)) }]) + ((seq![WireField { tag: 88, value: WireValue::Varint(varint_of_bool(m.prefer_round_robin)) }]) + ((seq![WireField { tag: 96, value: WireValue::Varint(varint_of_i32(m.checkpoint_after_time)) }]) + ((seq![WireField { tag: 104, value: WireValue::Varint(varint_of_i32(m.checkpoint_max_count)) }]) + ((seq![WireField { tag: 112, value: WireValue::Varint(varint_of_i32(m.checkpoint_min_count)) }]) + ((seq![WireField { tag: 120, value: WireValue::Varint(varint_of_i32(m.subscriber_max_count)) }]) + ((match m.named_consumer_strategy {
            Some(x) => seq![WireField { tag: 130, value: WireValue::Bytes(encode_utf8(x)) }],
            None => Seq::<WireField>::empty(),
        })))))))))),
        a5,
        ap,
    );
    assert(apply_fields((seq![WireField { tag: 48, value: WireValue::Varint(varint_of_bool(m.record_statistics)) }]), a5, ap) == Some(a6)) by {
        reveal_with_fuel(apply_fields, 2);
        lemma_scalar_roundtrips(0, 0, m.record_statistics);
    }
    let a7 = UpdatePersistentSubscriptionModel { live_buffer_size: m.live_buffer_size, ..a6 };
    lemma_apply_fields_append(
        (seq![WireField { tag: 56, value: WireValue::Varint(varint_of_i32(m.live_buffer_size)) }]),
        (seq![WireField { tag: 64, value: WireValue::Varint(varint_of_i32(m.read_batch_size)) }]) + ((seq![WireField { tag: 72, value: WireValue::Varint(varint_of_i32(m.buffer_size)) }]) + ((seq![WireField { tag: 80, value: WireValue::Varint(varint_of_i32(m.max_retry_count)) }]) + ((seq![WireField { tag: 88, value: WireValue::Varint(varint_of_bool(m.prefer_round_robin)) }]) + ((seq![WireField { tag: 96, value: WireValue::Varint(varint_of_i32(m.checkpoint_after_time)) }]) + ((seq![WireField { tag: 104, value: WireValue::Varint(varint_of_i32(m.checkpoint_max_count)) }]) + ((seq![WireField { tag: 112, value: WireValue::Varint(varint_of_i32(m.checkpoint_min_count)) }]) + ((seq![WireField { tag: 120, value: WireValue::Varint(varint_of_i32(m.subscriber_max_count)) }]) + ((match m.named_consumer_strategy {
            Some(x) => seq![WireField { tag: 130, value: WireValue::Bytes(encode_utf8(x)) }],
            None => Seq::<WireField>::empty(),
        }))))))))),
        a6,
        ap,
    );
    assert(apply_fields((seq![WireField { tag: 56, value: WireValue::Varint(varint_of_i32(m.live_buffer_size)) }]), a6, ap) == Some(a7)) by {
        reveal_with_fuel(apply_fields, 2);
        lemma_scalar_roundtrips(m.live_buffer_size, 0, false);
    }
    let a8 = UpdatePersistentSubscriptionModel { read_batch_size: m.read_batch_size, ..a7 };
    lemma_apply_fields_append(
        (seq![WireField { tag: 64, value: WireValue::Varint(varint_of_i32(m.read_batch_size)) }]),
        (seq![WireField { tag: 72, value: WireValue::Varint(varint_of_i32(m.buffer_size)) }]) + ((seq![WireField { tag: 80, value: WireValue::Varint(varint_of_i32(m.max_retry_count)) }]) + ((seq![WireField { tag: 88, value: WireValue::Varint(varint_of_bool(m.prefer_round_robin)) }]) + ((seq![WireField { tag: 96, value: WireValue::Varint(varint_of_i32(m.checkpoint_after_time)) }]) + ((seq![WireField { tag: 104, value: WireValue::Varint(varint_of_i32(m.checkpoint_max_count)) }]) + ((seq![WireField { tag: 112, value: WireValue::Varint(varint_of_i32(m.checkpoint_min_count)) }]) + ((seq![WireField { tag: 120, value: WireValue::Varint(varint_of_i32(m.subscriber_max_count)) }]) + ((match m.named_consumer_strategy {
            Some(x) => seq![WireField { tag: 130, value: WireValue::Bytes(encode_utf8(x)) }],
            None => Seq::<WireField>::empty(),
        })))))))),
        a7,
        ap,
    );
    assert(apply_fields((seq![WireField { tag: 64, value: WireValue::Varint(varint_of_i32(m.read_batch_size)) }]), a7, ap) == Some(a8)) by {
        reveal_with_fuel(apply_fields, 2);
        lemma_scalar_roundtrips(m.read_batch_size, 0, false);
    }
    let a9 = UpdatePersistentSubscriptionModel { buffer_size: m.buffer_size, ..a8 };
    lemma_apply_fields_append(
        (seq![WireField { tag: 72, value: WireValue::Varint(varint_of_i32(m.buffer_size)) }]),
        (seq![WireField { tag: 80, value: WireValue::Varint(varint_of_i32(m.max_retry_count)) }]) + ((seq![WireField { tag: 88, value: WireValue::Varint(varint_of_bool(m.prefer_round_robin)) }]) + ((seq![WireField { tag: 96, value: WireValue::Varint(varint_of_i32(m.checkpoint_after_time)) }]) + ((seq![WireField { tag: 104, value: WireValue::Varint(varint_of_i32(m.checkpoint_max_count)) }]) + ((seq![WireField { tag: 112, value: WireValue::Varint(varint_of_i32(m.checkpoint_min_count)) }]) + ((seq![WireField { tag: 120, value: WireValue::Varint(varint_of_i32(m.subscriber_max_count)) }]) + ((match m.named_consumer_strategy {
            Some(x) => seq![WireField { tag: 130, value: WireValue::Bytes(encode_utf8(x)) }],
            None => Seq::<WireField>::empty(),
        }))))))),
        a8,
        ap,
    );
    assert(apply_fields((seq![WireField { tag: 72, value: WireValue::Varint(varint_of_i32(m.buffer_size)) }]), a8, ap) == Some(a9)) by {
        reveal_with_fuel(apply_fields, 2);
        lemma_scalar_roundtrips(m.buffer_size, 0, false);
    }
    let a10 = UpdatePersistentSubscriptionModel { max_retry_count: m.max_retry_count, ..a9 };
    lemma_apply_fields_append(
        (seq![WireField { tag: 80, value: WireValue::Varint(varint_of_i32(m.max_retry_count)) }]),
        (seq![WireField { tag: 88, value: WireValue::Varint(varint_of_bool(m.prefer_round_robin)) }]) + ((seq![WireField { tag: 96, value: WireValue::Varint(varint_of_i32(m.checkpoint_after_time)) }]) + ((seq![WireField { tag: 104, value: WireValue::Varint(varint_of_i32(m.checkpoint_max_count)) }]) + ((seq![WireField { tag: 112, value: WireValue::Varint(varint_of_i32(m.checkpoint_min_count)) }]) + ((seq![WireField { tag: 120, value: WireValue::Varint(varint_of_i32(m.subscriber_max_count)) }]) + ((match m.named_consumer_strategy {
            Some(x) => seq![WireField { tag: 130, value: WireValue::Bytes(encode_utf8(x)) }],
            None => Seq::<WireField>::empty(),
        })))))),
        a9,
        ap,
    );
    assert(apply_fields((seq![WireField { tag: 80, value: WireValue::Varint(varint_of_i32(m.max_retry_count)) }]), a9, ap) == Some(a10)) by {
        reveal_with_fuel(apply_fields, 2);
        lemma_scalar_roundtrips(m.max_retry_count, 0, false);
    }
    let a11 = UpdatePersistentSubscriptionModel { prefer_round_robin: m.prefer_round_robin, ..a10 };
    lemma_apply_fields_append(
        (seq![WireField { tag: 88, value: WireValue::Varint(varint_of_bool(m.prefer_round_robin)) }]),
        (seq![WireField { tag: 96, value: WireValue::Varint(varint_of_i32(m.checkpoint_after_time)) }]) + ((seq![WireField { tag: 104, value: WireValue::Varint(varint_of_i32(m.checkpoint_max_count)) }]) + ((seq![WireField { tag: 112, value: WireValue::Varint(varint_of_i32(m.checkpoint_min_count)) }]) + ((seq![WireField { tag: 120, value: WireValue::Varint(varint_of_i32(m.subscriber_max_count)) }]) + ((match m.named_consumer_strategy {
            Some(x) => seq![WireField { tag: 130, value: WireValue::Bytes(encode_utf8(x)) }],
            None => Seq::<WireField>::empty(),
        }))))),
        a10,
        ap,
    );
    assert(apply_fields((seq![WireField { tag: 88, value: WireValue::Varint(varint_of_bool(m.prefer_round_robin)) }]), a10, ap) == Some(a11)) by {
        reveal_with_fuel(apply_fields, 2);
        lemma_scalar_roundtrips(0, 0, m.prefer_round_robin);
    }
    let a12 = UpdatePersistentSubscriptionModel { checkpoint_after_time: m.checkpoint_after_time, ..a11 };
    lemma_apply_fields_append(
        (seq![WireField { tag: 96, value: WireValue::Varint(varint_of_i32(m.checkpoint_after_time)) }]),
        (seq![WireField { tag: 104, value: WireValue::Varint(varint_of_i32(m.checkpoint_max_count)) }]) + ((seq![WireField { tag: 112, value: WireValue::Varint(varint_of_i32(m.checkpoint_min_count)) }]) + ((seq![WireField { tag: 120, value: WireValue::Varint(varint_of_i32(m.subscriber_max_count)) }]) + ((match m.named_consumer_strategy {
            Some(x) => seq![WireField { tag: 130, value: WireValue::Bytes(encode_utf8(x)) }],
            None => Seq::<WireField>::empty(),
        })))),
        a11,
        ap,
    );
    assert(apply_fields((seq![WireField { tag: 96, value: WireValue::Varint(varint_of_i32(m.checkpoint_after_time)) }]), a11, ap) == Some(a12)) by {
        reveal_with_fuel(apply_fields, 2);
        lemma_scalar_roundtrips(m.checkpoint_after_time, 0, false);
    }
    let a13 = UpdatePersistentSubscriptionModel { checkpoint_max_count: m.checkpoint_max_count, ..a12 };
    lemma_apply_fields_append(
        (seq![WireField { tag: 104, value: WireValue::Varint(varint_of_i32(m.checkpoint_max_count)) }]),
        (seq![WireField { tag: 112, value: WireValue::Varint(varint_of_i32(m.checkpoint_min_count)) }]) + ((seq![WireField { tag: 120, value: WireValue::Varint(varint_of_i32(m.subscriber_max_count)) }]) + ((match m.named_consumer_strategy {
            Some(x) => seq![WireField { tag: 130, value: WireValue::Bytes(encode_utf8(x)) }],
            None => Seq::<WireField>::empty(),
        }))),
        a12,
        ap,
    );
    assert(apply_fields((seq![WireField { tag: 104, value: WireValue::Varint(varint_of_i32(m.checkpoint_max_count)) }]), a12, ap) == Some(a13)) by {
        reveal_with_fuel(apply_fields, 2);
        lemma_scalar_roundtrips(m.checkpoint_max_count, 0, false);
    }
    let a14 = UpdatePersistentSubscriptionModel { checkpoint_min_count: m.checkpoint_min_count, ..a13 };
    lemma_apply_fields_append(
        (seq![WireField { tag: 112, value: WireValue::Varint(varint_of_i32(m.checkpoint_min_count)) }]),
        (seq![WireField { tag: 120, value: WireValue::Varint(varint_of_i32(m.subscriber_max_count)) }]) + ((match m.named_consumer_strategy {
            Some(x) => seq![WireField { tag: 130, value: WireValue::Bytes(encode_utf8(x)) }],
            None => Seq::<WireField>::empty(),
        })),
        a13,
        ap,
    );
    assert(apply_fields((seq![WireField { tag: 112, value: WireValue::Varint(varint_of_i32(m.checkpoint_min_count)) }]), a13, ap) == Some(a14)) by {
        reveal_with_fuel(apply_fields, 2);
        lemma_scalar_roundtrips(m.checkpoint_min_count, 0, false);
    }
    let a15 = UpdatePersistentSubscriptionModel { subscriber_max_count: m.subscriber_max_count, ..a14 };
    lemma_apply_fields_append(
        (seq![WireField { tag: 120, value: WireValue::Varint(varint_of_i32(m.subscriber_max_count)) }]),
        (match m.named_consumer_strategy {
            Some(x) => seq![WireField { tag: 130, value: WireValue::Bytes(encode_utf8(x)) }],
            None => Seq::<WireField>::empty(),
        }),
        a14,
        ap,
    );
    assert(apply_fields((seq![WireField { tag: 120, value: WireValue::Varint(varint_of_i32(m.subscriber_max_count)) }]), a14, ap) == Some(a15)) by {
        reveal_with_fuel(apply_fields, 2);
        lemma_scalar_roundtrips(m.subscriber_max_count, 0, false);
    }
    let a16 = UpdatePersistentSubscriptionModel { named_consumer_strategy: m.named_consumer_strategy, ..a15 };
    assert(apply_fields((match m.named_consumer_strategy {
        Some(x) => seq![WireField { tag: 130, value: WireValue::Bytes(encode_utf8(x)) }],
        None => Seq::<WireField>::empty(),
    }), a15, ap) == Some(a16)) by {
        reveal_with_fuel(apply_fields, 2);
        if let Some(x) = m.named_consumer_strategy {
            lemma_string_roundtrip(x);
        }
    }
    assert(a16 == m);
}

impl UpdatePersistentSubscription {
    /// Decodes a `UpdatePersistentSubscription` from its protobuf bytes.
    pub fn from_reader(bytes: &[u8]) -> (res: Option<UpdatePersistentSubscription>)
        ensures
            update_persistent_subscription_decode(bytes@) matches Some(m) ==> (res matches Some(e) && e@ == m),
            update_persistent_subscription_decode(bytes@) is None ==> res is None,
    {
        let mut msg = UpdatePersistentSubscription::default_value();
        let mut pos: usize = 0;
        assert(bytes@.skip(0) =~= bytes@);
        while pos < bytes.len()
            invariant
                pos <= bytes@.len(),
                update_persistent_subscription_decode(bytes@) == decode_fields(bytes@.skip(pos as int), msg@, update_persistent_subscription_applier(), update_persistent_subscription_known()),
            decreases bytes@.len() - pos,
        {
            let ghost old_msg = msg@;
            let (tag, p) = match read_tag(bytes, pos) {
                Some(x) => x,
                None => {
                    return None;
                },
            };
            proof {
                lemma_field_parts(bytes@, pos as int, update_persistent_subscription_known());
            }
            let known: bool = tag == 10 || tag == 18 || tag == 24 || tag == 32 || tag == 40 || tag == 48 || tag == 56 || tag == 64 || tag == 72 || tag == 80 || tag == 88 || tag == 96 || tag == 104 || tag == 112 || tag == 120 || tag == 130;
            let (value, next) = match read_value(bytes, p, tag, known) {
                Some(x) => x,
                None => {
                    return None;
                },
            };
            let ghost f = parse_field(bytes@.skip(pos as int), update_persistent_subscription_known()).unwrap().0;
            proof {
                lemma_decode_step(bytes@, pos as int, old_msg, update_persistent_subscription_applier(), update_persistent_subscription_known());
                lemma_parse_field_len(bytes@.skip(pos as int), update_persistent_subscription_known());
            }
            if tag == 10 {
                match value {
                    FieldValue::Bytes(i, j) => match copy_string(bytes, i, j) {
                        Some(s) => {
                            msg.subscription_group_name = s;
                        },
                        None => {
                            return None;
                        },
                    },
                    _ => {
                        return None;
                    },
                }
            } else if tag == 18 {
                match value {
                    FieldValue::Bytes(i, j) => match copy_string(bytes, i, j) {
                        Some(s) => {
                            msg.event_stream_id = s;
                        },
                        None => {
                            return None;
                        },
                    },
                    _ => {
                        return None;
                    },
                }
            } else if tag == 24 {
                match value {
                    FieldValue::Varint(v) => {
                        msg.resolve_link_tos = varint_bool(v);
                    },
                    _ => {
                        return None;
                    },
                }
            } else if tag == 32 {
                match value {
                    FieldValue::Varint(v) => {
                        msg.start_from = varint_i32(v);
                    },
                    _ => {
                        return None;
                    },
                }
            } else if tag == 40 {
                match value {
                    FieldValue::Varint(v) => {
                        msg.message_timeout_milliseconds = varint_i32(v);
                    },
                    _ => {
                        return None;
                    },
                }
            } else if tag == 48 {
                match value {
                    FieldValue::Varint(v) => {
                        msg.record_statistics = varint_bool(v);
                    },
                    _ => {
                        return None;
                    },
                }
            } else if tag == 56 {
                match value {
                    FieldValue::Varint(v) => {
                        msg.live_buffer_size = varint_i32(v);
                    },
                    _ => {
                        return None;
                    },
                }
            } else if tag == 64 {
                match value {
                    FieldValue::Varint(v) => {
                        msg.read_batch_size = varint_i32(v);
                    },
                    _ => {
                        return None;
                    },
                }
            } else if tag == 72 {
                match value {
                    FieldValue::Varint(v) => {
                        msg.buffer_size = varint_i32(v);
                    },
                    _ => {
                        return None;
                    },
                }
            } else if tag == 80 {
                match value {
                    FieldValue::Varint(v) => {
                        msg.max_retry_count = varint_i32(v);
                    },
                    _ => {
                        return None;
                    },
                }
            } else if tag == 88 {
                match value {
                    FieldValue::Varint(v) => {
                        msg.prefer_round_robin = varint_bool(v);
                    },
                    _ => {
                        return None;
                    },
                }
            } else if tag == 96 {
                match value {
                    FieldValue::Varint(v) => {
                        msg.checkpoint_after_time = varint_i32(v);
                    },
                    _ => {
                        return None;
                    },
                }
            } else if tag == 104 {
                match value {
                    FieldValue::Varint(v) => {
                        msg.checkpoint_max_count = varint_i32(v);
                    },
                    _ => {
                        return None;
                    },
                }
            } else if tag == 112 {
                match value {
                    FieldValue::Varint(v) => {
                        msg.checkpoint_min_count = varint_i32(v);
                    },
                    _ => {
                        return None;
                    },
                }
            } else if tag == 120 {
                match value {
                    FieldValue::Varint(v) => {
                        msg.subscriber_max_count = varint_i32(v);
                    },
                    _ => {
                        return None;
                    },
                }
            } else if tag == 130 {
                match value {
                    FieldValue::Bytes(i, j) => match copy_string(bytes, i, j) {
                        Some(s) => {
                            msg.named_consumer_strategy = Some(s);
                        },
                        None => {
                            return None;
                        },
                    },
                    _ => {
                        return None;
                    },
                }
            }
            assert(update_persistent_subscription_apply(old_msg, f) == Some(msg@));
            pos = next;
        }
        assert(bytes@.skip(pos as int).len() == 0);
        Some(msg)
    }

    /// A `UpdatePersistentSubscription` with every field at its default.
    pub fn default_value() -> (m: UpdatePersistentSubscription)
        ensures
            m@ == update_persistent_subscription_default(),
    {
        let m = UpdatePersistentSubscription {
            subscription_group_name: String::new(),
            event_stream_id: String::new(),
            resolve_link_tos: false,
            start_from: 0,
            message_timeout_milliseconds: 0,
            record_statistics: false,
            live_buffer_size: 0,
            read_batch_size: 0,
            buffer_size: 0,
            max_retry_count: 0,
            prefer_round_robin: false,
            checkpoint_after_time: 0,
            checkpoint_max_count: 0,
            checkpoint_min_count: 0,
            subscriber_max_count: 0,
            named_consumer_strategy: None,
        };
        m
    }

    /// A copy of this `UpdatePersistentSubscription`.
    pub fn copy(&self) -> (c: UpdatePersistentSubscription)
        ensures
            c@ == self@,
    {
        let c = UpdatePersistentSubscription {
            subscription_group_name: self.subscription_group_name.clone(),
            event_stream_id: self.event_stream_id.clone(),
            resolve_link_tos: self.resolve_link_tos,
            start_from: self.start_from,
            message_timeout_milliseconds: self.message_timeout_milliseconds,
            record_statistics: self.record_statistics,
            live_buffer_size: self.live_buffer_size,
            read_batch_size: self.read_batch_size,
            buffer_size: self.buffer_size,
            max_retry_count: self.max_retry_count,
            prefer_round_robin: self.prefer_round_robin,
            checkpoint_after_time: self.checkpoint_after_time,
            checkpoint_max_count: self.checkpoint_max_count,
            checkpoint_min_count: self.checkpoint_min_count,
            subscriber_max_count: self.subscriber_max_count,
            named_consumer_strategy: match &self.named_consumer_strategy {
                Some(x) => Some(x.clone()),
                None => None,
            },
        };
        assert(c@.subscription_group_name =~= self@.subscription_group_name);
        assert(c@.event_stream_id =~= self@.event_stream_id);
        assert(c@.named_consumer_strategy =~= self@.named_consumer_strategy);
        c
    }

    /// Encodes this `UpdatePersistentSubscription` as protobuf bytes.
    #[verifier::spinoff_prover]
    #[verifier::rlimit(30)]
    pub fn encode(&self) -> (out: Vec<u8>)
        ensures
            out@ == update_persistent_subscription_encode(self@),
            out@.len() < modulus32() ==> update_persistent_subscription_wf(self@),
    {
        let mut out: Vec<u8> = Vec::new();
        let ghost mut fs: Seq<WireField> = Seq::empty();
        write_bytes_field(&mut out, 10, self.subscription_group_name.as_str().as_bytes());
        proof {
            let f = WireField { tag: 10, value: WireValue::Bytes(encode_utf8(self.subscription_group_name@)) };
            lemma_encode_fields_push(fs, f);
            lemma_fields_shaped_push(fs, f);
            fs = fs.push(f);
        }
        write_bytes_field(&mut out, 18, self.event_stream_id.as_str().as_bytes());
        proof {
            let f = WireField { tag: 18, value: WireValue::Bytes(encode_utf8(self.event_stream_id@)) };
            lemma_encode_fields_push(fs, f);
            lemma_fields_shaped_push(fs, f);
            fs = fs.push(f);
        }
        write_varint_field(&mut out, 24, bool_varint(self.resolve_link_tos));
        proof {
            let f = WireField { tag: 24, value: WireValue::Varint(varint_of_bool(self.resolve_link_tos)) };
            lemma_encode_fields_push(fs, f);
            lemma_fields_shaped_push(fs, f);
            fs = fs.push(f);
        }
        write_varint_field(&mut out, 32, i32_varint(self.start_from));
        proof {
            let f = WireField { tag: 32, value: WireValue::Varint(varint_of_i32(self.start_from)) };
            lemma_encode_fields_push(fs, f);
            lemma_fields_shaped_push(fs, f);
            fs = fs.push(f);
        }
        write_varint_field(&mut out, 40, i32_varint(self.message_timeout_milliseconds));
        proof {
            let f = WireField { tag: 40, value: WireValue::Varint(varint_of_i32(self.message_timeout_milliseconds)) };
            lemma_encode_fields_push(fs, f);
            lemma_fields_shaped_push(fs, f);
            fs = fs.push(f);
        }
        write_varint_field(&mut out, 48, bool_varint(self.record_statistics));
        proof {
            let f = WireField { tag: 48, value: WireValue::Varint(varint_of_bool(self.record_statistics)) };
            lemma_encode_fields_push(fs, f);
            lemma_fields_shaped_push(fs, f);
            fs = fs.push(f);
        }
        write_varint_field(&mut out, 56, i32_varint(self.live_buffer_size));
        proof {
            let f = WireField { tag: 56, value: WireValue::Varint(varint_of_i32(self.live_buffer_size)) };
            lemma_encode_fields_push(fs, f);
            lemma_fields_shaped_push(fs, f);
            fs = fs.push(f);
        }
        write_varint_field(&mut out, 64, i32_varint(self.read_batch_size));
        proof {
            let f = WireField { tag: 64, value: WireValue::Varint(varint_of_i32(self.read_batch_size)) };
            lemma_encode_fields_push(fs, f);
            lemma_fields_shaped_push(fs, f);
            fs = fs.push(f);
        }
        write_varint_field(&mut out, 72, i32_varint(self.buffer_size));
        proof {
            let f = WireField { tag: 72, value: WireValue::Varint(varint_of_i32(self.buffer_size)) };
            lemma_encode_fields_push(fs, f);
            lemma_fields_shaped_push(fs, f);
            fs = fs.push(f);
        }
        write_varint_field(&mut out, 80, i32_varint(self.max_retry_count));
        proof {
            let f = WireField { tag: 80, value: WireValue::Varint(varint_of_i32(self.max_retry_count)) };
            lemma_encode_fields_push(fs, f);
            lemma_fields_shaped_push(fs, f);
            fs = fs.push(f);
        }
        write_varint_field(&mut out, 88, bool_varint(self.prefer_round_robin));
        proof {
            let f = WireField { tag: 88, value: WireValue::Varint(varint_of_bool(self.prefer_round_robin)) };
            lemma_encode_fields_push(fs, f);
            lemma_fields_shaped_push(fs, f);
            fs = fs.push(f);
        }
        write_varint_field(&mut out, 96, i32_varint(self.checkpoint_after_time));
        proof {
            let f = WireField { tag: 96, value: WireValue::Varint(varint_of_i32(self.checkpoint_after_time)) };
            lemma_encode_fields_push(fs, f);
            lemma_fields_shaped_push(fs, f);
            fs = fs.push(f);
        }
        write_varint_field(&mut out, 104, i32_varint(self.checkpoint_max_count));
        proof {
            let f = WireField { tag: 104, value: WireValue::Varint(varint_of_i32(self.checkpoint_max_count)) };
            lemma_encode_fields_push(fs, f);
            lemma_fields_shaped_push(fs, f);
            fs = fs.push(f);
        }
        write_varint_field(&mut out, 112, i32_varint(self.checkpoint_min_count));
        proof {
            let f = WireField { tag: 112, value: WireValue::Varint(varint_of_i32(self.checkpoint_min_count)) };
            lemma_encode_fields_push(fs, f);
            lemma_fields_shaped_push(fs, f);
            fs = fs.push(f);
        }
        write_varint_field(&mut out, 120, i32_varint(self.subscriber_max_count));
        proof {
            let f = WireField { tag: 120, value: WireValue::Varint(varint_of_i32(self.subscriber_max_count)) };
            lemma_encode_fields_push(fs, f);
            lemma_fields_shaped_push(fs, f);
            fs = fs.push(f);
        }
        match &self.named_consumer_strategy {
            Some(x) => {
                write_bytes_field(&mut out, 130, x.as_str().as_bytes());
                proof {
                    let f = WireField { tag: 130, value: WireValue::Bytes(encode_utf8(x@)) };
                    lemma_encode_fields_push(fs, f);
                    lemma_fields_shaped_push(fs, f);
                    fs = fs.push(f);
                }
            },
            None => {},
        }
        assert(fs =~= update_persistent_subscription_fields(self@));
        proof {
            if out@.len() < modulus32() {
                lemma_fields_canonical_of_len(fs);
            }
        }
        out
    }

    /// The number of bytes of the encoding of this `UpdatePersistentSubscription`, computed without encoding it.
    #[verifier::spinoff_prover]
    #[verifier::rlimit(30)]
    pub fn get_size(&self) -> (n: usize)
        requires
            update_persistent_subscription_encode(self@).len() <= usize::MAX,
        ensures
            n == update_persistent_subscription_encode(self@).len(),
    {
        let ghost m = self@;
        proof {
            lemma_encode_fields_append(
                (seq![WireField { tag: 10, value: WireValue::Bytes(encode_utf8(m.subscription_group_name)) }]),
                (seq![WireField { tag: 18, value: WireValue::Bytes(encode_utf8(m.event_stream_id)) }]) + ((seq![WireField { tag: 24, value: WireValue::Varint(varint_of_bool(m.resolve_link_tos)) }]) + ((seq![WireField { tag: 32, value: WireValue::Varint(varint_of_i32(m.start_from)) }]) + ((seq![WireField { tag: 40, value: WireValue::Varint(varint_of_i32(m.message_timeout_milliseconds)) }]) + ((seq![WireField { tag: 48, value: WireValue::Varint(varint_of_bool(m.record_statistics)) }]) + ((seq![WireField { tag: 56, value: WireValue::Varint(varint_of_i32(m.live_buffer_size)) }]) + ((seq![WireField { tag: 64, value: WireValue::Varint(varint_of_i32(m.read_batch_size)) }]) + ((seq![WireField { tag: 72, value: WireValue::Varint(varint_of_i32(m.buffer_size)) }]) + ((seq![WireField { tag: 80, value: WireValue::Varint(varint_of_i32(m.max_retry_count)) }]) + ((seq![WireField { tag: 88, value: WireValue::Varint(varint_of_bool(m.prefer_round_robin)) }]) + ((seq![WireField { tag: 96, value: WireValue::Varint(varint_of_i32(m.checkpoint_after_time)) }]) + ((seq![WireField { tag: 104, value: WireValue::Varint(varint_of_i32(m.checkpoint_max_count)) }]) + ((seq![WireField { tag: 112, value: WireValue::Varint(varint_of_i32(m.checkpoint_min_count)) }]) + ((seq![WireField { tag: 120, value: WireValue::Varint(varint_of_i32(m.subscriber_max_count)) }]) + ((match m.named_consumer_strategy {
                    Some(x) => seq![WireField { tag: 130, value: WireValue::Bytes(encode_utf8(x)) }],
                    None => Seq::<WireField>::empty(),
                }))))))))))))))),
            );
            lemma_encode_fields_append(
                (seq![WireField { tag: 18, value: WireValue::Bytes(encode_utf8(m.event_stream_id)) }]),
                (seq![WireField { tag: 24, value: WireValue::Varint(varint_of_bool(m.resolve_link_tos)) }]) + ((seq![WireField { tag: 32, value: WireValue::Varint(varint_of_i32(m.start_from)) }]) + ((seq![WireField { tag: 40, value: WireValue::Varint(varint_of_i32(m.message_timeout_milliseconds)) }]) + ((seq![WireField { tag: 48, value: WireValue::Varint(varint_of_bool(m.record_statistics)) }]) + ((seq![WireField { tag: 56, value: WireValue::Varint(varint_of_i32(m.live_buffer_size)) }]) + ((seq![WireField { tag: 64, value: WireValue::Varint(varint_of_i32(m.read_batch_size)) }]) + ((seq![WireField { tag: 72, value: WireValue::Varint(varint_of_i32(m.buffer_size)) }]) + ((seq![WireField { tag: 80, value: WireValue::Varint(varint_of_i32(m.max_retry_count)) }]) + ((seq![WireField { tag: 88, value: WireValue::Varint(varint_of_bool(m.prefer_round_robin)) }]) + ((seq![WireField { tag: 96, value: WireValue::Varint(varint_of_i32(m.checkpoint_after_time)) }]) + ((seq![WireField { tag: 104, value: WireValue::Varint(varint_of_i32(m.checkpoint_max_count)) }]) + ((seq![WireField { tag: 112, value: WireValue::Varint(varint_of_i32(m.checkpoint_min_count)) }]) + ((seq![WireField { tag: 120, value: WireValue::Varint(varint_of_i32(m.subscriber_max_count)) }]) + ((match m.named_consumer_strategy {
                    Some(x) => seq![WireField { tag: 130, value: WireValue::Bytes(encode_utf8(x)) }],
                    None => Seq::<WireField>::empty(),
                })))))))))))))),
            );
            lemma_encode_fields_append(
                (seq![WireField { tag: 24, value: WireValue::Varint(varint_of_bool(m.resolve_link_tos)) }]),
                (seq![WireField { tag: 32, value: WireValue::Varint(varint_of_i32(m.start_from)) }]) + ((seq![WireField { tag: 40, value: WireValue::Varint(varint_of_i32(m.message_timeout_milliseconds)) }]) + ((seq![WireField { tag: 48, value: WireValue::Varint(varint_of_bool(m.record_statistics)) }]) + ((seq![WireField { tag: 56, value: WireValue::Varint(varint_of_i32(m.live_buffer_size)) }]) + ((seq![WireField { tag: 64, value: WireValue::Varint(varint_of_i32(m.read_batch_size)) }]) + ((seq![WireField { tag: 72, value: WireValue::Varint(varint_of_i32(m.buffer_size)) }]) + ((seq![WireField { tag: 80, value: WireValue::Varint(varint_of_i32(m.max_retry_count)) }]) + ((seq![WireField { tag: 88, value: WireValue::Varint(varint_of_bool(m.prefer_round_robin)) }]) + ((seq![WireField { tag: 96, value: WireValue::Varint(varint_of_i32(m.checkpoint_after_time)) }]) + ((seq![WireField { tag: 104, value: WireValue::Varint(varint_of_i32(m.checkpoint_max_count)) }]) + ((seq![WireField { tag: 112, value: WireValue::Varint(varint_of_i32(m.checkpoint_min_count)) }]) + ((seq![WireField { tag: 120, value: WireValue::Varint(varint_of_i32(m.subscriber_max_count)) }]) + ((match m.named_consumer_strategy {
                    Some(x) => seq![WireField { tag: 130, value: WireValue::Bytes(encode_utf8(x)) }],
                    None => Seq::<WireField>::empty(),
                }))))))))))))),
            );
            lemma_encode_fields_append(
                (seq![WireField { tag: 32, value: WireValue::Varint(varint_of_i32(m.start_from)) }]),
                (seq![WireField { tag: 40, value: WireValue::Varint(varint_of_i32(m.message_timeout_milliseconds)) }]) + ((seq![WireField { tag: 48, value: WireValue::Varint(varint_of_bool(m.record_statistics)) }]) + ((seq![WireField { tag: 56, value: WireValue::Varint(varint_of_i32(m.live_buffer_size)) }]) + ((seq![WireField { tag: 64, value: WireValue::Varint(varint_of_i32(m.read_batch_size)) }]) + ((seq![WireField { tag: 72, value: WireValue::Varint(varint_of_i32(m.buffer_size)) }]) + ((seq![WireField { tag: 80, value: WireValue::Varint(varint_of_i32(m.max_retry_count)) }]) + ((seq![WireField { tag: 88, value: WireValue::Varint(varint_of_bool(m.prefer_round_robin)) }]) + ((seq![WireField { tag: 96, value: WireValue::Varint(varint_of_i32(m.checkpoint_after_time)) }]) + ((seq![WireField { tag: 104, value: WireValue::Varint(varint_of_i32(m.checkpoint_max_count)) }]) + ((seq![WireField { tag: 112, value: WireValue::Varint(varint_of_i32(m.checkpoint_min_count)) }]) + ((seq![WireField { tag: 120, value: WireValue::Varint(varint_of_i32(m.subscriber_max_count)) }]) + ((match m.named_consumer_strategy {
                    Some(x) => seq![WireField { tag: 130, value: WireValue::Bytes(encode_utf8(x)) }],
                    None => Seq::<WireField>::empty(),
                })))))))))))),
            );
            lemma_encode_fields_append(
                (seq![WireField { tag: 40, value: WireValue::Varint(varint_of_i32(m.message_timeout_milliseconds)) }]),
                (seq![WireField { tag: 48, value: WireValue::Varint(varint_of_bool(m.record_statistics)) }]) + ((seq![WireField { tag: 56, value: WireValue::Varint(varint_of_i32(m.live_buffer_size)) }]) + ((seq![WireField { tag: 64, value: WireValue::Varint(varint_of_i32(m.read_batch_size)) }]) + ((seq![WireField { tag: 72, value: WireValue::Varint(varint_of_i32(m.buffer_size)) }]) + ((seq![WireField { tag: 80, value: WireValue::Varint(varint_of_i32(m.max_retry_count)) }]) + ((seq![WireField { tag: 88, value: WireValue::Varint(varint_of_bool(m.prefer_round_robin)) }]) + ((seq![WireField { tag: 96, value: WireValue::Varint(varint_of_i32(m.checkpoint_after_time)) }]) + ((seq![WireField { tag: 104, value: WireValue::Varint(varint_of_i32(m.checkpoint_max_count)) }]) + ((seq![WireField { tag: 112, value: WireValue::Varint(varint_of_i32(m.checkpoint_min_count)) }]) + ((seq![WireField { tag: 120, value: WireValue::Varint(varint_of_i32(m.subscriber_max_count)) }]) + ((match m.named_consumer_strategy {
                    Some(x) => seq![WireField { tag: 130, value: WireValue::Bytes(encode_utf8(x)) }],
                    None => Seq::<WireField>::empty(),
                }))))))))))),
            );
            lemma_encode_fields_append(
                (seq![WireField { tag: 48, value: WireValue::Varint(varint_of_bool(m.record_statistics)) }]),
                (seq![WireField { tag: 56, value: WireValue::Varint(varint_of_i32(m.live_buffer_size)) }]) + ((seq![WireField { tag: 64, value: WireValue::Varint(varint_of_i32(m.read_batch_size)) }]) + ((seq![WireField { tag: 72, value: WireValue::Varint(varint_of_i32(m.buffer_size)) }]) + ((seq![WireField { tag: 80, value: WireValue::Varint(varint_of_i32(m.max_retry_count)) }]) + ((seq![WireField { tag: 88, value: WireValue::Varint(varint_of_bool(m.prefer_round_robin)) }]) + ((seq![WireField { tag: 96, value: WireValue::Varint(varint_of_i32(m.checkpoint_after_time)) }]) + ((seq![WireField { tag: 104, value: WireValue::Varint(varint_of_i32(m.checkpoint_max_count)) }]) + ((seq![WireField { tag: 112, value: WireValue::Varint(varint_of_i32(m.checkpoint_min_count)) }]) + ((seq![WireField { tag: 120, value: WireValue::Varint(varint_of_i32(m.subscriber_max_count)) }]) + ((match m.named_consumer_strategy {
                    Some(x) => seq![WireField { tag: 130, value: WireValue::Bytes(encode_utf8(x)) }],
                    None => Seq::<WireField>::empty(),
                })))))))))),
            );
            lemma_encode_fields_append(
                (seq![WireField { tag: 56, value: WireValue::Varint(varint_of_i32(m.live_buffer_size)) }]),
                (seq![WireField { tag: 64, value: WireValue::Varint(varint_of_i32(m.read_batch_size)) }]) + ((seq![WireField { tag: 72, value: WireValue::Varint(varint_of_i32(m.buffer_size)) }]) + ((seq![WireField { tag: 80, value: WireValue::Varint(varint_of_i32(m.max_retry_count)) }]) + ((seq![WireField { tag: 88, value: WireValue::Varint(varint_of_bool(m.prefer_round_robin)) }]) + ((seq![WireField { tag: 96, value: WireValue::Varint(varint_of_i32(m.checkpoint_after_time)) }]) + ((seq![WireField { tag: 104, value: WireValue::Varint(varint_of_i32(m.checkpoint_max_count)) }]) + ((seq![WireField { tag: 112, value: WireValue::Varint(varint_of_i32(m.checkpoint_min_count)) }]) + ((seq![WireField { tag: 120, value: WireValue::Varint(varint_of_i32(m.subscriber_max_count)) }]) + ((match m.named_consumer_strategy {
                    Some(x) => seq![WireField { tag: 130, value: WireValue::Bytes(encode_utf8(x)) }],
                    None => Seq::<WireField>::empty(),
                }))))))))),
            );
            lemma_encode_fields_append(
                (seq![WireField { tag: 64, value: WireValue::Varint(varint_of_i32(m.read_batch_size)) }]),
                (seq![WireField { tag: 72, value: WireValue::Varint(varint_of_i32(m.buffer_size)) }]) + ((seq![WireField { tag: 80, value: WireValue::Varint(varint_of_i32(m.max_retry_count)) }]) + ((seq![WireField { tag: 88, value: WireValue::Varint(varint_of_bool(m.prefer_round_robin)) }]) + ((seq![WireField { tag: 96, value: WireValue::Varint(varint_of_i32(m.checkpoint_after_time)) }]) + ((seq![WireField { tag: 104, value: WireValue::Varint(varint_of_i32(m.checkpoint_max_count)) }]) + ((seq![WireField { tag: 112, value: WireValue::Varint(varint_of_i32(m.checkpoint_min_count)) }]) + ((seq![WireField { tag: 120, value: WireValue::Varint(varint_of_i32(m.subscriber_max_count)) }]) + ((match m.named_consumer_strategy {
                    Some(x) => seq![WireField { tag: 130, value: WireValue::Bytes(encode_utf8(x)) }],
                    None => Seq::<WireField>::empty(),
                })))))))),
            );
            lemma_encode_fields_append(
                (seq![WireField { tag: 72, value: WireValue::Varint(varint_of_i32(m.buffer_size)) }]),
                (seq![WireField { tag: 80, value: WireValue::Varint(varint_of_i32(m.max_retry_count)) }]) + ((seq![WireField { tag: 88, value: WireValue::Varint(varint_of_bool(m.prefer_round_robin)) }]) + ((seq![WireField { tag: 96, value: WireValue::Varint(varint_of_i32(m.checkpoint_after_time)) }]) + ((seq![WireField { tag: 104, value: WireValue::Varint(varint_of_i32(m.checkpoint_max_count)) }]) + ((seq![WireField { tag: 112, value: WireValue::Varint(varint_of_i32(m.checkpoint_min_count)) }]) + ((seq![WireField { tag: 120, value: WireValue::Varint(varint_of_i32(m.subscriber_max_count)) }]) + ((match m.named_consumer_strategy {
                    Some(x) => seq![WireField { tag: 130, value: WireValue::Bytes(encode_utf8(x)) }],
                    None => Seq::<WireField>::empty(),
                }))))))),
            );
            lemma_encode_fields_append(
                (seq![WireField { tag: 80, value: WireValue::Varint(varint_of_i32(m.max_retry_count)) }]),
                (seq![WireField { tag: 88, value: WireValue::Varint(varint_of_bool(m.prefer_round_robin)) }]) + ((seq![WireField { tag: 96, value: WireValue::Varint(varint_of_i32(m.checkpoint_after_time)) }]) + ((seq![WireField { tag: 104, value: WireValue::Varint(varint_of_i32(m.checkpoint_max_count)) }]) + ((seq![WireField { tag: 112, value: WireValue::Varint(varint_of_i32(m.checkpoint_min_count)) }]) + ((seq![WireField { tag: 120, value: WireValue::Varint(varint_of_i32(m.subscriber_max_count)) }]) + ((match m.named_consumer_strategy {
                    Some(x) => seq![WireField { tag: 130, value: WireValue::Bytes(encode_utf8(x)) }],
                    None => Seq::<WireField>::empty(),
                })))))),
            );
            lemma_encode_fields_append(
                (seq![WireField { tag: 88, value: WireValue::Varint(varint_of_bool(m.prefer_round_robin)) }]),
                (seq![WireField { tag: 96, value: WireValue::Varint(varint_of_i32(m.checkpoint_after_time)) }]) + ((seq![WireField { tag: 104, value: WireValue::Varint(varint_of_i32(m.checkpoint_max_count)) }]) + ((seq![WireField { tag: 112, value: WireValue::Varint(varint_of_i32(m.checkpoint_min_count)) }]) + ((seq![WireField { tag: 120, value: WireValue::Varint(varint_of_i32(m.subscriber_max_count)) }]) + ((match m.named_consumer_strategy {
                    Some(x) => seq![WireField { tag: 130, value: WireValue::Bytes(encode_utf8(x)) }],
                    None => Seq::<WireField>::empty(),
                }))))),
            );
            lemma_encode_fields_append(
                (seq![WireField { tag: 96, value: WireValue::Varint(varint_of_i32(m.checkpoint_after_time)) }]),
                (seq![WireField { tag: 104, value: WireValue::Varint(varint_of_i32(m.checkpoint_max_count)) }]) + ((seq![WireField { tag: 112, value: WireValue::Varint(varint_of_i32(m.checkpoint_min_count)) }]) + ((seq![WireField { tag: 120, value: WireValue::Varint(varint_of_i32(m.subscriber_max_count)) }]) + ((match m.named_consumer_strategy {
                    Some(x) => seq![WireField { tag: 130, value: WireValue::Bytes(encode_utf8(x)) }],
                    None => Seq::<WireField>::empty(),
                })))),
            );
            lemma_encode_fields_append(
                (seq![WireField { tag: 104, value: WireValue::Varint(varint_of_i32(m.checkpoint_max_count)) }]),
                (seq![WireField { tag: 112, value: WireValue::Varint(varint_of_i32(m.checkpoint_min_count)) }]) + ((seq![WireField { tag: 120, value: WireValue::Varint(varint_of_i32(m.subscriber_max_count)) }]) + ((match m.named_consumer_strategy {
                    Some(x) => seq![WireField { tag: 130, value: WireValue::Bytes(encode_utf8(x)) }],
                    None => Seq::<WireField>::empty(),
                }))),
            );
            lemma_encode_fields_append(
                (seq![WireField { tag: 112, value: WireValue::Varint(varint_of_i32(m.checkpoint_min_count)) }]),
                (seq![WireField { tag: 120, value: WireValue::Varint(varint_of_i32(m.subscriber_max_count)) }]) + ((match m.named_consumer_strategy {
                    Some(x) => seq![WireField { tag: 130, value: WireValue::Bytes(encode_utf8(x)) }],
                    None => Seq::<WireField>::empty(),
                })),
            );
            lemma_encode_fields_append(
                (seq![WireField { tag: 120, value: WireValue::Varint(varint_of_i32(m.subscriber_max_count)) }]),
                (match m.named_consumer_strategy {
                    Some(x) => seq![WireField { tag: 130, value: WireValue::Bytes(encode_utf8(x)) }],
                    None => Seq::<WireField>::empty(),
                }),
            );
        }
        let mut n: usize = 0;
        let s15: usize = match &self.named_consumer_strategy {
            Some(x) => {
                proof {
                    lemma_encode_fields_one(WireField { tag: 130, value: WireValue::Bytes(encode_utf8(x@)) });
                }
                sizeof_len_field(130, x.as_str().as_bytes().len())
            },
            None => 0,
        };
        n = s15 + n;
        let s14: usize = {
            proof {
                lemma_encode_fields_one(WireField { tag: 120, value: WireValue::Varint(varint_of_i32(m.subscriber_max_count)) });
            }
            sizeof_varint_field(120, i32_varint(self.subscriber_max_count))
        };
        n = s14 + n;
        let s13: usize = {
            proof {
                lemma_encode_fields_one(WireField { tag: 112, value: WireValue::Varint(varint_of_i32(m.checkpoint_min_count)) });
            }
            sizeof_varint_field(112, i32_varint(self.checkpoint_min_count))
        };
        n = s13 + n;
        let s12: usize = {
            proof {
                lemma_encode_fields_one(WireField { tag: 104, value: WireValue::Varint(varint_of_i32(m.checkpoint_max_count)) });
            }
            sizeof_varint_field(104, i32_varint(self.checkpoint_max_count))
        };
        n = s12 + n;
        let s11: usize = {
            proof {
                lemma_encode_fields_one(WireField { tag: 96, value: WireValue::Varint(varint_of_i32(m.checkpoint_after_time)) });
            }
            sizeof_varint_field(96, i32_varint(self.checkpoint_after_time))
        };
        n = s11 + n;
        let s10: usize = {
            proof {
                lemma_encode_fields_one(WireField { tag: 88, value: WireValue::Varint(varint_of_bool(m.prefer_round_robin)) });
            }
            sizeof_varint_field(88, bool_varint(self.prefer_round_robin))
        };
        n = s10 + n;
        let s9: usize = {
            proof {
                lemma_encode_fields_one(WireField { tag: 80, value: WireValue::Varint(varint_of_i32(m.max_retry_count)) });
            }
            sizeof_varint_field(80, i32_varint(self.max_retry_count))
        };
        n = s9 + n;
        let s8: usize = {
            proof {
                lemma_encode_fields_one(WireField { tag: 72, value: WireValue::Varint(varint_of_i32(m.buffer_size)) });
            }
            sizeof_varint_field(72, i32_varint(self.buffer_size))
        };
        n = s8 + n;
        let s7: usize = {
            proof {
                lemma_encode_fields_one(WireField { tag: 64, value: WireValue::Varint(varint_of_i32(m.read_batch_size)) });
            }
            sizeof_varint_field(64, i32_varint(self.read_batch_size))
        };
        n = s7 + n;
        let s6: usize = {
            proof {
                lemma_encode_fields_one(WireField { tag: 56, value: WireValue::Varint(varint_of_i32(m.live_buffer_size)) });
            }
            sizeof_varint_field(56, i32_varint(self.live_buffer_size))
        };
        n = s6 + n;
        let s5: usize = {
            proof {
                lemma_encode_fields_one(WireField { tag: 48, value: WireValue::Varint(varint_of_bool(m.record_statistics)) });
            }
            sizeof_varint_field(48, bool_varint(self.record_statistics))
        };
        n = s5 + n;
        let s4: usize = {
            proof {
                lemma_encode_fields_one(WireField { tag: 40, value: WireValue::Varint(varint_of_i32(m.message_timeout_milliseconds)) });
            }
            sizeof_varint_field(40, i32_varint(self.message_timeout_milliseconds))
        };
        n = s4 + n;
        let s3: usize = {
            proof {
                lemma_encode_fields_one(WireField { tag: 32, value: WireValue::Varint(varint_of_i32(m.start_from)) });
            }
            sizeof_varint_field(32, i32_varint(self.start_from))
        };
        n = s3 + n;
        let s2: usize = {
            proof {
                lemma_encode_fields_one(WireField { tag: 24, value: WireValue::Varint(varint_of_bool(m.resolve_link_tos)) });
            }
            sizeof_varint_field(24, bool_varint(self.resolve_link_tos))
        };
        n = s2 + n;
        let s1: usize = {
            proof {
                lemma_encode_fields_one(WireField { tag: 18, value: WireValue::Bytes(encode_utf8(m.event_stream_id)) });
            }
            sizeof_len_field(18, self.event_stream_id.as_str().as_bytes().len())
        };
        n = s1 + n;
        let s0: usize = {
            proof {
                lemma_encode_fields_one(WireField { tag: 10, value: WireValue::Bytes(encode_utf8(m.subscription_group_name)) });
            }
            sizeof_len_field(10, self.subscription_group_name.as_str().as_bytes().len())
        };
        n = s0 + n;
        n
    }
}

/// Response to `UpdatePersistentSubscription`.
#[derive(Debug, Clone, PartialEq)]
pub struct UpdatePersistentSubscriptionCompleted {
    /// The outcome
    pub result: UpdatePersistentSubscriptionResult,
    /// An explanation
    pub reason: Option<String>,
}

/// The contents of a `UpdatePersistentSubscriptionCompleted`.
pub struct UpdatePersistentSubscriptionCompletedModel {
    pub result: UpdatePersistentSubscriptionResult,
    pub reason: Option<Seq<char>>,
}

impl View for UpdatePersistentSubscriptionCompleted {
    type V = UpdatePersistentSubscriptionCompletedModel;

    open spec fn view(&self) -> UpdatePersistentSubscriptionCompletedModel {
        UpdatePersistentSubscriptionCompletedModel {
            result: self.result,
            reason: opt_string_view(self.reason),
        }
    }
}

/// A `UpdatePersistentSubscriptionCompleted` with every field at its default.
pub open spec fn update_persistent_subscription_completed_default() -> UpdatePersistentSubscriptionCompletedModel {
    UpdatePersistentSubscriptionCompletedModel {
        result: UpdatePersistentSubscriptionResult::Success,
        reason: None,
    }
}

/// Folds one field into a `UpdatePersistentSubscriptionCompleted`; fields of unknown tags are skipped.
pub open spec fn update_persistent_subscription_completed_apply(m: UpdatePersistentSubscriptionCompletedModel, f: WireField) -> Option<UpdatePersistentSubscriptionCompletedModel> {
    if f.tag == 8 {
        match f.value {
            WireValue::Varint(v) => Some(UpdatePersistentSubscriptionCompletedModel { result: UpdatePersistentSubscriptionResult::from_i32_spec(i32_of_varint(v)), ..m }),
            _ => None,
        }
    } else {
        if f.tag == 18 {
            match f.value {
                WireValue::Bytes(b) => match string_of(b) {
                    Some(s) => Some(UpdatePersistentSubscriptionCompletedModel { reason: Some(s), ..m }),
                    None => None,
                },
                _ => None,
            }
        } else {
            Some(m)
        }
    }
}

/// `update_persistent_subscription_completed_apply` as a value.
pub open spec fn update_persistent_subscription_completed_applier() -> spec_fn(UpdatePersistentSubscriptionCompletedModel, WireField) -> Option<UpdatePersistentSubscriptionCompletedModel> {
    |m: UpdatePersistentSubscriptionCompletedModel, f: WireField| update_persistent_subscription_completed_apply(m, f)
}

/// The tags of the fields that a `UpdatePersistentSubscriptionCompleted` reads; the others are skipped.
pub open spec fn update_persistent_subscription_completed_known() -> spec_fn(u32) -> bool {
    |t: u32| t == 8 || t == 18
}

/// The `UpdatePersistentSubscriptionCompleted` that `bytes` encode, if they encode one.
pub open spec fn update_persistent_subscription_completed_decode(bytes: Seq<u8>) -> Option<UpdatePersistentSubscriptionCompletedModel> {
    decode_fields(bytes, update_persistent_subscription_completed_default(), update_persistent_subscription_completed_applier(), update_persistent_subscription_completed_known())
}

/// The fields that encode a `UpdatePersistentSubscriptionCompleted`, in the order they are written.
pub open spec fn update_persistent_subscription_completed_fields(m: UpdatePersistentSubscriptionCompletedModel) -> Seq<WireField> {
    (if m.result != UpdatePersistentSubscriptionResult::Success {
        seq![WireField { tag: 8, value: WireValue::Varint(varint_of_i32(m.result.to_i32_spec())) }]
    } else {
        Seq::<WireField>::empty()
    }) + ((match m.reason {
        Some(x) => seq![WireField { tag: 18, value: WireValue::Bytes(encode_utf8(x)) }],
        None => Seq::<WireField>::empty(),
    }))
}

/// The encoding of a `UpdatePersistentSubscriptionCompleted`.
pub open spec fn update_persistent_subscription_completed_encode(m: UpdatePersistentSubscriptionCompletedModel) -> Seq<u8> {
    encode_fields(update_persistent_subscription_completed_fields(m))
}

/// A `UpdatePersistentSubscriptionCompleted` that reads back as written: every length-delimited field, those of the
/// embedded messages included, holds fewer than 2^32 bytes.
pub open spec fn update_persistent_subscription_completed_wf(m: UpdatePersistentSubscriptionCompletedModel) -> bool {
    fields_short(update_persistent_subscription_completed_fields(m))
}

/// The fields of a `UpdatePersistentSubscriptionCompleted` carry the wire types of their payloads.
pub proof fn lemma_update_persistent_subscription_completed_fields_tagged(m: UpdatePersistentSubscriptionCompletedModel)
    ensures
        fields_tagged(update_persistent_subscription_completed_fields(m)),
{
    assert(fields_tagged((match m.reason {
        Some(x) => seq![WireField { tag: 18, value: WireValue::Bytes(encode_utf8(x)) }],
        None => Seq::<WireField>::empty(),
    })));
    assert(fields_tagged((if m.result != UpdatePersistentSubscriptionResult::Success {
        seq![WireField { tag: 8, value: WireValue::Varint(varint_of_i32(m.result.to_i32_spec())) }]
    } else {
        Seq::<WireField>::empty()
    })));
    lemma_fields_tagged_append(
        (if m.result != UpdatePersistentSubscriptionResult::Success {
            seq![WireField { tag: 8, value: WireValue::Varint(varint_of_i32(m.result.to_i32_spec())) }]
        } else {
            Seq::<WireField>::empty()
        }),
        (match m.reason {
            Some(x) => seq![WireField { tag: 18, value: WireValue::Bytes(encode_utf8(x)) }],
            None => Seq::<WireField>::empty(),
        }),
    );
}

/// The bytes of an encoded `UpdatePersistentSubscriptionCompleted`: `result` under tag 8, `reason` under tag 18, in this order; optional fields only
/// when present, repeated ones once per element.
pub proof fn lemma_update_persistent_subscription_completed_encode_layout(m: UpdatePersistentSubscriptionCompletedModel)
    ensures
        update_persistent_subscription_completed_encode(m) == ((if m.result != UpdatePersistentSubscriptionResult::Success {
            varint_field_bytes(8, varint_of_i32(m.result.to_i32_spec()))
        } else {
            Seq::<u8>::empty()
        })) + (((match m.reason {
            Some(x) => bytes_field_bytes(18, encode_utf8(x)),
            None => Seq::<u8>::empty(),
        }))),
{
    lemma_encode_fields_append(
        (if m.result != UpdatePersistentSubscriptionResult::Success {
            seq![WireField { tag: 8, value: WireValue::Varint(varint_of_i32(m.result.to_i32_spec())) }]
        } else {
            Seq::<WireField>::empty()
        }),
        (match m.reason {
            Some(x) => seq![WireField { tag: 18, value: WireValue::Bytes(encode_utf8(x)) }],
            None => Seq::<WireField>::empty(),
        }),
    );
    if m.result != UpdatePersistentSubscriptionResult::Success {
        lemma_varint_field_layout(8, varint_of_i32(m.result.to_i32_spec()));
    }
    if let Some(x) = m.reason {
        lemma_bytes_field_layout(18, encode_utf8(x));
    }
}

/// Reading a written `UpdatePersistentSubscriptionCompleted` gives it back.
pub proof fn lemma_update_persistent_subscription_completed_roundtrip(m: UpdatePersistentSubscriptionCompletedModel)
    requires
        update_persistent_subscription_completed_wf(m),
    ensures
        update_persistent_subscription_completed_decode(update_persistent_subscription_completed_encode(m)) == Some(m),
{
    let ap = update_persistent_subscription_completed_applier();
    lemma_update_persistent_subscription_completed_fields_tagged(m);
    lemma_fields_canonical_of_short(update_persistent_subscription_completed_fields(m));
    lemma_decode_encoded_fields(update_persistent_subscription_completed_fields(m), update_persistent_subscription_completed_default(), ap, update_persistent_subscription_completed_known());
    let a0 = update_persistent_subscription_completed_default();
    let a1 = UpdatePersistentSubscriptionCompletedModel { result: m.result, ..a0 };
    lemma_apply_fields_append(
        (if m.result != UpdatePersistentSubscriptionResult::Success {
            seq![WireField { tag: 8, value: WireValue::Varint(varint_of_i32(m.result.to_i32_spec())) }]
        } else {
            Seq::<WireField>::empty()
        }),
        (match m.reason {
            Some(x) => seq![WireField { tag: 18, value: WireValue::Bytes(encode_utf8(x)) }],
            None => Seq::<WireField>::empty(),
        }),
        a0,
        ap,
    );
    assert(apply_fields((if m.result != UpdatePersistentSubscriptionResult::Success {
        seq![WireField { tag: 8, value: WireValue::Varint(varint_of_i32(m.result.to_i32_spec())) }]
    } else {
        Seq::<WireField>::empty()
    }), a0, ap) == Some(a1)) by {
        reveal_with_fuel(apply_fields, 2);
        lemma_scalar_roundtrips(m.result.to_i32_spec(), 0, false);
        m.result.lemma_i32_roundtrip();
    }
    let a2 = UpdatePersistentSubscriptionCompletedModel { reason: m.reason, ..a1 };
    assert(apply_fields((match m.reason {
        Some(x) => seq![WireField { tag: 18, value: WireValue::Bytes(encode_utf8(x)) }],
        None => Seq::<WireField>::empty(),
    }), a1, ap) == Some(a2)) by {
        reveal_with_fuel(apply_fields, 2);
        if let Some(x) = m.reason {
            lemma_string_roundtrip(x);
        }
    }
    assert(a2 == m);
}

impl UpdatePersistentSubscriptionCompleted {
    /// Decodes a `UpdatePersistentSubscriptionCompleted` from its protobuf bytes.
    pub fn from_reader(bytes: &[u8]) -> (res: Option<UpdatePersistentSubscriptionCompleted>)
        ensures
            update_persistent_subscription_completed_decode(bytes@) matches Some(m) ==> (res matches Some(e) && e@ == m),
            update_persistent_subscription_completed_decode(bytes@) is None ==> res is None,
    {
        let mut msg = UpdatePersistentSubscriptionCompleted::default_value();
        let mut pos: usize = 0;
        assert(bytes@.skip(0) =~= bytes@);
        while pos < bytes.len()
            invariant
                pos <= bytes@.len(),
                update_persistent_subscription_completed_decode(bytes@) == decode_fields(bytes@.skip(pos as int), msg@, update_persistent_subscription_completed_applier(), update_persistent_subscription_completed_known()),
            decreases bytes@.len() - pos,
        {
            let ghost old_msg = msg@;
            let (tag, p) = match read_tag(bytes, pos) {
                Some(x) => x,
                None => {
                    return None;
                },
            };
            proof {
                lemma_field_parts(bytes@, pos as int, update_persistent_subscription_completed_known());
            }
            let known: bool = tag == 8 || tag == 18;
            let (value, next) = match read_value(bytes, p, tag, known) {
                Some(x) => x,
                None => {
                    return None;
                },
            };
            let ghost f = parse_field(bytes@.skip(pos as int), update_persistent_subscription_completed_known()).unwrap().0;
            proof {
                lemma_decode_step(bytes@, pos as int, old_msg, update_persistent_subscription_completed_applier(), update_persistent_subscription_completed_known());
                lemma_parse_field_len(bytes@.skip(pos as int), update_persistent_subscription_completed_known());
            }
            if tag == 8 {
                match value {
                    FieldValue::Varint(v) => {
                        msg.result = UpdatePersistentSubscriptionResult::from_i32(varint_i32(v));
                    },
                    _ => {
                        return None;
                    },
                }
            } else if tag == 18 {
                match value {
                    FieldValue::Bytes(i, j) => match copy_string(bytes, i, j) {
                        Some(s) => {
                            msg.reason = Some(s);
                        },
                        None => {
                            return None;
                        },
                    },
                    _ => {
                        return None;
                    },
                }
            }
            assert(update_persistent_subscription_completed_apply(old_msg, f) == Some(msg@));
            pos = next;
        }
        assert(bytes@.skip(pos as int).len() == 0);
        Some(msg)
    }

    /// A `UpdatePersistentSubscriptionCompleted` with every field at its default.
    pub fn default_value() -> (m: UpdatePersistentSubscriptionCompleted)
        ensures
            m@ == update_persistent_subscription_completed_default(),
    {
        let m = UpdatePersistentSubscriptionCompleted {
            result: UpdatePersistentSubscriptionResult::Success,
            reason: None,
        };
        m
    }

    /// A copy of this `UpdatePersistentSubscriptionCompleted`.
    pub fn copy(&self) -> (c: UpdatePersistentSubscriptionCompleted)
        ensures
            c@ == self@,
    {
        let c = UpdatePersistentSubscriptionCompleted {
            result: self.result,
            reason: match &self.reason {
                Some(x) => Some(x.clone()),
                None => None,
            },
        };
        assert(c@.reason =~= self@.reason);
        c
    }

    /// Encodes this `UpdatePersistentSubscriptionCompleted` as protobuf bytes.
    #[verifier::spinoff_prover]
    #[verifier::rlimit(30)]
    pub fn encode(&self) -> (out: Vec<u8>)
        ensures
            out@ == update_persistent_subscription_completed_encode(self@),
            out@.len() < modulus32() ==> update_persistent_subscription_completed_wf(self@),
    {
        let mut out: Vec<u8> = Vec::new();
        let ghost mut fs: Seq<WireField> = Seq::empty();
        if self.result != UpdatePersistentSubscriptionResult::Success {
            write_varint_field(&mut out, 8, i32_varint(self.result.to_i32()));
            proof {
                let f = WireField { tag: 8, value: WireValue::Varint(varint_of_i32(self.result.to_i32_spec())) };
                lemma_encode_fields_push(fs, f);
                lemma_fields_shaped_push(fs, f);
                fs = fs.push(f);
            }
        }
        match &self.reason {
            Some(x) => {
                write_bytes_field(&mut out, 18, x.as_str().as_bytes());
                proof {
                    let f = WireField { tag: 18, value: WireValue::Bytes(encode_utf8(x@)) };
                    lemma_encode_fields_push(fs, f);
                    lemma_fields_shaped_push(fs, f);
                    fs = fs.push(f);
                }
            },
            None => {},
        }
        assert(fs =~= update_persistent_subscription_completed_fields(self@));
        proof {
            if out@.len() < modulus32() {
                lemma_fields_canonical_of_len(fs);
            }
        }
        out
    }

    /// The number of bytes of the encoding of this `UpdatePersistentSubscriptionCompleted`, computed without encoding it.
    #[verifier::spinoff_prover]
    #[verifier::rlimit(30)]
    pub fn get_size(&self) -> (n: usize)
        requires
            update_persistent_subscription_completed_encode(self@).len() <= usize::MAX,
        ensures
            n == update_persistent_subscription_completed_encode(self@).len(),
    {
        let ghost m = self@;
        proof {
            lemma_encode_fields_append(
                (if m.result != UpdatePersistentSubscriptionResult::Success {
                    seq![WireField { tag: 8, value: WireValue::Varint(varint_of_i32(m.result.to_i32_spec())) }]
                } else {
                    Seq::<WireField>::empty()
                }),
                (match m.reason {
                    Some(x) => seq![WireField { tag: 18, value: WireValue::Bytes(encode_utf8(x)) }],
                    None => Seq::<WireField>::empty(),
                }),
            );
        }
        let mut n: usize = 0;
        let s1: usize = match &self.reason {
            Some(x) => {
                proof {
                    lemma_encode_fields_one(WireField { tag: 18, value: WireValue::Bytes(encode_utf8(x@)) });
                }
                sizeof_len_field(18, x.as_str().as_bytes().len())
            },
            None => 0,
        };
        n = s1 + n;
        let s0: usize = if self.result != UpdatePersistentSubscriptionResult::Success {
            proof {
                lemma_encode_fields_one(WireField { tag: 8, value: WireValue::Varint(varint_of_i32(self.result.to_i32_spec())) });
            }
            sizeof_varint_field(8, i32_varint(self.result.to_i32()))
        } else {
            0
        };
        n = s0 + n;
        n
    }
}

/// Response to `CreatePersistentSubscription`.
#[derive(Debug, Clone, PartialEq)]
pub struct CreatePersistentSubscriptionCompleted {
    /// The outcome
    pub result: CreatePersistentSubscriptionResult,
    /// An explanation
    pub reason: Option<String>,
}

/// The contents of a `CreatePersistentSubscriptionCompleted`.
pub struct CreatePersistentSubscriptionCompletedModel {
    pub result: CreatePersistentSubscriptionResult,
    pub reason: Option<Seq<char>>,
}

impl View for CreatePersistentSubscriptionCompleted {
    type V = CreatePersistentSubscriptionCompletedModel;

    open spec fn view(&self) -> CreatePersistentSubscriptionCompletedModel {
        CreatePersistentSubscriptionCompletedModel {
            result: self.result,
            reason: opt_string_view(self.reason),
        }
    }
}

/// A `CreatePersistentSubscriptionCompleted` with every field at its default.
pub open spec fn create_persistent_subscription_completed_default() -> CreatePersistentSubscriptionCompletedModel {
    CreatePersistentSubscriptionCompletedModel {
        result: CreatePersistentSubscriptionResult::Success,
        reason: None,
    }
}

/// Folds one field into a `CreatePersistentSubscriptionCompleted`; fields of unknown tags are skipped.
pub open spec fn create_persistent_subscription_completed_apply(m: CreatePersistentSubscriptionCompletedModel, f: WireField) -> Option<CreatePersistentSubscriptionCompletedModel> {
    if f.tag == 8 {
        match f.value {
            WireValue::Varint(v) => Some(CreatePersistentSubscriptionCompletedModel { result: CreatePersistentSubscriptionResult::from_i32_spec(i32_of_varint(v)), ..m }),
            _ => None,
        }
    } else {
        if f.tag == 18 {
            match f.value {
                WireValue::Bytes(b) => match string_of(b) {
                    Some(s) => Some(CreatePersistentSubscriptionCompletedModel { reason: Some(s), ..m }),
                    None => None,
                },
                _ => None,
            }
        } else {
            Some(m)
        }
    }
}

/// `create_persistent_subscription_completed_apply` as a value.
pub open spec fn create_persistent_subscription_completed_applier() -> spec_fn(CreatePersistentSubscriptionCompletedModel, WireField) -> Option<CreatePersistentSubscriptionCompletedModel> {
    |m: CreatePersistentSubscriptionCompletedModel, f: WireField| create_persistent_subscription_completed_apply(m, f)
}

/// The tags of the fields that a `CreatePersistentSubscriptionCompleted` reads; the others are skipped.
pub open spec fn create_persistent_subscription_completed_known() -> spec_fn(u32) -> bool {
    |t: u32| t == 8 || t == 18
}

/// The `CreatePersistentSubscriptionCompleted` that `bytes` encode, if they encode one.
pub open spec fn create_persistent_subscription_completed_decode(bytes: Seq<u8>) -> Option<CreatePersistentSubscriptionCompletedModel> {
    decode_fields(bytes, create_persistent_subscription_completed_default(), create_persistent_subscription_completed_applier(), create_persistent_subscription_completed_known())
}

/// The fields that encode a `CreatePersistentSubscriptionCompleted`, in the order they are written.
pub open spec fn create_persistent_subscription_completed_fields(m: CreatePersistentSubscriptionCompletedModel) -> Seq<WireField> {
    (if m.result != CreatePersistentSubscriptionResult::Success {
        seq![WireField { tag: 8, value: WireValue::Varint(varint_of_i32(m.result.to_i32_spec())) }]
    } else {
        Seq::<WireField>::empty()
    }) + ((match m.reason {
        Some(x) => seq![WireField { tag: 18, value: WireValue::Bytes(encode_utf8(x)) }],
        None => Seq::<WireField>::empty(),
    }))
}

/// The encoding of a `CreatePersistentSubscriptionCompleted`.
pub open spec fn create_persistent_subscription_completed_encode(m: CreatePersistentSubscriptionCompletedModel) -> Seq<u8> {
    encode_fields(create_persistent_subscription_completed_fields(m))
}

/// A `CreatePersistentSubscriptionCompleted` that reads back as written: every length-delimited field, those of the
/// embedded messages included, holds fewer than 2^32 bytes.
pub open spec fn create_persistent_subscription_completed_wf(m: CreatePersistentSubscriptionCompletedModel) -> bool {
    fields_short(create_persistent_subscription_completed_fields(m))
}

/// The fields of a `CreatePersistentSubscriptionCompleted` carry the wire types of their payloads.
pub proof fn lemma_create_persistent_subscription_completed_fields_tagged(m: CreatePersistentSubscriptionCompletedModel)
    ensures
        fields_tagged(create_persistent_subscription_completed_fields(m)),
{
    assert(fields_tagged((match m.reason {
        Some(x) => seq![WireField { tag: 18, value: WireValue::Bytes(encode_utf8(x)) }],
        None => Seq::<WireField>::empty(),
    })));
    assert(fields_tagged((if m.result != CreatePersistentSubscriptionResult::Success {
        seq![WireField { tag: 8, value: WireValue::Varint(varint_of_i32(m.result.to_i32_spec())) }]
    } else {
        Seq::<WireField>::empty()
    })));
    lemma_fields_tagged_append(
        (if m.result != CreatePersistentSubscriptionResult::Success {
            seq![WireField { tag: 8, value: WireValue::Varint(varint_of_i32(m.result.to_i32_spec())) }]
        } else {
            Seq::<WireField>::empty()
        }),
        (match m.reason {
            Some(x) => seq![WireField { tag: 18, value: WireValue::Bytes(encode_utf8(x)) }],
            None => Seq::<WireField>::empty(),
        }),
    );
}

/// The bytes of an encoded `CreatePersistentSubscriptionCompleted`: `result` under tag 8, `reason` under tag 18, in this order; optional fields only
/// when present, repeated ones once per element.
pub proof fn lemma_create_persistent_subscription_completed_encode_layout(m: CreatePersistentSubscriptionCompletedModel)
    ensures
        create_persistent_subscription_completed_encode(m) == ((if m.result != CreatePersistentSubscriptionResult::Success {
            varint_field_bytes(8, varint_of_i32(m.result.to_i32_spec()))
        } else {
            Seq::<u8>::empty()
        })) + (((match m.reason {
            Some(x) => bytes_field_bytes(18, encode_utf8(x)),
            None => Seq::<u8>::empty(),
        }))),
{
    lemma_encode_fields_append(
        (if m.result != CreatePersistentSubscriptionResult::Success {
            seq![WireField { tag: 8, value: WireValue::Varint(varint_of_i32(m.result.to_i32_spec())) }]
        } else {
            Seq::<WireField>::empty()
        }),
        (match m.reason {
            Some(x) => seq![WireField { tag: 18, value: WireValue::Bytes(encode_utf8(x)) }],
            None => Seq::<WireField>::empty(),
        }),
    );
    if m.result != CreatePersistentSubscriptionResult::Success {
        lemma_varint_field_layout(8, varint_of_i32(m.result.to_i32_spec()));
    }
    if let Some(x) = m.reason {
        lemma_bytes_field_layout(18, encode_utf8(x));
    }
}

/// Reading a written `CreatePersistentSubscriptionCompleted` gives it back.
pub proof fn lemma_create_persistent_subscription_completed_roundtrip(m: CreatePersistentSubscriptionCompletedModel)
    requires
        create_persistent_subscription_completed_wf(m),
    ensures
        create_persistent_subscription_completed_decode(create_persistent_subscription_completed_encode(m)) == Some(m),
{
    let ap = create_persistent_subscription_completed_applier();
    lemma_create_persistent_subscription_completed_fields_tagged(m);
    lemma_fields_canonical_of_short(create_persistent_subscription_completed_fields(m));
    lemma_decode_encoded_fields(create_persistent_subscription_completed_fields(m), create_persistent_subscription_completed_default(), ap, create_persistent_subscription_completed_known());
    let a0 = create_persistent_subscription_completed_default();
    let a1 = CreatePersistentSubscriptionCompletedModel { result: m.result, ..a0 };
    lemma_apply_fields_append(
        (if m.result != CreatePersistentSubscriptionResult::Success {
            seq![WireField { tag: 8, value: WireValue::Varint(varint_of_i32(m.result.to_i32_spec())) }]
        } else {
            Seq::<WireField>::empty()
        }),
        (match m.reason {
            Some(x) => seq![WireField { tag: 18, value: WireValue::Bytes(encode_utf8(x)) }],
            None => Seq::<WireField>::empty(),
        }),
        a0,
        ap,
    );
    assert(apply_fields((if m.result != CreatePersistentSubscriptionResult::Success {
        seq![WireField { tag: 8, value: WireValue::Varint(varint_of_i32(m.result.to_i32_spec())) }]
    } else {
        Seq::<WireField>::empty()
    }), a0, ap) == Some(a1)) by {
        reveal_with_fuel(apply_fields, 2);
        lemma_scalar_roundtrips(m.result.to_i32_spec(), 0, false);
        m.result.lemma_i32_roundtrip();
    }
    let a2 = CreatePersistentSubscriptionCompletedModel { reason: m.reason, ..a1 };
    assert(apply_fields((match m.reason {
        Some(x) => seq![WireField { tag: 18, value: WireValue::Bytes(encode_utf8(x)) }],
        None => Seq::<WireField>::empty(),
    }), a1, ap) == Some(a2)) by {
        reveal_with_fuel(apply_fields, 2);
        if let Some(x) = m.reason {
            lemma_string_roundtrip(x);
        }
    }
    assert(a2 == m);
}

impl CreatePersistentSubscriptionCompleted {
    /// Decodes a `CreatePersistentSubscriptionCompleted` from its protobuf bytes.
    pub fn from_reader(bytes: &[u8]) -> (res: Option<CreatePersistentSubscriptionCompleted>)
        ensures
            create_persistent_subscription_completed_decode(bytes@) matches Some(m) ==> (res matches Some(e) && e@ == m),
            create_persistent_subscription_completed_decode(bytes@) is None ==> res is None,
    {
        let mut msg = CreatePersistentSubscriptionCompleted::default_value();
        let mut pos: usize = 0;
        assert(bytes@.skip(0) =~= bytes@);
        while pos < bytes.len()
            invariant
                pos <= bytes@.len(),
                create_persistent_subscription_completed_decode(bytes@) == decode_fields(bytes@.skip(pos as int), msg@, create_persistent_subscription_completed_applier(), create_persistent_subscription_completed_known()),
            decreases bytes@.len() - pos,
        {
            let ghost old_msg = msg@;
            let (tag, p) = match read_tag(bytes, pos) {
                Some(x) => x,
                None => {
                    return None;
                },
            };
            proof {
                lemma_field_parts(bytes@, pos as int, create_persistent_subscription_completed_known());
            }
            let known: bool = tag == 8 || tag == 18;
            let (value, next) = match read_value(bytes, p, tag, known) {
                Some(x) => x,
                None => {
                    return None;
                },
            };
            let ghost f = parse_field(bytes@.skip(pos as int), create_persistent_subscription_completed_known()).unwrap().0;
            proof {
                lemma_decode_step(bytes@, pos as int, old_msg, create_persistent_subscription_completed_applier(), create_persistent_subscription_completed_known());
                lemma_parse_field_len(bytes@.skip(pos as int), create_persistent_subscription_completed_known());
            }
            if tag == 8 {
                match value {
                    FieldValue::Varint(v) => {
                        msg.result = CreatePersistentSubscriptionResult::from_i32(varint_i32(v));
                    },
                    _ => {
                        return None;
                    },
                }
            } else if tag == 18 {
                match value {
                    FieldValue::Bytes(i, j) => match copy_string(bytes, i, j) {
                        Some(s) => {
                            msg.reason = Some(s);
                        },
                        None => {
                            return None;
                        },
                    },
                    _ => {
                        return None;
                    },
                }
            }
            assert(create_persistent_subscription_completed_apply(old_msg, f) == Some(msg@));
            pos = next;
        }
        assert(bytes@.skip(pos as int).len() == 0);
        Some(msg)
    }

    /// A `CreatePersistentSubscriptionCompleted` with every field at its default.
    pub fn default_value() -> (m: CreatePersistentSubscriptionCompleted)
        ensures
            m@ == create_persistent_subscription_completed_default(),
    {
        let m = CreatePersistentSubscriptionCompleted {
            result: CreatePersistentSubscriptionResult::Success,
            reason: None,
        };
        m
    }

    /// A copy of this `CreatePersistentSubscriptionCompleted`.
    pub fn copy(&self) -> (c: CreatePersistentSubscriptionCompleted)
        ensures
            c@ == self@,
    {
        let c = CreatePersistentSubscriptionCompleted {
            result: self.result,
            reason: match &self.reason {
                Some(x) => Some(x.clone()),
                None => None,
            },
        };
        assert(c@.reason =~= self@.reason);
        c
    }

    /// Encodes this `CreatePersistentSubscriptionCompleted` as protobuf bytes.
    #[verifier::spinoff_prover]
    #[verifier::rlimit(30)]
    pub fn encode(&self) -> (out: Vec<u8>)
        ensures
            out@ == create_persistent_subscription_completed_encode(self@),
            out@.len() < modulus32() ==> create_persistent_subscription_completed_wf(self@),
    {
        let mut out: Vec<u8> = Vec::new();
        let ghost mut fs: Seq<WireField> = Seq::empty();
        if self.result != CreatePersistentSubscriptionResult::Success {
            write_varint_field(&mut out, 8, i32_varint(self.result.to_i32()));
            proof {
                let f = WireField { tag: 8, value: WireValue::Varint(varint_of_i32(self.result.to_i32_spec())) };
                lemma_encode_fields_push(fs, f);
                lemma_fields_shaped_push(fs, f);
                fs = fs.push(f);
            }
        }
        match &self.reason {
            Some(x) => {
                write_bytes_field(&mut out, 18, x.as_str().as_bytes());
                proof {
                    let f = WireField { tag: 18, value: WireValue::Bytes(encode_utf8(x@)) };
                    lemma_encode_fields_push(fs, f);
                    lemma_fields_shaped_push(fs, f);
                    fs = fs.push(f);
                }
            },
            None => {},
        }
        assert(fs =~= create_persistent_subscription_completed_fields(self@));
        proof {
            if out@.len() < modulus32() {
                lemma_fields_canonical_of_len(fs);
            }
        }
        out
    }

    /// The number of bytes of the encoding of this `CreatePersistentSubscriptionCompleted`, computed without encoding it.
    #[verifier::spinoff_prover]
    #[verifier::rlimit(30)]
    pub fn get_size(&self) -> (n: usize)
        requires
            create_persistent_subscription_completed_encode(self@).len() <= usize::MAX,
        ensures
            n == create_persistent_subscription_completed_encode(self@).len(),
    {
        let ghost m = self@;
        proof {
            lemma_encode_fields_append(
                (if m.result != CreatePersistentSubscriptionResult::Success {
                    seq![WireField { tag: 8, value: WireValue::Varint(varint_of_i32(m.result.to_i32_spec())) }]
                } else {
                    Seq::<WireField>::empty()
                }),
                (match m.reason {
                    Some(x) => seq![WireField { tag: 18, value: WireValue::Bytes(encode_utf8(x)) }],
                    None => Seq::<WireField>::empty(),
                }),
            );
        }
        let mut n: usize = 0;
        let s1: usize = match &self.reason {
            Some(x) => {
                proof {
                    lemma_encode_fields_one(WireField { tag: 18, value: WireValue::Bytes(encode_utf8(x@)) });
                }
                sizeof_len_field(18, x.as_str().as_bytes().len())
            },
            None => 0,
        };
        n = s1 + n;
        let s0: usize = if self.result != CreatePersistentSubscriptionResult::Success {
            proof {
                lemma_encode_fields_one(WireField { tag: 8, value: WireValue::Varint(varint_of_i32(self.result.to_i32_spec())) });
            }
            sizeof_varint_field(8, i32_varint(self.result.to_i32()))
        } else {
            0
        };
        n = s0 + n;
        n
    }
}

/// Response to `DeletePersistentSubscription`.
#[derive(Debug, Clone, PartialEq)]
pub struct DeletePersistentSubscriptionCompleted {
    /// The outcome
    pub result: DeletePersistentSubscriptionResult,
    /// An explanation
    pub reason: Option<String>,
}

/// The contents of a `DeletePersistentSubscriptionCompleted`.
pub struct DeletePersistentSubscriptionCompletedModel {
    pub result: DeletePersistentSubscriptionResult,
    pub reason: Option<Seq<char>>,
}

impl View for DeletePersistentSubscriptionCompleted {
    type V = DeletePersistentSubscriptionCompletedModel;

    open spec fn view(&self) -> DeletePersistentSubscriptionCompletedModel {
        DeletePersistentSubscriptionCompletedModel {
            result: self.result,
            reason: opt_string_view(self.reason),
        }
    }
}

/// A `DeletePersistentSubscriptionCompleted` with every field at its default.
pub open spec fn delete_persistent_subscription_completed_default() -> DeletePersistentSubscriptionCompletedModel {
    DeletePersistentSubscriptionCompletedModel {
        result: DeletePersistentSubscriptionResult::Success,
        reason: None,
    }
}

/// Folds one field into a `DeletePersistentSubscriptionCompleted`; fields of unknown tags are skipped.
pub open spec fn delete_persistent_subscription_completed_apply(m: DeletePersistentSubscriptionCompletedModel, f: WireField) -> Option<DeletePersistentSubscriptionCompletedModel> {
    if f.tag == 8 {
        match f.value {
            WireValue::Varint(v) => Some(DeletePersistentSubscriptionCompletedModel { result: DeletePersistentSubscriptionResult::from_i32_spec(i32_of_varint(v)), ..m }),
            _ => None,
        }
    } else {
        if f.tag == 18 {
            match f.value {
                WireValue::Bytes(b) => match string_of(b) {
                    Some(s) => Some(DeletePersistentSubscriptionCompletedModel { reason: Some(s), ..m }),
                    None => None,
                },
                _ => None,
            }
        } else {
            Some(m)
        }
    }
}

/// `delete_persistent_subscription_completed_apply` as a value.
pub open spec fn delete_persistent_subscription_completed_applier() -> spec_fn(DeletePersistentSubscriptionCompletedModel, WireField) -> Option<DeletePersistentSubscriptionCompletedModel> {
    |m: DeletePersistentSubscriptionCompletedModel, f: WireField| delete_persistent_subscription_completed_apply(m, f)
}

/// The tags of the fields that a `DeletePersistentSubscriptionCompleted` reads; the others are skipped.
pub open spec fn delete_persistent_subscription_completed_known() -> spec_fn(u32) -> bool {
    |t: u32| t == 8 || t == 18
}

/// The `DeletePersistentSubscriptionCompleted` that `bytes` encode, if they encode one.
pub open spec fn delete_persistent_subscription_completed_decode(bytes: Seq<u8>) -> Option<DeletePersistentSubscriptionCompletedModel> {
    decode_fields(bytes, delete_persistent_subscription_completed_default(), delete_persistent_subscription_completed_applier(), delete_persistent_subscription_completed_known())
}

/// The fields that encode a `DeletePersistentSubscriptionCompleted`, in the order they are written.
pub open spec fn delete_persistent_subscription_completed_fields(m: DeletePersistentSubscriptionCompletedModel) -> Seq<WireField> {
    (if m.result != DeletePersistentSubscriptionResult::Success {
        seq![WireField { tag: 8, value: WireValue::Varint(varint_of_i32(m.result.to_i32_spec())) }]
    } else {
        Seq::<WireField>::empty()
    }) + ((match m.reason {
        Some(x) => seq![WireField { tag: 18, value: WireValue::Bytes(encode_utf8(x)) }],
        None => Seq::<WireField>::empty(),
    }))
}

/// The encoding of a `DeletePersistentSubscriptionCompleted`.
pub open spec fn delete_persistent_subscription_completed_encode(m: DeletePersistentSubscriptionCompletedModel) -> Seq<u8> {
    encode_fields(delete_persistent_subscription_completed_fields(m))
}

/// A `DeletePersistentSubscriptionCompleted` that reads back as written: every length-delimited field, those of the
/// embedded messages included, holds fewer than 2^32 bytes.
pub open spec fn delete_persistent_subscription_completed_wf(m: DeletePersistentSubscriptionCompletedModel) -> bool {
    fields_short(delete_persistent_subscription_completed_fields(m))
}

/// The fields of a `DeletePersistentSubscriptionCompleted` carry the wire types of their payloads.
pub proof fn lemma_delete_persistent_subscription_completed_fields_tagged(m: DeletePersistentSubscriptionCompletedModel)
    ensures
        fields_tagged(delete_persistent_subscription_completed_fields(m)),
{
    assert(fields_tagged((match m.reason {
        Some(x) => seq![WireField { tag: 18, value: WireValue::Bytes(encode_utf8(x)) }],
        None => Seq::<WireField>::empty(),
    })));
    assert(fields_tagged((if m.result != DeletePersistentSubscriptionResult::Success {
        seq![WireField { tag: 8, value: WireValue::Varint(varint_of_i32(m.result.to_i32_spec())) }]
    } else {
        Seq::<WireField>::empty()
    })));
    lemma_fields_tagged_append(
        (if m.result != DeletePersistentSubscriptionResult::Success {
            seq![WireField { tag: 8, value: WireValue::Varint(varint_of_i32(m.result.to_i32_spec())) }]
        } else {
            Seq::<WireField>::empty()
        }),
        (match m.reason {
            Some(x) => seq![WireField { tag: 18, value: WireValue::Bytes(encode_utf8(x)) }],
            None => Seq::<WireField>::empty(),
        }),
    );
}

/// The bytes of an encoded `DeletePersistentSubscriptionCompleted`: `result` under tag 8, `reason` under tag 18, in this order; optional fields only
/// when present, repeated ones once per element.
pub proof fn lemma_delete_persistent_subscription_completed_encode_layout(m: DeletePersistentSubscriptionCompletedModel)
    ensures
        delete_persistent_subscription_completed_encode(m) == ((if m.result != DeletePersistentSubscriptionResult::Success {
            varint_field_bytes(8, varint_of_i32(m.result.to_i32_spec()))
        } else {
            Seq::<u8>::empty()
        })) + (((match m.reason {
            Some(x) => bytes_field_bytes(18, encode_utf8(x)),
            None => Seq::<u8>::empty(),
        }))),
{
    lemma_encode_fields_append(
        (if m.result != DeletePersistentSubscriptionResult::Success {
            seq![WireField { tag: 8, value: WireValue::Varint(varint_of_i32(m.result.to_i32_spec())) }]
        } else {
            Seq::<WireField>::empty()
        }),
        (match m.reason {
            Some(x) => seq![WireField { tag: 18, value: WireValue::Bytes(encode_utf8(x)) }],
            None => Seq::<WireField>::empty(),
        }),
    );
    if m.result != DeletePersistentSubscriptionResult::Success {
        lemma_varint_field_layout(8, varint_of_i32(m.result.to_i32_spec()));
    }
    if let Some(x) = m.reason {
        lemma_bytes_field_layout(18, encode_utf8(x));
    }
}

/// Reading a written `DeletePersistentSubscriptionCompleted` gives it back.
pub proof fn lemma_delete_persistent_subscription_completed_roundtrip(m: DeletePersistentSubscriptionCompletedModel)
    requires
        delete_persistent_subscription_completed_wf(m),
    ensures
        delete_persistent_subscription_completed_decode(delete_persistent_subscription_completed_encode(m)) == Some(m),
{
    let ap = delete_persistent_subscription_completed_applier();
    lemma_delete_persistent_subscription_completed_fields_tagged(m);
    lemma_fields_canonical_of_short(delete_persistent_subscription_completed_fields(m));
    lemma_decode_encoded_fields(delete_persistent_subscription_completed_fields(m), delete_persistent_subscription_completed_default(), ap, delete_persistent_subscription_completed_known());
    let a0 = delete_persistent_subscription_completed_default();
    let a1 = DeletePersistentSubscriptionCompletedModel { result: m.result, ..a0 };
    lemma_apply_fields_append(
        (if m.result != DeletePersistentSubscriptionResult::Success {
            seq![WireField { tag: 8, value: WireValue::Varint(varint_of_i32(m.result.to_i32_spec())) }]
        } else {
            Seq::<WireField>::empty()
        }),
        (match m.reason {
            Some(x) => seq![WireField { tag: 18, value: WireValue::Bytes(encode_utf8(x)) }],
            None => Seq::<WireField>::empty(),
        }),
        a0,
        ap,
    );
    assert(apply_fields((if m.result != DeletePersistentSubscriptionResult::Success {
        seq![WireField { tag: 8, value: WireValue::Varint(varint_of_i32(m.result.to_i32_spec())) }]
    } else {
        Seq::<WireField>::empty()
    }), a0, ap) == Some(a1)) by {
        reveal_with_fuel(apply_fields, 2);
        lemma_scalar_roundtrips(m.result.to_i32_spec(), 0, false);
        m.result.lemma_i32_roundtrip();
    }
    let a2 = DeletePersistentSubscriptionCompletedModel { reason: m.reason, ..a1 };
    assert(apply_fields((match m.reason {
        Some(x) => seq![WireField { tag: 18, value: WireValue::Bytes(encode_utf8(x)) }],
        None => Seq::<WireField>::empty(),
    }), a1, ap) == Some(a2)) by {
        reveal_with_fuel(apply_fields, 2);
        if let Some(x) = m.reason {
            lemma_string_roundtrip(x);
        }
    }
    assert(a2 == m);
}

impl DeletePersistentSubscriptionCompleted {
    /// Decodes a `DeletePersistentSubscriptionCompleted` from its protobuf bytes.
    pub fn from_reader(bytes: &[u8]) -> (res: Option<DeletePersistentSubscriptionCompleted>)
        ensures
            delete_persistent_subscription_completed_decode(bytes@) matches Some(m) ==> (res matches Some(e) && e@ == m),
            delete_persistent_subscription_completed_decode(bytes@) is None ==> res is None,
    {
        let mut msg = DeletePersistentSubscriptionCompleted::default_value();
        let mut pos: usize = 0;
        assert(bytes@.skip(0) =~= bytes@);
        while pos < bytes.len()
            invariant
                pos <= bytes@.len(),
                delete_persistent_subscription_completed_decode(bytes@) == decode_fields(bytes@.skip(pos as int), msg@, delete_persistent_subscription_completed_applier(), delete_persistent_subscription_completed_known()),
            decreases bytes@.len() - pos,
        {
            let ghost old_msg = msg@;
            let (tag, p) = match read_tag(bytes, pos) {
                Some(x) => x,
                None => {
                    return None;
                },
            };
            proof {
                lemma_field_parts(bytes@, pos as int, delete_persistent_subscription_completed_known());
            }
            let known: bool = tag == 8 || tag == 18;
            let (value, next) = match read_value(bytes, p, tag, known) {
                Some(x) => x,
                None => {
                    return None;
                },
            };
            let ghost f = parse_field(bytes@.skip(pos as int), delete_persistent_subscription_completed_known()).unwrap().0;
            proof {
                lemma_decode_step(bytes@, pos as int, old_msg, delete_persistent_subscription_completed_applier(), delete_persistent_subscription_completed_known());
                lemma_parse_field_len(bytes@.skip(pos as int), delete_persistent_subscription_completed_known());
            }
            if tag == 8 {
                match value {
                    FieldValue::Varint(v) => {
                        msg.result = DeletePersistentSubscriptionResult::from_i32(varint_i32(v));
                    },
                    _ => {
                        return None;
                    },
                }
            } else if tag == 18 {
                match value {
                    FieldValue::Bytes(i, j) => match copy_string(bytes, i, j) {
                        Some(s) => {
                            msg.reason = Some(s);
                        },
                        None => {
                            return None;
                        },
                    },
                    _ => {
                        return None;
                    },
                }
            }
            assert(delete_persistent_subscription_completed_apply(old_msg, f) == Some(msg@));
            pos = next;
        }
        assert(bytes@.skip(pos as int).len() == 0);
        Some(msg)
    }

    /// A `DeletePersistentSubscriptionCompleted` with every field at its default.
    pub fn default_value() -> (m: DeletePersistentSubscriptionCompleted)
        ensures
            m@ == delete_persistent_subscription_completed_default(),
    {
        let m = DeletePersistentSubscriptionCompleted {
            result: DeletePersistentSubscriptionResult::Success,
            reason: None,
        };
        m
    }

    /// A copy of this `DeletePersistentSubscriptionCompleted`.
    pub fn copy(&self) -> (c: DeletePersistentSubscriptionCompleted)
        ensures
            c@ == self@,
    {
        let c = DeletePersistentSubscriptionCompleted {
            result: self.result,
            reason: match &self.reason {
                Some(x) => Some(x.clone()),
                None => None,
            },
        };
        assert(c@.reason =~= self@.reason);
        c
    }

    /// Encodes this `DeletePersistentSubscriptionCompleted` as protobuf bytes.
    #[verifier::spinoff_prover]
    #[verifier::rlimit(30)]
    pub fn encode(&self) -> (out: Vec<u8>)
        ensures
            out@ == delete_persistent_subscription_completed_encode(self@),
            out@.len() < modulus32() ==> delete_persistent_subscription_completed_wf(self@),
    {
        let mut out: Vec<u8> = Vec::new();
        let ghost mut fs: Seq<WireField> = Seq::empty();
        if self.result != DeletePersistentSubscriptionResult::Success {
            write_varint_field(&mut out, 8, i32_varint(self.result.to_i32()));
            proof {
                let f = WireField { tag: 8, value: WireValue::Varint(varint_of_i32(self.result.to_i32_spec())) };
                lemma_encode_fields_push(fs, f);
                lemma_fields_shaped_push(fs, f);
                fs = fs.push(f);
            }
        }
        match &self.reason {
            Some(x) => {
                write_bytes_field(&mut out, 18, x.as_str().as_bytes());
                proof {
                    let f = WireField { tag: 18, value: WireValue::Bytes(encode_utf8(x@)) };
                    lemma_encode_fields_push(fs, f);
                    lemma_fields_shaped_push(fs, f);
                    fs = fs.push(f);
                }
            },
            None => {},
        }
        assert(fs =~= delete_persistent_subscription_completed_fields(self@));
        proof {
            if out@.len() < modulus32() {
                lemma_fields_canonical_of_len(fs);
            }
        }
        out
    }

    /// The number of bytes of the encoding of this `DeletePersistentSubscriptionCompleted`, computed without encoding it.
    #[verifier::spinoff_prover]
    #[verifier::rlimit(30)]
    pub fn get_size(&self) -> (n: usize)
        requires
            delete_persistent_subscription_completed_encode(self@).len() <= usize::MAX,
        ensures
            n == delete_persistent_subscription_completed_encode(self@).len(),
    {
        let ghost m = self@;
        proof {
            lemma_encode_fields_append(
                (if m.result != DeletePersistentSubscriptionResult::Success {
                    seq![WireField { tag: 8, value: WireValue::Varint(varint_of_i32(m.result.to_i32_spec())) }]
                } else {
                    Seq::<WireField>::empty()
                }),
                (match m.reason {
                    Some(x) => seq![WireField { tag: 18, value: WireValue::Bytes(encode_utf8(x)) }],
                    None => Seq::<WireField>::empty(),
                }),
            );
        }
        let mut n: usize = 0;
        let s1: usize = match &self.reason {
            Some(x) => {
                proof {
                    lemma_encode_fields_one(WireField { tag: 18, value: WireValue::Bytes(encode_utf8(x@)) });
                }
                sizeof_len_field(18, x.as_str().as_bytes().len())
            },
            None => 0,
        };
        n = s1 + n;
        let s0: usize = if self.result != DeletePersistentSubscriptionResult::Success {
            proof {
                lemma_encode_fields_one(WireField { tag: 8, value: WireValue::Varint(varint_of_i32(self.result.to_i32_spec())) });
            }
            sizeof_varint_field(8, i32_varint(self.result.to_i32()))
        } else {
            0
        };
        n = s0 + n;
        n
    }
}

/// Request to connect to a persistent subscription.
#[derive(Debug, Clone, PartialEq)]
pub struct ConnectToPersistentSubscription {
    /// The subscription
    pub subscription_id: String,
    /// The stream subscribed to
    pub event_stream_id: String,
    /// The most unacknowledged messages
    pub allowed_in_flight_messages: i32,
}

/// The contents of a `ConnectToPersistentSubscription`.
pub struct ConnectToPersistentSubscriptionModel {
    pub subscription_id: Seq<char>,
    pub event_stream_id: Seq<char>,
    pub allowed_in_flight_messages: i32,
}

impl View for ConnectToPersistentSubscription {
    type V = ConnectToPersistentSubscriptionModel;

    open spec fn view(&self) -> ConnectToPersistentSubscriptionModel {
        ConnectToPersistentSubscriptionModel {
            subscription_id: self.subscription_id@,
            event_stream_id: self.event_stream_id@,
            allowed_in_flight_messages: self.allowed_in_flight_messages,
        }
    }
}

/// A `ConnectToPersistentSubscription` with every field at its default.
pub open spec fn connect_to_persistent_subscription_default() -> ConnectToPersistentSubscriptionModel {
    ConnectToPersistentSubscriptionModel {
        subscription_id: Seq::empty(),
        event_stream_id: Seq::empty(),
        allowed_in_flight_messages: 0,
    }
}

/// Folds one field into a `ConnectToPersistentSubscription`; fields of unknown tags are skipped.
pub open spec fn connect_to_persistent_subscription_apply(m: ConnectToPersistentSubscriptionModel, f: WireField) -> Option<ConnectToPersistentSubscriptionModel> {
    if f.tag == 10 {
        match f.value {
            WireValue::Bytes(b) => match string_of(b) {
                Some(s) => Some(ConnectToPersistentSubscriptionModel { subscription_id: s, ..m }),
                None => None,
            },
            _ => None,
        }
    } else {
        if f.tag == 18 {
            match f.value {
                WireValue::Bytes(b) => match string_of(b) {
                    Some(s) => Some(ConnectToPersistentSubscriptionModel { event_stream_id: s, ..m }),
                    None => None,
                },
                _ => None,
            }
        } else {
            if f.tag == 24 {
                match f.value {
                    WireValue::Varint(v) => Some(ConnectToPersistentSubscriptionModel { allowed_in_flight_messages: i32_of_varint(v), ..m }),
                    _ => None,
                }
            } else {
                Some(m)
            }
        }
    }
}

/// `connect_to_persistent_subscription_apply` as a value.
pub open spec fn connect_to_persistent_subscription_applier() -> spec_fn(ConnectToPersistentSubscriptionModel, WireField) -> Option<ConnectToPersistentSubscriptionModel> {
    |m: ConnectToPersistentSubscriptionModel, f: WireField| connect_to_persistent_subscription_apply(m, f)
}

/// The tags of the fields that a `ConnectToPersistentSubscription` reads; the others are skipped.
pub open spec fn connect_to_persistent_subscription_known() -> spec_fn(u32) -> bool {
    |t: u32| t == 10 || t == 18 || t == 24
}

/// The `ConnectToPersistentSubscription` that `bytes` encode, if they encode one.
pub open spec fn connect_to_persistent_subscription_decode(bytes: Seq<u8>) -> Option<ConnectToPersistentSubscriptionModel> {
    decode_fields(bytes, connect_to_persistent_subscription_default(), connect_to_persistent_subscription_applier(), connect_to_persistent_subscription_known())
}

/// The fields that encode a `ConnectToPersistentSubscription`, in the order they are written.
pub open spec fn connect_to_persistent_subscription_fields(m: ConnectToPersistentSubscriptionModel) -> Seq<WireField> {
    (seq![WireField { tag: 10, value: WireValue::Bytes(encode_utf8(m.subscription_id)) }]) + ((seq![WireField { tag: 18, value: WireValue::Bytes(encode_utf8(m.event_stream_id)) }]) + ((seq![WireField { tag: 24, value: WireValue::Varint(varint_of_i32(m.allowed_in_flight_messages)) }])))
}

/// The encoding of a `ConnectToPersistentSubscription`.
pub open spec fn connect_to_persistent_subscription_encode(m: ConnectToPersistentSubscriptionModel) -> Seq<u8> {
    encode_fields(connect_to_persistent_subscription_fields(m))
}

/// A `ConnectToPersistentSubscription` that reads back as written: every length-delimited field, those of the
/// embedded messages included, holds fewer than 2^32 bytes.
pub open spec fn connect_to_persistent_subscription_wf(m: ConnectToPersistentSubscriptionModel) -> bool {
    fields_short(connect_to_persistent_subscription_fields(m))
}

/// The fields of a `ConnectToPersistentSubscription` carry the wire types of their payloads.
pub proof fn lemma_connect_to_persistent_subscription_fields_tagged(m: ConnectToPersistentSubscriptionModel)
    ensures
        fields_tagged(connect_to_persistent_subscription_fields(m)),
{
    assert(fields_tagged((seq![WireField { tag: 24, value: WireValue::Varint(varint_of_i32(m.allowed_in_flight_messages)) }])));
    assert(fields_tagged((seq![WireField { tag: 18, value: WireValue::Bytes(encode_utf8(m.event_stream_id)) }])));
    lemma_fields_tagged_append(
        (seq![WireField { tag: 18, value: WireValue::Bytes(encode_utf8(m.event_stream_id)) }]),
        (seq![WireField { tag: 24, value: WireValue::Varint(varint_of_i32(m.allowed_in_flight_messages)) }]),
    );
    assert(fields_tagged((seq![WireField { tag: 10, value: WireValue::Bytes(encode_utf8(m.subscription_id)) }])));
    lemma_fields_tagged_append(
        (seq![WireField { tag: 10, value: WireValue::Bytes(encode_utf8(m.subscription_id)) }]),
        (seq![WireField { tag: 18, value: WireValue::Bytes(encode_utf8(m.event_stream_id)) }]) + ((seq![WireField { tag: 24, value: WireValue::Varint(varint_of_i32(m.allowed_in_flight_messages)) }])),
    );
}

/// The bytes of an encoded `ConnectToPersistentSubscription`: `subscription_id` under tag 10, `event_stream_id` under tag 18, `allowed_in_flight_messages` under tag 24, in this order; optional fields only
/// when present, repeated ones once per element.
pub proof fn lemma_connect_to_persistent_subscription_encode_layout(m: ConnectToPersistentSubscriptionModel)
    ensures
        connect_to_persistent_subscription_encode(m) == (bytes_field_bytes(10, encode_utf8(m.subscription_id))) + ((bytes_field_bytes(18, encode_utf8(m.event_stream_id))) + ((varint_field_bytes(24, varint_of_i32(m.allowed_in_flight_messages))))),
{
    lemma_encode_fields_append(
        (seq![WireField { tag: 10, value: WireValue::Bytes(encode_utf8(m.subscription_id)) }]),
        (seq![WireField { tag: 18, value: WireValue::Bytes(encode_utf8(m.event_stream_id)) }]) + ((seq![WireField { tag: 24, value: WireValue::Varint(varint_of_i32(m.allowed_in_flight_messages)) }])),
    );
    lemma_encode_fields_append(
        (seq![WireField { tag: 18, value: WireValue::Bytes(encode_utf8(m.event_stream_id)) }]),
        (seq![WireField { tag: 24, value: WireValue::Varint(varint_of_i32(m.allowed_in_flight_messages)) }]),
    );
    lemma_bytes_field_layout(10, encode_utf8(m.subscription_id));
    lemma_bytes_field_layout(18, encode_utf8(m.event_stream_id));
    lemma_varint_field_layout(24, varint_of_i32(m.allowed_in_flight_messages));
}

/// Reading a written `ConnectToPersistentSubscription` gives it back.
pub proof fn lemma_connect_to_persistent_subscription_roundtrip(m: ConnectToPersistentSubscriptionModel)
    requires
        connect_to_persistent_subscription_wf(m),
    ensures
        connect_to_persistent_subscription_decode(connect_to_persistent_subscription_encode(m)) == Some(m),
{
    let ap = connect_to_persistent_subscription_applier();
    lemma_connect_to_persistent_subscription_fields_tagged(m);
    lemma_fields_canonical_of_short(connect_to_persistent_subscription_fields(m));
    lemma_decode_encoded_fields(connect_to_persistent_subscription_fields(m), connect_to_persistent_subscription_default(), ap, connect_to_persistent_subscription_known());
    let a0 = connect_to_persistent_subscription_default();
    let a1 = ConnectToPersistentSubscriptionModel { subscription_id: m.subscription_id, ..a0 };
    lemma_apply_fields_append(
        (seq![WireField { tag: 10, value: WireValue::Bytes(encode_utf8(m.subscription_id)) }]),
        (seq![WireField { tag: 18, value: WireValue::Bytes(encode_utf8(m.event_stream_id)) }]) + ((seq![WireField { tag: 24, value: WireValue::Varint(varint_of_i32(m.allowed_in_flight_messages)) }])),
        a0,
        ap,
    );
    assert(apply_fields((seq![WireField { tag: 10, value: WireValue::Bytes(encode_utf8(m.subscription_id)) }]), a0, ap) == Some(a1)) by {
        reveal_with_fuel(apply_fields, 2);
        lemma_string_roundtrip(m.subscription_id);
    }
    let a2 = ConnectToPersistentSubscriptionModel { event_stream_id: m.event_stream_id, ..a1 };
    lemma_apply_fields_append(
        (seq![WireField { tag: 18, value: WireValue::Bytes(encode_utf8(m.event_stream_id)) }]),
        (seq![WireField { tag: 24, value: WireValue::Varint(varint_of_i32(m.allowed_in_flight_messages)) }]),
        a1,
        ap,
    );
    assert(apply_fields((seq![WireField { tag: 18, value: WireValue::Bytes(encode_utf8(m.event_stream_id)) }]), a1, ap) == Some(a2)) by {
        reveal_with_fuel(apply_fields, 2);
        lemma_string_roundtrip(m.event_stream_id);
    }
    let a3 = ConnectToPersistentSubscriptionModel { allowed_in_flight_messages: m.allowed_in_flight_messages, ..a2 };
    assert(apply_fields((seq![WireField { tag: 24, value: WireValue::Varint(varint_of_i32(m.allowed_in_flight_messages)) }]), a2, ap) == Some(a3)) by {
        reveal_with_fuel(apply_fields, 2);
        lemma_scalar_roundtrips(m.allowed_in_flight_messages, 0, false);
    }
    assert(a3 == m);
}

impl ConnectToPersistentSubscription {
    /// Decodes a `ConnectToPersistentSubscription` from its protobuf bytes.
    pub fn from_reader(bytes: &[u8]) -> (res: Option<ConnectToPersistentSubscription>)
        ensures
            connect_to_persistent_subscription_decode(bytes@) matches Some(m) ==> (res matches Some(e) && e@ == m),
            connect_to_persistent_subscription_decode(bytes@) is None ==> res is None,
    {
        let mut msg = ConnectToPersistentSubscription::default_value();
        let mut pos: usize = 0;
        assert(bytes@.skip(0) =~= bytes@);
        while pos < bytes.len()
            invariant
                pos <= bytes@.len(),
                connect_to_persistent_subscription_decode(bytes@) == decode_fields(bytes@.skip(pos as int), msg@, connect_to_persistent_subscription_applier(), connect_to_persistent_subscription_known()),
            decreases bytes@.len() - pos,
        {
            let ghost old_msg = msg@;
            let (tag, p) = match read_tag(bytes, pos) {
                Some(x) => x,
                None => {
                    return None;
                },
            };
            proof {
                lemma_field_parts(bytes@, pos as int, connect_to_persistent_subscription_known());
            }
            let known: bool = tag == 10 || tag == 18 || tag == 24;
            let (value, next) = match read_value(bytes, p, tag, known) {
                Some(x) => x,
                None => {
                    return None;
                },
            };
            let ghost f = parse_field(bytes@.skip(pos as int), connect_to_persistent_subscription_known()).unwrap().0;
            proof {
                lemma_decode_step(bytes@, pos as int, old_msg, connect_to_persistent_subscription_applier(), connect_to_persistent_subscription_known());
                lemma_parse_field_len(bytes@.skip(pos as int), connect_to_persistent_subscription_known());
            }
            if tag == 10 {
                match value {
                    FieldValue::Bytes(i, j) => match copy_string(bytes, i, j) {
                        Some(s) => {
                            msg.subscription_id = s;
                        },
                        None => {
                            return None;
                        },
                    },
                    _ => {
                        return None;
                    },
                }
            } else if tag == 18 {
                match value {
                    FieldValue::Bytes(i, j) => match copy_string(bytes, i, j) {
                        Some(s) => {
                            msg.event_stream_id = s;
                        },
                        None => {
                            return None;
                        },
                    },
                    _ => {
                        return None;
                    },
                }
            } else if tag == 24 {
                match value {
                    FieldValue::Varint(v) => {
                        msg.allowed_in_flight_messages = varint_i32(v);
                    },
                    _ => {
                        return None;
                    },
                }
            }
            assert(connect_to_persistent_subscription_apply(old_msg, f) == Some(msg@));
            pos = next;
        }
        assert(bytes@.skip(pos as int).len() == 0);
        Some(msg)
    }

    /// A `ConnectToPersistentSubscription` with every field at its default.
    pub fn default_value() -> (m: ConnectToPersistentSubscription)
        ensures
            m@ == connect_to_persistent_subscription_default(),
    {
        let m = ConnectToPersistentSubscription {
            subscription_id: String::new(),
            event_stream_id: String::new(),
            allowed_in_flight_messages: 0,
        };
        m
    }

    /// A copy of this `ConnectToPersistentSubscription`.
    pub fn copy(&self) -> (c: ConnectToPersistentSubscription)
        ensures
            c@ == self@,
    {
        let c = ConnectToPersistentSubscription {
            subscription_id: self.subscription_id.clone(),
            event_stream_id: self.event_stream_id.clone(),
            allowed_in_flight_messages: self.allowed_in_flight_messages,
        };
        assert(c@.subscription_id =~= self@.subscription_id);
        assert(c@.event_stream_id =~= self@.event_stream_id);
        c
    }

    /// Encodes this `ConnectToPersistentSubscription` as protobuf bytes.
    #[verifier::spinoff_prover]
    #[verifier::rlimit(30)]
    pub fn encode(&self) -> (out: Vec<u8>)
        ensures
            out@ == connect_to_persistent_subscription_encode(self@),
            out@.len() < modulus32() ==> connect_to_persistent_subscription_wf(self@),
    {
        let mut out: Vec<u8> = Vec::new();
        let ghost mut fs: Seq<WireField> = Seq::empty();
        write_bytes_field(&mut out, 10, self.subscription_id.as_str().as_bytes());
        proof {
            let f = WireField { tag: 10, value: WireValue::Bytes(encode_utf8(self.subscription_id@)) };
            lemma_encode_fields_push(fs, f);
            lemma_fields_shaped_push(fs, f);
            fs = fs.push(f);
        }
        write_bytes_field(&mut out, 18, self.event_stream_id.as_str().as_bytes());
        proof {
            let f = WireField { tag: 18, value: WireValue::Bytes(encode_utf8(self.event_stream_id@)) };
            lemma_encode_fields_push(fs, f);
            lemma_fields_shaped_push(fs, f);
            fs = fs.push(f);
        }
        write_varint_field(&mut out, 24, i32_varint(self.allowed_in_flight_messages));
        proof {
            let f = WireField { tag: 24, value: WireValue::Varint(varint_of_i32(self.allowed_in_flight_messages)) };
            lemma_encode_fields_push(fs, f);
            lemma_fields_shaped_push(fs, f);
            fs = fs.push(f);
        }
        assert(fs =~= connect_to_persistent_subscription_fields(self@));
        proof {
            if out@.len() < modulus32() {
                lemma_fields_canonical_of_len(fs);
            }
        }
        out
    }

    /// The number of bytes of the encoding of this `ConnectToPersistentSubscription`, computed without encoding it.
    #[verifier::spinoff_prover]
    #[verifier::rlimit(30)]
    pub fn get_size(&self) -> (n: usize)
        requires
            connect_to_persistent_subscription_encode(self@).len() <= usize::MAX,
        ensures
            n == connect_to_persistent_subscription_encode(self@).len(),
    {
        let ghost m = self@;
        proof {
            lemma_encode_fields_append(
                (seq![WireField { tag: 10, value: WireValue::Bytes(encode_utf8(m.subscription_id)) }]),
                (seq![WireField { tag: 18, value: WireValue::Bytes(encode_utf8(m.event_stream_id)) }]) + ((seq![WireField { tag: 24, value: WireValue::Varint(varint_of_i32(m.allowed_in_flight_messages)) }])),
            );
            lemma_encode_fields_append(
                (seq![WireField { tag: 18, value: WireValue::Bytes(encode_utf8(m.event_stream_id)) }]),
                (seq![WireField { tag: 24, value: WireValue::Varint(varint_of_i32(m.allowed_in_flight_messages)) }]),
            );
        }
        let mut n: usize = 0;
        let s2: usize = {
            proof {
                lemma_encode_fields_one(WireField { tag: 24, value: WireValue::Varint(varint_of_i32(m.allowed_in_flight_messages)) });
            }
            sizeof_varint_field(24, i32_varint(self.allowed_in_flight_messages))
        };
        n = s2 + n;
        let s1: usize = {
            proof {
                lemma_encode_fields_one(WireField { tag: 18, value: WireValue::Bytes(encode_utf8(m.event_stream_id)) });
            }
            sizeof_len_field(18, self.event_stream_id.as_str().as_bytes().len())
        };
        n = s1 + n;
        let s0: usize = {
            proof {
                lemma_encode_fields_one(WireField { tag: 10, value: WireValue::Bytes(encode_utf8(m.subscription_id)) });
            }
            sizeof_len_field(10, self.subscription_id.as_str().as_bytes().len())
        };
        n = s0 + n;
        n
    }
}

/// Acknowledgement of events of a persistent subscription.
#[derive(Debug, Clone, PartialEq)]
pub struct PersistentSubscriptionAckEvents {
    /// The subscription
    pub subscription_id: String,
    /// The ids of the events processed
    pub processed_event_ids: Vec<Vec<u8>>,
}

/// The contents of a `PersistentSubscriptionAckEvents`.
pub struct PersistentSubscriptionAckEventsModel {
    pub subscription_id: Seq<char>,
    pub processed_event_ids: Seq<Seq<u8>>,
}

impl View for PersistentSubscriptionAckEvents {
    type V = PersistentSubscriptionAckEventsModel;

    open spec fn view(&self) -> PersistentSubscriptionAckEventsModel {
        PersistentSubscriptionAckEventsModel {
            subscription_id: self.subscription_id@,
            processed_event_ids: self.processed_event_ids@.map_values(|e: Vec<u8>| e@),
        }
    }
}

/// A `PersistentSubscriptionAckEvents` with every field at its default.
pub open spec fn persistent_subscription_ack_events_default() -> PersistentSubscriptionAckEventsModel {
    PersistentSubscriptionAckEventsModel {
        subscription_id: Seq::empty(),
        processed_event_ids: Seq::empty(),
    }
}

/// Folds one field into a `PersistentSubscriptionAckEvents`; fields of unknown tags are skipped.
pub open spec fn persistent_subscription_ack_events_apply(m: PersistentSubscriptionAckEventsModel, f: WireField) -> Option<PersistentSubscriptionAckEventsModel> {
    if f.tag == 10 {
        match f.value {
            WireValue::Bytes(b) => match string_of(b) {
                Some(s) => Some(PersistentSubscriptionAckEventsModel { subscription_id: s, ..m }),
                None => None,
            },
            _ => None,
        }
    } else {
        if f.tag == 18 {
            match f.value {
                WireValue::Bytes(b) => Some(PersistentSubscriptionAckEventsModel { processed_event_ids: m.processed_event_ids.push(b), ..m }),
                _ => None,
            }
        } else {
            Some(m)
        }
    }
}

/// `persistent_subscription_ack_events_apply` as a value.
pub open spec fn persistent_subscription_ack_events_applier() -> spec_fn(PersistentSubscriptionAckEventsModel, WireField) -> Option<PersistentSubscriptionAckEventsModel> {
    |m: PersistentSubscriptionAckEventsModel, f: WireField| persistent_subscription_ack_events_apply(m, f)
}

/// The tags of the fields that a `PersistentSubscriptionAckEvents` reads; the others are skipped.
pub open spec fn persistent_subscription_ack_events_known() -> spec_fn(u32) -> bool {
    |t: u32| t == 10 || t == 18
}

/// The `PersistentSubscriptionAckEvents` that `bytes` encode, if they encode one.
pub open spec fn persistent_subscription_ack_events_decode(bytes: Seq<u8>) -> Option<PersistentSubscriptionAckEventsModel> {
    decode_fields(bytes, persistent_subscription_ack_events_default(), persistent_subscription_ack_events_applier(), persistent_subscription_ack_events_known())
}

/// The fields that encode the `processed_event_ids` of a `PersistentSubscriptionAckEvents`, one per element.
pub open spec fn persistent_subscription_ack_events_processed_event_ids_fields(es: Seq<Seq<u8>>) -> Seq<WireField> {
    Seq::new(es.len(), |i: int| WireField { tag: 18, value: WireValue::Bytes(es[i]) })
}

/// The fields that encode a `PersistentSubscriptionAckEvents`, in the order they are written.
pub open spec fn persistent_subscription_ack_events_fields(m: PersistentSubscriptionAckEventsModel) -> Seq<WireField> {
    (seq![WireField { tag: 10, value: WireValue::Bytes(encode_utf8(m.subscription_id)) }]) + ((persistent_subscription_ack_events_processed_event_ids_fields(m.processed_event_ids)))
}

/// The encoding of a `PersistentSubscriptionAckEvents`.
pub open spec fn persistent_subscription_ack_events_encode(m: PersistentSubscriptionAckEventsModel) -> Seq<u8> {
    encode_fields(persistent_subscription_ack_events_fields(m))
}

/// A `PersistentSubscriptionAckEvents` that reads back as written: every length-delimited field, those of the
/// embedded messages included, holds fewer than 2^32 bytes.
pub open spec fn persistent_subscription_ack_events_wf(m: PersistentSubscriptionAckEventsModel) -> bool {
    fields_short(persistent_subscription_ack_events_fields(m))
}

/// The fields of a `PersistentSubscriptionAckEvents` carry the wire types of their payloads.
pub proof fn lemma_persistent_subscription_ack_events_fields_tagged(m: PersistentSubscriptionAckEventsModel)
    ensures
        fields_tagged(persistent_subscription_ack_events_fields(m)),
{
    assert(fields_tagged((persistent_subscription_ack_events_processed_event_ids_fields(m.processed_event_ids))));
    assert(fields_tagged((seq![WireField { tag: 10, value: WireValue::Bytes(encode_utf8(m.subscription_id)) }])));
    lemma_fields_tagged_append(
        (seq![WireField { tag: 10, value: WireValue::Bytes(encode_utf8(m.subscription_id)) }]),
        (persistent_subscription_ack_events_processed_event_ids_fields(m.processed_event_ids)),
    );
}

/// Folding the fields of `es` into a `PersistentSubscriptionAckEvents` appends `es` to its `processed_event_ids`.
pub proof fn lemma_persistent_subscription_ack_events_apply_processed_event_ids(es: Seq<Seq<u8>>, acc: PersistentSubscriptionAckEventsModel)
    ensures
        apply_fields(persistent_subscription_ack_events_processed_event_ids_fields(es), acc, persistent_subscription_ack_events_applier()) == Some(
            PersistentSubscriptionAckEventsModel { processed_event_ids: acc.processed_event_ids + es, ..acc },
        ),
    decreases es.len(),
{
    if es.len() == 0 {
        assert(acc.processed_event_ids + es =~= acc.processed_event_ids);
    } else {
        let next = PersistentSubscriptionAckEventsModel { processed_event_ids: acc.processed_event_ids.push(es[0]), ..acc };
        assert(persistent_subscription_ack_events_processed_event_ids_fields(es).drop_first() =~= persistent_subscription_ack_events_processed_event_ids_fields(es.drop_first()));
        assert(persistent_subscription_ack_events_processed_event_ids_fields(es)[0] == WireField { tag: 18, value: WireValue::Bytes(es[0]) });
        lemma_persistent_subscription_ack_events_apply_processed_event_ids(es.drop_first(), next);
        assert(acc.processed_event_ids.push(es[0]) + es.drop_first() =~= acc.processed_event_ids + es);
    }
}

/// The bytes of an encoded `PersistentSubscriptionAckEvents`: `subscription_id` under tag 10, `processed_event_ids` under tag 18, in this order; optional fields only
/// when present, repeated ones once per element.
pub proof fn lemma_persistent_subscription_ack_events_encode_layout(m: PersistentSubscriptionAckEventsModel)
    ensures
        persistent_subscription_ack_events_encode(m) == (bytes_field_bytes(10, encode_utf8(m.subscription_id))) + ((repeated_field_bytes(18, m.processed_event_ids))),
{
    lemma_encode_fields_append(
        (seq![WireField { tag: 10, value: WireValue::Bytes(encode_utf8(m.subscription_id)) }]),
        (persistent_subscription_ack_events_processed_event_ids_fields(m.processed_event_ids)),
    );
    lemma_bytes_field_layout(10, encode_utf8(m.subscription_id));
    lemma_repeated_field_layout(18, persistent_subscription_ack_events_processed_event_ids_fields(m.processed_event_ids), m.processed_event_ids);
}

/// Reading a written `PersistentSubscriptionAckEvents` gives it back.
pub proof fn lemma_persistent_subscription_ack_events_roundtrip(m: PersistentSubscriptionAckEventsModel)
    requires
        persistent_subscription_ack_events_wf(m),
    ensures
        persistent_subscription_ack_events_decode(persistent_subscription_ack_events_encode(m)) == Some(m),
{
    let ap = persistent_subscription_ack_events_applier();
    lemma_persistent_subscription_ack_events_fields_tagged(m);
    lemma_fields_canonical_of_short(persistent_subscription_ack_events_fields(m));
    lemma_decode_encoded_fields(persistent_subscription_ack_events_fields(m), persistent_subscription_ack_events_default(), ap, persistent_subscription_ack_events_known());
    let a0 = persistent_subscription_ack_events_default();
    let a1 = PersistentSubscriptionAckEventsModel { subscription_id: m.subscription_id, ..a0 };
    lemma_apply_fields_append(
        (seq![WireField { tag: 10, value: WireValue::Bytes(encode_utf8(m.subscription_id)) }]),
        (persistent_subscription_ack_events_processed_event_ids_fields(m.processed_event_ids)),
        a0,
        ap,
    );
    assert(apply_fields((seq![WireField { tag: 10, value: WireValue::Bytes(encode_utf8(m.subscription_id)) }]), a0, ap) == Some(a1)) by {
        reveal_with_fuel(apply_fields, 2);
        lemma_string_roundtrip(m.subscription_id);
    }
    let a2 = PersistentSubscriptionAckEventsModel { processed_event_ids: m.processed_event_ids, ..a1 };
    assert(apply_fields((persistent_subscription_ack_events_processed_event_ids_fields(m.processed_event_ids)), a1, ap) == Some(a2)) by {
        lemma_persistent_subscription_ack_events_apply_processed_event_ids(m.processed_event_ids, a1);
        assert(a1.processed_event_ids + m.processed_event_ids =~= m.processed_event_ids);
    }
    assert(a2 == m);
}

impl PersistentSubscriptionAckEvents {
    /// Decodes a `PersistentSubscriptionAckEvents` from its protobuf bytes.
    pub fn from_reader(bytes: &[u8]) -> (res: Option<PersistentSubscriptionAckEvents>)
        ensures
            persistent_subscription_ack_events_decode(bytes@) matches Some(m) ==> (res matches Some(e) && e@ == m),
            persistent_subscription_ack_events_decode(bytes@) is None ==> res is None,
    {
        let mut msg = PersistentSubscriptionAckEvents::default_value();
        let mut pos: usize = 0;
        assert(bytes@.skip(0) =~= bytes@);
        while pos < bytes.len()
            invariant
                pos <= bytes@.len(),
                persistent_subscription_ack_events_decode(bytes@) == decode_fields(bytes@.skip(pos as int), msg@, persistent_subscription_ack_events_applier(), persistent_subscription_ack_events_known()),
            decreases bytes@.len() - pos,
        {
            let ghost old_msg = msg@;
            let (tag, p) = match read_tag(bytes, pos) {
                Some(x) => x,
                None => {
                    return None;
                },
            };
            proof {
                lemma_field_parts(bytes@, pos as int, persistent_subscription_ack_events_known());
            }
            let known: bool = tag == 10 || tag == 18;
            let (value, next) = match read_value(bytes, p, tag, known) {
                Some(x) => x,
                None => {
                    return None;
                },
            };
            let ghost f = parse_field(bytes@.skip(pos as int), persistent_subscription_ack_events_known()).unwrap().0;
            proof {
                lemma_decode_step(bytes@, pos as int, old_msg, persistent_subscription_ack_events_applier(), persistent_subscription_ack_events_known());
                lemma_parse_field_len(bytes@.skip(pos as int), persistent_subscription_ack_events_known());
            }
            if tag == 10 {
                match value {
                    FieldValue::Bytes(i, j) => match copy_string(bytes, i, j) {
                        Some(s) => {
                            msg.subscription_id = s;
                        },
                        None => {
                            return None;
                        },
                    },
                    _ => {
                        return None;
                    },
                }
            } else if tag == 18 {
                match value {
                    FieldValue::Bytes(i, j) => {
                        let b = copy_bytes(bytes, i, j);
                        let ghost bv = b@;
                        msg.processed_event_ids.push(b);
                        assert(msg@.processed_event_ids =~= old_msg.processed_event_ids.push(bv));
                    },
                    _ => {
                        return None;
                    },
                }
            }
            assert(persistent_subscription_ack_events_apply(old_msg, f) == Some(msg@));
            pos = next;
        }
        assert(bytes@.skip(pos as int).len() == 0);
        Some(msg)
    }

    /// A `PersistentSubscriptionAckEvents` with every field at its default.
    pub fn default_value() -> (m: PersistentSubscriptionAckEvents)
        ensures
            m@ == persistent_subscription_ack_events_default(),
    {
        let m = PersistentSubscriptionAckEvents {
            subscription_id: String::new(),
            processed_event_ids: Vec::new(),
        };
        assert(m@.processed_event_ids =~= Seq::empty());
        m
    }

    /// A copy of this `PersistentSubscriptionAckEvents`.
    pub fn copy(&self) -> (c: PersistentSubscriptionAckEvents)
        ensures
            c@ == self@,
    {
        let mut processed_event_ids: Vec<Vec<u8>> = Vec::new();
        let mut k: usize = 0;
        while k < self.processed_event_ids.len()
            invariant
                k <= self.processed_event_ids@.len(),
                processed_event_ids@.map_values(|e: Vec<u8>| e@) =~= self@.processed_event_ids.take(k as int),
            decreases self.processed_event_ids@.len() - k,
        {
            let e = slice_to_vec(self.processed_event_ids[k].as_slice());
            processed_event_ids.push(e);
            assert(self@.processed_event_ids.take(k + 1) =~= self@.processed_event_ids.take(k as int).push(e@));
            k = k + 1;
        }
        assert(self@.processed_event_ids.take(k as int) =~= self@.processed_event_ids);
        let c = PersistentSubscriptionAckEvents {
            subscription_id: self.subscription_id.clone(),
            processed_event_ids: processed_event_ids,
        };
        assert(c@.subscription_id =~= self@.subscription_id);
        assert(c@.processed_event_ids =~= self@.processed_event_ids);
        c
    }

    /// Encodes this `PersistentSubscriptionAckEvents` as protobuf bytes.
    #[verifier::spinoff_prover]
    #[verifier::rlimit(30)]
    pub fn encode(&self) -> (out: Vec<u8>)
        ensures
            out@ == persistent_subscription_ack_events_encode(self@),
            out@.len() < modulus32() ==> persistent_subscription_ack_events_wf(self@),
    {
        let mut out: Vec<u8> = Vec::new();
        let ghost mut fs: Seq<WireField> = Seq::empty();
        write_bytes_field(&mut out, 10, self.subscription_id.as_str().as_bytes());
        proof {
            let f = WireField { tag: 10, value: WireValue::Bytes(encode_utf8(self.subscription_id@)) };
            lemma_encode_fields_push(fs, f);
            lemma_fields_shaped_push(fs, f);
            fs = fs.push(f);
        }
        let ghost fs0 = fs;
        let ghost out_len0 = out@.len();
        let mut k: usize = 0;
        assert(self@.processed_event_ids.take(0) =~= Seq::empty());
        assert(fs0 + persistent_subscription_ack_events_processed_event_ids_fields(self@.processed_event_ids.take(0)) =~= fs0);
        while k < self.processed_event_ids.len()
            invariant
                k <= self.processed_event_ids@.len(),
                out@ == encode_fields(fs),
                fields_shaped(fs),
                out@.len() >= out_len0,
                fs == fs0 + persistent_subscription_ack_events_processed_event_ids_fields(self@.processed_event_ids.take(k as int)),
            decreases self.processed_event_ids@.len() - k,
        {
            write_bytes_field(&mut out, 18, self.processed_event_ids[k].as_slice());
            proof {
                let f = WireField { tag: 18, value: WireValue::Bytes(self.processed_event_ids@[k as int]@) };
                lemma_encode_fields_push(fs, f);
                lemma_fields_shaped_push(fs, f);
                fs = fs.push(f);
                assert(self@.processed_event_ids[k as int] == self.processed_event_ids@[k as int]@);
                assert(persistent_subscription_ack_events_processed_event_ids_fields(self@.processed_event_ids.take(k + 1)) =~= persistent_subscription_ack_events_processed_event_ids_fields(
                    self@.processed_event_ids.take(k as int),
                ).push(f));
                assert(fs =~= fs0 + persistent_subscription_ack_events_processed_event_ids_fields(self@.processed_event_ids.take(k + 1)));
            }
            k = k + 1;
        }
        assert(self@.processed_event_ids.take(k as int) =~= self@.processed_event_ids);
        assert(fs =~= persistent_subscription_ack_events_fields(self@));
        proof {
            if out@.len() < modulus32() {
                lemma_fields_canonical_of_len(fs);
            }
        }
        out
    }

    /// The number of bytes of the encoding of this `PersistentSubscriptionAckEvents`, computed without encoding it.
    #[verifier::spinoff_prover]
    #[verifier::rlimit(30)]
    pub fn get_size(&self) -> (n: usize)
        requires
            persistent_subscription_ack_events_encode(self@).len() <= usize::MAX,
        ensures
            n == persistent_subscription_ack_events_encode(self@).len(),
    {
        let ghost m = self@;
        proof {
            lemma_encode_fields_append(
                (seq![WireField { tag: 10, value: WireValue::Bytes(encode_utf8(m.subscription_id)) }]),
                (persistent_subscription_ack_events_processed_event_ids_fields(m.processed_event_ids)),
            );
        }
        let mut n: usize = 0;
        let mut s1: usize = 0;
        let mut k1: usize = 0;
        assert(persistent_subscription_ack_events_processed_event_ids_fields(m.processed_event_ids.take(0)) =~= Seq::<WireField>::empty());
        while k1 < self.processed_event_ids.len()
            invariant
                m == self@,
                k1 <= self.processed_event_ids@.len(),
                s1 == encode_fields(persistent_subscription_ack_events_processed_event_ids_fields(m.processed_event_ids.take(k1 as int))).len(),
                encode_fields(persistent_subscription_ack_events_processed_event_ids_fields(m.processed_event_ids)).len() <= usize::MAX,
            decreases self.processed_event_ids@.len() - k1,
        {
            let ghost f = WireField { tag: 18, value: WireValue::Bytes(m.processed_event_ids[k1 as int]) };
            proof {
                assert(persistent_subscription_ack_events_processed_event_ids_fields(m.processed_event_ids.take(k1 + 1)) =~= persistent_subscription_ack_events_processed_event_ids_fields(m.processed_event_ids.take(k1 as int)).push(f));
                lemma_encode_fields_push(persistent_subscription_ack_events_processed_event_ids_fields(m.processed_event_ids.take(k1 as int)), f);
                assert(persistent_subscription_ack_events_processed_event_ids_fields(m.processed_event_ids.take(k1 + 1)) =~= persistent_subscription_ack_events_processed_event_ids_fields(m.processed_event_ids).take(k1 + 1));
                lemma_encode_fields_take_len(persistent_subscription_ack_events_processed_event_ids_fields(m.processed_event_ids), k1 + 1);
                assert(m.processed_event_ids[k1 as int] == self.processed_event_ids@[k1 as int]@);
            }
            let x = sizeof_len_field(18, self.processed_event_ids[k1].len());
            s1 = s1 + x;
            k1 = k1 + 1;
        }
        assert(m.processed_event_ids.take(k1 as int) =~= m.processed_event_ids);
        n = s1 + n;
        let s0: usize = {
            proof {
                lemma_encode_fields_one(WireField { tag: 10, value: WireValue::Bytes(encode_utf8(m.subscription_id)) });
            }
            sizeof_len_field(10, self.subscription_id.as_str().as_bytes().len())
        };
        n = s0 + n;
        n
    }
}

/// Negative acknowledgement of events of a persistent subscription.
#[derive(Debug, Clone, PartialEq)]
pub struct PersistentSubscriptionNakEvents {
    /// The subscription
    pub subscription_id: String,
    /// The ids of the events not processed
    pub processed_event_ids: Vec<Vec<u8>>,
    /// An explanation
    pub message: Option<String>,
    /// What to do with the events
    pub action: NakAction,
}

/// The contents of a `PersistentSubscriptionNakEvents`.
pub struct PersistentSubscriptionNakEventsModel {
    pub subscription_id: Seq<char>,
    pub processed_event_ids: Seq<Seq<u8>>,
    pub message: Option<Seq<char>>,
    pub action: NakAction,
}

impl View for PersistentSubscriptionNakEvents {
    type V = PersistentSubscriptionNakEventsModel;

    open spec fn view(&self) -> PersistentSubscriptionNakEventsModel {
        PersistentSubscriptionNakEventsModel {
            subscription_id: self.subscription_id@,
            processed_event_ids: self.processed_event_ids@.map_values(|e: Vec<u8>| e@),
            message: opt_string_view(self.message),
            action: self.action,
        }
    }
}

/// A `PersistentSubscriptionNakEvents` with every field at its default.
pub open spec fn persistent_subscription_nak_events_default() -> PersistentSubscriptionNakEventsModel {
    PersistentSubscriptionNakEventsModel {
        subscription_id: Seq::empty(),
        processed_event_ids: Seq::empty(),
        message: None,
        action: NakAction::Unknown,
    }
}

/// Folds one field into a `PersistentSubscriptionNakEvents`; fields of unknown tags are skipped.
pub open spec fn persistent_subscription_nak_events_apply(m: PersistentSubscriptionNakEventsModel, f: WireField) -> Option<PersistentSubscriptionNakEventsModel> {
    if f.tag == 10 {
        match f.value {
            WireValue::Bytes(b) => match string_of(b) {
                Some(s) => Some(PersistentSubscriptionNakEventsModel { subscription_id: s, ..m }),
                None => None,
            },
            _ => None,
        }
    } else {
        if f.tag == 18 {
            match f.value {
                WireValue::Bytes(b) => Some(PersistentSubscriptionNakEventsModel { processed_event_ids: m.processed_event_ids.push(b), ..m }),
                _ => None,
            }
        } else {
            if f.tag == 26 {
                match f.value {
                    WireValue::Bytes(b) => match string_of(b) {
                        Some(s) => Some(PersistentSubscriptionNakEventsModel { message: Some(s), ..m }),
                        None => None,
                    },
                    _ => None,
                }
            } else {
                if f.tag == 32 {
                    match f.value {
                        WireValue::Varint(v) => Some(PersistentSubscriptionNakEventsModel { action: NakAction::from_i32_spec(i32_of_varint(v)), ..m }),
                        _ => None,
                    }
                } else {
                    Some(m)
                }
            }
        }
    }
}

/// `persistent_subscription_nak_events_apply` as a value.
pub open spec fn persistent_subscription_nak_events_applier() -> spec_fn(PersistentSubscriptionNakEventsModel, WireField) -> Option<PersistentSubscriptionNakEventsModel> {
    |m: PersistentSubscriptionNakEventsModel, f: WireField| persistent_subscription_nak_events_apply(m, f)
}

/// The tags of the fields that a `PersistentSubscriptionNakEvents` reads; the others are skipped.
pub open spec fn persistent_subscription_nak_events_known() -> spec_fn(u32) -> bool {
    |t: u32| t == 10 || t == 18 || t == 26 || t == 32
}

/// The `PersistentSubscriptionNakEvents` that `bytes` encode, if they encode one.
pub open spec fn persistent_subscription_nak_events_decode(bytes: Seq<u8>) -> Option<PersistentSubscriptionNakEventsModel> {
    decode_fields(bytes, persistent_subscription_nak_events_default(), persistent_subscription_nak_events_applier(), persistent_subscription_nak_events_known())
}

/// The fields that encode the `processed_event_ids` of a `PersistentSubscriptionNakEvents`, one per element.
pub open spec fn persistent_subscription_nak_events_processed_event_ids_fields(es: Seq<Seq<u8>>) -> Seq<WireField> {
    Seq::new(es.len(), |i: int| WireField { tag: 18, value: WireValue::Bytes(es[i]) })
}

/// The fields that encode a `PersistentSubscriptionNakEvents`, in the order they are written.
pub open spec fn persistent_subscription_nak_events_fields(m: PersistentSubscriptionNakEventsModel) -> Seq<WireField> {
    (seq![WireField { tag: 10, value: WireValue::Bytes(encode_utf8(m.subscription_id)) }]) + ((persistent_subscription_nak_events_processed_event_ids_fields(m.processed_event_ids)) + ((match m.message {
        Some(x) => seq![WireField { tag: 26, value: WireValue::Bytes(encode_utf8(x)) }],
        None => Seq::<WireField>::empty(),
    }) + ((if m.action != NakAction::Unknown {
        seq![WireField { tag: 32, value: WireValue::Varint(varint_of_i32(m.action.to_i32_spec())) }]
    } else {
        Seq::<WireField>::empty()
    }))))
}

/// The encoding of a `PersistentSubscriptionNakEvents`.
pub open spec fn persistent_subscription_nak_events_encode(m: PersistentSubscriptionNakEventsModel) -> Seq<u8> {
    encode_fields(persistent_subscription_nak_events_fields(m))
}

/// A `PersistentSubscriptionNakEvents` that reads back as written: every length-delimited field, those of the
/// embedded messages included, holds fewer than 2^32 bytes.
pub open spec fn persistent_subscription_nak_events_wf(m: PersistentSubscriptionNakEventsModel) -> bool {
    fields_short(persistent_subscription_nak_events_fields(m))
}

/// The fields of a `PersistentSubscriptionNakEvents` carry the wire types of their payloads.
pub proof fn lemma_persistent_subscription_nak_events_fields_tagged(m: PersistentSubscriptionNakEventsModel)
    ensures
        fields_tagged(persistent_subscription_nak_events_fields(m)),
{
    assert(fields_tagged((if m.action != NakAction::Unknown {
        seq![WireField { tag: 32, value: WireValue::Varint(varint_of_i32(m.action.to_i32_spec())) }]
    } else {
        Seq::<WireField>::empty()
    })));
    assert(fields_tagged((match m.message {
        Some(x) => seq![WireField { tag: 26, value: WireValue::Bytes(encode_utf8(x)) }],
        None => Seq::<WireField>::empty(),
    })));
    lemma_fields_tagged_append(
        (match m.message {
            Some(x) => seq![WireField { tag: 26, value: WireValue::Bytes(encode_utf8(x)) }],
            None => Seq::<WireField>::empty(),
        }),
        (if m.action != NakAction::Unknown {
            seq![WireField { tag: 32, value: WireValue::Varint(varint_of_i32(m.action.to_i32_spec())) }]
        } else {
            Seq::<WireField>::empty()
        }),
    );
    assert(fields_tagged((persistent_subscription_nak_events_processed_event_ids_fields(m.processed_event_ids))));
    lemma_fields_tagged_append(
        (persistent_subscription_nak_events_processed_event_ids_fields(m.processed_event_ids)),
        (match m.message {
            Some(x) => seq![WireField { tag: 26, value: WireValue::Bytes(encode_utf8(x)) }],
            None => Seq::<WireField>::empty(),
        }) + ((if m.action != NakAction::Unknown {
            seq![WireField { tag: 32, value: WireValue::Varint(varint_of_i32(m.action.to_i32_spec())) }]
        } else {
            Seq::<WireField>::empty()
        })),
    );
    assert(fields_tagged((seq![WireField { tag: 10, value: WireValue::Bytes(encode_utf8(m.subscription_id)) }])));
    lemma_fields_tagged_append(
        (seq![WireField { tag: 10, value: WireValue::Bytes(encode_utf8(m.subscription_id)) }]),
        (persistent_subscription_nak_events_processed_event_ids_fields(m.processed_event_ids)) + ((match m.message {
            Some(x) => seq![WireField { tag: 26, value: WireValue::Bytes(encode_utf8(x)) }],
            None => Seq::<WireField>::empty(),
        }) + ((if m.action != NakAction::Unknown {
            seq![WireField { tag: 32, value: WireValue::Varint(varint_of_i32(m.action.to_i32_spec())) }]
        } else {
            Seq::<WireField>::empty()
        }))),
    );
}

/// Folding the fields of `es` into a `PersistentSubscriptionNakEvents` appends `es` to its `processed_event_ids`.
pub proof fn lemma_persistent_subscription_nak_events_apply_processed_event_ids(es: Seq<Seq<u8>>, acc: PersistentSubscriptionNakEventsModel)
    ensures
        apply_fields(persistent_subscription_nak_events_processed_event_ids_fields(es), acc, persistent_subscription_nak_events_applier()) == Some(
            PersistentSubscriptionNakEventsModel { processed_event_ids: acc.processed_event_ids + es, ..acc },
        ),
    decreases es.len(),
{
    if es.len() == 0 {
        assert(acc.processed_event_ids + es =~= acc.processed_event_ids);
    } else {
        let next = PersistentSubscriptionNakEventsModel { processed_event_ids: acc.processed_event_ids.push(es[0]), ..acc };
        assert(persistent_subscription_nak_events_processed_event_ids_fields(es).drop_first() =~= persistent_subscription_nak_events_processed_event_ids_fields(es.drop_first()));
        assert(persistent_subscription_nak_events_processed_event_ids_fields(es)[0] == WireField { tag: 18, value: WireValue::Bytes(es[0]) });
        lemma_persistent_subscription_nak_events_apply_processed_event_ids(es.drop_first(), next);
        assert(acc.processed_event_ids.push(es[0]) + es.drop_first() =~= acc.processed_event_ids + es);
    }
}

/// The bytes of an encoded `PersistentSubscriptionNakEvents`: `subscription_id` under tag 10, `processed_event_ids` under tag 18, `message` under tag 26, `action` under tag 32, in this order; optional fields only
/// when present, repeated ones once per element.
pub proof fn lemma_persistent_subscription_nak_events_encode_layout(m: PersistentSubscriptionNakEventsModel)
    ensures
        persistent_subscription_nak_events_encode(m) == (bytes_field_bytes(10, encode_utf8(m.subscription_id))) + ((repeated_field_bytes(18, m.processed_event_ids)) + (((match m.message {
            Some(x) => bytes_field_bytes(26, encode_utf8(x)),
            None => Seq::<u8>::empty(),
        })) + (((if m.action != NakAction::Unknown {
            varint_field_bytes(32, varint_of_i32(m.action.to_i32_spec()))
        } else {
            Seq::<u8>::empty()
        }))))),
{
    lemma_encode_fields_append(
        (seq![WireField { tag: 10, value: WireValue::Bytes(encode_utf8(m.subscription_id)) }]),
        (persistent_subscription_nak_events_processed_event_ids_fields(m.processed_event_ids)) + ((match m.message {
            Some(x) => seq![WireField { tag: 26, value: WireValue::Bytes(encode_utf8(x)) }],
            None => Seq::<WireField>::empty(),
        }) + ((if m.action != NakAction::Unknown {
            seq![WireField { tag: 32, value: WireValue::Varint(varint_of_i32(m.action.to_i32_spec())) }]
        } else {
            Seq::<WireField>::empty()
        }))),
    );
    lemma_encode_fields_append(
        (persistent_subscription_nak_events_processed_event_ids_fields(m.processed_event_ids)),
        (match m.message {
            Some(x) => seq![WireField { tag: 26, value: WireValue::Bytes(encode_utf8(x)) }],
            None => Seq::<WireField>::empty(),
        }) + ((if m.action != NakAction::Unknown {
            seq![WireField { tag: 32, value: WireValue::Varint(varint_of_i32(m.action.to_i32_spec())) }]
        } else {
            Seq::<WireField>::empty()
        })),
    );
    lemma_encode_fields_append(
        (match m.message {
            Some(x) => seq![WireField { tag: 26, value: WireValue::Bytes(encode_utf8(x)) }],
            None => Seq::<WireField>::empty(),
        }),
        (if m.action != NakAction::Unknown {
            seq![WireField { tag: 32, value: WireValue::Varint(varint_of_i32(m.action.to_i32_spec())) }]
        } else {
            Seq::<WireField>::empty()
        }),
    );
    lemma_bytes_field_layout(10, encode_utf8(m.subscription_id));
    lemma_repeated_field_layout(18, persistent_subscription_nak_events_processed_event_ids_fields(m.processed_event_ids), m.processed_event_ids);
    if let Some(x) = m.message {
        lemma_bytes_field_layout(26, encode_utf8(x));
    }
    if m.action != NakAction::Unknown {
        lemma_varint_field_layout(32, varint_of_i32(m.action.to_i32_spec()));
    }
}

/// Reading a written `PersistentSubscriptionNakEvents` gives it back.
pub proof fn lemma_persistent_subscription_nak_events_roundtrip(m: PersistentSubscriptionNakEventsModel)
    requires
        persistent_subscription_nak_events_wf(m),
    ensures
        persistent_subscription_nak_events_decode(persistent_subscription_nak_events_encode(m)) == Some(m),
{
    let ap = persistent_subscription_nak_events_applier();
    lemma_persistent_subscription_nak_events_fields_tagged(m);
    lemma_fields_canonical_of_short(persistent_subscription_nak_events_fields(m));
    lemma_decode_encoded_fields(persistent_subscription_nak_events_fields(m), persistent_subscription_nak_events_default(), ap, persistent_subscription_nak_events_known());
    let a0 = persistent_subscription_nak_events_default();
    let a1 = PersistentSubscriptionNakEventsModel { subscription_id: m.subscription_id, ..a0 };
    lemma_apply_fields_append(
        (seq![WireField { tag: 10, value: WireValue::Bytes(encode_utf8(m.subscription_id)) }]),
        (persistent_subscription_nak_events_processed_event_ids_fields(m.processed_event_ids)) + ((match m.message {
            Some(x) => seq![WireField { tag: 26, value: WireValue::Bytes(encode_utf8(x)) }],
            None => Seq::<WireField>::empty(),
        }) + ((if m.action != NakAction::Unknown {
            seq![WireField { tag: 32, value: WireValue::Varint(varint_of_i32(m.action.to_i32_spec())) }]
        } else {
            Seq::<WireField>::empty()
        }))),
        a0,
        ap,
    );
    assert(apply_fields((seq![WireField { tag: 10, value: WireValue::Bytes(encode_utf8(m.subscription_id)) }]), a0, ap) == Some(a1)) by {
        reveal_with_fuel(apply_fields, 2);
        lemma_string_roundtrip(m.subscription_id);
    }
    let a2 = PersistentSubscriptionNakEventsModel { processed_event_ids: m.processed_event_ids, ..a1 };
    lemma_apply_fields_append(
        (persistent_subscription_nak_events_processed_event_ids_fields(m.processed_event_ids)),
        (match m.message {
            Some(x) => seq![WireField { tag: 26, value: WireValue::Bytes(encode_utf8(x)) }],
            None => Seq::<WireField>::empty(),
        }) + ((if m.action != NakAction::Unknown {
            seq![WireField { tag: 32, value: WireValue::Varint(varint_of_i32(m.action.to_i32_spec())) }]
        } else {
            Seq::<WireField>::empty()
        })),
        a1,
        ap,
    );
    assert(apply_fields((persistent_subscription_nak_events_processed_event_ids_fields(m.processed_event_ids)), a1, ap) == Some(a2)) by {
        lemma_persistent_subscription_nak_events_apply_processed_event_ids(m.processed_event_ids, a1);
        assert(a1.processed_event_ids + m.processed_event_ids =~= m.processed_event_ids);
    }
    let a3 = PersistentSubscriptionNakEventsModel { message: m.message, ..a2 };
    lemma_apply_fields_append(
        (match m.message {
            Some(x) => seq![WireField { tag: 26, value: WireValue::Bytes(encode_utf8(x)) }],
            None => Seq::<WireField>::empty(),
        }),
        (if m.action != NakAction::Unknown {
            seq![WireField { tag: 32, value: WireValue::Varint(varint_of_i32(m.action.to_i32_spec())) }]
        } else {
            Seq::<WireField>::empty()
        }),
        a2,
        ap,
    );
    assert(apply_fields((match m.message {
        Some(x) => seq![WireField { tag: 26, value: WireValue::Bytes(encode_utf8(x)) }],
        None => Seq::<WireField>::empty(),
    }), a2, ap) == Some(a3)) by {
        reveal_with_fuel(apply_fields, 2);
        if let Some(x) = m.message {
            lemma_string_roundtrip(x);
        }
    }
    let a4 = PersistentSubscriptionNakEventsModel { action: m.action, ..a3 };
    assert(apply_fields((if m.action != NakAction::Unknown {
        seq![WireField { tag: 32, value: WireValue::Varint(varint_of_i32(m.action.to_i32_spec())) }]
    } else {
        Seq::<WireField>::empty()
    }), a3, ap) == Some(a4)) by {
        reveal_with_fuel(apply_fields, 2);
        lemma_scalar_roundtrips(m.action.to_i32_spec(), 0, false);
        m.action.lemma_i32_roundtrip();
    }
    assert(a4 == m);
}

impl PersistentSubscriptionNakEvents {
    /// Decodes a `PersistentSubscriptionNakEvents` from its protobuf bytes.
    pub fn from_reader(bytes: &[u8]) -> (res: Option<PersistentSubscriptionNakEvents>)
        ensures
            persistent_subscription_nak_events_decode(bytes@) matches Some(m) ==> (res matches Some(e) && e@ == m),
            persistent_subscription_nak_events_decode(bytes@) is None ==> res is None,
    {
        let mut msg = PersistentSubscriptionNakEvents::default_value();
        let mut pos: usize = 0;
        assert(bytes@.skip(0) =~= bytes@);
        while pos < bytes.len()
            invariant
                pos <= bytes@.len(),
                persistent_subscription_nak_events_decode(bytes@) == decode_fields(bytes@.skip(pos as int), msg@, persistent_subscription_nak_events_applier(), persistent_subscription_nak_events_known()),
            decreases bytes@.len() - pos,
        {
            let ghost old_msg = msg@;
            let (tag, p) = match read_tag(bytes, pos) {
                Some(x) => x,
                None => {
                    return None;
                },
            };
            proof {
                lemma_field_parts(bytes@, pos as int, persistent_subscription_nak_events_known());
            }
            let known: bool = tag == 10 || tag == 18 || tag == 26 || tag == 32;
            let (value, next) = match read_value(bytes, p, tag, known) {
                Some(x) => x,
                None => {
                    return None;
                },
            };
            let ghost f = parse_field(bytes@.skip(pos as int), persistent_subscription_nak_events_known()).unwrap().0;
            proof {
                lemma_decode_step(bytes@, pos as int, old_msg, persistent_subscription_nak_events_applier(), persistent_subscription_nak_events_known());
                lemma_parse_field_len(bytes@.skip(pos as int), persistent_subscription_nak_events_known());
            }
            if tag == 10 {
                match value {
                    FieldValue::Bytes(i, j) => match copy_string(bytes, i, j) {
                        Some(s) => {
                            msg.subscription_id = s;
                        },
                        None => {
                            return None;
                        },
                    },
                    _ => {
                        return None;
                    },
                }
            } else if tag == 18 {
                match value {
                    FieldValue::Bytes(i, j) => {
                        let b = copy_bytes(bytes, i, j);
                        let ghost bv = b@;
                        msg.processed_event_ids.push(b);
                        assert(msg@.processed_event_ids =~= old_msg.processed_event_ids.push(bv));
                    },
                    _ => {
                        return None;
                    },
                }
            } else if tag == 26 {
                match value {
                    FieldValue::Bytes(i, j) => match copy_string(bytes, i, j) {
                        Some(s) => {
                            msg.message = Some(s);
                        },
                        None => {
                            return None;
                        },
                    },
                    _ => {
                        return None;
                    },
                }
            } else if tag == 32 {
                match value {
                    FieldValue::Varint(v) => {
                        msg.action = NakAction::from_i32(varint_i32(v));
                    },
                    _ => {
                        return None;
                    },
                }
            }
            assert(persistent_subscription_nak_events_apply(old_msg, f) == Some(msg@));
            pos = next;
        }
        assert(bytes@.skip(pos as int).len() == 0);
        Some(msg)
    }

    /// A `PersistentSubscriptionNakEvents` with every field at its default.
    pub fn default_value() -> (m: PersistentSubscriptionNakEvents)
        ensures
            m@ == persistent_subscription_nak_events_default(),
    {
        let m = PersistentSubscriptionNakEvents {
            subscription_id: String::new(),
            processed_event_ids: Vec::new(),
            message: None,
            action: NakAction::Unknown,
        };
        assert(m@.processed_event_ids =~= Seq::empty());
        m
    }

    /// A copy of this `PersistentSubscriptionNakEvents`.
    pub fn copy(&self) -> (c: PersistentSubscriptionNakEvents)
        ensures
            c@ == self@,
    {
        let mut processed_event_ids: Vec<Vec<u8>> = Vec::new();
        let mut k: usize = 0;
        while k < self.processed_event_ids.len()
            invariant
                k <= self.processed_event_ids@.len(),
                processed_event_ids@.map_values(|e: Vec<u8>| e@) =~= self@.processed_event_ids.take(k as int),
            decreases self.processed_event_ids@.len() - k,
        {
            let e = slice_to_vec(self.processed_event_ids[k].as_slice());
            processed_event_ids.push(e);
            assert(self@.processed_event_ids.take(k + 1) =~= self@.processed_event_ids.take(k as int).push(e@));
            k = k + 1;
        }
        assert(self@.processed_event_ids.take(k as int) =~= self@.processed_event_ids);
        let c = PersistentSubscriptionNakEvents {
            subscription_id: self.subscription_id.clone(),
            processed_event_ids: processed_event_ids,
            message: match &self.message {
                Some(x) => Some(x.clone()),
                None => None,
            },
            action: self.action,
        };
        assert(c@.subscription_id =~= self@.subscription_id);
        assert(c@.processed_event_ids =~= self@.processed_event_ids);
        assert(c@.message =~= self@.message);
        c
    }

    /// Encodes this `PersistentSubscriptionNakEvents` as protobuf bytes.
    #[verifier::spinoff_prover]
    #[verifier::rlimit(30)]
    pub fn encode(&self) -> (out: Vec<u8>)
        ensures
            out@ == persistent_subscription_nak_events_encode(self@),
            out@.len() < modulus32() ==> persistent_subscription_nak_events_wf(self@),
    {
        let mut out: Vec<u8> = Vec::new();
        let ghost mut fs: Seq<WireField> = Seq::empty();
        write_bytes_field(&mut out, 10, self.subscription_id.as_str().as_bytes());
        proof {
            let f = WireField { tag: 10, value: WireValue::Bytes(encode_utf8(self.subscription_id@)) };
            lemma_encode_fields_push(fs, f);
            lemma_fields_shaped_push(fs, f);
            fs = fs.push(f);
        }
        let ghost fs0 = fs;
        let ghost out_len0 = out@.len();
        let mut k: usize = 0;
        assert(self@.processed_event_ids.take(0) =~= Seq::empty());
        assert(fs0 + persistent_subscription_nak_events_processed_event_ids_fields(self@.processed_event_ids.take(0)) =~= fs0);
        while k < self.processed_event_ids.len()
            invariant
                k <= self.processed_event_ids@.len(),
                out@ == encode_fields(fs),
                fields_shaped(fs),
                out@.len() >= out_len0,
                fs == fs0 + persistent_subscription_nak_events_processed_event_ids_fields(self@.processed_event_ids.take(k as int)),
            decreases self.processed_event_ids@.len() - k,
        {
            write_bytes_field(&mut out, 18, self.processed_event_ids[k].as_slice());
            proof {
                let f = WireField { tag: 18, value: WireValue::Bytes(self.processed_event_ids@[k as int]@) };
                lemma_encode_fields_push(fs, f);
                lemma_fields_shaped_push(fs, f);
                fs = fs.push(f);
                assert(self@.processed_event_ids[k as int] == self.processed_event_ids@[k as int]@);
                assert(persistent_subscription_nak_events_processed_event_ids_fields(self@.processed_event_ids.take(k + 1)) =~= persistent_subscription_nak_events_processed_event_ids_fields(
                    self@.processed_event_ids.take(k as int),
                ).push(f));
                assert(fs =~= fs0 + persistent_subscription_nak_events_processed_event_ids_fields(self@.processed_event_ids.take(k + 1)));
            }
            k = k + 1;
        }
        assert(self@.processed_event_ids.take(k as int) =~= self@.processed_event_ids);
        match &self.message {
            Some(x) => {
                write_bytes_field(&mut out, 26, x.as_str().as_bytes());
                proof {
                    let f = WireField { tag: 26, value: WireValue::Bytes(encode_utf8(x@)) };
                    lemma_encode_fields_push(fs, f);
                    lemma_fields_shaped_push(fs, f);
                    fs = fs.push(f);
                }
            },
            None => {},
        }
        if self.action != NakAction::Unknown {
            write_varint_field(&mut out, 32, i32_varint(self.action.to_i32()));
            proof {
                let f = WireField { tag: 32, value: WireValue::Varint(varint_of_i32(self.action.to_i32_spec())) };
                lemma_encode_fields_push(fs, f);
                lemma_fields_shaped_push(fs, f);
                fs = fs.push(f);
            }
        }
        assert(fs =~= persistent_subscription_nak_events_fields(self@));
        proof {
            if out@.len() < modulus32() {
                lemma_fields_canonical_of_len(fs);
            }
        }
        out
    }

    /// The number of bytes of the encoding of this `PersistentSubscriptionNakEvents`, computed without encoding it.
    #[verifier::spinoff_prover]
    #[verifier::rlimit(30)]
    pub fn get_size(&self) -> (n: usize)
        requires
            persistent_subscription_nak_events_encode(self@).len() <= usize::MAX,
        ensures
            n == persistent_subscription_nak_events_encode(self@).len(),
    {
        let ghost m = self@;
        proof {
            lemma_encode_fields_append(
                (seq![WireField { tag: 10, value: WireValue::Bytes(encode_utf8(m.subscription_id)) }]),
                (persistent_subscription_nak_events_processed_event_ids_fields(m.processed_event_ids)) + ((match m.message {
                    Some(x) => seq![WireField { tag: 26, value: WireValue::Bytes(encode_utf8(x)) }],
                    None => Seq::<WireField>::empty(),
                }) + ((if m.action != NakAction::Unknown {
                    seq![WireField { tag: 32, value: WireValue::Varint(varint_of_i32(m.action.to_i32_spec())) }]
                } else {
                    Seq::<WireField>::empty()
                }))),
            );
            lemma_encode_fields_append(
                (persistent_subscription_nak_events_processed_event_ids_fields(m.processed_event_ids)),
                (match m.message {
                    Some(x) => seq![WireField { tag: 26, value: WireValue::Bytes(encode_utf8(x)) }],
                    None => Seq::<WireField>::empty(),
                }) + ((if m.action != NakAction::Unknown {
                    seq![WireField { tag: 32, value: WireValue::Varint(varint_of_i32(m.action.to_i32_spec())) }]
                } else {
                    Seq::<WireField>::empty()
                })),
            );
            lemma_encode_fields_append(
                (match m.message {
                    Some(x) => seq![WireField { tag: 26, value: WireValue::Bytes(encode_utf8(x)) }],
                    None => Seq::<WireField>::empty(),
                }),
                (if m.action != NakAction::Unknown {
                    seq![WireField { tag: 32, value: WireValue::Varint(varint_of_i32(m.action.to_i32_spec())) }]
                } else {
                    Seq::<WireField>::empty()
                }),
            );
        }
        let mut n: usize = 0;
        let s3: usize = if self.action != NakAction::Unknown {
            proof {
                lemma_encode_fields_one(WireField { tag: 32, value: WireValue::Varint(varint_of_i32(self.action.to_i32_spec())) });
            }
            sizeof_varint_field(32, i32_varint(self.action.to_i32()))
        } else {
            0
        };
        n = s3 + n;
        let s2: usize = match &self.message {
            Some(x) => {
                proof {
                    lemma_encode_fields_one(WireField { tag: 26, value: WireValue::Bytes(encode_utf8(x@)) });
                }
                sizeof_len_field(26, x.as_str().as_bytes().len())
            },
            None => 0,
        };
        n = s2 + n;
        let mut s1: usize = 0;
        let mut k1: usize = 0;
        assert(persistent_subscription_nak_events_processed_event_ids_fields(m.processed_event_ids.take(0)) =~= Seq::<WireField>::empty());
        while k1 < self.processed_event_ids.len()
            invariant
                m == self@,
                k1 <= self.processed_event_ids@.len(),
                s1 == encode_fields(persistent_subscription_nak_events_processed_event_ids_fields(m.processed_event_ids.take(k1 as int))).len(),
                encode_fields(persistent_subscription_nak_events_processed_event_ids_fields(m.processed_event_ids)).len() <= usize::MAX,
            decreases self.processed_event_ids@.len() - k1,
        {
            let ghost f = WireField { tag: 18, value: WireValue::Bytes(m.processed_event_ids[k1 as int]) };
            proof {
                assert(persistent_subscription_nak_events_processed_event_ids_fields(m.processed_event_ids.take(k1 + 1)) =~= persistent_subscription_nak_events_processed_event_ids_fields(m.processed_event_ids.take(k1 as int)).push(f));
                lemma_encode_fields_push(persistent_subscription_nak_events_processed_event_ids_fields(m.processed_event_ids.take(k1 as int)), f);
                assert(persistent_subscription_nak_events_processed_event_ids_fields(m.processed_event_ids.take(k1 + 1)) =~= persistent_subscription_nak_events_processed_event_ids_fields(m.processed_event_ids).take(k1 + 1));
                lemma_encode_fields_take_len(persistent_subscription_nak_events_processed_event_ids_fields(m.processed_event_ids), k1 + 1);
                assert(m.processed_event_ids[k1 as int] == self.processed_event_ids@[k1 as int]@);
            }
            let x = sizeof_len_field(18, self.processed_event_ids[k1].len());
            s1 = s1 + x;
            k1 = k1 + 1;
        }
        assert(m.processed_event_ids.take(k1 as int) =~= m.processed_event_ids);
        n = s1 + n;
        let s0: usize = {
            proof {
                lemma_encode_fields_one(WireField { tag: 10, value: WireValue::Bytes(encode_utf8(m.subscription_id)) });
            }
            sizeof_len_field(10, self.subscription_id.as_str().as_bytes().len())
        };
        n = s0 + n;
        n
    }
}

/// Confirmation of a connection to a persistent subscription.
#[derive(Debug, Clone, PartialEq)]
pub struct PersistentSubscriptionConfirmation {
    /// The last commit position
    pub last_commit_position: i64,
    /// The subscription
    pub subscription_id: String,
    /// The last event number
    pub last_event_number: Option<i32>,
}

/// The contents of a `PersistentSubscriptionConfirmation`.
pub struct PersistentSubscriptionConfirmationModel {
    pub last_commit_position: i64,
    pub subscription_id: Seq<char>,
    pub last_event_number: Option<i32>,
}

impl View for PersistentSubscriptionConfirmation {
    type V = PersistentSubscriptionConfirmationModel;

    open spec fn view(&self) -> PersistentSubscriptionConfirmationModel {
        PersistentSubscriptionConfirmationModel {
            last_commit_position: self.last_commit_position,
            subscription_id: self.subscription_id@,
            last_event_number: self.last_event_number,
        }
    }
}

/// A `PersistentSubscriptionConfirmation` with every field at its default.
pub open spec fn persistent_subscription_confirmation_default() -> PersistentSubscriptionConfirmationModel {
    PersistentSubscriptionConfirmationModel {
        last_commit_position: 0,
        subscription_id: Seq::empty(),
        last_event_number: None,
    }
}

/// Folds one field into a `PersistentSubscriptionConfirmation`; fields of unknown tags are skipped.
pub open spec fn persistent_subscription_confirmation_apply(m: PersistentSubscriptionConfirmationModel, f: WireField) -> Option<PersistentSubscriptionConfirmationModel> {
    if f.tag == 8 {
        match f.value {
            WireValue::Varint(v) => Some(PersistentSubscriptionConfirmationModel { last_commit_position: i64_of_varint(v), ..m }),
            _ => None,
        }
    } else {
        if f.tag == 18 {
            match f.value {
                WireValue::Bytes(b) => match string_of(b) {
                    Some(s) => Some(PersistentSubscriptionConfirmationModel { subscription_id: s, ..m }),
                    None => None,
                },
                _ => None,
            }
        } else {
            if f.tag == 24 {
                match f.value {
                    WireValue::Varint(v) => Some(PersistentSubscriptionConfirmationModel { last_event_number: Some(i32_of_varint(v)), ..m }),
                    _ => None,
                }
            } else {
                Some(m)
            }
        }
    }
}

/// `persistent_subscription_confirmation_apply` as a value.
pub open spec fn persistent_subscription_confirmation_applier() -> spec_fn(PersistentSubscriptionConfirmationModel, WireField) -> Option<PersistentSubscriptionConfirmationModel> {
    |m: PersistentSubscriptionConfirmationModel, f: WireField| persistent_subscription_confirmation_apply(m, f)
}

/// The tags of the fields that a `PersistentSubscriptionConfirmation` reads; the others are skipped.
pub open spec fn persistent_subscription_confirmation_known() -> spec_fn(u32) -> bool {
    |t: u32| t == 8 || t == 18 || t == 24
}

/// The `PersistentSubscriptionConfirmation` that `bytes` encode, if they encode one.
pub open spec fn persistent_subscription_confirmation_decode(bytes: Seq<u8>) -> Option<PersistentSubscriptionConfirmationModel> {
    decode_fields(bytes, persistent_subscription_confirmation_default(), persistent_subscription_confirmation_applier(), persistent_subscription_confirmation_known())
}

/// The fields that encode a `PersistentSubscriptionConfirmation`, in the order they are written.
pub open spec fn persistent_subscription_confirmation_fields(m: PersistentSubscriptionConfirmationModel) -> Seq<WireField> {
    (seq![WireField { tag: 8, value: WireValue::Varint(varint_of_i64(m.last_commit_position)) }]) + ((seq![WireField { tag: 18, value: WireValue::Bytes(encode_utf8(m.subscription_id)) }]) + ((match m.last_event_number {
        Some(x) => seq![WireField { tag: 24, value: WireValue::Varint(varint_of_i32(x)) }],
        None => Seq::<WireField>::empty(),
    })))
}

/// The encoding of a `PersistentSubscriptionConfirmation`.
pub open spec fn persistent_subscription_confirmation_encode(m: PersistentSubscriptionConfirmationModel) -> Seq<u8> {
    encode_fields(persistent_subscription_confirmation_fields(m))
}

/// A `PersistentSubscriptionConfirmation` that reads back as written: every length-delimited field, those of the
/// embedded messages included, holds fewer than 2^32 bytes.
pub open spec fn persistent_subscription_confirmation_wf(m: PersistentSubscriptionConfirmationModel) -> bool {
    fields_short(persistent_subscription_confirmation_fields(m))
}

/// The fields of a `PersistentSubscriptionConfirmation` carry the wire types of their payloads.
pub proof fn lemma_persistent_subscription_confirmation_fields_tagged(m: PersistentSubscriptionConfirmationModel)
    ensures
        fields_tagged(persistent_subscription_confirmation_fields(m)),
{
    assert(fields_tagged((match m.last_event_number {
        Some(x) => seq![WireField { tag: 24, value: WireValue::Varint(varint_of_i32(x)) }],
        None => Seq::<WireField>::empty(),
    })));
    assert(fields_tagged((seq![WireField { tag: 18, value: WireValue::Bytes(encode_utf8(m.subscription_id)) }])));
    lemma_fields_tagged_append(
        (seq![WireField { tag: 18, value: WireValue::Bytes(encode_utf8(m.subscription_id)) }]),
        (match m.last_event_number {
            Some(x) => seq![WireField { tag: 24, value: WireValue::Varint(varint_of_i32(x)) }],
            None => Seq::<WireField>::empty(),
        }),
    );
    assert(fields_tagged((seq![WireField { tag: 8, value: WireValue::Varint(varint_of_i64(m.last_commit_position)) }])));
    lemma_fields_tagged_append(
        (seq![WireField { tag: 8, value: WireValue::Varint(varint_of_i64(m.last_commit_position)) }]),
        (seq![WireField { tag: 18, value: WireValue::Bytes(encode_utf8(m.subscription_id)) }]) + ((match m.last_event_number {
            Some(x) => seq![WireField { tag: 24, value: WireValue::Varint(varint_of_i32(x)) }],
            None => Seq::<WireField>::empty(),
        })),
    );
}

/// The bytes of an encoded `PersistentSubscriptionConfirmation`: `last_commit_position` under tag 8, `subscription_id` under tag 18, `last_event_number` under tag 24, in this order; optional fields only
/// when present, repeated ones once per element.
pub proof fn lemma_persistent_subscription_confirmation_encode_layout(m: PersistentSubscriptionConfirmationModel)
    ensures
        persistent_subscription_confirmation_encode(m) == (varint_field_bytes(8, varint_of_i64(m.last_commit_position))) + ((bytes_field_bytes(18, encode_utf8(m.subscription_id))) + (((match m.last_event_number {
            Some(x) => varint_field_bytes(24, varint_of_i32(x)),
            None => Seq::<u8>::empty(),
        })))),
{
    lemma_encode_fields_append(
        (seq![WireField { tag: 8, value: WireValue::Varint(varint_of_i64(m.last_commit_position)) }]),
        (seq![WireField { tag: 18, value: WireValue::Bytes(encode_utf8(m.subscription_id)) }]) + ((match m.last_event_number {
            Some(x) => seq![WireField { tag: 24, value: WireValue::Varint(varint_of_i32(x)) }],
            None => Seq::<WireField>::empty(),
        })),
    );
    lemma_encode_fields_append(
        (seq![WireField { tag: 18, value: WireValue::Bytes(encode_utf8(m.subscription_id)) }]),
        (match m.last_event_number {
            Some(x) => seq![WireField { tag: 24, value: WireValue::Varint(varint_of_i32(x)) }],
            None => Seq::<WireField>::empty(),
        }),
    );
    lemma_varint_field_layout(8, varint_of_i64(m.last_commit_position));
    lemma_bytes_field_layout(18, encode_utf8(m.subscription_id));
    if let Some(x) = m.last_event_number {
        lemma_varint_field_layout(24, varint_of_i32(x));
    }
}

/// Reading a written `PersistentSubscriptionConfirmation` gives it back.
pub proof fn lemma_persistent_subscription_confirmation_roundtrip(m: PersistentSubscriptionConfirmationModel)
    requires
        persistent_subscription_confirmation_wf(m),
    ensures
        persistent_subscription_confirmation_decode(persistent_subscription_confirmation_encode(m)) == Some(m),
{
    let ap = persistent_subscription_confirmation_applier();
    lemma_persistent_subscription_confirmation_fields_tagged(m);
    lemma_fields_canonical_of_short(persistent_subscription_confirmation_fields(m));
    lemma_decode_encoded_fields(persistent_subscription_confirmation_fields(m), persistent_subscription_confirmation_default(), ap, persistent_subscription_confirmation_known());
    let a0 = persistent_subscription_confirmation_default();
    let a1 = PersistentSubscriptionConfirmationModel { last_commit_position: m.last_commit_position, ..a0 };
    lemma_apply_fields_append(
        (seq![WireField { tag: 8, value: WireValue::Varint(varint_of_i64(m.last_commit_position)) }]),
        (seq![WireField { tag: 18, value: WireValue::Bytes(encode_utf8(m.subscription_id)) }]) + ((match m.last_event_number {
            Some(x) => seq![WireField { tag: 24, value: WireValue::Varint(varint_of_i32(x)) }],
            None => Seq::<WireField>::empty(),
        })),
        a0,
        ap,
    );
    assert(apply_fields((seq![WireField { tag: 8, value: WireValue::Varint(varint_of_i64(m.last_commit_position)) }]), a0, ap) == Some(a1)) by {
        reveal_with_fuel(apply_fields, 2);
        lemma_scalar_roundtrips(0, m.last_commit_position, false);
    }
    let a2 = PersistentSubscriptionConfirmationModel { subscription_id: m.subscription_id, ..a1 };
    lemma_apply_fields_append(
        (seq![WireField { tag: 18, value: WireValue::Bytes(encode_utf8(m.subscription_id)) }]),
        (match m.last_event_number {
            Some(x) => seq![WireField { tag: 24, value: WireValue::Varint(varint_of_i32(x)) }],
            None => Seq::<WireField>::empty(),
        }),
        a1,
        ap,
    );
    assert(apply_fields((seq![WireField { tag: 18, value: WireValue::Bytes(encode_utf8(m.subscription_id)) }]), a1, ap) == Some(a2)) by {
        reveal_with_fuel(apply_fields, 2);
        lemma_string_roundtrip(m.subscription_id);
    }
    let a3 = PersistentSubscriptionConfirmationModel { last_event_number: m.last_event_number, ..a2 };
    assert(apply_fields((match m.last_event_number {
        Some(x) => seq![WireField { tag: 24, value: WireValue::Varint(varint_of_i32(x)) }],
        None => Seq::<WireField>::empty(),
    }), a2, ap) == Some(a3)) by {
        reveal_with_fuel(apply_fields, 2);
        if let Some(x) = m.last_event_number {
            lemma_scalar_roundtrips(x, 0, false);
        }
    }
    assert(a3 == m);
}

impl PersistentSubscriptionConfirmation {
    /// Decodes a `PersistentSubscriptionConfirmation` from its protobuf bytes.
    pub fn from_reader(bytes: &[u8]) -> (res: Option<PersistentSubscriptionConfirmation>)
        ensures
            persistent_subscription_confirmation_decode(bytes@) matches Some(m) ==> (res matches Some(e) && e@ == m),
            persistent_subscription_confirmation_decode(bytes@) is None ==> res is None,
    {
        let mut msg = PersistentSubscriptionConfirmation::default_value();
        let mut pos: usize = 0;
        assert(bytes@.skip(0) =~= bytes@);
        while pos < bytes.len()
            invariant
                pos <= bytes@.len(),
                persistent_subscription_confirmation_decode(bytes@) == decode_fields(bytes@.skip(pos as int), msg@, persistent_subscription_confirmation_applier(), persistent_subscription_confirmation_known()),
            decreases bytes@.len() - pos,
        {
            let ghost old_msg = msg@;
            let (tag, p) = match read_tag(bytes, pos) {
                Some(x) => x,
                None => {
                    return None;
                },
            };
            proof {
                lemma_field_parts(bytes@, pos as int, persistent_subscription_confirmation_known());
            }
            let known: bool = tag == 8 || tag == 18 || tag == 24;
            let (value, next) = match read_value(bytes, p, tag, known) {
                Some(x) => x,
                None => {
                    return None;
                },
            };
            let ghost f = parse_field(bytes@.skip(pos as int), persistent_subscription_confirmation_known()).unwrap().0;
            proof {
                lemma_decode_step(bytes@, pos as int, old_msg, persistent_subscription_confirmation_applier(), persistent_subscription_confirmation_known());
                lemma_parse_field_len(bytes@.skip(pos as int), persistent_subscription_confirmation_known());
            }
            if tag == 8 {
                match value {
                    FieldValue::Varint(v) => {
                        msg.last_commit_position = varint_i64(v);
                    },
                    _ => {
                        return None;
                    },
                }
            } else if tag == 18 {
                match value {
                    FieldValue::Bytes(i, j) => match copy_string(bytes, i, j) {
                        Some(s) => {
                            msg.subscription_id = s;
                        },
                        None => {
                            return None;
                        },
                    },
                    _ => {
                        return None;
                    },
                }
            } else if tag == 24 {
                match value {
                    FieldValue::Varint(v) => {
                        msg.last_event_number = Some(varint_i32(v));
                    },
                    _ => {
                        return None;
                    },
                }
            }
            assert(persistent_subscription_confirmation_apply(old_msg, f) == Some(msg@));
            pos = next;
        }
        assert(bytes@.skip(pos as int).len() == 0);
        Some(msg)
    }

    /// A `PersistentSubscriptionConfirmation` with every field at its default.
    pub fn default_value() -> (m: PersistentSubscriptionConfirmation)
        ensures
            m@ == persistent_subscription_confirmation_default(),
    {
        let m = PersistentSubscriptionConfirmation {
            last_commit_position: 0,
            subscription_id: String::new(),
            last_event_number: None,
        };
        m
    }

    /// A copy of this `PersistentSubscriptionConfirmation`.
    pub fn copy(&self) -> (c: PersistentSubscriptionConfirmation)
        ensures
            c@ == self@,
    {
        let c = PersistentSubscriptionConfirmation {
            last_commit_position: self.last_commit_position,
            subscription_id: self.subscription_id.clone(),
            last_event_number: self.last_event_number,
        };
        assert(c@.subscription_id =~= self@.subscription_id);
        c
    }

    /// Encodes this `PersistentSubscriptionConfirmation` as protobuf bytes.
    #[verifier::spinoff_prover]
    #[verifier::rlimit(30)]
    pub fn encode(&self) -> (out: Vec<u8>)
        ensures
            out@ == persistent_subscription_confirmation_encode(self@),
            out@.len() < modulus32() ==> persistent_subscription_confirmation_wf(self@),
    {
        let mut out: Vec<u8> = Vec::new();
        let ghost mut fs: Seq<WireField> = Seq::empty();
        write_varint_field(&mut out, 8, i64_varint(self.last_commit_position));
        proof {
            let f = WireField { tag: 8, value: WireValue::Varint(varint_of_i64(self.last_commit_position)) };
            lemma_encode_fields_push(fs, f);
            lemma_fields_shaped_push(fs, f);
            fs = fs.push(f);
        }
        write_bytes_field(&mut out, 18, self.subscription_id.as_str().as_bytes());
        proof {
            let f = WireField { tag: 18, value: WireValue::Bytes(encode_utf8(self.subscription_id@)) };
            lemma_encode_fields_push(fs, f);
            lemma_fields_shaped_push(fs, f);
            fs = fs.push(f);
        }
        match self.last_event_number {
            Some(x) => {
                write_varint_field(&mut out, 24, i32_varint(x));
                proof {
                    let f = WireField { tag: 24, value: WireValue::Varint(varint_of_i32(x)) };
                    lemma_encode_fields_push(fs, f);
                    lemma_fields_shaped_push(fs, f);
                    fs = fs.push(f);
                }
            },
            None => {},
        }
        assert(fs =~= persistent_subscription_confirmation_fields(self@));
        proof {
            if out@.len() < modulus32() {
                lemma_fields_canonical_of_len(fs);
            }
        }
        out
    }

    /// The number of bytes of the encoding of this `PersistentSubscriptionConfirmation`, computed without encoding it.
    #[verifier::spinoff_prover]
    #[verifier::rlimit(30)]
    pub fn get_size(&self) -> (n: usize)
        requires
            persistent_subscription_confirmation_encode(self@).len() <= usize::MAX,
        ensures
            n == persistent_subscription_confirmation_encode(self@).len(),
    {
        let ghost m = self@;
        proof {
            lemma_encode_fields_append(
                (seq![WireField { tag: 8, value: WireValue::Varint(varint_of_i64(m.last_commit_position)) }]),
                (seq![WireField { tag: 18, value: WireValue::Bytes(encode_utf8(m.subscription_id)) }]) + ((match m.last_event_number {
                    Some(x) => seq![WireField { tag: 24, value: WireValue::Varint(varint_of_i32(x)) }],
                    None => Seq::<WireField>::empty(),
                })),
            );
            lemma_encode_fields_append(
                (seq![WireField { tag: 18, value: WireValue::Bytes(encode_utf8(m.subscription_id)) }]),
                (match m.last_event_number {
                    Some(x) => seq![WireField { tag: 24, value: WireValue::Varint(varint_of_i32(x)) }],
                    None => Seq::<WireField>::empty(),
                }),
            );
        }
        let mut n: usize = 0;
        let s2: usize = match self.last_event_number {
            Some(x) => {
                proof {
                    lemma_encode_fields_one(WireField { tag: 24, value: WireValue::Varint(varint_of_i32(x)) });
                }
                sizeof_varint_field(24, i32_varint(x))
            },
            None => 0,
        };
        n = s2 + n;
        let s1: usize = {
            proof {
                lemma_encode_fields_one(WireField { tag: 18, value: WireValue::Bytes(encode_utf8(m.subscription_id)) });
            }
            sizeof_len_field(18, self.subscription_id.as_str().as_bytes().len())
        };
        n = s1 + n;
        let s0: usize = {
            proof {
                lemma_encode_fields_one(WireField { tag: 8, value: WireValue::Varint(varint_of_i64(m.last_commit_position)) });
            }
            sizeof_varint_field(8, i64_varint(self.last_commit_position))
        };
        n = s0 + n;
        n
    }
}

/// An event handed out by a persistent subscription.
#[derive(Debug, Clone, PartialEq)]
pub struct PersistentSubscriptionStreamEventAppeared {
    /// The event
    pub event: ResolvedIndexedEvent,
}

/// The contents of a `PersistentSubscriptionStreamEventAppeared`.
pub struct PersistentSubscriptionStreamEventAppearedModel {
    pub event: ResolvedIndexedEventModel,
}

impl View for PersistentSubscriptionStreamEventAppeared {
    type V = PersistentSubscriptionStreamEventAppearedModel;

    open spec fn view(&self) -> PersistentSubscriptionStreamEventAppearedModel {
        PersistentSubscriptionStreamEventAppearedModel {
            event: self.event@,
        }
    }
}

/// A `PersistentSubscriptionStreamEventAppeared` with every field at its default.
pub open spec fn persistent_subscription_stream_event_appeared_default() -> PersistentSubscriptionStreamEventAppearedModel {
    PersistentSubscriptionStreamEventAppearedModel {
        event: resolved_indexed_event_default(),
    }
}

/// Folds one field into a `PersistentSubscriptionStreamEventAppeared`; fields of unknown tags are skipped.
pub open spec fn persistent_subscription_stream_event_appeared_apply(m: PersistentSubscriptionStreamEventAppearedModel, f: WireField) -> Option<PersistentSubscriptionStreamEventAppearedModel> {
    if f.tag == 10 {
        match f.value {
            WireValue::Bytes(b) => match resolved_indexed_event_decode(b) {
                Some(s) => Some(PersistentSubscriptionStreamEventAppearedModel { event: s, ..m }),
                None => None,
            },
            _ => None,
        }
    } else {
        Some(m)
    }
}

/// `persistent_subscription_stream_event_appeared_apply` as a value.
pub open spec fn persistent_subscription_stream_event_appeared_applier() -> spec_fn(PersistentSubscriptionStreamEventAppearedModel, WireField) -> Option<PersistentSubscriptionStreamEventAppearedModel> {
    |m: PersistentSubscriptionStreamEventAppearedModel, f: WireField| persistent_subscription_stream_event_appeared_apply(m, f)
}

/// The tags of the fields that a `PersistentSubscriptionStreamEventAppeared` reads; the others are skipped.
pub open spec fn persistent_subscription_stream_event_appeared_known() -> spec_fn(u32) -> bool {
    |t: u32| t == 10
}

/// The `PersistentSubscriptionStreamEventAppeared` that `bytes` encode, if they encode one.
pub open spec fn persistent_subscription_stream_event_appeared_decode(bytes: Seq<u8>) -> Option<PersistentSubscriptionStreamEventAppearedModel> {
    decode_fields(bytes, persistent_subscription_stream_event_appeared_default(), persistent_subscription_stream_event_appeared_applier(), persistent_subscription_stream_event_appeared_known())
}

/// The fields that encode a `PersistentSubscriptionStreamEventAppeared`, in the order they are written.
pub open spec fn persistent_subscription_stream_event_appeared_fields(m: PersistentSubscriptionStreamEventAppearedModel) -> Seq<WireField> {
    (seq![WireField { tag: 10, value: WireValue::Bytes(resolved_indexed_event_encode(m.event)) }])
}

/// The encoding of a `PersistentSubscriptionStreamEventAppeared`.
pub open spec fn persistent_subscription_stream_event_appeared_encode(m: PersistentSubscriptionStreamEventAppearedModel) -> Seq<u8> {
    encode_fields(persistent_subscription_stream_event_appeared_fields(m))
}

/// A `PersistentSubscriptionStreamEventAppeared` that reads back as written: every length-delimited field, those of the
/// embedded messages included, holds fewer than 2^32 bytes.
pub open spec fn persistent_subscription_stream_event_appeared_wf(m: PersistentSubscriptionStreamEventAppearedModel) -> bool {
    fields_short(persistent_subscription_stream_event_appeared_fields(m))
    && resolved_indexed_event_wf(m.event)
}

/// The fields of a `PersistentSubscriptionStreamEventAppeared` carry the wire types of their payloads.
pub proof fn lemma_persistent_subscription_stream_event_appeared_fields_tagged(m: PersistentSubscriptionStreamEventAppearedModel)
    ensures
        fields_tagged(persistent_subscription_stream_event_appeared_fields(m)),
{
    assert(fields_tagged((seq![WireField { tag: 10, value: WireValue::Bytes(resolved_indexed_event_encode(m.event)) }])));
}

/// The bytes of an encoded `PersistentSubscriptionStreamEventAppeared`: `event` under tag 10, in this order; optional fields only
/// when present, repeated ones once per element.
pub proof fn lemma_persistent_subscription_stream_event_appeared_encode_layout(m: PersistentSubscriptionStreamEventAppearedModel)
    ensures
        persistent_subscription_stream_event_appeared_encode(m) == (bytes_field_bytes(10, resolved_indexed_event_encode(m.event))),
{
    lemma_bytes_field_layout(10, resolved_indexed_event_encode(m.event));
}

/// Reading a written `PersistentSubscriptionStreamEventAppeared` gives it back.
pub proof fn lemma_persistent_subscription_stream_event_appeared_roundtrip(m: PersistentSubscriptionStreamEventAppearedModel)
    requires
        persistent_subscription_stream_event_appeared_wf(m),
    ensures
        persistent_subscription_stream_event_appeared_decode(persistent_subscription_stream_event_appeared_encode(m)) == Some(m),
{
    let ap = persistent_subscription_stream_event_appeared_applier();
    lemma_persistent_subscription_stream_event_appeared_fields_tagged(m);
    lemma_fields_canonical_of_short(persistent_subscription_stream_event_appeared_fields(m));
    lemma_decode_encoded_fields(persistent_subscription_stream_event_appeared_fields(m), persistent_subscription_stream_event_appeared_default(), ap, persistent_subscription_stream_event_appeared_known());
    let a0 = persistent_subscription_stream_event_appeared_default();
    let a1 = PersistentSubscriptionStreamEventAppearedModel { event: m.event, ..a0 };
    assert(apply_fields((seq![WireField { tag: 10, value: WireValue::Bytes(resolved_indexed_event_encode(m.event)) }]), a0, ap) == Some(a1)) by {
        reveal_with_fuel(apply_fields, 2);
        lemma_resolved_indexed_event_roundtrip(m.event);
    }
    assert(a1 == m);
}

impl PersistentSubscriptionStreamEventAppeared {
    /// Decodes a `PersistentSubscriptionStreamEventAppeared` from its protobuf bytes.
    pub fn from_reader(bytes: &[u8]) -> (res: Option<PersistentSubscriptionStreamEventAppeared>)
        ensures
            persistent_subscription_stream_event_appeared_decode(bytes@) matches Some(m) ==> (res matches Some(e) && e@ == m),
            persistent_subscription_stream_event_appeared_decode(bytes@) is None ==> res is None,
    {
        let mut msg = PersistentSubscriptionStreamEventAppeared::default_value();
        let mut pos: usize = 0;
        assert(bytes@.skip(0) =~= bytes@);
        while pos < bytes.len()
            invariant
                pos <= bytes@.len(),
                persistent_subscription_stream_event_appeared_decode(bytes@) == decode_fields(bytes@.skip(pos as int), msg@, persistent_subscription_stream_event_appeared_applier(), persistent_subscription_stream_event_appeared_known()),
            decreases bytes@.len() - pos,
        {
            let ghost old_msg = msg@;
            let (tag, p) = match read_tag(bytes, pos) {
                Some(x) => x,
                None => {
                    return None;
                },
            };
            proof {
                lemma_field_parts(bytes@, pos as int, persistent_subscription_stream_event_appeared_known());
            }
            let known: bool = tag == 10;
            let (value, next) = match read_value(bytes, p, tag, known) {
                Some(x) => x,
                None => {
                    return None;
                },
            };
            let ghost f = parse_field(bytes@.skip(pos as int), persistent_subscription_stream_event_appeared_known()).unwrap().0;
            proof {
                lemma_decode_step(bytes@, pos as int, old_msg, persistent_subscription_stream_event_appeared_applier(), persistent_subscription_stream_event_appeared_known());
                lemma_parse_field_len(bytes@.skip(pos as int), persistent_subscription_stream_event_appeared_known());
            }
            if tag == 10 {
                match value {
                    FieldValue::Bytes(i, j) => match ResolvedIndexedEvent::from_reader(slice_subrange(bytes, i, j)) {
                        Some(s) => {
                            msg.event = s;
                        },
                        None => {
                            return None;
                        },
                    },
                    _ => {
                        return None;
                    },
                }
            }
            assert(persistent_subscription_stream_event_appeared_apply(old_msg, f) == Some(msg@));
            pos = next;
        }
        assert(bytes@.skip(pos as int).len() == 0);
        Some(msg)
    }

    /// A `PersistentSubscriptionStreamEventAppeared` with every field at its default.
    pub fn default_value() -> (m: PersistentSubscriptionStreamEventAppeared)
        ensures
            m@ == persistent_subscription_stream_event_appeared_default(),
    {
        let m = PersistentSubscriptionStreamEventAppeared {
            event: ResolvedIndexedEvent::default_value(),
        };
        m
    }

    /// A copy of this `PersistentSubscriptionStreamEventAppeared`.
    pub fn copy(&self) -> (c: PersistentSubscriptionStreamEventAppeared)
        ensures
            c@ == self@,
    {
        let c = PersistentSubscriptionStreamEventAppeared {
            event: self.event.copy(),
        };
        c
    }

    /// Encodes this `PersistentSubscriptionStreamEventAppeared` as protobuf bytes.
    #[verifier::spinoff_prover]
    #[verifier::rlimit(30)]
    pub fn encode(&self) -> (out: Vec<u8>)
        ensures
            out@ == persistent_subscription_stream_event_appeared_encode(self@),
            out@.len() < modulus32() ==> persistent_subscription_stream_event_appeared_wf(self@),
    {
        let mut out: Vec<u8> = Vec::new();
        let ghost mut fs: Seq<WireField> = Seq::empty();
        let sub = self.event.encode();
        write_bytes_field(&mut out, 10, sub.as_slice());
        proof {
            let f = WireField { tag: 10, value: WireValue::Bytes(resolved_indexed_event_encode(self.event@)) };
            lemma_encode_fields_push(fs, f);
            lemma_fields_shaped_push(fs, f);
            fs = fs.push(f);
        }
        assert(fs =~= persistent_subscription_stream_event_appeared_fields(self@));
        proof {
            if out@.len() < modulus32() {
                lemma_fields_canonical_of_len(fs);
            }
        }
        out
    }

    /// The number of bytes of the encoding of this `PersistentSubscriptionStreamEventAppeared`, computed without encoding it.
    #[verifier::spinoff_prover]
    #[verifier::rlimit(30)]
    pub fn get_size(&self) -> (n: usize)
        requires
            persistent_subscription_stream_event_appeared_encode(self@).len() <= usize::MAX,
        ensures
            n == persistent_subscription_stream_event_appeared_encode(self@).len(),
    {
        let ghost m = self@;
        let mut n: usize = 0;
        let s0: usize = {
            proof {
                lemma_encode_fields_one(WireField { tag: 10, value: WireValue::Bytes(resolved_indexed_event_encode(m.event)) });
            }
            sizeof_len_field(10, self.event.get_size())
        };
        n = s0 + n;
        n
    }
}

} // verus!
