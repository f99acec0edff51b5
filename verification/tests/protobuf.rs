use eventstore_tcp::raw::client_messages::{
    CreatePersistentSubscription, PersistentSubscriptionNakEvents, NakAction,
    TransactionCommitCompleted, OperationResult, ScavengeDatabase, SubscriptionDropped,
    SubscriptionDropReason, ReadAllEventsCompleted, ReadAllResult, ResolvedEvent, EventRecord,
    WriteEvents, NewEvent, UpdatePersistentSubscriptionCompleted,
    UpdatePersistentSubscriptionResult, ResolvedIndexedEvent,
};
use eventstore_tcp::raw::RawMessage;
use eventstore_tcp::{CodecError, ReadDirection};

fn record() -> EventRecord {
    EventRecord {
        event_stream_id: "stream-é".to_string(),
        event_number: 7,
        event_id: vec![1; 16],
        event_type: "type".to_string(),
        data_content_type: 1,
        metadata_content_type: 0,
        data: b"{}".to_vec(),
        metadata: Some(vec![0xff, 0x00]),
        created: Some(-5),
        created_epoch: None,
    }
}

#[test]
fn persistent_subscription_roundtrip_with_two_byte_tag() {
    let m = CreatePersistentSubscription {
        subscription_group_name: "group".to_string(),
        event_stream_id: "stream".to_string(),
        resolve_link_tos: true,
        start_from: -1,
        message_timeout_milliseconds: 10000,
        record_statistics: false,
        live_buffer_size: 500,
        read_batch_size: 20,
        buffer_size: 500,
        max_retry_count: 10,
        prefer_round_robin: true,
        checkpoint_after_time: 1000,
        checkpoint_max_count: 500,
        checkpoint_min_count: 10,
        subscriber_max_count: 0,
        named_consumer_strategy: Some("RoundRobin".to_string()),
    };
    let bytes = m.encode();
    // field 16 of wire type 2 has the two byte key 0x82 0x01
    let tail = &bytes[bytes.len() - 13..];
    assert_eq!(&tail[..3], &[0x82, 0x01, 10]);
    assert_eq!(CreatePersistentSubscription::from_reader(&bytes), Some(m));
}

#[test]
fn repeated_bytes_roundtrip() {
    let m = PersistentSubscriptionNakEvents {
        subscription_id: "sub".to_string(),
        processed_event_ids: vec![vec![1, 2, 3], vec![], vec![9; 16]],
        message: None,
        action: NakAction::Retry,
    };
    let bytes = m.encode();
    assert_eq!(PersistentSubscriptionNakEvents::from_reader(&bytes), Some(m));
}

#[test]
fn default_enum_is_not_written() {
    let m = UpdatePersistentSubscriptionCompleted {
        result: UpdatePersistentSubscriptionResult::Success,
        reason: None,
    };
    assert_eq!(m.encode(), Vec::<u8>::new());
    let d = SubscriptionDropped { reason: SubscriptionDropReason::NotFound };
    assert_eq!(d.encode(), vec![8, 2]);
    assert_eq!(SubscriptionDropped::from_reader(&[8, 2]), Some(d));
}

#[test]
fn empty_message_roundtrip() {
    let m = ScavengeDatabase {};
    assert_eq!(m.encode(), Vec::<u8>::new());
    assert_eq!(ScavengeDatabase::from_reader(&[]), Some(ScavengeDatabase {}));
    // unknown fields are skipped
    assert_eq!(ScavengeDatabase::from_reader(&[8, 1]), Some(ScavengeDatabase {}));
}

#[test]
fn negative_numbers_take_ten_bytes() {
    let m = TransactionCommitCompleted {
        transaction_id: -1,
        result: Some(OperationResult::Success),
        message: None,
        first_event_number: 0,
        last_event_number: -1,
        prepare_position: None,
        commit_position: Some(1),
    };
    let bytes = m.encode();
    assert_eq!(&bytes[..11], &[8, 0xff, 0xff, 0xff, 0xff, 0xff, 0xff, 0xff, 0xff, 0xff, 0x01]);
    assert_eq!(TransactionCommitCompleted::from_reader(&bytes), Some(m));
}

#[test]
fn nested_messages_roundtrip() {
    let m = ReadAllEventsCompleted {
        commit_position: 100,
        prepare_position: 90,
        events: vec![ResolvedEvent {
            event: record(),
            link: Some(record()),
            commit_position: 100,
            prepare_position: 90,
        }],
        next_commit_position: -1,
        next_prepare_position: -1,
        result: ReadAllResult::Success,
        error: None,
    };
    let bytes = m.encode();
    assert_eq!(ReadAllEventsCompleted::from_reader(&bytes), Some(m.clone()));
    let raw = RawMessage::ReadAllEventsCompleted(ReadDirection::Backward, m);
    assert_eq!(raw.discriminator(), 0xb9);
    assert_eq!(RawMessage::decode(0xb9, &raw.encode()), Ok(raw));
}

#[test]
fn invalid_utf8_string_is_refused() {
    // WriteEvents whose stream id holds the byte 0xff
    let bytes = [10, 1, 0xff];
    assert_eq!(WriteEvents::from_reader(&bytes), None);
    assert_eq!(RawMessage::decode(0x82, &bytes), Err(CodecError::InvalidMessage(0x82)));
}

#[test]
fn truncated_field_is_refused() {
    let m = WriteEvents {
        event_stream_id: "s".to_string(),
        expected_version: -2,
        events: vec![NewEvent {
            event_id: vec![0; 16],
            event_type: "t".to_string(),
            data_content_type: 0,
            metadata_content_type: 0,
            data: vec![1, 2, 3],
            metadata: None,
        }],
        require_master: false,
    };
    let bytes = m.encode();
    assert_eq!(WriteEvents::from_reader(&bytes), Some(m));
    assert_eq!(WriteEvents::from_reader(&bytes[..bytes.len() - 3]), None);
}

#[test]
fn unknown_discriminator_is_kept() {
    assert_eq!(RawMessage::decode(0x42, &[1, 2, 3]), Ok(RawMessage::Unsupported(0x42, vec![1, 2, 3])));
    assert_eq!(RawMessage::Unsupported(0x42, vec![1, 2, 3]).encode(), vec![1, 2, 3]);
}

#[test]
fn get_size_counts_every_byte() {
    let e = NewEvent {
        event_id: vec![7; 16],
        event_type: "a".to_string(),
        data_content_type: 0,
        metadata_content_type: 0,
        data: b"x".to_vec(),
        metadata: None,
    };
    // (1 + 1 + 16) + (1 + 1 + 1) + (1 + 1) + (1 + 1) + (1 + 1 + 1)
    assert_eq!(e.get_size(), 28);
    assert_eq!(e.get_size(), e.encode().len());
    // a negative int32 takes ten bytes on the wire
    let negative = NewEvent { data_content_type: -1, ..e.clone() };
    assert_eq!(negative.get_size(), 37);
    assert_eq!(negative.get_size(), negative.encode().len());
    let w = WriteEvents {
        event_stream_id: "s".to_string(),
        expected_version: -2,
        events: vec![e.clone(), negative],
        require_master: false,
    };
    assert_eq!(w.get_size(), w.encode().len());
    assert_eq!(record().get_size(), record().encode().len());
}

#[test]
fn get_size_of_nested_and_empty_messages() {
    assert_eq!(ScavengeDatabase {}.get_size(), 0);
    let m = ReadAllEventsCompleted {
        commit_position: 10,
        prepare_position: 9,
        events: vec![ResolvedEvent { event: record(), link: Some(record()), commit_position: 1, prepare_position: 2 }],
        next_commit_position: 300,
        next_prepare_position: 200,
        result: ReadAllResult::Success,
        error: Some("none".to_string()),
    };
    assert_eq!(m.get_size(), m.encode().len());
    let c = CreatePersistentSubscription {
        subscription_group_name: "group".to_string(),
        event_stream_id: "stream".to_string(),
        resolve_link_tos: true,
        start_from: -1,
        message_timeout_milliseconds: 10000,
        record_statistics: false,
        live_buffer_size: 500,
        read_batch_size: 20,
        buffer_size: 500,
        max_retry_count: 10,
        prefer_round_robin: true,
        checkpoint_after_time: 1000,
        checkpoint_max_count: 500,
        checkpoint_min_count: 10,
        subscriber_max_count: 0,
        named_consumer_strategy: Some("RoundRobin".to_string()),
    };
    assert_eq!(c.get_size(), c.encode().len());
}

#[test]
fn lengths_of_known_fields_are_read_modulo_two_to_the_32() {
    // field 5 (data) with a length varint of 2^32 + 1: one byte is read
    let bytes = [42u8, 0x81, 0x80, 0x80, 0x80, 0x10, 7];
    let e = NewEvent::from_reader(&bytes).unwrap();
    assert_eq!(e.data, vec![7]);
    assert_eq!(e.event_type, "");
    // the same length on a field the message does not know is too long to skip
    let bytes = [122u8, 0x81, 0x80, 0x80, 0x80, 0x10, 7];
    assert_eq!(NewEvent::from_reader(&bytes), None);
    // a short unknown field is skipped
    assert_eq!(NewEvent::from_reader(&[122u8, 1, 7, 42, 1, 9]).unwrap().data, vec![9]);
}

#[test]
fn embedded_field_running_past_its_message_is_refused() {
    // the embedded event record (3 bytes) holds a data field that claims 5 bytes; the bytes
    // after the record do not count towards it
    assert_eq!(ResolvedIndexedEvent::from_reader(&[10, 3, 58, 5, 1, 2, 3, 4, 5]), None);
    // the same record with a data field that fits is read
    let r = ResolvedIndexedEvent::from_reader(&[10, 3, 58, 1, 7]).unwrap();
    assert_eq!(r.event.data, vec![7]);
    assert_eq!(r.link, None);
}
