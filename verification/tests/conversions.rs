use eventstore_tcp::adapted::{
    range_from_parts, range_to_parts, AdaptedMessage, NotAuthenticatedMessage, ReadAllCompleted,
    ReadAllError, ReadEventError, ReadStreamCompleted, ReadStreamError, ResolvedEvent,
    WriteEventsFailure,
};
use eventstore_tcp::failures::{OperationFailure, ReadAllFailure, ReadEventFailure, ReadStreamFailure};
use eventstore_tcp::raw::client_messages::{
    EventRecord, NotHandled, OperationResult, ReadAllEventsCompleted, ReadAllResult,
    ReadEventCompleted, ReadEventResult, ReadStreamEventsCompleted, ReadStreamResult,
    ResolvedIndexedEvent,
};
use eventstore_tcp::raw::client_messages::ResolvedEvent as RawResolvedEvent;
use eventstore_tcp::raw::client_messages::WriteEventsCompleted as RawWriteEventsCompleted;
use eventstore_tcp::raw::{BadRequestPayload, NotAuthenticatedPayload, RawMessage};
use eventstore_tcp::{
    ErrorKind, EventNumber, LogPosition, ReadDirection, ResultStatusKind, StreamVersion,
};

fn record(n: i32) -> EventRecord {
    EventRecord {
        event_stream_id: "s".to_string(),
        event_number: n,
        event_id: vec![n as u8; 16],
        event_type: "t".to_string(),
        data_content_type: 0,
        metadata_content_type: 0,
        data: vec![1, 2],
        metadata: None,
        created: None,
        created_epoch: None,
    }
}

fn sv(n: i32) -> StreamVersion {
    StreamVersion::try_from(n).unwrap()
}

#[test]
fn range_parts() {
    let r = range_from_parts(3, 5).unwrap();
    assert_eq!(r, sv(3)..sv(6));
    assert_eq!(range_to_parts(&r), (3, 5));
    assert_eq!(range_to_parts(&(sv(0)..sv(0))), (0, -1));
    assert_eq!(range_from_parts(0, -1), Ok(sv(0)..sv(0)));
    assert_eq!(range_from_parts(-1, 5), Err(ErrorKind::InvalidStreamVersion(-1)));
    assert_eq!(range_from_parts(0, -3), Err(ErrorKind::InvalidStreamVersion(-2)));
    assert_eq!(range_from_parts(0, i32::MAX), Err(ErrorKind::InvalidStreamVersion(i32::MIN)));
}

#[test]
fn missing_results_are_errors() {
    let wec = RawWriteEventsCompleted {
        result: None,
        message: None,
        first_event_number: 0,
        last_event_number: 0,
        prepare_position: None,
        commit_position: None,
    };
    let raw = RawMessage::WriteEventsCompleted(wec);
    let (back, e) = AdaptedMessage::try_from(raw.clone()).unwrap_err();
    assert_eq!(back, raw);
    assert_eq!(e, ErrorKind::MissingResultField(ResultStatusKind::WriteEvents));

    let rec = ReadEventCompleted { result: None, event: ResolvedIndexedEvent::default_value(), error: None };
    assert_eq!(
        AdaptedMessage::try_from(RawMessage::ReadEventCompleted(rec)).unwrap_err().1,
        ErrorKind::MissingResultField(ResultStatusKind::ReadEvent)
    );

    let rsec = ReadStreamEventsCompleted::default_value();
    assert_eq!(
        AdaptedMessage::try_from(RawMessage::ReadStreamEventsCompleted(ReadDirection::Forward, rsec)).unwrap_err().1,
        ErrorKind::MissingResultField(ResultStatusKind::ReadStream)
    );
    assert_eq!(ResultStatusKind::ReadStream.as_str(), "ReadStreamEventsCompleted::result");
}

#[test]
fn invalid_transaction_and_versions_are_errors() {
    let mut wec = RawWriteEventsCompleted {
        result: Some(OperationResult::InvalidTransaction),
        message: None,
        first_event_number: 0,
        last_event_number: 0,
        prepare_position: None,
        commit_position: None,
    };
    assert_eq!(
        AdaptedMessage::try_from(RawMessage::WriteEventsCompleted(wec.clone())).unwrap_err().1,
        ErrorKind::WriteEventsInvalidTransaction
    );
    wec.result = Some(OperationResult::Success);
    wec.first_event_number = -4;
    assert_eq!(
        AdaptedMessage::try_from(RawMessage::WriteEventsCompleted(wec)).unwrap_err().1,
        ErrorKind::InvalidStreamVersion(-4)
    );
}

#[test]
fn texts_must_be_utf8() {
    let raw = RawMessage::BadRequest(BadRequestPayload::from_bytes(vec![0xc3, 0x28]));
    let (back, e) = AdaptedMessage::try_from(raw.clone()).unwrap_err();
    assert_eq!((back, e), (raw, ErrorKind::InvalidUtf8));
    let raw = RawMessage::NotAuthenticated(NotAuthenticatedPayload::from_bytes("ä".as_bytes().to_vec()));
    let a = AdaptedMessage::try_from(raw).unwrap();
    assert_eq!(a, AdaptedMessage::NotAuthenticated(NotAuthenticatedMessage::from("ä".to_string())));
}

#[test]
fn unconverted_messages_are_errors() {
    let raw = RawMessage::Unsupported(0xf0, vec![1]);
    assert_eq!(AdaptedMessage::try_from(raw).unwrap_err().1, ErrorKind::UnsupportedDiscriminator(0xf0));
    let raw = RawMessage::NotHandled(NotHandled { reason: None, additional_info: None });
    assert_eq!(AdaptedMessage::try_from(raw).unwrap_err().1, ErrorKind::UnimplementedConversion);
}

#[test]
fn read_stream_success_roundtrips() {
    let raw = RawMessage::ReadStreamEventsCompleted(
        ReadDirection::Forward,
        ReadStreamEventsCompleted {
            events: vec![ResolvedIndexedEvent { event: record(4), link: None }],
            result: Some(ReadStreamResult::Success),
            next_event_number: 5,
            last_event_number: 9,
            is_end_of_stream: false,
            last_commit_position: 1234,
            error: None,
        },
    );
    let expected = AdaptedMessage::ReadStreamEventsCompleted(
        ReadDirection::Forward,
        Ok(ReadStreamCompleted {
            events: vec![ResolvedIndexedEvent { event: record(4), link: None }],
            next_page: Some(EventNumber::Exact(sv(5))),
            last_event_number: sv(9),
            end_of_stream: false,
            last_commit_position: 1234,
        }),
    );
    let a = AdaptedMessage::try_from(raw.clone()).unwrap();
    assert_eq!(a, expected);
    assert_eq!(a.as_raw(), raw);
}

#[test]
fn read_stream_backward_past_start_has_no_next_page() {
    let mut body = ReadStreamEventsCompleted::default_value();
    body.result = Some(ReadStreamResult::Success);
    body.next_event_number = -1;
    body.last_event_number = 0;
    let raw = RawMessage::ReadStreamEventsCompleted(ReadDirection::Backward, body.clone());
    match AdaptedMessage::try_from(raw).unwrap() {
        AdaptedMessage::ReadStreamEventsCompleted(ReadDirection::Backward, Ok(c)) => assert_eq!(c.next_page, None),
        x => panic!("unexpected {:?}", x),
    }
    // forwards a negative next event number is refused
    let raw = RawMessage::ReadStreamEventsCompleted(ReadDirection::Forward, body);
    assert_eq!(AdaptedMessage::try_from(raw).unwrap_err().1, ErrorKind::InvalidStreamVersion(-1));
}

#[test]
fn read_stream_failure_keeps_its_text() {
    let mut body = ReadStreamEventsCompleted::default_value();
    body.result = Some(ReadStreamResult::Error);
    body.next_event_number = 0;
    body.last_event_number = 0;
    body.error = Some("boom".to_string());
    let raw = RawMessage::ReadStreamEventsCompleted(ReadDirection::Forward, body);
    let a = AdaptedMessage::try_from(raw).unwrap();
    assert_eq!(
        a,
        AdaptedMessage::ReadStreamEventsCompleted(ReadDirection::Forward, Err(ReadStreamError::Error(Some("boom".to_string()))))
    );
    let back = ReadStreamError::Error(Some("boom".to_string())).as_raw();
    assert_eq!((back.next_event_number, back.last_event_number, back.last_commit_position), (-1, -1, -1));
}

#[test]
fn read_event_failures() {
    let rec = ReadEventCompleted {
        result: Some(ReadEventResult::NotFound),
        event: ResolvedIndexedEvent::default_value(),
        error: Some("ignored".to_string()),
    };
    let a = AdaptedMessage::try_from(RawMessage::ReadEventCompleted(rec)).unwrap();
    assert_eq!(a, AdaptedMessage::ReadEventCompleted(Err(ReadEventError::NotFound)));
    let raw = a.as_raw();
    match raw {
        RawMessage::ReadEventCompleted(c) => {
            assert_eq!(c.result, Some(ReadEventResult::NotFound));
            assert_eq!(c.event.event.event_number, -1);
            assert_eq!(c.error, None);
        }
        x => panic!("unexpected {:?}", x),
    }
}

#[test]
fn read_all_roundtrip_and_positions() {
    let raw = RawMessage::ReadAllEventsCompleted(
        ReadDirection::Forward,
        ReadAllEventsCompleted {
            commit_position: 0,
            prepare_position: 77,
            events: vec![RawResolvedEvent { event: record(1), link: None, commit_position: 10, prepare_position: -1 }],
            next_commit_position: -1,
            next_prepare_position: 80,
            result: ReadAllResult::Success,
            error: None,
        },
    );
    let a = AdaptedMessage::try_from(raw.clone()).unwrap();
    let expected = AdaptedMessage::ReadAllEventsCompleted(
        ReadDirection::Forward,
        Ok(ReadAllCompleted {
            commit_position: LogPosition::First,
            prepare_position: LogPosition::Exact(77),
            events: vec![ResolvedEvent {
                event: record(1),
                link: None,
                commit_position: LogPosition::Exact(10),
                prepare_position: LogPosition::Last,
            }],
            next_commit_position: Some(LogPosition::Last),
            next_prepare_position: Some(LogPosition::Exact(80)),
        }),
    );
    assert_eq!(a, expected);
    assert_eq!(a.as_raw(), raw);
}

#[test]
fn read_all_below_minus_one() {
    let mut body = ReadAllEventsCompleted::default_value();
    body.next_commit_position = -7;
    body.next_prepare_position = 3;
    match AdaptedMessage::try_from(RawMessage::ReadAllEventsCompleted(ReadDirection::Forward, body.clone())).unwrap() {
        AdaptedMessage::ReadAllEventsCompleted(_, Ok(c)) => {
            assert_eq!(c.next_commit_position, None);
            assert_eq!(c.next_prepare_position, Some(LogPosition::Exact(3)));
        }
        x => panic!("unexpected {:?}", x),
    }
    body.commit_position = -2;
    let raw = RawMessage::ReadAllEventsCompleted(ReadDirection::Forward, body.clone());
    assert_eq!(AdaptedMessage::try_from(raw.clone()), Err((raw, ErrorKind::UnderflowLogPosition(-2))));
    body.result = ReadAllResult::AccessDenied;
    let raw = RawMessage::ReadAllEventsCompleted(ReadDirection::Forward, body);
    let a = AdaptedMessage::try_from(raw).unwrap();
    assert_eq!(a, AdaptedMessage::ReadAllEventsCompleted(ReadDirection::Forward, Err(ReadAllError::AccessDenied)));
    match a.as_raw() {
        RawMessage::ReadAllEventsCompleted(_, m) => {
            assert_eq!((m.commit_position, m.next_prepare_position, m.result), (-1, -1, ReadAllResult::AccessDenied));
        }
        x => panic!("unexpected {:?}", x),
    }
}

#[test]
fn failures_convert_both_ways() {
    assert!(WriteEventsFailure::CommitTimeout.is_transient());
    assert!(!WriteEventsFailure::StreamDeleted.is_transient());
    assert_eq!(WriteEventsFailure::from(OperationResult::AccessDenied), WriteEventsFailure::AccessDenied);
    assert_eq!(WriteEventsFailure::WrongExpectedVersion.to_operation_result(), OperationResult::WrongExpectedVersion);
    assert_eq!(WriteEventsFailure::StreamDeleted.description(), "Stream had been deleted");
    let m = WriteEventsFailure::ForwardTimeout.as_raw();
    assert_eq!((m.result, m.first_event_number), (Some(OperationResult::ForwardTimeout), -1));

    assert!(OperationFailure::PrepareTimeout.is_transient());
    assert!(!OperationFailure::InvalidTransaction.is_transient());
    assert_eq!(OperationFailure::from(OperationResult::InvalidTransaction), OperationFailure::InvalidTransaction);
    assert_eq!(OperationFailure::InvalidTransaction.description(), "Transaction had been rolled back");
    assert_eq!(
        OperationFailure::InvalidTransaction.as_write_events_completed().result,
        Some(OperationResult::InvalidTransaction)
    );

    let f = ReadEventFailure::from(ReadEventResult::Error, Some("x".to_string()));
    assert_eq!(f, ReadEventFailure::Error(Some("x".to_string())));
    assert_eq!(f.as_read_event_completed().error, Some("x".to_string()));
    assert_eq!(f.into_parts(), (ReadEventResult::Error, Some("x".to_string())));
    assert_eq!(ReadEventFailure::from(ReadEventResult::NoStream, Some("x".to_string())), ReadEventFailure::NoStream);

    let f = ReadStreamFailure::from(ReadStreamResult::NotModified, None);
    assert_eq!(f.clone().into_parts(), (ReadStreamResult::NotModified, None));
    assert_eq!(f.as_message_write().last_event_number, -1);

    let f = ReadAllFailure::from(ReadAllResult::Error, None);
    assert_eq!(f.as_message_write().result, ReadAllResult::Error);
}

#[test]
fn log_positions() {
    assert_eq!(LogPosition::try_from(0), Ok(LogPosition::First));
    assert_eq!(LogPosition::try_from(-1), Ok(LogPosition::Last));
    assert_eq!(LogPosition::try_from(5), Ok(LogPosition::Exact(5)));
    assert_eq!(LogPosition::try_from(-2), Err(ErrorKind::UnderflowLogPosition(-2)));
    assert_eq!(LogPosition::try_from_u64(u64::MAX), Err(ErrorKind::OverflowLogPosition(u64::MAX)));
    assert_eq!(LogPosition::try_from_u64(0), Ok(LogPosition::First));
    assert_eq!(LogPosition::from_i64_opt(-3), None);
    assert_eq!(LogPosition::Exact(9).to_i64(), 9);
    assert_eq!(LogPosition::Last.to_i64(), -1);
}

#[test]
fn stream_versions() {
    assert_eq!(StreamVersion::try_from(-1), Err(ErrorKind::InvalidStreamVersion(-1)));
    assert_eq!(StreamVersion::try_from_u32(0x7fff_fffe).unwrap().to_u32(), 0x7fff_fffe);
    let max = StreamVersion::try_from_u32(0x7fff_ffff).unwrap();
    assert_eq!((max.to_u32(), max.to_i32()), (0x7fff_ffff, i32::MAX));
    assert_eq!(StreamVersion::try_from_u32(0x8000_0000), Err(ErrorKind::InvalidStreamVersion(i32::MIN)));
    assert_eq!(StreamVersion::try_from_u32(u32::MAX), Err(ErrorKind::InvalidStreamVersion(-1)));
    assert_eq!(sv(12).to_i32(), 12);
    assert_eq!(EventNumber::Last.to_i32(), -1);
    assert_eq!(EventNumber::from_stream_version(sv(3)).to_i32(), 3);
}

#[test]
fn failed_stream_read_ignores_event_numbers() {
    let body = ReadStreamEventsCompleted {
        events: vec![],
        result: Some(ReadStreamResult::NoStream),
        next_event_number: -1,
        last_event_number: -1,
        is_end_of_stream: false,
        last_commit_position: -1,
        error: None,
    };
    let raw = RawMessage::ReadStreamEventsCompleted(ReadDirection::Forward, body);
    let a = AdaptedMessage::try_from(raw.clone()).unwrap();
    assert_eq!(a, AdaptedMessage::ReadStreamEventsCompleted(ReadDirection::Forward, Err(ReadStreamError::NoStream)));
    assert_eq!(a.as_raw(), raw);
}

#[test]
fn write_positions_below_minus_one_are_refused() {
    let body = RawWriteEventsCompleted {
        result: Some(OperationResult::Success),
        message: None,
        first_event_number: 0,
        last_event_number: 0,
        prepare_position: Some(-2),
        commit_position: Some(-3),
    };
    let raw = RawMessage::WriteEventsCompleted(body);
    assert_eq!(AdaptedMessage::try_from(raw.clone()), Err((raw, ErrorKind::UnderflowLogPosition(-2))));
    let body = RawWriteEventsCompleted {
        result: Some(OperationResult::Success),
        message: None,
        first_event_number: 0,
        last_event_number: 0,
        prepare_position: Some(5),
        commit_position: Some(-3),
    };
    let raw = RawMessage::WriteEventsCompleted(body);
    assert_eq!(AdaptedMessage::try_from(raw.clone()), Err((raw, ErrorKind::UnderflowLogPosition(-3))));
}

#[test]
fn read_all_event_position_below_minus_one_is_refused() {
    let mut body = ReadAllEventsCompleted::default_value();
    body.events = vec![
        RawResolvedEvent { event: record(1), link: None, commit_position: 3, prepare_position: 2 },
        RawResolvedEvent { event: record(2), link: None, commit_position: 4, prepare_position: -9 },
        RawResolvedEvent { event: record(3), link: None, commit_position: -5, prepare_position: 1 },
    ];
    let raw = RawMessage::ReadAllEventsCompleted(ReadDirection::Backward, body);
    assert_eq!(raw.clone().try_adapt(), Err((raw, ErrorKind::UnderflowLogPosition(-9))));
}

#[test]
fn transient_failures_advise_a_retry() {
    let writes = [
        WriteEventsFailure::PrepareTimeout,
        WriteEventsFailure::CommitTimeout,
        WriteEventsFailure::ForwardTimeout,
        WriteEventsFailure::WrongExpectedVersion,
        WriteEventsFailure::StreamDeleted,
        WriteEventsFailure::AccessDenied,
    ];
    for f in writes.iter() {
        assert_eq!(f.is_transient(), f.description().ends_with("should be retried"), "{:?}", f);
    }
    let ops = [
        OperationFailure::PrepareTimeout,
        OperationFailure::CommitTimeout,
        OperationFailure::ForwardTimeout,
        OperationFailure::WrongExpectedVersion,
        OperationFailure::StreamDeleted,
        OperationFailure::InvalidTransaction,
        OperationFailure::AccessDenied,
    ];
    for f in ops.iter() {
        assert_eq!(f.is_transient(), f.description().ends_with("should be retried"), "{:?}", f);
    }
    assert!(WriteEventsFailure::ForwardTimeout.is_transient());
    assert!(!OperationFailure::InvalidTransaction.is_transient());
}
