use eventstore_tcp::adapted::{
    AdaptedMessage, BadRequestMessage, NotAuthenticatedMessage, WriteEventsCompleted,
    WriteEventsFailure,
};
use eventstore_tcp::raw::{RawMessage, BadRequestPayload, NotAuthenticatedPayload};
use eventstore_tcp::raw::client_messages::{
    WriteEvents, NewEvent, OperationResult, ReadEvent, ReadEventCompleted, ResolvedIndexedEvent,
    EventRecord,
};
use eventstore_tcp::raw::client_messages::WriteEventsCompleted as RawWriteEventsCompleted;
use eventstore_tcp::{StreamVersion, LogPosition};
use uuid::Uuid;

fn test_conversions(input: RawMessage, expected: AdaptedMessage) {
    assert_eq!(AdaptedMessage::try_from(input.clone()).unwrap(), expected);
    assert_eq!(expected.as_raw(), input);
}

fn failing_conversion(input: RawMessage) {
    AdaptedMessage::try_from(input).unwrap_err();
}

#[test]
fn convert_simples() {
    let values = vec![
        (RawMessage::HeartbeatRequest, AdaptedMessage::HeartbeatRequest),
        (RawMessage::HeartbeatResponse, AdaptedMessage::HeartbeatResponse),
        (RawMessage::Ping, AdaptedMessage::Ping),
        (RawMessage::Pong, AdaptedMessage::Pong),
        (RawMessage::Authenticate, AdaptedMessage::Authenticate),
        (RawMessage::Authenticated, AdaptedMessage::Authenticated),
    ];

    for (input, expected) in values {
        test_conversions(input, expected);
    }
}

#[test]
fn convert_bad_request() {
    test_conversions(
        RawMessage::BadRequest(BadRequestPayload::from_bytes(b"some_bytes".to_vec())),
        AdaptedMessage::BadRequest(BadRequestMessage::from("some_bytes".to_string())),
    );

    test_conversions(
        RawMessage::BadRequest(BadRequestPayload::from_bytes(b"".to_vec())),
        AdaptedMessage::BadRequest(BadRequestMessage::from("".to_string())),
    );
}

#[test]
fn convert_not_authenticated() {
    test_conversions(
        RawMessage::NotAuthenticated(NotAuthenticatedPayload::from_bytes(b"some_bytes".to_vec())),
        AdaptedMessage::NotAuthenticated(NotAuthenticatedMessage::from("some_bytes".to_string())),
    );

    test_conversions(
        RawMessage::NotAuthenticated(NotAuthenticatedPayload::from_bytes(b"".to_vec())),
        AdaptedMessage::NotAuthenticated(NotAuthenticatedMessage::from("".to_string())),
    );
}

fn write_events(uuid: &Uuid) -> WriteEvents {
    WriteEvents {
        event_stream_id: "foobar".to_string(),
        expected_version: -1,
        events: vec![NewEvent {
            event_id: uuid.as_bytes().to_vec(),
            event_type: "asdfadf".to_string(),
            data_content_type: 0,
            metadata_content_type: 0,
            data: b"some binary data here".to_vec(),
            metadata: None,
        }],
        require_master: false,
    }
}

#[test]
fn convert_write_events() {
    let uuid = Uuid::new_v4();

    test_conversions(
        RawMessage::WriteEvents(write_events(&uuid)),
        AdaptedMessage::WriteEvents(write_events(&uuid)),
    );
}

#[test]
fn convert_write_completed() {
    let body = RawWriteEventsCompleted {
        result: Some(OperationResult::Success),
        message: None,
        first_event_number: 0,
        last_event_number: 0,
        prepare_position: Some(100),
        commit_position: Some(100),
    };

    test_conversions(
        RawMessage::WriteEventsCompleted(body.clone()),
        AdaptedMessage::WriteEventsCompleted(Ok(WriteEventsCompleted {
            event_numbers: StreamVersion::try_from(0).unwrap()..StreamVersion::try_from(1).unwrap(),
            prepare_position: Some(LogPosition::try_from(100).unwrap()),
            commit_position: Some(LogPosition::try_from(100).unwrap()),
        })),
    );
}

#[test]
fn convert_write_failure() {
    let errors: Vec<(OperationResult, Option<WriteEventsFailure>)> = vec![
        (OperationResult::PrepareTimeout, Some(WriteEventsFailure::PrepareTimeout)),
        (OperationResult::CommitTimeout, Some(WriteEventsFailure::CommitTimeout)),
        (OperationResult::ForwardTimeout, Some(WriteEventsFailure::ForwardTimeout)),
        (OperationResult::WrongExpectedVersion, Some(WriteEventsFailure::WrongExpectedVersion)),
        (OperationResult::StreamDeleted, Some(WriteEventsFailure::StreamDeleted)),
        (OperationResult::InvalidTransaction, None),
        (OperationResult::AccessDenied, Some(WriteEventsFailure::AccessDenied)),
    ];

    for (error, mapped) in errors {
        let body = RawWriteEventsCompleted {
            result: Some(error),
            message: None,
            first_event_number: -1,
            last_event_number: -1,
            prepare_position: None,
            commit_position: None,
        };

        match mapped {
            Some(mapped) => {
                test_conversions(
                    RawMessage::WriteEventsCompleted(body),
                    AdaptedMessage::WriteEventsCompleted(Err(mapped)),
                );
            },
            None => {
                failing_conversion(RawMessage::WriteEventsCompleted(body));
            },
        }
    }
}

#[test]
fn convert_read_event() {
    let body = ReadEvent {
        event_stream_id: "asdfsd".to_string(),
        event_number: 0,
        resolve_link_tos: true,
        require_master: true,
    };

    test_conversions(RawMessage::ReadEvent(body.clone()), AdaptedMessage::ReadEvent(body.clone()));
}

#[test]
fn convert_bogus_read_completed() {
    let bogus = ReadEventCompleted {
        result: None,
        event: ResolvedIndexedEvent {
            event: EventRecord {
                event_stream_id: "".to_string(),
                event_number: -1,
                event_id: vec![],
                event_type: "".to_string(),
                data_content_type: 0,
                metadata_content_type: 0,
                data: vec![],
                metadata: None,
                created: None,
                created_epoch: None,
            },
            link: None,
        },
        error: None,
    };

    failing_conversion(RawMessage::ReadEventCompleted(bogus));
}
