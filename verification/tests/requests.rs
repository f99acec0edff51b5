use eventstore_tcp::builder::Builder;
use eventstore_tcp::commands::{
    parse_expected_version, prepare_delete, prepare_write, read_mode, OutputMode, Position, ReadMode,
};
use eventstore_tcp::raw::RawMessage;
use eventstore_tcp::{
    ContentType, EventNumber, ExpectedVersion, LogPosition, ReadDirection, StreamVersion,
    UsernamePassword,
};

fn sv(n: i32) -> StreamVersion {
    StreamVersion::try_from(n).unwrap()
}

#[test]
fn write_events_defaults() {
    let mut b = Builder::write_events();
    let pkg = b
        .stream_id("stream")
        .new_event()
        .event_type("type")
        .data(vec![1, 2, 3])
        .metadata(vec![4])
        .metadata_content_type(ContentType::Json)
        .event_id([5; 16])
        .done()
        .build_package(None, Some([9; 16]));
    assert_eq!(pkg.correlation_id, [9; 16]);
    assert_eq!(pkg.authentication, None);
    match pkg.message {
        RawMessage::WriteEvents(we) => {
            assert_eq!(we.event_stream_id, "stream");
            assert_eq!(we.expected_version, -2);
            assert!(!we.require_master);
            assert_eq!(we.events.len(), 1);
            let e = &we.events[0];
            assert_eq!(e.event_id, vec![5; 16]);
            assert_eq!((e.data_content_type, e.metadata_content_type), (0, 1));
            assert_eq!(e.metadata, Some(vec![4]));
        }
        x => panic!("unexpected {:?}", x),
    }
    // the contents were moved out of the builder
    let pkg = b.stream_id("again").build_package(None, None);
    match pkg.message {
        RawMessage::WriteEvents(we) => assert!(we.events.is_empty()),
        x => panic!("unexpected {:?}", x),
    }
}

#[test]
fn random_ids_differ() {
    let a = Builder::ping().build_package(None, None);
    let b = Builder::ping().build_package(None, None);
    assert_ne!(a.correlation_id, b.correlation_id);
    let mut w = Builder::write_events();
    let pkg = w.stream_id("s").new_event().event_type("t").data(vec![]).done().build_package(None, None);
    match pkg.message {
        RawMessage::WriteEvents(we) => assert_eq!(we.events[0].event_id.len(), 16),
        x => panic!("unexpected {:?}", x),
    }
}

#[test]
fn cancelled_event_is_not_added() {
    let mut w = Builder::write_events();
    w.stream_id("s").new_event().event_type("t").cancel();
    let pkg = w.build_package(None, None);
    match pkg.message {
        RawMessage::WriteEvents(we) => assert!(we.events.is_empty()),
        x => panic!("unexpected {:?}", x),
    }
}

#[test]
fn read_builders_defaults() {
    let cred = UsernamePassword::new("a".to_string(), "b".to_string());
    let pkg = Builder::read_event()
        .stream_id("s")
        .event_number(EventNumber::Last)
        .build_package(Some(cred.clone()), None);
    assert_eq!(pkg.authentication, Some(cred));
    match pkg.message {
        RawMessage::ReadEvent(r) => {
            assert_eq!((r.event_number, r.resolve_link_tos, r.require_master), (-1, true, false));
        }
        x => panic!("unexpected {:?}", x),
    }

    let pkg = Builder::read_stream_events()
        .direction(ReadDirection::Backward)
        .stream_id("s")
        .from_event_number(EventNumber::Exact(sv(4)))
        .max_count(10)
        .build_package(None, None);
    match pkg.message {
        RawMessage::ReadStreamEvents(d, r) => {
            assert_eq!(d, ReadDirection::Backward);
            assert_eq!((r.from_event_number, r.max_count, r.resolve_link_tos, r.require_master), (4, 10, true, false));
        }
        x => panic!("unexpected {:?}", x),
    }

    let pkg = Builder::read_all_events()
        .direction(ReadDirection::Forward)
        .positions(LogPosition::Exact(8), LogPosition::First)
        .max_count(3)
        .build_package(None, None);
    match pkg.message {
        RawMessage::ReadAllEvents(_, r) => {
            assert_eq!((r.commit_position, r.prepare_position, r.max_count), (8, 0, 3));
            assert_eq!((r.resolve_link_tos, r.require_master), (true, false));
        }
        x => panic!("unexpected {:?}", x),
    }

    let pkg = Builder::delete_stream()
        .stream_id("gone")
        .expected_version(ExpectedVersion::NoStream)
        .hard_delete(true)
        .build_package(None, None);
    match pkg.message {
        RawMessage::DeleteStream(d) => {
            assert_eq!((d.expected_version, d.require_master, d.hard_delete), (-1, false, Some(true)));
        }
        x => panic!("unexpected {:?}", x),
    }
    assert_eq!(Builder::authenticate().build_package(None, None).message, RawMessage::Authenticate);
}

#[test]
fn expected_version_arguments() {
    assert_eq!(parse_expected_version("any"), Some(ExpectedVersion::Any));
    assert_eq!(parse_expected_version("created"), Some(ExpectedVersion::NoStream));
    assert_eq!(parse_expected_version("42"), Some(ExpectedVersion::Exact(sv(42))));
    assert_eq!(parse_expected_version("+7"), Some(ExpectedVersion::Exact(sv(7))));
    assert_eq!(parse_expected_version("2147483647"), Some(ExpectedVersion::Exact(sv(i32::MAX))));
    assert_eq!(parse_expected_version("2147483648"), None);
    assert_eq!(parse_expected_version("-1"), None);
    assert_eq!(parse_expected_version("anything"), None);
}

#[test]
fn position_arguments() {
    assert_eq!(Position::parse("first"), Some(Position::First));
    assert_eq!(Position::parse("last"), Some(Position::Last));
    assert_eq!(Position::parse("12"), Some(Position::Exact(sv(12))));
    assert_eq!(Position::parse("10,-1"), Some(Position::Log(LogPosition::Exact(10), LogPosition::Last)));
    assert_eq!(Position::parse("0,5,junk"), Some(Position::Log(LogPosition::First, LogPosition::Exact(5))));
    assert_eq!(Position::parse("-2,5"), None);
    assert_eq!(Position::parse("x"), None);
    assert_eq!(Position::Log(LogPosition::First, LogPosition::Last).into_event_number(), None);
    assert_eq!(Position::Exact(sv(1)).into_log_position(), None);
    assert_eq!(Position::First.into_log_position(), Some((LogPosition::First, LogPosition::First)));
}

#[test]
fn read_arguments_and_requests() {
    assert_eq!(read_mode(None, None, None), Some(ReadMode::ForwardOnce { position: Position::First, count: 1 }));
    assert_eq!(
        read_mode(Some("all"), Some("last"), Some("backward")),
        Some(ReadMode::Backward { position: Position::Last, count: 10 })
    );
    assert_eq!(read_mode(Some("300"), None, None), None);
    assert_eq!(read_mode(None, None, Some("forward-forever")), None);
    assert_eq!(OutputMode::parse("hex"), Some(OutputMode::Hex));
    assert_eq!(OutputMode::parse("json_oneline"), Some(OutputMode::JsonOneline));
    assert_eq!(OutputMode::parse("xml"), None);

    let one = ReadMode::ForwardOnce { position: Position::Exact(sv(3)), count: 1 };
    match one.into_request("s", None).unwrap().message {
        RawMessage::ReadEvent(r) => assert_eq!(r.event_number, 3),
        x => panic!("unexpected {:?}", x),
    }
    let all = ReadMode::Backward { position: Position::Last, count: 5 };
    match all.into_request("$all", None).unwrap().message {
        RawMessage::ReadAllEvents(d, r) => {
            assert_eq!(d, ReadDirection::Backward);
            assert_eq!((r.commit_position, r.prepare_position, r.max_count), (-1, -1, 5));
        }
        x => panic!("unexpected {:?}", x),
    }
    let stream = ReadMode::ForwardOnce { position: Position::First, count: 5 };
    match stream.into_request("s", None).unwrap().message {
        RawMessage::ReadStreamEvents(d, r) => {
            assert_eq!(d, ReadDirection::Forward);
            assert_eq!((r.from_event_number, r.max_count), (0, 5));
        }
        x => panic!("unexpected {:?}", x),
    }
    let wrong = ReadMode::ForwardOnce { position: Position::Exact(sv(3)), count: 5 };
    assert!(wrong.into_request("$all", None).is_none());
}

#[test]
fn write_and_delete_arguments() {
    assert!(prepare_write("s", "nonsense", "t", vec![], None, false, false).is_none());
    let mut b = prepare_write("s", "5", "t", b"{}".to_vec(), Some(b"{}".to_vec()), true, true).unwrap();
    match b.build_package(None, None).message {
        RawMessage::WriteEvents(we) => {
            assert_eq!((we.expected_version, we.require_master), (5, true));
            let e = &we.events[0];
            assert_eq!((e.data_content_type, e.metadata_content_type), (1, 1));
            assert_eq!(e.event_type, "t");
        }
        x => panic!("unexpected {:?}", x),
    }
    let mut d = prepare_delete("s", "any", true, false).unwrap();
    match d.build_package(None, None).message {
        RawMessage::DeleteStream(m) => assert_eq!((m.expected_version, m.hard_delete), (-2, Some(true))),
        x => panic!("unexpected {:?}", x),
    }
    assert!(prepare_delete("s", "", false, false).is_none());
}

#[test]
fn generated_ids_are_version_four() {
    let pkg = Builder::ping().build_package(None, None);
    assert_eq!(pkg.correlation_id[6] >> 4, 4);
    assert_eq!(pkg.correlation_id[8] >> 6, 2);
    let given = [9u8; 16];
    assert_eq!(Builder::ping().build_package(None, Some(given)).correlation_id, given);
}
