use eventstore_tcp::codec::PackageCodec;
use eventstore_tcp::package::Package;
use eventstore_tcp::raw::RawMessage;
use eventstore_tcp::raw::client_messages::{OperationResult, WriteEventsCompleted};
use eventstore_tcp::UsernamePassword;
use hex::FromHex;
use uuid::Uuid;

fn from_hex(s: &str) -> Vec<u8> {
    Vec::<u8>::from_hex(s).unwrap()
}

fn uuid_bytes(s: &str) -> [u8; 16] {
    *Uuid::parse_str(s).unwrap().as_bytes()
}

fn test_decoding_hex(input: &str, expected: Package) {
    test_decoding(from_hex(input), expected);
}

fn test_decoding(input: Vec<u8>, expected: Package) {
    // decode whole buffer
    {
        let (item, used) = PackageCodec.decode_inner(&input).unwrap().unwrap();
        assert_eq!(item, expected);
        assert_eq!(used, input.len(), "decoding correctly sized buffer left bytes");
    }

    // decoding partial buffer consumes no bytes
    for len in 1..(input.len() - 1) {
        let part = &input[..len];
        assert!(PackageCodec.decode_inner(part).unwrap().is_none());
    }

    // decoding a too long buffer consumes no extra bytes
    {
        let mut longer = input.clone();
        let len = longer.len();
        longer.extend(vec![0u8; len]);
        let (item, used) = PackageCodec.decode_inner(&longer).unwrap().unwrap();
        assert_eq!(item, expected);
        assert_eq!(longer.len() - used, len, "decoding oversized buffer overused bytes");
    }
}

fn test_encoding_hex(input: &str, expected: Package) {
    test_encoding(from_hex(input), expected);
}

fn test_encoding(input: Vec<u8>, expected: Package) {
    let mut buf = Vec::new();
    PackageCodec.encode(&expected, &mut buf).unwrap();
    assert_eq!(buf, input);
}

fn write_completed_package() -> Package {
    Package {
        authentication: None,
        correlation_id: uuid_bytes("9b59d873-4e9f-d84e-b8a4-21f2666a3aa4"),
        message: RawMessage::WriteEventsCompleted(WriteEventsCompleted {
            result: Some(OperationResult::Success),
            message: None,
            first_event_number: 30,
            last_event_number: 39,
            prepare_position: Some(181349124),
            commit_position: Some(181349124),
        }),
    }
}

#[test]
fn decode_ping() {
    test_decoding_hex(
        "1200000003007b50a1b034b9224e8f9d708c394fab2d",
        Package {
            authentication: None,
            correlation_id: uuid_bytes("7b50a1b0-34b9-224e-8f9d-708c394fab2d"),
            message: RawMessage::Ping,
        },
    );
}

#[test]
fn decode_ping_with_junk() {
    test_decoding_hex(
        "1300000003007b50a1b034b9224e8f9d708c394fab2d00",
        Package {
            authentication: None,
            correlation_id: uuid_bytes("7b50a1b0-34b9-224e-8f9d-708c394fab2d"),
            message: RawMessage::Ping,
        },
    );
}

#[test]
fn encode_ping() {
    test_encoding_hex(
        "1200000003007b50a1b034b9224e8f9d708c394fab2d",
        Package {
            authentication: None,
            correlation_id: uuid_bytes("7b50a1b0-34b9-224e-8f9d-708c394fab2d"),
            message: RawMessage::Ping,
        },
    );
}

#[test]
fn decode_unknown_discriminator() {
    let input = from_hex("12000000ff007b50a1b034b9224e8f9d708c394fab2d");
    let (decoded, _) = PackageCodec.decode_inner(&input).unwrap().unwrap();

    assert_eq!(
        decoded,
        Package {
            authentication: None,
            correlation_id: uuid_bytes("7b50a1b0-34b9-224e-8f9d-708c394fab2d"),
            message: RawMessage::Unsupported(255, vec![]),
        }
    );
}

#[test]
fn decode_write_events_completed() {
    let input = "2200000083009b59d8734e9fd84eb8a421f2666a3aa40800181e20272884d6bc563084d6bc56";
    test_decoding_hex(input, write_completed_package());
}

#[test]
fn encode_write_events_completed() {
    test_encoding_hex(
        "2200000083009b59d8734e9fd84eb8a421f2666a3aa40800181e20272884d6bc563084d6bc56",
        write_completed_package(),
    );
}

#[test]
fn decode_authenticated_package() {
    let mut buf: Vec<u8> = Vec::with_capacity(1024);
    let id = *Uuid::new_v4().as_bytes();

    let msg = Package {
        correlation_id: id,
        authentication: Some(UsernamePassword::new("foobar".to_string(), "abbacd".to_string())),
        message: RawMessage::Ping,
    };

    PackageCodec.encode(&msg, &mut buf).unwrap();

    let (decoded, used) = PackageCodec.decode_inner(&buf).unwrap().unwrap();

    assert_eq!(msg, decoded);
    assert_eq!(used, buf.len());
}
