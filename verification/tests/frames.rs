use eventstore_tcp::codec::PackageCodec;
use eventstore_tcp::package::Package;
use eventstore_tcp::raw::RawMessage;
use eventstore_tcp::{CodecError, UsernamePassword};

fn ping(auth: Option<UsernamePassword>) -> Package {
    Package { authentication: auth, correlation_id: [7; 16], message: RawMessage::Ping }
}

#[test]
fn frame_roundtrip_ignores_trailing_bytes() {
    let pkg = ping(Some(UsernamePassword::new("admin".to_string(), "changeit".to_string())));
    let mut buf = Vec::new();
    PackageCodec.encode(&pkg, &mut buf).unwrap();
    let len = buf.len();
    // length prefix counts everything after itself
    assert_eq!(buf[0] as usize, len - 4);
    assert_eq!(buf[5], 0x01);
    buf.extend_from_slice(&[0xaa, 0xbb, 0xcc]);
    let (decoded, used) = PackageCodec.decode_inner(&buf).unwrap().unwrap();
    assert_eq!(decoded, pkg);
    assert_eq!(used, len);
    for k in 0..len {
        assert_eq!(PackageCodec.decode_inner(&buf[..k]), Ok(None));
    }
}

#[test]
fn frame_appends_to_output() {
    let mut buf = vec![1, 2, 3];
    PackageCodec.encode(&ping(None), &mut buf).unwrap();
    assert_eq!(&buf[..3], &[1, 2, 3]);
    assert_eq!(buf.len(), 3 + 4 + 18);
}

#[test]
fn length_too_small_is_an_error() {
    let mut buf = vec![17, 0, 0, 0];
    buf.extend_from_slice(&[0u8; 18]);
    assert_eq!(PackageCodec.decode_inner(&buf), Err(CodecError::LengthTooSmall(17)));
}

#[test]
fn unknown_flags_are_an_error() {
    let mut buf = vec![18, 0, 0, 0, 0x03, 0x02];
    buf.extend_from_slice(&[0u8; 16]);
    assert_eq!(PackageCodec.decode_inner(&buf), Err(CodecError::InvalidFlags(0x02)));
}

#[test]
fn cut_credentials_are_an_error() {
    // authenticated ping whose login claims five bytes but holds two
    let mut buf = vec![21, 0, 0, 0, 0x03, 0x01];
    buf.extend_from_slice(&[0u8; 16]);
    buf.extend_from_slice(&[5, b'a', b'b']);
    assert_eq!(PackageCodec.decode_inner(&buf), Err(CodecError::InvalidCredentials));
}

#[test]
fn undecodable_payload_is_an_error() {
    // WriteEventsCompleted (0x83) whose payload is a lone key byte
    let mut buf = vec![19, 0, 0, 0, 0x83, 0x00];
    buf.extend_from_slice(&[0u8; 16]);
    buf.push(0x08);
    assert_eq!(PackageCodec.decode_inner(&buf), Err(CodecError::InvalidMessage(0x83)));
}

#[test]
fn long_login_cannot_be_framed() {
    let pkg = ping(Some(UsernamePassword::new("x".repeat(256), "p".to_string())));
    let mut buf = vec![9];
    assert_eq!(PackageCodec.encode(&pkg, &mut buf), Err(CodecError::CredentialsTooLong));
    assert_eq!(buf, vec![9]);
}

#[test]
fn credentials_roundtrip() {
    let c = UsernamePassword::new("user".to_string(), "pässword".to_string());
    let mut out = Vec::new();
    assert!(c.encode(&mut out));
    assert_eq!(out[0], 4);
    out.push(0xee);
    let (back, used) = UsernamePassword::decode(&out).unwrap();
    assert_eq!(back, c);
    assert_eq!(used, out.len() - 1);
    assert_eq!(back.username(), "user");
    assert_eq!(back.password(), "pässword");
}
