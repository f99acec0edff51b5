use eventstore_tcp::decoder::{Decoding, HexDumpDecoder};

/// Feeds the lines of `input` to a decoder, as the command line tool does, collecting each
/// decoded record; an unfinished record at the end is an error.
fn decode_all(input: &[u8]) -> std::vec::IntoIter<Result<Decoding, String>> {
    let text = std::str::from_utf8(input).unwrap();
    let mut decoder = HexDumpDecoder::new();
    let mut out = Vec::new();
    for line in text.lines() {
        if let Some(d) = decoder.try_feed_line(line).expect("a line of hex digits") {
            out.push(Ok(d));
        }
    }
    if decoder.has_unfinished() {
        out.push(Err("Unexpected EOF".to_string()));
    }
    out.into_iter()
}

#[test]
fn multiline() {
    let input = b"0x21, 0x00, 0x00, 0x00, 0xc0, 0x00, 0x61, 0xde,
    0x39, 0x7d, 0x31, 0x4f, 0x69, 0x40, 0x86, 0xd2,
    0xcb, 0x38, 0x33, 0x94, 0x8b, 0xcc, 0x0a, 0x0b,
    0x74, 0x65, 0x73, 0x74, 0x2d, 0x73, 0x74, 0x72,
    0x65, 0x61, 0x6d, 0x10, 0x00";

    let mut decoder = decode_all(&input[..]);

    match decoder.next() {
        Some(Ok(Decoding::Full { .. })) => { /* good */ },
        x => panic!("unexpected value: {:?}", x),
    }

    let next = decoder.next();
    assert!(next.is_none(), "unexpected value: {:?}", next);
}

#[test]
fn mixed() {
    let input = b"210000 0x00, 0xc0, 0x00, 0x61, 0xde,
                0x39, 0x7d, 0x31, 0x4f, 0x69, 0x40, 0x86, 0xd2,
    0xcb, 0x38,             0x33, 0x94, 0x8b, 0xcc, 0x0a, 0x0b,
    0x74, 0x65, 0x73, 0x74, 0x2d, 0x73, 0x74, 0x72,
    0x65, 0x61, 0x6d, 0x10, 0x00";

    let mut decoder = decode_all(&input[..]);

    match decoder.next() {
        Some(Ok(Decoding::Full { .. })) => { /* good */ },
        x => panic!("unexpected value: {:?}", x),
    }

    let next = decoder.next();
    assert!(next.is_none(), "unexpected value: {:?}", next);
}

#[test]
fn partial() {
    let input = b"0x21, 0x00, 0x00, 0x00, 0xc0, 0x00, 0x61, 0xde,
    0x39, 0x7d, 0x31, 0x4f, 0x69, 0x40, 0x86, 0xd2,
    0xcb, 0x38, 0x33, 0x94, 0x8b, 0xcc, 0x0a, 0x0b,
    0x74, 0x65, 0x73, 0x74, 0x2d, 0x73, 0x74, 0x72,
    0x65, 0x61, 0x6d, 0x10, 0x00 00 00";

    let mut decoder = decode_all(&input[..]);

    match decoder.next() {
        Some(Ok(Decoding::Partial { unused_bytes: 2, .. })) => { /* good */ },
        x => panic!("unexpected value: {:?}", x),
    }

    let next = decoder.next();
    assert!(next.is_none(), "unexpected value: {:?}", next);
}

#[test]
fn underflow() {
    let input = b"0x21, 0x00, 0x00, 0x00, 0xc0, 0x00, 0x61, 0xde,
    0x39, 0x7d, 0x31, 0x4f, 0x69, 0x40, 0x86, 0xd2,
    0xcb, 0x38, 0x33, 0x94, 0x8b, 0xcc, 0x0a, 0x0b,
    0x74, 0x65, 0x73, 0x74, 0x2d, 0x73, 0x74, 0x72,
    0x65, 0x61, 0x6d, 0x10";

    let mut decoder = decode_all(&input[..]);

    match decoder.next() {
        Some(Ok(Decoding::Underflow)) => { /* good */ },
        x => panic!("unexpected value: {:?}", x),
    }

    let next = decoder.next();
    assert!(next.is_none(), "unexpected value: {:?}", next);
}

#[test]
fn invalid_data() {
    let input = b"0c000000c00061de397d314f00000000000000000000";

    let mut decoder = decode_all(&input[..]);

    match decoder.next() {
        Some(Ok(Decoding::Failure(_))) => { /* good */ },
        x => panic!("unexpected value: {:?}", x),
    }

    let next = decoder.next();
    assert!(next.is_none(), "unexpected value: {:?}", next);
}

#[test]
fn lines_that_are_not_hex_are_refused() {
    let mut decoder = HexDumpDecoder::new();
    assert!(decoder.try_feed_line("   ").is_none());
    assert!(decoder.try_feed_line("0xzz").is_none());
    assert!(decoder.try_feed_line("abc").is_none());
    assert!(!decoder.has_unfinished());
    assert!(matches!(decoder.try_feed_line("0x12, 0x00,"), Some(None)));
    assert!(decoder.has_unfinished());
    assert!(matches!(decoder.try_feed_line("0X"), None));
}

#[test]
fn unfinished_record_at_the_end() {
    let mut results = decode_all(b"0x21, 0x00,");
    match results.next() {
        Some(Err(_)) => {},
        x => panic!("unexpected value: {:?}", x),
    }
}

#[test]
fn lines_are_stripped_of_prefixes_commas_and_whitespace() {
    let mut decoder = HexDumpDecoder::new();
    // "0x" prefixes, commas and Unicode whitespace go; the line ends in a comma, so it goes on
    assert!(matches!(decoder.try_feed_line("\u{a0}0x0x12 ,\t0x00,"), Some(None)));
    assert!(decoder.has_unfinished());
    // "00x12" keeps its first zero: three digits are no bytes
    assert!(decoder.try_feed_line("00x12").is_none());
    // a blank line is not taken
    assert!(decoder.try_feed_line(" \u{3000} ").is_none());
    assert!(decoder.has_unfinished());
    match decoder.try_feed_line("0x00") {
        Some(Some(Decoding::Underflow)) => {}
        x => panic!("unexpected value: {:?}", x),
    }
    assert!(!decoder.has_unfinished());
}
