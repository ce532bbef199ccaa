use smtp_proto::bytes::ByteIter;
use smtp_proto::request::parser::Rfc5321Parser;
use smtp_proto::request::receiver::{
    BdatReceiver, DataReceiver, DummyDataReceiver, DummyLineReceiver, LineReceiver,
    MAX_LINE_LENGTH,
};
use smtp_proto::{Error, AUTH_ECDSA_NIST256P_CHALLENGE, AUTH_PLAIN, AUTH_XOAUTH2};

#[test]
fn byte_iter_reads_in_order() {
    let mut bytes = ByteIter::new(b"abc");
    assert_eq!(bytes.len(), 3);
    assert_eq!(bytes.next(), Some(b'a'));
    assert_eq!(bytes.position(), 1);
    assert_eq!(bytes.as_slice(), b"bc");
    assert_eq!(bytes.slice(0, 2), b"ab");
    bytes.advance(1);
    assert_eq!(bytes.next(), Some(b'c'));
    assert_eq!(bytes.next(), None);
    assert_eq!(bytes.next(), None);
    assert_eq!(bytes.len(), 0);
}

#[test]
fn bdat_counts_bytes() {
    let mut r = BdatReceiver::new(5, true);
    let mut buf = Vec::new();
    assert!(!r.ingest(&mut ByteIter::new(b"ab\n"), &mut buf));
    assert_eq!(r.bytes_left, 2);
    let mut bytes = ByteIter::new(b".\rQUIT\r\n");
    assert!(r.ingest(&mut bytes, &mut buf));
    assert!(r.is_last);
    assert_eq!(buf, b"ab\n.\r".to_vec());
    assert_eq!(bytes.as_slice(), b"QUIT\r\n");
    assert!(r.ingest(&mut bytes, &mut buf));
    assert_eq!(bytes.as_slice(), b"QUIT\r\n");

    let mut r = BdatReceiver::new(0, false);
    assert!(r.ingest(&mut ByteIter::new(b"x"), &mut buf));
    assert!(!r.is_last);
}

#[test]
fn dummy_data_follows_data() {
    let mut data = DataReceiver::new();
    let mut buf = Vec::new();
    assert!(!data.ingest(&mut ByteIter::new(b"too much\r\n"), &mut buf));
    let mut dummy = DummyDataReceiver::new_data(&data);
    assert!(!dummy.ingest(&mut ByteIter::new(b".")));
    let mut bytes = ByteIter::new(b"\r\nRSET\r\n");
    assert!(dummy.ingest(&mut bytes));
    assert_eq!(bytes.as_slice(), b"RSET\r\n");

    let mut dummy = DummyDataReceiver::new_data(&DataReceiver::new());
    assert!(!dummy.ingest(&mut ByteIter::new(b"\r\n.\r\r\n")));
    let mut bytes = ByteIter::new(b"\r\n.\r\nrest");
    assert!(dummy.ingest(&mut bytes));
    assert_eq!(bytes.as_slice(), b"rest");
}

#[test]
fn dummy_bdat_counts_bytes() {
    let mut dummy = DummyDataReceiver::new_bdat(4);
    assert!(!dummy.ingest(&mut ByteIter::new(b"abc")));
    let mut bytes = ByteIter::new(b"dQUIT\n");
    assert!(dummy.ingest(&mut bytes));
    assert_eq!(bytes.as_slice(), b"QUIT\n");
}

#[test]
fn line_receiver_drops_carriage_returns() {
    let mut r = LineReceiver::new(7u32);
    assert!(!r.ingest(&mut ByteIter::new(b"dGVz\r")));
    let mut bytes = ByteIter::new(b"dA==\r\nnext");
    assert!(r.ingest(&mut bytes));
    assert_eq!(r.buf, b"dGVzdA==".to_vec());
    assert_eq!(r.state, 7);
    assert_eq!(bytes.as_slice(), b"next");
}

#[test]
fn line_receiver_caps_the_line() {
    let mut r = LineReceiver::new(());
    let long = vec![b'a'; MAX_LINE_LENGTH + 10];
    assert!(!r.ingest(&mut ByteIter::new(&long)));
    assert_eq!(r.buf.len(), MAX_LINE_LENGTH);
    assert!(r.ingest(&mut ByteIter::new(b"b\n")));
    assert_eq!(r.buf.len(), MAX_LINE_LENGTH);
    let r: LineReceiver<u8> = LineReceiver::default();
    assert!(r.buf.is_empty());
    assert_eq!(r.state, 0);
}

#[test]
fn dummy_line_receiver_skips_a_line() {
    let mut r = DummyLineReceiver::default();
    assert!(!r.ingest(&mut ByteIter::new(b"no end")));
    let mut bytes = ByteIter::new(b"line\r\nnext");
    assert!(r.ingest(&mut bytes));
    assert_eq!(bytes.as_slice(), b"next");
}

#[test]
fn scanner_numbers() {
    let mut p = Rfc5321Parser::new(ByteIter::new(b" 123 "));
    assert_eq!(p.size(), Ok(123));
    let mut p = Rfc5321Parser::new(ByteIter::new(b"x"));
    assert_eq!(p.size(), Ok(usize::MAX));
    assert_eq!(p.stop_char, b'x');
    let mut p = Rfc5321Parser::new(ByteIter::new(b"18446744073709551614 "));
    assert_eq!(p.size(), Ok(18446744073709551614));
    let mut p = Rfc5321Parser::new(ByteIter::new(b"99999999999999999999999999 "));
    assert_eq!(p.size(), Ok(usize::MAX));
    let mut p = Rfc5321Parser::new(ByteIter::new(b"0 "));
    assert_eq!(p.size(), Ok(0));
    let mut p = Rfc5321Parser::new(ByteIter::new(b"12"));
    assert_eq!(p.size(), Err(Error::NeedsMoreData { bytes_left: 2 }));
    let mut p = Rfc5321Parser::new(ByteIter::new(b"-42;"));
    assert_eq!(p.integer(), Ok(-42));
    assert_eq!(p.stop_char, b';');
    let mut p = Rfc5321Parser::new(ByteIter::new(b"+7 "));
    assert_eq!(p.integer(), Ok(7));
    let mut p = Rfc5321Parser::new(ByteIter::new(b"-;"));
    assert_eq!(p.integer(), Ok(i64::MAX));
    let mut p = Rfc5321Parser::new(ByteIter::new(b"-9223372036854775806;"));
    assert_eq!(p.integer(), Ok(-9223372036854775806));
    for text in ["99999999999999999999999999;", "-99999999999999999999999999;", "9223372036854775807;"] {
        let mut p = Rfc5321Parser::new(ByteIter::new(text.as_bytes()));
        assert_eq!(p.integer(), Ok(i64::MAX), "{text:?}");
    }
}

#[test]
fn scanner_timestamps() {
    for (text, seconds) in [
        ("1970-01-01T00:00:00Z ", 0),
        ("2014-04-03T23:01:00Z ", 1396566060),
        ("1997-11-24T14:22:01-08:00 ", 880410121),
        ("2003-07-01T10:52:37+02:00 ", 1057049557),
        ("2000-02-29T12:00:00Z ", 951825600),
        ("1969-12-31T23:59:59Z ", -1),
        ("2022-01-02T01:01:01 ", i64::MAX),
        ("garbage ", i64::MAX),
    ] {
        let mut p = Rfc5321Parser::new(ByteIter::new(text.as_bytes()));
        assert_eq!(p.timestamp(), Ok(seconds), "{text:?}");
    }
}

#[test]
fn scanner_strings() {
    let mut p = Rfc5321Parser::new(ByteIter::new(b"a\rb c"));
    assert_eq!(p.text(), Ok("ab".to_string()));
    assert_eq!(p.stop_char, b' ');
    assert_eq!(p.read_char(), Ok(b'c'));
    assert_eq!(p.read_char(), Err(Error::NeedsMoreData { bytes_left: 5 }));
    let mut p = Rfc5321Parser::new(ByteIter::new(b"hi+20there+3d+zz+4\n"));
    assert_eq!(p.xtext(), Ok("hi there=z".to_string()));
    let mut p = Rfc5321Parser::new(ByteIter::new(b"+e9 "));
    assert_eq!(p.xtext(), Ok("\u{e9}".to_string()));
    let mut p = Rfc5321Parser::new(ByteIter::new(b"  \"a b\\\"c\" d"));
    assert_eq!(p.string(), Ok("a b\"c".to_string()));
    let mut p = Rfc5321Parser::new(ByteIter::new(b" one,two\n"));
    assert_eq!(p.seek_char(b','), Ok("one".to_string()));
    assert_eq!(p.stop_char, b',');
    assert_eq!(p.next_char(), Ok(b't'));
    assert_eq!(p.seek_lf(), Ok(()));
    assert_eq!(p.seek_lf(), Err(Error::NeedsMoreData { bytes_left: 9 }));
    let mut p = Rfc5321Parser::new(ByteIter::new(&[b'a', 0xff, b'\r', 0xc3, b' ']));
    assert_eq!(p.text(), Ok("a\u{fffd}\u{fffd}".to_string()));
}

#[test]
fn scanner_addresses() {
    for (text, address) in [
        ("user@example.org>", Some("user@example.org")),
        (">", Some("")),
        ("@a,@b:user@d>", Some("user@d")),
        ("\"a b\"@c>", Some("a b@c")),
        ("a..b@c>", None),
        (".a@c>", None),
        ("a@b@c>", None),
        ("a b@c>", None),
        ("a(b@c>", None),
        ("@c>", None),
    ] {
        let mut p = Rfc5321Parser::new(ByteIter::new(text.as_bytes()));
        assert_eq!(p.address(), Ok(address.map(|a| a.to_string())), "{text:?}");
    }
}

#[test]
fn scanner_mechanisms() {
    for (text, mechanism) in [
        ("PLAIN ", Some(AUTH_PLAIN)),
        ("plain\n", Some(AUTH_PLAIN)),
        ("XOAUTH2 ", Some(AUTH_XOAUTH2)),
        ("ECDSA-NIST256P-CHALLENGE ", Some(AUTH_ECDSA_NIST256P_CHALLENGE)),
        ("ECDSA-NIST256P-CHALLENGES ", Some(0)),
        ("ECDSA-NIST256P-CHALLENGE-AND-MORE ", Some(0)),
        ("NOPE ", Some(0)),
        ("\n", None),
    ] {
        let mut p = Rfc5321Parser::new(ByteIter::new(text.as_bytes()));
        assert_eq!(p.mechanism(), Ok(mechanism), "{text:?}");
    }
}
