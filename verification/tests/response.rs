use smtp_proto::bytes::ByteIter;
use smtp_proto::response::generate::BitToString;
use smtp_proto::response::parser::{ResponseReceiver, MAX_RESPONSE_LENGTH};
use smtp_proto::{
    Category, EhloResponse, Error, IntoString, MtPriority, Response, Severity, AUTH_DIGEST_MD5,
    AUTH_GSSAPI, AUTH_KERBEROS_V4, AUTH_KERBEROS_V5, AUTH_NMAS_AUTHEN, AUTH_NMAS_LOGIN, AUTH_PLAIN, AUTH_SCRAM_SHA_256_PLUS, EXT_8BIT_MIME, EXT_ATRN,
    EXT_AUTH, EXT_BINARY_MIME, EXT_BURL, EXT_CHECKPOINT, EXT_CHUNKING, EXT_CONNEG, EXT_CONPERM,
    EXT_DELIVER_BY, EXT_DSN, EXT_ENHANCED_STATUS_CODES, EXT_ETRN, EXT_EXPN, EXT_FUTURE_RELEASE,
    EXT_HELP, EXT_MTRK, EXT_MT_PRIORITY, EXT_NO_SOLICITING, EXT_PIPELINING, EXT_REQUIRE_TLS,
    EXT_RRVS, EXT_SIZE, EXT_SMTP_UTF8, EXT_START_TLS, EXT_VRFY,
};

#[test]
fn parse_ehlo() {
    for item in [
        (
            "250-dbc.mtview.ca.us says hello\n250-8BITMIME\n250-ATRN\n250-AUTH GSSAPI DIGEST-MD5 PLAIN\n250-BINARYMIME\n250-BURL imap\n250-CHECKPOINT\n250-CHUNKING\n250-CONNEG\n250-CONPERM\n250-DELIVERBY\n250-DSN\n250-ENHANCEDSTATUSCODES\n250-ETRN\n250-EXPN\n250-VRFY\n250-FUTURERELEASE 1234 5678\n250-HELP\n250-MT-PRIORITY\n250-MTRK\n250-NO-SOLICITING net.example:ADV\n250-PIPELINING\n250-REQUIRETLS\n250-RRVS\n250-SIZE 1000000\n250-SMTPUTF8 ignore\n250 STARTTLS\n",
            Ok(EhloResponse {
                hostname: "dbc.mtview.ca.us".to_string(),
                capabilities: EXT_8BIT_MIME
                    | EXT_ATRN
                    | EXT_AUTH
                    | EXT_BINARY_MIME
                    | EXT_BURL
                    | EXT_CHECKPOINT
                    | EXT_CHUNKING
                    | EXT_CONNEG
                    | EXT_CONPERM
                    | EXT_DELIVER_BY
                    | EXT_DSN
                    | EXT_ENHANCED_STATUS_CODES
                    | EXT_ETRN
                    | EXT_EXPN
                    | EXT_VRFY
                    | EXT_FUTURE_RELEASE
                    | EXT_HELP
                    | EXT_MT_PRIORITY
                    | EXT_MTRK
                    | EXT_NO_SOLICITING
                    | EXT_PIPELINING
                    | EXT_REQUIRE_TLS
                    | EXT_RRVS
                    | EXT_SIZE
                    | EXT_SMTP_UTF8
                    | EXT_START_TLS,
                auth_mechanisms: AUTH_GSSAPI | AUTH_DIGEST_MD5 | AUTH_PLAIN,
                deliver_by: 0,
                future_release_interval: 1234,
                future_release_datetime: 5678,
                mt_priority: MtPriority::Mixer,
                no_soliciting: Some("net.example:ADV".to_string()),
                size: 1000000,
            }),
        ),
        (
            "250-\n250-DELIVERBY 240\n250-FUTURERELEASE 123\n250-MT-PRIORITY MIXER\n250-NO-SOLICITING\n250-SIZE\n250 SMTPUTF8\n",
            Ok(EhloResponse {
                hostname: "".to_string(),
                capabilities: EXT_DELIVER_BY
                    | EXT_FUTURE_RELEASE
                    | EXT_MT_PRIORITY
                    | EXT_NO_SOLICITING
                    | EXT_SIZE
                    | EXT_SMTP_UTF8,
                auth_mechanisms: 0,
                deliver_by: 240,
                future_release_interval: 123,
                future_release_datetime: 0,
                mt_priority: MtPriority::Mixer,
                no_soliciting: None,
                size: 0,
            }),
        ),
        (
            "250-dbc.mtview.ca.us says hello\n250-FUTURERELEASE\n250 MT-PRIORITY STANAG4406\n",
            Ok(EhloResponse {
                hostname: "dbc.mtview.ca.us".to_string(),
                capabilities: EXT_FUTURE_RELEASE | EXT_MT_PRIORITY,
                auth_mechanisms: 0,
                deliver_by: 0,
                future_release_interval: 0,
                future_release_datetime: 0,
                mt_priority: MtPriority::Stanag4406,
                no_soliciting: None,
                size: 0,
            }),
        ),
        (
            "523-Massive\n523-Error\n523 Message\n",
            Err(Error::InvalidResponse { code: 523 }),
        ),
    ] {
        let (response, parsed_response): (&str, Result<EhloResponse<String>, Error>) = item;

        for replacement in ["", "\r\n", " \n", " \r\n"] {
            let response = if !replacement.is_empty() && parsed_response.is_ok() {
                response.replace('\n', replacement)
            } else {
                response.to_string()
            };
            assert_eq!(
                parsed_response,
                EhloResponse::parse(&mut ByteIter::new(response.as_bytes())),
                "failed for {response:?}",
            );
        }
    }
}

#[test]
fn parse_response() {
    let mut all_responses = Vec::new();
    let mut all_parsed_responses = Vec::new();

    for (response, parsed_response, _) in [
        (
            "250 2.1.1 Originator <ned@ymir.claremont.edu> ok\n",
            Response {
                code: 250,
                esc: [2, 1, 1],
                message: "Originator <ned@ymir.claremont.edu> ok".to_string(),
            },
            true,
        ),
        (
            "551-5.7.1 Forwarding to remote hosts disabled\n551 5.7.1 Select another host to act as your forwarder\n",
            Response {
                code: 551,
                esc: [5, 7, 1],
                message: "Forwarding to remote hosts disabled\nSelect another host to act as your forwarder"
                    .to_string(),
            },
            true,
        ),
        (
            "550-mailbox unavailable\n550 user has moved with no forwarding address\n",
            Response {
                code: 550,
                esc: [0, 0, 0],
                message: "mailbox unavailable\nuser has moved with no forwarding address"
                    .to_string(),
            },
            false,
        ),
        (
            "550-mailbox unavailable\n550 user has moved with no forwarding address\n",
            Response {
                code: 550,
                esc: [0, 0, 0],
                message: "mailbox unavailable\nuser has moved with no forwarding address"
                    .to_string(),
            },
            true,
        ),
        (
            "432-6.8.9\n432-6.8.9 Hello\n432-6.8.9 \n432-6.8.9 ,\n432-\n432-6\n432-6.\n432-6.8\n432-6.8.9\n432 6.8.9 World!\n",
            Response {
                code: 432,
                esc: [6, 8, 9],
                message: "\nHello\n\n,\n\n\n6\n\n6.\n\n6.8\n\n\nWorld!".to_string(),
            },
            true,
        ),
        (
            "250 2address.org\n",
            Response {
                code: 250,
                esc: [0, 0, 0],
                message: "2address.org".to_string(),
            },
            true,
        ),
        (
            "250 100.address.org\n",
            Response {
                code: 250,
                esc: [0, 0, 0],
                message: "100.address.org".to_string(),
            },
            true,
        ),
        (
            "250 111111111111\n",
            Response {
                code: 250,
                esc: [0, 0, 0],
                message: "111111111111".to_string(),
            },
            true,
        ),
        (
            "250 99999999999999\n",
            Response {
                code: 250,
                esc: [0, 0, 0],
                message: "99999999999999".to_string(),
            },
            true,
        ),
        (
            "250 2.0.0 Message queued for delivery.\r\n",
            Response {
                code: 250,
                esc: [2, 0, 0],
                message: "Message queued for delivery.".to_string(),
            },
            true,
        ),
        (
            "250-Missing space\n250\n250 Ignore this",
            Response {
                code: 250,
                esc: [0, 0, 0],
                message: "Missing space\n".to_string(),
            },
            true,
        ),
    ] {
        assert_eq!(
            parsed_response,
            ResponseReceiver::default()
                .parse(&mut ByteIter::new(response.as_bytes()))
                .unwrap(),
            "failed for {response:?}",
        );
        all_responses.extend_from_slice(response.as_bytes());
        all_parsed_responses.push(parsed_response);
    }

    // Test receiver
    for chunk_size in [5, 10, 20, 30, 40, 50, 60] {
        let mut receiver = ResponseReceiver::default();
        let mut parsed_response = all_parsed_responses.clone().into_iter();
        for chunk in all_responses.chunks(chunk_size) {
            let mut bytes = ByteIter::new(chunk);
            loop {
                match receiver.parse(&mut bytes) {
                    Ok(response) => {
                        assert_eq!(
                            parsed_response.next(),
                            Some(response),
                            "chunk size {chunk_size}",
                        );
                        receiver.reset();
                    }
                    Err(Error::NeedsMoreData { .. }) => {
                        break;
                    }
                    err => panic!("Unexpected error {err:?} for chunk size {chunk_size}"),
                }
            }
        }
    }
}

#[test]
fn ehlo_priority_profile() {
    let reply = "250-mx.example.org hi\r\n250 MT-PRIORITY STANAG4406\r\n";
    let parsed = EhloResponse::parse(&mut ByteIter::new(reply.as_bytes())).unwrap();
    assert_eq!(parsed.mt_priority, MtPriority::Stanag4406);
    assert!(parsed.has_capability(EXT_MT_PRIORITY));
    assert_eq!(parsed.capabilities(), EXT_MT_PRIORITY);
    assert_eq!(parsed.hostname(), "mx.example.org");
    assert_eq!(parsed.auth(), 0);
}

#[test]
fn ehlo_incomplete_asks_for_more() {
    let reply = "250-mx.example.org hi\r\n250-SIZE 10";
    assert_eq!(
        EhloResponse::parse(&mut ByteIter::new(reply.as_bytes())),
        Err(Error::NeedsMoreData { bytes_left: reply.len() })
    );
}

#[test]
fn ehlo_errors() {
    assert_eq!(
        EhloResponse::parse(&mut ByteIter::new(b"25x-host\n")),
        Err(Error::SyntaxError { syntax: "unexpected token" })
    );
    assert_eq!(
        EhloResponse::parse(&mut ByteIter::new(b"250+host\n")),
        Err(Error::SyntaxError { syntax: "unexpected token" })
    );
    let long = format!("250-{}\n", "h".repeat(MAX_RESPONSE_LENGTH + 1));
    assert_eq!(
        EhloResponse::parse(&mut ByteIter::new(long.as_bytes())),
        Err(Error::ResponseTooLong)
    );
}

#[test]
fn ehlo_enhanced_status_codes_needs_all_letters() {
    let parsed =
        EhloResponse::parse(&mut ByteIter::new(b"250-h\n250-enhancedstatuscodes\n250 HELP\n"))
            .unwrap();
    assert_eq!(parsed.capabilities, EXT_ENHANCED_STATUS_CODES | EXT_HELP);
    let parsed =
        EhloResponse::parse(&mut ByteIter::new(b"250-h\n250-ENHANCEDSTATUSCOD\n250 HELP\n"))
            .unwrap();
    assert_eq!(parsed.capabilities, EXT_HELP);
    let parsed =
        EhloResponse::parse(&mut ByteIter::new(b"250-h\n250-ENHANCEDSTATUSCODEX\n250 HELP\n"))
            .unwrap();
    assert_eq!(parsed.capabilities, EXT_HELP);
}

#[test]
fn ehlo_round_trip() {
    let mut reply = EhloResponse::new("mx.example.org".to_string());
    reply.capabilities = EXT_SIZE
        | EXT_AUTH
        | EXT_DELIVER_BY
        | EXT_FUTURE_RELEASE
        | EXT_MT_PRIORITY
        | EXT_NO_SOLICITING
        | EXT_START_TLS
        | EXT_8BIT_MIME
        | EXT_ENHANCED_STATUS_CODES;
    reply.auth_mechanisms = AUTH_PLAIN | AUTH_SCRAM_SHA_256_PLUS | AUTH_GSSAPI;
    reply.size = 1000;
    reply.deliver_by = 30;
    reply.future_release_interval = 7;
    reply.future_release_datetime = 9;
    reply.mt_priority = MtPriority::Nsep;
    reply.no_soliciting = Some("net.example:ADV".to_string());
    let mut wire = Vec::new();
    reply.write(&mut wire);
    assert_eq!(EhloResponse::parse(&mut ByteIter::new(&wire)), Ok(reply));
}

#[test]
fn ehlo_write() {
    let mut reply = EhloResponse::new("mx.example.org".to_string());
    let mut wire = Vec::new();
    reply.write(&mut wire);
    assert_eq!(String::from_utf8(wire).unwrap(), "250-mx.example.org you had me at EHLO\r\n");

    reply.capabilities = EXT_SIZE | EXT_AUTH | EXT_DELIVER_BY | EXT_VRFY | EXT_8BIT_MIME;
    reply.auth_mechanisms = AUTH_PLAIN | AUTH_KERBEROS_V4 | AUTH_SCRAM_SHA_256_PLUS;
    reply.size = 1048576;
    let mut wire = b">".to_vec();
    reply.write(&mut wire);
    assert_eq!(
        String::from_utf8(wire).unwrap(),
        ">250-mx.example.org you had me at EHLO\r\n250-VRFY\r\n250-SIZE 1048576\r\n250-DELIVERBY\r\n250-AUTH PLAIN KERBEROS-V4 SCRAM-SHA-256-PLUS\r\n250 8BITMIME\r\n"
    );
    assert_eq!(reply.to_text().into_bytes(), {
        let mut wire = Vec::new();
        reply.write(&mut wire);
        wire
    });

    let mut reply = EhloResponse::new("h".to_string());
    reply.capabilities = EXT_FUTURE_RELEASE | EXT_MT_PRIORITY | EXT_NO_SOLICITING;
    reply.mt_priority = MtPriority::Stanag4406;
    let mut wire = Vec::new();
    reply.write(&mut wire);
    assert_eq!(
        String::from_utf8(wire).unwrap(),
        "250-h you had me at EHLO\r\n250-NO-SOLICITING\r\n250-MT-PRIORITY STANAG4406\r\n250 FUTURERELEASE 0 0\r\n"
    );
}

#[test]
fn response_write() {
    let reply = Response::new(250, 2, 1, 0, "OK".to_string());
    let mut wire = Vec::new();
    reply.write(&mut wire);
    assert_eq!(wire, b"250 2.1.0 OK\r\n".to_vec());
    assert_eq!(reply.to_text(), "250 2.1.0 OK\r\n");
    assert_eq!(reply.to_string(), "Code: 250, Enhanced code: 2.1.0, Message: OK");
    let reply = Response::new(65535, 255, 0, 109, "".to_string());
    assert_eq!(reply.to_text(), "65535 255.0.109 \r\n");
}

#[test]
fn response_code_parts() {
    for (code, severity, category, details) in [
        (250, Severity::PositiveCompletion, Category::MailSystem, 0),
        (354, Severity::PositiveIntermediate, Category::MailSystem, 4),
        (421, Severity::TransientNegativeCompletion, Category::Connections, 1),
        (503, Severity::PermanentNegativeCompletion, Category::Syntax, 3),
        (214, Severity::PositiveCompletion, Category::Information, 4),
        (199, Severity::Invalid, Category::Invalid, 9),
        (600, Severity::Invalid, Category::Syntax, 0),
        (535, Severity::PermanentNegativeCompletion, Category::Unspecified3, 5),
        (545, Severity::PermanentNegativeCompletion, Category::Unspecified4, 5),
    ] {
        let reply = Response::new(code, 0, 0, 0, ());
        assert_eq!(reply.code(), code);
        assert_eq!(reply.severity(), severity, "{code}");
        assert_eq!(reply.category(), category, "{code}");
        assert_eq!(reply.details(), details, "{code}");
        assert_eq!(reply.is_positive_completion(), (200..300).contains(&code));
        assert_eq!(reply.message(), &());
    }
    assert_eq!(Severity::PermanentNegativeCompletion.digit(), 5);
    assert_eq!(Severity::Invalid.digit(), 0);
    assert_eq!(Category::MailSystem.digit(), 5);
    assert_eq!(Category::Invalid.digit(), 6);
}

#[test]
fn response_explanations() {
    let reply = Response::new(550, 5, 7, 1, ());
    assert_eq!(reply.explain_class_code().unwrap().0, "Permanent Failure");
    assert_eq!(reply.explain_subject_code().unwrap().0, "Security or Policy Status");
    assert_eq!(
        reply.explain_status_code(),
        Some((
            "Delivery not authorized, message refused",
            "The sender is not authorized to send to the destination. This can be the result of per-host or per-recipient filtering. This memo does not discuss the merits of any such filtering, but provides a mechanism to report such."
        ))
    );
    let reply = Response::new(250, 2, 6, 10, ());
    assert_eq!(reply.explain_class_code().unwrap().0, "Success");
    assert_eq!(
        reply.explain_status_code().unwrap().0,
        "UTF-8 string reply is required, but not permitted by the SMTP client"
    );
    assert_eq!(Response::new(250, 2, 6, 8, ()).explain_status_code(), reply.explain_status_code());
    let reply = Response::new(250, 3, 8, 0, ());
    assert_eq!(reply.explain_class_code(), None);
    assert_eq!(reply.explain_subject_code(), None);
    assert_eq!(reply.explain_status_code(), None);
    assert_eq!(Response::new(250, 2, 7, 31, ()).explain_status_code(), None);
    assert_eq!(
        Response::new(250, 2, 7, 30, ()).explain_status_code().unwrap().0,
        "REQUIRETLS support required"
    );
    assert_eq!(
        Response::new(250, 4, 0, 0, ()).explain_class_code().unwrap().0,
        "Persistent Transient Failure"
    );
}

#[test]
fn mechanism_names() {
    assert_eq!(AUTH_SCRAM_SHA_256_PLUS.to_mechanism(), "SCRAM-SHA-256-PLUS");
    assert_eq!(AUTH_PLAIN.to_mechanism(), "PLAIN");
    assert_eq!(AUTH_KERBEROS_V4.to_mechanism(), "KERBEROS-V4");
    assert_eq!(AUTH_KERBEROS_V5.to_mechanism(), "KERBEROS-V5");
    assert_eq!(AUTH_NMAS_AUTHEN.to_mechanism(), "NMAS-AUTHEN");
    assert_eq!(AUTH_NMAS_LOGIN.to_mechanism(), "NMAS-LOGIN");
    assert_eq!((AUTH_PLAIN | AUTH_GSSAPI).to_mechanism(), "");
    assert_eq!(0u64.to_mechanism(), "");
}

#[test]
fn response_too_long() {
    let mut receiver = ResponseReceiver::default();
    let line = format!("250 {}\n", "x".repeat(MAX_RESPONSE_LENGTH));
    let reply = receiver.parse(&mut ByteIter::new(line.as_bytes())).unwrap();
    assert_eq!(reply.message.len(), MAX_RESPONSE_LENGTH);

    let mut receiver = ResponseReceiver::default();
    let line = format!("250 {}\n", "x".repeat(MAX_RESPONSE_LENGTH + 1));
    assert_eq!(receiver.parse(&mut ByteIter::new(line.as_bytes())), Err(Error::ResponseTooLong));

    let mut receiver = ResponseReceiver::default();
    let lines = "250-1\n".repeat(MAX_RESPONSE_LENGTH);
    assert_eq!(receiver.parse(&mut ByteIter::new(lines.as_bytes())), Err(Error::ResponseTooLong));
}

#[test]
fn response_syntax_errors() {
    assert_eq!(
        ResponseReceiver::default().parse(&mut ByteIter::new(b"2x0 hi\n")),
        Err(Error::SyntaxError { syntax: "Invalid response code" })
    );
    assert_eq!(
        ResponseReceiver::default().parse(&mut ByteIter::new(b"250+hi\n")),
        Err(Error::SyntaxError { syntax: "Invalid response separator" })
    );
    assert_eq!(
        ResponseReceiver::default().parse(&mut ByteIter::new(b"250 hi")),
        Err(Error::NeedsMoreData { bytes_left: 0 })
    );
}

#[test]
fn response_after_code() {
    let mut receiver = ResponseReceiver::from_code(221);
    let mut bytes = ByteIter::new(b" 2.0.0 Bye\r\nnext");
    assert_eq!(
        receiver.parse(&mut bytes),
        Ok(Response { code: 221, esc: [2, 0, 0], message: "Bye".to_string() })
    );
    assert_eq!(bytes.as_slice(), b"next");
}

#[test]
fn error_text() {
    assert_eq!(
        Error::NeedsMoreData { bytes_left: 42 }.to_string(),
        "Needs more data: 42 bytes left"
    );
    assert_eq!(Error::UnknownCommand.to_string(), "Unknown command");
    assert_eq!(Error::InvalidSenderAddress.to_string(), "Invalid sender address");
    assert_eq!(Error::InvalidRecipientAddress.to_string(), "Invalid recipient address");
    assert_eq!(Error::SyntaxError { syntax: "EHLO domain" }.to_string(), "Syntax error: EHLO domain");
    assert_eq!(Error::InvalidParameter { param: "BY" }.to_string(), "Invalid parameter: BY");
    assert_eq!(
        Error::UnsupportedParameter { param: "X=1".to_string() }.to_string(),
        "Unsupported parameter: X=1"
    );
    assert_eq!(Error::ResponseTooLong.to_string(), "Response too long");
    assert_eq!(Error::InvalidResponse { code: 523 }.to_string(), "Invalid response: 523");
}

#[test]
fn bytes_into_string() {
    assert_eq!(b"plain".to_vec().into_string(), "plain");
    assert_eq!(vec![b'a', 0xff, b'b'].into_string(), "a\u{fffd}b");
    assert_eq!("孫子".as_bytes().to_vec().into_string(), "孫子");
}

#[test]
fn enhanced_status_code_form() {
    for (line, esc, message) in [
        ("250 2.1.5 ok\n", [2, 1, 5], "ok"),
        ("250 100.100.100 ok\n", [100, 100, 100], "ok"),
        ("250 999.1.1 ok\n", [255, 1, 1], "ok"),
        ("250 2.1.5\r\n", [2, 1, 5], ""),
        ("250 2.1.5\n", [2, 1, 5], ""),
        ("250 .. x\n", [0, 0, 0], ".. x"),
        ("250 2..1 x\n", [0, 0, 0], "2..1 x"),
        ("250 2.1. x\n", [0, 0, 0], "2.1. x"),
        ("250 0000.1.1 x\n", [0, 0, 0], "0000.1.1 x"),
        ("250 2.1.5x\n", [0, 0, 0], "2.1.5x"),
        ("250 2.1.5.7 x\n", [0, 0, 0], "2.1.5.7 x"),
    ] {
        assert_eq!(
            ResponseReceiver::default().parse(&mut ByteIter::new(line.as_bytes())),
            Ok(Response { code: 250, esc, message: message.to_string() }),
            "{line:?}"
        );
    }
}

#[test]
fn reply_code_range() {
    for (line, code) in [("999 x\n", 999), ("000 x\n", 0), ("199 x\n", 199), ("600-x\n", 600)] {
        let mut bytes = ByteIter::new(line.as_bytes());
        assert_eq!(
            ResponseReceiver::default().parse(&mut bytes),
            Err(Error::InvalidResponse { code }),
            "{line:?}"
        );
        assert_eq!(bytes.position(), 3, "{line:?}");
    }
    for code in [200u16, 354, 599] {
        let line = format!("{code} ok\n");
        assert_eq!(
            ResponseReceiver::default().parse(&mut ByteIter::new(line.as_bytes())),
            Ok(Response { code, esc: [0, 0, 0], message: "ok".to_string() })
        );
    }
    assert_eq!(
        ResponseReceiver::from_code(999).parse(&mut ByteIter::new(b" x\n")),
        Err(Error::InvalidResponse { code: 999 })
    );
}

#[test]
fn written_reply_reads_back() {
    for reply in [
        Response::new(250, 2, 1, 0, "OK".to_string()),
        Response::new(599, 255, 0, 100, "".to_string()),
        Response::new(200, 0, 0, 0, "2.0.0 queued as \u{5b6b}".to_string()),
        Response::new(451, 4, 3, 0, " spaces  kept ".to_string()),
    ] {
        let mut wire = Vec::new();
        reply.write(&mut wire);
        assert_eq!(ResponseReceiver::default().parse(&mut ByteIter::new(&wire)), Ok(reply));
    }
}

#[test]
fn written_mechanisms_read_back() {
    let mut reply = EhloResponse::new("h".to_string());
    reply.capabilities = EXT_AUTH;
    reply.auth_mechanisms = (1u64 << 42) - 1;
    let mut wire = Vec::new();
    reply.write(&mut wire);
    assert_eq!(EhloResponse::parse(&mut ByteIter::new(&wire)), Ok(reply));
}

#[test]
fn ehlo_response_as_ref() {
    let reply = EhloResponse::new("h".to_string());
    let same: &EhloResponse<String> = reply.as_ref();
    assert_eq!(same, &reply);
}

#[test]
fn reply_lines_share_their_code() {
    assert_eq!(
        ResponseReceiver::default().parse(&mut ByteIter::new(b"250-a\n251 b\n")),
        Err(Error::InvalidResponse { code: 251 })
    );
    assert_eq!(
        ResponseReceiver::default().parse(&mut ByteIter::new(b"250-a\n250-b\n550 c\n")),
        Err(Error::InvalidResponse { code: 550 })
    );
    assert_eq!(
        ResponseReceiver::from_code(220).parse(&mut ByteIter::new(b"-a\n220 b\n")),
        Ok(Response { code: 220, esc: [0, 0, 0], message: "a\nb".to_string() })
    );
    let mut receiver = ResponseReceiver::default();
    assert!(receiver.parse(&mut ByteIter::new(b"250-a\n25")).is_err());
    assert_eq!(
        receiver.parse(&mut ByteIter::new(b"0 b\n")),
        Ok(Response { code: 250, esc: [0, 0, 0], message: "a\nb".to_string() })
    );
}
