use smtp_proto::bytes::ByteIter;
use smtp_proto::request::parser::Rfc5321Parser;
use smtp_proto::request::receiver::{DataReceiver, RequestReceiver};
use smtp_proto::{
    Error, MailFrom, Mtrk, RcptTo, Request, AUTH_ECDSA_NIST256P_CHALLENGE, AUTH_GSSAPI,
    AUTH_SCRAM_SHA_256_PLUS, MAIL_BODY_7BIT, MAIL_BODY_8BITMIME, MAIL_BODY_BINARYMIME,
    MAIL_BY_NOTIFY, MAIL_BY_RETURN, MAIL_BY_TRACE, MAIL_CONPERM, MAIL_REQUIRETLS, MAIL_RET_FULL,
    MAIL_RET_HDRS, MAIL_SMTPUTF8, RCPT_CONNEG, RCPT_NOTIFY_DELAY, RCPT_NOTIFY_FAILURE,
    RCPT_NOTIFY_NEVER, RCPT_NOTIFY_SUCCESS, RCPT_RRVS_CONTINUE, RCPT_RRVS_REJECT,
};

fn mail(address: &str) -> MailFrom<String> {
    MailFrom { address: address.to_string(), ..Default::default() }
}

fn rcpt(address: &str) -> RcptTo<String> {
    RcptTo { address: address.to_string(), ..Default::default() }
}

fn parse(line: &str) -> Result<Request<String>, Error> {
    Request::parse(&mut ByteIter::new(line.as_bytes()))
}

#[test]
fn parse_request() {
    for item in [
        // HELO et al.
        (
            "EHLO bar.com",
            Ok(Request::Ehlo {
                host: "bar.com".to_string(),
            }),
        ),
        (
            "EHLO",
            Err(Error::SyntaxError {
                syntax: "EHLO domain",
            }),
        ),
        (
            "HELO bar.com",
            Ok(Request::Helo {
                host: "bar.com".to_string(),
            }),
        ),
        (
            "HELO",
            Err(Error::SyntaxError {
                syntax: "HELO domain",
            }),
        ),
        (
            "LHLO bar.com",
            Ok(Request::Lhlo {
                host: "bar.com".to_string(),
            }),
        ),
        (
            "LHLO",
            Err(Error::SyntaxError {
                syntax: "LHLO domain",
            }),
        ),
        // VRFY
        (
            "VRFY Hello",
            Ok(Request::Vrfy {
                value: "Hello".to_string(),
            }),
        ),
        (
            "VRFY \"Hello\\\" Wo\\\\rld\"",
            Ok(Request::Vrfy {
                value: "Hello\" Wo\\rld".to_string(),
            }),
        ),
        (
            "VRFY \"\"",
            Err(Error::SyntaxError {
                syntax: "VRFY string",
            }),
        ),
        (
            "VRFY",
            Err(Error::SyntaxError {
                syntax: "VRFY string",
            }),
        ),
        // EXPN
        (
            "EXPN Hello",
            Ok(Request::Expn {
                value: "Hello".to_string(),
            }),
        ),
        (
            "EXPN \"Hello\\\" Wo\\\\rld\"",
            Ok(Request::Expn {
                value: "Hello\" Wo\\rld".to_string(),
            }),
        ),
        (
            "EXPN \"\"",
            Err(Error::SyntaxError {
                syntax: "EXPN string",
            }),
        ),
        (
            "EXPN",
            Err(Error::SyntaxError {
                syntax: "EXPN string",
            }),
        ),
        // NOOP
        ("NOOP", Ok(Request::Noop { value: "".to_string() })),
        (
            "NOOP Hello",
            Ok(Request::Noop {
                value: "Hello".to_string(),
            }),
        ),
        // HELP
        ("HELP", Ok(Request::Help { value: "".to_string() })),
        (
            "HELP Hello",
            Ok(Request::Help {
                value: "Hello".to_string(),
            }),
        ),
        // No param commands
        ("DATA", Ok(Request::Data)),
        ("QUIT", Ok(Request::Quit)),
        ("RSET", Ok(Request::Rset)),
        ("STARTTLS", Ok(Request::StartTls)),
        // BDAT
        (
            "BDAT 0",
            Ok(Request::Bdat {
                chunk_size: 0,
                is_last: false,
            }),
        ),
        (
            "BDAT 123456",
            Ok(Request::Bdat {
                chunk_size: 123456,
                is_last: false,
            }),
        ),
        (
            "BDAT 123456 LAST",
            Ok(Request::Bdat {
                chunk_size: 123456,
                is_last: true,
            }),
        ),
        (
            "BDAT",
            Err(Error::SyntaxError {
                syntax: "BDAT chunk-size [LAST]",
            }),
        ),
        (
            "BDAT 123LAST",
            Err(Error::SyntaxError {
                syntax: "BDAT chunk-size [LAST]",
            }),
        ),
        (
            "BDAT 123x LAST",
            Err(Error::SyntaxError {
                syntax: "BDAT chunk-size [LAST]",
            }),
        ),
        (
            "BDAT LAST",
            Err(Error::SyntaxError {
                syntax: "BDAT chunk-size [LAST]",
            }),
        ),
        // AUTH
        (
            "AUTH GSSAPI",
            Ok(Request::Auth {
                mechanism: AUTH_GSSAPI,
                initial_response: "".to_string(),
            }),
        ),
        (
            "AUTH ECDSA-NIST256P-CHALLENGE =",
            Ok(Request::Auth {
                mechanism: AUTH_ECDSA_NIST256P_CHALLENGE,
                initial_response: "=".to_string(),
            }),
        ),
        (
            "AUTH SCRAM-SHA-256-PLUS base64_goes_here",
            Ok(Request::Auth {
                mechanism: AUTH_SCRAM_SHA_256_PLUS,
                initial_response: "base64_goes_here".to_string(),
            }),
        ),
        (
            "AUTH ECDSA-NIST256P-CHALLENGE100 abcde",
            Ok(Request::Auth {
                mechanism: 0,
                initial_response: "abcde".to_string(),
            }),
        ),
        (
            "AUTH",
            Err(Error::SyntaxError {
                syntax: "AUTH mechanism [initial-response]",
            }),
        ),
        // ETRN
        (
            "ETRN Hello",
            Ok(Request::Etrn {
                name: "Hello".to_string(),
            }),
        ),
        (
            "ETRN \"Hello\\\" Wo\\\\rld\"",
            Ok(Request::Etrn {
                name: "Hello\" Wo\\rld".to_string(),
            }),
        ),
        (
            "ETRN \"\"",
            Err(Error::SyntaxError {
                syntax: "ETRN name",
            }),
        ),
        (
            "ETRN",
            Err(Error::SyntaxError {
                syntax: "ETRN name",
            }),
        ),
        // ATRN
        (
            "ATRN example.org",
            Ok(Request::Atrn {
                domains: vec!["example.org".to_string()],
            }),
        ),
        (
            "ATRN example.org,example.com,example.net",
            Ok(Request::Atrn {
                domains: vec![
                    "example.org".to_string(),
                    "example.com".to_string(),
                    "example.net".to_string(),
                ],
            }),
        ),
        (
            "ATRN example.org, example.com, example.net",
            Ok(Request::Atrn {
                domains: vec![
                    "example.org".to_string(),
                    "example.com".to_string(),
                    "example.net".to_string(),
                ],
            }),
        ),
        (
            "ATRN",
            Err(Error::SyntaxError {
                syntax: "ATRN domain[,domain]",
            }),
        ),
        // BURL
        (
            "BURL imap://harry@gryffindor.example.com/outbox;uidvalidity=1078863300/;uid=25;urlauth=submit+harry:internal:91354a473744909de610943775f92038 LAST",
            Ok(Request::Burl {
                uri: "imap://harry@gryffindor.example.com/outbox;uidvalidity=1078863300/;uid=25;urlauth=submit+harry:internal:91354a473744909de610943775f92038".to_string(),
                is_last: true,
            }),
        ),
        (
            "BURL imap:://test.example.org",
            Ok(Request::Burl {
                uri: "imap:://test.example.org".to_string(),
                is_last: false,
            }),
        ),
        (
            "BURL",
            Err(Error::SyntaxError {
                syntax: "BURL absolute-uri [LAST]",
            }),
        ),
        // MAIL FROM
        (
            "MAIL FROM:<JQP@bar.com>",
            Ok(Request::Mail {
                from: mail("JQP@bar.com"),
            }),
        ),
        (
            "MAIL FROM:<@a,@b:user@d>",
            Ok(Request::Mail {
                from: mail("user@d"),
            }),
        ),
        (
            "MAIL FROM:<\"@a,@b:<user>\"@d>",
            Ok(Request::Mail {
                from: mail("@a,@b:<user>@d"),
            }),
        ),
        (
            "MAIL FROM: <\" hi there! \"@d>",
            Ok(Request::Mail {
                from: mail(" hi there! @d"),
            }),
        ),
        ("MAIL  FROM : <>", Ok(Request::Mail { from: mail("") })),
        ("MAIL  FROM : < >", Ok(Request::Mail { from: mail("") })),
        (
            "MAIL FROM:<hi.there@valid.org>",
            Ok(Request::Mail {
                from: mail("hi.there@valid.org"),
            }),
        ),
        ("MAIL FROM:<@invalid>", Err(Error::InvalidSenderAddress)),
        (
            "MAIL FROM:<hi@@invalid.org>",
            Err(Error::InvalidSenderAddress),
        ),
        (
            "MAIL FROM:<hi..there@invalid.org>",
            Err(Error::InvalidSenderAddress),
        ),
        (
            "MAIL FROM:<hi.there@invalid..org>",
            Err(Error::InvalidSenderAddress),
        ),
        (
            "MAIL FROM:<hi.there@.invalid.org>",
            Err(Error::InvalidSenderAddress),
        ),
        (
            "MAIL FROM:<.hi.there@invalid.org>",
            Err(Error::InvalidSenderAddress),
        ),
        ("MAIL FROM:<@>", Err(Error::InvalidSenderAddress)),
        ("MAIL FROM:<.@.>", Err(Error::InvalidSenderAddress)),
        (
            "RCPT TO:<孫子@áéíóú.org>",
            Ok(Request::Rcpt {
                to: rcpt("孫子@áéíóú.org"),
            }),
        ),
        // RCPT TO
        (
            "RCPT TO:<Jones@XYZ.COM>",
            Ok(Request::Rcpt {
                to: rcpt("Jones@XYZ.COM"),
            }),
        ),
        ("RCPT TO:<>", Ok(Request::Rcpt { to: rcpt("") })),
        // Invalid commands
        ("", Err(Error::UnknownCommand)),
        ("X-SPECIAL", Err(Error::UnknownCommand)),
        ("DATA_", Err(Error::UnknownCommand)),
        // Invalid parameters
        (
            "MAIL FROM:<> HELLO=WORLD",
            Err(Error::UnsupportedParameter {
                param: "HELLO=WORLD".to_string(),
            }),
        ),
        (
            "MAIL FROM:<> VERY_LONG_AND_INVALID=PARAM",
            Err(Error::UnsupportedParameter {
                param: "VERY_LONG_AND_INVALID=PARAM".to_string(),
            }),
        ),
        (
            "MAIL FROM:<> SMTPUTF8=YES",
            Err(Error::UnsupportedParameter {
                param: "SMTPUTF8=YES".to_string(),
            }),
        ),
        (
            "MAIL FROM:<> SMTPUTF8=YES",
            Err(Error::UnsupportedParameter {
                param: "SMTPUTF8=YES".to_string(),
            }),
        ),
        // Parameters
        (
            "MAIL FROM:<> SMTPUTF8",
            Ok(Request::Mail {
                from: MailFrom {
                    address: "".to_string(),
                    flags: MAIL_SMTPUTF8,
                    ..Default::default()
                },
            }),
        ),
        (
            "MAIL FROM:<> SMTPUTF8 REQUIRETLS CONPERM",
            Ok(Request::Mail {
                from: MailFrom {
                    address: "".to_string(),
                    flags: MAIL_SMTPUTF8 | MAIL_REQUIRETLS | MAIL_CONPERM,
                    ..Default::default()
                },
            }),
        ),
        (
            "RCPT TO:<> CONNEG",
            Ok(Request::Rcpt {
                to: RcptTo {
                    address: "".to_string(),
                    flags: RCPT_CONNEG,
                    ..Default::default()
                },
            }),
        ),
        (
            "MAIL FROM:<> BODY=BINARYMIME BODY=7BIT BODY=8BITMIME",
            Ok(Request::Mail {
                from: MailFrom {
                    address: "".to_string(),
                    flags: MAIL_BODY_7BIT | MAIL_BODY_8BITMIME | MAIL_BODY_BINARYMIME,
                    ..Default::default()
                },
            }),
        ),
        (
            "MAIL FROM:<> BODY=OTHER",
            Err(Error::InvalidParameter { param: "BODY" }),
        ),
        (
            "MAIL FROM:<> SIZE=500000",
            Ok(Request::Mail {
                from: MailFrom {
                    address: "".to_string(),
                    size: 500000,
                    ..Default::default()
                },
            }),
        ),
        (
            "MAIL FROM:<> SIZE=ABC",
            Err(Error::InvalidParameter { param: "SIZE" }),
        ),
        (
            "MAIL FROM:<> SIZE=-100",
            Err(Error::InvalidParameter { param: "SIZE" }),
        ),
        (
            "MAIL FROM:<> SIZE=",
            Err(Error::InvalidParameter { param: "SIZE" }),
        ),
        (
            "MAIL FROM:<> BY=120;R",
            Ok(Request::Mail {
                from: MailFrom {
                    address: "".to_string(),
                    by: 120,
                    flags: MAIL_BY_RETURN,
                    ..Default::default()
                },
            }),
        ),
        (
            "MAIL FROM:<> BY=0;N",
            Ok(Request::Mail {
                from: MailFrom {
                    address: "".to_string(),
                    by: 0,
                    flags: MAIL_BY_NOTIFY,
                    ..Default::default()
                },
            }),
        ),
        (
            "MAIL FROM:<> BY=-10;RT",
            Ok(Request::Mail {
                from: MailFrom {
                    address: "".to_string(),
                    by: -10,
                    flags: MAIL_BY_RETURN | MAIL_BY_TRACE,
                    ..Default::default()
                },
            }),
        ),
        (
            "MAIL FROM:<> BY=+22;NT",
            Ok(Request::Mail {
                from: MailFrom {
                    address: "".to_string(),
                    by: 22,
                    flags: MAIL_BY_NOTIFY | MAIL_BY_TRACE,
                    ..Default::default()
                },
            }),
        ),
        (
            "MAIL FROM:<> BY=120",
            Err(Error::InvalidParameter { param: "BY" }),
        ),
        (
            "MAIL FROM:<> BY=120;T",
            Err(Error::InvalidParameter { param: "BY" }),
        ),
        (
            "MAIL FROM:<> BY=120;",
            Err(Error::InvalidParameter { param: "BY" }),
        ),
        (
            "MAIL FROM:<> BY=120;0",
            Err(Error::InvalidParameter { param: "BY" }),
        ),
        (
            "MAIL FROM:<> BY=120;;",
            Err(Error::InvalidParameter { param: "BY" }),
        ),
        (
            "MAIL FROM:<> BY=;",
            Err(Error::InvalidParameter { param: "BY" }),
        ),
        (
            "MAIL FROM:<> BY=;R",
            Err(Error::InvalidParameter { param: "BY" }),
        ),
        (
            "MAIL FROM:<> BY=",
            Err(Error::InvalidParameter { param: "BY" }),
        ),
        (
            "MAIL FROM:<> HOLDUNTIL=12345 HOLDFOR=67890",
            Ok(Request::Mail {
                from: MailFrom {
                    address: "".to_string(),
                    hold_for: 67890,
                    hold_until: 12345,
                    ..Default::default()
                },
            }),
        ),
        (
            "MAIL FROM:<> HOLDUNTIL=0ABC",
            Err(Error::InvalidParameter { param: "HOLDUNTIL" }),
        ),
        (
            "MAIL FROM:<> HOLDUNTIL=",
            Err(Error::InvalidParameter { param: "HOLDUNTIL" }),
        ),
        (
            "MAIL FROM:<> HOLDFOR=XYZ",
            Err(Error::InvalidParameter { param: "HOLDFOR" }),
        ),
        (
            "MAIL FROM:<> HOLDFOR=",
            Err(Error::InvalidParameter { param: "HOLDFOR" }),
        ),
        (
            "RCPT TO:<> NOTIFY=FAILURE",
            Ok(Request::Rcpt {
                to: RcptTo {
                    address: "".to_string(),
                    flags: RCPT_NOTIFY_FAILURE,
                    ..Default::default()
                },
            }),
        ),
        (
            "RCPT TO:<> NOTIFY=FAILURE,DELAY",
            Ok(Request::Rcpt {
                to: RcptTo {
                    address: "".to_string(),
                    flags: RCPT_NOTIFY_FAILURE | RCPT_NOTIFY_DELAY,
                    ..Default::default()
                },
            }),
        ),
        (
            "RCPT TO:<> NOTIFY=SUCCESS,FAILURE,DELAY",
            Ok(Request::Rcpt {
                to: RcptTo {
                    address: "".to_string(),
                    flags: RCPT_NOTIFY_FAILURE | RCPT_NOTIFY_DELAY | RCPT_NOTIFY_SUCCESS,
                    ..Default::default()
                },
            }),
        ),
        (
            "RCPT TO:<> NOTIFY=NEVER",
            Ok(Request::Rcpt {
                to: RcptTo {
                    address: "".to_string(),
                    flags: RCPT_NOTIFY_NEVER,
                    ..Default::default()
                },
            }),
        ),
        (
            "RCPT TO:<> NOTIFY=",
            Err(Error::InvalidParameter { param: "NOTIFY" }),
        ),
        (
            "RCPT TO:<> NOTIFY=FAILURE,NEVER",
            Err(Error::InvalidParameter { param: "NOTIFY" }),
        ),
        (
            "RCPT TO:<> NOTIFY=CHIMICHANGA",
            Err(Error::InvalidParameter { param: "NOTIFY" }),
        ),
        (
            "RCPT TO:<> ORCPT=rfc822;Bob@Example.COM",
            Ok(Request::Rcpt {
                to: RcptTo {
                    address: "".to_string(),
                    orcpt: Some("Bob@Example.COM".to_string()),
                    ..Default::default()
                },
            }),
        ),
        (
            "RCPT TO:<> ORCPT=rfc822;George+20@Tax-+20ME+20.GOV",
            Ok(Request::Rcpt {
                to: RcptTo {
                    address: "".to_string(),
                    orcpt: Some("George @Tax- ME .GOV".to_string()),
                    ..Default::default()
                },
            }),
        ),
        (
            "RCPT TO:<> ORCPT=",
            Err(Error::InvalidParameter { param: "ORCPT" }),
        ),
        (
            "RCPT TO:<> ORCPT=;hello@domain.org",
            Err(Error::InvalidParameter { param: "ORCPT" }),
        ),
        (
            "RCPT TO:<> ORCPT=rfc822;",
            Err(Error::InvalidParameter { param: "ORCPT" }),
        ),
        (
            "RCPT TO:<> ORCPT=;",
            Err(Error::InvalidParameter { param: "ORCPT" }),
        ),
        (
            "MAIL FROM:<> RET=HDRS RET=FULL",
            Ok(Request::Mail {
                from: MailFrom {
                    address: "".to_string(),
                    flags: MAIL_RET_FULL | MAIL_RET_HDRS,
                    ..Default::default()
                },
            }),
        ),
        (
            "MAIL FROM:<> RET=",
            Err(Error::InvalidParameter { param: "RET" }),
        ),
        (
            "MAIL FROM:<> RET=ENCHILADA",
            Err(Error::InvalidParameter { param: "RET" }),
        ),
        (
            "MAIL FROM:<> ENVID=QQ314159",
            Ok(Request::Mail {
                from: MailFrom {
                    address: "".to_string(),
                    env_id: Some("QQ314159".to_string()),
                    ..Default::default()
                },
            }),
        ),
        (
            "MAIL FROM:<> ENVID=hi+20there",
            Ok(Request::Mail {
                from: MailFrom {
                    address: "".to_string(),
                    env_id: Some("hi there".to_string()),
                    ..Default::default()
                },
            }),
        ),
        (
            "MAIL FROM:<> ENVID=",
            Err(Error::InvalidParameter { param: "ENVID" }),
        ),
        (
            "MAIL FROM:<> SOLICIT=org.example:ADV:ADLT",
            Ok(Request::Mail {
                from: MailFrom {
                    address: "".to_string(),
                    solicit: Some("org.example:ADV:ADLT".to_string()),
                    ..Default::default()
                },
            }),
        ),
        (
            "MAIL FROM:<>  SOLICIT=net.example:ADV,org.example:ADV:ADLT",
            Ok(Request::Mail {
                from: MailFrom {
                    address: "".to_string(),
                    solicit: Some("net.example:ADV,org.example:ADV:ADLT".to_string()),
                    ..Default::default()
                },
            }),
        ),
        (
            "MAIL FROM:<> SOLICIT=",
            Err(Error::InvalidParameter { param: "SOLICIT" }),
        ),
        (
            "MAIL FROM:<> TRANSID=<12345@claremont.edu>",
            Ok(Request::Mail {
                from: MailFrom {
                    address: "".to_string(),
                    trans_id: Some("12345@claremont.edu".to_string()),
                    ..Default::default()
                },
            }),
        ),
        (
            "MAIL FROM:<> TRANSID=",
            Err(Error::InvalidParameter { param: "TRANSID" }),
        ),
        (
            "MAIL FROM:<> MTRK=my-ceritifier",
            Ok(Request::Mail {
                from: MailFrom {
                    address: "".to_string(),
                    mtrk: Some(Mtrk {
                        certifier: "my-ceritifier".to_string(),
                        timeout: 0,
                    }),
                    ..Default::default()
                },
            }),
        ),
        (
            "MAIL FROM:<> MTRK=other-certifier:1234",
            Ok(Request::Mail {
                from: MailFrom {
                    address: "".to_string(),
                    mtrk: Some(Mtrk {
                        certifier: "other-certifier".to_string(),
                        timeout: 1234,
                    }),
                    ..Default::default()
                },
            }),
        ),
        (
            "MAIL FROM:<> MTRK=",
            Err(Error::InvalidParameter { param: "MTRK" }),
        ),
        (
            "MAIL FROM:<> MTRK=:",
            Err(Error::InvalidParameter { param: "MTRK" }),
        ),
        (
            "MAIL FROM:<> MTRK=:998",
            Err(Error::InvalidParameter { param: "MTRK" }),
        ),
        (
            "MAIL FROM:<> MTRK=abc:",
            Err(Error::InvalidParameter { param: "MTRK" }),
        ),
        (
            "MAIL FROM:<> MTRK=abc:abc",
            Err(Error::InvalidParameter { param: "MTRK" }),
        ),
        (
            "MAIL FROM:<> AUTH=<>",
            Ok(Request::Mail {
                from: MailFrom {
                    address: "".to_string(),
                    auth: Some("<>".to_string()),
                    ..Default::default()
                },
            }),
        ),
        (
            "MAIL FROM:<> AUTH=e+3Dmc2@example.com",
            Ok(Request::Mail {
                from: MailFrom {
                    address: "".to_string(),
                    auth: Some("e=mc2@example.com".to_string()),
                    ..Default::default()
                },
            }),
        ),
        (
            "MAIL FROM:<> AUTH=",
            Err(Error::InvalidParameter { param: "AUTH" }),
        ),
        (
            "MAIL FROM:<> MT-PRIORITY=3",
            Ok(Request::Mail {
                from: MailFrom {
                    address: "".to_string(),
                    mt_priority: 3,
                    ..Default::default()
                },
            }),
        ),
        (
            "MAIL FROM:<> MT-PRIORITY=-6",
            Ok(Request::Mail {
                from: MailFrom {
                    address: "".to_string(),
                    mt_priority: -6,
                    ..Default::default()
                },
            }),
        ),
        (
            "MAIL FROM:<> MT-PRIORITY=",
            Err(Error::InvalidParameter {
                param: "MT-PRIORITY",
            }),
        ),
        (
            "MAIL FROM:<> MT-PRIORITY=ab",
            Err(Error::InvalidParameter {
                param: "MT-PRIORITY",
            }),
        ),
        (
            "MAIL FROM:<> MT-PRIORITY=-",
            Err(Error::InvalidParameter {
                param: "MT-PRIORITY",
            }),
        ),
        (
            "RCPT TO:<> RRVS=2014-04-03T23:01:00Z",
            Ok(Request::Rcpt {
                to: RcptTo {
                    address: "".to_string(),
                    rrvs: 1396566060,
                    flags: RCPT_RRVS_REJECT,
                    ..Default::default()
                },
            }),
        ),
        (
            "RCPT TO:<> RRVS=1997-11-24T14:22:01-08:00;C",
            Ok(Request::Rcpt {
                to: RcptTo {
                    address: "".to_string(),
                    rrvs: 880410121,
                    flags: RCPT_RRVS_CONTINUE,
                    ..Default::default()
                },
            }),
        ),
        (
            "RCPT TO:<> RRVS=2003-07-01T10:52:37+02:00;R",
            Ok(Request::Rcpt {
                to: RcptTo {
                    address: "".to_string(),
                    rrvs: 1057049557,
                    flags: RCPT_RRVS_REJECT,
                    ..Default::default()
                },
            }),
        ),
        (
            "RCPT TO:<> RRVS=",
            Err(Error::InvalidParameter { param: "RRVS" }),
        ),
        (
            "RCPT TO:<> RRVS=2022-01-02",
            Err(Error::InvalidParameter { param: "RRVS" }),
        ),
        (
            "RCPT TO:<> RRVS=2022-01-02T01:01:01",
            Err(Error::InvalidParameter { param: "RRVS" }),
        ),
        (
            "RCPT TO:<> RRVS=2022-01-02T01:01:01ZZ",
            Err(Error::InvalidParameter { param: "RRVS" }),
        ),
        (
            "RCPT TO:<> RRVS=ABC",
            Err(Error::InvalidParameter { param: "RRVS" }),
        ),
        (
            r#"MAIL FROM:<foo@bar"aa\\" hello world".com>"#,
            Err(Error::SyntaxError {
                syntax: "MAIL FROM:<reverse-path> [parameters]",
            }),
        ),
        (
            r#"MAIL FROM:<foo@bar"aa\" hello world".com>"#,
            Ok(Request::Mail {
                from: mail(r#"foo@baraa" hello world.com"#),
            }),
        ),
    ] {
            let (request, parsed_request): (&str, Result<Request<String>, Error>) = item;

            for extra in ["\n", "\r\n", " \n", " \r\n"] {
                let request = format!("{request}{extra}");
                assert_eq!(
                    parsed_request,
                    Request::parse(&mut ByteIter::new(request.as_bytes())),
                    "failed for {request:?}"
                );
            }
        }
}

#[test]
fn data_receiver() {
    'outer: for (data, message) in [
        (
            vec!["hi\r\n", "..\r\n", ".a\r\n", "\r\n.\r\n"],
            "hi\r\n.\r\na\r\n",
        ),
        (
            vec!["\r\na\rb\nc\r\n.d\r\n..\r\n", "\r\n.\r\n"],
            "\r\na\rb\nc\r\nd\r\n.\r\n",
        ),
        // Test SMTP smuggling attempts
        (
            vec![
                "\n.\r\n",
                "MAIL FROM:<hello@world.com>\r\n",
                "RCPT TO:<test@domain.com\r\n",
                "DATA\r\n",
                "\r\n.\r\n",
            ],
            "\n.\r\nMAIL FROM:<hello@world.com>\r\nRCPT TO:<test@domain.com\r\nDATA\r\n",
        ),
        (
            vec![
                "\n.\n",
                "MAIL FROM:<hello@world.com>\r\n",
                "RCPT TO:<test@domain.com\r\n",
                "DATA\r\n",
                "\r\n.\r\n",
            ],
            "\n.\nMAIL FROM:<hello@world.com>\r\nRCPT TO:<test@domain.com\r\nDATA\r\n",
        ),
        (
            vec![
                "\r.\r\n",
                "MAIL FROM:<hello@world.com>\r\n",
                "RCPT TO:<test@domain.com\r\n",
                "DATA\r\n",
                "\r\n.\r\n",
            ],
            "\r.\r\nMAIL FROM:<hello@world.com>\r\nRCPT TO:<test@domain.com\r\nDATA\r\n",
        ),
        (
            vec![
                "\r.\r",
                "MAIL FROM:<hello@world.com>\r\n",
                "RCPT TO:<test@domain.com\r\n",
                "DATA\r\n",
                "\r\n.\r\n",
            ],
            "\r.\rMAIL FROM:<hello@world.com>\r\nRCPT TO:<test@domain.com\r\nDATA\r\n",
        ),
    ] {
        let mut r = DataReceiver::new();
        let mut buf = Vec::new();
        for data in &data {
            if r.ingest(&mut ByteIter::new(data.as_bytes()), &mut buf) {
                assert_eq!(message, String::from_utf8(buf).unwrap());
                continue 'outer;
            }
        }
        panic!("Failed for {data:?}");
    }
}

#[test]
fn request_receiver() {
    for (data, expected_requests) in [
        (
            vec![
                "data\n",
                "start",
                "tls\n",
                "quit\nnoop",
                " hello\nehlo test\nvrfy name\n",
            ],
            vec![
                Request::Data,
                Request::StartTls,
                Request::Quit,
                Request::Noop {
                    value: "hello".to_string(),
                },
                Request::Ehlo {
                    host: "test".to_string(),
                },
                Request::Vrfy {
                    value: "name".to_string(),
                },
            ],
        ),
        (
            vec!["d", "a", "t", "a", "\n", "quit", "\n"],
            vec![Request::Data, Request::Quit],
        ),
    ] {
        let mut requests = Vec::new();
        let mut r = RequestReceiver::default();
        for data in &data {
            let mut bytes = ByteIter::new(data.as_bytes());
            loop {
                match r.ingest(&mut bytes) {
                    Ok(request) => {
                        requests.push(request);
                        continue;
                    }
                    Err(Error::NeedsMoreData { .. }) => {
                        break;
                    }
                    err => panic!("Unexpected error {err:?}"),
                }
            }
        }
        assert_eq!(expected_requests, requests);
    }
}

#[test]
fn ehlo_with_host() {
    assert_eq!(parse("EHLO bar.com\r\n"), Ok(Request::Ehlo { host: "bar.com".to_string() }));
}

#[test]
fn mail_source_route_is_stripped() {
    assert_eq!(parse("MAIL FROM:<@a,@b:user@d>\r\n"), Ok(Request::Mail { from: mail("user@d") }));
}

#[test]
fn mail_flag_parameters() {
    assert_eq!(
        parse("MAIL FROM:<> SMTPUTF8 REQUIRETLS CONPERM\r\n"),
        Ok(Request::Mail {
            from: MailFrom {
                flags: MAIL_SMTPUTF8 | MAIL_REQUIRETLS | MAIL_CONPERM,
                ..mail("")
            },
        })
    );
}

#[test]
fn mail_by_parameter() {
    assert_eq!(
        parse("MAIL FROM:<> BY=-10;RT\r\n"),
        Ok(Request::Mail {
            from: MailFrom { flags: MAIL_BY_RETURN | MAIL_BY_TRACE, by: -10, ..mail("") },
        })
    );
}

#[test]
fn rcpt_notify_never_excludes_others() {
    assert_eq!(
        parse("RCPT TO:<> NOTIFY=FAILURE,NEVER\r\n"),
        Err(Error::InvalidParameter { param: "NOTIFY" })
    );
    for line in [
        "RCPT TO:<> NOTIFY=NEVER,FAILURE\r\n",
        "RCPT TO:<> NOTIFY=NEVER,NEVER\r\n",
        "RCPT TO:<> NOTIFY=NEVER NOTIFY=DELAY\r\n",
        "RCPT TO:<> NOTIFY=SUCCESS NOTIFY=NEVER\r\n",
    ] {
        assert_eq!(parse(line), Err(Error::InvalidParameter { param: "NOTIFY" }), "{line:?}");
    }
    assert_eq!(
        parse("RCPT TO:<> NOTIFY=SUCCESS,SUCCESS CONNEG NOTIFY=DELAY\r\n"),
        Ok(Request::Rcpt {
            to: RcptTo {
                flags: RCPT_NOTIFY_SUCCESS | RCPT_NOTIFY_DELAY | RCPT_CONNEG,
                ..rcpt("")
            },
        })
    );
}

#[test]
fn rcpt_rrvs_timestamp() {
    assert_eq!(
        parse("RCPT TO:<> RRVS=2014-04-03T23:01:00Z\r\n"),
        Ok(Request::Rcpt { to: RcptTo { rrvs: 1396566060, flags: RCPT_RRVS_REJECT, ..rcpt("") } })
    );
}

#[test]
fn bdat_last() {
    assert_eq!(parse("BDAT 123 LAST\r\n"), Ok(Request::Bdat { chunk_size: 123, is_last: true }));
}

#[test]
fn auth_long_mechanism_name() {
    assert_eq!(
        parse("AUTH SCRAM-SHA-256-PLUS base64_goes_here\r\n"),
        Ok(Request::Auth {
            mechanism: AUTH_SCRAM_SHA_256_PLUS,
            initial_response: "base64_goes_here".to_string(),
        })
    );
}

#[test]
fn data_body_is_unstuffed() {
    let mut r = DataReceiver::new();
    let mut buf = Vec::new();
    let mut bytes = ByteIter::new(b"\r\na\rb\nc\r\n.d\r\n..\r\n\r\n.\r\nQUIT\r\n");
    assert!(r.ingest(&mut bytes, &mut buf));
    assert_eq!(buf, b"\r\na\rb\nc\r\nd\r\n.\r\n".to_vec());
    assert_eq!(bytes.as_slice(), b"QUIT\r\n");
}

#[test]
fn data_bare_line_feed_does_not_end_body() {
    let mut r = DataReceiver::new();
    let mut buf = Vec::new();
    let mut bytes = ByteIter::new(b"\n.\r\nMAIL FROM:<x>\r\n\r\n.\r\n");
    assert!(r.ingest(&mut bytes, &mut buf));
    assert_eq!(buf, b"\n.\r\nMAIL FROM:<x>\r\n".to_vec());
    assert_eq!(bytes.len(), 0);
}

#[test]
fn data_terminator_is_exact() {
    for data in ["\n.\n", "\r.\r", "\r.\r\n", "\r\n.\n", "\r\n.\r\r\n", ".\r\n", "\r\n..\r\n"] {
        let mut r = DataReceiver::new();
        let mut buf = Vec::new();
        assert!(!r.ingest(&mut ByteIter::new(data.as_bytes()), &mut buf), "{data:?}");
    }
    let mut r = DataReceiver::new();
    let mut buf = Vec::new();
    assert!(r.ingest(&mut ByteIter::new(b"x\r\n.\r\n"), &mut buf));
    assert_eq!(buf, b"x".to_vec());
}

#[test]
fn data_terminator_across_chunks() {
    let mut r = DataReceiver::new();
    let mut buf = Vec::new();
    for piece in ["body\r", "\n", ".", "\r"] {
        assert!(!r.ingest(&mut ByteIter::new(piece.as_bytes()), &mut buf));
    }
    assert!(r.ingest(&mut ByteIter::new(b"\nNOOP\r\n"), &mut buf));
    assert_eq!(buf, b"body".to_vec());
}

#[test]
fn parse_stops_after_its_line() {
    let data = b"RCPT TO\nQUIT\n";
    let mut bytes = ByteIter::new(data);
    assert_eq!(
        Request::parse(&mut bytes),
        Err(Error::SyntaxError { syntax: "RCPT TO:<forward-path> [parameters]" })
    );
    assert_eq!(bytes.as_slice(), b"QUIT\n");
    assert_eq!(Request::parse(&mut bytes), Ok(Request::Quit));
    assert_eq!(Request::parse(&mut bytes), Err(Error::NeedsMoreData { bytes_left: 0 }));
}

#[test]
fn errors_leave_the_next_line() {
    for line in [
        "MAIL FROM:<> SIZE=abc def\n",
        "MAIL FROM:<> BOGUS=1 x\n",
        "AUTH \t\n",
        "BDAT x y\n",
        "EHLO\n",
        "FOO bar\n",
        "MAIL FROM:<a..b@c> x\n",
    ] {
        let data = format!("{line}NOOP\n");
        let mut bytes = ByteIter::new(data.as_bytes());
        assert!(Request::parse(&mut bytes).is_err(), "{line:?}");
        assert_eq!(bytes.as_slice(), b"NOOP\n", "{line:?}");
    }
}

#[test]
fn incomplete_line_asks_for_more() {
    let mut bytes = ByteIter::new(b"MAIL FROM:<a@b");
    assert_eq!(Request::parse(&mut bytes), Err(Error::NeedsMoreData { bytes_left: 14 }));
    assert_eq!(bytes.len(), 0);
}

#[test]
fn keyword_of_nine_bytes_is_unknown() {
    assert_eq!(parse("STARTTLSX\n"), Err(Error::UnknownCommand));
    assert_eq!(parse("starttls\n"), Ok(Request::StartTls));
}

#[test]
fn unsupported_parameter_is_named_in_upper_case() {
    assert_eq!(
        parse("MAIL FROM:<> hello=world\n"),
        Err(Error::UnsupportedParameter { param: "HELLO=WORLD".to_string() })
    );
}

#[test]
fn greeting_host_length() {
    let host = "a".repeat(255);
    assert_eq!(parse(&format!("HELO {host}\n")), Ok(Request::Helo { host: host.clone() }));
    let host = "a".repeat(256);
    assert_eq!(parse(&format!("HELO {host}\n")), Err(Error::SyntaxError { syntax: "HELO domain" }));
}

#[test]
fn mailbox_dots() {
    for address in ["a.b@c.d", "a@b.", "\"a.\"@b", "\".a\"@b", "\"a..b\"@c"] {
        assert!(parse(&format!("MAIL FROM:<{address}>\n")).is_ok(), "{address:?}");
    }
    for address in ["a.@b", ".a@b", "a..b@c", "a@.b", "a@b..c"] {
        assert_eq!(
            parse(&format!("MAIL FROM:<{address}>\n")),
            Err(Error::InvalidSenderAddress),
            "{address:?}"
        );
        assert_eq!(
            parse(&format!("RCPT TO:<{address}>\n")),
            Err(Error::InvalidRecipientAddress),
            "{address:?}"
        );
    }
}

#[test]
fn mailbox_length() {
    let local = "a".repeat(254);
    let ok = format!("{local}@b");
    assert_eq!(parse(&format!("MAIL FROM:<{ok}>\n")), Ok(Request::Mail { from: mail(&ok) }));
    let long = format!("a{local}@b");
    assert_eq!(parse(&format!("MAIL FROM:<{long}>\n")), Err(Error::InvalidSenderAddress));
}

#[test]
fn request_receiver_over_long_line() {
    let mut r = RequestReceiver::default();
    let long = vec![b'a'; 4096];
    assert_eq!(r.ingest(&mut ByteIter::new(&long)), Err(Error::ResponseTooLong));
    assert!(r.buf.is_empty());
    assert!(matches!(
        r.ingest(&mut ByteIter::new(b"NOOP")),
        Err(Error::NeedsMoreData { bytes_left: 0 })
    ));
    let mut bytes = ByteIter::new(&long);
    assert_eq!(r.ingest(&mut bytes), Err(Error::ResponseTooLong));
    assert_eq!(bytes.position(), 2044);
    assert!(r.buf.is_empty());
}

#[test]
fn request_receiver_any_chunking() {
    let stream = "EHLO a.b\r\nMAIL FROM:<x@y> SIZE=10\r\nRCPT TO:<z@w>\r\nDATA\r\nQUIT\r\n";
    let mut whole = Vec::new();
    let mut r = RequestReceiver::default();
    let mut bytes = ByteIter::new(stream.as_bytes());
    while let Ok(request) = r.ingest(&mut bytes) {
        whole.push(request);
    }
    assert_eq!(whole.len(), 5);
    for size in 1..stream.len() {
        let mut requests = Vec::new();
        let mut r = RequestReceiver::default();
        for chunk in stream.as_bytes().chunks(size) {
            let mut bytes = ByteIter::new(chunk);
            while let Ok(request) = r.ingest(&mut bytes) {
                requests.push(request);
            }
        }
        assert_eq!(whole, requests, "chunks of {size}");
    }
}

#[test]
fn priority_range() {
    for (value, priority) in [("9", 9), ("-9", -9), ("0", 0), ("+4", 4)] {
        assert_eq!(
            parse(&format!("MAIL FROM:<> MT-PRIORITY={value}\n")),
            Ok(Request::Mail { from: MailFrom { mt_priority: priority, ..mail("") } }),
            "{value:?}"
        );
    }
    for value in ["10", "-10", "100", "99999999999999999999", "-99999999999999999999"] {
        assert_eq!(
            parse(&format!("MAIL FROM:<> MT-PRIORITY={value}\n")),
            Err(Error::InvalidParameter { param: "MT-PRIORITY" }),
            "{value:?}"
        );
    }
}

#[test]
fn rrvs_needs_a_timestamp() {
    for line in [
        "RCPT TO:<> RRVS=;R\n",
        "RCPT TO:<> RRVS=;C\n",
        "RCPT TO:<> RRVS=2022-01-02;R\n",
        "RCPT TO:<> RRVS=x;R\n",
    ] {
        assert_eq!(parse(line), Err(Error::InvalidParameter { param: "RRVS" }), "{line:?}");
    }
    let mut parser = Rfc5321Parser::new(ByteIter::new(b" RRVS=;R\nNOOP\n"));
    assert_eq!(
        parser.rcpt_to_parameters(String::new()),
        Err(Error::InvalidParameter { param: "RRVS" })
    );
    assert_eq!(parser.bytes.as_slice(), b"NOOP\n");
}

#[test]
fn numbers_out_of_range_are_refused() {
    assert_eq!(
        parse("BDAT 99999999999999999999999999\n"),
        Err(Error::SyntaxError { syntax: "BDAT chunk-size [LAST]" })
    );
    assert_eq!(
        parse("MAIL FROM:<> SIZE=99999999999999999999999999\n"),
        Err(Error::InvalidParameter { param: "SIZE" })
    );
    assert_eq!(
        parse("MAIL FROM:<> BY=99999999999999999999999999;R\n"),
        Err(Error::InvalidParameter { param: "BY" })
    );
}

#[test]
fn request_receiver_with_buffer_set_by_hand() {
    let mut r = RequestReceiver::default();
    r.buf = b"NOOP\nQU".to_vec();
    let mut bytes = ByteIter::new(b"IT\nRSET\n");
    assert_eq!(r.ingest(&mut bytes), Ok(Request::Noop { value: String::new() }));
    assert!(r.buf.is_empty());
    assert_eq!(bytes.as_slice(), b"RSET\n");

    let mut r = RequestReceiver::default();
    r.buf = vec![b' '; 3000];
    assert_eq!(
        r.ingest(&mut ByteIter::new(b"   ")),
        Err(Error::NeedsMoreData { bytes_left: 0 })
    );
    assert_eq!(r.buf.len(), 3003);
    assert_eq!(r.ingest(&mut ByteIter::new(b"\n")), Err(Error::UnknownCommand));
    assert!(r.buf.is_empty());
}
