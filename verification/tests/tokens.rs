use smtp_proto::bytes::ByteIter;
use smtp_proto::request;
use smtp_proto::request::parser::Rfc5321Parser;
use smtp_proto::response;
use smtp_proto::tokens::{str_to_array, token128, token64};

#[test]
fn command_tokens_are_fingerprints() {
    assert_eq!(request::AUTH, token64("AUTH"));
    assert_eq!(request::EHLO, token64("EHLO"));
    assert_eq!(request::HELO, token64("HELO"));
    assert_eq!(request::LHLO, token64("LHLO"));
    assert_eq!(request::MAIL, token64("MAIL"));
    assert_eq!(request::RCPT, token64("RCPT"));
    assert_eq!(request::DATA, token64("DATA"));
    assert_eq!(request::BDAT, token64("BDAT"));
    assert_eq!(request::RSET, token64("RSET"));
    assert_eq!(request::VRFY, token64("VRFY"));
    assert_eq!(request::EXPN, token64("EXPN"));
    assert_eq!(request::HELP, token64("HELP"));
    assert_eq!(request::NOOP, token64("NOOP"));
    assert_eq!(request::QUIT, token64("QUIT"));
    assert_eq!(request::ETRN, token64("ETRN"));
    assert_eq!(request::ATRN, token64("ATRN"));
    assert_eq!(request::BURL, token64("BURL"));
    assert_eq!(request::STARTTLS, token64("STARTTLS"));
    assert_eq!(request::FROM, token64("FROM"));
    assert_eq!(request::TO, token64("TO"));
    assert_eq!(request::LAST, token64("LAST"));
    assert_eq!(request::N, token64("N"));
    assert_eq!(request::NT, token64("NT"));
    assert_eq!(request::C, token64("C"));
    assert_eq!(request::R, token64("R"));
    assert_eq!(request::RT, token64("RT"));
    assert_eq!(request::FULL, token64("FULL"));
    assert_eq!(request::HDRS, token64("HDRS"));
    assert_eq!(request::RFC822, token64("RFC822"));
}

#[test]
fn parameter_tokens_are_fingerprints() {
    assert_eq!(request::BODY, token128("BODY"));
    assert_eq!(request::SEVENBIT, token128("7BIT"));
    assert_eq!(request::EIGHBITMIME, token128("8BITMIME"));
    assert_eq!(request::BINARYMIME, token128("BINARYMIME"));
    assert_eq!(request::SIZE, token128("SIZE"));
    assert_eq!(request::TRANSID, token128("TRANSID"));
    assert_eq!(request::BY, token128("BY"));
    assert_eq!(request::NOTIFY, token128("NOTIFY"));
    assert_eq!(request::ORCPT, token128("ORCPT"));
    assert_eq!(request::RET, token128("RET"));
    assert_eq!(request::ENVID, token128("ENVID"));
    assert_eq!(request::NEVER, token128("NEVER"));
    assert_eq!(request::SUCCESS, token128("SUCCESS"));
    assert_eq!(request::FAILURE, token128("FAILURE"));
    assert_eq!(request::DELAY, token128("DELAY"));
    assert_eq!(request::SOLICIT, token128("SOLICIT"));
    assert_eq!(request::MTRK, token128("MTRK"));
    assert_eq!(request::AUTH_, token128("AUTH"));
    assert_eq!(request::HOLDFOR, token128("HOLDFOR"));
    assert_eq!(request::HOLDUNTIL, token128("HOLDUNTIL"));
    assert_eq!(request::SMTPUTF8, token128("SMTPUTF8"));
    assert_eq!(request::CONPERM, token128("CONPERM"));
    assert_eq!(request::CONNEG, token128("CONNEG"));
    assert_eq!(request::MT_PRIORITY, token128("MT-PRIORITY"));
    assert_eq!(request::RRVS, token128("RRVS"));
    assert_eq!(request::REQUIRETLS, token128("REQUIRETLS"));
    assert_eq!(request::_9798_M_DSA_SHA1, token128("9798-M-DSA-SHA1"));
    assert_eq!(request::_9798_M_ECDSA_SHA, token128("9798-M-ECDSA-SHA"));
    assert_eq!(request::_9798_M_RSA_SHA1_, token128("9798-M-RSA-SHA1-"));
    assert_eq!(request::_9798_U_DSA_SHA1, token128("9798-U-DSA-SHA1"));
    assert_eq!(request::_9798_U_ECDSA_SHA, token128("9798-U-ECDSA-SHA"));
    assert_eq!(request::_9798_U_RSA_SHA1_, token128("9798-U-RSA-SHA1-"));
    assert_eq!(request::ANONYMOUS, token128("ANONYMOUS"));
    assert_eq!(request::CRAM_MD5, token128("CRAM-MD5"));
    assert_eq!(request::DIGEST_MD5, token128("DIGEST-MD5"));
    assert_eq!(request::EAP_AES128, token128("EAP-AES128"));
    assert_eq!(request::EAP_AES128_PLUS, token128("EAP-AES128-PLUS"));
    assert_eq!(request::ECDH_X25519_CHAL, token128("ECDH-X25519-CHAL"));
    assert_eq!(request::ECDSA_NIST256P_C, token128("ECDSA-NIST256P-C"));
    assert_eq!(request::EXTERNAL, token128("EXTERNAL"));
    assert_eq!(request::GS2_KRB5, token128("GS2-KRB5"));
    assert_eq!(request::GS2_KRB5_PLUS, token128("GS2-KRB5-PLUS"));
    assert_eq!(request::GSS_SPNEGO, token128("GSS-SPNEGO"));
    assert_eq!(request::GSSAPI, token128("GSSAPI"));
    assert_eq!(request::KERBEROS_V4, token128("KERBEROS-V4"));
    assert_eq!(request::KERBEROS_V5, token128("KERBEROS-V5"));
    assert_eq!(request::LOGIN, token128("LOGIN"));
    assert_eq!(request::NMAS_SAMBA_AUTH, token128("NMAS-SAMBA-AUTH"));
    assert_eq!(request::NMAS_AUTHEN, token128("NMAS-AUTHEN"));
    assert_eq!(request::NMAS_LOGIN, token128("NMAS-LOGIN"));
    assert_eq!(request::NTLM, token128("NTLM"));
    assert_eq!(request::OAUTH10A, token128("OAUTH10A"));
    assert_eq!(request::OAUTHBEARER, token128("OAUTHBEARER"));
    assert_eq!(request::OPENID20, token128("OPENID20"));
    assert_eq!(request::OTP, token128("OTP"));
    assert_eq!(request::PLAIN, token128("PLAIN"));
    assert_eq!(request::SAML20, token128("SAML20"));
    assert_eq!(request::SCRAM_SHA_1, token128("SCRAM-SHA-1"));
    assert_eq!(request::SCRAM_SHA_1_PLUS, token128("SCRAM-SHA-1-PLUS"));
    assert_eq!(request::SCRAM_SHA_256, token128("SCRAM-SHA-256"));
    assert_eq!(request::SCRAM_SHA_256_PL, token128("SCRAM-SHA-256-PL"));
    assert_eq!(request::SECURID, token128("SECURID"));
    assert_eq!(request::SKEY, token128("SKEY"));
    assert_eq!(request::SPNEGO, token128("SPNEGO"));
    assert_eq!(request::SPNEGO_PLUS, token128("SPNEGO-PLUS"));
    assert_eq!(request::SXOVER_PLUS, token128("SXOVER-PLUS"));
    assert_eq!(request::XOAUTH, token128("XOAUTH"));
    assert_eq!(request::XOAUTH2, token128("XOAUTH2"));
}

#[test]
fn capability_tokens_are_fingerprints() {
    assert_eq!(response::_8BITMIME, token128("8BITMIME"));
    assert_eq!(response::ATRN, token128("ATRN"));
    assert_eq!(response::AUTH, token128("AUTH"));
    assert_eq!(response::BINARYMIME, token128("BINARYMIME"));
    assert_eq!(response::BURL, token128("BURL"));
    assert_eq!(response::CHECKPOINT, token128("CHECKPOINT"));
    assert_eq!(response::CHUNKING, token128("CHUNKING"));
    assert_eq!(response::CONNEG, token128("CONNEG"));
    assert_eq!(response::CONPERM, token128("CONPERM"));
    assert_eq!(response::DELIVERBY, token128("DELIVERBY"));
    assert_eq!(response::DSN, token128("DSN"));
    assert_eq!(response::ENHANCEDSTATUSCO, token128("ENHANCEDSTATUSCO"));
    assert_eq!(response::ETRN, token128("ETRN"));
    assert_eq!(response::EXPN, token128("EXPN"));
    assert_eq!(response::VRFY, token128("VRFY"));
    assert_eq!(response::FUTURERELEASE, token128("FUTURERELEASE"));
    assert_eq!(response::HELP, token128("HELP"));
    assert_eq!(response::MT_PRIORITY, token128("MT-PRIORITY"));
    assert_eq!(response::MTRK, token128("MTRK"));
    assert_eq!(response::NO_SOLICITING, token128("NO-SOLICITING"));
    assert_eq!(response::ONEX, token128("ONEX"));
    assert_eq!(response::PIPELINING, token128("PIPELINING"));
    assert_eq!(response::REQUIRETLS, token128("REQUIRETLS"));
    assert_eq!(response::RRVS, token128("RRVS"));
    assert_eq!(response::SIZE, token128("SIZE"));
    assert_eq!(response::SMTPUTF8, token128("SMTPUTF8"));
    assert_eq!(response::STARTTLS, token128("STARTTLS"));
    assert_eq!(response::VERB, token128("VERB"));
    assert_eq!(response::MIXER, token128("MIXER"));
    assert_eq!(response::STANAG4406, token128("STANAG4406"));
    assert_eq!(response::NSEP, token128("NSEP"));
}

#[test]
fn fingerprint_is_little_endian() {
    assert_eq!(token64("EHLO"), u64::from_le_bytes(*b"EHLO\0\0\0\0"));
    assert_eq!(token64(""), 0);
    assert_eq!(token64("STARTTLS"), u64::from_le_bytes(*b"STARTTLS"));
    assert_eq!(token128("MT-PRIORITY"), u128::from_le_bytes(*b"MT-PRIORITY\0\0\0\0\0"));
    assert_eq!(token128("9798-M-RSA-SHA1-"), u128::from_le_bytes(*b"9798-M-RSA-SHA1-"));
    assert_eq!(str_to_array::<4>("ab"), [b'a', b'b', 0, 0]);
    assert_eq!(str_to_array::<2>("ab"), [b'a', b'b']);
}

#[test]
fn scanner_folds_keywords_into_fingerprints() {
    for word in ["EHLO", "ehlo", "EhLo", " \rEH\rLO"] {
        let line = format!("{word} x\n");
        let mut parser = Rfc5321Parser::new(ByteIter::new(line.as_bytes()));
        assert_eq!(parser.hashed_value(), Ok(request::EHLO), "{word:?}");
        assert_eq!(parser.stop_char, b' ');
    }
    let mut parser = Rfc5321Parser::new(ByteIter::new(b"mt-priority=3\n"));
    assert_eq!(parser.hashed_value_long(), Ok(request::MT_PRIORITY));
    assert_eq!(parser.stop_char, b'=');
    let mut parser = Rfc5321Parser::new(ByteIter::new(b"\n"));
    assert_eq!(parser.hashed_value(), Ok(0));
    assert_eq!(parser.stop_char, b'\n');
}
