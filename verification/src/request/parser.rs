//! The command parser and the scanner it is built on.
//!
//! Each scanner reads from the parser's position up to and including the
//! byte that ends its token, which it leaves in `stop_char`. What a scanner
//! returns on a given input is defined in [`crate::request::grammar`] by
//! the function of the same name with the prefix `spec_`.

use vstd::prelude::*;
use crate::bytes::ByteIter;
use crate::request::values::lemma_priority_in_range;
use crate::request::grammar::{
    address_scan, AT, BACKSLASH, checked_mailbox, COLON, COMMA, complete, Cursor, domain_ok, DOT,
    EQUALS, find_char, find_lf, flushed, gathered_first, gathered_len, gives, gives_mailbox,
    gives_text, GT, hash_scan, hash_scan_long, integer_scan, is_atext, is_line, key_bytes, LT,
    mail_from, mailbox_name_ok, MAX_ADDRESS_LEN, MAX_DOMAIN_LEN, MAX_PRIORITY, mechanism_of,
    MIN_PRIORITY, MINUS, parsed, PLUS, QUOTE, rcpt_to, reject, seek_scan, SEMICOLON, size_scan,
    spec_address, spec_argument, spec_atrn, spec_auth, spec_bdat, spec_body, spec_burl, spec_by,
    spec_domains, spec_hashed_value, spec_hashed_value_long, spec_host, spec_integer, spec_last,
    spec_mail, spec_mail_from_parameters, spec_mail_parameter, spec_mechanism, spec_mtrk,
    spec_next_char, spec_notify, spec_number, spec_orcpt, spec_path_start, spec_plain,
    spec_priority, spec_rcpt, spec_rcpt_parameter, spec_rcpt_to_parameters, spec_read_char,
    spec_request, spec_ret, spec_rrvs, spec_seek_char, spec_seek_lf, spec_size, spec_solicit,
    spec_string, spec_text, spec_timestamp, spec_transid, spec_xtext, spec_xtext_value, start,
    string_scan, text_scan, timestamp_scan, trail_scan, unix_seconds, unsupported, upper_scan,
    xtext_scan,
};
use vstd::slice::slice_subrange;
use vstd::string::StringExecFns;
use vstd::utf8::encode_utf8;
use crate::text::{
    byte_len, decode_lossy, is_ascii_digit, is_ascii_whitespace, is_space, push_char,
    to_ascii_uppercase, to_hex_digit, upper,
};
use crate::{
    AUTH_9798_M_DSA_SHA1, AUTH_9798_M_ECDSA_SHA1, AUTH_9798_M_RSA_SHA1_ENC, AUTH_9798_U_DSA_SHA1,
    AUTH_9798_U_ECDSA_SHA1, AUTH_9798_U_RSA_SHA1_ENC, AUTH_ANONYMOUS, AUTH_CRAM_MD5,
    AUTH_DIGEST_MD5, AUTH_EAP_AES128, AUTH_EAP_AES128_PLUS, AUTH_ECDH_X25519_CHALLENGE,
    AUTH_ECDSA_NIST256P_CHALLENGE, AUTH_EXTERNAL, AUTH_GS2_KRB5, AUTH_GS2_KRB5_PLUS,
    AUTH_GSS_SPNEGO, AUTH_GSSAPI, AUTH_KERBEROS_V4, AUTH_KERBEROS_V5, AUTH_LOGIN,
    AUTH_NMAS_AUTHEN, AUTH_NMAS_LOGIN, AUTH_NMAS_SAMBA_AUTH, AUTH_NTLM, AUTH_OAUTH10A,
    AUTH_OAUTHBEARER, AUTH_OPENID20, AUTH_OTP, AUTH_PLAIN, AUTH_SAML20, AUTH_SCRAM_SHA_1,
    AUTH_SCRAM_SHA_1_PLUS, AUTH_SCRAM_SHA_256, AUTH_SCRAM_SHA_256_PLUS, AUTH_SECURID, AUTH_SKEY,
    AUTH_SPNEGO, AUTH_SPNEGO_PLUS, AUTH_SXOVER_PLUS, AUTH_XOAUTH, AUTH_XOAUTH2, CR, Error,
    ErrorView, LF, MAIL_BODY_7BIT, MAIL_BODY_8BITMIME, MAIL_BODY_BINARYMIME, MAIL_BY_NOTIFY,
    MAIL_BY_RETURN, MAIL_BY_TRACE, MAIL_CONPERM, MAIL_REQUIRETLS, MAIL_RET_FULL, MAIL_RET_HDRS,
    MAIL_SMTPUTF8, MailFrom, Mtrk, opt_view, RCPT_CONNEG, RCPT_NOTIFY_DELAY, RCPT_NOTIFY_FAILURE,
    RCPT_NOTIFY_NEVER, RCPT_NOTIFY_SUCCESS, RCPT_RRVS_CONTINUE, RCPT_RRVS_REJECT, RcptTo,
    Request, SP, views,
};
use crate::request::{
    _9798_M_DSA_SHA1, _9798_M_ECDSA_SHA, _9798_M_RSA_SHA1_, _9798_U_DSA_SHA1, _9798_U_ECDSA_SHA,
    _9798_U_RSA_SHA1_, ANONYMOUS, ATRN, AUTH, AUTH_, BDAT, BINARYMIME, BODY, BURL, BY, C, CONNEG,
    CONPERM, CRAM_MD5, DATA, DELAY, DIGEST_MD5, EAP_AES128, EAP_AES128_PLUS, ECDH_X25519_CHAL,
    ECDSA_NIST256P_C, EHLO, EIGHBITMIME, ENVID, ETRN, EXPN, EXTERNAL, FAILURE, FROM, FULL,
    GS2_KRB5, GS2_KRB5_PLUS, GSS_SPNEGO, GSSAPI, HDRS, HELO, HELP, HOLDFOR, HOLDUNTIL,
    KERBEROS_V4, KERBEROS_V5, LAST, LHLO, LOGIN, MAIL, MT_PRIORITY, MTRK, N, NEVER, NMAS_AUTHEN,
    NMAS_LOGIN, NMAS_SAMBA_AUTH, NOOP, NOTIFY, NT, NTLM, OAUTH10A, OAUTHBEARER, OPENID20, ORCPT,
    OTP, PLAIN, QUIT, R, RCPT, REQUIRETLS, RET, RFC822, RRVS, RSET, RT, SAML20, SCRAM_SHA_1,
    SCRAM_SHA_1_PLUS, SCRAM_SHA_256, SCRAM_SHA_256_PL, SECURID, SEVENBIT, SIZE, SKEY, SMTPUTF8,
    SOLICIT, SPNEGO, SPNEGO_PLUS, STARTTLS, SUCCESS, SXOVER_PLUS, TO, TRANSID, VRFY, XOAUTH,
    XOAUTH2,
};

verus! {

/// Text that a scan is gathering: what is decoded already, and the index in
/// the input where the bytes that are not decoded yet begin.
pub struct Gathered {
    pub data: String,
    pub start: usize,
}

/// Whether `ch` may stand anywhere in a mailbox.
pub fn is_atext_byte(ch: u8) -> (r: bool)
    ensures
        r == is_atext(ch),
{
    is_ascii_digit(ch) || (0x61 <= ch && ch <= 0x7a) || (0x41 <= ch && ch <= 0x5a) || ch == 0x21
        || ch == 0x23 || ch == 0x24 || ch == 0x25 || ch == 0x26 || ch == 0x27 || ch == 0x2a || ch
        == 0x2b || ch == 0x2d || ch == 0x2f || ch == 0x3d || ch == 0x3f || ch == 0x5e || ch == 0x5f
        || ch == 0x60 || ch == 0x7b || ch == 0x7c || ch == 0x7d || ch == 0x7e || ch >= 0x7f
}

/// Whether `first` is the byte `@`.
fn is_at(first: Option<u8>) -> (r: bool)
    ensures
        r == (first == Some(AT)),
{
    match first {
        Some(b) => b == AT,
        None => false,
    }
}

/// Accepts or refuses a mailbox once it is read: `value` is what it reads,
/// `at_count` the number of its unquoted `@`, `lp_len` the length of what
/// stood before the last of them.
pub fn accept_mailbox(value: String, at_count: usize, lp_len: usize) -> (r: Option<String>)
    ensures
        opt_view(r) == checked_mailbox(value@, at_count, lp_len),
{
    let is_valid = value.as_str().is_empty() || (byte_len(&value) <= MAX_ADDRESS_LEN && at_count
        == 1 && lp_len > 0);
    if is_valid {
        Some(value)
    } else {
        None
    }
}

/// Whether two byte strings hold the same bytes.
pub fn bytes_eq(a: &[u8], b: &[u8]) -> (r: bool)
    ensures
        r == (a@ == b@),
{
    if a.len() != b.len() {
        return false;
    }
    let mut i: usize = 0;
    while i < a.len()
        invariant
            a@.len() == b@.len(),
            0 <= i <= a@.len(),
            forall|j: int| 0 <= j < i ==> a@[j] == b@[j],
        decreases a@.len() - i,
    {
        if a[i] != b[i] {
            return false;
        }
        i = i + 1;
    }
    assert(a@ =~= b@);
    true
}

/// The bit of the mechanism that `key` and `trail` name: see
/// [`mechanism_of`].
pub fn mechanism_bit(key: u128, trail: &[u8]) -> (r: Option<u64>)
    ensures
        r == mechanism_of(key, trail@),
{
    if trail.len() == 0 {
        if key == _9798_M_DSA_SHA1 {
            Some(AUTH_9798_M_DSA_SHA1)
        } else if key == _9798_U_DSA_SHA1 {
            Some(AUTH_9798_U_DSA_SHA1)
        } else if key == ANONYMOUS {
            Some(AUTH_ANONYMOUS)
        } else if key == CRAM_MD5 {
            Some(AUTH_CRAM_MD5)
        } else if key == DIGEST_MD5 {
            Some(AUTH_DIGEST_MD5)
        } else if key == EAP_AES128 {
            Some(AUTH_EAP_AES128)
        } else if key == EAP_AES128_PLUS {
            Some(AUTH_EAP_AES128_PLUS)
        } else if key == EXTERNAL {
            Some(AUTH_EXTERNAL)
        } else if key == GS2_KRB5 {
            Some(AUTH_GS2_KRB5)
        } else if key == GS2_KRB5_PLUS {
            Some(AUTH_GS2_KRB5_PLUS)
        } else if key == GSS_SPNEGO {
            Some(AUTH_GSS_SPNEGO)
        } else if key == GSSAPI {
            Some(AUTH_GSSAPI)
        } else if key == KERBEROS_V4 {
            Some(AUTH_KERBEROS_V4)
        } else if key == KERBEROS_V5 {
            Some(AUTH_KERBEROS_V5)
        } else if key == LOGIN {
            Some(AUTH_LOGIN)
        } else if key == NMAS_SAMBA_AUTH {
            Some(AUTH_NMAS_SAMBA_AUTH)
        } else if key == NMAS_AUTHEN {
            Some(AUTH_NMAS_AUTHEN)
        } else if key == NMAS_LOGIN {
            Some(AUTH_NMAS_LOGIN)
        } else if key == NTLM {
            Some(AUTH_NTLM)
        } else if key == OAUTH10A {
            Some(AUTH_OAUTH10A)
        } else if key == OAUTHBEARER {
            Some(AUTH_OAUTHBEARER)
        } else if key == OPENID20 {
            Some(AUTH_OPENID20)
        } else if key == OTP {
            Some(AUTH_OTP)
        } else if key == PLAIN {
            Some(AUTH_PLAIN)
        } else if key == SAML20 {
            Some(AUTH_SAML20)
        } else if key == SCRAM_SHA_1 {
            Some(AUTH_SCRAM_SHA_1)
        } else if key == SCRAM_SHA_1_PLUS {
            Some(AUTH_SCRAM_SHA_1_PLUS)
        } else if key == SCRAM_SHA_256 {
            Some(AUTH_SCRAM_SHA_256)
        } else if key == SECURID {
            Some(AUTH_SECURID)
        } else if key == SKEY {
            Some(AUTH_SKEY)
        } else if key == SPNEGO {
            Some(AUTH_SPNEGO)
        } else if key == SPNEGO_PLUS {
            Some(AUTH_SPNEGO_PLUS)
        } else if key == SXOVER_PLUS {
            Some(AUTH_SXOVER_PLUS)
        } else if key == XOAUTH {
            Some(AUTH_XOAUTH)
        } else if key == XOAUTH2 {
            Some(AUTH_XOAUTH2)
        } else if key == 0 {
            None
        } else {
            Some(0)
        }
    } else if key == _9798_M_ECDSA_SHA && bytes_eq(trail, "1".as_bytes()) {
        Some(AUTH_9798_M_ECDSA_SHA1)
    } else if key == _9798_M_RSA_SHA1_ && bytes_eq(trail, "ENC".as_bytes()) {
        Some(AUTH_9798_M_RSA_SHA1_ENC)
    } else if key == _9798_U_ECDSA_SHA && bytes_eq(trail, "1".as_bytes()) {
        Some(AUTH_9798_U_ECDSA_SHA1)
    } else if key == _9798_U_RSA_SHA1_ && bytes_eq(trail, "ENC".as_bytes()) {
        Some(AUTH_9798_U_RSA_SHA1_ENC)
    } else if key == ECDH_X25519_CHAL && bytes_eq(trail, "LENGE".as_bytes()) {
        Some(AUTH_ECDH_X25519_CHALLENGE)
    } else if key == ECDSA_NIST256P_C && bytes_eq(trail, "HALLENGE".as_bytes()) {
        Some(AUTH_ECDSA_NIST256P_CHALLENGE)
    } else if key == SCRAM_SHA_256_PL && bytes_eq(trail, "US".as_bytes()) {
        Some(AUTH_SCRAM_SHA_256_PLUS)
    } else {
        Some(0)
    }
}

/// The seconds from the start of 1970 to the date and time in `dt`: see
/// [`unix_seconds`].
pub fn to_unix_seconds(dt: &[u32; 8], east: bool) -> (r: i64)
    ensures
        r == unix_seconds(dt@, east),
{
    let month = dt[1];
    let m_adj = month.wrapping_sub(3);
    let carry: i64 = if m_adj > month {
        1
    } else {
        0
    };
    let adjust: u32 = if carry > 0 {
        12
    } else {
        0
    };
    let y_adj: i64 = dt[0] as i64 + 4800 - carry;
    let month_days: u32 = m_adj.wrapping_add(adjust).wrapping_mul(62719).wrapping_add(769) / 2048;
    let leap_days: i64 = y_adj / 4 - y_adj / 100 + y_adj / 400;
    let days: i64 = y_adj * 365 + leap_days + month_days as i64 + (dt[2] as i64 - 1) - 2472632;
    let zone: i64 = if east {
        -(dt[6] as i64 * 3600 + dt[7] as i64 * 60)
    } else {
        dt[6] as i64 * 3600 + dt[7] as i64 * 60
    };
    days * 86400 + dt[3] as i64 * 3600 + dt[4] as i64 * 60 + dt[5] as i64 + zone
}

/// Accepts the host of a greeting if it has 1 to 255 bytes; otherwise the
/// command fails with `syntax`.
pub fn accept_domain(host: String, syntax: &'static str) -> (r: Result<String, Error>)
    ensures
        domain_ok(host@) ==> r == Ok::<String, Error>(host),
        !domain_ok(host@) ==> r == Err::<String, Error>(Error::SyntaxError { syntax }),
{
    let len = byte_len(&host);
    if 1 <= len && len <= MAX_DOMAIN_LEN {
        Ok(host)
    } else {
        Err(Error::SyntaxError { syntax })
    }
}

/// An `EXPN` for `value` if it has 1 to 256 bytes.
pub fn accept_expn(value: String) -> (r: Result<Request<String>, Error>)
    ensures
        mailbox_name_ok(value@) ==> r == Ok::<Request<String>, Error>(Request::Expn { value }),
        !mailbox_name_ok(value@) ==> r == Err::<Request<String>, Error>(
            Error::SyntaxError { syntax: "EXPN string" },
        ),
{
    let len = byte_len(&value);
    if 1 <= len && len <= MAX_ADDRESS_LEN {
        Ok(Request::Expn { value })
    } else {
        Err(Error::SyntaxError { syntax: "EXPN string" })
    }
}

/// A `VRFY` for `value` if it has 1 to 256 bytes.
pub fn accept_vrfy(value: String) -> (r: Result<Request<String>, Error>)
    ensures
        mailbox_name_ok(value@) ==> r == Ok::<Request<String>, Error>(Request::Vrfy { value }),
        !mailbox_name_ok(value@) ==> r == Err::<Request<String>, Error>(
            Error::SyntaxError { syntax: "VRFY string" },
        ),
{
    let len = byte_len(&value);
    if 1 <= len && len <= MAX_ADDRESS_LEN {
        Ok(Request::Vrfy { value })
    } else {
        Err(Error::SyntaxError { syntax: "VRFY string" })
    }
}

/// An `ETRN` for `name` if it is not empty.
pub fn accept_etrn(name: String) -> (r: Result<Request<String>, Error>)
    ensures
        name@.len() > 0 ==> r == Ok::<Request<String>, Error>(Request::Etrn { name }),
        name@.len() == 0 ==> r == Err::<Request<String>, Error>(
            Error::SyntaxError { syntax: "ETRN name" },
        ),
{
    if !name.as_str().is_empty() {
        Ok(Request::Etrn { name })
    } else {
        Err(Error::SyntaxError { syntax: "ETRN name" })
    }
}

/// A scanner over the bytes of one cursor.
pub struct Rfc5321Parser<'a> {
    /// The cursor that the scanner reads from.
    pub bytes: ByteIter<'a>,
    /// The byte that ended the last token.
    pub stop_char: u8,
    /// How many bytes were unread when the scanner was made.
    pub bytes_left: usize,
}

impl<'a> Rfc5321Parser<'a> {
    /// The bytes that the scanner reads.
    pub open spec fn input(&self) -> Seq<u8> {
        self.bytes.data()
    }

    /// Where the scanner stands.
    pub open spec fn cursor(&self) -> Cursor {
        Cursor { pos: self.bytes.pos(), stop_char: self.stop_char }
    }

    /// This scanner is `prev` moved forward to the cursor `c`.
    pub open spec fn moved(&self, prev: &Self, c: Cursor) -> bool {
        &&& self.input() == prev.input()
        &&& self.bytes_left == prev.bytes_left
        &&& self.cursor() == c
        &&& 0 <= prev.bytes.pos() <= c.pos <= self.input().len()
    }

    /// The input is a line with bytes left to read.
    pub open spec fn on_line(&self) -> bool {
        is_line(self.input()) && self.bytes.pos() < self.input().len()
    }

    /// The input is a line that is read to its end, or has bytes left.
    pub open spec fn in_line(&self) -> bool {
        is_line(self.input()) && (self.bytes.pos() < self.input().len() || self.stop_char == LF)
    }

    /// This scanner is `prev` after a step that gave `r`, where `out` is
    /// what the step gives by its specification: the value or the error,
    /// and the cursor. On a line with bytes left the step does not ask for
    /// more data, and leaves the scanner on the line if it succeeds.
    pub open spec fn steps<T: View>(
        &self,
        prev: &Self,
        r: Result<T, Error>,
        out: (Result<T::V, ErrorView>, Cursor),
    ) -> bool {
        &&& self.moved(prev, out.1)
        &&& parsed(r, out.0)
        &&& prev.on_line() ==> complete(r) && (r is Ok ==> self.in_line())
    }

    /// As [`Self::steps`], for a step that reads only if the line goes on.
    pub open spec fn steps_in_line<T: View>(
        &self,
        prev: &Self,
        r: Result<T, Error>,
        out: (Result<T::V, ErrorView>, Cursor),
    ) -> bool {
        &&& self.moved(prev, out.1)
        &&& parsed(r, out.0)
        &&& prev.in_line() ==> complete(r) && (r is Ok ==> self.in_line())
    }

    /// This scanner is `prev` after the rest of a command was read, which
    /// gave `r`; `out` is what it gives by its specification. On a line it
    /// does not ask for more data.
    pub open spec fn ends<T: View>(
        &self,
        prev: &Self,
        r: Result<T, Error>,
        out: Result<T::V, ErrorView>,
    ) -> bool {
        &&& self.input() == prev.input()
        &&& self.bytes_left == prev.bytes_left
        &&& parsed(r, out)
        &&& prev.in_line() ==> complete(r)
    }

    /// This scanner is `prev` after a step that gave `r`, where `out` is
    /// what the step gives by its specification.
    pub open spec fn reads<T: View>(
        &self,
        prev: &Self,
        r: Result<T, Error>,
        out: (Result<T::V, ErrorView>, Cursor),
    ) -> bool {
        &&& self.moved(prev, out.1)
        &&& parsed(r, out.0)
    }

    /// A scanner that reads on from where `bytes` stands.
    pub fn new(bytes: ByteIter<'a>) -> (r: Self)
        ensures
            r.bytes == bytes,
            r.stop_char == 0,
            r.bytes_left == bytes.data().len() - bytes.pos(),
    {
        let bytes_left = bytes.len();
        Rfc5321Parser { bytes, stop_char: 0, bytes_left }
    }

    /// Reads a keyword of up to eight bytes and folds it into a number.
    pub fn hashed_value(&mut self) -> (r: Result<u64, Error>)
        ensures
            final(self).moved(old(self), spec_hashed_value(old(self).input(), old(self).cursor()).1),
            gives(r, spec_hashed_value(old(self).input(), old(self).cursor()).0, old(self).bytes_left),
            old(self).on_line() ==> r is Ok,
    {
        let mut value: u64 = 0;
        let mut shift: u32 = 0;
        proof {
            use_type_invariant(&self.bytes);
        }
        loop
            invariant
                self.input() == old(self).input(),
                self.bytes_left == old(self).bytes_left,
                self.stop_char == old(self).stop_char,
                0 <= old(self).bytes.pos() <= self.bytes.pos() <= self.input().len(),
                shift <= 64,
                shift % 8 == 0,
                hash_scan(self.input(), self.bytes.pos(), value, shift) == hash_scan(
                    old(self).input(),
                    old(self).bytes.pos(),
                    0,
                    0,
                ),
                old(self).on_line() ==> self.bytes.pos() < self.input().len(),
            decreases self.input().len() - self.bytes.pos(),
        {
            match self.bytes.next() {
                Some(ch) => {
                    if (0x41 <= ch && ch <= 0x5a || 0x30 <= ch && ch <= 0x39 || ch == 0x2d) && shift
                        < 64 {
                        value = value | ((ch as u64) << shift);
                        shift = shift + 8;
                    } else if 0x61 <= ch && ch <= 0x7a && shift < 64 {
                        value = value | (((ch - 0x20) as u64) << shift);
                        shift = shift + 8;
                    } else if ch == CR || (ch == SP && value == 0) {
                    } else {
                        self.stop_char = ch;
                        return Ok(value);
                    }
                },
                None => {
                    return Err(Error::NeedsMoreData { bytes_left: self.bytes_left });
                },
            }
        }
    }

    /// Reads a keyword of up to sixteen bytes and folds it into a number.
    pub fn hashed_value_long(&mut self) -> (r: Result<u128, Error>)
        ensures
            final(self).moved(
                old(self),
                spec_hashed_value_long(old(self).input(), old(self).cursor()).1,
            ),
            gives(
                r,
                spec_hashed_value_long(old(self).input(), old(self).cursor()).0,
                old(self).bytes_left,
            ),
            r is Ok ==> old(self).bytes.pos() < final(self).bytes.pos(),
            old(self).on_line() ==> r is Ok,
    {
        let mut value: u128 = 0;
        let mut shift: u32 = 0;
        proof {
            use_type_invariant(&self.bytes);
        }
        loop
            invariant
                self.input() == old(self).input(),
                self.bytes_left == old(self).bytes_left,
                self.stop_char == old(self).stop_char,
                0 <= old(self).bytes.pos() <= self.bytes.pos() <= self.input().len(),
                shift <= 128,
                shift % 8 == 0,
                hash_scan_long(self.input(), self.bytes.pos(), value, shift) == hash_scan_long(
                    old(self).input(),
                    old(self).bytes.pos(),
                    0,
                    0,
                ),
                old(self).on_line() ==> self.bytes.pos() < self.input().len(),
            decreases self.input().len() - self.bytes.pos(),
        {
            match self.bytes.next() {
                Some(ch) => {
                    if (0x41 <= ch && ch <= 0x5a || 0x30 <= ch && ch <= 0x39 || ch == 0x2d) && shift
                        < 128 {
                        value = value | ((ch as u128) << shift);
                        shift = shift + 8;
                    } else if 0x61 <= ch && ch <= 0x7a && shift < 128 {
                        value = value | (((ch - 0x20) as u128) << shift);
                        shift = shift + 8;
                    } else if ch == CR || (ch == SP && value == 0) {
                    } else {
                        self.stop_char = ch;
                        return Ok(value);
                    }
                },
                None => {
                    return Err(Error::NeedsMoreData { bytes_left: self.bytes_left });
                },
            }
        }
    }

    /// Skips through the next line feed, unless the last token ended with one.
    pub fn seek_lf(&mut self) -> (r: Result<(), Error>)
        ensures
            final(self).moved(old(self), spec_seek_lf(old(self).input(), old(self).cursor()).1),
            gives(r, spec_seek_lf(old(self).input(), old(self).cursor()).0, old(self).bytes_left),
            old(self).in_line() ==> r is Ok,
    {
        proof {
            use_type_invariant(&self.bytes);
        }
        if self.stop_char != LF {
            loop
                invariant
                    self.input() == old(self).input(),
                    self.bytes_left == old(self).bytes_left,
                    self.stop_char == old(self).stop_char,
                    self.stop_char != LF,
                    0 <= old(self).bytes.pos() <= self.bytes.pos() <= self.input().len(),
                    find_lf(self.input(), self.bytes.pos()) == find_lf(
                        old(self).input(),
                        old(self).bytes.pos(),
                    ),
                    old(self).in_line() ==> self.bytes.pos() < self.input().len(),
                decreases self.input().len() - self.bytes.pos(),
            {
                match self.bytes.next() {
                    Some(ch) => {
                        if ch == LF {
                            return Ok(());
                        }
                    },
                    None => {
                        return Err(Error::NeedsMoreData { bytes_left: self.bytes_left });
                    },
                }
            }
        } else {
            Ok(())
        }
    }

    /// Reads on to the next byte that is neither a space nor a carriage
    /// return, and returns it.
    pub fn next_char(&mut self) -> (r: Result<u8, Error>)
        ensures
            final(self).moved(old(self), spec_next_char(old(self).input(), old(self).cursor()).1),
            gives(r, spec_next_char(old(self).input(), old(self).cursor()).0, old(self).bytes_left),
            old(self).on_line() ==> r is Ok,
    {
        proof {
            use_type_invariant(&self.bytes);
        }
        loop
            invariant
                self.input() == old(self).input(),
                self.bytes_left == old(self).bytes_left,
                self.stop_char == old(self).stop_char,
                0 <= old(self).bytes.pos() <= self.bytes.pos() <= self.input().len(),
                find_char(self.input(), self.bytes.pos()) == find_char(
                    old(self).input(),
                    old(self).bytes.pos(),
                ),
                old(self).on_line() ==> self.bytes.pos() < self.input().len(),
            decreases self.input().len() - self.bytes.pos(),
        {
            match self.bytes.next() {
                Some(ch) => {
                    if ch == SP || ch == CR {
                    } else {
                        self.stop_char = ch;
                        return Ok(ch);
                    }
                },
                None => {
                    return Err(Error::NeedsMoreData { bytes_left: self.bytes_left });
                },
            }
        }
    }

    /// Reads one byte.
    pub fn read_char(&mut self) -> (r: Result<u8, Error>)
        ensures
            final(self).moved(old(self), spec_read_char(old(self).input(), old(self).cursor()).1),
            gives(r, spec_read_char(old(self).input(), old(self).cursor()).0, old(self).bytes_left),
            old(self).on_line() ==> r is Ok,
    {
        proof {
            use_type_invariant(&self.bytes);
        }
        match self.bytes.next() {
            Some(ch) => Ok(ch),
            None => Err(Error::NeedsMoreData { bytes_left: self.bytes_left }),
        }
    }

    /// Starts gathering text at the scanner's position.
    fn start_gathering(&self) -> (out: Gathered)
        ensures
            out.data@ == Seq::<char>::empty(),
            out.start == self.bytes.pos(),
    {
        Gathered { data: String::new(), start: self.bytes.position() }
    }

    /// The bytes read since the last flush, without the byte read last.
    fn extra_before_current(&self, out: &Gathered) -> (extra: &'a [u8])
        requires
            out.start < self.bytes.pos(),
        ensures
            extra@ == self.input().subrange(out.start as int, self.bytes.pos() - 1),
    {
        let pos = self.bytes.position();
        self.bytes.slice(out.start, pos - 1)
    }

    /// The length of the gathered text, without the byte read last.
    fn len_excluding_current(&self, out: &Gathered) -> (n: usize)
        requires
            out.start < self.bytes.pos(),
        ensures
            n == gathered_len(out.start as int, self.bytes.pos() - 1, out.data@),
    {
        proof {
            use_type_invariant(&self.bytes);
        }
        let extra = self.extra_before_current(out);
        byte_len(&out.data).saturating_add(extra.len())
    }

    /// The first byte of the gathered text, without the byte read last.
    fn first_excluding_current(&self, out: &Gathered) -> (first: Option<u8>)
        requires
            out.start < self.bytes.pos(),
        ensures
            first == gathered_first(
                self.input(),
                out.start as int,
                self.bytes.pos() - 1,
                out.data@,
            ),
    {
        proof {
            use_type_invariant(&self.bytes);
        }
        let decoded = out.data.as_str().as_bytes();
        if decoded.len() > 0 {
            Some(decoded[0])
        } else {
            let extra = self.extra_before_current(out);
            if extra.len() > 0 {
                Some(extra[0])
            } else {
                None
            }
        }
    }

    /// Forgets the bytes read since the last flush, the last one included.
    fn drop_extra(&self, out: &mut Gathered)
        ensures
            final(out).data@ == old(out).data@,
            final(out).start == self.bytes.pos(),
    {
        out.start = self.bytes.position();
    }

    /// Decodes the bytes read since the last flush, without the byte read
    /// last, and appends them to the gathered text.
    fn flush_excluding_current(&self, out: &mut Gathered)
        requires
            old(out).start < self.bytes.pos(),
        ensures
            final(out).data@ == flushed(
                self.input(),
                old(out).start as int,
                self.bytes.pos() - 1,
                old(out).data@,
            ),
            final(out).start == self.bytes.pos(),
    {
        let extra = self.extra_before_current(out);
        let piece = decode_lossy(extra);
        out.data.append(piece.as_str());
        out.start = self.bytes.position();
    }

    /// Reads a token up to the next space or line feed.
    pub fn text(&mut self) -> (r: Result<String, Error>)
        ensures
            final(self).moved(old(self), spec_text(old(self).input(), old(self).cursor()).1),
            gives_text(r, spec_text(old(self).input(), old(self).cursor()).0, old(self).bytes_left),
            old(self).on_line() ==> r is Ok,
    {
        let mut value = self.start_gathering();
        proof {
            use_type_invariant(&self.bytes);
        }
        loop
            invariant
                self.input() == old(self).input(),
                self.bytes_left == old(self).bytes_left,
                self.stop_char == old(self).stop_char,
                0 <= old(self).bytes.pos() <= value.start <= self.bytes.pos() <= self.input().len(),
                text_scan(self.input(), self.bytes.pos(), value.start as int, value.data@)
                    == text_scan(
                    old(self).input(),
                    old(self).bytes.pos(),
                    old(self).bytes.pos(),
                    Seq::empty(),
                ),
                old(self).on_line() ==> self.bytes.pos() < self.input().len(),
            decreases self.input().len() - self.bytes.pos(),
        {
            match self.bytes.next() {
                Some(ch) => {
                    if ch == LF || ch == SP {
                        self.flush_excluding_current(&mut value);
                        self.stop_char = ch;
                        return Ok(value.data);
                    } else if ch == CR {
                        self.flush_excluding_current(&mut value);
                    }
                },
                None => {
                    return Err(Error::NeedsMoreData { bytes_left: self.bytes_left });
                },
            }
        }
    }

    /// Reads a token up to `stop_char`, a space or a line feed.
    pub fn seek_char(&mut self, stop_char: u8) -> (r: Result<String, Error>)
        ensures
            final(self).moved(
                old(self),
                spec_seek_char(old(self).input(), stop_char, old(self).cursor()).1,
            ),
            gives_text(
                r,
                spec_seek_char(old(self).input(), stop_char, old(self).cursor()).0,
                old(self).bytes_left,
            ),
            r is Ok ==> old(self).bytes.pos() < final(self).bytes.pos(),
            old(self).on_line() ==> r is Ok,
    {
        let mut value = self.start_gathering();
        proof {
            use_type_invariant(&self.bytes);
        }
        loop
            invariant
                self.input() == old(self).input(),
                self.bytes_left == old(self).bytes_left,
                self.stop_char == old(self).stop_char,
                0 <= old(self).bytes.pos() <= value.start <= self.bytes.pos() <= self.input().len(),
                seek_scan(
                    self.input(),
                    stop_char,
                    self.bytes.pos(),
                    value.start as int,
                    value.data@,
                ) == seek_scan(
                    old(self).input(),
                    stop_char,
                    old(self).bytes.pos(),
                    old(self).bytes.pos(),
                    Seq::empty(),
                ),
                old(self).on_line() ==> self.bytes.pos() < self.input().len(),
            decreases self.input().len() - self.bytes.pos(),
        {
            match self.bytes.next() {
                Some(ch) => {
                    if ch == LF {
                        self.flush_excluding_current(&mut value);
                        self.stop_char = LF;
                        return Ok(value.data);
                    } else if ch == SP {
                        self.flush_excluding_current(&mut value);
                        if !value.data.as_str().is_empty() {
                            self.stop_char = SP;
                            return Ok(value.data);
                        }
                    } else if ch == CR {
                        self.flush_excluding_current(&mut value);
                    } else if ch == stop_char {
                        self.flush_excluding_current(&mut value);
                        self.stop_char = ch;
                        return Ok(value.data);
                    }
                },
                None => {
                    return Err(Error::NeedsMoreData { bytes_left: self.bytes_left });
                },
            }
        }
    }

    /// Reads a quoted or unquoted string up to the next space or line feed.
    pub fn string(&mut self) -> (r: Result<String, Error>)
        ensures
            final(self).moved(old(self), spec_string(old(self).input(), old(self).cursor()).1),
            gives_text(
                r,
                spec_string(old(self).input(), old(self).cursor()).0,
                old(self).bytes_left,
            ),
            old(self).on_line() ==> r is Ok,
    {
        let mut in_quote = false;
        let mut value = self.start_gathering();
        let mut last_ch: u8 = 0;
        proof {
            use_type_invariant(&self.bytes);
        }
        loop
            invariant
                self.input() == old(self).input(),
                self.bytes_left == old(self).bytes_left,
                self.stop_char == old(self).stop_char,
                0 <= old(self).bytes.pos() <= value.start <= self.bytes.pos() <= self.input().len(),
                string_scan(
                    self.input(),
                    self.bytes.pos(),
                    value.start as int,
                    value.data@,
                    in_quote,
                    last_ch,
                ) == string_scan(
                    old(self).input(),
                    old(self).bytes.pos(),
                    old(self).bytes.pos(),
                    Seq::empty(),
                    false,
                    0,
                ),
                old(self).on_line() ==> self.bytes.pos() < self.input().len(),
            decreases self.input().len() - self.bytes.pos(),
        {
            match self.bytes.next() {
                Some(ch) => {
                    if ch == SP && !in_quote {
                        self.flush_excluding_current(&mut value);
                        if !value.data.as_str().is_empty() {
                            self.stop_char = SP;
                            return Ok(value.data);
                        }
                        last_ch = ch;
                    } else if ch == LF {
                        self.flush_excluding_current(&mut value);
                        self.stop_char = LF;
                        return Ok(value.data);
                    } else if ch == QUOTE && (!in_quote || last_ch != BACKSLASH) {
                        in_quote = !in_quote;
                        self.flush_excluding_current(&mut value);
                        last_ch = ch;
                    } else if ch == BACKSLASH && in_quote {
                        if last_ch != BACKSLASH {
                            self.flush_excluding_current(&mut value);
                            last_ch = ch;
                        } else {
                            last_ch = 0;
                        }
                    } else if ch == CR {
                        self.flush_excluding_current(&mut value);
                        last_ch = ch;
                    } else {
                        last_ch = ch;
                    }
                },
                None => {
                    return Err(Error::NeedsMoreData { bytes_left: self.bytes_left });
                },
            }
        }
    }

    /// Reads an xtext token up to the next space or line feed and decodes
    /// its `+HH` escapes.
    pub fn xtext(&mut self) -> (r: Result<String, Error>)
        ensures
            final(self).moved(old(self), spec_xtext(old(self).input(), old(self).cursor()).1),
            gives_text(r, spec_xtext(old(self).input(), old(self).cursor()).0, old(self).bytes_left),
            old(self).on_line() ==> r is Ok,
    {
        let mut value = self.start_gathering();
        let mut escape: Option<Option<u8>> = None;
        proof {
            use_type_invariant(&self.bytes);
        }
        loop
            invariant
                self.input() == old(self).input(),
                self.bytes_left == old(self).bytes_left,
                self.stop_char == old(self).stop_char,
                0 <= old(self).bytes.pos() <= value.start <= self.bytes.pos() <= self.input().len(),
                xtext_scan(
                    self.input(),
                    self.bytes.pos(),
                    value.start as int,
                    value.data@,
                    escape,
                ) == xtext_scan(
                    old(self).input(),
                    old(self).bytes.pos(),
                    old(self).bytes.pos(),
                    Seq::empty(),
                    None,
                ),
                old(self).on_line() ==> self.bytes.pos() < self.input().len(),
            decreases self.input().len() - self.bytes.pos(),
        {
            match self.bytes.next() {
                Some(ch) => {
                    match escape {
                        None => {
                            if ch == LF || ch == SP {
                                self.flush_excluding_current(&mut value);
                                self.stop_char = ch;
                                return Ok(value.data);
                            } else if ch == PLUS {
                                self.flush_excluding_current(&mut value);
                                escape = Some(None);
                            } else if ch == CR {
                                self.flush_excluding_current(&mut value);
                            }
                        },
                        Some(first) => {
                            match to_hex_digit(ch) {
                                Some(digit) => match first {
                                    Some(high) => {
                                        push_char(&mut value.data, ((high << 4u8) | digit) as char);
                                        self.drop_extra(&mut value);
                                        escape = None;
                                    },
                                    None => {
                                        escape = Some(Some(digit));
                                    },
                                },
                                None => {
                                    if ch == LF {
                                        self.stop_char = LF;
                                        return Ok(value.data);
                                    } else {
                                        self.drop_extra(&mut value);
                                        escape = None;
                                    }
                                },
                            }
                        },
                    }
                },
                None => {
                    return Err(Error::NeedsMoreData { bytes_left: self.bytes_left });
                },
            }
        }
    }

    /// Reads a mailbox up to `>`, a space or a line feed; `None` where the
    /// bytes are no mailbox.
    pub fn address(&mut self) -> (r: Result<Option<String>, Error>)
        ensures
            final(self).moved(old(self), spec_address(old(self).input(), old(self).cursor()).1),
            gives_mailbox(
                r,
                spec_address(old(self).input(), old(self).cursor()).0,
                old(self).bytes_left,
            ),
            old(self).on_line() ==> r is Ok,
    {
        let mut value = self.start_gathering();
        let mut last_ch: u8 = 0;
        let mut in_quote = false;
        let mut at_count: usize = 0;
        let mut lp_len: usize = 0;
        proof {
            use_type_invariant(&self.bytes);
        }
        loop
            invariant
                self.input() == old(self).input(),
                self.bytes_left == old(self).bytes_left,
                self.stop_char == old(self).stop_char,
                0 <= old(self).bytes.pos() <= value.start <= self.bytes.pos() <= self.input().len(),
                address_scan(
                    self.input(),
                    self.bytes.pos(),
                    value.start as int,
                    value.data@,
                    last_ch,
                    in_quote,
                    at_count,
                    lp_len,
                ) == address_scan(
                    old(self).input(),
                    old(self).bytes.pos(),
                    old(self).bytes.pos(),
                    Seq::empty(),
                    0,
                    false,
                    0,
                    0,
                ),
                old(self).on_line() ==> self.bytes.pos() < self.input().len(),
            decreases self.input().len() - self.bytes.pos(),
        {
            match self.bytes.next() {
                Some(ch) => {
                    if is_atext_byte(ch) {
                    } else if ch == DOT && !in_quote {
                        if last_ch == DOT || last_ch == AT || self.len_excluding_current(&value)
                            == 0 {
                            self.stop_char = ch;
                            return Ok(None);
                        }
                    } else if ch == AT && !in_quote {
                        if last_ch == DOT {
                            self.stop_char = ch;
                            return Ok(None);
                        }
                        at_count = at_count.saturating_add(1);
                        lp_len = self.len_excluding_current(&value);
                    } else if ch == GT && !in_quote {
                        self.stop_char = ch;
                        self.flush_excluding_current(&mut value);
                        return Ok(accept_mailbox(value.data, at_count, lp_len));
                    } else if ch == CR {
                        self.flush_excluding_current(&mut value);
                    } else if ch == COLON && !in_quote && is_at(
                        self.first_excluding_current(&value),
                    ) {
                        value = self.start_gathering();
                        at_count = 0;
                        lp_len = 0;
                    } else if ch == COMMA && !in_quote && is_at(
                        self.first_excluding_current(&value),
                    ) {
                    } else if ch == SP && !in_quote {
                        self.flush_excluding_current(&mut value);
                        if !value.data.as_str().is_empty() {
                            self.stop_char = SP;
                            return Ok(accept_mailbox(value.data, at_count, lp_len));
                        }
                    } else if ch == LF {
                        self.stop_char = LF;
                        self.flush_excluding_current(&mut value);
                        return Ok(accept_mailbox(value.data, at_count, lp_len));
                    } else if ch == QUOTE && (!in_quote || last_ch != BACKSLASH) {
                        in_quote = !in_quote;
                        self.flush_excluding_current(&mut value);
                    } else if ch == BACKSLASH && in_quote {
                        if last_ch != BACKSLASH {
                            self.flush_excluding_current(&mut value);
                        } else {
                            last_ch = 0;
                            continue ;
                        }
                    } else if in_quote {
                    } else {
                        self.stop_char = ch;
                        return Ok(None);
                    }
                    last_ch = ch;
                },
                None => {
                    return Err(Error::NeedsMoreData { bytes_left: self.bytes_left });
                },
            }
        }
    }

    /// Reads a timestamp of the form `YYYY-MM-DDTHH:MM:SS` with `Z` or a
    /// zone, and returns it in seconds; `i64::MAX` if none came.
    pub fn timestamp(&mut self) -> (r: Result<i64, Error>)
        ensures
            final(self).moved(old(self), spec_timestamp(old(self).input(), old(self).cursor()).1),
            gives(r, spec_timestamp(old(self).input(), old(self).cursor()).0, old(self).bytes_left),
            old(self).on_line() ==> r is Ok,
    {
        let mut dt: [u32; 8] = [0, 0, 0, 0, 0, 0, 0, 0];
        let mut east = false;
        let mut pos: usize = 0;
        proof {
            use_type_invariant(&self.bytes);
            assert(dt@ =~= seq![0u32, 0u32, 0u32, 0u32, 0u32, 0u32, 0u32, 0u32]);
        }
        loop
            invariant
                self.input() == old(self).input(),
                self.bytes_left == old(self).bytes_left,
                self.stop_char == old(self).stop_char,
                0 <= old(self).bytes.pos() <= self.bytes.pos() <= self.input().len(),
                pos <= 8,
                timestamp_scan(self.input(), self.bytes.pos(), dt@, east, pos as int)
                    == timestamp_scan(
                    old(self).input(),
                    old(self).bytes.pos(),
                    seq![0u32, 0u32, 0u32, 0u32, 0u32, 0u32, 0u32, 0u32],
                    false,
                    0,
                ),
                old(self).on_line() ==> self.bytes.pos() < self.input().len(),
            decreases self.input().len() - self.bytes.pos(),
        {
            match self.bytes.next() {
                Some(ch) => {
                    if is_ascii_digit(ch) && pos < 8 {
                        let wide: u64 = dt[pos] as u64 * 10 + (ch - 0x30) as u64;
                        dt[pos] = if wide > u32::MAX as u64 {
                            u32::MAX
                        } else {
                            wide as u32
                        };
                    } else if ch == MINUS && (pos <= 1 || pos == 5) {
                        pos = pos + 1;
                    } else if ch == PLUS && pos == 5 {
                        east = true;
                        pos = pos + 1;
                    } else if ch == 0x54 && pos == 2 {
                        pos = pos + 1;
                    } else if ch == COLON && (pos == 3 || pos == 4 || pos == 6) {
                        pos = pos + 1;
                    } else if ch == 0x5a && pos == 5 {
                        pos = 8;
                    } else {
                        self.stop_char = ch;
                        return Ok(
                            if pos >= 7 {
                                to_unix_seconds(&dt, east)
                            } else {
                                i64::MAX
                            },
                        );
                    }
                },
                None => {
                    return Err(Error::NeedsMoreData { bytes_left: self.bytes_left });
                },
            }
        }
    }

    /// Reads the name of an authentication mechanism and returns its bit,
    /// zero for a name that is not known, `None` where no name stands.
    pub fn mechanism(&mut self) -> (r: Result<Option<u64>, Error>)
        ensures
            final(self).moved(old(self), spec_mechanism(old(self).input(), old(self).cursor()).1),
            gives(r, spec_mechanism(old(self).input(), old(self).cursor()).0, old(self).bytes_left),
            r is Ok ==> old(self).bytes.pos() < final(self).bytes.pos(),
            old(self).on_line() ==> r is Ok,
    {
        let mut trailing_chars: Vec<u8> = Vec::new();
        let mechanism = self.hashed_value_long()?;
        if is_ascii_whitespace(self.stop_char) {
            return Ok(mechanism_bit(mechanism, trailing_chars.as_slice()));
        }
        trailing_chars.push(self.stop_char);
        let ghost start = self.cursor();
        loop
            invariant
                self.input() == old(self).input(),
                self.bytes_left == old(self).bytes_left,
                self.stop_char == start.stop_char,
                !is_space(start.stop_char),
                spec_hashed_value_long(old(self).input(), old(self).cursor()) == (
                    Some(mechanism),
                    start,
                ),
                0 <= old(self).bytes.pos() <= start.pos <= self.bytes.pos() <= self.input().len(),
                trail_scan(self.input(), self.bytes.pos(), trailing_chars@) == trail_scan(
                    self.input(),
                    start.pos,
                    seq![start.stop_char],
                ),
                old(self).on_line() ==> self.bytes.pos() < self.input().len(),
            decreases self.input().len() - self.bytes.pos(),
        {
            match self.bytes.next() {
                Some(ch) => {
                    if !is_ascii_whitespace(ch) {
                        if trailing_chars.len() < 9 {
                            trailing_chars.push(to_ascii_uppercase(ch));
                        }
                    } else {
                        self.stop_char = ch;
                        return Ok(
                            if trailing_chars.len() > 8 {
                                Some(0)
                            } else {
                                mechanism_bit(mechanism, trailing_chars.as_slice())
                            },
                        );
                    }
                },
                None => {
                    return Err(Error::NeedsMoreData { bytes_left: self.bytes_left });
                },
            }
        }
    }

    /// Skips the rest of the line and fails with `e`.
    pub fn reject<T>(&mut self, e: Error) -> (r: Result<T, Error>)
        ensures
            final(self).moved(old(self), spec_seek_lf(old(self).input(), old(self).cursor()).1),
            match spec_seek_lf(old(self).input(), old(self).cursor()).0 {
                Some(_) => r == Err::<T, Error>(e),
                None => r == Err::<T, Error>(
                    Error::NeedsMoreData { bytes_left: old(self).bytes_left },
                ),
            },
            old(self).in_line() ==> r == Err::<T, Error>(e),
    {
        match self.seek_lf() {
            Ok(_) => Err(e),
            Err(more) => Err(more),
        }
    }

    /// Fails on the parameter `key`, which is not known, and names it in
    /// the error with what follows it up to the next white space.
    fn unsupported<T>(&mut self, key: u128) -> (r: Result<T, Error>)
        ensures
            final(self).moved(
                old(self),
                unsupported::<T>(
                    old(self).input(),
                    old(self).cursor(),
                    old(self).bytes_left,
                    key,
                ).1,
            ),
            r is Err,
            r->Err_0@ == unsupported::<T>(
                old(self).input(),
                old(self).cursor(),
                old(self).bytes_left,
                key,
            ).0->Err_0,
            old(self).in_line() ==> complete(r),
    {
        let mut param: Vec<u8> = Vec::new();
        let mut i: u32 = 0;
        proof {
            use_type_invariant(&self.bytes);
        }
        while i < 16
            invariant
                i <= 16,
                param@ == key_bytes(key, i as int),
            decreases 16 - i,
        {
            let wide = (key >> ((8 * i) as u128)) & 0xff;
            assert(wide < 256) by (bit_vector)
                requires
                    wide == (key >> ((8 * i) as u128)) & 0xff,
            ;
            let b = wide as u8;
            if b != 0 {
                param.push(to_ascii_uppercase(b));
            }
            i = i + 1;
        }
        if !is_ascii_whitespace(self.stop_char) {
            param.push(to_ascii_uppercase(self.stop_char));
            let ghost start = self.cursor();
            loop
                invariant
                    self.input() == old(self).input(),
                    self.bytes_left == old(self).bytes_left,
                    self.cursor().stop_char == start.stop_char,
                    start == old(self).cursor(),
                    !is_space(start.stop_char),
                    0 <= start.pos <= self.bytes.pos() <= self.input().len(),
                    upper_scan(self.input(), self.bytes.pos(), param@) == upper_scan(
                        self.input(),
                        start.pos,
                        key_bytes(key, 16).push(upper(start.stop_char)),
                    ),
                    old(self).in_line() ==> self.bytes.pos() < self.input().len(),
                decreases self.input().len() - self.bytes.pos(),
            {
                match self.bytes.next() {
                    Some(ch) => {
                        if !is_ascii_whitespace(ch) {
                            param.push(to_ascii_uppercase(ch));
                        } else {
                            self.stop_char = ch;
                            let name = decode_lossy(param.as_slice());
                            return self.reject(Error::UnsupportedParameter { param: name });
                        }
                    },
                    None => {
                        return Err(Error::NeedsMoreData { bytes_left: self.bytes_left });
                    },
                }
            }
        }
        let name = decode_lossy(param.as_slice());
        self.reject(Error::UnsupportedParameter { param: name })
    }

    /// Reads the value of `BODY=`.
    fn body_value(&mut self) -> (r: Result<u64, Error>)
        ensures
            final(self).steps(
                old(self),
                r,
                spec_body(old(self).input(), old(self).cursor(), old(self).bytes_left),
            ),
    {
        let v = self.hashed_value_long()?;
        if v == EIGHBITMIME && is_ascii_whitespace(self.stop_char) {
            Ok(MAIL_BODY_8BITMIME)
        } else if v == BINARYMIME && is_ascii_whitespace(self.stop_char) {
            Ok(MAIL_BODY_BINARYMIME)
        } else if v == SEVENBIT && is_ascii_whitespace(self.stop_char) {
            Ok(MAIL_BODY_7BIT)
        } else {
            self.reject(Error::InvalidParameter { param: "BODY" })
        }
    }

    /// Reads the value of `BY=`.
    fn by_value(&mut self) -> (r: Result<(i64, u64), Error>)
        ensures
            final(self).steps(
                old(self),
                r,
                spec_by(old(self).input(), old(self).cursor(), old(self).bytes_left),
            ),
    {
        let time = self.integer()?;
        if time != i64::MAX && self.stop_char == SEMICOLON {
            let v = self.hashed_value()?;
            if v == N && is_ascii_whitespace(self.stop_char) {
                Ok((time, MAIL_BY_NOTIFY))
            } else if v == NT && is_ascii_whitespace(self.stop_char) {
                Ok((time, MAIL_BY_NOTIFY | MAIL_BY_TRACE))
            } else if v == R && is_ascii_whitespace(self.stop_char) {
                Ok((time, MAIL_BY_RETURN))
            } else if v == RT && is_ascii_whitespace(self.stop_char) {
                Ok((time, MAIL_BY_RETURN | MAIL_BY_TRACE))
            } else {
                self.reject(Error::InvalidParameter { param: "BY" })
            }
        } else {
            self.reject(Error::InvalidParameter { param: "BY" })
        }
    }

    /// Reads the value of `RET=`.
    fn ret_value(&mut self) -> (r: Result<u64, Error>)
        ensures
            final(self).steps(
                old(self),
                r,
                spec_ret(old(self).input(), old(self).cursor(), old(self).bytes_left),
            ),
    {
        let v = self.hashed_value()?;
        if v == FULL && is_ascii_whitespace(self.stop_char) {
            Ok(MAIL_RET_FULL)
        } else if v == HDRS && is_ascii_whitespace(self.stop_char) {
            Ok(MAIL_RET_HDRS)
        } else {
            self.reject(Error::InvalidParameter { param: "RET" })
        }
    }

    /// Reads a number as the value of the parameter `name`.
    fn number_value(&mut self, name: &'static str) -> (r: Result<usize, Error>)
        ensures
            final(self).steps(
                old(self),
                r,
                spec_number(old(self).input(), old(self).cursor(), old(self).bytes_left, name),
            ),
    {
        let n = self.size()?;
        if n != usize::MAX && is_ascii_whitespace(self.stop_char) {
            Ok(n)
        } else {
            self.reject(Error::InvalidParameter { param: name })
        }
    }

    /// Reads an xtext value of 1 to `max` bytes for the parameter `name`.
    fn xtext_value(&mut self, name: &'static str, max: usize) -> (r: Result<String, Error>)
        ensures
            final(self).steps(
                old(self),
                r,
                spec_xtext_value(
                    old(self).input(),
                    old(self).cursor(),
                    old(self).bytes_left,
                    name,
                    max,
                ),
            ),
    {
        let value = self.xtext()?;
        let len = byte_len(&value);
        if is_ascii_whitespace(self.stop_char) && 1 <= len && len <= max {
            Ok(value)
        } else {
            self.reject(Error::InvalidParameter { param: name })
        }
    }

    /// Reads the value of `SOLICIT=`.
    fn solicit_value(&mut self) -> (r: Result<String, Error>)
        ensures
            final(self).steps(
                old(self),
                r,
                spec_solicit(old(self).input(), old(self).cursor(), old(self).bytes_left),
            ),
    {
        let value = self.text()?;
        if !value.as_str().is_empty() && is_ascii_whitespace(self.stop_char) {
            Ok(value)
        } else {
            self.reject(Error::InvalidParameter { param: "SOLICIT" })
        }
    }

    /// Reads the value of `TRANSID=`.
    fn transid_value(&mut self) -> (r: Result<String, Error>)
        ensures
            final(self).steps(
                old(self),
                r,
                spec_transid(old(self).input(), old(self).cursor(), old(self).bytes_left),
            ),
    {
        if self.next_char()? == LT {
            let id = self.seek_char(GT)?;
            if self.stop_char == GT && !id.as_str().is_empty() {
                self.stop_char = SP;
                return Ok(id);
            }
        }
        self.reject(Error::InvalidParameter { param: "TRANSID" })
    }

    /// Reads the value of `MTRK=`.
    fn mtrk_value(&mut self) -> (r: Result<Mtrk<String>, Error>)
        ensures
            final(self).steps(
                old(self),
                r,
                spec_mtrk(old(self).input(), old(self).cursor(), old(self).bytes_left),
            ),
    {
        let certifier = self.seek_char(COLON)?;
        let timeout = if self.stop_char == COLON {
            self.size()?
        } else {
            0
        };
        if !certifier.as_str().is_empty() && is_ascii_whitespace(self.stop_char) && timeout
            != usize::MAX {
            Ok(Mtrk { certifier, timeout: timeout as u64 })
        } else {
            self.reject(Error::InvalidParameter { param: "MTRK" })
        }
    }

    /// Reads the value of `MT-PRIORITY=`.
    fn priority_value(&mut self) -> (r: Result<i64, Error>)
        ensures
            final(self).steps(
                old(self),
                r,
                spec_priority(old(self).input(), old(self).cursor(), old(self).bytes_left),
            ),
    {
        let n = self.integer()?;
        if MIN_PRIORITY <= n && n <= MAX_PRIORITY && is_ascii_whitespace(self.stop_char) {
            Ok(n)
        } else {
            self.reject(Error::InvalidParameter { param: "MT-PRIORITY" })
        }
    }

    /// Applies to `params` the parameter whose keyword `key` was read last.
    fn mail_from_parameter(&mut self, key: u128, params: MailFrom<String>) -> (r: Result<
        MailFrom<String>,
        Error,
    >)
        ensures
            final(self).steps_in_line(
                old(self),
                r,
                spec_mail_parameter(
                    old(self).input(),
                    old(self).cursor(),
                    old(self).bytes_left,
                    key,
                    params@,
                ),
            ),
    {
        let mut params = params;
        proof {
            use_type_invariant(&self.bytes);
        }
        if key == SMTPUTF8 && is_ascii_whitespace(self.stop_char) {
            params.flags = params.flags | MAIL_SMTPUTF8;
        } else if key == BODY && self.stop_char == EQUALS {
            let flag = self.body_value()?;
            params.flags = params.flags | flag;
        } else if key == SIZE && self.stop_char == EQUALS {
            params.size = self.number_value("SIZE")?;
        } else if key == BY && self.stop_char == EQUALS {
            let (time, flags) = self.by_value()?;
            params.flags = params.flags | flags;
            params.by = time;
        } else if key == HOLDUNTIL && self.stop_char == EQUALS {
            params.hold_until = self.number_value("HOLDUNTIL")? as u64;
        } else if key == HOLDFOR && self.stop_char == EQUALS {
            params.hold_for = self.number_value("HOLDFOR")? as u64;
        } else if key == RET && self.stop_char == EQUALS {
            let flag = self.ret_value()?;
            params.flags = params.flags | flag;
        } else if key == ENVID && self.stop_char == EQUALS {
            params.env_id = Some(self.xtext_value("ENVID", 100)?);
        } else if key == REQUIRETLS && is_ascii_whitespace(self.stop_char) {
            params.flags = params.flags | MAIL_REQUIRETLS;
        } else if key == SOLICIT && self.stop_char == EQUALS {
            params.solicit = Some(self.solicit_value()?);
        } else if key == TRANSID && self.stop_char == EQUALS {
            params.trans_id = Some(self.transid_value()?);
        } else if key == MTRK && self.stop_char == EQUALS {
            params.mtrk = Some(self.mtrk_value()?);
        } else if key == AUTH_ && self.stop_char == EQUALS {
            params.auth = Some(self.xtext_value("AUTH", MAX_ADDRESS_LEN)?);
        } else if key == MT_PRIORITY && self.stop_char == EQUALS {
            params.mt_priority = self.priority_value()?;
        } else if key == CONPERM && is_ascii_whitespace(self.stop_char) {
            params.flags = params.flags | MAIL_CONPERM;
        } else if key == 0 {
        } else {
            return self.unsupported(key);
        }
        Ok(params)
    }

    /// Reads the parameters of a `MAIL FROM` command whose reverse path,
    /// `address`, has been read, up to the end of the line. The priority
    /// that it gives is from -9 to 9.
    pub fn mail_from_parameters(&mut self, address: String) -> (r: Result<MailFrom<String>, Error>)
        ensures
            r is Ok ==> MIN_PRIORITY <= r->Ok_0.mt_priority <= MAX_PRIORITY,
            final(self).steps_in_line(
                old(self),
                r,
                spec_mail_from_parameters(
                    old(self).input(),
                    old(self).cursor(),
                    old(self).bytes_left,
                    mail_from(address@),
                ),
            ),
    {
        let mut params = MailFrom {
            address,
            flags: 0,
            size: 0,
            trans_id: None,
            by: 0,
            env_id: None,
            solicit: None,
            mtrk: None,
            auth: None,
            hold_for: 0,
            hold_until: 0,
            mt_priority: 0,
        };
        proof {
            use_type_invariant(&self.bytes);
        }
        while self.stop_char != LF
            invariant
                self.input() == old(self).input(),
                self.bytes_left == old(self).bytes_left,
                0 <= old(self).bytes.pos() <= self.bytes.pos() <= self.input().len(),
                spec_mail_from_parameters(
                    self.input(),
                    self.cursor(),
                    self.bytes_left,
                    params@,
                ) == spec_mail_from_parameters(
                    old(self).input(),
                    old(self).cursor(),
                    old(self).bytes_left,
                    mail_from(address@),
                ),
                old(self).in_line() ==> self.in_line(),
            decreases self.input().len() - self.bytes.pos(),
        {
            let key = self.hashed_value_long()?;
            params = self.mail_from_parameter(key, params)?;
        }
        proof {
            lemma_priority_in_range(
                old(self).input(),
                old(self).cursor(),
                old(self).bytes_left,
                mail_from(address@),
            );
        }
        Ok(params)
    }

    /// Reads the value of `NOTIFY=` and sets its flags in `flags`.
    fn notify_value(&mut self, flags: u64) -> (r: Result<u64, Error>)
        ensures
            final(self).steps(
                old(self),
                r,
                spec_notify(old(self).input(), old(self).cursor(), old(self).bytes_left, flags),
            ),
    {
        let mut set = flags;
        proof {
            use_type_invariant(&self.bytes);
        }
        loop
            invariant
                self.input() == old(self).input(),
                self.bytes_left == old(self).bytes_left,
                0 <= old(self).bytes.pos() <= self.bytes.pos() <= self.input().len(),
                spec_notify(self.input(), self.cursor(), self.bytes_left, set) == spec_notify(
                    old(self).input(),
                    old(self).cursor(),
                    old(self).bytes_left,
                    flags,
                ),
                old(self).on_line() ==> self.on_line(),
            decreases self.input().len() - self.bytes.pos(),
        {
            let v = self.hashed_value_long()?;
            if v == NEVER {
                if set & (RCPT_NOTIFY_NEVER | RCPT_NOTIFY_SUCCESS | RCPT_NOTIFY_FAILURE
                    | RCPT_NOTIFY_DELAY) == 0 {
                    set = set | RCPT_NOTIFY_NEVER;
                } else {
                    return self.reject(Error::InvalidParameter { param: "NOTIFY" });
                }
            } else if set & RCPT_NOTIFY_NEVER != 0 {
                return self.reject(Error::InvalidParameter { param: "NOTIFY" });
            } else if v == SUCCESS {
                set = set | RCPT_NOTIFY_SUCCESS;
            } else if v == FAILURE {
                set = set | RCPT_NOTIFY_FAILURE;
            } else if v == DELAY {
                set = set | RCPT_NOTIFY_DELAY;
            } else {
                return self.reject(Error::InvalidParameter { param: "NOTIFY" });
            }
            if is_ascii_whitespace(self.stop_char) {
                return Ok(set);
            } else if self.stop_char != COMMA {
                return self.reject(Error::InvalidParameter { param: "NOTIFY" });
            }
        }
    }

    /// Reads the value of `ORCPT=`.
    fn orcpt_value(&mut self) -> (r: Result<String, Error>)
        ensures
            final(self).steps(
                old(self),
                r,
                spec_orcpt(old(self).input(), old(self).cursor(), old(self).bytes_left),
            ),
    {
        let v = self.hashed_value()?;
        if v != RFC822 || self.stop_char != SEMICOLON {
            return self.reject(Error::InvalidParameter { param: "ORCPT" });
        }
        self.xtext_value("ORCPT", MAX_ADDRESS_LEN)
    }

    /// Reads the value of `RRVS=`.
    fn rrvs_value(&mut self) -> (r: Result<(i64, u64), Error>)
        ensures
            final(self).steps(
                old(self),
                r,
                spec_rrvs(old(self).input(), old(self).cursor(), old(self).bytes_left),
            ),
    {
        let time = self.timestamp()?;
        if time == i64::MAX {
            self.reject(Error::InvalidParameter { param: "RRVS" })
        } else if self.stop_char == SEMICOLON {
            let v = self.hashed_value()?;
            if v == C && is_ascii_whitespace(self.stop_char) {
                Ok((time, RCPT_RRVS_CONTINUE))
            } else if v == R && is_ascii_whitespace(self.stop_char) {
                Ok((time, RCPT_RRVS_REJECT))
            } else {
                self.reject(Error::InvalidParameter { param: "RRVS" })
            }
        } else if is_ascii_whitespace(self.stop_char) {
            Ok((time, RCPT_RRVS_REJECT))
        } else {
            self.reject(Error::InvalidParameter { param: "RRVS" })
        }
    }

    /// Applies to `params` the parameter whose keyword `key` was read last.
    fn rcpt_to_parameter(&mut self, key: u128, params: RcptTo<String>) -> (r: Result<
        RcptTo<String>,
        Error,
    >)
        ensures
            final(self).steps_in_line(
                old(self),
                r,
                spec_rcpt_parameter(
                    old(self).input(),
                    old(self).cursor(),
                    old(self).bytes_left,
                    key,
                    params@,
                ),
            ),
    {
        let mut params = params;
        proof {
            use_type_invariant(&self.bytes);
        }
        if key == NOTIFY && self.stop_char == EQUALS {
            params.flags = self.notify_value(params.flags)?;
        } else if key == ORCPT && self.stop_char == EQUALS {
            params.orcpt = Some(self.orcpt_value()?);
        } else if key == RRVS && self.stop_char == EQUALS {
            let (time, flag) = self.rrvs_value()?;
            params.rrvs = time;
            params.flags = params.flags | flag;
        } else if key == CONNEG && is_ascii_whitespace(self.stop_char) {
            params.flags = params.flags | RCPT_CONNEG;
        } else if key == 0 {
        } else {
            return self.unsupported(key);
        }
        Ok(params)
    }

    /// Reads the parameters of a `RCPT TO` command whose forward path,
    /// `address`, has been read, up to the end of the line.
    pub fn rcpt_to_parameters(&mut self, address: String) -> (r: Result<RcptTo<String>, Error>)
        ensures
            final(self).steps_in_line(
                old(self),
                r,
                spec_rcpt_to_parameters(
                    old(self).input(),
                    old(self).cursor(),
                    old(self).bytes_left,
                    rcpt_to(address@),
                ),
            ),
    {
        let mut params = RcptTo { address, orcpt: None, rrvs: 0, flags: 0 };
        proof {
            use_type_invariant(&self.bytes);
        }
        while self.stop_char != LF
            invariant
                self.input() == old(self).input(),
                self.bytes_left == old(self).bytes_left,
                0 <= old(self).bytes.pos() <= self.bytes.pos() <= self.input().len(),
                spec_rcpt_to_parameters(self.input(), self.cursor(), self.bytes_left, params@)
                    == spec_rcpt_to_parameters(
                    old(self).input(),
                    old(self).cursor(),
                    old(self).bytes_left,
                    rcpt_to(address@),
                ),
                old(self).in_line() ==> self.in_line(),
            decreases self.input().len() - self.bytes.pos(),
        {
            let key = self.hashed_value_long()?;
            params = self.rcpt_to_parameter(key, params)?;
        }
        Ok(params)
    }

    /// Reads `keyword`, `:` and `<` after a `MAIL` or `RCPT`.
    fn path_start(&mut self, keyword: u64) -> (r: Result<bool, Error>)
        ensures
            final(self).steps_in_line(
                old(self),
                r,
                spec_path_start(
                    old(self).input(),
                    old(self).cursor(),
                    old(self).bytes_left,
                    keyword,
                ),
            ),
    {
        proof {
            use_type_invariant(&self.bytes);
        }
        if self.stop_char == LF {
            return Ok(false);
        }
        let v = self.hashed_value()?;
        if v != keyword || (self.stop_char != COLON && self.stop_char == LF) {
            return Ok(false);
        }
        if self.stop_char != COLON && self.next_char()? != COLON {
            return Ok(false);
        }
        Ok(self.next_char()? == LT)
    }

    /// Reads the rest of a `RCPT` command.
    fn rcpt(&mut self) -> (r: Result<Request<String>, Error>)
        ensures
            final(self).ends(
                old(self),
                r,
                spec_rcpt(old(self).input(), old(self).cursor(), old(self).bytes_left),
            ),
    {
        if self.path_start(TO)? {
            match self.address()? {
                Some(to) => {
                    if self.stop_char == GT {
                        return Ok(Request::Rcpt { to: self.rcpt_to_parameters(to)? });
                    }
                },
                None => {
                    return self.reject(Error::InvalidRecipientAddress);
                },
            }
        }
        self.reject(Error::SyntaxError { syntax: "RCPT TO:<forward-path> [parameters]" })
    }

    /// Reads the rest of a `MAIL` command.
    fn mail(&mut self) -> (r: Result<Request<String>, Error>)
        ensures
            final(self).ends(
                old(self),
                r,
                spec_mail(old(self).input(), old(self).cursor(), old(self).bytes_left),
            ),
    {
        if self.path_start(FROM)? {
            match self.address()? {
                Some(from) => {
                    if self.stop_char == GT {
                        return Ok(Request::Mail { from: self.mail_from_parameters(from)? });
                    }
                },
                None => {
                    return self.reject(Error::InvalidSenderAddress);
                },
            }
        }
        self.reject(Error::SyntaxError { syntax: "MAIL FROM:<reverse-path> [parameters]" })
    }

    /// Skips the rest of the line of a command without arguments.
    fn plain(&mut self, request: Request<String>) -> (r: Result<Request<String>, Error>)
        ensures
            final(self).ends(
                old(self),
                r,
                spec_plain(old(self).input(), old(self).cursor(), old(self).bytes_left, request@),
            ),
    {
        self.seek_lf()?;
        Ok(request)
    }

    /// Reads the host of a greeting.
    fn host(&mut self, syntax: &'static str) -> (r: Result<String, Error>)
        ensures
            final(self).ends(
                old(self),
                r,
                spec_host(old(self).input(), old(self).cursor(), old(self).bytes_left, syntax),
            ),
    {
        if self.stop_char != LF {
            let host = self.text()?;
            self.seek_lf()?;
            accept_domain(host, syntax)
        } else {
            Err(Error::SyntaxError { syntax })
        }
    }

    /// Reads the string that follows a command, if one does.
    fn argument(&mut self) -> (r: Result<String, Error>)
        ensures
            final(self).ends(
                old(self),
                r,
                spec_argument(old(self).input(), old(self).cursor(), old(self).bytes_left),
            ),
    {
        if self.stop_char != LF {
            let value = self.string()?;
            self.seek_lf()?;
            Ok(value)
        } else {
            Ok(String::new())
        }
    }

    /// Reads what follows the first argument of `BDAT` or `BURL`.
    fn last(&mut self, syntax: &'static str) -> (r: Result<bool, Error>)
        ensures
            final(self).ends(
                old(self),
                r,
                spec_last(old(self).input(), old(self).cursor(), old(self).bytes_left, syntax),
            ),
    {
        if self.stop_char != LF {
            let v = self.hashed_value()?;
            if v == LAST {
                self.seek_lf()?;
                Ok(true)
            } else if v == 0 {
                self.seek_lf()?;
                Ok(false)
            } else {
                self.reject(Error::SyntaxError { syntax })
            }
        } else {
            Ok(false)
        }
    }

    /// Reads the rest of a `BDAT` command.
    fn bdat(&mut self) -> (r: Result<Request<String>, Error>)
        ensures
            final(self).ends(
                old(self),
                r,
                spec_bdat(old(self).input(), old(self).cursor(), old(self).bytes_left),
            ),
    {
        if self.stop_char != LF {
            let chunk_size = self.size()?;
            if chunk_size != usize::MAX && is_ascii_whitespace(self.stop_char) {
                let is_last = self.last("BDAT chunk-size [LAST]")?;
                Ok(Request::Bdat { chunk_size, is_last })
            } else {
                self.reject(Error::SyntaxError { syntax: "BDAT chunk-size [LAST]" })
            }
        } else {
            Err(Error::SyntaxError { syntax: "BDAT chunk-size [LAST]" })
        }
    }

    /// Reads the rest of a `BURL` command.
    fn burl(&mut self) -> (r: Result<Request<String>, Error>)
        ensures
            final(self).ends(
                old(self),
                r,
                spec_burl(old(self).input(), old(self).cursor(), old(self).bytes_left),
            ),
    {
        if self.stop_char != LF {
            let uri = self.text()?;
            if !uri.as_str().is_empty() && is_ascii_whitespace(self.stop_char) {
                let is_last = self.last("BURL absolute-uri [LAST]")?;
                Ok(Request::Burl { uri, is_last })
            } else {
                self.reject(Error::SyntaxError { syntax: "BURL absolute-uri [LAST]" })
            }
        } else {
            Err(Error::SyntaxError { syntax: "BURL absolute-uri [LAST]" })
        }
    }

    /// Reads the rest of an `AUTH` command.
    fn auth(&mut self) -> (r: Result<Request<String>, Error>)
        ensures
            final(self).ends(
                old(self),
                r,
                spec_auth(old(self).input(), old(self).cursor(), old(self).bytes_left),
            ),
    {
        if self.stop_char != LF {
            match self.mechanism()? {
                Some(mechanism) => {
                    let initial_response = if self.stop_char != LF {
                        self.text()?
                    } else {
                        String::new()
                    };
                    self.seek_lf()?;
                    Ok(Request::Auth { mechanism, initial_response })
                },
                None => self.reject(
                    Error::SyntaxError { syntax: "AUTH mechanism [initial-response]" },
                ),
            }
        } else {
            Err(Error::SyntaxError { syntax: "AUTH mechanism [initial-response]" })
        }
    }

    /// Reads the rest of an `ATRN` command.
    fn atrn(&mut self) -> (r: Result<Request<String>, Error>)
        ensures
            final(self).ends(
                old(self),
                r,
                spec_atrn(old(self).input(), old(self).cursor(), old(self).bytes_left),
            ),
    {
        if self.stop_char != LF {
            let mut domains: Vec<String> = Vec::new();
            proof {
                use_type_invariant(&self.bytes);
                assert(views(domains@) =~= Seq::<Seq<char>>::empty());
            }
            loop
                invariant
                    self.input() == old(self).input(),
                    self.bytes_left == old(self).bytes_left,
                    old(self).stop_char != LF,
                    0 <= old(self).bytes.pos() <= self.bytes.pos() <= self.input().len(),
                    spec_domains(self.input(), self.cursor(), self.bytes_left, views(domains@))
                        == spec_domains(
                        old(self).input(),
                        old(self).cursor(),
                        old(self).bytes_left,
                        Seq::empty(),
                    ),
                    old(self).in_line() ==> self.on_line(),
                decreases self.input().len() - self.bytes.pos(),
            {
                let domain = self.seek_char(COMMA)?;
                if !domain.as_str().is_empty() {
                    proof {
                        assert(views(domains@.push(domain)) =~= views(domains@).push(domain@));
                    }
                    domains.push(domain);
                }
                if self.stop_char != COMMA {
                    self.seek_lf()?;
                    if domains.len() > 0 {
                        return Ok(Request::Atrn { domains });
                    } else {
                        return Err(Error::SyntaxError { syntax: "ATRN domain[,domain]" });
                    }
                }
            }
        } else {
            Err(Error::SyntaxError { syntax: "ATRN domain[,domain]" })
        }
    }

    /// Reads one command.
    pub fn request(&mut self) -> (r: Result<Request<String>, Error>)
        ensures
            final(self).input() == old(self).input(),
            final(self).bytes_left == old(self).bytes_left,
            parsed(r, spec_request(old(self).input(), old(self).cursor(), old(self).bytes_left)),
            old(self).on_line() ==> complete(r),
    {
        proof {
            reveal(spec_request);
        }
        let command = self.hashed_value()?;
        if !is_ascii_whitespace(self.stop_char) {
            return self.reject(Error::UnknownCommand);
        }
        if command == RCPT {
            self.rcpt()
        } else if command == MAIL {
            self.mail()
        } else if command == DATA {
            self.plain(Request::Data)
        } else if command == EHLO {
            Ok(Request::Ehlo { host: self.host("EHLO domain")? })
        } else if command == BDAT {
            self.bdat()
        } else if command == AUTH {
            self.auth()
        } else if command == EXPN {
            accept_expn(self.argument()?)
        } else if command == NOOP {
            Ok(Request::Noop { value: self.argument()? })
        } else if command == QUIT {
            self.plain(Request::Quit)
        } else if command == LHLO {
            Ok(Request::Lhlo { host: self.host("LHLO domain")? })
        } else if command == RSET {
            self.plain(Request::Rset)
        } else if command == VRFY {
            accept_vrfy(self.argument()?)
        } else if command == HELP {
            Ok(Request::Help { value: self.argument()? })
        } else if command == STARTTLS {
            self.plain(Request::StartTls)
        } else if command == ETRN {
            accept_etrn(self.argument()?)
        } else if command == ATRN {
            self.atrn()
        } else if command == BURL {
            self.burl()
        } else if command == HELO {
            Ok(Request::Helo { host: self.host("HELO domain")? })
        } else {
            self.reject(Error::UnknownCommand)
        }
    }

    /// Reads an unsigned decimal number; `usize::MAX` if no digit came, or
    /// if the number is that large or larger.
    pub fn size(&mut self) -> (r: Result<usize, Error>)
        ensures
            final(self).moved(old(self), spec_size(old(self).input(), old(self).cursor()).1),
            gives(r, spec_size(old(self).input(), old(self).cursor()).0, old(self).bytes_left),
            old(self).on_line() ==> r is Ok,
    {
        let mut value: usize = 0;
        let mut seen = false;
        proof {
            use_type_invariant(&self.bytes);
        }
        loop
            invariant
                self.input() == old(self).input(),
                self.bytes_left == old(self).bytes_left,
                self.stop_char == old(self).stop_char,
                0 <= old(self).bytes.pos() <= self.bytes.pos() <= self.input().len(),
                size_scan(self.input(), self.bytes.pos(), value, seen) == size_scan(
                    old(self).input(),
                    old(self).bytes.pos(),
                    0,
                    false,
                ),
                old(self).on_line() ==> self.bytes.pos() < self.input().len(),
            decreases self.input().len() - self.bytes.pos(),
        {
            match self.bytes.next() {
                Some(ch) => {
                    if is_ascii_digit(ch) {
                        value = if seen {
                            let wide: u128 = value as u128 * 10 + (ch - 0x30) as u128;
                            if wide > usize::MAX as u128 {
                                usize::MAX
                            } else {
                                wide as usize
                            }
                        } else {
                            (ch - 0x30) as usize
                        };
                        seen = true;
                    } else if ch == CR || (ch == SP && !seen) {
                    } else {
                        self.stop_char = ch;
                        return Ok(
                            if seen {
                                value
                            } else {
                                usize::MAX
                            },
                        );
                    }
                },
                None => {
                    return Err(Error::NeedsMoreData { bytes_left: self.bytes_left });
                },
            }
        }
    }

    /// Reads a signed decimal number; `i64::MAX` if no digit came, or if the
    /// number is out of the range of `i64`.
    pub fn integer(&mut self) -> (r: Result<i64, Error>)
        ensures
            final(self).moved(old(self), spec_integer(old(self).input(), old(self).cursor()).1),
            gives(r, spec_integer(old(self).input(), old(self).cursor()).0, old(self).bytes_left),
            old(self).on_line() ==> r is Ok,
    {
        let mut value: i64 = 0;
        let mut seen = false;
        let mut negative = false;
        proof {
            use_type_invariant(&self.bytes);
        }
        loop
            invariant
                self.input() == old(self).input(),
                self.bytes_left == old(self).bytes_left,
                self.stop_char == old(self).stop_char,
                0 <= old(self).bytes.pos() <= self.bytes.pos() <= self.input().len(),
                0 <= value,
                integer_scan(self.input(), self.bytes.pos(), value, seen, negative)
                    == integer_scan(old(self).input(), old(self).bytes.pos(), 0, false, false),
                old(self).on_line() ==> self.bytes.pos() < self.input().len(),
            decreases self.input().len() - self.bytes.pos(),
        {
            match self.bytes.next() {
                Some(ch) => {
                    if is_ascii_digit(ch) {
                        value = if seen {
                            let wide: i128 = value as i128 * 10 + (ch - 0x30) as i128;
                            if wide > i64::MAX as i128 {
                                i64::MAX
                            } else {
                                wide as i64
                            }
                        } else {
                            (ch - 0x30) as i64
                        };
                        seen = true;
                    } else if ch == SP && !seen {
                    } else if ch == 0x2d && !seen {
                        negative = true;
                    } else if (ch == 0x2b && !seen) || ch == CR {
                    } else {
                        self.stop_char = ch;
                        return Ok(
                            if !seen || value == i64::MAX {
                                i64::MAX
                            } else if negative {
                                -value
                            } else {
                                value
                            },
                        );
                    }
                },
                None => {
                    return Err(Error::NeedsMoreData { bytes_left: self.bytes_left });
                },
            }
        }
    }
}

impl Request<String> {
    /// Parses the command on the first line that `bytes` has left, and
    /// moves `bytes` past that line.
    ///
    /// The command is read from that line alone, line feed included: no
    /// byte after it is looked at, and every outcome but the request for
    /// more data leaves `bytes` just after the line feed. Where no line
    /// feed is left, all of `bytes` is read and more data is asked for.
    pub fn parse(bytes: &mut ByteIter<'_>) -> (r: Result<Request<String>, Error>)
        ensures
            final(bytes).data() == old(bytes).data(),
            match find_lf(old(bytes).data(), old(bytes).pos()) {
                None => {
                    &&& final(bytes).pos() == old(bytes).data().len()
                    &&& r matches Err(Error::NeedsMoreData { bytes_left })
                    &&& bytes_left == old(bytes).data().len() - old(bytes).pos()
                },
                Some(end) => {
                    &&& final(bytes).pos() == end + 1
                    &&& complete(r)
                    &&& parsed(
                        r,
                        spec_request(
                            old(bytes).data().subrange(old(bytes).pos(), end + 1),
                            start(),
                            (end + 1 - old(bytes).pos()) as usize,
                        ),
                    )
                },
            },
    {
        let rest = bytes.as_slice();
        let ghost first = bytes.pos();
        let mut n: usize = 0;
        proof {
            use_type_invariant(&*bytes);
        }
        while n < rest.len() && rest[n] != LF
            invariant
                0 <= first <= bytes.data().len(),
                rest@ == bytes.data().skip(first),
                0 <= n <= rest@.len(),
                find_lf(bytes.data(), first + n) == find_lf(bytes.data(), first),
            decreases rest@.len() - n,
        {
            n = n + 1;
        }
        if n == rest.len() {
            bytes.advance(n);
            return Err(Error::NeedsMoreData { bytes_left: n });
        }
        let line = slice_subrange(rest, 0, n + 1);
        assert(line@ =~= bytes.data().subrange(first, first + n + 1));
        let mut parser = Rfc5321Parser::new(ByteIter::new(line));
        let r = parser.request();
        bytes.advance(n + 1);
        r
    }
}

} // verus!
