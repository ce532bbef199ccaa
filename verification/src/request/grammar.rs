//! The grammar of commands: what the scanners and the command parser give
//! for the bytes that they read.
//!
//! Each function here is a definition, with no code behind it. A scan is
//! given as the index of the byte that ended it, or as a [`Cursor`] after
//! that byte; `None` stands for bytes that ended before the scan did.

use vstd::prelude::*;
use vstd::utf8::encode_utf8;
use crate::text::{hex_value, is_digit, is_space, upper, utf8_len, utf8_lossy};
use crate::{
    AUTH_9798_M_DSA_SHA1, AUTH_9798_M_ECDSA_SHA1, AUTH_9798_M_RSA_SHA1_ENC, AUTH_9798_U_DSA_SHA1,
    AUTH_9798_U_ECDSA_SHA1, AUTH_9798_U_RSA_SHA1_ENC, AUTH_ANONYMOUS, AUTH_CRAM_MD5,
    AUTH_DIGEST_MD5, AUTH_EAP_AES128, AUTH_EAP_AES128_PLUS, AUTH_ECDH_X25519_CHALLENGE,
    AUTH_ECDSA_NIST256P_CHALLENGE, AUTH_EXTERNAL, AUTH_GS2_KRB5, AUTH_GS2_KRB5_PLUS,
    AUTH_GSS_SPNEGO, AUTH_GSSAPI, AUTH_KERBEROS_V4, AUTH_KERBEROS_V5, AUTH_LOGIN,
    AUTH_NMAS_AUTHEN, AUTH_NMAS_LOGIN, AUTH_NMAS_SAMBA_AUTH, AUTH_NTLM, AUTH_OAUTH10A,
    AUTH_OAUTHBEARER, AUTH_OPENID20, AUTH_OTP, AUTH_PLAIN, AUTH_SAML20, AUTH_SCRAM_SHA_1,
    AUTH_SCRAM_SHA_1_PLUS, AUTH_SCRAM_SHA_256, AUTH_SCRAM_SHA_256_PLUS, AUTH_SECURID, AUTH_SKEY,
    AUTH_SPNEGO, AUTH_SPNEGO_PLUS, AUTH_SXOVER_PLUS, AUTH_XOAUTH, AUTH_XOAUTH2, CR, Error,
    ErrorView, LF, MAIL_BODY_7BIT, MAIL_BODY_8BITMIME, MAIL_BODY_BINARYMIME, MAIL_BY_NOTIFY,
    MAIL_BY_RETURN, MAIL_BY_TRACE, MAIL_CONPERM, MAIL_REQUIRETLS, MAIL_RET_FULL, MAIL_RET_HDRS,
    MAIL_SMTPUTF8, MailFrom, Mtrk, opt_view, RCPT_CONNEG, RCPT_NOTIFY_DELAY, RCPT_NOTIFY_FAILURE,
    RCPT_NOTIFY_NEVER, RCPT_NOTIFY_SUCCESS, RCPT_RRVS_CONTINUE, RCPT_RRVS_REJECT, RcptTo,
    RequestView, SP,
};
use crate::request::{
    _9798_M_DSA_SHA1, _9798_M_ECDSA_SHA, _9798_M_RSA_SHA1_, _9798_U_DSA_SHA1, _9798_U_ECDSA_SHA,
    _9798_U_RSA_SHA1_, ANONYMOUS, ATRN, AUTH, AUTH_, BDAT, BINARYMIME, BODY, BURL, BY, C, CONNEG,
    CONPERM, CRAM_MD5, DATA, DELAY, DIGEST_MD5, EAP_AES128, EAP_AES128_PLUS, ECDH_X25519_CHAL,
    ECDSA_NIST256P_C, EHLO, EIGHBITMIME, ENVID, ETRN, EXPN, EXTERNAL, FAILURE, FROM, FULL,
    GS2_KRB5, GS2_KRB5_PLUS, GSS_SPNEGO, GSSAPI, HDRS, HELO, HELP, HOLDFOR, HOLDUNTIL,
    KERBEROS_V4, KERBEROS_V5, LAST, LHLO, LOGIN, MAIL, MT_PRIORITY, MTRK, N, NEVER, NMAS_AUTHEN,
    NMAS_LOGIN, NMAS_SAMBA_AUTH, NOOP, NOTIFY, NT, NTLM, OAUTH10A, OAUTHBEARER, OPENID20, ORCPT,
    OTP, PLAIN, QUIT, R, RCPT, REQUIRETLS, RET, RFC822, RRVS, RSET, RT, SAML20, SCRAM_SHA_1,
    SCRAM_SHA_1_PLUS, SCRAM_SHA_256, SCRAM_SHA_256_PL, SECURID, SEVENBIT, SIZE, SKEY, SMTPUTF8,
    SOLICIT, SPNEGO, SPNEGO_PLUS, STARTTLS, SUCCESS, SXOVER_PLUS, TO, TRANSID, VRFY, XOAUTH,
    XOAUTH2,
};

verus! {


pub const MAX_ADDRESS_LEN: usize = 256;
pub const MAX_DOMAIN_LEN: usize = 255;

pub const QUOTE: u8 = 0x22;
pub const PLUS: u8 = 0x2b;
pub const COMMA: u8 = 0x2c;
pub const MINUS: u8 = 0x2d;
pub const DOT: u8 = 0x2e;
pub const COLON: u8 = 0x3a;
pub const SEMICOLON: u8 = 0x3b;
pub const LT: u8 = 0x3c;
pub const EQUALS: u8 = 0x3d;
pub const GT: u8 = 0x3e;
pub const AT: u8 = 0x40;
pub const BACKSLASH: u8 = 0x5c;

/// Where a scan stands: how many bytes of the input have been read, and the
/// byte that ended the last token.
pub struct Cursor {
    pub pos: int,
    pub stop_char: u8,
}

/// The cursor after a token that ended with the byte at index `end`.
pub open spec fn stop_at(s: Seq<u8>, end: int) -> Cursor {
    Cursor { pos: end + 1, stop_char: s[end] }
}

/// The cursor after the input ran out before the token ended.
pub open spec fn ran_out(s: Seq<u8>, c: Cursor) -> Cursor {
    Cursor { pos: s.len() as int, stop_char: c.stop_char }
}

/// An input that ends with a line feed.
pub open spec fn is_line(s: Seq<u8>) -> bool {
    s.len() > 0 && s[s.len() - 1] == LF
}

/// `r` is the scanned value `v`, or asks for more data where there is none.
pub open spec fn gives<T>(r: Result<T, Error>, v: Option<T>, bytes_left: usize) -> bool {
    match v {
        Some(x) => r == Ok::<T, Error>(x),
        None => r == Err::<T, Error>(Error::NeedsMoreData { bytes_left }),
    }
}

/// `r` is a string that reads `v`, or asks for more data where there is none.
pub open spec fn gives_text(r: Result<String, Error>, v: Option<Seq<char>>, bytes_left: usize) -> bool {
    match v {
        Some(x) => r is Ok && r->Ok_0@ == x,
        None => r == Err::<String, Error>(Error::NeedsMoreData { bytes_left }),
    }
}

/// An upper-case letter, a digit or a hyphen.
pub open spec fn is_keyword_byte(ch: u8) -> bool {
    0x41 <= ch <= 0x5a || 0x30 <= ch <= 0x39 || ch == 0x2d
}

/// A lower-case letter.
pub open spec fn is_lower(ch: u8) -> bool {
    0x61 <= ch <= 0x7a
}

/// Folds the keyword that starts at index `i` into `value`, eight bits a
/// byte from bit `shift` on: letters in upper case, carriage returns and
/// leading spaces skipped. The keyword ends at the first other byte, or at
/// the first keyword byte for which no bits are left. Returns the folded
/// value and the index of the byte that ended the keyword.
pub open spec fn hash_scan(s: Seq<u8>, i: int, value: u64, shift: u32) -> Option<(u64, int)>
    decreases s.len() - i,
{
    if i < 0 || i >= s.len() {
        None
    } else if is_keyword_byte(s[i]) && shift < 64 {
        hash_scan(s, i + 1, value | ((s[i] as u64) << shift), (shift + 8) as u32)
    } else if is_lower(s[i]) && shift < 64 {
        hash_scan(s, i + 1, value | ((((s[i] - 0x20) as u8) as u64) << shift), (shift + 8) as u32)
    } else if s[i] == CR || (s[i] == SP && value == 0) {
        hash_scan(s, i + 1, value, shift)
    } else {
        Some((value, i))
    }
}

/// The keyword of up to eight bytes at the cursor, as a number.
pub open spec fn spec_hashed_value(s: Seq<u8>, c: Cursor) -> (Option<u64>, Cursor) {
    match hash_scan(s, c.pos, 0, 0) {
        Some((value, end)) => (Some(value), stop_at(s, end)),
        None => (None, ran_out(s, c)),
    }
}

/// As [`hash_scan`], with room for sixteen bytes.
pub open spec fn hash_scan_long(s: Seq<u8>, i: int, value: u128, shift: u32) -> Option<(u128, int)>
    decreases s.len() - i,
{
    if i < 0 || i >= s.len() {
        None
    } else if is_keyword_byte(s[i]) && shift < 128 {
        hash_scan_long(s, i + 1, value | ((s[i] as u128) << shift), (shift + 8) as u32)
    } else if is_lower(s[i]) && shift < 128 {
        hash_scan_long(
            s,
            i + 1,
            value | ((((s[i] - 0x20) as u8) as u128) << shift),
            (shift + 8) as u32,
        )
    } else if s[i] == CR || (s[i] == SP && value == 0) {
        hash_scan_long(s, i + 1, value, shift)
    } else {
        Some((value, i))
    }
}

/// The keyword of up to sixteen bytes at the cursor, as a number.
pub open spec fn spec_hashed_value_long(s: Seq<u8>, c: Cursor) -> (Option<u128>, Cursor) {
    match hash_scan_long(s, c.pos, 0, 0) {
        Some((value, end)) => (Some(value), stop_at(s, end)),
        None => (None, ran_out(s, c)),
    }
}

/// The index of the first line feed at or after index `i`.
pub open spec fn find_lf(s: Seq<u8>, i: int) -> Option<int>
    decreases s.len() - i,
{
    if i < 0 || i >= s.len() {
        None
    } else if s[i] == LF {
        Some(i)
    } else {
        find_lf(s, i + 1)
    }
}

/// Skips the rest of the line, unless the last token ended it.
pub open spec fn spec_seek_lf(s: Seq<u8>, c: Cursor) -> (Option<()>, Cursor) {
    if c.stop_char == LF {
        (Some(()), c)
    } else {
        match find_lf(s, c.pos) {
            Some(end) => (Some(()), Cursor { pos: end + 1, stop_char: c.stop_char }),
            None => (None, ran_out(s, c)),
        }
    }
}

/// The index of the first byte at or after index `i` that is neither a
/// space nor a carriage return.
pub open spec fn find_char(s: Seq<u8>, i: int) -> Option<int>
    decreases s.len() - i,
{
    if i < 0 || i >= s.len() {
        None
    } else if s[i] == SP || s[i] == CR {
        find_char(s, i + 1)
    } else {
        Some(i)
    }
}

/// The next byte that is neither a space nor a carriage return.
pub open spec fn spec_next_char(s: Seq<u8>, c: Cursor) -> (Option<u8>, Cursor) {
    match find_char(s, c.pos) {
        Some(end) => (Some(s[end]), stop_at(s, end)),
        None => (None, ran_out(s, c)),
    }
}

/// The next byte, whatever it is. The stop byte stays as it was.
pub open spec fn spec_read_char(s: Seq<u8>, c: Cursor) -> (Option<u8>, Cursor) {
    if 0 <= c.pos < s.len() {
        (Some(s[c.pos]), Cursor { pos: c.pos + 1, stop_char: c.stop_char })
    } else {
        (None, ran_out(s, c))
    }
}

/// `value` with the decimal digit `d` appended, held at `usize::MAX`.
pub open spec fn push_digit(value: usize, d: u8) -> usize {
    if value * 10 + (d - 0x30) > usize::MAX {
        usize::MAX
    } else {
        (value * 10 + (d - 0x30)) as usize
    }
}

/// Reads the decimal number that starts at index `i`: carriage returns and
/// leading spaces are skipped. `value` is the number read so far, held at
/// `usize::MAX` once it has grown beyond it, and `seen` tells whether a
/// digit has been read. Without a digit the number is `usize::MAX`.
pub open spec fn size_scan(s: Seq<u8>, i: int, value: usize, seen: bool) -> Option<(usize, int)>
    decreases s.len() - i,
{
    if i < 0 || i >= s.len() {
        None
    } else if is_digit(s[i]) {
        size_scan(
            s,
            i + 1,
            if seen {
                push_digit(value, s[i])
            } else {
                (s[i] - 0x30) as usize
            },
            true,
        )
    } else if s[i] == CR || (s[i] == SP && !seen) {
        size_scan(s, i + 1, value, seen)
    } else if seen {
        Some((value, i))
    } else {
        Some((usize::MAX, i))
    }
}

/// The unsigned decimal number at the cursor; `usize::MAX` if there is
/// none, or if it is that large or larger.
pub open spec fn spec_size(s: Seq<u8>, c: Cursor) -> (Option<usize>, Cursor) {
    match size_scan(s, c.pos, 0, false) {
        Some((value, end)) => (Some(value), stop_at(s, end)),
        None => (None, ran_out(s, c)),
    }
}

/// `value` with the decimal digit `d` appended, held at `i64::MAX`.
pub open spec fn push_digit_i64(value: i64, d: u8) -> i64 {
    if value * 10 + (d - 0x30) > i64::MAX {
        i64::MAX
    } else {
        (value * 10 + (d - 0x30)) as i64
    }
}

/// Reads the signed decimal number that starts at index `i`. A sign counts
/// only before the first digit. `value` is the number read so far without
/// its sign, held at `i64::MAX` once it has grown beyond it, and `seen`
/// tells whether a digit has been read. Without a digit, and with a number
/// held at `i64::MAX`, the result is `i64::MAX`.
pub open spec fn integer_scan(s: Seq<u8>, i: int, value: i64, seen: bool, negative: bool) -> Option<
    (i64, int),
>
    decreases s.len() - i,
{
    if i < 0 || i >= s.len() {
        None
    } else if is_digit(s[i]) {
        integer_scan(
            s,
            i + 1,
            if seen {
                push_digit_i64(value, s[i])
            } else {
                (s[i] - 0x30) as i64
            },
            true,
            negative,
        )
    } else if s[i] == SP && !seen {
        integer_scan(s, i + 1, value, seen, negative)
    } else if s[i] == 0x2d && !seen {
        integer_scan(s, i + 1, value, seen, true)
    } else if (s[i] == 0x2b && !seen) || s[i] == CR {
        integer_scan(s, i + 1, value, seen, negative)
    } else if !seen || value == i64::MAX {
        Some((i64::MAX, i))
    } else if negative {
        Some(((-value) as i64, i))
    } else {
        Some((value, i))
    }
}

/// The signed decimal number at the cursor; `i64::MAX` if there is none,
/// or if it is out of the range of `i64`.
pub open spec fn spec_integer(s: Seq<u8>, c: Cursor) -> (Option<i64>, Cursor) {
    match integer_scan(s, c.pos, 0, false, false) {
        Some((value, end)) => (Some(value), stop_at(s, end)),
        None => (None, ran_out(s, c)),
    }
}

/// The text decoded so far, followed by what the bytes from index `seg` up
/// to index `i` decode to.
pub open spec fn flushed(s: Seq<u8>, seg: int, i: int, acc: Seq<char>) -> Seq<char> {
    acc + utf8_lossy(s.subrange(seg, i))
}

/// Reads the token that starts at index `i` and ends before the first space
/// or line feed. Carriage returns are left out; the bytes between them are
/// decoded piece by piece. `seg` is where the piece in progress began and
/// `acc` the text of the pieces before it.
pub open spec fn text_scan(s: Seq<u8>, i: int, seg: int, acc: Seq<char>) -> Option<(Seq<char>, int)>
    decreases s.len() - i,
{
    if i < 0 || i >= s.len() {
        None
    } else if s[i] == LF || s[i] == SP {
        Some((flushed(s, seg, i, acc), i))
    } else if s[i] == CR {
        text_scan(s, i + 1, i + 1, flushed(s, seg, i, acc))
    } else {
        text_scan(s, i + 1, seg, acc)
    }
}

/// The token at the cursor, up to the next space or line feed.
pub open spec fn spec_text(s: Seq<u8>, c: Cursor) -> (Option<Seq<char>>, Cursor) {
    match text_scan(s, c.pos, c.pos, Seq::empty()) {
        Some((value, end)) => (Some(value), stop_at(s, end)),
        None => (None, ran_out(s, c)),
    }
}

/// Reads the token that starts at index `i` and ends before `stop`, before a
/// line feed, or before a space that follows some text. Carriage returns and
/// leading spaces are left out.
pub open spec fn seek_scan(s: Seq<u8>, stop: u8, i: int, seg: int, acc: Seq<char>) -> Option<
    (Seq<char>, int),
>
    decreases s.len() - i,
{
    if i < 0 || i >= s.len() {
        None
    } else if s[i] == LF {
        Some((flushed(s, seg, i, acc), i))
    } else if s[i] == SP {
        if flushed(s, seg, i, acc).len() > 0 {
            Some((flushed(s, seg, i, acc), i))
        } else {
            seek_scan(s, stop, i + 1, i + 1, flushed(s, seg, i, acc))
        }
    } else if s[i] == CR {
        seek_scan(s, stop, i + 1, i + 1, flushed(s, seg, i, acc))
    } else if s[i] == stop {
        Some((flushed(s, seg, i, acc), i))
    } else {
        seek_scan(s, stop, i + 1, seg, acc)
    }
}

/// The token at the cursor, up to `stop`, a space or a line feed.
pub open spec fn spec_seek_char(s: Seq<u8>, stop: u8, c: Cursor) -> (Option<Seq<char>>, Cursor) {
    match seek_scan(s, stop, c.pos, c.pos, Seq::empty()) {
        Some((value, end)) => (Some(value), stop_at(s, end)),
        None => (None, ran_out(s, c)),
    }
}

/// Reads the string that starts at index `i`: a token as [`text_scan`] reads
/// it, but with leading spaces skipped, and with double quotes that are left
/// out and keep spaces from ending it. Inside quotes a backslash is left out
/// and the byte after it is kept. `last` is the byte before index `i`, zero
/// after an escaped backslash.
pub open spec fn string_scan(
    s: Seq<u8>,
    i: int,
    seg: int,
    acc: Seq<char>,
    in_quote: bool,
    last: u8,
) -> Option<(Seq<char>, int)>
    decreases s.len() - i,
{
    if i < 0 || i >= s.len() {
        None
    } else if s[i] == SP && !in_quote {
        if flushed(s, seg, i, acc).len() > 0 {
            Some((flushed(s, seg, i, acc), i))
        } else {
            string_scan(s, i + 1, i + 1, flushed(s, seg, i, acc), in_quote, s[i])
        }
    } else if s[i] == LF {
        Some((flushed(s, seg, i, acc), i))
    } else if s[i] == QUOTE && (!in_quote || last != BACKSLASH) {
        string_scan(s, i + 1, i + 1, flushed(s, seg, i, acc), !in_quote, s[i])
    } else if s[i] == BACKSLASH && in_quote {
        if last != BACKSLASH {
            string_scan(s, i + 1, i + 1, flushed(s, seg, i, acc), in_quote, s[i])
        } else {
            string_scan(s, i + 1, seg, acc, in_quote, 0)
        }
    } else if s[i] == CR {
        string_scan(s, i + 1, i + 1, flushed(s, seg, i, acc), in_quote, s[i])
    } else {
        string_scan(s, i + 1, seg, acc, in_quote, s[i])
    }
}

/// The quoted or unquoted string at the cursor.
pub open spec fn spec_string(s: Seq<u8>, c: Cursor) -> (Option<Seq<char>>, Cursor) {
    match string_scan(s, c.pos, c.pos, Seq::empty(), false, 0) {
        Some((value, end)) => (Some(value), stop_at(s, end)),
        None => (None, ran_out(s, c)),
    }
}

/// The byte that the hexadecimal digits `high` and `low` stand for.
pub open spec fn hex_pair(high: u8, low: u8) -> u8 {
    (high << 4u8) | low
}

/// Reads the token that starts at index `i` as [`text_scan`] does, and
/// decodes each `+` followed by two hexadecimal digits into the character
/// with that code. `escape` is `None` outside an escape; inside one it holds
/// the first digit once it is read. An escape that a line feed cuts short
/// ends the token without the piece in progress; any other byte that is no
/// digit ends the escape and is dropped with it.
pub open spec fn xtext_scan(
    s: Seq<u8>,
    i: int,
    seg: int,
    acc: Seq<char>,
    escape: Option<Option<u8>>,
) -> Option<(Seq<char>, int)>
    decreases s.len() - i,
{
    if i < 0 || i >= s.len() {
        None
    } else {
        match escape {
            None => {
                if s[i] == LF || s[i] == SP {
                    Some((flushed(s, seg, i, acc), i))
                } else if s[i] == PLUS {
                    xtext_scan(s, i + 1, i + 1, flushed(s, seg, i, acc), Some(None))
                } else if s[i] == CR {
                    xtext_scan(s, i + 1, i + 1, flushed(s, seg, i, acc), None)
                } else {
                    xtext_scan(s, i + 1, seg, acc, None)
                }
            },
            Some(first) => {
                match hex_value(s[i]) {
                    Some(digit) => match first {
                        Some(high) => xtext_scan(
                            s,
                            i + 1,
                            i + 1,
                            acc.push(hex_pair(high, digit) as char),
                            None,
                        ),
                        None => xtext_scan(s, i + 1, seg, acc, Some(Some(digit))),
                    },
                    None => {
                        if s[i] == LF {
                            Some((acc, i))
                        } else {
                            xtext_scan(s, i + 1, i + 1, acc, None)
                        }
                    },
                }
            },
        }
    }
}

/// The xtext token at the cursor, decoded.
pub open spec fn spec_xtext(s: Seq<u8>, c: Cursor) -> (Option<Seq<char>>, Cursor) {
    match xtext_scan(s, c.pos, c.pos, Seq::empty(), None) {
        Some((value, end)) => (Some(value), stop_at(s, end)),
        None => (None, ran_out(s, c)),
    }
}

/// The length of the text gathered so far with the bytes from `seg` up to
/// `i` counted as they are, held at `usize::MAX`.
pub open spec fn gathered_len(seg: int, i: int, acc: Seq<char>) -> usize {
    if utf8_len(acc) + (i - seg) > usize::MAX {
        usize::MAX
    } else {
        (utf8_len(acc) + (i - seg)) as usize
    }
}

/// The first byte of the text gathered so far, the bytes from `seg` up to
/// `i` taken as they are.
pub open spec fn gathered_first(s: Seq<u8>, seg: int, i: int, acc: Seq<char>) -> Option<u8> {
    if utf8_len(acc) > 0 {
        Some(encode_utf8(acc)[0])
    } else if seg < i {
        Some(s[seg])
    } else {
        None
    }
}

/// A byte that may stand anywhere in a mailbox: a letter, a digit, one of
/// ``!#$%&'*+-/=?^_`{|}~``, or any byte from 0x7f up.
pub open spec fn is_atext(ch: u8) -> bool {
    is_digit(ch) || 0x61 <= ch <= 0x7a || 0x41 <= ch <= 0x5a || ch == 0x21 || ch == 0x23 || ch
        == 0x24 || ch == 0x25 || ch == 0x26 || ch == 0x27 || ch == 0x2a || ch == 0x2b || ch == 0x2d
        || ch == 0x2f || ch == 0x3d || ch == 0x3f || ch == 0x5e || ch == 0x5f || ch == 0x60 || ch
        == 0x7b || ch == 0x7c || ch == 0x7d || ch == 0x7e || ch >= 0x7f
}

/// Whether a mailbox that reads `value`, with `at_count` unquoted `@` and
/// `lp_len` bytes before the last of them, is accepted: the empty path, or
/// at most 256 bytes with a local part and one `@`.
pub open spec fn mailbox_ok(value: Seq<char>, at_count: usize, lp_len: usize) -> bool {
    value.len() == 0 || (utf8_len(value) <= MAX_ADDRESS_LEN && at_count == 1 && lp_len > 0)
}

/// The mailbox `value` if it is accepted.
pub open spec fn checked_mailbox(value: Seq<char>, at_count: usize, lp_len: usize) -> Option<
    Seq<char>,
> {
    if mailbox_ok(value, at_count, lp_len) {
        Some(value)
    } else {
        None
    }
}

/// `n + 1`, held at `usize::MAX`.
pub open spec fn count_up(n: usize) -> usize {
    if n == usize::MAX {
        n
    } else {
        (n + 1) as usize
    }
}

/// Reads the mailbox that starts at index `i` and ends with `>`, with a line
/// feed, or with a space that follows some text, and returns it if it is
/// accepted, with the index of the byte that ended the scan.
///
/// Outside double quotes only the bytes of [`is_atext`] may stand, `.`
/// where it neither begins the mailbox nor follows `.` or `@`, and `@`
/// where it does not follow `.`. Quotes are left out; inside them any byte
/// may stand, a backslash is left out and the byte after it kept. A source
/// route, `@` first and then up to `:`, is dropped. Any other byte ends the
/// scan with no mailbox.
pub open spec fn address_scan(
    s: Seq<u8>,
    i: int,
    seg: int,
    acc: Seq<char>,
    last: u8,
    in_quote: bool,
    at_count: usize,
    lp_len: usize,
) -> Option<(Option<Seq<char>>, int)>
    decreases s.len() - i,
{
    if i < 0 || i >= s.len() {
        None
    } else if is_atext(s[i]) {
        address_scan(s, i + 1, seg, acc, s[i], in_quote, at_count, lp_len)
    } else if s[i] == DOT && !in_quote {
        if last == DOT || last == AT || gathered_len(seg, i, acc) == 0 {
            Some((None, i))
        } else {
            address_scan(s, i + 1, seg, acc, s[i], in_quote, at_count, lp_len)
        }
    } else if s[i] == AT && !in_quote {
        if last == DOT {
            Some((None, i))
        } else {
            address_scan(
                s,
                i + 1,
                seg,
                acc,
                s[i],
                in_quote,
                count_up(at_count),
                gathered_len(seg, i, acc),
            )
        }
    } else if s[i] == GT && !in_quote {
        Some((checked_mailbox(flushed(s, seg, i, acc), at_count, lp_len), i))
    } else if s[i] == CR {
        address_scan(s, i + 1, i + 1, flushed(s, seg, i, acc), s[i], in_quote, at_count, lp_len)
    } else if s[i] == COLON && !in_quote && gathered_first(s, seg, i, acc) == Some(AT) {
        address_scan(s, i + 1, i + 1, Seq::empty(), s[i], in_quote, 0, 0)
    } else if s[i] == COMMA && !in_quote && gathered_first(s, seg, i, acc) == Some(AT) {
        address_scan(s, i + 1, seg, acc, s[i], in_quote, at_count, lp_len)
    } else if s[i] == SP && !in_quote {
        if flushed(s, seg, i, acc).len() > 0 {
            Some((checked_mailbox(flushed(s, seg, i, acc), at_count, lp_len), i))
        } else {
            address_scan(
                s,
                i + 1,
                i + 1,
                flushed(s, seg, i, acc),
                s[i],
                in_quote,
                at_count,
                lp_len,
            )
        }
    } else if s[i] == LF {
        Some((checked_mailbox(flushed(s, seg, i, acc), at_count, lp_len), i))
    } else if s[i] == QUOTE && (!in_quote || last != BACKSLASH) {
        address_scan(s, i + 1, i + 1, flushed(s, seg, i, acc), s[i], !in_quote, at_count, lp_len)
    } else if s[i] == BACKSLASH && in_quote {
        if last != BACKSLASH {
            address_scan(
                s,
                i + 1,
                i + 1,
                flushed(s, seg, i, acc),
                s[i],
                in_quote,
                at_count,
                lp_len,
            )
        } else {
            address_scan(s, i + 1, seg, acc, 0, in_quote, at_count, lp_len)
        }
    } else if in_quote {
        address_scan(s, i + 1, seg, acc, s[i], in_quote, at_count, lp_len)
    } else {
        Some((None, i))
    }
}

/// The mailbox at the cursor: `Some(None)` where the bytes are no mailbox.
pub open spec fn spec_address(s: Seq<u8>, c: Cursor) -> (Option<Option<Seq<char>>>, Cursor) {
    match address_scan(s, c.pos, c.pos, Seq::empty(), 0, false, 0, 0) {
        Some((value, end)) => (Some(value), stop_at(s, end)),
        None => (None, ran_out(s, c)),
    }
}

/// `r` is the mailbox `v`, or asks for more data where there is none.
pub open spec fn gives_mailbox(
    r: Result<Option<String>, Error>,
    v: Option<Option<Seq<char>>>,
    bytes_left: usize,
) -> bool {
    match v {
        Some(x) => r is Ok && opt_view(r->Ok_0) == x,
        None => r == Err::<Option<String>, Error>(Error::NeedsMoreData { bytes_left }),
    }
}

/// `value` with the decimal digit `d` appended, held at `u32::MAX`.
pub open spec fn push_digit_u32(value: u32, d: u8) -> u32 {
    if value * 10 + (d - 0x30) > u32::MAX {
        u32::MAX
    } else {
        (value * 10 + (d - 0x30)) as u32
    }
}

/// The seconds from the start of 1970 to the date and time in `dt`: year,
/// month, day, hour, minute, second, and the hours and minutes of the zone,
/// which lies east of Greenwich if `east`. The days are counted from a
/// March-based year 4800 years back; the month's term is computed in `u32`
/// and wraps with it.
pub open spec fn unix_seconds(dt: Seq<u32>, east: bool) -> i64 {
    let month = dt[1];
    let m_adj = month.wrapping_sub(3);
    let carry: int = if m_adj > month {
        1
    } else {
        0
    };
    let adjust: u32 = if carry > 0 {
        12
    } else {
        0
    };
    let y_adj: int = dt[0] + 4800 - carry;
    let month_days: int = m_adj.wrapping_add(adjust).wrapping_mul(62719).wrapping_add(769) as int
        / 2048;
    let leap_days: int = y_adj / 4 - y_adj / 100 + y_adj / 400;
    let days: int = y_adj * 365 + leap_days + month_days + (dt[2] - 1) - 2472632;
    let zone: int = if east {
        -(dt[6] * 3600 + dt[7] * 60)
    } else {
        dt[6] * 3600 + dt[7] * 60
    };
    (days * 86400 + dt[3] * 3600 + dt[4] * 60 + dt[5] + zone) as i64
}

/// Reads the timestamp that starts at index `i`, digits into the field
/// `field` of `dt`: `-` ends the year and the month, `T` the day, `:` the
/// hour, the minute and the zone's hours, and `Z`, `+` or `-` the second.
/// The first byte out of place ends it; without a zone it counts as no
/// timestamp, which is `i64::MAX`.
pub open spec fn timestamp_scan(s: Seq<u8>, i: int, dt: Seq<u32>, east: bool, field: int) -> Option<
    (i64, int),
>
    decreases s.len() - i,
{
    if i < 0 || i >= s.len() {
        None
    } else if is_digit(s[i]) && field < 8 {
        timestamp_scan(s, i + 1, dt.update(field, push_digit_u32(dt[field], s[i])), east, field)
    } else if s[i] == MINUS && (field <= 1 || field == 5) {
        timestamp_scan(s, i + 1, dt, east, field + 1)
    } else if s[i] == PLUS && field == 5 {
        timestamp_scan(s, i + 1, dt, true, field + 1)
    } else if s[i] == 0x54 && field == 2 {
        timestamp_scan(s, i + 1, dt, east, field + 1)
    } else if s[i] == COLON && (field == 3 || field == 4 || field == 6) {
        timestamp_scan(s, i + 1, dt, east, field + 1)
    } else if s[i] == 0x5a && field == 5 {
        timestamp_scan(s, i + 1, dt, east, 8)
    } else if field >= 7 {
        Some((unix_seconds(dt, east), i))
    } else {
        Some((i64::MAX, i))
    }
}

/// The timestamp at the cursor in seconds, `i64::MAX` if there is none.
pub open spec fn spec_timestamp(s: Seq<u8>, c: Cursor) -> (Option<i64>, Cursor) {
    match timestamp_scan(s, c.pos, seq![0u32, 0u32, 0u32, 0u32, 0u32, 0u32, 0u32, 0u32], false, 0) {
        Some((value, end)) => (Some(value), stop_at(s, end)),
        None => (None, ran_out(s, c)),
    }
}

/// The bytes of the text `word`.
pub open spec fn word(text: &str) -> Seq<u8> {
    encode_utf8(text@)
}

/// The mechanism that a keyword and the bytes after it name: its bit, zero
/// if the name is not known, `None` if there is no name at all. `key` folds
/// the first sixteen bytes of the name and `trail` holds what follows them.
pub open spec fn mechanism_of(key: u128, trail: Seq<u8>) -> Option<u64> {
    if trail.len() == 0 {
        if key == _9798_M_DSA_SHA1 {
            Some(AUTH_9798_M_DSA_SHA1)
        } else if key == _9798_U_DSA_SHA1 {
            Some(AUTH_9798_U_DSA_SHA1)
        } else if key == ANONYMOUS {
            Some(AUTH_ANONYMOUS)
        } else if key == CRAM_MD5 {
            Some(AUTH_CRAM_MD5)
        } else if key == DIGEST_MD5 {
            Some(AUTH_DIGEST_MD5)
        } else if key == EAP_AES128 {
            Some(AUTH_EAP_AES128)
        } else if key == EAP_AES128_PLUS {
            Some(AUTH_EAP_AES128_PLUS)
        } else if key == EXTERNAL {
            Some(AUTH_EXTERNAL)
        } else if key == GS2_KRB5 {
            Some(AUTH_GS2_KRB5)
        } else if key == GS2_KRB5_PLUS {
            Some(AUTH_GS2_KRB5_PLUS)
        } else if key == GSS_SPNEGO {
            Some(AUTH_GSS_SPNEGO)
        } else if key == GSSAPI {
            Some(AUTH_GSSAPI)
        } else if key == KERBEROS_V4 {
            Some(AUTH_KERBEROS_V4)
        } else if key == KERBEROS_V5 {
            Some(AUTH_KERBEROS_V5)
        } else if key == LOGIN {
            Some(AUTH_LOGIN)
        } else if key == NMAS_SAMBA_AUTH {
            Some(AUTH_NMAS_SAMBA_AUTH)
        } else if key == NMAS_AUTHEN {
            Some(AUTH_NMAS_AUTHEN)
        } else if key == NMAS_LOGIN {
            Some(AUTH_NMAS_LOGIN)
        } else if key == NTLM {
            Some(AUTH_NTLM)
        } else if key == OAUTH10A {
            Some(AUTH_OAUTH10A)
        } else if key == OAUTHBEARER {
            Some(AUTH_OAUTHBEARER)
        } else if key == OPENID20 {
            Some(AUTH_OPENID20)
        } else if key == OTP {
            Some(AUTH_OTP)
        } else if key == PLAIN {
            Some(AUTH_PLAIN)
        } else if key == SAML20 {
            Some(AUTH_SAML20)
        } else if key == SCRAM_SHA_1 {
            Some(AUTH_SCRAM_SHA_1)
        } else if key == SCRAM_SHA_1_PLUS {
            Some(AUTH_SCRAM_SHA_1_PLUS)
        } else if key == SCRAM_SHA_256 {
            Some(AUTH_SCRAM_SHA_256)
        } else if key == SECURID {
            Some(AUTH_SECURID)
        } else if key == SKEY {
            Some(AUTH_SKEY)
        } else if key == SPNEGO {
            Some(AUTH_SPNEGO)
        } else if key == SPNEGO_PLUS {
            Some(AUTH_SPNEGO_PLUS)
        } else if key == SXOVER_PLUS {
            Some(AUTH_SXOVER_PLUS)
        } else if key == XOAUTH {
            Some(AUTH_XOAUTH)
        } else if key == XOAUTH2 {
            Some(AUTH_XOAUTH2)
        } else if key == 0 {
            None
        } else {
            Some(0)
        }
    } else if key == _9798_M_ECDSA_SHA && trail == word("1") {
        Some(AUTH_9798_M_ECDSA_SHA1)
    } else if key == _9798_M_RSA_SHA1_ && trail == word("ENC") {
        Some(AUTH_9798_M_RSA_SHA1_ENC)
    } else if key == _9798_U_ECDSA_SHA && trail == word("1") {
        Some(AUTH_9798_U_ECDSA_SHA1)
    } else if key == _9798_U_RSA_SHA1_ && trail == word("ENC") {
        Some(AUTH_9798_U_RSA_SHA1_ENC)
    } else if key == ECDH_X25519_CHAL && trail == word("LENGE") {
        Some(AUTH_ECDH_X25519_CHALLENGE)
    } else if key == ECDSA_NIST256P_C && trail == word("HALLENGE") {
        Some(AUTH_ECDSA_NIST256P_CHALLENGE)
    } else if key == SCRAM_SHA_256_PL && trail == word("US") {
        Some(AUTH_SCRAM_SHA_256_PLUS)
    } else {
        Some(0)
    }
}

/// Reads on from index `i` to the next white space and gathers in `trail`
/// the upper-case form of the first bytes on the way, nine at most.
pub open spec fn trail_scan(s: Seq<u8>, i: int, trail: Seq<u8>) -> Option<(Seq<u8>, int)>
    decreases s.len() - i,
{
    if i < 0 || i >= s.len() {
        None
    } else if !is_space(s[i]) {
        trail_scan(
            s,
            i + 1,
            if trail.len() < 9 {
                trail.push(upper(s[i]))
            } else {
                trail
            },
        )
    } else {
        Some((trail, i))
    }
}

/// The mechanism named at the cursor. A name of more than sixteen bytes
/// goes on with the byte that ended its keyword, as it stands, and then up
/// to the next white space; with more than eight such bytes it is unknown.
pub open spec fn spec_mechanism(s: Seq<u8>, c: Cursor) -> (Option<Option<u64>>, Cursor) {
    match spec_hashed_value_long(s, c) {
        (None, c1) => (None, c1),
        (Some(key), c1) => {
            if is_space(c1.stop_char) {
                (Some(mechanism_of(key, Seq::empty())), c1)
            } else {
                match trail_scan(s, c1.pos, seq![c1.stop_char]) {
                    None => (None, ran_out(s, c1)),
                    Some((trail, end)) => (
                        Some(
                            if trail.len() > 8 {
                                Some(0u64)
                            } else {
                                mechanism_of(key, trail)
                            },
                        ),
                        stop_at(s, end),
                    ),
                }
            }
        },
    }
}

/// The error that asks for more data.
pub open spec fn need_more(left: usize) -> ErrorView {
    ErrorView::NeedsMoreData { bytes_left: left }
}

/// The error for a parameter whose value is not accepted.
pub open spec fn invalid(param: &str) -> ErrorView {
    ErrorView::InvalidParameter { param: param@ }
}

/// The error for a command that is not framed as `syntax` says.
pub open spec fn bad_syntax(syntax: &str) -> ErrorView {
    ErrorView::SyntaxError { syntax: syntax@ }
}

/// Gives up on a line: the rest of it is skipped, and the error is `e` if
/// the line ends in the input.
pub open spec fn reject<V>(s: Seq<u8>, c: Cursor, left: usize, e: ErrorView) -> (
    Result<V, ErrorView>,
    Cursor,
) {
    match spec_seek_lf(s, c) {
        (Some(_), c1) => (Err(e), c1),
        (None, c1) => (Err(need_more(left)), c1),
    }
}

/// `r` reads as `v`.
pub open spec fn parsed<T: View>(r: Result<T, Error>, v: Result<T::V, ErrorView>) -> bool {
    match r {
        Ok(a) => v is Ok && a@ == v->Ok_0,
        Err(e) => v is Err && e@ == v->Err_0,
    }
}

/// `r` does not ask for more data.
pub open spec fn complete<T>(r: Result<T, Error>) -> bool {
    r is Err ==> !(r->Err_0 is NeedsMoreData)
}

/// The upper-case form of those of the lowest `n` bytes of `key` that are
/// not zero, lowest first.
pub open spec fn key_bytes(key: u128, n: int) -> Seq<u8>
    decreases n,
{
    if n <= 0 {
        Seq::empty()
    } else {
        let b = ((key >> ((8 * (n - 1)) as u128)) & 0xff) as u8;
        if b != 0 {
            key_bytes(key, n - 1).push(upper(b))
        } else {
            key_bytes(key, n - 1)
        }
    }
}

/// Reads on from index `i` to the next white space and appends to `acc` the
/// upper-case form of the bytes on the way.
pub open spec fn upper_scan(s: Seq<u8>, i: int, acc: Seq<u8>) -> Option<(Seq<u8>, int)>
    decreases s.len() - i,
{
    if i < 0 || i >= s.len() {
        None
    } else if !is_space(s[i]) {
        upper_scan(s, i + 1, acc.push(upper(s[i])))
    } else {
        Some((acc, i))
    }
}

/// Fails on a parameter that is not known: the error names the keyword
/// `key` with all that follows it up to the next white space, in upper
/// case. `c` is the cursor after the keyword.
pub open spec fn unsupported<V>(s: Seq<u8>, c: Cursor, left: usize, key: u128) -> (
    Result<V, ErrorView>,
    Cursor,
) {
    if is_space(c.stop_char) {
        reject(
            s,
            c,
            left,
            ErrorView::UnsupportedParameter { param: utf8_lossy(key_bytes(key, 16)) },
        )
    } else {
        match upper_scan(s, c.pos, key_bytes(key, 16).push(upper(c.stop_char))) {
            None => (Err(need_more(left)), ran_out(s, c)),
            Some((name, end)) => reject(
                s,
                stop_at(s, end),
                left,
                ErrorView::UnsupportedParameter { param: utf8_lossy(name) },
            ),
        }
    }
}

/// A `MAIL FROM` with the reverse path `address` and no parameters.
pub open spec fn mail_from(address: Seq<char>) -> MailFrom<Seq<char>> {
    MailFrom {
        address,
        flags: 0,
        size: 0,
        trans_id: None,
        by: 0,
        env_id: None,
        solicit: None,
        mtrk: None,
        auth: None,
        hold_for: 0,
        hold_until: 0,
        mt_priority: 0,
    }
}

/// A `RCPT TO` with the forward path `address` and no parameters.
pub open spec fn rcpt_to(address: Seq<char>) -> RcptTo<Seq<char>> {
    RcptTo { address, orcpt: None, rrvs: 0, flags: 0 }
}

/// The value of `BODY=`: the flag of the body type that follows.
pub open spec fn spec_body(s: Seq<u8>, c: Cursor, left: usize) -> (Result<u64, ErrorView>, Cursor) {
    match spec_hashed_value_long(s, c) {
        (None, c1) => (Err(need_more(left)), c1),
        (Some(v), c1) => {
            if v == EIGHBITMIME && is_space(c1.stop_char) {
                (Ok(MAIL_BODY_8BITMIME), c1)
            } else if v == BINARYMIME && is_space(c1.stop_char) {
                (Ok(MAIL_BODY_BINARYMIME), c1)
            } else if v == SEVENBIT && is_space(c1.stop_char) {
                (Ok(MAIL_BODY_7BIT), c1)
            } else {
                reject(s, c1, left, invalid("BODY"))
            }
        },
    }
}

/// The value of `BY=`: seconds, then `;` and one of `N`, `NT`, `R`, `RT`.
/// Gives the seconds and the flags of the mode.
pub open spec fn spec_by(s: Seq<u8>, c: Cursor, left: usize) -> (
    Result<(i64, u64), ErrorView>,
    Cursor,
) {
    match spec_integer(s, c) {
        (None, c1) => (Err(need_more(left)), c1),
        (Some(time), c1) => {
            if time != i64::MAX && c1.stop_char == SEMICOLON {
                match spec_hashed_value(s, c1) {
                    (None, c2) => (Err(need_more(left)), c2),
                    (Some(v), c2) => {
                        if v == N && is_space(c2.stop_char) {
                            (Ok((time, MAIL_BY_NOTIFY)), c2)
                        } else if v == NT && is_space(c2.stop_char) {
                            (Ok((time, MAIL_BY_NOTIFY | MAIL_BY_TRACE)), c2)
                        } else if v == R && is_space(c2.stop_char) {
                            (Ok((time, MAIL_BY_RETURN)), c2)
                        } else if v == RT && is_space(c2.stop_char) {
                            (Ok((time, MAIL_BY_RETURN | MAIL_BY_TRACE)), c2)
                        } else {
                            reject(s, c2, left, invalid("BY"))
                        }
                    },
                }
            } else {
                reject(s, c1, left, invalid("BY"))
            }
        },
    }
}

/// The value of `RET=`: the flag of `FULL` or of `HDRS`.
pub open spec fn spec_ret(s: Seq<u8>, c: Cursor, left: usize) -> (Result<u64, ErrorView>, Cursor) {
    match spec_hashed_value(s, c) {
        (None, c1) => (Err(need_more(left)), c1),
        (Some(v), c1) => {
            if v == FULL && is_space(c1.stop_char) {
                (Ok(MAIL_RET_FULL), c1)
            } else if v == HDRS && is_space(c1.stop_char) {
                (Ok(MAIL_RET_HDRS), c1)
            } else {
                reject(s, c1, left, invalid("RET"))
            }
        },
    }
}

/// A number as the value of the parameter `name`: digits, then white space.
pub open spec fn spec_number(s: Seq<u8>, c: Cursor, left: usize, name: &str) -> (
    Result<usize, ErrorView>,
    Cursor,
) {
    match spec_size(s, c) {
        (None, c1) => (Err(need_more(left)), c1),
        (Some(n), c1) => {
            if n != usize::MAX && is_space(c1.stop_char) {
                (Ok(n), c1)
            } else {
                reject(s, c1, left, invalid(name))
            }
        },
    }
}

/// An xtext value of the parameter `name`, of 1 to `max` bytes, then white
/// space.
pub open spec fn spec_xtext_value(s: Seq<u8>, c: Cursor, left: usize, name: &str, max: usize) -> (
    Result<Seq<char>, ErrorView>,
    Cursor,
) {
    match spec_xtext(s, c) {
        (None, c1) => (Err(need_more(left)), c1),
        (Some(value), c1) => {
            if is_space(c1.stop_char) && 1 <= utf8_len(value) <= max {
                (Ok(value), c1)
            } else {
                reject(s, c1, left, invalid(name))
            }
        },
    }
}

/// The value of `SOLICIT=`: a token that is not empty.
pub open spec fn spec_solicit(s: Seq<u8>, c: Cursor, left: usize) -> (
    Result<Seq<char>, ErrorView>,
    Cursor,
) {
    match spec_text(s, c) {
        (None, c1) => (Err(need_more(left)), c1),
        (Some(value), c1) => {
            if value.len() > 0 && is_space(c1.stop_char) {
                (Ok(value), c1)
            } else {
                reject(s, c1, left, invalid("SOLICIT"))
            }
        },
    }
}

/// The value of `TRANSID=`: an identifier between `<` and `>`. The `>`
/// counts as a space for what follows.
pub open spec fn spec_transid(s: Seq<u8>, c: Cursor, left: usize) -> (
    Result<Seq<char>, ErrorView>,
    Cursor,
) {
    match spec_next_char(s, c) {
        (None, c1) => (Err(need_more(left)), c1),
        (Some(ch), c1) => {
            if ch == LT {
                match spec_seek_char(s, GT, c1) {
                    (None, c2) => (Err(need_more(left)), c2),
                    (Some(id), c2) => {
                        if c2.stop_char == GT && id.len() > 0 {
                            (Ok(id), Cursor { pos: c2.pos, stop_char: SP })
                        } else {
                            reject(s, c2, left, invalid("TRANSID"))
                        }
                    },
                }
            } else {
                reject(s, c1, left, invalid("TRANSID"))
            }
        },
    }
}

/// The value of `MTRK=`: a certifier, and after `:` a timeout.
pub open spec fn spec_mtrk(s: Seq<u8>, c: Cursor, left: usize) -> (
    Result<Mtrk<Seq<char>>, ErrorView>,
    Cursor,
) {
    match spec_seek_char(s, COLON, c) {
        (None, c1) => (Err(need_more(left)), c1),
        (Some(certifier), c1) => {
            let (timeout, c2) = if c1.stop_char == COLON {
                spec_size(s, c1)
            } else {
                (Some(0usize), c1)
            };
            match timeout {
                None => (Err(need_more(left)), c2),
                Some(timeout) => {
                    if certifier.len() > 0 && is_space(c2.stop_char) && timeout != usize::MAX {
                        (Ok(Mtrk { certifier, timeout: timeout as u64 }), c2)
                    } else {
                        reject(s, c2, left, invalid("MTRK"))
                    }
                },
            }
        },
    }
}

/// The lowest and the highest priority of a message.
pub const MIN_PRIORITY: i64 = -9;
pub const MAX_PRIORITY: i64 = 9;

/// The value of `MT-PRIORITY=`: a number from -9 to 9, then white space.
pub open spec fn spec_priority(s: Seq<u8>, c: Cursor, left: usize) -> (
    Result<i64, ErrorView>,
    Cursor,
) {
    match spec_integer(s, c) {
        (None, c1) => (Err(need_more(left)), c1),
        (Some(n), c1) => {
            if MIN_PRIORITY <= n <= MAX_PRIORITY && is_space(c1.stop_char) {
                (Ok(n), c1)
            } else {
                reject(s, c1, left, invalid("MT-PRIORITY"))
            }
        },
    }
}

/// `p` with the flags `f` set.
pub open spec fn with_flags(p: MailFrom<Seq<char>>, f: u64) -> MailFrom<Seq<char>> {
    MailFrom { flags: p.flags | f, ..p }
}

/// Applies to `p` the `MAIL FROM` parameter whose keyword `key` has just
/// been read; `c` is the cursor after the keyword. A keyword with a value
/// ends with `=`, one without ends with white space.
pub open spec fn spec_mail_parameter(
    s: Seq<u8>,
    c: Cursor,
    left: usize,
    key: u128,
    p: MailFrom<Seq<char>>,
) -> (Result<MailFrom<Seq<char>>, ErrorView>, Cursor) {
    if key == SMTPUTF8 && is_space(c.stop_char) {
        (Ok(with_flags(p, MAIL_SMTPUTF8)), c)
    } else if key == BODY && c.stop_char == EQUALS {
        match spec_body(s, c, left) {
            (Ok(f), c1) => (Ok(with_flags(p, f)), c1),
            (Err(e), c1) => (Err(e), c1),
        }
    } else if key == SIZE && c.stop_char == EQUALS {
        match spec_number(s, c, left, "SIZE") {
            (Ok(n), c1) => (Ok(MailFrom { size: n, ..p }), c1),
            (Err(e), c1) => (Err(e), c1),
        }
    } else if key == BY && c.stop_char == EQUALS {
        match spec_by(s, c, left) {
            (Ok((time, f)), c1) => (Ok(MailFrom { flags: p.flags | f, by: time, ..p }), c1),
            (Err(e), c1) => (Err(e), c1),
        }
    } else if key == HOLDUNTIL && c.stop_char == EQUALS {
        match spec_number(s, c, left, "HOLDUNTIL") {
            (Ok(n), c1) => (Ok(MailFrom { hold_until: n as u64, ..p }), c1),
            (Err(e), c1) => (Err(e), c1),
        }
    } else if key == HOLDFOR && c.stop_char == EQUALS {
        match spec_number(s, c, left, "HOLDFOR") {
            (Ok(n), c1) => (Ok(MailFrom { hold_for: n as u64, ..p }), c1),
            (Err(e), c1) => (Err(e), c1),
        }
    } else if key == RET && c.stop_char == EQUALS {
        match spec_ret(s, c, left) {
            (Ok(f), c1) => (Ok(with_flags(p, f)), c1),
            (Err(e), c1) => (Err(e), c1),
        }
    } else if key == ENVID && c.stop_char == EQUALS {
        match spec_xtext_value(s, c, left, "ENVID", 100) {
            (Ok(v), c1) => (Ok(MailFrom { env_id: Some(v), ..p }), c1),
            (Err(e), c1) => (Err(e), c1),
        }
    } else if key == REQUIRETLS && is_space(c.stop_char) {
        (Ok(with_flags(p, MAIL_REQUIRETLS)), c)
    } else if key == SOLICIT && c.stop_char == EQUALS {
        match spec_solicit(s, c, left) {
            (Ok(v), c1) => (Ok(MailFrom { solicit: Some(v), ..p }), c1),
            (Err(e), c1) => (Err(e), c1),
        }
    } else if key == TRANSID && c.stop_char == EQUALS {
        match spec_transid(s, c, left) {
            (Ok(v), c1) => (Ok(MailFrom { trans_id: Some(v), ..p }), c1),
            (Err(e), c1) => (Err(e), c1),
        }
    } else if key == MTRK && c.stop_char == EQUALS {
        match spec_mtrk(s, c, left) {
            (Ok(v), c1) => (Ok(MailFrom { mtrk: Some(v), ..p }), c1),
            (Err(e), c1) => (Err(e), c1),
        }
    } else if key == AUTH_ && c.stop_char == EQUALS {
        match spec_xtext_value(s, c, left, "AUTH", MAX_ADDRESS_LEN) {
            (Ok(v), c1) => (Ok(MailFrom { auth: Some(v), ..p }), c1),
            (Err(e), c1) => (Err(e), c1),
        }
    } else if key == MT_PRIORITY && c.stop_char == EQUALS {
        match spec_priority(s, c, left) {
            (Ok(n), c1) => (Ok(MailFrom { mt_priority: n, ..p }), c1),
            (Err(e), c1) => (Err(e), c1),
        }
    } else if key == CONPERM && is_space(c.stop_char) {
        (Ok(with_flags(p, MAIL_CONPERM)), c)
    } else if key == 0 {
        (Ok(p), c)
    } else {
        unsupported(s, c, left, key)
    }
}

/// Reads the parameters of a `MAIL FROM` up to the end of the line and
/// applies them to `p` in turn. `c` is the cursor after the path. (The
/// test on the positions always holds: a keyword takes a byte at least.)
pub open spec fn spec_mail_from_parameters(
    s: Seq<u8>,
    c: Cursor,
    left: usize,
    p: MailFrom<Seq<char>>,
) -> (Result<MailFrom<Seq<char>>, ErrorView>, Cursor)
    decreases s.len() - c.pos,
{
    if c.stop_char == LF {
        (Ok(p), c)
    } else {
        match spec_hashed_value_long(s, c) {
            (None, c1) => (Err(need_more(left)), c1),
            (Some(key), c1) => match spec_mail_parameter(s, c1, left, key, p) {
                (Err(e), c2) => (Err(e), c2),
                (Ok(p2), c2) => {
                    if c.pos < c2.pos <= s.len() {
                        spec_mail_from_parameters(s, c2, left, p2)
                    } else {
                        (Ok(p2), c2)
                    }
                },
            },
        }
    }
}

/// The flag that the word `v` of a `NOTIFY=` list sets when `flags` are set
/// already: `NEVER` only where no word came before it, and `SUCCESS`,
/// `FAILURE` and `DELAY` only where `NEVER` did not.
pub open spec fn notify_flag(v: u128, flags: u64) -> Option<u64> {
    if v == NEVER {
        if flags & (RCPT_NOTIFY_NEVER | RCPT_NOTIFY_SUCCESS | RCPT_NOTIFY_FAILURE
            | RCPT_NOTIFY_DELAY) == 0 {
            Some(RCPT_NOTIFY_NEVER)
        } else {
            None
        }
    } else if flags & RCPT_NOTIFY_NEVER != 0 {
        None
    } else if v == SUCCESS {
        Some(RCPT_NOTIFY_SUCCESS)
    } else if v == FAILURE {
        Some(RCPT_NOTIFY_FAILURE)
    } else if v == DELAY {
        Some(RCPT_NOTIFY_DELAY)
    } else {
        None
    }
}

/// The value of `NOTIFY=`: words separated by commas, up to white space.
/// Gives `flags` with the flag of each word set. (The test on the
/// positions always holds.)
pub open spec fn spec_notify(s: Seq<u8>, c: Cursor, left: usize, flags: u64) -> (
    Result<u64, ErrorView>,
    Cursor,
)
    decreases s.len() - c.pos,
{
    match spec_hashed_value_long(s, c) {
        (None, c1) => (Err(need_more(left)), c1),
        (Some(v), c1) => match notify_flag(v, flags) {
            None => reject(s, c1, left, invalid("NOTIFY")),
            Some(f) => {
                if is_space(c1.stop_char) {
                    (Ok(flags | f), c1)
                } else if c1.stop_char != COMMA {
                    reject(s, c1, left, invalid("NOTIFY"))
                } else if c.pos < c1.pos <= s.len() {
                    spec_notify(s, c1, left, flags | f)
                } else {
                    (Ok(flags | f), c1)
                }
            },
        },
    }
}

/// The value of `ORCPT=`: `rfc822;` and an xtext address of 1 to 256 bytes.
pub open spec fn spec_orcpt(s: Seq<u8>, c: Cursor, left: usize) -> (
    Result<Seq<char>, ErrorView>,
    Cursor,
) {
    match spec_hashed_value(s, c) {
        (None, c1) => (Err(need_more(left)), c1),
        (Some(v), c1) => {
            if v != RFC822 || c1.stop_char != SEMICOLON {
                reject(s, c1, left, invalid("ORCPT"))
            } else {
                spec_xtext_value(s, c1, left, "ORCPT", MAX_ADDRESS_LEN)
            }
        },
    }
}

/// The value of `RRVS=`: a timestamp, and after `;` the letter `C` or `R`.
/// Gives the seconds and the flag: to reject, unless `C` asks to continue.
/// Without a timestamp the value is refused, whatever follows.
pub open spec fn spec_rrvs(s: Seq<u8>, c: Cursor, left: usize) -> (
    Result<(i64, u64), ErrorView>,
    Cursor,
) {
    match spec_timestamp(s, c) {
        (None, c1) => (Err(need_more(left)), c1),
        (Some(time), c1) => {
            if time == i64::MAX {
                reject(s, c1, left, invalid("RRVS"))
            } else if c1.stop_char == SEMICOLON {
                match spec_hashed_value(s, c1) {
                    (None, c2) => (Err(need_more(left)), c2),
                    (Some(v), c2) => {
                        if v == C && is_space(c2.stop_char) {
                            (Ok((time, RCPT_RRVS_CONTINUE)), c2)
                        } else if v == R && is_space(c2.stop_char) {
                            (Ok((time, RCPT_RRVS_REJECT)), c2)
                        } else {
                            reject(s, c2, left, invalid("RRVS"))
                        }
                    },
                }
            } else if is_space(c1.stop_char) {
                (Ok((time, RCPT_RRVS_REJECT)), c1)
            } else {
                reject(s, c1, left, invalid("RRVS"))
            }
        },
    }
}

/// Applies to `p` the `RCPT TO` parameter whose keyword `key` has just been
/// read; `c` is the cursor after the keyword.
pub open spec fn spec_rcpt_parameter(
    s: Seq<u8>,
    c: Cursor,
    left: usize,
    key: u128,
    p: RcptTo<Seq<char>>,
) -> (Result<RcptTo<Seq<char>>, ErrorView>, Cursor) {
    if key == NOTIFY && c.stop_char == EQUALS {
        match spec_notify(s, c, left, p.flags) {
            (Ok(flags), c1) => (Ok(RcptTo { flags, ..p }), c1),
            (Err(e), c1) => (Err(e), c1),
        }
    } else if key == ORCPT && c.stop_char == EQUALS {
        match spec_orcpt(s, c, left) {
            (Ok(v), c1) => (Ok(RcptTo { orcpt: Some(v), ..p }), c1),
            (Err(e), c1) => (Err(e), c1),
        }
    } else if key == RRVS && c.stop_char == EQUALS {
        match spec_rrvs(s, c, left) {
            (Ok((time, f)), c1) => (Ok(RcptTo { rrvs: time, flags: p.flags | f, ..p }), c1),
            (Err(e), c1) => (Err(e), c1),
        }
    } else if key == CONNEG && is_space(c.stop_char) {
        (Ok(RcptTo { flags: p.flags | RCPT_CONNEG, ..p }), c)
    } else if key == 0 {
        (Ok(p), c)
    } else {
        unsupported(s, c, left, key)
    }
}

/// Reads the parameters of a `RCPT TO` up to the end of the line and
/// applies them to `p` in turn. `c` is the cursor after the path. (The
/// test on the positions always holds.)
pub open spec fn spec_rcpt_to_parameters(
    s: Seq<u8>,
    c: Cursor,
    left: usize,
    p: RcptTo<Seq<char>>,
) -> (Result<RcptTo<Seq<char>>, ErrorView>, Cursor)
    decreases s.len() - c.pos,
{
    if c.stop_char == LF {
        (Ok(p), c)
    } else {
        match spec_hashed_value_long(s, c) {
            (None, c1) => (Err(need_more(left)), c1),
            (Some(key), c1) => match spec_rcpt_parameter(s, c1, left, key, p) {
                (Err(e), c2) => (Err(e), c2),
                (Ok(p2), c2) => {
                    if c.pos < c2.pos <= s.len() {
                        spec_rcpt_to_parameters(s, c2, left, p2)
                    } else {
                        (Ok(p2), c2)
                    }
                },
            },
        }
    }
}

/// Whether the bytes after a `MAIL` or `RCPT` read `keyword`, then `:`,
/// then `<`, with spaces allowed between them. `c` is the cursor after the
/// command; the cursor given back stands after the `<`, or where the
/// framing broke.
pub open spec fn spec_path_start(s: Seq<u8>, c: Cursor, left: usize, keyword: u64) -> (
    Result<bool, ErrorView>,
    Cursor,
) {
    if c.stop_char == LF {
        (Ok(false), c)
    } else {
        match spec_hashed_value(s, c) {
            (None, c1) => (Err(need_more(left)), c1),
            (Some(v), c1) => {
                if v != keyword || (c1.stop_char != COLON && c1.stop_char == LF) {
                    (Ok(false), c1)
                } else if c1.stop_char == COLON {
                    spec_path_open(s, c1, left)
                } else {
                    match spec_next_char(s, c1) {
                        (None, c2) => (Err(need_more(left)), c2),
                        (Some(ch), c2) => {
                            if ch != COLON {
                                (Ok(false), c2)
                            } else {
                                spec_path_open(s, c2, left)
                            }
                        },
                    }
                }
            },
        }
    }
}

/// Whether the next byte that is no space is `<`.
pub open spec fn spec_path_open(s: Seq<u8>, c: Cursor, left: usize) -> (
    Result<bool, ErrorView>,
    Cursor,
) {
    match spec_next_char(s, c) {
        (None, c1) => (Err(need_more(left)), c1),
        (Some(ch), c1) => (Ok(ch == LT), c1),
    }
}

/// The rest of a `RCPT` command: `TO:<`, the forward path, `>` and the
/// parameters.
pub open spec fn spec_rcpt(s: Seq<u8>, c: Cursor, left: usize) -> Result<RequestView, ErrorView> {
    match spec_path_start(s, c, left, TO) {
        (Err(e), _) => Err(e),
        (Ok(false), c1) => reject::<RequestView>(
            s,
            c1,
            left,
            bad_syntax("RCPT TO:<forward-path> [parameters]"),
        ).0,
        (Ok(true), c1) => match spec_address(s, c1) {
            (None, _) => Err(need_more(left)),
            (Some(None), c2) => reject::<RequestView>(
                s,
                c2,
                left,
                ErrorView::InvalidRecipientAddress,
            ).0,
            (Some(Some(to)), c2) => {
                if c2.stop_char == GT {
                    match spec_rcpt_to_parameters(s, c2, left, rcpt_to(to)).0 {
                        Ok(to) => Ok(RequestView::Rcpt { to }),
                        Err(e) => Err(e),
                    }
                } else {
                    reject::<RequestView>(
                        s,
                        c2,
                        left,
                        bad_syntax("RCPT TO:<forward-path> [parameters]"),
                    ).0
                }
            },
        },
    }
}

/// The rest of a `MAIL` command: `FROM:<`, the reverse path, `>` and the
/// parameters.
pub open spec fn spec_mail(s: Seq<u8>, c: Cursor, left: usize) -> Result<RequestView, ErrorView> {
    match spec_path_start(s, c, left, FROM) {
        (Err(e), _) => Err(e),
        (Ok(false), c1) => reject::<RequestView>(
            s,
            c1,
            left,
            bad_syntax("MAIL FROM:<reverse-path> [parameters]"),
        ).0,
        (Ok(true), c1) => match spec_address(s, c1) {
            (None, _) => Err(need_more(left)),
            (Some(None), c2) => reject::<RequestView>(
                s,
                c2,
                left,
                ErrorView::InvalidSenderAddress,
            ).0,
            (Some(Some(from)), c2) => {
                if c2.stop_char == GT {
                    match spec_mail_from_parameters(s, c2, left, mail_from(from)).0 {
                        Ok(from) => Ok(RequestView::Mail { from }),
                        Err(e) => Err(e),
                    }
                } else {
                    reject::<RequestView>(
                        s,
                        c2,
                        left,
                        bad_syntax("MAIL FROM:<reverse-path> [parameters]"),
                    ).0
                }
            },
        },
    }
}

/// A command without arguments: the rest of the line is skipped.
pub open spec fn spec_plain(s: Seq<u8>, c: Cursor, left: usize, request: RequestView) -> Result<
    RequestView,
    ErrorView,
> {
    match spec_seek_lf(s, c).0 {
        Some(_) => Ok(request),
        None => Err(need_more(left)),
    }
}

/// Whether `host` may stand in a greeting: 1 to 255 bytes.
pub open spec fn domain_ok(host: Seq<char>) -> bool {
    1 <= utf8_len(host) <= MAX_DOMAIN_LEN
}

/// Whether `value` may stand in `VRFY` or `EXPN`: 1 to 256 bytes.
pub open spec fn mailbox_name_ok(value: Seq<char>) -> bool {
    1 <= utf8_len(value) <= MAX_ADDRESS_LEN
}

/// The host of a greeting, which fails with `syntax` if it is missing or
/// too long.
pub open spec fn spec_host(s: Seq<u8>, c: Cursor, left: usize, syntax: &str) -> Result<
    Seq<char>,
    ErrorView,
> {
    if c.stop_char != LF {
        match spec_text(s, c) {
            (None, _) => Err(need_more(left)),
            (Some(host), c1) => match spec_seek_lf(s, c1).0 {
                None => Err(need_more(left)),
                Some(_) => {
                    if domain_ok(host) {
                        Ok(host)
                    } else {
                        Err(bad_syntax(syntax))
                    }
                },
            },
        }
    } else {
        Err(bad_syntax(syntax))
    }
}

/// The string that follows a command on its line; empty if the line ends
/// with the command.
pub open spec fn spec_argument(s: Seq<u8>, c: Cursor, left: usize) -> Result<Seq<char>, ErrorView> {
    if c.stop_char != LF {
        match spec_string(s, c) {
            (None, _) => Err(need_more(left)),
            (Some(value), c1) => match spec_seek_lf(s, c1).0 {
                None => Err(need_more(left)),
                Some(_) => Ok(value),
            },
        }
    } else {
        Ok(Seq::empty())
    }
}

/// What may follow the first argument of `BDAT` or `BURL`: `LAST`, or
/// nothing but the end of the line. Gives whether `LAST` stood there, and
/// fails with `syntax` on anything else. `c` is the cursor after the
/// argument, which white space has ended.
pub open spec fn spec_last(s: Seq<u8>, c: Cursor, left: usize, syntax: &str) -> Result<
    bool,
    ErrorView,
> {
    if c.stop_char != LF {
        match spec_hashed_value(s, c) {
            (None, _) => Err(need_more(left)),
            (Some(v), c1) => {
                if v == LAST {
                    match spec_seek_lf(s, c1).0 {
                        Some(_) => Ok(true),
                        None => Err(need_more(left)),
                    }
                } else if v == 0 {
                    match spec_seek_lf(s, c1).0 {
                        Some(_) => Ok(false),
                        None => Err(need_more(left)),
                    }
                } else {
                    reject::<bool>(s, c1, left, bad_syntax(syntax)).0
                }
            },
        }
    } else {
        Ok(false)
    }
}

/// The rest of a `BDAT` command: the chunk size and an optional `LAST`.
pub open spec fn spec_bdat(s: Seq<u8>, c: Cursor, left: usize) -> Result<RequestView, ErrorView> {
    if c.stop_char != LF {
        match spec_size(s, c) {
            (None, _) => Err(need_more(left)),
            (Some(chunk_size), c1) => {
                if chunk_size != usize::MAX && is_space(c1.stop_char) {
                    match spec_last(s, c1, left, "BDAT chunk-size [LAST]") {
                        Ok(is_last) => Ok(RequestView::Bdat { chunk_size, is_last }),
                        Err(e) => Err(e),
                    }
                } else {
                    reject::<RequestView>(s, c1, left, bad_syntax("BDAT chunk-size [LAST]")).0
                }
            },
        }
    } else {
        Err(bad_syntax("BDAT chunk-size [LAST]"))
    }
}

/// The rest of a `BURL` command: the URI and an optional `LAST`.
pub open spec fn spec_burl(s: Seq<u8>, c: Cursor, left: usize) -> Result<RequestView, ErrorView> {
    if c.stop_char != LF {
        match spec_text(s, c) {
            (None, _) => Err(need_more(left)),
            (Some(uri), c1) => {
                if uri.len() > 0 && is_space(c1.stop_char) {
                    match spec_last(s, c1, left, "BURL absolute-uri [LAST]") {
                        Ok(is_last) => Ok(RequestView::Burl { uri, is_last }),
                        Err(e) => Err(e),
                    }
                } else {
                    reject::<RequestView>(s, c1, left, bad_syntax("BURL absolute-uri [LAST]")).0
                }
            },
        }
    } else {
        Err(bad_syntax("BURL absolute-uri [LAST]"))
    }
}

/// The rest of an `AUTH` command: the mechanism and an optional initial
/// response.
pub open spec fn spec_auth(s: Seq<u8>, c: Cursor, left: usize) -> Result<RequestView, ErrorView> {
    if c.stop_char != LF {
        match spec_mechanism(s, c) {
            (None, _) => Err(need_more(left)),
            (Some(None), c1) => reject::<RequestView>(
                s,
                c1,
                left,
                bad_syntax("AUTH mechanism [initial-response]"),
            ).0,
            (Some(Some(mechanism)), c1) => {
                let (response, c2) = if c1.stop_char != LF {
                    spec_text(s, c1)
                } else {
                    (Some(Seq::<char>::empty()), c1)
                };
                match response {
                    None => Err(need_more(left)),
                    Some(initial_response) => match spec_seek_lf(s, c2).0 {
                        None => Err(need_more(left)),
                        Some(_) => Ok(RequestView::Auth { mechanism, initial_response }),
                    },
                }
            },
        }
    } else {
        Err(bad_syntax("AUTH mechanism [initial-response]"))
    }
}

/// Reads the domains of an `ATRN` command, separated by commas, and
/// appends those that are not empty to `domains`. (The test on the
/// positions always holds.)
pub open spec fn spec_domains(s: Seq<u8>, c: Cursor, left: usize, domains: Seq<Seq<char>>) -> Result<
    Seq<Seq<char>>,
    ErrorView,
>
    decreases s.len() - c.pos,
{
    match spec_seek_char(s, COMMA, c) {
        (None, _) => Err(need_more(left)),
        (Some(domain), c1) => {
            let list = if domain.len() > 0 {
                domains.push(domain)
            } else {
                domains
            };
            if c1.stop_char != COMMA {
                match spec_seek_lf(s, c1).0 {
                    None => Err(need_more(left)),
                    Some(_) => Ok(list),
                }
            } else if c.pos < c1.pos <= s.len() {
                spec_domains(s, c1, left, list)
            } else {
                Ok(list)
            }
        },
    }
}

/// The rest of an `ATRN` command: one domain at least.
pub open spec fn spec_atrn(s: Seq<u8>, c: Cursor, left: usize) -> Result<RequestView, ErrorView> {
    if c.stop_char != LF {
        match spec_domains(s, c, left, Seq::empty()) {
            Err(e) => Err(e),
            Ok(domains) => {
                if domains.len() > 0 {
                    Ok(RequestView::Atrn { domains })
                } else {
                    Err(bad_syntax("ATRN domain[,domain]"))
                }
            },
        }
    } else {
        Err(bad_syntax("ATRN domain[,domain]"))
    }
}

/// The command that the bytes of `s` read from the cursor `c` on. The
/// command word is up to eight letters in either case, followed by white
/// space; what follows depends on the command.
#[verifier::opaque]
pub open spec fn spec_request(s: Seq<u8>, c: Cursor, left: usize) -> Result<RequestView, ErrorView> {
    match spec_hashed_value(s, c) {
        (None, _) => Err(need_more(left)),
        (Some(command), c1) => {
            if !is_space(c1.stop_char) {
                reject::<RequestView>(s, c1, left, ErrorView::UnknownCommand).0
            } else if command == RCPT {
                spec_rcpt(s, c1, left)
            } else if command == MAIL {
                spec_mail(s, c1, left)
            } else if command == DATA {
                spec_plain(s, c1, left, RequestView::Data)
            } else if command == EHLO {
                match spec_host(s, c1, left, "EHLO domain") {
                    Ok(host) => Ok(RequestView::Ehlo { host }),
                    Err(e) => Err(e),
                }
            } else if command == BDAT {
                spec_bdat(s, c1, left)
            } else if command == AUTH {
                spec_auth(s, c1, left)
            } else if command == EXPN {
                match spec_argument(s, c1, left) {
                    Ok(value) if mailbox_name_ok(value) => Ok(RequestView::Expn { value }),
                    Ok(_) => Err(bad_syntax("EXPN string")),
                    Err(e) => Err(e),
                }
            } else if command == NOOP {
                match spec_argument(s, c1, left) {
                    Ok(value) => Ok(RequestView::Noop { value }),
                    Err(e) => Err(e),
                }
            } else if command == QUIT {
                spec_plain(s, c1, left, RequestView::Quit)
            } else if command == LHLO {
                match spec_host(s, c1, left, "LHLO domain") {
                    Ok(host) => Ok(RequestView::Lhlo { host }),
                    Err(e) => Err(e),
                }
            } else if command == RSET {
                spec_plain(s, c1, left, RequestView::Rset)
            } else if command == VRFY {
                match spec_argument(s, c1, left) {
                    Ok(value) if mailbox_name_ok(value) => Ok(RequestView::Vrfy { value }),
                    Ok(_) => Err(bad_syntax("VRFY string")),
                    Err(e) => Err(e),
                }
            } else if command == HELP {
                match spec_argument(s, c1, left) {
                    Ok(value) => Ok(RequestView::Help { value }),
                    Err(e) => Err(e),
                }
            } else if command == STARTTLS {
                spec_plain(s, c1, left, RequestView::StartTls)
            } else if command == ETRN {
                match spec_argument(s, c1, left) {
                    Ok(name) if name.len() > 0 => Ok(RequestView::Etrn { name }),
                    Ok(_) => Err(bad_syntax("ETRN name")),
                    Err(e) => Err(e),
                }
            } else if command == ATRN {
                spec_atrn(s, c1, left)
            } else if command == BURL {
                spec_burl(s, c1, left)
            } else if command == HELO {
                match spec_host(s, c1, left, "HELO domain") {
                    Ok(host) => Ok(RequestView::Helo { host }),
                    Err(e) => Err(e),
                }
            } else {
                reject::<RequestView>(s, c1, left, ErrorView::UnknownCommand).0
            }
        },
    }
}

/// The cursor at the start of an input.
pub open spec fn start() -> Cursor {
    Cursor { pos: 0, stop_char: 0 }
}

} // verus!
