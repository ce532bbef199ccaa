//! A complete line is enough: on bytes that end with a line feed, no scan
//! and no command asks for more data.

use vstd::prelude::*;
use crate::request::grammar::{
    address_scan, COLON, COMMA, Cursor, EQUALS, find_char, find_lf, GT, hash_scan,
    hash_scan_long, integer_scan, is_line, key_bytes, LT, reject, seek_scan, SEMICOLON,
    size_scan, spec_address, spec_argument, spec_auth, spec_bdat, spec_body, spec_burl, spec_by,
    spec_domains, spec_hashed_value, spec_hashed_value_long, spec_host, spec_integer, spec_last,
    spec_mail, spec_mail_from_parameters, spec_mail_parameter, spec_mechanism, spec_mtrk,
    spec_next_char, spec_notify, spec_number, spec_orcpt, spec_path_start, spec_plain,
    spec_priority, spec_rcpt, spec_rcpt_parameter, spec_rcpt_to_parameters, spec_request,
    spec_ret, spec_rrvs, spec_seek_char, spec_seek_lf, spec_size, spec_solicit, spec_string,
    spec_text, spec_timestamp, spec_transid, spec_xtext, spec_xtext_value, start, string_scan,
    text_scan, timestamp_scan, trail_scan, unsupported, upper_scan, xtext_scan,
};
use crate::text::{is_space, upper};
use crate::{ErrorView, LF, MailFrom, RcptTo, RequestView};

verus! {

/// On a line, a keyword ends at or before the line feed.
proof fn lemma_hash_scan_line(s: Seq<u8>, i: int, value: u64, shift: u32)
    requires
        is_line(s),
        0 <= i < s.len(),
    ensures
        hash_scan(s, i, value, shift) is Some,
        i <= (hash_scan(s, i, value, shift)->0).1 < s.len(),
    decreases s.len() - i,
{
    if i < s.len() - 1 {
        lemma_hash_scan_line(s, i + 1, value | ((s[i] as u64) << shift), (shift + 8) as u32);
        lemma_hash_scan_line(
            s,
            i + 1,
            value | ((((s[i] - 0x20) as u8) as u64) << shift),
            (shift + 8) as u32,
        );
        lemma_hash_scan_line(s, i + 1, value, shift);
    }
}

/// On a line, a long keyword ends at or before the line feed.
proof fn lemma_hash_scan_long_line(s: Seq<u8>, i: int, value: u128, shift: u32)
    requires
        is_line(s),
        0 <= i < s.len(),
    ensures
        hash_scan_long(s, i, value, shift) is Some,
        i <= (hash_scan_long(s, i, value, shift)->0).1 < s.len(),
    decreases s.len() - i,
{
    if i < s.len() - 1 {
        lemma_hash_scan_long_line(s, i + 1, value | ((s[i] as u128) << shift), (shift + 8) as u32);
        lemma_hash_scan_long_line(
            s,
            i + 1,
            value | ((((s[i] - 0x20) as u8) as u128) << shift),
            (shift + 8) as u32,
        );
        lemma_hash_scan_long_line(s, i + 1, value, shift);
    }
}

/// On a line, a line feed is found.
proof fn lemma_find_lf_line(s: Seq<u8>, i: int)
    requires
        is_line(s),
        0 <= i < s.len(),
    ensures
        find_lf(s, i) is Some,
        i <= find_lf(s, i)->0 < s.len(),
    decreases s.len() - i,
{
    if i < s.len() - 1 {
        lemma_find_lf_line(s, i + 1);
    }
}

/// On a line, a byte that is no space is found.
proof fn lemma_find_char_line(s: Seq<u8>, i: int)
    requires
        is_line(s),
        0 <= i < s.len(),
    ensures
        find_char(s, i) is Some,
        i <= find_char(s, i)->0 < s.len(),
    decreases s.len() - i,
{
    if i < s.len() - 1 {
        lemma_find_char_line(s, i + 1);
    }
}

/// On a line, a number ends at or before the line feed.
proof fn lemma_size_scan_line(s: Seq<u8>, i: int, value: usize, seen: bool)
    requires
        is_line(s),
        0 <= i < s.len(),
    ensures
        size_scan(s, i, value, seen) is Some,
        i <= (size_scan(s, i, value, seen)->0).1 < s.len(),
    decreases s.len() - i,
{
    if i < s.len() - 1 {
        lemma_size_scan_line(s, i + 1, value, seen);
        lemma_size_scan_line(s, i + 1, crate::request::grammar::push_digit(value, s[i]), true);
        lemma_size_scan_line(s, i + 1, (s[i] - 0x30) as usize, true);
    }
}

/// On a line, a signed number ends at or before the line feed.
proof fn lemma_integer_scan_line(s: Seq<u8>, i: int, value: i64, seen: bool, negative: bool)
    requires
        is_line(s),
        0 <= i < s.len(),
    ensures
        integer_scan(s, i, value, seen, negative) is Some,
        i <= (integer_scan(s, i, value, seen, negative)->0).1 < s.len(),
    decreases s.len() - i,
{
    if i < s.len() - 1 {
        lemma_integer_scan_line(s, i + 1, value, seen, negative);
        lemma_integer_scan_line(s, i + 1, value, seen, true);
        lemma_integer_scan_line(
            s,
            i + 1,
            crate::request::grammar::push_digit_i64(value, s[i]),
            true,
            negative,
        );
        lemma_integer_scan_line(s, i + 1, (s[i] - 0x30) as i64, true, negative);
    }
}

/// On a line, a token ends at or before the line feed.
proof fn lemma_text_scan_line(s: Seq<u8>, i: int, seg: int, acc: Seq<char>)
    requires
        is_line(s),
        0 <= i < s.len(),
    ensures
        text_scan(s, i, seg, acc) is Some,
        i <= (text_scan(s, i, seg, acc)->0).1 < s.len(),
    decreases s.len() - i,
{
    if i < s.len() - 1 {
        lemma_text_scan_line(s, i + 1, seg, acc);
        lemma_text_scan_line(s, i + 1, i + 1, crate::request::grammar::flushed(s, seg, i, acc));
    }
}

/// On a line, a token that a given byte may end ends at or before the line
/// feed.
proof fn lemma_seek_scan_line(s: Seq<u8>, stop: u8, i: int, seg: int, acc: Seq<char>)
    requires
        is_line(s),
        0 <= i < s.len(),
    ensures
        seek_scan(s, stop, i, seg, acc) is Some,
        i <= (seek_scan(s, stop, i, seg, acc)->0).1 < s.len(),
    decreases s.len() - i,
{
    if i < s.len() - 1 {
        lemma_seek_scan_line(s, stop, i + 1, seg, acc);
        lemma_seek_scan_line(
            s,
            stop,
            i + 1,
            i + 1,
            crate::request::grammar::flushed(s, seg, i, acc),
        );
    }
}

/// On a line, a string ends at or before the line feed.
proof fn lemma_string_scan_line(
    s: Seq<u8>,
    i: int,
    seg: int,
    acc: Seq<char>,
    in_quote: bool,
    last: u8,
)
    requires
        is_line(s),
        0 <= i < s.len(),
    ensures
        string_scan(s, i, seg, acc, in_quote, last) is Some,
        i <= (string_scan(s, i, seg, acc, in_quote, last)->0).1 < s.len(),
    decreases s.len() - i,
{
    if i < s.len() - 1 {
        let f = crate::request::grammar::flushed(s, seg, i, acc);
        lemma_string_scan_line(s, i + 1, seg, acc, in_quote, s[i]);
        lemma_string_scan_line(s, i + 1, seg, acc, in_quote, 0);
        lemma_string_scan_line(s, i + 1, i + 1, f, in_quote, s[i]);
        lemma_string_scan_line(s, i + 1, i + 1, f, !in_quote, s[i]);
    }
}

/// On a line, an xtext token ends at or before the line feed.
proof fn lemma_xtext_scan_line(
    s: Seq<u8>,
    i: int,
    seg: int,
    acc: Seq<char>,
    escape: Option<Option<u8>>,
)
    requires
        is_line(s),
        0 <= i < s.len(),
    ensures
        xtext_scan(s, i, seg, acc, escape) is Some,
        i <= (xtext_scan(s, i, seg, acc, escape)->0).1 < s.len(),
    decreases s.len() - i,
{
    if i < s.len() - 1 {
        let f = crate::request::grammar::flushed(s, seg, i, acc);
        lemma_xtext_scan_line(s, i + 1, seg, acc, None);
        lemma_xtext_scan_line(s, i + 1, i + 1, acc, None);
        lemma_xtext_scan_line(s, i + 1, i + 1, f, None);
        lemma_xtext_scan_line(s, i + 1, i + 1, f, Some(None));
        match escape {
            Some(first) => {
                match crate::text::hex_value(s[i]) {
                    Some(digit) => {
                        lemma_xtext_scan_line(s, i + 1, seg, acc, Some(Some(digit)));
                        match first {
                            Some(high) => {
                                lemma_xtext_scan_line(
                                    s,
                                    i + 1,
                                    i + 1,
                                    acc.push(crate::request::grammar::hex_pair(high, digit) as char),
                                    None,
                                );
                            },
                            None => {},
                        }
                    },
                    None => {},
                }
            },
            None => {},
        }
    }
}

/// On a line, a mailbox ends at or before the line feed.
proof fn lemma_address_scan_line(
    s: Seq<u8>,
    i: int,
    seg: int,
    acc: Seq<char>,
    last: u8,
    in_quote: bool,
    at_count: usize,
    lp_len: usize,
)
    requires
        is_line(s),
        0 <= i < s.len(),
    ensures
        address_scan(s, i, seg, acc, last, in_quote, at_count, lp_len) is Some,
        i <= (address_scan(s, i, seg, acc, last, in_quote, at_count, lp_len)->0).1 < s.len(),
    decreases s.len() - i,
{
    if i < s.len() - 1 {
        let f = crate::request::grammar::flushed(s, seg, i, acc);
        let len = crate::request::grammar::gathered_len(seg, i, acc);
        lemma_address_scan_line(s, i + 1, seg, acc, s[i], in_quote, at_count, lp_len);
        lemma_address_scan_line(s, i + 1, seg, acc, 0, in_quote, at_count, lp_len);
        lemma_address_scan_line(
            s,
            i + 1,
            seg,
            acc,
            s[i],
            in_quote,
            crate::request::grammar::count_up(at_count),
            len,
        );
        lemma_address_scan_line(s, i + 1, i + 1, f, s[i], in_quote, at_count, lp_len);
        lemma_address_scan_line(s, i + 1, i + 1, f, s[i], !in_quote, at_count, lp_len);
        lemma_address_scan_line(s, i + 1, i + 1, Seq::empty(), s[i], in_quote, 0, 0);
    }
}

/// On a line, a timestamp ends at or before the line feed.
proof fn lemma_timestamp_scan_line(s: Seq<u8>, i: int, dt: Seq<u32>, east: bool, field: int)
    requires
        is_line(s),
        0 <= i < s.len(),
    ensures
        timestamp_scan(s, i, dt, east, field) is Some,
        i <= (timestamp_scan(s, i, dt, east, field)->0).1 < s.len(),
    decreases s.len() - i,
{
    if i < s.len() - 1 {
        lemma_timestamp_scan_line(
            s,
            i + 1,
            dt.update(field, crate::request::grammar::push_digit_u32(dt[field], s[i])),
            east,
            field,
        );
        lemma_timestamp_scan_line(s, i + 1, dt, east, field + 1);
        lemma_timestamp_scan_line(s, i + 1, dt, true, field + 1);
        lemma_timestamp_scan_line(s, i + 1, dt, east, 8);
    }
}

/// On a line, the bytes after a keyword end at or before the line feed.
proof fn lemma_trail_scan_line(s: Seq<u8>, i: int, trail: Seq<u8>)
    requires
        is_line(s),
        0 <= i < s.len(),
    ensures
        trail_scan(s, i, trail) is Some,
        i <= (trail_scan(s, i, trail)->0).1 < s.len(),
    decreases s.len() - i,
{
    if i < s.len() - 1 {
        lemma_trail_scan_line(s, i + 1, trail);
        lemma_trail_scan_line(s, i + 1, trail.push(crate::text::upper(s[i])));
    }
}

/// On a line, the name of a parameter ends at or before the line feed.
proof fn lemma_upper_scan_line(s: Seq<u8>, i: int, acc: Seq<u8>)
    requires
        is_line(s),
        0 <= i < s.len(),
    ensures
        upper_scan(s, i, acc) is Some,
        i <= (upper_scan(s, i, acc)->0).1 < s.len(),
    decreases s.len() - i,
{
    if i < s.len() - 1 {
        lemma_upper_scan_line(s, i + 1, acc.push(crate::text::upper(s[i])));
    }
}

/// The cursor `c` stands on the line `s` before its end.
pub open spec fn on_line(s: Seq<u8>, c: Cursor) -> bool {
    is_line(s) && 0 <= c.pos < s.len()
}

/// The cursor `c` stands on the line `s`, before its end or after the
/// line feed that is its end.
pub open spec fn in_line(s: Seq<u8>, c: Cursor) -> bool {
    is_line(s) && 0 <= c.pos <= s.len() && (c.pos < s.len() || c.stop_char == LF)
}

/// A scan from the cursor `c` with the outcome `out` found its end on the
/// line `s`.
pub open spec fn scans<T>(s: Seq<u8>, c: Cursor, out: (Option<T>, Cursor)) -> bool {
    out.0 is Some && in_line(s, out.1) && c.pos < out.1.pos
}

/// A step from the cursor `c` with the outcome `out` kept to the line `s`:
/// it did not ask for more data, and if it succeeded it left the cursor on
/// the line.
pub open spec fn keeps_line<V>(s: Seq<u8>, c: Cursor, out: (Result<V, ErrorView>, Cursor)) -> bool {
    &&& !(out.0 is Err && out.0->Err_0 is NeedsMoreData)
    &&& out.0 is Ok ==> in_line(s, out.1) && c.pos <= out.1.pos
}

/// Every scan that starts on a line before its end finds its end there.
proof fn lemma_scans(s: Seq<u8>, c: Cursor)
    requires
        on_line(s, c),
    ensures
        scans(s, c, spec_hashed_value(s, c)),
        scans(s, c, spec_hashed_value_long(s, c)),
        scans(s, c, spec_next_char(s, c)),
        scans(s, c, spec_size(s, c)),
        scans(s, c, spec_integer(s, c)),
        scans(s, c, spec_text(s, c)),
        scans(s, c, spec_string(s, c)),
        scans(s, c, spec_xtext(s, c)),
        scans(s, c, spec_address(s, c)),
        scans(s, c, spec_timestamp(s, c)),
        forall|stop: u8| scans(s, c, #[trigger] spec_seek_char(s, stop, c)),
{
    lemma_hash_scan_line(s, c.pos, 0, 0);
    lemma_hash_scan_long_line(s, c.pos, 0, 0);
    lemma_find_char_line(s, c.pos);
    lemma_size_scan_line(s, c.pos, 0, false);
    lemma_integer_scan_line(s, c.pos, 0, false, false);
    lemma_text_scan_line(s, c.pos, c.pos, Seq::empty());
    lemma_string_scan_line(s, c.pos, c.pos, Seq::empty(), false, 0);
    lemma_xtext_scan_line(s, c.pos, c.pos, Seq::empty(), None);
    lemma_address_scan_line(s, c.pos, c.pos, Seq::empty(), 0, false, 0, 0);
    lemma_timestamp_scan_line(
        s,
        c.pos,
        seq![0u32, 0u32, 0u32, 0u32, 0u32, 0u32, 0u32, 0u32],
        false,
        0,
    );
    assert forall|stop: u8| scans(s, c, #[trigger] spec_seek_char(s, stop, c)) by {
        lemma_seek_scan_line(s, stop, c.pos, c.pos, Seq::empty());
    }
}

/// On a line, the rest of the line can be skipped.
proof fn lemma_seek_lf(s: Seq<u8>, c: Cursor)
    requires
        in_line(s, c),
    ensures
        spec_seek_lf(s, c).0 is Some,
        c.pos <= spec_seek_lf(s, c).1.pos <= s.len(),
{
    if c.stop_char != LF {
        lemma_find_lf_line(s, c.pos);
    }
}

/// On a line, giving up on the line does not ask for more data.
proof fn lemma_reject<V>(s: Seq<u8>, c: Cursor, left: usize, e: ErrorView)
    requires
        in_line(s, c),
        !(e is NeedsMoreData),
    ensures
        reject::<V>(s, c, left, e).0 == Err::<V, ErrorView>(e),
        keeps_line(s, c, reject::<V>(s, c, left, e)),
{
    lemma_seek_lf(s, c);
}

/// On a line, the name of a mechanism ends on the line.
proof fn lemma_mechanism(s: Seq<u8>, c: Cursor)
    requires
        on_line(s, c),
    ensures
        scans(s, c, spec_mechanism(s, c)),
{
    lemma_scans(s, c);
    let c1 = spec_hashed_value_long(s, c).1;
    if !is_space(c1.stop_char) {
        lemma_trail_scan_line(s, c1.pos, seq![c1.stop_char]);
    }
}

/// On a line, the values of parameters keep to the line.
proof fn lemma_values(s: Seq<u8>, c: Cursor, left: usize)
    requires
        on_line(s, c),
    ensures
        keeps_line(s, c, spec_body(s, c, left)),
        keeps_line(s, c, spec_by(s, c, left)),
        keeps_line(s, c, spec_ret(s, c, left)),
        keeps_line(s, c, spec_solicit(s, c, left)),
        keeps_line(s, c, spec_transid(s, c, left)),
        keeps_line(s, c, spec_mtrk(s, c, left)),
        keeps_line(s, c, spec_priority(s, c, left)),
        keeps_line(s, c, spec_orcpt(s, c, left)),
        keeps_line(s, c, spec_rrvs(s, c, left)),
        forall|name: &str| keeps_line(s, c, #[trigger] spec_number(s, c, left, name)),
        forall|name: &str, max: usize|
            keeps_line(s, c, #[trigger] spec_xtext_value(s, c, left, name, max)),
{
    lemma_scans(s, c);
    // BODY
    lemma_reject::<u64>(s, spec_hashed_value_long(s, c).1, left, crate::request::grammar::invalid("BODY"));
    // BY
    let by1 = spec_integer(s, c).1;
    lemma_reject::<(i64, u64)>(s, by1, left, crate::request::grammar::invalid("BY"));
    if by1.stop_char == SEMICOLON {
        lemma_scans(s, by1);
        lemma_reject::<(i64, u64)>(
            s,
            spec_hashed_value(s, by1).1,
            left,
            crate::request::grammar::invalid("BY"),
        );
    }
    // RET
    lemma_reject::<u64>(s, spec_hashed_value(s, c).1, left, crate::request::grammar::invalid("RET"));
    // SOLICIT
    lemma_reject::<Seq<char>>(s, spec_text(s, c).1, left, crate::request::grammar::invalid("SOLICIT"));
    // TRANSID
    let t1 = spec_next_char(s, c).1;
    lemma_reject::<Seq<char>>(s, t1, left, crate::request::grammar::invalid("TRANSID"));
    if t1.stop_char == LT {
        lemma_scans(s, t1);
        lemma_reject::<Seq<char>>(
            s,
            spec_seek_char(s, GT, t1).1,
            left,
            crate::request::grammar::invalid("TRANSID"),
        );
    }
    // MTRK
    let m1 = spec_seek_char(s, COLON, c).1;
    if m1.stop_char == COLON {
        lemma_scans(s, m1);
        lemma_reject::<crate::Mtrk<Seq<char>>>(
            s,
            spec_size(s, m1).1,
            left,
            crate::request::grammar::invalid("MTRK"),
        );
    } else {
        lemma_reject::<crate::Mtrk<Seq<char>>>(s, m1, left, crate::request::grammar::invalid("MTRK"));
    }
    // MT-PRIORITY
    lemma_reject::<i64>(s, spec_integer(s, c).1, left, crate::request::grammar::invalid("MT-PRIORITY"));
    // numbers and xtext values
    assert forall|name: &str| keeps_line(s, c, #[trigger] spec_number(s, c, left, name)) by {
        lemma_reject::<usize>(s, spec_size(s, c).1, left, crate::request::grammar::invalid(name));
    }
    assert forall|name: &str, max: usize|
        keeps_line(s, c, #[trigger] spec_xtext_value(s, c, left, name, max)) by {
        lemma_reject::<Seq<char>>(s, spec_xtext(s, c).1, left, crate::request::grammar::invalid(name));
    }
    // ORCPT
    let o1 = spec_hashed_value(s, c).1;
    lemma_reject::<Seq<char>>(s, o1, left, crate::request::grammar::invalid("ORCPT"));
    if o1.stop_char == SEMICOLON {
        lemma_scans(s, o1);
        lemma_reject::<Seq<char>>(
            s,
            spec_xtext(s, o1).1,
            left,
            crate::request::grammar::invalid("ORCPT"),
        );
    }
    // RRVS
    let r1 = spec_timestamp(s, c).1;
    lemma_reject::<(i64, u64)>(s, r1, left, crate::request::grammar::invalid("RRVS"));
    if r1.stop_char == SEMICOLON {
        lemma_scans(s, r1);
        lemma_reject::<(i64, u64)>(
            s,
            spec_hashed_value(s, r1).1,
            left,
            crate::request::grammar::invalid("RRVS"),
        );
    }
}

/// On a line, a parameter that is not known is refused on the line.
proof fn lemma_unsupported<V>(s: Seq<u8>, c: Cursor, left: usize, key: u128)
    requires
        in_line(s, c),
    ensures
        keeps_line(s, c, unsupported::<V>(s, c, left, key)),
{
    let named = |name: Seq<u8>| ErrorView::UnsupportedParameter { param: crate::text::utf8_lossy(name) };
    if is_space(c.stop_char) {
        lemma_reject::<V>(s, c, left, named(key_bytes(key, 16)));
    } else {
        let first = key_bytes(key, 16).push(upper(c.stop_char));
        lemma_upper_scan_line(s, c.pos, first);
        let found = upper_scan(s, c.pos, first)->0;
        lemma_reject::<V>(s, crate::request::grammar::stop_at(s, found.1), left, named(found.0));
    }
}

/// On a line, a `MAIL FROM` parameter keeps to the line.
proof fn lemma_mail_parameter(
    s: Seq<u8>,
    c: Cursor,
    left: usize,
    key: u128,
    p: MailFrom<Seq<char>>,
)
    requires
        in_line(s, c),
    ensures
        keeps_line(s, c, spec_mail_parameter(s, c, left, key, p)),
{
    if c.stop_char == EQUALS {
        lemma_values(s, c, left);
    }
    lemma_unsupported::<MailFrom<Seq<char>>>(s, c, left, key);
}

/// On a line, the parameters of a `MAIL FROM` do not ask for more data.
proof fn lemma_mail_from_parameters(s: Seq<u8>, c: Cursor, left: usize, p: MailFrom<Seq<char>>)
    requires
        in_line(s, c),
    ensures
        keeps_line(s, c, spec_mail_from_parameters(s, c, left, p)),
    decreases s.len() - c.pos,
{
    if c.stop_char != LF {
        lemma_scans(s, c);
        let c1 = spec_hashed_value_long(s, c).1;
        let key = spec_hashed_value_long(s, c).0->0;
        lemma_mail_parameter(s, c1, left, key, p);
        match spec_mail_parameter(s, c1, left, key, p) {
            (Ok(p2), c2) => {
                lemma_mail_from_parameters(s, c2, left, p2);
            },
            _ => {},
        }
    }
}

/// On a line, the words of a `NOTIFY=` keep to the line.
proof fn lemma_notify(s: Seq<u8>, c: Cursor, left: usize, flags: u64)
    requires
        on_line(s, c),
    ensures
        keeps_line(s, c, spec_notify(s, c, left, flags)),
    decreases s.len() - c.pos,
{
    lemma_scans(s, c);
    let c1 = spec_hashed_value_long(s, c).1;
    let v = spec_hashed_value_long(s, c).0->0;
    lemma_reject::<u64>(s, c1, left, crate::request::grammar::invalid("NOTIFY"));
    match crate::request::grammar::notify_flag(v, flags) {
        Some(f) => {
            if !is_space(c1.stop_char) && c1.stop_char == COMMA {
                lemma_notify(s, c1, left, flags | f);
            }
        },
        None => {},
    }
}

/// On a line, a `RCPT TO` parameter keeps to the line.
proof fn lemma_rcpt_parameter(
    s: Seq<u8>,
    c: Cursor,
    left: usize,
    key: u128,
    p: RcptTo<Seq<char>>,
)
    requires
        in_line(s, c),
    ensures
        keeps_line(s, c, spec_rcpt_parameter(s, c, left, key, p)),
{
    if c.stop_char == EQUALS {
        lemma_values(s, c, left);
        lemma_notify(s, c, left, p.flags);
    }
    lemma_unsupported::<RcptTo<Seq<char>>>(s, c, left, key);
}

/// On a line, the parameters of a `RCPT TO` do not ask for more data.
proof fn lemma_rcpt_to_parameters(s: Seq<u8>, c: Cursor, left: usize, p: RcptTo<Seq<char>>)
    requires
        in_line(s, c),
    ensures
        keeps_line(s, c, spec_rcpt_to_parameters(s, c, left, p)),
    decreases s.len() - c.pos,
{
    if c.stop_char != LF {
        lemma_scans(s, c);
        let c1 = spec_hashed_value_long(s, c).1;
        let key = spec_hashed_value_long(s, c).0->0;
        lemma_rcpt_parameter(s, c1, left, key, p);
        match spec_rcpt_parameter(s, c1, left, key, p) {
            (Ok(p2), c2) => {
                lemma_rcpt_to_parameters(s, c2, left, p2);
            },
            _ => {},
        }
    }
}

/// Whether `r` asks for more data.
pub open spec fn asks_more<V>(r: Result<V, ErrorView>) -> bool {
    r is Err && r->Err_0 is NeedsMoreData
}

/// On a line, the start of a path keeps to the line.
proof fn lemma_path_start(s: Seq<u8>, c: Cursor, left: usize, keyword: u64)
    requires
        in_line(s, c),
    ensures
        keeps_line(s, c, spec_path_start(s, c, left, keyword)),
        spec_path_start(s, c, left, keyword).0 == Ok::<bool, ErrorView>(true) ==> on_line(
            s,
            spec_path_start(s, c, left, keyword).1,
        ),
{
    if c.stop_char != LF {
        lemma_scans(s, c);
        let c1 = spec_hashed_value(s, c).1;
        if c1.stop_char == COLON {
            lemma_scans(s, c1);
        } else if c1.stop_char != LF {
            lemma_scans(s, c1);
            let c2 = spec_next_char(s, c1).1;
            if c2.stop_char == COLON {
                lemma_scans(s, c2);
            }
        }
    }
}

/// On a line, `RCPT` and `MAIL` do not ask for more data.
proof fn lemma_paths(s: Seq<u8>, c: Cursor, left: usize)
    requires
        in_line(s, c),
    ensures
        !asks_more(spec_rcpt(s, c, left)),
        !asks_more(spec_mail(s, c, left)),
{
    lemma_path_start(s, c, left, crate::request::TO);
    lemma_path_start(s, c, left, crate::request::FROM);
    let to = spec_path_start(s, c, left, crate::request::TO);
    lemma_path_end(s, to.1, left, to.0);
    let from = spec_path_start(s, c, left, crate::request::FROM);
    lemma_path_end(s, from.1, left, from.0);
}

/// On a line, what follows the start of a path does not ask for more
/// data.
proof fn lemma_path_end(s: Seq<u8>, c1: Cursor, left: usize, started: Result<bool, ErrorView>)
    requires
        is_line(s),
        started is Ok ==> in_line(s, c1),
        started == Ok::<bool, ErrorView>(true) ==> on_line(s, c1),
    ensures
        started is Ok ==> ({
            &&& !asks_more(
                reject::<RequestView>(
                    s,
                    c1,
                    left,
                    crate::request::grammar::bad_syntax("RCPT TO:<forward-path> [parameters]"),
                ).0,
            )
            &&& !asks_more(
                reject::<RequestView>(
                    s,
                    c1,
                    left,
                    crate::request::grammar::bad_syntax("MAIL FROM:<reverse-path> [parameters]"),
                ).0,
            )
        }),
        started == Ok::<bool, ErrorView>(true) ==> ({
            let found = spec_address(s, c1);
            &&& found.0 is Some
            &&& !asks_more(
                reject::<RequestView>(s, found.1, left, ErrorView::InvalidRecipientAddress).0,
            )
            &&& !asks_more(reject::<RequestView>(s, found.1, left, ErrorView::InvalidSenderAddress).0)
            &&& !asks_more(
                reject::<RequestView>(
                    s,
                    found.1,
                    left,
                    crate::request::grammar::bad_syntax("RCPT TO:<forward-path> [parameters]"),
                ).0,
            )
            &&& !asks_more(
                reject::<RequestView>(
                    s,
                    found.1,
                    left,
                    crate::request::grammar::bad_syntax("MAIL FROM:<reverse-path> [parameters]"),
                ).0,
            )
            &&& forall|p: RcptTo<Seq<char>>|
                !asks_more(#[trigger] spec_rcpt_to_parameters(s, found.1, left, p).0)
            &&& forall|p: MailFrom<Seq<char>>|
                !asks_more(#[trigger] spec_mail_from_parameters(s, found.1, left, p).0)
        }),
{
    if started is Ok {
        lemma_seek_lf(s, c1);
        if started == Ok::<bool, ErrorView>(true) {
            lemma_scans(s, c1);
            let found = spec_address(s, c1);
            lemma_seek_lf(s, found.1);
            assert forall|p: RcptTo<Seq<char>>|
                !asks_more(#[trigger] spec_rcpt_to_parameters(s, found.1, left, p).0) by {
                lemma_rcpt_to_parameters(s, found.1, left, p);
            }
            assert forall|p: MailFrom<Seq<char>>|
                !asks_more(#[trigger] spec_mail_from_parameters(s, found.1, left, p).0) by {
                lemma_mail_from_parameters(s, found.1, left, p);
            }
        }
    }
}


/// On a line, the commands with a simple argument do not ask for more
/// data.
proof fn lemma_arguments(s: Seq<u8>, c: Cursor, left: usize)
    requires
        in_line(s, c),
    ensures
        forall|request: RequestView| !asks_more(#[trigger] spec_plain(s, c, left, request)),
        forall|syntax: &str| !asks_more(#[trigger] spec_host(s, c, left, syntax)),
        forall|syntax: &str| !asks_more(#[trigger] spec_last(s, c, left, syntax)),
        !asks_more(spec_argument(s, c, left)),
{
    lemma_seek_lf(s, c);
    if c.stop_char != LF {
        lemma_scans(s, c);
        lemma_seek_lf(s, spec_text(s, c).1);
        lemma_seek_lf(s, spec_string(s, c).1);
        lemma_seek_lf(s, spec_hashed_value(s, c).1);
    }
}

/// On a line, `BDAT`, `BURL` and `AUTH` do not ask for more data.
proof fn lemma_chunk_commands(s: Seq<u8>, c: Cursor, left: usize)
    requires
        in_line(s, c),
    ensures
        !asks_more(spec_bdat(s, c, left)),
        !asks_more(spec_burl(s, c, left)),
        !asks_more(spec_auth(s, c, left)),
{
    if c.stop_char != LF {
        lemma_scans(s, c);
        let b1 = spec_size(s, c).1;
        lemma_seek_lf(s, b1);
        lemma_arguments(s, b1, left);
        let u1 = spec_text(s, c).1;
        lemma_seek_lf(s, u1);
        lemma_arguments(s, u1, left);
        lemma_mechanism(s, c);
        let a1 = spec_mechanism(s, c).1;
        lemma_seek_lf(s, a1);
        if a1.stop_char != LF {
            lemma_scans(s, a1);
            lemma_seek_lf(s, spec_text(s, a1).1);
        }
    }
}

/// On a line, the domains of an `ATRN` do not ask for more data.
proof fn lemma_domains(s: Seq<u8>, c: Cursor, left: usize, domains: Seq<Seq<char>>)
    requires
        on_line(s, c),
    ensures
        !asks_more(spec_domains(s, c, left, domains)),
    decreases s.len() - c.pos,
{
    lemma_scans(s, c);
    let found = spec_seek_char(s, COMMA, c);
    let c1 = found.1;
    lemma_seek_lf(s, c1);
    if c1.stop_char == COMMA {
        let domain = found.0->0;
        lemma_domains(
            s,
            c1,
            left,
            if domain.len() > 0 {
                domains.push(domain)
            } else {
                domains
            },
        );
    }
}

/// A complete line is enough for the command on it: read from the start
/// of bytes that end with a line feed, a command is parsed, or refused,
/// without asking for more data.
pub proof fn lemma_request_complete(s: Seq<u8>, left: usize)
    requires
        is_line(s),
    ensures
        !asks_more(spec_request(s, start(), left)),
{
    reveal(spec_request);
    let c = start();
    lemma_scans(s, c);
    let c1 = spec_hashed_value(s, c).1;
    lemma_seek_lf(s, c1);
    lemma_paths(s, c1, left);
    lemma_arguments(s, c1, left);
    lemma_chunk_commands(s, c1, left);
    if c1.stop_char != LF {
        lemma_domains(s, c1, left, Seq::empty());
    }
}


} // verus!
