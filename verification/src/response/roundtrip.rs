//! A reply that is written reads back: what [`Response::write`] writes,
//! a [`ResponseReceiver`] reads as the reply that was written.
//!
//! [`Response::write`]: crate::Response::write
//! [`ResponseReceiver`]: crate::response::parser::ResponseReceiver

use vstd::prelude::*;
use vstd::utf8::{
    char_is_scalar, char_u32_cast, encode_scalar, encode_utf8,
    has_width_1_encoding, is_ascii_chars, is_ascii_chars_encode_utf8, last_continuation_byte,
    leading_byte_width_1, leading_byte_width_2, leading_byte_width_3, leading_byte_width_4,
    second_last_continuation_byte, third_last_continuation_byte,
};
use crate::response::generate::{decimal, decimal_at, response_text};
use crate::response::parser::{
    code_ok, response_scan, response_start, response_step, ResponseState, ResponseStep,
    MAX_RESPONSE_LENGTH,
};
use crate::text::{lemma_encoded_reads_back, utf8_lossy};
use crate::{CR, LF, SP};

verus! {

/// Neither a carriage return nor a line feed stands in `bytes`.
pub open spec fn no_line_end(bytes: Seq<u8>) -> bool {
    forall|i: int| 0 <= i < bytes.len() ==> bytes[i] != CR && bytes[i] != LF
}

/// Neither a carriage return nor a line feed stands in `text`.
pub open spec fn no_line_end_chars(text: Seq<char>) -> bool {
    forall|i: int| 0 <= i < text.len() ==> text[i] != '\r' && text[i] != '\n'
}

/// The bytes that encode a character hold a carriage return or a line feed
/// only if the character is one.
proof fn lemma_scalar_bytes(c: u32)
    requires
        c != 0x0d,
        c != 0x0a,
    ensures
        no_line_end(encode_scalar(c)),
{
    assert(has_width_1_encoding(c) ==> leading_byte_width_1(c) != 0x0d && leading_byte_width_1(c)
        != 0x0a) by (bit_vector)
        requires
            c != 0x0d,
            c != 0x0a,
    ;
    assert(leading_byte_width_2(c) >= 0x80 && leading_byte_width_3(c) >= 0x80
        && leading_byte_width_4(c) >= 0x80) by (bit_vector);
    assert(last_continuation_byte(c) >= 0x80 && second_last_continuation_byte(c) >= 0x80
        && third_last_continuation_byte(c) >= 0x80) by (bit_vector);
}

/// Text without an end of line is encoded without one.
proof fn lemma_no_line_end(text: Seq<char>)
    requires
        no_line_end_chars(text),
    ensures
        no_line_end(encode_utf8(text)),
    decreases text.len(),
{
    if text.len() > 0 {
        let first = encode_scalar(text[0] as u32);
        let rest = encode_utf8(text.drop_first());
        let c = text[0] as u32;
        assert(c != 0x0d && c != 0x0a) by {
            char_is_scalar(text[0]);
            char_u32_cast(text[0], c);
            assert(text[0] != '\r' && text[0] != '\n');
            assert(0x0du32 as char == '\r');
            assert(0x0au32 as char == '\n');
        }
        lemma_scalar_bytes(c);
        assert forall|i: int| 0 <= i < text.drop_first().len() implies text.drop_first()[i] != '\r'
            && text.drop_first()[i] != '\n' by {
            assert(text.drop_first()[i] == text[i + 1]);
        }
        lemma_no_line_end(text.drop_first());
        assert forall|i: int| 0 <= i < (first + rest).len() implies (first + rest)[i] != CR && (
        first + rest)[i] != LF by {
            if i < first.len() {
                assert((first + rest)[i] == first[i]);
            } else {
                assert((first + rest)[i] == rest[i - first.len()]);
            }
        }
    }
}

/// The encoding of two texts joined is their encodings joined.
proof fn lemma_encode_concat(a: Seq<char>, b: Seq<char>)
    ensures
        encode_utf8(a + b) == encode_utf8(a) + encode_utf8(b),
    decreases a.len(),
{
    if a.len() == 0 {
        assert(a + b =~= b);
        assert(encode_utf8(a) + encode_utf8(b) =~= encode_utf8(b));
    } else {
        lemma_encode_concat(a.drop_first(), b);
        assert((a + b).drop_first() =~= a.drop_first() + b);
        assert((a + b)[0] == a[0]);
        assert(encode_utf8(a + b) =~= encode_utf8(a) + encode_utf8(b));
    }
}

/// The digits of a number below 1000 are one to three ASCII digits.
proof fn lemma_decimal_digits(n: nat)
    requires
        n < 1000,
    ensures
        decimal(n).len() == (if n < 10 {
            1nat
        } else if n < 100 {
            2nat
        } else {
            3nat
        }),
        is_ascii_chars(decimal(n)),
        forall|k: int| 0 <= k < decimal(n).len() ==> 0x30 <= #[trigger] decimal(n)[k] as u8 <= 0x39,
    decreases n,
{
    if n >= 10 {
        lemma_decimal_digits(n / 10);
        let high = decimal(n / 10);
        assert(decimal(n) == high.push((0x30 + n % 10) as char));
        assert forall|k: int| 0 <= k < decimal(n).len() implies 0x30 <= #[trigger] decimal(
            n,
        )[k] as u8 <= 0x39 by {
            if k < high.len() {
                assert(decimal(n)[k] == high[k]);
            }
        }
    }
}

/// The bytes that the digits of a number below 1000 are written as stand
/// where they are put.
proof fn lemma_decimal_placed(x: Seq<u8>, z: Seq<u8>, n: nat)
    requires
        n < 1000,
    ensures
        decimal_at(x + encode_utf8(decimal(n)) + z, x.len() as int, n),
        encode_utf8(decimal(n)).len() == decimal(n).len(),
{
    lemma_decimal_digits(n);
    is_ascii_chars_encode_utf8(decimal(n));
    let y = encode_utf8(decimal(n));
    let all = x + y + z;
    assert forall|k: int| 0 <= k < decimal(n).len() implies #[trigger] all[x.len() + k] == decimal(
        n,
    )[k] as u8 by {
        assert(all[x.len() + k] == y[k]);
    }
}

/// One byte of a reply.
proof fn lemma_step(st: ResponseState, s: Seq<u8>, i: int)
    requires
        0 <= i < s.len(),
        response_step(st, s[i]) is Next,
    ensures
        response_scan(st, s, i) == response_scan(response_step(st, s[i])->Next_state, s, i + 1),
{
}

/// The state after the code `code` of a first line.
pub open spec fn after_code(code: u16) -> ResponseState {
    ResponseState { code, pos: 3, ..response_start() }
}

/// Reading the three digits of a code from 200 to 599.
proof fn lemma_code_scan(s: Seq<u8>, code: u16)
    requires
        code_ok(code),
        decimal_at(s, 0, code as nat),
    ensures
        decimal(code as nat).len() == 3,
        response_scan(response_start(), s, 0) == response_scan(after_code(code), s, 3),
{
    let n = code as nat;
    lemma_decimal_digits(n);
    lemma_decimal_digits(n / 10);
    lemma_decimal_digits(n / 100);
    let d = decimal(n);
    assert(d == decimal(n / 10).push((0x30 + n % 10) as char));
    assert(decimal(n / 10) == decimal(n / 100).push((0x30 + (n / 10) % 10) as char));
    assert(decimal(n / 100) == seq![(0x30 + n / 100) as char]);
    assert(d[0] == (0x30 + n / 100) as char);
    assert(d[1] == (0x30 + (n / 10) % 10) as char);
    assert(d[2] == (0x30 + n % 10) as char);
    assert(s[0int + 0] == d[0] as u8);
    assert(s[0int + 1] == d[1] as u8);
    assert(s[0int + 2] == d[2] as u8);
    let st0 = response_start();
    let st1 = ResponseState { code: (n / 100) as u16, pos: 1, ..st0 };
    let st2 = ResponseState { code: (n / 10) as u16, pos: 2, ..st0 };
    assert(response_step(st0, s[0]) == ResponseStep::Next { state: st1 });
    lemma_step(st0, s, 0);
    assert(response_step(st1, s[1]) == ResponseStep::Next { state: st2 });
    lemma_step(st1, s, 1);
    assert(response_step(st2, s[2]) == ResponseStep::Next { state: after_code(code) });
    lemma_step(st2, s, 2);
}

/// The state after the `n` that stands at index `i` of `s` was read as a
/// part of an enhanced status code, from the state `st` at its start.
pub open spec fn part_done(st: ResponseState, s: Seq<u8>, i: int, n: nat) -> ResponseState {
    ResponseState {
        digits: decimal(n).len() as int,
        esc_cur: st.esc_cur.update(st.pos - 4, n as u8),
        pending: st.pending + s.subrange(i, i + decimal(n).len()),
        ..st
    }
}

/// Reading the digits of one part of an enhanced status code.
proof fn lemma_part_scan(st: ResponseState, s: Seq<u8>, i: int, n: nat)
    requires
        n <= 255,
        decimal_at(s, i, n),
        4 <= st.pos <= 6,
        st.digits == 0,
        st.esc_cur.len() == 3,
        st.esc_cur[st.pos - 4] == 0,
        st.pending.len() <= 8,
    ensures
        response_scan(st, s, i) == response_scan(part_done(st, s, i, n), s, i + decimal(n).len()),
    decreases n,
{
    lemma_decimal_digits(n);
    let len = decimal(n).len() as int;
    let ch = s[i + (len - 1)];
    assert(ch == decimal(n)[len - 1] as u8);
    if n < 10 {
        assert(decimal(n)[0] == (0x30 + n) as char);
        let next = response_step(st, ch);
        assert(st.pending.push(ch) =~= st.pending + s.subrange(i, i + 1));
        assert(next == ResponseStep::Next { state: part_done(st, s, i, n) });
        lemma_step(st, s, i);
    } else {
        let high = decimal(n / 10);
        lemma_decimal_digits(n / 10);
        assert(decimal(n) == high.push((0x30 + n % 10) as char));
        assert forall|k: int| 0 <= k < high.len() implies #[trigger] s[i + k] == high[k] as u8 by {
            assert(decimal(n)[k] == high[k]);
        }
        lemma_part_scan(st, s, i, n / 10);
        let mid = part_done(st, s, i, n / 10);
        assert(decimal(n)[len - 1] == (0x30 + n % 10) as char);
        assert(mid.pending.push(ch) =~= st.pending + s.subrange(i, i + len));
        assert(mid.esc_cur.update(st.pos - 4, n as u8) =~= st.esc_cur.update(st.pos - 4, n as u8));
        assert(response_step(mid, ch) == ResponseStep::Next { state: part_done(st, s, i, n) });
        lemma_step(mid, s, i + len - 1);
    }
}

/// Reading text that holds no end of line.
proof fn lemma_text_scan(st: ResponseState, s: Seq<u8>, i: int, n: nat)
    requires
        st.pos == 7,
        0 <= i,
        i + n <= s.len(),
        forall|k: int| i <= k < i + n ==> s[k] != CR && s[k] != LF,
        st.buf.len() + n <= MAX_RESPONSE_LENGTH,
    ensures
        response_scan(st, s, i) == response_scan(
            ResponseState { buf: st.buf + s.subrange(i, i + n), ..st },
            s,
            i + n,
        ),
    decreases n,
{
    if n == 0 {
        assert(st.buf + s.subrange(i, i + 0) =~= st.buf);
    } else {
        let next = ResponseState { buf: st.buf.push(s[i]), ..st };
        assert(response_step(st, s[i]) == ResponseStep::Next { state: next });
        lemma_step(st, s, i);
        lemma_text_scan(next, s, i + 1, (n - 1) as nat);
        assert(next.buf + s.subrange(i + 1, i + n) =~= st.buf + s.subrange(i, i + n));
    }
}

/// The bytes of a reply as it is written: the digits of the code, a space,
/// the three parts of the enhanced status code with dots between them, a
/// space, the message, a carriage return and a line feed.
proof fn lemma_reply_bytes(code: u16, esc: Seq<u8>, message: Seq<char>)
    requires
        esc.len() == 3,
    ensures
        encode_utf8(response_text(code, esc, message)) == encode_utf8(decimal(code as nat)) + seq![
            SP,
        ] + encode_utf8(decimal(esc[0] as nat)) + seq![0x2eu8] + encode_utf8(
            decimal(esc[1] as nat),
        ) + seq![0x2eu8] + encode_utf8(decimal(esc[2] as nat)) + seq![SP] + encode_utf8(message)
            + seq![CR, LF],
{
    reveal_strlit(" ");
    reveal_strlit(".");
    reveal_strlit("\r\n");
    let sp = " "@;
    let dot = "."@;
    let end = "\r\n"@;
    assert(sp =~= seq![' ']);
    assert(dot =~= seq!['.']);
    assert(end =~= seq!['\r', '\n']);
    assert(is_ascii_chars(sp));
    assert(is_ascii_chars(dot));
    assert(is_ascii_chars(end));
    is_ascii_chars_encode_utf8(sp);
    is_ascii_chars_encode_utf8(dot);
    is_ascii_chars_encode_utf8(end);
    assert(encode_utf8(sp) =~= seq![SP]);
    assert(encode_utf8(dot) =~= seq![0x2eu8]);
    assert(encode_utf8(end) =~= seq![CR, LF]);
    let t1 = decimal(code as nat);
    let t2 = t1 + sp;
    let t3 = t2 + decimal(esc[0] as nat);
    let t4 = t3 + dot;
    let t5 = t4 + decimal(esc[1] as nat);
    let t6 = t5 + dot;
    let t7 = t6 + decimal(esc[2] as nat);
    let t8 = t7 + sp;
    let t9 = t8 + message;
    assert(response_text(code, esc, message) == t9 + end);
    lemma_encode_concat(t1, sp);
    lemma_encode_concat(t2, decimal(esc[0] as nat));
    lemma_encode_concat(t3, dot);
    lemma_encode_concat(t4, decimal(esc[1] as nat));
    lemma_encode_concat(t5, dot);
    lemma_encode_concat(t6, decimal(esc[2] as nat));
    lemma_encode_concat(t7, sp);
    lemma_encode_concat(t8, message);
    lemma_encode_concat(t9, end);
}

/// The state after a part of an enhanced status code and the dot that
/// ends it were read.
pub open spec fn part_ended(st: ResponseState, s: Seq<u8>, i: int, n: nat) -> ResponseState {
    ResponseState {
        digits: 0,
        pos: st.pos + 1,
        esc_cur: st.esc_cur.update(st.pos - 4, n as u8),
        pending: st.pending + s.subrange(i, i + decimal(n).len() + 1),
        ..st
    }
}

/// Reading one part of an enhanced status code and the dot after it.
proof fn lemma_part_and_dot(st: ResponseState, s: Seq<u8>, i: int, n: nat)
    requires
        n <= 255,
        decimal_at(s, i, n),
        i + decimal(n).len() < s.len(),
        s[i + decimal(n).len()] == 0x2eu8,
        4 <= st.pos <= 5,
        st.digits == 0,
        st.esc_cur.len() == 3,
        st.esc_cur[st.pos - 4] == 0,
        st.pending.len() <= 4,
    ensures
        response_scan(st, s, i) == response_scan(
            part_ended(st, s, i, n),
            s,
            i + decimal(n).len() + 1,
        ),
{
    lemma_decimal_digits(n);
    lemma_part_scan(st, s, i, n);
    let len = decimal(n).len() as int;
    let mid = part_done(st, s, i, n);
    assert(mid.pending.push(0x2eu8) =~= st.pending + s.subrange(i, i + len + 1));
    assert(response_step(mid, s[i + len]) == ResponseStep::Next {
        state: part_ended(st, s, i, n),
    });
    lemma_step(mid, s, i + len);
}

/// How many bytes the digits of `n` take.
pub open spec fn width(n: nat) -> int {
    decimal(n).len() as int
}

/// The index at which the message of a written reply begins.
pub open spec fn text_index(esc: Seq<u8>) -> int {
    7 + width(esc[0] as nat) + width(esc[1] as nat) + width(esc[2] as nat)
}

/// `s` holds from index `i` on the three parts of an enhanced status code
/// with dots between them and a space after them.
pub open spec fn esc_at(s: Seq<u8>, i: int, e0: nat, e1: nat, e2: nat) -> bool {
    let i1 = i + width(e0) + 1;
    let i2 = i1 + width(e1) + 1;
    let i3 = i2 + width(e2);
    &&& decimal_at(s, i, e0)
    &&& decimal_at(s, i1, e1)
    &&& decimal_at(s, i2, e2)
    &&& i3 < s.len()
    &&& s[i1 - 1] == 0x2eu8
    &&& s[i2 - 1] == 0x2eu8
    &&& s[i3] == SP
}

/// The state in which the text of the only line of a reply begins, after
/// its code and its enhanced status code.
pub open spec fn at_text(code: u16, esc: Seq<u8>) -> ResponseState {
    ResponseState { code, esc, is_last: true, pos: 7, ..response_start() }
}

/// Reading an enhanced status code that is written out.
proof fn lemma_esc_scan(s: Seq<u8>, code: u16, esc: Seq<u8>)
    requires
        esc.len() == 3,
        esc_at(s, 4, esc[0] as nat, esc[1] as nat, esc[2] as nat),
    ensures
        response_scan(ResponseState { is_last: true, pos: 4, ..after_code(code) }, s, 4)
            == response_scan(
            at_text(code, esc),
            s,
            text_index(esc),
        ),
{
    let e0 = esc[0] as nat;
    let e1 = esc[1] as nat;
    let e2 = esc[2] as nat;
    lemma_decimal_digits(e0);
    lemma_decimal_digits(e1);
    lemma_decimal_digits(e2);
    let i1 = 4 + width(e0) + 1;
    let i2 = i1 + width(e1) + 1;
    let i3 = i2 + width(e2);
    let s4 = ResponseState { is_last: true, pos: 4, ..after_code(code) };
    lemma_part_and_dot(s4, s, 4, e0);
    let s5 = part_ended(s4, s, 4, e0);
    lemma_part_and_dot(s5, s, i1, e1);
    let s6 = part_ended(s5, s, i1, e1);
    lemma_part_scan(s6, s, i2, e2);
    let s7 = part_done(s6, s, i2, e2);
    assert(s7.esc_cur =~= esc);
    assert(response_step(s7, s[i3]) == ResponseStep::Next { state: at_text(code, esc) });
    lemma_step(s7, s, i3);
}

/// Reading the message of a reply and the end of its line.
proof fn lemma_message_scan(s: Seq<u8>, i: int, code: u16, esc: Seq<u8>, m: Seq<u8>)
    requires
        code_ok(code),
        0 <= i,
        s.len() == i + m.len() + 2,
        s.subrange(i, i + m.len()) == m,
        s[i + m.len()] == CR,
        s[i + m.len() + 1] == LF,
        no_line_end(m),
        m.len() <= MAX_RESPONSE_LENGTH,
    ensures
        response_scan(at_text(code, esc), s, i) == (
            ResponseStep::Done { state: at_text(code, esc), raw: m },
            s.len() as int,
        ),
{
    let st = at_text(code, esc);
    assert forall|k: int| i <= k < i + m.len() implies s[k] != CR && s[k] != LF by {
        assert(s[k] == m[k - i]);
    }
    lemma_text_scan(st, s, i, m.len());
    assert(st.buf + m =~= m);
    let full = ResponseState { buf: m, ..st };
    let j = i + m.len();
    assert(response_step(full, s[j]) == ResponseStep::Next { state: full });
    lemma_step(full, s, j);
    assert(ResponseState { buf: Seq::empty(), ..full } == st);
    assert(response_step(full, s[j + 1]) == ResponseStep::Done { state: st, raw: m });
}

/// Where the parts of a reply stand in the line that is written for it.
proof fn lemma_reply_layout(code: u16, esc: Seq<u8>, message: Seq<char>)
    requires
        code_ok(code),
        esc.len() == 3,
    ensures
        ({
            let wire = encode_utf8(response_text(code, esc, message));
            let m = encode_utf8(message);
            let i = text_index(esc);
            &&& decimal_at(wire, 0, code as nat)
            &&& wire[3] == SP
            &&& esc_at(wire, 4, esc[0] as nat, esc[1] as nat, esc[2] as nat)
            &&& wire.len() == i + m.len() + 2
            &&& wire.subrange(i, i + m.len()) == m
            &&& wire[i + m.len()] == CR
            &&& wire[i + m.len() + 1] == LF
        }),
{
    let wire = encode_utf8(response_text(code, esc, message));
    let e0 = esc[0] as nat;
    let e1 = esc[1] as nat;
    let e2 = esc[2] as nat;
    let c = encode_utf8(decimal(code as nat));
    let a0 = encode_utf8(decimal(e0));
    let a1 = encode_utf8(decimal(e1));
    let a2 = encode_utf8(decimal(e2));
    let m = encode_utf8(message);
    let sp = seq![SP];
    let dot = seq![0x2eu8];
    let end = seq![CR, LF];
    lemma_reply_bytes(code, esc, message);
    lemma_decimal_digits(code as nat);
    lemma_decimal_digits(code as nat / 10);
    lemma_decimal_digits(e0);
    lemma_decimal_digits(e1);
    lemma_decimal_digits(e2);
    let none = Seq::<u8>::empty();
    let w2 = c + sp;
    let w4 = w2 + a0 + dot;
    let w6 = w4 + a1 + dot;
    let w8 = w6 + a2 + sp;
    lemma_decimal_placed(none, sp + a0 + dot + a1 + dot + a2 + sp + m + end, code as nat);
    assert(wire =~= none + c + (sp + a0 + dot + a1 + dot + a2 + sp + m + end));
    lemma_decimal_placed(w2, dot + a1 + dot + a2 + sp + m + end, e0);
    assert(wire =~= w2 + a0 + (dot + a1 + dot + a2 + sp + m + end));
    lemma_decimal_placed(w4, dot + a2 + sp + m + end, e1);
    assert(wire =~= w4 + a1 + (dot + a2 + sp + m + end));
    lemma_decimal_placed(w6, sp + m + end, e2);
    assert(wire =~= w6 + a2 + (sp + m + end));
    assert(wire =~= w8 + m + end);
    assert(c.len() == 3);
    assert(wire.subrange(w8.len() as int, w8.len() as int + m.len()) =~= m);
}

/// A reply that is written reads back as itself: a receiver at the start
/// of a reply that is handed the line that [`Response::write`] writes for
/// a reply reads all of it, and gives the code, the enhanced status code
/// and the message that were written.
///
/// This holds of a reply with a code from 200 to 599 whose message holds
/// no carriage return and no line feed, and has at most 4096 bytes.
///
/// [`Response::write`]: crate::Response::write
pub proof fn lemma_reply_reads_back(code: u16, esc: Seq<u8>, message: Seq<char>)
    requires
        code_ok(code),
        esc.len() == 3,
        no_line_end_chars(message),
        encode_utf8(message).len() <= MAX_RESPONSE_LENGTH,
    ensures
        ({
            let wire = encode_utf8(response_text(code, esc, message));
            let read = response_scan(response_start(), wire, 0);
            &&& read.1 == wire.len()
            &&& read.0 is Done
            &&& read.0->Done_state.code == code
            &&& read.0->Done_state.esc == esc
            &&& read.0->Done_raw == encode_utf8(message)
            &&& utf8_lossy(read.0->Done_raw) == message
        }),
{
    let wire = encode_utf8(response_text(code, esc, message));
    let m = encode_utf8(message);
    let i = text_index(esc);
    lemma_no_line_end(message);
    lemma_reply_layout(code, esc, message);
    lemma_code_scan(wire, code);
    let s3 = after_code(code);
    let s4 = ResponseState { is_last: true, pos: 4, ..s3 };
    assert(response_step(s3, wire[3]) == ResponseStep::Next { state: s4 });
    lemma_step(s3, wire, 3);
    lemma_esc_scan(wire, code, esc);
    lemma_message_scan(wire, i, code, esc, m);
    lemma_encoded_reads_back(message);
}


} // verus!
