//! The parsers of replies: a receiver that assembles one reply of any
//! number of lines, and the parser of the reply to `EHLO`.

use vstd::prelude::*;
use crate::bytes::ByteIter;
use crate::request::grammar::{
    bad_syntax, Cursor, need_more, spec_hashed_value_long, spec_mechanism, spec_read_char,
    spec_seek_lf, spec_size, spec_text,
};
use crate::request::parser::Rfc5321Parser;
use crate::response::{
    _8BITMIME, ATRN, AUTH, BINARYMIME, BURL, CHECKPOINT, CHUNKING, CONNEG, CONPERM, DELIVERBY,
    DSN, ENHANCEDSTATUSCO, ETRN, EXPN, FUTURERELEASE, HELP, MIXER, MT_PRIORITY, MTRK,
    NO_SOLICITING, NSEP, ONEX, PIPELINING, REQUIRETLS, RRVS, SIZE, SMTPUTF8, STANAG4406,
    STARTTLS, VERB, VRFY,
};
use crate::text::{decode_lossy, is_ascii_digit, is_digit, to_ascii_uppercase, upper, utf8_lossy};
use crate::{
    CR, EhloResponse, EhloResponseView, Error, ErrorView, EXT_8BIT_MIME, EXT_ATRN, EXT_AUTH,
    EXT_BINARY_MIME, EXT_BURL, EXT_CHECKPOINT, EXT_CHUNKING, EXT_CONNEG, EXT_CONPERM,
    EXT_DELIVER_BY, EXT_DSN, EXT_ENHANCED_STATUS_CODES, EXT_ETRN, EXT_EXPN, EXT_FUTURE_RELEASE,
    EXT_HELP, EXT_MT_PRIORITY, EXT_MTRK, EXT_NO_SOLICITING, EXT_ONEX, EXT_PIPELINING,
    EXT_REQUIRE_TLS, EXT_RRVS, EXT_SIZE, EXT_SMTP_UTF8, EXT_START_TLS, EXT_VERB, EXT_VRFY, LF,
    MtPriority, Response, ResponseView, SP,
};

verus! {

/// The longest message that a reply may carry, in bytes.
pub const MAX_RESPONSE_LENGTH: usize = 4096;

/// What a [`ResponseReceiver`] holds between two bytes.
pub struct ResponseState {
    /// The message so far, lines joined by line feeds.
    pub buf: Seq<u8>,
    /// The reply code, as far as it is read.
    pub code: u16,
    /// The code of a line after the first, as far as it is read.
    pub line_code: u16,
    /// The enhanced status code of the reply.
    pub esc: Seq<u8>,
    /// The enhanced status code of the line that is being read.
    pub esc_cur: Seq<u8>,
    /// The bytes read as an enhanced status code that go to the message if
    /// they turn out to be none.
    pub pending: Seq<u8>,
    /// The number of digits read of the part of the enhanced status code
    /// that is being read.
    pub digits: int,
    /// Whether the line that is being read is the last of the reply.
    pub is_last: bool,
    /// The part of the line that is being read: 0 to 2 the digits of the
    /// code, 3 the separator, 4 to 6 the parts of the enhanced status code,
    /// 7 the text.
    pub pos: int,
}

/// What one byte does to a reply that is being received.
pub enum ResponseStep {
    /// The reply goes on.
    Next { state: ResponseState },
    /// The reply is complete; `raw` holds the bytes of its message.
    Done { state: ResponseState, raw: Seq<u8> },
    /// The reply is refused.
    Fail { state: ResponseState, error: ErrorView },
}

/// The state before the first byte of a reply.
pub open spec fn response_start() -> ResponseState {
    ResponseState {
        buf: Seq::empty(),
        code: 0,
        line_code: 0,
        esc: seq![0u8, 0u8, 0u8],
        esc_cur: seq![0u8, 0u8, 0u8],
        pending: Seq::empty(),
        digits: 0,
        is_last: false,
        pos: 0,
    }
}

/// The state of a receiver that stands after a reply code read elsewhere.
pub open spec fn response_after_code(code: u16) -> ResponseState {
    ResponseState { code, pos: 3, ..response_start() }
}

/// `value` with the decimal digit `d` appended, held at `u16::MAX`.
pub open spec fn push_digit_u16(value: u16, d: u8) -> u16 {
    if value * 10 + (d - 0x30) > u16::MAX {
        u16::MAX
    } else {
        (value * 10 + (d - 0x30)) as u16
    }
}

/// `value` with the decimal digit `d` appended, held at `u8::MAX`.
pub open spec fn push_digit_u8(value: u8, d: u8) -> u8 {
    if value * 10 + (d - 0x30) > u8::MAX {
        u8::MAX
    } else {
        (value * 10 + (d - 0x30)) as u8
    }
}

/// Whether `code` is the code of a reply: 200 to 599.
pub open spec fn code_ok(code: u16) -> bool {
    200 <= code <= 599
}

/// The bytes read as an enhanced status code were none: they go to the
/// message with the byte `ch` that showed it, and the text begins. Fails
/// where the message would grow beyond its limit.
pub open spec fn restore(st: ResponseState, ch: u8) -> ResponseStep {
    if st.buf.len() + st.pending.len() + 1 > MAX_RESPONSE_LENGTH {
        ResponseStep::Fail { state: st, error: ErrorView::ResponseTooLong }
    } else {
        ResponseStep::Next {
            state: ResponseState {
                buf: (st.buf + st.pending).push(ch),
                pos: 7,
                pending: Seq::empty(),
                digits: 0,
                esc_cur: seq![0u8, 0u8, 0u8],
                ..st
            },
        }
    }
}

/// What the byte `ch` does within its line. The three digits of the first
/// line must give a code from 200 to 599, and those of every other line
/// the code of the first, or the reply is refused at the third with the
/// code that they give. After the separator an enhanced status
/// code may stand: three numbers of one to three digits with dots between
/// them, ended by a space or by the end of the line; anything else there
/// is text, with the bytes that looked like a status code before it.
pub open spec fn response_byte(st: ResponseState, ch: u8) -> ResponseStep {
    if 0 <= st.pos <= 2 {
        if is_digit(ch) {
            if st.buf.len() == 0 {
                let code = push_digit_u16(st.code, ch);
                if st.pos == 2 && !code_ok(code) {
                    ResponseStep::Fail { state: st, error: ErrorView::InvalidResponse { code } }
                } else {
                    ResponseStep::Next { state: ResponseState { code, pos: st.pos + 1, ..st } }
                }
            } else {
                let code = push_digit_u16(st.line_code, ch);
                if st.pos < 2 {
                    ResponseStep::Next {
                        state: ResponseState { line_code: code, pos: st.pos + 1, ..st },
                    }
                } else if code == st.code {
                    ResponseStep::Next { state: ResponseState { line_code: 0, pos: 3, ..st } }
                } else {
                    ResponseStep::Fail { state: st, error: ErrorView::InvalidResponse { code } }
                }
            }
        } else {
            ResponseStep::Fail {
                state: st,
                error: ErrorView::SyntaxError { syntax: "Invalid response code"@ },
            }
        }
    } else if st.pos == 3 {
        if ch == SP {
            ResponseStep::Next { state: ResponseState { is_last: true, pos: 4, ..st } }
        } else if ch == 0x2d {
            ResponseStep::Next { state: ResponseState { pos: 4, ..st } }
        } else if ch == CR {
            ResponseStep::Next { state: st }
        } else if ch == LF {
            ResponseStep::Next { state: ResponseState { is_last: true, ..st } }
        } else {
            ResponseStep::Fail {
                state: st,
                error: ErrorView::SyntaxError { syntax: "Invalid response separator"@ },
            }
        }
    } else if 4 <= st.pos <= 6 {
        if is_digit(ch) {
            if st.digits < 3 && st.pending.len() < 11 {
                ResponseStep::Next {
                    state: ResponseState {
                        pending: st.pending.push(ch),
                        digits: st.digits + 1,
                        esc_cur: st.esc_cur.update(
                            st.pos - 4,
                            push_digit_u8(st.esc_cur[st.pos - 4], ch),
                        ),
                        ..st
                    },
                }
            } else {
                restore(st, ch)
            }
        } else if ch == 0x2e && st.pos < 6 {
            if st.digits > 0 && st.pending.len() < 11 {
                ResponseStep::Next {
                    state: ResponseState {
                        pending: st.pending.push(ch),
                        digits: 0,
                        pos: st.pos + 1,
                        ..st
                    },
                }
            } else {
                restore(st, ch)
            }
        } else if (ch == SP || ch == CR || ch == LF) && st.pos == 6 && st.digits > 0 {
            ResponseStep::Next {
                state: ResponseState {
                    esc: st.esc_cur,
                    esc_cur: seq![0u8, 0u8, 0u8],
                    pos: 7,
                    pending: Seq::empty(),
                    digits: 0,
                    ..st
                },
            }
        } else {
            restore(st, ch)
        }
    } else if ch == CR || ch == LF {
        ResponseStep::Next { state: st }
    } else if st.buf.len() < MAX_RESPONSE_LENGTH {
        ResponseStep::Next { state: ResponseState { buf: st.buf.push(ch), ..st } }
    } else {
        ResponseStep::Fail { state: st, error: ErrorView::ResponseTooLong }
    }
}

/// What the byte `ch` does to the reply: as [`response_byte`] says, and a
/// line feed then ends the reply on its last line, or else joins the next
/// line to the message. A reply ends only with a code from 200 to 599:
/// with any other, which a receiver can hold only if it was made with it,
/// the reply is refused at its end.
pub open spec fn response_step(st: ResponseState, ch: u8) -> ResponseStep {
    match response_byte(st, ch) {
        ResponseStep::Next { state } => {
            if ch != LF {
                ResponseStep::Next { state }
            } else if state.is_last {
                if code_ok(state.code) {
                    ResponseStep::Done {
                        state: ResponseState { buf: Seq::empty(), ..state },
                        raw: state.buf,
                    }
                } else {
                    ResponseStep::Fail {
                        state,
                        error: ErrorView::InvalidResponse { code: state.code },
                    }
                }
            } else if state.buf.len() < MAX_RESPONSE_LENGTH {
                ResponseStep::Next {
                    state: ResponseState { buf: state.buf.push(LF), pos: 0, ..state },
                }
            } else {
                ResponseStep::Fail { state, error: ErrorView::ResponseTooLong }
            }
        },
        other => other,
    }
}

/// Receives the bytes of `s` from index `i` on. Gives the last step, which
/// is `Next` if `s` ended before the reply did, and the index up to which
/// `s` was read.
pub open spec fn response_scan(st: ResponseState, s: Seq<u8>, i: int) -> (ResponseStep, int)
    decreases s.len() - i,
{
    if i < 0 || i >= s.len() {
        (ResponseStep::Next { state: st }, s.len() as int)
    } else {
        match response_step(st, s[i]) {
            ResponseStep::Next { state } => response_scan(state, s, i + 1),
            other => (other, i + 1),
        }
    }
}

/// Receiving `b` from index `k` is receiving `a + b` from index
/// `a.len() + k`.
proof fn lemma_response_shift(st: ResponseState, a: Seq<u8>, b: Seq<u8>, k: int)
    requires
        0 <= k <= b.len(),
    ensures
        response_scan(st, a + b, a.len() + k) == (
            response_scan(st, b, k).0,
            a.len() + response_scan(st, b, k).1,
        ),
    decreases b.len() - k,
{
    if k < b.len() {
        assert((a + b)[a.len() + k] == b[k]);
        match response_step(st, b[k]) {
            ResponseStep::Next { state } => {
                lemma_response_shift(state, a, b, k + 1);
            },
            _ => {},
        }
    }
}

/// Receiving `a + b` from an index in `a` is receiving `a` from there and,
/// if the reply goes on, receiving `b`.
proof fn lemma_response_split(st: ResponseState, a: Seq<u8>, b: Seq<u8>, i: int)
    requires
        0 <= i <= a.len(),
    ensures
        response_scan(st, a + b, i) == match response_scan(st, a, i).0 {
            ResponseStep::Next { state } => (
                response_scan(state, b, 0).0,
                a.len() + response_scan(state, b, 0).1,
            ),
            _ => response_scan(st, a, i),
        },
    decreases a.len() - i,
{
    if i < a.len() {
        assert((a + b)[i] == a[i]);
        match response_step(st, a[i]) {
            ResponseStep::Next { state } => {
                lemma_response_split(state, a, b, i + 1);
            },
            _ => {},
        }
    } else {
        lemma_response_shift(st, a, b, 0);
    }
}

/// A reply may come in any chunks: a receiver in the state `st` that is
/// handed `a` and then, if the reply is not complete, `b`, gives what it
/// would give if it were handed `a + b` at once.
pub proof fn lemma_response_chunks(st: ResponseState, a: Seq<u8>, b: Seq<u8>)
    ensures
        response_scan(st, a + b, 0) == match response_scan(st, a, 0).0 {
            ResponseStep::Next { state } => (
                response_scan(state, b, 0).0,
                a.len() + response_scan(state, b, 0).1,
            ),
            _ => response_scan(st, a, 0),
        },
{
    lemma_response_split(st, a, b, 0);
}

/// Assembles one reply from the bytes of a connection.
pub struct ResponseReceiver {
    buf: Vec<u8>,
    code: u16,
    line_code: u16,
    esc: [u8; 3],
    esc_cur: [u8; 3],
    esc_restore: [u8; 11],
    esc_pos: usize,
    esc_digits: usize,
    is_last: bool,
    pos: usize,
}

impl View for ResponseReceiver {
    type V = ResponseState;

    closed spec fn view(&self) -> ResponseState {
        ResponseState {
            buf: self.buf@,
            code: self.code,
            line_code: self.line_code,
            esc: self.esc@,
            esc_cur: self.esc_cur@,
            pending: self.esc_restore@.subrange(0, self.esc_pos as int),
            digits: self.esc_digits as int,
            is_last: self.is_last,
            pos: self.pos as int,
        }
    }
}

impl Default for ResponseReceiver {
    fn default() -> (r: Self)
        ensures
            r@ == response_start(),
            r.wf(),
    {
        let r = ResponseReceiver {
            buf: Vec::new(),
            code: 0,
            line_code: 0,
            esc: [0, 0, 0],
            esc_cur: [0, 0, 0],
            esc_restore: [0, 0, 0, 0, 0, 0, 0, 0, 0, 0, 0],
            esc_pos: 0,
            esc_digits: 0,
            is_last: false,
            pos: 0,
        };
        assert(r@.esc =~= seq![0u8, 0u8, 0u8]);
        assert(r@.esc_cur =~= seq![0u8, 0u8, 0u8]);
        assert(r@.pending =~= Seq::empty());
        r
    }
}

impl ResponseReceiver {
    /// The message is within its limit and the parts of the state are in
    /// range.
    pub closed spec fn wf(&self) -> bool {
        &&& self.buf@.len() <= MAX_RESPONSE_LENGTH
        &&& self.esc_pos <= 11
        &&& self.esc_digits <= 3
        &&& self.pos <= 7
    }

    /// A receiver for a reply whose code, `code`, has been read already.
    pub fn from_code(code: u16) -> (r: Self)
        ensures
            r@ == response_after_code(code),
            r.wf(),
    {
        let r = ResponseReceiver {
            code,
            line_code: 0,
            esc: [0, 0, 0],
            esc_cur: [0, 0, 0],
            esc_restore: [0, 0, 0, 0, 0, 0, 0, 0, 0, 0, 0],
            esc_pos: 0,
            esc_digits: 0,
            pos: 3,
            is_last: false,
            buf: Vec::new(),
        };
        assert(r@.esc =~= seq![0u8, 0u8, 0u8]);
        assert(r@.esc_cur =~= seq![0u8, 0u8, 0u8]);
        assert(r@.pending =~= Seq::empty());
        r
    }

    /// Puts back to the message the bytes that were read as an enhanced
    /// status code, with the byte `ch` after them.
    fn restore(&mut self, ch: u8) -> (r: Result<(), Error>)
        requires
            old(self).wf(),
            4 <= old(self)@.pos <= 6,
        ensures
            final(self).wf(),
            match restore(old(self)@, ch) {
                ResponseStep::Next { state } => r is Ok && final(self)@ == state,
                ResponseStep::Fail { state, error } => r is Err && r->Err_0@ == error && final(self)@ == state,
                ResponseStep::Done { .. } => false,
            },
    {
        if self.buf.len() + self.esc_pos + 1 > MAX_RESPONSE_LENGTH {
            return Err(Error::ResponseTooLong);
        }
        let ghost before = self.buf@;
        let ghost pending = self.esc_restore@.subrange(0, self.esc_pos as int);
        let mut i: usize = 0;
        while i < self.esc_pos
            invariant
                0 <= i <= self.esc_pos <= 11,
                self.esc_pos == old(self).esc_pos,
                self.esc_digits == old(self).esc_digits,
                self.esc_restore == old(self).esc_restore,
                self.code == old(self).code,
                self.line_code == old(self).line_code,
                self.esc == old(self).esc,
                self.esc_cur == old(self).esc_cur,
                self.is_last == old(self).is_last,
                self.pos == old(self).pos,
                self.buf@ == before + pending.subrange(0, i as int),
                pending == self.esc_restore@.subrange(0, self.esc_pos as int),
                self.pos <= 7,
                before.len() + self.esc_pos + 1 <= MAX_RESPONSE_LENGTH,
            decreases self.esc_pos - i,
        {
            let b = self.esc_restore[i];
            self.buf.push(b);
            i = i + 1;
            assert(self.buf@ =~= before + pending.subrange(0, i as int));
        }
        assert(pending.subrange(0, self.esc_pos as int) =~= pending);
        self.buf.push(ch);
        self.pos = 7;
        self.esc_pos = 0;
        self.esc_digits = 0;
        self.esc_cur = [0, 0, 0];
        proof {
            assert(self.esc_cur@ =~= seq![0u8, 0u8, 0u8]);
            assert(self.esc_restore@.subrange(0, 0) =~= Seq::<u8>::empty());
        }
        Ok(())
    }

    /// Takes one byte within its line.
    fn byte(&mut self, ch: u8) -> (r: Result<(), Error>)
        requires
            old(self).wf(),
        ensures
            final(self).wf(),
            match response_byte(old(self)@, ch) {
                ResponseStep::Next { state } => r is Ok && final(self)@ == state,
                ResponseStep::Fail { state, error } => r is Err && r->Err_0@ == error && final(self)@ == state,
                ResponseStep::Done { .. } => false,
            },
    {
        if self.pos <= 2 {
            if is_ascii_digit(ch) {
                if self.buf.len() == 0 {
                    let wide: u32 = self.code as u32 * 10 + (ch - 0x30) as u32;
                    let code = if wide > u16::MAX as u32 {
                        u16::MAX
                    } else {
                        wide as u16
                    };
                    if self.pos == 2 && !(200 <= code && code <= 599) {
                        return Err(Error::InvalidResponse { code });
                    }
                    self.code = code;
                } else {
                    let wide: u32 = self.line_code as u32 * 10 + (ch - 0x30) as u32;
                    let code = if wide > u16::MAX as u32 {
                        u16::MAX
                    } else {
                        wide as u16
                    };
                    if self.pos < 2 {
                        self.line_code = code;
                    } else if code == self.code {
                        self.line_code = 0;
                    } else {
                        return Err(Error::InvalidResponse { code });
                    }
                }
                self.pos = self.pos + 1;
                Ok(())
            } else {
                Err(Error::SyntaxError { syntax: "Invalid response code" })
            }
        } else if self.pos == 3 {
            if ch == SP {
                self.is_last = true;
                self.pos = 4;
                Ok(())
            } else if ch == 0x2d {
                self.pos = 4;
                Ok(())
            } else if ch == CR {
                Ok(())
            } else if ch == LF {
                self.is_last = true;
                Ok(())
            } else {
                Err(Error::SyntaxError { syntax: "Invalid response separator" })
            }
        } else if self.pos <= 6 {
            if is_ascii_digit(ch) {
                let code = self.esc_cur[self.pos - 4];
                if self.esc_digits < 3 && self.esc_pos < 11 {
                    let ghost pending = self.esc_restore@.subrange(0, self.esc_pos as int);
                    self.esc_restore[self.esc_pos] = ch;
                    let wide: u16 = code as u16 * 10 + (ch - 0x30) as u16;
                    self.esc_cur[self.pos - 4] = if wide > u8::MAX as u16 {
                        u8::MAX
                    } else {
                        wide as u8
                    };
                    self.esc_pos = self.esc_pos + 1;
                    self.esc_digits = self.esc_digits + 1;
                    assert(self.esc_restore@.subrange(0, self.esc_pos as int) =~= pending.push(
                        ch,
                    ));
                    Ok(())
                } else {
                    self.restore(ch)
                }
            } else if ch == 0x2e && self.pos < 6 {
                if self.esc_digits > 0 && self.esc_pos < 11 {
                    let ghost pending = self.esc_restore@.subrange(0, self.esc_pos as int);
                    self.esc_restore[self.esc_pos] = ch;
                    self.pos = self.pos + 1;
                    self.esc_pos = self.esc_pos + 1;
                    self.esc_digits = 0;
                    assert(self.esc_restore@.subrange(0, self.esc_pos as int) =~= pending.push(
                        ch,
                    ));
                    Ok(())
                } else {
                    self.restore(ch)
                }
            } else if (ch == SP || ch == CR || ch == LF) && self.pos == 6 && self.esc_digits > 0 {
                self.esc = self.esc_cur;
                self.esc_cur = [0, 0, 0];
                self.pos = 7;
                self.esc_pos = 0;
                self.esc_digits = 0;
                proof {
                    assert(self.esc_cur@ =~= seq![0u8, 0u8, 0u8]);
                    assert(self.esc_restore@.subrange(0, 0) =~= Seq::<u8>::empty());
                }
                Ok(())
            } else {
                self.restore(ch)
            }
        } else if ch == CR || ch == LF {
            Ok(())
        } else if self.buf.len() < MAX_RESPONSE_LENGTH {
            self.buf.push(ch);
            Ok(())
        } else {
            Err(Error::ResponseTooLong)
        }
    }

    /// Reads on in `bytes` and returns the reply once its last line is
    /// complete, leaving `bytes` just after it. Asks for more data when
    /// `bytes` ends before that. The code of a reply is from 200 to 599,
    /// and its message is decoded from at most 4096 bytes.
    pub fn parse(&mut self, bytes: &mut ByteIter<'_>) -> (r: Result<Response<String>, Error>)
        requires
            old(self).wf(),
        ensures
            final(self).wf(),
            final(bytes).data() == old(bytes).data(),
            r is Ok ==> 200 <= r->Ok_0.code <= 599,
            final(bytes).pos() == response_scan(old(self)@, old(bytes).data(), old(bytes).pos()).1,
            match response_scan(old(self)@, old(bytes).data(), old(bytes).pos()).0 {
                ResponseStep::Next { state } => {
                    &&& r == Err::<Response<String>, Error>(Error::NeedsMoreData { bytes_left: 0 })
                    &&& final(self)@ == state
                },
                ResponseStep::Done { state, raw } => {
                    &&& r is Ok
                    &&& r->Ok_0@ == (ResponseView {
                        code: state.code,
                        esc: state.esc,
                        message: utf8_lossy(raw),
                    })
                    &&& raw.len() <= MAX_RESPONSE_LENGTH
                    &&& code_ok(state.code)
                    &&& final(self)@ == state
                },
                ResponseStep::Fail { state, error } => {
                    &&& r is Err
                    &&& r->Err_0@ == error
                    &&& final(self)@ == state
                },
            },
    {
        proof {
            use_type_invariant(&*bytes);
        }
        loop
            invariant
                self.wf(),
                bytes.data() == old(bytes).data(),
                0 <= bytes.pos() <= bytes.data().len(),
                response_scan(self@, bytes.data(), bytes.pos()) == response_scan(
                    old(self)@,
                    old(bytes).data(),
                    old(bytes).pos(),
                ),
            decreases bytes.data().len() - bytes.pos(),
        {
            match bytes.next() {
                Some(ch) => {
                    self.byte(ch)?;
                    if ch == LF {
                        if self.is_last {
                            if !(200 <= self.code && self.code <= 599) {
                                return Err(Error::InvalidResponse { code: self.code });
                            }
                            let message = decode_lossy(self.buf.as_slice());
                            let response = Response { code: self.code, esc: self.esc, message };
                            self.buf.clear();
                            return Ok(response);
                        } else if self.buf.len() < MAX_RESPONSE_LENGTH {
                            self.buf.push(LF);
                            self.pos = 0;
                        } else {
                            return Err(Error::ResponseTooLong);
                        }
                    }
                },
                None => {
                    return Err(Error::NeedsMoreData { bytes_left: 0 });
                },
            }
        }
    }

    /// Makes the receiver ready for the next reply.
    pub fn reset(&mut self)
        ensures
            final(self)@ == response_start(),
            final(self).wf(),
    {
        self.is_last = false;
        self.code = 0;
        self.line_code = 0;
        self.esc = [0, 0, 0];
        self.esc_cur = [0, 0, 0];
        self.pos = 0;
        self.esc_pos = 0;
        self.esc_digits = 0;
        self.buf.clear();
        proof {
            assert(self.esc@ =~= seq![0u8, 0u8, 0u8]);
            assert(self.esc_cur@ =~= seq![0u8, 0u8, 0u8]);
            assert(self.esc_restore@.subrange(0, 0) =~= Seq::<u8>::empty());
        }
    }
}

/// The reply to `EHLO` before any of its lines is read.
pub open spec fn ehlo_start() -> EhloResponseView {
    EhloResponseView {
        hostname: Seq::empty(),
        capabilities: 0,
        auth_mechanisms: 0,
        deliver_by: 0,
        future_release_interval: 0,
        future_release_datetime: 0,
        mt_priority: MtPriority::Mixer,
        no_soliciting: None,
        size: 0,
    }
}

/// Reads `n` more digits of a reply code that reads `code` so far.
pub open spec fn code_scan(s: Seq<u8>, c: Cursor, left: usize, code: u16, n: nat) -> (
    Result<u16, ErrorView>,
    Cursor,
)
    decreases n,
{
    if n == 0 {
        (Ok(code), c)
    } else {
        match spec_read_char(s, c) {
            (None, c1) => (Err(need_more(left)), c1),
            (Some(ch), c1) => {
                if is_digit(ch) {
                    code_scan(s, c1, left, push_digit_u16(code, ch), (n - 1) as nat)
                } else {
                    (Err(bad_syntax("unexpected token")), c1)
                }
            },
        }
    }
}

/// Reads the first line of the reply after its code: the hostname is what
/// stands before the first space, without carriage returns, and `acc` what
/// is read of it so far.
pub open spec fn spec_hostname(s: Seq<u8>, c: Cursor, left: usize, acc: Seq<u8>) -> (
    Result<Seq<u8>, ErrorView>,
    Cursor,
)
    decreases s.len() - c.pos,
{
    match spec_read_char(s, c) {
        (None, c1) => (Err(need_more(left)), c1),
        (Some(ch), c1) => {
            if ch == LF {
                (Ok(acc), c1)
            } else if ch == CR {
                spec_hostname(s, c1, left, acc)
            } else if ch == SP {
                match spec_seek_lf(s, c1) {
                    (Some(_), c2) => (Ok(acc), c2),
                    (None, c2) => (Err(need_more(left)), c2),
                }
            } else if acc.len() < MAX_RESPONSE_LENGTH {
                spec_hostname(s, c1, left, acc.push(ch))
            } else {
                (Err(ErrorView::ResponseTooLong), c1)
            }
        },
    }
}

/// The number that may follow a capability on its line, zero if none does.
pub open spec fn spec_optional_size(s: Seq<u8>, c: Cursor, left: usize) -> (
    Result<usize, ErrorView>,
    Cursor,
) {
    if c.stop_char != LF {
        match spec_size(s, c) {
            (None, c1) => (Err(need_more(left)), c1),
            (Some(n), c1) => (
                Ok(
                    if n != usize::MAX {
                        n
                    } else {
                        0
                    },
                ),
                c1,
            ),
        }
    } else {
        (Ok(0), c)
    }
}

/// Reads the mechanisms that follow `AUTH` up to the end of the line and
/// adds their bits to `mechanisms`. (The test on the positions always
/// holds.)
pub open spec fn spec_auth_list(s: Seq<u8>, c: Cursor, left: usize, mechanisms: u64) -> (
    Result<u64, ErrorView>,
    Cursor,
)
    decreases s.len() - c.pos,
{
    if c.stop_char == LF {
        (Ok(mechanisms), c)
    } else {
        match spec_mechanism(s, c) {
            (None, c1) => (Err(need_more(left)), c1),
            (Some(found), c1) => {
                let all = match found {
                    Some(bit) => mechanisms | bit,
                    None => mechanisms,
                };
                if c.pos < c1.pos <= s.len() {
                    spec_auth_list(s, c1, left, all)
                } else {
                    (Ok(all), c1)
                }
            },
        }
    }
}

/// `c`, which a line feed ends if `ch`, the byte read last, is one.
pub open spec fn after_byte(c: Cursor, ch: u8) -> Cursor {
    if ch == LF {
        Cursor { stop_char: LF, ..c }
    } else {
        c
    }
}

/// Whether the sixteen bytes `ENHANCEDSTATUSCO` go on with `DES` in
/// either case; `c` is the cursor after the byte that followed them.
pub open spec fn spec_des(s: Seq<u8>, c: Cursor, left: usize) -> (Result<bool, ErrorView>, Cursor) {
    if upper(c.stop_char) != 0x44 {
        (Ok(false), c)
    } else {
        match spec_read_char(s, c) {
            (None, c1) => (Err(need_more(left)), c1),
            (Some(e), c1) => {
                if upper(e) != 0x45 {
                    (Ok(false), after_byte(c1, e))
                } else {
                    match spec_read_char(s, c1) {
                        (None, c2) => (Err(need_more(left)), c2),
                        (Some(x), c2) => (Ok(upper(x) == 0x53), after_byte(c2, x)),
                    }
                }
            },
        }
    }
}

/// `resp` with the capability `bit` set.
pub open spec fn with_capability(resp: EhloResponseView, bit: u32) -> EhloResponseView {
    EhloResponseView { capabilities: resp.capabilities | bit, ..resp }
}

/// The priority profile that the keyword `key` names; `MIXER` if none.
pub open spec fn priority_of(key: u128) -> MtPriority {
    if key == STANAG4406 {
        MtPriority::Stanag4406
    } else if key == NSEP {
        MtPriority::Nsep
    } else {
        MtPriority::Mixer
    }
}

/// Adds to `resp` the capability whose keyword `key` has just been read,
/// with the arguments that follow it; `c` is the cursor after the keyword.
/// A keyword that is not known adds nothing.
pub open spec fn spec_capability(
    s: Seq<u8>,
    c: Cursor,
    left: usize,
    key: u128,
    resp: EhloResponseView,
) -> (Result<EhloResponseView, ErrorView>, Cursor) {
    if key == _8BITMIME {
        (Ok(with_capability(resp, EXT_8BIT_MIME)), c)
    } else if key == ATRN {
        (Ok(with_capability(resp, EXT_ATRN)), c)
    } else if key == AUTH {
        match spec_auth_list(s, c, left, resp.auth_mechanisms) {
            (Err(e), c1) => (Err(e), c1),
            (Ok(auth_mechanisms), c1) => (
                Ok(with_capability(EhloResponseView { auth_mechanisms, ..resp }, EXT_AUTH)),
                c1,
            ),
        }
    } else if key == BINARYMIME {
        (Ok(with_capability(resp, EXT_BINARY_MIME)), c)
    } else if key == BURL {
        (Ok(with_capability(resp, EXT_BURL)), c)
    } else if key == CHECKPOINT {
        (Ok(with_capability(resp, EXT_CHECKPOINT)), c)
    } else if key == CHUNKING {
        (Ok(with_capability(resp, EXT_CHUNKING)), c)
    } else if key == CONNEG {
        (Ok(with_capability(resp, EXT_CONNEG)), c)
    } else if key == CONPERM {
        (Ok(with_capability(resp, EXT_CONPERM)), c)
    } else if key == DELIVERBY {
        match spec_optional_size(s, c, left) {
            (Err(e), c1) => (Err(e), c1),
            (Ok(n), c1) => (
                Ok(with_capability(EhloResponseView { deliver_by: n as u64, ..resp }, EXT_DELIVER_BY)),
                c1,
            ),
        }
    } else if key == DSN {
        (Ok(with_capability(resp, EXT_DSN)), c)
    } else if key == ENHANCEDSTATUSCO {
        match spec_des(s, c, left) {
            (Err(e), c1) => (Err(e), c1),
            (Ok(true), c1) => (Ok(with_capability(resp, EXT_ENHANCED_STATUS_CODES)), c1),
            (Ok(false), c1) => (Ok(resp), c1),
        }
    } else if key == ETRN {
        (Ok(with_capability(resp, EXT_ETRN)), c)
    } else if key == EXPN {
        (Ok(with_capability(resp, EXT_EXPN)), c)
    } else if key == VRFY {
        (Ok(with_capability(resp, EXT_VRFY)), c)
    } else if key == FUTURERELEASE {
        match spec_optional_size(s, c, left) {
            (Err(e), c1) => (Err(e), c1),
            (Ok(interval), c1) => match spec_optional_size(s, c1, left) {
                (Err(e), c2) => (Err(e), c2),
                (Ok(datetime), c2) => (
                    Ok(
                        with_capability(
                            EhloResponseView {
                                future_release_interval: interval as u64,
                                future_release_datetime: datetime as u64,
                                ..resp
                            },
                            EXT_FUTURE_RELEASE,
                        ),
                    ),
                    c2,
                ),
            },
        }
    } else if key == HELP {
        (Ok(with_capability(resp, EXT_HELP)), c)
    } else if key == MT_PRIORITY {
        if c.stop_char != LF {
            match spec_hashed_value_long(s, c) {
                (None, c1) => (Err(need_more(left)), c1),
                (Some(name), c1) => (
                    Ok(
                        with_capability(
                            EhloResponseView { mt_priority: priority_of(name), ..resp },
                            EXT_MT_PRIORITY,
                        ),
                    ),
                    c1,
                ),
            }
        } else {
            (
                Ok(
                    with_capability(
                        EhloResponseView { mt_priority: MtPriority::Mixer, ..resp },
                        EXT_MT_PRIORITY,
                    ),
                ),
                c,
            )
        }
    } else if key == MTRK {
        (Ok(with_capability(resp, EXT_MTRK)), c)
    } else if key == NO_SOLICITING {
        if c.stop_char != LF {
            match spec_text(s, c) {
                (None, c1) => (Err(need_more(left)), c1),
                (Some(keywords), c1) => (
                    Ok(
                        with_capability(
                            EhloResponseView {
                                no_soliciting: if keywords.len() > 0 {
                                    Some(keywords)
                                } else {
                                    None
                                },
                                ..resp
                            },
                            EXT_NO_SOLICITING,
                        ),
                    ),
                    c1,
                ),
            }
        } else {
            (Ok(with_capability(EhloResponseView { no_soliciting: None, ..resp }, EXT_NO_SOLICITING)), c)
        }
    } else if key == ONEX {
        (Ok(with_capability(resp, EXT_ONEX)), c)
    } else if key == PIPELINING {
        (Ok(with_capability(resp, EXT_PIPELINING)), c)
    } else if key == REQUIRETLS {
        (Ok(with_capability(resp, EXT_REQUIRE_TLS)), c)
    } else if key == RRVS {
        (Ok(with_capability(resp, EXT_RRVS)), c)
    } else if key == SIZE {
        match spec_optional_size(s, c, left) {
            (Err(e), c1) => (Err(e), c1),
            (Ok(size), c1) => (Ok(with_capability(EhloResponseView { size, ..resp }, EXT_SIZE)), c1),
        }
    } else if key == SMTPUTF8 {
        (Ok(with_capability(resp, EXT_SMTP_UTF8)), c)
    } else if key == STARTTLS {
        (Ok(with_capability(resp, EXT_START_TLS)), c)
    } else if key == VERB {
        (Ok(with_capability(resp, EXT_VERB)), c)
    } else {
        (Ok(resp), c)
    }
}

/// Reads one line of the reply after its code and separator: the hostname
/// on the first line, a capability on every other.
pub open spec fn spec_ehlo_line(
    s: Seq<u8>,
    c: Cursor,
    left: usize,
    resp: EhloResponseView,
    first: bool,
) -> (Result<EhloResponseView, ErrorView>, Cursor) {
    if first {
        match spec_hostname(s, c, left, Seq::empty()) {
            (Err(e), c1) => (Err(e), c1),
            (Ok(name), c1) => (Ok(EhloResponseView { hostname: utf8_lossy(name), ..resp }), c1),
        }
    } else {
        match spec_hashed_value_long(s, c) {
            (None, c1) => (Err(need_more(left)), c1),
            (Some(key), c1) => match spec_capability(s, c1, left, key, resp) {
                (Err(e), c2) => (Err(e), c2),
                (Ok(resp2), c2) => match spec_seek_lf(s, c2) {
                    (Some(_), c3) => (Ok(resp2), c3),
                    (None, c3) => (Err(need_more(left)), c3),
                },
            },
        }
    }
}

/// Reads the lines of a reply to `EHLO` from the cursor `c` on and adds
/// what they announce to `resp`. Each line begins with the code 250 and a
/// separator: `-` if more lines follow, a space on the last line. A line
/// feed in place of the separator ends the reply as well. (The test on
/// the positions always holds.)
pub open spec fn spec_ehlo(
    s: Seq<u8>,
    c: Cursor,
    left: usize,
    resp: EhloResponseView,
    first: bool,
) -> (Result<EhloResponseView, ErrorView>, Cursor)
    decreases s.len() - c.pos,
{
    match code_scan(s, c, left, 0, 3) {
        (Err(e), c1) => (Err(e), c1),
        (Ok(code), c1) => {
            if code != 250 {
                (Err(ErrorView::InvalidResponse { code }), c1)
            } else {
                match spec_read_char(s, c1) {
                    (None, c2) => (Err(need_more(left)), c2),
                    (Some(separator), c2) => {
                        if separator == LF {
                            (Ok(resp), c2)
                        } else if separator != SP && separator != 0x2d {
                            (Err(bad_syntax("unexpected token")), c2)
                        } else {
                            match spec_ehlo_line(s, c2, left, resp, first) {
                                (Err(e), c3) => (Err(e), c3),
                                (Ok(resp2), c3) => {
                                    if separator != SP && c.pos < c3.pos <= s.len() {
                                        spec_ehlo(s, c3, left, resp2, false)
                                    } else {
                                        (Ok(resp2), c3)
                                    }
                                },
                            }
                        }
                    },
                }
            }
        },
    }
}

/// Reads the three digits of a reply code.
fn reply_code(parser: &mut Rfc5321Parser<'_>) -> (r: Result<u16, Error>)
    ensures
        final(parser).reads(
            old(parser),
            r,
            code_scan(old(parser).input(), old(parser).cursor(), old(parser).bytes_left, 0, 3),
        ),
        r is Ok ==> old(parser).bytes.pos() < final(parser).bytes.pos(),
{
    let mut code: u16 = 0;
    let mut n: u8 = 0;
    proof {
        use_type_invariant(&parser.bytes);
    }
    while n < 3
        invariant
            n <= 3,
            parser.input() == old(parser).input(),
            parser.bytes_left == old(parser).bytes_left,
            parser.stop_char == old(parser).stop_char,
            0 <= old(parser).bytes.pos() <= parser.bytes.pos() <= parser.input().len(),
            old(parser).bytes.pos() + n <= parser.bytes.pos(),
            code_scan(
                parser.input(),
                parser.cursor(),
                parser.bytes_left,
                code,
                (3 - n) as nat,
            ) == code_scan(
                old(parser).input(),
                old(parser).cursor(),
                old(parser).bytes_left,
                0,
                3,
            ),
        decreases 3 - n,
    {
        let ch = parser.read_char()?;
        if is_ascii_digit(ch) {
            let wide: u32 = code as u32 * 10 + (ch - 0x30) as u32;
            code = if wide > u16::MAX as u32 {
                u16::MAX
            } else {
                wide as u16
            };
        } else {
            return Err(Error::SyntaxError { syntax: "unexpected token" });
        }
        n = n + 1;
    }
    Ok(code)
}

/// Reads the hostname on the first line of the reply.
fn hostname_line(parser: &mut Rfc5321Parser<'_>) -> (r: Result<String, Error>)
    ensures
        final(parser).moved(
            old(parser),
            spec_hostname(
                old(parser).input(),
                old(parser).cursor(),
                old(parser).bytes_left,
                Seq::empty(),
            ).1,
        ),
        match spec_hostname(
            old(parser).input(),
            old(parser).cursor(),
            old(parser).bytes_left,
            Seq::empty(),
        ).0 {
            Ok(name) => r is Ok && r->Ok_0@ == utf8_lossy(name),
            Err(e) => r is Err && r->Err_0@ == e,
        },
        r is Ok ==> old(parser).bytes.pos() < final(parser).bytes.pos(),
{
    let mut buf: Vec<u8> = Vec::new();
    proof {
        use_type_invariant(&parser.bytes);
    }
    loop
        invariant
            parser.input() == old(parser).input(),
            parser.bytes_left == old(parser).bytes_left,
            parser.stop_char == old(parser).stop_char,
            0 <= old(parser).bytes.pos() <= parser.bytes.pos() <= parser.input().len(),
            spec_hostname(parser.input(), parser.cursor(), parser.bytes_left, buf@)
                == spec_hostname(
                old(parser).input(),
                old(parser).cursor(),
                old(parser).bytes_left,
                Seq::empty(),
            ),
        decreases parser.input().len() - parser.bytes.pos(),
    {
        let ch = parser.read_char()?;
        if ch == LF {
            return Ok(decode_lossy(buf.as_slice()));
        } else if ch == CR {
        } else if ch == SP {
            parser.seek_lf()?;
            return Ok(decode_lossy(buf.as_slice()));
        } else if buf.len() < MAX_RESPONSE_LENGTH {
            buf.push(ch);
        } else {
            return Err(Error::ResponseTooLong);
        }
    }
}

/// Reads the number that may follow a capability.
fn optional_size(parser: &mut Rfc5321Parser<'_>) -> (r: Result<usize, Error>)
    ensures
        final(parser).reads(
            old(parser),
            r,
            spec_optional_size(old(parser).input(), old(parser).cursor(), old(parser).bytes_left),
        ),
{
    proof {
        use_type_invariant(&parser.bytes);
    }
    if parser.stop_char != LF {
        let n = parser.size()?;
        if n != usize::MAX {
            Ok(n)
        } else {
            Ok(0)
        }
    } else {
        Ok(0)
    }
}

/// Reads the mechanisms that follow `AUTH`.
fn auth_list(parser: &mut Rfc5321Parser<'_>, mechanisms: u64) -> (r: Result<u64, Error>)
    ensures
        final(parser).reads(
            old(parser),
            r,
            spec_auth_list(
                old(parser).input(),
                old(parser).cursor(),
                old(parser).bytes_left,
                mechanisms,
            ),
        ),
{
    let mut all = mechanisms;
    proof {
        use_type_invariant(&parser.bytes);
    }
    while parser.stop_char != LF
        invariant
            parser.input() == old(parser).input(),
            parser.bytes_left == old(parser).bytes_left,
            0 <= old(parser).bytes.pos() <= parser.bytes.pos() <= parser.input().len(),
            spec_auth_list(parser.input(), parser.cursor(), parser.bytes_left, all)
                == spec_auth_list(
                old(parser).input(),
                old(parser).cursor(),
                old(parser).bytes_left,
                mechanisms,
            ),
        decreases parser.input().len() - parser.bytes.pos(),
    {
        match parser.mechanism()? {
            Some(bit) => {
                all = all | bit;
            },
            None => {},
        }
    }
    Ok(all)
}

/// Reads what follows `ENHANCEDSTATUSCO` and tells whether it is `DES`.
fn des(parser: &mut Rfc5321Parser<'_>) -> (r: Result<bool, Error>)
    ensures
        final(parser).reads(
            old(parser),
            r,
            spec_des(old(parser).input(), old(parser).cursor(), old(parser).bytes_left),
        ),
{
    proof {
        use_type_invariant(&parser.bytes);
    }
    if to_ascii_uppercase(parser.stop_char) != 0x44 {
        return Ok(false);
    }
    let e = parser.read_char()?;
    if e == LF {
        parser.stop_char = LF;
    }
    if to_ascii_uppercase(e) != 0x45 {
        return Ok(false);
    }
    let x = parser.read_char()?;
    if x == LF {
        parser.stop_char = LF;
    }
    Ok(to_ascii_uppercase(x) == 0x53)
}

/// Adds to `response` the capability whose keyword `key` was read last.
fn capability(parser: &mut Rfc5321Parser<'_>, key: u128, response: EhloResponse<String>) -> (r:
    Result<EhloResponse<String>, Error>)
    ensures
        final(parser).reads(
            old(parser),
            r,
            spec_capability(
                old(parser).input(),
                old(parser).cursor(),
                old(parser).bytes_left,
                key,
                response@,
            ),
        ),
{
    let mut response = response;
    proof {
        use_type_invariant(&parser.bytes);
    }
    if key == _8BITMIME {
        response.capabilities = response.capabilities | EXT_8BIT_MIME;
    } else if key == ATRN {
        response.capabilities = response.capabilities | EXT_ATRN;
    } else if key == AUTH {
        response.auth_mechanisms = auth_list(parser, response.auth_mechanisms)?;
        response.capabilities = response.capabilities | EXT_AUTH;
    } else if key == BINARYMIME {
        response.capabilities = response.capabilities | EXT_BINARY_MIME;
    } else if key == BURL {
        response.capabilities = response.capabilities | EXT_BURL;
    } else if key == CHECKPOINT {
        response.capabilities = response.capabilities | EXT_CHECKPOINT;
    } else if key == CHUNKING {
        response.capabilities = response.capabilities | EXT_CHUNKING;
    } else if key == CONNEG {
        response.capabilities = response.capabilities | EXT_CONNEG;
    } else if key == CONPERM {
        response.capabilities = response.capabilities | EXT_CONPERM;
    } else if key == DELIVERBY {
        response.deliver_by = optional_size(parser)? as u64;
        response.capabilities = response.capabilities | EXT_DELIVER_BY;
    } else if key == DSN {
        response.capabilities = response.capabilities | EXT_DSN;
    } else if key == ENHANCEDSTATUSCO {
        if des(parser)? {
            response.capabilities = response.capabilities | EXT_ENHANCED_STATUS_CODES;
        }
    } else if key == ETRN {
        response.capabilities = response.capabilities | EXT_ETRN;
    } else if key == EXPN {
        response.capabilities = response.capabilities | EXT_EXPN;
    } else if key == VRFY {
        response.capabilities = response.capabilities | EXT_VRFY;
    } else if key == FUTURERELEASE {
        let interval = optional_size(parser)?;
        let datetime = optional_size(parser)?;
        response.future_release_interval = interval as u64;
        response.future_release_datetime = datetime as u64;
        response.capabilities = response.capabilities | EXT_FUTURE_RELEASE;
    } else if key == HELP {
        response.capabilities = response.capabilities | EXT_HELP;
    } else if key == MT_PRIORITY {
        response.mt_priority = if parser.stop_char != LF {
            let name = parser.hashed_value_long()?;
            if name == STANAG4406 {
                MtPriority::Stanag4406
            } else if name == NSEP {
                MtPriority::Nsep
            } else {
                MtPriority::Mixer
            }
        } else {
            MtPriority::Mixer
        };
        response.capabilities = response.capabilities | EXT_MT_PRIORITY;
    } else if key == MTRK {
        response.capabilities = response.capabilities | EXT_MTRK;
    } else if key == NO_SOLICITING {
        response.no_soliciting = if parser.stop_char != LF {
            let keywords = parser.text()?;
            if !keywords.as_str().is_empty() {
                Some(keywords)
            } else {
                None
            }
        } else {
            None
        };
        response.capabilities = response.capabilities | EXT_NO_SOLICITING;
    } else if key == ONEX {
        response.capabilities = response.capabilities | EXT_ONEX;
    } else if key == PIPELINING {
        response.capabilities = response.capabilities | EXT_PIPELINING;
    } else if key == REQUIRETLS {
        response.capabilities = response.capabilities | EXT_REQUIRE_TLS;
    } else if key == RRVS {
        response.capabilities = response.capabilities | EXT_RRVS;
    } else if key == SIZE {
        response.size = optional_size(parser)?;
        response.capabilities = response.capabilities | EXT_SIZE;
    } else if key == SMTPUTF8 {
        response.capabilities = response.capabilities | EXT_SMTP_UTF8;
    } else if key == STARTTLS {
        response.capabilities = response.capabilities | EXT_START_TLS;
    } else if key == VERB {
        response.capabilities = response.capabilities | EXT_VERB;
    }
    Ok(response)
}

/// Reads one line of the reply after its code and separator.
fn ehlo_line(parser: &mut Rfc5321Parser<'_>, response: EhloResponse<String>, first: bool) -> (r:
    Result<EhloResponse<String>, Error>)
    ensures
        final(parser).reads(
            old(parser),
            r,
            spec_ehlo_line(
                old(parser).input(),
                old(parser).cursor(),
                old(parser).bytes_left,
                response@,
                first,
            ),
        ),
        r is Ok ==> old(parser).bytes.pos() < final(parser).bytes.pos(),
{
    let mut response = response;
    if first {
        response.hostname = hostname_line(parser)?;
        Ok(response)
    } else {
        let key = parser.hashed_value_long()?;
        let response = capability(parser, key, response)?;
        parser.seek_lf()?;
        Ok(response)
    }
}

/// Reads the lines of a reply to `EHLO`.
fn ehlo_lines(parser: &mut Rfc5321Parser<'_>) -> (r: Result<EhloResponse<String>, Error>)
    ensures
        final(parser).reads(
            old(parser),
            r,
            spec_ehlo(
                old(parser).input(),
                old(parser).cursor(),
                old(parser).bytes_left,
                ehlo_start(),
                true,
            ),
        ),
{
    let mut response = EhloResponse {
        hostname: String::new(),
        capabilities: 0,
        auth_mechanisms: 0,
        deliver_by: 0,
        future_release_interval: 0,
        future_release_datetime: 0,
        mt_priority: MtPriority::Mixer,
        no_soliciting: None,
        size: 0,
    };
    let mut first = true;
    proof {
        use_type_invariant(&parser.bytes);
    }
    loop
        invariant
            parser.input() == old(parser).input(),
            parser.bytes_left == old(parser).bytes_left,
            0 <= old(parser).bytes.pos() <= parser.bytes.pos() <= parser.input().len(),
            spec_ehlo(parser.input(), parser.cursor(), parser.bytes_left, response@, first)
                == spec_ehlo(
                old(parser).input(),
                old(parser).cursor(),
                old(parser).bytes_left,
                ehlo_start(),
                true,
            ),
        decreases parser.input().len() - parser.bytes.pos(),
    {
        let code = reply_code(parser)?;
        if code != 250 {
            return Err(Error::InvalidResponse { code });
        }
        let separator = parser.read_char()?;
        if separator == LF {
            return Ok(response);
        } else if separator != SP && separator != 0x2d {
            return Err(Error::SyntaxError { syntax: "unexpected token" });
        }
        response = ehlo_line(parser, response, first)?;
        first = false;
        if separator == SP {
            return Ok(response);
        }
    }
}

impl EhloResponse<String> {
    /// Parses a reply to `EHLO` from the bytes that `bytes` has left, and
    /// leaves `bytes` where the parsing ended.
    pub fn parse(bytes: &mut ByteIter<'_>) -> (r: Result<EhloResponse<String>, Error>)
        ensures
            final(bytes).data() == old(bytes).data(),
            ({
                let left = (old(bytes).data().len() - old(bytes).pos()) as usize;
                let out = spec_ehlo(
                    old(bytes).data(),
                    Cursor { pos: old(bytes).pos(), stop_char: 0 },
                    left,
                    ehlo_start(),
                    true,
                );
                &&& final(bytes).pos() == out.1.pos
                &&& crate::request::grammar::parsed(r, out.0)
            }),
    {
        let mut parser = Rfc5321Parser::new(*bytes);
        let r = ehlo_lines(&mut parser);
        *bytes = parser.bytes;
        r
    }
}

} // verus!
