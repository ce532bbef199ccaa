//! Receivers: they take the bytes of a connection chunk by chunk and give
//! back complete commands, message bodies and lines.

use vstd::prelude::*;
use vstd::slice::slice_to_vec;
use crate::bytes::ByteIter;
use crate::request::grammar::{complete, find_lf, need_more, parsed, spec_request, start};
use crate::{CR, Error, ErrorView, LF, Request, RequestView};

verus! {

/// The longest line that a receiver holds back.
pub const MAX_LINE_LENGTH: usize = 2048;

/// The byte `.`.
pub const DOT: u8 = 0x2e;

/// Gives back the commands of a connection one by one, whatever the chunks
/// are in which their bytes arrive.
pub struct RequestReceiver {
    /// The start of a line whose end has not arrived yet.
    pub buf: Vec<u8>,
}

/// Gathers the body of a `DATA` command up to the line with a single dot.
pub struct DataReceiver {
    crlf_dot: bool,
    last_ch: u8,
    prev_last_ch: u8,
}

/// Gathers the bytes of one `BDAT` chunk.
pub struct BdatReceiver {
    /// Whether the chunk is the last of its message.
    pub is_last: bool,
    /// The number of bytes of the chunk that have not come yet.
    pub bytes_left: usize,
}

/// Reads a message body as [`DataReceiver`] or [`BdatReceiver`] would, and
/// keeps none of it.
pub struct DummyDataReceiver {
    is_bdat: bool,
    bdat_bytes_left: usize,
    crlf_dot: bool,
    last_ch: u8,
    prev_last_ch: u8,
}

/// Reads a line and keeps none of it.
pub struct DummyLineReceiver {}

/// Gathers one line, without its carriage returns, next to a state of the
/// caller's.
pub struct LineReceiver<T> {
    /// The bytes of the line so far.
    pub buf: Vec<u8>,
    /// What the caller keeps with the line.
    pub state: T,
}

/// No line feed stands in `s`.
pub open spec fn no_lf(s: Seq<u8>) -> bool {
    forall|i: int| 0 <= i < s.len() ==> s[i] != LF
}

/// What the first line of `line` parses to; the request for more data if
/// `line` holds no line feed.
pub open spec fn first_line(line: Seq<u8>) -> Result<RequestView, ErrorView> {
    match find_lf(line, 0) {
        Some(end) => spec_request(line.subrange(0, end + 1), start(), (end + 1) as usize),
        None => Err(need_more(line.len() as usize)),
    }
}

/// What [`RequestReceiver::ingest`] does with the bytes of `data` from
/// index `pos` on while it holds back `carry`: the command or the error,
/// what it holds back afterwards, and how far it has read.
///
/// With nothing held back it parses the next line of `data`; if that line
/// is not complete, it holds back what there is of it, or fails if that is
/// 2048 bytes or more. With bytes held back it adds to them up to the next
/// line feed and parses the line they make, or fails at the byte with
/// which it holds 2048 bytes and no line feed has come. (Where a caller
/// has put 2048 bytes or more into what is held back, only a line feed
/// ends the line.)
pub open spec fn spec_ingest(carry: Seq<u8>, data: Seq<u8>, pos: int) -> (
    Result<RequestView, ErrorView>,
    Seq<u8>,
    int,
) {
    let rest = data.skip(pos);
    if carry.len() == 0 {
        match find_lf(data, pos) {
            Some(end) => (
                spec_request(data.subrange(pos, end + 1), start(), (end + 1 - pos) as usize),
                Seq::empty(),
                end + 1,
            ),
            None => {
                if rest.len() >= MAX_LINE_LENGTH {
                    (Err(ErrorView::ResponseTooLong), Seq::empty(), data.len() as int)
                } else {
                    (Err(need_more(0)), rest, data.len() as int)
                }
            },
        }
    } else {
        let room = MAX_LINE_LENGTH - carry.len();
        match find_lf(data, pos) {
            Some(end) if room <= 0 || end < pos + room => (
                first_line(carry + data.subrange(pos, end + 1)),
                Seq::empty(),
                end + 1,
            ),
            _ => {
                if room >= 1 && pos + room <= data.len() {
                    (Err(ErrorView::ResponseTooLong), Seq::empty(), pos + room)
                } else {
                    (Err(need_more(0)), carry + rest, data.len() as int)
                }
            },
        }
    }
}

/// What a receiver of a message body knows of the bytes that came before:
/// the last two of them, zero where there is none, and whether a dot at
/// the start of a line is under way.
pub struct DataState {
    pub crlf_dot: bool,
    pub last_ch: u8,
    pub prev_last_ch: u8,
}

/// The state before any byte has come.
pub open spec fn data_start() -> DataState {
    DataState { crlf_dot: false, last_ch: 0, prev_last_ch: 0 }
}

/// `ch` is a dot at the start of a line that a carriage return and a line
/// feed have ended.
pub open spec fn is_leading_dot(st: DataState, ch: u8) -> bool {
    ch == DOT && st.last_ch == LF && st.prev_last_ch == CR
}

/// `ch` ends the body: it is the line feed of a line that holds one dot.
pub open spec fn data_ends(st: DataState, ch: u8) -> bool {
    ch == LF && st.crlf_dot && st.last_ch == CR
}

/// The state after the byte `ch`. A leading dot may be the dot of the last
/// line as long as nothing but one carriage return follows it.
pub open spec fn data_next(st: DataState, ch: u8) -> DataState {
    DataState {
        crlf_dot: if is_leading_dot(st, ch) {
            true
        } else if ch == CR {
            st.crlf_dot && st.last_ch == DOT
        } else {
            false
        },
        last_ch: ch,
        prev_last_ch: st.last_ch,
    }
}

/// `body` without its last three bytes, or without any if it has fewer.
pub open spec fn without_line_end(body: Seq<u8>) -> Seq<u8> {
    body.subrange(
        0,
        if body.len() >= 3 {
            body.len() - 3
        } else {
            0
        },
    )
}

/// Reads the bytes of `s` from index `i` on as the body of a message:
/// every byte but a leading dot is appended to `body`, up to the byte that
/// ends the body, at which the line end before the dot and the carriage
/// return after it are taken back. Gives whether the body has ended, the
/// state, the body, and the index up to which `s` was read.
pub open spec fn data_scan(st: DataState, body: Seq<u8>, s: Seq<u8>, i: int) -> (
    bool,
    DataState,
    Seq<u8>,
    int,
)
    decreases s.len() - i,
{
    if i < 0 || i >= s.len() {
        (false, st, body, s.len() as int)
    } else if data_ends(st, s[i]) {
        (true, st, without_line_end(body), i + 1)
    } else {
        data_scan(
            data_next(st, s[i]),
            if is_leading_dot(st, s[i]) {
                body
            } else {
                body.push(s[i])
            },
            s,
            i + 1,
        )
    }
}

/// The number of bytes that a chunk of `left` bytes takes from `s` at
/// index `pos`.
pub open spec fn chunk_take(left: usize, s: Seq<u8>, pos: int) -> int {
    if left <= s.len() - pos {
        left as int
    } else {
        s.len() - pos
    }
}

/// Reads the bytes of `s` from index `i` on as a line: every byte but a
/// carriage return is appended to `line` while it holds fewer than 2048,
/// up to the first line feed. Gives whether the line has ended, the line,
/// and the index up to which `s` was read.
pub open spec fn line_scan(line: Seq<u8>, s: Seq<u8>, i: int) -> (bool, Seq<u8>, int)
    decreases s.len() - i,
{
    if i < 0 || i >= s.len() {
        (false, line, s.len() as int)
    } else if s[i] == LF {
        (true, line, i + 1)
    } else if s[i] == CR || line.len() >= MAX_LINE_LENGTH {
        line_scan(line, s, i + 1)
    } else {
        line_scan(line.push(s[i]), s, i + 1)
    }
}

/// Where no line feed is found from index `i` on, none stands there; where
/// one is found, it is the first.
pub proof fn lemma_find_lf(s: Seq<u8>, i: int)
    requires
        0 <= i <= s.len(),
    ensures
        match find_lf(s, i) {
            None => forall|j: int| i <= j < s.len() ==> s[j] != LF,
            Some(end) => i <= end < s.len() && s[end] == LF && forall|j: int|
                i <= j < end ==> s[j] != LF,
        },
    decreases s.len() - i,
{
    if i < s.len() && s[i] != LF {
        lemma_find_lf(s, i + 1);
    }
}

/// A line that is refused leaves the receiver at the start of the next
/// line: whenever [`RequestReceiver::ingest`] gives a command, or an error
/// other than the request for more data and the error for a line that is
/// too long, it has read through a line feed and no further, and holds
/// nothing back. The line that it read, with what it held back before, has
/// at most 2048 bytes if it held back anything.
pub proof fn lemma_ingest_ends_line(carry: Seq<u8>, data: Seq<u8>, pos: int)
    requires
        0 <= pos <= data.len(),
        carry.len() < MAX_LINE_LENGTH,
        no_lf(carry),
    ensures
        ({
            let step = spec_ingest(carry, data, pos);
            let line_read = step.0 is Ok || !(step.0->Err_0 is NeedsMoreData || step.0->Err_0
                is ResponseTooLong);
            line_read ==> {
                &&& pos < step.2 <= data.len()
                &&& data[step.2 - 1] == LF
                &&& forall|j: int| pos <= j < step.2 - 1 ==> data[j] != LF
                &&& step.1.len() == 0
                &&& carry.len() > 0 ==> carry.len() + (step.2 - pos) <= MAX_LINE_LENGTH
            }
        }),
{
    lemma_find_lf(data, pos);
}

/// Reading a line from `b` at index `k` is reading it from `a + b` at
/// index `a.len() + k`.
proof fn lemma_line_shift(line: Seq<u8>, a: Seq<u8>, b: Seq<u8>, k: int)
    requires
        0 <= k <= b.len(),
    ensures
        line_scan(line, a + b, a.len() + k) == (
            line_scan(line, b, k).0,
            line_scan(line, b, k).1,
            a.len() + line_scan(line, b, k).2,
        ),
    decreases b.len() - k,
{
    if k < b.len() {
        let ch = b[k];
        assert((a + b)[a.len() + k] == ch);
        if ch != LF {
            if ch == CR || line.len() >= MAX_LINE_LENGTH {
                lemma_line_shift(line, a, b, k + 1);
            } else {
                lemma_line_shift(line.push(ch), a, b, k + 1);
            }
        }
    }
}

/// Reading a line from `a + b` at an index in `a` is reading it from `a`
/// and, if it has not ended, going on in `b`.
proof fn lemma_line_split(line: Seq<u8>, a: Seq<u8>, b: Seq<u8>, i: int)
    requires
        0 <= i <= a.len(),
    ensures
        line_scan(line, a + b, i) == (if line_scan(line, a, i).0 {
            line_scan(line, a, i)
        } else {
            (
                line_scan(line_scan(line, a, i).1, b, 0).0,
                line_scan(line_scan(line, a, i).1, b, 0).1,
                a.len() + line_scan(line_scan(line, a, i).1, b, 0).2,
            )
        }),
    decreases a.len() - i,
{
    if i < a.len() {
        let ch = a[i];
        assert((a + b)[i] == ch);
        if ch != LF {
            if ch == CR || line.len() >= MAX_LINE_LENGTH {
                lemma_line_split(line, a, b, i + 1);
            } else {
                lemma_line_split(line.push(ch), a, b, i + 1);
            }
        }
    } else {
        lemma_line_shift(line, a, b, 0);
    }
}

/// A line may come in any chunks: a receiver that holds `line` and is
/// handed `a` and then, if the line has not ended, `b`, gives what it would
/// give if it were handed `a + b` at once.
pub proof fn lemma_line_chunks(line: Seq<u8>, a: Seq<u8>, b: Seq<u8>)
    ensures
        line_scan(line, a + b, 0) == (if line_scan(line, a, 0).0 {
            line_scan(line, a, 0)
        } else {
            (
                line_scan(line_scan(line, a, 0).1, b, 0).0,
                line_scan(line_scan(line, a, 0).1, b, 0).1,
                a.len() + line_scan(line_scan(line, a, 0).1, b, 0).2,
            )
        }),
{
    lemma_line_split(line, a, b, 0);
}

impl Default for RequestReceiver {
    fn default() -> (r: Self)
        ensures
            r.buf@.len() == 0,
            r.wf(),
    {
        RequestReceiver { buf: Vec::new() }
    }
}

impl RequestReceiver {
    /// What is held back is less than a full line and has no line feed.
    pub open spec fn wf(&self) -> bool {
        self.buf@.len() < MAX_LINE_LENGTH && no_lf(self.buf@)
    }

    /// Reads on in `bytes` and returns the next command, or asks for more
    /// data when `bytes` ends inside a line, which it then holds back. What
    /// it holds back stays less than a full line, without a line feed.
    pub fn ingest(&mut self, bytes: &mut ByteIter<'_>) -> (r: Result<Request<String>, Error>)
        ensures
            old(self).wf() ==> final(self).wf(),
            final(bytes).data() == old(bytes).data(),
            parsed(r, spec_ingest(old(self).buf@, old(bytes).data(), old(bytes).pos()).0),
            final(self).buf@ == spec_ingest(old(self).buf@, old(bytes).data(), old(bytes).pos()).1,
            final(bytes).pos() == spec_ingest(old(self).buf@, old(bytes).data(), old(bytes).pos()).2,
    {
        proof {
            use_type_invariant(&*bytes);
            lemma_find_lf(bytes.data(), bytes.pos());
        }
        if self.buf.len() == 0 {
            let rest = bytes.as_slice();
            match Request::parse(bytes) {
                Err(Error::NeedsMoreData { bytes_left }) => {
                    if bytes_left > 0 {
                        if bytes_left < MAX_LINE_LENGTH {
                            self.buf = slice_to_vec(rest);
                        } else {
                            return Err(Error::ResponseTooLong);
                        }
                    }
                    assert(self.buf@ =~= old(bytes).data().skip(old(bytes).pos()));
                },
                result => {
                    return result;
                },
            }
        } else {
            let ghost first = bytes.pos();
            let ghost carry = self.buf@;
            loop
                invariant
                    bytes.data() == old(bytes).data(),
                    first == old(bytes).pos(),
                    carry == old(self).buf@,
                    0 < carry.len(),
                    0 <= first <= bytes.pos() <= bytes.data().len(),
                    self.buf@ == carry + bytes.data().subrange(first, bytes.pos()),
                    carry.len() >= MAX_LINE_LENGTH || self.buf@.len() < MAX_LINE_LENGTH,
                    forall|j: int| first <= j < bytes.pos() ==> bytes.data()[j] != LF,
                    find_lf(bytes.data(), bytes.pos()) == find_lf(bytes.data(), first),
                decreases bytes.data().len() - bytes.pos(),
            {
                let ghost before = bytes.pos();
                match bytes.next() {
                    Some(ch) => {
                        self.buf.push(ch);
                        assert(self.buf@ =~= carry + bytes.data().subrange(first, bytes.pos()));
                        if ch == LF {
                            let mut line = ByteIter::new(self.buf.as_slice());
                            let result = Request::parse(&mut line);
                            self.buf.clear();
                            return result;
                        } else if self.buf.len() == MAX_LINE_LENGTH {
                            proof {
                                lemma_find_lf(bytes.data(), bytes.pos());
                            }
                            self.buf.clear();
                            return Err(Error::ResponseTooLong);
                        }
                    },
                    None => {
                        assert(bytes.data().subrange(first, bytes.pos()) =~= bytes.data().skip(
                            first,
                        ));
                        return Err(Error::NeedsMoreData { bytes_left: 0 });
                    },
                }
            }
        }
        Err(Error::NeedsMoreData { bytes_left: 0 })
    }
}

impl View for DataReceiver {
    type V = DataState;

    closed spec fn view(&self) -> DataState {
        DataState {
            crlf_dot: self.crlf_dot,
            last_ch: self.last_ch,
            prev_last_ch: self.prev_last_ch,
        }
    }
}

impl DataReceiver {
    /// A receiver at the start of a body.
    pub fn new() -> (r: Self)
        ensures
            r@ == data_start(),
    {
        DataReceiver { crlf_dot: false, last_ch: 0, prev_last_ch: 0 }
    }

    /// Reads on in `bytes` and appends the body to `buf`. Returns `true`
    /// once the line with a single dot has come, and leaves `bytes` just
    /// after it; `false` when `bytes` ends before that.
    pub fn ingest(&mut self, bytes: &mut ByteIter<'_>, buf: &mut Vec<u8>) -> (r: bool)
        ensures
            final(bytes).data() == old(bytes).data(),
            (r, final(self)@, final(buf)@, final(bytes).pos()) == data_scan(
                old(self)@,
                old(buf)@,
                old(bytes).data(),
                old(bytes).pos(),
            ),
    {
        proof {
            use_type_invariant(&*bytes);
        }
        loop
            invariant
                bytes.data() == old(bytes).data(),
                0 <= bytes.pos() <= bytes.data().len(),
                data_scan(self@, buf@, bytes.data(), bytes.pos()) == data_scan(
                    old(self)@,
                    old(buf)@,
                    old(bytes).data(),
                    old(bytes).pos(),
                ),
            decreases bytes.data().len() - bytes.pos(),
        {
            match bytes.next() {
                Some(ch) => {
                    if ch == DOT && self.last_ch == LF && self.prev_last_ch == CR {
                        self.crlf_dot = true;
                    } else if ch == LF && self.crlf_dot && self.last_ch == CR {
                        let keep = buf.len().saturating_sub(3);
                        buf.truncate(keep);
                        return true;
                    } else if ch == CR {
                        buf.push(ch);
                        self.crlf_dot = self.crlf_dot && self.last_ch == DOT;
                    } else {
                        buf.push(ch);
                        self.crlf_dot = false;
                    }
                    self.prev_last_ch = self.last_ch;
                    self.last_ch = ch;
                },
                None => {
                    return false;
                },
            }
        }
    }
}

impl BdatReceiver {
    /// A receiver for a chunk of `chunk_size` bytes.
    pub fn new(chunk_size: usize, is_last: bool) -> (r: Self)
        ensures
            r.bytes_left == chunk_size,
            r.is_last == is_last,
    {
        BdatReceiver { bytes_left: chunk_size, is_last }
    }

    /// Appends to `buf` the bytes of `bytes` that belong to the chunk, and
    /// returns whether the chunk is complete.
    pub fn ingest(&mut self, bytes: &mut ByteIter<'_>, buf: &mut Vec<u8>) -> (r: bool)
        ensures
            final(bytes).data() == old(bytes).data(),
            final(self).is_last == old(self).is_last,
            final(bytes).pos() == old(bytes).pos() + chunk_take(
                old(self).bytes_left,
                old(bytes).data(),
                old(bytes).pos(),
            ),
            final(buf)@ == old(buf)@ + old(bytes).data().subrange(
                old(bytes).pos(),
                final(bytes).pos(),
            ),
            final(self).bytes_left == old(self).bytes_left - (final(bytes).pos() - old(bytes).pos()),
            r == (final(self).bytes_left == 0),
    {
        proof {
            use_type_invariant(&*bytes);
            assert(old(buf)@ =~= old(buf)@ + old(bytes).data().subrange(
                old(bytes).pos(),
                old(bytes).pos(),
            ));
        }
        while self.bytes_left > 0
            invariant
                bytes.data() == old(bytes).data(),
                self.is_last == old(self).is_last,
                0 <= old(bytes).pos() <= bytes.pos() <= bytes.data().len(),
                self.bytes_left == old(self).bytes_left - (bytes.pos() - old(bytes).pos()),
                buf@ == old(buf)@ + old(bytes).data().subrange(old(bytes).pos(), bytes.pos()),
            decreases self.bytes_left,
        {
            match bytes.next() {
                Some(ch) => {
                    buf.push(ch);
                    self.bytes_left = self.bytes_left - 1;
                    assert(buf@ =~= old(buf)@ + old(bytes).data().subrange(
                        old(bytes).pos(),
                        bytes.pos(),
                    ));
                },
                None => {
                    return false;
                },
            }
        }
        true
    }
}

/// What a [`DummyDataReceiver`] is reading.
pub enum DummyState {
    /// A `BDAT` chunk with so many bytes to come.
    Bdat { bytes_left: usize },
    /// The body of a `DATA` command.
    Data { state: DataState },
}

impl View for DummyDataReceiver {
    type V = DummyState;

    closed spec fn view(&self) -> DummyState {
        if self.is_bdat {
            DummyState::Bdat { bytes_left: self.bdat_bytes_left }
        } else {
            DummyState::Data {
                state: DataState {
                    crlf_dot: self.crlf_dot,
                    last_ch: self.last_ch,
                    prev_last_ch: self.prev_last_ch,
                },
            }
        }
    }
}

impl DummyDataReceiver {
    /// A receiver that drops a chunk of `chunk_size` bytes.
    pub fn new_bdat(chunk_size: usize) -> (r: Self)
        ensures
            r@ == (DummyState::Bdat { bytes_left: chunk_size }),
    {
        DummyDataReceiver {
            bdat_bytes_left: chunk_size,
            is_bdat: true,
            crlf_dot: false,
            last_ch: 0,
            prev_last_ch: 0,
        }
    }

    /// A receiver that drops the rest of the body that `data` is reading.
    pub fn new_data(data: &DataReceiver) -> (r: Self)
        ensures
            r@ == (DummyState::Data { state: data@ }),
    {
        DummyDataReceiver {
            is_bdat: false,
            bdat_bytes_left: 0,
            crlf_dot: data.crlf_dot,
            last_ch: data.last_ch,
            prev_last_ch: data.prev_last_ch,
        }
    }

    /// Reads on in `bytes` as the receiver it stands for would, and
    /// returns whether the chunk or the body has ended.
    pub fn ingest(&mut self, bytes: &mut ByteIter<'_>) -> (r: bool)
        ensures
            final(bytes).data() == old(bytes).data(),
            match old(self)@ {
                DummyState::Bdat { bytes_left } => {
                    let taken = chunk_take(bytes_left, old(bytes).data(), old(bytes).pos());
                    &&& final(bytes).pos() == old(bytes).pos() + taken
                    &&& final(self)@ == (DummyState::Bdat {
                        bytes_left: (bytes_left - taken) as usize,
                    })
                    &&& r == (bytes_left == taken)
                },
                DummyState::Data { state } => {
                    let end = data_scan(
                        state,
                        Seq::empty(),
                        old(bytes).data(),
                        old(bytes).pos(),
                    );
                    &&& r == end.0
                    &&& final(self)@ == (DummyState::Data { state: end.1 })
                    &&& final(bytes).pos() == end.3
                },
            },
    {
        proof {
            use_type_invariant(&*bytes);
        }
        if !self.is_bdat {
            let ghost mut body: Seq<u8> = Seq::empty();
            let ghost first = DataState {
                crlf_dot: self.crlf_dot,
                last_ch: self.last_ch,
                prev_last_ch: self.prev_last_ch,
            };
            loop
                invariant
                    bytes.data() == old(bytes).data(),
                    !self.is_bdat,
                    old(self)@ == (DummyState::Data { state: first }),
                    0 <= bytes.pos() <= bytes.data().len(),
                    ({
                        let now = data_scan(
                            DataState {
                                crlf_dot: self.crlf_dot,
                                last_ch: self.last_ch,
                                prev_last_ch: self.prev_last_ch,
                            },
                            body,
                            bytes.data(),
                            bytes.pos(),
                        );
                        let end = data_scan(
                            first,
                            Seq::empty(),
                            old(bytes).data(),
                            old(bytes).pos(),
                        );
                        now.0 == end.0 && now.1 == end.1 && now.3 == end.3
                    }),
                decreases bytes.data().len() - bytes.pos(),
            {
                match bytes.next() {
                    Some(ch) => {
                        if ch == DOT && self.last_ch == LF && self.prev_last_ch == CR {
                            self.crlf_dot = true;
                        } else if ch == LF && self.crlf_dot && self.last_ch == CR {
                            return true;
                        } else if ch == CR {
                            self.crlf_dot = self.crlf_dot && self.last_ch == DOT;
                            proof {
                                body = body.push(ch);
                            }
                        } else {
                            self.crlf_dot = false;
                            proof {
                                body = body.push(ch);
                            }
                        }
                        self.prev_last_ch = self.last_ch;
                        self.last_ch = ch;
                    },
                    None => {
                        return false;
                    },
                }
            }
        } else {
            while self.bdat_bytes_left > 0
                invariant
                    bytes.data() == old(bytes).data(),
                    self.is_bdat,
                    old(self)@ is Bdat,
                    0 <= old(bytes).pos() <= bytes.pos() <= bytes.data().len(),
                    self.bdat_bytes_left == old(self)@->bytes_left - (bytes.pos() - old(bytes).pos()),
                decreases self.bdat_bytes_left,
            {
                match bytes.next() {
                    Some(_) => {
                        self.bdat_bytes_left = self.bdat_bytes_left - 1;
                    },
                    None => {
                        return false;
                    },
                }
            }
            true
        }
    }
}

impl<T: Default> Default for LineReceiver<T> {
    fn default() -> (r: Self)
        ensures
            r.buf@.len() == 0,
            call_ensures(T::default, (), r.state),
    {
        LineReceiver { buf: Vec::new(), state: T::default() }
    }
}

impl<T> LineReceiver<T> {
    /// A receiver at the start of a line, with the caller's `state`.
    pub fn new(state: T) -> (r: Self)
        ensures
            r.buf@.len() == 0,
            r.state == state,
    {
        LineReceiver { buf: Vec::with_capacity(32), state }
    }

    /// Reads on in `bytes` and appends the line to `self.buf`, without its
    /// carriage returns and up to 2048 bytes of it. Returns `true` once the
    /// line feed has come, and leaves `bytes` just after it.
    pub fn ingest(&mut self, bytes: &mut ByteIter<'_>) -> (r: bool)
        ensures
            final(bytes).data() == old(bytes).data(),
            final(self).state == old(self).state,
            (r, final(self).buf@, final(bytes).pos()) == line_scan(
                old(self).buf@,
                old(bytes).data(),
                old(bytes).pos(),
            ),
            old(self).buf@.len() <= MAX_LINE_LENGTH ==> final(self).buf@.len() <= MAX_LINE_LENGTH,
    {
        proof {
            use_type_invariant(&*bytes);
        }
        loop
            invariant
                bytes.data() == old(bytes).data(),
                self.state == old(self).state,
                0 <= bytes.pos() <= bytes.data().len(),
                line_scan(self.buf@, bytes.data(), bytes.pos()) == line_scan(
                    old(self).buf@,
                    old(bytes).data(),
                    old(bytes).pos(),
                ),
                old(self).buf@.len() <= MAX_LINE_LENGTH ==> self.buf@.len() <= MAX_LINE_LENGTH,
            decreases bytes.data().len() - bytes.pos(),
        {
            match bytes.next() {
                Some(ch) => {
                    if ch == LF {
                        return true;
                    } else if ch == CR {
                    } else if self.buf.len() < MAX_LINE_LENGTH {
                        self.buf.push(ch);
                    }
                },
                None => {
                    return false;
                },
            }
        }
    }
}

impl Default for DummyLineReceiver {
    fn default() -> Self {
        DummyLineReceiver {  }
    }
}

impl DummyLineReceiver {
    /// Reads on in `bytes` through the next line feed, and returns whether
    /// there was one.
    pub fn ingest(&mut self, bytes: &mut ByteIter<'_>) -> (r: bool)
        ensures
            final(bytes).data() == old(bytes).data(),
            match find_lf(old(bytes).data(), old(bytes).pos()) {
                Some(end) => r && final(bytes).pos() == end + 1,
                None => !r && final(bytes).pos() == old(bytes).data().len(),
            },
    {
        proof {
            use_type_invariant(&*bytes);
        }
        loop
            invariant
                bytes.data() == old(bytes).data(),
                0 <= bytes.pos() <= bytes.data().len(),
                find_lf(bytes.data(), bytes.pos()) == find_lf(
                    old(bytes).data(),
                    old(bytes).pos(),
                ),
            decreases bytes.data().len() - bytes.pos(),
        {
            match bytes.next() {
                Some(ch) => {
                    if ch == LF {
                        return true;
                    }
                },
                None => {
                    return false;
                },
            }
        }
    }
}

} // verus!
