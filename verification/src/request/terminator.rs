//! The end of a message body: a receiver takes a byte as the end of the
//! body exactly where the bytes so far end with a line that holds nothing
//! but a dot, with a carriage return and a line feed before and after it.

use vstd::prelude::*;
use crate::request::receiver::{
    data_ends, data_next, data_scan, data_start, DataState, DOT, is_leading_dot,
};
use crate::{CR, LF};

verus! {

/// The five bytes that end a message body.
pub open spec fn terminator() -> Seq<u8> {
    seq![CR, LF, DOT, CR, LF]
}

/// Whether `s` ends with the bytes of `suffix`.
pub open spec fn ends_with(s: Seq<u8>, suffix: Seq<u8>) -> bool {
    s.len() >= suffix.len() && s.subrange(s.len() - suffix.len(), s.len() as int) == suffix
}

/// The state of a receiver that has taken the bytes of `fed` and has not
/// taken any of them as the end of the body.
pub open spec fn data_state(fed: Seq<u8>) -> DataState
    decreases fed.len(),
{
    if fed.len() == 0 {
        data_start()
    } else {
        data_next(data_state(fed.drop_last()), fed.last())
    }
}

/// `s` ends with a carriage return, a line feed and a dot.
spec fn ends_crlf_dot(s: Seq<u8>) -> bool {
    s.len() >= 3 && s[s.len() - 3] == CR && s[s.len() - 2] == LF && s[s.len() - 1] == DOT
}

/// `s` ends with a carriage return, a line feed, a dot and a carriage
/// return.
spec fn ends_crlf_dot_cr(s: Seq<u8>) -> bool {
    s.len() >= 4 && s[s.len() - 4] == CR && s[s.len() - 3] == LF && s[s.len() - 2] == DOT && s[s.len()
        - 1] == CR
}

/// `s` ends with the five bytes that end a body.
spec fn ends_terminator(s: Seq<u8>) -> bool {
    s.len() >= 5 && s[s.len() - 5] == CR && s[s.len() - 4] == LF && s[s.len() - 3] == DOT && s[s.len()
        - 2] == CR && s[s.len() - 1] == LF
}

/// Ending with the terminator, byte by byte.
proof fn lemma_ends_terminator(s: Seq<u8>)
    ensures
        ends_with(s, terminator()) <==> ends_terminator(s),
{
    let t = terminator();
    if s.len() >= 5 {
        let tail = s.subrange(s.len() - 5, s.len() as int);
        if ends_terminator(s) {
            assert(tail =~= t);
        }
        if tail == t {
            assert(tail[0] == t[0] && tail[1] == t[1] && tail[2] == t[2] && tail[3] == t[3]
                && tail[4] == t[4]);
        }
    }
}

/// What the state of a receiver says of the bytes that it has taken: it
/// holds the last two of them, and a dot is under way exactly where they
/// end with a dot at the start of a line, or with one carriage return
/// after such a dot.
proof fn lemma_data_state(fed: Seq<u8>)
    ensures
        data_state(fed).last_ch == (if fed.len() >= 1 {
            fed[fed.len() - 1]
        } else {
            0u8
        }),
        data_state(fed).prev_last_ch == (if fed.len() >= 2 {
            fed[fed.len() - 2]
        } else {
            0u8
        }),
        data_state(fed).crlf_dot <==> ends_crlf_dot(fed) || ends_crlf_dot_cr(fed),
    decreases fed.len(),
{
    if fed.len() > 0 {
        let before = fed.drop_last();
        lemma_data_state(before);
        assert(forall|i: int| 0 <= i < before.len() ==> before[i] == fed[i]);
    }
}

/// A byte is taken as the end of the body exactly where the bytes up to
/// and with it end with the terminator.
pub proof fn lemma_terminator(fed: Seq<u8>, ch: u8)
    ensures
        data_ends(data_state(fed), ch) <==> ends_with(fed.push(ch), terminator()),
{
    lemma_data_state(fed);
    lemma_ends_terminator(fed.push(ch));
    let all = fed.push(ch);
    assert(forall|i: int| 0 <= i < fed.len() ==> all[i] == fed[i]);
}

/// From a state that stands for the bytes of `s` before index `i`, none of
/// which ended the body, the scan ends the body at the first byte at which
/// the bytes so far end with the terminator.
proof fn lemma_scan_from(s: Seq<u8>, body: Seq<u8>, i: int)
    requires
        0 <= i <= s.len(),
        forall|j: int| 0 <= j <= i ==> !ends_with(#[trigger] s.take(j), terminator()),
    ensures
        ({
            let end = data_scan(data_state(s.take(i)), body, s, i);
            &&& i <= end.3 <= s.len()
            &&& end.0 ==> ends_with(s.take(end.3), terminator())
            &&& !end.0 ==> end.3 == s.len()
            &&& forall|j: int|
                0 <= j <= s.len() && (j < end.3 || !end.0) ==> !ends_with(
                    #[trigger] s.take(j),
                    terminator(),
                )
        }),
    decreases s.len() - i,
{
    if i < s.len() {
        let fed = s.take(i);
        let st = data_state(fed);
        lemma_terminator(fed, s[i]);
        assert(s.take(i + 1) =~= fed.push(s[i]));
        assert(s.take(i + 1).drop_last() =~= fed);
        if !data_ends(st, s[i]) {
            let next_body = if is_leading_dot(st, s[i]) {
                body
            } else {
                body.push(s[i])
            };
            assert forall|j: int| 0 <= j <= i + 1 implies !ends_with(
                #[trigger] s.take(j),
                terminator(),
            ) by {
                if j == i + 1 {
                } else {
                    assert(!ends_with(s.take(j), terminator()));
                }
            }
            lemma_scan_from(s, next_body, i + 1);
        }
    }
}

/// The terminator is recognised exactly where it stands: a receiver at the
/// start of a body that is handed the bytes of `s` ends the body at the
/// first byte at which the bytes so far end with a carriage return, a line
/// feed, a dot, a carriage return and a line feed, and reads no further.
/// Where no byte of `s` completes these five, it reads all of `s` and the
/// body has not ended.
pub proof fn lemma_data_terminator(s: Seq<u8>, body: Seq<u8>)
    ensures
        ({
            let end = data_scan(data_start(), body, s, 0);
            &&& 0 <= end.3 <= s.len()
            &&& end.0 ==> ends_with(s.take(end.3), terminator())
            &&& !end.0 ==> end.3 == s.len()
            &&& forall|j: int|
                0 <= j <= s.len() && (j < end.3 || !end.0) ==> !ends_with(
                    #[trigger] s.take(j),
                    terminator(),
                )
        }),
{
    assert(s.take(0) =~= Seq::<u8>::empty());
    assert forall|j: int| 0 <= j <= 0 implies !ends_with(#[trigger] s.take(j), terminator()) by {
        assert(s.take(0).len() == 0);
    }
    lemma_scan_from(s, body, 0);
}

/// Scanning `b` from index `k` is scanning `a + b` from index
/// `a.len() + k`.
proof fn lemma_scan_shift(st: DataState, body: Seq<u8>, a: Seq<u8>, b: Seq<u8>, k: int)
    requires
        0 <= k <= b.len(),
    ensures
        ({
            let whole = data_scan(st, body, a + b, a.len() + k);
            let part = data_scan(st, body, b, k);
            whole == (part.0, part.1, part.2, a.len() + part.3)
        }),
    decreases b.len() - k,
{
    if k < b.len() {
        let ch = b[k];
        assert((a + b)[a.len() + k] == ch);
        if !data_ends(st, ch) {
            lemma_scan_shift(
                data_next(st, ch),
                if is_leading_dot(st, ch) {
                    body
                } else {
                    body.push(ch)
                },
                a,
                b,
                k + 1,
            );
        }
    }
}

/// Scanning `a + b` from an index in `a` is scanning `a` from there and,
/// if the body has not ended, going on in `b`.
proof fn lemma_scan_split(st: DataState, body: Seq<u8>, a: Seq<u8>, b: Seq<u8>, i: int)
    requires
        0 <= i <= a.len(),
    ensures
        ({
            let whole = data_scan(st, body, a + b, i);
            let first = data_scan(st, body, a, i);
            let second = data_scan(first.1, first.2, b, 0);
            if first.0 {
                whole == first
            } else {
                whole == (second.0, second.1, second.2, a.len() + second.3)
            }
        }),
    decreases a.len() - i,
{
    if i < a.len() {
        let ch = a[i];
        assert((a + b)[i] == ch);
        if !data_ends(st, ch) {
            lemma_scan_split(
                data_next(st, ch),
                if is_leading_dot(st, ch) {
                    body
                } else {
                    body.push(ch)
                },
                a,
                b,
                i + 1,
            );
        }
    } else {
        lemma_scan_shift(st, body, a, b, 0);
    }
}

/// A body may come in any chunks: a receiver in the state `st` that is
/// handed `a` and then, if the body has not ended, `b`, ends the body
/// where it would if it were handed `a + b` at once, with the same body.
pub proof fn lemma_data_chunks(st: DataState, body: Seq<u8>, a: Seq<u8>, b: Seq<u8>)
    ensures
        ({
            let whole = data_scan(st, body, a + b, 0);
            let first = data_scan(st, body, a, 0);
            let second = data_scan(first.1, first.2, b, 0);
            if first.0 {
                whole == first
            } else {
                whole == (second.0, second.1, second.2, a.len() + second.3)
            }
        }),
{
    lemma_scan_split(st, body, a, b, 0);
}


} // verus!
