//! Chunking does not matter: a [`RequestReceiver`] gives the same commands
//! for a stream of bytes however the stream is cut into chunks.
//!
//! [`RequestReceiver`]: crate::request::receiver::RequestReceiver

use vstd::prelude::*;
use crate::request::complete::{asks_more, lemma_request_complete};
use crate::request::grammar::{find_lf, spec_request, start};
use crate::request::receiver::{lemma_find_lf, MAX_LINE_LENGTH, no_lf, spec_ingest};
use crate::{ErrorView, LF, RequestView};

verus! {

/// What parsing a line gives.
pub type Outcome = Result<RequestView, ErrorView>;

/// What the bytes of `s` from index `pos` through the line feed at index
/// `end` parse to.
pub open spec fn line_at(s: Seq<u8>, pos: int, end: int) -> Outcome {
    spec_request(s.subrange(pos, end + 1), start(), (end + 1 - pos) as usize)
}

/// The commands on the lines of `s` from index `pos` on, in order, and the
/// bytes that follow the last line feed.
pub open spec fn run(s: Seq<u8>, pos: int) -> (Seq<Outcome>, Seq<u8>)
    decreases s.len() - pos,
{
    match find_lf(s, pos) {
        Some(end) if pos <= end < s.len() => {
            let next = run(s, end + 1);
            (seq![line_at(s, pos, end)] + next.0, next.1)
        },
        _ => (Seq::empty(), s.skip(pos)),
    }
}

/// A stream that a receiver takes in any chunks: from index `pos` on, each
/// line has at most 2048 bytes with its line feed, and fewer than 2048
/// bytes follow the last line feed.
pub open spec fn valid_from(s: Seq<u8>, pos: int) -> bool
    decreases s.len() - pos,
{
    match find_lf(s, pos) {
        Some(end) => {
            &&& pos <= end < s.len()
            &&& end + 1 - pos <= MAX_LINE_LENGTH
            &&& valid_from(s, end + 1)
        },
        None => s.len() - pos < MAX_LINE_LENGTH,
    }
}

/// What a caller gets that hands the bytes of `data` from index `pos` on
/// to a receiver that holds back `carry`, and calls it again until it asks
/// for more data: the commands and errors in order, and what the receiver
/// holds back in the end.
pub open spec fn feed(carry: Seq<u8>, data: Seq<u8>, pos: int) -> (Seq<Outcome>, Seq<u8>)
    decreases data.len() - pos,
{
    let step = spec_ingest(carry, data, pos);
    if asks_more(step.0) || step.2 <= pos || step.2 > data.len() {
        (Seq::empty(), step.1)
    } else {
        let next = feed(step.1, data, step.2);
        (seq![step.0] + next.0, next.1)
    }
}

/// What a caller gets that hands `chunks` to a receiver one after the
/// other, as [`feed`] says.
pub open spec fn feed_chunks(carry: Seq<u8>, chunks: Seq<Seq<u8>>) -> (Seq<Outcome>, Seq<u8>)
    decreases chunks.len(),
{
    if chunks.len() == 0 {
        (Seq::empty(), carry)
    } else {
        let first = feed(carry, chunks[0], 0);
        let next = feed_chunks(first.1, chunks.drop_first());
        (first.0 + next.0, next.1)
    }
}

/// The first line feed from index `i` on is at index `end` if that is one
/// and none stands before it.
proof fn lemma_find_lf_some(s: Seq<u8>, i: int, end: int)
    requires
        0 <= i <= end < s.len(),
        s[end] == LF,
        forall|j: int| i <= j < end ==> s[j] != LF,
    ensures
        find_lf(s, i) == Some(end),
    decreases end - i,
{
    if i < end {
        lemma_find_lf_some(s, i + 1, end);
    }
}

/// No line feed is found from index `i` on if none stands there.
proof fn lemma_find_lf_none(s: Seq<u8>, i: int)
    requires
        0 <= i <= s.len(),
        forall|j: int| i <= j < s.len() ==> s[j] != LF,
    ensures
        find_lf(s, i) is None,
    decreases s.len() - i,
{
    if i < s.len() {
        lemma_find_lf_none(s, i + 1);
    }
}

/// Searching in `a + b` from an index in `a`: a line feed of `a` is found
/// as in `a`; if `a` has none from there, the search goes on in `b`.
proof fn lemma_find_lf_concat(a: Seq<u8>, b: Seq<u8>, i: int)
    requires
        0 <= i <= a.len(),
    ensures
        find_lf(a + b, i) == match find_lf(a, i) {
            Some(end) => Some(end),
            None => match find_lf(b, 0) {
                Some(end) => Some(a.len() + end),
                None => None,
            },
        },
{
    lemma_find_lf(a, i);
    lemma_find_lf(b, 0);
    match find_lf(a, i) {
        Some(end) => {
            lemma_find_lf_some(a + b, i, end);
        },
        None => match find_lf(b, 0) {
            Some(end) => {
                lemma_find_lf_some(a + b, i, a.len() + end);
            },
            None => {
                lemma_find_lf_none(a + b, i);
            },
        },
    }
}

/// Searching from index `i` in `s` is searching from the start in what
/// `s` holds from `i` on.
proof fn lemma_find_lf_skip(s: Seq<u8>, i: int)
    requires
        0 <= i <= s.len(),
    ensures
        find_lf(s.skip(i), 0) == match find_lf(s, i) {
            Some(end) => Some(end - i),
            None => None,
        },
{
    lemma_find_lf(s, i);
    match find_lf(s, i) {
        Some(end) => {
            lemma_find_lf_some(s.skip(i), 0, end - i);
        },
        None => {
            lemma_find_lf_none(s.skip(i), 0);
        },
    }
}

/// The commands of `s` from index `pos` on are those of what `s` holds
/// from `pos` on.
proof fn lemma_run_skip(s: Seq<u8>, pos: int)
    requires
        0 <= pos <= s.len(),
    ensures
        run(s, pos) == run(s.skip(pos), 0),
        valid_from(s, pos) == valid_from(s.skip(pos), 0),
    decreases s.len() - pos,
{
    let t = s.skip(pos);
    lemma_find_lf_skip(s, pos);
    lemma_find_lf(s, pos);
    match find_lf(s, pos) {
        Some(end) => {
            assert(t.subrange(0, end - pos + 1) =~= s.subrange(pos, end + 1));
            assert(line_at(t, 0, end - pos) == line_at(s, pos, end));
            lemma_run_skip(s, end + 1);
            lemma_run_skip(t, end - pos + 1);
            assert(t.skip(end - pos + 1) =~= s.skip(end + 1));
        },
        None => {
            assert(t.skip(0) =~= t);
        },
    }
}

/// The commands of `a + b` are those of `a`, and then those of `b` after
/// what follows the last line feed of `a`.
#[verifier::rlimit(40)]
proof fn lemma_run_concat(a: Seq<u8>, b: Seq<u8>, pos: int)
    requires
        0 <= pos <= a.len(),
    ensures
        run(a + b, pos).0 == run(a, pos).0 + run(run(a, pos).1 + b, 0).0,
        run(a + b, pos).1 == run(run(a, pos).1 + b, 0).1,
    decreases a.len() - pos,
{
    let s = a + b;
    lemma_find_lf_concat(a, b, pos);
    lemma_find_lf(a, pos);
    match find_lf(a, pos) {
        Some(end) => {
            assert(find_lf(s, pos) == Some(end));
            assert(s.subrange(pos, end + 1) =~= a.subrange(pos, end + 1));
            assert(line_at(s, pos, end) == line_at(a, pos, end));
            lemma_run_concat(a, b, end + 1);
            let first = seq![line_at(a, pos, end)];
            let rest = run(a, end + 1);
            let tail = run(rest.1 + b, 0);
            assert(run(a, pos) == (first + rest.0, rest.1));
            assert(run(s, pos) == (first + run(s, end + 1).0, run(s, end + 1).1));
            assert(first + (rest.0 + tail.0) =~= (first + rest.0) + tail.0);
        },
        None => {
            let t = a.skip(pos);
            assert(run(a, pos) == (Seq::<Outcome>::empty(), t));
            assert(s.skip(pos) =~= t + b);
            lemma_run_skip(s, pos);
            assert(Seq::<Outcome>::empty() + run(t + b, 0).0 =~= run(t + b, 0).0);
        },
    }
}

/// Where `a + b` is a stream that a receiver takes in any chunks, so is
/// `a`, and so is `b` after what follows the last line feed of `a`.
#[verifier::rlimit(40)]
proof fn lemma_valid_concat(a: Seq<u8>, b: Seq<u8>, pos: int)
    requires
        0 <= pos <= a.len(),
        valid_from(a + b, pos),
    ensures
        valid_from(a, pos),
        valid_from(run(a, pos).1 + b, 0),
    decreases a.len() - pos,
{
    let s = a + b;
    lemma_find_lf_concat(a, b, pos);
    lemma_find_lf(a, pos);
    lemma_find_lf(s, pos);
    match find_lf(a, pos) {
        Some(end) => {
            assert(find_lf(s, pos) == Some(end));
            lemma_valid_concat(a, b, end + 1);
        },
        None => {
            let t = a.skip(pos);
            assert(run(a, pos) == (Seq::<Outcome>::empty(), t));
            assert(s.skip(pos) =~= t + b);
            lemma_run_skip(s, pos);
            match find_lf(s, pos) {
                Some(end) => {
                    assert(end >= a.len());
                },
                None => {},
            }
        },
    }
}

/// What follows the last line feed of a stream that a receiver takes in
/// any chunks is less than a full line and has no line feed.
proof fn lemma_run_tail(a: Seq<u8>, pos: int)
    requires
        0 <= pos <= a.len(),
        valid_from(a, pos),
    ensures
        no_lf(run(a, pos).1),
        run(a, pos).1.len() < MAX_LINE_LENGTH,
    decreases a.len() - pos,
{
    lemma_find_lf(a, pos);
    match find_lf(a, pos) {
        Some(end) => {
            lemma_run_tail(a, end + 1);
        },
        None => {
            assert(run(a, pos).1 == a.skip(pos));
        },
    }
}

/// Handing a chunk to a receiver gives the commands of what it held back
/// followed by the chunk, and leaves it holding back what follows the
/// last line feed.
#[verifier::rlimit(40)]
proof fn lemma_feed(carry: Seq<u8>, data: Seq<u8>, pos: int)
    requires
        0 <= pos <= data.len(),
        no_lf(carry),
        carry.len() < MAX_LINE_LENGTH,
        valid_from(carry + data.skip(pos), 0),
    ensures
        feed(carry, data, pos) == run(carry + data.skip(pos), 0),
    decreases data.len() - pos,
{
    let rest = data.skip(pos);
    let t = carry + rest;
    lemma_find_lf(data, pos);
    lemma_find_lf_skip(data, pos);
    lemma_find_lf_none(carry, 0);
    lemma_find_lf_concat(carry, rest, 0);
    lemma_find_lf(t, 0);
    let step = spec_ingest(carry, data, pos);
    match find_lf(data, pos) {
        Some(end) => {
            let at = carry.len() + end - pos;
            assert(find_lf(t, 0) == Some(at));
            assert(t.subrange(0, at + 1) =~= carry + data.subrange(pos, end + 1));
            if carry.len() == 0 {
                assert(carry + data.subrange(pos, end + 1) =~= data.subrange(pos, end + 1));
            }
            if carry.len() > 0 {
                lemma_find_lf_some(carry + data.subrange(pos, end + 1), 0, at);
                assert((carry + data.subrange(pos, end + 1)).subrange(0, at + 1) =~= t.subrange(
                    0,
                    at + 1,
                ));
            }
            assert(step.0 == line_at(t, 0, at));
            lemma_request_complete(t.subrange(0, at + 1), (at + 1) as usize);
            assert(step.1 =~= Seq::<u8>::empty());
            assert(step.2 == end + 1);
            lemma_run_skip(t, at + 1);
            assert(t.skip(at + 1) =~= data.skip(end + 1));
            assert(Seq::<u8>::empty() + data.skip(end + 1) =~= data.skip(end + 1));
            lemma_feed(Seq::empty(), data, end + 1);
        },
        None => {
            assert(find_lf(t, 0) is None);
            assert(t.skip(0) =~= t);
            if carry.len() == 0 {
                assert(t =~= rest);
            }
        },
    }
}

/// Handing chunks to a receiver one after the other gives the commands of
/// what it held back followed by the chunks joined.
#[verifier::rlimit(40)]
proof fn lemma_feed_chunks(carry: Seq<u8>, chunks: Seq<Seq<u8>>)
    requires
        no_lf(carry),
        carry.len() < MAX_LINE_LENGTH,
        valid_from(carry + chunks.flatten(), 0),
    ensures
        feed_chunks(carry, chunks) == run(carry + chunks.flatten(), 0),
    decreases chunks.len(),
{
    if chunks.len() == 0 {
        lemma_find_lf_none(carry, 0);
        assert(carry + chunks.flatten() =~= carry);
        assert(carry.skip(0) =~= carry);
    } else {
        let first = chunks[0];
        let others = chunks.drop_first();
        let a = carry + first;
        let b = others.flatten();
        assert(carry + chunks.flatten() =~= a + b);
        lemma_run_concat(a, b, 0);
        lemma_valid_concat(a, b, 0);
        lemma_run_tail(a, 0);
        assert(first.skip(0) =~= first);
        lemma_feed(carry, first, 0);
        lemma_feed_chunks(run(a, 0).1, others);
        assert(feed_chunks(carry, chunks).0 =~= run(a + b, 0).0);
    }
}

/// A stream gives the same commands however it is cut into chunks: a
/// receiver that holds nothing back and is handed `chunks` one after the
/// other gives what it gives when handed `stream`, which is `chunks`
/// joined, in one piece. Both give the commands on the lines of `stream`
/// in order, and leave the receiver holding back what follows the last
/// line feed.
///
/// This holds of a stream whose lines have at most 2048 bytes each, and
/// whose last line feed is followed by fewer than 2048 bytes.
pub proof fn lemma_chunking(stream: Seq<u8>, chunks: Seq<Seq<u8>>)
    requires
        chunks.flatten() == stream,
        valid_from(stream, 0),
    ensures
        feed_chunks(Seq::empty(), chunks) == feed_chunks(Seq::empty(), seq![stream]),
        feed_chunks(Seq::empty(), chunks) == run(stream, 0),
{
    let empty = Seq::<u8>::empty();
    assert(empty + stream =~= stream);
    lemma_feed_chunks(empty, chunks);
    let one = seq![stream];
    assert(one.drop_first() =~= Seq::<Seq<u8>>::empty());
    assert(one.flatten() =~= stream) by {
        assert(one.drop_first().flatten() =~= Seq::<u8>::empty());
        assert(one.flatten() == one.first() + one.drop_first().flatten());
    }
    lemma_feed_chunks(empty, one);
}

} // verus!
