//! What holds of the values that parsing gives: a mechanism is one bit,
//! `NOTIFY=NEVER` excludes the other notifications, a priority lies
//! between -9 and 9, and `RRVS` has a timestamp.

use vstd::prelude::*;
use crate::request::grammar::{
    Cursor, MAX_PRIORITY, mechanism_of, MIN_PRIORITY, notify_flag, spec_hashed_value_long,
    spec_mail_from_parameters, spec_mail_parameter, spec_notify, spec_rcpt_parameter,
    spec_rcpt_to_parameters,
};
use crate::{
    MailFrom, RCPT_CONNEG, RCPT_NOTIFY_DELAY, RCPT_NOTIFY_FAILURE, RCPT_NOTIFY_NEVER,
    RCPT_NOTIFY_SUCCESS, RCPT_RRVS_CONTINUE, RCPT_RRVS_REJECT, RcptTo,
};

verus! {

/// Exactly one bit of `b` is set.
pub open spec fn is_single_bit(b: u64) -> bool {
    exists|k: u64| k < 64 && b == 1u64 << k
}

/// The mechanism of an `AUTH` command is one bit, or zero for a name that
/// is not known.
pub proof fn lemma_mechanism_is_one_bit(key: u128, trail: Seq<u8>)
    ensures
        match mechanism_of(key, trail) {
            Some(bit) => bit == 0 || is_single_bit(bit),
            None => true,
        },
{
    assert(forall|k: u64| k < 64 ==> is_single_bit(#[trigger] (1u64 << k)));
}

/// In `flags`, `NEVER` does not stand with `SUCCESS`, `FAILURE` or `DELAY`.
pub open spec fn notify_exclusive(flags: u64) -> bool {
    flags & RCPT_NOTIFY_NEVER == 0 || flags & (RCPT_NOTIFY_SUCCESS | RCPT_NOTIFY_FAILURE
        | RCPT_NOTIFY_DELAY) == 0
}

/// A word of a `NOTIFY=` list that is accepted keeps `NEVER` apart.
proof fn lemma_notify_flag(v: u128, flags: u64)
    requires
        notify_exclusive(flags),
    ensures
        notify_flag(v, flags) is Some ==> notify_exclusive(flags | notify_flag(v, flags)->0),
{
    match notify_flag(v, flags) {
        Some(f) => {
            assert(notify_exclusive(flags | f)) by (bit_vector)
                requires
                    f == RCPT_NOTIFY_NEVER && flags & (RCPT_NOTIFY_NEVER | RCPT_NOTIFY_SUCCESS
                        | RCPT_NOTIFY_FAILURE | RCPT_NOTIFY_DELAY) == 0 || (f == RCPT_NOTIFY_SUCCESS
                        || f == RCPT_NOTIFY_FAILURE || f == RCPT_NOTIFY_DELAY) && flags
                        & RCPT_NOTIFY_NEVER == 0,
            ;
        },
        None => {},
    }
}

/// The flags that are no notifications leave the notifications as they
/// are.
proof fn lemma_other_flags(flags: u64, f: u64)
    requires
        notify_exclusive(flags),
        f == RCPT_CONNEG || f == RCPT_RRVS_REJECT || f == RCPT_RRVS_CONTINUE,
    ensures
        notify_exclusive(flags | f),
{
    assert(notify_exclusive(flags | f)) by (bit_vector)
        requires
            notify_exclusive(flags),
            f == RCPT_CONNEG || f == RCPT_RRVS_REJECT || f == RCPT_RRVS_CONTINUE,
    ;
}

/// A `NOTIFY=` list that is accepted keeps `NEVER` apart.
proof fn lemma_notify_list(s: Seq<u8>, c: Cursor, left: usize, flags: u64)
    requires
        notify_exclusive(flags),
    ensures
        spec_notify(s, c, left, flags).0 is Ok ==> notify_exclusive(
            spec_notify(s, c, left, flags).0->Ok_0,
        ),
    decreases s.len() - c.pos,
{
    match spec_hashed_value_long(s, c) {
        (Some(v), c1) => {
            lemma_notify_flag(v, flags);
            match notify_flag(v, flags) {
                Some(f) => {
                    if c.pos < c1.pos <= s.len() {
                        lemma_notify_list(s, c1, left, flags | f);
                    }
                },
                None => {},
            }
        },
        _ => {},
    }
}

/// A `RCPT TO` parameter that is accepted keeps `NEVER` apart.
proof fn lemma_parameter_exclusive(
    s: Seq<u8>,
    c: Cursor,
    left: usize,
    key: u128,
    p: RcptTo<Seq<char>>,
)
    requires
        notify_exclusive(p.flags),
    ensures
        spec_rcpt_parameter(s, c, left, key, p).0 is Ok ==> notify_exclusive(
            spec_rcpt_parameter(s, c, left, key, p).0->Ok_0.flags,
        ),
{
    lemma_notify_list(s, c, left, p.flags);
    lemma_other_flags(p.flags, RCPT_CONNEG);
    lemma_other_flags(p.flags, RCPT_RRVS_REJECT);
    lemma_other_flags(p.flags, RCPT_RRVS_CONTINUE);
}

/// `NEVER` stands alone: in the flags of a `RCPT TO` that is accepted,
/// `NOTIFY=NEVER` does not stand with `SUCCESS`, `FAILURE` or `DELAY`,
/// whatever the parameters and their order.
pub proof fn lemma_notify_never_alone(s: Seq<u8>, c: Cursor, left: usize, p: RcptTo<Seq<char>>)
    requires
        notify_exclusive(p.flags),
    ensures
        spec_rcpt_to_parameters(s, c, left, p).0 is Ok ==> notify_exclusive(
            spec_rcpt_to_parameters(s, c, left, p).0->Ok_0.flags,
        ),
    decreases s.len() - c.pos,
{
    match spec_hashed_value_long(s, c) {
        (Some(key), c1) => {
            lemma_parameter_exclusive(s, c1, left, key, p);
            match spec_rcpt_parameter(s, c1, left, key, p) {
                (Ok(p2), c2) => {
                    if c.pos < c2.pos <= s.len() {
                        lemma_notify_never_alone(s, c2, left, p2);
                    }
                },
                _ => {},
            }
        },
        _ => {},
    }
}

/// The priority of `p` is one that a message can have.
pub open spec fn priority_ok(p: MailFrom<Seq<char>>) -> bool {
    MIN_PRIORITY <= p.mt_priority <= MAX_PRIORITY
}

/// A priority is from -9 to 9: a `MAIL FROM` that is accepted has a
/// priority in that range, whatever its parameters.
pub proof fn lemma_priority_in_range(s: Seq<u8>, c: Cursor, left: usize, p: MailFrom<Seq<char>>)
    requires
        priority_ok(p),
    ensures
        spec_mail_from_parameters(s, c, left, p).0 is Ok ==> priority_ok(
            spec_mail_from_parameters(s, c, left, p).0->Ok_0,
        ),
    decreases s.len() - c.pos,
{
    match spec_hashed_value_long(s, c) {
        (Some(key), c1) => {
            match spec_mail_parameter(s, c1, left, key, p) {
                (Ok(p2), c2) => {
                    if c.pos < c2.pos <= s.len() {
                        lemma_priority_in_range(s, c2, left, p2);
                    }
                },
                _ => {},
            }
        },
        _ => {},
    }
}


/// A `RCPT TO` with `RRVS` has a timestamp: where the time of `p` is one,
/// so is the time of a `RCPT TO` that is accepted.
pub proof fn lemma_rrvs_has_time(s: Seq<u8>, c: Cursor, left: usize, p: RcptTo<Seq<char>>)
    requires
        p.rrvs != i64::MAX,
    ensures
        spec_rcpt_to_parameters(s, c, left, p).0 is Ok ==> spec_rcpt_to_parameters(
            s,
            c,
            left,
            p,
        ).0->Ok_0.rrvs != i64::MAX,
    decreases s.len() - c.pos,
{
    match spec_hashed_value_long(s, c) {
        (Some(key), c1) => {
            match spec_rcpt_parameter(s, c1, left, key, p) {
                (Ok(p2), c2) => {
                    if c.pos < c2.pos <= s.len() {
                        lemma_rrvs_has_time(s, c2, left, p2);
                    }
                },
                _ => {},
            }
        },
        _ => {},
    }
}


} // verus!
