//! Token fingerprints: a keyword of a few bytes packed into one integer,
//! its first byte lowest, so that a keyword is recognised by comparing two
//! integers.

use vstd::prelude::*;
use vstd::array::array_fill_for_copy_types;
use vstd::utf8::encode_utf8;
use crate::request::grammar::{hash_scan, hash_scan_long, is_keyword_byte, is_lower};
use crate::text::upper;
use crate::CR;

verus! {

/// The first `n` bytes of `bytes` packed into 64 bits, byte `i` at bit
/// `8 * i`.
pub open spec fn pack64(bytes: Seq<u8>, n: nat) -> u64
    decreases n,
{
    if n == 0 {
        0
    } else {
        pack64(bytes, (n - 1) as nat) | ((bytes[n - 1] as u64) << ((8 * (n - 1)) as u32))
    }
}

/// The first `n` bytes of `bytes` packed into 128 bits, byte `i` at bit
/// `8 * i`.
pub open spec fn pack128(bytes: Seq<u8>, n: nat) -> u128
    decreases n,
{
    if n == 0 {
        0
    } else {
        pack128(bytes, (n - 1) as nat) | ((bytes[n - 1] as u128) << ((8 * (n - 1)) as u32))
    }
}

/// The bytes of `s` in an array of `N` bytes, zeros after them.
pub fn str_to_array<const N: usize>(s: &str) -> (arr: [u8; N])
    requires
        encode_utf8(s@).len() <= N,
    ensures
        forall|i: int|
            0 <= i < N ==> arr@[i] == (if i < encode_utf8(s@).len() {
                encode_utf8(s@)[i]
            } else {
                0u8
            }),
{
    let bytes = s.as_bytes();
    let mut arr: [u8; N] = array_fill_for_copy_types(0u8);
    let mut i: usize = 0;
    while i < bytes.len()
        invariant
            bytes@ == encode_utf8(s@),
            bytes@.len() <= N,
            0 <= i <= bytes@.len(),
            forall|j: int|
                0 <= j < N ==> arr@[j] == (if j < i {
                    bytes@[j]
                } else {
                    0u8
                }),
        decreases bytes@.len() - i,
    {
        arr[i] = bytes[i];
        i = i + 1;
    }
    arr
}

/// The fingerprint of a keyword of up to eight bytes.
pub fn token64(s: &str) -> (r: u64)
    requires
        encode_utf8(s@).len() <= 8,
    ensures
        r == pack64(encode_utf8(s@), encode_utf8(s@).len()),
{
    let bytes = s.as_bytes();
    let mut value: u64 = 0;
    let mut i: usize = 0;
    while i < bytes.len()
        invariant
            bytes@ == encode_utf8(s@),
            bytes@.len() <= 8,
            0 <= i <= bytes@.len(),
            value == pack64(bytes@, i as nat),
        decreases bytes@.len() - i,
    {
        value = value | ((bytes[i] as u64) << ((8 * i) as u32));
        i = i + 1;
    }
    value
}

/// The fingerprint of a keyword of up to sixteen bytes.
pub fn token128(s: &str) -> (r: u128)
    requires
        encode_utf8(s@).len() <= 16,
    ensures
        r == pack128(encode_utf8(s@), encode_utf8(s@).len()),
{
    let bytes = s.as_bytes();
    let mut value: u128 = 0;
    let mut i: usize = 0;
    while i < bytes.len()
        invariant
            bytes@ == encode_utf8(s@),
            bytes@.len() <= 16,
            0 <= i <= bytes@.len(),
            value == pack128(bytes@, i as nat),
        decreases bytes@.len() - i,
    {
        value = value | ((bytes[i] as u128) << ((8 * i) as u32));
        i = i + 1;
    }
    value
}

/// The bytes of `s` from index `i` on begin with a keyword of `n` bytes:
/// letters, digits and hyphens, and then a byte that ends it. After the
/// most bytes that a fingerprint of `max` bytes holds any byte ends it but
/// a carriage return; before that, any byte but those of a keyword and a
/// carriage return.
pub open spec fn keyword_at(s: Seq<u8>, i: int, n: nat, max: nat) -> bool {
    &&& 0 <= i
    &&& i + n < s.len()
    &&& 1 <= n <= max
    &&& forall|k: int| i <= k < i + n ==> is_keyword_byte(#[trigger] s[k]) || is_lower(s[k])
    &&& s[i + n] != CR
    &&& n < max ==> !is_keyword_byte(s[i + n]) && !is_lower(s[i + n])
}

/// The upper-case form of the `n` bytes of `s` from index `i` on.
pub open spec fn upper_word(s: Seq<u8>, i: int, n: nat) -> Seq<u8> {
    Seq::new(n, |k: int| upper(s[i + k]))
}

/// A fingerprint that holds a byte that is not zero is not zero.
proof fn lemma_pack64_nonzero(bytes: Seq<u8>, n: nat)
    requires
        1 <= n <= 8,
        n <= bytes.len(),
        bytes[0] != 0,
    ensures
        pack64(bytes, n) != 0,
    decreases n,
{
    let b = bytes[n - 1];
    let shift = (8 * (n - 1)) as u32;
    if n == 1 {
        assert(pack64(bytes, 0) == 0);
        assert((0u64 | ((b as u64) << shift)) != 0) by (bit_vector)
            requires
                b != 0,
                shift == 0,
        ;
    } else {
        lemma_pack64_nonzero(bytes, (n - 1) as nat);
        let low = pack64(bytes, (n - 1) as nat);
        assert((low | ((b as u64) << shift)) != 0) by (bit_vector)
            requires
                low != 0,
        ;
    }
}

/// As [`lemma_pack64_nonzero`], for 128 bits.
proof fn lemma_pack128_nonzero(bytes: Seq<u8>, n: nat)
    requires
        1 <= n <= 16,
        n <= bytes.len(),
        bytes[0] != 0,
    ensures
        pack128(bytes, n) != 0,
    decreases n,
{
    let b = bytes[n - 1];
    let shift = (8 * (n - 1)) as u32;
    if n == 1 {
        assert(pack128(bytes, 0) == 0);
        assert((0u128 | ((b as u128) << shift)) != 0) by (bit_vector)
            requires
                b != 0,
                shift == 0,
        ;
    } else {
        lemma_pack128_nonzero(bytes, (n - 1) as nat);
        let low = pack128(bytes, (n - 1) as nat);
        assert((low | ((b as u128) << shift)) != 0) by (bit_vector)
            requires
                low != 0,
        ;
    }
}

/// The scan of a keyword, from its byte `k` on.
proof fn lemma_hash_scan_from(s: Seq<u8>, i: int, n: nat, k: nat)
    requires
        keyword_at(s, i, n, 8),
        k <= n,
    ensures
        hash_scan(s, i + k, pack64(upper_word(s, i, n), k), (8 * k) as u32) == Some(
            (pack64(upper_word(s, i, n), n), i + n),
        ),
    decreases n - k,
{
    let word = upper_word(s, i, n);
    if k < n {
        assert(is_keyword_byte(s[i + k]) || is_lower(s[i + k]));
        assert(word[k as int] == upper(s[i + k]));
        lemma_hash_scan_from(s, i, n, k + 1);
    } else {
        assert(is_keyword_byte(s[i]) || is_lower(s[i]));
        assert(word[0] == upper(s[i]));
        lemma_pack64_nonzero(word, n);
    }
}

/// As [`lemma_hash_scan_from`], for sixteen bytes.
proof fn lemma_hash_scan_long_from(s: Seq<u8>, i: int, n: nat, k: nat)
    requires
        keyword_at(s, i, n, 16),
        k <= n,
    ensures
        hash_scan_long(s, i + k, pack128(upper_word(s, i, n), k), (8 * k) as u32) == Some(
            (pack128(upper_word(s, i, n), n), i + n),
        ),
    decreases n - k,
{
    let word = upper_word(s, i, n);
    if k < n {
        assert(is_keyword_byte(s[i + k]) || is_lower(s[i + k]));
        assert(word[k as int] == upper(s[i + k]));
        lemma_hash_scan_long_from(s, i, n, k + 1);
    } else {
        assert(is_keyword_byte(s[i]) || is_lower(s[i]));
        assert(word[0] == upper(s[i]));
        lemma_pack128_nonzero(word, n);
    }
}

/// A keyword that is written out reads back as its fingerprint, in either
/// case: where the bytes of `s` from index `i` on begin with a keyword of
/// `n` bytes, the scanner folds them into the fingerprint of the keyword's
/// upper-case form, which is what [`token64`] gives for it, and stops at
/// the byte after the keyword.
pub proof fn lemma_keyword_fingerprint(s: Seq<u8>, i: int, n: nat)
    requires
        keyword_at(s, i, n, 8),
    ensures
        hash_scan(s, i, 0, 0) == Some((pack64(upper_word(s, i, n), n), i + n)),
{
    lemma_hash_scan_from(s, i, n, 0);
}

/// As [`lemma_keyword_fingerprint`], for keywords of up to sixteen bytes
/// and [`token128`].
pub proof fn lemma_long_keyword_fingerprint(s: Seq<u8>, i: int, n: nat)
    requires
        keyword_at(s, i, n, 16),
    ensures
        hash_scan_long(s, i, 0, 0) == Some((pack128(upper_word(s, i, n), n), i + n)),
{
    lemma_hash_scan_long_from(s, i, n, 0);
}


} // verus!
