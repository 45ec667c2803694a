//! Content addressing.
//!
//! Every canonical identifier (an image URL, a normalized query) is mapped
//! deterministically to the lowercase hex SHA-256 digest of its text.  The
//! digest names the on-disk copy of the resource, and its leading sixteen hex
//! digits, read as a 64-bit number, key the in-memory cache.  Equal
//! identifiers always yield equal keys.

use vstd::prelude::*;
use vstd::string::StrSliceExecFns;

verus! {

/// What `sha256::digest` returns for a given string.
pub uninterp spec fn sha256_hex(s: Seq<char>) -> Seq<char>;

/// A lowercase hexadecimal digit.
pub open spec fn is_hex_digit(c: char) -> bool {
    (('0' as u32) <= (c as u32) && (c as u32) <= ('9' as u32)) || (('a' as u32) <= (c as u32) && (c
        as u32) <= ('f' as u32))
}

/// Numeric value of one lowercase hexadecimal digit.
pub open spec fn hex_val(c: char) -> int {
    if ('a' as u32) <= (c as u32) {
        (c as u32) as int - ('a' as u32) as int + 10
    } else {
        (c as u32) as int - ('0' as u32) as int
    }
}

/// Value of the first `n` hex digits of `s`, most significant first.
pub open spec fn hex_prefix_val(s: Seq<char>, n: int) -> int
    decreases n,
{
    if n <= 0 {
        0
    } else {
        hex_prefix_val(s, n - 1) * 16 + hex_val(s[n - 1])
    }
}

/// Sixteen to the power `n`.
pub open spec fn pow16(n: int) -> int
    decreases n,
{
    if n <= 0 {
        1
    } else {
        16 * pow16(n - 1)
    }
}

proof fn lemma_pow16_pos(n: int)
    ensures
        pow16(n) >= 1,
    decreases n,
{
    if n > 0 {
        lemma_pow16_pos(n - 1);
    }
}

proof fn lemma_pow16_mono(a: int, b: int)
    requires
        a <= b,
    ensures
        pow16(a) <= pow16(b),
    decreases b - a,
{
    if a < b {
        lemma_pow16_mono(a, b - 1);
        lemma_pow16_pos(b - 1);
    }
}

proof fn lemma_hex_prefix_bound(s: Seq<char>, n: int)
    requires
        forall|i: int| 0 <= i < n ==> hex_val(#[trigger] s[i]) < 16 && hex_val(s[i]) >= 0,
    ensures
        0 <= hex_prefix_val(s, n) < pow16(n),
    decreases n,
{
    if n > 0 {
        lemma_hex_prefix_bound(s, n - 1);
    } else {
        lemma_pow16_pos(n);
    }
}

/// The in-memory cache key of an identifier: its digest's first sixteen hex
/// digits, read as a number.
pub open spec fn key_of(ident: Seq<char>) -> int {
    hex_prefix_val(sha256_hex(ident), 16)
}

/// Relies on `sha256::digest` (which hex-encodes `sha2`'s SHA-256 output):
/// the result is the lowercase hex digest of the string's bytes — 64 hex
/// characters, determined by the input alone.
#[verifier::external_body]
pub fn digest_hex(s: &String) -> (r: String)
    ensures
        r@ == sha256_hex(s@),
        r@.len() == 64,
        forall|i: int| 0 <= i < r@.len() ==> is_hex_digit(#[trigger] r@[i]),
{
    sha256::digest(s.as_str())
}

fn hex_val_exec(c: char) -> (v: u64)
    requires
        is_hex_digit(c),
    ensures
        v as int == hex_val(c),
        v < 16,
{
    let u = c as u32;
    if u >= 'a' as u32 {
        (u - 'a' as u32 + 10) as u64
    } else {
        (u - '0' as u32) as u64
    }
}

/// The cache key of a canonical identifier.  Equal identifiers always yield
/// equal keys.
pub fn cache_key(ident: &String) -> (k: u64)
    ensures
        k as int == key_of(ident@),
{
    let hex = digest_hex(ident);
    let h = hex.as_str();
    let mut k: u64 = 0;
    let mut i: usize = 0;
    while i < 16
        invariant
            i <= 16,
            h@ == sha256_hex(ident@),
            h@.len() == 64,
            forall|j: int| 0 <= j < h@.len() ==> is_hex_digit(#[trigger] h@[j]),
            k as int == hex_prefix_val(h@, i as int),
            (k as int) < pow16(i as int),
        decreases 16 - i,
    {
        let c = h.get_char(i);
        let d = hex_val_exec(c);
        proof {
            lemma_pow16_mono(i as int + 1, 16);
            reveal_with_fuel(pow16, 17);
            assert(pow16(16) == 0x10000000000000000);
            assert(k as int * 16 + d < pow16(i as int + 1));
        }
        k = k * 16 + d;
        i = i + 1;
    }
    k
}

} // verus!
