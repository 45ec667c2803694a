//! Query-text normalization and small string utilities.
//!
//! A search query is normalized before it is hashed or sent anywhere: it is
//! truncated to a bounded number of UTF-8 bytes (never splitting a character)
//! and then lowercased.  Equal input text always normalizes to equal text, so
//! equal queries are content-addressed to equal disk documents.

use vstd::prelude::*;
use vstd::string::StrSliceExecFns;
use vstd::string::StringExecFns;

use crate::QUERY_BYTE_LIMIT;

verus! {

/// Number of bytes the UTF-8 encoding of one character occupies.
pub open spec fn utf8_len(c: char) -> int {
    if (c as u32) < 0x80 {
        1
    } else if (c as u32) < 0x800 {
        2
    } else if (c as u32) < 0x10000 {
        3
    } else {
        4
    }
}

/// The longest prefix of `s` whose UTF-8 encoding fits in `limit` bytes.
pub open spec fn take_within(s: Seq<char>, limit: int) -> Seq<char>
    decreases s.len(),
{
    if s.len() == 0 || utf8_len(s[0]) > limit {
        Seq::empty()
    } else {
        seq![s[0]] + take_within(s.drop_first(), limit - utf8_len(s[0]))
    }
}

/// What `str::to_lowercase` returns: a function of the characters alone.
pub uninterp spec fn lower_of(s: Seq<char>) -> Seq<char>;

/// A query as it is hashed, persisted and sent: byte-limited, then lowercased.
pub open spec fn normalized(s: Seq<char>) -> Seq<char> {
    lower_of(take_within(s, QUERY_BYTE_LIMIT as int))
}

/// Relies on `String::push` of std: it appends the given character to the end
/// of the string and changes nothing else.
#[verifier::external_body]
pub fn push_char(s: &mut String, c: char)
    ensures
        final(s)@ == old(s)@ + seq![c],
{
    s.push(c);
}

/// Relies on `str::to_lowercase` of std: the result is determined by the
/// characters alone (Unicode lowercasing, independent of locale or
/// environment), and an empty input stays empty.
#[verifier::external_body]
pub fn lowercase(s: &str) -> (r: String)
    ensures
        r@ == lower_of(s@),
        s@.len() == 0 ==> r@.len() == 0,
{
    s.to_lowercase()
}

/// UTF-8 width of a character, computed from its scalar value.
pub fn utf8_width(c: char) -> (w: usize)
    ensures
        w == utf8_len(c),
{
    let u = c as u32;
    if u < 0x80 {
        1
    } else if u < 0x800 {
        2
    } else if u < 0x10000 {
        3
    } else {
        4
    }
}

/// Longest prefix of `s` that fits in `limit` UTF-8 bytes, never splitting a
/// character.
pub fn truncate_chars(s: &str, limit: usize) -> (r: String)
    ensures
        r@ == take_within(s@, limit as int),
{
    let n = s.unicode_len();
    let mut i: usize = 0;
    let mut remaining: usize = limit;
    proof {
        assert(s@.skip(0) =~= s@);
        assert(s@.subrange(0, 0) + take_within(s@, limit as int) =~= take_within(
            s@,
            limit as int,
        ));
    }
    loop
        invariant
            i <= n,
            n == s@.len(),
            remaining <= limit,
            take_within(s@, limit as int) == s@.subrange(0, i as int) + take_within(
                s@.skip(i as int),
                remaining as int,
            ),
        ensures
            i <= n,
            n == s@.len(),
            take_within(s@, limit as int) == s@.subrange(0, i as int),
        decreases n - i,
    {
        if i >= n {
            assert(s@.skip(i as int) =~= Seq::empty());
            assert(take_within(s@, limit as int) =~= s@.subrange(0, i as int));
            break;
        }
        let c = s.get_char(i);
        let w = utf8_width(c);
        if w > remaining {
            assert(s@.skip(i as int)[0] == s@[i as int]);
            assert(take_within(s@.skip(i as int), remaining as int) =~= Seq::empty());
            assert(take_within(s@, limit as int) =~= s@.subrange(0, i as int));
            break;
        }
        proof {
            assert(s@.skip(i as int)[0] == s@[i as int]);
            assert(s@.skip(i as int).drop_first() =~= s@.skip(i as int + 1));
            assert(take_within(s@.skip(i as int), remaining as int) == seq![s@[i as int]]
                + take_within(s@.skip(i as int + 1), remaining as int - w));
            assert(s@.subrange(0, i as int) + seq![s@[i as int]] =~= s@.subrange(0, i as int + 1));
        }
        remaining = remaining - w;
        i = i + 1;
    }
    let prefix = s.substring_char(0, i);
    String::from_str(prefix)
}

/// Normalize a query: truncate to [`QUERY_BYTE_LIMIT`] bytes, then lowercase.
/// An empty input normalizes to the empty query.
pub fn normalize_query(s: &str) -> (r: String)
    ensures
        r@ == normalized(s@),
        s@.len() == 0 ==> r@.len() == 0,
{
    let t = truncate_chars(s, QUERY_BYTE_LIMIT);
    proof {
        if s@.len() == 0 {
            assert(take_within(s@, QUERY_BYTE_LIMIT as int) =~= Seq::<char>::empty());
        }
    }
    lowercase(t.as_str())
}

/// The characters of a string, as a vector.
pub fn chars_of(s: &str) -> (r: Vec<char>)
    ensures
        r@ == s@,
{
    let n = s.unicode_len();
    let mut v: Vec<char> = Vec::new();
    let mut i: usize = 0;
    while i < n
        invariant
            i <= n,
            n == s@.len(),
            v@ == s@.subrange(0, i as int),
        decreases n - i,
    {
        v.push(s.get_char(i));
        proof {
            assert(s@.subrange(0, i as int) + seq![s@[i as int]] =~= s@.subrange(0, i as int + 1));
        }
        i = i + 1;
    }
    proof {
        assert(s@.subrange(0, n as int) =~= s@);
    }
    v
}

/// A string holding exactly the given characters.
pub fn string_of(v: &Vec<char>) -> (r: String)
    ensures
        r@ == v@,
{
    let mut s = String::new();
    let mut i: usize = 0;
    while i < v.len()
        invariant
            i <= v@.len(),
            s@ == v@.subrange(0, i as int),
        decreases v@.len() - i,
    {
        push_char(&mut s, v[i]);
        proof {
            assert(v@.subrange(0, i as int) + seq![v@[i as int]] =~= v@.subrange(0, i as int + 1));
        }
        i = i + 1;
    }
    proof {
        assert(v@.subrange(0, v@.len() as int) =~= v@);
    }
    s
}

/// The character for one decimal digit.
pub open spec fn digit_char(d: int) -> char {
    if d == 0 {
        '0'
    } else if d == 1 {
        '1'
    } else if d == 2 {
        '2'
    } else if d == 3 {
        '3'
    } else if d == 4 {
        '4'
    } else if d == 5 {
        '5'
    } else if d == 6 {
        '6'
    } else if d == 7 {
        '7'
    } else if d == 8 {
        '8'
    } else {
        '9'
    }
}

/// Decimal digits of a non-negative integer, most significant first.
pub open spec fn dec_of(n: int) -> Seq<char>
    decreases n,
{
    if n < 10 {
        seq![digit_char(n)]
    } else {
        dec_of(n / 10) + seq![digit_char(n % 10)]
    }
}

fn digit_exec(d: u64) -> (c: char)
    requires
        d < 10,
    ensures
        c == digit_char(d as int),
{
    if d == 0 {
        '0'
    } else if d == 1 {
        '1'
    } else if d == 2 {
        '2'
    } else if d == 3 {
        '3'
    } else if d == 4 {
        '4'
    } else if d == 5 {
        '5'
    } else if d == 6 {
        '6'
    } else if d == 7 {
        '7'
    } else if d == 8 {
        '8'
    } else {
        '9'
    }
}

/// The decimal representation of `n`, without sign or padding.
pub fn decimal_string(n: u64) -> (r: String)
    ensures
        r@ == dec_of(n as int),
    decreases n,
{
    if n < 10 {
        let mut s = String::new();
        push_char(&mut s, digit_exec(n));
        s
    } else {
        let mut s = decimal_string(n / 10);
        push_char(&mut s, digit_exec(n % 10));
        s
    }
}

} // verus!
