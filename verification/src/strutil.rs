//! Character-sequence utilities the protocol layer is built on: conversion
//! between `String` and `Vec<char>`, concatenation, decimal printing and
//! parsing, and substring search.

use vstd::prelude::*;

verus! {

/// Relies on `str::chars`: the characters of a string, in order, collected
/// into a vector.
#[verifier::external_body]
pub fn chars_of(s: &str) -> (r: Vec<char>)
    ensures
        r@ == s@,
{
    s.chars().collect()
}

/// Relies on `String`'s `FromIterator<char>`: a string whose characters are
/// exactly the input, in order.
#[verifier::external_body]
pub fn chars_to_string(v: &Vec<char>) -> (r: String)
    ensures
        r@ == v@,
{
    v.iter().collect()
}

/// Appends every character of `src` to `dest`.
pub fn push_all(dest: &mut Vec<char>, src: &Vec<char>)
    ensures
        final(dest)@ == old(dest)@ + src@,
{
    let mut i: usize = 0;
    while i < src.len()
        invariant
            i <= src.len(),
            dest@ == old(dest)@ + src@.take(i as int),
        decreases src.len() - i,
    {
        dest.push(src[i]);
        proof {
            assert(src@.take(i + 1) =~= src@.take(i as int).push(src@[i as int]));
        }
        i += 1;
    }
    proof {
        assert(src@.take(src@.len() as int) =~= src@);
    }
}

/// Appends every character of `s` to `dest`.
pub fn push_str_chars(dest: &mut Vec<char>, s: &str)
    ensures
        final(dest)@ == old(dest)@ + s@,
{
    let cs = chars_of(s);
    push_all(dest, &cs);
}

/// A copy of `v[a..b]`.
pub fn copy_range(v: &Vec<char>, a: usize, b: usize) -> (r: Vec<char>)
    requires
        a <= b <= v@.len(),
    ensures
        r@ == v@.subrange(a as int, b as int),
{
    let mut out: Vec<char> = Vec::new();
    let mut i: usize = a;
    while i < b
        invariant
            a <= i <= b <= v@.len(),
            out@ == v@.subrange(a as int, i as int),
        decreases b - i,
    {
        out.push(v[i]);
        proof {
            assert(v@.subrange(a as int, i + 1) =~= v@.subrange(a as int, i as int).push(
                v@[i as int],
            ));
        }
        i += 1;
    }
    out
}

/// The digit character of `d`'s last decimal digit.
pub open spec fn digit_char(d: nat) -> char {
    ((48 + (d % 10)) as u8) as char
}

/// The decimal digits of `n`, most significant first.
pub open spec fn dec_of(n: nat) -> Seq<char>
    decreases n,
{
    if n < 10 {
        seq![digit_char(n)]
    } else {
        dec_of(n / 10).push(digit_char(n % 10))
    }
}

fn digit_char_exec(d: u64) -> (r: char)
    ensures
        r == digit_char(d as nat),
{
    ((48 + (d % 10)) as u8) as char
}

/// The decimal digits of `n` as characters, most significant first.
pub fn dec_chars(n: u64) -> (r: Vec<char>)
    ensures
        r@ == dec_of(n as nat),
    decreases n,
{
    if n < 10 {
        let mut v: Vec<char> = Vec::new();
        v.push(digit_char_exec(n));
        proof {
            assert(v@ =~= dec_of(n as nat));
        }
        v
    } else {
        let mut v = dec_chars(n / 10);
        v.push(digit_char_exec(n % 10));
        v
    }
}

/// The decimal digits of `n` as a string.
pub fn dec_string(n: u64) -> (r: String)
    ensures
        r@ == dec_of(n as nat),
{
    let v = dec_chars(n);
    chars_to_string(&v)
}

pub open spec fn is_digit(c: char) -> bool {
    '0' <= c && c <= '9'
}

pub open spec fn all_digits(s: Seq<char>) -> bool {
    forall|i: int| 0 <= i < s.len() ==> is_digit(#[trigger] s[i])
}

/// The value of a sequence of decimal digit characters.
pub open spec fn dec_val(s: Seq<char>) -> nat
    decreases s.len(),
{
    if s.len() == 0 {
        0
    } else {
        (dec_val(s.drop_last()) * 10 + (s.last() as int - 48)) as nat
    }
}

/// Parses an unsigned decimal number. Returns the value when every character
/// is a digit and the value fits; any sequence of at most 19 digits fits.
pub fn parse_u64(s: &Vec<char>) -> (r: Option<u64>)
    ensures
        r matches Some(n) ==> s@.len() > 0 && all_digits(s@) && n as nat == dec_val(s@),
        s@.len() == 0 ==> r is None,
        (exists|i: int| 0 <= i < s@.len() && !is_digit(#[trigger] s@[i])) ==> r is None,
        all_digits(s@) && 0 < s@.len() <= 19 ==> r is Some,
{
    if s.len() == 0 {
        return None;
    }
    let mut n: u64 = 0;
    let mut i: usize = 0;
    while i < s.len()
        invariant
            0 < s@.len(),
            i <= s@.len(),
            all_digits(s@.take(i as int)),
            n as nat == dec_val(s@.take(i as int)),
        decreases s.len() - i,
    {
        let c = s[i];
        if c < '0' || c > '9' {
            return None;
        }
        let d: u64 = (c as u64) - 48;
        if n > 1844674407370955161u64 {
            proof {
                lemma_dec_val_bound(s@.take(i as int));
                if s@.len() <= 19 {
                    lemma_pow10_le(i as nat, 18);
                    assert(false);
                }
            }
            return None;
        }
        let m: u64 = n * 10;
        if d > u64::MAX - m {
            proof {
                lemma_dec_val_bound(s@.take(i as int));
                if s@.len() <= 19 {
                    lemma_pow10_le(i as nat, 18);
                    assert(false);
                }
            }
            return None;
        }
        n = m + d;
        proof {
            assert(s@.take(i + 1).drop_last() =~= s@.take(i as int));
            assert(s@.take(i + 1).last() == s@[i as int]);
        }
        i += 1;
    }
    proof {
        assert(s@.take(s@.len() as int) =~= s@);
    }
    Some(n)
}

pub open spec fn pow10(k: nat) -> nat
    decreases k,
{
    if k == 0 {
        1
    } else {
        10 * pow10((k - 1) as nat)
    }
}

/// The value of `k` digits is below `pow10(k)`.
pub proof fn lemma_dec_val_bound(s: Seq<char>)
    requires
        all_digits(s),
    ensures
        dec_val(s) < pow10(s.len() as nat),
    decreases s.len(),
{
    if s.len() > 0 {
        assert(all_digits(s.drop_last()));
        lemma_dec_val_bound(s.drop_last());
        assert(s.last() as nat - 48 <= 9);
    }
}

/// `pow10` is monotone, and `pow10(18)` gives the overflow guard bound.
pub proof fn lemma_pow10_le(a: nat, b: nat)
    requires
        a <= b,
    ensures
        pow10(a) <= pow10(b),
        pow10(18) == 1000000000000000000,
    decreases b,
{
    if b > 0 && a < b {
        lemma_pow10_le(a, (b - 1) as nat);
    } else if b > 0 {
        lemma_pow10_le((a - 1) as nat, (b - 1) as nat);
    }
    assert(pow10(18) == 1000000000000000000) by {
        reveal_with_fuel(pow10, 19);
    }
}

/// Character-sequence equality of two vectors.
pub fn chars_eq(a: &Vec<char>, b: &Vec<char>) -> (r: bool)
    ensures
        r == (a@ == b@),
{
    if a.len() != b.len() {
        return false;
    }
    let n = a.len();
    let mut i: usize = 0;
    while i < n
        invariant
            n == a@.len(),
            n == b@.len(),
            i <= n,
            forall|k: int| 0 <= k < i ==> a@[k] == b@[k],
        decreases n - i,
    {
        if a[i] != b[i] {
            return false;
        }
        i += 1;
    }
    proof {
        assert(a@ =~= b@);
    }
    true
}

/// Character-sequence equality of two strings.
pub fn str_eq(a: &str, b: &str) -> (r: bool)
    ensures
        r == (a@ == b@),
{
    let av = chars_of(a);
    let bv = chars_of(b);
    chars_eq(&av, &bv)
}

/// Whether `p` occurs in `s` at position `i`.
pub open spec fn match_at(s: Seq<char>, p: Seq<char>, i: int) -> bool {
    0 <= i && i + p.len() <= s.len() && s.subrange(i, i + p.len() as int) == p
}

/// The first position at or after `i` where `p` occurs in `s`.
pub open spec fn spec_find(s: Seq<char>, p: Seq<char>, i: int) -> Option<int>
    decreases s.len() - i + 1,
{
    if i < 0 || i + p.len() > s.len() {
        None
    } else if s.subrange(i, i + p.len() as int) == p {
        Some(i)
    } else {
        spec_find(s, p, i + 1)
    }
}

/// A found position is a match, and lies at or after the start.
pub proof fn lemma_spec_find_match(s: Seq<char>, p: Seq<char>, i: int)
    ensures
        spec_find(s, p, i) matches Some(j) ==> i <= j && match_at(s, p, j),
    decreases s.len() - i + 1,
{
    if !(i < 0 || i + p.len() > s.len()) && s.subrange(i, i + p.len() as int) != p {
        lemma_spec_find_match(s, p, i + 1);
    }
}

/// Substring search: the first occurrence of `needle` in `hay` at or after
/// `from`.
pub fn find(hay: &Vec<char>, needle: &Vec<char>, from: usize) -> (r: Option<usize>)
    requires
        from <= hay@.len(),
    ensures
        spec_find(hay@, needle@, from as int) == (match r {
            Some(j) => Some(j as int),
            None => None::<int>,
        }),
        r matches Some(j) ==> from <= j && match_at(hay@, needle@, j as int),
{
    let n = hay.len();
    let m = needle.len();
    let mut i: usize = from;
    if m > n {
        return None;
    }
    if from > n - m {
        return None;
    }
    while i <= n - m
        invariant
            from <= i,
            m <= n,
            n == hay@.len(),
            m == needle@.len(),
            i <= n - m + 1,
            spec_find(hay@, needle@, from as int) == spec_find(hay@, needle@, i as int),
        decreases n - i,
    {
        let mut j: usize = 0;
        let mut matched = true;
        while j < m
            invariant
                i + m <= n,
                n == hay@.len(),
                m == needle@.len(),
                j <= m,
                matched ==> forall|k: int|
                    0 <= k < j ==> hay@[i + k] == needle@[k],
                !matched ==> hay@.subrange(i as int, i + m) != needle@,
            decreases m - j,
        {
            if matched && hay[i + j] != needle[j] {
                proof {
                    assert(hay@.subrange(i as int, i + m)[j as int] != needle@[j as int]);
                }
                matched = false;
            }
            j += 1;
        }
        if matched {
            proof {
                assert(hay@.subrange(i as int, i + m) =~= needle@);
                lemma_spec_find_match(hay@, needle@, from as int);
            }
            return Some(i);
        }
        proof {
            if m == 0 {
                assert(hay@.subrange(i as int, i as int) =~= needle@);
            }
            assert(spec_find(hay@, needle@, i as int) == spec_find(hay@, needle@, i + 1));
        }
        i += 1;
    }
    None
}

} // verus!
