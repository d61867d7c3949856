//! Character-level helpers shared by the serializers and parsers: conversion between `str` and
//! character vectors, string building, and the UTF-8 width of characters.
use vstd::prelude::*;
use vstd::utf8::*;

verus! {

/// The characters of `s`, in order.
pub fn chars_of(s: &str) -> (v: Vec<char>)
    ensures
        v@ == s@,
{
    let mut v: Vec<char> = Vec::new();
    for c in it: s.chars()
        invariant
            v@ == it.seq().take(it.index() as int),
            it.seq() == s@,
    {
        v.push(c);
    }
    v
}

/// Appends one character to `s` (`String::push`).
#[verifier::external_body]
pub(crate) fn push_char(s: &mut String, c: char)
    ensures
        final(s)@ == old(s)@.push(c),
{
    s.push(c);
}

/// Appends the characters `cs[from..to]` to `out`.
pub fn push_range(out: &mut String, cs: &Vec<char>, from: usize, to: usize)
    requires
        from <= to <= cs.len(),
    ensures
        final(out)@ == old(out)@ + cs@.subrange(from as int, to as int),
{
    let mut i = from;
    while i < to
        invariant
            from <= i <= to <= cs.len(),
            out@ == old(out)@ + cs@.subrange(from as int, i as int),
        decreases to - i,
    {
        push_char(out, cs[i]);
        assert(cs@.subrange(from as int, i + 1) =~= cs@.subrange(from as int, i as int).push(
            cs@[i as int],
        ));
        i += 1;
    }
}

/// Builds an owned string holding the characters of `s`.
pub fn string_of(s: &str) -> (r: String)
    ensures
        r@ == s@,
{
    let mut r = String::new();
    r.append(s);
    r
}

/// Number of octets of the UTF-8 encoding of `c`.
pub open spec fn char_octets(c: char) -> nat {
    if (c as u32) < 0x80 {
        1
    } else if (c as u32) < 0x800 {
        2
    } else if (c as u32) < 0x10000 {
        3
    } else {
        4
    }
}

/// Number of octets of the UTF-8 encoding of the characters `s`.
pub open spec fn octets(s: Seq<char>) -> nat
    decreases s.len(),
{
    if s.len() == 0 {
        0
    } else {
        char_octets(s[0]) + octets(s.drop_first())
    }
}

/// `octets` agrees with the length of vstd's UTF-8 encoding, i.e. with `str::len`.
pub proof fn lemma_octets_is_utf8_len(s: Seq<char>)
    ensures
        octets(s) == encode_utf8(s).len(),
    decreases s.len(),
{
    if s.len() > 0 {
        char_is_scalar(s[0]);
        lemma_octets_is_utf8_len(s.drop_first());
    }
}

/// `octets` of a concatenation is the sum of both parts.
pub proof fn lemma_octets_concat(a: Seq<char>, b: Seq<char>)
    ensures
        octets(a + b) == octets(a) + octets(b),
    decreases a.len(),
{
    if a.len() == 0 {
        assert(a + b =~= b);
    } else {
        assert((a + b).drop_first() =~= a.drop_first() + b);
        lemma_octets_concat(a.drop_first(), b);
    }
}

/// Executable `char_octets`.
pub fn char_octets_of(c: char) -> (n: usize)
    ensures
        n == char_octets(c),
{
    let u: u32 = c as u32;
    if u < 0x80 {
        1
    } else if u < 0x800 {
        2
    } else if u < 0x10000 {
        3
    } else {
        4
    }
}

// ---------------------------------------------------------------------------------------------
// Searching and decimal numbers
// ---------------------------------------------------------------------------------------------
/// The index of the first `c` in `s`, if there is one.
pub open spec fn first_index_of(s: Seq<char>, c: char) -> Option<int>
    decreases s.len(),
{
    if s.len() == 0 {
        None
    } else if s[0] == c {
        Some(0)
    } else {
        match first_index_of(s.drop_first(), c) {
            Some(i) => Some(i + 1),
            None => None,
        }
    }
}

/// `first_index_of` is the first position holding `c`.
pub proof fn lemma_first_index_of(s: Seq<char>, c: char, k: int)
    requires
        0 <= k <= s.len(),
        forall|j: int| 0 <= j < k ==> s[j] != c,
        k == s.len() || s[k] == c,
    ensures
        first_index_of(s, c) == (if k == s.len() {
            None::<int>
        } else {
            Some(k)
        }),
    decreases k,
{
    if k > 0 {
        lemma_first_index_of(s.drop_first(), c, k - 1);
    }
}

/// The position of the first `c` in `cs[lo..hi]`, counted from the start of `cs`.
pub fn find_char(cs: &Vec<char>, lo: usize, hi: usize, c: char) -> (r: Option<usize>)
    requires
        lo <= hi <= cs.len(),
    ensures
        r matches Some(i) ==> first_index_of(cs@.subrange(lo as int, hi as int), c) == Some(
            i - lo,
        ),
        r is None ==> first_index_of(cs@.subrange(lo as int, hi as int), c) is None,
        r matches Some(i) ==> lo <= i < hi && cs@[i as int] == c,
        r is None ==> forall|j: int| lo <= j < hi ==> cs@[j] != c,
{
    let mut i = lo;
    while i < hi && cs[i] != c
        invariant
            lo <= i <= hi <= cs.len(),
            forall|j: int| lo <= j < i ==> cs@[j] != c,
        decreases hi - i,
    {
        i += 1;
    }
    proof {
        lemma_first_index_of(cs@.subrange(lo as int, hi as int), c, i - lo);
    }
    if i < hi {
        Some(i)
    } else {
        None
    }
}

/// Whether `c` is an ASCII decimal digit.
pub open spec fn is_digit(c: char) -> bool {
    '0' <= c <= '9'
}

/// The number that a string of ASCII digits writes in decimal.
pub open spec fn digits_value(s: Seq<char>) -> nat
    decreases s.len(),
{
    if s.len() == 0 {
        0
    } else {
        digits_value(s.drop_last()) * 10 + (s.last() as nat - 48) as nat
    }
}

/// The value of `s` when it is one or more ASCII digits writing a number of at most `max`.
pub open spec fn parse_digits(s: Seq<char>, max: nat) -> Option<nat> {
    if s.len() > 0 && (forall|i: int| 0 <= i < s.len() ==> is_digit(#[trigger] s[i]))
        && digits_value(s) <= max {
        Some(digits_value(s))
    } else {
        None
    }
}

/// How `str::parse` reads an unsigned integer of at most `max`: an optional `+`, then one or
/// more ASCII digits.
pub open spec fn parse_unsigned(s: Seq<char>, max: nat) -> Option<nat> {
    if s.len() > 0 && s[0] == '+' {
        parse_digits(s.drop_first(), max)
    } else {
        parse_digits(s, max)
    }
}

/// The value of the ASCII digits `cs[lo..hi]`, if they are one or more digits writing a number of
/// at most `max`.
pub fn parse_digits_range(cs: &Vec<char>, lo: usize, hi: usize, max: u32) -> (r: Option<u32>)
    requires
        lo <= hi <= cs.len(),
    ensures
        match parse_digits(cs@.subrange(lo as int, hi as int), max as nat) {
            Some(v) => r == Some(v as u32),
            None => r is None,
        },
{
    let ghost s = cs@.subrange(lo as int, hi as int);
    if lo == hi {
        return None;
    }
    let cap: u64 = max as u64 + 1;
    let mut acc: u64 = 0;
    let mut i = lo;
    assert(s.take(0) =~= Seq::<char>::empty());
    while i < hi
        invariant
            lo < hi <= cs.len(),
            lo <= i <= hi,
            s == cs@.subrange(lo as int, hi as int),
            cap == max + 1,
            forall|j: int| 0 <= j < i - lo ==> is_digit(#[trigger] s[j]),
            acc == (if digits_value(s.take(i - lo)) < cap {
                digits_value(s.take(i - lo))
            } else {
                cap as nat
            }),
        decreases hi - i,
    {
        let c = cs[i];
        if !('0' <= c && c <= '9') {
            assert(!is_digit(s[i - lo]));
            return None;
        }
        let d: u64 = (c as u32 - 48) as u64;
        let ghost prev = s.take(i - lo);
        let ghost next = s.take(i - lo + 1);
        assert(next.drop_last() =~= prev);
        assert(next.last() == c);
        assert(digits_value(next) == digits_value(prev) * 10 + d);
        if acc < cap {
            let v = acc * 10 + d;
            acc = if v < cap {
                v
            } else {
                cap
            };
        }
        i += 1;
    }
    assert(s.take(hi - lo) =~= s);
    if acc < cap {
        Some(acc as u32)
    } else {
        None
    }
}

/// `str::parse` of an unsigned integer of at most `max` on `cs[lo..hi]`.
pub fn parse_unsigned_range(cs: &Vec<char>, lo: usize, hi: usize, max: u32) -> (r: Option<u32>)
    requires
        lo <= hi <= cs.len(),
    ensures
        match parse_unsigned(cs@.subrange(lo as int, hi as int), max as nat) {
            Some(v) => r == Some(v as u32),
            None => r is None,
        },
{
    if lo < hi && cs[lo] == '+' {
        assert(cs@.subrange(lo as int, hi as int).drop_first() =~= cs@.subrange(
            lo + 1,
            hi as int,
        ));
        parse_digits_range(cs, lo + 1, hi, max)
    } else {
        parse_digits_range(cs, lo, hi, max)
    }
}

} // verus!
