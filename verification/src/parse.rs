//! Byte-level text scanning shared by the sensor drivers: locating a byte or
//! a two-byte marker, and reading decimal integers out of a byte run.
//!
//! The kernel exposes single-wire devices as directory entries named
//! `<family>-<serial>` and their readings as small text files, so both
//! drivers need the same primitives: find a separator, parse the decimal
//! text on one side of it.

use vstd::prelude::*;

verus! {

/// ASCII decimal digit.
pub open spec fn is_ascii_digit(b: u8) -> bool {
    48 <= b && b <= 57
}

/// Every byte of `s` is an ASCII decimal digit.
pub open spec fn all_digits(s: Seq<u8>) -> bool {
    forall|i: int| 0 <= i < s.len() ==> is_ascii_digit(#[trigger] s[i])
}

/// The number written by a run of decimal digits, most significant first.
pub open spec fn digits_value(s: Seq<u8>) -> int
    decreases s.len(),
{
    if s.len() == 0 {
        0
    } else {
        digits_value(s.drop_last()) * 10 + (s.last() - 48)
    }
}

/// A digit run names a non-negative number.
pub proof fn lemma_digits_value_nonneg(s: Seq<u8>)
    requires
        all_digits(s),
    ensures
        digits_value(s) >= 0,
    decreases s.len(),
{
    if s.len() > 0 {
        assert(all_digits(s.drop_last()));
        lemma_digits_value_nonneg(s.drop_last());
    }
}

/// Extending a digit run to the right never shrinks its value: the value of
/// any prefix is a lower bound for the value of the whole run.
pub proof fn lemma_digits_value_prefix(s: Seq<u8>, i: int)
    requires
        all_digits(s),
        0 <= i <= s.len(),
    ensures
        digits_value(s.subrange(0, i)) <= digits_value(s),
    decreases s.len() - i,
{
    if i == s.len() {
        assert(s.subrange(0, i) =~= s);
    } else {
        let p = s.subrange(0, i);
        let q = s.subrange(0, i + 1);
        assert(q.drop_last() =~= p);
        assert(all_digits(p));
        lemma_digits_value_nonneg(p);
        assert(digits_value(q) == digits_value(p) * 10 + (s[i] - 48));
        lemma_digits_value_prefix(s, i + 1);
    }
}

/// What a nonempty all-digit run between `start` and `end` means, provided
/// its value does not exceed `max`; anything else does not parse.
pub open spec fn digits_to_value(s: Seq<u8>, max: int) -> Option<int> {
    if s.len() > 0 && all_digits(s) && digits_value(s) <= max {
        Some(digits_value(s))
    } else {
        None
    }
}

/// Read the decimal number written in `v[start..end]`, rejecting an empty
/// run, a non-digit byte, and a value above `max`.
pub fn parse_digits(v: &Vec<u8>, start: usize, end: usize, max: u64) -> (r: Option<u64>)
    requires
        start <= end <= v.len(),
    ensures
        (match r {
            Some(n) => n <= max && digits_to_value(v@.subrange(start as int, end as int), max as int)
                == Some(n as int),
            None => digits_to_value(v@.subrange(start as int, end as int), max as int) is None,
        }),
{
    let ghost s = v@.subrange(start as int, end as int);
    if start == end {
        return None;
    }
    let mut acc: u128 = 0;
    let mut i: usize = start;
    while i < end
        invariant
            start <= i <= end <= v.len(),
            start < end,
            s == v@.subrange(start as int, end as int),
            all_digits(v@.subrange(start as int, i as int)),
            acc == digits_value(v@.subrange(start as int, i as int)),
            acc <= max,
        decreases end - i,
    {
        let ghost p = v@.subrange(start as int, i as int);
        let ghost q = v@.subrange(start as int, i as int + 1);
        proof {
            assert(q.drop_last() =~= p);
            assert(q.last() == s[i - start]);
        }
        let b = v[i];
        if b < 48 || b > 57 {
            proof {
                assert(s[i - start] == b);
                assert(!is_ascii_digit(s[i - start]));
            }
            return None;
        }
        let wide: u128 = acc * 10 + ((b - 48) as u128);
        proof {
            assert(wide == digits_value(q));
        }
        if wide > max as u128 {
            proof {
                if all_digits(s) {
                    assert(s.subrange(0, i - start + 1) =~= q);
                    lemma_digits_value_prefix(s, i - start + 1);
                }
            }
            return None;
        }
        acc = wide;
        i = i + 1;
    }
    proof {
        assert(v@.subrange(start as int, i as int) =~= s);
    }
    Some(acc as u64)
}

/// An unsigned decimal number as `str::parse` reads it for an unsigned
/// type: an optional leading `+`, then a nonempty digit run within range.
pub open spec fn unsigned_to_value(s: Seq<u8>, max: int) -> Option<int> {
    if s.len() > 0 && s[0] == 43 {
        digits_to_value(s.skip(1), max)
    } else {
        digits_to_value(s, max)
    }
}

/// Read the unsigned decimal number written in `v[start..end]`, with an
/// optional leading `+`.
pub fn parse_unsigned(v: &Vec<u8>, start: usize, end: usize, max: u64) -> (r: Option<u64>)
    requires
        start <= end <= v.len(),
    ensures
        (match r {
            Some(n) => n <= max && unsigned_to_value(v@.subrange(start as int, end as int), max as int)
                == Some(n as int),
            None => unsigned_to_value(v@.subrange(start as int, end as int), max as int) is None,
        }),
{
    let ghost s = v@.subrange(start as int, end as int);
    if start < end && v[start] == 43 {
        proof {
            assert(s.skip(1) =~= v@.subrange(start as int + 1, end as int));
        }
        parse_digits(v, start + 1, end, max)
    } else {
        parse_digits(v, start, end, max)
    }
}

/// A signed decimal number as `str::parse` reads it for a 32-bit signed
/// type: an optional single `+` or `-`, then a nonempty digit run, and the
/// signed value within the 32-bit range.
pub open spec fn signed_to_value(s: Seq<u8>) -> Option<int> {
    if s.len() > 0 && s[0] == 45 {
        match digits_to_value(s.skip(1), 0x8000_0000) {
            Some(m) => Some(-m),
            None => None,
        }
    } else if s.len() > 0 && s[0] == 43 {
        digits_to_value(s.skip(1), 0x7FFF_FFFF)
    } else {
        digits_to_value(s, 0x7FFF_FFFF)
    }
}

/// Read the signed decimal number written in `v[start..end]`, accepting
/// exactly the values of a 32-bit signed integer.
pub fn parse_signed(v: &Vec<u8>, start: usize, end: usize) -> (r: Option<i64>)
    requires
        start <= end <= v.len(),
    ensures
        (match r {
            Some(n) => -0x8000_0000 <= n <= 0x7FFF_FFFF && signed_to_value(
                v@.subrange(start as int, end as int),
            ) == Some(n as int),
            None => signed_to_value(v@.subrange(start as int, end as int)) is None,
        }),
{
    let ghost s = v@.subrange(start as int, end as int);
    if start < end && v[start] == 45 {
        proof {
            assert(s.skip(1) =~= v@.subrange(start as int + 1, end as int));
        }
        match parse_digits(v, start + 1, end, 0x8000_0000) {
            Some(m) => Some(-(m as i64)),
            None => None,
        }
    } else if start < end && v[start] == 43 {
        proof {
            assert(s.skip(1) =~= v@.subrange(start as int + 1, end as int));
        }
        match parse_digits(v, start + 1, end, 0x7FFF_FFFF) {
            Some(m) => Some(m as i64),
            None => None,
        }
    } else {
        match parse_digits(v, start, end, 0x7FFF_FFFF) {
            Some(m) => Some(m as i64),
            None => None,
        }
    }
}

/// Index of the first occurrence of `b` in `s` at or after `i`.
pub open spec fn find_index(s: Seq<u8>, b: u8, i: int) -> Option<int>
    decreases s.len() - i,
{
    if i < 0 || i >= s.len() {
        None
    } else if s[i] == b {
        Some(i)
    } else {
        find_index(s, b, i + 1)
    }
}

proof fn lemma_find_index_at(s: Seq<u8>, b: u8, i: int, j: int)
    requires
        0 <= i <= j < s.len(),
        s[j] == b,
        forall|k: int| i <= k < j ==> s[k] != b,
    ensures
        find_index(s, b, i) == Some(j),
    decreases j - i,
{
    if i < j {
        lemma_find_index_at(s, b, i + 1, j);
    }
}

proof fn lemma_find_index_none(s: Seq<u8>, b: u8, i: int)
    requires
        0 <= i,
        forall|k: int| i <= k < s.len() ==> s[k] != b,
    ensures
        find_index(s, b, i) is None,
    decreases s.len() - i,
{
    if i < s.len() {
        lemma_find_index_none(s, b, i + 1);
    }
}

/// Find the first occurrence of `b` in `v[start..end]`; the index returned
/// counts from the start of `v`.
pub fn find_byte(v: &Vec<u8>, start: usize, end: usize, b: u8) -> (r: Option<usize>)
    requires
        start <= end <= v.len(),
    ensures
        (match r {
            Some(j) => start <= j < end && find_index(
                v@.subrange(start as int, end as int),
                b,
                0,
            ) == Some(j - start),
            None => find_index(v@.subrange(start as int, end as int), b, 0) is None,
        }),
{
    let ghost s = v@.subrange(start as int, end as int);
    let mut i: usize = start;
    while i < end
        invariant
            start <= i <= end <= v.len(),
            s == v@.subrange(start as int, end as int),
            forall|k: int| 0 <= k < i - start ==> s[k] != b,
        decreases end - i,
    {
        if v[i] == b {
            proof {
                lemma_find_index_at(s, b, 0, i - start);
            }
            return Some(i);
        }
        i = i + 1;
    }
    proof {
        lemma_find_index_none(s, b, 0);
    }
    None
}

/// Index of the first position in `s` at or after `i` where `a` is
/// immediately followed by `b`.
pub open spec fn find_marker(s: Seq<u8>, a: u8, b: u8, i: int) -> Option<int>
    decreases s.len() - i,
{
    if i < 0 || i + 2 > s.len() {
        None
    } else if s[i] == a && s[i + 1] == b {
        Some(i)
    } else {
        find_marker(s, a, b, i + 1)
    }
}

proof fn lemma_find_marker_at(s: Seq<u8>, a: u8, b: u8, i: int, j: int)
    requires
        0 <= i <= j,
        j + 2 <= s.len(),
        s[j] == a && s[j + 1] == b,
        forall|k: int| i <= k < j ==> !(#[trigger] s[k] == a && s[k + 1] == b),
    ensures
        find_marker(s, a, b, i) == Some(j),
    decreases j - i,
{
    if i < j {
        lemma_find_marker_at(s, a, b, i + 1, j);
    }
}

proof fn lemma_find_marker_none(s: Seq<u8>, a: u8, b: u8, i: int)
    requires
        0 <= i,
        forall|k: int| i <= k && k + 2 <= s.len() ==> !(#[trigger] s[k] == a && s[k + 1] == b),
    ensures
        find_marker(s, a, b, i) is None,
    decreases s.len() - i,
{
    if i + 2 <= s.len() {
        lemma_find_marker_none(s, a, b, i + 1);
    }
}

/// Find the first place in `v[start..end]` where `a` is immediately
/// followed by `b`; the index returned counts from the start of `v`.
pub fn find_pair(v: &Vec<u8>, start: usize, end: usize, a: u8, b: u8) -> (r: Option<usize>)
    requires
        start <= end <= v.len(),
    ensures
        (match r {
            Some(j) => start <= j && j + 2 <= end && find_marker(
                v@.subrange(start as int, end as int),
                a,
                b,
                0,
            ) == Some(j - start),
            None => find_marker(v@.subrange(start as int, end as int), a, b, 0) is None,
        }),
{
    let ghost s = v@.subrange(start as int, end as int);
    if end - start < 2 {
        proof {
            lemma_find_marker_none(s, a, b, 0);
        }
        return None;
    }
    let mut i: usize = start;
    while i <= end - 2
        invariant
            start <= i <= end <= v.len(),
            start + 2 <= end,
            s == v@.subrange(start as int, end as int),
            forall|k: int| 0 <= k < i - start ==> !(#[trigger] s[k] == a && s[k + 1] == b),
        decreases end - i,
    {
        if v[i] == a && v[i + 1] == b {
            proof {
                lemma_find_marker_at(s, a, b, 0, i - start);
            }
            return Some(i);
        }
        i = i + 1;
    }
    proof {
        lemma_find_marker_none(s, a, b, 0);
    }
    None
}

/// Value of the decimal prefix of a device entry name: the text before the
/// first `-`, read as an unsigned number no greater than `max`. The kernel
/// names each discovered single-wire device `<family>-<serial>`.
pub open spec fn prefix_value(name: Seq<u8>, max: int) -> Option<int> {
    match find_index(name, 45, 0) {
        None => None,
        Some(k) => unsigned_to_value(name.subrange(0, k), max),
    }
}

/// Read the decimal prefix of a device entry name, before its first `-`.
pub fn parse_name_prefix(name: &Vec<u8>, max: u64) -> (r: Option<u64>)
    ensures
        (match r {
            Some(n) => n <= max && prefix_value(name@, max as int) == Some(n as int),
            None => prefix_value(name@, max as int) is None,
        }),
{
    proof {
        assert(name@.subrange(0, name@.len() as int) =~= name@);
    }
    match find_byte(name, 0, name.len(), 45) {
        None => None,
        Some(k) => parse_unsigned(name, 0, k, max),
    }
}

} // verus!
