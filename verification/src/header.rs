//! Header validation: the magic type tag and the `"major.minor"` format
//! version string.
//!
//! Only major version 1 is understood; the minor component is parsed and
//! then ignored, reserved for additive future fields.

use vstd::prelude::*;

verus! {

/// The fixed magic value of the `$type` field.
pub open spec fn spec_magic() -> Seq<char> {
    "com.anatawa12.vrc-get.custom-template"@
}

pub fn magic_tag() -> (s: &'static str)
    ensures
        s@ == spec_magic(),
{
    "com.anatawa12.vrc-get.custom-template"
}

/// An ASCII decimal digit.
pub open spec fn spec_is_digit(c: char) -> bool {
    48 <= c as u32 && c as u32 <= 57
}

/// The numeric value of a decimal digit character.
pub open spec fn spec_digit_val(c: char) -> nat {
    (c as u32 - 48) as nat
}

/// The value of a digit string, most significant digit first.
pub open spec fn spec_digits_val(s: Seq<char>) -> nat
    decreases s.len(),
{
    if s.len() == 0 {
        0
    } else {
        spec_digits_val(s.drop_last()) * 10 + spec_digit_val(s.last())
    }
}

pub open spec fn spec_all_digits(s: Seq<char>) -> bool {
    forall|i: int| 0 <= i < s.len() ==> spec_is_digit(#[trigger] s[i])
}

/// A non-empty all-digit string whose value fits in 32 bits.
pub open spec fn spec_parse_digits(digits: Seq<char>) -> Option<u32> {
    if digits.len() > 0 && spec_all_digits(digits) && spec_digits_val(digits) <= u32::MAX {
        Some(spec_digits_val(digits) as u32)
    } else {
        None
    }
}

/// What `u32::from_str` accepts: an optional leading `+`, then at least one
/// decimal digit, with a value that fits in 32 bits.
pub open spec fn spec_parse_u32(s: Seq<char>) -> Option<u32> {
    if s.len() > 0 && s[0] == '+' {
        spec_parse_digits(s.drop_first())
    } else {
        spec_parse_digits(s)
    }
}

/// The index of the first `.` in `s`, or `s.len()` if there is none.
pub open spec fn spec_first_dot(s: Seq<char>) -> int
    decreases s.len(),
{
    if s.len() == 0 {
        0
    } else if s[0] == '.' {
        0
    } else {
        1 + spec_first_dot(s.drop_first())
    }
}

/// A format version string splits at its first dot into a major and a minor
/// component, each read as `u32::from_str` reads it.
pub open spec fn spec_parse_format_version(s: Seq<char>) -> Option<(u32, u32)> {
    let d = spec_first_dot(s);
    if d == s.len() {
        None
    } else {
        match (spec_parse_u32(s.take(d)), spec_parse_u32(s.skip(d + 1))) {
            (Some(major), Some(minor)) => Some((major, minor)),
            _ => None,
        }
    }
}

/// The value of a digit string never shrinks as the string grows.
proof fn lemma_digits_val_prefix(s: Seq<char>, j: int)
    requires
        0 <= j <= s.len(),
    ensures
        spec_digits_val(s.take(j)) <= spec_digits_val(s),
    decreases s.len() - j,
{
    if j == s.len() {
        assert(s.take(j) =~= s);
    } else {
        assert(s.take(j + 1).drop_last() =~= s.take(j));
        assert(s.take(j + 1).last() == s[j]);
        lemma_digits_val_prefix(s, j + 1);
    }
}

/// `spec_first_dot` is the only index with no dot before it and a dot (or
/// the end of the string) at it.
pub(crate) proof fn lemma_first_dot_is(s: Seq<char>, d: int)
    requires
        0 <= d <= s.len(),
        forall|j: int| 0 <= j < d ==> s[j] != '.',
        d < s.len() ==> s[d] == '.',
    ensures
        spec_first_dot(s) == d,
    decreases s.len(),
{
    if s.len() == 0 {
    } else if s[0] == '.' {
        assert(d == 0);
    } else {
        assert(d >= 1);
        assert(forall|j: int| 0 <= j < d - 1 ==> #[trigger] s.drop_first()[j] == s[j + 1]);
        lemma_first_dot_is(s.drop_first(), d - 1);
    }
}

/// Parse the character range `[from, to)` of `s` as `u32::from_str` would.
fn parse_u32_range(s: &str, from: usize, to: usize) -> (r: Option<u32>)
    requires
        from <= to <= s@.len(),
    ensures
        r == spec_parse_u32(s@.subrange(from as int, to as int)),
{
    let ghost whole = s@.subrange(from as int, to as int);
    let mut i = from;
    if i < to && s.get_char(i) == '+' {
        i = i + 1;
    }
    let ghost digits = s@.subrange(i as int, to as int);
    proof {
        if from < to && s@[from as int] == '+' {
            assert(whole[0] == '+');
            assert(whole.drop_first() =~= digits);
        } else {
            assert(whole =~= digits);
        }
    }
    if i == to {
        return None;
    }
    let mut val: u64 = 0;
    let mut j = i;
    while j < to
        invariant
            i <= j <= to <= s@.len(),
            digits == s@.subrange(i as int, to as int),
            i < to,
            whole == s@.subrange(from as int, to as int),
            spec_parse_u32(whole) == spec_parse_digits(digits),
            val <= u32::MAX,
            val == spec_digits_val(s@.subrange(i as int, j as int)),
            spec_all_digits(s@.subrange(i as int, j as int)),
        decreases to - j,
    {
        let c = s.get_char(j);
        let u = c as u32;
        if !(48 <= u && u <= 57) {
            proof {
                assert(digits[j - i] == s@[j as int]);
                assert(!spec_all_digits(digits));
            }
            return None;
        }
        proof {
            assert(s@.subrange(i as int, j + 1 as int).drop_last() =~= s@.subrange(
                i as int,
                j as int,
            ));
            assert(s@.subrange(i as int, j + 1 as int).last() == s@[j as int]);
        }
        val = val * 10 + ((u - 48) as u64);
        j = j + 1;
        if val > u32::MAX as u64 {
            proof {
                let part = s@.subrange(i as int, j as int);
                assert(part =~= digits.take(j - i));
                lemma_digits_val_prefix(digits, j - i);
            }
            return None;
        }
    }
    proof {
        assert(s@.subrange(i as int, j as int) =~= digits);
    }
    Some(val as u32)
}

/// Split a version string at its first dot and read both parts as base-10
/// integers; `None` when there is no dot or either part is not a `u32`.
pub fn parse_format_version(version: &str) -> (r: Option<(u32, u32)>)
    ensures
        r == spec_parse_format_version(version@),
{
    let n = version.unicode_len();
    let mut d: usize = 0;
    while d < n && version.get_char(d) != '.'
        invariant
            d <= n,
            n == version@.len(),
            forall|j: int| 0 <= j < d ==> version@[j] != '.',
        decreases n - d,
    {
        d = d + 1;
    }
    proof {
        lemma_first_dot_is(version@, d as int);
    }
    if d == n {
        return None;
    }
    let major = parse_u32_range(version, 0, d);
    let minor = parse_u32_range(version, d + 1, n);
    proof {
        assert(version@.subrange(0, d as int) =~= version@.take(d as int));
        assert(version@.subrange(d + 1 as int, n as int) =~= version@.skip(d + 1));
    }
    match (major, minor) {
        (Some(major), Some(minor)) => Some((major, minor)),
        _ => None,
    }
}

} // verus!
