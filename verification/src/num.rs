//! Numeric value fields, in fixed point.
//!
//! Every metric value is held as a signed count of millionths of a unit
//! (see [`crate::MICROS_PER_UNIT`]).  A value field of the status reply is a
//! decimal numeral: an optional sign, one or more integer digits, and an
//! optional fraction.  Fraction digits past the sixth carry less than one
//! millionth and are truncated toward zero.  A field that does not follow
//! this grammar, or whose value does not fit the representation, fails to
//! parse; each branch of the reply parser says what it substitutes then.

use vstd::prelude::*;

use crate::text::spec_find;
use crate::text::find_byte;

verus! {

/// ASCII decimal digit.
pub open spec fn is_digit(b: u8) -> bool {
    48 <= b && b <= 57
}

/// The value of one ASCII digit.
pub open spec fn digit_val(b: u8) -> int {
    b - 48
}

/// Whether every byte of `s` is a decimal digit.
pub open spec fn all_digits(s: Seq<u8>) -> bool {
    forall|i: int| 0 <= i < s.len() ==> is_digit(s[i])
}

/// The value of a digit string, most significant digit first.
pub open spec fn spec_digits_val(s: Seq<u8>) -> int
    decreases s.len(),
{
    if s.len() == 0 {
        0
    } else {
        spec_digits_val(s.drop_last()) * 10 + digit_val(s.last())
    }
}

/// Ten to the `n`.
pub open spec fn spec_pow10(n: nat) -> int
    decreases n,
{
    if n == 0 {
        1
    } else {
        10 * spec_pow10((n - 1) as nat)
    }
}

pub proof fn lemma_digits_val_nonneg(s: Seq<u8>)
    requires
        all_digits(s),
    ensures
        spec_digits_val(s) >= 0,
    decreases s.len(),
{
    if s.len() > 0 {
        assert(all_digits(s.drop_last()));
        lemma_digits_val_nonneg(s.drop_last());
    }
}

/// A digit string is worth at least any of its prefixes.
pub proof fn lemma_digits_val_prefix(s: Seq<u8>, k: int)
    requires
        all_digits(s),
        0 <= k <= s.len(),
    ensures
        spec_digits_val(s.subrange(0, k)) <= spec_digits_val(s),
    decreases s.len(),
{
    if k == s.len() {
        assert(s.subrange(0, k) =~= s);
    } else {
        let t = s.drop_last();
        assert(all_digits(t));
        assert(s.subrange(0, k) =~= t.subrange(0, k));
        lemma_digits_val_prefix(t, k);
        lemma_digits_val_nonneg(t);
    }
}

/// A digit string of length `n` is worth less than ten to the `n`.
pub proof fn lemma_digits_val_bound(s: Seq<u8>)
    requires
        all_digits(s),
    ensures
        spec_digits_val(s) < spec_pow10(s.len()),
    decreases s.len(),
{
    if s.len() > 0 {
        let t = s.drop_last();
        assert(all_digits(t));
        lemma_digits_val_bound(t);
        assert(digit_val(s.last()) <= 9);
    }
}

/// The small powers of ten, unfolded.
pub proof fn lemma_pow10_small()
    ensures
        spec_pow10(0) == 1,
        spec_pow10(1) == 10,
        spec_pow10(2) == 100,
        spec_pow10(3) == 1_000,
        spec_pow10(4) == 10_000,
        spec_pow10(5) == 100_000,
        spec_pow10(6) == 1_000_000,
{
    assert(spec_pow10(0) == 1);
    assert(spec_pow10(1) == 10);
    assert(spec_pow10(2) == 100);
    assert(spec_pow10(3) == 1_000);
    assert(spec_pow10(4) == 10_000);
    assert(spec_pow10(5) == 100_000);
    assert(spec_pow10(6) == 1_000_000);
}

/// The fraction digits of a numeral, as millionths: the first six digits,
/// scaled up to six places; digits past the sixth are truncated.
pub open spec fn spec_frac_micros(f: Seq<u8>) -> int {
    if f.len() <= 6 {
        spec_digits_val(f) * spec_pow10((6 - f.len()) as nat)
    } else {
        spec_digits_val(f.subrange(0, 6))
    }
}

/// The fraction part always stays below one whole unit.
pub proof fn lemma_frac_micros_bound(f: Seq<u8>)
    requires
        all_digits(f),
    ensures
        0 <= spec_frac_micros(f) < 1_000_000,
{
    lemma_pow10_small();
    if f.len() <= 6 {
        lemma_digits_val_bound(f);
        lemma_digits_val_nonneg(f);
        let v = spec_digits_val(f);
        if f.len() == 0 {
            assert(spec_frac_micros(f) == v * 1_000_000);
        } else if f.len() == 1 {
            assert(v <= 9 && spec_frac_micros(f) == v * 100_000);
        } else if f.len() == 2 {
            assert(v <= 99 && spec_frac_micros(f) == v * 10_000);
        } else if f.len() == 3 {
            assert(v <= 999 && spec_frac_micros(f) == v * 1_000);
        } else if f.len() == 4 {
            assert(v <= 9_999 && spec_frac_micros(f) == v * 100);
        } else if f.len() == 5 {
            assert(v <= 99_999 && spec_frac_micros(f) == v * 10);
        } else {
            assert(v <= 999_999 && spec_frac_micros(f) == v * 1);
        }
    } else {
        let f6 = f.subrange(0, 6);
        assert(all_digits(f6));
        lemma_digits_val_bound(f6);
        lemma_digits_val_nonneg(f6);
    }
}

/// The sign of a numeral and its unsigned body.
pub open spec fn spec_number_parts(s: Seq<u8>) -> (bool, Seq<u8>) {
    if s.len() > 0 && (s[0] == 43 || s[0] == 45) {
        (s[0] == 45, s.skip(1))
    } else {
        (false, s)
    }
}

/// Whether an unsigned numeral body follows the grammar: one or more
/// integer digits, then optionally a point and any number of fraction
/// digits.
pub open spec fn spec_valid_body(b: Seq<u8>) -> bool {
    match spec_find(b, 46) {
        None => b.len() > 0 && all_digits(b),
        Some(i) => i > 0 && all_digits(b.subrange(0, i)) && all_digits(
            b.subrange(i + 1, b.len() as int),
        ),
    }
}

/// The magnitude of a valid unsigned body, in millionths.
pub open spec fn spec_body_micros(b: Seq<u8>) -> int {
    match spec_find(b, 46) {
        None => spec_digits_val(b) * 1_000_000,
        Some(i) => spec_digits_val(b.subrange(0, i)) * 1_000_000 + spec_frac_micros(
            b.subrange(i + 1, b.len() as int),
        ),
    }
}

/// The value of a numeral field, in millionths, if it follows the grammar
/// and its magnitude fits the representation.
pub open spec fn spec_parse_number(s: Seq<u8>) -> Option<int> {
    let (neg, b) = spec_number_parts(s);
    if spec_valid_body(b) && spec_body_micros(b) <= i128::MAX {
        Some(
            if neg {
                -spec_body_micros(b)
            } else {
                spec_body_micros(b)
            },
        )
    } else {
        None
    }
}

/// The value of a numeral field, with zero substituted where it fails to
/// parse.
pub open spec fn spec_number_or_zero(s: Seq<u8>) -> int {
    match spec_parse_number(s) {
        Some(v) => v,
        None => 0,
    }
}

/// A parsed value, defaulted or not, stays inside the representable range.
pub proof fn lemma_number_or_zero_range(s: Seq<u8>)
    ensures
        -i128::MAX <= spec_number_or_zero(s) <= i128::MAX,
        -i128::MAX <= spec_micros_to_seconds(spec_number_or_zero(s)) <= i128::MAX,
{
    let (neg, b) = spec_number_parts(s);
    if spec_valid_body(b) {
        match spec_find(b, 46) {
            None => {
                lemma_digits_val_nonneg(b);
            },
            Some(i) => {
                crate::text::lemma_find(b, 46);
                lemma_digits_val_nonneg(b.subrange(0, i));
                lemma_frac_micros_bound(b.subrange(i + 1, b.len() as int));
            },
        }
    }
    let v = spec_number_or_zero(s);
    if v >= 0 {
        vstd::arithmetic::div_mod::lemma_div_nonincreasing(v, 1_000_000);
        vstd::arithmetic::div_mod::lemma_div_pos_is_pos(v, 1_000_000);
    } else {
        vstd::arithmetic::div_mod::lemma_div_nonincreasing(-v, 1_000_000);
        vstd::arithmetic::div_mod::lemma_div_pos_is_pos(-v, 1_000_000);
    }
}

/// Checks that a byte range of `s` holds digits only.
fn check_digits(s: &[u8], from: usize, to: usize) -> (r: bool)
    requires
        0 <= from <= to <= s@.len(),
    ensures
        r == all_digits(s@.subrange(from as int, to as int)),
{
    let mut i: usize = from;
    while i < to
        invariant
            from <= i <= to <= s@.len(),
            forall|j: int| from <= j < i ==> is_digit(s@[j]),
        decreases to - i,
    {
        let b = s[i];
        if b < 48 || b > 57 {
            assert(!is_digit(s@.subrange(from as int, to as int)[i - from]));
            return false;
        }
        i = i + 1;
    }
    assert(forall|j: int|
        0 <= j < to - from ==> s@.subrange(from as int, to as int)[j] == s@[from + j]);
    true
}

/// The value of the digit range `s[from..to]`, unless it exceeds `cap`.
/// A range worth more than `cap` yields nothing.
fn digits_val_capped(s: &[u8], from: usize, to: usize, cap: u128) -> (r: Option<u128>)
    requires
        0 <= from <= to <= s@.len(),
        all_digits(s@.subrange(from as int, to as int)),
        cap <= 0x1000_0000_0000_0000_0000_0000_0000_0000u128,
    ensures
        match r {
            Some(v) => v == spec_digits_val(s@.subrange(from as int, to as int)) && v <= cap,
            None => spec_digits_val(s@.subrange(from as int, to as int)) > cap,
        },
{
    let ghost whole = s@.subrange(from as int, to as int);
    let mut acc: u128 = 0;
    let mut i: usize = from;
    while i < to
        invariant
            from <= i <= to <= s@.len(),
            all_digits(whole),
            whole == s@.subrange(from as int, to as int),
            acc == spec_digits_val(s@.subrange(from as int, i as int)),
            acc <= cap,
            cap <= 0x1000_0000_0000_0000_0000_0000_0000_0000u128,
        decreases to - i,
    {
        let b = s[i];
        assert(is_digit(b) && b == whole[i - from]) by {
            assert(whole[i - from] == s@[i as int]);
        }
        let d = (b - 48) as u128;
        let next = acc * 10 + d;
        proof {
            let p = s@.subrange(from as int, i as int);
            let q = s@.subrange(from as int, i + 1);
            assert(q.drop_last() =~= p);
            assert(q.last() == s@[i as int]);
            assert(next == spec_digits_val(q));
        }
        if next > cap {
            proof {
                assert(whole.subrange(0, i + 1 - from) =~= s@.subrange(from as int, i + 1));
                lemma_digits_val_prefix(whole, i + 1 - from);
            }
            return None;
        }
        acc = next;
        i = i + 1;
    }
    proof {
        assert(s@.subrange(from as int, i as int) =~= whole);
    }
    Some(acc)
}

/// Parses a numeral field into millionths, if it follows the grammar and
/// fits the representation.
pub fn parse_number(s: &[u8]) -> (r: Option<i128>)
    ensures
        match r {
            Some(v) => spec_parse_number(s@) == Some(v as int),
            None => spec_parse_number(s@).is_none(),
        },
{
    let n = s.len();
    let ghost parts = spec_number_parts(s@);
    let mut start: usize = 0;
    let mut neg = false;
    if n > 0 && (s[0] == 43 || s[0] == 45) {
        neg = s[0] == 45;
        start = 1;
    }
    let ghost body = parts.1;
    proof {
        assert(body =~= s@.subrange(start as int, n as int));
        assert(neg == parts.0);
    }
    // Locate the point, if any, and check the digit ranges.
    let tail = vstd::slice::slice_subrange(s, start, n);
    proof {
        assert(tail@ == body);
    }
    let (int_to, frac_from): (usize, usize) = match find_byte(tail, 46) {
        None => (n, n),
        Some(i) => {
            proof {
                crate::text::lemma_find(body, 46);
            }
            (start + i, start + i + 1)
        },
    };
    let ghost int_digits = s@.subrange(start as int, int_to as int);
    let ghost frac_digits = s@.subrange(frac_from as int, n as int);
    proof {
        assert(int_digits =~= body.subrange(0, int_to - start));
        assert(frac_digits =~= body.subrange(
            frac_from - start,
            body.len() as int,
        ));
    }

    if int_to == start {
        // Empty integer part: invalid whether or not a point follows.
        return None;
    }
    if !check_digits(s, start, int_to) {
        return None;
    }
    if !check_digits(s, frac_from, n) {
        return None;
    }
    assert(spec_valid_body(body));

    // The largest representable magnitude is i128::MAX millionths; an
    // integer part beyond its whole units cannot fit.
    let cap: u128 = 170_141_183_460_469_231_731_687_303_715_884u128;
    proof {
        assert(cap * 1_000_000 + 105_727 == i128::MAX);
    }
    let int_val = match digits_val_capped(s, start, int_to, cap) {
        None => {
            proof {
                lemma_frac_micros_bound(frac_digits);
                assert(spec_body_micros(body) > i128::MAX);
            }
            return None;
        },
        Some(v) => v,
    };

    // The fraction contributes its first six digits, scaled to millionths.
    let frac_to = if n - frac_from > 6 {
        frac_from + 6
    } else {
        n
    };
    proof {
        assert(all_digits(s@.subrange(frac_from as int, frac_to as int)));
    }
    let frac6 = match digits_val_capped(s, frac_from, frac_to, 999_999u128) {
        None => {
            proof {
                let f6 = s@.subrange(frac_from as int, frac_to as int);
                lemma_digits_val_bound(f6);
                lemma_pow10_small();
            }
            // Six digits stay below a million; this branch cannot be taken.
            return None;
        },
        Some(v) => v,
    };
    let pad: u128 = if n - frac_from >= 6 {
        1
    } else if n - frac_from == 5 {
        10
    } else if n - frac_from == 4 {
        100
    } else if n - frac_from == 3 {
        1_000
    } else if n - frac_from == 2 {
        10_000
    } else if n - frac_from == 1 {
        100_000
    } else {
        1_000_000
    };
    let frac_val = frac6 * pad;
    proof {
        if frac_digits.len() <= 6 {
            assert(frac_to == n);
            assert(s@.subrange(frac_from as int, frac_to as int) =~= frac_digits);
            lemma_pow10_small();
            assert(frac_val == spec_frac_micros(frac_digits));
        } else {
            assert(s@.subrange(frac_from as int, frac_to as int) =~= frac_digits.subrange(0, 6));
            assert(frac_val == spec_frac_micros(frac_digits));
        }
        lemma_frac_micros_bound(frac_digits);
    }

    let magnitude = int_val * 1_000_000 + frac_val;
    proof {
        assert(magnitude == spec_body_micros(body));
    }
    if magnitude > 170_141_183_460_469_231_731_687_303_715_884_105_727u128 {
        proof {
            assert(spec_body_micros(body) > i128::MAX);
        }
        return None;
    }
    let m = magnitude as i128;
    if neg {
        Some(-m)
    } else {
        Some(m)
    }
}

/// Parses a numeral field into millionths, substituting zero where it
/// fails to parse.
pub fn parse_number_or_zero(s: &[u8]) -> (r: i128)
    ensures
        r == spec_number_or_zero(s@),
{
    match parse_number(s) {
        Some(v) => v,
        None => 0,
    }
}

/// Conversion of a count of microseconds into seconds, in millionths: a
/// division by one million, truncated toward zero.
pub open spec fn spec_micros_to_seconds(v: int) -> int {
    if v >= 0 {
        v / 1_000_000
    } else {
        -((-v) / 1_000_000)
    }
}

/// Divides a value by one million, truncating toward zero.
pub fn micros_to_seconds(v: i128) -> (r: i128)
    requires
        v > i128::MIN,
    ensures
        r == spec_micros_to_seconds(v as int),
{
    if v >= 0 {
        let q = (v as u128) / 1_000_000u128;
        q as i128
    } else {
        let q = ((-v) as u128) / 1_000_000u128;
        -(q as i128)
    }
}

} // verus!
