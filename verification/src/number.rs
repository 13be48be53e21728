//! Decimal text of integers: writing an integer out and reading digits back.

use vstd::prelude::*;
use crate::text::{is_digit, is_ascii_digit, string_of, chars_of, slice_chars};

verus! {

/// The character of a decimal digit `0..=9`.
pub open spec fn digit_char(d: int) -> char {
    ((48 + d) as u8) as char
}

/// The value of a decimal digit character.
pub open spec fn digit_value(c: char) -> int {
    (c as u32) as int - 48
}

/// Decimal text of a natural number, without leading zeros.
pub open spec fn decimal_nat(n: nat) -> Seq<char>
    decreases n,
{
    if n < 10 {
        seq![digit_char(n as int)]
    } else {
        decimal_nat(n / 10).push(digit_char((n % 10) as int))
    }
}

/// Decimal text of an integer: a minus sign for a negative one, then its magnitude.
pub open spec fn decimal(n: int) -> Seq<char> {
    if n < 0 {
        seq!['-'] + decimal_nat((-n) as nat)
    } else {
        decimal_nat(n as nat)
    }
}

/// Every character is an ASCII digit.
pub open spec fn all_digits(s: Seq<char>) -> bool {
    forall|i: int| 0 <= i < s.len() ==> is_digit(#[trigger] s[i])
}

/// The number that a run of decimal digits writes.
pub open spec fn digits_value(s: Seq<char>) -> nat
    decreases s.len(),
{
    if s.len() == 0 {
        0
    } else {
        (digits_value(s.drop_last()) * 10 + digit_value(s.last())) as nat
    }
}

/// The 64-bit signed integer written by a non-empty run of digits under a sign,
/// where there is one.
pub open spec fn parse_signed(s: Seq<char>, negative: bool) -> Option<int> {
    if s.len() == 0 || !all_digits(s) {
        None
    } else {
        let v = if negative {
            -(digits_value(s) as int)
        } else {
            digits_value(s) as int
        };
        if i64::MIN <= v <= i64::MAX {
            Some(v)
        } else {
            None
        }
    }
}

fn push_decimal(m: u64, out: &mut Vec<char>)
    ensures
        final(out)@ == old(out)@ + decimal_nat(m as nat),
    decreases m,
{
    if m >= 10 {
        push_decimal(m / 10, out);
    }
    let d: u8 = (m % 10) as u8;
    let ghost before = out@;
    out.push((48u8 + d) as char);
    assert(out@ =~= old(out)@ + decimal_nat(m as nat));
}

/// Decimal text of an unsigned number.
pub fn u64_to_string(m: u64) -> (r: String)
    ensures
        r@ == decimal(m as int),
{
    let mut out: Vec<char> = Vec::new();
    push_decimal(m, &mut out);
    assert(out@ =~= decimal_nat(m as nat));
    string_of(&out)
}

/// Decimal text of a signed number.
pub fn i64_to_string(n: i64) -> (r: String)
    ensures
        r@ == decimal(n as int),
{
    let mut out: Vec<char> = Vec::new();
    if n < 0 {
        out.push('-');
        let m: u64 = (0 - (n as i128)) as u64;
        push_decimal(m, &mut out);
        assert(out@ =~= seq!['-'] + decimal_nat((-n) as nat));
    } else {
        push_decimal(n as u64, &mut out);
        assert(out@ =~= decimal_nat(n as nat));
    }
    string_of(&out)
}

/// A longer run of digits writes a number at least as large.
pub proof fn lemma_digits_value_monotone(s: Seq<char>, i: int)
    requires
        0 <= i <= s.len(),
        all_digits(s),
    ensures
        digits_value(s.subrange(0, i)) <= digits_value(s),
    decreases s.len() - i,
{
    if i < s.len() {
        let a = s.subrange(0, i + 1);
        assert(a.drop_last() =~= s.subrange(0, i));
        assert(is_digit(s[i]));
        assert(a.last() == s[i]);
        lemma_digits_value_monotone(s, i + 1);
    } else {
        assert(s.subrange(0, i) =~= s);
    }
}

/// Reads a run of ASCII digits as a 64-bit signed integer, negated where
/// `negative` is set. `None` where the run is empty, holds another character,
/// or writes a number outside the range.
pub fn parse_digits(digits: &Vec<char>, negative: bool) -> (r: Option<i64>)
    ensures
        match r {
            Some(n) => parse_signed(digits@, negative) == Some(n as int),
            None => parse_signed(digits@, negative).is_none(),
        },
{
    if digits.len() == 0 {
        return None;
    }
    let mut i: usize = 0;
    while i < digits.len()
        invariant
            i <= digits.len(),
            forall|j: int| 0 <= j < i ==> is_digit(#[trigger] digits@[j]),
        decreases digits.len() - i,
    {
        if !is_ascii_digit(digits[i]) {
            return None;
        }
        i += 1;
    }
    assert(all_digits(digits@));
    let limit: i128 = 9223372036854775808i128;
    let mut acc: i128 = 0;
    let mut k: usize = 0;
    while k < digits.len()
        invariant
            k <= digits.len(),
            all_digits(digits@),
            limit == 9223372036854775808i128,
            0 <= acc <= limit,
            acc == digits_value(digits@.subrange(0, k as int)),
        decreases digits.len() - k,
    {
        let c = digits[k];
        assert(is_digit(digits@[k as int]));
        let d: i128 = (c as u32 - 48) as i128;
        let ghost a = digits@.subrange(0, k + 1);
        assert(a.drop_last() =~= digits@.subrange(0, k as int));
        assert(a.last() == c);
        let next: i128 = acc * 10 + d;
        if next > limit {
            proof {
                lemma_digits_value_monotone(digits@, k + 1);
            }
            return None;
        }
        acc = next;
        k += 1;
    }
    assert(digits@.subrange(0, digits.len() as int) =~= digits@);
    if negative {
        Some((0 - acc) as i64)
    } else if acc == limit {
        None
    } else {
        Some(acc as i64)
    }
}

/// The 64-bit signed integer that a text writes: an optional `+` or `-`, then
/// one or more ASCII digits, the whole within range.
pub open spec fn parse_integer(s: Seq<char>) -> Option<int> {
    if s.len() > 0 && s[0] == '-' {
        parse_signed(s.subrange(1, s.len() as int), true)
    } else if s.len() > 0 && s[0] == '+' {
        parse_signed(s.subrange(1, s.len() as int), false)
    } else {
        parse_signed(s, false)
    }
}

/// Reads a text as a 64-bit signed integer.
pub fn parse_i64(s: &str) -> (r: Option<i64>)
    ensures
        match r {
            Some(n) => parse_integer(s@) == Some(n as int),
            None => parse_integer(s@).is_none(),
        },
{
    let v = chars_of(s);
    if v.len() > 0 && v[0] == '-' {
        let rest = slice_chars(&v, 1, v.len());
        parse_digits(&rest, true)
    } else if v.len() > 0 && v[0] == '+' {
        let rest = slice_chars(&v, 1, v.len());
        parse_digits(&rest, false)
    } else {
        parse_digits(&v, false)
    }
}

/// The natural number written by a non-empty run of digits.
pub open spec fn parse_natural(s: Seq<char>) -> Option<nat> {
    if s.len() == 0 || !all_digits(s) {
        None
    } else {
        Some(digits_value(s))
    }
}

/// Reads a run of ASCII digits as an unsigned 64-bit number. `None` where
/// the run is empty, holds another character, or writes a larger number.
pub fn parse_u64(digits: &Vec<char>) -> (r: Option<u64>)
    ensures
        match r {
            Some(n) => parse_natural(digits@) == Some(n as nat),
            None => parse_natural(digits@).is_none() || parse_natural(digits@)->0 > u64::MAX,
        },
{
    if digits.len() == 0 {
        return None;
    }
    let mut i: usize = 0;
    while i < digits.len()
        invariant
            i <= digits.len(),
            forall|j: int| 0 <= j < i ==> is_digit(#[trigger] digits@[j]),
        decreases digits.len() - i,
    {
        if !is_ascii_digit(digits[i]) {
            return None;
        }
        i += 1;
    }
    assert(all_digits(digits@));
    let limit: u128 = 0xFFFF_FFFF_FFFF_FFFFu128;
    let mut acc: u128 = 0;
    let mut k: usize = 0;
    while k < digits.len()
        invariant
            k <= digits.len(),
            all_digits(digits@),
            limit == 0xFFFF_FFFF_FFFF_FFFFu128,
            0 <= acc <= limit,
            acc == digits_value(digits@.subrange(0, k as int)),
        decreases digits.len() - k,
    {
        let c = digits[k];
        assert(is_digit(digits@[k as int]));
        let d: u128 = (c as u32 - 48) as u128;
        let ghost a = digits@.subrange(0, k + 1);
        assert(a.drop_last() =~= digits@.subrange(0, k as int));
        assert(a.last() == c);
        let next: u128 = acc * 10 + d;
        if next > limit {
            proof {
                lemma_digits_value_monotone(digits@, k + 1);
            }
            return None;
        }
        acc = next;
        k += 1;
    }
    assert(digits@.subrange(0, digits.len() as int) =~= digits@);
    Some(acc as u64)
}

/// Writing a natural number out and reading the digits back gives the number.
pub proof fn lemma_decimal_round_trip(n: nat)
    ensures
        decimal_nat(n).len() > 0,
        all_digits(decimal_nat(n)),
        digits_value(decimal_nat(n)) == n,
        parse_natural(decimal_nat(n)) == Some(n),
    decreases n,
{
    if n < 10 {
        let s = decimal_nat(n);
        assert(s =~= seq![digit_char(n as int)]);
        assert(is_digit(s[0]));
        assert(s.drop_last() =~= Seq::<char>::empty());
        assert(digits_value(s.drop_last()) == 0);
        assert(digit_value(s.last()) == n);
    } else {
        lemma_decimal_round_trip(n / 10);
        let head = decimal_nat(n / 10);
        let s = decimal_nat(n);
        let d = digit_char((n % 10) as int);
        assert(s == head.push(d));
        assert(s.drop_last() =~= head);
        assert(s.last() == d);
        assert(is_digit(d));
        assert(digit_value(d) == n % 10);
        assert forall|i: int| 0 <= i < s.len() implies is_digit(#[trigger] s[i]) by {
            if i < head.len() {
                assert(s[i] == head[i]);
            }
        }
    }
}

} // verus!
