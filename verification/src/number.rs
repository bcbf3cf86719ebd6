//! Unsigned integers and their decimal notation.
use vstd::prelude::*;
use crate::text::characters;

verus! {

/// The digit that stands for a number below ten.
pub open spec fn digit(value: nat) -> char {
    ('0' as u32 + value) as char
}

/// Whether a character is a decimal digit.
pub open spec fn is_digit(c: char) -> bool {
    '0' as u32 <= c as u32 <= '9' as u32
}

/// The number that a decimal digit stands for.
pub open spec fn digit_value(c: char) -> nat {
    (c as u32 - '0' as u32) as nat
}

/// A number in decimal notation, without leading zeros.
pub open spec fn decimal(value: nat) -> Seq<char>
    decreases value,
{
    if value < 10 {
        seq![digit(value)]
    } else {
        decimal(value / 10).push(digit(value % 10))
    }
}

/// The number that a sequence of decimal digits stands for.
pub open spec fn digits_value(digits: Seq<char>) -> nat
    decreases digits.len(),
{
    if digits.len() == 0 {
        0
    } else {
        digits_value(digits.drop_last()) * 10 + digit_value(digits.last())
    }
}

/// The digits of an unsigned number: what follows a plus sign, where it begins with one.
pub open spec fn unsigned_digits(text: Seq<char>) -> Seq<char> {
    if text.len() > 0 && text[0] == '+' {
        text.skip(1)
    } else {
        text
    }
}

/// The number that a text stands for: one or more digits, after a plus sign or not.
pub open spec fn unsigned(text: Seq<char>) -> Option<nat> {
    let digits = unsigned_digits(text);
    if digits.len() > 0 && (forall|i: int| 0 <= i < digits.len() ==> is_digit(#[trigger] digits[i])) {
        Some(digits_value(digits))
    } else {
        None
    }
}

/// The number that a text stands for, where it is no greater than `max`.
pub open spec fn unsigned_within(text: Seq<char>, max: nat) -> Option<nat> {
    match unsigned(text) {
        Some(value) => if value <= max {
            Some(value)
        } else {
            None
        },
        None => None,
    }
}

fn to_digit(value: u64) -> (r: char)
    requires
        value < 10,
    ensures
        r == digit(value as nat),
{
    (48u8 + value as u8) as char
}

/// A number in decimal notation, without leading zeros.
pub fn decimal_text(value: u64) -> (r: String)
    ensures
        r@ == decimal(value as nat),
    decreases value,
{
    if value < 10 {
        let mut out = String::new();
        out.push(to_digit(value));
        assert(out@ =~= decimal(value as nat));
        out
    } else {
        let mut out = decimal_text(value / 10);
        out.push(to_digit(value % 10));
        out
    }
}

/// A size in decimal notation, without leading zeros.
pub fn decimal_size(value: usize) -> (r: String)
    ensures
        r@ == decimal(value as nat),
{
    decimal_text(value as u64)
}

proof fn lemma_prefix_value(digits: Seq<char>, n: int)
    requires
        0 <= n <= digits.len(),
    ensures
        digits_value(digits.take(n)) <= digits_value(digits),
    decreases digits.len(),
{
    if n == digits.len() {
        assert(digits.take(n) =~= digits);
    } else {
        assert(digits.drop_last().take(n) =~= digits.take(n));
        lemma_prefix_value(digits.drop_last(), n);
    }
}

/// The number that a text stands for, where it is no greater than `max`.
pub fn parse_within(text: &str, max: u64) -> (r: Option<u64>)
    ensures
        r matches Some(value) ==> unsigned_within(text@, max as nat) == Some(value as nat),
        r is None ==> unsigned_within(text@, max as nat) is None,
{
    let t = characters(text);
    let start: usize = if t.len() > 0 && t[0] == '+' {
        1
    } else {
        0
    };
    let ghost digits = unsigned_digits(t@);
    assert(digits =~= t@.skip(start as int));
    if start == t.len() {
        return None;
    }
    let mut value: u64 = 0;
    assert(digits.take(0) =~= Seq::empty());
    for i in start..t.len()
        invariant
            start <= i <= t.len(),
            start < t.len(),
            t@ == text@,
            digits == unsigned_digits(text@),
            digits == t@.skip(start as int),
            forall|j: int| 0 <= j < i - start ==> is_digit(#[trigger] digits[j]),
            value == digits_value(digits.take(i - start)),
            value <= max,
    {
        let c = t[i];
        let code: u32 = c as u32;
        assert(digits[i - start] == c);
        if code < 48 || code > 57 {
            return None;
        }
        let unit: u64 = (code - 48) as u64;
        proof {
            assert(digits.take(i - start + 1).drop_last() =~= digits.take(i - start));
            assert(digits_value(digits.take(i - start + 1)) == value * 10 + unit);
            lemma_prefix_value(digits, i - start + 1);
        }
        if value > max / 10 {
            assert(value * 10 + unit > max);
            return None;
        }
        if unit > max || value * 10 > max - unit {
            return None;
        }
        value = value * 10 + unit;
    }
    assert(digits.take(digits.len() as int) =~= digits);
    Some(value)
}

/// The number that a text stands for, where it fits in 64 bits.
pub fn parse_u64(text: &str) -> (r: Option<u64>)
    ensures
        r matches Some(value) ==> unsigned_within(text@, u64::MAX as nat) == Some(value as nat),
        r is None ==> unsigned_within(text@, u64::MAX as nat) is None,
{
    parse_within(text, u64::MAX)
}

/// The size that a text stands for, where it fits in a machine word.
pub fn parse_usize(text: &str) -> (r: Option<usize>)
    ensures
        r matches Some(value) ==> unsigned_within(text@, usize::MAX as nat) == Some(value as nat),
        r is None ==> unsigned_within(text@, usize::MAX as nat) is None,
{
    match parse_within(text, usize::MAX as u64) {
        Some(value) => Some(value as usize),
        None => None,
    }
}

/// Reading the decimal notation of a number gives the number back.
pub proof fn lemma_decimal_unsigned(value: nat)
    ensures
        unsigned(decimal(value)) == Some(value),
{
    lemma_decimal_digits(value);
    assert(decimal(value)[0] != '+');
}

/// The decimal notation of a number is made of digits, at least one.
pub proof fn lemma_decimal_digits(value: nat)
    ensures
        decimal(value).len() > 0,
        forall|i: int| 0 <= i < decimal(value).len() ==> is_digit(#[trigger] decimal(value)[i]),
        digits_value(decimal(value)) == value,
    decreases value,
{
    if value < 10 {
        assert(decimal(value).drop_last() =~= Seq::empty());
        assert(digits_value(Seq::empty()) == 0);
    } else {
        lemma_decimal_digits(value / 10);
        assert(decimal(value).drop_last() =~= decimal(value / 10));
    }
}

/// One more than a count, as far as a 64-bit number goes.
pub open spec fn one_more(count: nat) -> u64 {
    if count < u64::MAX {
        (count + 1) as u64
    } else {
        u64::MAX
    }
}

/// One more than a count, as far as a 64-bit number goes.
pub fn plus_one(count: usize) -> (r: u64)
    ensures
        r == one_more(count as nat),
{
    let count = count as u64;
    if count < u64::MAX {
        count + 1
    } else {
        u64::MAX
    }
}

/// Two counts together, as far as a count goes.
pub open spec fn together(first: nat, second: nat) -> usize {
    if first + second <= usize::MAX {
        (first + second) as usize
    } else {
        usize::MAX
    }
}

/// Two counts together, as far as a count goes.
pub fn add_counts(first: usize, second: usize) -> (r: usize)
    ensures
        r == together(first as nat, second as nat),
{
    if second <= usize::MAX - first {
        first + second
    } else {
        usize::MAX
    }
}

} // verus!
