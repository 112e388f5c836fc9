//! Decimal numbers: reading them as `str::parse::<u32>` does, and writing them.

use vstd::prelude::*;

verus! {

/// Why a text is not a `u32` (the kinds of `std::num::ParseIntError` that
/// parsing an unsigned number can give).
#[derive(Debug, Clone, Copy, PartialEq, Eq)]
pub enum ParseIntError {
    /// The text is empty.
    Empty,
    /// A character that is not a decimal digit, or a lone sign.
    InvalidDigit,
    /// The number does not fit in a `u32`.
    PosOverflow,
}

pub open spec fn is_digit(c: char) -> bool {
    '0' <= c <= '9'
}

pub open spec fn digit_value(c: char) -> int {
    c as int - '0' as int
}

/// Reads the digits `d` after `acc`, left to right; the first character that
/// is not a digit, or the first step past `u32::MAX`, ends it with an error.
pub open spec fn parse_digits(d: Seq<char>, acc: int) -> Result<u32, ParseIntError>
    decreases d.len(),
{
    if d.len() == 0 {
        Ok(acc as u32)
    } else if !is_digit(d[0]) {
        Err(ParseIntError::InvalidDigit)
    } else if acc * 10 + digit_value(d[0]) > u32::MAX {
        Err(ParseIntError::PosOverflow)
    } else {
        parse_digits(d.drop_first(), acc * 10 + digit_value(d[0]))
    }
}

/// What `s.parse::<u32>()` gives: an optional leading `+`, then decimal digits.
pub open spec fn parse_u32(s: Seq<char>) -> Result<u32, ParseIntError> {
    if s.len() == 0 {
        Err(ParseIntError::Empty)
    } else if s.len() == 1 && (s[0] == '+' || s[0] == '-') {
        Err(ParseIntError::InvalidDigit)
    } else if s[0] == '+' {
        parse_digits(s.drop_first(), 0)
    } else {
        parse_digits(s, 0)
    }
}

/// `str::parse::<u32>`, on the characters of the text.
pub fn parse_u32_chars(s: &Vec<char>) -> (r: Result<u32, ParseIntError>)
    ensures
        r == parse_u32(s@),
{
    let n = s.len();
    if n == 0 {
        return Err(ParseIntError::Empty);
    }
    if n == 1 && (s[0] == '+' || s[0] == '-') {
        return Err(ParseIntError::InvalidDigit);
    }
    let mut i: usize = if s[0] == '+' { 1 } else { 0 };
    let ghost d = s@.skip(i as int);
    assert(d == (if s@[0] == '+' { s@.drop_first() } else { s@ }));
    let mut acc: u32 = 0;
    assert(s@.skip(i as int) =~= d);
    while i < n
        invariant
            n == s.len(),
            i <= n,
            parse_u32(s@) == parse_digits(s@.skip(i as int), acc as int),
        decreases n - i,
    {
        let c = s[i];
        assert(s@.skip(i as int)[0] == c);
        assert(s@.skip(i as int).drop_first() =~= s@.skip(i + 1));
        if !('0' <= c && c <= '9') {
            return Err(ParseIntError::InvalidDigit);
        }
        let dv: u64 = (c as u64) - ('0' as u64);
        let next: u64 = (acc as u64) * 10 + dv;
        if next > 4294967295u64 {
            return Err(ParseIntError::PosOverflow);
        }
        acc = next as u32;
        i = i + 1;
    }
    assert(s@.skip(i as int).len() == 0);
    Ok(acc)
}

pub open spec fn digit_char(d: nat) -> char {
    ('0' as nat + d) as char
}

/// The decimal digits of `n`, most significant first, without leading zeros.
pub open spec fn decimal(n: nat) -> Seq<char>
    decreases n,
{
    if n < 10 {
        seq![digit_char(n)]
    } else {
        decimal(n / 10).push(digit_char(n % 10))
    }
}

/// The decimal text of `n` (`n.to_string()`).
pub fn decimal_chars(n: u64) -> (v: Vec<char>)
    ensures
        v@ == decimal(n as nat),
{
    let mut v: Vec<char> = Vec::new();
    let mut rest: u64 = n;
    assert(decimal(n as nat) =~= decimal(rest as nat) + v@);
    while rest >= 10
        invariant
            decimal(n as nat) == decimal(rest as nat) + v@,
        decreases rest,
    {
        let d: u64 = rest % 10;
        let c = char_of_digit(d);
        let ghost old_v = v@;
        v.insert(0, c);
        assert(decimal(rest as nat) == decimal((rest / 10) as nat).push(digit_char((rest % 10) as nat)));
        assert(decimal(rest as nat) + old_v =~= decimal((rest / 10) as nat) + v@);
        rest = rest / 10;
    }
    let c = char_of_digit(rest);
    let ghost old_v = v@;
    v.insert(0, c);
    assert(decimal(rest as nat) + old_v =~= v@);
    v
}

fn char_of_digit(d: u64) -> (c: char)
    requires
        d < 10,
    ensures
        c == digit_char(d as nat),
{
    if d == 0 { '0' }
    else if d == 1 { '1' }
    else if d == 2 { '2' }
    else if d == 3 { '3' }
    else if d == 4 { '4' }
    else if d == 5 { '5' }
    else if d == 6 { '6' }
    else if d == 7 { '7' }
    else if d == 8 { '8' }
    else { '9' }
}

proof fn lemma_decimal_len(n: nat)
    ensures
        decimal(n).len() >= 1,
        n >= 10 ==> decimal(n).len() >= 2,
    decreases n,
{
    if n >= 10 {
        lemma_decimal_len(n / 10);
    }
}

/// Different numbers have different decimal texts.
pub proof fn lemma_decimal_injective(a: nat, b: nat)
    requires
        decimal(a) == decimal(b),
    ensures
        a == b,
    decreases a,
{
    lemma_decimal_len(a);
    lemma_decimal_len(b);
    if a < 10 && b < 10 {
        assert(decimal(a)[0] == digit_char(a));
        assert(decimal(b)[0] == digit_char(b));
    } else if a >= 10 && b >= 10 {
        assert(decimal(a).last() == digit_char(a % 10));
        assert(decimal(b).last() == digit_char(b % 10));
        assert(decimal(a).drop_last() =~= decimal(a / 10));
        assert(decimal(b).drop_last() =~= decimal(b / 10));
        lemma_decimal_injective(a / 10, b / 10);
    } else {
        assert(decimal(a).len() != decimal(b).len());
    }
}

} // verus!
