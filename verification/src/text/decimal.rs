//! Decimal numbers: writing a number as a numeral and reading a numeral as
//! a number of 32 bits.

use crate::text::search::{first_where, is_first_where, lemma_first_where, lemma_first_where_unique};
use vstd::prelude::*;
use vstd::string::StringExecFns;

verus! {

/// Why a piece of text is not a decimal number that fits in 32 bits.
#[derive(Clone, Copy, Debug, PartialEq, Eq, Structural)]
pub enum NumberError {
    /// The text has no characters at all.
    Empty,
    /// A character that is no decimal digit stands where a digit is needed.
    InvalidDigit,
    /// The digits name a number above `u32::MAX`.
    Overflow,
}

impl NumberError {
    /// What is wrong with the text, in words.
    pub open spec fn message(self) -> Seq<char> {
        match self {
            NumberError::Empty => "cannot parse integer from empty string"@,
            NumberError::InvalidDigit => "invalid digit found in string"@,
            NumberError::Overflow => "number too large to fit in target type"@,
        }
    }

    /// What is wrong with the text, in words.
    pub fn to_string(&self) -> (text: String)
        ensures
            text@ == self.message(),
    {
        match self {
            NumberError::Empty => String::from_str("cannot parse integer from empty string"),
            NumberError::InvalidDigit => String::from_str("invalid digit found in string"),
            NumberError::Overflow => String::from_str("number too large to fit in target type"),
        }
    }
}

/// The ten ASCII decimal digits.
pub open spec fn is_digit(c: char) -> bool {
    '0' <= c <= '9'
}

/// The number that a decimal digit stands for.
pub open spec fn digit_value(c: char) -> nat {
    (c as u32 - 48) as nat
}

/// The decimal digit that stands for `d`, for `d` below ten.
pub open spec fn digit_char(d: nat) -> char {
    (d + 48) as char
}

/// The shortest decimal numeral of `n`.
pub open spec fn decimal(n: nat) -> Seq<char>
    decreases n,
{
    if n < 10 {
        seq![digit_char(n)]
    } else {
        decimal(n / 10).push(digit_char(n % 10))
    }
}

/// The number that a sequence of decimal digits names, most significant
/// digit first.
pub open spec fn decimal_value(s: Seq<char>) -> nat
    decreases s.len(),
{
    if s.len() == 0 {
        0
    } else {
        decimal_value(s.drop_last()) * 10 + digit_value(s.last())
    }
}

/// The text without one leading plus sign.
pub open spec fn unsigned_part(s: Seq<char>) -> Seq<char> {
    if s.len() > 0 && s[0] == '+' {
        s.skip(1)
    } else {
        s
    }
}

/// The longest prefix of `s` made of decimal digits only.
pub open spec fn leading_digits(s: Seq<char>) -> Seq<char> {
    s.take(first_where(s, |c: char| !is_digit(c)))
}

/// Reads `s` as an unsigned decimal number of 32 bits: an optional plus sign
/// and one or more digits. The error is the one met first when reading from
/// the left.
pub open spec fn parse_decimal(s: Seq<char>) -> Result<u32, NumberError> {
    let digits = unsigned_part(s);
    let run = leading_digits(digits);
    if s.len() == 0 {
        Err(NumberError::Empty)
    } else if digits.len() == 0 {
        Err(NumberError::InvalidDigit)
    } else if decimal_value(run) > u32::MAX {
        Err(NumberError::Overflow)
    } else if run.len() < digits.len() {
        Err(NumberError::InvalidDigit)
    } else {
        Ok(decimal_value(digits) as u32)
    }
}

/// Holds when `s` is written as a decimal number: one or more digits, after
/// at most one plus sign. The number may be of any size.
pub open spec fn numeral(s: Seq<char>) -> bool {
    let digits = unsigned_part(s);
    &&& digits.len() > 0
    &&& forall|i: int| 0 <= i < digits.len() ==> is_digit(#[trigger] digits[i])
}

/// Every character of a decimal numeral is a digit, and there is at least one.
pub proof fn lemma_decimal_is_digits(n: nat)
    ensures
        decimal(n).len() >= 1,
        forall|i: int| 0 <= i < decimal(n).len() ==> is_digit(#[trigger] decimal(n)[i]),
    decreases n,
{
    if n >= 10 {
        lemma_decimal_is_digits(n / 10);
    }
}

/// Reading a decimal numeral gives back the number it was written for.
pub proof fn lemma_decimal_value_of_decimal(n: nat)
    ensures
        decimal_value(decimal(n)) == n,
    decreases n,
{
    if n < 10 {
        assert(decimal(n).drop_last() =~= Seq::<char>::empty());
        assert(decimal_value(decimal(n).drop_last()) == 0);
    } else {
        lemma_decimal_value_of_decimal(n / 10);
        assert(decimal(n).drop_last() =~= decimal(n / 10));
    }
}

/// Two numbers with the same decimal numeral are the same number.
pub proof fn lemma_decimal_injective(a: nat, b: nat)
    requires
        decimal(a) == decimal(b),
    ensures
        a == b,
{
    lemma_decimal_value_of_decimal(a);
    lemma_decimal_value_of_decimal(b);
}

/// A prefix of a digit sequence names a number no larger than the whole.
pub proof fn lemma_decimal_value_prefix(s: Seq<char>, k: int)
    requires
        0 <= k <= s.len(),
    ensures
        decimal_value(s.take(k)) <= decimal_value(s),
    decreases s.len() - k,
{
    if k < s.len() {
        lemma_decimal_value_prefix(s.drop_last(), k);
        assert(s.drop_last().take(k) =~= s.take(k));
    } else {
        assert(s.take(k) =~= s);
    }
}

/// The decimal numeral of a 32-bit number parses as that number.
pub proof fn lemma_parse_decimal_of_decimal(n: u32)
    ensures
        parse_decimal(decimal(n as nat)) == Ok::<u32, NumberError>(n),
{
    let s = decimal(n as nat);
    lemma_decimal_is_digits(n as nat);
    lemma_decimal_value_of_decimal(n as nat);
    assert(is_digit(s[0]));
    assert(unsigned_part(s) == s);
    let not_digit = |c: char| !is_digit(c);
    assert(is_first_where(s, not_digit, s.len() as int)) by {
        assert forall|j: int| 0 <= j < s.len() implies !#[trigger] not_digit(s[j]) by {
            assert(is_digit(s[j]));
        }
    }
    lemma_first_where_unique(s, not_digit, s.len() as int);
    assert(s.take(s.len() as int) =~= s);
}

/// A text that reads as a decimal number is a numeral.
pub proof fn lemma_parse_decimal_is_numeral(s: Seq<char>)
    requires
        parse_decimal(s) is Ok,
    ensures
        numeral(s),
{
    let digits = unsigned_part(s);
    let not_digit = |c: char| !is_digit(c);
    lemma_first_where(digits, not_digit);
    assert forall|i: int| 0 <= i < digits.len() implies is_digit(#[trigger] digits[i]) by {
        assert(!not_digit(digits[i]));
    }
}

/// A numeral reads as the number that its digits name, or as an overflow
/// where that number is above 32 bits.
pub proof fn lemma_parse_numeral(s: Seq<char>)
    requires
        numeral(s),
    ensures
        parse_decimal(s) == if decimal_value(unsigned_part(s)) > u32::MAX {
            Err::<u32, NumberError>(NumberError::Overflow)
        } else {
            Ok::<u32, NumberError>(decimal_value(unsigned_part(s)) as u32)
        },
{
    let digits = unsigned_part(s);
    let not_digit = |c: char| !is_digit(c);
    assert(is_first_where(digits, not_digit, digits.len() as int)) by {
        assert forall|j: int| 0 <= j < digits.len() implies !#[trigger] not_digit(digits[j]) by {
            assert(is_digit(digits[j]));
        }
    }
    lemma_first_where_unique(digits, not_digit, digits.len() as int);
    assert(digits.take(digits.len() as int) =~= digits);
}

/// The decimal numeral of a number is a numeral.
pub proof fn lemma_decimal_is_numeral(n: nat)
    ensures
        numeral(decimal(n)),
{
    lemma_decimal_is_digits(n);
    assert(is_digit(decimal(n)[0]));
}

/// Appends the decimal numeral of `n` to `s`.
pub fn push_decimal(s: &mut String, n: u64)
    ensures
        final(s)@ == old(s)@ + decimal(n as nat),
    decreases n,
{
    if n >= 10 {
        push_decimal(s, n / 10);
    }
    let d: u8 = (n % 10) as u8;
    let c: char = (d + 48) as char;
    s.push(c);
    proof {
        if n < 10 {
            assert(old(s)@.push(c) =~= old(s)@ + decimal(n as nat));
        } else {
            assert((old(s)@ + decimal((n / 10) as nat)).push(c) =~= old(s)@ + decimal(n as nat));
        }
    }
}

/// The decimal numeral of `n` as a string.
pub fn decimal_string(n: u64) -> (s: String)
    ensures
        s@ == decimal(n as nat),
{
    let mut s = String::new();
    push_decimal(&mut s, n);
    assert(Seq::<char>::empty() + decimal(n as nat) =~= decimal(n as nat));
    s
}

/// Whether the characters of `v` are written as a decimal number.
pub fn is_numeral(v: &Vec<char>) -> (b: bool)
    ensures
        b == numeral(v@),
{
    if v.len() == 0 {
        return false;
    }
    let start: usize = if v[0] == '+' { 1 } else { 0 };
    let ghost digits = unsigned_part(v@);
    let mut i: usize = start;
    while i < v.len()
        invariant
            start <= i <= v.len(),
            start <= 1,
            digits == v@.skip(start as int),
            digits == unsigned_part(v@),
            forall|j: int| 0 <= j < i - start ==> is_digit(#[trigger] digits[j]),
        decreases v.len() - i,
    {
        let c: char = v[i];
        assert(digits[i - start] == c);
        if !(c >= '0' && c <= '9') {
            return false;
        }
        i += 1;
    }
    start < v.len()
}

/// Reads the characters of `v` as an unsigned decimal number of 32 bits.
pub fn parse_u32(v: &Vec<char>) -> (r: Result<u32, NumberError>)
    ensures
        r == parse_decimal(v@),
{
    if v.len() == 0 {
        return Err(NumberError::Empty);
    }
    let start: usize = if v[0] == '+' { 1 } else { 0 };
    let ghost digits = unsigned_part(v@);
    let ghost not_digit = |c: char| !is_digit(c);
    if start == v.len() {
        return Err(NumberError::InvalidDigit);
    }
    let mut i: usize = start;
    let mut value: u32 = 0;
    while i < v.len()
        invariant
            start <= i <= v.len(),
            start <= 1,
            digits == v@.skip(start as int),
            digits == unsigned_part(v@),
            not_digit == |c: char| !is_digit(c),
            forall|j: int| 0 <= j < i - start ==> is_digit(#[trigger] digits[j]),
            value == decimal_value(digits.take(i - start)),
        decreases v.len() - i,
    {
        let c: char = v[i];
        let ghost k = i - start;
        assert(digits[k] == c);
        assert(digits.take(k + 1).drop_last() =~= digits.take(k));
        if !(c >= '0' && c <= '9') {
            proof {
                assert(is_first_where(digits, not_digit, k)) by {
                    assert forall|j: int| 0 <= j < k implies !#[trigger] not_digit(digits[j]) by {
                        assert(is_digit(digits[j]));
                    }
                }
                lemma_first_where_unique(digits, not_digit, k);
            }
            return Err(NumberError::InvalidDigit);
        }
        let d: u32 = c as u32 - 48;
        if value > (u32::MAX - d) / 10 {
            proof {
                lemma_first_where(digits, not_digit);
                let m = first_where(digits, not_digit);
                if m <= k {
                    assert(not_digit(digits[m]));
                }
                lemma_decimal_value_prefix(digits.take(m), k + 1);
                assert(digits.take(m).take(k + 1) =~= digits.take(k + 1));
            }
            return Err(NumberError::Overflow);
        }
        value = value * 10 + d;
        i += 1;
    }
    proof {
        let n = digits.len() as int;
        assert(is_first_where(digits, not_digit, n)) by {
            assert forall|j: int| 0 <= j < n implies !#[trigger] not_digit(digits[j]) by {
                assert(is_digit(digits[j]));
            }
        }
        lemma_first_where_unique(digits, not_digit, n);
        assert(digits.take(n) =~= digits);
    }
    Ok(value)
}

} // verus!
