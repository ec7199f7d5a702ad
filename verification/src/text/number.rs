//! Numbers in decimal.

use vstd::prelude::*;

verus! {

/// The character of a hexadecimal digit.
pub open spec fn hex_digit(d: int) -> char {
    if d < 10 {
        ('0' as int + d) as char
    } else {
        ('a' as int + (d - 10)) as char
    }
}

/// The character of a decimal digit.
pub open spec fn digit(d: int) -> char {
    ('0' as int + d) as char
}

/// A number in decimal, without leading zeros.
pub open spec fn decimal(n: nat) -> Seq<char>
    decreases n,
{
    if n < 10 {
        seq![digit(n as int)]
    } else {
        decimal(n / 10).push(digit((n % 10) as int))
    }
}

/// `n` in decimal.
pub fn to_decimal(n: u64) -> (text: String)
    ensures
        text@ == decimal(n as nat),
    decreases n,
{
    let last: u8 = (n % 10) as u8;
    let character: char = (48u8 + last) as char;
    let mut text = if n < 10 {
        String::new()
    } else {
        to_decimal(n / 10)
    };
    text.push(character);
    assert(Seq::<char>::empty().push(character) =~= seq![character]);
    text
}

/// `n` in decimal, however large.
pub fn to_decimal_wide(n: u128) -> (text: String)
    ensures
        text@ == decimal(n as nat),
    decreases n,
{
    let last: u8 = (n % 10) as u8;
    let character: char = (48u8 + last) as char;
    let mut text = if n < 10 {
        String::new()
    } else {
        to_decimal_wide(n / 10)
    };
    text.push(character);
    assert(Seq::<char>::empty().push(character) =~= seq![character]);
    text
}

/// An integer in decimal, with a sign where it is negative.
pub open spec fn signed_decimal(n: int) -> Seq<char> {
    if n < 0 {
        seq!['-'] + decimal((-n) as nat)
    } else {
        decimal(n as nat)
    }
}

/// `n` in decimal, with a sign where it is negative.
pub fn to_signed_decimal(n: i128) -> (text: String)
    ensures
        text@ == signed_decimal(n as int),
{
    if n >= 0 {
        return to_decimal_wide(n as u128);
    }
    let size: u128 = (-(n + 1)) as u128 + 1;
    let mut text = String::new();
    text.push('-');
    assert(text@ =~= seq!['-']);
    let digits = to_decimal_wide(size);
    text.append(digits.as_str());
    text
}

/// Decimal notation is made of digits.
pub proof fn decimal_digits(n: nat)
    ensures
        decimal(n).len() > 0,
        forall|i: int| 0 <= i < decimal(n).len() ==> '0' <= #[trigger] decimal(n)[i] <= '9',
    decreases n,
{
    if n >= 10 {
        decimal_digits(n / 10);
    }
}

/// A decimal digit, as its value.
pub open spec fn digit_value(c: char) -> Option<nat> {
    if '0' <= c <= '9' {
        Some((c as int - '0' as int) as nat)
    } else {
        None
    }
}

/// The value of a run of decimal digits.
pub open spec fn decimal_value(s: Seq<char>) -> Option<nat>
    decreases s.len(),
{
    if s.len() == 0 {
        Some(0)
    } else {
        match (decimal_value(s.drop_last()), digit_value(s.last())) {
            (Some(high), Some(low)) => Some(high * 10 + low),
            _ => None,
        }
    }
}

/// Decimal notation is read back as the number it writes.
pub proof fn decimal_round_trips(n: nat)
    ensures
        decimal(n).len() > 0,
        decimal_value(decimal(n)) == Some(n),
    decreases n,
{
    if n < 10 {
        assert(decimal(n).drop_last() =~= Seq::empty());
        assert(decimal_value(decimal(n).drop_last()) == Some(0nat));
        assert(digit_value(digit(n as int)) == Some(n));
    } else {
        decimal_round_trips(n / 10);
        assert(decimal(n).drop_last() =~= decimal(n / 10));
        assert(digit_value(digit((n % 10) as int)) == Some(n % 10));
    }
}

/// Two numbers written alike are the same number.
pub proof fn decimal_is_injective(m: nat, n: nat)
    requires
        decimal(m) == decimal(n),
    ensures
        m == n,
{
    decimal_round_trips(m);
    decimal_round_trips(n);
}

/// The digits of a hexadecimal number are told apart, ten figures and six
/// letters.
pub proof fn hex_digits_are_distinct(a: int, b: int)
    requires
        0 <= a < 16,
        0 <= b < 16,
    ensures
        hex_digit(a) == hex_digit(b) ==> a == b,
        a < 10 ==> hex_digit(a) as int == '0' as int + a,
        a >= 10 ==> hex_digit(a) as int == 'a' as int + a - 10,
{
}

/// A negative number is written as its opposite behind a minus.
pub proof fn a_negative_number_has_a_minus(n: nat)
    ensures
        signed_decimal(n as int) == decimal(n),
        n > 0 ==> signed_decimal(-(n as int)) == "-"@ + decimal(n),
{
    reveal_strlit("-");
    assert(seq!['-'] =~= "-"@);
}

} // verus!
