//! Canonical decimal text of unsigned integers.

use vstd::prelude::*;
use vstd::utf8::encode_utf8;

use crate::text::{ascii_utf8, find_outside, first_outside, first_outside_is_first, ByteClass};

verus! {

/// Rejected decimal text.
#[derive(Clone, Copy, Debug, PartialEq, Eq, Structural)]
pub enum UnsignedDecimalError {
    /// The text has no bytes.
    Empty,
    /// The text has more bytes than the maximum has digits.
    TooLong { max: usize, actual: usize },
    /// The byte at this offset is not a decimal digit.
    InvalidCharacter { index: usize },
    /// The text has more than one digit and begins with `0`.
    LeadingZero,
    /// The number exceeds the maximum.
    Overflow,
}

/// The number that a string of decimal digits writes.
pub open spec fn decimal_value(digits: Seq<u8>) -> nat
    decreases digits.len(),
{
    if digits.len() == 0 {
        0
    } else {
        10 * decimal_value(digits.drop_last()) + (digits.last() - 48) as nat
    }
}

/// How many decimal digits the number has.
pub open spec fn digit_count(value: nat) -> nat
    decreases value,
{
    if value < 10 {
        1
    } else {
        1 + digit_count(value / 10)
    }
}

/// The canonical decimal text of the number.
pub open spec fn decimal_text(value: nat) -> Seq<char>
    decreases value,
{
    if value < 10 {
        seq![((48 + value) as u8) as char]
    } else {
        decimal_text(value / 10).push(((48 + value % 10) as u8) as char)
    }
}

/// What the bytes read as, under the maximum.
pub open spec fn parsed_decimal(bytes: Seq<u8>, maximum: u64) -> Result<
    u64,
    UnsignedDecimalError,
> {
    let outside = first_outside(bytes, 0, ByteClass::Decimal);
    if bytes.len() == 0 {
        Err(UnsignedDecimalError::Empty)
    } else if bytes.len() > digit_count(maximum as nat) {
        Err(
            UnsignedDecimalError::TooLong {
                max: digit_count(maximum as nat) as usize,
                actual: bytes.len() as usize,
            },
        )
    } else if outside < bytes.len() {
        Err(UnsignedDecimalError::InvalidCharacter { index: outside as usize })
    } else if bytes.len() > 1 && bytes[0] == 48 {
        Err(UnsignedDecimalError::LeadingZero)
    } else if decimal_value(bytes) > maximum {
        Err(UnsignedDecimalError::Overflow)
    } else {
        Ok(decimal_value(bytes) as u64)
    }
}

spec fn power_of_ten(n: nat) -> nat
    decreases n,
{
    if n == 0 {
        1
    } else {
        10 * power_of_ten((n - 1) as nat)
    }
}

proof fn power_of_ten_monotone(a: nat, b: nat)
    requires
        a <= b,
    ensures
        1 <= power_of_ten(a) <= power_of_ten(b),
    decreases b,
{
    if a < b {
        power_of_ten_monotone(a, (b - 1) as nat);
    } else if a > 0 {
        power_of_ten_monotone((a - 1) as nat, (a - 1) as nat);
    }
}

proof fn digit_count_bounds(value: nat)
    ensures
        digit_count(value) >= 1,
        value < power_of_ten(digit_count(value)),
        value >= 10 ==> power_of_ten((digit_count(value) - 1) as nat) <= value,
    decreases value,
{
    reveal_with_fuel(power_of_ten, 2);
    if value >= 10 {
        digit_count_bounds(value / 10);
        if value / 10 < 10 {
            assert(digit_count(value / 10) == 1);
        }
    }
}

proof fn u64_digit_count(value: u64)
    ensures
        1 <= digit_count(value as nat) <= 20,
{
    digit_count_bounds(value as nat);
    if digit_count(value as nat) > 20 {
        reveal_with_fuel(power_of_ten, 21);
        power_of_ten_monotone(20, (digit_count(value as nat) - 1) as nat);
        assert(power_of_ten(20) == 100000000000000000000);
    }
}

/// Parses canonical decimal text of a number up to the maximum.
pub fn parse_bounded_u64(value: &str, maximum: u64) -> (r: Result<u64, UnsignedDecimalError>)
    ensures
        r == parsed_decimal(encode_utf8(value@), maximum),
{
    let bytes = value.as_bytes();
    if bytes.len() == 0 {
        return Err(UnsignedDecimalError::Empty);
    }
    let max_len: usize = decimal_digits(maximum);
    if bytes.len() > max_len {
        return Err(UnsignedDecimalError::TooLong { max: max_len, actual: bytes.len() });
    }
    let outside: usize = find_outside(bytes, 0, ByteClass::Decimal);
    if outside < bytes.len() {
        return Err(UnsignedDecimalError::InvalidCharacter { index: outside });
    }
    if bytes.len() > 1 && bytes[0] == 48 {
        return Err(UnsignedDecimalError::LeadingZero);
    }
    proof {
        first_outside_is_first(bytes@, 0, ByteClass::Decimal);
        u64_digit_count(maximum);
        reveal_with_fuel(power_of_ten, 21);
        assert(power_of_ten(20) == 100000000000000000000);
        assert(bytes@.take(0) =~= Seq::<u8>::empty());
    }
    let mut total: u128 = 0;
    let mut i: usize = 0;
    while i < bytes.len()
        invariant
            i <= bytes@.len() <= 20,
            forall|j: int| 0 <= j < bytes@.len() ==> 48 <= #[trigger] bytes@[j] <= 57,
            total == decimal_value(bytes@.take(i as int)),
            total < power_of_ten(i as nat),
            power_of_ten(20) == 100000000000000000000,
        decreases bytes@.len() - i,
    {
        proof {
            power_of_ten_monotone(i as nat, 20);
            power_of_ten_monotone((i + 1) as nat, 20);
            assert(bytes@.take(i + 1).drop_last() =~= bytes@.take(i as int));
        }
        total = total * 10 + (bytes[i] - 48) as u128;
        i = i + 1;
    }
    assert(bytes@.take(i as int) =~= bytes@);
    if total > maximum as u128 {
        return Err(UnsignedDecimalError::Overflow);
    }
    Ok(total as u64)
}

/// Counts the decimal digits of the number.
pub fn decimal_digits(value: u64) -> (r: usize)
    ensures
        r == digit_count(value as nat),
        1 <= r <= 20,
{
    let mut rest: u64 = value;
    let mut digits: usize = 1;
    proof {
        u64_digit_count(value);
    }
    while rest >= 10
        invariant
            digits >= 1,
            digits - 1 + digit_count(rest as nat) == digit_count(value as nat),
            digit_count(value as nat) <= 20,
        decreases rest,
    {
        proof {
            u64_digit_count(rest / 10);
        }
        rest = rest / 10;
        digits = digits + 1;
    }
    digits
}

/// Writes the canonical decimal text of the number.
pub fn decimal_string(value: u64) -> (r: String)
    ensures
        r@ == decimal_text(value as nat),
    decreases value,
{
    let mut text: String = if value < 10 {
        String::new()
    } else {
        decimal_string(value / 10)
    };
    let digit: u8 = 48 + (value % 10) as u8;
    text.push(digit as char);
    proof {
        if value < 10 {
            assert(text@ =~= decimal_text(value as nat));
        }
    }
    text
}

proof fn decimal_text_shape(value: nat)
    ensures
        decimal_text(value).len() == digit_count(value),
        forall|i: int|
            0 <= i < decimal_text(value).len() ==> '0' <= #[trigger] decimal_text(value)[i] <= '9',
        value > 0 ==> decimal_text(value)[0] != '0',
        decimal_value(encode_utf8(decimal_text(value))) == value,
    decreases value,
{
    let text = decimal_text(value);
    if value >= 10 {
        decimal_text_shape(value / 10);
    }
    ascii_utf8(text);
    let bytes = encode_utf8(text);
    if value < 10 {
        assert(bytes.drop_last() =~= Seq::<u8>::empty());
        assert(decimal_value(Seq::<u8>::empty()) == 0);
    } else {
        let rest = decimal_text(value / 10);
        ascii_utf8(rest);
        assert(bytes.drop_last() =~= encode_utf8(rest)) by {
            assert forall|i: int| 0 <= i < rest.len() implies bytes[i] == encode_utf8(rest)[i] by {
                assert(text[i] == rest[i]);
            }
        }
    }
}

/// Writing a number and reading it back gives the number.
pub proof fn written_decimal_reads_back(value: u64, maximum: u64)
    requires
        value <= maximum,
    ensures
        parsed_decimal(encode_utf8(decimal_text(value as nat)), maximum) == Ok::<
            u64,
            UnsignedDecimalError,
        >(value),
{
    let text = decimal_text(value as nat);
    let bytes = encode_utf8(text);
    decimal_text_shape(value as nat);
    ascii_utf8(text);
    first_outside_is_first(bytes, 0, ByteClass::Decimal);
    digit_count_bounds(value as nat);
    digit_count_bounds(maximum as nat);
    if digit_count(value as nat) > digit_count(maximum as nat) {
        power_of_ten_monotone(digit_count(maximum as nat), (digit_count(value as nat) - 1) as nat);
    }
    let outside = first_outside(bytes, 0, ByteClass::Decimal);
    if outside < bytes.len() {
        assert('0' <= text[outside] <= '9');
    }
    if value == 0 {
        assert(bytes.len() == 1);
    }
}

proof fn decimal_value_is_canonical(bytes: Seq<u8>)
    requires
        bytes.len() > 0,
        forall|j: int| 0 <= j < bytes.len() ==> 48 <= #[trigger] bytes[j] <= 57,
        bytes.len() > 1 ==> bytes[0] != 48,
    ensures
        encode_utf8(decimal_text(decimal_value(bytes))) == bytes,
        bytes[0] != 48 ==> decimal_value(bytes) > 0,
    decreases bytes.len(),
{
    let value = decimal_value(bytes);
    let text = decimal_text(value);
    decimal_text_shape(value);
    ascii_utf8(text);
    if bytes.len() == 1 {
        assert(bytes.drop_last() =~= Seq::<u8>::empty());
        assert(decimal_value(bytes.drop_last()) == 0);
        assert(value == bytes[0] - 48);
        assert(encode_utf8(text) =~= bytes);
    } else {
        let front = bytes.drop_last();
        assert forall|j: int| 0 <= j < front.len() implies 48 <= #[trigger] front[j] <= 57 by {
            assert(front[j] == bytes[j]);
        }
        assert(front[0] == bytes[0]);
        decimal_value_is_canonical(front);
        let rest = decimal_text(decimal_value(front));
        decimal_text_shape(decimal_value(front));
        ascii_utf8(rest);
        assert(value / 10 == decimal_value(front));
        assert(value % 10 == (bytes.last() - 48) as nat);
        assert(encode_utf8(text) =~= bytes) by {
            assert(text =~= rest.push(((48 + value % 10) as u8) as char));
            assert forall|i: int| 0 <= i < bytes.len() implies encode_utf8(text)[i] == bytes[i] by {
                if i < front.len() {
                    assert(text[i] == rest[i]);
                    assert(encode_utf8(rest)[i] == front[i]);
                }
            }
        }
    }
}

/// Text that is accepted is the canonical text of its number.
pub proof fn accepted_decimal_is_canonical(text: Seq<char>, maximum: u64)
    requires
        parsed_decimal(encode_utf8(text), maximum) is Ok,
    ensures
        text == decimal_text(parsed_decimal(encode_utf8(text), maximum)->Ok_0 as nat),
{
    let bytes = encode_utf8(text);
    first_outside_is_first(bytes, 0, ByteClass::Decimal);
    decimal_value_is_canonical(bytes);
    crate::text::utf8_injective(decimal_text(decimal_value(bytes)), text);
}

} // verus!
