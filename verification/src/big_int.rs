//! Integers of any size: the `num_bigint` crate's `BigInt`.
use num_bigint::{BigInt, BigUint, ParseBigIntError, TryFromBigIntError};
use num_traits::Zero;
use vstd::prelude::*;

verus! {

/// `num_bigint::BigInt`, a signed integer of any size.
#[verifier::external_type_specification]
#[verifier::external_body]
pub struct ExBigInt(BigInt);

/// `num_bigint::BigUint`, a natural number of any size.
#[verifier::external_type_specification]
#[verifier::external_body]
pub struct ExBigUint(BigUint);

/// `num_bigint::ParseBigIntError`, why a text does not denote a number.
#[verifier::external_type_specification]
#[verifier::external_body]
pub struct ExParseBigIntError(ParseBigIntError);

/// `num_bigint::TryFromBigIntError`, why a number cannot be converted.
#[verifier::external_type_specification]
#[verifier::external_body]
#[verifier::reject_recursive_types(T)]
pub struct ExTryFromBigIntError<T>(TryFromBigIntError<T>);

/// The number that a `BigUint` stands for.
pub uninterp spec fn nat_value(n: BigUint) -> nat;

/// The digits of the magnitude of an integer, as `BigInt::iter_u32_digits` yields them: in
/// base 2^32, the least significant digit first.
pub uninterp spec fn int_digits(n: BigInt) -> Seq<u32>;

/// Whether the sign of an integer is `Sign::Minus`.
pub uninterp spec fn int_negative(n: BigInt) -> bool;

/// The number that a sequence of digits in base 2^32 stands for, the least significant digit
/// first.
pub open spec fn magnitude(digits: Seq<u32>) -> nat
    decreases digits.len(),
{
    if digits.len() == 0 {
        0
    } else {
        digits[0] as nat + 0x1_0000_0000 * magnitude(digits.drop_first())
    }
}

/// The number that a `BigInt` stands for.
pub open spec fn int_value(n: BigInt) -> int {
    if int_negative(n) {
        -magnitude(int_digits(n))
    } else {
        magnitude(int_digits(n)) as int
    }
}

/// Whether `c` is a decimal digit.
pub open spec fn is_digit(c: char) -> bool {
    '0' <= c && c <= '9'
}

/// Whether `s` is a row of decimal digits, with underscores anywhere but in front.
pub open spec fn is_digit_row(s: Seq<char>) -> bool {
    &&& s.len() > 0
    &&& s[0] != '_'
    &&& forall|i: int| 0 <= i < s.len() ==> is_digit(#[trigger] s[i]) || s[i] == '_'
}

/// The number that a row of decimal digits stands for; underscores count for nothing.
pub open spec fn digit_row_value(s: Seq<char>) -> nat
    decreases s.len(),
{
    if s.len() == 0 {
        0
    } else if s.last() == '_' {
        digit_row_value(s.drop_last())
    } else {
        10 * digit_row_value(s.drop_last()) + (s.last() as nat - '0' as nat) as nat
    }
}

/// The number that a text denotes in decimal, if it denotes one: an optional sign, then a
/// row of digits.
pub open spec fn decimal(s: Seq<char>) -> Option<int> {
    let negative = s.len() > 0 && s[0] == '-';
    let row = if negative || (s.len() > 0 && s[0] == '+') {
        s.drop_first()
    } else {
        s
    };
    if !is_digit_row(row) {
        None
    } else if negative {
        Some(-digit_row_value(row))
    } else {
        Some(digit_row_value(row) as int)
    }
}

/// `<` against `BigInt::ZERO`: whether the number is below zero, which is when its sign is
/// `Sign::Minus`.
#[verifier::external_body]
pub(crate) fn int_below_zero(n: &BigInt) -> (r: bool)
    ensures
        r == int_negative(*n),
        r == (int_value(*n) < 0),
{
    *n < BigInt::ZERO
}

/// `BigInt::into_parts` and the magnitude that it gives: the number without its sign.
#[verifier::external_body]
pub(crate) fn int_magnitude(n: BigInt) -> (r: BigUint)
    ensures
        nat_value(r) == if int_value(n) < 0 {
            -int_value(n)
        } else {
            int_value(n)
        },
{
    n.into_parts().1
}

/// `BigInt::clone`: the same number.
#[verifier::external_body]
pub(crate) fn int_clone(n: &BigInt) -> (r: BigInt)
    ensures
        int_value(r) == int_value(*n),
{
    n.clone()
}

/// `+` of a `BigInt` and an `i32`.
#[verifier::external_body]
pub(crate) fn int_add(n: BigInt, d: i32) -> (r: BigInt)
    ensures
        int_value(r) == int_value(n) + d,
{
    n + d
}

/// `BigInt::from(BigUint)`: the same number.
#[verifier::external_body]
pub(crate) fn int_from_nat(n: BigUint) -> (r: BigInt)
    ensures
        int_value(r) == nat_value(n),
{
    BigInt::from(n)
}

/// `BigUint::try_from(BigInt)`: the same number, if it is not below zero.
#[verifier::external_body]
pub(crate) fn nat_try_from(n: BigInt) -> (r: Result<BigUint, TryFromBigIntError<BigInt>>)
    ensures
        match r {
            Ok(m) => nat_value(m) == int_value(n),
            Err(_) => int_value(n) < 0,
        },
{
    BigUint::try_from(n)
}

/// `Zero::is_zero` on a `BigUint`.
#[verifier::external_body]
pub(crate) fn nat_is_zero(n: &BigUint) -> (r: bool)
    ensures
        r == (nat_value(*n) == 0),
{
    n.is_zero()
}

/// `BigUint::ZERO`.
#[verifier::external_body]
pub(crate) fn nat_zero() -> (r: BigUint)
    ensures
        nat_value(r) == 0,
{
    BigUint::ZERO
}

/// `num_integer::mod_floor` on two `BigInt`s: the remainder of the division that rounds down,
/// which has the sign of the divisor. The call panics on a divisor of zero.
#[verifier::external_body]
pub(crate) fn mod_floor(x: BigInt, y: BigInt) -> (r: BigInt)
    requires
        int_value(y) != 0,
    ensures
        int_value(y) > 0 ==> int_value(r) == int_value(x) % int_value(y),
        int_value(y) < 0 ==> int_value(r) == -((-int_value(x)) % (-int_value(y))),
{
    num_integer::mod_floor(x, y)
}

/// `str::parse` for a `BigInt`: the number that the text denotes in decimal.
#[verifier::external_body]
pub(crate) fn int_parse(text: &str) -> (r: Result<BigInt, ParseBigIntError>)
    ensures
        match r {
            Ok(n) => decimal(text@) == Some(int_value(n)),
            Err(_) => decimal(text@) is None,
        },
{
    text.parse::<BigInt>()
}

/// `BigInt::from(usize)`: the same number.
#[verifier::external_body]
pub(crate) fn int_from(n: usize) -> (r: BigInt)
    ensures
        int_value(r) == n,
{
    BigInt::from(n)
}

/// `<` on two `BigInt`s.
#[verifier::external_body]
pub(crate) fn int_less(a: &BigInt, b: &BigInt) -> (r: bool)
    ensures
        r == (int_value(*a) < int_value(*b)),
{
    a < b
}

/// `==` on two `BigInt`s.
#[verifier::external_body]
pub(crate) fn int_same(a: &BigInt, b: &BigInt) -> (r: bool)
    ensures
        r == (int_value(*a) == int_value(*b)),
{
    a == b
}

/// `BigInt::iter_u32_digits` and the first digit that it yields, if it yields one.
#[verifier::external_body]
pub(crate) fn int_first_digit(n: &BigInt) -> (r: Option<u32>)
    ensures
        match r {
            Some(d) => int_digits(*n).len() > 0 && int_digits(*n)[0] == d,
            None => int_digits(*n).len() == 0,
        },
{
    n.iter_u32_digits().next()
}

/// `%` of a `BigInt` by a `u32`: the remainder of the division that rounds towards zero,
/// which has the sign of `n`.
#[verifier::external_body]
pub(crate) fn int_rem(n: BigInt, d: u32) -> (r: BigInt)
    requires
        d > 0,
    ensures
        int_value(n) >= 0 ==> int_value(r) == int_value(n) % (d as int),
        int_value(n) < 0 ==> int_value(r) == -((-int_value(n)) % (d as int)),
{
    n % d
}

/// `BigInt::parse_bytes` in base ten: the number that the text denotes in decimal.
#[verifier::external_body]
pub(crate) fn int_parse_bytes(text: &str) -> (r: Option<BigInt>)
    ensures
        match r {
            Some(n) => decimal(text@) == Some(int_value(n)),
            None => decimal(text@) is None,
        },
{
    BigInt::parse_bytes(text.as_bytes(), 10)
}

} // verus!
