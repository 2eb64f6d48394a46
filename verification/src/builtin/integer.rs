//! The built-in operations on integers.
use super::action::{two, Action, Said};
use crate::big_int::{
    decimal, int_add, int_clone, int_from_nat, int_less, int_magnitude, int_parse, int_value,
    mod_floor, nat_is_zero, nat_try_from, nat_value, nat_zero,
};
use crate::sub_text::{substr_chars, substr_str};
use arcstr::Substr;
use num_bigint::{BigInt, BigUint};
use vstd::prelude::*;

verus! {

/// The remainder of `x` modulo `y`, or zero if `y` is zero.
pub open spec fn modulo(x: int, y: nat) -> nat {
    if y == 0 {
        0
    } else {
        (x % (y as int)) as nat
    }
}

/// The remainder of `x` modulo `y`, or zero if `y` is zero.
pub fn int_mod(x: BigInt, y: BigUint) -> (r: BigUint)
    ensures
        nat_value(r) == modulo(int_value(x), nat_value(y)),
{
    if nat_is_zero(&y) {
        nat_zero()
    } else {
        nat_try_from(mod_floor(x, int_from_nat(y))).unwrap()
    }
}

/// The lesser of two numbers.
pub open spec fn lesser(x: int, y: int) -> int {
    if x <= y {
        x
    } else {
        y
    }
}

/// The greater of two numbers.
pub open spec fn greater(x: int, y: int) -> int {
    if x <= y {
        y
    } else {
        x
    }
}

/// The lesser of two numbers.
pub fn int_min(x: BigInt, y: BigInt) -> (r: BigInt)
    ensures
        int_value(r) == lesser(int_value(x), int_value(y)),
{
    if int_less(&y, &x) {
        y
    } else {
        x
    }
}

/// The greater of two numbers.
pub fn int_max(x: BigInt, y: BigInt) -> (r: BigInt)
    ensures
        int_value(r) == greater(int_value(x), int_value(y)),
{
    if int_less(&y, &x) {
        x
    } else {
        y
    }
}

/// The number that is not greater than `max`, and then not less than `min`, next to `n`.
pub open spec fn clamped(n: int, min: int, max: int) -> int {
    greater(lesser(n, max), min)
}

/// The number next to `n` that is not greater than `max`, and then not less than `min`.
pub fn int_clamp(n: BigInt, min: BigInt, max: BigInt) -> (r: BigInt)
    ensures
        int_value(r) == clamped(int_value(n), int_value(min), int_value(max)),
{
    int_max(int_min(n, max), min)
}

/// A number without its sign.
pub fn int_abs(n: BigInt) -> (r: BigUint)
    ensures
        nat_value(r) == if int_value(n) < 0 {
            -int_value(n)
        } else {
            int_value(n)
        },
{
    int_magnitude(n)
}

/// What is said of a range that has come to `i` and ends before `hi`: the item `i`, or the
/// end.
pub open spec fn range_says(i: int, hi: int) -> Seq<Said> {
    if i < hi {
        seq![Said::Signal("item"@), Said::SendInt(i)]
    } else {
        seq![Said::Signal("end"@), Said::Break]
    }
}

/// A step through a range that has come to `i` and ends before `hi`: what is said, and what
/// the range has come to then, unless it is done.
pub fn int_range(i: BigInt, hi: &BigInt) -> (r: (Vec<Action>, Option<BigInt>))
    ensures
        r.0.deep_view() == range_says(int_value(i), int_value(*hi)),
        match r.1 {
            Some(next) => int_value(i) < int_value(*hi) && int_value(next) == int_value(i) + 1,
            None => int_value(i) >= int_value(*hi),
        },
{
    if int_less(&i, hi) {
        let item = int_clone(&i);
        (two(Action::Signal("item"), Action::SendInt(item)), Some(int_add(i, 1)))
    } else {
        (two(Action::Signal("end"), Action::Break), None)
    }
}

/// What is said of the text of a number: the number, or that it is none.
pub open spec fn from_string_says(text: Seq<char>) -> Seq<Said> {
    match decimal(text) {
        Some(n) => seq![Said::Signal("some"@), Said::ProvideInt(n)],
        None => seq![Said::Signal("none"@), Said::Break],
    }
}

/// Reads a number from a text.
pub fn int_from_string(text: Substr) -> (r: Vec<Action>)
    ensures
        r.deep_view() == from_string_says(substr_chars(text)),
{
    match int_parse(substr_str(&text)) {
        Ok(n) => two(Action::Signal("some"), Action::ProvideInt(n)),
        Err(_) => two(Action::Signal("none"), Action::Break),
    }
}

/// A remainder is less than what it is taken modulo, and differs from the number by a multiple
/// of that.
pub proof fn modulo_remainder(x: int, y: nat)
    requires
        y > 0,
    ensures
        modulo(x, y) < y,
        exists|k: int| x == #[trigger] (k * y) + modulo(x, y),
{
    assert(x == (x / (y as int)) * y + x % (y as int)) by (nonlinear_arith)
        requires
            y > 0,
    ;
    assert(0 <= x % (y as int) < y) by (nonlinear_arith)
        requires
            y > 0,
    ;
    let k = x / (y as int);
    assert(x == (k * y) + modulo(x, y));
}

/// A number that is not between the bounds is moved to one of them, and one that is stays
/// where it is.
pub proof fn clamped_between(n: int, min: int, max: int)
    requires
        min <= max,
    ensures
        min <= clamped(n, min, max) <= max,
        min <= n <= max ==> clamped(n, min, max) == n,
        n < min ==> clamped(n, min, max) == min,
        n > max ==> clamped(n, min, max) == max,
{
}

/// The items that are said of a range, from `lo` on, until it is done.
pub open spec fn range_items(lo: int, hi: int) -> Seq<int>
    decreases hi - lo,
{
    if lo < hi {
        seq![range_says(lo, hi)[1]->SendInt_0] + range_items(lo + 1, hi)
    } else {
        Seq::empty()
    }
}

/// The items of a range are the numbers from its start to before its end, in order.
pub proof fn range_items_in_order(lo: int, hi: int)
    ensures
        range_items(lo, hi).len() == if lo < hi {
            hi - lo
        } else {
            0
        },
        forall|k: int|
            0 <= k < range_items(lo, hi).len() ==> #[trigger] range_items(lo, hi)[k] == lo + k,
    decreases hi - lo,
{
    if lo < hi {
        range_items_in_order(lo + 1, hi);
    }
}

} // verus!
