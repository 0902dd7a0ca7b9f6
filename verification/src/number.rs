//! Real numbers as this library holds them.
//!
//! The arithmetic on real numbers is left to the caller, who works in
//! binary64. What this library needs of a number is how it compares with
//! another, and that can be read off its bit pattern. So a number is held
//! as a `u64` key, the bit pattern of its binary64 form: the top bit is the
//! sign, and among the numbers of one sign a larger magnitude has the larger
//! key. Both zeros are zero, and a key past infinity is no number: it
//! compares as false with everything, itself included.

use vstd::prelude::*;

verus! {

/// The key of zero.
pub const ZERO: u64 = 0;

/// The key of one.
pub const ONE: u64 = 0x3FF0_0000_0000_0000;

/// The key of infinity.
pub const INFINITY: u64 = 0x7FF0_0000_0000_0000;

/// The sign bit: the key of negative zero.
pub const SIGN: u64 = 0x8000_0000_0000_0000;

/// The key without its sign.
pub open spec fn magnitude(key: u64) -> int {
    if key >= SIGN {
        key - SIGN
    } else {
        key as int
    }
}

/// Whether the key stands for no number.
pub open spec fn is_nan(key: u64) -> bool {
    magnitude(key) > INFINITY
}

/// Where the number stands among all numbers: keys of larger numbers have
/// larger ranks, and the two zeros have rank 0. Meaningless for keys that
/// stand for no number.
pub open spec fn rank(key: u64) -> int {
    if key >= SIGN {
        -magnitude(key)
    } else {
        magnitude(key)
    }
}

/// `a < b`.
pub open spec fn less(a: u64, b: u64) -> bool {
    !is_nan(a) && !is_nan(b) && rank(a) < rank(b)
}

/// `a <= b`.
pub open spec fn at_most(a: u64, b: u64) -> bool {
    !is_nan(a) && !is_nan(b) && rank(a) <= rank(b)
}

/// `a == b`, as numbers: the two zeros are equal, and what is no number
/// equals nothing.
pub open spec fn same(a: u64, b: u64) -> bool {
    !is_nan(a) && !is_nan(b) && rank(a) == rank(b)
}

/// Whether the number lies between zero and one, both included.
pub open spec fn is_fraction(key: u64) -> bool {
    at_most(ZERO, key) && at_most(key, ONE)
}

/// Whether the key stands for no number.
pub fn not_a_number(key: u64) -> (b: bool)
    ensures
        b == is_nan(key),
{
    if key >= SIGN {
        key - SIGN > INFINITY
    } else {
        key > INFINITY
    }
}

/// Decides `a < b`.
pub fn less_than(a: u64, b: u64) -> (r: bool)
    ensures
        r == less(a, b),
{
    if not_a_number(a) || not_a_number(b) {
        false
    } else if a >= SIGN {
        if b >= SIGN {
            a > b
        } else {
            a > SIGN || b > 0
        }
    } else {
        b < SIGN && a < b
    }
}

/// Decides `a <= b`.
pub fn no_more_than(a: u64, b: u64) -> (r: bool)
    ensures
        r == at_most(a, b),
{
    if not_a_number(a) || not_a_number(b) {
        false
    } else {
        !less_than(b, a)
    }
}

/// Decides `a == b`, as numbers.
pub fn equals(a: u64, b: u64) -> (r: bool)
    ensures
        r == same(a, b),
{
    if not_a_number(a) || not_a_number(b) {
        false
    } else {
        a == b || (a == SIGN && b == 0) || (a == 0 && b == SIGN)
    }
}

/// Decides whether the number lies between zero and one, both included.
pub fn within_unit_interval(key: u64) -> (r: bool)
    ensures
        r == is_fraction(key),
{
    key <= ONE || key == SIGN
}

/// Of numbers, exactly one of `a < b`, `a == b` and `b < a` holds, and
/// `a <= b` is the first or the second.
pub proof fn comparisons_agree(a: u64, b: u64)
    requires
        !is_nan(a),
        !is_nan(b),
    ensures
        less(a, b) || same(a, b) || less(b, a),
        !(less(a, b) && same(a, b)),
        !(less(a, b) && less(b, a)),
        !(same(a, b) && less(b, a)),
        at_most(a, b) == (less(a, b) || same(a, b)),
{
}

/// `<` passes along: from `a < b` and `b <= c` follows `a < c`.
pub proof fn less_is_transitive(a: u64, b: u64, c: u64)
    requires
        less(a, b),
        at_most(b, c),
    ensures
        less(a, c),
{
}

/// Among the numbers that are zero or more and written with a clear sign
/// bit, the smaller has the smaller key.
pub proof fn keys_order_distances(a: u64, b: u64)
    requires
        a <= INFINITY,
        b <= INFINITY,
    ensures
        less(a, b) == (a < b),
        same(a, b) == (a == b),
{
}

} // verus!
