//! Keys for the parameters of a ray.
//!
//! The nearest-hit query compares parameters and does nothing else with
//! them, so it takes them as integers. A renderer that computes in single
//! precision hands over the bit pattern of a parameter, 32 bits in sign and
//! magnitude form: the top bit is the sign, the other 31 bits grow with the
//! size of the number, and magnitudes above that of infinity are not
//! numbers. The key of a pattern is the signed integer that it spells, so
//! that keys are ordered as the numbers are.

use vstd::prelude::*;

verus! {

/// The magnitude of infinity: the largest magnitude that is a number.
pub const INFINITY: u32 = 0x7f80_0000;

/// The sign bit of a pattern.
pub const SIGN: u32 = 0x8000_0000;

/// The key of every pattern that is not a number. It lies in no window.
pub const NOT_A_NUMBER: i64 = i64::MIN;

/// The pattern without its sign bit.
pub open spec fn magnitude(bits: u32) -> int {
    if bits >= SIGN {
        bits - SIGN
    } else {
        bits as int
    }
}

/// The pattern is that of a number, finite or infinite.
pub open spec fn is_number(bits: u32) -> bool {
    magnitude(bits) <= INFINITY
}

/// The key of a pattern: its magnitude with its sign, or
/// [`NOT_A_NUMBER`]. Both zeros have the key 0.
pub open spec fn spec_key(bits: u32) -> i64 {
    if !is_number(bits) {
        NOT_A_NUMBER
    } else if bits >= SIGN {
        (-magnitude(bits)) as i64
    } else {
        magnitude(bits) as i64
    }
}

/// The key of the bit pattern of a parameter.
#[verifier::when_used_as_spec(spec_key)]
pub fn key(bits: u32) -> (k: i64)
    ensures
        k == key(bits),
{
    let negative = bits >= SIGN;
    let magnitude: u32 = if negative {
        bits - SIGN
    } else {
        bits
    };
    if magnitude > INFINITY {
        NOT_A_NUMBER
    } else if negative {
        -(magnitude as i64)
    } else {
        magnitude as i64
    }
}

/// `k` is the key of a number.
pub open spec fn is_key(k: i64) -> bool {
    -(INFINITY as int) <= k <= INFINITY as int
}

/// The pattern of the number with the key `k`; that of positive zero for
/// the key 0.
pub open spec fn spec_pattern(k: i64) -> Option<u32> {
    if !is_key(k) {
        None
    } else if k < 0 {
        Some((SIGN - k) as u32)
    } else {
        Some(k as u32)
    }
}

/// The bit pattern of the parameter with the key `k`, or `None` where `k`
/// is the key of no number.
#[verifier::when_used_as_spec(spec_pattern)]
pub fn pattern(k: i64) -> (bits: Option<u32>)
    ensures
        bits == pattern(k),
{
    if k < -(INFINITY as i64) || k > INFINITY as i64 {
        None
    } else if k < 0 {
        Some(SIGN + ((-k) as u32))
    } else {
        Some(k as u32)
    }
}

/// Every key of a number has a pattern, and that pattern has the key.
pub proof fn law_pattern_has_its_key(k: i64)
    requires
        is_key(k),
    ensures
        pattern(k) is Some,
        is_number(pattern(k)->Some_0),
        key(pattern(k)->Some_0) == k,
{
}

/// Every number but negative zero is the pattern of its key; negative zero
/// shares the key of positive zero.
pub proof fn law_key_has_its_pattern(bits: u32)
    requires
        is_number(bits),
    ensures
        is_key(key(bits)),
        pattern(key(bits)) == Some(if bits == SIGN { 0u32 } else { bits }),
{
}

/// Keys are ordered as sign and magnitude order the numbers: a negative
/// number lies below a positive one, two positive numbers lie as their
/// magnitudes do, and two negative numbers the other way round.
pub proof fn law_keys_are_ordered(a: u32, b: u32)
    requires
        is_number(a),
        is_number(b),
    ensures
        a < SIGN && b < SIGN ==> (key(a) < key(b) <==> a < b),
        a >= SIGN && b >= SIGN ==> (key(a) < key(b) <==> a > b),
        a >= SIGN && b < SIGN ==> key(a) <= key(b),
        key(a) == key(b) <==> a == b || (magnitude(a) == 0 && magnitude(b) == 0),
{
}

/// What is not a number lies in no window: its key is below every key that
/// could open one.
pub proof fn law_not_a_number_is_never_within(bits: u32, t_min: i64)
    requires
        !is_number(bits),
    ensures
        !(t_min < key(bits)),
{
}

} // verus!
