use vstd::prelude::*;

verus! {

// Single-precision values travel through this library as their IEEE 754 bit patterns. Only what
// the order of the patterns decides is computed here; arithmetic on them is not.

/// The bit pattern of positive infinity: a larger magnitude is not a number.
pub const INFINITY_BITS: u32 = 0x7f80_0000;

/// The bit that holds the sign.
pub const SIGN_BIT: u32 = 0x8000_0000;

/// The pattern of one.
pub const ONE: u32 = 0x3f80_0000;

/// The pattern without its sign.
pub open spec fn magnitude(b: u32) -> int {
    if b >= SIGN_BIT {
        b - SIGN_BIT
    } else {
        b as int
    }
}

/// Not a number.
pub open spec fn is_nan(b: u32) -> bool {
    magnitude(b) > INFINITY_BITS
}

/// Orders the patterns of numbers as the numbers; both zeros are equal.
pub open spec fn rank(b: u32) -> int {
    if b >= SIGN_BIT {
        -magnitude(b)
    } else {
        magnitude(b)
    }
}

/// `a < b` on the values.
pub open spec fn float_lt(a: u32, b: u32) -> bool {
    !is_nan(a) && !is_nan(b) && rank(a) < rank(b)
}

/// `a == b` on the values: no pattern that is not a number equals anything.
pub open spec fn float_eq(a: u32, b: u32) -> bool {
    !is_nan(a) && !is_nan(b) && rank(a) == rank(b)
}

/// `a` clamped into `[lo, hi]`; a pattern that is not a number stays as it is.
pub open spec fn float_clamp(a: u32, lo: u32, hi: u32) -> u32 {
    if float_lt(a, lo) {
        lo
    } else if float_lt(hi, a) {
        hi
    } else {
        a
    }
}

fn signed_rank(b: u32) -> (r: i64)
    ensures
        r == rank(b),
{
    if b >= SIGN_BIT {
        -((b - SIGN_BIT) as i64)
    } else {
        b as i64
    }
}

fn not_a_number(b: u32) -> (r: bool)
    ensures
        r == is_nan(b),
{
    let m: u32 = if b >= SIGN_BIT {
        b - SIGN_BIT
    } else {
        b
    };
    m > INFINITY_BITS
}

/// `a < b` on the values.
pub fn lt(a: u32, b: u32) -> (r: bool)
    ensures
        r == float_lt(a, b),
{
    !not_a_number(a) && !not_a_number(b) && signed_rank(a) < signed_rank(b)
}

/// `a == b` on the values.
pub fn eq(a: u32, b: u32) -> (r: bool)
    ensures
        r == float_eq(a, b),
{
    !not_a_number(a) && !not_a_number(b) && signed_rank(a) == signed_rank(b)
}

/// Clamps the value into `[lo, hi]`.
pub fn clamp(a: u32, lo: u32, hi: u32) -> (r: u32)
    ensures
        r == float_clamp(a, lo, hi),
{
    if lt(a, lo) {
        lo
    } else if lt(hi, a) {
        hi
    } else {
        a
    }
}

/// A clamped number lies between the bounds, and clamping again changes nothing.
pub proof fn clamp_is_idempotent_and_bounded(a: u32, lo: u32, hi: u32)
    requires
        !is_nan(lo),
        !is_nan(hi),
        rank(lo) <= rank(hi),
    ensures
        float_clamp(float_clamp(a, lo, hi), lo, hi) == float_clamp(a, lo, hi),
        !is_nan(a) ==> rank(lo) <= rank(float_clamp(a, lo, hi)) <= rank(hi),
        is_nan(a) ==> float_clamp(a, lo, hi) == a,
{
}

/// Patterns are ordered as their values are: those without a sign as they are, those with one the
/// other way round and before the others, and both zeros are the same. What is not a number is
/// neither before nor behind anything, nor equal to anything.
pub proof fn patterns_are_ordered(a: u32, b: u32)
    ensures
        ({
            let (neg_a, neg_b) = (a >= 0x8000_0000, b >= 0x8000_0000);
            let number = |p: u32|
                p <= 0x7f80_0000 || (0x8000_0000 <= p && p <= 0xff80_0000);
            let zero = |p: u32| p == 0 || p == 0x8000_0000;
            &&& is_nan(a) <==> !number(a)
            &&& !number(a) || !number(b) ==> !float_lt(a, b) && !float_eq(a, b)
            &&& number(a) && number(b) ==> {
                &&& !neg_a && !neg_b ==> (float_lt(a, b) <==> a < b)
                &&& neg_a && neg_b ==> (float_lt(a, b) <==> b < a)
                &&& neg_a && !neg_b ==> (float_lt(a, b) <==> !(zero(a) && zero(b)))
                &&& !neg_a && neg_b ==> !float_lt(a, b)
                &&& float_eq(a, b) <==> a == b || (zero(a) && zero(b))
            }
        }),
{
}

/// A value that lies within its bounds stays, and one that does not becomes the bound that it
/// passed.
pub open spec fn is_bounded(given: u32, kept: u32, lo: u32, hi: u32) -> bool {
    &&& lo <= given <= hi ==> kept == given
    &&& hi < given <= 0x7f80_0000 ==> kept == hi
    &&& given < lo ==> kept == lo
    &&& 0x8000_0000 < given <= 0xff80_0000 ==> kept == lo
}

/// Clamping leaves what lies within the bounds, and what is not a number; and else gives the bound
/// that was passed.
pub proof fn clamping_keeps_what_is_within(a: u32, lo: u32, hi: u32)
    requires
        lo <= 0x7f80_0000,
        hi <= 0x7f80_0000,
        lo <= hi,
    ensures
        lo <= a <= hi ==> float_clamp(a, lo, hi) == a,
        hi < a <= 0x7f80_0000 ==> float_clamp(a, lo, hi) == hi,
        a < lo ==> float_clamp(a, lo, hi) == lo,
        0x8000_0000 < a <= 0xff80_0000 ==> float_clamp(a, lo, hi) == lo,
        a == 0x8000_0000 && lo > 0 ==> float_clamp(a, lo, hi) == lo,
        a == 0x8000_0000 && lo == 0 ==> float_clamp(a, lo, hi) == a,
        0x7f80_0000 < a < 0x8000_0000 || a > 0xff80_0000 ==> float_clamp(a, lo, hi) == a,
{
}

} // verus!
