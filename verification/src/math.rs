use vstd::arithmetic::power2::pow2;
use vstd::prelude::*;

verus! {

/// The quotient of `a` by `b`, rounded up.
pub open spec fn ceil_div(a: int, b: int) -> int {
    (a + b - 1) / b
}

/// The larger of two.
pub open spec fn larger(a: int, b: int) -> int {
    if a >= b {
        a
    } else {
        b
    }
}

/// The smaller of two.
pub open spec fn smaller(a: int, b: int) -> int {
    if a <= b {
        a
    } else {
        b
    }
}

proof fn ceil_from_quotient(a: int, b: int)
    requires
        a >= 0,
        b > 0,
    ensures
        a % b == 0 ==> ceil_div(a, b) == a / b,
        a % b != 0 ==> ceil_div(a, b) == a / b + 1,
        a % b != 0 ==> a / b + 1 <= a,
        a / b >= 0,
{
    let (q, r) = (a / b, a % b);
    vstd::arithmetic::div_mod::lemma_fundamental_div_mod(a, b);
    vstd::arithmetic::div_mod::lemma_div_pos_is_pos(a, b);
    assert((q + 1) * b == b * q + b) by (nonlinear_arith);
    assert(q * b == b * q) by (nonlinear_arith);
    if r == 0 {
        vstd::arithmetic::div_mod::lemma_fundamental_div_mod_converse(a + b - 1, b, q, b - 1);
    } else {
        vstd::arithmetic::div_mod::lemma_fundamental_div_mod_converse(a + b - 1, b, q + 1, r - 1);
        assert(q + 1 <= a) by (nonlinear_arith)
            requires
                a == b * q + r,
                0 < r < b,
                q >= 0,
        ;
    }
}

/// The quotient of `a` by `b`, rounded up.
pub fn div_ceil_u32(a: u32, b: u32) -> (q: u32)
    requires
        b > 0,
    ensures
        q == ceil_div(a as int, b as int),
{
    let q: u32 = a / b;
    let r: u32 = a % b;
    proof {
        ceil_from_quotient(a as int, b as int);
    }
    if r == 0 {
        q
    } else {
        q + 1
    }
}

/// The quotient of `a` by `b`, rounded up.
pub fn div_ceil_u64(a: u64, b: u64) -> (q: u64)
    requires
        b > 0,
    ensures
        q == ceil_div(a as int, b as int),
{
    let q: u64 = a / b;
    let r: u64 = a % b;
    proof {
        ceil_from_quotient(a as int, b as int);
    }
    if r == 0 {
        q
    } else {
        q + 1
    }
}

/// The larger of two.
pub fn max_u32(a: u32, b: u32) -> (m: u32)
    ensures
        m == larger(a as int, b as int),
{
    if a >= b {
        a
    } else {
        b
    }
}

/// The smaller of two.
pub fn min_u32(a: u32, b: u32) -> (m: u32)
    ensures
        m == smaller(a as int, b as int),
{
    if a <= b {
        a
    } else {
        b
    }
}

/// The larger of two.
pub fn max_u64(a: u64, b: u64) -> (m: u64)
    ensures
        m == larger(a as int, b as int),
{
    if a >= b {
        a
    } else {
        b
    }
}

/// A quotient that is rounded up is the least that covers.
pub proof fn quotients_are_rounded_up(a: int, b: int)
    requires
        a >= 0,
        b > 0,
    ensures
        a <= ceil_div(a, b) * b < a + b,
        a > 0 <==> ceil_div(a, b) > 0,
{
    let q = ceil_div(a, b);
    vstd::arithmetic::div_mod::lemma_fundamental_div_mod(a + b - 1, b);
    vstd::arithmetic::div_mod::lemma_mod_pos_bound(a + b - 1, b);
    assert(b * q == q * b) by (nonlinear_arith);
    assert(q * b > 0 <==> q > 0) by (nonlinear_arith)
        requires
            b > 0,
    ;
    if a == 0 {
        assert(q < 1) by (nonlinear_arith)
            requires
                q * b < b,
                b > 0,
        ;
    }
}

/// Of two numbers, one is the larger and the other the smaller.
pub proof fn larger_and_smaller(a: int, b: int)
    ensures
        larger(a, b) >= a,
        larger(a, b) >= b,
        smaller(a, b) <= a,
        smaller(a, b) <= b,
        larger(a, b) + smaller(a, b) == a + b,
        larger(a, b) == a || larger(a, b) == b,
{
}

/// `p` is the least power of two that is at least `n`.
pub open spec fn is_next_power_of_two(p: int, n: int) -> bool {
    exists|k: nat| p == #[trigger] pow2(k) && p >= n && (k == 0 || pow2((k - 1) as nat) < n)
}

/// The least power of two that is at least `n`.
pub open spec fn least_power_of_two(n: int) -> int {
    choose|p: int| is_next_power_of_two(p, n)
}

/// The largest value whose least power of two can be counted in 64 bits.
pub const POWER_OF_TWO_LIMIT: u64 = 0x8000_0000_0000_0000;

/// The least power of two that is at least `n`.
pub fn next_power_of_two(n: u64) -> (p: u64)
    requires
        n <= POWER_OF_TWO_LIMIT,
    ensures
        is_next_power_of_two(p as int, n as int),
        p == least_power_of_two(n as int),
        n <= p <= POWER_OF_TWO_LIMIT,
        p > 0,
{
    let mut p: u64 = 1;
    let ghost mut k: nat = 0;
    proof {
        vstd::arithmetic::power2::lemma2_to64();
        vstd::arithmetic::power2::lemma2_to64_rest();
    }
    while p < n
        invariant
            n <= 0x8000_0000_0000_0000,
            p == pow2(k),
            0 < p <= 0x8000_0000_0000_0000,
            pow2(63) == 0x8000_0000_0000_0000,
            k == 0 || pow2((k - 1) as nat) < n,
        decreases 0x1_0000_0000_0000_0000 - p,
    {
        proof {
            if k >= 63 {
                if k > 63 {
                    vstd::arithmetic::power2::lemma_pow2_strictly_increases(63, k);
                }
            } else {
                vstd::arithmetic::power2::lemma_pow2_strictly_increases(k, 63);
                vstd::arithmetic::power2::lemma_pow2_unfold(k + 1);
                if k + 1 < 63 {
                    vstd::arithmetic::power2::lemma_pow2_strictly_increases(k + 1, 63);
                }
            }
        }
        p = p * 2;
        proof {
            k = k + 1;
        }
    }
    proof {
        assert(is_next_power_of_two(p as int, n as int));
        next_power_of_two_is_unique(p as int, least_power_of_two(n as int), n as int);
    }
    p
}

/// A power of two at or above `n` with none between is unique.
pub proof fn next_power_of_two_is_unique(p: int, q: int, n: int)
    requires
        is_next_power_of_two(p, n),
        is_next_power_of_two(q, n),
    ensures
        p == q,
{
    let j = choose|k: nat|
        p == #[trigger] pow2(k) && p >= n && (k == 0 || pow2((k - 1) as nat) < n);
    let k = choose|k: nat|
        q == #[trigger] pow2(k) && q >= n && (k == 0 || pow2((k - 1) as nat) < n);
    if j < k {
        if j < k - 1 {
            vstd::arithmetic::power2::lemma_pow2_strictly_increases(j, (k - 1) as nat);
        }
    } else if k < j {
        if k < j - 1 {
            vstd::arithmetic::power2::lemma_pow2_strictly_increases(k, (j - 1) as nat);
        }
    }
}

proof fn some_power_of_two_is_next(n: int, k: nat)
    requires
        pow2(k) >= n,
    ensures
        exists|p: int| #[trigger] is_next_power_of_two(p, n) && p <= pow2(k),
    decreases k,
{
    if k == 0 || pow2((k - 1) as nat) < n {
        assert(is_next_power_of_two(pow2(k) as int, n));
    } else {
        some_power_of_two_is_next(n, (k - 1) as nat);
        let p = choose|p: int|
            #[trigger] is_next_power_of_two(p, n) && p <= pow2((k - 1) as nat);
        vstd::arithmetic::power2::lemma_pow2_strictly_increases((k - 1) as nat, k);
        assert(is_next_power_of_two(p, n) && p <= pow2(k));
    }
}

/// The least power of two is large enough, and can be counted in 64 bits.
pub proof fn least_power_of_two_bounds(n: int)
    requires
        n <= POWER_OF_TWO_LIMIT,
    ensures
        n <= least_power_of_two(n) <= POWER_OF_TWO_LIMIT,
        least_power_of_two(n) > 0,
        is_next_power_of_two(least_power_of_two(n), n),
{
    vstd::arithmetic::power2::lemma2_to64();
    vstd::arithmetic::power2::lemma2_to64_rest();
    some_power_of_two_is_next(n, 63);
    let p = choose|p: int| #[trigger] is_next_power_of_two(p, n) && p <= pow2(63);
    let q = least_power_of_two(n);
    next_power_of_two_is_unique(p, q, n);
    let k = choose|k: nat|
        q == #[trigger] pow2(k) && q >= n && (k == 0 || pow2((k - 1) as nat) < n);
    vstd::arithmetic::power2::lemma_pow2_pos(k);
}

} // verus!
