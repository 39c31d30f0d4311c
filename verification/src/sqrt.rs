//! The integer square root.

use vstd::prelude::*;

verus! {

/// Whether `r` is the square root of `n`, rounded down.
pub open spec fn is_floor_sqrt(n: nat, r: nat) -> bool {
    r * r <= n < (r + 1) * (r + 1)
}

/// The square root of `n`, rounded down.
pub open spec fn floor_sqrt(n: nat) -> nat {
    choose|r: nat| is_floor_sqrt(n, r)
}

/// Zero is its own square root.
pub proof fn lemma_floor_sqrt_zero()
    ensures
        is_floor_sqrt(0, 0),
{
    assert(0nat * 0nat <= 0nat < (0nat + 1) * (0nat + 1)) by (nonlinear_arith);
}

/// Every number has a square root, rounded down.
proof fn lemma_floor_sqrt_exists(n: nat)
    ensures
        exists|r: nat| is_floor_sqrt(n, r),
    decreases n,
{
    if n == 0 {
        lemma_floor_sqrt_zero();
    } else {
        let m = (n - 1) as nat;
        lemma_floor_sqrt_exists(m);
        let r = choose|r: nat| is_floor_sqrt(m, r);
        if n < (r + 1) * (r + 1) {
            assert(is_floor_sqrt(n, r));
        } else {
            assert((r + 1) * (r + 1) < (r + 2) * (r + 2)) by (nonlinear_arith);
            assert(is_floor_sqrt(n, r + 1));
        }
    }
}

/// The square root is not above `b` where `b` is too large for a root of a smaller number.
proof fn lemma_square_order(a: nat, b: nat)
    requires
        a * a < (b + 1) * (b + 1),
    ensures
        a <= b,
{
    assert(a <= b) by (nonlinear_arith)
        requires
            a * a < (b + 1) * (b + 1),
    ;
}

/// The square root is what its definition says.
pub proof fn lemma_floor_sqrt(n: nat)
    ensures
        is_floor_sqrt(n, floor_sqrt(n)),
{
    lemma_floor_sqrt_exists(n);
}

/// There is only one.
pub proof fn lemma_floor_sqrt_unique(n: nat, r: nat)
    requires
        is_floor_sqrt(n, r),
    ensures
        floor_sqrt(n) == r,
{
    lemma_floor_sqrt(n);
    lemma_square_order(floor_sqrt(n), r);
    lemma_square_order(r, floor_sqrt(n));
}

/// A larger number has no smaller square root.
pub proof fn lemma_floor_sqrt_monotone(m: nat, n: nat)
    requires
        m <= n,
    ensures
        floor_sqrt(m) <= floor_sqrt(n),
{
    lemma_floor_sqrt(m);
    lemma_floor_sqrt(n);
    lemma_square_order(floor_sqrt(m), floor_sqrt(n));
}

/// The square root of `n`, rounded down.
pub fn isqrt(n: u64) -> (r: u64)
    ensures
        r == floor_sqrt(n as nat),
{
    let target: u128 = n as u128;
    let mut low: u128 = 0;
    let mut high: u128 = 0x1_0000_0000;
    assert(0x1_0000_0000u128 * 0x1_0000_0000u128 > u64::MAX) by (nonlinear_arith);
    while high - low > 1
        invariant
            low < high <= 0x1_0000_0000,
            target == n,
            low * low <= target < high * high,
        decreases high - low,
    {
        let mid: u128 = low + (high - low) / 2;
        assert(mid * mid <= 0x1_0000_0000u128 * 0x1_0000_0000u128) by (nonlinear_arith)
            requires
                mid <= 0x1_0000_0000,
        ;
        if mid * mid <= target {
            low = mid;
        } else {
            high = mid;
        }
    }
    assert(high == low + 1);
    proof {
        lemma_floor_sqrt_unique(n as nat, low as nat);
    }
    low as u64
}

/// The square root that is computed is the largest number whose square is not above the number.
pub proof fn root_is_the_largest_that_fits(n: u64, r: u64)
    requires
        call_ensures(isqrt, (n,), r),
    ensures
        r as nat * r as nat <= n,
        n < (r as nat + 1) * (r as nat + 1),
{
    lemma_floor_sqrt(n as nat);
}

} // verus!
