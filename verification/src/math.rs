//! Integer arithmetic shared by the pool operations: the floor of a square
//! root, and a product divided by a third number without losing the high
//! bits of the product.

use vstd::prelude::*;
use crate::error::AmmError;

verus! {

/// `r` is the floor of the square root of `n`.
pub open spec fn is_floor_sqrt(n: nat, r: nat) -> bool {
    r * r <= n && n < (r + 1) * (r + 1)
}

/// The floor of the square root of `n`: the one `r` with
/// `r * r <= n < (r + 1) * (r + 1)`.
pub open spec fn floor_sqrt(n: nat) -> nat {
    choose|r: nat| is_floor_sqrt(n, r)
}

/// `x * y / d`, rounded down. Meaningful for `d > 0`.
pub open spec fn mul_div_floor(x: nat, y: nat, d: nat) -> nat {
    (x * y) / d
}

/// Every natural number has a floor square root.
pub proof fn lemma_floor_sqrt_exists(n: nat)
    ensures
        is_floor_sqrt(n, floor_sqrt(n)),
    decreases n,
{
    if n == 0 {
        assert(is_floor_sqrt(0, 0)) by (nonlinear_arith);
    } else {
        lemma_floor_sqrt_exists((n - 1) as nat);
        let r = floor_sqrt((n - 1) as nat);
        if n < (r + 1) * (r + 1) {
            assert(is_floor_sqrt(n, r));
        } else {
            assert((r + 2) * (r + 2) > (r + 1) * (r + 1)) by (nonlinear_arith);
            assert(is_floor_sqrt(n, r + 1));
        }
    }
}

/// A natural number has only one floor square root.
pub proof fn lemma_floor_sqrt_unique(n: nat, r1: nat, r2: nat)
    requires
        is_floor_sqrt(n, r1),
        is_floor_sqrt(n, r2),
    ensures
        r1 == r2,
{
    if r1 < r2 {
        assert((r1 + 1) * (r1 + 1) <= r2 * r2) by (nonlinear_arith)
            requires
                r1 + 1 <= r2,
        ;
    } else if r2 < r1 {
        assert((r2 + 1) * (r2 + 1) <= r1 * r1) by (nonlinear_arith)
            requires
                r2 + 1 <= r1,
        ;
    }
}

/// Whatever passes the two-sided test is the floor square root.
pub proof fn lemma_floor_sqrt_is(n: nat, r: nat)
    requires
        is_floor_sqrt(n, r),
    ensures
        floor_sqrt(n) == r,
{
    lemma_floor_sqrt_exists(n);
    lemma_floor_sqrt_unique(n, r, floor_sqrt(n));
}

/// The rounded-down quotient brackets the exact one:
/// `q * d <= x * y < (q + 1) * d`.
pub proof fn lemma_mul_div_floor_brackets(x: nat, y: nat, d: nat)
    requires
        d > 0,
    ensures
        mul_div_floor(x, y, d) * d <= x * y,
        x * y < (mul_div_floor(x, y, d) + 1) * d,
{
    let n = x * y;
    let q = n / d;
    assert(q * d <= n && n < (q + 1) * d) by (nonlinear_arith)
        requires
            d > 0,
            q == n / d,
    ;
}

/// Scaling `x` by `y / d` gives less than `x` when `y < d` and `x > 0`,
/// exactly `x` when `y == d`, and at least `x` when `y >= d`.
pub proof fn lemma_mul_div_floor_scales(x: nat, y: nat, d: nat)
    requires
        d > 0,
    ensures
        y < d && x > 0 ==> mul_div_floor(x, y, d) < x,
        y == d ==> mul_div_floor(x, y, d) == x,
        y >= d ==> mul_div_floor(x, y, d) >= x,
        y <= d ==> mul_div_floor(x, y, d) <= x,
{
    let q = mul_div_floor(x, y, d);
    lemma_mul_div_floor_brackets(x, y, d);
    if y < d && x > 0 && q >= x {
        assert(q * d >= x * d) by (nonlinear_arith)
            requires
                q >= x,
        ;
        assert(x * y < x * d) by (nonlinear_arith)
            requires
                x > 0,
                y < d,
        ;
    }
    if y >= d && q < x {
        assert((q + 1) * d <= x * d) by (nonlinear_arith)
            requires
                q + 1 <= x,
        ;
        assert(x * d <= x * y) by (nonlinear_arith)
            requires
                d <= y,
        ;
    }
    if y <= d && q > x {
        assert(q * d >= (x + 1) * d) by (nonlinear_arith)
            requires
                q >= x + 1,
        ;
        assert((x + 1) * d > x * d) by (nonlinear_arith)
            requires
                d > 0,
        ;
        assert(x * y <= x * d) by (nonlinear_arith)
            requires
                y <= d,
        ;
    }
}

/// One Newton step from any positive `x` lands at or above the floor square
/// root `s` of `n`.
proof fn lemma_newton_step_bound(n: nat, x: nat, s: nat)
    requires
        x > 0,
        s * s <= n,
    ensures
        (x + n / x) / 2 >= s,
{
    let q = n / x;
    assert(n < (q + 1) * x) by (nonlinear_arith)
        requires
            x > 0,
            q == n / x,
    ;
    if (x + q) / 2 < s {
        let a = q + 1;
        assert(4 * (a * x) <= (a + x) * (a + x)) by (nonlinear_arith);
        assert((a + x) * (a + x) <= (2 * s) * (2 * s)) by (nonlinear_arith)
            requires
                a + x <= 2 * s,
        ;
        assert((2 * s) * (2 * s) == 4 * (s * s)) by (nonlinear_arith);
        assert(a * x <= s * s);
        assert(false);
    }
}

/// The floor of the square root of `n`, by Newton's iteration from `n`
/// downwards.
pub fn integer_sqrt(n: u128) -> (r: u128)
    ensures
        r as nat == floor_sqrt(n as nat),
        is_floor_sqrt(n as nat, r as nat),
{
    let ghost s: nat = floor_sqrt(n as nat);
    proof {
        lemma_floor_sqrt_exists(n as nat);
        if n > 0 {
            assert(s <= n) by (nonlinear_arith)
                requires
                    s * s <= n,
            ;
            assert(n / n == 1) by (nonlinear_arith)
                requires
                    n > 0,
            ;
            lemma_newton_step_bound(n as nat, n as nat, s);
        } else {
            assert(s == 0) by (nonlinear_arith)
                requires
                    s * s <= 0,
            ;
        }
    }
    let mut z: u128 = n / 2 + n % 2;
    let mut y: u128 = n;
    while z < y
        invariant
            is_floor_sqrt(n as nat, s),
            s <= y <= n,
            s <= z <= n / 2 + 1,
            y > 0 ==> z == (y + n / y) / 2,
        decreases y,
    {
        y = z;
        proof {
            assert(s >= 1) by (nonlinear_arith)
                requires
                    n >= 1,
                    n < (s + 1) * (s + 1),
            ;
            if y >= 2 {
                assert(n / y <= n / 2) by (nonlinear_arith)
                    requires
                        y >= 2,
                ;
            } else {
                assert(n < 4) by (nonlinear_arith)
                    requires
                        s <= 1,
                        n < (s + 1) * (s + 1),
                ;
                assert(n / y == n) by (nonlinear_arith)
                    requires
                        y == 1,
                ;
            }
            lemma_newton_step_bound(n as nat, y as nat, s);
        }
        z = (n / z + z) / 2;
    }
    proof {
        if y > 0 {
            let q = n / y;
            assert(y * y <= n) by (nonlinear_arith)
                requires
                    y > 0,
                    q == n / y,
                    q >= y,
            ;
            if y > s {
                assert((s + 1) * (s + 1) <= y * y) by (nonlinear_arith)
                    requires
                        s + 1 <= y,
                ;
            }
        }
    }
    y
}

/// `x * y / d` rounded down, with the product taken in 128 bits and the
/// quotient narrowed back to 64 bits under a range check.
///
/// Refused with `Overflow` when `d` is zero or the quotient does not fit in
/// 64 bits.
pub fn mul_div(x: u64, y: u64, d: u64) -> (r: Result<u64, AmmError>)
    ensures
        r is Ok <==> d != 0 && mul_div_floor(x as nat, y as nat, d as nat) <= u64::MAX,
        r matches Ok(q) ==> q == mul_div_floor(x as nat, y as nat, d as nat),
        r matches Err(e) ==> e == AmmError::Overflow,
{
    proof {
        assert(x * y <= u64::MAX * u64::MAX) by (nonlinear_arith)
            requires
                x <= u64::MAX,
                y <= u64::MAX,
        ;
    }
    let product: u128 = match (x as u128).checked_mul(y as u128) {
        Some(p) => p,
        None => { return Err(AmmError::Overflow); },
    };
    let quotient: u128 = match product.checked_div(d as u128) {
        Some(q) => q,
        None => { return Err(AmmError::Overflow); },
    };
    if quotient > u64::MAX as u128 {
        Err(AmmError::Overflow)
    } else {
        Ok(quotient as u64)
    }
}

} // verus!
