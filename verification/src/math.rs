//! Integer square root (Newton's method) and its characterization.

use vstd::prelude::*;
use vstd::arithmetic::div_mod::lemma_fundamental_div_mod;
use vstd::arithmetic::div_mod::lemma_mod_division_less_than_divisor;
use vstd::arithmetic::div_mod::lemma_div_pos_is_pos;
use vstd::arithmetic::div_mod::lemma_div_by_self;
use vstd::arithmetic::div_mod::lemma_div_is_ordered;

verus! {

/// Division of non-negative integers: quotient and remainder bounds.
pub proof fn lemma_div_bounds(n: int, d: int)
    requires
        0 <= n,
        0 < d,
    ensures
        d * (n / d) <= n,
        n < d * (n / d) + d,
        0 <= n / d,
{
    lemma_fundamental_div_mod(n, d);
    lemma_mod_division_less_than_divisor(n, d);
    lemma_div_pos_is_pos(n, d);
}

/// The product of two values of the native width fits in twice the width.
pub proof fn lemma_u64_mul_fits(a: int, b: int)
    requires
        0 <= a <= u64::MAX as int,
        0 <= b <= u64::MAX as int,
    ensures
        a * b <= (u64::MAX as int) * (u64::MAX as int),
        a * b <= u128::MAX as int,
        0 <= a * b,
{
    assert(a * b <= (u64::MAX as int) * (u64::MAX as int) && 0 <= a * b) by (nonlinear_arith)
        requires
            0 <= a <= u64::MAX as int,
            0 <= b <= u64::MAX as int,
    ;
}

/// `r` is the floor of the real square root of `n`.
pub open spec fn is_sqrt_floor(n: int, r: int) -> bool {
    0 <= r && r * r <= n && n < (r + 1) * (r + 1)
}

/// The floor of the real square root of a non-negative integer.
pub closed spec fn sqrt_floor(n: int) -> int {
    choose|r: int| is_sqrt_floor(n, r)
}

/// Every non-negative integer has a floor square root.
pub proof fn lemma_sqrt_floor_exists(n: int)
    requires
        0 <= n,
    ensures
        is_sqrt_floor(n, sqrt_floor(n)),
    decreases n,
{
    if n == 0 {
        assert(is_sqrt_floor(0, 0));
    } else {
        lemma_sqrt_floor_exists(n - 1);
        let r = sqrt_floor(n - 1);
        if (r + 1) * (r + 1) <= n {
            assert(is_sqrt_floor(n, r + 1)) by (nonlinear_arith)
                requires
                    is_sqrt_floor(n - 1, r),
                    (r + 1) * (r + 1) <= n,
            ;
        } else {
            assert(is_sqrt_floor(n, r));
        }
    }
    assert(exists|s: int| is_sqrt_floor(n, s));
}

/// The floor square root is unique.
pub proof fn lemma_sqrt_floor_unique(n: int, r1: int, r2: int)
    by (nonlinear_arith)
    requires
        is_sqrt_floor(n, r1),
        is_sqrt_floor(n, r2),
    ensures
        r1 == r2,
{
}

/// A witness of `is_sqrt_floor` is the value of `sqrt_floor`.
pub proof fn lemma_sqrt_floor_val(n: int, r: int)
    requires
        is_sqrt_floor(n, r),
    ensures
        sqrt_floor(n) == r,
{
    assert(exists|s: int| is_sqrt_floor(n, s));
    assert(is_sqrt_floor(n, sqrt_floor(n)));
    lemma_sqrt_floor_unique(n, sqrt_floor(n), r);
}

/// A Newton step `x + n / x` stays within the machine width.
proof fn lemma_newton_step_fits(n: int, x: int)
    requires
        1 <= x,
        2 * x <= n + 2,
        n <= u128::MAX as int,
        n < (x + 1) * (x + 1),
    ensures
        x + n / x <= u128::MAX as int,
        0 <= n / x,
{
    let q = n / x;
    lemma_div_bounds(n, x);
    if x <= 0x1_0000_0000_0000_0000 {
        // the quotient is at most x + 2, so the sum is about 2x
        assert(q <= x + 2) by (nonlinear_arith)
            requires
                1 <= x,
                x * q <= n,
                n < (x + 1) * (x + 1),
        ;
    } else {
        // the quotient is small: x * q <= n <= u128::MAX and x exceeds 2^64
        assert(q <= 0x1_0000_0000_0000_0000) by (nonlinear_arith)
            requires
                x * q <= n,
                n <= u128::MAX as int,
                x > 0x1_0000_0000_0000_0000,
                0 <= q,
        ;
    }
}

/// One Newton step keeps the iterate at or above the floor square root.
proof fn lemma_newton_step_upper(n: int, x: int, y: int)
    requires
        1 <= x,
        0 <= n,
        n < (x + 1) * (x + 1),
        y == (x + n / x) / 2,
    ensures
        n < (y + 1) * (y + 1),
        0 <= y,
{
    let q = n / x;
    lemma_div_bounds(n, x);
    lemma_div_bounds(x + q, 2);
    assert(2 * y + 1 >= x + q && 0 <= y);
    // by the arithmetic-geometric mean bound, (x + q + 1)^2 >= 4x(q + 1) > 4n
    assert(n < (y + 1) * (y + 1)) by (nonlinear_arith)
        requires
            2 * y + 1 >= x + q,
            n < x * q + x,
            0 <= q,
            1 <= x,
    ;
}

/// Integer square root by Newton's method: returns the floor of the real
/// square root of `n`, for every `n`.
pub fn integer_sqrt(n: u128) -> (r: u128)
    ensures
        is_sqrt_floor(n as int, r as int),
        r as int == sqrt_floor(n as int),
{
    if n == 0 {
        proof {
            lemma_sqrt_floor_val(0, 0);
        }
        return 0;
    }
    if n < 3 {
        proof {
            lemma_sqrt_floor_val(n as int, 1);
        }
        return 1;
    }
    let mut x: u128 = n;
    let mut y: u128 = n / 2 + 1;
    proof {
        lemma_div_bounds(n as int, 2);
        assert(n < (x as int + 1) * (x as int + 1)) by (nonlinear_arith)
            requires
                x == n,
                n >= 3,
        ;
    }
    while y < x
        invariant
            3 <= n,
            1 <= x <= n,
            1 <= y,
            n < (x as int + 1) * (x as int + 1),
            x == n || 2 * (x as int) <= n + 2,
            (x == n && y == n / 2 + 1) || y as int == (x as int + n as int / (x as int)) / 2,
        decreases x,
    {
        let ghost x_prev: int = x as int;
        let ghost y_prev: int = y as int;
        x = y;
        proof {
            if x_prev == n as int && y_prev == n as int / 2 + 1 {
                lemma_div_bounds(n as int, 2);
                assert(2 * (x as int) <= n + 2);
                assert(n < (x as int + 1) * (x as int + 1)) by (nonlinear_arith)
                    requires
                        2 * (x as int) >= n + 1,
                        n >= 0,
                ;
            } else {
                let q = n as int / x_prev;
                lemma_div_bounds(n as int, x_prev);
                lemma_div_by_self(x_prev);
                lemma_div_is_ordered(x_prev, n as int, x_prev);
                lemma_div_bounds(x_prev + q, 2);
                assert(x_prev + q <= n + 1) by (nonlinear_arith)
                    requires
                        1 <= x_prev,
                        1 <= q,
                        x_prev * q <= n,
                ;
                assert(2 * (x as int) <= n + 2);
                lemma_newton_step_upper(n as int, x_prev, y_prev);
            }
            lemma_newton_step_fits(n as int, x as int);
        }
        y = (x + n / x) / 2;
        proof {
            let q2 = n as int / (x as int);
            lemma_div_by_self(x as int);
            lemma_div_is_ordered(x as int, n as int, x as int);
            lemma_div_bounds(x as int + q2, 2);
            assert(1 <= y);
        }
    }
    proof {
        // on exit y >= x; the seed form of y would force n < 3
        if x == n && y == n / 2 + 1 {
            lemma_div_bounds(n as int, 2);
            assert(false);
        }
        let q = n as int / (x as int);
        lemma_div_bounds(n as int, x as int);
        lemma_div_bounds(x as int + q, 2);
        assert(q >= x);
        assert(x as int * (x as int) <= n) by (nonlinear_arith)
            requires
                q >= x as int,
                1 <= x as int,
                (x as int) * q <= n,
        ;
        lemma_sqrt_floor_val(n as int, x as int);
    }
    x
}

} // verus!
