//! Pricing rules: deposit mint, constant-product swap output, withdrawal share.

use vstd::prelude::*;
use crate::math::lemma_div_bounds;
use crate::math::sqrt_floor;
use crate::DexError;

verus! {

/// Claim tokens minted for a deposit into a funded pool:
/// `floor(amount_a * supply / reserve_a)`, priced off asset A alone.
pub open spec fn deposit_mint_spec(amount_a: int, supply: int, reserve_a: int) -> int {
    amount_a * supply / reserve_a
}

/// Claim tokens minted for a deposit, by the current supply: the geometric
/// mean of the two amounts on the first deposit, the asset-A ratio after.
pub open spec fn deposit_minted_spec(
    supply: int,
    reserve_a: int,
    amount_a: int,
    amount_b: int,
) -> int {
    if supply == 0 {
        sqrt_floor(amount_a * amount_b)
    } else {
        deposit_mint_spec(amount_a, supply, reserve_a)
    }
}

/// Constant-product swap output with the 0.3% fee taken on the input.
pub open spec fn swap_output_spec(reserve_in: int, reserve_out: int, amount_in: int) -> int {
    reserve_out * (amount_in * 997) / (reserve_in * 1000 + amount_in * 997)
}

/// Swap output of the fee-free constant-product curve.
pub open spec fn ideal_output_spec(reserve_in: int, reserve_out: int, amount_in: int) -> int {
    reserve_out * amount_in / (reserve_in + amount_in)
}

/// One asset's share of a withdrawal: `floor(lp_amount * reserve / supply)`.
pub open spec fn withdraw_share_spec(lp_amount: int, reserve: int, supply: int) -> int {
    lp_amount * reserve / supply
}

/// The swap computation faults: its 128-bit numerator overflows, or its
/// denominator is zero (both reserves of the input side and the input
/// amount are zero).
pub open spec fn swap_math_fault(reserve_in: int, reserve_out: int, amount_in: int) -> bool {
    reserve_out * (amount_in * 997) > u128::MAX as int || (reserve_in == 0 && amount_in == 0)
}

/// Comparing against a quotient decides whether a product overflows.
proof fn lemma_mul_overflow_check(a: int, b: int, m: int)
    requires
        0 <= a,
        1 <= b,
        0 <= m,
    ensures
        a > m / b <==> a * b > m,
{
    lemma_div_bounds(m, b);
    if a > m / b {
        assert(a * b > m) by (nonlinear_arith)
            requires
                a >= m / b + 1,
                m < b * (m / b) + b,
                1 <= b,
        ;
    } else {
        assert(a * b <= m) by (nonlinear_arith)
            requires
                a <= m / b,
                b * (m / b) <= m,
                1 <= b,
                0 <= a,
        ;
    }
}

/// A quotient is at most any `cap` whose product with the divisor bounds
/// the dividend.
pub proof fn lemma_div_le_cap(num: int, den: int, cap: int)
    requires
        0 <= num,
        0 < den,
        0 <= cap,
        num <= cap * den,
    ensures
        num / den <= cap,
{
    lemma_div_bounds(num, den);
    assert(num / den <= cap) by (nonlinear_arith)
        requires
            den * (num / den) <= num,
            num <= cap * den,
            0 < den,
    ;
}

/// A dividend strictly below `cap * den` has a quotient strictly below `cap`.
pub proof fn lemma_div_lt_cap(num: int, den: int, cap: int)
    requires
        0 <= num,
        0 < den,
        num < cap * den,
    ensures
        num / den < cap,
{
    lemma_div_bounds(num, den);
    assert(num / den < cap) by (nonlinear_arith)
        requires
            den * (num / den) <= num,
            num < cap * den,
            0 < den,
    ;
}

/// The swap output under the constant-product curve with the 0.3% input
/// fee, in 128-bit intermediate width. Faults on overflow of the 128-bit
/// numerator and on a zero denominator.
pub fn swap_output(reserve_in: u64, reserve_out: u64, amount_in: u64) -> (r: Result<
    u64,
    DexError,
>)
    ensures
        match r {
            Ok(out) => !swap_math_fault(reserve_in as int, reserve_out as int, amount_in as int)
                && out as int == swap_output_spec(
                reserve_in as int,
                reserve_out as int,
                amount_in as int,
            ) && out <= reserve_out,
            Err(e) => e == DexError::ArithmeticFault && swap_math_fault(
                reserve_in as int,
                reserve_out as int,
                amount_in as int,
            ),
        },
{
    let amount_in_with_fee: u128 = (amount_in as u128) * 997;
    if amount_in_with_fee > 0 {
        proof {
            lemma_mul_overflow_check(
                reserve_out as int,
                amount_in_with_fee as int,
                u128::MAX as int,
            );
        }
        if (reserve_out as u128) > u128::MAX / amount_in_with_fee {
            return Err(DexError::ArithmeticFault);
        }
    }
    let numerator: u128 = (reserve_out as u128) * amount_in_with_fee;
    let denominator: u128 = (reserve_in as u128) * 1000 + amount_in_with_fee;
    if denominator == 0 {
        return Err(DexError::ArithmeticFault);
    }
    let out: u128 = numerator / denominator;
    proof {
        // the output never exceeds the outgoing reserve
        assert(numerator <= (reserve_out as int) * (denominator as int)) by (nonlinear_arith)
            requires
                numerator == (reserve_out as int) * (amount_in_with_fee as int),
                amount_in_with_fee <= denominator,
                0 <= reserve_out,
        ;
        lemma_div_le_cap(numerator as int, denominator as int, reserve_out as int);
    }
    Ok(out as u64)
}

} // verus!
