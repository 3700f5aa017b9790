//! Laws of the pricing rules: statements that relate several operations,
//! proved once and for all inputs.

use vstd::prelude::*;
use crate::math::is_sqrt_floor;
use crate::math::lemma_div_bounds;
use crate::pricing::deposit_mint_spec;
use crate::pricing::deposit_minted_spec;
use crate::pricing::ideal_output_spec;
use crate::pricing::lemma_div_lt_cap;
use crate::pricing::swap_output_spec;
use crate::pricing::withdraw_share_spec;

verus! {

/// Quotients compare as their cross-multiplied fractions do.
pub proof fn lemma_div_cross_le(a: int, b: int, c: int, d: int)
    requires
        0 <= a,
        0 <= c,
        0 < b,
        0 < d,
        a * d <= c * b,
    ensures
        a / b <= c / d,
{
    let q = a / b;
    lemma_div_bounds(a, b);
    assert(q * d <= c) by (nonlinear_arith)
        requires
            b * q <= a,
            a * d <= c * b,
            0 < b,
            0 < d,
            0 <= q,
    ;
    lemma_div_bounds(c, d);
    assert(q <= c / d) by (nonlinear_arith)
        requires
            q * d <= c,
            c < d * (c / d) + d,
            0 < d,
    ;
}

/// The mint of a deposit into a funded pool does not depend on the
/// amount of asset B: an imbalanced `amount_b` changes what is transferred,
/// never what is minted.
pub proof fn lemma_deposit_minted_ignores_b(
    supply: int,
    reserve_a: int,
    amount_a: int,
    amount_b_1: int,
    amount_b_2: int,
)
    requires
        supply >= 1,
    ensures
        deposit_minted_spec(supply, reserve_a, amount_a, amount_b_1) == deposit_minted_spec(
            supply,
            reserve_a,
            amount_a,
            amount_b_2,
        ),
{
}

/// For fixed reserves the swap output never decreases as the input grows.
pub proof fn lemma_swap_output_monotonic(
    reserve_in: int,
    reserve_out: int,
    amount_1: int,
    amount_2: int,
)
    requires
        0 <= reserve_in,
        0 <= reserve_out,
        0 <= amount_1 <= amount_2,
        1 <= reserve_in + amount_1,
    ensures
        swap_output_spec(reserve_in, reserve_out, amount_1) <= swap_output_spec(
            reserve_in,
            reserve_out,
            amount_2,
        ),
{
    let n1 = reserve_out * (amount_1 * 997);
    let d1 = reserve_in * 1000 + amount_1 * 997;
    let n2 = reserve_out * (amount_2 * 997);
    let d2 = reserve_in * 1000 + amount_2 * 997;
    assert(0 <= n1 && 0 <= n2 && 0 < d1 && 0 < d2 && n1 * d2 <= n2 * d1) by (nonlinear_arith)
        requires
            0 <= reserve_in,
            0 <= reserve_out,
            0 <= amount_1 <= amount_2,
            1 <= reserve_in + amount_1,
            n1 == reserve_out * (amount_1 * 997),
            d1 == reserve_in * 1000 + amount_1 * 997,
            n2 == reserve_out * (amount_2 * 997),
            d2 == reserve_in * 1000 + amount_2 * 997,
    ;
    lemma_div_cross_le(n1, d1, n2, d2);
}

/// The fee only lowers the output: the fee'd output never exceeds the
/// fee-free constant-product output and, as exact fractions before
/// truncation, the fee'd price lies strictly below the fee-free one.
pub proof fn lemma_fee_reduces_output(reserve_in: int, reserve_out: int, amount_in: int)
    requires
        1 <= reserve_in,
        0 <= reserve_out,
        0 <= amount_in,
    ensures
        swap_output_spec(reserve_in, reserve_out, amount_in) <= ideal_output_spec(
            reserve_in,
            reserve_out,
            amount_in,
        ),
        1 <= reserve_out && 1 <= amount_in ==> (reserve_out * (amount_in * 997)) * (reserve_in
            + amount_in) < (reserve_out * amount_in) * (reserve_in * 1000 + amount_in * 997),
{
    let nf = reserve_out * (amount_in * 997);
    let df = reserve_in * 1000 + amount_in * 997;
    let ni = reserve_out * amount_in;
    let di = reserve_in + amount_in;
    assert(0 <= nf && 0 < df && 0 < di && nf * di <= ni * df) by (nonlinear_arith)
        requires
            1 <= reserve_in,
            0 <= reserve_out,
            0 <= amount_in,
            nf == reserve_out * (amount_in * 997),
            df == reserve_in * 1000 + amount_in * 997,
            ni == reserve_out * amount_in,
            di == reserve_in + amount_in,
    ;
    lemma_div_cross_le(nf, df, ni, di);
    if 1 <= reserve_out && 1 <= amount_in {
        assert(nf * di < ni * df) by (nonlinear_arith)
            requires
                1 <= reserve_in,
                1 <= reserve_out,
                1 <= amount_in,
                nf == reserve_out * (amount_in * 997),
                df == reserve_in * 1000 + amount_in * 997,
                ni == reserve_out * amount_in,
                di == reserve_in + amount_in,
        ;
    }
}

/// Withdrawing the whole mint of a first deposit returns exactly the two
/// deposited amounts: the round trip loses nothing and gains nothing.
pub proof fn lemma_first_deposit_round_trip(amount_a: int, amount_b: int, minted: int)
    requires
        1 <= amount_a,
        1 <= amount_b,
        is_sqrt_floor(amount_a * amount_b, minted),
    ensures
        1 <= minted,
        withdraw_share_spec(minted, amount_a, minted) == amount_a,
        withdraw_share_spec(minted, amount_b, minted) == amount_b,
{
    assert(1 <= minted) by (nonlinear_arith)
        requires
            is_sqrt_floor(amount_a * amount_b, minted),
            1 <= amount_a,
            1 <= amount_b,
    ;
    vstd::arithmetic::div_mod::lemma_div_multiples_vanish(amount_a, minted);
    vstd::arithmetic::div_mod::lemma_div_multiples_vanish(amount_b, minted);
    assert(minted * amount_a == amount_a * minted);
    assert(minted * amount_b == amount_b * minted);
}

/// A deposit into a funded pool can never withdraw more of asset A than it
/// put in: redeeming the whole fresh mint right away returns at most
/// `amount_a` (the floor divisions only lose).
pub proof fn lemma_deposit_round_trip_a(supply: int, reserve_a: int, amount_a: int)
    requires
        1 <= supply,
        1 <= reserve_a,
        0 <= amount_a,
    ensures
        withdraw_share_spec(
            deposit_mint_spec(amount_a, supply, reserve_a),
            reserve_a + amount_a,
            supply + deposit_mint_spec(amount_a, supply, reserve_a),
        ) <= amount_a,
{
    let m = deposit_mint_spec(amount_a, supply, reserve_a);
    lemma_div_bounds(amount_a * supply, reserve_a);
    assert(m * (reserve_a + amount_a) < (amount_a + 1) * (supply + m)) by (nonlinear_arith)
        requires
            reserve_a * m <= amount_a * supply,
            0 <= m,
            1 <= supply,
            0 <= amount_a,
            1 <= reserve_a,
    ;
    assert(0 <= m * (reserve_a + amount_a)) by (nonlinear_arith)
        requires
            0 <= m,
            1 <= reserve_a,
            0 <= amount_a,
    ;
    lemma_div_lt_cap(m * (reserve_a + amount_a), supply + m, amount_a + 1);
}

} // verus!
