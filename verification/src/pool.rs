//! The pool record, its live balances, and the three balance-moving
//! operations: deposit, swap, withdrawal.
//!
//! A `Pool` couples the immutable pool record with the balances that the
//! external token service holds for it: the two reserves and the claim-token
//! supply. Each operation is the atomic state transition of one call; the
//! host applies the returned amounts as transfers, and on an `Err` it
//! retains no effect, matching the host's all-or-nothing call commit.

use vstd::prelude::*;
use crate::math::integer_sqrt;
use crate::math::is_sqrt_floor;
use crate::math::lemma_u64_mul_fits;
use crate::pricing::deposit_mint_spec;
use crate::pricing::deposit_minted_spec;
use crate::pricing::lemma_div_le_cap;
use crate::pricing::swap_math_fault;
use crate::pricing::swap_output;
use crate::pricing::swap_output_spec;
use crate::pricing::withdraw_share_spec;
use crate::DexError;

verus! {

/// A 32-byte identity of an asset, account or mint.
#[derive(Clone, Copy)]
pub struct AssetId {
    pub bytes: [u8; 32],
}

impl View for AssetId {
    type V = Seq<u8>;

    open spec fn view(&self) -> Seq<u8> {
        self.bytes@
    }
}

/// Byte-for-byte equality of two identities.
pub fn asset_id_eq(x: &AssetId, y: &AssetId) -> (r: bool)
    ensures
        r == (x@ == y@),
{
    let mut i: usize = 0;
    while i < 32
        invariant
            0 <= i <= 32,
            forall|j: int| 0 <= j < i ==> x.bytes@[j] == y.bytes@[j],
        decreases 32 - i,
    {
        if x.bytes[i] != y.bytes[i] {
            assert(x@[i as int] != y@[i as int]);
            return false;
        }
        i += 1;
    }
    assert(x@ =~= y@);
    true
}

/// The pool record: created once, never mutated afterwards.
#[derive(Clone, Copy)]
pub struct PoolState {
    /// Identity of pooled asset A. Order is significant: a pool keyed
    /// (A, B) is distinct from one keyed (B, A).
    pub token_a_mint: AssetId,
    /// Identity of pooled asset B.
    pub token_b_mint: AssetId,
    /// Identity of the claim-token mint whose supply represents shares.
    pub lp_mint: AssetId,
    /// Derivation nonce by which the pool re-derives its own signing
    /// authority from its identity on every call.
    pub bump: u8,
}

/// A pool: its record together with the balances the token service holds
/// for it.
pub struct Pool {
    pub state: PoolState,
    /// Balance of the asset-A reserve account.
    pub reserve_a: u64,
    /// Balance of the asset-B reserve account.
    pub reserve_b: u64,
    /// Outstanding claim-token supply.
    pub lp_supply: u64,
}

/// The deposit computation faults: a reserve balance would overflow, or the
/// ratio pricing of a funded pool divides by a zero asset-A reserve or
/// produces a mint that does not fit the native width.
pub open spec fn deposit_fault(
    supply: int,
    reserve_a: int,
    reserve_b: int,
    amount_a: int,
    amount_b: int,
) -> bool {
    ||| reserve_a + amount_a > u64::MAX as int
    ||| reserve_b + amount_b > u64::MAX as int
    ||| (supply > 0 && (reserve_a == 0 || deposit_mint_spec(amount_a, supply, reserve_a)
        > u64::MAX as int || supply + deposit_mint_spec(amount_a, supply, reserve_a)
        > u64::MAX as int))
}

/// Deposit `amount_a` and `amount_b` into the pool. Returns the number of
/// claim tokens minted to the depositor: the floor square root of the
/// product on a first deposit, and `floor(amount_a * supply / reserve_a)` —
/// off the asset-A ratio alone, whatever `amount_b` is — on any later one.
pub fn deposit_liquidity(pool: &mut Pool, amount_a: u64, amount_b: u64) -> (r: Result<
    u64,
    DexError,
>)
    ensures
        match r {
            Ok(minted) => {
                &&& !deposit_fault(
                    old(pool).lp_supply as int,
                    old(pool).reserve_a as int,
                    old(pool).reserve_b as int,
                    amount_a as int,
                    amount_b as int,
                )
                &&& minted as int == deposit_minted_spec(
                    old(pool).lp_supply as int,
                    old(pool).reserve_a as int,
                    amount_a as int,
                    amount_b as int,
                )
                &&& final(pool).state == old(pool).state
                &&& final(pool).reserve_a as int == old(pool).reserve_a as int + amount_a as int
                &&& final(pool).reserve_b as int == old(pool).reserve_b as int + amount_b as int
                &&& final(pool).lp_supply as int == old(pool).lp_supply as int + minted as int
            },
            Err(e) => {
                &&& e == DexError::ArithmeticFault
                &&& deposit_fault(
                    old(pool).lp_supply as int,
                    old(pool).reserve_a as int,
                    old(pool).reserve_b as int,
                    amount_a as int,
                    amount_b as int,
                )
                &&& *final(pool) == *old(pool)
            },
        },
{
    if amount_a > u64::MAX - pool.reserve_a {
        return Err(DexError::ArithmeticFault);
    }
    if amount_b > u64::MAX - pool.reserve_b {
        return Err(DexError::ArithmeticFault);
    }
    let minted: u64;
    if pool.lp_supply == 0 {
        proof {
            lemma_u64_mul_fits(amount_a as int, amount_b as int);
        }
        let product: u128 = (amount_a as u128) * (amount_b as u128);
        let root = integer_sqrt(product);
        proof {
            assert(root <= u64::MAX) by (nonlinear_arith)
                requires
                    is_sqrt_floor(product as int, root as int),
                    product as int <= (u64::MAX as int) * (u64::MAX as int),
            ;
        }
        minted = root as u64;
    } else {
        if pool.reserve_a == 0 {
            return Err(DexError::ArithmeticFault);
        }
        proof {
            lemma_u64_mul_fits(amount_a as int, pool.lp_supply as int);
        }
        let share: u128 = (amount_a as u128) * (pool.lp_supply as u128) / (pool.reserve_a
            as u128);
        if share > u64::MAX as u128 {
            return Err(DexError::ArithmeticFault);
        }
        let m = share as u64;
        if m > u64::MAX - pool.lp_supply {
            return Err(DexError::ArithmeticFault);
        }
        minted = m;
    }
    pool.reserve_a = pool.reserve_a + amount_a;
    pool.reserve_b = pool.reserve_b + amount_b;
    pool.lp_supply = pool.lp_supply + minted;
    Ok(minted)
}

/// Swap `amount_in` of one asset for the other. The trade direction is
/// A-to-B exactly when the caller's input account is the asset-A reserve.
/// Fails with `SlippageExceeded` when the computed output falls below
/// `min_amount_out`, in which case nothing moves.
pub fn swap(
    pool: &mut Pool,
    input_vault: &AssetId,
    vault_a: &AssetId,
    amount_in: u64,
    min_amount_out: u64,
) -> (r: Result<u64, DexError>)
    ensures
        ({
            let a_to_b = input_vault@ == vault_a@;
            let r_in = if a_to_b {
                old(pool).reserve_a as int
            } else {
                old(pool).reserve_b as int
            };
            let r_out = if a_to_b {
                old(pool).reserve_b as int
            } else {
                old(pool).reserve_a as int
            };
            let fault = swap_math_fault(r_in, r_out, amount_in as int);
            let out = swap_output_spec(r_in, r_out, amount_in as int);
            match r {
                Ok(got) => {
                    &&& !fault
                    &&& out >= min_amount_out as int
                    &&& r_in + amount_in as int <= u64::MAX as int
                    &&& got as int == out
                    &&& final(pool).state == old(pool).state
                    &&& final(pool).lp_supply == old(pool).lp_supply
                    &&& (if a_to_b {
                        final(pool).reserve_a as int == r_in + amount_in as int
                            && final(pool).reserve_b as int == r_out - out
                    } else {
                        final(pool).reserve_b as int == r_in + amount_in as int
                            && final(pool).reserve_a as int == r_out - out
                    })
                },
                Err(e) => {
                    &&& *final(pool) == *old(pool)
                    &&& (e == DexError::SlippageExceeded <==> !fault && out < min_amount_out as int)
                    &&& (e == DexError::ArithmeticFault <==> fault || (!fault && out
                        >= min_amount_out as int && r_in + amount_in as int > u64::MAX as int))
                    &&& (e == DexError::SlippageExceeded || e == DexError::ArithmeticFault)
                },
            }
        }),
{
    let a_to_b = asset_id_eq(input_vault, vault_a);
    let reserve_in = if a_to_b {
        pool.reserve_a
    } else {
        pool.reserve_b
    };
    let reserve_out = if a_to_b {
        pool.reserve_b
    } else {
        pool.reserve_a
    };
    let out = match swap_output(reserve_in, reserve_out, amount_in) {
        Ok(o) => o,
        Err(e) => {
            return Err(e);
        },
    };
    if out < min_amount_out {
        return Err(DexError::SlippageExceeded);
    }
    if amount_in > u64::MAX - reserve_in {
        return Err(DexError::ArithmeticFault);
    }
    if a_to_b {
        pool.reserve_a = pool.reserve_a + amount_in;
        pool.reserve_b = pool.reserve_b - out;
    } else {
        pool.reserve_b = pool.reserve_b + amount_in;
        pool.reserve_a = pool.reserve_a - out;
    }
    Ok(out)
}

/// Redeem `lp_amount` claim tokens for a proportional share of both
/// reserves. Faults when the supply is zero (division by zero) or when more
/// claim tokens are presented than exist.
pub fn withdraw_liquidity(pool: &mut Pool, lp_amount: u64) -> (r: Result<(u64, u64), DexError>)
    ensures
        match r {
            Ok(amounts) => {
                &&& old(pool).lp_supply > 0
                &&& lp_amount <= old(pool).lp_supply
                &&& amounts.0 as int == withdraw_share_spec(
                    lp_amount as int,
                    old(pool).reserve_a as int,
                    old(pool).lp_supply as int,
                )
                &&& amounts.1 as int == withdraw_share_spec(
                    lp_amount as int,
                    old(pool).reserve_b as int,
                    old(pool).lp_supply as int,
                )
                &&& final(pool).state == old(pool).state
                &&& final(pool).reserve_a as int == old(pool).reserve_a as int - amounts.0 as int
                &&& final(pool).reserve_b as int == old(pool).reserve_b as int - amounts.1 as int
                &&& final(pool).lp_supply as int == old(pool).lp_supply as int - lp_amount as int
            },
            Err(e) => {
                &&& e == DexError::ArithmeticFault
                &&& (old(pool).lp_supply == 0 || lp_amount > old(pool).lp_supply)
                &&& *final(pool) == *old(pool)
            },
        },
{
    if pool.lp_supply == 0 {
        return Err(DexError::ArithmeticFault);
    }
    if lp_amount > pool.lp_supply {
        return Err(DexError::ArithmeticFault);
    }
    proof {
        lemma_u64_mul_fits(lp_amount as int, pool.reserve_a as int);
        lemma_u64_mul_fits(lp_amount as int, pool.reserve_b as int);
        assert((lp_amount as int) * (pool.reserve_a as int) <= (pool.reserve_a as int) * (
        pool.lp_supply as int)) by (nonlinear_arith)
            requires
                lp_amount <= pool.lp_supply,
                0 <= pool.reserve_a,
        ;
        lemma_div_le_cap(
            (lp_amount as int) * (pool.reserve_a as int),
            pool.lp_supply as int,
            pool.reserve_a as int,
        );
        assert((lp_amount as int) * (pool.reserve_b as int) <= (pool.reserve_b as int) * (
        pool.lp_supply as int)) by (nonlinear_arith)
            requires
                lp_amount <= pool.lp_supply,
                0 <= pool.reserve_b,
        ;
        lemma_div_le_cap(
            (lp_amount as int) * (pool.reserve_b as int),
            pool.lp_supply as int,
            pool.reserve_b as int,
        );
    }
    let amount_a = ((lp_amount as u128) * (pool.reserve_a as u128) / (pool.lp_supply as u128))
        as u64;
    let amount_b = ((lp_amount as u128) * (pool.reserve_b as u128) / (pool.lp_supply as u128))
        as u64;
    pool.reserve_a = pool.reserve_a - amount_a;
    pool.reserve_b = pool.reserve_b - amount_b;
    pool.lp_supply = pool.lp_supply - lp_amount;
    Ok((amount_a, amount_b))
}

} // verus!
