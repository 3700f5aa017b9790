use liquify::pool::{deposit_liquidity, swap, withdraw_liquidity, AssetId, Pool, PoolState};
use liquify::DexError;

fn id(byte: u8) -> AssetId {
    AssetId { bytes: [byte; 32] }
}

fn pool_with(reserve_a: u64, reserve_b: u64, lp_supply: u64) -> Pool {
    Pool {
        state: PoolState {
            token_a_mint: id(1),
            token_b_mint: id(2),
            lp_mint: id(3),
            bump: 254,
        },
        reserve_a,
        reserve_b,
        lp_supply,
    }
}

#[test]
fn first_deposit_mints_geometric_mean() {
    let mut pool = pool_with(0, 0, 0);
    assert_eq!(deposit_liquidity(&mut pool, 4, 9), Ok(6));
    assert_eq!(pool.reserve_a, 4);
    assert_eq!(pool.reserve_b, 9);
    assert_eq!(pool.lp_supply, 6);
}

#[test]
fn first_deposit_large_amounts() {
    let mut pool = pool_with(0, 0, 0);
    // floor(sqrt(5e9 * 2e9)) == floor(sqrt(1e19)) == 3162277660
    assert_eq!(
        deposit_liquidity(&mut pool, 5_000_000_000, 2_000_000_000),
        Ok(3_162_277_660)
    );
    assert_eq!(pool.lp_supply, 3_162_277_660);
}

#[test]
fn zero_deposit_mints_nothing() {
    let mut pool = pool_with(0, 0, 0);
    assert_eq!(deposit_liquidity(&mut pool, 0, 0), Ok(0));
    assert_eq!(pool.lp_supply, 0);
}

#[test]
fn later_deposit_priced_off_asset_a_ratio() {
    let mut pool = pool_with(400, 800, 1_000);
    // floor(100 * 1000 / 400) == 250
    assert_eq!(deposit_liquidity(&mut pool, 100, 200), Ok(250));
    assert_eq!(pool.reserve_a, 500);
    assert_eq!(pool.reserve_b, 1_000);
    assert_eq!(pool.lp_supply, 1_250);
}

#[test]
fn later_deposit_ignores_amount_b() {
    let mut balanced = pool_with(100, 100, 100);
    let mut lopsided = pool_with(100, 100, 100);
    let minted_balanced = deposit_liquidity(&mut balanced, 50, 50).unwrap();
    let minted_lopsided = deposit_liquidity(&mut lopsided, 50, 999_999).unwrap();
    assert_eq!(minted_balanced, 50);
    assert_eq!(minted_lopsided, 50);
    // the mismatched amount still moves in full
    assert_eq!(lopsided.reserve_b, 1_000_099);
}

#[test]
fn later_deposit_with_empty_reserve_a_faults() {
    let mut pool = pool_with(0, 50, 10);
    assert_eq!(
        deposit_liquidity(&mut pool, 5, 5),
        Err(DexError::ArithmeticFault)
    );
    assert_eq!(pool.reserve_a, 0);
    assert_eq!(pool.reserve_b, 50);
    assert_eq!(pool.lp_supply, 10);
}

#[test]
fn deposit_overflowing_reserve_faults() {
    let mut pool = pool_with(u64::MAX - 1, 10, 5);
    assert_eq!(
        deposit_liquidity(&mut pool, 2, 0),
        Err(DexError::ArithmeticFault)
    );
    assert_eq!(pool.reserve_a, u64::MAX - 1);
}

#[test]
fn first_deposit_round_trip_returns_exactly() {
    let mut pool = pool_with(0, 0, 0);
    let minted = deposit_liquidity(&mut pool, 1_000, 4_000).unwrap();
    assert_eq!(minted, 2_000);
    assert_eq!(withdraw_liquidity(&mut pool, minted), Ok((1_000, 4_000)));
    assert_eq!(pool.reserve_a, 0);
    assert_eq!(pool.reserve_b, 0);
    assert_eq!(pool.lp_supply, 0);
}

#[test]
fn later_deposit_round_trip_never_gains_asset_a() {
    let mut pool = pool_with(100, 100, 100);
    let minted = deposit_liquidity(&mut pool, 10_000, 0).unwrap();
    assert_eq!(minted, 10_000);
    let (got_a, got_b) = withdraw_liquidity(&mut pool, minted).unwrap();
    // asset A never comes back above what went in; the floors only lose
    assert!(got_a <= 10_000);
    assert_eq!(got_a, 10_000);
    // the asset-A-only pricing lets an imbalanced deposit drain some of B
    assert_eq!(got_b, 99);
}

#[test]
fn withdraw_proportional_share() {
    let mut pool = pool_with(1_000, 500, 100);
    assert_eq!(withdraw_liquidity(&mut pool, 10), Ok((100, 50)));
    assert_eq!(pool.reserve_a, 900);
    assert_eq!(pool.reserve_b, 450);
    assert_eq!(pool.lp_supply, 90);
}

#[test]
fn withdraw_from_empty_supply_faults_and_changes_nothing() {
    let mut pool = pool_with(5, 7, 0);
    assert_eq!(
        withdraw_liquidity(&mut pool, 10),
        Err(DexError::ArithmeticFault)
    );
    assert_eq!(pool.reserve_a, 5);
    assert_eq!(pool.reserve_b, 7);
    assert_eq!(pool.lp_supply, 0);
}

#[test]
fn withdraw_more_than_supply_faults() {
    let mut pool = pool_with(1_000, 1_000, 100);
    assert_eq!(
        withdraw_liquidity(&mut pool, 101),
        Err(DexError::ArithmeticFault)
    );
    assert_eq!(pool.lp_supply, 100);
}

#[test]
fn swap_a_to_b_moves_both_reserves() {
    let mut pool = pool_with(100_000, 100_000, 1_000);
    let vault_a = id(10);
    let out = swap(&mut pool, &vault_a, &vault_a, 1_000, 987).unwrap();
    assert_eq!(out, 987);
    assert_eq!(pool.reserve_a, 101_000);
    assert_eq!(pool.reserve_b, 99_013);
    assert_eq!(pool.lp_supply, 1_000);
}

#[test]
fn swap_b_to_a_moves_both_reserves() {
    let mut pool = pool_with(100_000, 100_000, 1_000);
    let vault_a = id(10);
    let vault_b = id(11);
    let out = swap(&mut pool, &vault_b, &vault_a, 1_000, 0).unwrap();
    assert_eq!(out, 987);
    assert_eq!(pool.reserve_a, 99_013);
    assert_eq!(pool.reserve_b, 101_000);
}

#[test]
fn swap_slippage_violation_leaves_reserves_unchanged() {
    let mut pool = pool_with(100_000, 100_000, 1_000);
    let vault_a = id(10);
    let before_a = pool.reserve_a;
    let before_b = pool.reserve_b;
    assert_eq!(
        swap(&mut pool, &vault_a, &vault_a, 1_000, 988),
        Err(DexError::SlippageExceeded)
    );
    assert_eq!(pool.reserve_a, before_a);
    assert_eq!(pool.reserve_b, before_b);
}

#[test]
fn swap_zero_input_with_zero_floor_succeeds() {
    let mut pool = pool_with(100_000, 100_000, 1_000);
    let vault_a = id(10);
    assert_eq!(swap(&mut pool, &vault_a, &vault_a, 0, 0), Ok(0));
    assert_eq!(pool.reserve_a, 100_000);
    assert_eq!(pool.reserve_b, 100_000);
}

#[test]
fn swap_into_empty_output_reserve_fails_slippage() {
    let mut pool = pool_with(100_000, 0, 1_000);
    let vault_a = id(10);
    assert_eq!(
        swap(&mut pool, &vault_a, &vault_a, 1_000, 1),
        Err(DexError::SlippageExceeded)
    );
    assert_eq!(pool.reserve_a, 100_000);
}
