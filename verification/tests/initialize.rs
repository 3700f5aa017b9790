use liquify::pool::AssetId;
use liquify::registry::{initialize, PoolRegistry};
use liquify::DexError;

fn id(byte: u8) -> AssetId {
    AssetId { bytes: [byte; 32] }
}

#[test]
fn initialize_creates_empty_pool() {
    let mut registry = PoolRegistry::new();
    let (pool, meta) = initialize(&mut registry, &id(1), &id(2), &id(3), 254, "SOL", "USDC")
        .unwrap();
    assert_eq!(pool.state.token_a_mint.bytes, [1; 32]);
    assert_eq!(pool.state.token_b_mint.bytes, [2; 32]);
    assert_eq!(pool.state.lp_mint.bytes, [3; 32]);
    assert_eq!(pool.state.bump, 254);
    assert_eq!(pool.reserve_a, 0);
    assert_eq!(pool.reserve_b, 0);
    assert_eq!(pool.lp_supply, 0);
    assert_eq!(meta.name, "Liquify SOL/USDC LP");
    assert_eq!(meta.symbol, "SOLUSDC-LP");
    assert_eq!(meta.uri, "https://igloo.exchange/lp-token-metadata.json");
}

#[test]
fn long_symbols_are_clipped_to_four_characters() {
    let mut registry = PoolRegistry::new();
    let (_, meta) = initialize(
        &mut registry,
        &id(1),
        &id(2),
        &id(3),
        255,
        "SOLANA",
        "USDCOIN",
    )
    .unwrap();
    assert_eq!(meta.name, "Liquify SOLANA/USDCOIN LP");
    assert_eq!(meta.symbol, "SOLAUSDC-LP");
}

#[test]
fn duplicate_ordered_pair_is_refused() {
    let mut registry = PoolRegistry::new();
    initialize(&mut registry, &id(1), &id(2), &id(3), 254, "SOL", "USDC").unwrap();
    let again = initialize(&mut registry, &id(1), &id(2), &id(4), 253, "SOL", "USDC");
    assert!(matches!(again, Err(DexError::DuplicatePool)));
    assert_eq!(registry.records.len(), 1);
}

#[test]
fn reversed_pair_is_a_distinct_pool() {
    let mut registry = PoolRegistry::new();
    initialize(&mut registry, &id(1), &id(2), &id(3), 254, "SOL", "USDC").unwrap();
    let reversed = initialize(&mut registry, &id(2), &id(1), &id(4), 253, "USDC", "SOL");
    assert!(reversed.is_ok());
    assert_eq!(registry.records.len(), 2);
}
