//! Pool creation: one pool per ordered asset pair, and the display
//! metadata composed for the claim token.

use vstd::prelude::*;
use vstd::string::StrSliceExecFns;
use vstd::string::StringExecFns;
use crate::pool::asset_id_eq;
use crate::pool::AssetId;
use crate::pool::Pool;
use crate::pool::PoolState;
use crate::DexError;

verus! {

/// Two records govern the same ordered asset pair.
pub open spec fn same_pair(s: PoolState, t: PoolState) -> bool {
    s.token_a_mint@ == t.token_a_mint@ && s.token_b_mint@ == t.token_b_mint@
}

/// Some record in the sequence governs the ordered pair `(a, b)`.
pub open spec fn contains_pair(records: Seq<PoolState>, a: Seq<u8>, b: Seq<u8>) -> bool {
    exists|i: int|
        0 <= i < records.len() && records[i].token_a_mint@ == a && records[i].token_b_mint@ == b
}

/// The records of every pool created so far. No two of them govern the
/// same ordered asset pair; the pairs (A, B) and (B, A) are distinct and
/// may both exist.
pub struct PoolRegistry {
    pub records: Vec<PoolState>,
}

impl PoolRegistry {
    /// No ordered asset pair has two records.
    pub open spec fn wf(self) -> bool {
        forall|i: int, j: int|
            0 <= i < j < self.records@.len() ==> !same_pair(self.records@[i], self.records@[j])
    }

    /// An empty registry.
    pub fn new() -> (r: PoolRegistry)
        ensures
            r.wf(),
            r.records@.len() == 0,
    {
        PoolRegistry { records: Vec::new() }
    }
}

/// The first characters of a symbol, at most four of them.
pub open spec fn clipped_symbol(s: Seq<char>) -> Seq<char> {
    if s.len() <= 4 {
        s
    } else {
        s.subrange(0, 4)
    }
}

/// Display data registered for the claim token with the external metadata
/// service.
pub struct LpTokenMetadata {
    /// `"Liquify <A>/<B> LP"`.
    pub name: String,
    /// `"<A4><B4>-LP"`, each symbol clipped to four characters.
    pub symbol: String,
    /// Fixed location of the claim token's metadata document.
    pub uri: String,
}

/// Compose the claim token's display name, symbol and metadata location
/// from the two asset symbols.
pub fn lp_token_metadata(token_a_symbol: &str, token_b_symbol: &str) -> (m: LpTokenMetadata)
    ensures
        m.name@ == "Liquify "@ + token_a_symbol@ + "/"@ + token_b_symbol@ + " LP"@,
        m.symbol@ == clipped_symbol(token_a_symbol@) + clipped_symbol(token_b_symbol@) + "-LP"@,
        m.uri@ == "https://igloo.exchange/lp-token-metadata.json"@,
{
    let mut name = String::from_str("Liquify ");
    name.append(token_a_symbol);
    name.append("/");
    name.append(token_b_symbol);
    name.append(" LP");
    proof {
        assert(name@ =~= "Liquify "@ + token_a_symbol@ + "/"@ + token_b_symbol@ + " LP"@);
    }
    let len_a = token_a_symbol.unicode_len();
    let clip_a = if len_a <= 4 {
        token_a_symbol
    } else {
        token_a_symbol.substring_char(0, 4)
    };
    let len_b = token_b_symbol.unicode_len();
    let clip_b = if len_b <= 4 {
        token_b_symbol
    } else {
        token_b_symbol.substring_char(0, 4)
    };
    let mut symbol = String::new();
    symbol.append(clip_a);
    symbol.append(clip_b);
    symbol.append("-LP");
    proof {
        assert(symbol@ =~= clipped_symbol(token_a_symbol@) + clipped_symbol(token_b_symbol@)
            + "-LP"@);
    }
    let uri = String::from_str("https://igloo.exchange/lp-token-metadata.json");
    LpTokenMetadata { name, symbol, uri }
}

/// Create the pool for the ordered pair `(token_a_mint, token_b_mint)`:
/// record its identities and authority nonce, start both reserves and the
/// claim-token supply at zero, and compose the claim token's metadata.
/// Fails, changing nothing, when a pool for this exact ordered pair already
/// exists.
pub fn initialize(
    registry: &mut PoolRegistry,
    token_a_mint: &AssetId,
    token_b_mint: &AssetId,
    lp_mint: &AssetId,
    bump: u8,
    token_a_symbol: &str,
    token_b_symbol: &str,
) -> (r: Result<(Pool, LpTokenMetadata), DexError>)
    requires
        old(registry).wf(),
    ensures
        final(registry).wf(),
        match r {
            Ok(created) => {
                &&& !contains_pair(old(registry).records@, token_a_mint@, token_b_mint@)
                &&& final(registry).records@ == old(registry).records@.push(created.0.state)
                &&& created.0.state.token_a_mint@ == token_a_mint@
                &&& created.0.state.token_b_mint@ == token_b_mint@
                &&& created.0.state.lp_mint@ == lp_mint@
                &&& created.0.state.bump == bump
                &&& created.0.reserve_a == 0
                &&& created.0.reserve_b == 0
                &&& created.0.lp_supply == 0
                &&& created.1.name@ == "Liquify "@ + token_a_symbol@ + "/"@ + token_b_symbol@
                    + " LP"@
                &&& created.1.symbol@ == clipped_symbol(token_a_symbol@) + clipped_symbol(
                    token_b_symbol@,
                ) + "-LP"@
                &&& created.1.uri@ == "https://igloo.exchange/lp-token-metadata.json"@
            },
            Err(e) => {
                &&& e == DexError::DuplicatePool
                &&& contains_pair(old(registry).records@, token_a_mint@, token_b_mint@)
                &&& *final(registry) == *old(registry)
            },
        },
{
    let n = registry.records.len();
    let mut i: usize = 0;
    while i < n
        invariant
            *registry == *old(registry),
            registry.wf(),
            n == registry.records@.len(),
            0 <= i <= n,
            forall|k: int|
                0 <= k < i ==> !(registry.records@[k].token_a_mint@ == token_a_mint@
                    && registry.records@[k].token_b_mint@ == token_b_mint@),
        decreases n - i,
    {
        let rec = registry.records[i];
        if asset_id_eq(&rec.token_a_mint, token_a_mint) && asset_id_eq(
            &rec.token_b_mint,
            token_b_mint,
        ) {
            proof {
                assert(registry.records@[i as int].token_a_mint@ == token_a_mint@
                    && registry.records@[i as int].token_b_mint@ == token_b_mint@);
                assert(contains_pair(registry.records@, token_a_mint@, token_b_mint@));
            }
            return Err(DexError::DuplicatePool);
        }
        i += 1;
    }
    let state = PoolState {
        token_a_mint: *token_a_mint,
        token_b_mint: *token_b_mint,
        lp_mint: *lp_mint,
        bump,
    };
    let metadata = lp_token_metadata(token_a_symbol, token_b_symbol);
    registry.records.push(state);
    let pool = Pool { state, reserve_a: 0, reserve_b: 0, lp_supply: 0 };
    Ok((pool, metadata))
}

} // verus!
