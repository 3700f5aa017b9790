//! Accounting core of a two-asset constant-product liquidity pool.
//!
//! The library holds the pool's state-transition logic: geometric-mean
//! pricing of the first deposit, ratio pricing of later deposits,
//! constant-product swap pricing with a 0.3% input fee, and proportional
//! withdrawal. The host environment that owns the token balances performs
//! the transfers; it reads the amounts to move from the results proved
//! here.

pub mod laws;
pub mod math;
pub mod pool;
pub mod pricing;
pub mod registry;

use vstd::prelude::*;

verus! {

/// Typed failures of the pool operations, distinguishable by the caller.
#[derive(Clone, Copy, Debug, PartialEq, Eq, Structural)]
pub enum DexError {
    /// The computed swap output fell below the caller's minimum.
    SlippageExceeded,
    /// Overflow or division by zero in a pricing computation.
    ArithmeticFault,
    /// A pool already exists for this exact ordered asset pair.
    DuplicatePool,
}

} // verus!
