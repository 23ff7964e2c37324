//! Error taxonomy of the market maker and of the trade-counter hook.

use vstd::prelude::*;

verus! {

/// Failures surfaced by the market-maker engine.
///
/// Configuration errors (`InvalidFee`, `PoolAlreadyExists`, `InvalidPool`,
/// `InvalidMint`) report bad static parameters; authorization errors
/// (`UnauthorizedAdmin`, `NotSigner`, `InvalidPoolAuthority`) are fatal for
/// the operation; arithmetic errors (`ArithmeticOverflow`, `InvalidAmount`)
/// are detected before any state mutation; economic errors
/// (`InsufficientLiquidity`, `SlippageExceeded`, `InvariantViolated`)
/// are business-rule rejections; `AlreadyAttached`
/// reports a second vault attachment; `HookAccountMismatch` reports a
/// wrongly constructed extra-account list.
#[derive(Clone, Copy, Debug, PartialEq, Eq, Structural)]
pub enum AmmError {
    InvalidFee,
    InvalidAmount,
    InsufficientLiquidity,
    SlippageExceeded,
    UnauthorizedAdmin,
    PoolAlreadyExists,
    AlreadyAttached,
    PoolDoesNotExist,
    InvalidPool,
    NotSigner,
    InvalidMint,
    InvalidPoolAuthority,
    InvariantViolated,
    ArithmeticOverflow,
    HookAccountMismatch,
}

/// Failures surfaced by the trade-counter hook program.
#[derive(Clone, Copy, Debug, PartialEq, Eq, Structural)]
pub enum CounterHookError {
    InvalidInstruction,
    InvalidAccountData,
    AccountNotInitialized,
    InvalidMint,
    InvalidOwner,
    InvalidAmount,
    InvalidSeeds,
    HookAccountMismatch,
}

} // verus!
