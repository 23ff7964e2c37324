//! The swap engine: quoting, validation, settlement amounts, and the
//! final invariant check.
//!
//! A swap runs through a fixed sequence: quote the output from live
//! reserves, reject it when it falls short of the caller's minimum, move
//! the flat fee and the two asset legs, then reload the reserves and
//! require that the scaled constant product did not decrease.  The
//! functions here compute and check; the asset movements themselves are
//! carried out by the transfer protocol against the hosting ledger.

use vstd::prelude::*;

verus! {

use crate::errors::AmmError;
use crate::math::{
    compute_scaled_invariant, scaled_invariant_spec, swap_output_spec,
};
use crate::state::Amm;

/// The smaller of two amounts.
pub open spec fn min_spec(a: int, b: int) -> int {
    if a <= b {
        a
    } else {
        b
    }
}

/// Clamps a requested input to what the trader actually holds, so a swap
/// can never spend assets the caller does not own.
pub fn clamp_input(input_amount: u64, trader_balance: u64) -> (r: u64)
    ensures
        r == min_spec(input_amount as int, trader_balance as int),
{
    if input_amount > trader_balance {
        trader_balance
    } else {
        input_amount
    }
}

/// Everything a settled swap changes, computed before any movement:
/// the amounts of the fee leg and both asset legs, the balances they
/// produce when applied exactly, and the pre-trade scaled invariant the
/// final check must compare against.
pub struct SwapSettlement {
    /// The input actually spent, after clamping to the trader's balance.
    pub input_used: u64,
    /// The quoted output owed to the trader.
    pub output: u64,
    /// The flat fee moved from the payer to the fee collector.
    pub sol_fee: u64,
    /// The payer's lamports after the fee leg.
    pub new_payer_lamports: u64,
    /// The collector's lamports after the fee leg.
    pub new_collector_lamports: u64,
    /// The incoming-side pool vault after its leg.
    pub new_pool_in: u64,
    /// The outgoing-side pool vault after its leg.
    pub new_pool_out: u64,
    /// The trader's incoming-side account after its leg.
    pub new_trader_in: u64,
    /// The trader's outgoing-side account after its leg.
    pub new_trader_out: u64,
    /// The scaled invariant of the pre-trade reserves.
    pub scaled_invariant: u128,
}

/// Quotes and validates a swap against live balances and computes its
/// settlement.  The quote is the exact constant-product formula over the
/// untruncated reserves, with the product formed in 128 bits.  The fee
/// and both asset legs must then be performed in order, and
/// `check_invariant` must pass on the reloaded reserves.
///
/// Fails with `PoolDoesNotExist` when the market was never created, with
/// `InsufficientLiquidity` exactly when either reserve is zero, and with
/// `SlippageExceeded` when the quote falls short of the caller's
/// minimum.  A failed call settles nothing.
pub fn swap_exact_tokens_for_tokens(
    amm: &Amm,
    pool_in: u64,
    pool_out: u64,
    trader_in: u64,
    trader_out: u64,
    payer_lamports: u64,
    collector_lamports: u64,
    input_amount: u64,
    min_output_amount: u64,
) -> (r: Result<SwapSettlement, AmmError>)
    requires
        payer_lamports >= amm.sol_fee,
        collector_lamports + amm.sol_fee <= u64::MAX,
        pool_in + min_spec(input_amount as int, trader_in as int) <= u64::MAX,
        trader_out + pool_out <= u64::MAX,
    ensures
        r is Ok <==> amm.created && pool_in > 0 && pool_out > 0 && swap_output_spec(
            min_spec(input_amount as int, trader_in as int),
            pool_in as int,
            pool_out as int,
        ) >= min_output_amount,
        r == if !amm.created {
            Err::<SwapSettlement, AmmError>(AmmError::PoolDoesNotExist)
        } else if !(pool_in > 0 && pool_out > 0) {
            Err::<SwapSettlement, AmmError>(AmmError::InsufficientLiquidity)
        } else if swap_output_spec(
            min_spec(input_amount as int, trader_in as int),
            pool_in as int,
            pool_out as int,
        ) < min_output_amount {
            Err::<SwapSettlement, AmmError>(AmmError::SlippageExceeded)
        } else {
            r
        },
        r matches Ok(s) ==> ({
            let used = min_spec(input_amount as int, trader_in as int);
            let out = swap_output_spec(used, pool_in as int, pool_out as int);
            &&& s.input_used == used
            &&& s.output == out
            &&& s.sol_fee == amm.sol_fee
            &&& s.new_payer_lamports == payer_lamports - amm.sol_fee
            &&& s.new_collector_lamports == collector_lamports + amm.sol_fee
            &&& s.new_pool_in == pool_in + used
            &&& s.new_pool_out == pool_out - out
            &&& s.new_trader_in == trader_in - used
            &&& s.new_trader_out == trader_out + out
            &&& s.scaled_invariant == scaled_invariant_spec(pool_in as int, pool_out as int)
        }),
{
    if !amm.created {
        return Err(AmmError::PoolDoesNotExist);
    }
    let input_used = clamp_input(input_amount, trader_in);
    let output = match crate::math::calculate_constant_product_swap_output(
        input_used,
        pool_in,
        pool_out,
    ) {
        Ok(out) => out,
        Err(e) => {
            return Err(e);
        },
    };
    if output < min_output_amount {
        return Err(AmmError::SlippageExceeded);
    }
    let scaled_invariant = compute_scaled_invariant(pool_in, pool_out);
    Ok(
        SwapSettlement {
            input_used,
            output,
            sol_fee: amm.sol_fee,
            new_payer_lamports: payer_lamports - amm.sol_fee,
            new_collector_lamports: collector_lamports + amm.sol_fee,
            new_pool_in: pool_in + input_used,
            new_pool_out: pool_out - output,
            new_trader_in: trader_in - input_used,
            new_trader_out: trader_out + output,
            scaled_invariant,
        },
    )
}

/// The post-settlement check: the scaled product of the reloaded reserves
/// must be at least the pre-trade scaled invariant.  A decrease is the
/// fatal `InvariantViolated`; an increase, rounding in the pool's favor,
/// is accepted.
pub fn check_invariant(scaled_invariant: u128, reloaded_a: u64, reloaded_b: u64) -> (r: Result<
    (),
    AmmError,
>)
    ensures
        r is Ok <==> scaled_invariant <= scaled_invariant_spec(reloaded_a as int, reloaded_b as int),
        r matches Err(e) ==> e == AmmError::InvariantViolated,
{
    let new_scaled_invariant = compute_scaled_invariant(reloaded_a, reloaded_b);
    if scaled_invariant > new_scaled_invariant {
        return Err(AmmError::InvariantViolated);
    }
    Ok(())
}

/// A settlement applied exactly never lowers the untruncated product of
/// the reserves.  The final check compares in the truncated domain, so
/// truncation rounding, the hook, or a buggy transfer may still make it
/// fail: that is why the reserves are reloaded and re-checked at all.
pub proof fn lemma_settlement_preserves_product(s: SwapSettlement, pool_in: u64, pool_out: u64)
    requires
        pool_in > 0,
        pool_out > 0,
        s.new_pool_in == pool_in + s.input_used,
        s.output == swap_output_spec(s.input_used as int, pool_in as int, pool_out as int),
        s.new_pool_out == pool_out - s.output,
    ensures
        s.new_pool_in * s.new_pool_out >= pool_in * pool_out,
{
    crate::math::lemma_quote_preserves_product(
        pool_in as int,
        pool_out as int,
        s.input_used as int,
    );
}

/// Across any run of swaps with no deposits or withdrawals between them,
/// the scaled invariant never decreases: if each step's reserves keep at
/// least the previous step's scaled product, every later state keeps at
/// least every earlier one.
pub proof fn lemma_invariant_monotone_over_swaps(states: Seq<(u64, u64)>, i: int, j: int)
    requires
        forall|k: int|
            0 <= k < states.len() - 1 ==> scaled_invariant_spec(
                #[trigger] states[k].0 as int,
                states[k].1 as int,
            ) <= scaled_invariant_spec(states[k + 1].0 as int, states[k + 1].1 as int),
        0 <= i <= j < states.len(),
    ensures
        scaled_invariant_spec(states[i].0 as int, states[i].1 as int) <= scaled_invariant_spec(
            states[j].0 as int,
            states[j].1 as int,
        ),
    decreases j - i,
{
    if i < j {
        lemma_invariant_monotone_over_swaps(states, i + 1, j);
    }
}

/// The unscaled quote of the direct pricing path, in the pool's `(A, B)`
/// orientation: trading into A prices against `(A, B)`, trading into B
/// against `(B, A)`.
pub open spec fn output_amount_spec(swap_a: bool, input: int, reserve_a: int, reserve_b: int) -> int {
    if swap_a {
        swap_output_spec(input, reserve_a, reserve_b)
    } else {
        swap_output_spec(input, reserve_b, reserve_a)
    }
}

/// Quotes a trade from untruncated reserves, forming the product in 128
/// bits.  Fails with `InsufficientLiquidity` when either reserve is empty.
pub fn calculate_output_amount(swap_a: bool, input_amount: u64, reserve_a: u64, reserve_b: u64) -> (r:
    Result<u64, AmmError>)
    ensures
        r is Ok <==> reserve_a > 0 && reserve_b > 0,
        r matches Ok(out) ==> out == output_amount_spec(
            swap_a,
            input_amount as int,
            reserve_a as int,
            reserve_b as int,
        ),
        r matches Err(e) ==> e == AmmError::InsufficientLiquidity,
{
    let (reserve_in, reserve_out) = if swap_a {
        (reserve_a, reserve_b)
    } else {
        (reserve_b, reserve_a)
    };
    crate::math::calculate_constant_product_swap_output(input_amount, reserve_in, reserve_out)
}

/// What the direct swap path settles, in the pool's `(A, B)` orientation.
pub struct DirectSwapSettlement {
    /// The quoted output owed to the trader.
    pub output: u64,
    /// Pool vault A after both legs.
    pub new_pool_a: u64,
    /// Pool vault B after both legs.
    pub new_pool_b: u64,
    /// The trader's A account after both legs.
    pub new_user_a: u64,
    /// The trader's B account after both legs.
    pub new_user_b: u64,
}

/// The direct swap: quote, slippage gate, then both asset legs.
///
/// Fails with `InsufficientLiquidity` on an unfunded pool and with
/// `SlippageExceeded` when the quote is below `min_output_amount`; a
/// rejected swap performs no transfer.
pub fn swap(
    swap_a: bool,
    input_amount: u64,
    min_output_amount: u64,
    pool_a: u64,
    pool_b: u64,
    user_a: u64,
    user_b: u64,
) -> (r: Result<DirectSwapSettlement, AmmError>)
    requires
        swap_a ==> input_amount <= user_a && pool_a + input_amount <= u64::MAX && user_b + pool_b
            <= u64::MAX,
        !swap_a ==> input_amount <= user_b && pool_b + input_amount <= u64::MAX && user_a + pool_a
            <= u64::MAX,
    ensures
        r is Ok <==> pool_a > 0 && pool_b > 0 && output_amount_spec(
            swap_a,
            input_amount as int,
            pool_a as int,
            pool_b as int,
        ) >= min_output_amount,
        r == if !(pool_a > 0 && pool_b > 0) {
            Err::<DirectSwapSettlement, AmmError>(AmmError::InsufficientLiquidity)
        } else if output_amount_spec(swap_a, input_amount as int, pool_a as int, pool_b as int)
            < min_output_amount {
            Err::<DirectSwapSettlement, AmmError>(AmmError::SlippageExceeded)
        } else {
            r
        },
        r matches Ok(s) ==> ({
            let out = output_amount_spec(swap_a, input_amount as int, pool_a as int, pool_b as int);
            &&& s.output == out
            &&& swap_a ==> s.new_pool_a == pool_a + input_amount && s.new_pool_b == pool_b - out
                && s.new_user_a == user_a - input_amount && s.new_user_b == user_b + out
            &&& !swap_a ==> s.new_pool_b == pool_b + input_amount && s.new_pool_a == pool_a - out
                && s.new_user_b == user_b - input_amount && s.new_user_a == user_a + out
        }),
{
    let output = match calculate_output_amount(swap_a, input_amount, pool_a, pool_b) {
        Ok(out) => out,
        Err(e) => {
            return Err(e);
        },
    };
    if output < min_output_amount {
        return Err(AmmError::SlippageExceeded);
    }
    proof {
        if swap_a {
            crate::math::lemma_swap_output_le_reserve_out(
                input_amount as int,
                pool_a as int,
                pool_b as int,
            );
        } else {
            crate::math::lemma_swap_output_le_reserve_out(
                input_amount as int,
                pool_b as int,
                pool_a as int,
            );
        }
    }
    if swap_a {
        Ok(
            DirectSwapSettlement {
                output,
                new_pool_a: pool_a + input_amount,
                new_pool_b: pool_b - output,
                new_user_a: user_a - input_amount,
                new_user_b: user_b + output,
            },
        )
    } else {
        Ok(
            DirectSwapSettlement {
                output,
                new_pool_b: pool_b + input_amount,
                new_pool_a: pool_a - output,
                new_user_b: user_b - input_amount,
                new_user_a: user_a + output,
            },
        )
    }
}

/// A direct swap settled exactly never lowers the product of the
/// reserves, whichever way it trades.
pub proof fn lemma_direct_settlement_preserves_product(
    s: DirectSwapSettlement,
    swap_a: bool,
    input_amount: u64,
    pool_a: u64,
    pool_b: u64,
)
    requires
        pool_a > 0,
        pool_b > 0,
        s.output == output_amount_spec(swap_a, input_amount as int, pool_a as int, pool_b as int),
        swap_a ==> s.new_pool_a == pool_a + input_amount && s.new_pool_b == pool_b - s.output,
        !swap_a ==> s.new_pool_b == pool_b + input_amount && s.new_pool_a == pool_a - s.output,
    ensures
        s.new_pool_a * s.new_pool_b >= pool_a * pool_b,
{
    if swap_a {
        crate::math::lemma_quote_preserves_product(
            pool_a as int,
            pool_b as int,
            input_amount as int,
        );
    } else {
        crate::math::lemma_quote_preserves_product(
            pool_b as int,
            pool_a as int,
            input_amount as int,
        );
        vstd::arithmetic::mul::lemma_mul_is_commutative(s.new_pool_b as int, s.new_pool_a as int);
        vstd::arithmetic::mul::lemma_mul_is_commutative(pool_b as int, pool_a as int);
    }
}

/// Builds the two movements that settle a direct swap: the input leg
/// from the trader to the pool, authorized by the trader, then the
/// output leg from the pool to the trader, authorized by the pool's
/// derived authority; each leg carries its asset's validation record.
pub fn plan_swap_transfers(
    swap_a: bool,
    input_amount: u64,
    output: u64,
    user_account_a: [u8; 32],
    user_account_b: [u8; 32],
    pool_account_a: [u8; 32],
    pool_account_b: [u8; 32],
    mint_a: [u8; 32],
    mint_b: [u8; 32],
    user: [u8; 32],
    pool_authority: [u8; 32],
    meta_list_a: [u8; 32],
    meta_list_b: [u8; 32],
    decimals: u8,
) -> (r: (crate::transfer::TransferPlan, crate::transfer::TransferPlan))
    ensures
        r.0.amount == input_amount && r.1.amount == output,
        r.0.authority == user && r.1.authority == pool_authority,
        swap_a ==> ({
            &&& r.0.source == user_account_a && r.0.destination == pool_account_a && r.0.mint
                == mint_a
            &&& r.1.source == pool_account_b && r.1.destination == user_account_b && r.1.mint
                == mint_b
            &&& r.0.extra_accounts@.len() == 1 && r.0.extra_accounts@[0].key == meta_list_a
            &&& r.1.extra_accounts@.len() == 1 && r.1.extra_accounts@[0].key == meta_list_b
        }),
        !r.0.extra_accounts@[0].is_signer && !r.0.extra_accounts@[0].is_writable,
        !r.1.extra_accounts@[0].is_signer && !r.1.extra_accounts@[0].is_writable,
        !swap_a ==> ({
            &&& r.0.source == user_account_b && r.0.destination == pool_account_b && r.0.mint
                == mint_b
            &&& r.1.source == pool_account_a && r.1.destination == user_account_a && r.1.mint
                == mint_a
            &&& r.0.extra_accounts@.len() == 1 && r.0.extra_accounts@[0].key == meta_list_b
            &&& r.1.extra_accounts@.len() == 1 && r.1.extra_accounts@[0].key == meta_list_a
        }),
        r.0.decimals == decimals && r.1.decimals == decimals,
{
    if swap_a {
        let user_leg = crate::transfer::build_validated_transfer(
            user_account_a,
            mint_a,
            pool_account_a,
            user,
            input_amount,
            decimals,
            meta_list_a,
        );
        let pool_leg = crate::transfer::build_validated_transfer(
            pool_account_b,
            mint_b,
            user_account_b,
            pool_authority,
            output,
            decimals,
            meta_list_b,
        );
        (user_leg, pool_leg)
    } else {
        let user_leg = crate::transfer::build_validated_transfer(
            user_account_b,
            mint_b,
            pool_account_b,
            user,
            input_amount,
            decimals,
            meta_list_b,
        );
        let pool_leg = crate::transfer::build_validated_transfer(
            pool_account_a,
            mint_a,
            user_account_a,
            pool_authority,
            output,
            decimals,
            meta_list_a,
        );
        (user_leg, pool_leg)
    }
}

} // verus!
