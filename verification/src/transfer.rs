//! The hook-aware transfer protocol.
//!
//! Every asset movement of a hook-enabled asset must carry the
//! protocol-defined extra accounts (the hook program, its validation
//! record, and the asset's trade counter), and the hook's accounting runs
//! synchronously with the movement: if the hook rejects, nothing moves.
//! The builders here compute the account lists and signer seeds of a
//! movement; `move_with_hook` is the movement itself over the balance
//! model, with the counter update folded in atomically.

use vstd::prelude::*;

verus! {

use crate::authority::{authority_seeds, keys_view, seeds_view};
use crate::counter::MintTradeCounter;
use crate::errors::AmmError;

/// One account entry of a built transfer call.
pub struct PlannedAccount {
    /// The account's address.
    pub key: [u8; 32],
    /// Whether the entry must sign.
    pub is_signer: bool,
    /// Whether the entry is writable.
    pub is_writable: bool,
}

/// A fully resolved asset movement, ready to submit: the standard
/// transfer accounts followed by the appended hook accounts, in order.
pub struct TransferPlan {
    /// The account the amount leaves.
    pub source: [u8; 32],
    /// The asset being moved.
    pub mint: [u8; 32],
    /// The account the amount enters.
    pub destination: [u8; 32],
    /// Who authorizes the movement: a user key, or a derived authority.
    pub authority: [u8; 32],
    /// The amount moved.
    pub amount: u64,
    /// The asset's decimal places, checked by the transfer primitive.
    pub decimals: u8,
    /// The hook accounts appended to the call, in protocol order.
    pub extra_accounts: Vec<PlannedAccount>,
}

/// Builds the movement of `amount` with the full hook account list
/// appended: the hook program, the validation record, and the writable
/// trade counter, in that order.
pub fn build_hooked_transfer(
    source: [u8; 32],
    mint: [u8; 32],
    destination: [u8; 32],
    authority: [u8; 32],
    amount: u64,
    decimals: u8,
    hook_program: [u8; 32],
    extra_account_meta_list: [u8; 32],
    mint_trade_counter: [u8; 32],
) -> (r: TransferPlan)
    ensures
        r.source == source,
        r.mint == mint,
        r.destination == destination,
        r.authority == authority,
        r.amount == amount,
        r.decimals == decimals,
        r.extra_accounts@.len() == 3,
        r.extra_accounts@[0].key == hook_program,
        !r.extra_accounts@[0].is_signer && !r.extra_accounts@[0].is_writable,
        r.extra_accounts@[1].key == extra_account_meta_list,
        !r.extra_accounts@[1].is_signer && !r.extra_accounts@[1].is_writable,
        r.extra_accounts@[2].key == mint_trade_counter,
        !r.extra_accounts@[2].is_signer && r.extra_accounts@[2].is_writable,
{
    let mut extra_accounts: Vec<PlannedAccount> = Vec::new();
    extra_accounts.push(PlannedAccount { key: hook_program, is_signer: false, is_writable: false });
    extra_accounts.push(
        PlannedAccount { key: extra_account_meta_list, is_signer: false, is_writable: false },
    );
    extra_accounts.push(
        PlannedAccount { key: mint_trade_counter, is_signer: false, is_writable: true },
    );
    TransferPlan { source, mint, destination, authority, amount, decimals, extra_accounts }
}

/// Builds the movement of `amount` with only the validation record
/// appended, as the direct swap legs submit it.
pub fn build_validated_transfer(
    source: [u8; 32],
    mint: [u8; 32],
    destination: [u8; 32],
    authority: [u8; 32],
    amount: u64,
    decimals: u8,
    extra_account_meta_list: [u8; 32],
) -> (r: TransferPlan)
    ensures
        r.source == source,
        r.mint == mint,
        r.destination == destination,
        r.authority == authority,
        r.amount == amount,
        r.decimals == decimals,
        r.extra_accounts@.len() == 1,
        r.extra_accounts@[0].key == extra_account_meta_list,
        !r.extra_accounts@[0].is_signer && !r.extra_accounts@[0].is_writable,
{
    let mut extra_accounts: Vec<PlannedAccount> = Vec::new();
    extra_accounts.push(
        PlannedAccount { key: extra_account_meta_list, is_signer: false, is_writable: false },
    );
    TransferPlan { source, mint, destination, authority, amount, decimals, extra_accounts }
}

/// Builds the signer seeds with which the pool's derived authority
/// authorizes a movement out of a vault: the derivation keys, the domain
/// tag, then the stored proof.
pub fn build_pool_authority_seeds(
    amm: &[u8; 32],
    mint_a: &[u8; 32],
    mint_b: &[u8; 32],
    bump: u8,
) -> (r: Vec<Vec<u8>>)
    ensures
        seeds_view(r) == authority_seeds(
            crate::state::pool_authority_keys(amm@, mint_a@, mint_b@),
            crate::state::pool_authority_tag_spec(),
        ).push(seq![bump]),
{
    let tag = crate::state::pool_authority_tag();
    let mut keys: Vec<[u8; 32]> = Vec::new();
    keys.push(*amm);
    keys.push(*mint_a);
    keys.push(*mint_b);
    proof {
        assert(keys_view(keys) =~= crate::state::pool_authority_keys(amm@, mint_a@, mint_b@));
    }
    let mut seeds = crate::authority::build_authority_seeds(&tag, &keys);
    let mut bump_seed: Vec<u8> = Vec::new();
    bump_seed.push(bump);
    seeds.push(bump_seed);
    proof {
        assert(seeds_view(seeds) =~= authority_seeds(
            crate::state::pool_authority_keys(amm@, mint_a@, mint_b@),
            crate::state::pool_authority_tag_spec(),
        ).push(seq![bump]));
    }
    seeds
}

/// The counter after one recorded outgoing movement.
pub open spec fn counter_after_outgoing(c: MintTradeCounter, amount: u64, now: i64) -> MintTradeCounter {
    MintTradeCounter {
        outgoing_transfers: (c.outgoing_transfers + 1) as u64,
        total_outgoing_volume: (c.total_outgoing_volume + amount) as u64,
        last_updated: now,
        ..c
    }
}

/// Moves `amount` from one balance to the other with the hook's
/// accounting folded in atomically.
///
/// The resolved extra accounts must match the addresses recorded at hook
/// setup for this asset (`HookAccountMismatch` otherwise), and the hook
/// rejects a zero amount (`InvalidAmount`).  A rejected movement changes
/// no balance and no counter; a committed one moves the amount and
/// records exactly one outgoing transfer.
pub fn move_with_hook(
    from_balance: &mut u64,
    to_balance: &mut u64,
    counter: &mut MintTradeCounter,
    amount: u64,
    now: i64,
    recorded_meta_list: &[u8; 32],
    recorded_counter: &[u8; 32],
    resolved_meta_list: &[u8; 32],
    resolved_counter: &[u8; 32],
) -> (r: Result<(), AmmError>)
    requires
        amount <= *old(from_balance),
        *old(to_balance) + amount <= u64::MAX,
        old(counter).outgoing_transfers < u64::MAX,
        old(counter).total_outgoing_volume + amount <= u64::MAX,
    ensures
        r == if recorded_meta_list@ != resolved_meta_list@ || recorded_counter@
            != resolved_counter@ {
            Err::<(), AmmError>(AmmError::HookAccountMismatch)
        } else if amount == 0 {
            Err::<(), AmmError>(AmmError::InvalidAmount)
        } else {
            Ok::<(), AmmError>(())
        },
        r is Ok ==> *final(from_balance) == *old(from_balance) - amount,
        r is Ok ==> *final(to_balance) == *old(to_balance) + amount,
        r is Ok ==> (*final(counter) == counter_after_outgoing(*old(counter), amount, now)),
        r is Err ==> *final(from_balance) == *old(from_balance) && *final(to_balance) == *old(
            to_balance,
        ) && *final(counter) == *old(counter),
{
    if !crate::authority::keys_equal(recorded_meta_list, resolved_meta_list) {
        return Err(AmmError::HookAccountMismatch);
    }
    if !crate::authority::keys_equal(recorded_counter, resolved_counter) {
        return Err(AmmError::HookAccountMismatch);
    }
    if amount == 0 {
        return Err(AmmError::InvalidAmount);
    }
    *from_balance = *from_balance - amount;
    *to_balance = *to_balance + amount;
    counter.outgoing_transfers = counter.outgoing_transfers + 1;
    counter.total_outgoing_volume = counter.total_outgoing_volume + amount;
    counter.last_updated = now;
    Ok(())
}

/// Retrying a movement counts once: across a first attempt and a retry
/// of the same amount, of which at most one commits (a retry follows
/// only a failure), the counter grows by exactly one transfer when one
/// of them committed, and not at all when neither did.
pub proof fn lemma_retry_counts_once(
    c0: MintTradeCounter,
    c_mid: MintTradeCounter,
    c_end: MintTradeCounter,
    amount: u64,
    now1: i64,
    now2: i64,
    first_committed: bool,
    second_committed: bool,
)
    requires
        c0.outgoing_transfers < u64::MAX,
        c0.total_outgoing_volume + amount <= u64::MAX,
        c_mid == if first_committed {
            counter_after_outgoing(c0, amount, now1)
        } else {
            c0
        },
        c_end == if second_committed {
            counter_after_outgoing(c_mid, amount, now2)
        } else {
            c_mid
        },
        !(first_committed && second_committed),
    ensures
        c_end.outgoing_transfers == c0.outgoing_transfers + (if first_committed
            || second_committed {
            1int
        } else {
            0int
        }),
        c_end.total_outgoing_volume == c0.total_outgoing_volume + (if first_committed
            || second_committed {
            amount as int
        } else {
            0int
        }),
{
}

} // verus!
