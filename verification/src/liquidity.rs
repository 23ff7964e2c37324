//! The liquidity engine: validating the pool's derived accounts and
//! crediting LP shares for a deposit.
//!
//! Share issuance follows the geometric-mean policy: the deposit is
//! credited `isqrt(amount_a * amount_b)`, computed in the truncated
//! domain so no intermediate leaves 64 bits.  (A simple averaging rule
//! for bootstrap deposits exists as `calculate_lp_tokens_to_mint`; a pool
//! uses one policy throughout its life, and this engine uses the
//! geometric one.)

use vstd::prelude::*;

verus! {

use crate::authority::{authority_seeds, is_found_pda, key_to_vec, keys_view};
use crate::errors::AmmError;
use crate::math::{calculate_liquidity_tokens, scaled_geometric_lp_spec, RESERVE_SCALE};
use crate::state::Pool;

/// Everything a settled deposit changes, computed before any movement.
pub struct DepositSettlement {
    /// The LP shares credited to the depositor.
    pub lp_minted: u64,
    /// Pool vault A after its leg.
    pub new_pool_a: u64,
    /// Pool vault B after its leg.
    pub new_pool_b: u64,
    /// The depositor's A account after its leg.
    pub new_user_a: u64,
    /// The depositor's B account after its leg.
    pub new_user_b: u64,
    /// The depositor's LP account after the mint.
    pub new_user_lp: u64,
}

/// Credits a deposit of `(amount_a, amount_b)`: both asset legs move to
/// the pool vaults, the geometric-mean share count is minted to the
/// depositor, and the pool's recorded supply grows by the same count.
///
/// Fails with `ArithmeticOverflow` when the truncated product or the new
/// share supply would leave 64 bits, before anything moves; a failed
/// deposit changes nothing.
pub fn deposit_liquidity(
    pool: &mut Pool,
    amount_a: u64,
    amount_b: u64,
    pool_a_balance: u64,
    pool_b_balance: u64,
    user_a_balance: u64,
    user_b_balance: u64,
    user_lp_balance: u64,
) -> (r: Result<DepositSettlement, AmmError>)
    requires
        amount_a <= user_a_balance,
        amount_b <= user_b_balance,
        pool_a_balance + amount_a <= u64::MAX,
        pool_b_balance + amount_b <= u64::MAX,
        user_lp_balance + scaled_geometric_lp_spec(amount_a as int, amount_b as int) <= u64::MAX,
    ensures
        r is Ok <==> (amount_a as int / (RESERVE_SCALE as int)) * (amount_b as int / (
        RESERVE_SCALE as int)) <= u64::MAX && old(pool).total_liquidity + scaled_geometric_lp_spec(
            amount_a as int,
            amount_b as int,
        ) <= u64::MAX,
        r matches Err(e) ==> e == AmmError::ArithmeticOverflow,
        r is Err ==> *final(pool) == *old(pool),
        r matches Ok(s) ==> ({
            let lp = scaled_geometric_lp_spec(amount_a as int, amount_b as int);
            &&& s.lp_minted == lp
            &&& s.new_pool_a == pool_a_balance + amount_a
            &&& s.new_pool_b == pool_b_balance + amount_b
            &&& s.new_user_a == user_a_balance - amount_a
            &&& s.new_user_b == user_b_balance - amount_b
            &&& s.new_user_lp == user_lp_balance + lp
            &&& (*final(pool) == Pool {
                total_liquidity: (old(pool).total_liquidity + lp) as u64,
                ..*old(pool)
            })
        }),
{
    let lp_minted = match calculate_liquidity_tokens(amount_a, amount_b) {
        Ok(lp) => lp,
        Err(e) => {
            return Err(e);
        },
    };
    let new_total = match pool.total_liquidity.checked_add(lp_minted) {
        Some(total) => total,
        None => {
            return Err(AmmError::ArithmeticOverflow);
        },
    };
    pool.total_liquidity = new_total;
    Ok(
        DepositSettlement {
            lp_minted,
            new_pool_a: pool_a_balance + amount_a,
            new_pool_b: pool_b_balance + amount_b,
            new_user_a: user_a_balance - amount_a,
            new_user_b: user_b_balance - amount_b,
            new_user_lp: user_lp_balance + lp_minted,
        },
    )
}

/// The LP shares the geometric-mean policy owes for a deposit, with the
/// averaging fallback when one side is empty.
pub open spec fn lp_tokens_for_deposit_spec(amount_a: int, amount_b: int) -> int {
    if amount_a > 0 && amount_b > 0 {
        scaled_geometric_lp_spec(amount_a, amount_b)
    } else {
        (amount_a + amount_b) / 2
    }
}

/// The share count to mint for a deposit: the geometric mean of the two
/// amounts, or half their sum when one side is empty.
pub fn mint_lp_tokens(amount_a: u64, amount_b: u64) -> (r: Result<u64, AmmError>)
    ensures
        r is Ok <==> (amount_a as int / (RESERVE_SCALE as int)) * (amount_b as int / (
        RESERVE_SCALE as int)) <= u64::MAX,
        r matches Ok(lp) ==> lp == lp_tokens_for_deposit_spec(amount_a as int, amount_b as int),
        r matches Err(e) ==> e == AmmError::ArithmeticOverflow,
{
    if amount_a > 0 && amount_b > 0 {
        calculate_liquidity_tokens(amount_a, amount_b)
    } else {
        proof {
            if amount_a == 0 || amount_b == 0 {
                broadcast use vstd::arithmetic::div_mod::lemma_basic_div;

                assert((amount_a as int / (RESERVE_SCALE as int)) * (amount_b as int / (
                RESERVE_SCALE as int)) == 0) by {
                    vstd::arithmetic::mul::lemma_mul_by_zero_is_zero(
                        amount_a as int / (RESERVE_SCALE as int),
                    );
                    vstd::arithmetic::mul::lemma_mul_by_zero_is_zero(
                        amount_b as int / (RESERVE_SCALE as int),
                    );
                }
            }
        }
        let sum: u128 = (amount_a as u128) + (amount_b as u128);
        Ok((sum / 2) as u64)
    }
}

/// The seed list of an associated token account: the owner, the token
/// program, then the mint.
pub open spec fn ata_seeds(owner: Seq<u8>, token_program: Seq<u8>, mint: Seq<u8>) -> Seq<Seq<u8>> {
    seq![owner, token_program, mint]
}

/// `account` is the associated token account of `owner` for `mint` under
/// `token_program_id`: the canonical derived address over those three
/// keys, for some bump.
pub open spec fn is_associated_token_account(
    owner: Seq<u8>,
    token_program: Seq<u8>,
    mint: Seq<u8>,
    ata_program: Seq<u8>,
    account: Seq<u8>,
) -> bool {
    exists|bump: u8|
        is_found_pda(seq![owner, token_program, mint], ata_program, account, bump)
}

/// The key of the associated token account holding `mint` for `owner`
/// under `token_program_id`, derived from the account-program's address.
/// Fails with `InvalidPoolAuthority` when no such account can be derived.
pub fn derive_associated_token_account(
    owner: &[u8; 32],
    token_program_id: &[u8; 32],
    mint: &[u8; 32],
    ata_program_id: &[u8; 32],
) -> (r: Result<[u8; 32], AmmError>)
    ensures
        r matches Ok(account) ==> is_associated_token_account(
            owner@,
            token_program_id@,
            mint@,
            ata_program_id@,
            account@,
        ),
        r matches Err(e) ==> e == AmmError::InvalidPoolAuthority,
        r is Err ==> (forall|b: u8|
            1 <= b ==> #[trigger] crate::authority::pda_candidate(
                ata_seeds(owner@, token_program_id@, mint@),
                ata_program_id@,
                b,
            ) is None),
{
    let tag = key_to_vec(mint);
    let mut keys: Vec<[u8; 32]> = Vec::new();
    keys.push(*owner);
    keys.push(*token_program_id);
    proof {
        assert(authority_seeds(keys_view(keys), tag@) =~= seq![owner@, token_program_id@, mint@]);
    }
    match crate::authority::derive_authority(&tag, &keys, ata_program_id) {
        Ok((account, found_bump)) => {
            proof {
                assert(is_associated_token_account(
                    owner@,
                    token_program_id@,
                    mint@,
                    ata_program_id@,
                    account@,
                )) by {
                    assert(is_found_pda(
                        seq![owner@, token_program_id@, mint@],
                        ata_program_id@,
                        account@,
                        found_bump,
                    ));
                }
            }
            Ok(account)
        },
        Err(e) => {
            proof {
                assert forall|b: u8|
                    1 <= b implies #[trigger] crate::authority::pda_candidate(
                    ata_seeds(owner@, token_program_id@, mint@),
                    ata_program_id@,
                    b,
                ) is None by {
                    assert(crate::authority::pda_candidate(
                        authority_seeds(keys_view(keys), tag@),
                        ata_program_id@,
                        b,
                    ) is None);
                }
            }
            Err(e)
        },
    }
}

/// Whether `claimed` is the associated token account of `owner` for
/// `mint`: the address is re-derived and compared, and by determinism of
/// the derivation the comparison decides the predicate exactly.
fn check_associated_token_account(
    owner: &[u8; 32],
    token_program_id: &[u8; 32],
    mint: &[u8; 32],
    ata_program_id: &[u8; 32],
    claimed: &[u8; 32],
) -> (r: bool)
    ensures
        r == is_associated_token_account(
            owner@,
            token_program_id@,
            mint@,
            ata_program_id@,
            claimed@,
        ),
{
    let tag = key_to_vec(mint);
    let mut keys: Vec<[u8; 32]> = Vec::new();
    keys.push(*owner);
    keys.push(*token_program_id);
    proof {
        assert(authority_seeds(keys_view(keys), tag@) =~= seq![owner@, token_program_id@, mint@]);
    }
    match crate::authority::derive_authority(&tag, &keys, ata_program_id) {
        Ok((expected, found_bump)) => {
            let same = crate::authority::keys_equal(&expected, claimed);
            proof {
                if same {
                    assert(is_associated_token_account(
                        owner@,
                        token_program_id@,
                        mint@,
                        ata_program_id@,
                        claimed@,
                    )) by {
                        assert(is_found_pda(
                            seq![owner@, token_program_id@, mint@],
                            ata_program_id@,
                            claimed@,
                            found_bump,
                        ));
                    }
                } else {
                    if is_associated_token_account(
                        owner@,
                        token_program_id@,
                        mint@,
                        ata_program_id@,
                        claimed@,
                    ) {
                        let bump = choose|bump: u8|
                            is_found_pda(
                                seq![owner@, token_program_id@, mint@],
                                ata_program_id@,
                                claimed@,
                                bump,
                            );
                        crate::authority::lemma_derive_deterministic(
                            seq![owner@, token_program_id@, mint@],
                            ata_program_id@,
                            claimed@,
                            bump,
                            expected@,
                            found_bump,
                        );
                    }
                }
            }
            same
        },
        Err(_) => {
            proof {
                if is_associated_token_account(
                    owner@,
                    token_program_id@,
                    mint@,
                    ata_program_id@,
                    claimed@,
                ) {
                    let bump = choose|bump: u8|
                        is_found_pda(
                            seq![owner@, token_program_id@, mint@],
                            ata_program_id@,
                            claimed@,
                            bump,
                        );
                    assert(crate::authority::pda_candidate(
                        seq![owner@, token_program_id@, mint@],
                        ata_program_id@,
                        bump,
                    ) is Some);
                }
            }
            false
        },
    }
}

/// The accounts a deposit acts on are the pool's own: the supplied vault
/// authority re-derives from the pool's stored proof, and each supplied
/// pool account is the associated token account of that authority for
/// its mint.
pub open spec fn pool_accounts_valid(
    pool: Pool,
    pool_authority: Seq<u8>,
    token_program: Seq<u8>,
    ata_program: Seq<u8>,
    pool_account_a: Seq<u8>,
    pool_account_b: Seq<u8>,
    pool_lp_account: Seq<u8>,
    program_id: Seq<u8>,
) -> bool {
    &&& crate::authority::pda_candidate(
        authority_seeds(
            crate::state::pool_authority_keys(pool.amm@, pool.mint_a@, pool.mint_b@),
            crate::state::pool_authority_tag_spec(),
        ),
        program_id,
        pool.pool_authority_bump,
    ) == Some(pool_authority)
    &&& is_associated_token_account(
        pool_authority,
        token_program,
        pool.mint_a@,
        ata_program,
        pool_account_a,
    )
    &&& is_associated_token_account(
        pool_authority,
        token_program,
        pool.mint_b@,
        ata_program,
        pool_account_b,
    )
    &&& is_associated_token_account(
        pool_authority,
        token_program,
        pool.lp_mint@,
        ata_program,
        pool_lp_account,
    )
}

/// Validates the accounts a deposit acts on: the supplied vault authority
/// must re-derive from the pool's stored proof, and each supplied pool
/// account must be the associated token account of that authority for its
/// mint.  Any mismatch is the fatal `InvalidPoolAuthority`.
pub fn validate_pool_accounts(
    pool: &Pool,
    pool_authority: &[u8; 32],
    token_program_id: &[u8; 32],
    ata_program_id: &[u8; 32],
    pool_account_a: &[u8; 32],
    pool_account_b: &[u8; 32],
    pool_lp_account: &[u8; 32],
    program_id: &[u8; 32],
) -> (r: Result<(), AmmError>)
    ensures
        r is Ok <==> pool_accounts_valid(
            *pool,
            pool_authority@,
            token_program_id@,
            ata_program_id@,
            pool_account_a@,
            pool_account_b@,
            pool_lp_account@,
            program_id@,
        ),
        r matches Err(e) ==> e == AmmError::InvalidPoolAuthority,
{
    if pool.check_authority(pool_authority, program_id).is_err() {
        return Err(AmmError::InvalidPoolAuthority);
    }
    if !check_associated_token_account(
        pool_authority,
        token_program_id,
        &pool.mint_a,
        ata_program_id,
        pool_account_a,
    ) {
        return Err(AmmError::InvalidPoolAuthority);
    }
    if !check_associated_token_account(
        pool_authority,
        token_program_id,
        &pool.mint_b,
        ata_program_id,
        pool_account_b,
    ) {
        return Err(AmmError::InvalidPoolAuthority);
    }
    if !check_associated_token_account(
        pool_authority,
        token_program_id,
        &pool.lp_mint,
        ata_program_id,
        pool_lp_account,
    ) {
        return Err(AmmError::InvalidPoolAuthority);
    }
    Ok(())
}

/// The full deposit path of spec: the pool's derived accounts are
/// validated first, and only then is anything credited — an account
/// mismatch fails with `InvalidPoolAuthority` before any movement, and
/// the share arithmetic is checked before anything moves.
pub fn deposit_liquidity_checked(
    pool: &mut Pool,
    pool_authority: &[u8; 32],
    token_program_id: &[u8; 32],
    ata_program_id: &[u8; 32],
    pool_account_a: &[u8; 32],
    pool_account_b: &[u8; 32],
    pool_lp_account: &[u8; 32],
    program_id: &[u8; 32],
    amount_a: u64,
    amount_b: u64,
    pool_a_balance: u64,
    pool_b_balance: u64,
    user_a_balance: u64,
    user_b_balance: u64,
    user_lp_balance: u64,
) -> (r: Result<DepositSettlement, AmmError>)
    requires
        amount_a <= user_a_balance,
        amount_b <= user_b_balance,
        pool_a_balance + amount_a <= u64::MAX,
        pool_b_balance + amount_b <= u64::MAX,
        user_lp_balance + scaled_geometric_lp_spec(amount_a as int, amount_b as int) <= u64::MAX,
    ensures
        r is Ok <==> pool_accounts_valid(
            *old(pool),
            pool_authority@,
            token_program_id@,
            ata_program_id@,
            pool_account_a@,
            pool_account_b@,
            pool_lp_account@,
            program_id@,
        ) && (amount_a as int / (RESERVE_SCALE as int)) * (amount_b as int / (
        RESERVE_SCALE as int)) <= u64::MAX && old(pool).total_liquidity
            + scaled_geometric_lp_spec(amount_a as int, amount_b as int) <= u64::MAX,
        !pool_accounts_valid(
            *old(pool),
            pool_authority@,
            token_program_id@,
            ata_program_id@,
            pool_account_a@,
            pool_account_b@,
            pool_lp_account@,
            program_id@,
        ) ==> r == Err::<DepositSettlement, AmmError>(AmmError::InvalidPoolAuthority),
        r matches Err(e) ==> e == AmmError::InvalidPoolAuthority || e
            == AmmError::ArithmeticOverflow,
        r is Err ==> *final(pool) == *old(pool),
        r matches Ok(s) ==> ({
            let lp = scaled_geometric_lp_spec(amount_a as int, amount_b as int);
            &&& s.lp_minted == lp
            &&& s.new_pool_a == pool_a_balance + amount_a
            &&& s.new_pool_b == pool_b_balance + amount_b
            &&& s.new_user_a == user_a_balance - amount_a
            &&& s.new_user_b == user_b_balance - amount_b
            &&& s.new_user_lp == user_lp_balance + lp
            &&& (*final(pool) == Pool {
                total_liquidity: (old(pool).total_liquidity + lp) as u64,
                ..*old(pool)
            })
        }),
{
    if let Err(e) = validate_pool_accounts(
        pool,
        pool_authority,
        token_program_id,
        ata_program_id,
        pool_account_a,
        pool_account_b,
        pool_lp_account,
        program_id,
    ) {
        return Err(e);
    }
    deposit_liquidity(
        pool,
        amount_a,
        amount_b,
        pool_a_balance,
        pool_b_balance,
        user_a_balance,
        user_b_balance,
        user_lp_balance,
    )
}

/// Builds the two deposit legs from the depositor to the pool vaults,
/// each carrying the full hook account list for its asset; a zero-amount
/// leg is omitted rather than submitted, since the hook rejects it.
pub fn plan_deposit_transfers(
    amount_a: u64,
    amount_b: u64,
    user_account_a: [u8; 32],
    user_account_b: [u8; 32],
    pool_account_a: [u8; 32],
    pool_account_b: [u8; 32],
    mint_a: [u8; 32],
    mint_b: [u8; 32],
    user: [u8; 32],
    hook_program_a: [u8; 32],
    hook_program_b: [u8; 32],
    meta_list_a: [u8; 32],
    meta_list_b: [u8; 32],
    counter_a: [u8; 32],
    counter_b: [u8; 32],
    decimals: u8,
) -> (r: (
    Option<crate::transfer::TransferPlan>,
    Option<crate::transfer::TransferPlan>,
))
    ensures
        r.0 is Some <==> amount_a > 0,
        r.1 is Some <==> amount_b > 0,
        r.0 matches Some(leg) ==> ({
            &&& leg.source == user_account_a && leg.mint == mint_a && leg.destination
                == pool_account_a
            &&& leg.authority == user && leg.amount == amount_a && leg.decimals == decimals
            &&& leg.extra_accounts@.len() == 3
            &&& leg.extra_accounts@[0].key == hook_program_a
            &&& !leg.extra_accounts@[0].is_signer && !leg.extra_accounts@[0].is_writable
            &&& leg.extra_accounts@[1].key == meta_list_a
            &&& !leg.extra_accounts@[1].is_signer && !leg.extra_accounts@[1].is_writable
            &&& leg.extra_accounts@[2].key == counter_a
            &&& !leg.extra_accounts@[2].is_signer && leg.extra_accounts@[2].is_writable
        }),
        r.1 matches Some(leg) ==> ({
            &&& leg.source == user_account_b && leg.mint == mint_b && leg.destination
                == pool_account_b
            &&& leg.authority == user && leg.amount == amount_b && leg.decimals == decimals
            &&& leg.extra_accounts@.len() == 3
            &&& leg.extra_accounts@[0].key == hook_program_b
            &&& !leg.extra_accounts@[0].is_signer && !leg.extra_accounts@[0].is_writable
            &&& leg.extra_accounts@[1].key == meta_list_b
            &&& !leg.extra_accounts@[1].is_signer && !leg.extra_accounts@[1].is_writable
            &&& leg.extra_accounts@[2].key == counter_b
            &&& !leg.extra_accounts@[2].is_signer && leg.extra_accounts@[2].is_writable
        }),
{
    let leg_a = if amount_a > 0 {
        Some(
            crate::transfer::build_hooked_transfer(
                user_account_a,
                mint_a,
                pool_account_a,
                user,
                amount_a,
                decimals,
                hook_program_a,
                meta_list_a,
                counter_a,
            ),
        )
    } else {
        None
    };
    let leg_b = if amount_b > 0 {
        Some(
            crate::transfer::build_hooked_transfer(
                user_account_b,
                mint_b,
                pool_account_b,
                user,
                amount_b,
                decimals,
                hook_program_b,
                meta_list_b,
                counter_b,
            ),
        )
    } else {
        None
    };
    (leg_a, leg_b)
}

} // verus!
