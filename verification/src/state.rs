//! The reserve ledger's entities: the market (`Amm`) and the pool.
//!
//! A market is created once, carries the flat swap fee and its collector,
//! and is mutated only by its admin while it is not immutable.  A pool
//! binds a market to an ordered asset pair, custodies the reserves in two
//! vaults owned by the pool's derived authority, and keeps the running
//! LP-share supply.

use vstd::prelude::*;

verus! {

use crate::authority::{
    authority_seeds, derive_authority, is_found_pda, keys_view, verify_authority,
};
use crate::errors::AmmError;

/// The largest accepted flat swap fee, in lamports (a tenth of one SOL).
pub const MAX_SOL_FEE: u64 = 100_000_000;

/// The longest stored market identifier, in bytes.
pub const MAX_POOL_ID_LEN: usize = 64;

/// A market: one trading venue with its governance state.
pub struct Amm {
    /// The unique market identifier.
    pub pool_id: Vec<u8>,
    /// The key holding admin authority over the market.
    pub admin: [u8; 32],
    /// The flat SOL fee taken on each trade, in lamports.
    pub sol_fee: u64,
    /// Where the flat fee is sent.
    pub sol_fee_collector: [u8; 32],
    /// Whether the market has been created.
    pub created: bool,
    /// Once set, the admin and fee fields are frozen permanently.
    pub is_immutable: bool,
}

impl Amm {
    /// The stored identifier never exceeds its fixed field size.
    pub open spec fn wf(&self) -> bool {
        self.pool_id@.len() <= MAX_POOL_ID_LEN
    }
}

impl Default for Amm {
    /// An empty, not-yet-created market.
    fn default() -> (r: Amm)
        ensures
            r.pool_id@ == Seq::<u8>::empty(),
            r.admin@ == Seq::new(32, |i: int| 0u8),
            r.sol_fee == 0,
            r.sol_fee_collector@ == Seq::new(32, |i: int| 0u8),
            !r.created,
            !r.is_immutable,
            r.wf(),
    {
        let r = Amm {
            pool_id: Vec::new(),
            admin: [0u8; 32],
            sol_fee: 0,
            sol_fee_collector: [0u8; 32],
            created: false,
            is_immutable: false,
        };
        proof {
            assert(r.admin@ =~= Seq::new(32, |i: int| 0u8));
            assert(r.sol_fee_collector@ =~= Seq::new(32, |i: int| 0u8));
        }
        r
    }
}

impl Amm {
    /// Creates the market: records the identifier, admin, fee and fee
    /// collector, and marks it created and mutable.
    ///
    /// Rejected when the admin did not sign (`UnauthorizedAdmin`), when the
    /// fee is zero or above the cap (`InvalidFee`), when the identifier is
    /// over-long (`InvalidPool`), or when the market already exists
    /// (`PoolAlreadyExists`); a rejected call changes nothing.
    pub fn create_amm(
        &mut self,
        pool_id: Vec<u8>,
        admin: [u8; 32],
        sol_fee: u64,
        sol_fee_collector: [u8; 32],
        admin_is_signer: bool,
    ) -> (r: Result<(), AmmError>)
        ensures
            r == if !admin_is_signer {
                Err::<(), AmmError>(AmmError::UnauthorizedAdmin)
            } else if sol_fee == 0 || sol_fee > MAX_SOL_FEE {
                Err::<(), AmmError>(AmmError::InvalidFee)
            } else if pool_id@.len() > MAX_POOL_ID_LEN {
                Err::<(), AmmError>(AmmError::InvalidPool)
            } else if old(self).created {
                Err::<(), AmmError>(AmmError::PoolAlreadyExists)
            } else {
                Ok::<(), AmmError>(())
            },
            r is Ok ==> ({
                &&& final(self).pool_id@ == pool_id@
                &&& final(self).admin == admin
                &&& final(self).sol_fee == sol_fee
                &&& final(self).sol_fee_collector == sol_fee_collector
                &&& final(self).created
                &&& !final(self).is_immutable
            }),
            r is Err ==> *final(self) == *old(self),
            r is Ok ==> final(self).wf(),
    {
        if !admin_is_signer {
            return Err(AmmError::UnauthorizedAdmin);
        }
        if sol_fee == 0 || sol_fee > MAX_SOL_FEE {
            return Err(AmmError::InvalidFee);
        }
        if pool_id.len() > MAX_POOL_ID_LEN {
            return Err(AmmError::InvalidPool);
        }
        if self.created {
            return Err(AmmError::PoolAlreadyExists);
        }
        self.pool_id = pool_id;
        self.admin = admin;
        self.sol_fee = sol_fee;
        self.sol_fee_collector = sol_fee_collector;
        self.created = true;
        self.is_immutable = false;
        Ok(())
    }

    /// Whether a mutation by `actor` is admissible: the market exists, is
    /// still mutable, the actor signed and is the current admin.
    pub open spec fn admin_gate(
        &self,
        actor: [u8; 32],
        actor_is_signer: bool,
    ) -> Result<(), AmmError> {
        if !self.created {
            Err(AmmError::PoolDoesNotExist)
        } else if self.is_immutable {
            Err(AmmError::UnauthorizedAdmin)
        } else if !actor_is_signer {
            Err(AmmError::NotSigner)
        } else if actor@ != self.admin@ {
            Err(AmmError::UnauthorizedAdmin)
        } else {
            Ok(())
        }
    }

    /// Checks that `actor` may mutate this market right now.
    fn check_admin_gate(&self, actor: &[u8; 32], actor_is_signer: bool) -> (r: Result<
        (),
        AmmError,
    >)
        ensures
            r == self.admin_gate(*actor, actor_is_signer),
    {
        if !self.created {
            return Err(AmmError::PoolDoesNotExist);
        }
        if self.is_immutable {
            return Err(AmmError::UnauthorizedAdmin);
        }
        if !actor_is_signer {
            return Err(AmmError::NotSigner);
        }
        if !crate::authority::keys_equal(actor, &self.admin) {
            return Err(AmmError::UnauthorizedAdmin);
        }
        Ok(())
    }

    /// Hands the admin role to `new_admin`.  Only the current admin of an
    /// existing, mutable market may do so, and only with a signature.
    pub fn update_admin(
        &mut self,
        actor: [u8; 32],
        actor_is_signer: bool,
        new_admin: [u8; 32],
    ) -> (r: Result<(), AmmError>)
        ensures
            r == old(self).admin_gate(actor, actor_is_signer),
            r is Ok ==> (*final(self) == Amm { admin: new_admin, ..*old(self) }),
            r is Err ==> *final(self) == *old(self),
    {
        let gate = self.check_admin_gate(&actor, actor_is_signer);
        if let Err(e) = gate {
            return Err(e);
        }
        self.admin = new_admin;
        Ok(())
    }

    /// Changes the flat fee.  Gated like `update_admin`, and the new fee
    /// must again be positive and within the cap.
    pub fn update_fee(&mut self, actor: [u8; 32], actor_is_signer: bool, new_sol_fee: u64) -> (r:
        Result<(), AmmError>)
        ensures
            r == if old(self).admin_gate(actor, actor_is_signer) is Err {
                old(self).admin_gate(actor, actor_is_signer)
            } else if new_sol_fee == 0 || new_sol_fee > MAX_SOL_FEE {
                Err::<(), AmmError>(AmmError::InvalidFee)
            } else {
                Ok::<(), AmmError>(())
            },
            r is Ok ==> (*final(self) == Amm { sol_fee: new_sol_fee, ..*old(self) }),
            r is Err ==> *final(self) == *old(self),
    {
        let gate = self.check_admin_gate(&actor, actor_is_signer);
        if let Err(e) = gate {
            return Err(e);
        }
        if new_sol_fee == 0 || new_sol_fee > MAX_SOL_FEE {
            return Err(AmmError::InvalidFee);
        }
        self.sol_fee = new_sol_fee;
        Ok(())
    }

    /// Freezes the market permanently.  Only the signing current admin may
    /// do so; freezing an already immutable market is rejected like any
    /// other mutation of it.
    pub fn make_immutable(&mut self, actor: [u8; 32], actor_is_signer: bool) -> (r: Result<
        (),
        AmmError,
    >)
        ensures
            r == old(self).admin_gate(actor, actor_is_signer),
            r is Ok ==> (*final(self) == Amm { is_immutable: true, ..*old(self) }),
            r is Err ==> *final(self) == *old(self),
    {
        let gate = self.check_admin_gate(&actor, actor_is_signer);
        if let Err(e) = gate {
            return Err(e);
        }
        self.is_immutable = true;
        Ok(())
    }
}

/// The base-58 text of a 32-byte key, as the hosting ledger prints it.
/// The text depends on the key bytes alone.
pub uninterp spec fn base58_of(key: Seq<u8>) -> Seq<u8>;

/// Relies on the `Display` of `solana_program::pubkey::Pubkey`: the
/// base-58 text of an address is a function of its bytes alone.
#[verifier::external_body]
fn base58_key(key: &[u8; 32]) -> (r: Vec<u8>)
    ensures
        r@ == base58_of(key@),
{
    format!("{}", solana_program::pubkey::Pubkey::new_from_array(*key)).into_bytes()
}

/// The deterministic market identifier for an asset pair: the base-58
/// texts of the two mints joined by a dash, cut to the stored field size.
pub open spec fn pool_id_spec(mint_a: Seq<u8>, mint_b: Seq<u8>) -> Seq<u8> {
    let full = base58_of(mint_a) + seq![45u8] + base58_of(mint_b);
    if full.len() <= MAX_POOL_ID_LEN {
        full
    } else {
        full.subrange(0, MAX_POOL_ID_LEN as int)
    }
}

/// Builds the deterministic market identifier for `(mint_a, mint_b)`.
pub fn derive_pool_id(mint_a: &[u8; 32], mint_b: &[u8; 32]) -> (r: Vec<u8>)
    ensures
        r@ == pool_id_spec(mint_a@, mint_b@),
        r@.len() <= MAX_POOL_ID_LEN,
{
    let mut id = base58_key(mint_a);
    id.push(45);
    let mut tail = base58_key(mint_b);
    id.append(&mut tail);
    proof {
        assert(id@ =~= base58_of(mint_a@) + seq![45u8] + base58_of(mint_b@));
    }
    if id.len() > MAX_POOL_ID_LEN {
        id.truncate(MAX_POOL_ID_LEN);
    }
    id
}

/// A pool: one asset pair traded under a market.
pub struct Pool {
    /// The market this pool trades under.
    pub amm: [u8; 32],
    /// Mint of asset A.
    pub mint_a: [u8; 32],
    /// Mint of asset B.
    pub mint_b: [u8; 32],
    /// The vault custodying asset A, or all zeroes before attachment.
    pub vault_a: [u8; 32],
    /// The vault custodying asset B, or all zeroes before attachment.
    pub vault_b: [u8; 32],
    /// The LP-share mint.
    pub lp_mint: [u8; 32],
    /// The running total of issued LP shares.
    pub total_liquidity: u64,
    /// The delegation proof of the pool's derived vault authority.
    pub pool_authority_bump: u8,
}

/// The domain tag under which pool vault authorities are derived.
pub open spec fn pool_authority_tag_spec() -> Seq<u8> {
    seq![112u8, 111u8, 111u8, 108u8, 45u8, 97u8, 117u8, 116u8, 104u8, 111u8, 114u8, 105u8, 116u8, 121u8]
}

/// The domain tag `"pool-authority"` as bytes.
pub fn pool_authority_tag() -> (r: Vec<u8>)
    ensures
        r@ == pool_authority_tag_spec(),
{
    let mut v: Vec<u8> = Vec::new();
    v.push(112);
    v.push(111);
    v.push(111);
    v.push(108);
    v.push(45);
    v.push(97);
    v.push(117);
    v.push(116);
    v.push(104);
    v.push(111);
    v.push(114);
    v.push(105);
    v.push(116);
    v.push(121);
    proof {
        assert(v@ =~= pool_authority_tag_spec());
    }
    v
}

/// The entity keys from which a pool's vault authority is derived.
pub open spec fn pool_authority_keys(amm: Seq<u8>, mint_a: Seq<u8>, mint_b: Seq<u8>) -> Seq<
    Seq<u8>,
> {
    seq![amm, mint_a, mint_b]
}

impl Pool {
    /// A pool is well formed when its two assets differ and its stored
    /// delegation proof is the canonical one for its derivation inputs
    /// under `program_id`.
    pub open spec fn wf(&self, program_id: Seq<u8>, authority: Seq<u8>) -> bool {
        &&& self.mint_a@ != self.mint_b@
        &&& is_found_pda(
            authority_seeds(
                pool_authority_keys(self.amm@, self.mint_a@, self.mint_b@),
                pool_authority_tag_spec(),
            ),
            program_id,
            authority,
            self.pool_authority_bump,
        )
    }

    /// Creates the pool for `(amm, mint_a, mint_b)`: the vault authority is
    /// derived, its proof stored, the LP mint recorded, and the share
    /// supply starts at zero.  The vaults are attached later.
    ///
    /// Rejected when a pool for the pair already exists
    /// (`PoolAlreadyExists`), when both assets are the same mint
    /// (`InvalidPool`), or when no authority can be derived
    /// (`InvalidPoolAuthority`); nothing is created then.
    pub fn create_pool(
        amm: [u8; 32],
        mint_a: [u8; 32],
        mint_b: [u8; 32],
        lp_mint: [u8; 32],
        program_id: [u8; 32],
        pool_account_exists: bool,
    ) -> (r: Result<(Pool, [u8; 32]), AmmError>)
        ensures
            pool_account_exists ==> r == Err::<(Pool, [u8; 32]), AmmError>(
                AmmError::PoolAlreadyExists,
            ),
            !pool_account_exists && mint_a@ == mint_b@ ==> r == Err::<(Pool, [u8; 32]), AmmError>(
                AmmError::InvalidPool,
            ),
            !pool_account_exists && mint_a@ != mint_b@ ==> (r is Ok <==> !(forall|b: u8|
                1 <= b ==> #[trigger] crate::authority::pda_candidate(
                    authority_seeds(
                        pool_authority_keys(amm@, mint_a@, mint_b@),
                        pool_authority_tag_spec(),
                    ),
                    program_id@,
                    b,
                ) is None)),
            !pool_account_exists && mint_a@ != mint_b@ && r is Err ==> r == Err::<
                (Pool, [u8; 32]),
                AmmError,
            >(AmmError::InvalidPoolAuthority),
            r matches Ok(created) ==> {
                &&& !pool_account_exists
                &&& created.0.amm == amm
                &&& created.0.mint_a == mint_a
                &&& created.0.mint_b == mint_b
                &&& created.0.lp_mint == lp_mint
                &&& created.0.vault_a@ == Seq::new(32, |i: int| 0u8)
                &&& created.0.vault_b@ == Seq::new(32, |i: int| 0u8)
                &&& created.0.total_liquidity == 0
                &&& created.0.wf(program_id@, created.1@)
            },
    {
        if pool_account_exists {
            return Err(AmmError::PoolAlreadyExists);
        }
        if crate::authority::keys_equal(&mint_a, &mint_b) {
            return Err(AmmError::InvalidPool);
        }
        let tag = pool_authority_tag();
        let mut keys: Vec<[u8; 32]> = Vec::new();
        keys.push(amm);
        keys.push(mint_a);
        keys.push(mint_b);
        proof {
            assert(keys_view(keys) =~= pool_authority_keys(amm@, mint_a@, mint_b@));
        }
        let (authority, bump) = match derive_authority(&tag, &keys, &program_id) {
            Ok(found) => found,
            Err(e) => {
                return Err(e);
            },
        };
        let pool = Pool {
            amm,
            mint_a,
            mint_b,
            vault_a: [0u8; 32],
            vault_b: [0u8; 32],
            lp_mint,
            total_liquidity: 0,
            pool_authority_bump: bump,
        };
        proof {
            assert(pool.vault_a@ =~= Seq::new(32, |i: int| 0u8));
            assert(pool.vault_b@ =~= Seq::new(32, |i: int| 0u8));
        }
        Ok((pool, authority))
    }

    /// Re-derives the vault authority from the stored proof and checks it
    /// against `claimed_authority`.  Any mismatch is the fatal
    /// `InvalidPoolAuthority`: it means tampering or wrong entity keys.
    pub fn check_authority(&self, claimed_authority: &[u8; 32], program_id: &[u8; 32]) -> (r:
        Result<(), AmmError>)
        ensures
            r is Ok <==> crate::authority::pda_candidate(
                authority_seeds(
                    pool_authority_keys(self.amm@, self.mint_a@, self.mint_b@),
                    pool_authority_tag_spec(),
                ),
                program_id@,
                self.pool_authority_bump,
            ) == Some(claimed_authority@),
            r matches Err(e) ==> e == AmmError::InvalidPoolAuthority,
    {
        let tag = pool_authority_tag();
        let mut keys: Vec<[u8; 32]> = Vec::new();
        keys.push(self.amm);
        keys.push(self.mint_a);
        keys.push(self.mint_b);
        proof {
            assert(keys_view(keys) =~= pool_authority_keys(self.amm@, self.mint_a@, self.mint_b@));
        }
        if verify_authority(&tag, &keys, self.pool_authority_bump, claimed_authority, program_id) {
            Ok(())
        } else {
            Err(AmmError::InvalidPoolAuthority)
        }
    }

    /// Whether the vaults have been attached yet: an unattached vault slot
    /// is all zeroes.
    pub open spec fn vaults_attached(&self) -> bool {
        self.vault_a@ != Seq::new(32, |i: int| 0u8) || self.vault_b@ != Seq::new(32, |i: int| 0u8)
    }

    /// Records the two custody vaults, once.  The claimed vault authority
    /// is re-derived and checked first; attaching twice is rejected with
    /// `PoolAlreadyExists` and changes nothing.
    pub fn attach_vaults(
        &mut self,
        mint_a: &[u8; 32],
        mint_b: &[u8; 32],
        vault_a: [u8; 32],
        vault_b: [u8; 32],
        claimed_authority: &[u8; 32],
        program_id: &[u8; 32],
    ) -> (r: Result<(), AmmError>)
        ensures
            r is Ok <==> mint_a@ == old(self).mint_a@ && mint_b@ == old(self).mint_b@ && !old(
                self,
            ).vaults_attached() && crate::authority::pda_candidate(
                authority_seeds(
                    pool_authority_keys(old(self).amm@, old(self).mint_a@, old(self).mint_b@),
                    pool_authority_tag_spec(),
                ),
                program_id@,
                old(self).pool_authority_bump,
            ) == Some(claimed_authority@),
            r is Ok ==> (*final(self) == Pool { vault_a, vault_b, ..*old(self) }),
            r is Err ==> *final(self) == *old(self),
            r matches Err(e) ==> e == AmmError::InvalidMint || e == AmmError::InvalidPoolAuthority
                || e == AmmError::AlreadyAttached,
    {
        if !crate::authority::keys_equal(mint_a, &self.mint_a) {
            return Err(AmmError::InvalidMint);
        }
        if !crate::authority::keys_equal(mint_b, &self.mint_b) {
            return Err(AmmError::InvalidMint);
        }
        let gate = self.check_authority(claimed_authority, program_id);
        if let Err(e) = gate {
            return Err(e);
        }
        let zero = [0u8; 32];
        proof {
            assert(zero@ =~= Seq::new(32, |i: int| 0u8));
        }
        let a_set = !crate::authority::keys_equal(&self.vault_a, &zero);
        let b_set = !crate::authority::keys_equal(&self.vault_b, &zero);
        if a_set || b_set {
            return Err(AmmError::AlreadyAttached);
        }
        self.vault_a = vault_a;
        self.vault_b = vault_b;
        Ok(())
    }

    /// The reserves and share supply a caller must act on: the latest
    /// committed vault balances beside the recorded supply.
    pub fn current_reserves(&self, vault_a_balance: u64, vault_b_balance: u64) -> (r: (
        u64,
        u64,
        u64,
    ))
        ensures
            r == (vault_a_balance, vault_b_balance, self.total_liquidity),
    {
        (vault_a_balance, vault_b_balance, self.total_liquidity)
    }
}

} // verus!
