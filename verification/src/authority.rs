//! The derived-authority resolver.
//!
//! A vault authority is a deterministic, keyless address derived from a
//! domain tag and the owning entity's keys.  No private key exists for such
//! an address: a caller proves the right to act as it by reproducing the
//! derivation inputs together with a small proof value (the bump).  The
//! derivation itself is the hosting ledger's program-derived-address hash,
//! reached through the two trusted declarations below; everything stated
//! about it elsewhere is proved from their contracts.

use vstd::prelude::*;

verus! {

use crate::errors::AmmError;

/// The maximum number of seed slices the derivation accepts, bump included.
pub const MAX_DERIVATION_SEEDS: usize = 16;

/// The seed slices of an owned seed list, as sequences of bytes.
pub open spec fn seeds_view(seeds: Vec<Vec<u8>>) -> Seq<Seq<u8>> {
    seeds@.map_values(|s: Vec<u8>| s@)
}

/// The key list as sequences of bytes.
pub open spec fn keys_view(keys: Vec<[u8; 32]>) -> Seq<Seq<u8>> {
    keys@.map_values(|k: [u8; 32]| k@)
}

/// What the ledger's program-derived-address hash yields for a seed list
/// and a program id: an address, or nothing when the hash is unusable
/// (it lands on the curve, a seed is over-long, or there are too many
/// seeds).  The result depends on the arguments alone.
pub uninterp spec fn program_derived_address(seeds: Seq<Seq<u8>>, program_id: Seq<u8>) -> Option<
    Seq<u8>,
>;

/// The derivation attempted with one particular bump appended to the seeds.
pub open spec fn pda_candidate(
    seeds: Seq<Seq<u8>>,
    program_id: Seq<u8>,
    bump: u8,
) -> Option<Seq<u8>> {
    program_derived_address(seeds.push(seq![bump]), program_id)
}

/// `(address, bump)` is the canonical derived authority for the seeds:
/// the candidate at `bump` yields `address`, and every higher bump yields
/// nothing.  At most one pair satisfies this for given seeds.
pub open spec fn is_found_pda(
    seeds: Seq<Seq<u8>>,
    program_id: Seq<u8>,
    address: Seq<u8>,
    bump: u8,
) -> bool {
    &&& 1 <= bump
    &&& pda_candidate(seeds, program_id, bump) == Some(address)
    &&& forall|b: u8| bump < b ==> #[trigger] pda_candidate(seeds, program_id, b) is None
    &&& seeds.len() < MAX_DERIVATION_SEEDS
}

/// Relies on `solana_program::pubkey::Pubkey::create_program_address`: the
/// derived address is a function of the seed slices and the program id
/// alone, and the call fails exactly when that function yields nothing.
#[verifier::external_body]
fn create_program_address_raw(seeds: &Vec<Vec<u8>>, program_id: &[u8; 32]) -> (r: Option<[u8; 32]>)
    ensures
        r is Some <==> program_derived_address(seeds_view(*seeds), program_id@) is Some,
        r matches Some(a) ==> program_derived_address(seeds_view(*seeds), program_id@) == Some(a@),
{
    let slices: Vec<&[u8]> = seeds.iter().map(|s| s.as_slice()).collect();
    let pid = solana_program::pubkey::Pubkey::new_from_array(*program_id);
    match solana_program::pubkey::Pubkey::create_program_address(&slices, &pid) {
        Ok(address) => Some(address.to_bytes()),
        Err(_) => None,
    }
}

/// Relies on `solana_program::pubkey::Pubkey::try_find_program_address`:
/// it returns the candidate at the highest workable bump, trying bumps
/// from 255 down to 1, and nothing when no bump works or the seed list is
/// over-long.
#[verifier::external_body]
fn try_find_program_address_raw(seeds: &Vec<Vec<u8>>, program_id: &[u8; 32]) -> (r: Option<
    ([u8; 32], u8),
>)
    ensures
        r matches Some(found) ==> is_found_pda(seeds_view(*seeds), program_id@, found.0@, found.1),
        r is None ==> seeds_view(*seeds).len() >= MAX_DERIVATION_SEEDS || (forall|b: u8|
            1 <= b ==> #[trigger] pda_candidate(seeds_view(*seeds), program_id@, b) is None),
{
    let slices: Vec<&[u8]> = seeds.iter().map(|s| s.as_slice()).collect();
    let pid = solana_program::pubkey::Pubkey::new_from_array(*program_id);
    match solana_program::pubkey::Pubkey::try_find_program_address(&slices, &pid) {
        Some((address, bump)) => Some((address.to_bytes(), bump)),
        None => None,
    }
}

/// Byte-for-byte copy of a key into an owned seed.
pub fn key_to_vec(key: &[u8; 32]) -> (r: Vec<u8>)
    ensures
        r@ == key@,
{
    let mut out: Vec<u8> = Vec::new();
    let mut i: usize = 0;
    while i < 32
        invariant
            i <= 32,
            out@ == key@.subrange(0, i as int),
        decreases 32 - i,
    {
        out.push(key[i]);
        proof {
            assert(out@ == key@.subrange(0, i + 1 as int));
        }
        i = i + 1;
    }
    proof {
        assert(key@.subrange(0, 32) == key@);
    }
    out
}

/// Byte-for-byte copy of an owned seed.
pub fn bytes_to_vec(bytes: &Vec<u8>) -> (r: Vec<u8>)
    ensures
        r@ == bytes@,
{
    let mut out: Vec<u8> = Vec::new();
    let mut i: usize = 0;
    while i < bytes.len()
        invariant
            i <= bytes.len(),
            out@ == bytes@.subrange(0, i as int),
        decreases bytes.len() - i,
    {
        out.push(bytes[i]);
        proof {
            assert(out@ == bytes@.subrange(0, i + 1 as int));
        }
        i = i + 1;
    }
    proof {
        assert(bytes@.subrange(0, bytes@.len() as int) == bytes@);
    }
    out
}

/// Whether two addresses are the same key.
pub fn keys_equal(x: &[u8; 32], y: &[u8; 32]) -> (r: bool)
    ensures
        r == (x@ == y@),
{
    let mut i: usize = 0;
    while i < 32
        invariant
            i <= 32,
            forall|j: int| 0 <= j < i ==> x@[j] == y@[j],
        decreases 32 - i,
    {
        if x[i] != y[i] {
            return false;
        }
        i = i + 1;
    }
    proof {
        assert(x@ =~= y@);
    }
    true
}

/// The seed list of a derived authority: the owning entity's keys followed
/// by the domain tag.
pub open spec fn authority_seeds(keys: Seq<Seq<u8>>, tag: Seq<u8>) -> Seq<Seq<u8>> {
    keys.push(tag)
}

/// Builds the owned seed list `keys ++ [tag]`.
pub fn build_authority_seeds(tag: &Vec<u8>, keys: &Vec<[u8; 32]>) -> (r: Vec<Vec<u8>>)
    ensures
        seeds_view(r) == authority_seeds(keys_view(*keys), tag@),
{
    let mut seeds: Vec<Vec<u8>> = Vec::new();
    let mut i: usize = 0;
    while i < keys.len()
        invariant
            i <= keys.len(),
            seeds@.len() == i,
            forall|j: int| 0 <= j < i ==> #[trigger] seeds@[j]@ == keys@[j]@,
        decreases keys.len() - i,
    {
        seeds.push(key_to_vec(&keys[i]));
        i = i + 1;
    }
    seeds.push(bytes_to_vec(tag));
    proof {
        assert(seeds_view(seeds) =~= authority_seeds(keys_view(*keys), tag@));
    }
    seeds
}

/// Derives the canonical address for an arbitrary seed list under
/// `program_id`.  Fails with `InvalidPoolAuthority` only when no bump
/// works for these seeds or the list is over-long.
pub fn derive_address(seeds: &Vec<Vec<u8>>, program_id: &[u8; 32]) -> (r: Result<
    ([u8; 32], u8),
    AmmError,
>)
    ensures
        r matches Ok(found) ==> is_found_pda(
            seeds_view(*seeds),
            program_id@,
            found.0@,
            found.1,
        ),
        r matches Err(e) ==> e == AmmError::InvalidPoolAuthority,
        r is Err ==> seeds_view(*seeds).len() >= MAX_DERIVATION_SEEDS || (forall|b: u8|
            1 <= b ==> #[trigger] pda_candidate(seeds_view(*seeds), program_id@, b) is None),
{
    match try_find_program_address_raw(seeds, program_id) {
        Some(found) => Ok(found),
        None => Err(AmmError::InvalidPoolAuthority),
    }
}

/// Derives the vault authority for `(tag, keys)` under `program_id`:
/// the canonical `(address, proof)` pair.  Fails with `InvalidPoolAuthority`
/// only when no bump works for these seeds or there are too many keys.
pub fn derive_authority(tag: &Vec<u8>, keys: &Vec<[u8; 32]>, program_id: &[u8; 32]) -> (r: Result<
    ([u8; 32], u8),
    AmmError,
>)
    ensures
        r matches Ok(found) ==> is_found_pda(
            authority_seeds(keys_view(*keys), tag@),
            program_id@,
            found.0@,
            found.1,
        ),
        r matches Err(e) ==> e == AmmError::InvalidPoolAuthority,
        r is Err ==> keys_view(*keys).len() + 1 >= MAX_DERIVATION_SEEDS || (forall|b: u8|
            1 <= b ==> #[trigger] pda_candidate(
                authority_seeds(keys_view(*keys), tag@),
                program_id@,
                b,
            ) is None),
{
    let seeds = build_authority_seeds(tag, keys);
    match try_find_program_address_raw(&seeds, program_id) {
        Some(found) => Ok(found),
        None => Err(AmmError::InvalidPoolAuthority),
    }
}

/// Checks a stored `(proof, claimed_address)` pair against a fresh
/// re-derivation: true exactly when the candidate at `proof_bump` is the
/// claimed address.
pub fn verify_authority(
    tag: &Vec<u8>,
    keys: &Vec<[u8; 32]>,
    proof_bump: u8,
    claimed: &[u8; 32],
    program_id: &[u8; 32],
) -> (ok: bool)
    ensures
        ok == (pda_candidate(authority_seeds(keys_view(*keys), tag@), program_id@, proof_bump)
            == Some(claimed@)),
{
    let mut seeds = build_authority_seeds(tag, keys);
    let mut bump_seed: Vec<u8> = Vec::new();
    bump_seed.push(proof_bump);
    seeds.push(bump_seed);
    proof {
        assert(seeds_view(seeds) =~= authority_seeds(keys_view(*keys), tag@).push(seq![proof_bump]));
    }
    match create_program_address_raw(&seeds, program_id) {
        Some(address) => keys_equal(&address, claimed),
        None => false,
    }
}

/// Derivation is deterministic: identical inputs admit exactly one
/// canonical `(address, proof)` pair, so two derivations of the same
/// authority always agree.
pub proof fn lemma_derive_deterministic(
    seeds: Seq<Seq<u8>>,
    program_id: Seq<u8>,
    address1: Seq<u8>,
    bump1: u8,
    address2: Seq<u8>,
    bump2: u8,
)
    requires
        is_found_pda(seeds, program_id, address1, bump1),
        is_found_pda(seeds, program_id, address2, bump2),
    ensures
        address1 == address2,
        bump1 == bump2,
{
    if bump1 < bump2 {
        assert(pda_candidate(seeds, program_id, bump2) is None);
        assert(false);
    }
    if bump2 < bump1 {
        assert(pda_candidate(seeds, program_id, bump1) is None);
        assert(false);
    }
    assert(Some(address1) == Some(address2));
}

/// A freshly derived authority always passes verification: the candidate
/// at the returned proof is the returned address.
pub proof fn lemma_derived_authority_verifies(
    seeds: Seq<Seq<u8>>,
    program_id: Seq<u8>,
    address: Seq<u8>,
    bump: u8,
)
    requires
        is_found_pda(seeds, program_id, address, bump),
    ensures
        pda_candidate(seeds, program_id, bump) == Some(address),
{
}

} // verus!
