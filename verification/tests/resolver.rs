use hook_amm::authority::{derive_address, derive_authority, verify_authority};
use hook_amm::errors::AmmError;
use solana_program::pubkey::Pubkey;

fn key(n: u8) -> [u8; 32] {
    [n; 32]
}

#[test]
fn derivation_is_deterministic() {
    let tag = b"pool-authority".to_vec();
    let keys = vec![key(1), key(2), key(3)];
    let program_id = key(9);
    let first = derive_authority(&tag, &keys, &program_id).unwrap();
    let second = derive_authority(&tag, &keys, &program_id).unwrap();
    assert_eq!(first, second);
}

#[test]
fn derivation_matches_the_ledger() {
    let tag = b"pool-authority".to_vec();
    let keys = vec![key(1), key(2), key(3)];
    let program_id = key(9);
    let (address, bump) = derive_authority(&tag, &keys, &program_id).unwrap();
    let (expected, expected_bump) = Pubkey::find_program_address(
        &[&key(1), &key(2), &key(3), b"pool-authority"],
        &Pubkey::new_from_array(program_id),
    );
    assert_eq!(address, expected.to_bytes());
    assert_eq!(bump, expected_bump);
}

#[test]
fn derived_authority_verifies() {
    let tag = b"pool-authority".to_vec();
    let keys = vec![key(4), key(5)];
    let program_id = key(9);
    let (address, bump) = derive_authority(&tag, &keys, &program_id).unwrap();
    assert!(verify_authority(&tag, &keys, bump, &address, &program_id));
}

#[test]
fn wrong_proof_or_address_fails_verification() {
    let tag = b"pool-authority".to_vec();
    let keys = vec![key(4), key(5)];
    let program_id = key(9);
    let (address, bump) = derive_authority(&tag, &keys, &program_id).unwrap();
    // A different claimed address never verifies.
    assert!(!verify_authority(&tag, &keys, bump, &key(7), &program_id));
    // The canonical bump is unique for almost all inputs; a wrong bump
    // either fails outright or derives a different address.
    let other_bump = if bump > 1 { bump - 1 } else { bump + 1 };
    assert!(!verify_authority(&tag, &keys, other_bump, &address, &program_id));
}

#[test]
fn over_long_seed_lists_are_rejected() {
    let tag = b"t".to_vec();
    let keys = vec![key(1); 20];
    let program_id = key(9);
    assert_eq!(
        derive_authority(&tag, &keys, &program_id).err(),
        Some(AmmError::InvalidPoolAuthority)
    );
}

#[test]
fn raw_seed_derivation_matches_the_ledger() {
    let seeds = vec![b"extra-account-metas".to_vec(), key(6).to_vec()];
    let program_id = key(9);
    let (address, bump) = derive_address(&seeds, &program_id).unwrap();
    let (expected, expected_bump) = Pubkey::find_program_address(
        &[b"extra-account-metas", &key(6)],
        &Pubkey::new_from_array(program_id),
    );
    assert_eq!(address, expected.to_bytes());
    assert_eq!(bump, expected_bump);
}
