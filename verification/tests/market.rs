use hook_amm::errors::AmmError;
use hook_amm::liquidity::{
    deposit_liquidity_checked, derive_associated_token_account, validate_pool_accounts,
};
use hook_amm::state::{derive_pool_id, Amm, Pool};

fn key(n: u8) -> [u8; 32] {
    [n; 32]
}

#[test]
fn create_amm_records_the_market() {
    let mut amm = Amm::default();
    assert!(!amm.created);
    amm.create_amm(derive_pool_id(&key(1), &key(2)), key(3), 50_000_000, key(4), true).unwrap();
    assert!(amm.created);
    assert!(!amm.is_immutable);
    assert_eq!(amm.admin, key(3));
    assert_eq!(amm.sol_fee, 50_000_000);
    assert_eq!(amm.sol_fee_collector, key(4));
}

#[test]
fn create_amm_rejects_bad_fee() {
    let mut amm = Amm::default();
    assert_eq!(
        amm.create_amm(Vec::new(), key(3), 0, key(4), true).err(),
        Some(AmmError::InvalidFee)
    );
    assert_eq!(
        amm.create_amm(Vec::new(), key(3), 100_000_001, key(4), true).err(),
        Some(AmmError::InvalidFee)
    );
    assert!(!amm.created);
}

#[test]
fn create_amm_rejects_unsigned_admin() {
    let mut amm = Amm::default();
    assert_eq!(
        amm.create_amm(Vec::new(), key(3), 1, key(4), false).err(),
        Some(AmmError::UnauthorizedAdmin)
    );
}

#[test]
fn create_amm_rejects_a_second_creation() {
    let mut amm = Amm::default();
    amm.create_amm(Vec::new(), key(3), 1, key(4), true).unwrap();
    assert_eq!(
        amm.create_amm(Vec::new(), key(5), 1, key(6), true).err(),
        Some(AmmError::PoolAlreadyExists)
    );
    assert_eq!(amm.admin, key(3));
}

#[test]
fn update_admin_requires_existing_market() {
    let mut amm = Amm::default();
    assert_eq!(
        amm.update_admin(key(3), true, key(5)).err(),
        Some(AmmError::PoolDoesNotExist)
    );
}

#[test]
fn update_admin_requires_signature_and_identity() {
    let mut amm = Amm::default();
    amm.create_amm(Vec::new(), key(3), 1, key(4), true).unwrap();
    assert_eq!(amm.update_admin(key(3), false, key(5)).err(), Some(AmmError::NotSigner));
    assert_eq!(
        amm.update_admin(key(9), true, key(5)).err(),
        Some(AmmError::UnauthorizedAdmin)
    );
    amm.update_admin(key(3), true, key(5)).unwrap();
    assert_eq!(amm.admin, key(5));
}

#[test]
fn update_fee_validates_the_new_fee() {
    let mut amm = Amm::default();
    amm.create_amm(Vec::new(), key(3), 1, key(4), true).unwrap();
    assert_eq!(amm.update_fee(key(3), true, 0).err(), Some(AmmError::InvalidFee));
    amm.update_fee(key(3), true, 77).unwrap();
    assert_eq!(amm.sol_fee, 77);
}

#[test]
fn immutable_market_is_frozen() {
    let mut amm = Amm::default();
    amm.create_amm(Vec::new(), key(3), 1, key(4), true).unwrap();
    amm.make_immutable(key(3), true).unwrap();
    assert!(amm.is_immutable);
    assert_eq!(
        amm.update_admin(key(3), true, key(5)).err(),
        Some(AmmError::UnauthorizedAdmin)
    );
    assert_eq!(amm.update_fee(key(3), true, 9).err(), Some(AmmError::UnauthorizedAdmin));
    assert_eq!(amm.sol_fee, 1);
    assert_eq!(amm.admin, key(3));
}

#[test]
fn make_immutable_requires_the_admin() {
    let mut amm = Amm::default();
    amm.create_amm(Vec::new(), key(3), 1, key(4), true).unwrap();
    assert_eq!(amm.make_immutable(key(9), true).err(), Some(AmmError::UnauthorizedAdmin));
    assert!(!amm.is_immutable);
}

#[test]
fn create_pool_rejects_equal_mints() {
    assert_eq!(
        Pool::create_pool(key(1), key(2), key(2), key(3), key(9), false).err(),
        Some(AmmError::InvalidPool)
    );
}

#[test]
fn create_pool_rejects_duplicates() {
    assert_eq!(
        Pool::create_pool(key(1), key(2), key(3), key(4), key(9), true).err(),
        Some(AmmError::PoolAlreadyExists)
    );
}

#[test]
fn created_pool_verifies_its_authority() {
    let program_id = key(9);
    let (pool, authority) =
        Pool::create_pool(key(1), key(2), key(3), key(4), program_id, false).unwrap();
    assert_eq!(pool.total_liquidity, 0);
    assert_eq!(pool.vault_a, [0u8; 32]);
    assert!(pool.check_authority(&authority, &program_id).is_ok());
    assert_eq!(
        pool.check_authority(&key(7), &program_id).err(),
        Some(AmmError::InvalidPoolAuthority)
    );
}

#[test]
fn attach_vaults_is_one_time() {
    let program_id = key(9);
    let (mut pool, authority) =
        Pool::create_pool(key(1), key(2), key(3), key(4), program_id, false).unwrap();
    assert_eq!(
        pool.attach_vaults(&key(8), &key(3), key(10), key(11), &authority, &program_id).err(),
        Some(AmmError::InvalidMint)
    );
    pool.attach_vaults(&key(2), &key(3), key(10), key(11), &authority, &program_id).unwrap();
    assert_eq!(pool.vault_a, key(10));
    assert_eq!(pool.vault_b, key(11));
    assert_eq!(
        pool.attach_vaults(&key(2), &key(3), key(12), key(13), &authority, &program_id).err(),
        Some(AmmError::AlreadyAttached)
    );
    assert_eq!(pool.vault_a, key(10));
}

#[test]
fn current_reserves_reflect_vault_balances() {
    let program_id = key(9);
    let (pool, _) = Pool::create_pool(key(1), key(2), key(3), key(4), program_id, false).unwrap();
    assert_eq!(pool.current_reserves(11, 22), (11, 22, 0));
}

#[test]
fn checked_deposit_validates_before_crediting() {
    let program_id = key(9);
    let token_program = key(20);
    let ata_program = key(21);
    let (mut pool, authority) =
        Pool::create_pool(key(1), key(2), key(3), key(4), program_id, false).unwrap();
    let account_a =
        derive_associated_token_account(&authority, &token_program, &pool.mint_a, &ata_program)
            .unwrap();
    let account_b =
        derive_associated_token_account(&authority, &token_program, &pool.mint_b, &ata_program)
            .unwrap();
    let account_lp =
        derive_associated_token_account(&authority, &token_program, &pool.lp_mint, &ata_program)
            .unwrap();
    assert!(validate_pool_accounts(
        &pool, &authority, &token_program, &ata_program, &account_a, &account_b, &account_lp,
        &program_id,
    )
    .is_ok());

    // A wrong pool account fails before anything is credited.
    let r = deposit_liquidity_checked(
        &mut pool,
        &authority,
        &token_program,
        &ata_program,
        &key(40),
        &account_b,
        &account_lp,
        &program_id,
        2_000_000,
        8_000_000,
        0,
        0,
        2_000_000,
        8_000_000,
        0,
    );
    assert_eq!(r.err(), Some(AmmError::InvalidPoolAuthority));
    assert_eq!(pool.total_liquidity, 0);

    // With the derived accounts the deposit is credited.
    let s = deposit_liquidity_checked(
        &mut pool,
        &authority,
        &token_program,
        &ata_program,
        &account_a,
        &account_b,
        &account_lp,
        &program_id,
        2_000_000,
        8_000_000,
        0,
        0,
        2_000_000,
        8_000_000,
        0,
    )
    .unwrap();
    assert_eq!(s.lp_minted, 4_000_000);
    assert_eq!(pool.total_liquidity, 4_000_000);
}

#[test]
fn pool_id_matches_ledger_text() {
    let mint_a = key(2);
    let mint_b = key(3);
    let id = derive_pool_id(&mint_a, &mint_b);
    let expected = format!(
        "{}-{}",
        solana_program::pubkey::Pubkey::new_from_array(mint_a),
        solana_program::pubkey::Pubkey::new_from_array(mint_b)
    );
    let expected = expected.as_bytes();
    let cut = expected.len().min(64);
    assert_eq!(id.as_slice(), &expected[..cut]);
}
