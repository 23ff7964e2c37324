use hook_amm::counter::{decode_counter, encode_counter, MintTradeCounter, COUNTER_LEN};
use hook_amm::errors::{AmmError, CounterHookError};
use hook_amm::hook::{
    counter_tag, initialize_extra_account_meta_list, initialize_mint_trade_counter,
    meta_list_tag, plan_hook_account, process_instruction, AccountView,
};
use hook_amm::transfer::{build_pool_authority_seeds, move_with_hook};
use spl_tlv_account_resolution::account::ExtraAccountMeta;
use spl_tlv_account_resolution::seeds::Seed;
use spl_tlv_account_resolution::state::ExtraAccountMetaList;
use spl_transfer_hook_interface::instruction::{ExecuteInstruction, TransferHookInstruction};

fn key(n: u8) -> [u8; 32] {
    [n; 32]
}

fn account(k: [u8; 32], owner: [u8; 32], writable: bool, data: Vec<u8>) -> AccountView {
    AccountView { key: k, owner, is_signer: false, is_writable: writable, data }
}

#[test]
fn counter_codec_round_trips() {
    let mut c = MintTradeCounter::new(key(1), key(2));
    c.record_outgoing(42, 1_700_000_000).unwrap();
    c.record_outgoing(8, -5).unwrap();
    let bytes = encode_counter(&c);
    assert_eq!(bytes.len(), COUNTER_LEN);
    let back = decode_counter(&bytes).unwrap();
    assert_eq!(back.mint, key(1));
    assert_eq!(back.hook_owner, key(2));
    assert_eq!(back.outgoing_transfers, 2);
    assert_eq!(back.total_outgoing_volume, 50);
    assert_eq!(back.last_updated, -5);
    assert_eq!(back.incoming_transfers, 0);
    assert_eq!(back.total_incoming_volume, 0);
}

#[test]
fn counter_codec_matches_the_persistence_format() {
    let mut c = MintTradeCounter::new(key(7), key(8));
    c.record_outgoing(1000, -12345).unwrap();
    let expected = borsh::to_vec(&(
        key(7),
        0u64,
        1u64,
        0u64,
        1000u64,
        -12345i64,
        key(8),
    ))
    .unwrap();
    assert_eq!(encode_counter(&c), expected);
}

#[test]
fn short_records_are_rejected() {
    let data = vec![0u8; COUNTER_LEN - 1];
    assert_eq!(decode_counter(&data).err(), Some(CounterHookError::InvalidAccountData));
}

#[test]
fn strict_update_rejects_zero_amount() {
    let mut c = MintTradeCounter::new(key(1), key(2));
    assert_eq!(c.record_outgoing(0, 5).err(), Some(CounterHookError::InvalidAmount));
    assert_eq!(c.outgoing_transfers, 0);
    assert_eq!(c.last_updated, 0);
}

#[test]
fn saturating_update_sticks_at_the_maximum() {
    let mut c = MintTradeCounter::new(key(1), key(2));
    c.total_outgoing_volume = u64::MAX - 1;
    c.outgoing_transfers = u64::MAX;
    c.record_outgoing_saturating(10, 3);
    assert_eq!(c.outgoing_transfers, u64::MAX);
    assert_eq!(c.total_outgoing_volume, u64::MAX);
    assert_eq!(c.last_updated, 3);
}

#[test]
fn move_with_hook_commits_atomically() {
    let mut from: u64 = 100;
    let mut to: u64 = 5;
    let mut c = MintTradeCounter::new(key(1), key(2));
    move_with_hook(&mut from, &mut to, &mut c, 40, 9, &key(3), &key(4), &key(3), &key(4))
        .unwrap();
    assert_eq!(from, 60);
    assert_eq!(to, 45);
    assert_eq!(c.outgoing_transfers, 1);
    assert_eq!(c.total_outgoing_volume, 40);
    assert_eq!(c.last_updated, 9);
}

#[test]
fn move_with_hook_rejects_mismatched_accounts() {
    let mut from: u64 = 100;
    let mut to: u64 = 5;
    let mut c = MintTradeCounter::new(key(1), key(2));
    let r = move_with_hook(&mut from, &mut to, &mut c, 40, 9, &key(3), &key(4), &key(9), &key(4));
    assert_eq!(r.err(), Some(AmmError::HookAccountMismatch));
    assert_eq!(from, 100);
    assert_eq!(to, 5);
    assert_eq!(c.outgoing_transfers, 0);
}

#[test]
fn move_with_hook_rejects_zero_amount() {
    let mut from: u64 = 100;
    let mut to: u64 = 5;
    let mut c = MintTradeCounter::new(key(1), key(2));
    let r = move_with_hook(&mut from, &mut to, &mut c, 0, 9, &key(3), &key(4), &key(3), &key(4));
    assert_eq!(r.err(), Some(AmmError::InvalidAmount));
    assert_eq!(from, 100);
}

#[test]
fn retried_movement_counts_once() {
    // A first attempt with the wrong resolved accounts fails and leaves
    // the counter alone; the retry commits and counts exactly once.
    let mut from: u64 = 100;
    let mut to: u64 = 0;
    let mut c = MintTradeCounter::new(key(1), key(2));
    let first =
        move_with_hook(&mut from, &mut to, &mut c, 40, 9, &key(3), &key(4), &key(9), &key(4));
    assert!(first.is_err());
    let second =
        move_with_hook(&mut from, &mut to, &mut c, 40, 10, &key(3), &key(4), &key(3), &key(4));
    assert!(second.is_ok());
    assert_eq!(c.outgoing_transfers, 1);
    assert_eq!(c.total_outgoing_volume, 40);
}

#[test]
fn execute_instruction_updates_the_counter() {
    let program_id = key(9);
    let mint = key(1);
    let c = MintTradeCounter::new(mint, key(2));
    let mut accounts = vec![
        account(key(11), key(0), false, Vec::new()),
        account(mint, key(0), false, Vec::new()),
        account(key(12), key(0), false, Vec::new()),
        account(key(13), key(0), false, Vec::new()),
        account(key(14), program_id, true, encode_counter(&c)),
    ];
    let data = TransferHookInstruction::Execute { amount: 7 }.pack();
    process_instruction(&program_id, &mut accounts, &data, 99).unwrap();
    let updated = decode_counter(&accounts[4].data).unwrap();
    assert_eq!(updated.outgoing_transfers, 1);
    assert_eq!(updated.total_outgoing_volume, 7);
    assert_eq!(updated.last_updated, 99);
}

#[test]
fn execute_instruction_rejects_foreign_accounts() {
    // A resolved counter account the hook program does not own means the
    // caller built the wrong extra-account list: the movement must fail,
    // with nothing counted.
    let program_id = key(9);
    let c = MintTradeCounter::new(key(1), key(2));
    let original = encode_counter(&c);
    let mut accounts = vec![
        account(key(11), key(0), false, Vec::new()),
        account(key(1), key(0), false, Vec::new()),
        account(key(12), key(0), false, Vec::new()),
        account(key(13), key(0), false, Vec::new()),
        account(key(14), key(8), true, original.clone()),
    ];
    let data = TransferHookInstruction::Execute { amount: 7 }.pack();
    let r = process_instruction(&program_id, &mut accounts, &data, 99);
    assert_eq!(r.err(), Some(CounterHookError::HookAccountMismatch));
    assert_eq!(accounts[4].data, original);
}

#[test]
fn execute_instruction_rejects_a_short_account_list() {
    let program_id = key(9);
    let mut accounts = vec![account(key(11), key(0), false, Vec::new())];
    let data = TransferHookInstruction::Execute { amount: 7 }.pack();
    let r = process_instruction(&program_id, &mut accounts, &data, 99);
    assert_eq!(r.err(), Some(CounterHookError::HookAccountMismatch));
}

#[test]
fn initialize_counter_instruction_writes_a_fresh_record() {
    let program_id = key(9);
    let mint = key(1);
    let (counter_key, _bump) = plan_hook_account(&counter_tag(), &mint, &program_id).unwrap();
    let mut counter_account = account(counter_key, program_id, true, vec![0u8; COUNTER_LEN]);
    initialize_mint_trade_counter(&mut counter_account, &mint, &key(2), &program_id, 55).unwrap();
    let c = decode_counter(&counter_account.data).unwrap();
    assert_eq!(c.mint, mint);
    assert_eq!(c.hook_owner, key(2));
    assert_eq!(c.outgoing_transfers, 0);
    assert_eq!(c.last_updated, 55);
}

#[test]
fn initialize_counter_refuses_the_wrong_address() {
    let program_id = key(9);
    let mut counter_account = account(key(14), program_id, true, vec![0u8; COUNTER_LEN]);
    let r = initialize_mint_trade_counter(&mut counter_account, &key(1), &key(2), &program_id, 55);
    assert_eq!(r.err(), Some(CounterHookError::InvalidSeeds));
}

#[test]
fn initialize_counter_is_once_only() {
    let program_id = key(9);
    let mint = key(1);
    let (counter_key, _bump) = plan_hook_account(&counter_tag(), &mint, &program_id).unwrap();
    let mut counter_account = account(counter_key, program_id, true, vec![0u8; COUNTER_LEN]);
    initialize_mint_trade_counter(&mut counter_account, &mint, &key(2), &program_id, 55).unwrap();
    let installed = counter_account.data.clone();
    // A second create call must not reset the record.
    let r = initialize_mint_trade_counter(&mut counter_account, &mint, &key(3), &program_id, 66);
    assert_eq!(r.err(), Some(CounterHookError::InvalidAccountData));
    assert_eq!(counter_account.data, installed);
}

#[test]
fn initialize_counter_needs_an_allocated_account() {
    let program_id = key(9);
    let mint = key(1);
    let (counter_key, _bump) = plan_hook_account(&counter_tag(), &mint, &program_id).unwrap();
    let mut counter_account = account(counter_key, program_id, true, Vec::new());
    let r = initialize_mint_trade_counter(&mut counter_account, &mint, &key(2), &program_id, 55);
    assert_eq!(r.err(), Some(CounterHookError::AccountNotInitialized));
}

#[test]
fn update_counter_instruction_parses_its_payload() {
    let program_id = key(9);
    let c = MintTradeCounter::new(key(1), key(2));
    let mut accounts = vec![account(key(14), program_id, true, encode_counter(&c))];
    let mut data: Vec<u8> = (9u8..=16u8).collect();
    data.extend_from_slice(&31u64.to_le_bytes());
    data.extend_from_slice(&key(5));
    data.extend_from_slice(&key(6));
    process_instruction(&program_id, &mut accounts, &data, 77).unwrap();
    let updated = decode_counter(&accounts[0].data).unwrap();
    assert_eq!(updated.outgoing_transfers, 1);
    assert_eq!(updated.total_outgoing_volume, 31);
    assert_eq!(updated.last_updated, 77);
}

#[test]
fn update_counter_instruction_rejects_zero_amount() {
    let program_id = key(9);
    let c = MintTradeCounter::new(key(1), key(2));
    let original = encode_counter(&c);
    let mut accounts = vec![account(key(14), program_id, true, original.clone())];
    let mut data: Vec<u8> = (9u8..=16u8).collect();
    data.extend_from_slice(&0u64.to_le_bytes());
    data.extend_from_slice(&key(5));
    data.extend_from_slice(&key(6));
    let r = process_instruction(&program_id, &mut accounts, &data, 77);
    assert_eq!(r.err(), Some(CounterHookError::InvalidAmount));
    assert_eq!(accounts[0].data, original);
}

#[test]
fn unknown_instructions_are_refused() {
    let program_id = key(9);
    let mut accounts: Vec<AccountView> = Vec::new();
    let data = vec![200u8; 12];
    assert_eq!(
        process_instruction(&program_id, &mut accounts, &data, 0).err(),
        Some(CounterHookError::InvalidInstruction)
    );
    let short = vec![1u8; 4];
    assert_eq!(
        process_instruction(&program_id, &mut accounts, &short, 0).err(),
        Some(CounterHookError::InvalidInstruction)
    );
}

#[test]
fn meta_list_installation_matches_the_resolution_crate() {
    let program_id = key(9);
    let mint = key(1);
    let (record_key, _bump) = plan_hook_account(&meta_list_tag(), &mint, &program_id).unwrap();
    let mut record = account(record_key, program_id, true, vec![0u8; 128]);
    initialize_extra_account_meta_list(&mut record, &mint, &program_id).unwrap();

    // The same installation performed directly with the resolution crate.
    let mut expected = vec![0u8; 128];
    let meta = ExtraAccountMeta::new_with_seeds(
        &[
            Seed::Literal { bytes: b"mint-trade-counter".to_vec() },
            Seed::AccountKey { index: 1 },
        ],
        false,
        true,
    )
    .unwrap();
    ExtraAccountMetaList::init::<ExecuteInstruction>(&mut expected, &[meta]).unwrap();
    assert_eq!(record.data, expected);
}

#[test]
fn meta_list_installation_needs_room() {
    let program_id = key(9);
    let mint = key(1);
    let (record_key, _bump) = plan_hook_account(&meta_list_tag(), &mint, &program_id).unwrap();
    let mut record = account(record_key, program_id, true, vec![0u8; 4]);
    let r = initialize_extra_account_meta_list(&mut record, &mint, &program_id);
    assert_eq!(r.err(), Some(CounterHookError::InvalidAccountData));
}

#[test]
fn pool_authority_signer_seeds_are_the_derivation_inputs() {
    let seeds = build_pool_authority_seeds(&key(1), &key(2), &key(3), 250);
    assert_eq!(seeds.len(), 5);
    assert_eq!(seeds[0], key(1).to_vec());
    assert_eq!(seeds[1], key(2).to_vec());
    assert_eq!(seeds[2], key(3).to_vec());
    assert_eq!(seeds[3], b"pool-authority".to_vec());
    assert_eq!(seeds[4], vec![250u8]);
}
