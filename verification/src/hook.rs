//! The trade-counter hook program: instruction parsing and handlers.
//!
//! The program answers two kinds of calls: the transfer interface's
//! execute call, made synchronously by the transfer primitive on every
//! movement of a hook-enabled asset, and the program's own
//! administration calls, recognized by an eight-byte prefix, that create
//! a counter, update one directly, and install the validation record
//! listing the extra accounts every movement must carry.
//!
//! Accounts are handled through `AccountView`, the program's view of a
//! ledger account: its key and owner, its flags, and its byte contents.
//! Allocating a fresh account is the hosting ledger's work; the planning
//! functions here derive the addresses the ledger must create.

use vstd::prelude::*;

verus! {

use crate::authority::{is_found_pda, pda_candidate};
use crate::counter::{counter_bytes, decode_counter, encode_counter, MintTradeCounter, COUNTER_LEN};
use crate::errors::CounterHookError;
use spl_tlv_account_resolution::account::ExtraAccountMeta;
use spl_tlv_account_resolution::seeds::Seed;
use spl_tlv_account_resolution::state::ExtraAccountMetaList;
use spl_transfer_hook_interface::instruction::ExecuteInstruction;
use spl_transfer_hook_interface::instruction::TransferHookInstruction;

/// The program's view of one ledger account.
pub struct AccountView {
    /// The account's address.
    pub key: [u8; 32],
    /// The program that owns the account.
    pub owner: [u8; 32],
    /// Whether the account signed the call.
    pub is_signer: bool,
    /// Whether the account may be written.
    pub is_writable: bool,
    /// The account's contents.
    pub data: Vec<u8>,
}

/// What a call to the hook program asks for, as far as the transfer
/// interface is concerned: an execute call with its amount, one of the
/// interface's own list-configuration calls, or nothing it recognizes.
#[derive(Clone, Copy, Debug, PartialEq, Eq, Structural)]
pub enum HookInstruction {
    /// The synchronous per-transfer call, carrying the moved amount.
    Execute(u64),
    /// The interface's own configure-list calls, which this program
    /// refuses.
    ConfigureMetaList,
    /// Not a transfer-interface call.
    Unrecognized,
}

/// How the transfer interface reads an instruction's bytes.  The result
/// depends on the bytes alone.
pub uninterp spec fn hook_instruction_of(data: Seq<u8>) -> HookInstruction;

/// Relies on `spl_transfer_hook_interface`'s
/// `TransferHookInstruction::unpack`: which call the bytes ask for, and
/// the execute amount, are a function of the bytes alone.
#[verifier::external_body]
fn parse_hook_instruction(data: &Vec<u8>) -> (r: HookInstruction)
    ensures
        r == hook_instruction_of(data@),
{
    match TransferHookInstruction::unpack(data) {
        Ok(TransferHookInstruction::Execute { amount }) => HookInstruction::Execute(amount),
        Ok(_) => HookInstruction::ConfigureMetaList,
        Err(_) => HookInstruction::Unrecognized,
    }
}

/// What the validation record holds after installation for one
/// PDA-with-seeds entry: a function of the record size, the literal
/// seed, the referenced account index, and the entry's two flags; or
/// nothing, when the record cannot hold the entry.
pub uninterp spec fn execute_meta_list_bytes(
    len: int,
    literal: Seq<u8>,
    account_index: u8,
    entry_signs: bool,
    entry_writable: bool,
) -> Option<Seq<u8>>;

/// Relies on `spl_tlv_account_resolution`'s
/// `ExtraAccountMetaList::init` for the transfer interface's execute
/// call, with the one entry built by `ExtraAccountMeta::new_with_seeds`
/// from a literal seed and an account-key index: what a zeroed record of
/// the given size holds afterwards depends on the arguments alone, and
/// installation fails exactly when the record cannot hold the entry.
/// The entry's two seed configurations must fit the 32-byte seed-config
/// slot (the literal costs its length plus two bytes, the key index two
/// more); an over-long literal is outside what the packer accepts.
#[verifier::external_body]
fn build_execute_meta_list(
    len: usize,
    literal: &Vec<u8>,
    account_index: u8,
    entry_signs: bool,
    entry_writable: bool,
) -> (r: Option<Vec<u8>>)
    requires
        literal@.len() + 4 <= 32,
    ensures
        r is Some <==> execute_meta_list_bytes(
            len as int,
            literal@,
            account_index,
            entry_signs,
            entry_writable,
        ) is Some,
        r matches Some(bytes) ==> Some(bytes@) == execute_meta_list_bytes(
            len as int,
            literal@,
            account_index,
            entry_signs,
            entry_writable,
        ) && bytes@.len() == len,
{
    let mut data = vec![0u8; len];
    let seeds = [
        Seed::Literal { bytes: literal.clone() },
        Seed::AccountKey { index: account_index },
    ];
    let meta = match ExtraAccountMeta::new_with_seeds(&seeds, entry_signs, entry_writable) {
        Ok(meta) => meta,
        Err(_) => return None,
    };
    match ExtraAccountMetaList::init::<ExecuteInstruction>(&mut data, &[meta]) {
        Ok(()) => Some(data),
        Err(_) => None,
    }
}

/// The domain tag under which an asset's trade counter lives:
/// `"mint-trade-counter"`.
pub open spec fn counter_tag_spec() -> Seq<u8> {
    seq![
        109u8, 105u8, 110u8, 116u8, 45u8, 116u8, 114u8, 97u8, 100u8, 101u8, 45u8, 99u8, 111u8,
        117u8, 110u8, 116u8, 101u8, 114u8,
    ]
}

/// The tag `"mint-trade-counter"` as bytes.
pub fn counter_tag() -> (r: Vec<u8>)
    ensures
        r@ == counter_tag_spec(),
{
    let mut v: Vec<u8> = Vec::new();
    v.push(109);
    v.push(105);
    v.push(110);
    v.push(116);
    v.push(45);
    v.push(116);
    v.push(114);
    v.push(97);
    v.push(100);
    v.push(101);
    v.push(45);
    v.push(99);
    v.push(111);
    v.push(117);
    v.push(110);
    v.push(116);
    v.push(101);
    v.push(114);
    proof {
        assert(v@ =~= counter_tag_spec());
    }
    v
}

/// The domain tag under which an asset's validation record lives:
/// `"extra-account-metas"`.
pub open spec fn meta_list_tag_spec() -> Seq<u8> {
    seq![
        101u8, 120u8, 116u8, 114u8, 97u8, 45u8, 97u8, 99u8, 99u8, 111u8, 117u8, 110u8, 116u8,
        45u8, 109u8, 101u8, 116u8, 97u8, 115u8,
    ]
}

/// The tag `"extra-account-metas"` as bytes.
pub fn meta_list_tag() -> (r: Vec<u8>)
    ensures
        r@ == meta_list_tag_spec(),
{
    let mut v: Vec<u8> = Vec::new();
    v.push(101);
    v.push(120);
    v.push(116);
    v.push(114);
    v.push(97);
    v.push(45);
    v.push(97);
    v.push(99);
    v.push(99);
    v.push(111);
    v.push(117);
    v.push(110);
    v.push(116);
    v.push(45);
    v.push(109);
    v.push(101);
    v.push(116);
    v.push(97);
    v.push(115);
    proof {
        assert(v@ =~= meta_list_tag_spec());
    }
    v
}

/// The seed list of a hook-owned per-asset account: the domain tag, then
/// the asset key.
pub open spec fn hook_account_seeds(tag: Seq<u8>, mint: Seq<u8>) -> Seq<Seq<u8>> {
    seq![tag, mint]
}

/// Derives the address at which an account tagged `tag` for `mint` must
/// live under the hook program: the app creates the account there, and
/// the handlers refuse any other address.
pub fn plan_hook_account(tag: &Vec<u8>, mint: &[u8; 32], program_id: &[u8; 32]) -> (r: Result<
    ([u8; 32], u8),
    CounterHookError,
>)
    ensures
        r matches Ok(found) ==> is_found_pda(
            hook_account_seeds(tag@, mint@),
            program_id@,
            found.0@,
            found.1,
        ),
        r matches Err(e) ==> e == CounterHookError::InvalidSeeds,
        r is Err ==> (forall|b: u8|
            1 <= b ==> #[trigger] pda_candidate(
                hook_account_seeds(tag@, mint@),
                program_id@,
                b,
            ) is None),
{
    let mut seeds: Vec<Vec<u8>> = Vec::new();
    seeds.push(crate::authority::bytes_to_vec(tag));
    seeds.push(crate::authority::key_to_vec(mint));
    proof {
        assert(crate::authority::seeds_view(seeds) =~= hook_account_seeds(tag@, mint@));
    }
    match crate::authority::derive_address(&seeds, program_id) {
        Ok(found) => Ok(found),
        Err(_) => Err(CounterHookError::InvalidSeeds),
    }
}

/// `claimed` is the canonical address tagged `tag` for `mint` under the
/// hook program, for some proof value.
pub open spec fn is_canonical_hook_account(
    tag: Seq<u8>,
    mint: Seq<u8>,
    program_id: Seq<u8>,
    claimed: Seq<u8>,
) -> bool {
    exists|bump: u8| is_found_pda(hook_account_seeds(tag, mint), program_id, claimed, bump)
}

/// Checks that `claimed` is the canonical address tagged `tag` for
/// `mint` under the hook program.
fn check_hook_account(tag: &Vec<u8>, mint: &[u8; 32], claimed: &[u8; 32], program_id: &[u8; 32]) -> (r:
    bool)
    ensures
        r == is_canonical_hook_account(tag@, mint@, program_id@, claimed@),
{
    match plan_hook_account(tag, mint, program_id) {
        Ok((expected, found_bump)) => {
            let same = crate::authority::keys_equal(&expected, claimed);
            proof {
                if same {
                    assert(is_canonical_hook_account(tag@, mint@, program_id@, claimed@)) by {
                        assert(is_found_pda(
                            hook_account_seeds(tag@, mint@),
                            program_id@,
                            claimed@,
                            found_bump,
                        ));
                    }
                } else {
                    if exists|bump: u8|
                        is_found_pda(
                            hook_account_seeds(tag@, mint@),
                            program_id@,
                            claimed@,
                            bump,
                        ) {
                        let bump = choose|bump: u8|
                            is_found_pda(
                                hook_account_seeds(tag@, mint@),
                                program_id@,
                                claimed@,
                                bump,
                            );
                        crate::authority::lemma_derive_deterministic(
                            hook_account_seeds(tag@, mint@),
                            program_id@,
                            claimed@,
                            bump,
                            expected@,
                            found_bump,
                        );
                    }
                }
            }
            same
        },
        Err(_) => {
            proof {
                if exists|bump: u8|
                    is_found_pda(hook_account_seeds(tag@, mint@), program_id@, claimed@, bump) {
                    let bump = choose|bump: u8|
                        is_found_pda(
                            hook_account_seeds(tag@, mint@),
                            program_id@,
                            claimed@,
                            bump,
                        );
                    assert(pda_candidate(hook_account_seeds(tag@, mint@), program_id@, bump)
                        is Some);
                }
            }
            false
        },
    }
}

/// The saturating counter transition the hook applies on a movement.
pub open spec fn saturated_update(c: MintTradeCounter, amount: u64, now: i64) -> MintTradeCounter {
    MintTradeCounter {
        outgoing_transfers: if c.outgoing_transfers == u64::MAX {
            u64::MAX
        } else {
            (c.outgoing_transfers + 1) as u64
        },
        total_outgoing_volume: if c.total_outgoing_volume + amount > u64::MAX {
            u64::MAX
        } else {
            (c.total_outgoing_volume + amount) as u64
        },
        last_updated: now,
        ..c
    }
}

/// The account contents after a counter record is rewritten in place:
/// the new record, then whatever followed the old one.
pub open spec fn written_counter_data(old_data: Seq<u8>, c_new: MintTradeCounter) -> Seq<u8> {
    counter_bytes(c_new) + old_data.skip(COUNTER_LEN as int)
}

/// `new_data` is `old_data` with its counter record put through the
/// saturating update.
pub open spec fn data_after_saturated_update(
    old_data: Seq<u8>,
    new_data: Seq<u8>,
    amount: u64,
    now: i64,
) -> bool {
    forall|c: MintTradeCounter|
        counter_bytes(c) == old_data.subrange(0, COUNTER_LEN as int) ==> new_data
            == written_counter_data(old_data, #[trigger] saturated_update(c, amount, now))
}

/// Rewrites the account's counter record through the saturating update.
fn apply_saturated_update(account: &mut AccountView, amount: u64, now: i64)
    requires
        old(account).data@.len() >= COUNTER_LEN,
    ensures
        data_after_saturated_update(old(account).data@, final(account).data@, amount, now),
        final(account).data@.len() == old(account).data@.len(),
        final(account).key == old(account).key,
        final(account).owner == old(account).owner,
        final(account).is_signer == old(account).is_signer,
        final(account).is_writable == old(account).is_writable,
{
    let ghost old_data = old(account).data@;
    let mut c = match decode_counter(&account.data) {
        Ok(c) => c,
        Err(_) => {
            proof {
                assert(false);
            }
            MintTradeCounter::new([0u8; 32], [0u8; 32])
        },
    };
    let ghost c_decoded = c;
    c.record_outgoing_saturating(amount, now);
    proof {
        assert(c == saturated_update(c_decoded, amount, now));
    }
    let mut new_data = encode_counter(&c);
    let mut i: usize = COUNTER_LEN;
    let n = account.data.len();
    while i < n
        invariant
            COUNTER_LEN <= i <= n,
            n == account.data@.len(),
            new_data@ == counter_bytes(c) + account.data@.subrange(COUNTER_LEN as int, i as int),
        decreases n - i,
    {
        new_data.push(account.data[i]);
        proof {
            assert(new_data@ =~= counter_bytes(c) + account.data@.subrange(
                COUNTER_LEN as int,
                i + 1 as int,
            ));
        }
        i = i + 1;
    }
    proof {
        assert(account.data@.subrange(COUNTER_LEN as int, n as int) =~= account.data@.skip(
            COUNTER_LEN as int,
        ));
    }
    account.data = new_data;
    proof {
        assert forall|c2: MintTradeCounter|
            counter_bytes(c2) == old_data.subrange(0, COUNTER_LEN as int) implies account.data@
            == written_counter_data(old_data, saturated_update(c2, amount, now)) by {
            crate::counter::lemma_counter_bytes_injective(c2, c_decoded);
        }
    }
}

/// The eight-byte prefix of the create-counter administration call.
pub open spec fn init_counter_discriminator() -> Seq<u8> {
    seq![1u8, 2u8, 3u8, 4u8, 5u8, 6u8, 7u8, 8u8]
}

/// The eight-byte prefix of the update-counter administration call.
pub open spec fn update_counter_discriminator() -> Seq<u8> {
    seq![9u8, 10u8, 11u8, 12u8, 13u8, 14u8, 15u8, 16u8]
}

/// The eight-byte prefix of the install-validation-record call.
pub open spec fn init_meta_list_discriminator() -> Seq<u8> {
    seq![17u8, 18u8, 19u8, 20u8, 21u8, 22u8, 23u8, 24u8]
}

/// Whether the instruction bytes start with the eight-byte prefix
/// beginning at `first`.
fn has_discriminator(data: &Vec<u8>, first: u8) -> (r: bool)
    requires
        first <= 248,
    ensures
        r == (data@.len() >= 8 && data@.subrange(0, 8) == Seq::new(
            8,
            |i: int| (first + i) as u8,
        )),
{
    if data.len() < 8 {
        return false;
    }
    let mut i: usize = 0;
    while i < 8
        invariant
            i <= 8,
            first <= 248,
            data@.len() >= 8,
            forall|j: int| 0 <= j < i ==> data@[j] == (first + j) as u8,
        decreases 8 - i,
    {
        if data[i] != first + (i as u8) {
            proof {
                assert(data@.subrange(0, 8)[i as int] != Seq::new(8, |k: int| (first + k) as u8)[
                    i as int
                ]);
            }
            return false;
        }
        i = i + 1;
    }
    proof {
        assert(data@.subrange(0, 8) =~= Seq::new(8, |k: int| (first + k) as u8));
    }
    true
}

/// The fields of an account the handlers never change.
pub open spec fn account_shape_preserved(before: AccountView, after: AccountView) -> bool {
    &&& after.key == before.key
    &&& after.owner == before.owner
    &&& after.is_signer == before.is_signer
    &&& after.is_writable == before.is_writable
    &&& after.data@.len() == before.data@.len()
}

/// Whether the resolved counter account is an installed counter the
/// execute path can act on: writable, owned by the hook program, and
/// large enough to hold a record.
pub open spec fn execute_eligible(acct: AccountView, program_id: Seq<u8>) -> bool {
    acct.is_writable && acct.owner@ == program_id && acct.data@.len() >= COUNTER_LEN
}

/// The hook's execute call on its resolved counter account: the record
/// is put through the saturating update, atomically with the movement
/// that triggered the call.  An account that is not an installed counter
/// means the caller resolved the wrong extra accounts, and the whole
/// movement fails with `HookAccountMismatch`: the accounting is never
/// silently skipped.
pub fn execute_transfer_hook(
    counter_account: &mut AccountView,
    program_id: &[u8; 32],
    amount: u64,
    now: i64,
) -> (r: Result<(), CounterHookError>)
    ensures
        r == if execute_eligible(*old(counter_account), program_id@) {
            Ok::<(), CounterHookError>(())
        } else {
            Err::<(), CounterHookError>(CounterHookError::HookAccountMismatch)
        },
        r is Ok ==> account_shape_preserved(*old(counter_account), *final(counter_account))
            && data_after_saturated_update(
            old(counter_account).data@,
            final(counter_account).data@,
            amount,
            now,
        ),
        r is Err ==> *final(counter_account) == *old(counter_account),
{
    if !counter_account.is_writable {
        return Err(CounterHookError::HookAccountMismatch);
    }
    if !crate::authority::keys_equal(&counter_account.owner, program_id) {
        return Err(CounterHookError::HookAccountMismatch);
    }
    if counter_account.data.len() < COUNTER_LEN {
        return Err(CounterHookError::HookAccountMismatch);
    }
    apply_saturated_update(counter_account, amount, now);
    Ok(())
}

/// A counter as it is first installed for an asset.
pub open spec fn initial_counter(mint: [u8; 32], hook_owner: [u8; 32], now: i64) -> MintTradeCounter {
    MintTradeCounter {
        mint,
        incoming_transfers: 0,
        outgoing_transfers: 0,
        total_incoming_volume: 0,
        total_outgoing_volume: 0,
        last_updated: now,
        hook_owner,
    }
}

/// The account's record slot is still blank: a counter was never
/// written there.
pub open spec fn record_is_blank(data: Seq<u8>) -> bool {
    forall|j: int| 0 <= j < COUNTER_LEN ==> #[trigger] data[j] == 0
}

/// Whether the account's record slot is still blank.
fn check_record_blank(data: &Vec<u8>) -> (r: bool)
    requires
        data@.len() >= COUNTER_LEN,
    ensures
        r == record_is_blank(data@),
{
    let mut i: usize = 0;
    while i < COUNTER_LEN
        invariant
            i <= COUNTER_LEN,
            data@.len() >= COUNTER_LEN,
            forall|j: int| 0 <= j < i ==> #[trigger] data@[j] == 0,
        decreases COUNTER_LEN - i,
    {
        if data[i] != 0 {
            return false;
        }
        i = i + 1;
    }
    true
}

/// How the create-counter call is gated: the account must be writable,
/// live at the canonical counter address for the asset, be allocated
/// large enough to hold a record, and hold no record yet — a counter is
/// created once and never reset.
pub open spec fn init_counter_gate(
    acct: AccountView,
    mint: Seq<u8>,
    program_id: Seq<u8>,
) -> Result<(), CounterHookError> {
    if !acct.is_writable {
        Err(CounterHookError::InvalidAccountData)
    } else if !is_canonical_hook_account(counter_tag_spec(), mint, program_id, acct.key@) {
        Err(CounterHookError::InvalidSeeds)
    } else if acct.data@.len() < COUNTER_LEN {
        Err(CounterHookError::AccountNotInitialized)
    } else if !record_is_blank(acct.data@) {
        Err(CounterHookError::InvalidAccountData)
    } else {
        Ok(())
    }
}

/// Installs a fresh counter for `mint` into its account.  The hosting
/// ledger must have allocated the account, at the canonical address, by
/// the time this runs; a gated-out call changes nothing.
pub fn initialize_mint_trade_counter(
    counter_account: &mut AccountView,
    mint: &[u8; 32],
    hook_owner: &[u8; 32],
    program_id: &[u8; 32],
    now: i64,
) -> (r: Result<(), CounterHookError>)
    ensures
        r == init_counter_gate(*old(counter_account), mint@, program_id@),
        r is Err ==> *final(counter_account) == *old(counter_account),
        r is Ok ==> account_shape_preserved(*old(counter_account), *final(counter_account))
            && final(counter_account).data@ == counter_bytes(initial_counter(*mint, *hook_owner, now))
            + old(counter_account).data@.skip(COUNTER_LEN as int),
{
    if !counter_account.is_writable {
        return Err(CounterHookError::InvalidAccountData);
    }
    let tag = counter_tag();
    if !check_hook_account(&tag, mint, &counter_account.key, program_id) {
        return Err(CounterHookError::InvalidSeeds);
    }
    if counter_account.data.len() < COUNTER_LEN {
        return Err(CounterHookError::AccountNotInitialized);
    }
    if !check_record_blank(&counter_account.data) {
        return Err(CounterHookError::InvalidAccountData);
    }
    let mut c = MintTradeCounter::new(*mint, *hook_owner);
    c.last_updated = now;
    write_counter_record(counter_account, &c);
    Ok(())
}

/// How the update-counter call is gated: the account must be writable
/// and owned by the hook program, the payload must carry the amount and
/// both owner keys, the record must be present, and a zero amount is
/// rejected by hook policy.
pub open spec fn update_counter_gate(
    acct: AccountView,
    program_id: Seq<u8>,
    payload: Seq<u8>,
) -> Result<(), CounterHookError> {
    if !acct.is_writable {
        Err(CounterHookError::InvalidAccountData)
    } else if acct.owner@ != program_id {
        Err(CounterHookError::InvalidAccountData)
    } else if payload.len() < 72 {
        Err(CounterHookError::InvalidInstruction)
    } else if acct.data@.len() < COUNTER_LEN {
        Err(CounterHookError::InvalidAccountData)
    } else if vstd::bytes::spec_u64_from_le_bytes(payload.subrange(0, 8)) == 0 {
        Err(CounterHookError::InvalidAmount)
    } else {
        Ok(())
    }
}

/// The direct counter-update call: the payload carries the moved amount
/// and the two owner keys, and the account's record is put through the
/// saturating update.  A gated-out call changes nothing.
pub fn update_mint_trade_counter(
    counter_account: &mut AccountView,
    program_id: &[u8; 32],
    payload: &Vec<u8>,
    now: i64,
) -> (r: Result<(), CounterHookError>)
    ensures
        r == update_counter_gate(*old(counter_account), program_id@, payload@),
        r is Err ==> *final(counter_account) == *old(counter_account),
        r is Ok ==> account_shape_preserved(*old(counter_account), *final(counter_account))
            && data_after_saturated_update(
            old(counter_account).data@,
            final(counter_account).data@,
            vstd::bytes::spec_u64_from_le_bytes(payload@.subrange(0, 8)),
            now,
        ),
{
    if !counter_account.is_writable {
        return Err(CounterHookError::InvalidAccountData);
    }
    if !crate::authority::keys_equal(&counter_account.owner, program_id) {
        return Err(CounterHookError::InvalidAccountData);
    }
    if payload.len() < 72 {
        return Err(CounterHookError::InvalidInstruction);
    }
    if counter_account.data.len() < COUNTER_LEN {
        return Err(CounterHookError::InvalidAccountData);
    }
    let amount = crate::counter::read_u64(payload, 0);
    if amount == 0 {
        return Err(CounterHookError::InvalidAmount);
    }
    apply_saturated_update(counter_account, amount, now);
    Ok(())
}

/// How the install-validation-record call is gated: the account must
/// live at the canonical record address for the asset, and must be able
/// to hold the protocol's one entry.
pub open spec fn init_meta_list_gate(
    acct: AccountView,
    mint: Seq<u8>,
    program_id: Seq<u8>,
) -> Result<(), CounterHookError> {
    if !is_canonical_hook_account(meta_list_tag_spec(), mint, program_id, acct.key@) {
        Err(CounterHookError::InvalidSeeds)
    } else if execute_meta_list_bytes(
        acct.data@.len() as int,
        counter_tag_spec(),
        1,
        false,
        true,
    ) is None {
        Err(CounterHookError::InvalidAccountData)
    } else {
        Ok(())
    }
}

/// Installs the validation record for `mint`: the one protocol entry
/// naming the asset's trade counter, resolved at transfer time from the
/// counter tag and the mint in the call.  A gated-out call changes
/// nothing.
pub fn initialize_extra_account_meta_list(
    meta_list_account: &mut AccountView,
    mint: &[u8; 32],
    program_id: &[u8; 32],
) -> (r: Result<(), CounterHookError>)
    ensures
        r == init_meta_list_gate(*old(meta_list_account), mint@, program_id@),
        r is Err ==> *final(meta_list_account) == *old(meta_list_account),
        r is Ok ==> account_shape_preserved(*old(meta_list_account), *final(meta_list_account))
            && Some(final(meta_list_account).data@) == execute_meta_list_bytes(
            old(meta_list_account).data@.len() as int,
            counter_tag_spec(),
            1,
            false,
            true,
        ),
{
    let tag = meta_list_tag();
    if !check_hook_account(&tag, mint, &meta_list_account.key, program_id) {
        return Err(CounterHookError::InvalidSeeds);
    }
    let literal = counter_tag();
    match build_execute_meta_list(meta_list_account.data.len(), &literal, 1, false, true) {
        Some(bytes) => {
            meta_list_account.data = bytes;
            Ok(())
        },
        None => Err(CounterHookError::InvalidAccountData),
    }
}

/// The account list after a handler that touches only index `k`.
pub open spec fn accounts_updated_at(
    before: Seq<AccountView>,
    after: Seq<AccountView>,
    k: int,
) -> bool {
    &&& after.len() == before.len()
    &&& forall|j: int| 0 <= j < before.len() && j != k ==> after[j] == before[j]
}

/// The bytes after the eight-byte administration prefix.
fn instruction_tail(data: &Vec<u8>) -> (r: Vec<u8>)
    requires
        data@.len() >= 8,
    ensures
        r@ == data@.skip(8),
{
    let n = data.len();
    let mut out: Vec<u8> = Vec::new();
    let mut i: usize = 8;
    while i < n
        invariant
            8 <= i <= n,
            n == data@.len(),
            out@ == data@.subrange(8, i as int),
        decreases n - i,
    {
        out.push(data[i]);
        proof {
            assert(out@ =~= data@.subrange(8, i + 1 as int));
        }
        i = i + 1;
    }
    proof {
        assert(data@.subrange(8, n as int) =~= data@.skip(8));
    }
    out
}

/// The program's entry point: reads the instruction bytes, and routes to
/// the execute path or to one of the three administration calls.
///
/// An execute call acts on the resolved counter account, the fifth in
/// the list; a short list or an account that is not an installed counter
/// fails the movement with `HookAccountMismatch`.  The interface's own
/// configure-list calls are refused, and bytes recognized by nobody fail
/// with `InvalidInstruction`.
pub fn process_instruction(
    program_id: &[u8; 32],
    accounts: &mut Vec<AccountView>,
    instruction_data: &Vec<u8>,
    now: i64,
) -> (r: Result<(), CounterHookError>)
    ensures
        instruction_data@.len() < 8 ==> r == Err::<(), CounterHookError>(
            CounterHookError::InvalidInstruction,
        ) && final(accounts)@ == old(accounts)@,
        instruction_data@.len() >= 8 && hook_instruction_of(instruction_data@)
            == HookInstruction::ConfigureMetaList ==> r == Err::<(), CounterHookError>(
            CounterHookError::InvalidInstruction,
        ) && final(accounts)@ == old(accounts)@,
        (instruction_data@.len() >= 8 && hook_instruction_of(instruction_data@) matches
            HookInstruction::Execute(amount)) ==> ({
            if old(accounts)@.len() < 5 {
                r == Err::<(), CounterHookError>(CounterHookError::HookAccountMismatch) && final(accounts)@ == old(accounts)@
            } else {
                &&& r == (if execute_eligible(old(accounts)@[4], program_id@) {
                    Ok::<(), CounterHookError>(())
                } else {
                    Err::<(), CounterHookError>(CounterHookError::HookAccountMismatch)
                })
                &&& accounts_updated_at(old(accounts)@, final(accounts)@, 4)
                &&& r is Ok ==> account_shape_preserved(
                    old(accounts)@[4],
                    final(accounts)@[4],
                ) && data_after_saturated_update(
                    old(accounts)@[4].data@,
                    final(accounts)@[4].data@,
                    (hook_instruction_of(instruction_data@)->Execute_0),
                    now,
                )
                &&& r is Err ==> final(accounts)@[4] == old(accounts)@[4]
            }
        }),
        instruction_data@.len() >= 8 && hook_instruction_of(instruction_data@)
            == HookInstruction::Unrecognized && instruction_data@.subrange(0, 8)
            == init_counter_discriminator() ==> ({
            if old(accounts)@.len() < 5 {
                r == Err::<(), CounterHookError>(CounterHookError::InvalidAccountData) && final(accounts)@ == old(accounts)@
            } else {
                &&& r == init_counter_gate(old(accounts)@[0], old(accounts)@[1].key@, program_id@)
                &&& accounts_updated_at(old(accounts)@, final(accounts)@, 0)
                &&& r is Ok ==> account_shape_preserved(old(accounts)@[0], final(accounts)@[0])
                    && final(accounts)@[0].data@ == counter_bytes(
                    initial_counter(old(accounts)@[1].key, old(accounts)@[2].key, now),
                ) + old(accounts)@[0].data@.skip(COUNTER_LEN as int)
                &&& r is Err ==> final(accounts)@[0] == old(accounts)@[0]
            }
        }),
        instruction_data@.len() >= 8 && hook_instruction_of(instruction_data@)
            == HookInstruction::Unrecognized && instruction_data@.subrange(0, 8)
            == update_counter_discriminator() ==> ({
            if old(accounts)@.len() < 1 {
                r == Err::<(), CounterHookError>(CounterHookError::InvalidAccountData) && final(accounts)@ == old(accounts)@
            } else {
                &&& r == update_counter_gate(
                    old(accounts)@[0],
                    program_id@,
                    instruction_data@.skip(8),
                )
                &&& accounts_updated_at(old(accounts)@, final(accounts)@, 0)
                &&& r is Ok ==> account_shape_preserved(old(accounts)@[0], final(accounts)@[0])
                    && data_after_saturated_update(
                    old(accounts)@[0].data@,
                    final(accounts)@[0].data@,
                    vstd::bytes::spec_u64_from_le_bytes(instruction_data@.skip(8).subrange(0, 8)),
                    now,
                )
                &&& r is Err ==> final(accounts)@[0] == old(accounts)@[0]
            }
        }),
        instruction_data@.len() >= 8 && hook_instruction_of(instruction_data@)
            == HookInstruction::Unrecognized && instruction_data@.subrange(0, 8)
            == init_meta_list_discriminator() ==> ({
            if old(accounts)@.len() < 4 {
                r == Err::<(), CounterHookError>(CounterHookError::InvalidAccountData) && final(accounts)@ == old(accounts)@
            } else {
                &&& r == init_meta_list_gate(old(accounts)@[1], old(accounts)@[2].key@, program_id@)
                &&& accounts_updated_at(old(accounts)@, final(accounts)@, 1)
                &&& r is Ok ==> account_shape_preserved(old(accounts)@[1], final(accounts)@[1])
                    && Some(final(accounts)@[1].data@) == execute_meta_list_bytes(
                    old(accounts)@[1].data@.len() as int,
                    counter_tag_spec(),
                    1,
                    false,
                    true,
                )
                &&& r is Err ==> final(accounts)@[1] == old(accounts)@[1]
            }
        }),
        instruction_data@.len() >= 8 && hook_instruction_of(instruction_data@)
            == HookInstruction::Unrecognized && instruction_data@.subrange(0, 8)
            != init_counter_discriminator() && instruction_data@.subrange(0, 8)
            != update_counter_discriminator() && instruction_data@.subrange(0, 8)
            != init_meta_list_discriminator() ==> r == Err::<(), CounterHookError>(
            CounterHookError::InvalidInstruction,
        ) && final(accounts)@ == old(accounts)@,
{
    if instruction_data.len() >= 8 {
        match parse_hook_instruction(instruction_data) {
            HookInstruction::Execute(amount) => {
                if accounts.len() < 5 {
                    return Err(CounterHookError::HookAccountMismatch);
                }
                let mut counter_account = accounts.remove(4);
                let result = execute_transfer_hook(&mut counter_account, program_id, amount, now);
                accounts.insert(4, counter_account);
                proof {
                    assert(accounts@ =~= old(accounts)@.update(4, accounts@[4]));
                }
                return result;
            },
            HookInstruction::ConfigureMetaList => {
                return Err(CounterHookError::InvalidInstruction);
            },
            HookInstruction::Unrecognized => {
                if has_discriminator(instruction_data, 1) {
                    proof {
                        assert(Seq::new(8, |i: int| (1 + i) as u8) =~= init_counter_discriminator());
                    }
                    if accounts.len() < 5 {
                        return Err(CounterHookError::InvalidAccountData);
                    }
                    let mint_key = accounts[1].key;
                    let hook_owner_key = accounts[2].key;
                    let mut counter_account = accounts.remove(0);
                    let result = initialize_mint_trade_counter(
                        &mut counter_account,
                        &mint_key,
                        &hook_owner_key,
                        program_id,
                        now,
                    );
                    accounts.insert(0, counter_account);
                    proof {
                        assert(accounts@ =~= old(accounts)@.update(0, accounts@[0]));
                    }
                    return result;
                }
                if has_discriminator(instruction_data, 9) {
                    proof {
                        assert(Seq::new(8, |i: int| (9 + i) as u8)
                            =~= update_counter_discriminator());
                        assert(Seq::new(8, |i: int| (1 + i) as u8) =~= init_counter_discriminator());
                    }
                    if accounts.len() < 1 {
                        return Err(CounterHookError::InvalidAccountData);
                    }
                    let payload = instruction_tail(instruction_data);
                    let mut counter_account = accounts.remove(0);
                    let result = update_mint_trade_counter(
                        &mut counter_account,
                        program_id,
                        &payload,
                        now,
                    );
                    accounts.insert(0, counter_account);
                    proof {
                        assert(accounts@ =~= old(accounts)@.update(0, accounts@[0]));
                    }
                    return result;
                }
                if has_discriminator(instruction_data, 17) {
                    proof {
                        assert(Seq::new(8, |i: int| (17 + i) as u8)
                            =~= init_meta_list_discriminator());
                        assert(Seq::new(8, |i: int| (1 + i) as u8) =~= init_counter_discriminator());
                        assert(Seq::new(8, |i: int| (9 + i) as u8)
                            =~= update_counter_discriminator());
                    }
                    if accounts.len() < 4 {
                        return Err(CounterHookError::InvalidAccountData);
                    }
                    let mint_key = accounts[2].key;
                    let mut meta_list_account = accounts.remove(1);
                    let result = initialize_extra_account_meta_list(
                        &mut meta_list_account,
                        &mint_key,
                        program_id,
                    );
                    accounts.insert(1, meta_list_account);
                    proof {
                        assert(accounts@ =~= old(accounts)@.update(1, accounts@[1]));
                    }
                    return result;
                }
                proof {
                    assert(Seq::new(8, |i: int| (1 + i) as u8) =~= init_counter_discriminator());
                    assert(Seq::new(8, |i: int| (9 + i) as u8) =~= update_counter_discriminator());
                    assert(Seq::new(8, |i: int| (17 + i) as u8) =~= init_meta_list_discriminator());
                }
                return Err(CounterHookError::InvalidInstruction);
            },
        }
    }
    Err(CounterHookError::InvalidInstruction)
}

/// Rewrites the account's counter record with `c`.
fn write_counter_record(account: &mut AccountView, c: &MintTradeCounter)
    requires
        old(account).data@.len() >= COUNTER_LEN,
    ensures
        account_shape_preserved(*old(account), *final(account)),
        final(account).data@ == counter_bytes(*c) + old(account).data@.skip(COUNTER_LEN as int),
{
    let mut new_data = encode_counter(c);
    let mut i: usize = COUNTER_LEN;
    let n = account.data.len();
    while i < n
        invariant
            COUNTER_LEN <= i <= n,
            n == account.data@.len(),
            new_data@ == counter_bytes(*c) + account.data@.subrange(COUNTER_LEN as int, i as int),
        decreases n - i,
    {
        new_data.push(account.data[i]);
        proof {
            assert(new_data@ =~= counter_bytes(*c) + account.data@.subrange(
                COUNTER_LEN as int,
                i + 1 as int,
            ));
        }
        i = i + 1;
    }
    proof {
        assert(account.data@.subrange(COUNTER_LEN as int, n as int) =~= account.data@.skip(
            COUNTER_LEN as int,
        ));
    }
    account.data = new_data;
}

} // verus!
