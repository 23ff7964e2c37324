//! The trade counter: per-asset side accounting kept by the transfer hook.
//!
//! The counter is persisted as a fixed 104-byte record: the asset key, the
//! four 64-bit tallies in little-endian order, the last-update timestamp,
//! and the hook owner's key.  The codec here is the persistence format;
//! decoding an encoded counter gives the counter back.

use vstd::prelude::*;

verus! {

use vstd::bytes::{
    lemma_auto_spec_u64_to_from_le_bytes, spec_u64_from_le_bytes, spec_u64_to_le_bytes,
    u64_from_le_bytes, u64_to_le_bytes,
};
use crate::errors::CounterHookError;

/// The serialized size of a counter record, in bytes.
pub const COUNTER_LEN: usize = 104;

/// Per-asset trade accounting, updated by the hook on every transfer.
pub struct MintTradeCounter {
    /// The asset this counter belongs to.
    pub mint: [u8; 32],
    /// Number of incoming transfers.
    pub incoming_transfers: u64,
    /// Number of outgoing transfers.
    pub outgoing_transfers: u64,
    /// Total volume of incoming transfers.
    pub total_incoming_volume: u64,
    /// Total volume of outgoing transfers.
    pub total_outgoing_volume: u64,
    /// When the counter was last updated.
    pub last_updated: i64,
    /// The owner of the hook installation for this asset.
    pub hook_owner: [u8; 32],
}

impl MintTradeCounter {
    /// A fresh counter for `mint`, all tallies at zero.
    pub fn new(mint: [u8; 32], hook_owner: [u8; 32]) -> (r: Self)
        ensures
            r.mint == mint,
            r.incoming_transfers == 0,
            r.outgoing_transfers == 0,
            r.total_incoming_volume == 0,
            r.total_outgoing_volume == 0,
            r.last_updated == 0,
            r.hook_owner == hook_owner,
    {
        MintTradeCounter {
            mint,
            incoming_transfers: 0,
            outgoing_transfers: 0,
            total_incoming_volume: 0,
            total_outgoing_volume: 0,
            last_updated: 0,
            hook_owner,
        }
    }

    /// Records one outgoing transfer of `amount` at time `now`.
    ///
    /// This is the strict accounting path: a zero amount is rejected by
    /// hook policy and leaves the counter untouched, and the caller must
    /// have room in the tallies.
    pub fn record_outgoing(&mut self, amount: u64, now: i64) -> (r: Result<(), CounterHookError>)
        requires
            old(self).outgoing_transfers < u64::MAX,
            old(self).total_outgoing_volume + amount <= u64::MAX,
        ensures
            r == if amount == 0 {
                Err::<(), CounterHookError>(CounterHookError::InvalidAmount)
            } else {
                Ok::<(), CounterHookError>(())
            },
            r is Ok ==> ({
                &&& final(self).outgoing_transfers == old(self).outgoing_transfers + 1
                &&& final(self).total_outgoing_volume == old(self).total_outgoing_volume + amount
                &&& final(self).last_updated == now
                &&& final(self).mint == old(self).mint
                &&& final(self).hook_owner == old(self).hook_owner
                &&& final(self).incoming_transfers == old(self).incoming_transfers
                &&& final(self).total_incoming_volume == old(self).total_incoming_volume
            }),
            r is Err ==> *final(self) == *old(self),
    {
        if amount == 0 {
            return Err(CounterHookError::InvalidAmount);
        }
        self.outgoing_transfers = self.outgoing_transfers + 1;
        self.total_outgoing_volume = self.total_outgoing_volume + amount;
        self.last_updated = now;
        Ok(())
    }

    /// Records one outgoing transfer with saturating tallies, as the
    /// hook's execute path does: the count and volume stick at their
    /// maximum instead of failing.
    pub fn record_outgoing_saturating(&mut self, amount: u64, now: i64)
        ensures
            final(self).outgoing_transfers == if old(self).outgoing_transfers == u64::MAX {
                u64::MAX as int
            } else {
                old(self).outgoing_transfers + 1
            },
            final(self).total_outgoing_volume == if old(self).total_outgoing_volume + amount
                > u64::MAX {
                u64::MAX as int
            } else {
                old(self).total_outgoing_volume + amount
            },
            final(self).last_updated == now,
            final(self).mint == old(self).mint,
            final(self).hook_owner == old(self).hook_owner,
            final(self).incoming_transfers == old(self).incoming_transfers,
            final(self).total_incoming_volume == old(self).total_incoming_volume,
    {
        self.outgoing_transfers = self.outgoing_transfers.saturating_add(1);
        self.total_outgoing_volume = self.total_outgoing_volume.saturating_add(amount);
        self.last_updated = now;
    }
}

/// The persisted form of a counter: every field in order, integers in
/// little-endian bytes, the timestamp in two's complement.
pub open spec fn counter_bytes(c: MintTradeCounter) -> Seq<u8> {
    c.mint@ + spec_u64_to_le_bytes(c.incoming_transfers) + spec_u64_to_le_bytes(
        c.outgoing_transfers,
    ) + spec_u64_to_le_bytes(c.total_incoming_volume) + spec_u64_to_le_bytes(
        c.total_outgoing_volume,
    ) + spec_u64_to_le_bytes(c.last_updated as u64) + c.hook_owner@
}

/// Appends the bytes of a 32-byte key.
fn push_key(out: &mut Vec<u8>, key: &[u8; 32])
    ensures
        final(out)@ == old(out)@ + key@,
{
    let mut bytes = crate::authority::key_to_vec(key);
    out.append(&mut bytes);
}

/// Serializes a counter into its 104-byte record.
pub fn encode_counter(c: &MintTradeCounter) -> (r: Vec<u8>)
    ensures
        r@ == counter_bytes(*c),
        r@.len() == COUNTER_LEN,
{
    proof {
        lemma_auto_spec_u64_to_from_le_bytes();
    }
    let mut out: Vec<u8> = Vec::new();
    push_key(&mut out, &c.mint);
    let mut field = u64_to_le_bytes(c.incoming_transfers);
    out.append(&mut field);
    let mut field = u64_to_le_bytes(c.outgoing_transfers);
    out.append(&mut field);
    let mut field = u64_to_le_bytes(c.total_incoming_volume);
    out.append(&mut field);
    let mut field = u64_to_le_bytes(c.total_outgoing_volume);
    out.append(&mut field);
    let mut field = u64_to_le_bytes(c.last_updated as u64);
    out.append(&mut field);
    push_key(&mut out, &c.hook_owner);
    out
}

/// Reads a 32-byte key at `offset`.
fn read_key(data: &Vec<u8>, offset: usize) -> (r: [u8; 32])
    requires
        offset + 32 <= data@.len(),
    ensures
        r@ == data@.subrange(offset as int, offset + 32),
{
    let n = data.len();
    let mut out: [u8; 32] = [0u8; 32];
    let mut i: usize = 0;
    while i < 32
        invariant
            i <= 32,
            n == data@.len(),
            offset + 32 <= n,
            forall|j: int| 0 <= j < i ==> #[trigger] out@[j] == data@[offset + j],
        decreases 32 - i,
    {
        out[i] = data[offset + i];
        i = i + 1;
    }
    proof {
        assert(out@ =~= data@.subrange(offset as int, offset + 32));
    }
    out
}

/// Reads a little-endian 64-bit field at `offset`.
pub(crate) fn read_u64(data: &Vec<u8>, offset: usize) -> (r: u64)
    requires
        offset + 8 <= data@.len(),
    ensures
        r == spec_u64_from_le_bytes(data@.subrange(offset as int, offset + 8)),
{
    let n = data.len();
    let mut field: Vec<u8> = Vec::new();
    let mut i: usize = 0;
    while i < 8
        invariant
            i <= 8,
            n == data@.len(),
            offset + 8 <= n,
            field@.len() == i,
            forall|j: int| 0 <= j < i ==> #[trigger] field@[j] == data@[offset + j],
        decreases 8 - i,
    {
        field.push(data[offset + i]);
        i = i + 1;
    }
    proof {
        assert(field@ =~= data@.subrange(offset as int, offset + 8));
    }
    u64_from_le_bytes(field.as_slice())
}

/// Deserializes a counter record.  Rejects a buffer that cannot hold one.
pub fn decode_counter(data: &Vec<u8>) -> (r: Result<MintTradeCounter, CounterHookError>)
    ensures
        r is Ok <==> data@.len() >= COUNTER_LEN,
        r matches Ok(c) ==> counter_bytes(c) == data@.subrange(0, COUNTER_LEN as int),
        r matches Err(e) ==> e == CounterHookError::InvalidAccountData,
{
    if data.len() < COUNTER_LEN {
        return Err(CounterHookError::InvalidAccountData);
    }
    proof {
        lemma_auto_spec_u64_to_from_le_bytes();
    }
    let mint = read_key(data, 0);
    let incoming_transfers = read_u64(data, 32);
    let outgoing_transfers = read_u64(data, 40);
    let total_incoming_volume = read_u64(data, 48);
    let total_outgoing_volume = read_u64(data, 56);
    let last_updated_bits = read_u64(data, 64);
    let hook_owner = read_key(data, 72);
    let last_updated: i64 = last_updated_bits as i64;
    proof {
        assert((last_updated_bits as i64) as u64 == last_updated_bits) by (bit_vector);
    }
    let c = MintTradeCounter {
        mint,
        incoming_transfers,
        outgoing_transfers,
        total_incoming_volume,
        total_outgoing_volume,
        last_updated,
        hook_owner,
    };
    proof {
        assert(counter_bytes(c) =~= data@.subrange(0, COUNTER_LEN as int));
    }
    Ok(c)
}

/// The codec round-trips: decoding an encoded counter yields the counter.
pub proof fn lemma_counter_codec_round_trip(c: MintTradeCounter, buffer: Seq<u8>)
    requires
        buffer.len() >= COUNTER_LEN,
        buffer.subrange(0, COUNTER_LEN as int) == counter_bytes(c),
    ensures
        forall|c2: MintTradeCounter|
            counter_bytes(c2) == buffer.subrange(0, COUNTER_LEN as int) ==> c2 == c,
{
    lemma_auto_spec_u64_to_from_le_bytes();
    assert forall|c2: MintTradeCounter|
        counter_bytes(c2) == buffer.subrange(0, COUNTER_LEN as int) implies c2 == c by {
        lemma_counter_bytes_injective(c, c2);
    }
}

/// Two counters with the same persisted form are the same counter.
pub proof fn lemma_counter_bytes_injective(c1: MintTradeCounter, c2: MintTradeCounter)
    requires
        counter_bytes(c1) == counter_bytes(c2),
    ensures
        c1 == c2,
{
    lemma_auto_spec_u64_to_from_le_bytes();
    let b1 = counter_bytes(c1);
    let b2 = counter_bytes(c2);
    assert(c1.mint@ =~= b1.subrange(0, 32));
    assert(c2.mint@ =~= b2.subrange(0, 32));
    assert(spec_u64_to_le_bytes(c1.incoming_transfers) =~= b1.subrange(32, 40));
    assert(spec_u64_to_le_bytes(c2.incoming_transfers) =~= b2.subrange(32, 40));
    assert(spec_u64_to_le_bytes(c1.outgoing_transfers) =~= b1.subrange(40, 48));
    assert(spec_u64_to_le_bytes(c2.outgoing_transfers) =~= b2.subrange(40, 48));
    assert(spec_u64_to_le_bytes(c1.total_incoming_volume) =~= b1.subrange(48, 56));
    assert(spec_u64_to_le_bytes(c2.total_incoming_volume) =~= b2.subrange(48, 56));
    assert(spec_u64_to_le_bytes(c1.total_outgoing_volume) =~= b1.subrange(56, 64));
    assert(spec_u64_to_le_bytes(c2.total_outgoing_volume) =~= b2.subrange(56, 64));
    assert(spec_u64_to_le_bytes(c1.last_updated as u64) =~= b1.subrange(64, 72));
    assert(spec_u64_to_le_bytes(c2.last_updated as u64) =~= b2.subrange(64, 72));
    assert(c1.hook_owner@ =~= b1.subrange(72, 104));
    assert(c2.hook_owner@ =~= b2.subrange(72, 104));
    assert(spec_u64_from_le_bytes(spec_u64_to_le_bytes(c1.incoming_transfers))
        == spec_u64_from_le_bytes(spec_u64_to_le_bytes(c2.incoming_transfers)));
    assert(c1.incoming_transfers == c2.incoming_transfers);
    assert(c1.outgoing_transfers == c2.outgoing_transfers);
    assert(c1.total_incoming_volume == c2.total_incoming_volume);
    assert(c1.total_outgoing_volume == c2.total_outgoing_volume);
    let t1 = c1.last_updated;
    let t2 = c2.last_updated;
    assert(t1 as u64 == t2 as u64 ==> t1 == t2) by (bit_vector);
    assert(c1.mint@ =~= c2.mint@);
    assert(c1.hook_owner@ =~= c2.hook_owner@);
    assert(c1.mint =~= c2.mint);
    assert(c1.hook_owner =~= c2.hook_owner);
}

} // verus!
