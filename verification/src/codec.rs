//! The byte layout of one record of the pruning-point UTXO set.
//!
//! A record is a key and a value. All integers are big-endian.
//!
//! ```text
//! key    transaction id (32 bytes) | output index (4 bytes)
//! value  amount (8) | block DAA score (8) | coinbase flag (1: 0 or 1)
//!        | script version (2) | script (all remaining bytes)
//! ```

use crate::error::ImportError;
use crate::utxo::Outpoint;
use crate::utxo::OutpointModel;
use crate::utxo::ScriptPublicKey;
use crate::utxo::UtxoEntry;
use crate::utxo::UtxoModel;
use vstd::prelude::*;

verus! {

/// A key and a value as they lie in the consensus store.
#[derive(Clone, Debug, PartialEq, Eq)]
pub struct RawRecord {
    pub key: Vec<u8>,
    pub value: Vec<u8>,
}

/// A record as a mathematical value.
pub struct RawModel {
    pub key: Seq<u8>,
    pub value: Seq<u8>,
}

impl View for RawRecord {
    type V = RawModel;

    open spec fn view(&self) -> RawModel {
        RawModel { key: self.key@, value: self.value@ }
    }
}

/// Records as mathematical values, in order.
pub open spec fn raw_models(records: Seq<RawRecord>) -> Seq<RawModel> {
    records.map_values(|r: RawRecord| r@)
}

/// Length of a record key.
pub const KEY_LEN: usize = 36;

/// Length of the fixed part of a record value, before the script.
pub const VALUE_HEADER_LEN: usize = 19;

/// The number that bytes write, most significant byte first.
pub open spec fn be_value(s: Seq<u8>) -> nat
    decreases s.len(),
{
    if s.len() == 0 {
        0
    } else {
        be_value(s.drop_last()) * 256 + s.last() as nat
    }
}

/// The bytes that write a number in `width` bytes, most significant first.
pub open spec fn be_bytes(n: nat, width: nat) -> Seq<u8>
    decreases width,
{
    if width == 0 {
        Seq::<u8>::empty()
    } else {
        be_bytes(n / 256, (width - 1) as nat).push((n % 256) as u8)
    }
}

/// 256 to the power of `n`.
pub open spec fn pow256(n: nat) -> nat
    decreases n,
{
    if n == 0 {
        1
    } else {
        256 * pow256((n - 1) as nat)
    }
}

/// The powers that bound the integers of the layout.
pub proof fn lemma_pow256_values()
    ensures
        pow256(0) == 1,
        pow256(1) == 0x100,
        pow256(2) == 0x1_0000,
        pow256(3) == 0x100_0000,
        pow256(4) == 0x1_0000_0000,
        pow256(5) == 0x100_0000_0000,
        pow256(6) == 0x1_0000_0000_0000,
        pow256(7) == 0x100_0000_0000_0000,
        pow256(8) == 0x1_0000_0000_0000_0000,
{
    reveal_with_fuel(pow256, 10);
}

/// Bytes write a number below 256 to the power of their count.
pub proof fn lemma_be_value_bound(s: Seq<u8>)
    ensures
        be_value(s) < pow256(s.len()),
    decreases s.len(),
{
    if s.len() > 0 {
        lemma_be_value_bound(s.drop_last());
    }
}

/// Writing a number that fits and reading it back gives the number.
pub proof fn lemma_be_round_trip(n: nat, width: nat)
    requires
        n < pow256(width),
    ensures
        be_bytes(n, width).len() == width,
        be_value(be_bytes(n, width)) == n,
    decreases width,
{
    if width > 0 {
        lemma_be_round_trip(n / 256, (width - 1) as nat);
        assert(be_bytes(n, width).drop_last() =~= be_bytes(n / 256, (width - 1) as nat));
    }
}

/// The outpoint that a key writes, if the key has the right length.
pub open spec fn decoded_outpoint(key: Seq<u8>) -> Option<OutpointModel> {
    if key.len() == KEY_LEN {
        Some(
            OutpointModel {
                transaction_id: key.subrange(0, 32),
                index: be_value(key.subrange(32, 36)) as u32,
            },
        )
    } else {
        None
    }
}

/// The entry that a record writes, if the record is well formed.
pub open spec fn decoded_entry(key: Seq<u8>, value: Seq<u8>) -> Option<UtxoModel> {
    if key.len() == KEY_LEN && value.len() >= VALUE_HEADER_LEN && value[16] <= 1 {
        Some(
            UtxoModel {
                outpoint: decoded_outpoint(key)->0,
                amount: be_value(value.subrange(0, 8)) as u64,
                script_version: be_value(value.subrange(17, 19)) as u16,
                script: value.subrange(19, value.len() as int),
                block_daa_score: be_value(value.subrange(8, 16)) as u64,
                is_coinbase: value[16] == 1,
            },
        )
    } else {
        None
    }
}

/// The key that writes an outpoint.
pub open spec fn encoded_key(outpoint: OutpointModel) -> Seq<u8> {
    outpoint.transaction_id + be_bytes(outpoint.index as nat, 4)
}

/// The value that writes an entry.
pub open spec fn encoded_value(entry: UtxoModel) -> Seq<u8> {
    be_bytes(entry.amount as nat, 8) + be_bytes(entry.block_daa_score as nat, 8) + seq![
        if entry.is_coinbase {
            1u8
        } else {
            0u8
        },
    ] + be_bytes(entry.script_version as nat, 2) + entry.script
}

/// Every entry with a transaction id of 32 bytes is read back from what
/// writes it.
pub proof fn lemma_record_round_trip(entry: UtxoModel)
    requires
        entry.outpoint.transaction_id.len() == 32,
    ensures
        decoded_entry(encoded_key(entry.outpoint), encoded_value(entry)) == Some(entry),
{
    lemma_pow256_values();
    lemma_be_round_trip(entry.outpoint.index as nat, 4);
    lemma_be_round_trip(entry.amount as nat, 8);
    lemma_be_round_trip(entry.block_daa_score as nat, 8);
    lemma_be_round_trip(entry.script_version as nat, 2);
    let key = encoded_key(entry.outpoint);
    let value = encoded_value(entry);
    assert(key.subrange(0, 32) =~= entry.outpoint.transaction_id);
    assert(key.subrange(32, 36) =~= be_bytes(entry.outpoint.index as nat, 4));
    assert(value.subrange(0, 8) =~= be_bytes(entry.amount as nat, 8));
    assert(value.subrange(8, 16) =~= be_bytes(entry.block_daa_score as nat, 8));
    assert(value.subrange(17, 19) =~= be_bytes(entry.script_version as nat, 2));
    assert(value.subrange(19, value.len() as int) =~= entry.script);
    assert(value[16] == if entry.is_coinbase { 1u8 } else { 0u8 });
}

/// Copies the bytes from `from` up to `to`.
pub(crate) fn copy_range(bytes: &Vec<u8>, from: usize, to: usize) -> (r: Vec<u8>)
    requires
        from <= to <= bytes.len(),
    ensures
        r@ == bytes@.subrange(from as int, to as int),
{
    let mut out: Vec<u8> = Vec::new();
    let mut i: usize = from;
    while i < to
        invariant
            from <= i <= to <= bytes.len(),
            out@ == bytes@.subrange(from as int, i as int),
        decreases to - i,
    {
        out.push(bytes[i]);
        assert(out@ =~= bytes@.subrange(from as int, i + 1));
        i = i + 1;
    }
    out
}

/// Reads `width` bytes from `start` as one big-endian number.
pub(crate) fn read_be(bytes: &Vec<u8>, start: usize, width: usize) -> (r: u64)
    requires
        width <= 8,
        start + width <= bytes.len(),
    ensures
        r == be_value(bytes@.subrange(start as int, start + width)),
{
    let mut acc: u64 = 0;
    let mut i: usize = 0;
    proof {
        lemma_pow256_values();
        assert(bytes@.subrange(start as int, start as int) =~= Seq::<u8>::empty());
    }
    while i < width
        invariant
            i <= width <= 8,
            start + width <= bytes.len(),
            acc == be_value(bytes@.subrange(start as int, start + i)),
            acc < pow256(i as nat),
        decreases width - i,
    {
        proof {
            let next = bytes@.subrange(start as int, start + i + 1);
            assert(next.drop_last() =~= bytes@.subrange(start as int, start + i));
            assert(next.last() == bytes@[start + i]);
            lemma_pow256_values();
            lemma_be_value_bound(next);
            assert(pow256((i + 1) as nat) <= pow256(8)) by {
                lemma_pow256_values();
            }
        }
        acc = acc * 256 + bytes[start + i] as u64;
        i = i + 1;
    }
    acc
}

/// Appends `value` as `width` big-endian bytes.
fn write_be(out: &mut Vec<u8>, value: u64, width: usize)
    requires
        width <= 8,
    ensures
        final(out)@ == old(out)@ + be_bytes(value as nat, width as nat),
    decreases width,
{
    if width > 0 {
        write_be(out, value / 256, width - 1);
        out.push((value % 256) as u8);
        assert(out@ =~= old(out)@ + be_bytes(value as nat, width as nat));
    } else {
        assert(out@ =~= old(out)@ + be_bytes(value as nat, width as nat));
    }
}

/// Reads the entry that a record writes.
pub fn decode_record(record: &RawRecord) -> (r: Result<UtxoEntry, ImportError>)
    ensures
        match decoded_entry(record.key@, record.value@) {
            Some(entry) => r is Ok && r->Ok_0@ == entry,
            None => r is Err && r->Err_0 == ImportError::ExtractionFailure,
        },
{
    if record.key.len() != KEY_LEN || record.value.len() < VALUE_HEADER_LEN {
        return Err(ImportError::ExtractionFailure);
    }
    let flag: u8 = record.value[16];
    if flag > 1 {
        return Err(ImportError::ExtractionFailure);
    }
    let mut transaction_id: [u8; 32] = [0u8; 32];
    let mut i: usize = 0;
    while i < 32
        invariant
            i <= 32,
            record.key.len() == KEY_LEN,
            forall|k: int| 0 <= k < i ==> transaction_id@[k] == record.key@[k],
        decreases 32 - i,
    {
        transaction_id[i] = record.key[i];
        i = i + 1;
    }
    assert(transaction_id@ =~= record.key@.subrange(0, 32));
    proof {
        lemma_pow256_values();
        lemma_be_value_bound(record.key@.subrange(32, 36));
        lemma_be_value_bound(record.value@.subrange(17, 19));
    }
    let index: u32 = read_be(&record.key, 32, 4) as u32;
    let amount: u64 = read_be(&record.value, 0, 8);
    let block_daa_score: u64 = read_be(&record.value, 8, 8);
    let version: u16 = read_be(&record.value, 17, 2) as u16;
    let script: Vec<u8> = copy_range(&record.value, VALUE_HEADER_LEN, record.value.len());
    Ok(
        UtxoEntry {
            outpoint: Outpoint { transaction_id, index },
            amount,
            script_public_key: ScriptPublicKey { version, script },
            block_daa_score,
            is_coinbase: flag == 1,
        },
    )
}

/// Writes an entry as the record that `decode_record` reads back.
pub fn encode_record(entry: &UtxoEntry) -> (r: RawRecord)
    ensures
        r.key@ == encoded_key(entry@.outpoint),
        r.value@ == encoded_value(entry@),
{
    let mut key: Vec<u8> = Vec::new();
    let mut i: usize = 0;
    while i < 32
        invariant
            i <= 32,
            key@ == entry.outpoint.transaction_id@.subrange(0, i as int),
        decreases 32 - i,
    {
        key.push(entry.outpoint.transaction_id[i]);
        assert(key@ =~= entry.outpoint.transaction_id@.subrange(0, i + 1));
        i = i + 1;
    }
    assert(key@ =~= entry.outpoint.transaction_id@);
    write_be(&mut key, entry.outpoint.index as u64, 4);
    let mut value: Vec<u8> = Vec::new();
    write_be(&mut value, entry.amount, 8);
    write_be(&mut value, entry.block_daa_score, 8);
    value.push(if entry.is_coinbase { 1u8 } else { 0u8 });
    write_be(&mut value, entry.script_public_key.version as u64, 2);
    let ghost head = value@;
    let mut j: usize = 0;
    while j < entry.script_public_key.script.len()
        invariant
            j <= entry.script_public_key.script.len(),
            value@ == head + entry.script_public_key.script@.subrange(0, j as int),
        decreases entry.script_public_key.script.len() - j,
    {
        value.push(entry.script_public_key.script[j]);
        assert(value@ =~= head + entry.script_public_key.script@.subrange(0, j + 1));
        j = j + 1;
    }
    assert(entry.script_public_key.script@.subrange(0, j as int) =~= entry.script_public_key.script@);
    assert(value@ =~= encoded_value(entry@));
    RawRecord { key, value }
}

} // verus!
