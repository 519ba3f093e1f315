//! What holds of the chain's model: that the hash chain stays whole
//! whatever is done to the ledger, and that a block's hash stands for its
//! fields.

use vstd::bytes::{lemma_auto_spec_u64_to_from_le_bytes, spec_u64_to_le_bytes};
use vstd::prelude::*;
use vstd::utf8::{encode_utf8, encode_utf8_decode_utf8};
use crate::blockchain::chain_spec::{
    block_hash, block_preimage, genesis_chain, performed, performed_all, BlockView, ChainView,
    LedgerOp,
};
use crate::blockchain::digest::{hex_digits, hex_lower, md5_digest};
use crate::blockchain::pos_laws::lemma_applied_wf;
use crate::blockchain::pos_spec::{stake_sum, RegistryOp};

verus! {

/// In a chain whose hash chain is whole, the first block has the index 0
/// and every later block names the hash of the block before it.
pub proof fn lemma_linked_chain(c: ChainView)
    requires
        c.linked(),
    ensures
        c.blocks[0].index == 0,
        forall|n: int|
            0 < n < c.blocks.len() ==> (#[trigger] c.blocks[n]).previous_block_hash == c.blocks[n
                - 1].current_block_hash,
{
}

/// A new chain is whole, and its registry consistent.
pub proof fn lemma_genesis_wf(timestamp: u64)
    ensures
        genesis_chain(timestamp).wf(),
{
}

/// Appending a block keeps the chain whole and the registry consistent,
/// whoever was selected.
pub proof fn lemma_appended_wf(
    c: ChainView,
    txn_data: Seq<char>,
    timestamp: u64,
    proposer: Option<Seq<char>>,
)
    requires
        c.wf(),
        c.blocks.len() <= u64::MAX,
    ensures
        c.appended(txn_data, timestamp, proposer).wf(),
        c.appended(txn_data, timestamp, proposer).blocks.len() == c.blocks.len() + 1,
{
    if let Some(address) = proposer {
        lemma_applied_wf(c.registry, RegistryOp::Record { address, height: c.blocks.len() });
    }
}

/// Every operation on the ledger keeps its invariant.
pub proof fn lemma_performed_wf(c: ChainView, op: LedgerOp)
    requires
        c.wf(),
        c.blocks.len() <= u64::MAX,
    ensures
        performed(c, op).wf(),
        c.blocks.len() <= performed(c, op).blocks.len() <= c.blocks.len() + 1,
{
    match op {
        LedgerOp::Append { txn_data, timestamp, proposer } => {
            lemma_appended_wf(c, txn_data, timestamp, proposer);
        },
        LedgerOp::Registry { op } => {
            lemma_applied_wf(c.registry, op);
        },
    }
}

/// Any sequence of operations keeps the ledger's invariant.
pub proof fn lemma_performed_all_wf(c: ChainView, ops: Seq<LedgerOp>)
    requires
        c.wf(),
        c.blocks.len() + ops.len() <= u64::MAX,
    ensures
        performed_all(c, ops).wf(),
        c.blocks.len() <= performed_all(c, ops).blocks.len() <= c.blocks.len() + ops.len(),
    decreases ops.len(),
{
    if ops.len() > 0 {
        lemma_performed_all_wf(c, ops.drop_last());
        lemma_performed_wf(performed_all(c, ops.drop_last()), ops.last());
    }
}

/// Whatever is done to a new chain, block after block and change after
/// change of the registry: its first block has the index 0, every later
/// block names the hash of the block before it, and the total stake is the
/// sum of the stakes.
pub proof fn lemma_every_chain_is_linked(timestamp: u64, ops: Seq<LedgerOp>)
    requires
        ops.len() < u64::MAX,
    ensures
        ({
            let c = performed_all(genesis_chain(timestamp), ops);
            &&& c.blocks.len() > 0
            &&& c.blocks[0].index == 0
            &&& forall|n: int|
                0 < n < c.blocks.len() ==> (#[trigger] c.blocks[n]).previous_block_hash
                    == c.blocks[n - 1].current_block_hash
            &&& c.registry.total_stake == stake_sum(c.registry.validators)
        }),
{
    lemma_genesis_wf(timestamp);
    lemma_performed_all_wf(genesis_chain(timestamp), ops);
}

/// Two blocks that carry the hash of their fields and agree in index,
/// timestamp, payload and predecessor's hash carry the same hash.
pub proof fn lemma_same_fields_same_hash(a: BlockView, b: BlockView)
    requires
        a.sealed(),
        b.sealed(),
        a.index == b.index,
        a.timestamp == b.timestamp,
        a.txn_data == b.txn_data,
        a.previous_block_hash == b.previous_block_hash,
    ensures
        a.current_block_hash == b.current_block_hash,
{
}

/// Blocks that differ in index, timestamp, payload or predecessor's hash
/// are hashed over different bytes.
pub proof fn lemma_preimage_injective(
    index1: u64,
    timestamp1: u64,
    txn_data1: Seq<char>,
    previous1: Seq<char>,
    index2: u64,
    timestamp2: u64,
    txn_data2: Seq<char>,
    previous2: Seq<char>,
)
    requires
        encode_utf8(txn_data1).len() <= u64::MAX,
        encode_utf8(txn_data2).len() <= u64::MAX,
        block_preimage(index1, timestamp1, txn_data1, previous1) == block_preimage(
            index2,
            timestamp2,
            txn_data2,
            previous2,
        ),
    ensures
        index1 == index2,
        timestamp1 == timestamp2,
        txn_data1 == txn_data2,
        previous1 == previous2,
{
    lemma_auto_spec_u64_to_from_le_bytes();
    let a = block_preimage(index1, timestamp1, txn_data1, previous1);
    let b = block_preimage(index2, timestamp2, txn_data2, previous2);
    let n1 = encode_utf8(txn_data1).len() as u64;
    let n2 = encode_utf8(txn_data2).len() as u64;
    assert(a.subrange(0, 8) =~= spec_u64_to_le_bytes(index1));
    assert(b.subrange(0, 8) =~= spec_u64_to_le_bytes(index2));
    assert(a.subrange(8, 16) =~= spec_u64_to_le_bytes(timestamp1));
    assert(b.subrange(8, 16) =~= spec_u64_to_le_bytes(timestamp2));
    assert(a.subrange(16, 24) =~= spec_u64_to_le_bytes(n1));
    assert(b.subrange(16, 24) =~= spec_u64_to_le_bytes(n2));
    assert(n1 == n2);
    assert(a.subrange(24, 24 + n1) =~= encode_utf8(txn_data1));
    assert(b.subrange(24, 24 + n2) =~= encode_utf8(txn_data2));
    assert(a.subrange(24 + n1, a.len() as int) =~= encode_utf8(previous1));
    assert(b.subrange(24 + n2, b.len() as int) =~= encode_utf8(previous2));
    encode_utf8_decode_utf8(txn_data1);
    encode_utf8_decode_utf8(txn_data2);
    encode_utf8_decode_utf8(previous1);
    encode_utf8_decode_utf8(previous2);
}

/// Different bytes are written as different hexadecimal text.
pub proof fn lemma_hex_lower_injective(a: Seq<u8>, b: Seq<u8>)
    requires
        hex_lower(a) == hex_lower(b),
    ensures
        a == b,
{
    assert(hex_lower(a).len() == 2 * a.len());
    assert(hex_lower(b).len() == 2 * b.len());
    assert forall|k: int| 0 <= k < a.len() implies a[k] == b[k] by {
        let upper = hex_lower(a)[2 * k];
        let lower = hex_lower(a)[2 * k + 1];
        assert(upper == hex_digits()[a[k] as int / 16]);
        assert(upper == hex_lower(b)[2 * k]);
        assert(upper == hex_digits()[b[k] as int / 16]);
        assert(lower == hex_digits()[a[k] as int % 16]);
        assert(lower == hex_lower(b)[2 * k + 1]);
        assert(lower == hex_digits()[b[k] as int % 16]);
        lemma_hex_digit_injective(a[k] as int / 16, b[k] as int / 16);
        lemma_hex_digit_injective(a[k] as int % 16, b[k] as int % 16);
    }
    assert(a =~= b);
}

/// The sixteen digits differ from one another.
proof fn lemma_hex_digit_injective(i: int, j: int)
    requires
        0 <= i < 16,
        0 <= j < 16,
        hex_digits()[i] == hex_digits()[j],
    ensures
        i == j,
{
}

/// Two blocks with the same hash agree in index, timestamp, payload and
/// predecessor's hash, unless MD5 gives one digest for the different bytes
/// that they are hashed over. So blocks made of the same fields at
/// different times have different hashes as far as MD5 tells their bytes
/// apart.
pub proof fn lemma_same_hash_same_fields(a: BlockView, b: BlockView)
    requires
        a.sealed(),
        b.sealed(),
        encode_utf8(a.txn_data).len() <= u64::MAX,
        encode_utf8(b.txn_data).len() <= u64::MAX,
        a.current_block_hash == b.current_block_hash,
    ensures
        ({
            let bytes_a = block_preimage(
                a.index,
                a.timestamp,
                a.txn_data,
                a.previous_block_hash,
            );
            let bytes_b = block_preimage(
                b.index,
                b.timestamp,
                b.txn_data,
                b.previous_block_hash,
            );
            ||| (a.index == b.index && a.timestamp == b.timestamp && a.txn_data == b.txn_data
                && a.previous_block_hash == b.previous_block_hash)
            ||| (bytes_a != bytes_b && md5_digest(bytes_a) == md5_digest(bytes_b))
        }),
{
    let bytes_a = block_preimage(a.index, a.timestamp, a.txn_data, a.previous_block_hash);
    let bytes_b = block_preimage(b.index, b.timestamp, b.txn_data, b.previous_block_hash);
    assert(a.current_block_hash == block_hash(
        a.index,
        a.timestamp,
        a.txn_data,
        a.previous_block_hash,
    ));
    lemma_hex_lower_injective(md5_digest(bytes_a), md5_digest(bytes_b));
    if bytes_a == bytes_b {
        lemma_preimage_injective(
            a.index,
            a.timestamp,
            a.txn_data,
            a.previous_block_hash,
            b.index,
            b.timestamp,
            b.txn_data,
            b.previous_block_hash,
        );
    }
}

} // verus!
