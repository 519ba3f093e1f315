//! The chain as mathematics: what a block commits to, what links the
//! blocks, and what appending makes of a chain.

use vstd::bytes::spec_u64_to_le_bytes;
use vstd::prelude::*;
use vstd::utf8::encode_utf8;
use crate::blockchain::digest::{hex_lower, md5_digest};
use crate::blockchain::pos_spec::{applied, RegistryOp, RegistryView, ValidatorView};

verus! {

/// A block as plain data.
pub struct BlockView {
    pub index: u64,
    pub timestamp: u64,
    pub txn_data: Seq<char>,
    pub previous_block_hash: Seq<char>,
    pub current_block_hash: Seq<char>,
    pub validator: Seq<char>,
}

/// The chain as plain data: its blocks, oldest first, and its registry.
pub struct ChainView {
    pub blocks: Seq<BlockView>,
    pub registry: RegistryView,
}

/// The bytes that a block's hash is taken of. The two numbers take eight
/// bytes each, least significant byte first; the payload follows as UTF-8
/// behind its length in bytes, written as the numbers are; the
/// predecessor's hash, as UTF-8, is the rest. No two different blocks give
/// the same bytes.
pub open spec fn block_preimage(
    index: u64,
    timestamp: u64,
    txn_data: Seq<char>,
    previous_block_hash: Seq<char>,
) -> Seq<u8> {
    spec_u64_to_le_bytes(index) + spec_u64_to_le_bytes(timestamp) + spec_u64_to_le_bytes(
        encode_utf8(txn_data).len() as u64,
    ) + encode_utf8(txn_data) + encode_utf8(previous_block_hash)
}

/// A block's hash: the MD5 digest of its preimage, in hexadecimal.
pub open spec fn block_hash(
    index: u64,
    timestamp: u64,
    txn_data: Seq<char>,
    previous_block_hash: Seq<char>,
) -> Seq<char> {
    hex_lower(md5_digest(block_preimage(index, timestamp, txn_data, previous_block_hash)))
}

/// The block that these fields make, its hash computed over them.
pub open spec fn sealed_block(
    index: u64,
    timestamp: u64,
    txn_data: Seq<char>,
    previous_block_hash: Seq<char>,
    validator: Seq<char>,
) -> BlockView {
    BlockView {
        index,
        timestamp,
        txn_data,
        previous_block_hash,
        current_block_hash: block_hash(index, timestamp, txn_data, previous_block_hash),
        validator,
    }
}

/// The payload of the first block.
pub open spec fn genesis_txn_data() -> Seq<char> {
    "Genesis Block"@
}

/// What the first block names as its predecessor's hash.
pub open spec fn genesis_previous_hash() -> Seq<char> {
    "0000000000000000000"@
}

/// Who is named as the proposer of the first block.
pub open spec fn genesis_validator() -> Seq<char> {
    "Genesis Validator"@
}

/// Who is named as the proposer of a block for which nobody was selected.
pub open spec fn no_validator() -> Seq<char> {
    "No Validator"@
}

/// The finality threshold of a new chain's registry.
pub open spec fn default_finality_threshold() -> nat {
    85
}

/// The penalty percentage of a new chain's registry.
pub open spec fn default_penalty_percentage() -> nat {
    55
}

/// The chain that was created at `timestamp`: the first block alone, and
/// an empty registry.
pub open spec fn genesis_chain(timestamp: u64) -> ChainView {
    ChainView {
        blocks: seq![
            sealed_block(
                0,
                timestamp,
                genesis_txn_data(),
                genesis_previous_hash(),
                genesis_validator(),
            ),
        ],
        registry: RegistryView {
            validators: Seq::<ValidatorView>::empty(),
            total_stake: 0,
            finalty_threshold: default_finality_threshold(),
            penalty_percentage: default_penalty_percentage(),
        },
    }
}

impl BlockView {
    /// The block's hash is the hash of its fields.
    pub open spec fn sealed(self) -> bool {
        self.current_block_hash == block_hash(
            self.index,
            self.timestamp,
            self.txn_data,
            self.previous_block_hash,
        )
    }
}

impl ChainView {
    /// The hash chain is whole: there is a first block, each block stands
    /// at its own index and carries the hash of its fields, and each but
    /// the first names the hash of the block before it.
    pub open spec fn linked(self) -> bool {
        &&& self.blocks.len() > 0
        &&& forall|i: int|
            0 <= i < self.blocks.len() ==> (#[trigger] self.blocks[i]).index == i
                && self.blocks[i].sealed()
        &&& forall|i: int|
            0 < i < self.blocks.len() ==> (#[trigger] self.blocks[i]).previous_block_hash
                == self.blocks[i - 1].current_block_hash
    }

    /// The chain's invariant: the hash chain is whole and the registry is
    /// consistent.
    pub open spec fn wf(self) -> bool {
        self.linked() && self.registry.wf()
    }

    /// The chain after a block with the payload `txn_data` was appended at
    /// `timestamp`, with `proposer` selected for it. The block links to the
    /// chain's last block; a selected proposer is named in it and noted in
    /// the registry as having proposed it.
    pub open spec fn appended(
        self,
        txn_data: Seq<char>,
        timestamp: u64,
        proposer: Option<Seq<char>>,
    ) -> ChainView {
        let index = self.blocks.len();
        ChainView {
            blocks: self.blocks.push(
                sealed_block(
                    index as u64,
                    timestamp,
                    txn_data,
                    self.blocks.last().current_block_hash,
                    match proposer {
                        Some(address) => address,
                        None => no_validator(),
                    },
                ),
            ),
            registry: match proposer {
                Some(address) => self.registry.recorded(address, index),
                None => self.registry,
            },
        }
    }

    /// `next` is this chain with one block more, appended with the payload
    /// `txn_data` at some time, for a proposer that a draw may select.
    pub open spec fn may_append(self, txn_data: Seq<char>, next: ChainView) -> bool {
        exists|timestamp: u64, proposer: Option<Seq<char>>|
            self.registry.may_select(self.blocks.len(), proposer) && next == #[trigger] self.appended(
                txn_data,
                timestamp,
                proposer,
            )
    }
}

/// One operation on the ledger: a block is appended, or the registry is
/// changed.
pub enum LedgerOp {
    Append { txn_data: Seq<char>, timestamp: u64, proposer: Option<Seq<char>> },
    Registry { op: RegistryOp },
}

/// The ledger after `op`.
pub open spec fn performed(c: ChainView, op: LedgerOp) -> ChainView {
    match op {
        LedgerOp::Append { txn_data, timestamp, proposer } => c.appended(
            txn_data,
            timestamp,
            proposer,
        ),
        LedgerOp::Registry { op } => ChainView { registry: applied(c.registry, op), ..c },
    }
}

/// The ledger after `ops`, one after the other.
pub open spec fn performed_all(c: ChainView, ops: Seq<LedgerOp>) -> ChainView
    decreases ops.len(),
{
    if ops.len() == 0 {
        c
    } else {
        performed(performed_all(c, ops.drop_last()), ops.last())
    }
}

} // verus!
