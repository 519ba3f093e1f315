//! Blocks and the chain that owns them.

use vstd::bytes::u64_to_le_bytes;
use vstd::prelude::*;
use vstd::string::StrSliceExecFns;
use crate::blockchain::chain_spec::{
    block_hash, block_preimage, genesis_chain, sealed_block, BlockView, ChainView,
};
use crate::blockchain::clock::unix_seconds;
use crate::blockchain::digest::{md5_compute, to_hex};
use crate::blockchain::pos::{address_view, PosError, PosMechanism};

verus! {

/// Why the chain refused an operation.
#[derive(Debug, Clone, Copy, PartialEq, Eq, Structural)]
pub enum ChainError {
    /// The system clock stands before the Unix epoch.
    ClockBeforeEpoch,
}

/// One entry of the ledger, with the hash of its predecessor.
#[derive(Debug)]
pub struct Block {
    pub index: u64,
    pub timestamp: u64,
    pub txn_data: String,
    pub previous_block_hash: String,
    pub current_block_hash: String,
    pub validator: String,
}

impl View for Block {
    type V = BlockView;

    open spec fn view(&self) -> BlockView {
        BlockView {
            index: self.index,
            timestamp: self.timestamp,
            txn_data: self.txn_data@,
            previous_block_hash: self.previous_block_hash@,
            current_block_hash: self.current_block_hash@,
            validator: self.validator@,
        }
    }
}

impl Block {
    /// A block made now: its timestamp is read from the system clock, its
    /// hash computed over its fields. Two blocks of the same fields made at
    /// different seconds carry different timestamps.
    pub fn new(index: u64, txn_data: String, previous_block_hash: String, validator: String) -> (r:
        Result<Block, ChainError>)
        ensures
            match r {
                Ok(block) => block@ == sealed_block(
                    index,
                    block.timestamp,
                    txn_data@,
                    previous_block_hash@,
                    validator@,
                ),
                Err(e) => e == ChainError::ClockBeforeEpoch,
            },
    {
        Block::with_clock_reading(index, unix_seconds(), txn_data, previous_block_hash, validator)
    }

    /// The block that a reading of the clock gives. Where the clock gave
    /// the seconds since the epoch, it is the block of these fields made at
    /// that second; where it gave nothing, because it stands before the
    /// epoch, there is no block.
    pub fn with_clock_reading(
        index: u64,
        reading: Option<u64>,
        txn_data: String,
        previous_block_hash: String,
        validator: String,
    ) -> (r: Result<Block, ChainError>)
        ensures
            match reading {
                Some(timestamp) => r matches Ok(block) && block@ == sealed_block(
                    index,
                    timestamp,
                    txn_data@,
                    previous_block_hash@,
                    validator@,
                ),
                None => r matches Err(e) && e == ChainError::ClockBeforeEpoch,
            },
    {
        match reading {
            Some(timestamp) => Ok(
                Block::with_timestamp(index, timestamp, txn_data, previous_block_hash, validator),
            ),
            None => Err(ChainError::ClockBeforeEpoch),
        }
    }

    /// The block of these fields, its hash computed over them.
    pub fn with_timestamp(
        index: u64,
        timestamp: u64,
        txn_data: String,
        previous_block_hash: String,
        validator: String,
    ) -> (block: Block)
        ensures
            block@ == sealed_block(index, timestamp, txn_data@, previous_block_hash@, validator@),
    {
        let current_block_hash = Block::calculate_hash(
            index,
            timestamp,
            txn_data.as_str(),
            previous_block_hash.as_str(),
        );
        Block { index, timestamp, txn_data, previous_block_hash, current_block_hash, validator }
    }

    /// The hash of a block of these fields.
    pub fn calculate_hash(
        index: u64,
        timestamp: u64,
        txn_data: &str,
        previous_block_hash: &str,
    ) -> (hash: String)
        ensures
            hash@ == block_hash(index, timestamp, txn_data@, previous_block_hash@),
    {
        let mut payload = txn_data.as_bytes_vec();
        let mut previous = previous_block_hash.as_bytes_vec();
        let mut bytes = u64_to_le_bytes(index);
        let mut stamp = u64_to_le_bytes(timestamp);
        let mut length = u64_to_le_bytes(payload.len() as u64);
        bytes.append(&mut stamp);
        bytes.append(&mut length);
        bytes.append(&mut payload);
        bytes.append(&mut previous);
        assert(bytes@ == block_preimage(index, timestamp, txn_data@, previous_block_hash@));
        let digest = md5_compute(bytes.as_slice());
        to_hex(&digest)
    }
}

/// The ledger: the blocks, oldest first, and the registry that the
/// proposers are drawn from.
pub struct Blockchain {
    pub blocks: Vec<Block>,
    pub pos_mechanism: PosMechanism,
}

impl View for Blockchain {
    type V = ChainView;

    open spec fn view(&self) -> ChainView {
        ChainView {
            blocks: self.blocks@.map_values(|b: Block| b@),
            registry: self.pos_mechanism@,
        }
    }
}

impl Blockchain {
    /// The chain's invariant: the hash chain is whole and the registry is
    /// consistent.
    pub open spec fn wf(&self) -> bool {
        self@.wf()
    }

    /// Whether the invariant holds: whether every block stands at its
    /// index and carries the hash of its fields, every block but the first
    /// names the hash of the block before it, and the registry is
    /// consistent. A chain that was put together out of order, or changed
    /// afterwards, is told by this.
    pub fn is_intact(&self) -> (r: bool)
        ensures
            r == self.wf(),
    {
        if self.blocks.len() == 0 {
            return false;
        }
        let mut i: usize = 0;
        while i < self.blocks.len()
            invariant
                i <= self.blocks.len(),
                forall|k: int|
                    0 <= k < i ==> (#[trigger] self@.blocks[k]).index == k
                        && self@.blocks[k].sealed(),
                forall|k: int|
                    0 < k < i ==> (#[trigger] self@.blocks[k]).previous_block_hash
                        == self@.blocks[k - 1].current_block_hash,
            decreases self.blocks.len() - i,
        {
            let block = &self.blocks[i];
            assert(block@ == self@.blocks[i as int]);
            if block.index != i as u64 {
                return false;
            }
            let hash = Block::calculate_hash(
                block.index,
                block.timestamp,
                block.txn_data.as_str(),
                block.previous_block_hash.as_str(),
            );
            if hash != block.current_block_hash {
                return false;
            }
            if i > 0 {
                let before = &self.blocks[i - 1];
                assert(before@ == self@.blocks[i as int - 1]);
                if block.previous_block_hash != before.current_block_hash {
                    return false;
                }
            }
            i += 1;
        }
        self.pos_mechanism.is_consistent()
    }

    /// A chain that starts now: the first block carries the clock's
    /// reading, the registry is empty.
    pub fn new() -> (r: Result<Blockchain, ChainError>)
        ensures
            match r {
                Ok(chain) => chain.wf() && chain@ == genesis_chain(chain@.blocks[0].timestamp),
                Err(e) => e == ChainError::ClockBeforeEpoch,
            },
    {
        Blockchain::with_clock_reading(unix_seconds())
    }

    /// The chain that a reading of the clock gives. Where the clock gave
    /// the seconds since the epoch, it is the chain that started at that
    /// second; where it gave nothing, because it stands before the epoch,
    /// there is no chain.
    pub fn with_clock_reading(reading: Option<u64>) -> (r: Result<Blockchain, ChainError>)
        ensures
            match reading {
                Some(timestamp) => r matches Ok(chain) && chain.wf() && chain@ == genesis_chain(
                    timestamp,
                ),
                None => r matches Err(e) && e == ChainError::ClockBeforeEpoch,
            },
    {
        match reading {
            Some(timestamp) => Ok(Blockchain::with_genesis_time(timestamp)),
            None => Err(ChainError::ClockBeforeEpoch),
        }
    }

    /// The chain that started at `timestamp`.
    pub fn with_genesis_time(timestamp: u64) -> (chain: Blockchain)
        ensures
            chain.wf(),
            chain@ == genesis_chain(timestamp),
    {
        let genesis_block = Block::with_timestamp(
            0,
            timestamp,
            "Genesis Block".to_owned(),
            "0000000000000000000".to_owned(),
            "Genesis Validator".to_owned(),
        );
        let finality_threshold: u64 = 85;
        let penalty_percentage: u64 = 55;
        let pos_mechanism = PosMechanism::new(finality_threshold, penalty_percentage);
        let mut blocks: Vec<Block> = Vec::new();
        blocks.push(genesis_block);
        let chain = Blockchain { blocks, pos_mechanism };
        assert(chain@.blocks =~= genesis_chain(timestamp).blocks);
        chain
    }

    /// Appends a block with the payload `txn_data`: a proposer is drawn for
    /// it, the clock is read, and the block is linked to the last one.
    /// Where nobody is selected the block is appended all the same, and
    /// names nobody. Nothing changes where the clock cannot be read.
    pub fn add_block(&mut self, txn_data: String) -> (r: Result<(), ChainError>)
        requires
            old(self).wf(),
        ensures
            final(self).wf(),
            match r {
                Ok(_) => old(self)@.may_append(txn_data@, final(self)@),
                Err(e) => e == ChainError::ClockBeforeEpoch && *final(self) == *old(self),
            },
    {
        let validator = self.pos_mechanism.select_validator(self.next_index());
        self.add_block_with(txn_data, unix_seconds(), validator)
    }

    /// Appends the block with the payload `txn_data` for which `proposer`
    /// was selected, as a reading of the clock allows. Where the clock gave
    /// the seconds since the epoch, the block is appended as `append_block`
    /// does at that second; where it gave nothing, because it stands before
    /// the epoch, nothing changes, the registry included.
    pub fn add_block_with(
        &mut self,
        txn_data: String,
        reading: Option<u64>,
        proposer: Option<String>,
    ) -> (r: Result<(), ChainError>)
        requires
            old(self).wf(),
        ensures
            final(self).wf(),
            match reading {
                Some(timestamp) => r is Ok && final(self)@ == old(self)@.appended(
                    txn_data@,
                    timestamp,
                    address_view(proposer),
                ),
                None => r == Err::<(), ChainError>(ChainError::ClockBeforeEpoch) && *final(self)
                    == *old(self),
            },
    {
        match reading {
            Some(timestamp) => {
                self.append_block(txn_data, timestamp, proposer);
                Ok(())
            },
            None => Err(ChainError::ClockBeforeEpoch),
        }
    }

    /// The index of the block that will be appended next.
    fn next_index(&self) -> (index: u64)
        requires
            self.wf(),
        ensures
            index == self@.blocks.len(),
    {
        let previous_block = &self.blocks[self.blocks.len() - 1];
        assert(previous_block@ == self@.blocks[self.blocks.len() - 1]);
        previous_block.index + 1
    }

    /// Appends the block with the payload `txn_data` that was made at
    /// `timestamp` and for which `proposer` was selected. A selected
    /// proposer that is registered is noted as having proposed the block;
    /// where nobody was selected the block names nobody.
    pub fn append_block(&mut self, txn_data: String, timestamp: u64, proposer: Option<String>)
        requires
            old(self).wf(),
        ensures
            final(self).wf(),
            final(self)@ == old(self)@.appended(txn_data@, timestamp, address_view(proposer)),
    {
        let index = self.next_index();
        let previous_block_hash = self.blocks[self.blocks.len() - 1].current_block_hash.clone();
        assert(previous_block_hash@ == self@.blocks.last().current_block_hash);
        let validator = match proposer {
            Some(address) => {
                let _ = self.pos_mechanism.update_last_proposed_block(address.as_str(), index);
                address
            },
            None => "No Validator".to_owned(),
        };
        let new_block = Block::with_timestamp(
            index,
            timestamp,
            txn_data,
            previous_block_hash,
            validator,
        );
        self.blocks.push(new_block);
        assert(self@.blocks =~= old(self)@.blocks.push(new_block@));
    }

    /// Registers `address` with `stake` in the chain's registry, as
    /// `PosMechanism::add_validator` does.
    pub fn add_validators(&mut self, address: String, stake: u64) -> (r: Result<(), PosError>)
        requires
            old(self).wf(),
        ensures
            final(self).wf(),
            final(self)@.blocks == old(self)@.blocks,
            r is Err <==> old(self)@.registry.with_validator(address@, stake as nat).total_stake
                > u64::MAX,
            match r {
                Ok(_) => final(self)@.registry == old(self)@.registry.with_validator(
                    address@,
                    stake as nat,
                ),
                Err(e) => e == PosError::StakeOverflow && *final(self) == *old(self),
            },
    {
        self.pos_mechanism.add_validator(address, stake)
    }
    /// Sets the stake of `address` in the chain's registry, as
    /// `PosMechanism::update_validator` does.
    pub fn update_validator(&mut self, address: String, new_stake: u64) -> (r: Result<
        (),
        PosError,
    >)
        requires
            old(self).wf(),
        ensures
            final(self).wf(),
            final(self)@.blocks == old(self)@.blocks,
            r == Err::<(), PosError>(PosError::UnknownValidator) <==> !old(self)@.registry.knows(
                address@,
            ),
            r == Err::<(), PosError>(PosError::StakeOverflow) <==> old(self)@.registry.knows(
                address@,
            ) && old(self)@.registry.with_stake(address@, new_stake as nat).total_stake
                > u64::MAX,
            match r {
                Ok(_) => final(self)@.registry == old(self)@.registry.with_stake(
                    address@,
                    new_stake as nat,
                ),
                Err(_) => *final(self) == *old(self),
            },
    {
        self.pos_mechanism.update_validator(address, new_stake)
    }

    /// Removes `address` from the chain's registry, as
    /// `PosMechanism::remove_validator` does.
    pub fn remove_validator(&mut self, address: String) -> (r: Result<(), PosError>)
        requires
            old(self).wf(),
        ensures
            final(self).wf(),
            final(self)@.blocks == old(self)@.blocks,
            r is Ok <==> old(self)@.registry.knows(address@),
            match r {
                Ok(_) => final(self)@.registry == old(self)@.registry.without(address@),
                Err(e) => e == PosError::UnknownValidator && *final(self) == *old(self),
            },
    {
        self.pos_mechanism.remove_validator(address)
    }

    /// Penalizes `address` in the chain's registry, as
    /// `PosMechanism::penalize_validator` does.
    pub fn penalize_validator(&mut self, address: &str) -> (r: Result<(), PosError>)
        requires
            old(self).wf(),
        ensures
            final(self).wf(),
            final(self)@.blocks == old(self)@.blocks,
            final(self)@.registry == old(self)@.registry.penalized(address@),
            r is Ok <==> old(self)@.registry.knows(address@),
            r is Err ==> r == Err::<(), PosError>(PosError::UnknownValidator) && *final(self)
                == *old(self),
    {
        self.pos_mechanism.penalize_validator(address)
    }
}

} // verus!
