//! The ledger's parts: the validator registry, the blocks and the chain.

pub mod blocks;
pub mod chain_laws;
pub mod chain_spec;
pub mod clock;
pub mod digest;
pub mod pos;
pub mod pos_laws;
pub mod pos_spec;
