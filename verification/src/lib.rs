//! A minimal proof-of-stake ledger: a hash-linked chain of blocks whose
//! proposers are drawn by a stake-weighted lottery among eligible validators.

pub mod blockchain;
