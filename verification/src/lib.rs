//! Verified validation logic for a post-quantum smart-contract chain: state-key
//! encoding, execution and root comparison, block import ordering, peer
//! consequences of validation failures, and fixture decoding helpers.

pub mod hashing;
pub mod seq_util;
pub mod primitives;
pub mod state_key;
pub mod key_order;
pub mod transactions;
pub mod crypto;
pub mod state;
pub mod execution;
pub mod mempool;
pub mod consensus;
pub mod network;
pub mod hex;
pub mod fixture_vectors;
pub mod fixtures;
pub mod harness;
