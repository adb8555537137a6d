//! Canonical state keys: their byte encoding, which fixes the order in which
//! witnesses and state patches must list them.

use vstd::prelude::*;

use crate::hashing::extend_bytes;
use crate::primitives::{Bytes31, Bytes32, ExecutionAddress};

verus! {

/// A key into the unified state tree.
#[derive(Debug, Clone, Copy, PartialEq, Eq)]
pub enum StateKey {
    AccountHeader(ExecutionAddress),
    StorageSlot { address: ExecutionAddress, slot: Bytes32 },
    CodeChunk { address: ExecutionAddress, chunk_index: u32 },
    RawTreeKey(Bytes32),
    Stem(Bytes31),
}

/// The canonical encoding of a state key.
#[derive(Debug, Clone, PartialEq, Eq, PartialOrd, Ord)]
pub struct StateKeyBytes(Vec<u8>);

impl View for StateKeyBytes {
    type V = Seq<u8>;

    closed spec fn view(&self) -> Seq<u8> {
        self.0@
    }
}

impl StateKeyBytes {
    /// The encoded bytes.
    pub fn as_slice(&self) -> (bytes: &[u8])
        ensures
            bytes@ == self@,
    {
        self.0.as_slice()
    }

    /// The encoded bytes, by value.
    pub fn into_vec(self) -> (bytes: Vec<u8>)
        ensures
            bytes@ == self@,
    {
        self.0
    }
}

/// A 20-byte address left-padded with twelve zero bytes.
pub open spec fn spec_canonical_address(address: Seq<u8>) -> Seq<u8> {
    Seq::new(12, |i: int| 0u8) + address
}

/// The four big-endian bytes of a `u32`.
pub open spec fn spec_u32_be(value: u32) -> Seq<u8> {
    seq![(value >> 24u32) as u8, (value >> 16u32) as u8, (value >> 8u32) as u8, value as u8]
}

/// The canonical encoding: a one-byte variant tag followed by the key's
/// fields, addresses widened to 32 bytes and chunk indexes big-endian.
pub open spec fn spec_encode_state_key(key: StateKey) -> Seq<u8> {
    match key {
        StateKey::AccountHeader(address) => seq![0u8] + spec_canonical_address(address@),
        StateKey::StorageSlot { address, slot } => seq![1u8] + spec_canonical_address(address@)
            + slot@,
        StateKey::CodeChunk { address, chunk_index } => seq![2u8] + spec_canonical_address(
            address@,
        ) + spec_u32_be(chunk_index),
        StateKey::RawTreeKey(raw) => seq![3u8] + raw@,
        StateKey::Stem(stem) => seq![4u8] + stem@,
    }
}

/// Widens an execution address to 32 bytes by left-padding with zeros.
pub fn canonicalize_execution_address(addr: &ExecutionAddress) -> (key: Bytes32)
    ensures
        key@ == spec_canonical_address(addr@),
{
    let mut key: Bytes32 = [0u8; 32];
    let mut i: usize = 0;
    while i < 20
        invariant
            0 <= i <= 20,
            forall|j: int| 0 <= j < 12 ==> key[j] == 0u8,
            forall|j: int| 0 <= j < i ==> key[12 + j] == addr[j],
        decreases 20 - i,
    {
        key[12 + i] = addr[i];
        i += 1;
    }
    assert(key@ =~= spec_canonical_address(addr@));
    key
}

/// Encodes a state key canonically.
pub fn encode_state_key(key: &StateKey) -> (encoded: StateKeyBytes)
    ensures
        encoded@ == spec_encode_state_key(*key),
{
    let mut bytes: Vec<u8> = Vec::new();
    match key {
        StateKey::AccountHeader(address) => {
            bytes.push(0u8);
            let wide = canonicalize_execution_address(address);
            extend_bytes(&mut bytes, wide.as_slice());
        },
        StateKey::StorageSlot { address, slot } => {
            bytes.push(1u8);
            let wide = canonicalize_execution_address(address);
            extend_bytes(&mut bytes, wide.as_slice());
            extend_bytes(&mut bytes, slot.as_slice());
        },
        StateKey::CodeChunk { address, chunk_index } => {
            bytes.push(2u8);
            let wide = canonicalize_execution_address(address);
            extend_bytes(&mut bytes, wide.as_slice());
            let index = *chunk_index;
            bytes.push((index >> 24u32) as u8);
            bytes.push((index >> 16u32) as u8);
            bytes.push((index >> 8u32) as u8);
            bytes.push(index as u8);
        },
        StateKey::RawTreeKey(raw) => {
            bytes.push(3u8);
            extend_bytes(&mut bytes, raw.as_slice());
        },
        StateKey::Stem(stem) => {
            bytes.push(4u8);
            extend_bytes(&mut bytes, stem.as_slice());
        },
    }
    assert(bytes@ =~= spec_encode_state_key(*key));
    StateKeyBytes(bytes)
}

impl StateKey {
    /// The canonical encoding of the key, used to sort keys.
    pub fn canonical_sort_key(&self) -> (sort_key: Vec<u8>)
        ensures
            sort_key@ == spec_encode_state_key(*self),
    {
        encode_state_key(self).into_vec()
    }
}

/// The bytes of `bytes` from position `start` on.
pub open spec fn suffix_from(bytes: Seq<u8>, start: usize) -> Seq<u8> {
    bytes.skip(start as int)
}

/// Dropping the first byte of a suffix gives the next suffix.
pub proof fn lemma_suffix_step(bytes: Seq<u8>, start: usize)
    requires
        start < bytes.len(),
        start < usize::MAX,
    ensures
        suffix_from(bytes, start).len() > 0,
        suffix_from(bytes, start)[0] == bytes[start as int],
        suffix_from(bytes, start).drop_first() == suffix_from(bytes, (start + 1) as usize),
{
    assert(bytes.skip(start as int).drop_first() =~= bytes.skip(start + 1));
}

/// The whole sequence is its suffix from position zero.
pub proof fn lemma_suffix_zero(bytes: Seq<u8>)
    ensures
        suffix_from(bytes, 0) == bytes,
{
    assert(bytes.skip(0) =~= bytes);
}

/// A committed witness for one state key: its leaf value and proof nodes.
#[derive(Debug, Clone, PartialEq, Eq)]
pub struct StateWitness {
    pub key: StateKey,
    pub leaf_value: Vec<u8>,
    pub proof: Vec<Bytes32>,
}

/// Whether two witnesses hold the same key, leaf value and proof.
pub open spec fn same_witness(a: StateWitness, b: StateWitness) -> bool {
    a.key == b.key && a.leaf_value@ == b.leaf_value@ && a.proof@ == b.proof@
}

/// A fresh copy of a witness.
pub fn copy_witness(witness: &StateWitness) -> (copy: StateWitness)
    ensures
        same_witness(copy, *witness),
{
    let mut proof: Vec<Bytes32> = Vec::new();
    let mut i: usize = 0;
    while i < witness.proof.len()
        invariant
            0 <= i <= witness.proof@.len(),
            proof@ =~= witness.proof@.take(i as int),
        decreases witness.proof@.len() - i,
    {
        proof.push(witness.proof[i]);
        i += 1;
    }
    assert(proof@ =~= witness.proof@);
    StateWitness {
        key: witness.key,
        leaf_value: crate::hashing::copy_bytes(witness.leaf_value.as_slice()),
        proof,
    }
}

} // verus!
