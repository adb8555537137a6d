//! Turning fixture vectors into protocol objects, and the fixture-side roots
//! over transaction lists and witness sets.

use vstd::prelude::*;
use vstd::string::StringSliceAdditionalSpecFns;

use crate::fixture_vectors::{
    FeeInput, MaterializedLeafFixture, PayloadRootMode, RootMode, StateKeyInput,
    TransactionPayloadInput, TransactionVector, WitnessFixture, WitnessVector,
};
use crate::hashing::{
    extend_bytes, extend_u64_be, lemma_framed_distinct, sha256, spec_len_be, spec_sha256,
};
use crate::hex::{hex_bytes, hex_ok, hex_ok_len, parse_hex, to_array};
use crate::primitives::{PrimitiveError, Root};
use crate::seq_util::{lemma_distinct_after_prefix, lemma_distinct_before_suffix};
use crate::state_key::{encode_state_key, spec_encode_state_key, StateKey, StateWitness};
use crate::transactions::{
    spec_envelope_root, BasicFeesPerGas, BasicTransactionPayload, ChainId,
    CreateTransactionPayload, GasPrice, TransactionEnvelope, TransactionPayload,
    TransactionPayloadSsz, TxValue, U256,
};

verus! {

/// `root` with its first byte XORed with `mask`.
pub open spec fn flip_first_byte(root: Root, mask: u8) -> Seq<u8> {
    root@.update(0, root[0] ^ mask)
}

impl PayloadRootMode {
    /// The payload root an authorization carries: the canonical root, or the
    /// canonical root with its first byte inverted.
    pub fn apply(&self, root: Root) -> (applied: Root)
        ensures
            *self == PayloadRootMode::Canonical ==> applied == root,
            *self == PayloadRootMode::FlipFirstByte ==> applied@ == flip_first_byte(root, 0xFFu8),
    {
        match self {
            PayloadRootMode::Canonical => root,
            PayloadRootMode::FlipFirstByte => {
                let mut mutated = root;
                mutated[0] = mutated[0] ^ 0xFFu8;
                mutated
            },
        }
    }
}

impl RootMode {
    /// A root as a vector presents it: the canonical root, or the canonical
    /// root with the low bit of its first byte flipped.
    pub fn apply(&self, root: Root) -> (applied: Root)
        ensures
            *self == RootMode::Canonical ==> applied == root,
            *self == RootMode::FlipFirstByte ==> applied@ == flip_first_byte(root, 0x01u8),
    {
        match self {
            RootMode::Canonical => root,
            RootMode::FlipFirstByte => {
                let mut mutated = root;
                mutated[0] = mutated[0] ^ 0x01u8;
                mutated
            },
        }
    }
}

/// Flipping a root's first byte twice with the same mask restores the root,
/// and a flipped root always differs from the unflipped one when the mask is not
/// zero: both root modes are involutions that really change the root.
pub proof fn lemma_flip_first_byte_involution(root: Root, mask: u8)
    ensures
        flip_first_byte(root, mask).update(0, flip_first_byte(root, mask)[0] ^ mask) == root@,
        mask != 0 ==> flip_first_byte(root, mask) != root@,
{
    let x = root[0];
    assert((x ^ mask) ^ mask == x) by (bit_vector);
    assert(mask != 0 ==> x ^ mask != x) by (bit_vector);
    assert(root@[0] == x);
    assert(flip_first_byte(root, mask).update(0, flip_first_byte(root, mask)[0] ^ mask) =~= root@);
    if mask != 0 {
        assert(flip_first_byte(root, mask)[0] != root@[0]);
    }
}

/// Decodes a 32-byte root from hexadecimal text.
pub fn parse_root(value: &str) -> (root: Root)
    requires
        hex_ok_len(value@, 32),
    ensures
        root@ == hex_bytes(value@),
{
    let bytes = parse_hex(value);
    to_array(bytes.as_slice())
}

/// Decodes a 20-byte address from hexadecimal text.
pub fn parse_address(value: &str) -> (address: [u8; 20])
    requires
        hex_ok_len(value@, 20),
    ensures
        address@ == hex_bytes(value@),
{
    let bytes = parse_hex(value);
    to_array(bytes.as_slice())
}

fn parse_bytes_32(value: &str) -> (bytes: [u8; 32])
    requires
        hex_ok_len(value@, 32),
    ensures
        bytes@ == hex_bytes(value@),
{
    let parsed = parse_hex(value);
    to_array(parsed.as_slice())
}

fn parse_bytes_31(value: &str) -> (bytes: [u8; 31])
    requires
        hex_ok_len(value@, 31),
    ensures
        bytes@ == hex_bytes(value@),
{
    let parsed = parse_hex(value);
    to_array(parsed.as_slice())
}

/// The domain tag of fixture transactions roots.
pub open spec fn transactions_root_tag() -> Seq<u8> {
    "shell-fixtures/transactions-root/v1".spec_bytes()
}

/// The domain tag of fixture witnesses roots.
pub open spec fn witnesses_root_tag() -> Seq<u8> {
    "shell-fixtures/execution-witnesses-root/v1".spec_bytes()
}

/// The canonical roots of the first `n` transactions, concatenated.
pub open spec fn spec_concat_transaction_roots(transactions: Seq<TransactionEnvelope>, n: nat) -> Seq<
    u8,
>
    decreases n,
{
    if n == 0 || n > transactions.len() {
        Seq::empty()
    } else {
        spec_concat_transaction_roots(transactions, (n - 1) as nat) + spec_envelope_root(
            transactions[n - 1],
        )
    }
}

/// The transactions root of a transaction list: the digest of its tag, the
/// count and every canonical transaction root in order.
pub open spec fn spec_transactions_root(transactions: Seq<TransactionEnvelope>) -> Seq<u8> {
    spec_sha256(
        transactions_root_tag() + spec_len_be(transactions.len()) + spec_concat_transaction_roots(
            transactions,
            transactions.len(),
        ),
    )
}

/// Transaction lists that agree on their first `k` transactions
/// concatenate the same roots for them.
proof fn lemma_concat_transaction_roots_agree(
    first: Seq<TransactionEnvelope>,
    second: Seq<TransactionEnvelope>,
    k: nat,
)
    requires
        k <= first.len(),
        k <= second.len(),
        forall|i: int| 0 <= i < k ==> first[i] == second[i],
    ensures
        spec_concat_transaction_roots(first, k) == spec_concat_transaction_roots(second, k),
    decreases k,
{
    if k > 0 {
        lemma_concat_transaction_roots_agree(first, second, (k - 1) as nat);
        assert(first[k - 1] == second[k - 1]);
    }
}

/// Transaction lists that differ only in transaction `j`, whose envelope
/// roots differ, concatenate different roots once `j` is among the first
/// `n`.
proof fn lemma_concat_transaction_roots_differ(
    first: Seq<TransactionEnvelope>,
    second: Seq<TransactionEnvelope>,
    j: int,
    n: nat,
)
    requires
        0 <= j < n,
        n <= first.len(),
        n <= second.len(),
        forall|i: int| 0 <= i < n && i != j ==> first[i] == second[i],
        spec_envelope_root(first[j]) != spec_envelope_root(second[j]),
    ensures
        spec_concat_transaction_roots(first, n) != spec_concat_transaction_roots(second, n),
    decreases n,
{
    if n == j + 1 {
        lemma_concat_transaction_roots_agree(first, second, j as nat);
        lemma_distinct_after_prefix(
            spec_concat_transaction_roots(first, j as nat),
            spec_envelope_root(first[j]),
            spec_envelope_root(second[j]),
        );
    } else {
        lemma_concat_transaction_roots_differ(first, second, j, (n - 1) as nat);
        assert(first[n - 1] == second[n - 1]);
        lemma_distinct_before_suffix(
            spec_concat_transaction_roots(first, (n - 1) as nat),
            spec_concat_transaction_roots(second, (n - 1) as nat),
            spec_envelope_root(first[n - 1]),
        );
    }
}

/// The transactions root commits to each whole envelope: two transaction
/// lists that differ only in one transaction, whose envelope roots differ,
/// have roots that are digests of different byte strings. With
/// `lemma_envelope_root_commits_to_authorizations`, a body whose
/// signatures were swapped or stripped does not match the committed
/// transactions root unless SHA-256 collides.
pub proof fn lemma_transactions_root_commits_to_envelopes(
    first: Seq<TransactionEnvelope>,
    second: Seq<TransactionEnvelope>,
    j: int,
)
    requires
        first.len() == second.len(),
        0 <= j < first.len(),
        forall|i: int| 0 <= i < first.len() && i != j ==> first[i] == second[i],
        spec_envelope_root(first[j]) != spec_envelope_root(second[j]),
    ensures
        exists|p1: Seq<u8>, p2: Seq<u8>|
            #![trigger spec_sha256(p1), spec_sha256(p2)]
            spec_transactions_root(first) == spec_sha256(p1) && spec_transactions_root(second)
                == spec_sha256(p2) && p1 != p2,
{
    lemma_concat_transaction_roots_differ(first, second, j, first.len());
    let prefix = transactions_root_tag() + spec_len_be(first.len());
    let p1 = prefix + spec_concat_transaction_roots(first, first.len());
    let p2 = prefix + spec_concat_transaction_roots(second, second.len());
    lemma_distinct_after_prefix(
        prefix,
        spec_concat_transaction_roots(first, first.len()),
        spec_concat_transaction_roots(second, second.len()),
    );
    assert(spec_transactions_root(first) == spec_sha256(p1));
    assert(spec_transactions_root(second) == spec_sha256(p2));
}

/// Computes the transactions root of a transaction list.
pub fn compute_transactions_root(transactions: &[TransactionEnvelope]) -> (root: Result<
    Root,
    PrimitiveError,
>)
    ensures
        root matches Ok(r) && r@ == spec_transactions_root(transactions@),
{
    let mut roots: Vec<u8> = Vec::new();
    let mut i: usize = 0;
    while i < transactions.len()
        invariant
            0 <= i <= transactions@.len(),
            roots@ == spec_concat_transaction_roots(transactions@, i as nat),
        decreases transactions@.len() - i,
    {
        let transaction_root = transactions[i].canonical_root()?;
        extend_bytes(&mut roots, transaction_root.as_slice());
        i += 1;
    }
    let mut bytes: Vec<u8> = Vec::new();
    extend_bytes(&mut bytes, "shell-fixtures/transactions-root/v1".as_bytes());
    extend_u64_be(&mut bytes, transactions.len() as u64);
    extend_bytes(&mut bytes, roots.as_slice());
    Ok(sha256(bytes.as_slice()))
}

/// The proof nodes of the first `n` entries, concatenated.
pub open spec fn spec_concat_nodes(proof: Seq<[u8; 32]>, n: nat) -> Seq<u8>
    decreases n,
{
    if n == 0 || n > proof.len() {
        Seq::empty()
    } else {
        spec_concat_nodes(proof, (n - 1) as nat) + proof[n - 1]@
    }
}

/// The framing of one witness: its encoded key, leaf value and proof nodes,
/// each prefixed by its length.
pub open spec fn spec_encode_witness(witness: StateWitness) -> Seq<u8> {
    spec_len_be(spec_encode_state_key(witness.key).len()) + spec_encode_state_key(witness.key)
        + spec_len_be(witness.leaf_value@.len()) + witness.leaf_value@ + spec_len_be(
        witness.proof@.len(),
    ) + spec_concat_nodes(witness.proof@, witness.proof@.len())
}

/// The framing of the first `n` witnesses.
pub open spec fn spec_encode_witnesses(witnesses: Seq<StateWitness>, n: nat) -> Seq<u8>
    decreases n,
{
    if n == 0 || n > witnesses.len() {
        Seq::empty()
    } else {
        spec_encode_witnesses(witnesses, (n - 1) as nat) + spec_encode_witness(witnesses[n - 1])
    }
}

/// The execution witnesses root of a witness set: the digest of its tag, the
/// count and every framed witness in order.
pub open spec fn spec_execution_witnesses_root(witnesses: Seq<StateWitness>) -> Seq<u8> {
    spec_sha256(
        witnesses_root_tag() + spec_len_be(witnesses.len()) + spec_encode_witnesses(
            witnesses,
            witnesses.len(),
        ),
    )
}

/// Proof node lists that agree on their first `k` nodes frame those nodes
/// alike.
proof fn lemma_concat_nodes_agree(first: Seq<[u8; 32]>, second: Seq<[u8; 32]>, k: nat)
    requires
        k <= first.len(),
        k <= second.len(),
        forall|i: int| 0 <= i < k ==> first[i] == second[i],
    ensures
        spec_concat_nodes(first, k) == spec_concat_nodes(second, k),
    decreases k,
{
    if k > 0 {
        lemma_concat_nodes_agree(first, second, (k - 1) as nat);
        assert(first[k - 1] == second[k - 1]);
    }
}

/// Proof node lists that differ only in node `m` frame their first `n`
/// nodes differently, once node `m` is among them.
proof fn lemma_concat_nodes_differ(first: Seq<[u8; 32]>, second: Seq<[u8; 32]>, m: int, n: nat)
    requires
        0 <= m < n,
        n <= first.len(),
        n <= second.len(),
        forall|i: int| 0 <= i < n && i != m ==> first[i] == second[i],
        first[m] != second[m],
    ensures
        spec_concat_nodes(first, n) != spec_concat_nodes(second, n),
    decreases n,
{
    if n == m + 1 {
        lemma_concat_nodes_agree(first, second, m as nat);
        if first[m]@ == second[m]@ {
            assert(first[m] =~= second[m]);
        }
        lemma_distinct_after_prefix(spec_concat_nodes(first, m as nat), first[m]@, second[m]@);
    } else {
        lemma_concat_nodes_differ(first, second, m, (n - 1) as nat);
        assert(first[n - 1] == second[n - 1]);
        lemma_distinct_before_suffix(
            spec_concat_nodes(first, (n - 1) as nat),
            spec_concat_nodes(second, (n - 1) as nat),
            first[n - 1]@,
        );
    }
}

/// Witness lists that agree on their first `k` witnesses frame them alike.
proof fn lemma_encode_witnesses_agree(first: Seq<StateWitness>, second: Seq<StateWitness>, k: nat)
    requires
        k <= first.len(),
        k <= second.len(),
        forall|i: int| 0 <= i < k ==> first[i] == second[i],
    ensures
        spec_encode_witnesses(first, k) == spec_encode_witnesses(second, k),
    decreases k,
{
    if k > 0 {
        lemma_encode_witnesses_agree(first, second, (k - 1) as nat);
        assert(first[k - 1] == second[k - 1]);
    }
}

/// Witness lists that differ only in witness `j`, framed differently, frame
/// their first `n` witnesses differently once witness `j` is among them.
proof fn lemma_encode_witnesses_differ(first: Seq<StateWitness>, second: Seq<StateWitness>, j: int, n: nat)
    requires
        0 <= j < n,
        n <= first.len(),
        n <= second.len(),
        forall|i: int| 0 <= i < n && i != j ==> first[i] == second[i],
        spec_encode_witness(first[j]) != spec_encode_witness(second[j]),
    ensures
        spec_encode_witnesses(first, n) != spec_encode_witnesses(second, n),
    decreases n,
{
    if n == j + 1 {
        lemma_encode_witnesses_agree(first, second, j as nat);
        lemma_distinct_after_prefix(
            spec_encode_witnesses(first, j as nat),
            spec_encode_witness(first[j]),
            spec_encode_witness(second[j]),
        );
    } else {
        lemma_encode_witnesses_differ(first, second, j, (n - 1) as nat);
        assert(first[n - 1] == second[n - 1]);
        lemma_distinct_before_suffix(
            spec_encode_witnesses(first, (n - 1) as nat),
            spec_encode_witnesses(second, (n - 1) as nat),
            spec_encode_witness(first[n - 1]),
        );
    }
}

/// The execution witnesses root commits to leaf values: two witness sets
/// that differ only in the leaf value of one witness have roots that are
/// digests of different byte strings.
pub proof fn lemma_witnesses_root_commits_to_leaf_values(
    first: Seq<StateWitness>,
    second: Seq<StateWitness>,
    j: int,
)
    requires
        first.len() == second.len(),
        0 <= j < first.len(),
        forall|i: int| 0 <= i < first.len() && i != j ==> first[i] == second[i],
        first[j].key == second[j].key,
        first[j].proof@ == second[j].proof@,
        first[j].leaf_value@ != second[j].leaf_value@,
        first[j].leaf_value@.len() <= u64::MAX,
        second[j].leaf_value@.len() <= u64::MAX,
    ensures
        exists|p1: Seq<u8>, p2: Seq<u8>|
            #![trigger spec_sha256(p1), spec_sha256(p2)]
            spec_execution_witnesses_root(first) == spec_sha256(p1)
                && spec_execution_witnesses_root(second) == spec_sha256(p2) && p1 != p2,
{
    let a = first[j];
    let b = second[j];
    let key = spec_len_be(spec_encode_state_key(a.key).len()) + spec_encode_state_key(a.key);
    let proof = spec_len_be(a.proof@.len()) + spec_concat_nodes(a.proof@, a.proof@.len());
    assert(spec_encode_witness(a) =~= key + spec_len_be(a.leaf_value@.len()) + a.leaf_value@ + proof);
    assert(spec_encode_witness(b) =~= key + spec_len_be(b.leaf_value@.len()) + b.leaf_value@ + proof);
    lemma_framed_distinct(key, a.leaf_value@, b.leaf_value@, proof, proof);
    lemma_encode_witnesses_differ(first, second, j, first.len());
    let prefix = witnesses_root_tag() + spec_len_be(first.len());
    let p1 = prefix + spec_encode_witnesses(first, first.len());
    let p2 = prefix + spec_encode_witnesses(second, second.len());
    lemma_distinct_after_prefix(
        prefix,
        spec_encode_witnesses(first, first.len()),
        spec_encode_witnesses(second, second.len()),
    );
    assert(spec_execution_witnesses_root(first) == spec_sha256(p1));
    assert(spec_execution_witnesses_root(second) == spec_sha256(p2));
}

/// The execution witnesses root commits to every proof node: two witness
/// sets that differ only in one proof node of one witness have roots that
/// are digests of different byte strings, so a sidecar with an altered
/// proof node does not match the committed root unless SHA-256 collides.
pub proof fn lemma_witnesses_root_commits_to_proof_nodes(
    first: Seq<StateWitness>,
    second: Seq<StateWitness>,
    j: int,
    m: int,
)
    requires
        first.len() == second.len(),
        0 <= j < first.len(),
        forall|i: int| 0 <= i < first.len() && i != j ==> first[i] == second[i],
        first[j].key == second[j].key,
        first[j].leaf_value@ == second[j].leaf_value@,
        first[j].proof@.len() == second[j].proof@.len(),
        0 <= m < first[j].proof@.len(),
        forall|k: int|
            0 <= k < first[j].proof@.len() && k != m ==> first[j].proof@[k] == second[j].proof@[k],
        first[j].proof@[m] != second[j].proof@[m],
    ensures
        exists|p1: Seq<u8>, p2: Seq<u8>|
            #![trigger spec_sha256(p1), spec_sha256(p2)]
            spec_execution_witnesses_root(first) == spec_sha256(p1)
                && spec_execution_witnesses_root(second) == spec_sha256(p2) && p1 != p2,
{
    let a = first[j];
    let b = second[j];
    let n = a.proof@.len();
    lemma_concat_nodes_differ(a.proof@, b.proof@, m, n);
    let head = spec_len_be(spec_encode_state_key(a.key).len()) + spec_encode_state_key(a.key)
        + spec_len_be(a.leaf_value@.len()) + a.leaf_value@ + spec_len_be(n);
    assert(spec_encode_witness(a) == head + spec_concat_nodes(a.proof@, n));
    assert(spec_encode_witness(b) == head + spec_concat_nodes(b.proof@, n));
    lemma_distinct_after_prefix(head, spec_concat_nodes(a.proof@, n), spec_concat_nodes(b.proof@, n));
    lemma_encode_witnesses_differ(first, second, j, first.len());
    let prefix = witnesses_root_tag() + spec_len_be(first.len());
    let p1 = prefix + spec_encode_witnesses(first, first.len());
    let p2 = prefix + spec_encode_witnesses(second, second.len());
    lemma_distinct_after_prefix(
        prefix,
        spec_encode_witnesses(first, first.len()),
        spec_encode_witnesses(second, second.len()),
    );
    assert(spec_execution_witnesses_root(first) == spec_sha256(p1));
    assert(spec_execution_witnesses_root(second) == spec_sha256(p2));
}


fn encode_witness(bytes: &mut Vec<u8>, witness: &StateWitness)
    ensures
        final(bytes)@ == old(bytes)@ + spec_encode_witness(*witness),
{
    let ghost start = bytes@;
    let encoded_key = encode_state_key(&witness.key);
    let key_bytes = encoded_key.as_slice();
    extend_u64_be(bytes, key_bytes.len() as u64);
    extend_bytes(bytes, key_bytes);
    extend_u64_be(bytes, witness.leaf_value.len() as u64);
    extend_bytes(bytes, witness.leaf_value.as_slice());
    extend_u64_be(bytes, witness.proof.len() as u64);
    let ghost middle = bytes@;
    let mut i: usize = 0;
    while i < witness.proof.len()
        invariant
            0 <= i <= witness.proof@.len(),
            bytes@ == middle + spec_concat_nodes(witness.proof@, i as nat),
        decreases witness.proof@.len() - i,
    {
        extend_bytes(bytes, witness.proof[i].as_slice());
        i += 1;
    }
    assert(bytes@ =~= start + spec_encode_witness(*witness));
}

/// Computes the execution witnesses root of a witness set.
pub fn compute_execution_witnesses_root(witnesses: &[StateWitness]) -> (root: Root)
    ensures
        root@ == spec_execution_witnesses_root(witnesses@),
{
    let mut bytes: Vec<u8> = Vec::new();
    extend_bytes(&mut bytes, "shell-fixtures/execution-witnesses-root/v1".as_bytes());
    extend_u64_be(&mut bytes, witnesses.len() as u64);
    let ghost prefix = bytes@;
    let mut i: usize = 0;
    while i < witnesses.len()
        invariant
            0 <= i <= witnesses@.len(),
            bytes@ == prefix + spec_encode_witnesses(witnesses@, i as nat),
        decreases witnesses@.len() - i,
    {
        encode_witness(&mut bytes, &witnesses[i]);
        i += 1;
    }
    sha256(bytes.as_slice())
}

/// Whether every fee field is 32 bytes of hexadecimal text.
pub open spec fn fee_input_ok(fees: FeeInput) -> bool {
    &&& hex_ok_len(fees.regular@, 32)
    &&& hex_ok_len(fees.max_priority_fee_per_gas@, 32)
    &&& hex_ok_len(fees.max_witness_priority_fee@, 32)
}

/// Whether `fees` holds the decoded fee fields.
pub open spec fn fees_match_input(fees: BasicFeesPerGas, input: FeeInput) -> bool {
    &&& fees.regular.0.0@ == hex_bytes(input.regular@)
    &&& fees.max_priority_fee_per_gas.0.0@ == hex_bytes(input.max_priority_fee_per_gas@)
    &&& fees.max_witness_priority_fee.0.0@ == hex_bytes(input.max_witness_priority_fee@)
}

/// Whether every hexadecimal field of a payload input is well formed and of
/// the width its field needs.
pub open spec fn payload_input_ok(input: TransactionPayloadInput) -> bool {
    match input {
        TransactionPayloadInput::Basic {
            chain_id,
            fees,
            to,
            value,
            input_hex,
            access_commitment,
            ..
        } => hex_ok_len(chain_id@, 32) && fee_input_ok(fees) && hex_ok_len(to@, 20) && hex_ok_len(
            value@,
            32,
        ) && hex_ok(input_hex@) && hex_ok_len(access_commitment@, 32),
        TransactionPayloadInput::Create {
            chain_id,
            fees,
            value,
            initcode_hex,
            access_commitment,
            ..
        } => hex_ok_len(chain_id@, 32) && fee_input_ok(fees) && hex_ok_len(value@, 32) && hex_ok(
            initcode_hex@,
        ) && hex_ok_len(access_commitment@, 32),
    }
}

/// Whether `payload` is the payload that `input` describes.
pub open spec fn payload_matches_input(payload: TransactionPayload, input: TransactionPayloadInput) -> bool {
    match (payload, input) {
        (
            TransactionPayload::Basic(p),
            TransactionPayloadInput::Basic {
                chain_id,
                nonce,
                gas_limit,
                fees,
                to,
                value,
                input_hex,
                access_commitment,
            },
        ) => p.chain_id.0.0@ == hex_bytes(chain_id@) && p.nonce == nonce && p.gas_limit == gas_limit
            && fees_match_input(p.fees, fees) && p.to@ == hex_bytes(to@) && p.value.0.0@
            == hex_bytes(value@) && p.input@ == hex_bytes(input_hex@) && p.access_commitment@
            == hex_bytes(access_commitment@),
        (
            TransactionPayload::Create(p),
            TransactionPayloadInput::Create {
                chain_id,
                nonce,
                gas_limit,
                fees,
                value,
                initcode_hex,
                access_commitment,
            },
        ) => p.chain_id.0.0@ == hex_bytes(chain_id@) && p.nonce == nonce && p.gas_limit == gas_limit
            && fees_match_input(p.fees, fees) && p.value.0.0@ == hex_bytes(value@) && p.initcode@
            == hex_bytes(initcode_hex@) && p.access_commitment@ == hex_bytes(access_commitment@),
        _ => false,
    }
}

fn parse_fees(fees: &FeeInput) -> (parsed: BasicFeesPerGas)
    requires
        fee_input_ok(*fees),
    ensures
        fees_match_input(parsed, *fees),
{
    BasicFeesPerGas {
        regular: GasPrice(U256(parse_bytes_32(fees.regular.as_str()))),
        max_priority_fee_per_gas: GasPrice(U256(parse_bytes_32(fees.max_priority_fee_per_gas.as_str()))),
        max_witness_priority_fee: GasPrice(U256(parse_bytes_32(fees.max_witness_priority_fee.as_str()))),
    }
}

fn build_payload(input: &TransactionPayloadInput) -> (payload: TransactionPayloadSsz)
    requires
        payload_input_ok(*input),
    ensures
        payload_matches_input(payload.inner, *input),
{
    match input {
        TransactionPayloadInput::Basic {
            chain_id,
            nonce,
            gas_limit,
            fees,
            to,
            value,
            input_hex,
            access_commitment,
        } => TransactionPayloadSsz::new(
            TransactionPayload::Basic(
                BasicTransactionPayload {
                    chain_id: ChainId(U256(parse_bytes_32(chain_id.as_str()))),
                    nonce: *nonce,
                    gas_limit: *gas_limit,
                    fees: parse_fees(fees),
                    to: parse_address(to.as_str()),
                    value: TxValue(U256(parse_bytes_32(value.as_str()))),
                    input: parse_hex(input_hex.as_str()),
                    access_commitment: parse_root(access_commitment.as_str()),
                },
            ),
        ),
        TransactionPayloadInput::Create {
            chain_id,
            nonce,
            gas_limit,
            fees,
            value,
            initcode_hex,
            access_commitment,
        } => TransactionPayloadSsz::new(
            TransactionPayload::Create(
                CreateTransactionPayload {
                    chain_id: ChainId(U256(parse_bytes_32(chain_id.as_str()))),
                    nonce: *nonce,
                    gas_limit: *gas_limit,
                    fees: parse_fees(fees),
                    value: TxValue(U256(parse_bytes_32(value.as_str()))),
                    initcode: parse_hex(initcode_hex.as_str()),
                    access_commitment: parse_root(access_commitment.as_str()),
                },
            ),
        ),
    }
}

impl TransactionVector {
    /// The payload the vector describes.
    pub fn payload(&self) -> (payload: TransactionPayloadSsz)
        requires
            self.input.payload matches Some(input) && payload_input_ok(input),
        ensures
            payload_matches_input(payload.inner, self.input.payload.unwrap()),
    {
        let input = self.input.payload.as_ref().unwrap();
        build_payload(input)
    }

    /// An unauthorized envelope around the vector's payload.
    pub fn envelope(&self) -> (envelope: TransactionEnvelope)
        requires
            self.input.payload matches Some(input) && payload_input_ok(input),
        ensures
            payload_matches_input(envelope.payload.inner, self.input.payload.unwrap()),
            envelope.authorizations@.len() == 0,
    {
        TransactionEnvelope { payload: self.payload(), authorizations: Vec::new() }
    }
}

/// The canonical encoding of the key a key input describes.
pub open spec fn input_key_encoding(input: StateKeyInput) -> Seq<u8> {
    match input {
        StateKeyInput::AccountHeader { address, .. } => seq![0u8] + crate::state_key::spec_canonical_address(
            hex_bytes(address@),
        ),
        StateKeyInput::StorageSlot { address, slot, .. } => seq![1u8]
            + crate::state_key::spec_canonical_address(hex_bytes(address@)) + hex_bytes(slot@),
        StateKeyInput::CodeChunk { address, chunk_index, .. } => seq![2u8]
            + crate::state_key::spec_canonical_address(hex_bytes(address@))
            + crate::state_key::spec_u32_be(chunk_index),
        StateKeyInput::RawTreeKey { raw_key, .. } => seq![3u8] + hex_bytes(raw_key@),
        StateKeyInput::Stem { stem, .. } => seq![4u8] + hex_bytes(stem@),
    }
}

/// The expected canonical encoding a key input pins, if any.
pub open spec fn input_canonical_hex(input: StateKeyInput) -> Option<String> {
    match input {
        StateKeyInput::AccountHeader { canonical_key_hex, .. } => canonical_key_hex,
        StateKeyInput::StorageSlot { canonical_key_hex, .. } => canonical_key_hex,
        StateKeyInput::CodeChunk { canonical_key_hex, .. } => canonical_key_hex,
        StateKeyInput::RawTreeKey { canonical_key_hex, .. } => canonical_key_hex,
        StateKeyInput::Stem { canonical_key_hex, .. } => canonical_key_hex,
    }
}

/// Whether a key input is well formed and agrees with the canonical encoding
/// it pins.
pub open spec fn key_input_ok(input: StateKeyInput) -> bool {
    &&& match input {
        StateKeyInput::AccountHeader { address, .. } => hex_ok_len(address@, 20),
        StateKeyInput::StorageSlot { address, slot, .. } => hex_ok_len(address@, 20) && hex_ok_len(
            slot@,
            32,
        ),
        StateKeyInput::CodeChunk { address, .. } => hex_ok_len(address@, 20),
        StateKeyInput::RawTreeKey { raw_key, .. } => hex_ok_len(raw_key@, 32),
        StateKeyInput::Stem { stem, .. } => hex_ok_len(stem@, 31),
    }
    &&& input_canonical_hex(input) matches Some(h) ==> hex_ok(h@) && hex_bytes(h@)
        == input_key_encoding(input)
}

/// Whether `key` is the key that `input` describes.
pub open spec fn key_matches_input(key: StateKey, input: StateKeyInput) -> bool {
    &&& spec_encode_state_key(key) == input_key_encoding(input)
    &&& match (key, input) {
        (StateKey::AccountHeader(a), StateKeyInput::AccountHeader { address, .. }) => a@ == hex_bytes(
            address@,
        ),
        (
            StateKey::StorageSlot { address: a, slot: s },
            StateKeyInput::StorageSlot { address, slot, .. },
        ) => a@ == hex_bytes(address@) && s@ == hex_bytes(slot@),
        (
            StateKey::CodeChunk { address: a, chunk_index: c },
            StateKeyInput::CodeChunk { address, chunk_index, .. },
        ) => a@ == hex_bytes(address@) && c == chunk_index,
        (StateKey::RawTreeKey(r), StateKeyInput::RawTreeKey { raw_key, .. }) => r@ == hex_bytes(
            raw_key@,
        ),
        (StateKey::Stem(t), StateKeyInput::Stem { stem, .. }) => t@ == hex_bytes(stem@),
        _ => false,
    }
}

impl StateKeyInput {
    /// The state key the input describes.
    pub fn to_state_key(&self) -> (key: StateKey)
        requires
            key_input_ok(*self),
        ensures
            key_matches_input(key, *self),
    {
        let key = match self {
            StateKeyInput::AccountHeader { address, .. } => StateKey::AccountHeader(
                parse_address(address.as_str()),
            ),
            StateKeyInput::StorageSlot { address, slot, .. } => StateKey::StorageSlot {
                address: parse_address(address.as_str()),
                slot: parse_bytes_32(slot.as_str()),
            },
            StateKeyInput::CodeChunk { address, chunk_index, .. } => StateKey::CodeChunk {
                address: parse_address(address.as_str()),
                chunk_index: *chunk_index,
            },
            StateKeyInput::RawTreeKey { raw_key, .. } => StateKey::RawTreeKey(
                parse_bytes_32(raw_key.as_str()),
            ),
            StateKeyInput::Stem { stem, .. } => StateKey::Stem(parse_bytes_31(stem.as_str())),
        };
        assert(spec_encode_state_key(key) =~= input_key_encoding(*self));
        key
    }

    /// The canonical encoding the input pins, if any.
    pub fn canonical_key_hex(&self) -> (hex: Option<&str>)
        ensures
            hex is Some == input_canonical_hex(*self) is Some,
            hex matches Some(h) ==> h@ == input_canonical_hex(*self).unwrap()@,
    {
        let pinned = match self {
            StateKeyInput::AccountHeader { canonical_key_hex, .. } => canonical_key_hex,
            StateKeyInput::StorageSlot { canonical_key_hex, .. } => canonical_key_hex,
            StateKeyInput::CodeChunk { canonical_key_hex, .. } => canonical_key_hex,
            StateKeyInput::RawTreeKey { canonical_key_hex, .. } => canonical_key_hex,
            StateKeyInput::Stem { canonical_key_hex, .. } => canonical_key_hex,
        };
        match pinned {
            Some(text) => Some(text.as_str()),
            None => None,
        }
    }
}

/// Whether every field of a witness fixture is well formed.
pub open spec fn witness_fixture_ok(fixture: WitnessFixture) -> bool {
    &&& key_input_ok(fixture.key)
    &&& hex_ok(fixture.leaf_value_hex@)
    &&& forall|i: int| 0 <= i < fixture.proof_hex@.len() ==> hex_ok_len(#[trigger] fixture.proof_hex@[i]@, 32)
}

/// Whether `witness` is the witness that `fixture` describes.
pub open spec fn witness_matches_fixture(witness: StateWitness, fixture: WitnessFixture) -> bool {
    &&& key_matches_input(witness.key, fixture.key)
    &&& witness.leaf_value@ == hex_bytes(fixture.leaf_value_hex@)
    &&& witness.proof@.len() == fixture.proof_hex@.len()
    &&& forall|i: int| 0 <= i < witness.proof@.len() ==> (#[trigger] witness.proof@[i])@ == hex_bytes(
        fixture.proof_hex@[i]@,
    )
}

impl WitnessFixture {
    /// The witness the fixture describes.
    pub fn to_state_witness(&self) -> (witness: StateWitness)
        requires
            witness_fixture_ok(*self),
        ensures
            witness_matches_fixture(witness, *self),
    {
        let mut proof: Vec<[u8; 32]> = Vec::new();
        let mut i: usize = 0;
        while i < self.proof_hex.len()
            invariant
                witness_fixture_ok(*self),
                0 <= i <= self.proof_hex@.len(),
                proof@.len() == i,
                forall|j: int| 0 <= j < i ==> (#[trigger] proof@[j])@ == hex_bytes(self.proof_hex@[j]@),
            decreases self.proof_hex@.len() - i,
        {
            assert(hex_ok_len(self.proof_hex@[i as int]@, 32));
            proof.push(parse_bytes_32(self.proof_hex[i].as_str()));
            i += 1;
        }
        StateWitness {
            key: self.key.to_state_key(),
            leaf_value: parse_hex(self.leaf_value_hex.as_str()),
            proof,
        }
    }
}

/// Whether every fixture of a list is well formed.
pub open spec fn witness_fixtures_ok(fixtures: Seq<WitnessFixture>) -> bool {
    forall|i: int| 0 <= i < fixtures.len() ==> witness_fixture_ok(#[trigger] fixtures[i])
}

/// Whether `witnesses` are the witnesses that `fixtures` describe, in order.
pub open spec fn witnesses_match_fixtures(witnesses: Seq<StateWitness>, fixtures: Seq<WitnessFixture>) -> bool {
    &&& witnesses.len() == fixtures.len()
    &&& forall|i: int| 0 <= i < witnesses.len() ==> witness_matches_fixture(#[trigger] witnesses[i], fixtures[i])
}

/// Whether a materialized leaf fixture is well formed.
pub open spec fn leaf_fixture_ok(leaf: MaterializedLeafFixture) -> bool {
    key_input_ok(leaf.key) && hex_ok(leaf.leaf_value_hex@)
}

/// Whether the vector's single witness, when present, is well formed.
pub open spec fn single_witness_ok(vector: WitnessVector) -> bool {
    vector.input.witness matches Some(w) ==> witness_fixture_ok(w)
}

/// Whether the witnesses the vector's witness set is read from are well
/// formed: its witness list when present, otherwise its single witness.
pub open spec fn witness_set_ok(vector: WitnessVector) -> bool {
    &&& vector.input.witnesses matches Some(list) ==> witness_fixtures_ok(list@)
    &&& vector.input.witnesses is None ==> single_witness_ok(vector)
}

/// Whether every materialized leaf of the vector, when present, is well
/// formed.
pub open spec fn materialized_state_ok(vector: WitnessVector) -> bool {
    vector.input.materialized_state matches Some(leaves) ==> forall|i: int|
        0 <= i < leaves@.len() ==> leaf_fixture_ok(#[trigger] leaves@[i])
}

/// Whether the vector's expected state root, when present, is 32 bytes of
/// hexadecimal text.
pub open spec fn expected_state_root_ok(vector: WitnessVector) -> bool {
    vector.input.expected_state_root matches Some(root) ==> hex_ok_len(root@, 32)
}

fn convert_witnesses(fixtures: &Vec<WitnessFixture>) -> (witnesses: Vec<StateWitness>)
    requires
        witness_fixtures_ok(fixtures@),
    ensures
        witnesses_match_fixtures(witnesses@, fixtures@),
{
    let mut witnesses: Vec<StateWitness> = Vec::new();
    let mut i: usize = 0;
    while i < fixtures.len()
        invariant
            witness_fixtures_ok(fixtures@),
            0 <= i <= fixtures@.len(),
            witnesses@.len() == i,
            forall|j: int| 0 <= j < i ==> witness_matches_fixture(#[trigger] witnesses@[j], fixtures@[j]),
        decreases fixtures@.len() - i,
    {
        assert(witness_fixture_ok(fixtures@[i as int]));
        witnesses.push(fixtures[i].to_state_witness());
        i += 1;
    }
    witnesses
}

impl WitnessVector {
    /// The single witness the vector carries, if any.
    pub fn witness(&self) -> (witness: Option<StateWitness>)
        requires
            single_witness_ok(*self),
        ensures
            witness is Some == self.input.witness is Some,
            witness matches Some(w) ==> witness_matches_fixture(w, self.input.witness.unwrap()),
    {
        match &self.input.witness {
            Some(fixture) => Some(fixture.to_state_witness()),
            None => None,
        }
    }

    /// The witnesses the vector carries: its witness list when present,
    /// otherwise its single witness, otherwise none.
    pub fn witnesses(&self) -> (witnesses: Vec<StateWitness>)
        requires
            witness_set_ok(*self),
        ensures
            self.input.witnesses matches Some(list) ==> witnesses_match_fixtures(witnesses@, list@),
            self.input.witnesses is None ==> (self.input.witness matches Some(w) ==> (
            witnesses@.len() == 1 && witness_matches_fixture(witnesses@[0], w))),
            self.input.witnesses is None && self.input.witness is None ==> witnesses@.len() == 0,
    {
        match &self.input.witnesses {
            Some(list) => convert_witnesses(list),
            None => match self.witness() {
                Some(witness) => {
                    let mut single: Vec<StateWitness> = Vec::new();
                    single.push(witness);
                    single
                },
                None => Vec::new(),
            },
        }
    }

    /// The materialized state the vector carries: each leaf's key and value,
    /// in order (empty when absent).
    pub fn materialized_state(&self) -> (state: Vec<(StateKey, Vec<u8>)>)
        requires
            materialized_state_ok(*self),
        ensures
            self.input.materialized_state is None ==> state@.len() == 0,
            self.input.materialized_state matches Some(leaves) ==> {
                &&& state@.len() == leaves@.len()
                &&& forall|i: int|
                    0 <= i < state@.len() ==> key_matches_input((#[trigger] state@[i]).0, leaves@[i].key)
                        && state@[i].1@ == hex_bytes(leaves@[i].leaf_value_hex@)
            },
    {
        match &self.input.materialized_state {
            None => Vec::new(),
            Some(leaves) => {
                let mut state: Vec<(StateKey, Vec<u8>)> = Vec::new();
                let mut i: usize = 0;
                while i < leaves.len()
                    invariant
                        forall|j: int| 0 <= j < leaves@.len() ==> leaf_fixture_ok(#[trigger] leaves@[j]),
                        0 <= i <= leaves@.len(),
                        state@.len() == i,
                        forall|j: int|
                            0 <= j < i ==> key_matches_input((#[trigger] state@[j]).0, leaves@[j].key)
                                && state@[j].1@ == hex_bytes(leaves@[j].leaf_value_hex@),
                    decreases leaves@.len() - i,
                {
                    assert(leaf_fixture_ok(leaves@[i as int]));
                    let leaf = &leaves[i];
                    state.push((leaf.key.to_state_key(), parse_hex(leaf.leaf_value_hex.as_str())));
                    i += 1;
                }
                state
            },
        }
    }

    /// The state root the vector expects, if it names one.
    pub fn expected_state_root(&self) -> (root: Option<Root>)
        requires
            expected_state_root_ok(*self),
        ensures
            root is Some == self.input.expected_state_root is Some,
            root matches Some(r) ==> r@ == hex_bytes(self.input.expected_state_root.unwrap()@),
    {
        match &self.input.expected_state_root {
            Some(text) => Some(parse_root(text.as_str())),
            None => None,
        }
    }
}

/// The header of a resolved root-check scenario.
#[derive(Debug, Clone, PartialEq, Eq)]
pub struct RootCheckScenarioHeader {
    pub block_root: Root,
    pub block_number: u64,
    pub timestamp: u64,
    pub proposer_index: u64,
    pub parent_root: Root,
    pub transactions_root: Root,
    pub execution_witnesses_root: Root,
    pub state_root: Root,
    pub receipts_root: Root,
    pub witness_bytes: u64,
    pub proposer_signature: Vec<u8>,
}

/// The sidecar of a resolved root-check scenario.
#[derive(Debug, Clone, Copy, PartialEq, Eq)]
pub struct RootCheckScenarioSidecar {
    pub block_root: Root,
}

/// One resolved execution step: the transaction it belongs to, the key it
/// writes, the new leaf value and the receipt.
#[derive(Debug, Clone, PartialEq, Eq)]
pub struct RootCheckStep {
    pub transaction_root: Root,
    pub key: StateKey,
    pub new_leaf_value: Vec<u8>,
    pub receipt_status_code: u8,
    pub receipt_output: Vec<u8>,
}

/// A root-check vector with its transaction and witness vectors resolved.
#[derive(Debug, Clone, PartialEq, Eq)]
pub struct RootCheckScenario {
    pub header: RootCheckScenarioHeader,
    pub transactions: Vec<TransactionEnvelope>,
    pub sidecar: RootCheckScenarioSidecar,
    pub witnesses: Vec<StateWitness>,
    pub steps: Vec<RootCheckStep>,
    pub pre_state_root: Root,
    pub materialized_state: Vec<(StateKey, Vec<u8>)>,
}

} // verus!
