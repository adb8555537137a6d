use std::cmp::Ordering;

use shell_chain::consensus::{
    CanonicalBlock, CanonicalBlockBody, CanonicalBlockHeader, CanonicalBlockSidecar,
};
use shell_chain::execution::{
    ExecutionReceipt, PlannedTransaction, TransactionExecutionPlan,
};
use shell_chain::key_order::compare_state_keys;
use shell_chain::state::StatePatch;
use shell_chain::state_key::{canonicalize_execution_address, encode_state_key, StateKey};
use shell_chain::transactions::{
    Authorization, BasicTransactionPayload, CreateTransactionPayload, TransactionEnvelope,
    TransactionPayload, TransactionPayloadSsz,
};

fn keys() -> Vec<StateKey> {
    vec![
        StateKey::AccountHeader([0x22; 20]),
        StateKey::StorageSlot { address: [0x11; 20], slot: [0x01; 32] },
        StateKey::StorageSlot { address: [0x11; 20], slot: [0x02; 32] },
        StateKey::CodeChunk { address: [0x11; 20], chunk_index: 0x0102_0304 },
        StateKey::RawTreeKey([0x00; 32]),
        StateKey::Stem([0xFF; 31]),
    ]
}

#[test]
fn state_keys_encode_with_a_tag_and_widened_fields() {
    let wide = canonicalize_execution_address(&[0xAB; 20]);
    assert_eq!(&wide[..12], &[0u8; 12]);
    assert_eq!(&wide[12..], &[0xAB; 20]);

    let chunk = StateKey::CodeChunk { address: [0xAB; 20], chunk_index: 0x0102_0304 };
    let encoded = encode_state_key(&chunk);
    assert_eq!(encoded.as_slice().len(), 37);
    assert_eq!(encoded.as_slice()[0], 2);
    assert_eq!(&encoded.as_slice()[1..33], &wide[..]);
    assert_eq!(&encoded.as_slice()[33..], &[1, 2, 3, 4]);
    assert_eq!(chunk.canonical_sort_key(), encoded.clone().into_vec());

    let stem = encode_state_key(&StateKey::Stem([0x07; 31]));
    assert_eq!(stem.as_slice().len(), 32);
    assert_eq!(stem.as_slice()[0], 4);
}

#[test]
fn state_key_order_is_a_strict_total_order() {
    let keys = keys();
    for (i, left) in keys.iter().enumerate() {
        for (j, right) in keys.iter().enumerate() {
            let order = compare_state_keys(left, right);
            assert_eq!(order, i.cmp(&j), "keys {i} and {j}");
            assert_eq!(compare_state_keys(right, left), order.reverse());
            assert_eq!(order == Ordering::Equal, left == right);
        }
    }
}

fn envelope() -> TransactionEnvelope {
    let payload = TransactionPayloadSsz::new(TransactionPayload::Create(CreateTransactionPayload {
        nonce: 3,
        gas_limit: 90_000,
        initcode: vec![0x60, 0x00],
        ..CreateTransactionPayload::default()
    }));
    let payload_root = TransactionEnvelope { payload: payload.clone(), authorizations: vec![] }
        .payload_root()
        .expect("payload root");
    TransactionEnvelope {
        payload,
        authorizations: vec![Authorization { scheme_id: 0, payload_root, signature: vec![0x11; 64] }],
    }
}

#[test]
fn equal_envelopes_have_equal_roots() {
    let first = envelope();
    let second = first.clone();
    assert_eq!(first.payload_root(), second.payload_root());
    assert_eq!(first.canonical_root(), second.canonical_root());

    let mut resigned = first.clone();
    resigned.authorizations[0].signature[0] ^= 0x01;
    assert_eq!(first.payload_root(), resigned.payload_root());
    assert_ne!(first.canonical_root(), resigned.canonical_root());

    let basic = TransactionPayload::Basic(BasicTransactionPayload::default());
    let other = TransactionEnvelope {
        payload: TransactionPayloadSsz::new(basic),
        authorizations: vec![],
    };
    assert_ne!(first.payload_root(), other.payload_root());
}

#[test]
fn planned_transactions_carry_the_envelope_root() {
    let transaction = envelope();
    let plan = TransactionExecutionPlan {
        state_patch: StatePatch {
            accesses: vec![StateKey::RawTreeKey([0x05; 32])],
            new_values: vec![vec![0x55]],
        },
        receipt: ExecutionReceipt { status_code: 1, output: vec![] },
    };
    let planned = PlannedTransaction::from_transaction(&transaction, plan.clone())
        .expect("envelope roots always exist");
    assert_eq!(planned.transaction_root, transaction.canonical_root().expect("root"));
    assert_eq!(planned.plan, plan);
}

#[test]
fn canonical_blocks_split_into_their_parts() {
    let block = CanonicalBlock {
        header: CanonicalBlockHeader {
            block_root: [0x0C; 32],
            block_number: 2,
            timestamp: 20,
            parent_root: [0x0B; 32],
            witness_bytes: 0,
            transactions_root: [0x0D; 32],
            execution_witnesses_root: [0x0E; 32],
            state_root: [0x0F; 32],
            receipts_root: [0x10; 32],
            proposer_signature: vec![0x01; 64],
            proposer_index_hint: None,
        },
        body: CanonicalBlockBody { transactions_root: [0x0D; 32], transactions: vec![envelope()] },
        sidecar: CanonicalBlockSidecar { block_root: [0x0C; 32], ..CanonicalBlockSidecar::default() },
    };
    let (header, body, sidecar) = block.split();
    assert_eq!(header, &block.header);
    assert_eq!(body.transactions.len(), 1);
    assert_eq!(sidecar.block_root, header.block_root);
}
