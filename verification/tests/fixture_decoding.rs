use shell_chain::fixture_vectors::{
    FeeInput, MaterializedLeafFixture, PayloadRootMode, RootMode, StateKeyInput,
    TransactionPayloadInput, TransactionVector, TransactionVectorInput, WitnessFixture,
    WitnessInput, WitnessVector,
};
use shell_chain::fixtures::{parse_address, parse_root};
use shell_chain::hex::parse_hex;
use shell_chain::state_key::{encode_state_key, StateKey};
use shell_chain::transactions::TransactionPayload;

fn hex32(byte: u8) -> String {
    format!("0x{}", format!("{byte:02x}").repeat(32))
}

#[test]
fn hex_text_decodes_in_either_case() {
    assert_eq!(parse_hex("0x"), Vec::<u8>::new());
    assert_eq!(parse_hex("0x00ff10aB"), vec![0x00, 0xFF, 0x10, 0xAB]);
    assert_eq!(parse_root(&hex32(0x7e)), [0x7E; 32]);
    assert_eq!(
        parse_address("0x0102030405060708090a0b0c0d0e0f1011121314"),
        [1, 2, 3, 4, 5, 6, 7, 8, 9, 10, 11, 12, 13, 14, 15, 16, 17, 18, 19, 20]
    );
}

#[test]
fn hex_pairs_may_carry_a_plus_sign() {
    assert_eq!(parse_hex("0x+f0a"), vec![0x0F, 0x0A]);
    assert_eq!(parse_hex("0x+0+9"), vec![0x00, 0x09]);
}

#[test]
fn root_modes_flip_the_first_byte() {
    let root = [0x10; 32];
    assert_eq!(PayloadRootMode::Canonical.apply(root), root);
    let mut payload_flipped = root;
    payload_flipped[0] = 0xEF;
    assert_eq!(PayloadRootMode::FlipFirstByte.apply(root), payload_flipped);
    let mut low_bit = root;
    low_bit[0] = 0x11;
    assert_eq!(RootMode::FlipFirstByte.apply(root), low_bit);
    assert_eq!(RootMode::Canonical.apply(root), root);
    assert_eq!(
        RootMode::FlipFirstByte.apply(RootMode::FlipFirstByte.apply(root)),
        root
    );
}

fn fees() -> FeeInput {
    FeeInput {
        regular: hex32(0x01),
        max_priority_fee_per_gas: hex32(0x02),
        max_witness_priority_fee: hex32(0x03),
    }
}

fn vector(payload: TransactionPayloadInput) -> TransactionVector {
    TransactionVector {
        id: "transaction-basic-001".to_string(),
        category: "transaction".to_string(),
        description: "basic payload".to_string(),
        input: TransactionVectorInput {
            payload: Some(payload),
            wire_hex: None,
        },
        expected_outcome: "accept".to_string(),
        expected_error: None,
        owned_by: "shell-primitives".to_string(),
        notes: None,
        payload_tag: Some(0),
        payload_root: None,
        authorization_count: Some(0),
    }
}

#[test]
fn transaction_vectors_build_their_payloads() {
    let basic = vector(TransactionPayloadInput::Basic {
        chain_id: hex32(0x00),
        nonce: 4,
        gas_limit: 21_000,
        fees: fees(),
        to: "0x1111111111111111111111111111111111111111".to_string(),
        value: hex32(0x09),
        input_hex: "0xdeadbeef".to_string(),
        access_commitment: hex32(0x0c),
    });
    let envelope = basic.envelope();
    assert!(envelope.authorizations.is_empty());
    match basic.payload().payload() {
        TransactionPayload::Basic(payload) => {
            assert_eq!(payload.nonce, 4);
            assert_eq!(payload.gas_limit, 21_000);
            assert_eq!(payload.to, [0x11; 20]);
            assert_eq!(payload.input, vec![0xDE, 0xAD, 0xBE, 0xEF]);
            assert_eq!(payload.fees.max_priority_fee_per_gas.0 .0, [0x02; 32]);
            assert_eq!(payload.access_commitment, [0x0C; 32]);
        }
        other => panic!("expected a basic payload, got {other:?}"),
    }

    let create = vector(TransactionPayloadInput::Create {
        chain_id: hex32(0x00),
        nonce: 5,
        gas_limit: 50_000,
        fees: fees(),
        value: hex32(0x00),
        initcode_hex: "0x6000".to_string(),
        access_commitment: hex32(0x0d),
    });
    match create.payload().payload() {
        TransactionPayload::Create(payload) => {
            assert_eq!(payload.nonce, 5);
            assert_eq!(payload.initcode, vec![0x60, 0x00]);
        }
        other => panic!("expected a create payload, got {other:?}"),
    }
    assert_ne!(
        basic.envelope().payload_root().expect("root"),
        create.envelope().payload_root().expect("root")
    );
}

#[test]
fn state_key_inputs_match_their_canonical_encoding() {
    let account = StateKeyInput::AccountHeader {
        address: "0x4242424242424242424242424242424242424242".to_string(),
        canonical_key_hex: Some(format!(
            "0x00{}{}",
            "00".repeat(12),
            "42".repeat(20)
        )),
    };
    let key = account.to_state_key();
    assert_eq!(key, StateKey::AccountHeader([0x42; 20]));
    assert_eq!(
        account.canonical_key_hex().map(parse_hex),
        Some(encode_state_key(&key).into_vec())
    );

    let chunk = StateKeyInput::CodeChunk {
        address: "0x0000000000000000000000000000000000000001".to_string(),
        chunk_index: 0x0102_0304,
        canonical_key_hex: None,
    };
    let chunk_key = chunk.to_state_key();
    assert_eq!(chunk.canonical_key_hex(), None);
    assert_eq!(
        &chunk_key.canonical_sort_key()[33..],
        &[0x01, 0x02, 0x03, 0x04]
    );
}

fn witness_vector(input: WitnessInput) -> WitnessVector {
    WitnessVector {
        id: "witness-001".to_string(),
        category: "witness".to_string(),
        rule: "rule".to_string(),
        description: "description".to_string(),
        input,
        expected_outcome: "accept".to_string(),
        expected_error: None,
        owned_by: "shell-state".to_string(),
        notes: None,
        state_keys: None,
        proof_shape_kind: None,
    }
}

fn raw_key_input(byte: u8) -> StateKeyInput {
    StateKeyInput::RawTreeKey {
        raw_key: hex32(byte),
        canonical_key_hex: None,
    }
}

#[test]
fn witness_vectors_resolve_witnesses_and_state() {
    let single = witness_vector(WitnessInput {
        ordering_is_canonical: None,
        proof_shape_kind: None,
        expected_state_root: Some(hex32(0x99)),
        witnesses: None,
        witness: Some(WitnessFixture {
            key: raw_key_input(0x01),
            leaf_value_hex: "0xaa".to_string(),
            proof_hex: vec![hex32(0x02), hex32(0x03)],
        }),
        materialized_state: Some(vec![MaterializedLeafFixture {
            key: raw_key_input(0x01),
            leaf_value_hex: "0xaa".to_string(),
        }]),
    });
    let witnesses = single.witnesses();
    assert_eq!(witnesses.len(), 1);
    assert_eq!(witnesses[0].key, StateKey::RawTreeKey([0x01; 32]));
    assert_eq!(witnesses[0].leaf_value, vec![0xAA]);
    assert_eq!(witnesses[0].proof, vec![[0x02; 32], [0x03; 32]]);
    assert_eq!(single.witness(), Some(witnesses[0].clone()));
    assert_eq!(single.expected_state_root(), Some([0x99; 32]));
    assert_eq!(
        single.materialized_state(),
        vec![(StateKey::RawTreeKey([0x01; 32]), vec![0xAA])]
    );

    let empty = witness_vector(WitnessInput {
        ordering_is_canonical: Some(true),
        proof_shape_kind: None,
        expected_state_root: None,
        witnesses: Some(vec![]),
        witness: None,
        materialized_state: None,
    });
    assert!(empty.witnesses().is_empty());
    assert!(empty.materialized_state().is_empty());
    assert_eq!(empty.expected_state_root(), None);
}
