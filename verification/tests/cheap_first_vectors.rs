use std::cell::Cell;

use shell_chain::consensus::{
    BlockExecutionEngine, BlockImportConfig, BlockImportPipeline, BlockImportServices,
    CanonicalBlockBody, CanonicalBlockHeader, CanonicalBlockSidecar, ConsensusBody,
    ConsensusError, ConsensusHeader, ConsensusSidecar, HeaderBodyRootMismatchError,
    HeaderPrefilterConfig, SidecarCommitmentMismatchError, TransactionRevalidator,
    WitnessByteLimitExceededError, WitnessPreparer,
};
use shell_chain::crypto::{
    CryptoError, SignatureDispatcher, SignatureVerificationRequest, UnsupportedSchemeError,
    VerificationFailure,
};
use shell_chain::execution::{
    BlockExecutionOutcome, ExecutionError, ExecutionReceipt, TransactionExecutionOutcome,
};
use shell_chain::fixture_vectors::{
    CheapFirstInput, CheapFirstVector, ConsensusBodyInput, ConsensusDispatcherInput,
    ConsensusExecutionInput, ConsensusHeaderInput, ConsensusInput, ConsensusPrefilterInput,
    ConsensusResolverInput, ConsensusSidecarInput, ExpectedEffects, ExpectedError, RootMode,
    SignatureOutcome,
};
use shell_chain::fixtures::parse_root;
use shell_chain::hex::parse_hex;
use shell_chain::mempool::{MultiAuthorizationPolicy, ValidationError};
use shell_chain::primitives::{
    ProposerCredential, ProposerCredentialQuery, ProposerCredentialResolutionError,
    ProposerCredentialResolver,
};
use shell_chain::state::StateError;
use shell_chain::transactions::{
    BasicTransactionPayload, TransactionEnvelope, TransactionPayload, TransactionPayloadSsz,
};

struct CountingResolver {
    calls: Cell<usize>,
    credential: ProposerCredential,
}

impl CountingResolver {
    fn calls(&self) -> usize {
        self.calls.get()
    }
}

impl ProposerCredentialResolver for CountingResolver {
    fn resolve_proposer_credential(
        &self,
        _query: ProposerCredentialQuery,
    ) -> Result<ProposerCredential, ProposerCredentialResolutionError> {
        self.calls.set(self.calls.get() + 1);
        Ok(self.credential.clone())
    }
}

struct CountingDispatcher {
    calls: Cell<usize>,
    outcome: SignatureOutcome,
}

impl CountingDispatcher {
    fn calls(&self) -> usize {
        self.calls.get()
    }
}

impl SignatureDispatcher for CountingDispatcher {
    fn verify_transaction_authorization(
        &self,
        scheme_id: u8,
        _request: &SignatureVerificationRequest<'_>,
    ) -> Result<(), CryptoError> {
        Err(CryptoError::UnsupportedScheme(UnsupportedSchemeError {
            scheme_id,
        }))
    }

    fn verify_validator_message(
        &self,
        scheme_id: u8,
        _request: &SignatureVerificationRequest<'_>,
    ) -> Result<(), CryptoError> {
        self.calls.set(self.calls.get() + 1);
        match self.outcome {
            SignatureOutcome::Accept => Ok(()),
            SignatureOutcome::Reject => Err(CryptoError::VerificationFailed(VerificationFailure {
                scheme_id,
                context: "shared cheap-first consensus fixture rejected the proposer signature",
            })),
        }
    }
}

struct CountingRevalidator {
    calls: Cell<usize>,
}

impl CountingRevalidator {
    fn calls(&self) -> usize {
        self.calls.get()
    }
}

impl TransactionRevalidator for CountingRevalidator {
    fn revalidate(
        &self,
        _transaction: &TransactionEnvelope,
        _multi_authorization_policy: MultiAuthorizationPolicy,
    ) -> Result<(), ValidationError> {
        self.calls.set(self.calls.get() + 1);
        Ok(())
    }
}

struct CountingWitnessPreparer {
    calls: Cell<usize>,
}

impl CountingWitnessPreparer {
    fn calls(&self) -> usize {
        self.calls.get()
    }
}

impl WitnessPreparer for CountingWitnessPreparer {
    fn prepare_witness<H: ConsensusHeader, S: ConsensusSidecar>(
        &self,
        _header: &H,
        _sidecar: &S,
    ) -> Result<(), StateError> {
        self.calls.set(self.calls.get() + 1);
        Ok(())
    }
}

struct FixedExecutionEngine {
    calls: Cell<usize>,
    outcome: BlockExecutionOutcome,
}

impl FixedExecutionEngine {
    fn calls(&self) -> usize {
        self.calls.get()
    }
}

impl BlockExecutionEngine for FixedExecutionEngine {
    fn execute_block<H: ConsensusHeader, B: ConsensusBody, S: ConsensusSidecar>(
        &self,
        _header: &H,
        _body: &B,
        _sidecar: &S,
    ) -> Result<BlockExecutionOutcome, ExecutionError> {
        self.calls.set(self.calls.get() + 1);
        Ok(self.outcome.clone())
    }
}

fn hex_of(byte: u8, count: usize) -> String {
    format!("0x{}", format!("{byte:02x}").repeat(count))
}

struct Modes {
    max_witness_bytes: Option<u64>,
    body_root: RootMode,
    committed_root: RootMode,
    signature: SignatureOutcome,
}

fn consensus_vector(
    id: &str,
    modes: Modes,
    kind: &str,
    expected_outcome: &str,
    expected_effects: ExpectedEffects,
) -> CheapFirstVector {
    CheapFirstVector {
        id: id.to_string(),
        category: "validation-order".to_string(),
        rule: "cheap stateless block checks run before signature, witness and execution work"
            .to_string(),
        description: format!("{id} stops at the first failing stage"),
        input: CheapFirstInput::Consensus(ConsensusInput {
            header: ConsensusHeaderInput {
                block_root: hex_of(0x01, 32),
                transactions_root: hex_of(0x02, 32),
                execution_witnesses_root: hex_of(0x03, 32),
                state_root: hex_of(0x04, 32),
                receipts_root: hex_of(0x05, 32),
                witness_bytes: 128,
                proposer_index: 7,
                proposer_signature_hex: hex_of(0x06, 64),
            },
            body: ConsensusBodyInput {
                transactions_root_mode: modes.body_root,
                transaction_count: 2,
            },
            sidecar: ConsensusSidecarInput {
                block_root_mode: RootMode::Canonical,
                committed_root_mode: modes.committed_root,
            },
            execution: ConsensusExecutionInput {
                post_state_root_mode: RootMode::Canonical,
                receipts_root_mode: RootMode::Canonical,
            },
            prefilter: modes
                .max_witness_bytes
                .map(|max| ConsensusPrefilterInput { max_witness_bytes: Some(max) }),
            resolver: ConsensusResolverInput {
                scheme_id: 0,
                public_key_hex: hex_of(0x44, 32),
            },
            dispatcher: ConsensusDispatcherInput {
                validator_signature: modes.signature,
            },
        }),
        expected_outcome: expected_outcome.to_string(),
        expected_error: ExpectedError {
            kind: kind.to_string(),
            lane: None,
            context: None,
        },
        expected_effects,
        owned_by: "shell-consensus".to_string(),
        notes: None,
    }
}

fn effects(
    resolutions: usize,
    verifications: usize,
    revalidations: usize,
    preparations: usize,
    executions: usize,
) -> ExpectedEffects {
    ExpectedEffects {
        transaction_signature_verifications: None,
        proposer_credential_resolutions: Some(resolutions),
        validator_signature_verifications: Some(verifications),
        transaction_revalidations: Some(revalidations),
        witness_preparations: Some(preparations),
        execution_calls: Some(executions),
    }
}

fn cheap_first_vectors() -> Vec<CheapFirstVector> {
    vec![
        consensus_vector(
            "validation-order-witness-bytes-001",
            Modes {
                max_witness_bytes: Some(64),
                body_root: RootMode::FlipFirstByte,
                committed_root: RootMode::FlipFirstByte,
                signature: SignatureOutcome::Reject,
            },
            "WitnessByteLimitExceeded",
            "policy_reject",
            effects(0, 0, 0, 0, 0),
        ),
        consensus_vector(
            "validation-order-body-root-001",
            Modes {
                max_witness_bytes: None,
                body_root: RootMode::FlipFirstByte,
                committed_root: RootMode::FlipFirstByte,
                signature: SignatureOutcome::Reject,
            },
            "TransactionsRootMismatch",
            "reject",
            effects(0, 0, 0, 0, 0),
        ),
        consensus_vector(
            "validation-order-signature-001",
            Modes {
                max_witness_bytes: Some(4096),
                body_root: RootMode::Canonical,
                committed_root: RootMode::FlipFirstByte,
                signature: SignatureOutcome::Reject,
            },
            "SignatureVerification",
            "reject",
            effects(1, 1, 0, 0, 0),
        ),
        consensus_vector(
            "validation-order-sidecar-001",
            Modes {
                max_witness_bytes: None,
                body_root: RootMode::Canonical,
                committed_root: RootMode::FlipFirstByte,
                signature: SignatureOutcome::Accept,
            },
            "SidecarMismatch",
            "reject",
            effects(1, 1, 2, 0, 0),
        ),
    ]
}

#[test]
fn shared_cheap_first_vectors_cover_consensus_ordering_contract() {
    let mut seen = 0;
    for fixture in cheap_first_vectors() {
        let CheapFirstInput::Consensus(input) = &fixture.input else {
            continue;
        };
        seen += 1;

        assert_eq!(
            fixture.category, "validation-order",
            "{} must declare category 'validation-order'",
            fixture.id
        );
        assert_eq!(
            fixture.owned_by, "shell-consensus",
            "{} must be owned by shell-consensus",
            fixture.id
        );

        assert_rejects_in_stage_order(&fixture, input);
    }

    assert!(
        seen > 0,
        "expected at least one shared cheap-first fixture for shell-consensus"
    );
}

fn assert_rejects_in_stage_order(fixture: &CheapFirstVector, input: &ConsensusInput) {
    let header = build_header(input);
    let body = build_body(input, &header);
    let sidecar = build_sidecar(input, &header);
    let pipeline = BlockImportPipeline::new(BlockImportConfig {
        header_prefilter: HeaderPrefilterConfig {
            max_witness_bytes: input
                .prefilter
                .as_ref()
                .and_then(|prefilter| prefilter.max_witness_bytes),
        },
        multi_authorization_policy: MultiAuthorizationPolicy::RequireAll,
    });
    let resolver = CountingResolver {
        calls: Cell::new(0),
        credential: ProposerCredential {
            scheme_id: input.resolver.scheme_id,
            public_key_material: parse_hex(&input.resolver.public_key_hex),
        },
    };
    let dispatcher = CountingDispatcher {
        calls: Cell::new(0),
        outcome: input.dispatcher.validator_signature,
    };
    let revalidator = CountingRevalidator {
        calls: Cell::new(0),
    };
    let preparer = CountingWitnessPreparer {
        calls: Cell::new(0),
    };
    let engine = FixedExecutionEngine {
        calls: Cell::new(0),
        outcome: build_execution_outcome(input, &header),
    };

    let error = pipeline
        .import_block(
            &header,
            &body,
            &sidecar,
            BlockImportServices {
                resolver: &resolver,
                dispatcher: &dispatcher,
                revalidator: &revalidator,
                preparer: &preparer,
                execution_engine: &engine,
            },
        )
        .expect_err(&format!(
            "{} should reject before a later stage runs",
            fixture.id
        ));

    match fixture.expected_error.kind.as_str() {
        "WitnessByteLimitExceeded" => {
            let ConsensusError::WitnessByteLimitExceeded(actual) = error else {
                panic!(
                    "{} expected WitnessByteLimitExceeded, got {:?}",
                    fixture.id, error
                );
            };
            let max_bytes = input
                .prefilter
                .as_ref()
                .and_then(|prefilter| prefilter.max_witness_bytes)
                .expect("prefilter vectors must declare max_witness_bytes");
            assert_eq!(
                actual,
                WitnessByteLimitExceededError {
                    max_bytes,
                    actual_bytes: header.witness_bytes,
                },
                "{} witness byte guard mismatch",
                fixture.id
            );
            assert_eq!(fixture.expected_outcome, "policy_reject");
        }
        "TransactionsRootMismatch" => {
            let ConsensusError::HeaderBodyRootMismatch(actual) = error else {
                panic!(
                    "{} expected TransactionsRootMismatch, got {:?}",
                    fixture.id, error
                );
            };
            assert_eq!(
                actual,
                HeaderBodyRootMismatchError {
                    expected: header.transactions_root,
                    actual: body.transactions_root,
                },
                "{} body-root mismatch drifted",
                fixture.id
            );
            assert_eq!(fixture.expected_outcome, "reject");
        }
        "SignatureVerification" => {
            assert!(matches!(
                error,
                ConsensusError::Crypto(CryptoError::VerificationFailed(_))
            ));
            assert_eq!(fixture.expected_outcome, "reject");
        }
        "SidecarMismatch" => {
            let ConsensusError::SidecarCommitmentMismatch(actual) = error else {
                panic!("{} expected SidecarMismatch, got {:?}", fixture.id, error);
            };
            assert_eq!(
                actual,
                SidecarCommitmentMismatchError {
                    expected: header.execution_witnesses_root,
                    actual: sidecar.execution_witnesses_root,
                },
                "{} sidecar mismatch drifted",
                fixture.id
            );
            assert_eq!(fixture.expected_outcome, "reject");
        }
        kind => panic!(
            "{} has unsupported expected_error kind {:?}",
            fixture.id, kind
        ),
    }

    assert_optional_effect(
        fixture.expected_effects.proposer_credential_resolutions,
        resolver.calls(),
        fixture,
        "resolver call",
    );
    assert_optional_effect(
        fixture.expected_effects.validator_signature_verifications,
        dispatcher.calls(),
        fixture,
        "validator verification",
    );
    assert_optional_effect(
        fixture.expected_effects.transaction_revalidations,
        revalidator.calls(),
        fixture,
        "transaction revalidation",
    );
    assert_optional_effect(
        fixture.expected_effects.witness_preparations,
        preparer.calls(),
        fixture,
        "witness preparation",
    );
    assert_optional_effect(
        fixture.expected_effects.execution_calls,
        engine.calls(),
        fixture,
        "execution",
    );
}

fn assert_optional_effect(
    expected: Option<usize>,
    actual: usize,
    fixture: &CheapFirstVector,
    label: &str,
) {
    if let Some(expected) = expected {
        assert_eq!(actual, expected, "{} {} count mismatch", fixture.id, label);
    }
}

fn build_header(input: &ConsensusInput) -> CanonicalBlockHeader {
    CanonicalBlockHeader {
        block_root: parse_root(&input.header.block_root),
        block_number: 1,
        timestamp: 1,
        parent_root: [0; 32],
        witness_bytes: input.header.witness_bytes,
        transactions_root: parse_root(&input.header.transactions_root),
        execution_witnesses_root: parse_root(&input.header.execution_witnesses_root),
        state_root: parse_root(&input.header.state_root),
        receipts_root: parse_root(&input.header.receipts_root),
        proposer_signature: parse_hex(&input.header.proposer_signature_hex),
        proposer_index_hint: Some(input.header.proposer_index),
    }
}

fn build_body(input: &ConsensusInput, header: &CanonicalBlockHeader) -> CanonicalBlockBody {
    CanonicalBlockBody {
        transactions_root: input
            .body
            .transactions_root_mode
            .apply(header.transactions_root),
        transactions: (0..input.body.transaction_count)
            .map(|index| sample_transaction(index as u64 + 1))
            .collect(),
    }
}

fn build_sidecar(input: &ConsensusInput, header: &CanonicalBlockHeader) -> CanonicalBlockSidecar {
    CanonicalBlockSidecar {
        block_root: input.sidecar.block_root_mode.apply(header.block_root),
        execution_witnesses_root: input
            .sidecar
            .committed_root_mode
            .apply(header.execution_witnesses_root),
        witnesses: vec![],
    }
}

fn build_execution_outcome(
    input: &ConsensusInput,
    header: &CanonicalBlockHeader,
) -> BlockExecutionOutcome {
    let post_state_root = input
        .execution
        .post_state_root_mode
        .apply(header.state_root);
    let receipts_root = input
        .execution
        .receipts_root_mode
        .apply(header.receipts_root);
    BlockExecutionOutcome {
        post_state_root,
        receipts_root,
        transaction_outcomes: vec![TransactionExecutionOutcome {
            transaction_root: [0x11; 32],
            post_state_root,
            receipt: ExecutionReceipt {
                status_code: 1,
                output: vec![0x22],
            },
        }],
    }
}

fn sample_transaction(nonce: u64) -> TransactionEnvelope {
    TransactionEnvelope {
        payload: TransactionPayloadSsz::new(TransactionPayload::Basic(BasicTransactionPayload {
            nonce,
            gas_limit: 21_000,
            ..Default::default()
        })),
        authorizations: vec![],
    }
}
