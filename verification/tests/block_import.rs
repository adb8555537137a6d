use std::cell::Cell;

use shell_chain::consensus::{
    BlockExecutionEngine, BlockImportConfig, BlockImportPipeline, BlockImportServices,
    CanonicalBlockBody, CanonicalBlockHeader, CanonicalBlockSidecar, ConsensusBody,
    ConsensusError, ConsensusHeader, ConsensusSidecar, HeaderBodyRootMismatchError,
    HeaderPrefilterConfig, SidecarCommitmentMismatchError, TransactionRevalidator,
    WitnessByteLimitExceededError, WitnessPreparer, proposer_credential_query,
    validator_signature_request, validator_signing_root,
};
use shell_chain::crypto::{
    CryptoError, SignatureDispatcher, SignatureVerificationRequest, UnsupportedSchemeError,
};
use shell_chain::execution::{
    BlockExecutionOutcome, ExecutionError, ExecutionReceipt, TransactionExecutionOutcome,
};
use shell_chain::mempool::{MultiAuthorizationPolicy, ValidationError};
use shell_chain::primitives::{
    build_signing_data, signing_root, DomainSelector, InvalidCredentialEncodingError, ProposerCredential, ProposerCredentialQuery,
    ProposerCredentialResolutionError, ProposerCredentialResolver,
};
use shell_chain::state::StateError;
use shell_chain::transactions::{
    Authorization, BasicTransactionPayload, TransactionEnvelope, TransactionPayload,
    TransactionPayloadSsz,
};

struct CountingResolver {
    calls: Cell<usize>,
    failure: Option<ProposerCredentialResolutionError>,
}

impl CountingResolver {
    fn new() -> Self {
        Self {
            calls: Cell::new(0),
            failure: None,
        }
    }

    fn calls(&self) -> usize {
        self.calls.get()
    }
}

impl ProposerCredentialResolver for CountingResolver {
    fn resolve_proposer_credential(
        &self,
        query: ProposerCredentialQuery,
    ) -> Result<ProposerCredential, ProposerCredentialResolutionError> {
        self.calls.set(self.calls.get() + 1);
        assert_eq!(query.block_root, [0x01; 32]);
        assert_eq!(query.proposer_index_hint, Some(7));
        if let Some(error) = self.failure {
            return Err(error);
        }

        Ok(ProposerCredential {
            scheme_id: 9,
            public_key_material: vec![0x55; 32],
        })
    }
}

struct CountingDispatcher {
    validator_calls: Cell<usize>,
}

impl CountingDispatcher {
    fn new() -> Self {
        Self {
            validator_calls: Cell::new(0),
        }
    }

    fn validator_calls(&self) -> usize {
        self.validator_calls.get()
    }
}

impl SignatureDispatcher for CountingDispatcher {
    fn verify_transaction_authorization(
        &self,
        scheme_id: u8,
        _request: &SignatureVerificationRequest<'_>,
    ) -> Result<(), CryptoError> {
        Err(CryptoError::UnsupportedScheme(UnsupportedSchemeError {
            scheme_id,
        }))
    }

    fn verify_validator_message(
        &self,
        _scheme_id: u8,
        _request: &SignatureVerificationRequest<'_>,
    ) -> Result<(), CryptoError> {
        self.validator_calls.set(self.validator_calls.get() + 1);
        Ok(())
    }
}

struct CountingRevalidator {
    calls: Cell<usize>,
    last_policy: Cell<MultiAuthorizationPolicy>,
}

impl CountingRevalidator {
    fn new() -> Self {
        Self {
            calls: Cell::new(0),
            last_policy: Cell::new(MultiAuthorizationPolicy::RequireAll),
        }
    }

    fn calls(&self) -> usize {
        self.calls.get()
    }

    fn last_policy(&self) -> MultiAuthorizationPolicy {
        self.last_policy.get()
    }
}

impl TransactionRevalidator for CountingRevalidator {
    fn revalidate(
        &self,
        _transaction: &TransactionEnvelope,
        policy: MultiAuthorizationPolicy,
    ) -> Result<(), ValidationError> {
        self.calls.set(self.calls.get() + 1);
        self.last_policy.set(policy);
        Ok(())
    }
}

struct CountingWitnessPreparer {
    calls: Cell<usize>,
}

impl CountingWitnessPreparer {
    fn new() -> Self {
        Self {
            calls: Cell::new(0),
        }
    }

    fn calls(&self) -> usize {
        self.calls.get()
    }
}

impl WitnessPreparer for CountingWitnessPreparer {
    fn prepare_witness<H: ConsensusHeader, S: ConsensusSidecar>(
        &self,
        _header: &H,
        _sidecar: &S,
    ) -> Result<(), StateError> {
        self.calls.set(self.calls.get() + 1);
        Ok(())
    }
}

struct FixedExecutionEngine {
    outcome: BlockExecutionOutcome,
    calls: Cell<usize>,
}

impl FixedExecutionEngine {
    fn new(outcome: BlockExecutionOutcome) -> Self {
        Self {
            outcome,
            calls: Cell::new(0),
        }
    }

    fn calls(&self) -> usize {
        self.calls.get()
    }
}

impl BlockExecutionEngine for FixedExecutionEngine {
    fn execute_block<H: ConsensusHeader, B: ConsensusBody, S: ConsensusSidecar>(
        &self,
        _header: &H,
        _body: &B,
        _sidecar: &S,
    ) -> Result<BlockExecutionOutcome, ExecutionError> {
        self.calls.set(self.calls.get() + 1);
        Ok(self.outcome.clone())
    }
}

struct Services {
    resolver: CountingResolver,
    dispatcher: CountingDispatcher,
    revalidator: CountingRevalidator,
    preparer: CountingWitnessPreparer,
    engine: FixedExecutionEngine,
}

impl Services {
    fn new(execution: BlockExecutionOutcome) -> Self {
        Self {
            resolver: CountingResolver::new(),
            dispatcher: CountingDispatcher::new(),
            revalidator: CountingRevalidator::new(),
            preparer: CountingWitnessPreparer::new(),
            engine: FixedExecutionEngine::new(execution),
        }
    }

    fn borrowed(
        &self,
    ) -> BlockImportServices<
        '_,
        CountingResolver,
        CountingDispatcher,
        CountingRevalidator,
        CountingWitnessPreparer,
        FixedExecutionEngine,
    > {
        BlockImportServices {
            resolver: &self.resolver,
            dispatcher: &self.dispatcher,
            revalidator: &self.revalidator,
            preparer: &self.preparer,
            execution_engine: &self.engine,
        }
    }
}

fn sample_transaction(nonce: u64) -> TransactionEnvelope {
    let payload = TransactionPayloadSsz::new(TransactionPayload::Basic(BasicTransactionPayload {
        nonce,
        gas_limit: 21_000 + nonce,
        ..Default::default()
    }));
    let unsigned = TransactionEnvelope {
        payload: payload.clone(),
        authorizations: vec![],
    };
    let payload_root = unsigned
        .payload_root()
        .expect("payload root should exist for the sample");

    TransactionEnvelope {
        payload,
        authorizations: vec![Authorization {
            scheme_id: 1,
            payload_root,
            signature: vec![0xAB; 64],
        }],
    }
}

fn sample_import_fixture() -> (
    CanonicalBlockHeader,
    CanonicalBlockBody,
    CanonicalBlockSidecar,
    BlockExecutionOutcome,
) {
    let transactions = vec![sample_transaction(1), sample_transaction(2)];
    let header = CanonicalBlockHeader {
        block_root: [0x01; 32],
        block_number: 1,
        timestamp: 1,
        parent_root: [0; 32],
        witness_bytes: 128,
        transactions_root: [0x02; 32],
        execution_witnesses_root: [0x03; 32],
        state_root: [0x04; 32],
        receipts_root: [0x05; 32],
        proposer_signature: vec![0x06; 96],
        proposer_index_hint: Some(7),
    };
    let body = CanonicalBlockBody {
        transactions_root: header.transactions_root,
        transactions,
    };
    let sidecar = CanonicalBlockSidecar {
        block_root: header.block_root,
        execution_witnesses_root: header.execution_witnesses_root,
        witnesses: vec![],
    };
    let execution = BlockExecutionOutcome {
        post_state_root: header.state_root,
        receipts_root: header.receipts_root,
        transaction_outcomes: vec![TransactionExecutionOutcome {
            transaction_root: [0xAA; 32],
            post_state_root: header.state_root,
            receipt: ExecutionReceipt {
                status_code: 1,
                output: vec![0xBB],
            },
        }],
    };

    (header, body, sidecar, execution)
}

#[test]
fn pipeline_runs_block_stages_in_order() {
    let (header, body, sidecar, execution) = sample_import_fixture();
    let pipeline = BlockImportPipeline::new(BlockImportConfig {
        header_prefilter: HeaderPrefilterConfig {
            max_witness_bytes: Some(256),
        },
        multi_authorization_policy: MultiAuthorizationPolicy::RequireAll,
    });
    let services = Services::new(execution);

    let outcome = pipeline
        .import_block(&header, &body, &sidecar, services.borrowed())
        .expect("happy-path import should succeed");

    assert_eq!(outcome.block_root, header.block_root);
    assert_eq!(services.resolver.calls(), 1);
    assert_eq!(services.dispatcher.validator_calls(), 1);
    assert_eq!(services.revalidator.calls(), body.transactions.len());
    assert_eq!(
        services.revalidator.last_policy(),
        MultiAuthorizationPolicy::RequireAll
    );
    assert_eq!(services.preparer.calls(), 1);
    assert_eq!(services.engine.calls(), 1);
}

#[test]
fn prefilter_rejects_oversized_witness_bytes_before_signature_work() {
    let (mut header, body, sidecar, execution) = sample_import_fixture();
    header.witness_bytes = 1024;
    let pipeline = BlockImportPipeline::new(BlockImportConfig {
        header_prefilter: HeaderPrefilterConfig {
            max_witness_bytes: Some(512),
        },
        multi_authorization_policy: MultiAuthorizationPolicy::RequireAll,
    });
    let services = Services::new(execution);

    let error = pipeline
        .import_block(&header, &body, &sidecar, services.borrowed())
        .expect_err("oversized header should fail at B0");

    assert_eq!(
        error,
        ConsensusError::WitnessByteLimitExceeded(WitnessByteLimitExceededError {
            max_bytes: 512,
            actual_bytes: 1024,
        })
    );
    assert_eq!(services.resolver.calls(), 0);
    assert_eq!(services.dispatcher.validator_calls(), 0);
    assert_eq!(services.preparer.calls(), 0);
    assert_eq!(services.engine.calls(), 0);
}

#[test]
fn body_binding_failure_stops_before_signature_verification() {
    let (header, mut body, sidecar, execution) = sample_import_fixture();
    body.transactions_root[0] ^= 0xFF;
    let pipeline = BlockImportPipeline::new(BlockImportConfig::default());
    let services = Services::new(execution);

    let error = pipeline
        .import_block(&header, &body, &sidecar, services.borrowed())
        .expect_err("body-root mismatch should fail at B2");

    assert_eq!(
        error,
        ConsensusError::HeaderBodyRootMismatch(HeaderBodyRootMismatchError {
            expected: header.transactions_root,
            actual: body.transactions_root,
        })
    );
    assert_eq!(services.resolver.calls(), 0);
    assert_eq!(services.dispatcher.validator_calls(), 0);
}

#[test]
fn sidecar_binding_failure_stops_before_execution() {
    let (header, body, mut sidecar, execution) = sample_import_fixture();
    sidecar.execution_witnesses_root[0] ^= 0x01;
    let pipeline = BlockImportPipeline::new(BlockImportConfig::default());
    let services = Services::new(execution);

    let error = pipeline
        .import_block(&header, &body, &sidecar, services.borrowed())
        .expect_err("sidecar-root mismatch should fail at B4");

    assert_eq!(
        error,
        ConsensusError::SidecarCommitmentMismatch(SidecarCommitmentMismatchError {
            expected: header.execution_witnesses_root,
            actual: sidecar.execution_witnesses_root,
        })
    );
    assert_eq!(services.preparer.calls(), 0);
    assert_eq!(services.engine.calls(), 0);
}

#[test]
fn resolver_failures_propagate_before_dispatch() {
    let (header, body, sidecar, execution) = sample_import_fixture();
    let pipeline = BlockImportPipeline::new(BlockImportConfig::default());
    let mut services = Services::new(execution);
    services.resolver = CountingResolver {
        calls: Cell::new(0),
        failure: Some(ProposerCredentialResolutionError::InvalidCredentialEncoding(
            InvalidCredentialEncodingError {
                scheme_id: 9,
                context: "validator public key bytes failed scheme decode",
            },
        )),
    };

    let error = pipeline
        .import_block(&header, &body, &sidecar, services.borrowed())
        .expect_err("invalid proposer credentials should fail before validator dispatch");

    assert_eq!(
        error,
        ConsensusError::ProposerCredentialResolution(
            ProposerCredentialResolutionError::InvalidCredentialEncoding(
                InvalidCredentialEncodingError {
                    scheme_id: 9,
                    context: "validator public key bytes failed scheme decode",
                },
            ),
        )
    );
    assert_eq!(services.resolver.calls(), 1);
    assert_eq!(services.dispatcher.validator_calls(), 0);
    assert_eq!(services.revalidator.calls(), 0);
    assert_eq!(services.preparer.calls(), 0);
    assert_eq!(services.engine.calls(), 0);
}

#[test]
fn execution_root_mismatches_reject_the_block() {
    let (header, body, sidecar, mut execution) = sample_import_fixture();
    execution.receipts_root = [0x77; 32];
    let pipeline = BlockImportPipeline::new(BlockImportConfig::default());
    let services = Services::new(execution);

    let error = pipeline
        .import_block(&header, &body, &sidecar, services.borrowed())
        .expect_err("receipts mismatch should fail at B5");

    assert_eq!(
        error,
        ConsensusError::Execution(ExecutionError::ReceiptsRootMismatch {
            expected: header.receipts_root,
            actual: [0x77; 32],
        })
    );
    assert_eq!(
        error.network_validation_outcome(),
        Some(shell_chain::primitives::ValidationOutcome::Reject)
    );
}

#[test]
fn resolver_unavailability_is_not_a_block_verdict() {
    let error = ConsensusError::ProposerCredentialResolution(
        ProposerCredentialResolutionError::ResolverUnavailable,
    );
    assert_eq!(error.network_validation_outcome(), None);
    let oversized = ConsensusError::WitnessByteLimitExceeded(WitnessByteLimitExceededError {
        max_bytes: 1,
        actual_bytes: 2,
    });
    assert_eq!(
        oversized.network_validation_outcome(),
        Some(shell_chain::primitives::ValidationOutcome::PolicyReject)
    );
}

#[test]
fn signature_check_inputs_follow_the_header() {
    let (header, _, _, _) = sample_import_fixture();
    let query = proposer_credential_query(&header, &[0x09; 32]);
    assert_eq!(query.block_root, [0x09; 32]);
    assert_eq!(query.proposer_index_hint, Some(7));

    let credential = ProposerCredential {
        scheme_id: 4,
        public_key_material: vec![0x31; 48],
    };
    let root = validator_signing_root(&header.block_root).expect("validator signing root");
    let expected = signing_root(
        &build_signing_data(header.block_root, DomainSelector::ValidatorMessage)
            .expect("validator domain"),
    )
    .expect("signing root");
    assert_eq!(root, expected);
    assert_ne!(root, header.block_root);

    let request = validator_signature_request(&header, &credential, root);
    assert_eq!(request.public_key_material, &[0x31; 48][..]);
    assert_eq!(request.signing_root, root);
    assert_eq!(request.signature, &[0x06; 96][..]);
}
