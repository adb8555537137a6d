use shell_chain::consensus::{BlockExecutionEngine, CanonicalBlockBody, CanonicalBlockHeader, CanonicalBlockSidecar};
use shell_chain::execution::{
    compute_receipts_root, BlockExecutionOutcome, CommittedExecutionRoots, ExecutionError,
    ExecutionReceipt, PlannedTransaction, PlannedTransactionExecutor, StatelessBlockExecutor,
    TransactionExecutionPlan,
};
use shell_chain::fixtures::{
    compute_execution_witnesses_root, compute_transactions_root, RootCheckScenario,
    RootCheckScenarioHeader, RootCheckScenarioSidecar, RootCheckStep,
};
use shell_chain::consensus::{
    BlockImportConfig, BlockImportOutcome, ConsensusError, ConsensusHeader, ConsensusSidecar,
    HeaderBodyRootMismatchError, TransactionRevalidator, WitnessByteLimitExceededError,
    WitnessPreparer,
};
use shell_chain::crypto::{CryptoError, SignatureDispatcher, SignatureVerificationRequest};
use shell_chain::primitives::{
    ProposerCredential, ProposerCredentialQuery, ProposerCredentialResolutionError,
    ProposerCredentialResolver,
};
use shell_chain::mempool::MultiAuthorizationPolicy;
use shell_chain::crypto::VerificationFailure;
use shell_chain::harness::{
    build_admission_transactions_by_payload_root, check_reference_witnesses,
    find_admission_entry, gossip_authorization_materials, gossip_block_verdict,
    gossip_transaction_verdict, materialize_accumulator, revalidation_entry,
    validate_block_against_reference,
    scenario_admission_entries, validate_scenario_shape, LocalReferenceError,
    LocalReferenceFlowOutcome, LocalReferenceScenario, OwnedAuthorizationMaterial,
    ReferenceExecutionEngine, ReferenceFlow, ScenarioShapeError,
};
use shell_chain::mempool::{
    AuthorizationMaterialCountError, FeeFloorError, FeeLane, ValidationError,
};
use shell_chain::primitives::{DomainError, ValidationOutcome};
use shell_chain::transactions::{Authorization, GasPrice, U256};
use shell_chain::primitives::Root;
use shell_chain::state::{InMemoryAccumulator, ReferenceStateApplier, StateError, StatePatch};
use shell_chain::state_key::{StateKey, StateWitness};
use shell_chain::transactions::{
    BasicTransactionPayload, TransactionEnvelope, TransactionPayload, TransactionPayloadSsz,
};

fn transaction(nonce: u64) -> TransactionEnvelope {
    TransactionEnvelope {
        payload: TransactionPayloadSsz::new(TransactionPayload::Basic(BasicTransactionPayload {
            nonce,
            gas_limit: 21_000 + nonce,
            ..BasicTransactionPayload::default()
        })),
        authorizations: vec![],
    }
}

fn materialized_state() -> Vec<(StateKey, Vec<u8>)> {
    vec![
        (StateKey::RawTreeKey([0x01; 32]), vec![0x10]),
        (StateKey::RawTreeKey([0x05; 32]), vec![0x50]),
    ]
}

struct Resolved {
    scenario: RootCheckScenario,
    state_root: Root,
    receipts_root: Root,
}

fn resolved_scenario() -> Resolved {
    let transactions = vec![transaction(1), transaction(2)];
    let steps: Vec<RootCheckStep> = transactions
        .iter()
        .enumerate()
        .map(|(index, tx)| RootCheckStep {
            transaction_root: tx.canonical_root().expect("canonical root"),
            key: StateKey::RawTreeKey([0x02 + index as u8; 32]),
            new_leaf_value: vec![0xC0 + index as u8],
            receipt_status_code: 1,
            receipt_output: vec![index as u8],
        })
        .collect();
    let pre_state_root = materialize_accumulator(&materialized_state())
        .expect("canonical materialized state")
        .state_root();

    let mut expected_state = materialize_accumulator(&materialized_state()).expect("state");
    let state_root = expected_state
        .apply_transition(&StatePatch {
            accesses: steps.iter().map(|step| step.key).collect(),
            new_values: steps.iter().map(|step| step.new_leaf_value.clone()).collect(),
        })
        .expect("writes apply");
    let receipts: Vec<ExecutionReceipt> = steps
        .iter()
        .map(|step| ExecutionReceipt {
            status_code: step.receipt_status_code,
            output: step.receipt_output.clone(),
        })
        .collect();
    let receipts_root = compute_receipts_root(&receipts);
    let witnesses = vec![StateWitness {
        key: StateKey::RawTreeKey([0x01; 32]),
        leaf_value: vec![0x10],
        proof: vec![[0x44; 32]],
    }];
    let scenario = RootCheckScenario {
        header: RootCheckScenarioHeader {
            block_root: [0x0B; 32],
            block_number: 7,
            timestamp: 1_700_000_000,
            proposer_index: 3,
            parent_root: [0x0A; 32],
            transactions_root: compute_transactions_root(&transactions).expect("root"),
            execution_witnesses_root: compute_execution_witnesses_root(&witnesses),
            state_root,
            receipts_root,
            witness_bytes: 512,
            proposer_signature: vec![0x5A; 64],
        },
        transactions,
        sidecar: RootCheckScenarioSidecar {
            block_root: [0x0B; 32],
        },
        witnesses,
        steps,
        pre_state_root,
        materialized_state: materialized_state(),
    };
    Resolved {
        scenario,
        state_root,
        receipts_root,
    }
}

fn execute_fixture(resolved: &RootCheckScenario) -> BlockExecutionOutcome {
    let executor = StatelessBlockExecutor::new();
    let mut planner = PlannedTransactionExecutor::new(
        resolved
            .steps
            .iter()
            .map(|step| PlannedTransaction {
                transaction_root: step.transaction_root,
                plan: TransactionExecutionPlan {
                    state_patch: StatePatch {
                        accesses: vec![step.key],
                        new_values: vec![step.new_leaf_value.clone()],
                    },
                    receipt: ExecutionReceipt {
                        status_code: step.receipt_status_code,
                        output: step.receipt_output.clone(),
                    },
                },
            })
            .collect(),
    );
    let mut applier = ReferenceStateApplier::new(
        materialize_accumulator(&resolved.materialized_state).expect("root-check execution"),
    );

    let outcome = executor
        .execute_block(
            &resolved.pre_state_root,
            &resolved.transactions,
            &mut planner,
            &mut applier,
        )
        .expect("fixture execution should succeed");
    planner
        .ensure_exhausted()
        .expect("fixture execution must consume every planned step");
    outcome
}

#[test]
fn end_to_end_root_check_vectors_cover_execution_commitments() {
    let resolved = resolved_scenario();
    let outcome = execute_fixture(&resolved.scenario);
    let committed = CommittedExecutionRoots {
        state_root: resolved.scenario.header.state_root,
        receipts_root: resolved.scenario.header.receipts_root,
    };
    outcome
        .ensure_matches(&committed)
        .unwrap_or_else(|err| panic!("matching scenario should accept but got {err:?}"));

    let mut state_mismatch = committed;
    state_mismatch.state_root[0] ^= 0x01;
    assert_eq!(
        outcome.ensure_matches(&state_mismatch),
        Err(ExecutionError::PostStateRootMismatch {
            expected: state_mismatch.state_root,
            actual: resolved.state_root,
        })
    );

    let mut receipts_mismatch = committed;
    receipts_mismatch.receipts_root[0] ^= 0x01;
    assert_eq!(
        outcome.ensure_matches(&receipts_mismatch),
        Err(ExecutionError::ReceiptsRootMismatch {
            expected: receipts_mismatch.receipts_root,
            actual: resolved.receipts_root,
        })
    );
}

#[test]
fn local_scenario_mirrors_the_resolved_root_check() {
    let resolved = resolved_scenario().scenario;
    let local = LocalReferenceScenario::from_root_check_scenario(&resolved);

    assert_eq!(local.block.header.block_root, resolved.header.block_root);
    assert_eq!(local.block.header.proposer_index_hint, Some(3));
    assert_eq!(local.block.body.transactions, resolved.transactions);
    assert_eq!(local.block.sidecar.witnesses, resolved.witnesses);
    assert_eq!(local.planned_transactions.len(), 2);
    assert_eq!(
        local.planned_transactions[1].plan.state_patch.accesses,
        vec![StateKey::RawTreeKey([0x03; 32])]
    );
    for (admitted, resolved_transaction) in local
        .admission_transactions
        .iter()
        .zip(resolved.transactions.iter())
    {
        assert_eq!(admitted.payload, resolved_transaction.payload);
        assert_eq!(admitted.authorizations.len(), 1);
        assert_eq!(admitted.authorizations[0].scheme_id, 0);
        assert_eq!(
            admitted.authorizations[0].payload_root,
            resolved_transaction.payload_root().expect("payload root")
        );
        assert_eq!(admitted.authorizations[0].signature, vec![0xA5; 64]);
    }
    assert_eq!(
        local.transaction_authorization_materials,
        vec![
            vec![OwnedAuthorizationMaterial::reference_default()],
            vec![OwnedAuthorizationMaterial::new(vec![0; 32])]
        ]
    );
    assert_eq!(validate_scenario_shape(&local), Ok(()));
}

#[test]
fn reference_execution_engine_replays_the_planned_flow() {
    let resolved = resolved_scenario().scenario;
    let local = LocalReferenceScenario::from_root_check_scenario(&resolved);
    let engine = ReferenceExecutionEngine {
        pre_state_root: local.pre_state_root,
        materialized_state: &local.materialized_state,
        planned_transactions: &local.planned_transactions,
    };
    let outcome = engine
        .execute_block(&local.block.header, &local.block.body, &local.block.sidecar)
        .expect("planned flow executes");
    assert_eq!(outcome.post_state_root, resolved.header.state_root);
    assert_eq!(outcome.receipts_root, resolved.header.receipts_root);

    let wrong_pre_state = ReferenceExecutionEngine {
        pre_state_root: [0xEE; 32],
        ..engine
    };
    let error = wrong_pre_state
        .execute_block(&local.block.header, &local.block.body, &local.block.sidecar)
        .expect_err("pre-state roots must continue");
    assert!(matches!(
        error,
        ExecutionError::StateTransition(StateError::RootContinuityMismatch(_))
    ));

    let fewer_steps = ReferenceExecutionEngine {
        planned_transactions: &local.planned_transactions[..1],
        ..engine
    };
    assert_eq!(
        fewer_steps.execute_block(&local.block.header, &local.block.body, &local.block.sidecar),
        Err(ExecutionError::Executor("missing planned transaction step"))
    );

    let header: &CanonicalBlockHeader = &local.block.header;
    let empty_body = CanonicalBlockBody::default();
    let sidecar: &CanonicalBlockSidecar = &local.block.sidecar;
    assert_eq!(
        engine.execute_block(header, &empty_body, sidecar),
        Err(ExecutionError::Executor("unconsumed planned transaction steps"))
    );
}

#[test]
fn reference_execution_engine_checks_every_planned_step() {
    let resolved = resolved_scenario().scenario;
    let local = LocalReferenceScenario::from_root_check_scenario(&resolved);
    let engine = ReferenceExecutionEngine {
        pre_state_root: local.pre_state_root,
        materialized_state: &local.materialized_state,
        planned_transactions: &local.planned_transactions,
    };
    let header = &local.block.header;
    let sidecar = &local.block.sidecar;

    let first = engine
        .execute_block(header, &local.block.body, sidecar)
        .expect("planned flow executes");
    let second = engine
        .execute_block(header, &local.block.body, sidecar)
        .expect("planned flow executes again");
    assert_eq!(first, second);
    assert_eq!(first.transaction_outcomes.len(), 2);
    for (outcome, planned) in first
        .transaction_outcomes
        .iter()
        .zip(local.planned_transactions.iter())
    {
        assert_eq!(outcome.transaction_root, planned.transaction_root);
        assert_eq!(outcome.receipt, planned.plan.receipt);
    }
    assert_eq!(
        first.transaction_outcomes[1].post_state_root,
        first.post_state_root
    );

    let mut one_transaction = local.block.body.clone();
    one_transaction.transactions.truncate(1);
    assert_eq!(
        engine.execute_block(header, &one_transaction, sidecar),
        Err(ExecutionError::Executor("unconsumed planned transaction steps"))
    );

    let mut reordered = local.block.body.clone();
    reordered.transactions.reverse();
    assert_eq!(
        engine.execute_block(header, &reordered, sidecar),
        Err(ExecutionError::Executor("planned transaction root mismatch"))
    );
}

#[test]
fn scenario_shape_mismatches_fail_in_documented_order() {
    let resolved = resolved_scenario().scenario;
    let base = LocalReferenceScenario::from_root_check_scenario(&resolved);

    let mut admissions = base.clone();
    admissions.admission_transactions.pop();
    assert_eq!(
        validate_scenario_shape(&admissions),
        Err(LocalReferenceError::ScenarioShape(ScenarioShapeError {
            expected: 2,
            actual: 1,
            context: "admission transactions must align one-to-one with block body transactions",
        }))
    );

    let mut planned = base.clone();
    planned.planned_transactions.pop();
    assert_eq!(
        validate_scenario_shape(&planned),
        Err(LocalReferenceError::ScenarioShape(ScenarioShapeError {
            expected: 2,
            actual: 1,
            context: "planned transactions must align one-to-one with block body transactions",
        }))
    );

    let mut materials = base.clone();
    materials.transaction_authorization_materials.push(vec![]);
    assert_eq!(
        validate_scenario_shape(&materials),
        Err(LocalReferenceError::ScenarioShape(ScenarioShapeError {
            expected: 2,
            actual: 3,
            context:
                "authorization material entries must align one-to-one with block body transactions",
        }))
    );
}

#[test]
fn duplicate_admission_payload_roots_are_refused() {
    let resolved = resolved_scenario().scenario;
    let mut scenario = LocalReferenceScenario::from_root_check_scenario(&resolved);
    let entries = build_admission_transactions_by_payload_root(
        &scenario.admission_transactions,
        &scenario.transaction_authorization_materials,
    )
    .expect("distinct payload roots");
    assert_eq!(entries.len(), 2);
    assert_eq!(
        entries[1].payload_root,
        scenario.admission_transactions[1].payload_root().expect("root")
    );

    let duplicate_root = scenario.admission_transactions[0]
        .payload_root()
        .expect("fixture transactions should have canonical payload roots");
    scenario.admission_transactions[1] = scenario.admission_transactions[0].clone();
    assert_eq!(
        build_admission_transactions_by_payload_root(
            &scenario.admission_transactions,
            &scenario.transaction_authorization_materials,
        ),
        Err(LocalReferenceError::DuplicateAdmissionPayloadRoot(duplicate_root))
    );
}

#[test]
fn materialized_state_must_be_canonically_ordered() {
    assert_eq!(
        materialize_accumulator(&[]).expect("empty state").state_root(),
        InMemoryAccumulator::new().state_root()
    );
    let reversed = vec![
        (StateKey::RawTreeKey([0x05; 32]), vec![0x50]),
        (StateKey::RawTreeKey([0x01; 32]), vec![0x10]),
    ];
    assert!(matches!(
        materialize_accumulator(&reversed),
        Err(StateError::NonCanonicalWitnessOrdering(_))
    ));
}

#[test]
fn scenario_admission_entries_check_shape_then_payload_roots() {
    let resolved = resolved_scenario().scenario;
    let base = LocalReferenceScenario::from_root_check_scenario(&resolved);
    let entries = scenario_admission_entries(&base).expect("aligned scenario");
    assert_eq!(entries.len(), 2);
    assert_eq!(
        entries[0].payload_root,
        base.admission_transactions[0].payload_root().expect("root")
    );
    assert_eq!(entries[1].materials, base.transaction_authorization_materials[1]);

    let mut short = base.clone();
    short.planned_transactions.pop();
    assert!(matches!(
        scenario_admission_entries(&short),
        Err(LocalReferenceError::ScenarioShape(ScenarioShapeError { expected: 2, actual: 1, .. }))
    ));

    let mut duplicate = base.clone();
    duplicate.admission_transactions[1] = duplicate.admission_transactions[0].clone();
    assert_eq!(
        scenario_admission_entries(&duplicate),
        Err(LocalReferenceError::DuplicateAdmissionPayloadRoot(
            base.admission_transactions[0].payload_root().expect("root")
        ))
    );
}

#[test]
fn admission_entries_are_found_by_payload_root() {
    let resolved = resolved_scenario().scenario;
    let local = LocalReferenceScenario::from_root_check_scenario(&resolved);
    let entries = scenario_admission_entries(&local).expect("entries");

    let second_root = local.admission_transactions[1].payload_root().expect("root");
    let found = find_admission_entry(&entries, &second_root).expect("present");
    assert_eq!(found.transaction, local.admission_transactions[1]);
    assert!(find_admission_entry(&entries, &[0x99; 32]).is_none());

    let body_transaction = &local.block.body.transactions[0];
    let entry = revalidation_entry(&entries, body_transaction).expect("admitted payload");
    assert_eq!(entry.transaction, local.admission_transactions[0]);
    assert_ne!(entry.transaction, *body_transaction);

    let stranger = transaction(9);
    assert_eq!(
        revalidation_entry(&entries, &stranger).map(|entry| entry.payload_root),
        Err(ValidationError::AuthorizationMaterialCount(
            AuthorizationMaterialCountError { expected: 1, actual: 0 }
        ))
    );
}

#[test]
fn gossip_materials_follow_the_payload_root() {
    let resolved = resolved_scenario().scenario;
    let local = LocalReferenceScenario::from_root_check_scenario(&resolved);
    let entries = scenario_admission_entries(&local).expect("entries");

    let materials = gossip_authorization_materials(&entries, &local.admission_transactions[0])
        .expect("known envelope");
    assert_eq!(materials, &vec![OwnedAuthorizationMaterial::reference_default()]);

    let mut stranger = transaction(11);
    let root = stranger.payload_root().expect("root");
    stranger.authorizations = vec![
        Authorization { scheme_id: 0, payload_root: root, signature: vec![1; 64] },
        Authorization { scheme_id: 0, payload_root: root, signature: vec![2; 64] },
    ];
    assert_eq!(
        gossip_authorization_materials(&entries, &stranger),
        Err(ValidationError::AuthorizationMaterialCount(
            AuthorizationMaterialCountError { expected: 2, actual: 0 }
        ))
    );
}

#[test]
fn gossip_transaction_verdicts_classify_admission_failures() {
    assert_eq!(gossip_transaction_verdict(Ok::<(), ValidationError>(())), Ok(ValidationOutcome::Accept));
    let fee = ValidationError::FeeFloor(FeeFloorError {
        lane: FeeLane::Payload,
        required: GasPrice(U256([0x27; 32])),
        actual: GasPrice(U256([0; 32])),
    });
    assert_eq!(gossip_transaction_verdict::<()>(Err(fee)), Ok(ValidationOutcome::PolicyReject));
    let signature = ValidationError::SignatureVerification(VerificationFailure {
        scheme_id: 0,
        context: "mock dispatcher rejected the transaction authorization",
    });
    assert_eq!(gossip_transaction_verdict::<()>(Err(signature)), Ok(ValidationOutcome::Reject));
    let missing = ValidationError::AuthorizationMaterialCount(AuthorizationMaterialCountError {
        expected: 1,
        actual: 0,
    });
    assert_eq!(gossip_transaction_verdict::<()>(Err(missing)), Err(missing));
}

#[test]
fn gossip_block_verdicts_classify_import_failures() {
    let imported = BlockImportOutcome {
        block_root: [1; 32],
        post_state_root: [2; 32],
        receipts_root: [3; 32],
    };
    assert_eq!(gossip_block_verdict(Ok(imported)), Ok(ValidationOutcome::Accept));
    assert_eq!(
        gossip_block_verdict(Err(ConsensusError::WitnessByteLimitExceeded(
            WitnessByteLimitExceededError { max_bytes: 8, actual_bytes: 9 }
        ))),
        Ok(ValidationOutcome::PolicyReject)
    );
    assert_eq!(
        gossip_block_verdict(Err(ConsensusError::HeaderBodyRootMismatch(
            HeaderBodyRootMismatchError { expected: [4; 32], actual: [5; 32] }
        ))),
        Ok(ValidationOutcome::Reject)
    );
    let domain = ConsensusError::Domain(DomainError::UnsupportedDomain);
    assert_eq!(gossip_block_verdict(Err(domain)), Err(domain));
}

#[test]
fn reference_witnesses_are_checked_before_verification() {
    let resolved = resolved_scenario().scenario;
    let local = LocalReferenceScenario::from_root_check_scenario(&resolved);
    let accumulator = check_reference_witnesses(
        &local.block.header,
        &local.block.sidecar.witnesses,
        &local.materialized_state,
        &local.pre_state_root,
    )
    .expect("matching witnesses and pre-state");
    assert_eq!(accumulator.state_root(), local.pre_state_root);

    let mut other_witnesses = local.block.sidecar.witnesses.clone();
    other_witnesses[0].leaf_value = vec![0x11];
    assert!(matches!(
        check_reference_witnesses(
            &local.block.header,
            &other_witnesses,
            &local.materialized_state,
            &local.pre_state_root,
        ),
        Err(StateError::WitnessVerificationFailed(
            "reference witness set does not match the committed execution_witnesses_root"
        ))
    ));

    match check_reference_witnesses(
        &local.block.header,
        &local.block.sidecar.witnesses,
        &local.materialized_state,
        &[0xEE; 32],
    ) {
        Err(StateError::RootContinuityMismatch(error)) => {
            assert_eq!(error.expected, [0xEE; 32]);
            assert_eq!(error.actual, local.pre_state_root);
        }
        other => panic!("expected a root continuity mismatch, got {other:?}"),
    }
}

#[test]
fn local_reference_errors_wrap_their_sources() {
    let admission = ValidationError::AuthorizationMaterialCount(AuthorizationMaterialCountError {
        expected: 2,
        actual: 1,
    });
    assert_eq!(
        LocalReferenceError::from(admission),
        LocalReferenceError::Admission(admission)
    );
    let import = ConsensusError::Domain(DomainError::UnsupportedDomain);
    let wrapped: LocalReferenceError = import.into();
    assert_eq!(wrapped, LocalReferenceError::Consensus(import));
}

struct AcceptingResolver;

impl ProposerCredentialResolver for AcceptingResolver {
    fn resolve_proposer_credential(
        &self,
        _query: ProposerCredentialQuery,
    ) -> Result<ProposerCredential, ProposerCredentialResolutionError> {
        Ok(ProposerCredential {
            scheme_id: 0,
            public_key_material: vec![0x44; 32],
        })
    }
}

struct AcceptingDispatcher;

impl SignatureDispatcher for AcceptingDispatcher {
    fn verify_transaction_authorization(
        &self,
        _scheme_id: u8,
        _request: &SignatureVerificationRequest<'_>,
    ) -> Result<(), CryptoError> {
        Ok(())
    }

    fn verify_validator_message(
        &self,
        _scheme_id: u8,
        _request: &SignatureVerificationRequest<'_>,
    ) -> Result<(), CryptoError> {
        Ok(())
    }
}

struct AcceptingRevalidator;

impl TransactionRevalidator for AcceptingRevalidator {
    fn revalidate(
        &self,
        _transaction: &TransactionEnvelope,
        _policy: MultiAuthorizationPolicy,
    ) -> Result<(), ValidationError> {
        Ok(())
    }
}

struct CheckingPreparer;

impl WitnessPreparer for CheckingPreparer {
    fn prepare_witness<H: ConsensusHeader, S: ConsensusSidecar>(
        &self,
        _header: &H,
        _sidecar: &S,
    ) -> Result<(), StateError> {
        Ok(())
    }
}

#[test]
fn reference_block_validation_imports_the_planned_flow() {
    let resolved = resolved_scenario().scenario;
    let local = LocalReferenceScenario::from_root_check_scenario(&resolved);
    let (header, body, sidecar) = local.block.split();
    let outcome = validate_block_against_reference(
        BlockImportConfig::default(),
        &local,
        header,
        body,
        sidecar,
        &AcceptingResolver,
        &AcceptingDispatcher,
        &AcceptingRevalidator,
        &CheckingPreparer,
    )
    .expect("the documented flow imports");
    assert_eq!(outcome.block_root, resolved.header.block_root);
    assert_eq!(outcome.post_state_root, resolved.header.state_root);
    assert_eq!(outcome.receipts_root, resolved.header.receipts_root);

    let mut other = local.clone();
    other.pre_state_root = [0xEE; 32];
    assert!(matches!(
        validate_block_against_reference(
            BlockImportConfig::default(),
            &other,
            header,
            body,
            sidecar,
            &AcceptingResolver,
            &AcceptingDispatcher,
            &AcceptingRevalidator,
            &CheckingPreparer,
        ),
        Err(ConsensusError::Execution(ExecutionError::StateTransition(
            StateError::RootContinuityMismatch(_)
        )))
    ));
}

fn drive_reference_flow(
    scenario: &LocalReferenceScenario,
    refuse: Option<usize>,
) -> Result<LocalReferenceFlowOutcome<usize>, LocalReferenceError> {
    let mut flow = ReferenceFlow::start(scenario)?;
    while let Some(index) = flow.next_admission() {
        let verdict = if refuse == Some(index) {
            Err(ValidationError::AuthorizationMaterialCount(
                AuthorizationMaterialCountError { expected: 1, actual: 0 },
            ))
        } else {
            Ok(index)
        };
        flow = flow.record_admission(verdict)?;
    }
    flow.index_admissions(scenario)?;
    flow.import(
        BlockImportConfig::default(),
        scenario,
        &AcceptingResolver,
        &AcceptingDispatcher,
        &AcceptingRevalidator,
        &CheckingPreparer,
    )
}

#[test]
fn reference_flow_admits_every_transaction_then_imports() {
    let resolved = resolved_scenario().scenario;
    let local = LocalReferenceScenario::from_root_check_scenario(&resolved);
    let outcome = drive_reference_flow(&local, None).expect("the documented flow runs");
    assert_eq!(outcome.admissions, vec![0, 1]);
    assert_eq!(outcome.import_outcome.block_root, resolved.header.block_root);
    assert_eq!(outcome.import_outcome.post_state_root, resolved.header.state_root);
    assert_eq!(outcome.import_outcome.receipts_root, resolved.header.receipts_root);
}

#[test]
fn reference_flow_fails_fast_on_shape_and_admission() {
    let resolved = resolved_scenario().scenario;
    let local = LocalReferenceScenario::from_root_check_scenario(&resolved);

    let mut misshapen = local.clone();
    misshapen.planned_transactions.pop();
    assert!(matches!(
        ReferenceFlow::<usize>::start(&misshapen),
        Err(LocalReferenceError::ScenarioShape(ScenarioShapeError { expected: 2, actual: 1, .. }))
    ));

    assert_eq!(
        drive_reference_flow(&local, Some(1)),
        Err(LocalReferenceError::Admission(
            ValidationError::AuthorizationMaterialCount(AuthorizationMaterialCountError {
                expected: 1,
                actual: 0,
            })
        ))
    );

    let mut repeated = local.clone();
    repeated.admission_transactions[1] = repeated.admission_transactions[0].clone();
    let payload_root = repeated.admission_transactions[0]
        .payload_root()
        .expect("payload root");
    assert_eq!(
        drive_reference_flow(&repeated, None),
        Err(LocalReferenceError::DuplicateAdmissionPayloadRoot(payload_root))
    );

    let mut other = local.clone();
    other.pre_state_root = [0xEE; 32];
    assert!(matches!(
        drive_reference_flow(&other, None),
        Err(LocalReferenceError::Consensus(ConsensusError::Execution(
            ExecutionError::StateTransition(StateError::RootContinuityMismatch(_))
        )))
    ));
}
