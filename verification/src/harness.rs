//! The local reference scenario: the shape checks and fixture-backed wiring
//! that drive the reference flow from a resolved root-check vector.
//!
//! Admitting transactions is the mempool's service and checking witness
//! proofs the state backend's; neither is held here. `ReferenceFlow` holds
//! the local runtime's decisions, step by step, with admission verdicts
//! handed in by its driver; import takes the services' verdicts through
//! `TransactionRevalidator` and `WitnessPreparer`; and the network adapters'
//! answers are the gossip verdict functions below.

use vstd::prelude::*;

use crate::consensus::{
    import_error_before_execution, import_result, spec_consensus_outcome, BlockExecutionEngine,
    BlockImportConfig, BlockImportOutcome, BlockImportPipeline, BlockImportServices,
    CanonicalBlock, CanonicalBlockBody, CanonicalBlockHeader, CanonicalBlockSidecar, ConsensusBody,
    ConsensusError, ConsensusHeader, ConsensusSidecar, TransactionRevalidator, WitnessPreparer,
};
use crate::crypto::SignatureDispatcher;
use crate::execution::{
    applier_failed, block_ran, copy_plan, executes_block, executor_failed, outcome_receipts,
    planned_step, same_plan, state_root_before, steps_ran, BlockExecutionOutcome, ExecutionError,
    ExecutionReceipt, PlannedTransaction, PlannedTransactionExecutor, StatelessBlockExecutor,
    TransactionExecutionOutcome, TransactionExecutionPlan, MISSING_STEP_CONTEXT,
    ROOT_MISMATCH_CONTEXT, UNCONSUMED_STEPS_CONTEXT,
};
use crate::execution::{lemma_receipts_root_by_views, spec_receipts_root};
use crate::fixtures::{
    compute_execution_witnesses_root, spec_execution_witnesses_root, RootCheckScenario, RootCheckStep,
};
use crate::hashing::copy_bytes;
use crate::mempool::{spec_admission_outcome, AuthorizationMaterialCountError, ValidationError};
use crate::network::{
    is_harmless, lemma_peer_actions_agree_with_classification, peer_action_outcome_class,
    spec_consensus_action, spec_mempool_action, NetworkOrigin,
};
use crate::primitives::{
    roots_equal, PrimitiveError, ProposerCredentialResolver, Root, ValidationOutcome,
    ValidationStage,
};
use crate::state::{
    first_order_violation, keys_strictly_increasing, lemma_first_order_violation_unique,
    reference_transition, spec_apply_writes,
    spec_entries_root, value_views, EntriesView, InMemoryAccumulator, ReferenceStateApplier,
    RootContinuityError, StateError, StatePatch, StateTransitionOutcome, ACCESS_ORDER_CONTEXT,
    PATCH_SHAPE_CONTEXT,
};
use crate::state_key::{copy_witness, same_witness, StateKey, StateWitness};
use crate::transactions::{
    compute_payload_root, copy_envelope, copy_payload, same_envelope, same_payload,
    spec_envelope_root, spec_payload_root, Authorization, TransactionEnvelope,
    TransactionPayloadSsz,
};

verus! {

/// Public key material for one authorization, owned.
#[derive(Debug, Clone, PartialEq, Eq)]
pub struct OwnedAuthorizationMaterial {
    pub public_key_material: Vec<u8>,
}

/// Thirty-two zero bytes: the reference harness's placeholder key.
pub open spec fn reference_key_material() -> Seq<u8> {
    Seq::new(32, |i: int| 0u8)
}

impl OwnedAuthorizationMaterial {
    /// Material holding `public_key_material`.
    pub fn new(public_key_material: Vec<u8>) -> (material: Self)
        ensures
            material.public_key_material == public_key_material,
    {
        OwnedAuthorizationMaterial { public_key_material }
    }

    /// The placeholder material of the reference harness: 32 zero bytes.
    pub fn reference_default() -> (material: Self)
        ensures
            material.public_key_material@ == reference_key_material(),
    {
        let mut bytes: Vec<u8> = Vec::new();
        let mut i: usize = 0;
        while i < 32
            invariant
                0 <= i <= 32,
                bytes@ =~= Seq::new(i as nat, |j: int| 0u8),
            decreases 32 - i,
        {
            bytes.push(0u8);
            i += 1;
        }
        Self::new(bytes)
    }
}

/// A documented local scenario: the block, the transactions to admit, the
/// pre-state and the planned execution.
#[derive(Debug, Clone, PartialEq, Eq)]
pub struct LocalReferenceScenario {
    pub block: CanonicalBlock,
    pub admission_transactions: Vec<TransactionEnvelope>,
    pub pre_state_root: Root,
    pub materialized_state: Vec<(StateKey, Vec<u8>)>,
    pub planned_transactions: Vec<PlannedTransaction>,
    pub transaction_authorization_materials: Vec<Vec<OwnedAuthorizationMaterial>>,
}

/// The signature the reference harness attaches to unauthorized
/// transactions: 64 bytes of `0xA5`.
pub open spec fn reference_signature() -> Seq<u8> {
    Seq::new(64, |i: int| 0xA5u8)
}

/// Whether `admitted` is the admission form of `transaction`: the same
/// envelope when it carries authorizations, otherwise its payload with one
/// scheme-0 reference authorization over its payload root.
pub open spec fn is_reference_admission(admitted: TransactionEnvelope, transaction: TransactionEnvelope) -> bool {
    if transaction.authorizations@.len() > 0 {
        same_envelope(admitted, transaction)
    } else {
        &&& same_payload(admitted.payload.inner, transaction.payload.inner)
        &&& admitted.authorizations@.len() == 1
        &&& admitted.authorizations@[0].scheme_id == 0
        &&& admitted.authorizations@[0].payload_root@ == spec_payload_root(
            transaction.payload.inner,
        )
        &&& admitted.authorizations@[0].signature@ == reference_signature()
    }
}

fn synthesize_reference_admission_transaction(transaction: &TransactionEnvelope) -> (admitted:
    TransactionEnvelope)
    ensures
        is_reference_admission(admitted, *transaction),
{
    if transaction.authorizations.len() > 0 {
        return copy_envelope(transaction);
    }
    let payload_root = compute_payload_root(&transaction.payload.inner);
    let mut signature: Vec<u8> = Vec::new();
    let mut i: usize = 0;
    while i < 64
        invariant
            0 <= i <= 64,
            signature@ =~= Seq::new(i as nat, |j: int| 0xA5u8),
        decreases 64 - i,
    {
        signature.push(0xA5u8);
        i += 1;
    }
    let mut authorizations: Vec<Authorization> = Vec::new();
    authorizations.push(Authorization { scheme_id: 0, payload_root, signature });
    TransactionEnvelope {
        payload: TransactionPayloadSsz::new(copy_payload(&transaction.payload.inner)),
        authorizations,
    }
}

/// Whether `planned` is the plan of a resolved step: the step's transaction
/// root, a single write of the step's key and value, and the step's receipt.
pub open spec fn plans_step(planned: PlannedTransaction, step: RootCheckStep) -> bool {
    &&& planned.transaction_root == step.transaction_root
    &&& planned.plan.state_patch.accesses@ == seq![step.key]
    &&& planned.plan.state_patch.new_values@.len() == 1
    &&& planned.plan.state_patch.new_values@[0]@ == step.new_leaf_value@
    &&& planned.plan.receipt.status_code == step.receipt_status_code
    &&& planned.plan.receipt.output@ == step.receipt_output@
}

fn plan_step(step: &RootCheckStep) -> (planned: PlannedTransaction)
    ensures
        plans_step(planned, *step),
{
    let mut accesses: Vec<StateKey> = Vec::new();
    accesses.push(step.key);
    let mut new_values: Vec<Vec<u8>> = Vec::new();
    new_values.push(copy_bytes(step.new_leaf_value.as_slice()));
    assert(accesses@ =~= seq![step.key]);
    PlannedTransaction {
        transaction_root: step.transaction_root,
        plan: TransactionExecutionPlan {
            state_patch: StatePatch { accesses, new_values },
            receipt: ExecutionReceipt {
                status_code: step.receipt_status_code,
                output: copy_bytes(step.receipt_output.as_slice()),
            },
        },
    }
}

/// Whether `block` is the block a resolved scenario describes.
pub open spec fn block_matches_scenario(block: CanonicalBlock, scenario: RootCheckScenario) -> bool {
    let h = scenario.header;
    &&& block.header.block_root == h.block_root
    &&& block.header.block_number == h.block_number
    &&& block.header.timestamp == h.timestamp
    &&& block.header.parent_root == h.parent_root
    &&& block.header.witness_bytes == h.witness_bytes
    &&& block.header.transactions_root == h.transactions_root
    &&& block.header.execution_witnesses_root == h.execution_witnesses_root
    &&& block.header.state_root == h.state_root
    &&& block.header.receipts_root == h.receipts_root
    &&& block.header.proposer_signature@ == h.proposer_signature@
    &&& block.header.proposer_index_hint == Some(h.proposer_index)
    &&& block.body.transactions_root == h.transactions_root
    &&& block.body.transactions@.len() == scenario.transactions@.len()
    &&& forall|i: int|
        0 <= i < scenario.transactions@.len() ==> same_envelope(
            #[trigger] block.body.transactions@[i],
            scenario.transactions@[i],
        )
    &&& block.sidecar.block_root == scenario.sidecar.block_root
    &&& block.sidecar.execution_witnesses_root == h.execution_witnesses_root
    &&& block.sidecar.witnesses@.len() == scenario.witnesses@.len()
    &&& forall|i: int|
        0 <= i < scenario.witnesses@.len() ==> same_witness(
            #[trigger] block.sidecar.witnesses@[i],
            scenario.witnesses@[i],
        )
}

/// How many reference materials a transaction is admitted with: one per
/// authorization, and one for an unauthorized transaction.
pub open spec fn reference_material_count(transaction: TransactionEnvelope) -> nat {
    if transaction.authorizations@.len() == 0 {
        1
    } else {
        transaction.authorizations@.len()
    }
}

/// Whether `scenario` is the local scenario of a resolved root-check vector.
pub open spec fn is_local_scenario(scenario: LocalReferenceScenario, resolved: RootCheckScenario) -> bool {
    let n = resolved.transactions@.len();
    &&& block_matches_scenario(scenario.block, resolved)
    &&& scenario.pre_state_root == resolved.pre_state_root
    &&& scenario.materialized_state@.len() == resolved.materialized_state@.len()
    &&& forall|i: int|
        0 <= i < resolved.materialized_state@.len() ==> (#[trigger] scenario.materialized_state@[i]).0
            == resolved.materialized_state@[i].0 && scenario.materialized_state@[i].1@
            == resolved.materialized_state@[i].1@
    &&& scenario.planned_transactions@.len() == resolved.steps@.len()
    &&& forall|i: int|
        0 <= i < resolved.steps@.len() ==> plans_step(
            #[trigger] scenario.planned_transactions@[i],
            resolved.steps@[i],
        )
    &&& scenario.admission_transactions@.len() == n
    &&& forall|i: int|
        0 <= i < n ==> is_reference_admission(
            #[trigger] scenario.admission_transactions@[i],
            resolved.transactions@[i],
        )
    &&& scenario.transaction_authorization_materials@.len() == n
    &&& forall|i: int|
        0 <= i < n ==> {
            let materials = (#[trigger] scenario.transaction_authorization_materials@[i])@;
            &&& materials.len() == reference_material_count(resolved.transactions@[i])
            &&& forall|j: int|
                0 <= j < materials.len() ==> (#[trigger] materials[j]).public_key_material@
                    == reference_key_material()
        }
}

fn reference_materials(count: usize) -> (materials: Vec<OwnedAuthorizationMaterial>)
    ensures
        materials@.len() == count,
        forall|j: int|
            0 <= j < count ==> (#[trigger] materials@[j]).public_key_material@
                == reference_key_material(),
{
    let mut materials: Vec<OwnedAuthorizationMaterial> = Vec::new();
    let mut i: usize = 0;
    while i < count
        invariant
            0 <= i <= count,
            materials@.len() == i,
            forall|j: int|
                0 <= j < i ==> (#[trigger] materials@[j]).public_key_material@
                    == reference_key_material(),
        decreases count - i,
    {
        materials.push(OwnedAuthorizationMaterial::reference_default());
        i += 1;
    }
    materials
}

impl LocalReferenceScenario {
    /// The local scenario of a resolved root-check vector: its block, one
    /// planned single-write step per execution step, its transactions in
    /// admission form, and reference key material for every authorization.
    pub fn from_root_check_scenario(scenario: &RootCheckScenario) -> (local: Self)
        ensures
            is_local_scenario(local, *scenario),
    {
        let mut body_transactions: Vec<TransactionEnvelope> = Vec::new();
        let mut admission_transactions: Vec<TransactionEnvelope> = Vec::new();
        let mut transaction_authorization_materials: Vec<Vec<OwnedAuthorizationMaterial>> = Vec::new();
        let n = scenario.transactions.len();
        let mut i: usize = 0;
        while i < n
            invariant
                n == scenario.transactions@.len(),
                0 <= i <= n,
                body_transactions@.len() == i,
                admission_transactions@.len() == i,
                transaction_authorization_materials@.len() == i,
                forall|j: int|
                    0 <= j < i ==> same_envelope(
                        #[trigger] body_transactions@[j],
                        scenario.transactions@[j],
                    ),
                forall|j: int|
                    0 <= j < i ==> is_reference_admission(
                        #[trigger] admission_transactions@[j],
                        scenario.transactions@[j],
                    ),
                forall|j: int|
                    0 <= j < i ==> {
                        let materials = (#[trigger] transaction_authorization_materials@[j])@;
                        &&& materials.len() == reference_material_count(scenario.transactions@[j])
                        &&& forall|k: int|
                            0 <= k < materials.len() ==> (#[trigger] materials[k]).public_key_material@
                                == reference_key_material()
                    },
            decreases n - i,
        {
            let transaction = &scenario.transactions[i];
            body_transactions.push(copy_envelope(transaction));
            admission_transactions.push(synthesize_reference_admission_transaction(transaction));
            let count = if transaction.authorizations.len() == 0 {
                1
            } else {
                transaction.authorizations.len()
            };
            transaction_authorization_materials.push(reference_materials(count));
            i += 1;
        }
        let mut witnesses: Vec<StateWitness> = Vec::new();
        let mut w: usize = 0;
        while w < scenario.witnesses.len()
            invariant
                0 <= w <= scenario.witnesses@.len(),
                witnesses@.len() == w,
                forall|j: int|
                    0 <= j < w ==> same_witness(#[trigger] witnesses@[j], scenario.witnesses@[j]),
            decreases scenario.witnesses@.len() - w,
        {
            witnesses.push(copy_witness(&scenario.witnesses[w]));
            w += 1;
        }
        let mut planned_transactions: Vec<PlannedTransaction> = Vec::new();
        let mut s: usize = 0;
        while s < scenario.steps.len()
            invariant
                0 <= s <= scenario.steps@.len(),
                planned_transactions@.len() == s,
                forall|j: int|
                    0 <= j < s ==> plans_step(#[trigger] planned_transactions@[j], scenario.steps@[j]),
            decreases scenario.steps@.len() - s,
        {
            planned_transactions.push(plan_step(&scenario.steps[s]));
            s += 1;
        }
        let mut materialized_state: Vec<(StateKey, Vec<u8>)> = Vec::new();
        let mut m: usize = 0;
        while m < scenario.materialized_state.len()
            invariant
                0 <= m <= scenario.materialized_state@.len(),
                materialized_state@.len() == m,
                forall|j: int|
                    0 <= j < m ==> (#[trigger] materialized_state@[j]).0
                        == scenario.materialized_state@[j].0 && materialized_state@[j].1@
                        == scenario.materialized_state@[j].1@,
            decreases scenario.materialized_state@.len() - m,
        {
            let entry = &scenario.materialized_state[m];
            materialized_state.push((entry.0, copy_bytes(entry.1.as_slice())));
            m += 1;
        }
        let header = &scenario.header;
        let block = CanonicalBlock {
            header: CanonicalBlockHeader {
                block_root: header.block_root,
                block_number: header.block_number,
                timestamp: header.timestamp,
                parent_root: header.parent_root,
                witness_bytes: header.witness_bytes,
                transactions_root: header.transactions_root,
                execution_witnesses_root: header.execution_witnesses_root,
                state_root: header.state_root,
                receipts_root: header.receipts_root,
                proposer_signature: copy_bytes(header.proposer_signature.as_slice()),
                proposer_index_hint: Some(header.proposer_index),
            },
            body: CanonicalBlockBody {
                transactions: body_transactions,
                transactions_root: header.transactions_root,
            },
            sidecar: CanonicalBlockSidecar {
                block_root: scenario.sidecar.block_root,
                execution_witnesses_root: header.execution_witnesses_root,
                witnesses,
            },
        };
        LocalReferenceScenario {
            block,
            admission_transactions,
            pre_state_root: scenario.pre_state_root,
            materialized_state,
            planned_transactions,
            transaction_authorization_materials,
        }
    }
}

/// A scenario whose parts do not pair up one-to-one with the block body.
#[derive(Debug, Clone, Copy, PartialEq, Eq)]
pub struct ScenarioShapeError {
    pub expected: usize,
    pub actual: usize,
    pub context: &'static str,
}

/// Failures of the local reference flow.
#[derive(Debug, Clone, Copy, PartialEq, Eq)]
pub enum LocalReferenceError {
    ScenarioShape(ScenarioShapeError),
    DuplicateAdmissionPayloadRoot(Root),
    Primitive(PrimitiveError),
    Admission(ValidationError),
    Consensus(ConsensusError),
}

impl From<PrimitiveError> for LocalReferenceError {
    fn from(value: PrimitiveError) -> (error: Self) {
        LocalReferenceError::Primitive(value)
    }
}

impl vstd::std_specs::convert::FromSpecImpl<PrimitiveError> for LocalReferenceError {
    open spec fn obeys_from_spec() -> bool {
        true
    }

    open spec fn from_spec(value: PrimitiveError) -> Self {
        LocalReferenceError::Primitive(value)
    }
}

impl From<ValidationError> for LocalReferenceError {
    fn from(value: ValidationError) -> (error: Self) {
        LocalReferenceError::Admission(value)
    }
}

impl vstd::std_specs::convert::FromSpecImpl<ValidationError> for LocalReferenceError {
    open spec fn obeys_from_spec() -> bool {
        true
    }

    open spec fn from_spec(value: ValidationError) -> Self {
        LocalReferenceError::Admission(value)
    }
}

impl From<ConsensusError> for LocalReferenceError {
    fn from(value: ConsensusError) -> (error: Self) {
        LocalReferenceError::Consensus(value)
    }
}

impl vstd::std_specs::convert::FromSpecImpl<ConsensusError> for LocalReferenceError {
    open spec fn obeys_from_spec() -> bool {
        true
    }

    open spec fn from_spec(value: ConsensusError) -> Self {
        LocalReferenceError::Consensus(value)
    }
}

/// The context of misaligned admission transactions.
pub const ADMISSION_SHAPE_CONTEXT: &'static str = "admission transactions must align one-to-one with block body transactions";

/// The context of misaligned planned transactions.
pub const PLANNED_SHAPE_CONTEXT: &'static str = "planned transactions must align one-to-one with block body transactions";

/// The context of misaligned authorization materials.
pub const MATERIALS_SHAPE_CONTEXT: &'static str = "authorization material entries must align one-to-one with block body transactions";

/// The shape error of a scenario, if any: admission transactions, planned
/// transactions and authorization materials, checked in that order, must
/// each number exactly the block body's transactions.
pub open spec fn scenario_shape_error(scenario: LocalReferenceScenario) -> Option<ScenarioShapeError> {
    let expected = scenario.block.body.transactions@.len();
    if scenario.admission_transactions@.len() != expected {
        Some(
            ScenarioShapeError {
                expected: expected as usize,
                actual: scenario.admission_transactions@.len() as usize,
                context: ADMISSION_SHAPE_CONTEXT,
            },
        )
    } else if scenario.planned_transactions@.len() != expected {
        Some(
            ScenarioShapeError {
                expected: expected as usize,
                actual: scenario.planned_transactions@.len() as usize,
                context: PLANNED_SHAPE_CONTEXT,
            },
        )
    } else if scenario.transaction_authorization_materials@.len() != expected {
        Some(
            ScenarioShapeError {
                expected: expected as usize,
                actual: scenario.transaction_authorization_materials@.len() as usize,
                context: MATERIALS_SHAPE_CONTEXT,
            },
        )
    } else {
        None
    }
}

/// Checks that the scenario's admission transactions, planned transactions
/// and authorization materials align one-to-one with the block body, before
/// any validation work.
pub fn validate_scenario_shape(scenario: &LocalReferenceScenario) -> (result: Result<(), LocalReferenceError>)
    ensures
        scenario_shape_error(*scenario) matches Some(e) ==> result == Err::<(), LocalReferenceError>(
            LocalReferenceError::ScenarioShape(e),
        ),
        scenario_shape_error(*scenario) is None ==> result is Ok,
{
    let transaction_count = scenario.block.body.transactions.len();
    let admission_count = scenario.admission_transactions.len();
    if admission_count != transaction_count {
        return Err(
            LocalReferenceError::ScenarioShape(
                ScenarioShapeError {
                    expected: transaction_count,
                    actual: admission_count,
                    context: ADMISSION_SHAPE_CONTEXT,
                },
            ),
        );
    }
    let planned_count = scenario.planned_transactions.len();
    if planned_count != transaction_count {
        return Err(
            LocalReferenceError::ScenarioShape(
                ScenarioShapeError {
                    expected: transaction_count,
                    actual: planned_count,
                    context: PLANNED_SHAPE_CONTEXT,
                },
            ),
        );
    }
    let materials_count = scenario.transaction_authorization_materials.len();
    if materials_count != transaction_count {
        return Err(
            LocalReferenceError::ScenarioShape(
                ScenarioShapeError {
                    expected: transaction_count,
                    actual: materials_count,
                    context: MATERIALS_SHAPE_CONTEXT,
                },
            ),
        );
    }
    Ok(())
}

/// An admission transaction keyed by its payload root, with its materials.
#[derive(Debug, Clone, PartialEq, Eq)]
pub struct AdmissionEntry {
    pub payload_root: Root,
    pub transaction: TransactionEnvelope,
    pub materials: Vec<OwnedAuthorizationMaterial>,
}

/// Whether two of the first `n` transactions share a payload root.
pub open spec fn has_duplicate_payload_root(transactions: Seq<TransactionEnvelope>, n: int) -> bool {
    exists|i: int, j: int|
        0 <= i < j < n && spec_payload_root(#[trigger] transactions[i].payload.inner)
            == spec_payload_root(#[trigger] transactions[j].payload.inner)
}

/// Whether two material lists hold the same key material.
pub open spec fn same_materials(a: Seq<OwnedAuthorizationMaterial>, b: Seq<OwnedAuthorizationMaterial>) -> bool {
    &&& a.len() == b.len()
    &&& forall|k: int| 0 <= k < a.len() ==> (#[trigger] a[k]).public_key_material@ == b[k].public_key_material@
}

fn copy_materials(materials: &Vec<OwnedAuthorizationMaterial>) -> (copy: Vec<OwnedAuthorizationMaterial>)
    ensures
        same_materials(copy@, materials@),
{
    let mut copy: Vec<OwnedAuthorizationMaterial> = Vec::new();
    let mut i: usize = 0;
    while i < materials.len()
        invariant
            0 <= i <= materials@.len(),
            copy@.len() == i,
            forall|k: int| 0 <= k < i ==> (#[trigger] copy@[k]).public_key_material@ == materials@[k].public_key_material@,
        decreases materials@.len() - i,
    {
        copy.push(OwnedAuthorizationMaterial::new(copy_bytes(materials[i].public_key_material.as_slice())));
        i += 1;
    }
    copy
}

/// Pairs each admission transaction with its materials (as far as both
/// lists go), keyed by payload root. Two transactions with one payload root
/// are refused: the root of the first transaction that repeats an earlier
/// payload root is reported.
pub fn build_admission_transactions_by_payload_root(
    transactions: &[TransactionEnvelope],
    authorization_materials: &[Vec<OwnedAuthorizationMaterial>],
) -> (result: Result<Vec<AdmissionEntry>, LocalReferenceError>)
    ensures
        ({
            let n = if transactions@.len() <= authorization_materials@.len() {
                transactions@.len()
            } else {
                authorization_materials@.len()
            };
            &&& result is Err <==> has_duplicate_payload_root(transactions@, n as int)
            &&& result matches Err(e) ==> (e matches LocalReferenceError::DuplicateAdmissionPayloadRoot(
                root,
            ) && exists|j: int|
                0 <= j < n && #[trigger] spec_payload_root(transactions@[j].payload.inner) == root@
                    && has_duplicate_payload_root(transactions@, j + 1)
                    && !has_duplicate_payload_root(transactions@, j))
            &&& result matches Ok(entries) ==> {
                &&& entries@.len() == n
                &&& forall|i: int|
                    0 <= i < n ==> {
                        &&& (#[trigger] entries@[i]).payload_root@ == spec_payload_root(
                            transactions@[i].payload.inner,
                        )
                        &&& same_envelope(entries@[i].transaction, transactions@[i])
                        &&& same_materials(entries@[i].materials@, authorization_materials@[i]@)
                    }
            }
        }),
{
    let n = if transactions.len() <= authorization_materials.len() {
        transactions.len()
    } else {
        authorization_materials.len()
    };
    let mut entries: Vec<AdmissionEntry> = Vec::new();
    let mut i: usize = 0;
    while i < n
        invariant
            n <= transactions@.len(),
            n <= authorization_materials@.len(),
            0 <= i <= n,
            entries@.len() == i,
            !has_duplicate_payload_root(transactions@, i as int),
            forall|k: int|
                0 <= k < i ==> {
                    &&& (#[trigger] entries@[k]).payload_root@ == spec_payload_root(
                        transactions@[k].payload.inner,
                    )
                    &&& same_envelope(entries@[k].transaction, transactions@[k])
                    &&& same_materials(entries@[k].materials@, authorization_materials@[k]@)
                },
        decreases n - i,
    {
        let payload_root = compute_payload_root(&transactions[i].payload.inner);
        let mut k: usize = 0;
        while k < i
            invariant
                0 <= k <= i,
                i < n,
                n <= transactions@.len(),
                n <= authorization_materials@.len(),
                entries@.len() == i,
                payload_root@ == spec_payload_root(transactions@[i as int].payload.inner),
                !has_duplicate_payload_root(transactions@, i as int),
                forall|m: int|
                    0 <= m < i ==> (#[trigger] entries@[m]).payload_root@ == spec_payload_root(
                        transactions@[m].payload.inner,
                    ),
                forall|m: int| 0 <= m < k ==> (#[trigger] entries@[m]).payload_root@ != payload_root@,
            decreases i - k,
        {
            if roots_equal(&entries[k].payload_root, &payload_root) {
                assert(spec_payload_root(transactions@[k as int].payload.inner)
                    == spec_payload_root(transactions@[i as int].payload.inner));
                assert(has_duplicate_payload_root(transactions@, i + 1));
                proof {
                    assert forall|j: int| #![auto] i < j <= n implies has_duplicate_payload_root(transactions@, j) by {
                        assert(spec_payload_root(transactions@[k as int].payload.inner)
                            == spec_payload_root(transactions@[i as int].payload.inner));
                    }
                }
                return Err(LocalReferenceError::DuplicateAdmissionPayloadRoot(payload_root));
            }
            k += 1;
        }
        proof {
            if has_duplicate_payload_root(transactions@, i + 1) {
                let (a, b) = choose|a: int, b: int|
                    0 <= a < b < i + 1 && spec_payload_root(#[trigger] transactions@[a].payload.inner)
                        == spec_payload_root(#[trigger] transactions@[b].payload.inner);
                if b < i {
                    assert(has_duplicate_payload_root(transactions@, i as int));
                } else {
                    assert(entries@[a].payload_root@ != payload_root@);
                }
            }
        }
        entries.push(
            AdmissionEntry {
                payload_root,
                transaction: copy_envelope(&transactions[i]),
                materials: copy_materials(&authorization_materials[i]),
            },
        );
        i += 1;
    }
    Ok(entries)
}

/// The admission entries of a scenario: its shape is checked first, then its
/// admission transactions are keyed by payload root with their materials.
/// This is the index both gossip adapters and the reference flow build.
pub fn scenario_admission_entries(scenario: &LocalReferenceScenario) -> (result: Result<
    Vec<AdmissionEntry>,
    LocalReferenceError,
>)
    ensures
        scenario_shape_error(*scenario) matches Some(e) ==> result == Err::<
            Vec<AdmissionEntry>,
            LocalReferenceError,
        >(LocalReferenceError::ScenarioShape(e)),
        scenario_shape_error(*scenario) is None ==> {
            let transactions = scenario.admission_transactions@;
            let materials = scenario.transaction_authorization_materials@;
            &&& result is Err <==> has_duplicate_payload_root(transactions, transactions.len() as int)
            &&& result matches Err(e) ==> e is DuplicateAdmissionPayloadRoot
            &&& result matches Ok(entries) ==> {
                &&& entries@.len() == transactions.len()
                &&& forall|i: int|
                    0 <= i < transactions.len() ==> {
                        &&& (#[trigger] entries@[i]).payload_root@ == spec_payload_root(
                            transactions[i].payload.inner,
                        )
                        &&& same_envelope(entries@[i].transaction, transactions[i])
                        &&& same_materials(entries@[i].materials@, materials[i]@)
                    }
            }
        },
{
    validate_scenario_shape(scenario)?;
    build_admission_transactions_by_payload_root(
        scenario.admission_transactions.as_slice(),
        scenario.transaction_authorization_materials.as_slice(),
    )
}

/// Whether some entry is keyed by `payload_root`.
pub open spec fn has_entry_for(entries: Seq<AdmissionEntry>, payload_root: Seq<u8>) -> bool {
    exists|i: int| 0 <= i < entries.len() && (#[trigger] entries[i]).payload_root@ == payload_root
}

/// The first entry keyed by `payload_root`, if any.
pub fn find_admission_entry<'a>(entries: &'a [AdmissionEntry], payload_root: &Root) -> (found:
    Option<&'a AdmissionEntry>)
    ensures
        found is None <==> !has_entry_for(entries@, payload_root@),
        found matches Some(entry) ==> exists|i: int|
            0 <= i < entries@.len() && entries@[i] == *entry && (forall|j: int|
                0 <= j < i ==> (#[trigger] entries@[j]).payload_root@ != payload_root@),
        found matches Some(entry) ==> entry.payload_root@ == payload_root@,
{
    let mut i: usize = 0;
    while i < entries.len()
        invariant
            0 <= i <= entries@.len(),
            forall|j: int| 0 <= j < i ==> (#[trigger] entries@[j]).payload_root@ != payload_root@,
        decreases entries@.len() - i,
    {
        if roots_equal(&entries[i].payload_root, payload_root) {
            return Some(&entries[i]);
        }
        i += 1;
    }
    None
}

/// The admission entry a block transaction is revalidated against: the one
/// under the transaction's payload root. A transaction the scenario never
/// admitted lacks its single authorization material.
pub fn revalidation_entry<'a>(entries: &'a [AdmissionEntry], transaction: &TransactionEnvelope) -> (result:
    Result<&'a AdmissionEntry, ValidationError>)
    ensures
        result is Err <==> !has_entry_for(entries@, spec_payload_root(transaction.payload.inner)),
        result matches Err(e) ==> e == ValidationError::AuthorizationMaterialCount(
            AuthorizationMaterialCountError { expected: 1, actual: 0 },
        ),
        result matches Ok(entry) ==> entry.payload_root@ == spec_payload_root(
            transaction.payload.inner,
        ) && exists|i: int| 0 <= i < entries@.len() && entries@[i] == *entry,
{
    let payload_root = match transaction.payload_root() {
        Ok(root) => root,
        Err(error) => {
            return Err(ValidationError::Primitive(error));
        },
    };
    match find_admission_entry(entries, &payload_root) {
        Some(entry) => Ok(entry),
        None => Err(
            ValidationError::AuthorizationMaterialCount(
                AuthorizationMaterialCountError { expected: 1, actual: 0 },
            ),
        ),
    }
}

/// The authorization materials a gossiped envelope is admitted with: those
/// of the entry under its payload root. An envelope the scenario does not
/// know lacks all of its authorizations' materials.
pub fn gossip_authorization_materials<'a>(
    entries: &'a [AdmissionEntry],
    envelope: &TransactionEnvelope,
) -> (result: Result<&'a Vec<OwnedAuthorizationMaterial>, ValidationError>)
    ensures
        result is Err <==> !has_entry_for(entries@, spec_payload_root(envelope.payload.inner)),
        result matches Err(e) ==> e == ValidationError::AuthorizationMaterialCount(
            AuthorizationMaterialCountError { expected: envelope.authorizations@.len() as usize, actual: 0 },
        ),
        result matches Ok(materials) ==> exists|i: int|
            0 <= i < entries@.len() && entries@[i].materials == *materials
                && entries@[i].payload_root@ == spec_payload_root(envelope.payload.inner),
{
    let payload_root = match envelope.payload_root() {
        Ok(root) => root,
        Err(error) => {
            return Err(ValidationError::Primitive(error));
        },
    };
    match find_admission_entry(entries, &payload_root) {
        Some(entry) => Ok(&entry.materials),
        None => Err(
            ValidationError::AuthorizationMaterialCount(
                AuthorizationMaterialCountError { expected: envelope.authorizations.len(), actual: 0 },
            ),
        ),
    }
}

/// What a gossip adapter answers for an admission attempt.
pub open spec fn spec_gossip_transaction_verdict<T>(admission: Result<T, ValidationError>) -> Result<
    ValidationOutcome,
    ValidationError,
> {
    match admission {
        Ok(_) => Ok(ValidationOutcome::Accept),
        Err(error) => match spec_admission_outcome(error) {
            Some(outcome) => Ok(outcome),
            None => Err(error),
        },
    }
}

/// Turns an admission result into the gossip answer: admission accepts; a
/// failure with a network classification becomes that outcome; an internal
/// failure is handed back.
pub fn gossip_transaction_verdict<T>(admission: Result<T, ValidationError>) -> (verdict: Result<
    ValidationOutcome,
    ValidationError,
>)
    ensures
        verdict == spec_gossip_transaction_verdict(admission),
{
    match admission {
        Ok(_) => Ok(ValidationOutcome::Accept),
        Err(error) => match error.network_validation_outcome() {
            Some(outcome) => Ok(outcome),
            None => Err(error),
        },
    }
}

/// What a gossip adapter answers for a block import attempt.
pub open spec fn spec_gossip_block_verdict(import: Result<BlockImportOutcome, ConsensusError>) -> Result<
    ValidationOutcome,
    ConsensusError,
> {
    match import {
        Ok(_) => Ok(ValidationOutcome::Accept),
        Err(error) => match spec_consensus_outcome(error) {
            Some(outcome) => Ok(outcome),
            None => Err(error),
        },
    }
}

/// Turns a block import result into the gossip answer: import accepts; a
/// failure with a network classification becomes that outcome; an internal
/// failure is handed back.
pub fn gossip_block_verdict(import: Result<BlockImportOutcome, ConsensusError>) -> (verdict: Result<
    ValidationOutcome,
    ConsensusError,
>)
    ensures
        verdict == spec_gossip_block_verdict(import),
{
    match import {
        Ok(_) => Ok(ValidationOutcome::Accept),
        Err(error) => match error.network_validation_outcome() {
            Some(outcome) => Ok(outcome),
            None => Err(error),
        },
    }
}

/// What a gossip adapter answers and what the sending peer is made to bear
/// agree: a failed admission or import that the adapter answers with an
/// outcome meets a peer action of that outcome's class, for every origin; and
/// a failure the adapter hands back as internal costs the peer nothing,
/// except a block whose own primitive layer failed, which still disconnects.
pub proof fn lemma_gossip_verdicts_agree_with_peer_actions(
    origin: NetworkOrigin,
    stage: ValidationStage,
    admission_error: ValidationError,
    import_error: ConsensusError,
)
    ensures
        spec_gossip_transaction_verdict::<()>(Err(admission_error)) matches Ok(outcome)
            ==> peer_action_outcome_class(spec_mempool_action(origin, stage, admission_error))
            == outcome,
        spec_gossip_block_verdict(Err(import_error)) matches Ok(outcome) ==> peer_action_outcome_class(
            spec_consensus_action(origin, import_error),
        ) == outcome,
        spec_gossip_transaction_verdict::<()>(Err(admission_error)) is Err ==> is_harmless(
            spec_mempool_action(origin, stage, admission_error),
        ),
        spec_gossip_block_verdict(Err(import_error)) is Err && !(import_error is Primitive)
            ==> is_harmless(spec_consensus_action(origin, import_error)),
{
    lemma_peer_actions_agree_with_classification(
        origin,
        ValidationOutcome::Accept,
        stage,
        admission_error,
        import_error,
    );
}

/// The keys of materialized state, in order.
pub open spec fn materialized_keys(state: Seq<(StateKey, Vec<u8>)>) -> Seq<StateKey> {
    state.map_values(|entry: (StateKey, Vec<u8>)| entry.0)
}

/// The values of materialized state, in order.
pub open spec fn materialized_values(state: Seq<(StateKey, Vec<u8>)>) -> Seq<Seq<u8>> {
    state.map_values(|entry: (StateKey, Vec<u8>)| entry.1@)
}

/// Builds the accumulator holding `materialized_state`: every value written
/// under its key in one transition, whose keys must be strictly increasing
/// in canonical order. Empty state gives an empty accumulator.
pub fn materialize_accumulator(materialized_state: &[(StateKey, Vec<u8>)]) -> (result: Result<
    InMemoryAccumulator,
    StateError,
>)
    ensures
        result is Ok <==> keys_strictly_increasing(materialized_keys(materialized_state@)),
        result is Err ==> (result matches Err(StateError::NonCanonicalWitnessOrdering(e))
            && first_order_violation(materialized_keys(materialized_state@), e.index) && e.context
            == ACCESS_ORDER_CONTEXT),
        result matches Ok(accumulator) ==> accumulator.entries_view() == spec_apply_writes(
            Seq::empty(),
            materialized_keys(materialized_state@),
            materialized_values(materialized_state@),
            materialized_state@.len(),
        ),
{
    let mut accumulator = InMemoryAccumulator::new();
    let mut accesses: Vec<StateKey> = Vec::new();
    let mut new_values: Vec<Vec<u8>> = Vec::new();
    let mut i: usize = 0;
    while i < materialized_state.len()
        invariant
            0 <= i <= materialized_state@.len(),
            accesses@ =~= materialized_keys(materialized_state@).take(i as int),
            value_views(new_values@) =~= materialized_values(materialized_state@).take(i as int),
        decreases materialized_state@.len() - i,
    {
        accesses.push(materialized_state[i].0);
        let value = copy_bytes(materialized_state[i].1.as_slice());
        let ghost before = new_values@;
        new_values.push(value);
        assert(value_views(new_values@) =~= value_views(before).push(value@));
        assert(materialized_values(materialized_state@).take(i + 1) =~= materialized_values(
            materialized_state@,
        ).take(i as int).push(value@));
        i += 1;
    }
    assert(accesses@ =~= materialized_keys(materialized_state@));
    assert(value_views(new_values@) =~= materialized_values(materialized_state@));
    if materialized_state.len() == 0 {
        return Ok(accumulator);
    }
    match accumulator.apply_transition(&StatePatch { accesses, new_values }) {
        Ok(_) => Ok(accumulator),
        Err(error) => Err(error),
    }
}

/// The failure of a witness set that does not hash to the header's
/// committed execution witnesses root.
pub const WITNESS_SET_MISMATCH: &'static str = "reference witness set does not match the committed execution_witnesses_root";

/// The accumulator `materialized_state` builds, when its keys are in order.
pub open spec fn materialized_entries(materialized_state: Seq<(StateKey, Vec<u8>)>) -> EntriesView {
    spec_apply_writes(
        Seq::empty(),
        materialized_keys(materialized_state),
        materialized_values(materialized_state),
        materialized_state.len(),
    )
}

/// The checks the reference flow makes before it verifies a sidecar's
/// witnesses: the witness set must hash to the header's committed execution
/// witnesses root, and the materialized pre-state must have the scenario's
/// pre-state root. Hands back the accumulator the witnesses are verified
/// against.
pub fn check_reference_witnesses<H: ConsensusHeader>(
    header: &H,
    witnesses: &[StateWitness],
    materialized_state: &[(StateKey, Vec<u8>)],
    pre_state_root: &Root,
) -> (result: Result<InMemoryAccumulator, StateError>)
    ensures
        spec_execution_witnesses_root(witnesses@) != header.spec_execution_witnesses_root()@ ==> result
            == Err::<InMemoryAccumulator, StateError>(
            StateError::WitnessVerificationFailed(WITNESS_SET_MISMATCH),
        ),
        spec_execution_witnesses_root(witnesses@) == header.spec_execution_witnesses_root()@ ==> {
            let entries = materialized_entries(materialized_state@);
            &&& !keys_strictly_increasing(materialized_keys(materialized_state@)) ==> (result matches Err(
                StateError::NonCanonicalWitnessOrdering(_),
            ))
            &&& keys_strictly_increasing(materialized_keys(materialized_state@)) ==> {
                &&& spec_entries_root(entries) != pre_state_root@ ==> (result matches Err(
                    StateError::RootContinuityMismatch(e),
                ) && e.expected == *pre_state_root && e.actual@ == spec_entries_root(entries))
                &&& spec_entries_root(entries) == pre_state_root@ ==> (result matches Ok(accumulator)
                    && accumulator.entries_view() == entries)
            }
        },
{
    let witnesses_root = compute_execution_witnesses_root(witnesses);
    let committed = header.execution_witnesses_root();
    if !roots_equal(&witnesses_root, &committed) {
        return Err(StateError::WitnessVerificationFailed(WITNESS_SET_MISMATCH));
    }
    let accumulator = materialize_accumulator(materialized_state)?;
    let actual = accumulator.state_root();
    if !roots_equal(&actual, pre_state_root) {
        return Err(
            StateError::RootContinuityMismatch(
                RootContinuityError { expected: *pre_state_root, actual },
            ),
        );
    }
    Ok(accumulator)
}

/// Whether a planned step list and a plan list agree step by step.
pub open spec fn same_planned(a: Seq<PlannedTransaction>, b: Seq<PlannedTransaction>) -> bool {
    &&& a.len() == b.len()
    &&& forall|i: int|
        0 <= i < a.len() ==> (#[trigger] a[i]).transaction_root == b[i].transaction_root
            && same_plan(a[i].plan, b[i].plan)
}

fn copy_planned(planned: &[PlannedTransaction]) -> (copy: Vec<PlannedTransaction>)
    ensures
        same_planned(copy@, planned@),
{
    let mut copy: Vec<PlannedTransaction> = Vec::new();
    let mut i: usize = 0;
    while i < planned.len()
        invariant
            0 <= i <= planned@.len(),
            copy@.len() == i,
            forall|k: int|
                0 <= k < i ==> (#[trigger] copy@[k]).transaction_root == planned@[k].transaction_root
                    && same_plan(copy@[k].plan, planned@[k].plan),
        decreases planned@.len() - i,
    {
        copy.push(
            PlannedTransaction {
                transaction_root: planned[i].transaction_root,
                plan: copy_plan(&planned[i].plan),
            },
        );
        i += 1;
    }
    copy
}

/// Whether a patch can be written: its keys pair one-to-one with its values
/// and strictly increase.
pub open spec fn patch_ok(patch: StatePatch) -> bool {
    patch.accesses@.len() == patch.new_values@.len() && keys_strictly_increasing(patch.accesses@)
}

/// The state after the first `k` planned patches are written, in order, on
/// `initial`.
pub open spec fn planned_state(initial: EntriesView, planned: Seq<PlannedTransaction>, k: int) -> EntriesView
    decreases k,
{
    if k <= 0 || k > planned.len() {
        initial
    } else {
        let patch = planned[k - 1].plan.state_patch;
        spec_apply_writes(
            planned_state(initial, planned, k - 1),
            patch.accesses@,
            value_views(patch.new_values@),
            patch.accesses@.len(),
        )
    }
}

/// Whether step `i` of the reference flow runs: a planned step is left for
/// it, transaction `i` has that step's root, and the step's patch can be
/// written.
pub open spec fn reference_step_ok(
    planned: Seq<PlannedTransaction>,
    transactions: Seq<TransactionEnvelope>,
    i: int,
) -> bool {
    &&& i < planned.len()
    &&& spec_envelope_root(transactions[i]) == planned[i].transaction_root@
    &&& patch_ok(planned[i].plan.state_patch)
}

/// Whether the first `k` steps of the reference flow run.
pub open spec fn reference_steps_ok(
    planned: Seq<PlannedTransaction>,
    transactions: Seq<TransactionEnvelope>,
    k: int,
) -> bool {
    forall|i: int| 0 <= i < k ==> #[trigger] reference_step_ok(planned, transactions, i)
}

/// The error of a reference step that does not run: no planned step left,
/// another transaction root than planned, or a patch that cannot be written.
pub open spec fn reference_step_failure(
    planned: Seq<PlannedTransaction>,
    transactions: Seq<TransactionEnvelope>,
    i: int,
    error: ExecutionError,
) -> bool {
    if i >= planned.len() {
        error == ExecutionError::Executor(MISSING_STEP_CONTEXT)
    } else if spec_envelope_root(transactions[i]) != planned[i].transaction_root@ {
        error == ExecutionError::Executor(ROOT_MISMATCH_CONTEXT)
    } else if planned[i].plan.state_patch.accesses@.len() != planned[i].plan.state_patch.new_values@.len() {
        error == ExecutionError::StateTransition(StateError::Backend(PATCH_SHAPE_CONTEXT))
    } else {
        error matches ExecutionError::StateTransition(StateError::NonCanonicalWitnessOrdering(e))
            && first_order_violation(planned[i].plan.state_patch.accesses@, e.index) && e.context
            == ACCESS_ORDER_CONTEXT
    }
}

/// Whether `outcome` is the reference execution of every transaction: one
/// outcome per transaction with its root, the root after its planned patch,
/// and its planned receipt; the last of those roots; and the receipts root.
pub open spec fn reference_outcome(
    initial: EntriesView,
    planned: Seq<PlannedTransaction>,
    transactions: Seq<TransactionEnvelope>,
    outcome: BlockExecutionOutcome,
) -> bool {
    let outcomes = outcome.transaction_outcomes@;
    &&& outcomes.len() == transactions.len()
    &&& forall|i: int|
        0 <= i < transactions.len() ==> {
            &&& (#[trigger] outcomes[i]).transaction_root@ == spec_envelope_root(transactions[i])
            &&& outcomes[i].post_state_root@ == spec_entries_root(planned_state(initial, planned, i + 1))
            &&& outcomes[i].receipt.status_code == planned[i].plan.receipt.status_code
            &&& outcomes[i].receipt.output@ == planned[i].plan.receipt.output@
        }
    &&& outcome.post_state_root@ == spec_entries_root(
        planned_state(initial, planned, transactions.len() as int),
    )
    &&& outcome.receipts_root@ == spec_receipts_root(outcome_receipts(outcomes))
}

/// What the reference flow gives for `transactions`, from a materialized
/// pre-state and planned steps: the materialized state must be in canonical
/// order and have the pre-state root; then every transaction must meet its
/// planned step in order and every planned step must be used. The first step
/// that does not run gives its error; otherwise the outcome is the planned
/// one.
pub open spec fn reference_execution(
    pre_state_root: Root,
    materialized_state: Seq<(StateKey, Vec<u8>)>,
    planned: Seq<PlannedTransaction>,
    transactions: Seq<TransactionEnvelope>,
    result: Result<BlockExecutionOutcome, ExecutionError>,
) -> bool {
    let keys = materialized_keys(materialized_state);
    let initial = materialized_entries(materialized_state);
    if !keys_strictly_increasing(keys) {
        result matches Err(ExecutionError::StateTransition(StateError::NonCanonicalWitnessOrdering(e)))
            && first_order_violation(keys, e.index) && e.context == ACCESS_ORDER_CONTEXT
    } else if spec_entries_root(initial) != pre_state_root@ {
        result matches Err(ExecutionError::StateTransition(StateError::RootContinuityMismatch(e)))
            && e.expected == pre_state_root && e.actual@ == spec_entries_root(initial)
    } else {
        &&& result is Ok <==> (reference_steps_ok(planned, transactions, transactions.len() as int)
            && planned.len() == transactions.len())
        &&& result matches Ok(outcome) ==> reference_outcome(initial, planned, transactions, outcome)
        &&& reference_steps_ok(planned, transactions, transactions.len() as int) && planned.len()
            != transactions.len() ==> result == Err::<BlockExecutionOutcome, ExecutionError>(
            ExecutionError::Executor(UNCONSUMED_STEPS_CONTEXT),
        )
        &&& forall|k: int|
            0 <= k < transactions.len() && reference_steps_ok(planned, transactions, k)
                && !#[trigger] reference_step_ok(planned, transactions, k) ==> (result matches Err(e)
                && reference_step_failure(planned, transactions, k, e))
    }
}

/// Facts at position `i` of a reference run: the planned executor has used
/// `i` steps of its (copied) plan, the applier holds the state after the
/// first `i` planned patches, and the running root is that state's root.
pub open spec fn reference_position(
    pre_state_root: Root,
    initial: EntriesView,
    planned: Seq<PlannedTransaction>,
    executors: Seq<PlannedTransactionExecutor>,
    appliers: Seq<ReferenceStateApplier>,
    outcomes: Seq<TransactionExecutionOutcome>,
    i: int,
) -> bool {
    &&& executors[i].consumed() == i
    &&& executors[i].steps() == executors[0].steps()
    &&& appliers[i].accumulator_view() == planned_state(initial, planned, i)
    &&& state_root_before(pre_state_root, outcomes, i)@ == spec_entries_root(
        planned_state(initial, planned, i),
    )
}

/// Along a run of the block executor with the planned executor and the
/// reference applier, every step that ran is the planned one: position `i`
/// holds for each `i` up to `k`, steps before `k` run, and each step's plan
/// and post-state root are the planned ones.
proof fn lemma_reference_trace(
    pre_state_root: Root,
    initial: EntriesView,
    planned: Seq<PlannedTransaction>,
    transactions: Seq<TransactionEnvelope>,
    executors: Seq<PlannedTransactionExecutor>,
    appliers: Seq<ReferenceStateApplier>,
    plans: Seq<TransactionExecutionPlan>,
    outcomes: Seq<TransactionExecutionOutcome>,
    k: int,
    i: int,
)
    requires
        steps_ran(pre_state_root, transactions, executors, appliers, plans, outcomes, k),
        same_planned(executors[0].steps(), planned),
        executors[0].consumed() == 0,
        appliers[0].accumulator_view() == initial,
        spec_entries_root(initial) == pre_state_root@,
        0 <= i <= k,
    ensures
        reference_position(pre_state_root, initial, planned, executors, appliers, outcomes, i),
        reference_steps_ok(planned, transactions, i),
        forall|j: int|
            0 <= j < i ==> same_plan(#[trigger] plans[j], planned[j].plan) && outcomes[j].post_state_root@
                == spec_entries_root(planned_state(initial, planned, j + 1)),
    decreases i,
{
    if i > 0 {
        let j = i - 1;
        lemma_reference_trace(
            pre_state_root,
            initial,
            planned,
            transactions,
            executors,
            appliers,
            plans,
            outcomes,
            k,
            j,
        );
        let steps = executors[0].steps();
        let root = state_root_before(pre_state_root, outcomes, j);
        assert(planned_step(executors[j], transactions[j], Ok(plans[j]), executors[j + 1])) by {
            assert(plans[j] == plans[j]);
        }
        assert(reference_transition(
            appliers[j],
            root,
            plans[j].state_patch,
            Ok(StateTransitionOutcome { post_state_root: outcomes[j].post_state_root }),
            appliers[j + 1],
        ));
        let plan = plans[j];
        let wanted = planned[j].plan;
        assert(same_plan(steps[j].plan, wanted));
        assert(plan.state_patch.accesses@ == wanted.state_patch.accesses@);
        assert(value_views(plan.state_patch.new_values@) =~= value_views(wanted.state_patch.new_values@));
        assert(reference_step_ok(planned, transactions, j));
        assert forall|m: int| 0 <= m < i implies #[trigger] reference_step_ok(planned, transactions, m) by {
            if m < j {
                assert(reference_steps_ok(planned, transactions, j));
            }
        }
        assert(planned_state(initial, planned, i) == spec_apply_writes(
            planned_state(initial, planned, j),
            wanted.state_patch.accesses@,
            value_views(wanted.state_patch.new_values@),
            wanted.state_patch.accesses@.len(),
        ));
        assert(state_root_before(pre_state_root, outcomes, i) == outcomes[j].post_state_root);
        assert forall|m: int|
            0 <= m < i implies same_plan(#[trigger] plans[m], planned[m].plan)
                && outcomes[m].post_state_root@ == spec_entries_root(planned_state(initial, planned, m + 1)) by {
            if m < j {
                assert(same_plan(plans[m], planned[m].plan));
            } else {
                assert(same_plan(plans[j], steps[j].plan));
            }
        }
    }
}

/// A reference run that stops at step `k` stops at the first step that does
/// not run: no other step is first to fail, and no longer prefix runs.
proof fn lemma_first_failing_step(
    planned: Seq<PlannedTransaction>,
    transactions: Seq<TransactionEnvelope>,
    k: int,
)
    requires
        0 <= k,
        reference_steps_ok(planned, transactions, k),
        !reference_step_ok(planned, transactions, k),
    ensures
        forall|j: int|
            0 <= j && reference_steps_ok(planned, transactions, j) && !#[trigger] reference_step_ok(
                planned,
                transactions,
                j,
            ) ==> j == k,
        forall|m: int| m > k ==> !#[trigger] reference_steps_ok(planned, transactions, m),
{
    assert forall|j: int|
        0 <= j && reference_steps_ok(planned, transactions, j) && !#[trigger] reference_step_ok(
            planned,
            transactions,
            j,
        ) implies j == k by {
        if j < k {
            assert(reference_step_ok(planned, transactions, j));
        } else if j > k {
            assert(reference_step_ok(planned, transactions, k));
        }
    }
    assert forall|m: int| m > k implies !#[trigger] reference_steps_ok(planned, transactions, m) by {
        if reference_steps_ok(planned, transactions, m) {
            assert(reference_step_ok(planned, transactions, k));
        }
    }
}

/// A block run of the planned executor and the reference applier that
/// executed every transaction is the planned run: every step ran, no more
/// steps were used than planned, and the outcome is the planned outcome.
proof fn lemma_reference_completed(
    pre_state_root: Root,
    initial: EntriesView,
    planned: Seq<PlannedTransaction>,
    transactions: Seq<TransactionEnvelope>,
    executors: Seq<PlannedTransactionExecutor>,
    appliers: Seq<ReferenceStateApplier>,
    plans: Seq<TransactionExecutionPlan>,
    outcome: BlockExecutionOutcome,
)
    requires
        steps_ran(
            pre_state_root,
            transactions,
            executors,
            appliers,
            plans,
            outcome.transaction_outcomes@,
            transactions.len() as int,
        ),
        executes_block(pre_state_root, transactions, outcome),
        same_planned(executors[0].steps(), planned),
        executors[0].consumed() == 0,
        appliers[0].accumulator_view() == initial,
        spec_entries_root(initial) == pre_state_root@,
    ensures
        reference_steps_ok(planned, transactions, transactions.len() as int),
        transactions.len() <= planned.len(),
        executors[transactions.len() as int].consumed() == transactions.len(),
        executors[transactions.len() as int].steps().len() == planned.len(),
        reference_outcome(initial, planned, transactions, outcome),
{
    let n = transactions.len() as int;
    let outcomes = outcome.transaction_outcomes@;
    lemma_reference_trace(
        pre_state_root,
        initial,
        planned,
        transactions,
        executors,
        appliers,
        plans,
        outcomes,
        n,
        n,
    );
    if n > 0 {
        assert(reference_step_ok(planned, transactions, n - 1));
    }
    assert forall|i: int| 0 <= i < n implies {
        &&& (#[trigger] outcomes[i]).transaction_root@ == spec_envelope_root(transactions[i])
        &&& outcomes[i].post_state_root@ == spec_entries_root(planned_state(initial, planned, i + 1))
        &&& outcomes[i].receipt.status_code == planned[i].plan.receipt.status_code
        &&& outcomes[i].receipt.output@ == planned[i].plan.receipt.output@
    } by {
        assert(same_plan(plans[i], planned[i].plan));
    }
}

/// A block run of the planned executor and the reference applier that the
/// executor stopped at step `k` stopped at the first reference step that
/// does not run, with that step's error.
proof fn lemma_reference_executor_stopped(
    pre_state_root: Root,
    initial: EntriesView,
    planned: Seq<PlannedTransaction>,
    transactions: Seq<TransactionEnvelope>,
    executors: Seq<PlannedTransactionExecutor>,
    appliers: Seq<ReferenceStateApplier>,
    plans: Seq<TransactionExecutionPlan>,
    outcomes: Seq<TransactionExecutionOutcome>,
    k: int,
    executor_after: PlannedTransactionExecutor,
    error: ExecutionError,
)
    requires
        k < transactions.len(),
        steps_ran(pre_state_root, transactions, executors, appliers, plans, outcomes, k),
        same_planned(executors[0].steps(), planned),
        executors[0].consumed() == 0,
        appliers[0].accumulator_view() == initial,
        spec_entries_root(initial) == pre_state_root@,
        planned_step(executors[k], transactions[k], Err(error), executor_after),
    ensures
        reference_steps_ok(planned, transactions, k),
        !reference_step_ok(planned, transactions, k),
        reference_step_failure(planned, transactions, k, error),
{
    lemma_reference_trace(
        pre_state_root,
        initial,
        planned,
        transactions,
        executors,
        appliers,
        plans,
        outcomes,
        k,
        k,
    );
}

/// A block run of the planned executor and the reference applier that the
/// applier stopped at step `k` stopped at the first reference step that does
/// not run, with that step's error.
proof fn lemma_reference_applier_stopped(
    pre_state_root: Root,
    initial: EntriesView,
    planned: Seq<PlannedTransaction>,
    transactions: Seq<TransactionEnvelope>,
    executors: Seq<PlannedTransactionExecutor>,
    appliers: Seq<ReferenceStateApplier>,
    plans: Seq<TransactionExecutionPlan>,
    outcomes: Seq<TransactionExecutionOutcome>,
    k: int,
    executor_after: PlannedTransactionExecutor,
    applier_after: ReferenceStateApplier,
    plan: TransactionExecutionPlan,
    failure: StateError,
)
    requires
        k < transactions.len(),
        steps_ran(pre_state_root, transactions, executors, appliers, plans, outcomes, k),
        same_planned(executors[0].steps(), planned),
        executors[0].consumed() == 0,
        appliers[0].accumulator_view() == initial,
        spec_entries_root(initial) == pre_state_root@,
        planned_step(executors[k], transactions[k], Ok(plan), executor_after),
        reference_transition(
            appliers[k],
            state_root_before(pre_state_root, outcomes, k),
            plan.state_patch,
            Err(failure),
            applier_after,
        ),
    ensures
        reference_steps_ok(planned, transactions, k),
        !reference_step_ok(planned, transactions, k),
        reference_step_failure(planned, transactions, k, ExecutionError::StateTransition(failure)),
{
    lemma_reference_trace(
        pre_state_root,
        initial,
        planned,
        transactions,
        executors,
        appliers,
        plans,
        outcomes,
        k,
        k,
    );
    let wanted = planned[k].plan;
    assert(same_plan(executors[0].steps()[k].plan, wanted));
    assert(same_plan(plan, executors[0].steps()[k].plan));
    assert(plan.state_patch.accesses@ == wanted.state_patch.accesses@);
    assert(plan.state_patch.new_values@.len() == wanted.state_patch.new_values@.len());
}

/// Some reference step before `n` fails when the first `n` do not all run,
/// and then one is the first to fail.
proof fn lemma_first_failing_step_exists(
    planned: Seq<PlannedTransaction>,
    transactions: Seq<TransactionEnvelope>,
    n: int,
)
    requires
        0 <= n,
        !reference_steps_ok(planned, transactions, n),
    ensures
        exists|k: int|
            0 <= k < n && reference_steps_ok(planned, transactions, k) && !#[trigger] reference_step_ok(
                planned,
                transactions,
                k,
            ),
    decreases n,
{
    if reference_steps_ok(planned, transactions, n - 1) {
        let k = n - 1;
        assert(!reference_step_ok(planned, transactions, k));
    } else {
        lemma_first_failing_step_exists(planned, transactions, n - 1);
    }
}

/// The error of a reference step that does not run is the only one it can
/// have.
proof fn lemma_step_failure_determined(
    planned: Seq<PlannedTransaction>,
    transactions: Seq<TransactionEnvelope>,
    k: int,
    left: ExecutionError,
    right: ExecutionError,
)
    requires
        reference_step_failure(planned, transactions, k, left),
        reference_step_failure(planned, transactions, k, right),
    ensures
        left == right,
{
    if k < planned.len() && spec_envelope_root(transactions[k]) == planned[k].transaction_root@
        && planned[k].plan.state_patch.accesses@.len() == planned[k].plan.state_patch.new_values@.len() {
        let accesses = planned[k].plan.state_patch.accesses@;
        if let (
            ExecutionError::StateTransition(StateError::NonCanonicalWitnessOrdering(a)),
            ExecutionError::StateTransition(StateError::NonCanonicalWitnessOrdering(b)),
        ) = (left, right) {
            lemma_first_order_violation_unique(accesses, a.index, b.index);
        }
    }
}

/// The reference flow is deterministic: two results it can give for the
/// same pre-state, planned steps and transactions are the same error, or
/// outcomes with the same post-state root, the same receipts root, and
/// per-transaction outcomes that agree root for root and receipt for
/// receipt; so a block imports the same either way.
pub proof fn lemma_reference_execution_deterministic<H: ConsensusHeader>(
    header: H,
    pre_state_root: Root,
    materialized_state: Seq<(StateKey, Vec<u8>)>,
    planned: Seq<PlannedTransaction>,
    transactions: Seq<TransactionEnvelope>,
    left: Result<BlockExecutionOutcome, ExecutionError>,
    right: Result<BlockExecutionOutcome, ExecutionError>,
)
    requires
        reference_execution(pre_state_root, materialized_state, planned, transactions, left),
        reference_execution(pre_state_root, materialized_state, planned, transactions, right),
    ensures
        left is Ok <==> right is Ok,
        left is Err ==> left == right,
        left matches Ok(a) ==> right matches Ok(b) && a.post_state_root == b.post_state_root
            && a.receipts_root == b.receipts_root && a.transaction_outcomes@.len()
            == b.transaction_outcomes@.len() && forall|i: int|
            0 <= i < a.transaction_outcomes@.len() ==> {
                let x = #[trigger] a.transaction_outcomes@[i];
                let y = b.transaction_outcomes@[i];
                &&& x.transaction_root == y.transaction_root
                &&& x.post_state_root == y.post_state_root
                &&& x.receipt.status_code == y.receipt.status_code
                &&& x.receipt.output@ == y.receipt.output@
            },
        import_result(header, left) == import_result(header, right),
{
    let keys = materialized_keys(materialized_state);
    let initial = materialized_entries(materialized_state);
    let n = transactions.len() as int;
    if !keys_strictly_increasing(keys) {
        if let (
            Err(ExecutionError::StateTransition(StateError::NonCanonicalWitnessOrdering(a))),
            Err(ExecutionError::StateTransition(StateError::NonCanonicalWitnessOrdering(b))),
        ) = (left, right) {
            lemma_first_order_violation_unique(keys, a.index, b.index);
        }
    } else if spec_entries_root(initial) != pre_state_root@ {
        if let (
            Err(ExecutionError::StateTransition(StateError::RootContinuityMismatch(a))),
            Err(ExecutionError::StateTransition(StateError::RootContinuityMismatch(b))),
        ) = (left, right) {
            assert(a.actual =~= b.actual);
        }
    } else if reference_steps_ok(planned, transactions, n) {
        if let (Ok(a), Ok(b)) = (left, right) {
            let xs = a.transaction_outcomes@;
            let ys = b.transaction_outcomes@;
            assert forall|i: int| 0 <= i < n implies {
                let x = #[trigger] xs[i];
                let y = ys[i];
                &&& x.transaction_root == y.transaction_root
                &&& x.post_state_root == y.post_state_root
                &&& x.receipt.status_code == y.receipt.status_code
                &&& x.receipt.output@ == y.receipt.output@
            } by {
                assert(xs[i].transaction_root =~= ys[i].transaction_root);
                assert(xs[i].post_state_root =~= ys[i].post_state_root);
            }
            assert forall|i: int| 0 <= i < n implies (#[trigger] outcome_receipts(xs)[i]).status_code
                == outcome_receipts(ys)[i].status_code && outcome_receipts(xs)[i].output@
                == outcome_receipts(ys)[i].output@ by {
                assert(xs[i].receipt.status_code == ys[i].receipt.status_code);
            }
            lemma_receipts_root_by_views(outcome_receipts(xs), outcome_receipts(ys));
            assert(a.post_state_root =~= b.post_state_root);
            assert(a.receipts_root =~= b.receipts_root);
        }
    } else {
        lemma_first_failing_step_exists(planned, transactions, n);
        let k = choose|k: int|
            0 <= k < n && reference_steps_ok(planned, transactions, k) && !#[trigger] reference_step_ok(
                planned,
                transactions,
                k,
            );
        if let (Err(a), Err(b)) = (left, right) {
            lemma_step_failure_determined(planned, transactions, k, a, b);
        }
    }
}

/// The result the reference flow gives for `transactions`; any result it
/// can give imports the same (see `lemma_reference_execution_deterministic`).
pub open spec fn reference_engine_result(
    pre_state_root: Root,
    materialized_state: Seq<(StateKey, Vec<u8>)>,
    planned: Seq<PlannedTransaction>,
    transactions: Seq<TransactionEnvelope>,
) -> Result<BlockExecutionOutcome, ExecutionError> {
    choose|result: Result<BlockExecutionOutcome, ExecutionError>|
        reference_execution(pre_state_root, materialized_state, planned, transactions, result)
}

/// Executes blocks against a fixed pre-state and a fixed list of planned
/// steps, the way the reference flow does.
pub struct ReferenceExecutionEngine<'a> {
    pub pre_state_root: Root,
    pub materialized_state: &'a [(StateKey, Vec<u8>)],
    pub planned_transactions: &'a [PlannedTransaction],
}

impl<'a> BlockExecutionEngine for ReferenceExecutionEngine<'a> {
    open spec fn executes(
        &self,
        transactions: Seq<TransactionEnvelope>,
        result: Result<BlockExecutionOutcome, ExecutionError>,
    ) -> bool {
        reference_execution(
            self.pre_state_root,
            self.materialized_state@,
            self.planned_transactions@,
            transactions,
            result,
        )
    }

    /// Materializes the pre-state, checks its root against the engine's
    /// pre-state root, executes the body's transactions with the planned
    /// steps, and requires every step to be consumed.
    fn execute_block<H: ConsensusHeader, B: ConsensusBody, S: ConsensusSidecar>(
        &self,
        header: &H,
        body: &B,
        sidecar: &S,
    ) -> (result: Result<BlockExecutionOutcome, ExecutionError>)
        ensures
            reference_execution(
                self.pre_state_root,
                self.materialized_state@,
                self.planned_transactions@,
                body.spec_transactions(),
                result,
            ),
    {
        let accumulator = match materialize_accumulator(self.materialized_state) {
            Ok(accumulator) => accumulator,
            Err(error) => {
                return Err(ExecutionError::StateTransition(error));
            },
        };
        let actual = accumulator.state_root();
        if !roots_equal(&actual, &self.pre_state_root) {
            return Err(
                ExecutionError::StateTransition(
                    StateError::RootContinuityMismatch(
                        RootContinuityError { expected: self.pre_state_root, actual },
                    ),
                ),
            );
        }
        let ghost initial = accumulator.entries_view();
        let ghost planned = self.planned_transactions@;
        let mut planner = PlannedTransactionExecutor::new(copy_planned(self.planned_transactions));
        let mut applier = ReferenceStateApplier::new(accumulator);
        let ghost planner_before = planner;
        let ghost applier_before = applier;
        let transactions = body.transactions();
        let ghost txs = transactions@;
        let executed = StatelessBlockExecutor::new().execute_block(
            &self.pre_state_root,
            transactions,
            &mut planner,
            &mut applier,
        );
        match executed {
            Ok(outcome) => {
                proof {
                    let (executors, appliers, plans) = choose|
                        executors: Seq<PlannedTransactionExecutor>,
                        appliers: Seq<ReferenceStateApplier>,
                        plans: Seq<TransactionExecutionPlan>,
                    |
                        block_ran(
                            self.pre_state_root,
                            txs,
                            planner_before,
                            planner,
                            applier_before,
                            applier,
                            outcome,
                            executors,
                            appliers,
                            plans,
                        );
                    lemma_reference_completed(
                        self.pre_state_root,
                        initial,
                        planned,
                        txs,
                        executors,
                        appliers,
                        plans,
                        outcome,
                    );
                }
                match planner.ensure_exhausted() {
                    Ok(()) => {
                        let result = Ok(outcome);
                        assert(result matches Ok(o) && reference_outcome(initial, planned, txs, o));
                        result
                    },
                    Err(error) => Err(error),
                }
            },
            Err(error) => {
                proof {
                    let k: int;
                    if exists|
                        executors: Seq<PlannedTransactionExecutor>,
                        appliers: Seq<ReferenceStateApplier>,
                        plans: Seq<TransactionExecutionPlan>,
                        outcomes: Seq<TransactionExecutionOutcome>,
                        k: int,
                    |
                        #[trigger] executor_failed(
                            self.pre_state_root,
                            txs,
                            planner_before,
                            planner,
                            applier_before,
                            applier,
                            error,
                            executors,
                            appliers,
                            plans,
                            outcomes,
                            k,
                        ) {
                        let (executors, appliers, plans, outcomes, j) = choose|
                            executors: Seq<PlannedTransactionExecutor>,
                            appliers: Seq<ReferenceStateApplier>,
                            plans: Seq<TransactionExecutionPlan>,
                            outcomes: Seq<TransactionExecutionOutcome>,
                            k: int,
                        |
                            #[trigger] executor_failed(
                                self.pre_state_root,
                                txs,
                                planner_before,
                                planner,
                                applier_before,
                                applier,
                                error,
                                executors,
                                appliers,
                                plans,
                                outcomes,
                                k,
                            );
                        lemma_reference_executor_stopped(
                            self.pre_state_root,
                            initial,
                            planned,
                            txs,
                            executors,
                            appliers,
                            plans,
                            outcomes,
                            j,
                            planner,
                            error,
                        );
                        k = j;
                    } else {
                        let (executors, appliers, plans, outcomes, j, plan, failure) = choose|
                            executors: Seq<PlannedTransactionExecutor>,
                            appliers: Seq<ReferenceStateApplier>,
                            plans: Seq<TransactionExecutionPlan>,
                            outcomes: Seq<TransactionExecutionOutcome>,
                            k: int,
                            plan: TransactionExecutionPlan,
                            failure: StateError,
                        |
                            #[trigger] applier_failed(
                                self.pre_state_root,
                                txs,
                                planner_before,
                                planner,
                                applier_before,
                                applier,
                                error,
                                executors,
                                appliers,
                                plans,
                                outcomes,
                                k,
                                plan,
                                failure,
                            );
                        lemma_reference_applier_stopped(
                            self.pre_state_root,
                            initial,
                            planned,
                            txs,
                            executors,
                            appliers,
                            plans,
                            outcomes,
                            j,
                            planner,
                            applier,
                            plan,
                            failure,
                        );
                        k = j;
                    }
                    lemma_first_failing_step(planned, txs, k);
                }
                Err(error)
            },
        }
    }
}

/// Imports a block with the given services, executing it with the
/// scenario's reference engine: the scenario's pre-state root, materialized
/// state and planned steps. Every stage before execution fails as import
/// does; past them, the result is the compared outcome of the reference
/// engine.
pub fn validate_block_against_reference<
    H: ConsensusHeader,
    B: ConsensusBody,
    S: ConsensusSidecar,
    R: ProposerCredentialResolver,
    D: SignatureDispatcher,
    V: TransactionRevalidator,
    P: WitnessPreparer,
>(
    config: BlockImportConfig,
    scenario: &LocalReferenceScenario,
    header: &H,
    body: &B,
    sidecar: &S,
    resolver: &R,
    dispatcher: &D,
    revalidator: &V,
    preparer: &P,
) -> (result: Result<BlockImportOutcome, ConsensusError>)
    ensures
        result == reference_import(
            config,
            *scenario,
            *header,
            *body,
            *sidecar,
            *resolver,
            *dispatcher,
            *revalidator,
            *preparer,
        ),
{
    let engine = ReferenceExecutionEngine {
        pre_state_root: scenario.pre_state_root,
        materialized_state: scenario.materialized_state.as_slice(),
        planned_transactions: scenario.planned_transactions.as_slice(),
    };
    let pipeline = BlockImportPipeline::new(config);
    let result = pipeline.import_block(
        header,
        body,
        sidecar,
        BlockImportServices {
            resolver,
            dispatcher,
            revalidator,
            preparer,
            execution_engine: &engine,
        },
    );
    proof {
        if import_error_before_execution(
            config,
            *header,
            *body,
            *sidecar,
            *resolver,
            *dispatcher,
            *revalidator,
            *preparer,
        ) is None {
            let transactions = body.spec_transactions();
            let engine_result = choose|engine_result: Result<BlockExecutionOutcome, ExecutionError>|
                engine.executes(transactions, engine_result) && result == import_result(
                    *header,
                    engine_result,
                );
            lemma_reference_execution_deterministic(
                *header,
                scenario.pre_state_root,
                scenario.materialized_state@,
                scenario.planned_transactions@,
                transactions,
                engine_result,
                reference_engine_result(
                    scenario.pre_state_root,
                    scenario.materialized_state@,
                    scenario.planned_transactions@,
                    transactions,
                ),
            );
        }
    }
    result
}

/// What importing a block against the scenario's reference engine gives:
/// the first failing stage before execution, or else the compared result
/// of the reference flow's execution.
pub open spec fn reference_import<
    H: ConsensusHeader,
    B: ConsensusBody,
    S: ConsensusSidecar,
    R: ProposerCredentialResolver,
    D: SignatureDispatcher,
    V: TransactionRevalidator,
    P: WitnessPreparer,
>(
    config: BlockImportConfig,
    scenario: LocalReferenceScenario,
    header: H,
    body: B,
    sidecar: S,
    resolver: R,
    dispatcher: D,
    revalidator: V,
    preparer: P,
) -> Result<BlockImportOutcome, ConsensusError> {
    match import_error_before_execution(
        config,
        header,
        body,
        sidecar,
        resolver,
        dispatcher,
        revalidator,
        preparer,
    ) {
        Some(e) => Err(e),
        None => import_result(
            header,
            reference_engine_result(
                scenario.pre_state_root,
                scenario.materialized_state@,
                scenario.planned_transactions@,
                body.spec_transactions(),
            ),
        ),
    }
}

/// What the reference flow gives: each admission transaction's admission,
/// in order, and the block's import outcome.
#[derive(Debug, Clone, PartialEq, Eq)]
pub struct LocalReferenceFlowOutcome<T> {
    pub admissions: Vec<T>,
    pub import_outcome: BlockImportOutcome,
}

/// A run of the reference flow over one scenario. It can only be started
/// by checking the scenario's shape, so no admission work happens on a
/// misshapen scenario. Its driver then admits transaction
/// `next_admission()` with the admission service and records the verdict,
/// in order; the first refusal ends the run. Once every transaction is
/// admitted, the admission transactions are indexed by payload root
/// (refusing a repeated root), and the block is imported with a revalidator
/// built on that index.
pub struct ReferenceFlow<T> {
    transaction_count: usize,
    admissions: Vec<T>,
    indexed: bool,
}

impl<T> ReferenceFlow<T> {
    /// How many transactions the scenario's block carries.
    pub closed spec fn transaction_count(&self) -> nat {
        self.transaction_count as nat
    }

    /// The admissions recorded so far, in order.
    pub closed spec fn admissions(&self) -> Seq<T> {
        self.admissions@
    }

    /// Whether the admission transactions have been indexed.
    pub closed spec fn indexed(&self) -> bool {
        self.indexed
    }

    /// Whether no more admissions are recorded than there are transactions,
    /// and indexing came after the last one.
    pub closed spec fn wf(&self) -> bool {
        &&& self.admissions@.len() <= self.transaction_count
        &&& self.indexed ==> self.admissions@.len() == self.transaction_count
    }

    /// Starts a run: the scenario's shape is checked before anything else.
    pub fn start(scenario: &LocalReferenceScenario) -> (result: Result<Self, LocalReferenceError>)
        ensures
            scenario_shape_error(*scenario) matches Some(e) ==> result == Err::<
                Self,
                LocalReferenceError,
            >(LocalReferenceError::ScenarioShape(e)),
            scenario_shape_error(*scenario) is None ==> (result matches Ok(flow) && flow.wf()
                && flow.transaction_count() == scenario.block.body.transactions@.len()
                && flow.admissions().len() == 0 && !flow.indexed()),
    {
        match validate_scenario_shape(scenario) {
            Ok(()) => Ok(
                ReferenceFlow {
                    transaction_count: scenario.block.body.transactions.len(),
                    admissions: Vec::new(),
                    indexed: false,
                },
            ),
            Err(error) => Err(error),
        }
    }

    /// The index of the next transaction to admit, while any is left.
    pub fn next_admission(&self) -> (next: Option<usize>)
        requires
            self.wf(),
        ensures
            self.admissions().len() < self.transaction_count() ==> next == Some(
                self.admissions().len() as usize,
            ),
            self.admissions().len() >= self.transaction_count() ==> next is None,
    {
        if self.admissions.len() < self.transaction_count {
            Some(self.admissions.len())
        } else {
            None
        }
    }

    /// Records the admission verdict of transaction `next_admission()`: an
    /// admission is kept, in order; a refusal ends the run with its error.
    pub fn record_admission(self, verdict: Result<T, ValidationError>) -> (result: Result<
        Self,
        LocalReferenceError,
    >)
        requires
            self.wf(),
            self.admissions().len() < self.transaction_count(),
        ensures
            verdict matches Err(e) ==> (result matches Err(error) && error
                == LocalReferenceError::Admission(e)),
            verdict matches Ok(admission) ==> (result matches Ok(flow) && flow.wf()
                && flow.transaction_count() == self.transaction_count() && flow.admissions()
                == self.admissions().push(admission) && !flow.indexed()),
    {
        match verdict {
            Ok(admission) => {
                let mut admissions = self.admissions;
                admissions.push(admission);
                Ok(
                    ReferenceFlow {
                        transaction_count: self.transaction_count,
                        admissions,
                        indexed: false,
                    },
                )
            },
            Err(error) => Err(LocalReferenceError::Admission(error)),
        }
    }

    /// Once every transaction is admitted, indexes the scenario's admission
    /// transactions by payload root with their materials; a repeated payload
    /// root ends the run.
    pub fn index_admissions(&mut self, scenario: &LocalReferenceScenario) -> (result: Result<
        Vec<AdmissionEntry>,
        LocalReferenceError,
    >)
        requires
            old(self).wf(),
            old(self).admissions().len() == old(self).transaction_count(),
            scenario_shape_error(*scenario) is None,
        ensures
            final(self).wf(),
            final(self).admissions() == old(self).admissions(),
            final(self).transaction_count() == old(self).transaction_count(),
            final(self).indexed() == result is Ok,
            ({
                let transactions = scenario.admission_transactions@;
                let materials = scenario.transaction_authorization_materials@;
                &&& result is Err <==> has_duplicate_payload_root(
                    transactions,
                    transactions.len() as int,
                )
                &&& result matches Err(e) ==> (e matches LocalReferenceError::DuplicateAdmissionPayloadRoot(
                    root,
                ) && exists|j: int|
                    0 <= j < transactions.len() && #[trigger] spec_payload_root(
                        transactions[j].payload.inner,
                    ) == root@ && has_duplicate_payload_root(transactions, j + 1)
                        && !has_duplicate_payload_root(transactions, j))
                &&& result matches Ok(entries) ==> {
                    &&& entries@.len() == transactions.len()
                    &&& forall|i: int|
                        0 <= i < transactions.len() ==> {
                            &&& (#[trigger] entries@[i]).payload_root@ == spec_payload_root(
                                transactions[i].payload.inner,
                            )
                            &&& same_envelope(entries@[i].transaction, transactions[i])
                            &&& same_materials(entries@[i].materials@, materials[i]@)
                        }
                }
            }),
    {
        let result = build_admission_transactions_by_payload_root(
            scenario.admission_transactions.as_slice(),
            scenario.transaction_authorization_materials.as_slice(),
        );
        self.indexed = result.is_ok();
        result
    }

    /// Once the admission transactions are indexed, imports the scenario's
    /// block with the given services and the scenario's reference engine,
    /// and ends the run: the admissions with the import outcome, or the
    /// import's error.
    pub fn import<
        R: ProposerCredentialResolver,
        D: SignatureDispatcher,
        V: TransactionRevalidator,
        P: WitnessPreparer,
    >(
        self,
        config: BlockImportConfig,
        scenario: &LocalReferenceScenario,
        resolver: &R,
        dispatcher: &D,
        revalidator: &V,
        preparer: &P,
    ) -> (result: Result<LocalReferenceFlowOutcome<T>, LocalReferenceError>)
        requires
            self.wf(),
            self.indexed(),
        ensures
            ({
                let imported = reference_import(
                    config,
                    *scenario,
                    scenario.block.header,
                    scenario.block.body,
                    scenario.block.sidecar,
                    *resolver,
                    *dispatcher,
                    *revalidator,
                    *preparer,
                );
                &&& imported matches Err(e) ==> (result matches Err(error) && error
                    == LocalReferenceError::Consensus(e))
                &&& imported matches Ok(outcome) ==> (result matches Ok(flow_outcome)
                    && flow_outcome.import_outcome == outcome && flow_outcome.admissions@
                    == self.admissions())
            }),
    {
        let imported = validate_block_against_reference(
            config,
            scenario,
            &scenario.block.header,
            &scenario.block.body,
            &scenario.block.sidecar,
            resolver,
            dispatcher,
            revalidator,
            preparer,
        );
        match imported {
            Ok(import_outcome) => Ok(
                LocalReferenceFlowOutcome { admissions: self.admissions, import_outcome },
            ),
            Err(error) => Err(LocalReferenceError::Consensus(error)),
        }
    }
}

} // verus!
