//! The shapes of the shared test vectors: what each fixture file declares as
//! input and as expected outcome. Reading the files is left to callers.

use vstd::prelude::*;

verus! {

/// A signature-dispatch vector.
#[derive(Debug, Clone, PartialEq, Eq)]
pub struct CryptoVector {
    pub id: String,
    pub category: String,
    pub rule: String,
    pub description: String,
    pub input: CryptoInput,
    pub expected_outcome: String,
    pub expected_error: Option<CryptoExpectedError>,
    pub owned_by: String,
    pub notes: Option<String>,
}

/// The input of a signature-dispatch vector.
#[derive(Debug, Clone, PartialEq, Eq)]
pub struct CryptoInput {
    pub scheme_id: u8,
    pub public_key_hex: String,
    pub signing_root_hex: String,
    pub signature_hex: String,
    pub verification_path: VerificationPathInput,
    pub dispatcher_config: Option<DispatcherConfigInput>,
}

/// The verification path a crypto vector exercises.
#[derive(Debug, Clone, Copy, PartialEq, Eq)]
pub enum VerificationPathInput {
    TransactionAuthorization,
    ValidatorMessage,
}

/// Per-path signature size limits of a dispatcher.
#[derive(Debug, Clone, Copy, PartialEq, Eq)]
pub struct DispatcherConfigInput {
    pub user_path_max_signature_size: Option<usize>,
    pub validator_path_max_signature_size: Option<usize>,
}

/// The error a crypto vector expects.
#[derive(Debug, Clone, PartialEq, Eq)]
pub struct CryptoExpectedError {
    pub kind: String,
    pub scheme_id: Option<u8>,
    pub max_size: Option<usize>,
    pub actual_size: Option<usize>,
    pub path: Option<String>,
    pub limit_kind: Option<String>,
    pub context: Option<String>,
}

/// A cheap-first validation-order vector.
#[derive(Debug, Clone, PartialEq, Eq)]
pub struct CheapFirstVector {
    pub id: String,
    pub category: String,
    pub rule: String,
    pub description: String,
    pub input: CheapFirstInput,
    pub expected_outcome: String,
    pub expected_error: ExpectedError,
    pub expected_effects: ExpectedEffects,
    pub owned_by: String,
    pub notes: Option<String>,
}

/// A mempool fee and nonce policy vector.
#[derive(Debug, Clone, PartialEq, Eq)]
pub struct MempoolPolicyVector {
    pub id: String,
    pub category: String,
    pub rule: String,
    pub description: String,
    pub input: MempoolInput,
    pub expected_outcome: String,
    pub expected_error: ExpectedError,
    pub expected_effects: ExpectedEffects,
    pub owned_by: String,
    pub notes: Option<String>,
}

/// A peer-action mapping vector.
#[derive(Debug, Clone, PartialEq, Eq)]
pub struct PeerActionVector {
    pub id: String,
    pub category: String,
    pub rule: String,
    pub description: String,
    pub input: PeerActionInput,
    pub expected_outcome: OutcomeClass,
    pub expected_action: ExpectedPeerAction,
    pub owned_by: String,
    pub notes: Option<String>,
}

/// What a peer-action vector maps from.
#[derive(Debug, Clone, PartialEq, Eq)]
pub enum PeerActionInput {
    ValidationOutcome { origin: NetworkOriginInput, outcome: OutcomeClass },
    MempoolError {
        origin: NetworkOriginInput,
        stage: ValidationStageInput,
        error: MempoolPeerErrorInput,
    },
    ConsensusError { origin: NetworkOriginInput, error: ConsensusPeerErrorInput },
}

/// An outcome class.
#[derive(Debug, Clone, Copy, PartialEq, Eq)]
pub enum OutcomeClass {
    Accept,
    Reject,
    PolicyReject,
}

/// A network origin.
#[derive(Debug, Clone, Copy, PartialEq, Eq)]
pub enum NetworkOriginInput {
    Gossip,
    Fetch,
    Sync,
    LocalRpc,
    LocalBuilder,
    TestHarness,
}

/// A validation stage.
#[derive(Debug, Clone, Copy, PartialEq, Eq)]
pub enum ValidationStageInput {
    T0,
    T1,
    T2,
    T3,
    T4,
    B0,
    B1,
    B2,
    B3,
    B4,
    B5,
}

/// A fee lane.
#[derive(Debug, Clone, Copy, PartialEq, Eq)]
pub enum FeeLaneInput {
    Payload,
    Witness,
}

/// An admission error named by a peer-action vector.
#[derive(Debug, Clone, PartialEq, Eq)]
pub enum MempoolPeerErrorInput {
    MalformedSsz { context: String },
    FeeFloor { lane: FeeLaneInput, required: u64, actual: u64 },
}

/// An import error named by a peer-action vector.
#[derive(Debug, Clone, PartialEq, Eq)]
pub enum ConsensusPeerErrorInput {
    CryptoVerificationFailed { scheme_id: u8, context: String },
    WitnessByteLimitExceeded { max_bytes: u64, actual_bytes: u64 },
}

/// A peer-action hint.
#[derive(Debug, Clone, Copy, PartialEq, Eq)]
pub enum PeerActionHintInput {
    RejectedObject,
    MalformedAnnouncement,
    InvalidTransaction,
    InvalidBlock,
    InvalidSignature,
    OversizedObject,
    PolicyRejected,
    InternalError,
}

/// The peer action a vector expects.
#[derive(Debug, Clone, Copy, PartialEq, Eq)]
pub enum ExpectedPeerAction {
    Accept,
    Ignore { hint: PeerActionHintInput },
    AdjustReputation { delta: i32, hint: PeerActionHintInput },
    Disconnect { hint: PeerActionHintInput },
}

/// The layer a cheap-first vector drives.
#[derive(Debug, Clone, PartialEq, Eq)]
pub enum CheapFirstInput {
    Mempool(MempoolInput),
    Consensus(ConsensusInput),
}

/// The error a policy or ordering vector expects.
#[derive(Debug, Clone, PartialEq, Eq)]
pub struct ExpectedError {
    pub kind: String,
    pub lane: Option<String>,
    pub context: Option<String>,
}

/// How often each stage may be reached.
#[derive(Debug, Clone, Copy, PartialEq, Eq, Default)]
pub struct ExpectedEffects {
    pub transaction_signature_verifications: Option<usize>,
    pub proposer_credential_resolutions: Option<usize>,
    pub validator_signature_verifications: Option<usize>,
    pub transaction_revalidations: Option<usize>,
    pub witness_preparations: Option<usize>,
    pub execution_calls: Option<usize>,
}

/// A transaction admission input.
#[derive(Debug, Clone, PartialEq, Eq)]
pub struct MempoolInput {
    pub payload: MempoolPayloadInput,
    pub authorizations: Vec<MempoolAuthorizationInput>,
    pub authorization_materials: Vec<AuthorizationMaterialInput>,
    pub policy: MempoolPolicyInput,
    pub observed_nonce: Option<u64>,
}

/// The payload of an admission input.
#[derive(Debug, Clone, PartialEq, Eq)]
pub struct MempoolPayloadInput {
    pub nonce: u64,
    pub gas_limit: u64,
    pub regular_fee: u64,
    pub max_priority_fee_per_gas: u64,
    pub max_witness_priority_fee: u64,
    pub to: String,
}

/// An authorization of an admission input.
#[derive(Debug, Clone, PartialEq, Eq)]
pub struct MempoolAuthorizationInput {
    pub scheme_id: u8,
    pub signature_hex: String,
    pub payload_root_mode: PayloadRootMode,
}

/// How an authorization's payload root relates to the canonical one.
#[derive(Debug, Clone, Copy, PartialEq, Eq)]
pub enum PayloadRootMode {
    Canonical,
    FlipFirstByte,
}

/// Public key material of an admission input.
#[derive(Debug, Clone, PartialEq, Eq)]
pub struct AuthorizationMaterialInput {
    pub public_key_hex: String,
}

/// The admission policy of an admission input.
#[derive(Debug, Clone, Copy, PartialEq, Eq)]
pub struct MempoolPolicyInput {
    pub payload_lane_base_fee: u64,
    pub witness_lane_base_fee: u64,
    pub max_future_nonce_gap: u64,
}

/// A block import input.
#[derive(Debug, Clone, PartialEq, Eq)]
pub struct ConsensusInput {
    pub header: ConsensusHeaderInput,
    pub body: ConsensusBodyInput,
    pub sidecar: ConsensusSidecarInput,
    pub execution: ConsensusExecutionInput,
    pub prefilter: Option<ConsensusPrefilterInput>,
    pub resolver: ConsensusResolverInput,
    pub dispatcher: ConsensusDispatcherInput,
}

/// The header of a block import input.
#[derive(Debug, Clone, PartialEq, Eq)]
pub struct ConsensusHeaderInput {
    pub block_root: String,
    pub transactions_root: String,
    pub execution_witnesses_root: String,
    pub state_root: String,
    pub receipts_root: String,
    pub witness_bytes: u64,
    pub proposer_index: u64,
    pub proposer_signature_hex: String,
}

/// The body of a block import input.
#[derive(Debug, Clone, Copy, PartialEq, Eq)]
pub struct ConsensusBodyInput {
    pub transactions_root_mode: RootMode,
    pub transaction_count: usize,
}

/// The sidecar of a block import input.
#[derive(Debug, Clone, Copy, PartialEq, Eq)]
pub struct ConsensusSidecarInput {
    pub block_root_mode: RootMode,
    pub committed_root_mode: RootMode,
}

/// The execution outcome of a block import input.
#[derive(Debug, Clone, Copy, PartialEq, Eq)]
pub struct ConsensusExecutionInput {
    pub post_state_root_mode: RootMode,
    pub receipts_root_mode: RootMode,
}

/// The prefilter of a block import input.
#[derive(Debug, Clone, Copy, PartialEq, Eq)]
pub struct ConsensusPrefilterInput {
    pub max_witness_bytes: Option<u64>,
}

/// The proposer credential of a block import input.
#[derive(Debug, Clone, PartialEq, Eq)]
pub struct ConsensusResolverInput {
    pub scheme_id: u8,
    pub public_key_hex: String,
}

/// The validator signature outcome of a block import input.
#[derive(Debug, Clone, Copy, PartialEq, Eq)]
pub struct ConsensusDispatcherInput {
    pub validator_signature: SignatureOutcome,
}

/// Whether a signature verifies.
#[derive(Debug, Clone, Copy, PartialEq, Eq)]
pub enum SignatureOutcome {
    Accept,
    Reject,
}

/// How a root relates to the canonical one.
#[derive(Debug, Clone, Copy, PartialEq, Eq)]
pub enum RootMode {
    Canonical,
    FlipFirstByte,
}

/// A transaction encoding vector.
#[derive(Debug, Clone, PartialEq, Eq)]
pub struct TransactionVector {
    pub id: String,
    pub category: String,
    pub description: String,
    pub input: TransactionVectorInput,
    pub expected_outcome: String,
    pub expected_error: Option<TransactionExpectedError>,
    pub owned_by: String,
    pub notes: Option<String>,
    pub payload_tag: Option<u8>,
    pub payload_root: Option<String>,
    pub authorization_count: Option<usize>,
}

/// The input of a transaction vector: a payload, wire bytes, or both.
#[derive(Debug, Clone, PartialEq, Eq)]
pub struct TransactionVectorInput {
    pub payload: Option<TransactionPayloadInput>,
    pub wire_hex: Option<String>,
}

/// A payload written as hexadecimal fields.
#[derive(Debug, Clone, PartialEq, Eq)]
pub enum TransactionPayloadInput {
    Basic {
        chain_id: String,
        nonce: u64,
        gas_limit: u64,
        fees: FeeInput,
        to: String,
        value: String,
        input_hex: String,
        access_commitment: String,
    },
    Create {
        chain_id: String,
        nonce: u64,
        gas_limit: u64,
        fees: FeeInput,
        value: String,
        initcode_hex: String,
        access_commitment: String,
    },
}

/// Fees written as hexadecimal 32-byte values.
#[derive(Debug, Clone, PartialEq, Eq)]
pub struct FeeInput {
    pub regular: String,
    pub max_priority_fee_per_gas: String,
    pub max_witness_priority_fee: String,
}

/// The error a transaction vector expects.
#[derive(Debug, Clone, PartialEq, Eq)]
pub struct TransactionExpectedError {
    pub kind: String,
    pub tag: Option<u8>,
    pub context: Option<String>,
}

/// A witness vector.
#[derive(Debug, Clone, PartialEq, Eq)]
pub struct WitnessVector {
    pub id: String,
    pub category: String,
    pub rule: String,
    pub description: String,
    pub input: WitnessInput,
    pub expected_outcome: String,
    pub expected_error: Option<WitnessExpectedError>,
    pub owned_by: String,
    pub notes: Option<String>,
    pub state_keys: Option<Vec<String>>,
    pub proof_shape_kind: Option<String>,
}

/// The input of a witness vector.
#[derive(Debug, Clone, PartialEq, Eq)]
pub struct WitnessInput {
    pub ordering_is_canonical: Option<bool>,
    pub proof_shape_kind: Option<String>,
    pub expected_state_root: Option<String>,
    pub witnesses: Option<Vec<WitnessFixture>>,
    pub witness: Option<WitnessFixture>,
    pub materialized_state: Option<Vec<MaterializedLeafFixture>>,
}

/// A witness written as hexadecimal fields.
#[derive(Debug, Clone, PartialEq, Eq)]
pub struct WitnessFixture {
    pub key: StateKeyInput,
    pub leaf_value_hex: String,
    pub proof_hex: Vec<String>,
}

/// A materialized leaf written as hexadecimal fields.
#[derive(Debug, Clone, PartialEq, Eq)]
pub struct MaterializedLeafFixture {
    pub key: StateKeyInput,
    pub leaf_value_hex: String,
}

/// A state key written as hexadecimal fields, with its expected canonical
/// encoding where the vector pins it.
#[derive(Debug, Clone, PartialEq, Eq)]
pub enum StateKeyInput {
    AccountHeader { address: String, canonical_key_hex: Option<String> },
    StorageSlot { address: String, slot: String, canonical_key_hex: Option<String> },
    CodeChunk { address: String, chunk_index: u32, canonical_key_hex: Option<String> },
    RawTreeKey { raw_key: String, canonical_key_hex: Option<String> },
    Stem { stem: String, canonical_key_hex: Option<String> },
}

/// The error a witness vector expects.
#[derive(Debug, Clone, PartialEq, Eq)]
pub struct WitnessExpectedError {
    pub kind: String,
    pub index: Option<usize>,
    pub context: Option<String>,
}

/// An end-to-end root-check vector.
#[derive(Debug, Clone, PartialEq, Eq)]
pub struct RootCheckVector {
    pub id: String,
    pub category: String,
    pub rule: String,
    pub description: String,
    pub input: RootCheckInput,
    pub expected_outcome: String,
    pub expected_error: Option<RootCheckExpectedError>,
    pub owned_by: String,
    pub notes: Option<String>,
    pub transactions_root: String,
    pub execution_witnesses_root: String,
    pub state_root: String,
    pub receipts_root: String,
}

/// The input of a root-check vector.
#[derive(Debug, Clone, PartialEq, Eq)]
pub struct RootCheckInput {
    pub header: RootCheckHeaderInput,
    pub body: RootCheckBodyInput,
    pub sidecar: RootCheckSidecarInput,
    pub execution: RootCheckExecutionInput,
}

/// The header of a root-check vector.
#[derive(Debug, Clone, PartialEq, Eq)]
pub struct RootCheckHeaderInput {
    pub block_root: String,
    pub block_number: u64,
    pub timestamp: u64,
    pub proposer_index: u64,
    pub parent_root: String,
    pub transactions_root: String,
    pub execution_witnesses_root: String,
    pub state_root: String,
    pub receipts_root: String,
    pub witness_bytes: u64,
    pub proposer_signature_hex: String,
}

/// The body of a root-check vector: transaction vectors by id.
#[derive(Debug, Clone, PartialEq, Eq)]
pub struct RootCheckBodyInput {
    pub transaction_vector_ids: Vec<String>,
}

/// The sidecar of a root-check vector: witness vectors by id.
#[derive(Debug, Clone, PartialEq, Eq)]
pub struct RootCheckSidecarInput {
    pub block_root: String,
    pub witness_vector_ids: Vec<String>,
}

/// The execution steps of a root-check vector.
#[derive(Debug, Clone, PartialEq, Eq)]
pub struct RootCheckExecutionInput {
    pub steps: Vec<RootCheckExecutionStep>,
}

/// One execution step of a root-check vector.
#[derive(Debug, Clone, PartialEq, Eq)]
pub struct RootCheckExecutionStep {
    pub transaction_vector_id: String,
    pub witness_vector_id: String,
    pub new_leaf_value_hex: String,
    pub receipt_status_code: u8,
    pub receipt_output_hex: String,
}

/// The root mismatch a root-check vector expects.
#[derive(Debug, Clone, PartialEq, Eq)]
pub struct RootCheckExpectedError {
    pub kind: String,
    pub expected_root: String,
    pub actual_root: String,
}

} // verus!
