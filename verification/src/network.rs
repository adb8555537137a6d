//! Network boundary: where objects come from, whether to fetch announced
//! objects, and what a validation failure means for the peer that sent it.

use vstd::prelude::*;

use crate::consensus::{
    spec_consensus_outcome, ConsensusBody, ConsensusError, ConsensusHeader, ConsensusSidecar,
};
use crate::crypto::spec_crypto_outcome;
use crate::mempool::{spec_admission_outcome, ValidationError};
use crate::primitives::{PrimitiveError, Root, ValidationOutcome, ValidationStage};
use crate::transactions::TransactionEnvelope;

verus! {

/// The identity of a remote peer.
#[derive(Debug, Clone, PartialEq, Eq, PartialOrd, Ord, Hash, Default)]
pub struct PeerId(Vec<u8>);

impl View for PeerId {
    type V = Seq<u8>;

    closed spec fn view(&self) -> Seq<u8> {
        self.0@
    }
}

impl PeerId {
    /// A peer identity with the given bytes.
    pub fn new(bytes: Vec<u8>) -> (peer_id: Self)
        ensures
            peer_id@ == bytes@,
    {
        PeerId(bytes)
    }

    /// The identity bytes.
    pub fn as_bytes(&self) -> (bytes: &[u8])
        ensures
            bytes@ == self@,
    {
        self.0.as_slice()
    }
}

impl AsRef<[u8]> for PeerId {
    /// The identity bytes.
    fn as_ref(&self) -> (bytes: &[u8])
        ensures
            bytes@ == self@,
    {
        self.as_bytes()
    }
}

impl From<[u8; 32]> for PeerId {
    fn from(value: [u8; 32]) -> (peer_id: Self) {
        let mut bytes: Vec<u8> = Vec::new();
        crate::hashing::extend_bytes(&mut bytes, value.as_slice());
        PeerId(bytes)
    }
}

impl vstd::std_specs::convert::FromSpecImpl<[u8; 32]> for PeerId {
    open spec fn obeys_from_spec() -> bool {
        false
    }

    open spec fn from_spec(value: [u8; 32]) -> Self {
        arbitrary()
    }
}

/// Where a validated object came from.
#[derive(Debug, Clone, PartialEq, Eq)]
#[non_exhaustive]
pub enum NetworkOrigin {
    Gossip { peer_id: PeerId },
    Fetch { peer_id: PeerId },
    Sync { peer_id: PeerId },
    LocalRpc,
    LocalBuilder,
    TestHarness,
}

/// Whether objects from `origin` can cost a peer anything: only remote
/// origins (gossip, fetch, sync) can.
pub open spec fn spec_penalizes_peer(origin: NetworkOrigin) -> bool {
    origin is Gossip || origin is Fetch || origin is Sync
}

impl NetworkOrigin {
    /// The remote peer, for remote origins.
    pub fn peer_id(&self) -> (peer_id: Option<&PeerId>)
        ensures
            spec_penalizes_peer(*self) == peer_id is Some,
            self matches NetworkOrigin::Gossip { peer_id: p } ==> peer_id == Some(p),
            self matches NetworkOrigin::Fetch { peer_id: p } ==> peer_id == Some(p),
            self matches NetworkOrigin::Sync { peer_id: p } ==> peer_id == Some(p),
    {
        match self {
            NetworkOrigin::Gossip { peer_id } => Some(peer_id),
            NetworkOrigin::Fetch { peer_id } => Some(peer_id),
            NetworkOrigin::Sync { peer_id } => Some(peer_id),
            NetworkOrigin::LocalRpc | NetworkOrigin::LocalBuilder | NetworkOrigin::TestHarness => None,
        }
    }

    /// Whether objects from this origin can cost a peer anything.
    pub fn penalizes_peer(&self) -> (penalizes: bool)
        ensures
            penalizes == spec_penalizes_peer(*self),
    {
        match self {
            NetworkOrigin::Gossip { .. } | NetworkOrigin::Fetch { .. } | NetworkOrigin::Sync {
                ..
            } => true,
            _ => false,
        }
    }
}

/// Why a peer action was taken.
#[derive(Debug, Clone, Copy, PartialEq, Eq, Structural)]
#[non_exhaustive]
pub enum PeerActionHint {
    RejectedObject,
    MalformedAnnouncement,
    InvalidTransaction,
    InvalidBlock,
    InvalidSignature,
    OversizedObject,
    PolicyRejected,
    InternalError,
}

/// A reputation change and its reason.
#[derive(Debug, Clone, Copy, PartialEq, Eq, Structural)]
pub struct ReputationDelta {
    pub value: i32,
    pub hint: PeerActionHint,
}

impl ReputationDelta {
    /// A delta of `value` for `hint`.
    pub fn new(value: i32, hint: PeerActionHint) -> (delta: Self)
        ensures
            delta == (ReputationDelta { value, hint }),
    {
        ReputationDelta { value, hint }
    }
}

/// What to do about the peer that sent an object.
#[derive(Debug, Clone, Copy, PartialEq, Eq, Structural)]
#[non_exhaustive]
pub enum PeerAction {
    Accept,
    Ignore { hint: PeerActionHint },
    AdjustReputation(ReputationDelta),
    Disconnect { hint: PeerActionHint },
}

/// Whether a peer is known and connected; implemented by callers.
pub trait PeerStore {
    fn is_known_peer(&self, peer_id: &PeerId) -> bool;

    fn is_connected(&self, peer_id: &PeerId) -> bool;
}

/// Failures of the network layer.
#[derive(Debug, Clone, Copy, PartialEq, Eq)]
#[non_exhaustive]
pub enum NetworkError {
    Primitive(PrimitiveError),
    Validation(ValidationError),
    Consensus(ConsensusError),
    Storage(&'static str),
    Unavailable(&'static str),
}

impl From<PrimitiveError> for NetworkError {
    fn from(value: PrimitiveError) -> (error: Self) {
        NetworkError::Primitive(value)
    }
}

impl vstd::std_specs::convert::FromSpecImpl<PrimitiveError> for NetworkError {
    open spec fn obeys_from_spec() -> bool {
        true
    }

    open spec fn from_spec(value: PrimitiveError) -> Self {
        NetworkError::Primitive(value)
    }
}

impl From<ValidationError> for NetworkError {
    fn from(value: ValidationError) -> (error: Self) {
        NetworkError::Validation(value)
    }
}

impl vstd::std_specs::convert::FromSpecImpl<ValidationError> for NetworkError {
    open spec fn obeys_from_spec() -> bool {
        true
    }

    open spec fn from_spec(value: ValidationError) -> Self {
        NetworkError::Validation(value)
    }
}

impl From<ConsensusError> for NetworkError {
    fn from(value: ConsensusError) -> (error: Self) {
        NetworkError::Consensus(value)
    }
}

impl vstd::std_specs::convert::FromSpecImpl<ConsensusError> for NetworkError {
    open spec fn obeys_from_spec() -> bool {
        true
    }

    open spec fn from_spec(value: ConsensusError) -> Self {
        NetworkError::Consensus(value)
    }
}

/// Stores peer reputations; implemented by callers.
pub trait ReputationStore {
    fn apply_reputation(&self, peer_id: &PeerId, delta: ReputationDelta) -> Result<(), NetworkError>;

    fn reputation(&self, peer_id: &PeerId) -> i32;
}

/// The reputation change for a policy reject.
pub const POLICY_REPUTATION_DELTA: i32 = -10;

/// The reputation change for an oversized object.
pub const OVERSIZED_REPUTATION_DELTA: i32 = -5;

/// Disconnect a remote peer; only ignore a local origin.
pub open spec fn spec_disconnect(origin: NetworkOrigin, hint: PeerActionHint) -> PeerAction {
    if spec_penalizes_peer(origin) {
        PeerAction::Disconnect { hint }
    } else {
        PeerAction::Ignore { hint }
    }
}

/// Lower a remote peer's reputation by `value`; only ignore a local origin.
pub open spec fn spec_policy(origin: NetworkOrigin, value: i32, hint: PeerActionHint) -> PeerAction {
    if spec_penalizes_peer(origin) {
        PeerAction::AdjustReputation(ReputationDelta { value, hint })
    } else {
        PeerAction::Ignore { hint }
    }
}

fn disconnect_action(origin: &NetworkOrigin, hint: PeerActionHint) -> (action: PeerAction)
    ensures
        action == spec_disconnect(*origin, hint),
{
    if origin.penalizes_peer() {
        PeerAction::Disconnect { hint }
    } else {
        PeerAction::Ignore { hint }
    }
}

fn policy_action(origin: &NetworkOrigin, value: i32, hint: PeerActionHint) -> (action: PeerAction)
    ensures
        action == spec_policy(*origin, value, hint),
{
    if origin.penalizes_peer() {
        PeerAction::AdjustReputation(ReputationDelta::new(value, hint))
    } else {
        PeerAction::Ignore { hint }
    }
}

/// The peer action for a validation outcome: accept, disconnect for a
/// reject, and a policy reputation change for a policy reject.
pub open spec fn spec_outcome_action(origin: NetworkOrigin, outcome: ValidationOutcome) -> PeerAction {
    match outcome {
        ValidationOutcome::Accept => PeerAction::Accept,
        ValidationOutcome::Reject => spec_disconnect(origin, PeerActionHint::RejectedObject),
        ValidationOutcome::PolicyReject => spec_policy(
            origin,
            POLICY_REPUTATION_DELTA,
            PeerActionHint::PolicyRejected,
        ),
    }
}

/// Maps a validation outcome to a peer action.
pub fn peer_action_for_validation_outcome(origin: &NetworkOrigin, outcome: ValidationOutcome) -> (action:
    PeerAction)
    ensures
        action == spec_outcome_action(*origin, outcome),
{
    match outcome {
        ValidationOutcome::Accept => PeerAction::Accept,
        ValidationOutcome::Reject => disconnect_action(origin, PeerActionHint::RejectedObject),
        ValidationOutcome::PolicyReject => policy_action(
            origin,
            POLICY_REPUTATION_DELTA,
            PeerActionHint::PolicyRejected,
        ),
    }
}

/// The peer action for an admission failure at `stage`: malformed SSZ at T0
/// is a malformed announcement; other malformed or invalid objects are
/// invalid transactions; signature failures are invalid signatures; fee and
/// nonce policy lowers reputation; local gaps are ignored as internal.
pub open spec fn spec_mempool_action(
    origin: NetworkOrigin,
    stage: ValidationStage,
    error: ValidationError,
) -> PeerAction {
    match error {
        ValidationError::Primitive(primitive) => match primitive {
            PrimitiveError::MalformedSsz(_) => if stage == ValidationStage::T0 {
                spec_disconnect(origin, PeerActionHint::MalformedAnnouncement)
            } else {
                spec_disconnect(origin, PeerActionHint::InvalidTransaction)
            },
            PrimitiveError::UnsupportedPayloadVariant(_)
            | PrimitiveError::PayloadRootMismatch(_)
            | PrimitiveError::AuthorizationCount(_)
            | PrimitiveError::SignatureSizeExceeded(_) => spec_disconnect(
                origin,
                PeerActionHint::InvalidTransaction,
            ),
            PrimitiveError::SigningRootConstruction(_) | PrimitiveError::Unimplemented(_) => {
                PeerAction::Ignore { hint: PeerActionHint::InternalError }
            },
        },
        ValidationError::UnsupportedScheme(_)
        | ValidationError::SignatureSizeExceeded(_)
        | ValidationError::SignatureVerification(_) => spec_disconnect(
            origin,
            PeerActionHint::InvalidSignature,
        ),
        ValidationError::FeeFloor(_) | ValidationError::NoncePolicy(_) => spec_policy(
            origin,
            POLICY_REPUTATION_DELTA,
            PeerActionHint::PolicyRejected,
        ),
        ValidationError::SigningRootUnavailable(_)
        | ValidationError::AuthorizationMaterialCount(_) => PeerAction::Ignore {
            hint: PeerActionHint::InternalError,
        },
    }
}

/// Maps an admission failure at `stage` to a peer action.
pub fn peer_action_for_mempool_error(
    origin: &NetworkOrigin,
    stage: ValidationStage,
    error: &ValidationError,
) -> (action: PeerAction)
    ensures
        action == spec_mempool_action(*origin, stage, *error),
{
    match error {
        ValidationError::Primitive(primitive) => match primitive {
            PrimitiveError::MalformedSsz(_) => {
                if stage == ValidationStage::T0 {
                    disconnect_action(origin, PeerActionHint::MalformedAnnouncement)
                } else {
                    disconnect_action(origin, PeerActionHint::InvalidTransaction)
                }
            },
            PrimitiveError::UnsupportedPayloadVariant(_)
            | PrimitiveError::PayloadRootMismatch(_)
            | PrimitiveError::AuthorizationCount(_)
            | PrimitiveError::SignatureSizeExceeded(_) => {
                disconnect_action(origin, PeerActionHint::InvalidTransaction)
            },
            PrimitiveError::SigningRootConstruction(_) | PrimitiveError::Unimplemented(_) => {
                PeerAction::Ignore { hint: PeerActionHint::InternalError }
            },
        },
        ValidationError::UnsupportedScheme(_)
        | ValidationError::SignatureSizeExceeded(_)
        | ValidationError::SignatureVerification(_) => {
            disconnect_action(origin, PeerActionHint::InvalidSignature)
        },
        ValidationError::FeeFloor(_) | ValidationError::NoncePolicy(_) => policy_action(
            origin,
            POLICY_REPUTATION_DELTA,
            PeerActionHint::PolicyRejected,
        ),
        ValidationError::SigningRootUnavailable(_)
        | ValidationError::AuthorizationMaterialCount(_) => PeerAction::Ignore {
            hint: PeerActionHint::InternalError,
        },
    }
}

/// The peer action for an import failure: malformed objects are malformed
/// announcements; domain and credential-resolution problems are internal;
/// signature failures are invalid signatures, except that a validator-path
/// signature over the local transport guard only lowers reputation as
/// oversized; admission failures map as at B3; execution, state and binding
/// failures are invalid blocks; oversized headers lower reputation.
pub open spec fn spec_consensus_action(origin: NetworkOrigin, error: ConsensusError) -> PeerAction {
    match error {
        ConsensusError::Primitive(_) => spec_disconnect(origin, PeerActionHint::MalformedAnnouncement),
        ConsensusError::Domain(_) | ConsensusError::ProposerCredentialResolution(_) => {
            PeerAction::Ignore { hint: PeerActionHint::InternalError }
        },
        ConsensusError::Crypto(e) => if spec_crypto_outcome(e) == Some(
            ValidationOutcome::PolicyReject,
        ) {
            spec_policy(origin, OVERSIZED_REPUTATION_DELTA, PeerActionHint::OversizedObject)
        } else {
            spec_disconnect(origin, PeerActionHint::InvalidSignature)
        },
        ConsensusError::TransactionValidation(e) => spec_mempool_action(
            origin,
            ValidationStage::B3,
            e,
        ),
        ConsensusError::WitnessByteLimitExceeded(_) => spec_policy(
            origin,
            OVERSIZED_REPUTATION_DELTA,
            PeerActionHint::OversizedObject,
        ),
        _ => spec_disconnect(origin, PeerActionHint::InvalidBlock),
    }
}

/// Maps an import failure to a peer action.
pub fn peer_action_for_consensus_error(origin: &NetworkOrigin, error: &ConsensusError) -> (action:
    PeerAction)
    ensures
        action == spec_consensus_action(*origin, *error),
{
    match error {
        ConsensusError::Primitive(_) => disconnect_action(
            origin,
            PeerActionHint::MalformedAnnouncement,
        ),
        ConsensusError::Domain(_) | ConsensusError::ProposerCredentialResolution(_) => {
            PeerAction::Ignore { hint: PeerActionHint::InternalError }
        },
        ConsensusError::Crypto(crypto) => {
            match crypto.network_validation_outcome() {
                Some(ValidationOutcome::PolicyReject) => policy_action(
                    origin,
                    OVERSIZED_REPUTATION_DELTA,
                    PeerActionHint::OversizedObject,
                ),
                _ => disconnect_action(origin, PeerActionHint::InvalidSignature),
            }
        },
        ConsensusError::TransactionValidation(validation) => {
            peer_action_for_mempool_error(origin, ValidationStage::B3, validation)
        },
        ConsensusError::Execution(_) | ConsensusError::State(_) => {
            disconnect_action(origin, PeerActionHint::InvalidBlock)
        },
        ConsensusError::WitnessByteLimitExceeded(_) => policy_action(
            origin,
            OVERSIZED_REPUTATION_DELTA,
            PeerActionHint::OversizedObject,
        ),
        ConsensusError::HeaderBodyRootMismatch(_)
        | ConsensusError::SidecarBlockRootMismatch(_)
        | ConsensusError::SidecarCommitmentMismatch(_) => {
            disconnect_action(origin, PeerActionHint::InvalidBlock)
        },
    }
}

/// Whether to fetch an announced object now, never, or once requested.
#[derive(Debug, Clone, Copy, PartialEq, Eq, Structural)]
#[non_exhaustive]
pub enum FetchDecision {
    Fetch,
    Skip,
    Defer,
}

/// Schedules fetches of announced objects; implemented by callers.
pub trait FetchScheduler {
    fn schedule_transaction_fetch(&self, peer_id: &PeerId, transaction_root: &Root) -> Result<
        FetchDecision,
        NetworkError,
    >;

    fn schedule_sidecar_fetch(&self, peer_id: &PeerId, block_root: &Root) -> Result<
        FetchDecision,
        NetworkError,
    >;
}

/// The decision for an announced object of `size` bytes under an optional
/// byte limit, when unrequested objects must wait (`require_request`): too
/// large is skipped; otherwise an unrequested object waits; otherwise fetch.
pub open spec fn spec_fetch_decision(
    limit: Option<u64>,
    size: u64,
    require_request: bool,
    was_requested: bool,
) -> FetchDecision {
    if limit matches Some(max) && size > max {
        FetchDecision::Skip
    } else if require_request && !was_requested {
        FetchDecision::Defer
    } else {
        FetchDecision::Fetch
    }
}

/// When to fetch a block's sidecar.
#[derive(Debug, Clone, Copy, PartialEq, Eq, Default)]
pub struct SidecarFetchPolicy {
    pub max_witness_bytes: Option<u64>,
    pub require_explicit_request: bool,
}

impl SidecarFetchPolicy {
    /// Decides on the sidecar of `header`: skip it when the header's witness
    /// bytes exceed the limit, defer it when requests are required and none
    /// was made, fetch it otherwise.
    pub fn decide_for_header<H: ConsensusHeader>(&self, header: &H, was_requested: bool) -> (decision:
        FetchDecision)
        ensures
            decision == spec_fetch_decision(
                self.max_witness_bytes,
                header.spec_witness_bytes(),
                self.require_explicit_request,
                was_requested,
            ),
    {
        match self.max_witness_bytes {
            Some(limit) => {
                if header.witness_bytes() > limit {
                    return FetchDecision::Skip;
                }
            },
            None => {},
        }
        if self.require_explicit_request && !was_requested {
            FetchDecision::Defer
        } else {
            FetchDecision::Fetch
        }
    }
}

/// Size limits and solicitation rules for gossip announcements.
#[derive(Debug, Clone, Copy, PartialEq, Eq, Default)]
pub struct AnnouncementFilter {
    pub max_transaction_bytes: Option<u64>,
    pub max_sidecar_bytes: Option<u64>,
    pub allow_unsolicited_sidecars: bool,
}

impl AnnouncementFilter {
    /// Skips announced transactions over the size limit, fetches the rest.
    pub fn transaction_fetch_decision(&self, announced_size: u64) -> (decision: FetchDecision)
        ensures
            decision == spec_fetch_decision(
                self.max_transaction_bytes,
                announced_size,
                false,
                false,
            ),
    {
        match self.max_transaction_bytes {
            Some(limit) => {
                if announced_size > limit {
                    return FetchDecision::Skip;
                }
            },
            None => {},
        }
        FetchDecision::Fetch
    }

    /// Skips announced sidecars over the size limit, defers unrequested ones
    /// unless unsolicited sidecars are allowed, fetches the rest.
    pub fn sidecar_fetch_decision(&self, announced_size: u64, was_requested: bool) -> (decision:
        FetchDecision)
        ensures
            decision == spec_fetch_decision(
                self.max_sidecar_bytes,
                announced_size,
                !self.allow_unsolicited_sidecars,
                was_requested,
            ),
    {
        match self.max_sidecar_bytes {
            Some(limit) => {
                if announced_size > limit {
                    return FetchDecision::Skip;
                }
            },
            None => {},
        }
        if !self.allow_unsolicited_sidecars && !was_requested {
            FetchDecision::Defer
        } else {
            FetchDecision::Fetch
        }
    }
}

/// Decodes gossip payloads; implemented by callers.
pub trait AnnouncementDecoder {
    type Header: ConsensusHeader;

    type Body: ConsensusBody;

    type Sidecar: ConsensusSidecar;

    fn decode_transaction_envelope(&self, encoded: &[u8]) -> Result<
        TransactionEnvelope,
        PrimitiveError,
    >;

    fn decode_header(&self, encoded: &[u8]) -> Result<Self::Header, PrimitiveError>;

    fn decode_body(&self, encoded: &[u8]) -> Result<Self::Body, PrimitiveError>;

    fn decode_sidecar(&self, encoded: &[u8]) -> Result<Self::Sidecar, PrimitiveError>;
}

/// Validates gossiped transactions; implemented by callers.
pub trait NetworkMempoolAdapter {
    fn validate_gossip_transaction(
        &self,
        origin: &NetworkOrigin,
        envelope: &TransactionEnvelope,
    ) -> Result<ValidationOutcome, ValidationError>;
}

/// Validates gossiped blocks; implemented by callers.
pub trait NetworkConsensusAdapter {
    fn validate_gossip_block<H: ConsensusHeader, B: ConsensusBody, S: ConsensusSidecar>(
        &self,
        origin: &NetworkOrigin,
        header: &H,
        body: &B,
        sidecar: &S,
    ) -> Result<ValidationOutcome, ConsensusError>;
}

/// The validation outcome a peer action stands for: accepting is an accept,
/// reputation changes and ignores for policy or size are policy rejects, and
/// every other ignore or disconnect is a reject.
pub open spec fn peer_action_outcome_class(action: PeerAction) -> ValidationOutcome {
    match action {
        PeerAction::Accept => ValidationOutcome::Accept,
        PeerAction::AdjustReputation(_) => ValidationOutcome::PolicyReject,
        PeerAction::Ignore { hint } => if hint == PeerActionHint::PolicyRejected || hint
            == PeerActionHint::OversizedObject {
            ValidationOutcome::PolicyReject
        } else {
            ValidationOutcome::Reject
        },
        PeerAction::Disconnect { .. } => ValidationOutcome::Reject,
    }
}

/// Whether an action costs the peer nothing.
pub open spec fn is_harmless(action: PeerAction) -> bool {
    action is Accept || action is Ignore
}

/// Objects from local origins (RPC, builder, test harness) never cost a peer
/// anything: whatever the outcome or failure, the action is accept or ignore.
pub proof fn lemma_local_origins_are_never_penalized(
    origin: NetworkOrigin,
    outcome: ValidationOutcome,
    stage: ValidationStage,
    admission_error: ValidationError,
    import_error: ConsensusError,
)
    requires
        !spec_penalizes_peer(origin),
    ensures
        is_harmless(spec_outcome_action(origin, outcome)),
        is_harmless(spec_mempool_action(origin, stage, admission_error)),
        is_harmless(spec_consensus_action(origin, import_error)),
{
}

/// Remote origins feel every failure: a reject disconnects and a policy
/// reject lowers reputation.
pub proof fn lemma_remote_origins_are_penalized(origin: NetworkOrigin, outcome: ValidationOutcome)
    requires
        spec_penalizes_peer(origin),
    ensures
        outcome == ValidationOutcome::Reject ==> spec_outcome_action(origin, outcome) is Disconnect,
        outcome == ValidationOutcome::PolicyReject ==> spec_outcome_action(
            origin,
            outcome,
        ) is AdjustReputation,
{
}

/// The peer action never contradicts the network classification: when a
/// failure has an outcome class, the action taken stands for that class, for
/// every origin; a validation outcome maps to an action of its own class.
pub proof fn lemma_peer_actions_agree_with_classification(
    origin: NetworkOrigin,
    outcome: ValidationOutcome,
    stage: ValidationStage,
    admission_error: ValidationError,
    import_error: ConsensusError,
)
    ensures
        peer_action_outcome_class(spec_outcome_action(origin, outcome)) == outcome,
        spec_admission_outcome(admission_error) matches Some(class) ==> peer_action_outcome_class(
            spec_mempool_action(origin, stage, admission_error),
        ) == class,
        spec_consensus_outcome(import_error) matches Some(class) ==> peer_action_outcome_class(
            spec_consensus_action(origin, import_error),
        ) == class,
{
}

} // verus!
