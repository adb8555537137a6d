//! Block import: cheap structural checks first (header prefilter, body
//! binding), then proposer signature, transaction revalidation, sidecar
//! binding and execution against the header's committed roots.

use vstd::prelude::*;

use crate::crypto::{CryptoError, SignatureDispatcher, SignatureVerificationRequest, spec_crypto_outcome};
use crate::execution::{
    BlockExecutionOutcome, CommittedExecutionRoots, ExecutionError,
};
use crate::mempool::{spec_admission_outcome, MultiAuthorizationPolicy, ValidationError};
use crate::primitives::{
    build_signing_data, roots_equal, signing_root, spec_primitive_outcome,
    spec_signing_root, DomainError, DomainSelector, PrimitiveError, ProposerCredential,
    ProposerCredentialQuery,
    ProposerCredentialResolutionError, ProposerCredentialResolver, ProtocolObject, Root,
    SigningData, ValidationOutcome,
};
use crate::state::StateError;
use crate::state_key::StateWitness;
use crate::transactions::TransactionEnvelope;

verus! {

/// The header fields block import reads.
pub trait ConsensusHeader: ProtocolObject {
    spec fn spec_witness_bytes(&self) -> u64;

    spec fn spec_transactions_root(&self) -> Root;

    spec fn spec_execution_witnesses_root(&self) -> Root;

    spec fn spec_state_root(&self) -> Root;

    spec fn spec_receipts_root(&self) -> Root;

    spec fn spec_proposer_signature(&self) -> Seq<u8>;

    spec fn spec_proposer_index_hint(&self) -> Option<u64>;

    fn witness_bytes(&self) -> (bytes: u64)
        ensures
            bytes == self.spec_witness_bytes(),
    ;

    fn transactions_root(&self) -> (root: Root)
        ensures
            root == self.spec_transactions_root(),
    ;

    fn execution_witnesses_root(&self) -> (root: Root)
        ensures
            root == self.spec_execution_witnesses_root(),
    ;

    fn state_root(&self) -> (root: Root)
        ensures
            root == self.spec_state_root(),
    ;

    fn receipts_root(&self) -> (root: Root)
        ensures
            root == self.spec_receipts_root(),
    ;

    fn proposer_signature(&self) -> (signature: &[u8])
        ensures
            signature@ == self.spec_proposer_signature(),
    ;

    fn proposer_index_hint(&self) -> (hint: Option<u64>)
        ensures
            hint == self.spec_proposer_index_hint(),
    ;
}

/// The body fields block import reads.
pub trait ConsensusBody {
    spec fn spec_transactions_root(&self) -> Result<Root, PrimitiveError>;

    spec fn spec_transactions(&self) -> Seq<TransactionEnvelope>;

    fn transactions_root(&self) -> (root: Result<Root, PrimitiveError>)
        ensures
            root == self.spec_transactions_root(),
    ;

    fn transactions(&self) -> (transactions: &[TransactionEnvelope])
        ensures
            transactions@ == self.spec_transactions(),
    ;
}

/// The sidecar fields block import reads.
pub trait ConsensusSidecar {
    spec fn spec_block_root(&self) -> Root;

    spec fn spec_committed_root(&self) -> Root;

    fn block_root(&self) -> (root: Root)
        ensures
            root == self.spec_block_root(),
    ;

    fn committed_root(&self) -> (root: Root)
        ensures
            root == self.spec_committed_root(),
    ;
}

/// Verifies the witnesses a sidecar carries; implemented by callers.
pub trait WitnessPreparer {
    /// The preparer's verdict on the witnesses of `sidecar` for `header`.
    /// Left unknown unless an implementation defines it.
    closed spec fn spec_prepare_witness<H: ConsensusHeader, S: ConsensusSidecar>(
        &self,
        header: H,
        sidecar: S,
    ) -> Result<(), StateError> {
        arbitrary()
    }

    fn prepare_witness<H: ConsensusHeader, S: ConsensusSidecar>(
        &self,
        header: &H,
        sidecar: &S,
    ) -> (result: Result<(), StateError>)
        ensures
            result == self.spec_prepare_witness(*header, *sidecar),
    ;
}

/// Executes a block; implemented by callers.
pub trait BlockExecutionEngine {
    /// Whether `result` is a possible execution of a block carrying
    /// `transactions`.
    /// Left unknown unless an implementation defines it.
    closed spec fn executes(
        &self,
        transactions: Seq<TransactionEnvelope>,
        result: Result<BlockExecutionOutcome, ExecutionError>,
    ) -> bool {
        arbitrary()
    }

    fn execute_block<H: ConsensusHeader, B: ConsensusBody, S: ConsensusSidecar>(
        &self,
        header: &H,
        body: &B,
        sidecar: &S,
    ) -> (result: Result<BlockExecutionOutcome, ExecutionError>)
        ensures
            self.executes(body.spec_transactions(), result),
    ;
}

/// Re-admits a block transaction under a multi-authorization policy;
/// implemented by callers.
pub trait TransactionRevalidator {
    /// The revalidator's verdict on `transaction` under the policy.
    /// Left unknown unless an implementation defines it.
    closed spec fn spec_revalidate(
        &self,
        transaction: TransactionEnvelope,
        multi_authorization_policy: MultiAuthorizationPolicy,
    ) -> Result<(), ValidationError> {
        arbitrary()
    }

    fn revalidate(
        &self,
        transaction: &TransactionEnvelope,
        multi_authorization_policy: MultiAuthorizationPolicy,
    ) -> (result: Result<(), ValidationError>)
        ensures
            result == self.spec_revalidate(*transaction, multi_authorization_policy),
    ;
}

/// A header whose witness bytes exceed the configured limit.
#[derive(Debug, Clone, Copy, PartialEq, Eq)]
pub struct WitnessByteLimitExceededError {
    pub max_bytes: u64,
    pub actual_bytes: u64,
}

/// A body whose transactions root differs from the header's.
#[derive(Debug, Clone, Copy, PartialEq, Eq)]
pub struct HeaderBodyRootMismatchError {
    pub expected: Root,
    pub actual: Root,
}

/// A sidecar bound to a different block.
#[derive(Debug, Clone, Copy, PartialEq, Eq)]
pub struct SidecarBlockRootMismatchError {
    pub expected: Root,
    pub actual: Root,
}

/// A sidecar whose committed root differs from the header's.
#[derive(Debug, Clone, Copy, PartialEq, Eq)]
pub struct SidecarCommitmentMismatchError {
    pub expected: Root,
    pub actual: Root,
}

/// Failures of block import.
#[derive(Debug, Clone, Copy, PartialEq, Eq)]
pub enum ConsensusError {
    Primitive(PrimitiveError),
    Domain(DomainError),
    Crypto(CryptoError),
    TransactionValidation(ValidationError),
    Execution(ExecutionError),
    State(StateError),
    ProposerCredentialResolution(ProposerCredentialResolutionError),
    WitnessByteLimitExceeded(WitnessByteLimitExceededError),
    HeaderBodyRootMismatch(HeaderBodyRootMismatchError),
    SidecarBlockRootMismatch(SidecarBlockRootMismatchError),
    SidecarCommitmentMismatch(SidecarCommitmentMismatchError),
}

impl From<PrimitiveError> for ConsensusError {
    fn from(value: PrimitiveError) -> (error: Self) {
        ConsensusError::Primitive(value)
    }
}

impl vstd::std_specs::convert::FromSpecImpl<PrimitiveError> for ConsensusError {
    open spec fn obeys_from_spec() -> bool {
        true
    }

    open spec fn from_spec(value: PrimitiveError) -> Self {
        ConsensusError::Primitive(value)
    }
}

impl From<DomainError> for ConsensusError {
    fn from(value: DomainError) -> (error: Self) {
        ConsensusError::Domain(value)
    }
}

impl vstd::std_specs::convert::FromSpecImpl<DomainError> for ConsensusError {
    open spec fn obeys_from_spec() -> bool {
        true
    }

    open spec fn from_spec(value: DomainError) -> Self {
        ConsensusError::Domain(value)
    }
}

impl From<CryptoError> for ConsensusError {
    fn from(value: CryptoError) -> (error: Self) {
        ConsensusError::Crypto(value)
    }
}

impl vstd::std_specs::convert::FromSpecImpl<CryptoError> for ConsensusError {
    open spec fn obeys_from_spec() -> bool {
        true
    }

    open spec fn from_spec(value: CryptoError) -> Self {
        ConsensusError::Crypto(value)
    }
}

impl From<ValidationError> for ConsensusError {
    fn from(value: ValidationError) -> (error: Self) {
        ConsensusError::TransactionValidation(value)
    }
}

impl vstd::std_specs::convert::FromSpecImpl<ValidationError> for ConsensusError {
    open spec fn obeys_from_spec() -> bool {
        true
    }

    open spec fn from_spec(value: ValidationError) -> Self {
        ConsensusError::TransactionValidation(value)
    }
}

impl From<ExecutionError> for ConsensusError {
    fn from(value: ExecutionError) -> (error: Self) {
        ConsensusError::Execution(value)
    }
}

impl vstd::std_specs::convert::FromSpecImpl<ExecutionError> for ConsensusError {
    open spec fn obeys_from_spec() -> bool {
        true
    }

    open spec fn from_spec(value: ExecutionError) -> Self {
        ConsensusError::Execution(value)
    }
}

impl From<StateError> for ConsensusError {
    fn from(value: StateError) -> (error: Self) {
        ConsensusError::State(value)
    }
}

impl vstd::std_specs::convert::FromSpecImpl<StateError> for ConsensusError {
    open spec fn obeys_from_spec() -> bool {
        true
    }

    open spec fn from_spec(value: StateError) -> Self {
        ConsensusError::State(value)
    }
}

impl From<ProposerCredentialResolutionError> for ConsensusError {
    fn from(value: ProposerCredentialResolutionError) -> (error: Self) {
        ConsensusError::ProposerCredentialResolution(value)
    }
}

impl vstd::std_specs::convert::FromSpecImpl<ProposerCredentialResolutionError> for ConsensusError {
    open spec fn obeys_from_spec() -> bool {
        true
    }

    open spec fn from_spec(value: ProposerCredentialResolutionError) -> Self {
        ConsensusError::ProposerCredentialResolution(value)
    }
}

/// The network classification of an import failure: oversized headers are a
/// policy reject; domain and local credential-resolution problems are
/// internal; everything else rejects the block, except that wrapped
/// primitive, cryptographic and admission failures keep their own class.
pub open spec fn spec_consensus_outcome(error: ConsensusError) -> Option<ValidationOutcome> {
    match error {
        ConsensusError::Primitive(e) => spec_primitive_outcome(e),
        ConsensusError::Domain(_) => None,
        ConsensusError::Crypto(e) => spec_crypto_outcome(e),
        ConsensusError::TransactionValidation(e) => spec_admission_outcome(e),
        ConsensusError::ProposerCredentialResolution(e) => if e is InvalidCredentialEncoding {
            Some(ValidationOutcome::Reject)
        } else {
            None
        },
        ConsensusError::WitnessByteLimitExceeded(_) => Some(ValidationOutcome::PolicyReject),
        _ => Some(ValidationOutcome::Reject),
    }
}

impl ConsensusError {
    /// Classifies the failure for network peers.
    pub fn network_validation_outcome(&self) -> (outcome: Option<ValidationOutcome>)
        ensures
            outcome == spec_consensus_outcome(*self),
    {
        match self {
            ConsensusError::Primitive(error) => error.network_validation_outcome(),
            ConsensusError::Domain(_) => None,
            ConsensusError::Crypto(error) => error.network_validation_outcome(),
            ConsensusError::TransactionValidation(error) => error.network_validation_outcome(),
            ConsensusError::Execution(_)
            | ConsensusError::State(_)
            | ConsensusError::HeaderBodyRootMismatch(_)
            | ConsensusError::SidecarBlockRootMismatch(_)
            | ConsensusError::SidecarCommitmentMismatch(_) => Some(ValidationOutcome::Reject),
            ConsensusError::ProposerCredentialResolution(error) => {
                if error.is_consensus_invalid() {
                    Some(ValidationOutcome::Reject)
                } else {
                    None
                }
            },
            ConsensusError::WitnessByteLimitExceeded(_) => Some(ValidationOutcome::PolicyReject),
        }
    }
}

/// The witness-byte limit of the header prefilter.
#[derive(Debug, Clone, Copy, PartialEq, Eq, Default)]
pub struct HeaderPrefilterConfig {
    pub max_witness_bytes: Option<u64>,
}

/// What the header prefilter establishes: the block root.
#[derive(Debug, Clone, Copy, PartialEq, Eq)]
pub struct HeaderCheckOutcome {
    pub block_root: Root,
}

/// The error of the header prefilter, if any: the header root failing, or
/// the witness bytes exceeding a configured limit.
pub open spec fn prefilter_error<H: ConsensusHeader>(
    header: H,
    config: HeaderPrefilterConfig,
) -> Option<ConsensusError> {
    match header.spec_canonical_root() {
        Err(e) => Some(ConsensusError::Primitive(e)),
        Ok(_) => match config.max_witness_bytes {
            Some(max_bytes) => if header.spec_witness_bytes() > max_bytes {
                Some(
                    ConsensusError::WitnessByteLimitExceeded(
                        WitnessByteLimitExceededError {
                            max_bytes,
                            actual_bytes: header.spec_witness_bytes(),
                        },
                    ),
                )
            } else {
                None
            },
            None => None,
        },
    }
}

/// Computes the block root and checks the header's witness bytes against the
/// configured limit (B0). No signature or proof work happens here.
pub fn prefilter_header<H: ConsensusHeader>(header: &H, config: HeaderPrefilterConfig) -> (result:
    Result<HeaderCheckOutcome, ConsensusError>)
    ensures
        prefilter_error(*header, config) matches Some(e) ==> result == Err::<
            HeaderCheckOutcome,
            ConsensusError,
        >(e),
        prefilter_error(*header, config) is None ==> (result matches Ok(outcome)
            && header.spec_canonical_root() == Ok::<Seq<u8>, PrimitiveError>(
            outcome.block_root@,
        )),
{
    let block_root = match header.canonical_root() {
        Ok(root) => root,
        Err(error) => {
            return Err(ConsensusError::Primitive(error));
        },
    };
    if let Some(max_bytes) = config.max_witness_bytes {
        let actual_bytes = header.witness_bytes();
        if actual_bytes > max_bytes {
            return Err(
                ConsensusError::WitnessByteLimitExceeded(
                    WitnessByteLimitExceededError { max_bytes, actual_bytes },
                ),
            );
        }
    }
    Ok(HeaderCheckOutcome { block_root })
}

/// The error of the body binding, if any: the body root failing, or differing
/// from the header's transactions root.
pub open spec fn body_binding_error<H: ConsensusHeader, B: ConsensusBody>(
    header: H,
    body: B,
) -> Option<ConsensusError> {
    match body.spec_transactions_root() {
        Err(e) => Some(ConsensusError::Primitive(e)),
        Ok(actual) => if actual != header.spec_transactions_root() {
            Some(
                ConsensusError::HeaderBodyRootMismatch(
                    HeaderBodyRootMismatchError {
                        expected: header.spec_transactions_root(),
                        actual,
                    },
                ),
            )
        } else {
            None
        },
    }
}

/// Checks that the body's transactions root is the one the header commits
/// to (B2).
pub fn verify_body_binding<H: ConsensusHeader, B: ConsensusBody>(header: &H, body: &B) -> (result:
    Result<(), ConsensusError>)
    ensures
        body_binding_error(*header, *body) matches Some(e) ==> result == Err::<(), ConsensusError>(
            e,
        ),
        body_binding_error(*header, *body) is None ==> result is Ok,
{
    let actual = match body.transactions_root() {
        Ok(root) => root,
        Err(error) => {
            return Err(ConsensusError::Primitive(error));
        },
    };
    let expected = header.transactions_root();
    if !roots_equal(&actual, &expected) {
        return Err(
            ConsensusError::HeaderBodyRootMismatch(HeaderBodyRootMismatchError { expected, actual }),
        );
    }
    Ok(())
}

/// The signing data of a validator message over `block_root`.
pub open spec fn validator_signing_data(block_root: Root) -> SigningData {
    SigningData {
        object_root: block_root,
        domain_type: [2u8, 0u8, 0u8, 0u8],
    }
}

/// The root a proposer signs for `block_root`.
pub fn validator_signing_root(block_root: &Root) -> (result: Result<Root, ConsensusError>)
    ensures
        result matches Ok(root) && root@ == spec_signing_root(
            validator_signing_data(*block_root),
        ),
{
    let signing_data = match build_signing_data(*block_root, DomainSelector::ValidatorMessage) {
        Ok(data) => data,
        Err(error) => {
            return Err(ConsensusError::Domain(error));
        },
    };
    assert(signing_data.domain_type =~= validator_signing_data(*block_root).domain_type);
    match signing_root(&signing_data) {
        Ok(root) => Ok(root),
        Err(error) => Err(ConsensusError::Primitive(error)),
    }
}

/// What the proposer-credential resolver is asked for a header: the block
/// root and the header's proposer index hint.
pub fn proposer_credential_query<H: ConsensusHeader>(header: &H, block_root: &Root) -> (query:
    ProposerCredentialQuery)
    ensures
        query.block_root == *block_root,
        query.proposer_index_hint == header.spec_proposer_index_hint(),
{
    ProposerCredentialQuery {
        block_root: *block_root,
        proposer_index_hint: header.proposer_index_hint(),
    }
}

/// What the dispatcher is asked to verify for a header: the header's
/// proposer signature by the resolved public key over `signing_root`.
pub fn validator_signature_request<'a, H: ConsensusHeader>(
    header: &'a H,
    credential: &'a ProposerCredential,
    signing_root: Root,
) -> (request: SignatureVerificationRequest<'a>)
    ensures
        request.public_key_material@ == credential.public_key_material@,
        request.signing_root == signing_root,
        request.signature@ == header.spec_proposer_signature(),
{
    SignatureVerificationRequest {
        public_key_material: credential.public_key_material.as_slice(),
        signing_root,
        signature: header.proposer_signature(),
    }
}

/// The unit result a stage gives: its error, if any.
pub open spec fn verdict_of(error: Option<ConsensusError>) -> Result<(), ConsensusError> {
    match error {
        Some(e) => Err(e),
        None => Ok(()),
    }
}

/// The query the resolver is asked for a header and block root.
pub open spec fn spec_proposer_query<H: ConsensusHeader>(header: H, block_root: Root) -> ProposerCredentialQuery {
    ProposerCredentialQuery { block_root, proposer_index_hint: header.spec_proposer_index_hint() }
}

/// The error of the proposer-signature stage, if any: the resolver's
/// failure, or else the dispatcher's rejection of the header's signature by
/// the resolved key, under the resolved scheme, over the validator-message
/// signing root of `block_root`.
pub open spec fn signature_error<H: ConsensusHeader, R: ProposerCredentialResolver, D: SignatureDispatcher>(
    header: H,
    block_root: Root,
    resolver: R,
    dispatcher: D,
) -> Option<ConsensusError> {
    match resolver.spec_resolve(spec_proposer_query(header, block_root)) {
        Err(e) => Some(ConsensusError::ProposerCredentialResolution(e)),
        Ok(credential) => match dispatcher.spec_validator_verdict(
            credential.scheme_id,
            credential.public_key_material@,
            spec_signing_root(validator_signing_data(block_root)),
            header.spec_proposer_signature(),
        ) {
            Err(e) => Some(ConsensusError::Crypto(e)),
            Ok(()) => None,
        },
    }
}

/// Resolves the proposer's credential for `block_root` and the header's index
/// hint, then has the dispatcher verify the header's proposer signature over
/// the validator-message signing root (B1), under the credential's scheme. A
/// resolver failure stops before any dispatch; either failure is returned in
/// its own error class.
pub fn verify_header_signature<H: ConsensusHeader, R: ProposerCredentialResolver, D: SignatureDispatcher>(
    header: &H,
    block_root: &Root,
    resolver: &R,
    dispatcher: &D,
) -> (result: Result<(), ConsensusError>)
    ensures
        result == verdict_of(signature_error(*header, *block_root, *resolver, *dispatcher)),
        result matches Err(e) ==> (e is ProposerCredentialResolution || e is Crypto),
{
    let query = proposer_credential_query(header, block_root);
    let credential = match resolver.resolve_proposer_credential(query) {
        Ok(credential) => credential,
        Err(error) => {
            return Err(ConsensusError::ProposerCredentialResolution(error));
        },
    };
    let signing_root = match validator_signing_root(block_root) {
        Ok(root) => root,
        Err(error) => {
            return Err(error);
        },
    };
    let request = validator_signature_request(header, &credential, signing_root);
    match dispatcher.verify_validator_message(credential.scheme_id, &request) {
        Ok(()) => Ok(()),
        Err(error) => Err(ConsensusError::Crypto(error)),
    }
}

/// The first revalidation failure among the transactions from position
/// `start` on, in block order.
pub open spec fn revalidation_error<V: TransactionRevalidator>(
    transactions: Seq<TransactionEnvelope>,
    revalidator: V,
    policy: MultiAuthorizationPolicy,
    start: int,
) -> Option<ConsensusError>
    decreases transactions.len() - start,
{
    if start < 0 || start >= transactions.len() {
        None
    } else {
        match revalidator.spec_revalidate(transactions[start], policy) {
            Err(e) => Some(ConsensusError::TransactionValidation(e)),
            Ok(()) => revalidation_error(transactions, revalidator, policy, start + 1),
        }
    }
}

/// Revalidates every body transaction in block order under `policy` (B3); the
/// first failure stops the loop.
pub fn revalidate_body_transactions<B: ConsensusBody, V: TransactionRevalidator>(
    body: &B,
    revalidator: &V,
    multi_authorization_policy: MultiAuthorizationPolicy,
) -> (result: Result<(), ConsensusError>)
    ensures
        result == verdict_of(
            revalidation_error(body.spec_transactions(), *revalidator, multi_authorization_policy, 0),
        ),
        result matches Err(e) ==> e is TransactionValidation,
        body.spec_transactions().len() == 0 ==> result is Ok,
{
    let transactions = body.transactions();
    let mut i: usize = 0;
    while i < transactions.len()
        invariant
            0 <= i <= transactions@.len(),
            transactions@ == body.spec_transactions(),
            revalidation_error(transactions@, *revalidator, multi_authorization_policy, 0)
                == revalidation_error(transactions@, *revalidator, multi_authorization_policy, i as int),
        decreases transactions@.len() - i,
    {
        match revalidator.revalidate(&transactions[i], multi_authorization_policy) {
            Ok(()) => {},
            Err(error) => {
                return Err(ConsensusError::TransactionValidation(error));
            },
        }
        i += 1;
    }
    Ok(())
}

/// The error of the sidecar binding, if any: the sidecar naming another block,
/// or committing to another witnesses root than the header.
pub open spec fn sidecar_binding_error<H: ConsensusHeader, S: ConsensusSidecar>(
    header: H,
    block_root: Root,
    sidecar: S,
) -> Option<ConsensusError> {
    if sidecar.spec_block_root() != block_root {
        Some(
            ConsensusError::SidecarBlockRootMismatch(
                SidecarBlockRootMismatchError { expected: block_root, actual: sidecar.spec_block_root() },
            ),
        )
    } else if sidecar.spec_committed_root() != header.spec_execution_witnesses_root() {
        Some(
            ConsensusError::SidecarCommitmentMismatch(
                SidecarCommitmentMismatchError {
                    expected: header.spec_execution_witnesses_root(),
                    actual: sidecar.spec_committed_root(),
                },
            ),
        )
    } else {
        None
    }
}

/// The error of the sidecar stage, if any: a binding error, or else the
/// preparer's rejection of the witnesses as a state error.
pub open spec fn sidecar_error<H: ConsensusHeader, S: ConsensusSidecar, P: WitnessPreparer>(
    header: H,
    block_root: Root,
    sidecar: S,
    preparer: P,
) -> Option<ConsensusError> {
    match sidecar_binding_error(header, block_root, sidecar) {
        Some(e) => Some(e),
        None => match preparer.spec_prepare_witness(header, sidecar) {
            Err(e) => Some(ConsensusError::State(e)),
            Ok(()) => None,
        },
    }
}

/// What comparing an engine's result with the header's committed roots
/// gives: the engine's error, the first root mismatch, or the engine's
/// outcome itself.
pub open spec fn compare_execution<H: ConsensusHeader>(
    header: H,
    engine_result: Result<BlockExecutionOutcome, ExecutionError>,
) -> Result<BlockExecutionOutcome, ConsensusError> {
    match engine_result {
        Err(e) => Err(ConsensusError::Execution(e)),
        Ok(outcome) => if outcome.post_state_root != header.spec_state_root() {
            Err(
                ConsensusError::Execution(
                    ExecutionError::PostStateRootMismatch {
                        expected: header.spec_state_root(),
                        actual: outcome.post_state_root,
                    },
                ),
            )
        } else if outcome.receipts_root != header.spec_receipts_root() {
            Err(
                ConsensusError::Execution(
                    ExecutionError::ReceiptsRootMismatch {
                        expected: header.spec_receipts_root(),
                        actual: outcome.receipts_root,
                    },
                ),
            )
        } else {
            Ok(outcome)
        },
    }
}

/// Checks that the sidecar belongs to `block_root` and carries the header's
/// witnesses root, and only then has the preparer verify its witnesses (B4).
pub fn verify_sidecar_binding<H: ConsensusHeader, S: ConsensusSidecar, P: WitnessPreparer>(
    header: &H,
    block_root: &Root,
    sidecar: &S,
    preparer: &P,
) -> (result: Result<(), ConsensusError>)
    ensures
        sidecar_binding_error(*header, *block_root, *sidecar) matches Some(e) ==> result == Err::<
            (),
            ConsensusError,
        >(e),
        sidecar_binding_error(*header, *block_root, *sidecar) is None ==> (result is Ok
            || result matches Err(ConsensusError::State(_))),
        result == verdict_of(sidecar_error(*header, *block_root, *sidecar, *preparer)),
{
    let sidecar_block_root = sidecar.block_root();
    if !roots_equal(&sidecar_block_root, block_root) {
        return Err(
            ConsensusError::SidecarBlockRootMismatch(
                SidecarBlockRootMismatchError { expected: *block_root, actual: sidecar_block_root },
            ),
        );
    }
    let committed = sidecar.committed_root();
    let expected = header.execution_witnesses_root();
    if !roots_equal(&committed, &expected) {
        return Err(
            ConsensusError::SidecarCommitmentMismatch(
                SidecarCommitmentMismatchError { expected, actual: committed },
            ),
        );
    }
    match preparer.prepare_witness(header, sidecar) {
        Ok(()) => Ok(()),
        Err(error) => Err(ConsensusError::State(error)),
    }
}

/// Executes the block with `engine` and compares the outcome with the
/// header's committed state and receipts roots (B5).
pub fn execute_and_compare<H: ConsensusHeader, B: ConsensusBody, S: ConsensusSidecar, E: BlockExecutionEngine>(
    header: &H,
    body: &B,
    sidecar: &S,
    engine: &E,
) -> (result: Result<BlockExecutionOutcome, ConsensusError>)
    ensures
        result matches Ok(outcome) ==> outcome.post_state_root == header.spec_state_root()
            && outcome.receipts_root == header.spec_receipts_root(),
        result matches Err(e) ==> e is Execution,
        exists|engine_result: Result<BlockExecutionOutcome, ExecutionError>|
            engine.executes(body.spec_transactions(), engine_result) && result == compare_execution(
                *header,
                engine_result,
            ),
{
    let engine_result = engine.execute_block(header, body, sidecar);
    let ghost answered = engine_result;
    let result = match engine_result {
        Ok(outcome) => {
            let committed = CommittedExecutionRoots {
                state_root: header.state_root(),
                receipts_root: header.receipts_root(),
            };
            match outcome.ensure_matches(&committed) {
                Ok(()) => Ok(outcome),
                Err(error) => Err(ConsensusError::Execution(error)),
            }
        },
        Err(error) => Err(ConsensusError::Execution(error)),
    };
    assert(engine.executes(body.spec_transactions(), answered) && result == compare_execution(
        *header,
        answered,
    ));
    result
}

/// A block header as carried on the wire.
#[derive(Debug, Clone, PartialEq, Eq)]
pub struct CanonicalBlockHeader {
    pub block_root: Root,
    pub block_number: u64,
    pub timestamp: u64,
    pub parent_root: Root,
    pub witness_bytes: u64,
    pub transactions_root: Root,
    pub execution_witnesses_root: Root,
    pub state_root: Root,
    pub receipts_root: Root,
    pub proposer_signature: Vec<u8>,
    pub proposer_index_hint: Option<u64>,
}

impl ProtocolObject for CanonicalBlockHeader {
    open spec fn spec_canonical_root(&self) -> Result<Seq<u8>, PrimitiveError> {
        Ok(self.block_root@)
    }

    fn canonical_root(&self) -> (root: Result<Root, PrimitiveError>) {
        Ok(self.block_root)
    }
}

impl ConsensusHeader for CanonicalBlockHeader {
    open spec fn spec_witness_bytes(&self) -> u64 {
        self.witness_bytes
    }

    open spec fn spec_transactions_root(&self) -> Root {
        self.transactions_root
    }

    open spec fn spec_execution_witnesses_root(&self) -> Root {
        self.execution_witnesses_root
    }

    open spec fn spec_state_root(&self) -> Root {
        self.state_root
    }

    open spec fn spec_receipts_root(&self) -> Root {
        self.receipts_root
    }

    open spec fn spec_proposer_signature(&self) -> Seq<u8> {
        self.proposer_signature@
    }

    open spec fn spec_proposer_index_hint(&self) -> Option<u64> {
        self.proposer_index_hint
    }

    fn witness_bytes(&self) -> (bytes: u64) {
        self.witness_bytes
    }

    fn transactions_root(&self) -> (root: Root) {
        self.transactions_root
    }

    fn execution_witnesses_root(&self) -> (root: Root) {
        self.execution_witnesses_root
    }

    fn state_root(&self) -> (root: Root) {
        self.state_root
    }

    fn receipts_root(&self) -> (root: Root) {
        self.receipts_root
    }

    fn proposer_signature(&self) -> (signature: &[u8]) {
        self.proposer_signature.as_slice()
    }

    fn proposer_index_hint(&self) -> (hint: Option<u64>) {
        self.proposer_index_hint
    }
}

/// A block body: its transactions and the root the header binds them by.
#[derive(Debug, Clone, PartialEq, Eq, Default)]
pub struct CanonicalBlockBody {
    pub transactions: Vec<TransactionEnvelope>,
    pub transactions_root: Root,
}

impl ConsensusBody for CanonicalBlockBody {
    open spec fn spec_transactions_root(&self) -> Result<Root, PrimitiveError> {
        Ok(self.transactions_root)
    }

    open spec fn spec_transactions(&self) -> Seq<TransactionEnvelope> {
        self.transactions@
    }

    fn transactions_root(&self) -> (root: Result<Root, PrimitiveError>) {
        Ok(self.transactions_root)
    }

    fn transactions(&self) -> (transactions: &[TransactionEnvelope]) {
        self.transactions.as_slice()
    }
}

/// A block sidecar: the witnesses that stateless execution needs.
#[derive(Debug, Clone, PartialEq, Eq, Default)]
pub struct CanonicalBlockSidecar {
    pub block_root: Root,
    pub execution_witnesses_root: Root,
    pub witnesses: Vec<StateWitness>,
}

impl ConsensusSidecar for CanonicalBlockSidecar {
    open spec fn spec_block_root(&self) -> Root {
        self.block_root
    }

    open spec fn spec_committed_root(&self) -> Root {
        self.execution_witnesses_root
    }

    fn block_root(&self) -> (root: Root) {
        self.block_root
    }

    fn committed_root(&self) -> (root: Root) {
        self.execution_witnesses_root
    }
}

/// A whole block: header, body and sidecar.
#[derive(Debug, Clone, PartialEq, Eq)]
pub struct CanonicalBlock {
    pub header: CanonicalBlockHeader,
    pub body: CanonicalBlockBody,
    pub sidecar: CanonicalBlockSidecar,
}

impl CanonicalBlock {
    /// The three parts of the block, borrowed.
    pub fn split(&self) -> (parts: (&CanonicalBlockHeader, &CanonicalBlockBody, &CanonicalBlockSidecar))
        ensures
            *parts.0 == self.header,
            *parts.1 == self.body,
            *parts.2 == self.sidecar,
    {
        (&self.header, &self.body, &self.sidecar)
    }
}

/// The roots a successful import establishes.
#[derive(Debug, Clone, Copy, PartialEq, Eq)]
pub struct BlockImportOutcome {
    pub block_root: Root,
    pub post_state_root: Root,
    pub receipts_root: Root,
}

/// The services block import calls out to.
pub struct BlockImportServices<'a, R, D, V, P, E> {
    pub resolver: &'a R,
    pub dispatcher: &'a D,
    pub revalidator: &'a V,
    pub preparer: &'a P,
    pub execution_engine: &'a E,
}

/// The configuration of block import.
#[derive(Debug, Clone, Copy, PartialEq, Eq, Default)]
pub struct BlockImportConfig {
    pub header_prefilter: HeaderPrefilterConfig,
    pub multi_authorization_policy: MultiAuthorizationPolicy,
}

/// The block root a header's canonical root names, when it has one.
pub open spec fn spec_block_root<H: ConsensusHeader>(header: H) -> Root {
    choose|root: Root| header.spec_canonical_root() == Ok::<Seq<u8>, PrimitiveError>(root@)
}

/// The block root a header names is the root its canonical root holds.
pub proof fn lemma_block_root<H: ConsensusHeader>(header: H, root: Root)
    requires
        header.spec_canonical_root() == Ok::<Seq<u8>, PrimitiveError>(root@),
    ensures
        spec_block_root(header) == root,
{
    let chosen = spec_block_root(header);
    assert(header.spec_canonical_root() == Ok::<Seq<u8>, PrimitiveError>(chosen@));
    assert(chosen =~= root);
}

/// The first failing import stage before execution, if any, in the
/// documented order: header prefilter (B0), body binding (B2), proposer
/// signature (B1), revalidation of every body transaction under the
/// configured policy (B3), sidecar binding and witnesses (B4).
pub open spec fn import_error_before_execution<
    H: ConsensusHeader,
    B: ConsensusBody,
    S: ConsensusSidecar,
    R: ProposerCredentialResolver,
    D: SignatureDispatcher,
    V: TransactionRevalidator,
    P: WitnessPreparer,
>(
    config: BlockImportConfig,
    header: H,
    body: B,
    sidecar: S,
    resolver: R,
    dispatcher: D,
    revalidator: V,
    preparer: P,
) -> Option<ConsensusError> {
    let block_root = spec_block_root(header);
    match prefilter_error(header, config.header_prefilter) {
        Some(e) => Some(e),
        None => match body_binding_error(header, body) {
            Some(e) => Some(e),
            None => match signature_error(header, block_root, resolver, dispatcher) {
                Some(e) => Some(e),
                None => match revalidation_error(
                    body.spec_transactions(),
                    revalidator,
                    config.multi_authorization_policy,
                    0,
                ) {
                    Some(e) => Some(e),
                    None => sidecar_error(header, block_root, sidecar, preparer),
                },
            },
        },
    }
}

/// What import gives once every stage before execution passed: the
/// compared engine result, with the header's block root.
pub open spec fn import_result<H: ConsensusHeader>(
    header: H,
    engine_result: Result<BlockExecutionOutcome, ExecutionError>,
) -> Result<BlockImportOutcome, ConsensusError> {
    match compare_execution(header, engine_result) {
        Err(e) => Err(e),
        Ok(outcome) => Ok(
            BlockImportOutcome {
                block_root: spec_block_root(header),
                post_state_root: outcome.post_state_root,
                receipts_root: outcome.receipts_root,
            },
        ),
    }
}

/// Imports blocks through the documented stage order.
#[derive(Debug, Clone, Copy, PartialEq, Eq, Default)]
pub struct BlockImportPipeline {
    config: BlockImportConfig,
}

impl BlockImportPipeline {
    /// The configuration the pipeline runs with.
    pub closed spec fn spec_config(&self) -> BlockImportConfig {
        self.config
    }

    /// A pipeline with `config`.
    pub fn new(config: BlockImportConfig) -> (pipeline: Self)
        ensures
            pipeline.spec_config() == config,
    {
        BlockImportPipeline { config }
    }

    /// The configuration the pipeline runs with.
    pub fn config(&self) -> (config: BlockImportConfig)
        ensures
            config == self.spec_config(),
    {
        self.config
    }

    /// Imports a block: header prefilter (B0), body binding (B2), proposer
    /// signature (B1), transaction revalidation (B3), sidecar binding (B4),
    /// then execution against the committed roots (B5). The two structural
    /// checks run before any service is called; the first failure is
    /// returned.
    pub fn import_block<
        H: ConsensusHeader,
        B: ConsensusBody,
        S: ConsensusSidecar,
        R: ProposerCredentialResolver,
        D: SignatureDispatcher,
        V: TransactionRevalidator,
        P: WitnessPreparer,
        E: BlockExecutionEngine,
    >(
        &self,
        header: &H,
        body: &B,
        sidecar: &S,
        services: BlockImportServices<'_, R, D, V, P, E>,
    ) -> (result: Result<BlockImportOutcome, ConsensusError>)
        ensures
            import_error_before_execution(
                self.spec_config(),
                *header,
                *body,
                *sidecar,
                *services.resolver,
                *services.dispatcher,
                *services.revalidator,
                *services.preparer,
            ) matches Some(e) ==> result == Err::<BlockImportOutcome, ConsensusError>(e),
            import_error_before_execution(
                self.spec_config(),
                *header,
                *body,
                *sidecar,
                *services.resolver,
                *services.dispatcher,
                *services.revalidator,
                *services.preparer,
            ) is None ==> exists|engine_result: Result<BlockExecutionOutcome, ExecutionError>|
                services.execution_engine.executes(body.spec_transactions(), engine_result)
                    && result == import_result(*header, engine_result),
            prefilter_error(*header, self.spec_config().header_prefilter) matches Some(e) ==> result
                == Err::<BlockImportOutcome, ConsensusError>(e),
            prefilter_error(*header, self.spec_config().header_prefilter) is None ==> (
            body_binding_error(*header, *body) matches Some(e) ==> result == Err::<
                BlockImportOutcome,
                ConsensusError,
            >(e)),
            result matches Ok(outcome) ==> {
                &&& prefilter_error(*header, self.spec_config().header_prefilter) is None
                &&& body_binding_error(*header, *body) is None
                &&& header.spec_canonical_root() == Ok::<Seq<u8>, PrimitiveError>(
                    outcome.block_root@,
                )
                &&& sidecar_binding_error(*header, outcome.block_root, *sidecar) is None
                &&& outcome.post_state_root == header.spec_state_root()
                &&& outcome.receipts_root == header.spec_receipts_root()
            },
    {
        let header_outcome = prefilter_header(header, self.config.header_prefilter)?;
        proof {
            lemma_block_root(*header, header_outcome.block_root);
        }
        verify_body_binding(header, body)?;
        verify_header_signature(
            header,
            &header_outcome.block_root,
            services.resolver,
            services.dispatcher,
        )?;
        revalidate_body_transactions(
            body,
            services.revalidator,
            self.config.multi_authorization_policy,
        )?;
        verify_sidecar_binding(header, &header_outcome.block_root, sidecar, services.preparer)?;
        let compared = execute_and_compare(header, body, sidecar, services.execution_engine);
        let ghost engine_result = choose|engine_result: Result<BlockExecutionOutcome, ExecutionError>|
            services.execution_engine.executes(body.spec_transactions(), engine_result) && compared
                == compare_execution(*header, engine_result);
        let result = match compared {
            Ok(execution_outcome) => Ok(
                BlockImportOutcome {
                    block_root: header_outcome.block_root,
                    post_state_root: execution_outcome.post_state_root,
                    receipts_root: execution_outcome.receipts_root,
                },
            ),
            Err(error) => Err(error),
        };
        assert(services.execution_engine.executes(body.spec_transactions(), engine_result)
            && result == import_result(*header, engine_result));
        result
    }
}

} // verus!
