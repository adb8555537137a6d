//! Shared scalar types, validation classification, domain separation and the
//! error taxonomy that the primitive layer reports.

use vstd::prelude::*;

use crate::hashing::{sha256, spec_sha256};

verus! {

/// A 32-byte commitment root.
pub type Root = [u8; 32];

/// A 32-byte opaque value.
pub type Bytes32 = [u8; 32];

/// A 31-byte tree stem.
pub type Bytes31 = [u8; 31];

/// A four-byte domain type.
pub type Bytes4 = [u8; 4];

/// A 20-byte execution address.
pub type ExecutionAddress = [u8; 20];

/// Width in bytes of a domain type.
pub const DOMAIN_TYPE_WIDTH: usize = 4;

/// The domain type of transaction authorizations.
pub const DOMAIN_TX_SHELL: Bytes4 = [0x01, 0x00, 0x00, 0x00];

/// The domain type of validator messages.
pub const DOMAIN_VALIDATOR_MESSAGE: Bytes4 = [0x02, 0x00, 0x00, 0x00];

/// Whether two roots hold the same bytes.
pub fn roots_equal(left: &Root, right: &Root) -> (equal: bool)
    ensures
        equal == (*left == *right),
        equal == (left@ == right@),
{
    let mut index: usize = 0;
    while index < 32
        invariant
            0 <= index <= 32,
            forall|j: int| 0 <= j < index ==> left[j] == right[j],
        decreases 32 - index,
    {
        if left[index] != right[index] {
            assert(!(*left =~= *right));
            assert(left@[index as int] != right@[index as int]);
            return false;
        }
        index += 1;
    }
    assert(*left =~= *right);
    true
}

/// How a network-facing validation attempt ended.
#[derive(Debug, Clone, Copy, PartialEq, Eq, Structural)]
pub enum ValidationOutcome {
    Accept,
    Reject,
    PolicyReject,
}

/// The documented validation stages: `T*` for transactions, `B*` for blocks.
#[derive(Debug, Clone, Copy, PartialEq, Eq, Structural)]
pub enum ValidationStage {
    T0,
    T1,
    T2,
    T3,
    T4,
    B0,
    B1,
    B2,
    B3,
    B4,
    B5,
}

/// Which signing domain an object root is bound to.
#[derive(Debug, Clone, Copy, PartialEq, Eq, Structural)]
pub enum DomainSelector {
    TransactionAuthorization,
    ValidatorMessage,
}

/// The four domain-type bytes of a selector.
pub open spec fn spec_domain_type(domain: DomainSelector) -> Seq<u8> {
    match domain {
        DomainSelector::TransactionAuthorization => seq![1u8, 0u8, 0u8, 0u8],
        DomainSelector::ValidatorMessage => seq![2u8, 0u8, 0u8, 0u8],
    }
}

/// Domain separation failures. No selector fails today; the type keeps the
/// signature stable for selectors that may need configuration.
#[derive(Debug, Clone, Copy, PartialEq, Eq)]
pub enum DomainError {
    UnsupportedDomain,
}

impl DomainSelector {
    /// The human-readable label of the selector.
    pub fn label(self) -> (label: &'static str)
        ensures
            self == DomainSelector::TransactionAuthorization ==> label@ == "transaction-authorization"@,
            self == DomainSelector::ValidatorMessage ==> label@ == "validator-message"@,
    {
        match self {
            DomainSelector::TransactionAuthorization => "transaction-authorization",
            DomainSelector::ValidatorMessage => "validator-message",
        }
    }

    /// The four domain-type bytes bound into signing data. Always succeeds.
    pub fn domain_type(self) -> (result: Result<Bytes4, DomainError>)
        ensures
            result matches Ok(bytes) && bytes@ == spec_domain_type(self),
    {
        let bytes: Bytes4 = match self {
            DomainSelector::TransactionAuthorization => DOMAIN_TX_SHELL,
            DomainSelector::ValidatorMessage => DOMAIN_VALIDATOR_MESSAGE,
        };
        assert(bytes@ =~= spec_domain_type(self));
        Ok(bytes)
    }
}

/// An object root together with the domain it is signed under.
#[derive(Debug, Clone, Copy, PartialEq, Eq)]
pub struct SigningData {
    pub object_root: Root,
    pub domain_type: Bytes4,
}

/// Binds `object_root` to the domain of `domain`. Always succeeds.
pub fn build_signing_data(object_root: Root, domain: DomainSelector) -> (result: Result<
    SigningData,
    DomainError,
>)
    ensures
        result matches Ok(data) && data.object_root == object_root && data.domain_type@
            == spec_domain_type(domain),
{
    let domain_type = domain.domain_type()?;
    Ok(SigningData { object_root, domain_type })
}

/// The two 32-byte chunks whose digest is the signing root: the object root,
/// then the domain type padded with zeros.
pub open spec fn spec_signing_chunks(data: SigningData) -> Seq<u8> {
    data.object_root@ + data.domain_type@ + Seq::new(28, |i: int| 0u8)
}

/// The root that signatures over `data` commit to.
pub open spec fn spec_signing_root(data: SigningData) -> Seq<u8> {
    spec_sha256(spec_signing_chunks(data))
}

/// Computes the signing root of `data`: the digest of its object root followed
/// by its zero-padded domain type.
pub fn signing_root(data: &SigningData) -> (root: Result<Root, PrimitiveError>)
    ensures
        root matches Ok(r) && r@ == spec_signing_root(*data),
{
    let mut chunks: Vec<u8> = Vec::new();
    let mut i: usize = 0;
    while i < 32
        invariant
            0 <= i <= 32,
            chunks@ =~= data.object_root@.take(i as int),
        decreases 32 - i,
    {
        chunks.push(data.object_root[i]);
        i += 1;
    }
    let mut j: usize = 0;
    while j < 4
        invariant
            0 <= j <= 4,
            chunks@ =~= data.object_root@ + data.domain_type@.take(j as int),
        decreases 4 - j,
    {
        chunks.push(data.domain_type[j]);
        j += 1;
    }
    let mut k: usize = 0;
    while k < 28
        invariant
            0 <= k <= 28,
            chunks@ =~= data.object_root@ + data.domain_type@ + Seq::new(k as nat, |i: int| 0u8),
        decreases 28 - k,
    {
        chunks.push(0u8);
        k += 1;
    }
    assert(chunks@ =~= spec_signing_chunks(*data));
    Ok(sha256(chunks.as_slice()))
}

/// SSZ input that could not be decoded.
#[derive(Debug, Clone, Copy, PartialEq, Eq)]
pub struct MalformedSszError {
    pub context: &'static str,
}

/// A payload variant tag that the codec does not know.
#[derive(Debug, Clone, Copy, PartialEq, Eq)]
pub struct UnsupportedPayloadVariantError {
    pub tag: u8,
}

/// An authorization that signs a different payload root.
#[derive(Debug, Clone, Copy, PartialEq, Eq)]
pub struct PayloadRootMismatchError {
    pub index: usize,
}

/// An envelope whose authorization count is outside the accepted range.
#[derive(Debug, Clone, Copy, PartialEq, Eq)]
pub struct AuthorizationCountError {
    pub max: usize,
    pub actual: usize,
}

/// A signature longer than the wire rule allows.
#[derive(Debug, Clone, Copy, PartialEq, Eq)]
pub struct PrimitiveSignatureSizeError {
    pub max_size: usize,
    pub actual_size: usize,
}

/// Failures of the primitive layer: decoding, root binding and wire limits.
#[derive(Debug, Clone, Copy, PartialEq, Eq)]
pub enum PrimitiveError {
    MalformedSsz(MalformedSszError),
    UnsupportedPayloadVariant(UnsupportedPayloadVariantError),
    PayloadRootMismatch(PayloadRootMismatchError),
    AuthorizationCount(AuthorizationCountError),
    SignatureSizeExceeded(PrimitiveSignatureSizeError),
    SigningRootConstruction(&'static str),
    Unimplemented(&'static str),
}

/// The network classification of a primitive failure: malformed or invalid
/// objects are rejected, local construction gaps are internal (`None`).
pub open spec fn spec_primitive_outcome(error: PrimitiveError) -> Option<ValidationOutcome> {
    match error {
        PrimitiveError::SigningRootConstruction(_) | PrimitiveError::Unimplemented(_) => None,
        _ => Some(ValidationOutcome::Reject),
    }
}

impl PrimitiveError {
    /// Classifies the failure for network peers.
    pub fn network_validation_outcome(&self) -> (outcome: Option<ValidationOutcome>)
        ensures
            outcome == spec_primitive_outcome(*self),
    {
        match self {
            PrimitiveError::SigningRootConstruction(_) | PrimitiveError::Unimplemented(_) => None,
            _ => Some(ValidationOutcome::Reject),
        }
    }
}

/// Credential bytes that the scheme could not decode.
#[derive(Debug, Clone, Copy, PartialEq, Eq)]
pub struct InvalidCredentialEncodingError {
    pub scheme_id: u8,
    pub context: &'static str,
}

/// Failures of proposer-credential resolution.
#[derive(Debug, Clone, Copy, PartialEq, Eq)]
pub enum ProposerCredentialResolutionError {
    ResolverUnavailable,
    InvalidCredentialEncoding(InvalidCredentialEncodingError),
}

impl ProposerCredentialResolutionError {
    /// Whether the failure shows the block itself to be invalid (malformed
    /// credential bytes) rather than a local resolution problem.
    pub fn is_consensus_invalid(&self) -> (invalid: bool)
        ensures
            invalid == (*self is InvalidCredentialEncoding),
    {
        match self {
            ProposerCredentialResolutionError::InvalidCredentialEncoding(_) => true,
            _ => false,
        }
    }
}

/// The scheme and public key a proposer signs with.
#[derive(Debug, Clone, PartialEq, Eq)]
pub struct ProposerCredential {
    pub scheme_id: u8,
    pub public_key_material: Vec<u8>,
}

/// What a resolver is asked for: the block being signed and an optional
/// proposer index.
#[derive(Debug, Clone, Copy, PartialEq, Eq)]
pub struct ProposerCredentialQuery {
    pub block_root: Root,
    pub proposer_index_hint: Option<u64>,
}

/// Whether an exec root result agrees with a spec root result.
pub open spec fn root_result_matches(
    root: Result<Root, PrimitiveError>,
    spec_root: Result<Seq<u8>, PrimitiveError>,
) -> bool {
    match (root, spec_root) {
        (Ok(r), Ok(s)) => r@ == s,
        (Err(e), Err(f)) => e == f,
        _ => false,
    }
}

/// An object with a canonical root.
pub trait ProtocolObject {
    /// The canonical root, or why it cannot be computed.
    spec fn spec_canonical_root(&self) -> Result<Seq<u8>, PrimitiveError>;

    fn canonical_root(&self) -> (root: Result<Root, PrimitiveError>)
        ensures
            root_result_matches(root, self.spec_canonical_root()),
    ;
}

/// Transaction fields every payload carries; implemented by callers.
pub trait TransactionMetadata {
    fn chain_id(&self) -> &crate::transactions::ChainId;

    fn nonce(&self) -> u64;

    fn gas_limit(&self) -> u64;
}

/// Per-account metadata of a state; implemented by callers.
pub trait StateMetadata {
    fn account_nonce(&self, address: &ExecutionAddress) -> Option<u64>;

    fn account_balance(&self, address: &ExecutionAddress) -> Option<crate::transactions::U256>;
}

/// Looks up the credential of a block's proposer; implemented by callers.
pub trait ProposerCredentialResolver {
    /// The resolver's answer to `query`.
    /// Left unknown unless an implementation defines it.
    closed spec fn spec_resolve(&self, query: ProposerCredentialQuery) -> Result<
        ProposerCredential,
        ProposerCredentialResolutionError,
    > {
        arbitrary()
    }

    fn resolve_proposer_credential(&self, query: ProposerCredentialQuery) -> (result: Result<
        ProposerCredential,
        ProposerCredentialResolutionError,
    >)
        ensures
            result == self.spec_resolve(query),
    ;
}

} // verus!
