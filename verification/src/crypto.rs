//! Signature-dispatch boundary: verification paths, size limits and the
//! classification of cryptographic failures for network peers.

use vstd::prelude::*;

use crate::primitives::{Root, ValidationOutcome};

verus! {

/// The scheme identifier of Ed25519.
pub const SCHEME_ID_ED25519: u8 = 0;

/// Which path a signature is verified on.
#[derive(Debug, Clone, Copy, PartialEq, Eq, Structural)]
pub enum VerificationPath {
    TransactionAuthorization,
    ValidatorMessage,
}

/// Which rule a signature-size limit comes from.
#[derive(Debug, Clone, Copy, PartialEq, Eq, Structural)]
pub enum SignatureLimitKind {
    RepositoryRule,
    LocalTransportGuard,
    Scheme,
}

/// A scheme that no verifier is registered for.
#[derive(Debug, Clone, Copy, PartialEq, Eq)]
pub struct UnsupportedSchemeError {
    pub scheme_id: u8,
}

/// A signature longer than a limit allows.
#[derive(Debug, Clone, Copy, PartialEq, Eq)]
pub struct SignatureSizeExceededError {
    pub max_size: usize,
    pub actual_size: usize,
    pub path: VerificationPath,
    pub kind: SignatureLimitKind,
}

/// A signature that did not verify.
#[derive(Debug, Clone, Copy, PartialEq, Eq)]
pub struct VerificationFailure {
    pub scheme_id: u8,
    pub context: &'static str,
}

/// Failures of signature verification.
#[derive(Debug, Clone, Copy, PartialEq, Eq)]
pub enum CryptoError {
    UnsupportedScheme(UnsupportedSchemeError),
    SignatureSizeExceeded(SignatureSizeExceededError),
    VerificationFailed(VerificationFailure),
}

/// Whether the failure is a size guard of the local transport on the
/// validator path: the only cryptographic failure that is policy, not invalid.
pub open spec fn is_local_validator_size_guard(error: CryptoError) -> bool {
    error matches CryptoError::SignatureSizeExceeded(e) && e.path
        == VerificationPath::ValidatorMessage && e.kind == SignatureLimitKind::LocalTransportGuard
}

/// The network classification of a cryptographic failure.
pub open spec fn spec_crypto_outcome(error: CryptoError) -> Option<ValidationOutcome> {
    if is_local_validator_size_guard(error) {
        Some(ValidationOutcome::PolicyReject)
    } else {
        Some(ValidationOutcome::Reject)
    }
}

impl CryptoError {
    /// Classifies the failure for network peers: a validator-path signature
    /// over the local transport guard is a policy reject, every other failure
    /// rejects the object.
    pub fn network_validation_outcome(&self) -> (outcome: Option<ValidationOutcome>)
        ensures
            outcome == spec_crypto_outcome(*self),
    {
        match self {
            CryptoError::UnsupportedScheme(_) | CryptoError::VerificationFailed(_) => Some(
                ValidationOutcome::Reject,
            ),
            CryptoError::SignatureSizeExceeded(error) => {
                if error.path == VerificationPath::ValidatorMessage && error.kind
                    == SignatureLimitKind::LocalTransportGuard {
                    Some(ValidationOutcome::PolicyReject)
                } else {
                    Some(ValidationOutcome::Reject)
                }
            },
        }
    }
}

/// What a verifier checks: a signature by a public key over a signing root.
#[derive(Debug, Clone, Copy)]
pub struct SignatureVerificationRequest<'a> {
    pub public_key_material: &'a [u8],
    pub signing_root: Root,
    pub signature: &'a [u8],
}

/// Routes verification requests to scheme verifiers; implemented by callers.
pub trait SignatureDispatcher {
    fn verify_transaction_authorization(
        &self,
        scheme_id: u8,
        request: &SignatureVerificationRequest<'_>,
    ) -> Result<(), CryptoError>;

    /// The dispatcher's verdict on a validator message: a signature by
    /// `public_key_material` under `scheme_id` over `signing_root`.
    /// Left unknown unless an implementation defines it.
    closed spec fn spec_validator_verdict(
        &self,
        scheme_id: u8,
        public_key_material: Seq<u8>,
        signing_root: Seq<u8>,
        signature: Seq<u8>,
    ) -> Result<(), CryptoError> {
        arbitrary()
    }

    fn verify_validator_message(
        &self,
        scheme_id: u8,
        request: &SignatureVerificationRequest<'_>,
    ) -> (result: Result<(), CryptoError>)
        ensures
            result == self.spec_validator_verdict(
                scheme_id,
                request.public_key_material@,
                request.signing_root@,
                request.signature@,
            ),
    ;
}

} // verus!
