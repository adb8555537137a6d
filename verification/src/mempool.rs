//! The admission failures that transaction validation reports, and how each is
//! classified for network peers.

use vstd::prelude::*;

use crate::crypto::{SignatureSizeExceededError, UnsupportedSchemeError, VerificationFailure};
use crate::primitives::{spec_primitive_outcome, PrimitiveError, ValidationOutcome};
use crate::transactions::GasPrice;

verus! {

/// Which fee lane a floor applies to.
#[derive(Debug, Clone, Copy, PartialEq, Eq)]
pub enum FeeLane {
    Payload,
    Witness,
}

/// A fee below the lane's floor.
#[derive(Debug, Clone, Copy, PartialEq, Eq)]
pub struct FeeFloorError {
    pub lane: FeeLane,
    pub required: GasPrice,
    pub actual: GasPrice,
}

/// A nonce outside the replay lane.
#[derive(Debug, Clone, Copy, PartialEq, Eq)]
pub struct NoncePolicyError {
    pub context: &'static str,
}

/// A signing root that could not be built locally.
#[derive(Debug, Clone, Copy, PartialEq, Eq)]
pub struct SigningRootUnavailableError {
    pub context: &'static str,
}

/// Fewer (or more) authorization materials than authorizations.
#[derive(Debug, Clone, Copy, PartialEq, Eq)]
pub struct AuthorizationMaterialCountError {
    pub expected: usize,
    pub actual: usize,
}

/// How envelopes with several authorizations are judged.
#[derive(Debug, Clone, Copy, PartialEq, Eq, Default)]
pub enum MultiAuthorizationPolicy {
    /// Every authorization present must verify.
    #[default]
    RequireAll,
}

/// Failures of transaction admission.
#[derive(Debug, Clone, Copy, PartialEq, Eq)]
pub enum ValidationError {
    Primitive(PrimitiveError),
    UnsupportedScheme(UnsupportedSchemeError),
    SignatureSizeExceeded(SignatureSizeExceededError),
    SignatureVerification(VerificationFailure),
    FeeFloor(FeeFloorError),
    NoncePolicy(NoncePolicyError),
    SigningRootUnavailable(SigningRootUnavailableError),
    AuthorizationMaterialCount(AuthorizationMaterialCountError),
}

/// The network classification of an admission failure: invalid objects and
/// signatures are rejected, fee and nonce policy is a policy reject, and
/// local gaps (missing material, no signing root) are internal (`None`).
pub open spec fn spec_admission_outcome(error: ValidationError) -> Option<ValidationOutcome> {
    match error {
        ValidationError::Primitive(e) => spec_primitive_outcome(e),
        ValidationError::UnsupportedScheme(_)
        | ValidationError::SignatureSizeExceeded(_)
        | ValidationError::SignatureVerification(_) => Some(ValidationOutcome::Reject),
        ValidationError::FeeFloor(_) | ValidationError::NoncePolicy(_) => Some(
            ValidationOutcome::PolicyReject,
        ),
        ValidationError::SigningRootUnavailable(_)
        | ValidationError::AuthorizationMaterialCount(_) => None,
    }
}

impl ValidationError {
    /// Classifies the failure for network peers.
    pub fn network_validation_outcome(&self) -> (outcome: Option<ValidationOutcome>)
        ensures
            outcome == spec_admission_outcome(*self),
    {
        match self {
            ValidationError::Primitive(e) => e.network_validation_outcome(),
            ValidationError::UnsupportedScheme(_)
            | ValidationError::SignatureSizeExceeded(_)
            | ValidationError::SignatureVerification(_) => Some(ValidationOutcome::Reject),
            ValidationError::FeeFloor(_) | ValidationError::NoncePolicy(_) => Some(
                ValidationOutcome::PolicyReject,
            ),
            ValidationError::SigningRootUnavailable(_)
            | ValidationError::AuthorizationMaterialCount(_) => None,
        }
    }
}

} // verus!
