//! Error taxonomy: owner-authorization, approval-consistency,
//! attestation-verification, authorization-gate and invalid-input errors.

use vstd::prelude::*;

verus! {

/// A machine-readable reason why an agent record was removed.  Several
/// reasons may be reported together in one removal event.
#[derive(Clone, Copy, Debug, PartialEq, Eq)]
pub enum AgentRemovalReason {
    /// The record's `valid_until_ms` lies in the past.
    ExpiredAttestation,
    /// The record's measurement bundle is no longer approved.
    InvalidMeasurements,
    /// The record's platform id is no longer approved.
    InvalidPpid,
    /// Local mode only: the identity is not on the local whitelist.
    NotWhitelistedForLocal,
    /// The owner removed the record explicitly.
    ManualRemoval,
}

/// Why verifying an attestation quote failed.  Registration is rejected and
/// no agent record is created or modified.
#[derive(Clone, Copy, Debug, PartialEq, Eq)]
pub enum VerificationError {
    /// The quote's cryptographic chain did not validate (or the quote or
    /// collateral could not even be decoded).
    BadSignature,
    /// The collateral's TCB status is not up to date as of the given time.
    StaleOrRevokedCollateral,
    /// The quote carries no TD report to take measurements from.
    NoReportData,
    /// The quote's report data does not match the caller identity.
    IdentityMismatch,
    /// The extracted measurement bundle is not in the approved set.
    MeasurementNotApproved,
    /// The extracted platform id is not in the approved set.
    PlatformNotApproved,
}

/// The terminal error of a contract call.
#[derive(Clone, Debug, PartialEq, Eq)]
pub enum ContractError {
    /// The caller is not the current owner; nothing was changed.
    NotOwner,
    /// Removal of a measurement bundle that is not in the approved list.
    MeasurementsNotApproved,
    /// Removal of a platform id that is not in the approved list.
    PpidNotApproved,
    /// Local mode registration by an identity outside the local whitelist.
    NotWhitelisted,
    /// No agent record exists for the identity.
    NotRegistered,
    /// Attestation verification failed during registration.
    Verification(VerificationError),
    /// The authorization gate failed: the agent record was deleted and the
    /// carried reasons form the emitted removal event.
    AgentInvalid(Vec<AgentRemovalReason>),
    /// The requested key type is neither `Ecdsa` nor `Eddsa`.
    InvalidKeyType,
}

} // verus!
