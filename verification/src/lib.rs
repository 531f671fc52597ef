//! Admission control for hardware-attested agents.
//!
//! The crate keeps an owner-curated registry of approved TEE measurement
//! bundles and platform identifiers, verifies remote-attestation quotes,
//! stores per-agent records with an expiry, and re-checks every stored
//! record at use time, revoking it the moment any validity condition fails.

use vstd::prelude::*;

pub mod attest;
pub mod contract;
pub mod errors;
pub mod hexcode;
pub mod laws;
pub mod measurements;
pub mod views;

verus! {

/// A caller identity: an account name in the host environment.
pub type AccountId = String;

/// String equality, stated over the character sequences.
pub fn string_eq(a: &String, b: &String) -> (r: bool)
    ensures
        r == (a@ == b@),
{
    *a == *b
}

} // verus!
