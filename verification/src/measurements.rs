//! Measurement bundles and platform identifiers extracted from TEE
//! attestation quotes, with byte-wise equality.

use vstd::prelude::*;
use vstd::array::spec_array_fill_for_copy_type;

verus! {

/// Runtime measurement registers of a TDX guest: the virtual firmware
/// (`mrtd`) and the three runtime measurement registers covering the
/// bootloader and configuration, the OS kernel, and the OS application.
#[derive(Clone, Copy, Debug, PartialEq, Eq)]
pub struct Measurements {
    pub mrtd: [u8; 48],
    pub rtmr0: [u8; 48],
    pub rtmr1: [u8; 48],
    pub rtmr2: [u8; 48],
}

/// A full measurement bundle: the runtime registers plus the digest of the
/// key-provider event and the hash payload of the application compose file.
/// Identifies "what software image is running".
#[derive(Clone, Copy, Debug, PartialEq, Eq)]
pub struct FullMeasurements {
    pub rtmrs: Measurements,
    pub key_provider_event_digest: [u8; 48],
    pub app_compose_hash_payload: [u8; 32],
}

/// A 16-byte hardware platform identifier (PPID) extracted from a quote.
#[derive(Clone, Copy, Debug, PartialEq, Eq)]
pub struct Ppid {
    pub bytes: [u8; 16],
}

impl Measurements {
    /// The all-zero sentinel value used when hardware attestation is disabled.
    pub open spec fn spec_zeroed() -> Measurements {
        Measurements {
            mrtd: spec_array_fill_for_copy_type(0u8),
            rtmr0: spec_array_fill_for_copy_type(0u8),
            rtmr1: spec_array_fill_for_copy_type(0u8),
            rtmr2: spec_array_fill_for_copy_type(0u8),
        }
    }
}

impl Default for Measurements {
    fn default() -> (r: Self)
        ensures
            r == Measurements::spec_zeroed(),
    {
        Measurements { mrtd: [0u8; 48], rtmr0: [0u8; 48], rtmr1: [0u8; 48], rtmr2: [0u8; 48] }
    }
}

impl FullMeasurements {
    /// The all-zero sentinel bundle used when hardware attestation is disabled.
    pub open spec fn spec_zeroed() -> FullMeasurements {
        FullMeasurements {
            rtmrs: Measurements::spec_zeroed(),
            key_provider_event_digest: spec_array_fill_for_copy_type(0u8),
            app_compose_hash_payload: spec_array_fill_for_copy_type(0u8),
        }
    }
}

impl Default for FullMeasurements {
    fn default() -> (r: Self)
        ensures
            r == FullMeasurements::spec_zeroed(),
    {
        FullMeasurements {
            rtmrs: Measurements::default(),
            key_provider_event_digest: [0u8; 48],
            app_compose_hash_payload: [0u8; 32],
        }
    }
}

impl Ppid {
    /// The all-zero sentinel platform id used when hardware attestation is
    /// disabled.
    pub open spec fn spec_zeroed() -> Ppid {
        Ppid { bytes: spec_array_fill_for_copy_type(0u8) }
    }
}

impl Default for Ppid {
    fn default() -> (r: Self)
        ensures
            r == Ppid::spec_zeroed(),
    {
        Ppid { bytes: [0u8; 16] }
    }
}

/// Why a measurement bundle could not be assembled from an attestation.
#[derive(Clone, Debug, PartialEq, Eq)]
pub enum MeasurementsError {
    /// The verified quote carries no TD report.
    NoTd10Report,
    /// The TCB info is unparsable or lacks a required event.
    InvalidTcbInfo,
    /// A field holds something other than hexadecimal digits; carries the
    /// field's name and its value.
    InvalidHexValue(String, String),
    /// A field decodes to the wrong number of bytes; carries the field's
    /// name and that number.
    InvalidLength(String, usize),
}

/// Byte-wise equality of two slices, stated over their views.
pub fn bytes_eq(a: &[u8], b: &[u8]) -> (r: bool)
    ensures
        r == (a@ == b@),
{
    if a.len() != b.len() {
        return false;
    }
    let n = a.len();
    let mut i: usize = 0;
    while i < n
        invariant
            n == a@.len(),
            n == b@.len(),
            i <= n,
            forall|j: int| 0 <= j < i ==> a@[j] == b@[j],
        decreases n - i,
    {
        if a[i] != b[i] {
            return false;
        }
        i += 1;
    }
    proof {
        assert(a@ =~= b@);
    }
    true
}

impl Measurements {
    /// Byte-wise equality of two sets of runtime measurement registers.
    pub fn eq_to(&self, other: &Measurements) -> (r: bool)
        ensures
            r == (*self == *other),
    {
        let r = bytes_eq(self.mrtd.as_slice(), other.mrtd.as_slice())
            && bytes_eq(self.rtmr0.as_slice(), other.rtmr0.as_slice())
            && bytes_eq(self.rtmr1.as_slice(), other.rtmr1.as_slice())
            && bytes_eq(self.rtmr2.as_slice(), other.rtmr2.as_slice());
        proof {
            if r {
                assert(self.mrtd =~= other.mrtd);
                assert(self.rtmr0 =~= other.rtmr0);
                assert(self.rtmr1 =~= other.rtmr1);
                assert(self.rtmr2 =~= other.rtmr2);
            }
        }
        r
    }
}

impl FullMeasurements {
    /// Byte-wise equality of two full measurement bundles.
    pub fn eq_to(&self, other: &FullMeasurements) -> (r: bool)
        ensures
            r == (*self == *other),
    {
        let r = self.rtmrs.eq_to(&other.rtmrs)
            && bytes_eq(
            self.key_provider_event_digest.as_slice(),
            other.key_provider_event_digest.as_slice(),
        ) && bytes_eq(
            self.app_compose_hash_payload.as_slice(),
            other.app_compose_hash_payload.as_slice(),
        );
        proof {
            if r {
                assert(self.key_provider_event_digest =~= other.key_provider_event_digest);
                assert(self.app_compose_hash_payload =~= other.app_compose_hash_payload);
            }
        }
        r
    }
}

impl Ppid {
    /// Byte-wise equality of two platform identifiers.
    pub fn eq_to(&self, other: &Ppid) -> (r: bool)
        ensures
            r == (*self == *other),
    {
        let r = bytes_eq(self.bytes.as_slice(), other.bytes.as_slice());
        proof {
            if r {
                assert(self.bytes =~= other.bytes);
            }
        }
        r
    }
}

} // verus!
