//! Governance and calibration constants.
use vstd::prelude::*;
use crate::secrets::{default_salt_label, default_salt_label_bytes, protocol_id};

verus! {

/// Derived key length in bytes.
pub const DK_LEN: usize = 32;

/// SHA-256 digest length in bytes.
pub const SHA256_LEN: usize = 32;

/// Minimum Hamming data-bit width supported by the codec.
pub const HAMMING_MIN_DATA_BITS: usize = 4;

/// Maximum Hamming data-bit width accepted by the parameter check.
pub const HAMMING_MAX_DATA_BITS: usize = 247;

/// Protocol identifier of canonical manifest bytes.
pub fn protocol_id_const() -> (s: &'static str)
    ensures
        s@ == "dfim_integrity_protocol_v1"@,
{
    protocol_id()
}

/// Default salt label for deterministic salt derivation.
pub fn default_salt_label_const() -> (s: &'static [u8])
    ensures
        s@ == default_salt_label_bytes(),
{
    default_salt_label()
}

} // verus!
