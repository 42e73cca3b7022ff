//! FIPS 140-3 self-test layer: power-on known-answer tests, the module's operational mode,
//! and digest operations that refuse to run once a self-test failed.
//!
//! The mode lives in an explicit `FipsState` owned by the caller.
use vstd::prelude::*;
use crate::crypto::constant_time_hash_eq;
use crate::digest::{sha256_digest, spec_sha256, SHA256_LEN};
use crate::error::DfimError;
use crate::kdf::{hmac_sha256_tag, spec_hmac_sha256};

verus! {

/// NIST CAVP SHA-256 short-message input of length 0.
pub const SHA256_KAT_EMPTY_INPUT: [u8; 0] = [];

/// SHA-256 of the empty message.
pub const SHA256_KAT_EMPTY_EXPECTED: [u8; SHA256_LEN] = [
    0xe3, 0xb0, 0xc4, 0x42, 0x98, 0xfc, 0x1c, 0x14, 0x9a, 0xfb, 0xf4, 0xc8, 0x99, 0x6f, 0xb9, 0x24,
    0x27, 0xae, 0x41, 0xe4, 0x64, 0x9b, 0x93, 0x4c, 0xa4, 0x95, 0x99, 0x1b, 0x78, 0x52, 0xb8, 0x55,
];

/// NIST CAVP SHA-256 short-message input `abc`.
pub const SHA256_KAT_ABC_INPUT: [u8; 3] = [0x61, 0x62, 0x63];

/// SHA-256 of `abc`.
pub const SHA256_KAT_ABC_EXPECTED: [u8; SHA256_LEN] = [
    0xba, 0x78, 0x16, 0xbf, 0x8f, 0x01, 0xcf, 0xea, 0x41, 0x41, 0x40, 0xde, 0x5d, 0xae, 0x22, 0x23,
    0xb0, 0x03, 0x61, 0xa3, 0x96, 0x17, 0x7a, 0x9c, 0xb4, 0x10, 0xff, 0x61, 0xf2, 0x00, 0x15, 0xad,
];

/// HMAC-SHA-256 test key: twenty `0x0b` bytes.
pub const HMAC_KAT_KEY: [u8; 20] = [
    0x0b, 0x0b, 0x0b, 0x0b, 0x0b, 0x0b, 0x0b, 0x0b, 0x0b, 0x0b, 0x0b, 0x0b, 0x0b, 0x0b, 0x0b, 0x0b,
    0x0b, 0x0b, 0x0b, 0x0b,
];

/// HMAC-SHA-256 test message `Hi There`.
pub const HMAC_KAT_MSG: [u8; 8] = [0x48, 0x69, 0x20, 0x54, 0x68, 0x65, 0x72, 0x65];

/// HMAC-SHA-256 of the test message under the test key.
pub const HMAC_KAT_EXPECTED: [u8; SHA256_LEN] = [
    0xb0, 0x34, 0x4c, 0x61, 0xd8, 0xdb, 0x38, 0x53, 0x5c, 0xa8, 0xaf, 0xce, 0xaf, 0x0b, 0xf1, 0x2b,
    0x88, 0x1d, 0xc2, 0x00, 0xc9, 0x83, 0x3d, 0xa7, 0x26, 0xe9, 0x37, 0x6c, 0x2e, 0x32, 0xcf, 0xf7,
];

/// Pairwise-consistency input `fips-pct-140-3`.
pub const PCT_INPUT: [u8; 14] = [0x66, 0x69, 0x70, 0x73, 0x2d, 0x70, 0x63, 0x74, 0x2d, 0x31, 0x34, 0x30, 0x2d, 0x33];

/// Continuous-test inputs `fips-continuous-test-1` and `fips-continuous-test-2`.
pub const CONTINUOUS_INPUT_1: [u8; 22] = [
    0x66, 0x69, 0x70, 0x73, 0x2d, 0x63, 0x6f, 0x6e, 0x74, 0x69, 0x6e, 0x75, 0x6f, 0x75, 0x73, 0x2d,
    0x74, 0x65, 0x73, 0x74, 0x2d, 0x31,
];

pub const CONTINUOUS_INPUT_2: [u8; 22] = [
    0x66, 0x69, 0x70, 0x73, 0x2d, 0x63, 0x6f, 0x6e, 0x74, 0x69, 0x6e, 0x75, 0x6f, 0x75, 0x73, 0x2d,
    0x74, 0x65, 0x73, 0x74, 0x2d, 0x32,
];

const FIPS_MODE_FIPS_VALIDATED: u8 = 1;

const FIPS_MODE_SOFTWARE: u8 = 2;

const FIPS_MODE_FAILED: u8 = 3;

/// Operational mode of the cryptographic module.
#[derive(Debug, Clone, Copy, PartialEq, Eq, Structural)]
pub enum FipsMode {
    /// A FIPS 140-3 validated module.
    FipsValidated,
    /// Software implementations, not FIPS validated.
    SoftwareOnly,
    /// A self-test failed: cryptographic operations are refused.
    SelfTestFailed,
}

/// The module's recorded mode.
pub struct FipsState {
    mode: u8,
}

/// Mode named by a recorded mode code.
pub open spec fn mode_of_code(code: u8) -> FipsMode {
    if code == 1 {
        FipsMode::FipsValidated
    } else if code == 2 {
        FipsMode::SoftwareOnly
    } else {
        FipsMode::SelfTestFailed
    }
}

impl FipsState {
    /// The recorded mode.
    pub closed spec fn mode(self) -> FipsMode {
        mode_of_code(self.mode)
    }

    /// A module in software mode, as at start-up.
    pub fn new() -> (s: Self)
        ensures
            s.mode() == FipsMode::SoftwareOnly,
    {
        FipsState { mode: FIPS_MODE_SOFTWARE }
    }
}

/// The power-on known-answer tests pass: SHA-256 of the empty message and of `abc`, the
/// HMAC-SHA-256 vector, and the pairwise check that hashing a digest again changes it.
pub open spec fn post_passes() -> bool {
    &&& spec_sha256(Seq::empty())@ == SHA256_KAT_EMPTY_EXPECTED@
    &&& spec_sha256(SHA256_KAT_ABC_INPUT@)@ == SHA256_KAT_ABC_EXPECTED@
    &&& spec_hmac_sha256(HMAC_KAT_KEY@, HMAC_KAT_MSG@)@ == HMAC_KAT_EXPECTED@
    &&& spec_sha256(spec_sha256(PCT_INPUT@)@)@ != spec_sha256(PCT_INPUT@)@
}

fn run_power_on_self_tests_software() -> (ok: bool)
    ensures
        ok == post_passes(),
{
    let empty_hash = sha256_digest(&SHA256_KAT_EMPTY_INPUT);
    assert(SHA256_KAT_EMPTY_INPUT@ =~= Seq::<u8>::empty());
    if !constant_time_hash_eq(&empty_hash, &SHA256_KAT_EMPTY_EXPECTED) {
        return false;
    }
    let abc_hash = sha256_digest(&SHA256_KAT_ABC_INPUT);
    if !constant_time_hash_eq(&abc_hash, &SHA256_KAT_ABC_EXPECTED) {
        return false;
    }
    let hash = hmac_sha256_tag(&HMAC_KAT_KEY, &HMAC_KAT_MSG);
    if !constant_time_hash_eq(&hash, &HMAC_KAT_EXPECTED) {
        return false;
    }
    let single_hash = sha256_digest(&PCT_INPUT);
    let double_hash = sha256_digest(&single_hash);
    if constant_time_hash_eq(&double_hash, &single_hash) {
        return false;
    }
    true
}

/// Runs the power-on self-tests and records the resulting mode.
pub fn fips_module_init(state: &mut FipsState) -> (res: Result<FipsMode, DfimError>)
    ensures
        post_passes() ==> res == Ok::<FipsMode, DfimError>(FipsMode::SoftwareOnly)
            && final(state).mode() == FipsMode::SoftwareOnly,
        !post_passes() ==> res == Err::<FipsMode, DfimError>(DfimError::IntegrityFailure)
            && final(state).mode() == FipsMode::SelfTestFailed,
{
    if !run_power_on_self_tests_software() {
        state.mode = FIPS_MODE_FAILED;
        return Err(DfimError::IntegrityFailure);
    }
    state.mode = FIPS_MODE_SOFTWARE;
    Ok(FipsMode::SoftwareOnly)
}

/// The recorded operational mode.
pub fn fips_mode(state: &FipsState) -> (m: FipsMode)
    ensures
        m == state.mode(),
{
    if state.mode == FIPS_MODE_FIPS_VALIDATED {
        FipsMode::FipsValidated
    } else if state.mode == FIPS_MODE_SOFTWARE {
        FipsMode::SoftwareOnly
    } else {
        FipsMode::SelfTestFailed
    }
}

/// Refuses to proceed once a self-test failed.
pub fn assert_fips_operational(state: &FipsState) -> (res: Result<(), DfimError>)
    ensures
        res is Err <==> state.mode() == FipsMode::SelfTestFailed,
        res is Err ==> res == Err::<(), DfimError>(DfimError::IntegrityFailure),
{
    match fips_mode(state) {
        FipsMode::SelfTestFailed => Err(DfimError::IntegrityFailure),
        _ => Ok(()),
    }
}

/// SHA-256 through the module: all zeros once a self-test failed.
pub fn fips_sha256(state: &FipsState, data: &[u8]) -> (d: [u8; SHA256_LEN])
    ensures
        state.mode() == FipsMode::SelfTestFailed ==> d@ == Seq::new(32, |i: int| 0u8),
        state.mode() != FipsMode::SelfTestFailed ==> d == spec_sha256(data@),
{
    match fips_mode(state) {
        FipsMode::SelfTestFailed => {
            let z = [0u8; 32];
            assert(z@ =~= Seq::new(32, |i: int| 0u8));
            z
        },
        _ => sha256_digest(data),
    }
}

/// HMAC-SHA-256 through the module: all zeros once a self-test failed.
pub fn fips_hmac_sha256(state: &FipsState, key: &[u8], data: &[u8]) -> (d: [u8; SHA256_LEN])
    ensures
        state.mode() == FipsMode::SelfTestFailed ==> d@ == Seq::new(32, |i: int| 0u8),
        state.mode() != FipsMode::SelfTestFailed ==> d == spec_hmac_sha256(key@, data@),
{
    match fips_mode(state) {
        FipsMode::SelfTestFailed => {
            let z = [0u8; 32];
            assert(z@ =~= Seq::new(32, |i: int| 0u8));
            z
        },
        _ => hmac_sha256_tag(key, data),
    }
}

/// Continuous self-test: hashing is repeatable and tells two inputs apart.
pub fn fips_continuous_test() -> (ok: bool)
    ensures
        ok == (spec_sha256(CONTINUOUS_INPUT_1@)@ != spec_sha256(CONTINUOUS_INPUT_2@)@),
{
    let a = sha256_digest(&CONTINUOUS_INPUT_1);
    let b = sha256_digest(&CONTINUOUS_INPUT_1);
    let c = sha256_digest(&CONTINUOUS_INPUT_2);
    constant_time_hash_eq(&a, &b) && !constant_time_hash_eq(&a, &c)
}

} // verus!
