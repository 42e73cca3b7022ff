//! Host-side initialization gate: a 30-day evaluation window anchored to the first execution
//! time, kept in an authenticated 60-byte state file, with clock-rollback detection through a
//! monotonic last-execution watermark.
//!
//! The file is a 28-byte header (magic `DFIMLIC\0`, version 1 as `u16`, two reserved bytes,
//! activation and last-execution times as little-endian `u64`) followed by
//! `SHA256("dfim-host-init-license-v1\0" || header)`. Reading the clock and the file, and
//! writing the file back, is left to the caller, which hands the bytes in.
use vstd::prelude::*;
use vstd::string::StringSliceAdditionalSpecFns;
use crate::codec::{
    bytes_eq_at, copy_32, copy_into, extend_bytes, le_u16, le_u64, lemma_u16_le_round_trip,
    lemma_u64_le_round_trip, push_u16_le, push_u64_le, read_le_u16_at, read_le_u64_at, u16_le,
    u64_le,
};
use crate::digest::{sha256_digest, spec_sha256};

verus! {

/// Environment variable naming the directory of the state file.
pub const STATE_DIR_ENV: &'static str = "DFIM_STATE_DIR";

/// Hidden state file written in the execution directory on first run.
pub const STATE_FILE_NAME: &'static str = ".dfim_sys.dat";

/// Evaluation period: 30 calendar days in seconds.
pub const EVAL_PERIOD_SECS: u64 = 2_592_000;

/// `DFIMLIC\0`
pub const STATE_MAGIC: [u8; 8] = [0x44, 0x46, 0x49, 0x4d, 0x4c, 0x49, 0x43, 0x00];

/// Version of the state header.
pub const STATE_VERSION: u16 = 1;

/// Length of the state header.
pub const STATE_HEADER_LEN: usize = 28;

/// Length of the integrity tag.
pub const STATE_INTEGRITY_LEN: usize = 32;

/// Length of the state file.
pub const STATE_FILE_LEN: usize = 60;

/// `dfim-host-init-license-v1\0`, the domain separator of the integrity tag.
pub const INTEGRITY_DOMAIN: [u8; 26] = [
    0x64, 0x66, 0x69, 0x6d, 0x2d, 0x68, 0x6f, 0x73, 0x74, 0x2d, 0x69, 0x6e, 0x69, 0x74, 0x2d, 0x6c,
    0x69, 0x63, 0x65, 0x6e, 0x73, 0x65, 0x2d, 0x76, 0x31, 0x00,
];

/// `STATE_`, the prefix of legacy plaintext state blobs, which are refused.
pub const LEGACY_STATE_PREFIX: [u8; 6] = [0x53, 0x54, 0x41, 0x54, 0x45, 0x5f];

/// Message emitted when the evaluation window has elapsed.
pub const EXPIRED_MESSAGE: &'static str = "CRITICAL: [DFIM-ERR-09] 30-Day Evaluation Period Expired. Please contact the vendor for a production license.";

/// Message emitted when the system clock is rolled back or backdated.
pub const CLOCK_TAMPER_MESSAGE: &'static str = "SECURITY ALERT: [DFIM-ERR-10] System clock tampering detected. Execution terminated.";

/// Pair of Unix-epoch second counts persisted in the state file.
#[derive(Debug, Clone, Copy, PartialEq, Eq, Structural)]
pub struct LicenseState {
    /// Anchor set on the first execution.
    pub activation_timestamp: u64,
    /// Highest observed execution time (monotonic watermark).
    pub last_execution_timestamp: u64,
}

/// Errors of the license gate.
#[derive(Debug, Clone, Copy, PartialEq, Eq, Structural)]
pub enum EvalLicenseError {
    ClockTampering,
    Expired,
    StateUnreadable,
}

/// Header bytes of a state.
pub open spec fn header_bytes(s: LicenseState) -> Seq<u8> {
    STATE_MAGIC@ + u16_le(STATE_VERSION) + seq![0u8, 0u8] + u64_le(s.activation_timestamp) + u64_le(
        s.last_execution_timestamp,
    )
}

/// Integrity tag of a header.
pub open spec fn integrity_tag(header: Seq<u8>) -> Seq<u8> {
    spec_sha256(INTEGRITY_DOMAIN@ + header)@
}

/// Bytes of the state file of a state: header, then its integrity tag.
pub open spec fn state_file_bytes(s: LicenseState) -> Seq<u8> {
    header_bytes(s) + integrity_tag(header_bytes(s))
}

/// Outcome of decoding an authenticated header.
pub open spec fn header_outcome(h: Seq<u8>) -> Result<LicenseState, EvalLicenseError> {
    if h.subrange(0, 8) != STATE_MAGIC@ || le_u16(h.subrange(8, 10)) != STATE_VERSION {
        Err(EvalLicenseError::StateUnreadable)
    } else {
        Ok(
            LicenseState {
                activation_timestamp: le_u64(h.subrange(12, 20)) as u64,
                last_execution_timestamp: le_u64(h.subrange(20, 28)) as u64,
            },
        )
    }
}

/// Outcome of reading a state file: a wrong length, a legacy plaintext blob or a tag that
/// does not match the header make it unreadable.
pub open spec fn state_file_outcome(b: Seq<u8>) -> Result<LicenseState, EvalLicenseError> {
    if b.len() != STATE_FILE_LEN || b.subrange(0, 6) == LEGACY_STATE_PREFIX@ || b.subrange(28, 60)
        != integrity_tag(b.subrange(0, 28)) {
        Err(EvalLicenseError::StateUnreadable)
    } else {
        header_outcome(b.subrange(0, 28))
    }
}

/// The state to persist after a run at `now`, given the state file if one exists: a first run
/// anchors the window at `now`; a later run is refused when the clock went back before the
/// watermark or the activation, or when more than the evaluation period has elapsed, and
/// otherwise advances the watermark to `now`.
pub open spec fn license_outcome(now: u64, stored: Option<Seq<u8>>) -> Result<LicenseState, EvalLicenseError> {
    match stored {
        None => Ok(LicenseState { activation_timestamp: now, last_execution_timestamp: now }),
        Some(b) => match state_file_outcome(b) {
            Err(e) => Err(e),
            Ok(s) => if now < s.last_execution_timestamp || now < s.activation_timestamp {
                Err(EvalLicenseError::ClockTampering)
            } else if now - s.activation_timestamp > EVAL_PERIOD_SECS {
                Err(EvalLicenseError::Expired)
            } else {
                Ok(
                    LicenseState {
                        activation_timestamp: s.activation_timestamp,
                        last_execution_timestamp: now,
                    },
                )
            },
        },
    }
}

/// Serializes a state into its header (before the integrity tag).
pub fn encode_state_header(state: LicenseState) -> (header: [u8; STATE_HEADER_LEN])
    ensures
        header@ == header_bytes(state),
{
    let mut buf: Vec<u8> = Vec::new();
    extend_bytes(&mut buf, &STATE_MAGIC);
    push_u16_le(&mut buf, STATE_VERSION);
    buf.push(0);
    buf.push(0);
    push_u64_le(&mut buf, state.activation_timestamp);
    push_u64_le(&mut buf, state.last_execution_timestamp);
    let mut header = [0u8; STATE_HEADER_LEN];
    assert(buf@ =~= header_bytes(state));
    copy_into(&mut header, buf.as_slice());
    header
}

/// Deserializes a state from an authenticated header.
pub fn decode_state_header(header: &[u8; STATE_HEADER_LEN]) -> (res: Result<LicenseState, EvalLicenseError>)
    ensures
        res == header_outcome(header@),
{
    if !bytes_eq_at(header, 0, &STATE_MAGIC) {
        return Err(EvalLicenseError::StateUnreadable);
    }
    if read_le_u16_at(header, 8) != STATE_VERSION {
        return Err(EvalLicenseError::StateUnreadable);
    }
    Ok(
        LicenseState {
            activation_timestamp: read_le_u64_at(header, 12),
            last_execution_timestamp: read_le_u64_at(header, 20),
        },
    )
}

/// SHA-256 integrity tag of a header under the license domain separator.
pub fn compute_state_integrity(header: &[u8; STATE_HEADER_LEN]) -> (tag: [u8; STATE_INTEGRITY_LEN])
    ensures
        tag@ == integrity_tag(header@),
{
    let mut buf: Vec<u8> = Vec::new();
    extend_bytes(&mut buf, &INTEGRITY_DOMAIN);
    extend_bytes(&mut buf, header);
    sha256_digest(buf.as_slice())
}

/// Bytes of the authenticated state file of a state.
pub fn encode_state_file(state: LicenseState) -> (file: [u8; STATE_FILE_LEN])
    ensures
        file@ == state_file_bytes(state),
{
    let header = encode_state_header(state);
    let integrity = compute_state_integrity(&header);
    let mut buf: Vec<u8> = Vec::new();
    extend_bytes(&mut buf, &header);
    extend_bytes(&mut buf, &integrity);
    let mut file = [0u8; STATE_FILE_LEN];
    copy_into(&mut file, buf.as_slice());
    file
}

/// Compares two byte strings without stopping at the first difference: the XOR of every
/// pair of bytes is folded into one accumulator, read once at the end.
fn constant_time_eq(a: &[u8], b: &[u8]) -> (eq: bool)
    ensures
        eq == (a@ == b@),
{
    if a.len() != b.len() {
        return false;
    }
    let mut diff: u8 = 0;
    let mut i: usize = 0;
    assert(a@.subrange(0, 0) =~= b@.subrange(0, 0));
    while i < a.len()
        invariant
            a.len() == b.len(),
            i <= a.len(),
            (diff == 0) == (a@.subrange(0, i as int) == b@.subrange(0, i as int)),
        decreases a.len() - i,
    {
        let l = a[i];
        let r = b[i];
        let next = diff | (l ^ r);
        assert((next == 0) == (diff == 0 && l == r)) by (bit_vector)
            requires
                next == diff | (l ^ r),
        ;
        proof {
            let sa = a@.subrange(0, i as int);
            let sb = b@.subrange(0, i as int);
            assert(a@.subrange(0, i + 1) =~= sa.push(l));
            assert(b@.subrange(0, i + 1) =~= sb.push(r));
            if sa.push(l) == sb.push(r) {
                assert(sa =~= sa.push(l).drop_last());
                assert(sb =~= sb.push(r).drop_last());
                assert(sa.push(l)[i as int] == l);
            }
        }
        diff = next;
        i = i + 1;
    }
    assert(a@.subrange(0, a@.len() as int) =~= a@);
    assert(b@.subrange(0, b@.len() as int) =~= b@);
    diff == 0
}

/// Reads and authenticates the bytes of a state file.
pub fn decode_state_file(bytes: &[u8]) -> (res: Result<LicenseState, EvalLicenseError>)
    ensures
        res == state_file_outcome(bytes@),
{
    if bytes.len() != STATE_FILE_LEN {
        return Err(EvalLicenseError::StateUnreadable);
    }
    if bytes_eq_at(bytes, 0, &LEGACY_STATE_PREFIX) {
        return Err(EvalLicenseError::StateUnreadable);
    }
    let mut header = [0u8; STATE_HEADER_LEN];
    copy_into(&mut header, &bytes[0..28]);
    let stored = copy_32(bytes, 28);
    let expected = compute_state_integrity(&header);
    if !constant_time_eq(&expected, &stored) {
        return Err(EvalLicenseError::StateUnreadable);
    }
    decode_state_header(&header)
}

/// License gate: given the time and the state file's bytes when the file exists, returns the
/// state file to write back, or why execution must stop.
pub fn check_eval_license(now_secs: u64, stored: Option<&[u8]>) -> (res: Result<[u8; STATE_FILE_LEN], EvalLicenseError>)
    ensures
        match stored {
            None => license_outcome(now_secs, None),
            Some(b) => license_outcome(now_secs, Some(b@)),
        } matches Ok(s) ==> res matches Ok(f) && f@ == state_file_bytes(s),
        match stored {
            None => license_outcome(now_secs, None),
            Some(b) => license_outcome(now_secs, Some(b@)),
        } matches Err(e) ==> res == Err::<[u8; STATE_FILE_LEN], EvalLicenseError>(e),
{
    match stored {
        None => {
            let state = LicenseState { activation_timestamp: now_secs, last_execution_timestamp: now_secs };
            Ok(encode_state_file(state))
        },
        Some(bytes) => {
            let state = match decode_state_file(bytes) {
                Ok(s) => s,
                Err(e) => {
                    return Err(e);
                },
            };
            if now_secs < state.last_execution_timestamp {
                return Err(EvalLicenseError::ClockTampering);
            }
            if now_secs < state.activation_timestamp {
                return Err(EvalLicenseError::ClockTampering);
            }
            if now_secs - state.activation_timestamp > EVAL_PERIOD_SECS {
                return Err(EvalLicenseError::Expired);
            }
            let next = LicenseState {
                activation_timestamp: state.activation_timestamp,
                last_execution_timestamp: now_secs,
            };
            Ok(encode_state_file(next))
        },
    }
}

/// A state file written for a state reads back as that state.
#[verifier::spinoff_prover]
#[verifier::rlimit(40)]
pub proof fn law_state_file_round_trip(s: LicenseState)
    ensures
        state_file_outcome(state_file_bytes(s)) == Ok::<LicenseState, EvalLicenseError>(s),
{
    let h = header_bytes(s);
    let b = state_file_bytes(s);
    lemma_u16_le_round_trip(STATE_VERSION);
    lemma_u64_le_round_trip(s.activation_timestamp);
    lemma_u64_le_round_trip(s.last_execution_timestamp);
    assert(b.subrange(0, 28) =~= h);
    assert(b.subrange(28, 60) =~= integrity_tag(h));
    assert(b.subrange(0, 6)[0] != LEGACY_STATE_PREFIX@[0]);
    assert(h.subrange(0, 8) =~= STATE_MAGIC@);
    assert(h.subrange(8, 10) =~= u16_le(STATE_VERSION));
    assert(h.subrange(12, 20) =~= u64_le(s.activation_timestamp));
    assert(h.subrange(20, 28) =~= u64_le(s.last_execution_timestamp));
}

/// Once a run at `t0` anchored or advanced the state, a run at `t` is accepted exactly when
/// the clock did not go back before the watermark or the activation and the window has not
/// elapsed; an accepted run keeps the activation and moves the watermark up to `t`.
pub proof fn law_license_window(s: LicenseState, t: u64)
    ensures
        license_outcome(t, Some(state_file_bytes(s))) == if t < s.last_execution_timestamp || t
            < s.activation_timestamp {
            Err::<LicenseState, EvalLicenseError>(EvalLicenseError::ClockTampering)
        } else if t - s.activation_timestamp > EVAL_PERIOD_SECS {
            Err(EvalLicenseError::Expired)
        } else {
            Ok(LicenseState { activation_timestamp: s.activation_timestamp, last_execution_timestamp: t })
        },
        license_outcome(t, Some(state_file_bytes(s))) matches Ok(n) ==> n.activation_timestamp
            == s.activation_timestamp && n.last_execution_timestamp >= s.last_execution_timestamp,
{
    law_state_file_round_trip(s);
}

/// `DFIM_PRODUCTION` values that switch the evaluation check off.
pub open spec fn production_value(v: Seq<u8>) -> bool {
    v == seq![0x31u8] || v == seq![0x74u8, 0x72u8, 0x75u8, 0x65u8] || v == seq![
        0x54u8,
        0x52u8,
        0x55u8,
        0x45u8,
    ]
}

/// Whether the evaluation gate applies: not in a production build, and not when the
/// production variable is `1`, `true` or `TRUE`.
pub fn host_gate_required_for(production_build: bool, production_env: Option<&str>) -> (r: bool)
    ensures
        r == !(production_build || (production_env matches Some(v) && production_value(
            v.spec_bytes(),
        ))),
{
    if production_build {
        return false;
    }
    match production_env {
        None => true,
        Some(v) => {
            let b = v.as_bytes();
            let one: [u8; 1] = [0x31];
            let lower: [u8; 4] = [0x74, 0x72, 0x75, 0x65];
            let upper: [u8; 4] = [0x54, 0x52, 0x55, 0x45];
            let is_one = b.len() == 1 && bytes_eq_at(b, 0, &one);
            let is_lower = b.len() == 4 && bytes_eq_at(b, 0, &lower);
            let is_upper = b.len() == 4 && bytes_eq_at(b, 0, &upper);
            proof {
                if b@.len() == 1 {
                    assert(b@.subrange(0, 1) =~= b@);
                }
                if b@.len() == 4 {
                    assert(b@.subrange(0, 4) =~= b@);
                }
                assert(one@ =~= seq![0x31u8]);
                assert(lower@ =~= seq![0x74u8, 0x72u8, 0x75u8, 0x65u8]);
                assert(upper@ =~= seq![0x54u8, 0x52u8, 0x55u8, 0x45u8]);
            }
            !(is_one || is_lower || is_upper)
        },
    }
}

} // verus!
