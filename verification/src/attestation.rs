//! TPM 2.0 quote protocol and the remote verifier's policy.
//!
//! Three canonical little-endian envelopes travel between verifier and attester: the
//! challenge (`DFIMCHL1`), the evidence (`DFIMATS1`) and the enrolled policy (`DFIMPOL1`).
//! The quote inside the evidence is a big-endian `TPMS_ATTEST` structure signed by the
//! attestation key with ECDSA P-256.
use vstd::prelude::*;
use crate::codec::{
    be_u16, be_u32, bytes_eq_at, copy_32, copy_into, extend_bytes, le_u32, le_u64,
    lemma_u32_le_round_trip, lemma_u64_le_round_trip, push_u32_le, push_u64_be, push_u64_le,
    read_be_u16_at, read_be_u32_at, read_le_u32_at, read_le_u64_at, u32_le, u64_be, u64_le,
};
use crate::crypto::constant_time_hash_eq;
use crate::digest::{sha256_digest, spec_sha256};
use crate::ecdsa::{
    p256_check, p256_key_accepted, p256_key_parses, p256_signature_accepted,
    p256_signature_parses, p256_verifies, SignatureCheck,
};

verus! {

/// TPM-generated attestation magic.
pub const TPM_GENERATED_VALUE: u32 = 0xFF54_4347;

/// TPM structure tag for quote attestations.
pub const TPM_ST_ATTEST_QUOTE: u16 = 0x8018;

/// TPM algorithm identifier for SHA-256.
pub const TPM_ALG_SHA256: u16 = 0x000B;

/// Fixed PCR set required by the enterprise profile.
pub const ATTESTED_PCRS: [u8; 5] = [0, 2, 4, 7, 14];

/// Number of PCR values carried in evidence.
pub const ATTESTED_PCR_COUNT: usize = 5;

/// Selection bitmap of PCRs 0, 2, 4, 7 and 14.
pub const PCR_SELECTION_BITMAP: [u8; 3] = [0x95, 0x40, 0x00];

/// `DFIM-ATTEST-V1`, the domain separator of the qualifying data.
pub const QUALIFYING_DATA_DOMAIN: [u8; 14] = [
    0x44, 0x46, 0x49, 0x4d, 0x2d, 0x41, 0x54, 0x54, 0x45, 0x53, 0x54, 0x2d, 0x56, 0x31,
];

/// `DFIMCHL1`
pub const CHALLENGE_MAGIC: [u8; 8] = [0x44, 0x46, 0x49, 0x4d, 0x43, 0x48, 0x4c, 0x31];

/// `DFIMATS1`
pub const EVIDENCE_MAGIC: [u8; 8] = [0x44, 0x46, 0x49, 0x4d, 0x41, 0x54, 0x53, 0x31];

/// `DFIMPOL1`
pub const POLICY_MAGIC: [u8; 8] = [0x44, 0x46, 0x49, 0x4d, 0x50, 0x4f, 0x4c, 0x31];

/// Version of all three envelopes.
pub const WIRE_VERSION: u32 = 1;

/// Length of an encoded challenge.
pub const CHALLENGE_WIRE_LEN: usize = 92;

/// Length of an evidence envelope before the quote.
pub const EVIDENCE_PREFIX_LEN: usize = 240;

/// Length of an encoded policy.
pub const POLICY_WIRE_LEN: usize = 253;

/// Largest quote an evidence envelope may carry.
pub const MAX_QUOTE_LEN: usize = 4096;

/// Verifier-issued freshness challenge bound to the expected state.
#[derive(Clone, Copy, Debug, PartialEq, Eq)]
pub struct AttestationChallenge {
    pub nonce: [u8; 32],
    pub release_counter: u64,
    pub policy_generation: u64,
    pub merkle_root: [u8; 32],
}

/// TPM quote and synchronized PCR values returned by an attester.
#[derive(Clone, Debug, PartialEq, Eq)]
pub struct AttestationEvidence {
    pub quote: Vec<u8>,
    pub signature: [u8; 64],
    pub pcr_values: [[u8; 32]; ATTESTED_PCR_COUNT],
}

/// Enrollment and allowlist policy held by the remote verifier alone.
#[derive(Clone, Copy, Debug, PartialEq, Eq)]
pub struct AttestationPolicy {
    pub ak_public_key_sec1: [u8; 33],
    pub expected_pcr_values: [[u8; 32]; ATTESTED_PCR_COUNT],
    pub minimum_release: u64,
    pub expected_policy_generation: u64,
    pub expected_merkle_root: [u8; 32],
}

/// Trusted fields returned once every quote gate passed.
#[derive(Clone, Copy, Debug, PartialEq, Eq)]
pub struct VerifiedAttestation {
    pub release_counter: u64,
    pub policy_generation: u64,
    pub merkle_root: [u8; 32],
}

/// Why an envelope, a quote or a verification was refused.
#[derive(Clone, Copy, Debug, PartialEq, Eq, Structural)]
pub enum AttestationError {
    InvalidChallengeLength,
    UnsupportedChallengeEnvelope,
    QuoteLengthOutOfRange,
    TruncatedEvidence,
    UnsupportedEvidenceEnvelope,
    NonCanonicalEvidenceLength,
    InvalidPolicyLength,
    UnsupportedPolicyEnvelope,
    InvalidPolicyKey,
    ZeroReleaseFloor,
    ZeroPolicyGeneration,
    ReleaseBelowFloor,
    PolicyGenerationMismatch,
    MerkleRootNotEnrolled,
    MalformedSignature,
    InvalidEnrolledKey,
    SignatureInvalid,
    InvalidTpmMagic,
    NotQuoteAttestation,
    TruncatedQuote,
    QualifyingDataSize,
    ClockNotSafe,
    PcrBankCount,
    PcrBankAlgorithm,
    PcrBitmapLength,
    PcrSelectionMismatch,
    NonCanonicalQuoteDigest,
    NonceBindingMismatch,
    PcrNotAllowlisted,
    PcrDigestMismatch,
}

/// Operator-facing text of each refusal.
pub open spec fn attestation_error_text(e: AttestationError) -> Seq<char> {
    match e {
        AttestationError::InvalidChallengeLength => "invalid attestation challenge length"@,
        AttestationError::UnsupportedChallengeEnvelope => "unsupported attestation challenge envelope"@,
        AttestationError::QuoteLengthOutOfRange => "TPM quote length is outside the DFIM envelope limit"@,
        AttestationError::TruncatedEvidence => "truncated attestation evidence envelope"@,
        AttestationError::UnsupportedEvidenceEnvelope => "unsupported attestation evidence envelope"@,
        AttestationError::NonCanonicalEvidenceLength => "non-canonical attestation evidence length"@,
        AttestationError::InvalidPolicyLength => "invalid attestation policy length"@,
        AttestationError::UnsupportedPolicyEnvelope => "unsupported attestation policy envelope"@,
        AttestationError::InvalidPolicyKey => "attestation policy contains an invalid AK public key"@,
        AttestationError::ZeroReleaseFloor => "attestation policy release floor must be positive"@,
        AttestationError::ZeroPolicyGeneration => "attestation policy generation must be positive"@,
        AttestationError::ReleaseBelowFloor => "attestation release counter is below the verifier floor"@,
        AttestationError::PolicyGenerationMismatch => "attestation policy generation mismatch"@,
        AttestationError::MerkleRootNotEnrolled => "attestation Merkle root is not enrolled"@,
        AttestationError::MalformedSignature => "malformed ECDSA quote signature"@,
        AttestationError::InvalidEnrolledKey => "invalid enrolled AK public key"@,
        AttestationError::SignatureInvalid => "TPM quote signature verification failed"@,
        AttestationError::InvalidTpmMagic => "invalid TPM attestation magic"@,
        AttestationError::NotQuoteAttestation => "TPM evidence is not a quote attestation"@,
        AttestationError::TruncatedQuote => "truncated TPM quote"@,
        AttestationError::QualifyingDataSize => "TPM qualifying data must be SHA-256 sized"@,
        AttestationError::ClockNotSafe => "TPM clock is not marked safe"@,
        AttestationError::PcrBankCount => "exactly one PCR bank is required"@,
        AttestationError::PcrBankAlgorithm => "only the SHA-256 PCR bank is accepted"@,
        AttestationError::PcrBitmapLength => "unexpected TPM PCR bitmap length"@,
        AttestationError::PcrSelectionMismatch => "TPM PCR selection differs from DFIM policy"@,
        AttestationError::NonCanonicalQuoteDigest => "non-canonical TPM quote digest encoding"@,
        AttestationError::NonceBindingMismatch => "TPM quote nonce or DFIM context binding mismatch"@,
        AttestationError::PcrNotAllowlisted => "quoted PCR value is outside the enrolled allowlist"@,
        AttestationError::PcrDigestMismatch => "quoted PCR digest does not match supplied PCR values"@,
    }
}

impl AttestationError {
    /// Stable human-readable description of the refusal.
    pub fn message(self) -> (s: &'static str)
        ensures
            s@ == attestation_error_text(self),
    {
        match self {
            AttestationError::InvalidChallengeLength => "invalid attestation challenge length",
            AttestationError::UnsupportedChallengeEnvelope => "unsupported attestation challenge envelope",
            AttestationError::QuoteLengthOutOfRange => "TPM quote length is outside the DFIM envelope limit",
            AttestationError::TruncatedEvidence => "truncated attestation evidence envelope",
            AttestationError::UnsupportedEvidenceEnvelope => "unsupported attestation evidence envelope",
            AttestationError::NonCanonicalEvidenceLength => "non-canonical attestation evidence length",
            AttestationError::InvalidPolicyLength => "invalid attestation policy length",
            AttestationError::UnsupportedPolicyEnvelope => "unsupported attestation policy envelope",
            AttestationError::InvalidPolicyKey => "attestation policy contains an invalid AK public key",
            AttestationError::ZeroReleaseFloor => "attestation policy release floor must be positive",
            AttestationError::ZeroPolicyGeneration => "attestation policy generation must be positive",
            AttestationError::ReleaseBelowFloor => "attestation release counter is below the verifier floor",
            AttestationError::PolicyGenerationMismatch => "attestation policy generation mismatch",
            AttestationError::MerkleRootNotEnrolled => "attestation Merkle root is not enrolled",
            AttestationError::MalformedSignature => "malformed ECDSA quote signature",
            AttestationError::InvalidEnrolledKey => "invalid enrolled AK public key",
            AttestationError::SignatureInvalid => "TPM quote signature verification failed",
            AttestationError::InvalidTpmMagic => "invalid TPM attestation magic",
            AttestationError::NotQuoteAttestation => "TPM evidence is not a quote attestation",
            AttestationError::TruncatedQuote => "truncated TPM quote",
            AttestationError::QualifyingDataSize => "TPM qualifying data must be SHA-256 sized",
            AttestationError::ClockNotSafe => "TPM clock is not marked safe",
            AttestationError::PcrBankCount => "exactly one PCR bank is required",
            AttestationError::PcrBankAlgorithm => "only the SHA-256 PCR bank is accepted",
            AttestationError::PcrBitmapLength => "unexpected TPM PCR bitmap length",
            AttestationError::PcrSelectionMismatch => "TPM PCR selection differs from DFIM policy",
            AttestationError::NonCanonicalQuoteDigest => "non-canonical TPM quote digest encoding",
            AttestationError::NonceBindingMismatch => "TPM quote nonce or DFIM context binding mismatch",
            AttestationError::PcrNotAllowlisted => "quoted PCR value is outside the enrolled allowlist",
            AttestationError::PcrDigestMismatch => "quoted PCR digest does not match supplied PCR values",
        }
    }
}

// ---------------------------------------------------------------------------------------------
// Qualifying data

/// Bytes whose SHA-256 is the TPM qualifying data: domain, nonce, release counter and policy
/// generation (big-endian), Merkle root.
pub open spec fn qualifying_bytes(c: AttestationChallenge) -> Seq<u8> {
    QUALIFYING_DATA_DOMAIN@ + c.nonce@ + u64_be(c.release_counter) + u64_be(c.policy_generation)
        + c.merkle_root@
}

/// TPM qualifying data binding freshness, release, policy and image identity.
pub open spec fn qualifying_data(c: AttestationChallenge) -> [u8; 32] {
    spec_sha256(qualifying_bytes(c))
}

/// Produces the TPM qualifying data of a challenge.
pub fn attestation_qualifying_data(challenge: &AttestationChallenge) -> (d: [u8; 32])
    ensures
        d == qualifying_data(*challenge),
{
    let mut buf: Vec<u8> = Vec::new();
    extend_bytes(&mut buf, &QUALIFYING_DATA_DOMAIN);
    extend_bytes(&mut buf, &challenge.nonce);
    push_u64_be(&mut buf, challenge.release_counter);
    push_u64_be(&mut buf, challenge.policy_generation);
    extend_bytes(&mut buf, &challenge.merkle_root);
    assert(buf@ =~= qualifying_bytes(*challenge));
    sha256_digest(buf.as_slice())
}

// ---------------------------------------------------------------------------------------------
// Envelopes

/// Magic and version of an envelope are the expected ones.
pub open spec fn envelope_ok(data: Seq<u8>, magic: Seq<u8>) -> bool {
    data.subrange(0, 8) == magic && le_u32(data.subrange(8, 12)) == WIRE_VERSION
}

/// The five PCR values, concatenated in order.
pub open spec fn pcr_bytes(v: Seq<[u8; 32]>) -> Seq<u8> {
    v[0]@ + v[1]@ + v[2]@ + v[3]@ + v[4]@
}

/// The PCR values are read from `data` at `off`, one 32-byte value after another.
pub open spec fn pcrs_read_at(data: Seq<u8>, off: int, v: Seq<[u8; 32]>) -> bool {
    &&& v.len() == 5
    &&& forall|i: int| 0 <= i < 5 ==> #[trigger] v[i]@ == data.subrange(off + 32 * i, off + 32 * i + 32)
}

fn pcr_concat(values: &[[u8; 32]; ATTESTED_PCR_COUNT]) -> (v: Vec<u8>)
    ensures
        v@ == pcr_bytes(values@),
{
    let mut v: Vec<u8> = Vec::new();
    extend_bytes(&mut v, &values[0]);
    extend_bytes(&mut v, &values[1]);
    extend_bytes(&mut v, &values[2]);
    extend_bytes(&mut v, &values[3]);
    extend_bytes(&mut v, &values[4]);
    v
}

fn read_pcrs(data: &[u8], off: usize) -> (v: [[u8; 32]; ATTESTED_PCR_COUNT])
    requires
        off + 160 <= data@.len(),
    ensures
        pcrs_read_at(data@, off as int, v@),
{
    let _n = data.len();
    let v = [
        copy_32(data, off),
        copy_32(data, off + 32),
        copy_32(data, off + 64),
        copy_32(data, off + 96),
        copy_32(data, off + 128),
    ];
    assert forall|i: int| 0 <= i < 5 implies #[trigger] v@[i]@ == data@.subrange(
        off + 32 * i,
        off + 32 * i + 32,
    ) by {
        if i == 0 {
        } else if i == 1 {
        } else if i == 2 {
        } else if i == 3 {
        } else {
        }
    }
    v
}

proof fn lemma_pcr_bytes_read_back(v: Seq<[u8; 32]>, prefix: Seq<u8>, suffix: Seq<u8>)
    requires
        v.len() == 5,
    ensures
        pcrs_read_at(prefix + pcr_bytes(v) + suffix, prefix.len() as int, v),
{
    let data = prefix + pcr_bytes(v) + suffix;
    let off = prefix.len() as int;
    assert forall|i: int| 0 <= i < 5 implies #[trigger] v[i]@ == data.subrange(
        off + 32 * i,
        off + 32 * i + 32,
    ) by {
        assert(data.subrange(off + 32 * i, off + 32 * i + 32) =~= v[i]@);
    }
}

/// Canonical challenge envelope.
pub open spec fn challenge_wire(c: AttestationChallenge) -> Seq<u8> {
    CHALLENGE_MAGIC@ + u32_le(WIRE_VERSION) + c.nonce@ + u64_le(c.release_counter) + u64_le(
        c.policy_generation,
    ) + c.merkle_root@
}

/// Why a challenge envelope is refused, if it is.
pub open spec fn challenge_error(data: Seq<u8>) -> Option<AttestationError> {
    if data.len() != CHALLENGE_WIRE_LEN {
        Some(AttestationError::InvalidChallengeLength)
    } else if !envelope_ok(data, CHALLENGE_MAGIC@) {
        Some(AttestationError::UnsupportedChallengeEnvelope)
    } else {
        None
    }
}

/// `c` holds the fields of the challenge envelope `data`.
pub open spec fn challenge_decodes(data: Seq<u8>, c: AttestationChallenge) -> bool {
    &&& c.nonce@ == data.subrange(12, 44)
    &&& c.release_counter == le_u64(data.subrange(44, 52))
    &&& c.policy_generation == le_u64(data.subrange(52, 60))
    &&& c.merkle_root@ == data.subrange(60, 92)
}

/// Serializes a challenge into its canonical envelope.
pub fn encode_attestation_challenge(challenge: &AttestationChallenge) -> (out: [u8; CHALLENGE_WIRE_LEN])
    ensures
        out@ == challenge_wire(*challenge),
{
    let mut buf: Vec<u8> = Vec::new();
    extend_bytes(&mut buf, &CHALLENGE_MAGIC);
    push_u32_le(&mut buf, WIRE_VERSION);
    extend_bytes(&mut buf, &challenge.nonce);
    push_u64_le(&mut buf, challenge.release_counter);
    push_u64_le(&mut buf, challenge.policy_generation);
    extend_bytes(&mut buf, &challenge.merkle_root);
    let mut out = [0u8; CHALLENGE_WIRE_LEN];
    copy_into(&mut out, buf.as_slice());
    out
}

/// Parses a canonical challenge; other lengths, magics and versions are refused.
pub fn parse_attestation_challenge(data: &[u8]) -> (res: Result<AttestationChallenge, AttestationError>)
    ensures
        match res {
            Ok(c) => challenge_error(data@) is None && challenge_decodes(data@, c),
            Err(e) => challenge_error(data@) == Some(e),
        },
{
    if data.len() != CHALLENGE_WIRE_LEN {
        return Err(AttestationError::InvalidChallengeLength);
    }
    if !bytes_eq_at(data, 0, &CHALLENGE_MAGIC) || read_le_u32_at(data, 8) != WIRE_VERSION {
        return Err(AttestationError::UnsupportedChallengeEnvelope);
    }
    Ok(AttestationChallenge {
        nonce: copy_32(data, 12),
        release_counter: read_le_u64_at(data, 44),
        policy_generation: read_le_u64_at(data, 52),
        merkle_root: copy_32(data, 60),
    })
}

/// A challenge read back from its envelope is the challenge that was written.
pub proof fn law_challenge_wire_round_trip(c: AttestationChallenge)
    ensures
        challenge_error(challenge_wire(c)) is None,
        challenge_decodes(challenge_wire(c), c),
        forall|d: AttestationChallenge| challenge_decodes(challenge_wire(c), d) ==> d == c,
{
    let w = challenge_wire(c);
    lemma_u32_le_round_trip(WIRE_VERSION);
    lemma_u64_le_round_trip(c.release_counter);
    lemma_u64_le_round_trip(c.policy_generation);
    assert(w.subrange(0, 8) =~= CHALLENGE_MAGIC@);
    assert(w.subrange(8, 12) =~= u32_le(WIRE_VERSION));
    assert(w.subrange(12, 44) =~= c.nonce@);
    assert(w.subrange(44, 52) =~= u64_le(c.release_counter));
    assert(w.subrange(52, 60) =~= u64_le(c.policy_generation));
    assert(w.subrange(60, 92) =~= c.merkle_root@);
    assert forall|d: AttestationChallenge| challenge_decodes(w, d) implies d == c by {
        assert(d.nonce =~= c.nonce);
        assert(d.merkle_root =~= c.merkle_root);
    }
}

/// Canonical evidence envelope: magic, version, quote length, signature, PCR values, quote.
pub open spec fn evidence_wire(e: AttestationEvidence) -> Seq<u8> {
    EVIDENCE_MAGIC@ + u32_le(WIRE_VERSION) + u32_le(e.quote@.len() as u32) + e.signature@
        + pcr_bytes(e.pcr_values@) + e.quote@
}

/// A quote length the envelope can carry.
pub open spec fn quote_len_ok(n: int) -> bool {
    0 < n <= MAX_QUOTE_LEN
}

/// Why an evidence envelope is refused, if it is.
pub open spec fn evidence_error(data: Seq<u8>) -> Option<AttestationError> {
    if data.len() < EVIDENCE_PREFIX_LEN {
        Some(AttestationError::TruncatedEvidence)
    } else if !envelope_ok(data, EVIDENCE_MAGIC@) {
        Some(AttestationError::UnsupportedEvidenceEnvelope)
    } else if !quote_len_ok(le_u32(data.subrange(12, 16))) {
        Some(AttestationError::QuoteLengthOutOfRange)
    } else if data.len() != EVIDENCE_PREFIX_LEN + le_u32(data.subrange(12, 16)) {
        Some(AttestationError::NonCanonicalEvidenceLength)
    } else {
        None
    }
}

/// `e` holds the fields of the evidence envelope `data`; its PCR values are not trusted.
pub open spec fn evidence_decodes(data: Seq<u8>, e: AttestationEvidence) -> bool {
    &&& e.signature@ == data.subrange(16, 80)
    &&& pcrs_read_at(data, 80, e.pcr_values@)
    &&& e.quote@ == data.subrange(EVIDENCE_PREFIX_LEN as int, data.len() as int)
}

/// Serializes evidence for transport; a quote that is empty or longer than the limit is refused.
pub fn encode_attestation_evidence(evidence: &AttestationEvidence) -> (res: Result<Vec<u8>, AttestationError>)
    ensures
        match res {
            Ok(v) => quote_len_ok(evidence.quote@.len() as int) && v@ == evidence_wire(*evidence),
            Err(e) => !quote_len_ok(evidence.quote@.len() as int) && e
                == AttestationError::QuoteLengthOutOfRange,
        },
{
    let n = evidence.quote.len();
    if n == 0 || n > MAX_QUOTE_LEN {
        return Err(AttestationError::QuoteLengthOutOfRange);
    }
    let mut out: Vec<u8> = Vec::new();
    extend_bytes(&mut out, &EVIDENCE_MAGIC);
    push_u32_le(&mut out, WIRE_VERSION);
    push_u32_le(&mut out, n as u32);
    extend_bytes(&mut out, &evidence.signature);
    let pcrs = pcr_concat(&evidence.pcr_values);
    extend_bytes(&mut out, pcrs.as_slice());
    extend_bytes(&mut out, evidence.quote.as_slice());
    Ok(out)
}

/// Parses an evidence envelope; its PCR values are carried, not trusted.
pub fn parse_attestation_evidence(data: &[u8]) -> (res: Result<AttestationEvidence, AttestationError>)
    ensures
        match res {
            Ok(e) => evidence_error(data@) is None && evidence_decodes(data@, e),
            Err(e) => evidence_error(data@) == Some(e),
        },
{
    let n = data.len();
    if n < EVIDENCE_PREFIX_LEN {
        return Err(AttestationError::TruncatedEvidence);
    }
    if !bytes_eq_at(data, 0, &EVIDENCE_MAGIC) || read_le_u32_at(data, 8) != WIRE_VERSION {
        return Err(AttestationError::UnsupportedEvidenceEnvelope);
    }
    let quote_len = read_le_u32_at(data, 12);
    if quote_len == 0 || quote_len as usize > MAX_QUOTE_LEN {
        return Err(AttestationError::QuoteLengthOutOfRange);
    }
    if n - EVIDENCE_PREFIX_LEN != quote_len as usize {
        return Err(AttestationError::NonCanonicalEvidenceLength);
    }
    let signature_slice = &data[16..80];
    let mut signature = [0u8; 64];
    copy_into(&mut signature, signature_slice);
    let pcr_values = read_pcrs(data, 80);
    let quote_slice = &data[EVIDENCE_PREFIX_LEN..n];
    let mut quote: Vec<u8> = Vec::new();
    extend_bytes(&mut quote, quote_slice);
    Ok(AttestationEvidence { quote, signature, pcr_values })
}

/// Evidence read back from its envelope carries what was written.
pub proof fn law_evidence_wire_round_trip(e: AttestationEvidence)
    requires
        quote_len_ok(e.quote@.len() as int),
    ensures
        evidence_error(evidence_wire(e)) is None,
        evidence_decodes(evidence_wire(e), e),
{
    let w = evidence_wire(e);
    let q = e.quote@;
    lemma_u32_le_round_trip(WIRE_VERSION);
    lemma_u32_le_round_trip(q.len() as u32);
    let head = EVIDENCE_MAGIC@ + u32_le(WIRE_VERSION) + u32_le(q.len() as u32) + e.signature@;
    assert(w == head + pcr_bytes(e.pcr_values@) + q);
    assert(w.subrange(0, 8) =~= EVIDENCE_MAGIC@);
    assert(w.subrange(8, 12) =~= u32_le(WIRE_VERSION));
    assert(w.subrange(12, 16) =~= u32_le(q.len() as u32));
    assert(w.subrange(16, 80) =~= e.signature@);
    lemma_pcr_bytes_read_back(e.pcr_values@, head, q);
    assert(w.subrange(EVIDENCE_PREFIX_LEN as int, w.len() as int) =~= q);
}

/// Encoded evidence with its last byte cut off, or with one byte appended, is refused as a
/// non-canonical length: the envelope's length must match its quote length exactly.
pub proof fn law_evidence_rejects_truncation_and_trailing(e: AttestationEvidence, extra: u8)
    requires
        quote_len_ok(e.quote@.len() as int),
    ensures
        evidence_error(evidence_wire(e).drop_last()) == Some(AttestationError::NonCanonicalEvidenceLength),
        evidence_error(evidence_wire(e).push(extra)) == Some(AttestationError::NonCanonicalEvidenceLength),
{
    law_evidence_wire_round_trip(e);
    let w = evidence_wire(e);
    let a = w.drop_last();
    let b = w.push(extra);
    assert(w.len() == EVIDENCE_PREFIX_LEN + le_u32(w.subrange(12, 16)));
    assert(a.subrange(0, 8) =~= w.subrange(0, 8));
    assert(a.subrange(8, 12) =~= w.subrange(8, 12));
    assert(a.subrange(12, 16) =~= w.subrange(12, 16));
    assert(b.subrange(0, 8) =~= w.subrange(0, 8));
    assert(b.subrange(8, 12) =~= w.subrange(8, 12));
    assert(b.subrange(12, 16) =~= w.subrange(12, 16));
}

/// Canonical policy record.
pub open spec fn policy_wire(p: AttestationPolicy) -> Seq<u8> {
    POLICY_MAGIC@ + u32_le(WIRE_VERSION) + p.ak_public_key_sec1@ + u64_le(p.minimum_release)
        + u64_le(p.expected_policy_generation) + p.expected_merkle_root@ + pcr_bytes(
        p.expected_pcr_values@,
    )
}

/// Why a policy record is refused, if it is.
pub open spec fn policy_error(data: Seq<u8>) -> Option<AttestationError> {
    if data.len() != POLICY_WIRE_LEN {
        Some(AttestationError::InvalidPolicyLength)
    } else if !envelope_ok(data, POLICY_MAGIC@) {
        Some(AttestationError::UnsupportedPolicyEnvelope)
    } else if !p256_key_parses(data.subrange(12, 45)) {
        Some(AttestationError::InvalidPolicyKey)
    } else if le_u64(data.subrange(45, 53)) == 0 {
        Some(AttestationError::ZeroReleaseFloor)
    } else if le_u64(data.subrange(53, 61)) == 0 {
        Some(AttestationError::ZeroPolicyGeneration)
    } else {
        None
    }
}

/// `p` holds the fields of the policy record `data`.
pub open spec fn policy_decodes(data: Seq<u8>, p: AttestationPolicy) -> bool {
    &&& p.ak_public_key_sec1@ == data.subrange(12, 45)
    &&& p.minimum_release == le_u64(data.subrange(45, 53))
    &&& p.expected_policy_generation == le_u64(data.subrange(53, 61))
    &&& p.expected_merkle_root@ == data.subrange(61, 93)
    &&& pcrs_read_at(data, 93, p.expected_pcr_values@)
}

/// Serializes an enrolled verifier policy into its canonical record.
pub fn encode_attestation_policy(policy: &AttestationPolicy) -> (out: [u8; POLICY_WIRE_LEN])
    ensures
        out@ == policy_wire(*policy),
{
    let mut buf: Vec<u8> = Vec::new();
    extend_bytes(&mut buf, &POLICY_MAGIC);
    push_u32_le(&mut buf, WIRE_VERSION);
    extend_bytes(&mut buf, &policy.ak_public_key_sec1);
    push_u64_le(&mut buf, policy.minimum_release);
    push_u64_le(&mut buf, policy.expected_policy_generation);
    extend_bytes(&mut buf, &policy.expected_merkle_root);
    let pcrs = pcr_concat(&policy.expected_pcr_values);
    extend_bytes(&mut buf, pcrs.as_slice());
    let mut out = [0u8; POLICY_WIRE_LEN];
    copy_into(&mut out, buf.as_slice());
    out
}

/// Parses an enrolled policy; malformed trust anchors and zero floors are refused.
pub fn parse_attestation_policy(data: &[u8]) -> (res: Result<AttestationPolicy, AttestationError>)
    ensures
        match res {
            Ok(p) => policy_error(data@) is None && policy_decodes(data@, p),
            Err(e) => policy_error(data@) == Some(e),
        },
{
    if data.len() != POLICY_WIRE_LEN {
        return Err(AttestationError::InvalidPolicyLength);
    }
    if !bytes_eq_at(data, 0, &POLICY_MAGIC) || read_le_u32_at(data, 8) != WIRE_VERSION {
        return Err(AttestationError::UnsupportedPolicyEnvelope);
    }
    let mut ak_public_key_sec1 = [0u8; 33];
    copy_into(&mut ak_public_key_sec1, &data[12..45]);
    if !p256_key_accepted(&ak_public_key_sec1) {
        return Err(AttestationError::InvalidPolicyKey);
    }
    let minimum_release = read_le_u64_at(data, 45);
    if minimum_release == 0 {
        return Err(AttestationError::ZeroReleaseFloor);
    }
    let expected_policy_generation = read_le_u64_at(data, 53);
    if expected_policy_generation == 0 {
        return Err(AttestationError::ZeroPolicyGeneration);
    }
    let expected_merkle_root = copy_32(data, 61);
    let expected_pcr_values = read_pcrs(data, 93);
    Ok(AttestationPolicy {
        ak_public_key_sec1,
        expected_pcr_values,
        minimum_release,
        expected_policy_generation,
        expected_merkle_root,
    })
}

/// A policy record read back carries what was written, and is refused exactly when its key
/// does not parse or one of its floors is zero.
pub proof fn law_policy_wire_round_trip(p: AttestationPolicy)
    ensures
        policy_error(policy_wire(p)) == if !p256_key_parses(p.ak_public_key_sec1@) {
            Some(AttestationError::InvalidPolicyKey)
        } else if p.minimum_release == 0 {
            Some(AttestationError::ZeroReleaseFloor)
        } else if p.expected_policy_generation == 0 {
            Some(AttestationError::ZeroPolicyGeneration)
        } else {
            None::<AttestationError>
        },
        policy_decodes(policy_wire(p), p),
{
    let w = policy_wire(p);
    lemma_u32_le_round_trip(WIRE_VERSION);
    lemma_u64_le_round_trip(p.minimum_release);
    lemma_u64_le_round_trip(p.expected_policy_generation);
    let head = POLICY_MAGIC@ + u32_le(WIRE_VERSION) + p.ak_public_key_sec1@ + u64_le(p.minimum_release)
        + u64_le(p.expected_policy_generation) + p.expected_merkle_root@;
    assert(w == head + pcr_bytes(p.expected_pcr_values@) + Seq::<u8>::empty());
    assert(w.subrange(0, 8) =~= POLICY_MAGIC@);
    assert(w.subrange(8, 12) =~= u32_le(WIRE_VERSION));
    assert(w.subrange(12, 45) =~= p.ak_public_key_sec1@);
    assert(w.subrange(45, 53) =~= u64_le(p.minimum_release));
    assert(w.subrange(53, 61) =~= u64_le(p.expected_policy_generation));
    assert(w.subrange(61, 93) =~= p.expected_merkle_root@);
    lemma_pcr_bytes_read_back(p.expected_pcr_values@, head, Seq::<u8>::empty());
}

// ---------------------------------------------------------------------------------------------
// The quote

/// Outcome of reading the quote after the clock information, from `c` on: one SHA-256 bank
/// selecting exactly the attested PCRs, then a 32-byte PCR digest that ends the quote.
pub open spec fn quote_tail_outcome(q: Seq<u8>, c: int, extra: Seq<u8>) -> Result<
    (Seq<u8>, Seq<u8>),
    AttestationError,
> {
    let n = q.len() as int;
    if c + 4 > n {
        Err(AttestationError::TruncatedQuote)
    } else if be_u32(q.subrange(c, c + 4)) != 1 {
        Err(AttestationError::PcrBankCount)
    } else if c + 6 > n {
        Err(AttestationError::TruncatedQuote)
    } else if be_u16(q.subrange(c + 4, c + 6)) != TPM_ALG_SHA256 {
        Err(AttestationError::PcrBankAlgorithm)
    } else if c + 7 > n {
        Err(AttestationError::TruncatedQuote)
    } else if q[c + 6] != 3 {
        Err(AttestationError::PcrBitmapLength)
    } else if c + 10 > n {
        Err(AttestationError::TruncatedQuote)
    } else if q.subrange(c + 7, c + 10) != PCR_SELECTION_BITMAP@ {
        Err(AttestationError::PcrSelectionMismatch)
    } else if c + 12 > n {
        Err(AttestationError::TruncatedQuote)
    } else if c + 12 + be_u16(q.subrange(c + 10, c + 12)) > n {
        Err(AttestationError::TruncatedQuote)
    } else if be_u16(q.subrange(c + 10, c + 12)) != 32 || c + 12 + 32 != n {
        Err(AttestationError::NonCanonicalQuoteDigest)
    } else {
        Ok((extra, q.subrange(c + 12, n)))
    }
}

/// Outcome of reading a TPM quote: its qualifying data and PCR digest, or why it is refused.
/// The quote is magic, type tag, qualified signer (skipped), qualifying data, clock
/// information (the safe flag must be set), firmware version, PCR selection and digest.
pub open spec fn quote_outcome(q: Seq<u8>) -> Result<(Seq<u8>, Seq<u8>), AttestationError> {
    let n = q.len() as int;
    if n < 4 {
        Err(AttestationError::TruncatedQuote)
    } else if be_u32(q.subrange(0, 4)) != TPM_GENERATED_VALUE {
        Err(AttestationError::InvalidTpmMagic)
    } else if n < 6 {
        Err(AttestationError::TruncatedQuote)
    } else if be_u16(q.subrange(4, 6)) != TPM_ST_ATTEST_QUOTE {
        Err(AttestationError::NotQuoteAttestation)
    } else if n < 8 {
        Err(AttestationError::TruncatedQuote)
    } else {
        let a = 8 + be_u16(q.subrange(6, 8));
        if a + 2 > n {
            Err(AttestationError::TruncatedQuote)
        } else {
            let l2 = be_u16(q.subrange(a, a + 2));
            let b = a + 2 + l2;
            if b > n {
                Err(AttestationError::TruncatedQuote)
            } else if l2 != 32 {
                Err(AttestationError::QualifyingDataSize)
            } else if b + 17 > n {
                Err(AttestationError::TruncatedQuote)
            } else if q[b + 16] != 1 {
                Err(AttestationError::ClockNotSafe)
            } else if b + 25 > n {
                Err(AttestationError::TruncatedQuote)
            } else {
                quote_tail_outcome(q, b + 25, q.subrange(a + 2, b))
            }
        }
    }
}

/// Position of the clock-information safe flag in a quote: after the magic, the type tag, the
/// length-prefixed qualified signer, the length-prefixed 32-byte qualifying data, and the
/// clock (8 bytes), reset count (4) and restart count (4).
pub open spec fn clock_safe_index(q: Seq<u8>) -> int {
    8 + be_u16(q.subrange(6, 8)) + 2 + 32 + 16
}

/// A quote is accepted only when its clock information is marked safe and its qualifying
/// data is 32 bytes long.
pub proof fn law_accepted_quote_clock_is_safe(q: Seq<u8>)
    requires
        quote_outcome(q) is Ok,
    ensures
        0 <= clock_safe_index(q) < q.len(),
        q[clock_safe_index(q)] == 1,
        be_u16(q.subrange(8 + be_u16(q.subrange(6, 8)), 8 + be_u16(q.subrange(6, 8)) + 2)) == 32,
{
}

fn parse_quote_tail(q: &[u8], c: usize, extra: [u8; 32]) -> (res: Result<([u8; 32], [u8; 32]), AttestationError>)
    requires
        c <= q@.len(),
    ensures
        match res {
            Ok((x, d)) => x == extra && quote_tail_outcome(q@, c as int, extra@) == Ok::<
                (Seq<u8>, Seq<u8>),
                AttestationError,
            >((extra@, d@)),
            Err(e) => quote_tail_outcome(q@, c as int, extra@) == Err::<(Seq<u8>, Seq<u8>), AttestationError>(e),
        },
{
    let n = q.len();
    if n - c < 4 {
        return Err(AttestationError::TruncatedQuote);
    }
    if read_be_u32_at(q, c) != 1 {
        return Err(AttestationError::PcrBankCount);
    }
    if n - c < 6 {
        return Err(AttestationError::TruncatedQuote);
    }
    if read_be_u16_at(q, c + 4) != TPM_ALG_SHA256 {
        return Err(AttestationError::PcrBankAlgorithm);
    }
    if n - c < 7 {
        return Err(AttestationError::TruncatedQuote);
    }
    if q[c + 6] != 3 {
        return Err(AttestationError::PcrBitmapLength);
    }
    if n - c < 10 {
        return Err(AttestationError::TruncatedQuote);
    }
    if !bytes_eq_at(q, c + 7, &PCR_SELECTION_BITMAP) {
        return Err(AttestationError::PcrSelectionMismatch);
    }
    if n - c < 12 {
        return Err(AttestationError::TruncatedQuote);
    }
    let digest_len = read_be_u16_at(q, c + 10) as usize;
    if n - (c + 12) < digest_len {
        return Err(AttestationError::TruncatedQuote);
    }
    if digest_len != 32 || n - (c + 12) != 32 {
        return Err(AttestationError::NonCanonicalQuoteDigest);
    }
    let digest = copy_32(q, c + 12);
    assert(q@.subrange(c + 12, q@.len() as int) == digest@);
    Ok((extra, digest))
}

fn parse_quote(q: &[u8]) -> (res: Result<([u8; 32], [u8; 32]), AttestationError>)
    ensures
        match res {
            Ok((x, d)) => quote_outcome(q@) == Ok::<(Seq<u8>, Seq<u8>), AttestationError>((x@, d@)),
            Err(e) => quote_outcome(q@) == Err::<(Seq<u8>, Seq<u8>), AttestationError>(e),
        },
{
    let n = q.len();
    if n < 4 {
        return Err(AttestationError::TruncatedQuote);
    }
    if read_be_u32_at(q, 0) != TPM_GENERATED_VALUE {
        return Err(AttestationError::InvalidTpmMagic);
    }
    if n < 6 {
        return Err(AttestationError::TruncatedQuote);
    }
    if read_be_u16_at(q, 4) != TPM_ST_ATTEST_QUOTE {
        return Err(AttestationError::NotQuoteAttestation);
    }
    if n < 8 {
        return Err(AttestationError::TruncatedQuote);
    }
    let signer_len = read_be_u16_at(q, 6) as usize;
    if n - 8 < signer_len || n - 8 - signer_len < 2 {
        return Err(AttestationError::TruncatedQuote);
    }
    let a = 8 + signer_len;
    let extra_len = read_be_u16_at(q, a) as usize;
    if n - (a + 2) < extra_len {
        return Err(AttestationError::TruncatedQuote);
    }
    let b = a + 2 + extra_len;
    if extra_len != 32 {
        return Err(AttestationError::QualifyingDataSize);
    }
    if n - b < 17 {
        return Err(AttestationError::TruncatedQuote);
    }
    if q[b + 16] != 1 {
        return Err(AttestationError::ClockNotSafe);
    }
    if n - b < 25 {
        return Err(AttestationError::TruncatedQuote);
    }
    let extra = copy_32(q, a + 2);
    parse_quote_tail(q, b + 25, extra)
}

// ---------------------------------------------------------------------------------------------
// Verification

/// Every supplied PCR value is the enrolled one.
pub open spec fn pcrs_allowlisted(actual: Seq<[u8; 32]>, expected: Seq<[u8; 32]>) -> bool {
    forall|i: int| 0 <= i < ATTESTED_PCR_COUNT ==> #[trigger] actual[i]@ == expected[i]@
}

fn pcrs_match(
    actual: &[[u8; 32]; ATTESTED_PCR_COUNT],
    expected: &[[u8; 32]; ATTESTED_PCR_COUNT],
) -> (r: bool)
    ensures
        r == pcrs_allowlisted(actual@, expected@),
{
    let mut i: usize = 0;
    while i < ATTESTED_PCR_COUNT
        invariant
            i <= ATTESTED_PCR_COUNT,
            forall|j: int| 0 <= j < i ==> #[trigger] actual@[j]@ == expected@[j]@,
        decreases ATTESTED_PCR_COUNT - i,
    {
        if !constant_time_hash_eq(&actual[i], &expected[i]) {
            return false;
        }
        i = i + 1;
    }
    true
}

/// Outcome of verifying evidence against a challenge and an enrolled policy: the release,
/// generation and root gates, the AK signature over the quote, the quote's structure, its
/// binding to the challenge, the PCR allowlist and the quoted PCR digest, in that order.
pub open spec fn attestation_outcome(
    e: AttestationEvidence,
    c: AttestationChallenge,
    p: AttestationPolicy,
) -> Result<VerifiedAttestation, AttestationError> {
    if c.release_counter < p.minimum_release {
        Err(AttestationError::ReleaseBelowFloor)
    } else if c.policy_generation != p.expected_policy_generation {
        Err(AttestationError::PolicyGenerationMismatch)
    } else if c.merkle_root@ != p.expected_merkle_root@ {
        Err(AttestationError::MerkleRootNotEnrolled)
    } else if !p256_signature_parses(e.signature@) {
        Err(AttestationError::MalformedSignature)
    } else if !p256_key_parses(p.ak_public_key_sec1@) {
        Err(AttestationError::InvalidEnrolledKey)
    } else if !p256_verifies(p.ak_public_key_sec1@, e.quote@, e.signature@) {
        Err(AttestationError::SignatureInvalid)
    } else {
        match quote_outcome(e.quote@) {
            Err(x) => Err(x),
            Ok((extra, digest)) => if extra != qualifying_data(c)@ {
                Err(AttestationError::NonceBindingMismatch)
            } else if !pcrs_allowlisted(e.pcr_values@, p.expected_pcr_values@) {
                Err(AttestationError::PcrNotAllowlisted)
            } else if digest != spec_sha256(pcr_bytes(e.pcr_values@))@ {
                Err(AttestationError::PcrDigestMismatch)
            } else {
                Ok(
                    VerifiedAttestation {
                        release_counter: c.release_counter,
                        policy_generation: c.policy_generation,
                        merkle_root: c.merkle_root,
                    },
                )
            },
        }
    }
}

/// Verifies the AK signature, nonce binding, exact PCR selection and digest, and the
/// enrolled policy.
pub fn verify_attestation(
    evidence: &AttestationEvidence,
    challenge: &AttestationChallenge,
    policy: &AttestationPolicy,
) -> (res: Result<VerifiedAttestation, AttestationError>)
    ensures
        res == attestation_outcome(*evidence, *challenge, *policy),
        res is Ok ==> 0 <= clock_safe_index(evidence.quote@) < evidence.quote@.len() && evidence.quote@[clock_safe_index(
            evidence.quote@,
        )] == 1,
{
    if challenge.release_counter < policy.minimum_release {
        return Err(AttestationError::ReleaseBelowFloor);
    }
    if challenge.policy_generation != policy.expected_policy_generation {
        return Err(AttestationError::PolicyGenerationMismatch);
    }
    if !constant_time_hash_eq(&challenge.merkle_root, &policy.expected_merkle_root) {
        return Err(AttestationError::MerkleRootNotEnrolled);
    }
    if !p256_signature_accepted(&evidence.signature) {
        return Err(AttestationError::MalformedSignature);
    }
    match p256_check(&policy.ak_public_key_sec1, evidence.quote.as_slice(), &evidence.signature) {
        SignatureCheck::KeyRejected => {
            return Err(AttestationError::InvalidEnrolledKey);
        },
        SignatureCheck::SignatureMalformed => {
            return Err(AttestationError::MalformedSignature);
        },
        SignatureCheck::Invalid => {
            return Err(AttestationError::SignatureInvalid);
        },
        SignatureCheck::Valid => {},
    }
    let (extra_data, pcr_digest) = match parse_quote(evidence.quote.as_slice()) {
        Ok(parsed) => parsed,
        Err(e) => {
            return Err(e);
        },
    };
    let expected_extra_data = attestation_qualifying_data(challenge);
    if !constant_time_hash_eq(&extra_data, &expected_extra_data) {
        return Err(AttestationError::NonceBindingMismatch);
    }
    if !pcrs_match(&evidence.pcr_values, &policy.expected_pcr_values) {
        return Err(AttestationError::PcrNotAllowlisted);
    }
    let pcrs = pcr_concat(&evidence.pcr_values);
    let expected_pcr_digest = sha256_digest(pcrs.as_slice());
    if !constant_time_hash_eq(&pcr_digest, &expected_pcr_digest) {
        return Err(AttestationError::PcrDigestMismatch);
    }
    Ok(
        VerifiedAttestation {
            release_counter: challenge.release_counter,
            policy_generation: challenge.policy_generation,
            merkle_root: challenge.merkle_root,
        },
    )
}

/// What an accepted attestation proves: the release is at or above the floor, the policy
/// generation and Merkle root are the enrolled ones, the enrolled AK signed the quote, the
/// quote carries this challenge's qualifying data, and every PCR value is allowlisted and
/// matches the quoted digest.
pub proof fn law_accepted_attestation_is_bound(
    e: AttestationEvidence,
    c: AttestationChallenge,
    p: AttestationPolicy,
)
    requires
        attestation_outcome(e, c, p) is Ok,
    ensures
        c.release_counter >= p.minimum_release,
        c.policy_generation == p.expected_policy_generation,
        c.merkle_root@ == p.expected_merkle_root@,
        p256_verifies(p.ak_public_key_sec1@, e.quote@, e.signature@),
        quote_outcome(e.quote@) matches Ok((extra, digest)) && extra == qualifying_data(c)@
            && digest == spec_sha256(pcr_bytes(e.pcr_values@))@,
        pcrs_allowlisted(e.pcr_values@, p.expected_pcr_values@),
        e.quote@[clock_safe_index(e.quote@)] == 1,
        attestation_outcome(e, c, p) == Ok::<VerifiedAttestation, AttestationError>(
            VerifiedAttestation {
                release_counter: c.release_counter,
                policy_generation: c.policy_generation,
                merkle_root: c.merkle_root,
            },
        ),
{
}

} // verus!
