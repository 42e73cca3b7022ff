use dfim::attestation::{
    attestation_qualifying_data, encode_attestation_challenge, encode_attestation_evidence,
    encode_attestation_policy, parse_attestation_challenge, parse_attestation_evidence,
    parse_attestation_policy, verify_attestation, AttestationChallenge, AttestationError,
    AttestationEvidence, AttestationPolicy, ATTESTED_PCRS, ATTESTED_PCR_COUNT, TPM_ALG_SHA256,
    TPM_GENERATED_VALUE, TPM_ST_ATTEST_QUOTE,
};
use dfim::digest::sha256_digest;
use dfim::uefi::signed_manifest::public_key_sec1_from_private;
use p256::ecdsa::{signature::Signer, Signature, SigningKey};

const AK_PRIVATE: [u8; 32] = [0x33; 32];

fn challenge(nonce: u8, release_counter: u64) -> AttestationChallenge {
    AttestationChallenge { nonce: [nonce; 32], release_counter, policy_generation: 12, merkle_root: [0xA5; 32] }
}

fn pcr_values() -> [[u8; 32]; ATTESTED_PCR_COUNT] {
    [[0x00; 32], [0x02; 32], [0x04; 32], [0x07; 32], [0x0E; 32]]
}

fn sign(msg: &[u8]) -> [u8; 64] {
    let key = SigningKey::from_bytes(&AK_PRIVATE.into()).expect("signing key");
    let signature: Signature = key.sign(msg);
    let mut out = [0u8; 64];
    out.copy_from_slice(signature.to_bytes().as_slice());
    out
}

fn marshal_quote(
    challenge: &AttestationChallenge,
    values: &[[u8; 32]; ATTESTED_PCR_COUNT],
    selected_pcrs: &[u8; ATTESTED_PCR_COUNT],
) -> Vec<u8> {
    let mut quote = Vec::new();
    quote.extend_from_slice(&TPM_GENERATED_VALUE.to_be_bytes());
    quote.extend_from_slice(&TPM_ST_ATTEST_QUOTE.to_be_bytes());
    quote.extend_from_slice(&0u16.to_be_bytes());
    let extra_data = attestation_qualifying_data(challenge);
    quote.extend_from_slice(&(extra_data.len() as u16).to_be_bytes());
    quote.extend_from_slice(&extra_data);
    quote.extend_from_slice(&1u64.to_be_bytes());
    quote.extend_from_slice(&0u32.to_be_bytes());
    quote.extend_from_slice(&0u32.to_be_bytes());
    quote.push(1);
    quote.extend_from_slice(&1u64.to_be_bytes());
    quote.extend_from_slice(&1u32.to_be_bytes());
    quote.extend_from_slice(&TPM_ALG_SHA256.to_be_bytes());
    quote.push(3);
    let mut bitmap = [0u8; 3];
    for pcr in selected_pcrs {
        bitmap[(*pcr / 8) as usize] |= 1 << (*pcr % 8);
    }
    quote.extend_from_slice(&bitmap);
    let chunks: Vec<&[u8]> = values.iter().map(|value| value.as_slice()).collect();
    let digest = sha256_digest(&chunks.concat());
    quote.extend_from_slice(&(digest.len() as u16).to_be_bytes());
    quote.extend_from_slice(&digest);
    quote
}

fn attestation_fixture(challenge: &AttestationChallenge) -> (AttestationEvidence, AttestationPolicy) {
    let values = pcr_values();
    let quote = marshal_quote(challenge, &values, &ATTESTED_PCRS);
    let signature = sign(&quote);
    let public_key = public_key_sec1_from_private(&AK_PRIVATE).expect("public key");
    (
        AttestationEvidence { quote, signature, pcr_values: values },
        AttestationPolicy {
            ak_public_key_sec1: public_key,
            expected_pcr_values: values,
            minimum_release: 8,
            expected_policy_generation: 12,
            expected_merkle_root: [0xA5; 32],
        },
    )
}

#[test]
fn verifier_accepts_fresh_policy_bound_quote() {
    let request = challenge(0x11, 9);
    let (evidence, policy) = attestation_fixture(&request);
    let result = verify_attestation(&evidence, &request, &policy).expect("verified");
    assert_eq!(result.release_counter, 9);
    assert_eq!(result.policy_generation, 12);
    assert_eq!(result.merkle_root, [0xA5; 32]);
}

#[test]
fn verifier_rejects_replayed_nonce() {
    let request = challenge(0x11, 9);
    let (evidence, policy) = attestation_fixture(&request);
    assert_eq!(
        verify_attestation(&evidence, &challenge(0x22, 9), &policy).err(),
        Some(AttestationError::NonceBindingMismatch)
    );
}

#[test]
fn verifier_rejects_signature_and_pcr_substitution() {
    let request = challenge(0x11, 9);
    let (mut evidence, policy) = attestation_fixture(&request);
    evidence.signature[0] ^= 1;
    assert!(verify_attestation(&evidence, &request, &policy).is_err());

    let (mut evidence, policy) = attestation_fixture(&request);
    evidence.pcr_values[4][0] ^= 1;
    assert_eq!(
        verify_attestation(&evidence, &request, &policy).err(),
        Some(AttestationError::PcrNotAllowlisted)
    );
}

#[test]
fn verifier_rejects_wrong_pcr_selection_and_rollback() {
    let request = challenge(0x11, 9);
    let (mut evidence, policy) = attestation_fixture(&request);
    evidence.quote = marshal_quote(&request, &evidence.pcr_values, &[0, 2, 4, 7, 13]);
    evidence.signature = sign(&evidence.quote);
    assert_eq!(
        verify_attestation(&evidence, &request, &policy).err(),
        Some(AttestationError::PcrSelectionMismatch)
    );

    let rollback = challenge(0x11, 7);
    let (evidence, policy) = attestation_fixture(&rollback);
    assert_eq!(
        verify_attestation(&evidence, &rollback, &policy).err(),
        Some(AttestationError::ReleaseBelowFloor)
    );
}

#[test]
fn challenge_and_evidence_wire_formats_round_trip() {
    let request = challenge(0x44, 21);
    let request_bytes = encode_attestation_challenge(&request);
    assert_eq!(parse_attestation_challenge(&request_bytes).expect("challenge"), request);

    let (evidence, _) = attestation_fixture(&request);
    let evidence_bytes = encode_attestation_evidence(&evidence).expect("encode");
    assert_eq!(parse_attestation_evidence(&evidence_bytes).expect("evidence"), evidence);
}

#[test]
fn evidence_wire_format_rejects_truncation_and_trailing_data() {
    let request = challenge(0x44, 21);
    let (evidence, _) = attestation_fixture(&request);
    let mut encoded = encode_attestation_evidence(&evidence).expect("encode");
    assert!(parse_attestation_evidence(&encoded[..encoded.len() - 1]).is_err());
    encoded.push(0);
    assert_eq!(
        parse_attestation_evidence(&encoded).err(),
        Some(AttestationError::NonCanonicalEvidenceLength)
    );
}

#[test]
fn verifier_policy_wire_format_round_trips() {
    let request = challenge(0x55, 11);
    let (_, policy) = attestation_fixture(&request);
    let encoded = encode_attestation_policy(&policy);
    assert_eq!(parse_attestation_policy(&encoded).expect("policy"), policy);
    let mut zero_generation = encoded;
    zero_generation[53..61].fill(0);
    assert_eq!(
        parse_attestation_policy(&zero_generation).err(),
        Some(AttestationError::ZeroPolicyGeneration)
    );
}

#[test]
fn challenge_parser_rejects_wrong_length_and_magic() {
    let bytes = encode_attestation_challenge(&challenge(1, 2));
    assert_eq!(parse_attestation_challenge(&bytes[..91]).err(), Some(AttestationError::InvalidChallengeLength));
    let mut bad = bytes;
    bad[0] ^= 1;
    assert_eq!(parse_attestation_challenge(&bad).err(), Some(AttestationError::UnsupportedChallengeEnvelope));
}

#[test]
fn evidence_encoder_rejects_empty_quote() {
    let evidence = AttestationEvidence { quote: Vec::new(), signature: [0u8; 64], pcr_values: pcr_values() };
    assert_eq!(encode_attestation_evidence(&evidence).err(), Some(AttestationError::QuoteLengthOutOfRange));
}

#[test]
fn policy_parser_rejects_invalid_key() {
    let request = challenge(0x55, 11);
    let (_, mut policy) = attestation_fixture(&request);
    policy.ak_public_key_sec1 = [0u8; 33];
    let encoded = encode_attestation_policy(&policy);
    assert_eq!(parse_attestation_policy(&encoded).err(), Some(AttestationError::InvalidPolicyKey));
}

#[test]
fn truncated_quote_is_refused() {
    let request = challenge(0x11, 9);
    let (mut evidence, policy) = attestation_fixture(&request);
    evidence.quote.truncate(10);
    evidence.signature = sign(&evidence.quote);
    assert_eq!(verify_attestation(&evidence, &request, &policy).err(), Some(AttestationError::TruncatedQuote));
    assert_eq!(AttestationError::TruncatedQuote.message(), "truncated TPM quote");
}

#[test]
fn qualifying_data_hashes_domain_and_big_endian_fields() {
    let c = challenge(0x01, 0x0102);
    let mut bytes = b"DFIM-ATTEST-V1".to_vec();
    bytes.extend_from_slice(&[0x01; 32]);
    bytes.extend_from_slice(&0x0102u64.to_be_bytes());
    bytes.extend_from_slice(&12u64.to_be_bytes());
    bytes.extend_from_slice(&[0xA5; 32]);
    assert_eq!(attestation_qualifying_data(&c), sha256_digest(&bytes));
}
