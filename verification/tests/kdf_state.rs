use dfim::constants::DK_LEN;
use dfim::error::DfimError;
use dfim::kdf::{
    authenticate_manifest, authentication_tag, derive_authentication_key, derive_salt,
    hkdf_sha256_expand, AuthSeed,
};
use dfim::state_db::{
    parse_authenticated_state_db, wrap_authenticated_state_db, BOOT_SIDECAR_MAGIC,
    WRAPPED_STATE_MAGIC,
};

const AUTH_INFO: &[u8] = b"dfim-manifest-auth-v1";

fn seed() -> AuthSeed {
    [0x42; DK_LEN]
}

#[test]
fn derive_salt_is_deterministic_and_domain_separated() {
    let a = derive_salt(b"label", &seed()).expect("salt");
    let b = derive_salt(b"label", &seed()).expect("salt");
    let c = derive_salt(b"other", &seed()).expect("salt");
    assert_eq!(a, b);
    assert_ne!(a, c);
}

#[test]
fn derive_salt_hashes_whole_label_and_seed() {
    let label = vec![0x61u8; 300];
    let long_seed = vec![0x07u8; 100];
    let mut material = label.clone();
    material.extend_from_slice(&long_seed);
    assert_eq!(derive_salt(&label, &long_seed), Ok(dfim::digest::sha256_digest(&material)));
    let mut other = label.clone();
    other[250] = 0x62;
    assert_ne!(derive_salt(&label, &long_seed), derive_salt(&other, &long_seed));
}

#[test]
fn derive_salt_rejects_empty_seed() {
    assert_eq!(derive_salt(b"label", b""), Err(DfimError::EmptyInput));
}

#[test]
fn derive_authentication_key_is_deterministic() {
    let a = derive_authentication_key(&seed(), b"salt", AUTH_INFO).expect("key");
    let b = derive_authentication_key(&seed(), b"salt", AUTH_INFO).expect("key");
    let c = derive_authentication_key(&seed(), b"salt", b"other").expect("key");
    assert_eq!(a, b);
    assert_ne!(a, c);
}

#[test]
fn authentication_tag_changes_with_manifest() {
    let key = derive_authentication_key(&seed(), b"salt", AUTH_INFO).expect("key");
    let t1 = authentication_tag(&key, b"manifest-a").expect("tag");
    let t2 = authentication_tag(&key, b"manifest-b").expect("tag");
    assert_ne!(t1, t2);
}

#[test]
fn authentication_tag_rejects_empty_manifest() {
    let key = derive_authentication_key(&seed(), b"salt", AUTH_INFO).expect("key");
    assert_eq!(authentication_tag(&key, b""), Err(DfimError::EmptyInput));
}

#[test]
fn authenticate_manifest_is_deterministic_and_seed_bound() {
    let m = b"manifest-bytes";
    let t1 = authenticate_manifest(&seed(), m).expect("tag");
    let t2 = authenticate_manifest(&seed(), m).expect("tag");
    let other = authenticate_manifest(&[0x24; DK_LEN], m).expect("tag");
    assert_eq!(t1, t2);
    assert_ne!(t1, other);
}

#[test]
fn hkdf_expand_produces_requested_length() {
    let out = hkdf_sha256_expand(b"ikm", b"salt", b"info", 32).expect("hkdf");
    assert_eq!(out.len(), 32);
}

#[test]
fn hkdf_expand_rejects_empty_ikm_and_oversized_output() {
    assert_eq!(hkdf_sha256_expand(b"", b"salt", b"info", 32), Err(DfimError::InvalidParameter));
    assert_eq!(hkdf_sha256_expand(b"ikm", b"salt", b"info", 129), Err(DfimError::InvalidParameter));
    assert_eq!(hkdf_sha256_expand(b"ikm", b"salt", b"info", 0), Err(DfimError::InvalidParameter));
}

fn minimal_sidecar() -> Vec<u8> {
    let mut blob = vec![0u8; 56 + 4];
    blob[0..8].copy_from_slice(&BOOT_SIDECAR_MAGIC);
    blob[8..12].copy_from_slice(&1u32.to_le_bytes());
    blob[12..16].copy_from_slice(&4096u32.to_le_bytes());
    blob[16..20].copy_from_slice(&1u32.to_le_bytes());
    blob[20..52].copy_from_slice(&[0xAB; 32]);
    blob[52..56].copy_from_slice(&4u32.to_le_bytes());
    blob
}

#[test]
fn rejects_plaintext_license_injection() {
    assert_eq!(
        parse_authenticated_state_db(b"STATE_HASH_CLOCK_VALID_A"),
        Err(DfimError::CorruptMetadata)
    );
}

#[test]
fn rejects_sixteen_byte_clock_vector() {
    assert_eq!(parse_authenticated_state_db(&[0u8; 16]), Err(DfimError::CorruptMetadata));
}

#[test]
fn wrapped_round_trip() {
    let sidecar = minimal_sidecar();
    let wrapped = wrap_authenticated_state_db(&sidecar).expect("wrap");
    assert_eq!(&wrapped[0..8], &WRAPPED_STATE_MAGIC);
    let parsed = parse_authenticated_state_db(&wrapped).expect("parse");
    assert_eq!(parsed, sidecar);
}

#[test]
fn bare_sidecar_is_accepted_as_state() {
    let sidecar = minimal_sidecar();
    assert_eq!(parse_authenticated_state_db(&sidecar), Ok(sidecar));
}

#[test]
fn wrapped_checksum_tamper_fails() {
    let sidecar = minimal_sidecar();
    let mut wrapped = wrap_authenticated_state_db(&sidecar).expect("wrap");
    let last = wrapped.len() - 1;
    wrapped[last] ^= 0x01;
    assert_eq!(parse_authenticated_state_db(&wrapped), Err(DfimError::IntegrityFailure));
}
