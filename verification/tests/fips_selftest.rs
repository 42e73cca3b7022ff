use dfim::crypto::constant_time_hash_eq;
use dfim::digest::{sha256_digest, SHA256_LEN};
use dfim::error::DfimError;
use dfim::fips::{
    assert_fips_operational, fips_continuous_test, fips_hmac_sha256, fips_mode, fips_module_init,
    fips_sha256, FipsMode, FipsState, HMAC_KAT_EXPECTED, HMAC_KAT_KEY, HMAC_KAT_MSG,
    SHA256_KAT_ABC_EXPECTED, SHA256_KAT_ABC_INPUT, SHA256_KAT_EMPTY_EXPECTED, SHA256_KAT_EMPTY_INPUT,
};
use dfim::kdf::hmac_sha256_tag;

#[test]
fn fips_kat_sha256_empty_passes() {
    let h = sha256_digest(&SHA256_KAT_EMPTY_INPUT);
    assert!(constant_time_hash_eq(&h, &SHA256_KAT_EMPTY_EXPECTED));
}

#[test]
fn fips_kat_sha256_abc_passes() {
    let h = sha256_digest(&SHA256_KAT_ABC_INPUT);
    assert!(constant_time_hash_eq(&h, &SHA256_KAT_ABC_EXPECTED));
}

#[test]
fn fips_kat_hmac_passes() {
    let hash: [u8; SHA256_LEN] = hmac_sha256_tag(&HMAC_KAT_KEY, &HMAC_KAT_MSG);
    assert!(constant_time_hash_eq(&hash, &HMAC_KAT_EXPECTED));
}

#[test]
fn fips_kat_double_hash_not_equal_single() {
    let single = sha256_digest(b"fips-pct-140-3");
    let double = sha256_digest(&single);
    assert!(!constant_time_hash_eq(&double, &single));
}

#[test]
fn fips_module_init_returns_software_mode() {
    let mut state = FipsState::new();
    let mode = fips_module_init(&mut state).expect("FIPS init");
    assert_eq!(mode, FipsMode::SoftwareOnly);
    assert_eq!(fips_mode(&state), FipsMode::SoftwareOnly);
}

#[test]
fn fips_continuous_test_passes() {
    assert!(fips_continuous_test());
}

#[test]
fn fips_sha256_produces_correct_output() {
    let mut state = FipsState::new();
    fips_module_init(&mut state).unwrap();
    let h = fips_sha256(&state, b"abc");
    assert!(constant_time_hash_eq(&h, &SHA256_KAT_ABC_EXPECTED));
}

#[test]
fn fips_hmac_matches_known_answer() {
    let mut state = FipsState::new();
    fips_module_init(&mut state).unwrap();
    assert_eq!(fips_hmac_sha256(&state, &HMAC_KAT_KEY, &HMAC_KAT_MSG), HMAC_KAT_EXPECTED);
}

#[test]
fn fips_assert_operational_after_init() {
    let mut state = FipsState::new();
    fips_module_init(&mut state).unwrap();
    assert!(assert_fips_operational(&state).is_ok());
    assert_ne!(assert_fips_operational(&state), Err(DfimError::IntegrityFailure));
}
