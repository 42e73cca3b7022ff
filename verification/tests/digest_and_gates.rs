use dfim::boot_validate::{DFIM_BLOCK_SIZE, MAX_BOOT_BLOCKS, MAX_IMAGE_BYTES};
use dfim::crypto::constant_time_hash_eq;
use dfim::digest::{digest_to_hex, manifest_digest, sha256_digest, sha256_digest_chunked, SHA256_LEN};
use dfim::error::DfimError;
use dfim::integrity_gate::{assert_block_index, assert_image_bounds, assert_target_path};
use dfim::observer::PatternObserver;

const EMPTY_SHA256: [u8; 32] = [
    0xe3, 0xb0, 0xc4, 0x42, 0x98, 0xfc, 0x1c, 0x14, 0x9a, 0xfb, 0xf4, 0xc8, 0x99, 0x6f, 0xb9, 0x24,
    0x27, 0xae, 0x41, 0xe4, 0x64, 0x9b, 0x93, 0x4c, 0xa4, 0x95, 0x99, 0x1b, 0x78, 0x52, 0xb8, 0x55,
];

#[test]
fn equal_hashes_match() {
    let h = [0xAB_u8; 32];
    assert!(constant_time_hash_eq(&h, &h));
}

#[test]
fn single_bit_flip_rejects() {
    let mut b = [0u8; 32];
    b[0] = 1;
    assert!(!constant_time_hash_eq(&[0u8; 32], &b));
}

#[test]
fn empty_manifest_rejected() {
    assert_eq!(manifest_digest(b""), Err(DfimError::EmptyInput));
}

#[test]
fn sha256_known_vector() {
    let digest = sha256_digest(b"");
    assert_eq!(digest, EMPTY_SHA256);
}

#[test]
fn manifest_digest_hashes_non_empty_input() {
    assert_eq!(manifest_digest(b"abc"), Ok(sha256_digest(b"abc")));
}

#[test]
fn chunked_digest_equals_digest_of_concatenation() {
    let chunks: [&[u8]; 3] = [b"DFIM", b"-", b"chunks"];
    assert_eq!(sha256_digest_chunked(&chunks), sha256_digest(b"DFIM-chunks"));
    assert_eq!(sha256_digest_chunked(&[]), EMPTY_SHA256);
}

#[test]
fn digest_hex_is_lowercase_and_exact() {
    let hex = digest_to_hex(&EMPTY_SHA256);
    assert_eq!(
        std::str::from_utf8(&hex).unwrap(),
        "e3b0c44298fc1c149afbf4c8996fb92427ae41e4649b934ca495991b7852b855"
    );
}

#[test]
fn rejects_empty_path_gate() {
    assert_eq!(assert_target_path(0), Err(DfimError::InvalidParameter));
}

#[test]
fn path_gate_accepts_ordinary_length() {
    assert_eq!(assert_target_path(12), Ok(()));
}

#[test]
fn rejects_block_index_out_of_range() {
    assert_eq!(assert_block_index(4, 4), Err(DfimError::IntegrityFailure));
}

#[test]
fn accepts_image_at_cap() {
    assert!(assert_image_bounds(MAX_IMAGE_BYTES).is_ok());
}

#[test]
fn image_gate_rejects_empty_and_oversized_images() {
    assert!(assert_image_bounds(0).is_err());
    assert!(assert_image_bounds(MAX_IMAGE_BYTES + 1).is_err());
}

#[test]
fn observer_exceeds_on_overflow() {
    let mut obs = PatternObserver::new(2).expect("create");
    assert!(obs.tick().is_ok());
    assert!(obs.tick().is_ok());
    assert_eq!(obs.tick(), Err(DfimError::WorkCapExceeded));
}

#[test]
fn observer_rejects_zero_cap_and_resets() {
    assert!(PatternObserver::new(0).is_err());
    let mut obs = PatternObserver::new(1).expect("create");
    assert!(obs.tick().is_ok());
    assert!(obs.tick().is_err());
    obs.reset();
    assert_eq!(obs.count(), 0);
    assert!(obs.tick().is_ok());
}

#[test]
fn error_text_is_stable() {
    assert_eq!(DfimError::IntegrityFailure.as_str(), "integrity verification failed");
    assert_eq!(DfimError::EmptyInput.as_str(), "empty input");
}

#[test]
fn integration_sidecar_hash_roundtrip() {
    let file_data = b"DFIM integration: boot image provisioning and verification";
    let digest = sha256_digest(file_data);
    let redigest = sha256_digest(file_data);
    assert!(constant_time_hash_eq(&digest, &redigest));
}

#[test]
fn integration_tampered_file_detection() {
    let original = b"boot-image-v1.0.0-integrity-sealed";
    let tampered = b"boot-image-v1.0.0-malware-added ";
    let h1 = sha256_digest(original);
    let h2 = sha256_digest(tampered);
    assert!(!constant_time_hash_eq(&h1, &h2));
}

#[test]
fn integration_multi_block_integrity() {
    let blocks: Vec<Vec<u8>> = (0..16).map(|i| vec![i as u8; DFIM_BLOCK_SIZE]).collect();
    let digests: Vec<[u8; SHA256_LEN]> = blocks.iter().map(|b| sha256_digest(b)).collect();
    for (i, block) in blocks.iter().enumerate() {
        assert!(constant_time_hash_eq(&sha256_digest(block), &digests[i]));
    }
}

#[test]
fn integration_boot_block_constants() {
    assert_eq!(MAX_BOOT_BLOCKS, 64);
    assert_eq!(DFIM_BLOCK_SIZE, 4096);
}

#[test]
fn integration_max_image_size() {
    let max = MAX_BOOT_BLOCKS as usize * DFIM_BLOCK_SIZE;
    assert_eq!(max, 262144);
    let valid = vec![0u8; max];
    assert_eq!(sha256_digest(&valid).len(), SHA256_LEN);
}

#[test]
fn integration_eval_license_tag_chain() {
    let state = b"DFIMSTAT-v1-eval-state";
    let tag = sha256_digest(state);
    let verify = sha256_digest(state);
    assert!(constant_time_hash_eq(&tag, &verify));

    let tampered = b"DFIMSTAT-v1-eval-TAMPERED";
    let bad_tag = sha256_digest(tampered);
    assert!(!constant_time_hash_eq(&tag, &bad_tag));
}

#[test]
fn integration_constant_time_no_leak() {
    let a = sha256_digest(b"aaaa");
    let b = sha256_digest(b"bbbb");
    assert!(constant_time_hash_eq(&a, &a));
    assert!(!constant_time_hash_eq(&a, &b));
}

#[test]
fn image_bounds_reject_only_above_the_cap() {
    assert_eq!(assert_image_bounds(262_145), Err(DfimError::BufferTooLong));
    assert_eq!(assert_image_bounds(usize::MAX), Err(DfimError::BufferTooLong));
    assert_eq!(assert_image_bounds(65_537), Ok(()));
    assert_eq!(assert_image_bounds(262_144), Ok(()));
}
