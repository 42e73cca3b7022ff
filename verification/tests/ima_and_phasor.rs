use dfim::digest::sha256_digest;
use dfim::error::DfimError;
use dfim::ima_policy::{inspect_ima_policy, ImaPolicyEvidence};
use dfim::phasor::{build_identity_hash, build_identity_hex, PhasorTerm};

const POLICY: &str = "\
appraise func=BPRM_CHECK appraise_type=imasig\n\
appraise func=MODULE_CHECK appraise_type=imasig\n";

#[test]
fn accepts_enforce_mode_with_exec_and_module_rules() {
    let evidence = inspect_ima_policy("quiet ima_appraise=enforce", POLICY);
    assert!(evidence.is_production_ready());
}

#[test]
fn rejects_fix_mode() {
    let evidence = inspect_ima_policy("ima_appraise=fix", POLICY);
    assert!(!evidence.is_production_ready());
}

#[test]
fn rejects_missing_exec_rule() {
    let evidence = inspect_ima_policy(
        "ima_appraise=enforce",
        "appraise func=MODULE_CHECK appraise_type=imasig",
    );
    assert!(!evidence.is_production_ready());
}

#[test]
fn rejects_measure_only_rules() {
    let evidence = inspect_ima_policy(
        "ima_appraise=enforce",
        "measure func=BPRM_CHECK\nmeasure func=MODULE_CHECK",
    );
    assert!(!evidence.is_production_ready());
}

#[test]
fn commented_out_tokens_do_not_count() {
    let evidence = inspect_ima_policy(
        "ima_appraise=enforce",
        "appraise func=BPRM_CHECK #appraise_type=imasig\nappraise func=MODULE_CHECK appraise_type=imasig",
    );
    assert_eq!(
        evidence,
        ImaPolicyEvidence {
            enforce_mode: true,
            signed_exec_appraisal: false,
            signed_module_appraisal: true,
        }
    );
}

#[test]
fn tokens_must_match_whole() {
    let evidence = inspect_ima_policy("xima_appraise=enforce", POLICY);
    assert!(!evidence.enforce_mode);
    let evidence = inspect_ima_policy("ima_appraise=enforce\tquiet", "appraise\tfunc=BPRM_CHECK  appraise_type=imasig\r\n");
    assert!(evidence.enforce_mode);
    assert!(evidence.signed_exec_appraisal);
    assert!(!evidence.signed_module_appraisal);
}

fn term(role: &'static str, rank: u32, axis: u32, phi: f32, weight: f32) -> PhasorTerm {
    PhasorTerm { role, rank, axis, phi_rad_bits: phi.to_bits(), weight_bits: weight.to_bits() }
}

#[test]
fn build_identity_hash_rejects_empty_terms() {
    assert_eq!(build_identity_hash(&[]), Err(DfimError::EmptyInput));
}

#[test]
fn build_identity_hash_is_deterministic() {
    let terms = [term("noor", 1, 0, -2.016_104, 0.039_199_937), term("hadid", 2, 1, 2.264_234_8, 0.068_394_29)];
    let h1 = build_identity_hash(&terms).expect("hash");
    let h2 = build_identity_hash(&terms).expect("hash");
    assert_eq!(h1, h2);
}

#[test]
fn build_identity_hash_distinguishes_terms() {
    let a = [term("x", 1, 0, 0.0, 1.0)];
    let b = [term("x", 2, 0, 0.0, 1.0)];
    assert_ne!(build_identity_hash(&a).expect("hash"), build_identity_hash(&b).expect("hash"));
}

#[test]
fn build_identity_hash_commits_canonical_bytes() {
    let t = term("x", 1, 2, 0.0, 1.0);
    let mut canonical = b"x\0".to_vec();
    canonical.extend_from_slice(&1u32.to_le_bytes());
    canonical.extend_from_slice(&2u32.to_le_bytes());
    canonical.extend_from_slice(&0.0f32.to_bits().to_le_bytes());
    canonical.extend_from_slice(&1.0f32.to_bits().to_le_bytes());
    assert_eq!(build_identity_hash(&[t]), Ok(sha256_digest(&canonical)));
    let hex = build_identity_hex(&[0xAB; 32]);
    assert_eq!(&hex[..4], b"abab");
}
