use dfim::host_init::{
    check_eval_license, compute_state_integrity, decode_state_file, decode_state_header,
    encode_state_file, encode_state_header, host_gate_required_for, EvalLicenseError, LicenseState,
    EVAL_PERIOD_SECS, STATE_FILE_LEN, STATE_HEADER_LEN, STATE_MAGIC,
};

fn state(activation: u64, last: u64) -> LicenseState {
    LicenseState { activation_timestamp: activation, last_execution_timestamp: last }
}

#[test]
fn production_env_disables_host_gate_requirement() {
    assert!(!host_gate_required_for(false, Some("1")));
    assert!(!host_gate_required_for(false, Some("true")));
    assert!(!host_gate_required_for(false, Some("TRUE")));
    assert!(host_gate_required_for(false, Some("yes")));
    assert!(host_gate_required_for(false, None));
    assert!(!host_gate_required_for(true, None));
}

#[test]
fn integrity_tag_detects_header_tamper() {
    let s = state(1_700_000_000, 1_700_000_100);
    let mut header = encode_state_header(s);
    header[12] ^= 0x01;
    let mut file = [0u8; STATE_FILE_LEN];
    file[..STATE_HEADER_LEN].copy_from_slice(&header);
    file[STATE_HEADER_LEN..].copy_from_slice(&compute_state_integrity(&encode_state_header(s)));
    assert_eq!(decode_state_file(&file), Err(EvalLicenseError::StateUnreadable));
}

#[test]
fn first_run_creates_authenticated_file() {
    let now = 3_000_000_u64;
    let bytes = check_eval_license(now, None).expect("first run");
    assert_eq!(bytes.len(), STATE_FILE_LEN);
    assert_eq!(&bytes[0..8], &STATE_MAGIC);
    let decoded = decode_state_file(&bytes).expect("decode");
    assert_eq!(decoded, state(now, now));
}

#[test]
fn success_updates_last_execution_watermark() {
    let activation = 3_000_000_u64;
    let first = check_eval_license(activation, None).expect("first");
    let second = check_eval_license(activation + 3600, Some(&first)).expect("second");
    assert_eq!(decode_state_file(&second).expect("read"), state(activation, activation + 3600));
}

#[test]
fn clock_rollback_triggers_err10() {
    let t0 = 4_000_000_u64;
    let seeded = check_eval_license(t0, None).expect("seed");
    assert_eq!(check_eval_license(t0 - 1, Some(&seeded)), Err(EvalLicenseError::ClockTampering));
}

#[test]
fn backdate_before_activation_triggers_err10() {
    let file = encode_state_file(state(5_000_000, 4_000_000));
    assert_eq!(check_eval_license(4_500_000, Some(&file)), Err(EvalLicenseError::ClockTampering));
}

#[test]
fn expired_when_delta_exceeds_thirty_days() {
    let t0 = 10_000_000_u64;
    let seeded = check_eval_license(t0, None).expect("seed");
    assert_eq!(
        check_eval_license(t0 + EVAL_PERIOD_SECS + 1, Some(&seeded)),
        Err(EvalLicenseError::Expired)
    );
}

#[test]
fn valid_on_day_thirty_boundary() {
    let t0 = 10_000_000_u64;
    let seeded = check_eval_license(t0, None).expect("seed");
    assert!(check_eval_license(t0 + EVAL_PERIOD_SECS, Some(&seeded)).is_ok());
}

#[test]
fn rejects_truncated_state_file() {
    let file = encode_state_file(state(1, 1));
    assert_eq!(check_eval_license(2, Some(&file[..59])), Err(EvalLicenseError::StateUnreadable));
}

#[test]
fn rejects_plaintext_state_injection() {
    let mut blob = vec![0u8; STATE_FILE_LEN];
    blob[..6].copy_from_slice(b"STATE_");
    assert_eq!(decode_state_file(&blob), Err(EvalLicenseError::StateUnreadable));
}

#[test]
fn rejects_legacy_xor_state_blob() {
    assert_eq!(decode_state_file(&[0x5A; 16]), Err(EvalLicenseError::StateUnreadable));
}

#[test]
fn header_round_trips_and_rejects_wrong_version() {
    let s = state(7, 9);
    let mut header = encode_state_header(s);
    assert_eq!(decode_state_header(&header), Ok(s));
    header[8] = 2;
    assert_eq!(decode_state_header(&header), Err(EvalLicenseError::StateUnreadable));
}
