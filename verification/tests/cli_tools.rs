use dfim::boot_validate::DFIM_BLOCK_SIZE;
use dfim::cli::hex::{decode_hex_exact, decode_hex_nibble, encode, HexError};
use dfim::cli::platform::{align_up, block_byte_offset, DIRECT_IO_ALIGN};
use dfim::cli::provision::{
    default_sidecar_path, parse_trusted_policy, provision_sidecar, provision_signed_sidecar,
    rollback_payload, run_integrity_gates, ProvisionError,
};
use dfim::cli::raw_stress::{json_line, RawStressArgs};
use dfim::cli::recovery::{authorize_recovery, confirm_recovery, RecoveryError};
use dfim::cli::report::{CommandJsonReport, OutputFormat, OutputFormatError};
use dfim::cli::telemetry::{EventType, Outcome, TelemetryEvent};
use dfim::cli::tpm::{
    check_pcr_snapshot_stable, ecc_public_to_sec1, normalize_ecdsa_signature, TpmDataError,
    DFIM_TPM_TCTI_ENV, TPM_DEVICE_CANDIDATES,
};
use dfim::cli::verify::{
    check_image, validate_v2_sidecar_envelope, verify_image_bytes_against_state,
    verify_v2_image_bytes, VerifyError,
};
use dfim::error::DfimError;
use dfim::siem_sink::asset_id;
use dfim::state_db::wrap_authenticated_state_db;
use dfim::text::json_escape;
use dfim::uefi::manifest::build_boot_sidecar;
use dfim::uefi::rollback::parse_rollback_baseline;
use dfim::uefi::signed_manifest::{
    build_signed_boot_sidecar_v2, public_key_sec1_from_private, TrustedManifestPolicy,
};
use std::path::PathBuf;

fn decode16(text: &str) -> Result<[u8; 16], HexError> {
    let mut out = [0u8; 16];
    decode_hex_exact(text, &mut out).map(|()| out)
}

#[test]
fn decode_hex_exact_accepts_v2_key_material() {
    let decoded = decode16("00112233445566778899aabbccddeeff").expect("decode");
    assert_eq!(decoded[0], 0x00);
    assert_eq!(decoded[15], 0xff);
}

#[test]
fn decode_hex_exact_rejects_wrong_length_and_non_hex() {
    assert!(decode16("00").is_err());
    assert!(decode16("zz112233445566778899aabbccddeeff").is_err());
}

#[test]
fn hex_errors_are_specific() {
    assert_eq!(decode16("00"), Err(HexError::WrongLength { expected_chars: 32 }));
    assert_eq!(decode16("0011223344556677889900AABBCCDDEG"), Err(HexError::InvalidCharacter));
    assert_eq!(decode16("0011223344556677889900AABBCCDDEE").expect("upper")[15], 0xEE);
    assert_eq!(decode_hex_nibble(b'F'), Ok(15));
    assert_eq!(std::str::from_utf8(&encode(&[0x0f; 32])[..4]).unwrap(), "0f0f");
}

#[test]
fn default_sidecar_path_appends_extension() {
    let p = PathBuf::from(r"C:\EFI\Microsoft\Boot\bootmgfw.efi");
    assert_eq!(
        PathBuf::from(default_sidecar_path(p.to_str().unwrap())),
        PathBuf::from(r"C:\EFI\Microsoft\Boot\bootmgfw.efi.dfim")
    );
}

#[test]
fn default_sidecar_appends_dfim_extension() {
    let golden = PathBuf::from("/data/image.bin");
    assert_eq!(
        PathBuf::from(default_sidecar_path(golden.to_str().unwrap())),
        PathBuf::from("/data/image.bin.dfim")
    );
}

#[test]
fn block_byte_offset_scales_by_block_size() {
    assert_eq!(block_byte_offset(512, 4096), 512 * 4096);
    assert_eq!(block_byte_offset(u64::MAX, 4096), u64::MAX);
}

#[test]
fn align_up_rounds_to_alignment_boundary() {
    assert_eq!(align_up(1, DIRECT_IO_ALIGN), DIRECT_IO_ALIGN);
    assert_eq!(align_up(DIRECT_IO_ALIGN, DIRECT_IO_ALIGN), DIRECT_IO_ALIGN);
    assert_eq!(align_up(DIRECT_IO_ALIGN + 1, DIRECT_IO_ALIGN), DIRECT_IO_ALIGN * 2);
    assert_eq!(align_up(0, DIRECT_IO_ALIGN), 0);
}

#[test]
fn direct_io_align_matches_dfim_block_size() {
    assert_eq!(DIRECT_IO_ALIGN, 4096);
    assert_eq!(DIRECT_IO_ALIGN, DFIM_BLOCK_SIZE);
}

#[test]
fn output_format_rejects_unknown_values() {
    assert!(OutputFormat::parse("yaml").is_err());
    assert_eq!(OutputFormat::parse("yaml"), Err(OutputFormatError::Unsupported));
    assert_eq!(OutputFormat::parse("json"), Ok(OutputFormat::Json));
    assert_eq!(OutputFormat::parse("text"), Ok(OutputFormat::Text));
    assert_eq!(OutputFormat::default(), OutputFormat::Text);
}

#[test]
fn json_report_serializes_verify_success_fields() {
    let report = CommandJsonReport {
        command: "verify_v1",
        outcome: "success",
        asset_id: asset_id(br"C:\boot\image.efi"),
        merkle_root: Some([0xab; 32]),
        release_counter: None,
        blocks: Some(4),
        bytes: None,
        dry_run: false,
    };
    let line = String::from_utf8(report.to_json_line()).unwrap();
    assert!(line.starts_with("{\"schema_version\":1,\"command\":\"verify_v1\",\"outcome\":\"success\",\"asset_id\":\"sha256:"));
    assert!(line.contains(",\"blocks\":4,\"merkle_root\":\"abab"));
    assert!(!line.contains("dry_run"));
    assert!(line.ends_with("}\n"));
}

#[test]
fn json_escape_handles_all_control_and_special_characters() {
    assert_eq!(
        String::from_utf8(json_escape("quote\" slash\\ line\n tab\t nul\u{0} unit\u{1f}")).unwrap(),
        r#"quote\" slash\\ line\n tab\t nul\u0000 unit\u001f"#
    );
    assert_eq!(String::from_utf8(json_escape("\u{8}\u{c}é")).unwrap(), "\\b\\fé");
}

#[test]
fn telemetry_record_redacts_path_and_marks_dry_run() {
    let e = TelemetryEvent::provision(EventType::ProvisionV2, Outcome::Success, b"/boot/first", 1700, Some(7), None, true);
    let line = String::from_utf8(e.to_json_line()).unwrap();
    assert!(line.starts_with("{\"schema_version\":1,\"event_type\":\"provision_v2\",\"severity\":\"info\",\"outcome\":\"success\",\"timestamp_unix_ms\":1700,\"asset_id\":\"sha256:"));
    assert!(line.contains("\"release_counter\":7"));
    assert!(line.ends_with(",\"dry_run\":true}\n"));
    assert!(!line.contains("/boot/first"));
    let f = TelemetryEvent::security(EventType::VerifyV1, Outcome::Failure, b"/boot/first", 1, None, None);
    assert!(String::from_utf8(f.to_json_line()).unwrap().contains("\"severity\":\"error\""));
}

fn stress_args(cycles: usize, inject_sector: Option<u64>) -> RawStressArgs {
    RawStressArgs {
        device: "/dev/vda".to_string(),
        golden: "/tmp/golden.bin".to_string(),
        state: None,
        cycles,
        inject_sector,
        jsonl_out: "/tmp/out.jsonl".to_string(),
    }
}

#[test]
fn json_line_contains_phase_and_timing_fields() {
    let args = stress_args(10, None);
    let line = String::from_utf8(json_line("RAW-CYCLES", "PASS", &args, 8192, 10, &[100, 200], 15, None)).unwrap();
    assert!(line.contains("\"phase\":\"RAW-CYCLES\""));
    assert!(line.contains("\"timing_ns\""));
    assert!(line.contains("\"timing_ns\":{\"min\":100,\"max\":200,\"avg\":150}"));
}

#[test]
fn fault_json_reports_fail_closed_true() {
    let args = stress_args(1, Some(512));
    let line = String::from_utf8(json_line(
        "RAW-FAULT-INJECT",
        "PASS",
        &args,
        4096,
        1,
        &[50],
        1,
        Some((512, block_byte_offset(512, DFIM_BLOCK_SIZE), true)),
    ))
    .unwrap();
    assert!(line.contains("\"fail_closed\":true"));
    assert!(line.contains("\"inject_byte_offset\":2097152"));
}

#[test]
fn tpm_candidates_prefer_resource_manager() {
    assert_eq!(TPM_DEVICE_CANDIDATES[0], "/dev/tpmrm0");
    assert_eq!(TPM_DEVICE_CANDIDATES[1], "/dev/tpm0");
}

#[test]
fn tpm_tcti_env_constant_is_stable() {
    assert_eq!(DFIM_TPM_TCTI_ENV, "DFIM_TPM_TCTI");
}

#[test]
fn tpm_signature_components_are_left_padded() {
    let sig = normalize_ecdsa_signature(&[1, 2], &[3; 32]).expect("sig");
    assert_eq!(&sig[..30], &[0u8; 30]);
    assert_eq!(&sig[30..32], &[1, 2]);
    assert_eq!(&sig[32..], &[3; 32]);
    assert_eq!(normalize_ecdsa_signature(&[], &[1]), Err(TpmDataError::SignatureComponentLength));
    assert_eq!(normalize_ecdsa_signature(&[1; 33], &[1]), Err(TpmDataError::SignatureComponentLength));
}

#[test]
fn tpm_point_encoding_checks_the_curve() {
    let key = public_key_sec1_from_private(&[0x33; 32]).expect("key");
    let x = &key[1..];
    let y_last = if key[0] == 0x03 { [1u8] } else { [2u8] };
    assert_eq!(ecc_public_to_sec1(x, &y_last), Ok(key));
    assert_eq!(ecc_public_to_sec1(&[], &[1]), Err(TpmDataError::NotP256Key));
    assert_eq!(ecc_public_to_sec1(&[0xff; 32], &[1]), Err(TpmDataError::InvalidP256Key));
}

#[test]
fn tpm_snapshot_must_be_stable() {
    let v = [[1u8; 32]; 5];
    let mut w = v;
    assert_eq!(check_pcr_snapshot_stable(3, &v, 3, &v), Ok(()));
    assert_eq!(check_pcr_snapshot_stable(3, &v, 4, &v), Err(TpmDataError::PcrChangedDuringQuote));
    w[2][31] ^= 1;
    assert_eq!(check_pcr_snapshot_stable(3, &v, 3, &w), Err(TpmDataError::PcrChangedDuringQuote));
}

#[test]
fn integrity_gates_check_path_length() {
    assert_eq!(run_integrity_gates(0), Err(DfimError::InvalidParameter));
    assert_eq!(run_integrity_gates(10), Ok(()));
}

#[test]
fn provision_builds_self_checked_sidecar() {
    let image = vec![0x4D_u8; DFIM_BLOCK_SIZE * 3 + 512];
    let p = provision_sidecar(&image).expect("provision");
    assert_eq!(p.block_count, 4);
    assert_eq!(p.sidecar, build_boot_sidecar(&image).expect("build"));
    assert_eq!(provision_sidecar(&[]).err(), Some(ProvisionError::EmptyTarget));
    assert_eq!(
        provision_sidecar(&vec![0u8; DFIM_BLOCK_SIZE * 64 + 1]).err(),
        Some(ProvisionError::Pipeline(DfimError::BufferTooLong))
    );
}

const PRIVATE_KEY: [u8; 32] = [0x22; 32];
const KEY_ID: [u8; 16] = *b"DFIM-VERIFY-V2!!";
const KEY_ID_HEX: &str = "4446494d2d5645524946592d56322121";

fn v2_policy(minimum_release: u64) -> TrustedManifestPolicy {
    TrustedManifestPolicy {
        public_key_sec1: public_key_sec1_from_private(&PRIVATE_KEY).expect("public key"),
        expected_key_id: KEY_ID,
        minimum_release,
    }
}

#[test]
fn provision_signed_sidecar_round_trips_key_id() {
    let image = vec![0x4D_u8; DFIM_BLOCK_SIZE * 2];
    let p = provision_signed_sidecar(&image, &PRIVATE_KEY, KEY_ID_HEX, 9).expect("provision");
    assert_eq!(p.key_id, Some(KEY_ID));
    assert_eq!(p.release_counter, Some(9));
    assert!(verify_v2_image_bytes(&image, &p.sidecar, &v2_policy(9)).is_ok());
    assert_eq!(
        p.sidecar,
        dfim::uefi::signed_manifest::build_signed_boot_sidecar_v2(&image, &PRIVATE_KEY, KEY_ID, 9).expect("built")
    );
    assert_eq!(
        provision_signed_sidecar(&image, &PRIVATE_KEY, KEY_ID_HEX, 0).err(),
        Some(ProvisionError::ZeroReleaseCounter)
    );
    assert_eq!(
        provision_signed_sidecar(&image, &PRIVATE_KEY, "00", 9).err(),
        Some(ProvisionError::Hex(HexError::WrongLength { expected_chars: 32 }))
    );
}

#[test]
fn trusted_policy_requires_compressed_key_and_positive_floor() {
    let key = public_key_sec1_from_private(&PRIVATE_KEY).expect("key");
    let key_hex: String = key.iter().map(|b| format!("{b:02x}")).collect();
    let p = parse_trusted_policy(&key_hex, KEY_ID_HEX, 9).expect("policy");
    assert_eq!(p, v2_policy(9));
    assert_eq!(parse_trusted_policy(&key_hex, KEY_ID_HEX, 0).err(), Some(ProvisionError::ZeroMinimumRelease));
    let uncompressed = format!("04{}", &key_hex[2..]);
    assert_eq!(
        parse_trusted_policy(&uncompressed, KEY_ID_HEX, 9).err(),
        Some(ProvisionError::UncompressedPublicKey)
    );
}

#[test]
fn rollback_payload_uses_decoded_key_id() {
    let payload = rollback_payload(KEY_ID_HEX, 42).expect("payload");
    assert_eq!(parse_rollback_baseline(&payload, &KEY_ID), Ok(42));
    assert_eq!(rollback_payload(KEY_ID_HEX, 0).err(), Some(ProvisionError::Pipeline(DfimError::InvalidParameter)));
}

#[test]
fn verify_passes_for_matching_sidecar() {
    let image = vec![0x4D_u8; DFIM_BLOCK_SIZE * 2 + 100];
    let sidecar = build_boot_sidecar(&image).expect("build");
    let report = verify_image_bytes_against_state(&image, &sidecar).expect("verify");
    assert_eq!(report.block_count, 3);
    let wrapped = wrap_authenticated_state_db(&sidecar).expect("wrap");
    assert_eq!(verify_image_bytes_against_state(&image, &wrapped), Ok(report));
}

#[test]
fn verify_rejects_tampered_image() {
    let image = vec![0x4D_u8; DFIM_BLOCK_SIZE * 2 + 100];
    let sidecar = build_boot_sidecar(&image).expect("build");
    let mut tampered = image.clone();
    tampered[10] ^= 1;
    assert!(matches!(
        verify_image_bytes_against_state(&tampered, &sidecar),
        Err(VerifyError::BlockTamper(_)) | Err(VerifyError::RootMismatch { .. })
    ));
}

#[test]
fn verify_rejects_plaintext_state_injection() {
    let image = vec![0x4D_u8; 100];
    assert_eq!(
        verify_image_bytes_against_state(&image, b"STATE_HASH_CLOCK_VALID_A"),
        Err(VerifyError::InvalidStateDatabase(DfimError::CorruptMetadata))
    );
    assert_eq!(verify_image_bytes_against_state(&image, b""), Err(VerifyError::EmptyState));
    assert_eq!(verify_image_bytes_against_state(b"", b"x"), Err(VerifyError::EmptyImage));
    assert_eq!(check_image(&[1]), Ok(()));
}

#[test]
fn verify_rejects_license_blob_as_state_db() {
    let image = vec![0x4D_u8; 100];
    assert_eq!(
        verify_image_bytes_against_state(&image, &[0x11; 16]),
        Err(VerifyError::InvalidStateDatabase(DfimError::CorruptMetadata))
    );
    assert_eq!(validate_v2_sidecar_envelope(&[0x11; 16]), Err(VerifyError::LegacyLicenseBlob));
    assert_eq!(validate_v2_sidecar_envelope(b"STATE_X"), Err(VerifyError::PlaintextInjection));
    assert_eq!(validate_v2_sidecar_envelope(b""), Err(VerifyError::EmptyState));
}

#[test]
fn verify_v2_enforces_signature_and_release_floor() {
    let image = vec![0x4D_u8; DFIM_BLOCK_SIZE * 2];
    let sidecar = build_signed_boot_sidecar_v2(&image, &PRIVATE_KEY, KEY_ID, 9).expect("sidecar");
    assert!(verify_v2_image_bytes(&image, &sidecar, &v2_policy(9)).is_ok());
    assert!(verify_v2_image_bytes(&image, &sidecar, &v2_policy(10)).is_err());
}

#[test]
fn recovery_requires_authorized_and_identical_pair() {
    let image = vec![0x4D_u8; DFIM_BLOCK_SIZE * 2];
    let sidecar = build_signed_boot_sidecar_v2(&image, &PRIVATE_KEY, KEY_ID, 9).expect("sidecar");
    let authorized = authorize_recovery(&image, &sidecar, &v2_policy(9)).expect("authorized");
    let report = confirm_recovery(&authorized, &image, &sidecar, &v2_policy(9)).expect("confirmed");
    assert_eq!(report.release_counter, 9);
    assert_eq!(report.restored_bytes, image.len());
    assert!(matches!(authorize_recovery(&image, &sidecar, &v2_policy(10)), Err(RecoveryError::AuthorizationFailed(_))));
    let other = vec![0x4E_u8; DFIM_BLOCK_SIZE * 2];
    let other_sidecar = build_signed_boot_sidecar_v2(&other, &PRIVATE_KEY, KEY_ID, 9).expect("sidecar");
    assert_eq!(
        confirm_recovery(&authorized, &other, &other_sidecar, &v2_policy(9)).err(),
        Some(RecoveryError::IdentityMismatch)
    );
}

#[test]
fn fault_injection_passes_only_when_the_flip_is_rejected() {
    assert_eq!(dfim::cli::raw_stress::fault_injection_verdict(false), ("PASS", true));
    assert_eq!(dfim::cli::raw_stress::fault_injection_verdict(true), ("FAIL", false));
}
