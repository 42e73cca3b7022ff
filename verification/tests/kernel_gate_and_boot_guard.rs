use dfim::appraisal::{
    appraise_file, emit_deny_event, insert_integrity_entry, verify_merkle_leaf, DenyReason, FileKey,
    ImageIntegrityEntry,
};
use dfim::boot_guard::{
    authorize_boot_handoff, check_volume_read, hardware_log_lines, read_authenticated_rollback_floor,
    volume_file_len, REQUIRED_FLOOR_ATTRIBUTES,
};
use dfim::deny_monitor::{bytemuck_must_read, parse_deny_event};
use dfim::ebpf_loader::{plan_enrollment, verify_live_image_against_sidecar, LiveImageError};
use dfim::enforcement_policy::{
    evaluate_enforcement, DenyEventV1, DfimConfigV1, EnforcementDecision, ScopeEntryV1, ScopeKey,
};
use dfim::error::DfimError;
use dfim::lsm_gate::{enforce_dfim_policy, hook_return_code, record_deny_event, DFIM_DENY};
use dfim::siem_sink::{asset_id, asset_id_from_inode, SiemEventType};
use dfim::uefi::manifest::{build_boot_sidecar, parse_boot_manifest};
use dfim::uefi::rollback::build_rollback_baseline;
use dfim::uefi::signed_manifest::{build_signed_boot_sidecar_v2, public_key_sec1_from_private};

const KEY: ScopeKey = ScopeKey { device_id: 9, inode: 42 };

#[test]
fn gate_allows_unprotected_without_record() {
    let (code, event) = enforce_dfim_policy(&KEY, None, None);
    assert_eq!(code, Ok(0));
    assert!(event.is_none());
    assert_eq!(hook_return_code(code), 0);
}

#[test]
fn gate_denies_active_entry_without_config_and_records_scope_generation() {
    let scope = ScopeEntryV1::active(7, [0xAB; 32]);
    let (code, event) = enforce_dfim_policy(&KEY, Some(&scope), None);
    assert_eq!(code, Err(DFIM_DENY));
    assert_eq!(hook_return_code(code), -1);
    assert_eq!(
        event,
        Some(DenyEventV1 { device_id: 9, inode: 42, reason: 4, policy_generation: 7 })
    );
}

#[test]
fn gate_denies_stale_generation() {
    let scope = ScopeEntryV1::active(7, [0xAB; 32]);
    let config = DfimConfigV1::production(8);
    let (code, event) = enforce_dfim_policy(&KEY, Some(&scope), Some(&config));
    assert_eq!(code, Err(-1));
    assert_eq!(event.map(|e| e.reason), Some(5));
}

#[test]
fn deny_record_falls_back_to_config_generation_then_zero() {
    let config = DfimConfigV1::production(11);
    let with_config =
        record_deny_event(&KEY, None, Some(&config), EnforcementDecision::DenyInvalidConfig);
    assert_eq!(with_config.policy_generation, 11);
    let bare = record_deny_event(&KEY, None, None, EnforcementDecision::DenyInvalidScope);
    assert_eq!(bare, DenyEventV1 { device_id: 9, inode: 42, reason: 3, policy_generation: 0 });
}

#[test]
fn enrollment_plan_publishes_in_safe_order() {
    let root = [0x5A; 32];
    let plan = plan_enrollment(3, root).expect("plan");
    assert_eq!(plan.pending, ScopeEntryV1::pending(3, root));
    assert_eq!(plan.config, DfimConfigV1::production(3));
    assert_eq!(plan.active, ScopeEntryV1::active(3, root));
    assert_eq!(evaluate_enforcement(Some(&plan.pending), None), EnforcementDecision::AllowPendingEnrollment);
    assert_eq!(
        evaluate_enforcement(Some(&plan.pending), Some(&plan.config)),
        EnforcementDecision::AllowPendingEnrollment
    );
    assert_eq!(
        evaluate_enforcement(Some(&plan.active), Some(&plan.config)),
        EnforcementDecision::AllowProtectedToIma
    );
    assert_eq!(plan_enrollment(0, root).err(), Some("policy generation must be non-zero"));
}

fn digest(byte: u8) -> [u8; 32] {
    [byte; 32]
}

#[test]
fn appraisal_allows_files_outside_scope() {
    assert_eq!(appraise_file(None, None, &digest(1)), (0, None));
}

#[test]
fn appraisal_fails_closed_without_integrity_entry() {
    let scope = ScopeEntryV1::active(1, [0; 32]);
    assert_eq!(appraise_file(Some(&scope), None, &digest(1)), (-1, Some(DenyReason::MissingEntry)));
}

#[test]
fn appraisal_direct_digest_mode() {
    let scope = ScopeEntryV1::active(1, [0; 32]);
    let (key, entry) = insert_integrity_entry(42, 9, digest(7), [0; 32], 0, 3);
    assert_eq!(key, FileKey { inode: 42, device: 9 });
    assert_eq!(entry.flags, 0);
    assert_eq!(appraise_file(Some(&scope), Some(&entry), &digest(7)), (0, None));
    assert_eq!(
        appraise_file(Some(&scope), Some(&entry), &digest(8)),
        (-1, Some(DenyReason::DigestMismatch))
    );
}

#[test]
fn appraisal_requires_attestation_when_flagged() {
    let scope = ScopeEntryV1::active(1, [0; 32]);
    let (_, mut entry) = insert_integrity_entry(42, 9, digest(7), [0; 32], 0, 3);
    entry.flags = 0b11;
    assert_eq!(
        appraise_file(Some(&scope), Some(&entry), &digest(7)),
        (-1, Some(DenyReason::AttestationMissing))
    );
    entry.flags = 0b10;
    assert_eq!(appraise_file(Some(&scope), Some(&entry), &digest(7)), (0, None));
}

#[test]
fn appraisal_merkle_mode_rejects_zero_leaf_under_real_root() {
    let scope = ScopeEntryV1::active(1, [0; 32]);
    let entry = ImageIntegrityEntry {
        expected_digest: digest(7),
        merkle_root: digest(0xEE),
        block_count: 4,
        policy_id: 1,
        flags: 0,
    };
    assert_eq!(appraise_file(Some(&scope), Some(&entry), &digest(3)), (0, None));
    assert_eq!(
        appraise_file(Some(&scope), Some(&entry), &[0u8; 32]),
        (-1, Some(DenyReason::MerkleFailure))
    );
    assert!(verify_merkle_leaf(&[0u8; 32], &[0u8; 32], 4));
    assert!(!verify_merkle_leaf(&[0u8; 32], &digest(1), 4));
    assert_eq!(DenyReason::MerkleFailure.code(), 3);
    assert_eq!(DenyReason::ConfigError.code(), 7);
}

#[test]
fn appraisal_deny_record_keeps_low_pid_half() {
    let event = emit_deny_event(42, 9, 2, 1_000, 0x0000_0007_0000_0123);
    assert_eq!(event.pid, 0x123);
    assert_eq!(event.timestamp_ns, 1_000);
    assert_eq!(event.reason, 2);
    assert_eq!(event.expected_prefix, [0; 8]);
}

fn ring_record(device_id: u64, inode: u64, reason: u32, generation: u64) -> Vec<u8> {
    let mut out = Vec::new();
    out.extend_from_slice(&device_id.to_le_bytes());
    out.extend_from_slice(&inode.to_le_bytes());
    out.extend_from_slice(&reason.to_le_bytes());
    out.extend_from_slice(&[0u8; 4]);
    out.extend_from_slice(&generation.to_le_bytes());
    out
}

#[test]
fn ring_record_decodes_field_by_field() {
    let bytes = ring_record(0x0102_0304_0506_0708, 77, 5, 9);
    let mut raw = [0u8; 32];
    raw.copy_from_slice(&bytes);
    assert_eq!(
        bytemuck_must_read(&raw),
        DenyEventV1 { device_id: 0x0102_0304_0506_0708, inode: 77, reason: 5, policy_generation: 9 }
    );
}

#[test]
fn deny_ring_record_becomes_policy_deny_event() {
    let mut bytes = ring_record(9, 42, 4, 7);
    bytes.extend_from_slice(&[0xFF; 3]);
    let event = parse_deny_event(&bytes).expect("event");
    assert_eq!(event.event_type, SiemEventType::PolicyDeny);
    assert_eq!(event.asset_id, asset_id_from_inode(9, 42));
    assert_eq!(event.reason_code, Some("DenyInvalidConfig"));
    assert_eq!(event.policy_generation, Some(7));
    assert_eq!(event.device_id, Some(9));
    assert_eq!(event.inode, Some(42));
}

#[test]
fn deny_ring_rejects_short_and_allow_records() {
    let bytes = ring_record(9, 42, 4, 7);
    assert!(parse_deny_event(&bytes[..31]).is_none());
    assert!(parse_deny_event(&ring_record(9, 42, 2, 7)).is_none());
    assert!(parse_deny_event(&ring_record(9, 42, 6, 7)).is_none());
}

fn image(len: usize) -> Vec<u8> {
    (0..len).map(|i| (i * 7 % 251) as u8).collect()
}

#[test]
fn live_image_with_own_sidecar_is_accepted() {
    let img = image(10_000);
    let sidecar = build_boot_sidecar(&img).expect("sidecar");
    let check = verify_live_image_against_sidecar(&img, &sidecar, &img).expect("accepted");
    assert!(check.canonical_sidecar);
    assert_eq!(check.live_manifest.merkle_root, check.disk_manifest.merkle_root);
    assert_eq!(check.disk_manifest.merkle_root, parse_boot_manifest(&sidecar).unwrap().merkle_root);
}

#[test]
fn live_image_tampered_after_provision_is_refused() {
    let img = image(10_000);
    let sidecar = build_boot_sidecar(&img).expect("sidecar");
    let mut tampered = img.clone();
    tampered[5000] ^= 0x40;
    let err = verify_live_image_against_sidecar(&tampered, &sidecar, &tampered).err().expect("refused");
    assert_eq!(err, LiveImageError::Dfim(DfimError::IntegrityFailure));
    let event = err.siem_event(b"/usr/bin/guarded");
    assert_eq!(event.event_type, SiemEventType::IntegrityFailure);
    assert_eq!(event.asset_id, asset_id(b"/usr/bin/guarded"));
    assert_eq!(event.reason_code, Some("integrity verification failed"));
    assert_eq!(err.message(), "integrity verification failed");
}

#[test]
fn live_image_changed_between_reads_is_refused() {
    let img = image(10_000);
    let sidecar = build_boot_sidecar(&img).expect("sidecar");
    let mut second = img.clone();
    second[1] ^= 1;
    assert_eq!(
        verify_live_image_against_sidecar(&img, &sidecar, &second).err(),
        Some(LiveImageError::Dfim(DfimError::IntegrityFailure))
    );
}

#[test]
fn live_image_refusals_for_bad_inputs() {
    assert_eq!(
        verify_live_image_against_sidecar(&[], &[], &[]).err(),
        Some(LiveImageError::Dfim(DfimError::EmptyInput))
    );
    let img = image(100);
    assert_eq!(
        verify_live_image_against_sidecar(&img, b"not a sidecar", &img).err(),
        Some(LiveImageError::Dfim(DfimError::BufferTooShort))
    );
    let mismatch = LiveImageError::RootMismatch { disk_root: [1; 32], live_root: [2; 32] };
    let event = mismatch.siem_event(b"/x");
    assert_eq!(event.expected_merkle_root, Some([1; 32]));
    assert_eq!(event.calculated_merkle_root, Some([2; 32]));
    assert_eq!(
        mismatch.message(),
        "live Merkle root differs from on-disk sidecar — possible post-provision tamper"
    );
}

const KEY_ID: [u8; 16] = *b"DFIM-BOOT-KEY-01";
const PRIVATE_KEY: [u8; 32] = [0x11; 32];

#[test]
fn rollback_floor_needs_authenticated_attributes() {
    let payload = build_rollback_baseline(KEY_ID, 9).expect("baseline");
    assert_eq!(
        read_authenticated_rollback_floor(Some(&payload), REQUIRED_FLOOR_ATTRIBUTES, &KEY_ID),
        Ok(9)
    );
    assert_eq!(read_authenticated_rollback_floor(Some(&payload), 0x27, &KEY_ID), Ok(9));
    assert_eq!(
        read_authenticated_rollback_floor(Some(&payload), 0x07, &KEY_ID),
        Err(DfimError::IntegrityFailure)
    );
    assert_eq!(
        read_authenticated_rollback_floor(None, REQUIRED_FLOOR_ATTRIBUTES, &KEY_ID),
        Err(DfimError::IntegrityFailure)
    );
    assert_eq!(
        read_authenticated_rollback_floor(Some(&payload), REQUIRED_FLOOR_ATTRIBUTES, &[0xAA; 16]),
        Err(DfimError::IntegrityFailure)
    );
}

#[test]
fn volume_file_checks() {
    assert_eq!(volume_file_len(false, 10), Err(DfimError::InvalidParameter));
    assert_eq!(volume_file_len(true, 0), Err(DfimError::EmptyInput));
    assert_eq!(volume_file_len(true, 262_145), Err(DfimError::BufferTooLong));
    assert_eq!(volume_file_len(true, 262_144), Ok(262_144));
    assert_eq!(check_volume_read(10, 10), Ok(()));
    assert_eq!(check_volume_read(9, 10), Err(DfimError::BufferTooShort));
}

#[test]
fn boot_handoff_validates_under_higher_floor() {
    let img = image(5000);
    let public_key = public_key_sec1_from_private(&PRIVATE_KEY).expect("key");
    let sidecar = build_signed_boot_sidecar_v2(&img, &PRIVATE_KEY, KEY_ID, 7).expect("sidecar");
    let validated =
        authorize_boot_handoff(&img, &sidecar, Ok(5), 6, public_key, KEY_ID).expect("handoff");
    assert_eq!(validated.release_counter, 7);
    assert_eq!(validated.boot.payload, img);
    let halt = authorize_boot_handoff(&img, &sidecar, Ok(8), 6, public_key, KEY_ID)
        .err()
        .expect("rolled back");
    assert_eq!(halt.phase, "INTEGRITY_PIPELINE");
    assert_eq!(halt.error, DfimError::IntegrityFailure);
}

#[test]
fn boot_handoff_charges_floor_errors_to_manifest_parse() {
    let img = image(5000);
    let public_key = public_key_sec1_from_private(&PRIVATE_KEY).expect("key");
    let sidecar = build_signed_boot_sidecar_v2(&img, &PRIVATE_KEY, KEY_ID, 7).expect("sidecar");
    let halt = authorize_boot_handoff(&img, &sidecar, Err(DfimError::IntegrityFailure), 6, public_key, KEY_ID)
        .err()
        .expect("halt");
    assert_eq!(halt.phase, "MANIFEST_PARSE");
    assert_eq!(halt.error, DfimError::IntegrityFailure);
    let halt = authorize_boot_handoff(&img, &sidecar, Ok(0), 6, public_key, KEY_ID).err().expect("halt");
    assert_eq!(halt.phase, "MANIFEST_PARSE");
    assert_eq!(halt.error, DfimError::InvalidParameter);
}

#[test]
fn hardware_log_lines_format() {
    let (record, console) = hardware_log_lines("BOOTMGFW_READ", DfimError::EmptyInput);
    assert_eq!(record, b"DFIM FATAL phase=BOOTMGFW_READ code=empty input".to_vec());
    assert_eq!(
        console,
        b"\r\n[DFIM-HW-LOG] phase=BOOTMGFW_READBOOTMGFW_READ error=empty input\r\n".to_vec()
    );
}

use dfim::siem_connectors::{
    cef_severity_of, syslog_severity_of, DfimSiemEvent, Rfc5424SyslogSerializer, SentinelCefSerializer,
    SiemFormat,
};

fn make_event() -> DfimSiemEvent {
    DfimSiemEvent {
        event_id: "evt-001".into(),
        event_type: "dfim.integrity.failure".into(),
        severity: "critical".into(),
        asset_id: "sha256:abcdef1234567890abcdef1234567890abcdef1234567890abcdef1234567890".into(),
        message: "Boot image tampered".into(),
        host_name: "dfim-edge-01".into(),
        timestamp_secs: 1_700_000_000,
        timestamp_nanos: 123_456_789,
        outcome: "failure".into(),
        merkle_root: Some("aabbccdd".into()),
        tampered_blocks: Some(3),
        fec_corrected: Some(1),
        rollback_counter: Some(42),
        attestation_verified: Some(true),
        enforcement_action: Some("block".into()),
    }
}

fn contains(haystack: &[u8], needle: &str) -> bool {
    haystack.windows(needle.len()).any(|w| w == needle.as_bytes())
}

#[test]
fn sentinel_cef_output_has_cef_header() {
    let s = SentinelCefSerializer;
    let out = s.serialize(&make_event());
    assert!(out.starts_with(b"CEF:0|DFIM|"));
    assert!(contains(&out, "cs1Label=EnforcementAction"));
    assert!(contains(&out, "ComplianceStandard"));
}

#[test]
fn rfc5424_output_has_structured_data() {
    let s = Rfc5424SyslogSerializer;
    let out = s.serialize(&make_event()).expect("record");
    assert!(contains(&out, "<"));
    assert!(contains(&out, "dfim@48577"));
    assert!(contains(&out, "merkle_root"));
    assert!(contains(&out, "rollback_counter"));
}

#[test]
fn cef_record_exact_text() {
    let mut event = make_event();
    event.message = "a=b\\c".into();
    event.enforcement_action = None;
    event.fec_corrected = None;
    let out = SentinelCefSerializer.serialize(&event);
    let expected = "CEF:0|DFIM|Firmware Integrity Matrix|0.1.0|DFIM_INTEGRITY_FAILURE|a=b\\c|10|src=0.0.0.0 shost=dfim-edge-01 fileHash=abcdef1234567890abcdef1234567890abcdef1234567890abcdef1234567890 cs1=block.cs1Label=EnforcementAction cs2=NIST-800-193.cs2Label=ComplianceStandard cn1=3.cn1Label=TamperedBlockCount cn2=0.cn2Label=FecCorrectedCount start=1700000000123 externalId=evt-001 msg=a\\=b\\\\c";
    assert_eq!(String::from_utf8(out).unwrap(), expected);
    assert_eq!(SentinelCefSerializer.format(), SiemFormat::SentinelCef);
    assert_eq!(SiemFormat::SentinelCef.content_type(), "text/plain");
}

#[test]
fn cef_keeps_unprefixed_asset_id_and_negative_time() {
    let mut event = make_event();
    event.asset_id = "plain-id".into();
    event.timestamp_secs = -2;
    event.timestamp_nanos = 500_000_000;
    let out = String::from_utf8(SentinelCefSerializer.serialize(&event)).unwrap();
    assert!(out.contains(" fileHash=plain-id cs1="));
    assert!(out.contains(" start=-1500 externalId="));
}

#[test]
fn syslog_record_exact_text() {
    let mut event = make_event();
    event.merkle_root = None;
    event.attestation_verified = None;
    let out = Rfc5424SyslogSerializer.serialize(&event).expect("record");
    let expected = "<136>1 2023-11-14T22:13:20.123Z dfim-edge-01 dfim-integrity 12345 ALERT [dfim@48577 event_type=\"dfim.integrity.failure\" severity=\"critical\" asset_id=\"sha256:abcdef1234567890abcdef1234567890abcdef1234567890abcdef1234567890\" merkle_root=\"-\" tampered_blocks=\"3\" fec_corrected=\"1\" rollback_counter=\"42\" attestation_verified=\"false\"] Boot image tampered";
    assert_eq!(String::from_utf8(out).unwrap(), expected);
    assert_eq!(Rfc5424SyslogSerializer.format(), SiemFormat::Rfc5424Syslog);
}

#[test]
fn syslog_rejects_unrepresentable_time() {
    let mut event = make_event();
    event.timestamp_nanos = 2_000_000_000;
    assert!(Rfc5424SyslogSerializer.serialize(&event).is_none());
}

#[test]
fn severity_scales() {
    assert_eq!(cef_severity_of("critical"), 10);
    assert_eq!(cef_severity_of("high"), 8);
    assert_eq!(cef_severity_of("medium"), 5);
    assert_eq!(cef_severity_of("low"), 3);
    assert_eq!(cef_severity_of("info"), 1);
    assert_eq!(syslog_severity_of("critical"), 2);
    assert_eq!(syslog_severity_of("high"), 4);
    assert_eq!(syslog_severity_of("medium"), 5);
    assert_eq!(syslog_severity_of("low"), 6);
    assert_eq!(syslog_severity_of("Critical"), 7);
    assert_eq!(SiemFormat::Ndjson.content_type(), "application/x-ndjson");
    assert_eq!(SiemFormat::SplunkHec.content_type(), "application/json");
}

use dfim::cli::hex::HexError;
use dfim::deployment_trust::{
    deployment_trust_from_settings, parse_u64_text, render_deployment_trust, unset_deployment_trust,
    DeploymentTrust, DeploymentTrustError,
};

const PK_HEX: &str = "02112233445566778899aabbccddeeff00112233445566778899AABBCCDDEEFF00";
const KEY_ID_HEX: &str = "444649412d424f4f542d4b45592d3031";

#[test]
fn deployment_trust_reads_settings() {
    let t = deployment_trust_from_settings(PK_HEX, KEY_ID_HEX, "9").expect("trust");
    assert_eq!(t.public_key[0], 2);
    assert_eq!(t.public_key[1], 0x11);
    assert_eq!(t.public_key[32], 0x00);
    assert_eq!(t.public_key[31], 0xFF);
    assert_eq!(&t.key_id, b"DFIA-BOOT-KEY-01");
    assert_eq!(t.minimum_release, 9);
}

#[test]
fn deployment_trust_refusals() {
    assert_eq!(
        deployment_trust_from_settings("02", KEY_ID_HEX, "9"),
        Err(DeploymentTrustError::PublicKey(HexError::WrongLength { expected_chars: 66 }))
    );
    let uncompressed = format!("04{}", &PK_HEX[2..]);
    assert_eq!(
        deployment_trust_from_settings(&uncompressed, KEY_ID_HEX, "9"),
        Err(DeploymentTrustError::NotCompressedKey)
    );
    let bad_hex = format!("0g{}", &PK_HEX[2..]);
    assert_eq!(
        deployment_trust_from_settings(&bad_hex, KEY_ID_HEX, "9"),
        Err(DeploymentTrustError::PublicKey(HexError::InvalidCharacter))
    );
    assert_eq!(
        deployment_trust_from_settings(PK_HEX, "00", "9"),
        Err(DeploymentTrustError::KeyId(HexError::WrongLength { expected_chars: 32 }))
    );
    assert_eq!(
        deployment_trust_from_settings(PK_HEX, KEY_ID_HEX, "nine"),
        Err(DeploymentTrustError::InvalidMinRelease)
    );
    assert_eq!(
        deployment_trust_from_settings(PK_HEX, KEY_ID_HEX, "0"),
        Err(DeploymentTrustError::ZeroMinRelease)
    );
}

#[test]
fn u64_text_follows_from_str() {
    for text in ["0", "7", "+7", "007", "18446744073709551615", "18446744073709551616", "", "+", "-1", " 1", "1a"] {
        assert_eq!(parse_u64_text(text), text.parse::<u64>().ok(), "{text:?}");
    }
}

#[test]
fn deployment_trust_renders_constants() {
    let mut t = unset_deployment_trust();
    assert_eq!(t, DeploymentTrust { public_key: [0; 33], key_id: [0; 16], minimum_release: 0 });
    t.public_key[0] = 3;
    t.key_id[15] = 255;
    t.minimum_release = 12;
    let text = String::from_utf8(render_deployment_trust(&t)).unwrap();
    let expected = format!(
        "pub const BOOT_PUBLIC_KEY: [u8; 33] = {:?};\npub const BOOT_KEY_ID: [u8; 16] = {:?};\npub const BOOT_MIN_RELEASE: u64 = 12;\n",
        t.public_key, t.key_id
    );
    assert_eq!(text, expected);
}

use dfim::secrets::{check_litcrypt_key, LitcryptKeyError};

#[test]
fn litcrypt_key_checks() {
    assert_eq!(check_litcrypt_key("0123456789abcdef"), Ok("0123456789abcdef"));
    assert_eq!(check_litcrypt_key("  0123456789abcdef\t"), Ok("0123456789abcdef"));
    assert_eq!(check_litcrypt_key("short"), Err(LitcryptKeyError::TooShort(5)));
    assert_eq!(check_litcrypt_key("0123456789abcdef\n"), Err(LitcryptKeyError::ControlCharacter));
    assert_eq!(check_litcrypt_key("0123456789\0abcdef"), Err(LitcryptKeyError::ControlCharacter));
    assert_eq!(check_litcrypt_key("   0123456789abc   "), Err(LitcryptKeyError::TooShortTrimmed(13)));
}

#[test]
fn litcrypt_key_trims_unicode_white_space_only() {
    assert_eq!(
        check_litcrypt_key("\u{3000}\u{a0}0123456789abcdef\u{2029}\u{85}"),
        Ok("0123456789abcdef")
    );
    assert_eq!(check_litcrypt_key("\u{200b}0123456789abcdef"), Ok("\u{200b}0123456789abcdef"));
    assert_eq!(check_litcrypt_key(" a 0123456789abcdef b "), Ok("a 0123456789abcdef b"));
}

use dfim::siem_connectors::{ecs_severity_of, ElasticEcsSerializer};
use serde_json::Value;

fn obj(entries: Vec<(&str, Value)>) -> Value {
    let mut m = serde_json::Map::new();
    for (k, v) in entries {
        m.insert(k.to_string(), v);
    }
    Value::Object(m)
}

fn s(v: &str) -> Value {
    Value::String(v.to_string())
}

#[test]
fn elastic_ecs_output_follows_ecs_schema() {
    let out = ElasticEcsSerializer.serialize(&make_event()).expect("document");
    let text = String::from_utf8(out).unwrap();
    assert!(text.contains("\"ecs\""));
    assert!(text.contains("\"8.11.0\""));
    assert!(text.contains("\"dfim\""));
    assert!(text.contains("\"intrusion_detection\""));
}

#[test]
fn ecs_document_matches_serde_json_rendering() {
    let mut event = make_event();
    event.message = "quote \" backslash \\ tab \t bell \u{7} é".into();
    event.outcome = "success".into();
    event.merkle_root = None;
    event.asset_id = "plain".into();
    let out = String::from_utf8(ElasticEcsSerializer.serialize(&event).expect("document")).unwrap();
    let time = chrono::DateTime::<chrono::Utc>::from_timestamp(1_700_000_000, 123_456_789).unwrap().to_rfc3339();
    let expected = obj(vec![
        ("@timestamp", s(&time)),
        ("ecs", obj(vec![("version", s("8.11.0"))])),
        (
            "event",
            obj(vec![
                ("kind", s("alert")),
                ("category", s("intrusion_detection")),
                ("type", s("change")),
                ("severity", Value::from(9u32)),
                ("action", s("integrity_failure")),
                ("outcome", s("success")),
            ]),
        ),
        ("host", obj(vec![("name", s("dfim-edge-01"))])),
        (
            "file",
            obj(vec![
                ("hash", obj(vec![("sha256", s("plain"))])),
                ("integrity", obj(vec![("status", s("verified")), ("policy", s("dfim-protected-scope"))])),
            ]),
        ),
        (
            "dfim",
            obj(vec![
                ("event_id", s("evt-001")),
                ("merkle_root", Value::Null),
                ("tampered_blocks", Value::from(3u32)),
                ("fec_corrected", Value::from(1u32)),
                ("rollback_counter", Value::from(42u64)),
                ("attestation_verified", Value::Bool(true)),
                ("enforcement_action", s("block")),
            ]),
        ),
        ("message", s("quote \" backslash \\ tab \t bell \u{7} é")),
    ]);
    assert_eq!(out, serde_json::to_string(&expected).unwrap());
    assert_eq!(ecs_severity_of("medium"), 5);
    assert_eq!(ecs_severity_of("unknown"), 1);
    assert_eq!(ElasticEcsSerializer.format(), SiemFormat::ElasticEcs);
}
