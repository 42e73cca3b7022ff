use dfim::auth::{
    check_expiry, issue_token, login, validate_credentials, verify_jwt, AuthError, LoginRequest,
    TOKEN_EXPIRY_SECS,
};
use dfim::enforcement_policy::EnforcementDecision;
use dfim::error::DfimError;
use dfim::metrics::{render_metrics, FleetSummaryRaw, MetricsRegistry};
use dfim::siem_sink::{asset_id, asset_id_from_inode, decision_reason, SiemDenyEvent, SiemEventType};

#[test]
fn policy_deny_maps_enforcement_decision_reason() {
    let event = SiemDenyEvent::from_enforcement_decision(9, 42, EnforcementDecision::DenyInvalidConfig, 7);
    let line = String::from_utf8(event.to_json_line(1_700_000_000_000)).unwrap();
    assert!(line.contains(r#""event_type":"dfim.policy.deny""#));
    assert!(line.contains(r#""reason_code":"DenyInvalidConfig""#));
    assert!(line.contains(r#""policy_generation":7"#));
    assert!(line.contains(r#""device_id":9,"inode":42"#));
}

#[test]
fn metadata_corrupt_uses_high_severity() {
    let event = SiemDenyEvent::from_dfim_error(b"/boot/module.ko", DfimError::CorruptMetadata);
    let line = String::from_utf8(event.to_json_line(1)).unwrap();
    assert!(line.contains(r#""event_type":"dfim.metadata.corrupt""#));
    assert!(line.contains(r#""severity":"high""#));
}

#[test]
fn integrity_failure_serializes_redacted_asset_id() {
    let event = SiemDenyEvent::from_dfim_error(b"/opt/guarded/app", DfimError::IntegrityFailure);
    let line = String::from_utf8(event.to_json_line(255)).unwrap();
    assert!(line.contains(r#""event_type":"dfim.integrity.failure""#));
    assert!(line.contains(r#""severity":"critical""#));
    assert!(line.contains(r#""asset_id":"sha256:"#));
    assert!(!line.contains("/opt/guarded"));
    assert!(line.ends_with("\"correlation_id\":\"dfim-ff\"}\n"));
    assert!(line.starts_with("{\"schema_version\":\"1.0\""));
}

#[test]
fn integrity_mismatch_carries_both_roots() {
    let event = SiemDenyEvent::integrity_mismatch(b"/boot/x", [0x11; 32], [0x22; 32]);
    assert_eq!(event.event_type, SiemEventType::IntegrityFailure);
    let line = String::from_utf8(event.to_json_line(0)).unwrap();
    assert!(line.contains(&format!("\"expected_merkle_root\":\"{}\"", "11".repeat(32))));
    assert!(line.contains(&format!("\"calculated_merkle_root\":\"{}\"", "22".repeat(32))));
    assert!(line.contains("\"reason_code\":\"live_merkle_root_mismatch\""));
}

#[test]
fn asset_ids_are_domain_separated_hashes() {
    let mut material = b"dfim-asset-id-v1\0".to_vec();
    material.extend_from_slice(b"/x");
    let digest = dfim::digest::sha256_digest(&material);
    let hex: String = digest.iter().map(|b| format!("{b:02x}")).collect();
    assert_eq!(String::from_utf8(asset_id(b"/x")).unwrap(), format!("sha256:{hex}"));
    assert_ne!(asset_id_from_inode(1, 2), asset_id_from_inode(2, 1));
    assert_eq!(decision_reason(EnforcementDecision::AllowUnprotected), "DenyUnknown");
    assert_eq!(SiemEventType::PolicyDeny.severity(), "critical");
}

const SECRET: &[u8] = b"test-secret";

#[test]
fn test_login_valid_credentials() {
    let resp = login(&LoginRequest { username: "admin".into(), password: "REDACTED".into() }, 1_000, SECRET).unwrap();
    assert_eq!(resp.role, "admin");
    assert_eq!(resp.token_type, "Bearer");
    assert!(resp.access_token.len() > 50);
    assert_eq!(resp.expires_in, TOKEN_EXPIRY_SECS);
}

#[test]
fn test_login_invalid_credentials() {
    assert!(login(&LoginRequest { username: "admin".into(), password: "wrong".into() }, 1_000, SECRET).is_err());
    assert_eq!(
        login(&LoginRequest { username: "nobody".into(), password: "x".into() }, 1_000, SECRET).err().map(|_| ()),
        Some(())
    );
}

#[test]
fn test_issue_and_verify_token() {
    let token = String::from_utf8(issue_token("admin", "admin", "default", 1_000, SECRET).unwrap()).unwrap();
    let claims = verify_jwt(&format!("Bearer {}", token), SECRET).unwrap();
    let json = String::from_utf8(claims).unwrap();
    assert_eq!(json, "{\"sub\":\"admin\",\"tenant\":\"default\",\"role\":\"admin\",\"exp\":87400,\"iat\":1000}");
    assert_eq!(verify_jwt(&token, b"other-secret").err(), Some(AuthError::InvalidSignature));
    assert_eq!(verify_jwt("a.b", SECRET).err(), Some(AuthError::InvalidTokenFormat));
    assert_eq!(verify_jwt("a.b.c.d", SECRET).err(), Some(AuthError::InvalidTokenFormat));
}

#[test]
fn test_multi_tenant_isolation() {
    let t1 = String::from_utf8(issue_token("acme_admin", "admin", "acme-corp", 5, SECRET).unwrap()).unwrap();
    let t2 = String::from_utf8(issue_token("megabank_op", "operator", "megabank", 5, SECRET).unwrap()).unwrap();
    let c1 = String::from_utf8(verify_jwt(&t1, SECRET).unwrap()).unwrap();
    let c2 = String::from_utf8(verify_jwt(&t2, SECRET).unwrap()).unwrap();
    assert!(c1.contains("\"tenant\":\"acme-corp\""));
    assert!(c2.contains("\"tenant\":\"megabank\""));
    assert_eq!(validate_credentials("megabank_op", "bank_pass"), Some(("operator", "megabank")));
}

#[test]
fn test_expired_token_rejected() {
    assert_eq!(check_expiry(99, 100), Err(AuthError::TokenExpired));
    assert_eq!(check_expiry(100, 100), Ok(()));
}

#[test]
fn metrics_render_prometheus_text() {
    let mut m = MetricsRegistry::new();
    m.increment_requests();
    m.increment_requests();
    m.increment_errors();
    m.set_asset_count(5);
    m.set_alert_count(2);
    let text = String::from_utf8(render_metrics(&m, 0)).unwrap();
    assert!(text.starts_with("# HELP dfim_http_requests_total Total HTTP requests\n# TYPE dfim_http_requests_total counter\ndfim_http_requests_total 2\n"));
    assert!(text.contains("dfim_http_errors_total 1\n"));
    assert!(text.contains("dfim_assets_total 5\n"));
    assert!(text.contains("dfim_alerts_active 2\n"));
    assert!(text.ends_with("dfim_build_info{version=\"1.0.0\",phase=\"5\"} 1\n"));
    let mut wrap = MetricsRegistry { requests: u64::MAX, errors: 0, assets: 0, alerts: 0 };
    wrap.increment_requests();
    assert_eq!(wrap.requests, 0);
    assert_eq!(FleetSummaryRaw::default().total_assets, 0);
}

use dfim::api_guard::{guard_route, hash_sha256, page_limit, sanitize, RouteGuard};

#[test]
fn guard_routes_by_path() {
    assert_eq!(guard_route("/health"), RouteGuard::Open);
    assert_eq!(guard_route("/metrics"), RouteGuard::Open);
    assert_eq!(guard_route("/openapi.json"), RouteGuard::RateLimited);
    assert_eq!(guard_route("/v1/auth/login"), RouteGuard::RateLimited);
    assert_eq!(guard_route("/v1/assets"), RouteGuard::Authenticated);
    assert_eq!(guard_route("/health/"), RouteGuard::Authenticated);
    assert_eq!(guard_route(""), RouteGuard::Authenticated);
}

#[test]
fn sanitize_escapes_html_once() {
    assert_eq!(sanitize("<a href=\"x\">&'</a>"), "&lt;a href=&quot;x&quot;&gt;&amp;&#x27;&lt;/a&gt;");
    assert_eq!(sanitize("plain"), "plain");
}

#[test]
fn content_identifier_is_prefixed_hex_sha256() {
    assert_eq!(
        String::from_utf8(hash_sha256(b"abc")).unwrap(),
        "sha256:ba7816bf8f01cfea414140de5dae2223b00361a396177a9cb410ff61f20015ad"
    );
}

#[test]
fn page_limit_defaults_and_caps() {
    assert_eq!(page_limit(None), 100);
    assert_eq!(page_limit(Some(20)), 20);
    assert_eq!(page_limit(Some(5000)), 1000);
    assert_eq!(page_limit(Some(-3)), -3);
}

#[test]
fn claims_strings_are_written_as_serde_json_writes_them() {
    let user = "we\"ird\n\u{1}é";
    let token = String::from_utf8(issue_token(user, "admin", "t\\x", 7, SECRET).unwrap()).unwrap();
    let json = String::from_utf8(verify_jwt(&token, SECRET).unwrap()).unwrap();
    let expected = format!(
        "{{\"sub\":{},\"tenant\":{},\"role\":{},\"exp\":{},\"iat\":7}}",
        serde_json::to_string(user).unwrap(),
        serde_json::to_string("t\\x").unwrap(),
        serde_json::to_string("admin").unwrap(),
        7 + TOKEN_EXPIRY_SECS
    );
    assert_eq!(json, expected);
}

#[test]
fn expired_claims_are_refused_after_the_signature_check() {
    let token = String::from_utf8(issue_token("admin", "admin", "default", 1_000, SECRET).unwrap()).unwrap();
    let claims = |exp: u64| dfim::auth::Claims {
        sub: "admin".into(),
        tenant: "default".into(),
        role: "admin".into(),
        exp,
        iat: 1_000,
    };
    let exp = 1_000 + TOKEN_EXPIRY_SECS;
    let fresh = dfim::auth::accept_token_claims(verify_jwt(&token, SECRET), Some(claims(exp)), exp).unwrap();
    assert_eq!(fresh.exp, exp);
    assert_eq!(fresh.tenant, "default");
    assert_eq!(
        dfim::auth::accept_token_claims(verify_jwt(&token, SECRET), Some(claims(exp)), exp + 1).err(),
        Some(AuthError::TokenExpired)
    );
    assert_eq!(
        dfim::auth::accept_token_claims(verify_jwt(&token, SECRET), None, 0).err(),
        Some(AuthError::MalformedPayload)
    );
    assert_eq!(
        dfim::auth::accept_token_claims(verify_jwt(&token, b"other"), Some(claims(exp)), 0).err(),
        Some(AuthError::InvalidSignature)
    );
}
