use dfim::enforcement_policy::{
    decision_to_code, evaluate_enforcement, DenyEventV1, DfimConfigV1, EnforcementDecision,
    ScopeEntryV1, ScopeKey, DFIM_CONFIG_SCHEMA_V1,
};

fn ready_config(generation: u64) -> DfimConfigV1 {
    DfimConfigV1::production(generation)
}

fn active_scope(generation: u64) -> ScopeEntryV1 {
    ScopeEntryV1::active(generation, [0xAB; 32])
}

#[test]
fn unprotected_asset_is_allowed_without_config() {
    assert_eq!(evaluate_enforcement(None, None), EnforcementDecision::AllowUnprotected);
}

#[test]
fn protected_asset_denies_missing_config() {
    assert_eq!(
        evaluate_enforcement(Some(&active_scope(7)), None),
        EnforcementDecision::DenyInvalidConfig
    );
}

#[test]
fn protected_asset_denies_unsupported_schema() {
    let mut config = ready_config(7);
    config.schema_version = DFIM_CONFIG_SCHEMA_V1 + 1;
    assert_eq!(
        evaluate_enforcement(Some(&active_scope(7)), Some(&config)),
        EnforcementDecision::DenyInvalidConfig
    );
}

#[test]
fn protected_asset_denies_stale_policy_generation() {
    assert_eq!(
        evaluate_enforcement(Some(&active_scope(8)), Some(&ready_config(7))),
        EnforcementDecision::DenyStaleGeneration
    );
}

#[test]
fn protected_asset_with_ready_config_delegates_content_to_ima() {
    assert_eq!(
        evaluate_enforcement(Some(&active_scope(7)), Some(&ready_config(7))),
        EnforcementDecision::AllowProtectedToIma
    );
}

#[test]
fn pending_scope_is_not_committed_protection() {
    let scope = ScopeEntryV1::pending(7, [0xCD; 32]);
    assert_eq!(
        evaluate_enforcement(Some(&scope), Some(&ready_config(7))),
        EnforcementDecision::AllowPendingEnrollment
    );
}

#[test]
fn malformed_scope_state_denies() {
    let mut scope = active_scope(7);
    scope.state = 99;
    assert_eq!(
        evaluate_enforcement(Some(&scope), Some(&ready_config(7))),
        EnforcementDecision::DenyInvalidScope
    );
}

#[test]
fn abi_sizes_are_stable() {
    assert_eq!(core::mem::size_of::<DfimConfigV1>(), 32);
    assert_eq!(core::mem::size_of::<ScopeKey>(), 16);
    assert_eq!(core::mem::size_of::<ScopeEntryV1>(), 48);
    assert_eq!(core::mem::size_of::<DenyEventV1>(), 32);
}

#[test]
fn production_config_is_ready_and_codes_follow_declaration_order() {
    assert!(ready_config(3).is_production_ready());
    assert!(!ready_config(0).is_production_ready());
    assert_eq!(decision_to_code(EnforcementDecision::AllowUnprotected), 0);
    assert_eq!(decision_to_code(EnforcementDecision::DenyStaleGeneration), 5);
}

#[test]
fn deny_event_carries_decision_reason() {
    let e = DenyEventV1::from_decision(9, 42, EnforcementDecision::DenyInvalidConfig, 7);
    assert_eq!(e.device_id, 9);
    assert_eq!(e.inode, 42);
    assert_eq!(e.reason, 4);
    assert_eq!(e.policy_generation, 7);
}
