//! Decisions taken inside the kernel LSM hooks: the protected-scope gate with the deny record
//! it publishes, and the standalone digest / Merkle appraisal engine.
//!
//! The hooks themselves only look the scope entry and the configuration up in their maps and
//! publish records to a ring buffer; everything they decide is computed here.
use vstd::prelude::*;
use crate::enforcement_policy::{
    decision_allows, decision_code, enforcement_decision, evaluate_enforcement, DenyEventV1,
    DfimConfigV1, EnforcementDecision, ScopeEntryV1, ScopeKey,
};

verus! {

/// Linux `-EPERM`: the value a hook returns to deny the access.
pub const DFIM_DENY: i32 = -1;

/// The scope entry a map lookup produced, by value.
pub open spec fn scope_value(scope: Option<&ScopeEntryV1>) -> Option<ScopeEntryV1> {
    match scope {
        Some(s) => Some(*s),
        None => None,
    }
}

/// The configuration a map lookup produced, by value.
pub open spec fn config_value(config: Option<&DfimConfigV1>) -> Option<DfimConfigV1> {
    match config {
        Some(c) => Some(*c),
        None => None,
    }
}

/// Generation carried by a deny record: the scope entry's, else the configuration's, else zero.
pub open spec fn deny_generation(scope: Option<ScopeEntryV1>, config: Option<DfimConfigV1>) -> u64 {
    match scope {
        Some(s) => s.policy_generation,
        None => match config {
            Some(c) => c.policy_generation,
            None => 0,
        },
    }
}

/// The deny record published for a denied access to `key`.
pub open spec fn deny_record(
    key: ScopeKey,
    scope: Option<ScopeEntryV1>,
    config: Option<DfimConfigV1>,
    decision: EnforcementDecision,
) -> DenyEventV1 {
    DenyEventV1 {
        device_id: key.device_id,
        inode: key.inode,
        reason: decision_code(decision),
        policy_generation: deny_generation(scope, config),
    }
}

/// Builds the deny record for `decision` on `key`.
pub fn record_deny_event(
    key: &ScopeKey,
    scope: Option<&ScopeEntryV1>,
    config: Option<&DfimConfigV1>,
    decision: EnforcementDecision,
) -> (e: DenyEventV1)
    ensures
        e == deny_record(*key, scope_value(scope), config_value(config), decision),
{
    let generation: u64 = match scope {
        Some(entry) => entry.policy_generation,
        None => match config {
            Some(c) => c.policy_generation,
            None => 0,
        },
    };
    DenyEventV1::from_decision(key.device_id, key.inode, decision, generation)
}

/// The protected-scope gate of one hook invocation on `key`: `Ok(0)` when the decision lets
/// the access through, otherwise `Err(DFIM_DENY)` together with the deny record to publish.
pub fn enforce_dfim_policy(
    key: &ScopeKey,
    scope: Option<&ScopeEntryV1>,
    config: Option<&DfimConfigV1>,
) -> (r: (Result<i32, i32>, Option<DenyEventV1>))
    ensures
        ({
            let d = enforcement_decision(scope_value(scope), config_value(config));
            if decision_allows(d) {
                r == (Ok::<i32, i32>(0), None::<DenyEventV1>)
            } else {
                r == (Err::<i32, i32>(DFIM_DENY), Some(
                    deny_record(*key, scope_value(scope), config_value(config), d),
                ))
            }
        }),
{
    let decision = evaluate_enforcement(scope, config);
    match decision {
        EnforcementDecision::AllowUnprotected
        | EnforcementDecision::AllowPendingEnrollment
        | EnforcementDecision::AllowProtectedToIma => (Ok(0), None),
        _ => {
            let event = record_deny_event(key, scope, config, decision);
            (Err(DFIM_DENY), Some(event))
        },
    }
}

/// The value a hook returns for a policy result: the code itself on either side.
pub fn hook_return_code(r: Result<i32, i32>) -> (code: i32)
    ensures
        code == (match r {
            Ok(c) => c,
            Err(c) => c,
        }),
{
    match r {
        Ok(code) => code,
        Err(code) => code,
    }
}

} // verus!
