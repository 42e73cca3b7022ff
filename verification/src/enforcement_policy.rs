//! Shared policy ABI for protected-scope enforcement decisions.
use vstd::prelude::*;

verus! {

/// Marker identifying an enforcement configuration value (`"DFIM"` little-endian).
pub const DFIM_CONFIG_MAGIC: u32 = 0x4D49_4644;
/// First supported enforcement configuration schema.
pub const DFIM_CONFIG_SCHEMA_V1: u32 = 1;
/// Production profile that limits enforcement to explicitly enrolled assets.
pub const DFIM_PROFILE_PROTECTED_SCOPE: u32 = 1;
/// Flag proving userspace completed policy initialization.
pub const DFIM_CONFIG_FLAG_ENFORCEMENT_READY: u32 = 1;
/// Scope entry is prepared but not yet protected.
pub const DFIM_SCOPE_PENDING: u32 = 0;
/// Scope entry is committed and fails closed on policy errors.
pub const DFIM_SCOPE_ACTIVE: u32 = 1;
/// Byte size of the schema-v1 configuration record.
pub const DFIM_CONFIG_V1_SIZE: u32 = 32;

/// Versioned userspace-to-kernel configuration record.
#[derive(Clone, Copy, Debug, PartialEq, Eq, Structural)]
pub struct DfimConfigV1 {
    pub magic: u32,
    pub schema_version: u32,
    pub struct_size: u32,
    pub deployment_profile: u32,
    pub policy_generation: u64,
    pub flags: u32,
    pub reserved: u32,
}

/// A configuration is production-ready when every schema field has its v1 value,
/// the generation is non-zero and the ready flag is set.
pub open spec fn config_is_ready(c: DfimConfigV1) -> bool {
    &&& c.magic == DFIM_CONFIG_MAGIC
    &&& c.schema_version == DFIM_CONFIG_SCHEMA_V1
    &&& c.struct_size == DFIM_CONFIG_V1_SIZE
    &&& c.deployment_profile == DFIM_PROFILE_PROTECTED_SCOPE
    &&& c.policy_generation != 0
    &&& c.flags % 2 == 1
    &&& c.reserved == 0
}

impl DfimConfigV1 {
    /// The only production configuration accepted by schema v1.
    pub fn production(policy_generation: u64) -> (c: Self)
        ensures
            c == (DfimConfigV1 {
                magic: DFIM_CONFIG_MAGIC,
                schema_version: DFIM_CONFIG_SCHEMA_V1,
                struct_size: DFIM_CONFIG_V1_SIZE,
                deployment_profile: DFIM_PROFILE_PROTECTED_SCOPE,
                policy_generation,
                flags: DFIM_CONFIG_FLAG_ENFORCEMENT_READY,
                reserved: 0,
            }),
    {
        DfimConfigV1 {
            magic: DFIM_CONFIG_MAGIC,
            schema_version: DFIM_CONFIG_SCHEMA_V1,
            struct_size: DFIM_CONFIG_V1_SIZE,
            deployment_profile: DFIM_PROFILE_PROTECTED_SCOPE,
            policy_generation,
            flags: DFIM_CONFIG_FLAG_ENFORCEMENT_READY,
            reserved: 0,
        }
    }

    /// Rejects unknown layouts and any configuration that is not enforcement-ready.
    pub fn is_production_ready(&self) -> (r: bool)
        ensures
            r == config_is_ready(*self),
    {
        let f = self.flags;
        assert(f & 1 == f % 2) by (bit_vector);
        self.magic == DFIM_CONFIG_MAGIC && self.schema_version == DFIM_CONFIG_SCHEMA_V1
            && self.struct_size == DFIM_CONFIG_V1_SIZE && self.deployment_profile
            == DFIM_PROFILE_PROTECTED_SCOPE && self.policy_generation != 0 && self.flags
            & DFIM_CONFIG_FLAG_ENFORCEMENT_READY != 0 && self.reserved == 0
    }
}

/// Filesystem-stable protected asset identity.
#[derive(Clone, Copy, Debug, PartialEq, Eq, Structural)]
pub struct ScopeKey {
    pub device_id: u64,
    pub inode: u64,
}

/// Versioned protected-scope registry value.
#[derive(Clone, Copy, Debug, PartialEq, Eq)]
pub struct ScopeEntryV1 {
    pub policy_generation: u64,
    pub state: u32,
    pub reserved: u32,
    pub expected_merkle_root: [u8; 32],
}

impl ScopeEntryV1 {
    /// An enrollment entry that is not yet enforced.
    pub fn pending(policy_generation: u64, expected_merkle_root: [u8; 32]) -> (e: Self)
        ensures
            e == (ScopeEntryV1 { policy_generation, state: DFIM_SCOPE_PENDING, reserved: 0, expected_merkle_root }),
    {
        ScopeEntryV1 { policy_generation, state: DFIM_SCOPE_PENDING, reserved: 0, expected_merkle_root }
    }

    /// A committed protected-scope entry.
    pub fn active(policy_generation: u64, expected_merkle_root: [u8; 32]) -> (e: Self)
        ensures
            e == (ScopeEntryV1 { policy_generation, state: DFIM_SCOPE_ACTIVE, reserved: 0, expected_merkle_root }),
    {
        ScopeEntryV1 { policy_generation, state: DFIM_SCOPE_ACTIVE, reserved: 0, expected_merkle_root }
    }
}

/// Bounded decision result of the enforcement gate.
#[derive(Clone, Copy, Debug, PartialEq, Eq, Structural)]
pub enum EnforcementDecision {
    AllowUnprotected,
    AllowPendingEnrollment,
    AllowProtectedToIma,
    DenyInvalidScope,
    DenyInvalidConfig,
    DenyStaleGeneration,
}

/// Numeric reason code carried in deny records (declaration order).
pub open spec fn decision_code(d: EnforcementDecision) -> u32 {
    match d {
        EnforcementDecision::AllowUnprotected => 0,
        EnforcementDecision::AllowPendingEnrollment => 1,
        EnforcementDecision::AllowProtectedToIma => 2,
        EnforcementDecision::DenyInvalidScope => 3,
        EnforcementDecision::DenyInvalidConfig => 4,
        EnforcementDecision::DenyStaleGeneration => 5,
    }
}

/// Numeric reason code of a decision.
pub fn decision_to_code(d: EnforcementDecision) -> (c: u32)
    ensures
        c == decision_code(d),
{
    match d {
        EnforcementDecision::AllowUnprotected => 0,
        EnforcementDecision::AllowPendingEnrollment => 1,
        EnforcementDecision::AllowProtectedToIma => 2,
        EnforcementDecision::DenyInvalidScope => 3,
        EnforcementDecision::DenyInvalidConfig => 4,
        EnforcementDecision::DenyStaleGeneration => 5,
    }
}

/// Ring-buffer record emitted when the probe denies a protected asset.
#[derive(Clone, Copy, Debug, PartialEq, Eq, Structural)]
pub struct DenyEventV1 {
    pub device_id: u64,
    pub inode: u64,
    pub reason: u32,
    pub policy_generation: u64,
}

impl DenyEventV1 {
    /// Builds a deny record from a decision.
    pub fn from_decision(device_id: u64, inode: u64, decision: EnforcementDecision, policy_generation: u64) -> (e: Self)
        ensures
            e == (DenyEventV1 { device_id, inode, reason: decision_code(decision), policy_generation }),
    {
        DenyEventV1 { device_id, inode, reason: decision_to_code(decision), policy_generation }
    }
}

/// The protected-scope decision for a (possibly absent) scope entry and configuration.
pub open spec fn enforcement_decision(scope: Option<ScopeEntryV1>, config: Option<DfimConfigV1>) -> EnforcementDecision {
    match scope {
        None => EnforcementDecision::AllowUnprotected,
        Some(s) => if s.reserved != 0 || s.policy_generation == 0 {
            EnforcementDecision::DenyInvalidScope
        } else if s.state == DFIM_SCOPE_PENDING {
            EnforcementDecision::AllowPendingEnrollment
        } else if s.state != DFIM_SCOPE_ACTIVE {
            EnforcementDecision::DenyInvalidScope
        } else {
            match config {
                None => EnforcementDecision::DenyInvalidConfig,
                Some(c) => if !config_is_ready(c) {
                    EnforcementDecision::DenyInvalidConfig
                } else if c.policy_generation != s.policy_generation {
                    EnforcementDecision::DenyStaleGeneration
                } else {
                    EnforcementDecision::AllowProtectedToIma
                },
            }
        },
    }
}

/// Whether a decision lets the access proceed.
pub open spec fn decision_allows(d: EnforcementDecision) -> bool {
    match d {
        EnforcementDecision::AllowUnprotected | EnforcementDecision::AllowPendingEnrollment
        | EnforcementDecision::AllowProtectedToIma => true,
        _ => false,
    }
}

/// Applies protected-scope semantics without content validation.
pub fn evaluate_enforcement(scope: Option<&ScopeEntryV1>, config: Option<&DfimConfigV1>) -> (d: EnforcementDecision)
    ensures
        d == enforcement_decision(
            match scope { Some(s) => Some(*s), None => None },
            match config { Some(c) => Some(*c), None => None },
        ),
{
    let scope = match scope {
        Some(s) => s,
        None => return EnforcementDecision::AllowUnprotected,
    };
    if scope.reserved != 0 || scope.policy_generation == 0 {
        return EnforcementDecision::DenyInvalidScope;
    }
    if scope.state == DFIM_SCOPE_PENDING {
        return EnforcementDecision::AllowPendingEnrollment;
    }
    if scope.state != DFIM_SCOPE_ACTIVE {
        return EnforcementDecision::DenyInvalidScope;
    }
    let config = match config {
        Some(c) => c,
        None => return EnforcementDecision::DenyInvalidConfig,
    };
    if !config.is_production_ready() {
        return EnforcementDecision::DenyInvalidConfig;
    }
    if config.policy_generation != scope.policy_generation {
        return EnforcementDecision::DenyStaleGeneration;
    }
    EnforcementDecision::AllowProtectedToIma
}

/// An active, well-formed scope entry is only ever let through when a production-ready
/// configuration of the very same generation is present: a missing, malformed or stale
/// configuration always denies a committed protected asset (fail closed).
pub proof fn law_active_scope_fails_closed(scope: ScopeEntryV1, config: Option<DfimConfigV1>)
    requires
        scope.state == DFIM_SCOPE_ACTIVE,
    ensures
        decision_allows(enforcement_decision(Some(scope), config)) <==> (
            scope.reserved == 0 && scope.policy_generation != 0 && (config matches Some(c)
                && config_is_ready(c) && c.policy_generation == scope.policy_generation)),
{
}

/// Assets without a scope entry are never denied, whatever the configuration.
pub proof fn law_unprotected_always_allowed(config: Option<DfimConfigV1>)
    ensures
        enforcement_decision(None, config) == EnforcementDecision::AllowUnprotected,
{
}

/// The production configuration is production-ready exactly when its generation is non-zero.
pub proof fn law_production_config_ready(policy_generation: u64)
    ensures
        config_is_ready(DfimConfigV1 {
            magic: DFIM_CONFIG_MAGIC,
            schema_version: DFIM_CONFIG_SCHEMA_V1,
            struct_size: DFIM_CONFIG_V1_SIZE,
            deployment_profile: DFIM_PROFILE_PROTECTED_SCOPE,
            policy_generation,
            flags: DFIM_CONFIG_FLAG_ENFORCEMENT_READY,
            reserved: 0,
        }) <==> policy_generation != 0,
{
}

} // verus!
