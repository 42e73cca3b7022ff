//! Deny events of the Linux eBPF/IMA enforcement, as JSONL records for SIEM ingestion.
//!
//! Paths never reach a record: an asset is named by `sha256:` and the hex SHA-256 of a
//! domain separator followed by the path bytes (or the device and inode numbers).
use vstd::prelude::*;
use vstd::string::StringSliceAdditionalSpecFns;
use vstd::utf8::encode_utf8;
use crate::codec::{extend_bytes, push_u64_le, u64_le};
use crate::digest::{hex_of, sha256_digest, spec_sha256};
use crate::enforcement_policy::EnforcementDecision;
use crate::error::{error_text, DfimError};
use crate::text::{decimal, json_escaped, lower_hex, push_decimal, push_hex, push_json_escaped, push_lower_hex, push_str};

verus! {

/// `dfim-asset-id-v1\0`, the domain separator of asset identifiers.
pub const ASSET_HASH_DOMAIN: [u8; 17] = [
    0x64, 0x66, 0x69, 0x6d, 0x2d, 0x61, 0x73, 0x73, 0x65, 0x74, 0x2d, 0x69, 0x64, 0x2d, 0x76, 0x31,
    0x00,
];

/// Schema version of deny records.
pub const SIEM_SCHEMA_VERSION: &'static str = "1.0";

/// `sha256:` followed by the hex SHA-256 of the domain separator and `material`.
pub open spec fn asset_id_of(material: Seq<u8>) -> Seq<u8> {
    encode_utf8("sha256:"@) + hex_of(spec_sha256(ASSET_HASH_DOMAIN@ + material)@)
}

/// Asset identifier of a path, from its bytes.
pub fn asset_id(path: &[u8]) -> (id: Vec<u8>)
    ensures
        id@ == asset_id_of(path@),
{
    let mut material: Vec<u8> = Vec::new();
    extend_bytes(&mut material, &ASSET_HASH_DOMAIN);
    extend_bytes(&mut material, path);
    let digest = sha256_digest(material.as_slice());
    let mut id: Vec<u8> = Vec::new();
    push_str(&mut id, "sha256:");
    push_hex(&mut id, &digest);
    id
}

/// Asset identifier of a device and inode, from their little-endian bytes.
pub fn asset_id_from_inode(device_id: u64, inode: u64) -> (id: Vec<u8>)
    ensures
        id@ == asset_id_of(u64_le(device_id) + u64_le(inode)),
{
    let mut material: Vec<u8> = Vec::new();
    push_u64_le(&mut material, device_id);
    push_u64_le(&mut material, inode);
    asset_id(material.as_slice())
}

/// SIEM event names.
#[derive(Clone, Copy, Debug, PartialEq, Eq, Structural)]
pub enum SiemEventType {
    IntegrityFailure,
    MetadataCorrupt,
    PolicyDeny,
}

/// Wire name of an event type.
pub open spec fn event_type_text(t: SiemEventType) -> Seq<char> {
    match t {
        SiemEventType::IntegrityFailure => "dfim.integrity.failure"@,
        SiemEventType::MetadataCorrupt => "dfim.metadata.corrupt"@,
        SiemEventType::PolicyDeny => "dfim.policy.deny"@,
    }
}

/// Severity of an event type: corrupt metadata is high, the others critical.
pub open spec fn severity_text(t: SiemEventType) -> Seq<char> {
    match t {
        SiemEventType::MetadataCorrupt => "high"@,
        _ => "critical"@,
    }
}

impl SiemEventType {
    /// Wire name of the event type.
    pub fn as_str(self) -> (s: &'static str)
        ensures
            s@ == event_type_text(self),
    {
        match self {
            SiemEventType::IntegrityFailure => "dfim.integrity.failure",
            SiemEventType::MetadataCorrupt => "dfim.metadata.corrupt",
            SiemEventType::PolicyDeny => "dfim.policy.deny",
        }
    }

    /// Severity of the event type.
    pub fn severity(self) -> (s: &'static str)
        ensures
            s@ == severity_text(self),
    {
        match self {
            SiemEventType::MetadataCorrupt => "high",
            _ => "critical",
        }
    }
}

/// A deny record; the asset is named by its identifier, never by its path.
pub struct SiemDenyEvent {
    pub event_type: SiemEventType,
    pub asset_id: Vec<u8>,
    pub enforcement_layer: &'static str,
    pub action_taken: &'static str,
    pub reason_code: Option<&'static str>,
    pub policy_generation: Option<u64>,
    pub device_id: Option<u64>,
    pub inode: Option<u64>,
    pub expected_merkle_root: Option<[u8; 32]>,
    pub calculated_merkle_root: Option<[u8; 32]>,
}

/// Reason code of a kernel policy decision.
pub open spec fn decision_reason_text(d: EnforcementDecision) -> Seq<char> {
    match d {
        EnforcementDecision::DenyInvalidScope => "DenyInvalidScope"@,
        EnforcementDecision::DenyInvalidConfig => "DenyInvalidConfig"@,
        EnforcementDecision::DenyStaleGeneration => "DenyStaleGeneration"@,
        _ => "DenyUnknown"@,
    }
}

/// Reason code of a kernel policy decision; allow decisions have none of their own.
pub fn decision_reason(decision: EnforcementDecision) -> (s: &'static str)
    ensures
        s@ == decision_reason_text(decision),
{
    match decision {
        EnforcementDecision::DenyInvalidScope => "DenyInvalidScope",
        EnforcementDecision::DenyInvalidConfig => "DenyInvalidConfig",
        EnforcementDecision::DenyStaleGeneration => "DenyStaleGeneration",
        _ => "DenyUnknown",
    }
}

/// Event type a core error maps to: corrupt or uncorrectable metadata, or else an
/// integrity failure.
pub open spec fn error_event_type(e: DfimError) -> SiemEventType {
    match e {
        DfimError::CorruptMetadata | DfimError::UncorrectableError => SiemEventType::MetadataCorrupt,
        _ => SiemEventType::IntegrityFailure,
    }
}

/// Optional numeric field: `name` then the decimal value, or nothing.
pub open spec fn opt_number(name: Seq<u8>, v: Option<u64>) -> Seq<u8> {
    match v {
        Some(x) => name + decimal(x as nat),
        None => Seq::empty(),
    }
}

/// Optional root field: `name` then the quoted hex root, or nothing.
pub open spec fn opt_root(name: Seq<u8>, v: Option<[u8; 32]>) -> Seq<u8> {
    match v {
        Some(r) => name + hex_of(r@) + encode_utf8("\""@),
        None => Seq::empty(),
    }
}

/// Optional reason field, escaped, or nothing.
pub open spec fn opt_reason(v: Option<&'static str>) -> Seq<u8> {
    match v {
        Some(r) => encode_utf8(",\"reason_code\":\""@) + json_escaped(r.spec_bytes(), false) + encode_utf8(
            "\""@,
        ),
        None => Seq::empty(),
    }
}

/// The JSONL record of a deny event observed at `ts` milliseconds since the epoch; its
/// correlation id is `dfim-` and the time in lowercase hex.
pub open spec fn deny_json_line(e: SiemDenyEvent, ts: u64) -> Seq<u8> {
    encode_utf8("{\"schema_version\":\""@) + encode_utf8("1.0"@) + encode_utf8("\",\"event_type\":\""@)
        + encode_utf8(event_type_text(e.event_type)) + encode_utf8("\",\"severity\":\""@) + encode_utf8(
        severity_text(e.event_type),
    ) + encode_utf8("\",\"timestamp_unix_ms\":"@) + decimal(ts as nat) + encode_utf8(
        ",\"asset_id\":\""@,
    ) + json_escaped(e.asset_id@, false) + encode_utf8("\",\"enforcement_layer\":\""@)
        + e.enforcement_layer.spec_bytes() + encode_utf8("\",\"action_taken\":\""@)
        + e.action_taken.spec_bytes() + encode_utf8("\""@) + opt_reason(e.reason_code) + opt_number(
        encode_utf8(",\"policy_generation\":"@),
        e.policy_generation,
    ) + opt_number(encode_utf8(",\"device_id\":"@), e.device_id) + opt_number(
        encode_utf8(",\"inode\":"@),
        e.inode,
    ) + opt_root(encode_utf8(",\"expected_merkle_root\":\""@), e.expected_merkle_root) + opt_root(
        encode_utf8(",\"calculated_merkle_root\":\""@),
        e.calculated_merkle_root,
    ) + encode_utf8(",\"correlation_id\":\""@) + json_escaped(
        encode_utf8("dfim-"@) + lower_hex(ts as nat),
        false,
    ) + encode_utf8("\"}\n"@)
}

fn push_opt_number(out: &mut Vec<u8>, name: &str, v: Option<u64>)
    ensures
        final(out)@ == old(out)@ + opt_number(name.spec_bytes(), v),
{
    match v {
        Some(x) => {
            push_str(out, name);
            push_decimal(out, x);
        },
        None => {},
    }
    assert(final(out)@ =~= old(out)@ + opt_number(name.spec_bytes(), v));
}

fn push_opt_root(out: &mut Vec<u8>, name: &str, v: Option<[u8; 32]>)
    ensures
        final(out)@ == old(out)@ + opt_root(name.spec_bytes(), v),
{
    match v {
        Some(r) => {
            push_str(out, name);
            push_hex(out, &r);
            push_str(out, "\"");
        },
        None => {},
    }
    assert(final(out)@ =~= old(out)@ + opt_root(name.spec_bytes(), v));
}

/// `e` records a live-versus-baseline Merkle mismatch of the asset at `path`.
pub open spec fn is_mismatch_event(e: SiemDenyEvent, path: Seq<u8>, expected: [u8; 32], calculated: [u8; 32]) -> bool {
    &&& e.event_type == SiemEventType::IntegrityFailure
    &&& e.asset_id@ == asset_id_of(path)
    &&& e.enforcement_layer@ == "ebpf_lsm"@
    &&& e.action_taken@ == "deny"@
    &&& e.reason_code matches Some(r) && r@ == "live_merkle_root_mismatch"@
    &&& e.policy_generation is None
    &&& e.device_id is None
    &&& e.inode is None
    &&& e.expected_merkle_root == Some(expected)
    &&& e.calculated_merkle_root == Some(calculated)
}

/// `e` records the core error `error` raised on the asset at `path`.
pub open spec fn is_error_event(e: SiemDenyEvent, path: Seq<u8>, error: DfimError) -> bool {
    &&& e.event_type == error_event_type(error)
    &&& e.asset_id@ == asset_id_of(path)
    &&& e.enforcement_layer@ == "ebpf_lsm"@
    &&& e.action_taken@ == "deny"@
    &&& e.reason_code matches Some(r) && r@ == error_text(error)
    &&& e.policy_generation is None
    &&& e.device_id is None
    &&& e.inode is None
    &&& e.expected_merkle_root is None
    &&& e.calculated_merkle_root is None
}

/// `e` records a kernel policy denial of the file `(device_id, inode)`.
pub open spec fn is_policy_deny_event(
    e: SiemDenyEvent,
    device_id: u64,
    inode: u64,
    decision: EnforcementDecision,
    policy_generation: u64,
) -> bool {
    &&& e.event_type == SiemEventType::PolicyDeny
    &&& e.asset_id@ == asset_id_of(u64_le(device_id) + u64_le(inode))
    &&& e.enforcement_layer@ == "ebpf_lsm"@
    &&& e.action_taken@ == "deny"@
    &&& e.reason_code matches Some(r) && r@ == decision_reason_text(decision)
    &&& e.policy_generation == Some(policy_generation)
    &&& e.device_id == Some(device_id)
    &&& e.inode == Some(inode)
    &&& e.expected_merkle_root is None
    &&& e.calculated_merkle_root is None
}

impl SiemDenyEvent {
    /// Live-versus-baseline Merkle mismatch found while validating an asset.
    pub fn integrity_mismatch(
        asset_path: &[u8],
        expected_merkle_root: [u8; 32],
        calculated_merkle_root: [u8; 32],
    ) -> (e: Self)
        ensures
            is_mismatch_event(e, asset_path@, expected_merkle_root, calculated_merkle_root),
    {
        SiemDenyEvent {
            event_type: SiemEventType::IntegrityFailure,
            asset_id: asset_id(asset_path),
            enforcement_layer: "ebpf_lsm",
            action_taken: "deny",
            reason_code: Some("live_merkle_root_mismatch"),
            policy_generation: None,
            device_id: None,
            inode: None,
            expected_merkle_root: Some(expected_merkle_root),
            calculated_merkle_root: Some(calculated_merkle_root),
        }
    }

    /// Maps a core error to the SIEM taxonomy; the error's text is the reason code.
    pub fn from_dfim_error(asset_path: &[u8], error: DfimError) -> (e: Self)
        ensures
            is_error_event(e, asset_path@, error),
    {
        let event_type = match error {
            DfimError::CorruptMetadata | DfimError::UncorrectableError => SiemEventType::MetadataCorrupt,
            _ => SiemEventType::IntegrityFailure,
        };
        SiemDenyEvent {
            event_type,
            asset_id: asset_id(asset_path),
            enforcement_layer: "ebpf_lsm",
            action_taken: "deny",
            reason_code: Some(error.as_str()),
            policy_generation: None,
            device_id: None,
            inode: None,
            expected_merkle_root: None,
            calculated_merkle_root: None,
        }
    }

    /// Maps a kernel policy denial surfaced through the deny ring buffer.
    pub fn from_enforcement_decision(
        device_id: u64,
        inode: u64,
        decision: EnforcementDecision,
        policy_generation: u64,
    ) -> (e: Self)
        ensures
            is_policy_deny_event(e, device_id, inode, decision, policy_generation),
    {
        SiemDenyEvent {
            event_type: SiemEventType::PolicyDeny,
            asset_id: asset_id_from_inode(device_id, inode),
            enforcement_layer: "ebpf_lsm",
            action_taken: "deny",
            reason_code: Some(decision_reason(decision)),
            policy_generation: Some(policy_generation),
            device_id: Some(device_id),
            inode: Some(inode),
            expected_merkle_root: None,
            calculated_merkle_root: None,
        }
    }

    /// The event's JSONL record, observed at `timestamp_ms` milliseconds since the epoch.
    pub fn to_json_line(&self, timestamp_ms: u64) -> (line: Vec<u8>)
        ensures
            line@ == deny_json_line(*self, timestamp_ms),
    {
        let mut correlation: Vec<u8> = Vec::new();
        push_str(&mut correlation, "dfim-");
        push_lower_hex(&mut correlation, timestamp_ms);
        let mut line: Vec<u8> = Vec::new();
        push_str(&mut line, "{\"schema_version\":\"");
        push_str(&mut line, SIEM_SCHEMA_VERSION);
        push_str(&mut line, "\",\"event_type\":\"");
        push_str(&mut line, self.event_type.as_str());
        push_str(&mut line, "\",\"severity\":\"");
        push_str(&mut line, self.event_type.severity());
        push_str(&mut line, "\",\"timestamp_unix_ms\":");
        push_decimal(&mut line, timestamp_ms);
        push_str(&mut line, ",\"asset_id\":\"");
        push_json_escaped(&mut line, self.asset_id.as_slice(), false);
        push_str(&mut line, "\",\"enforcement_layer\":\"");
        push_str(&mut line, self.enforcement_layer);
        push_str(&mut line, "\",\"action_taken\":\"");
        push_str(&mut line, self.action_taken);
        push_str(&mut line, "\"");
        match self.reason_code {
            Some(reason) => {
                push_str(&mut line, ",\"reason_code\":\"");
                push_json_escaped(&mut line, reason.as_bytes(), false);
                push_str(&mut line, "\"");
            },
            None => {},
        }
        push_opt_number(&mut line, ",\"policy_generation\":", self.policy_generation);
        push_opt_number(&mut line, ",\"device_id\":", self.device_id);
        push_opt_number(&mut line, ",\"inode\":", self.inode);
        push_opt_root(&mut line, ",\"expected_merkle_root\":\"", self.expected_merkle_root);
        push_opt_root(&mut line, ",\"calculated_merkle_root\":\"", self.calculated_merkle_root);
        push_str(&mut line, ",\"correlation_id\":\"");
        push_json_escaped(&mut line, correlation.as_slice(), false);
        push_str(&mut line, "\"}\n");
        line
    }
}

} // verus!
