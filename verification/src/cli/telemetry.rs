//! Audit records of provisioning, verification and recovery, one JSON line each. Records
//! carry typed fields only: the asset is named by its identifier, never by its path.
use vstd::prelude::*;
use vstd::utf8::encode_utf8;
use crate::digest::hex_of;
use crate::siem_sink::{asset_id, asset_id_of, opt_number};
use crate::text::{decimal, json_escaped, push_decimal, push_hex, push_json_escaped, push_str};

verus! {

/// Security operation of an audit record.
#[derive(Clone, Copy, Debug, PartialEq, Eq, Structural)]
pub enum EventType {
    VerifyV1,
    VerifyV2,
    ProvisionV1,
    ProvisionV2,
    RecoveryV2,
}

/// Wire name of an operation.
pub open spec fn event_type_name(t: EventType) -> Seq<char> {
    match t {
        EventType::VerifyV1 => "verify_v1"@,
        EventType::VerifyV2 => "verify_v2"@,
        EventType::ProvisionV1 => "provision_v1"@,
        EventType::ProvisionV2 => "provision_v2"@,
        EventType::RecoveryV2 => "recovery_v2"@,
    }
}

impl EventType {
    /// Wire name of the operation.
    pub fn as_str(self) -> (s: &'static str)
        ensures
            s@ == event_type_name(self),
    {
        match self {
            EventType::VerifyV1 => "verify_v1",
            EventType::VerifyV2 => "verify_v2",
            EventType::ProvisionV1 => "provision_v1",
            EventType::ProvisionV2 => "provision_v2",
            EventType::RecoveryV2 => "recovery_v2",
        }
    }
}

/// Result of the operation; the severity follows from it.
#[derive(Clone, Copy, Debug, PartialEq, Eq, Structural)]
pub enum Outcome {
    Success,
    Failure,
}

/// Wire name of an outcome.
pub open spec fn outcome_name(o: Outcome) -> Seq<char> {
    match o {
        Outcome::Success => "success"@,
        Outcome::Failure => "failure"@,
    }
}

/// Severity of an outcome: success is informational, failure an error.
pub open spec fn outcome_severity(o: Outcome) -> Seq<char> {
    match o {
        Outcome::Success => "info"@,
        Outcome::Failure => "error"@,
    }
}

impl Outcome {
    /// Wire name of the outcome.
    pub fn as_str(self) -> (s: &'static str)
        ensures
            s@ == outcome_name(self),
    {
        match self {
            Outcome::Success => "success",
            Outcome::Failure => "failure",
        }
    }

    /// Severity of the outcome.
    pub fn severity(self) -> (s: &'static str)
        ensures
            s@ == outcome_severity(self),
    {
        match self {
            Outcome::Success => "info",
            Outcome::Failure => "error",
        }
    }
}

/// One audit record.
pub struct TelemetryEvent {
    pub event_type: EventType,
    pub outcome: Outcome,
    pub timestamp_unix_ms: u64,
    pub asset_id: Vec<u8>,
    pub release_counter: Option<u64>,
    pub merkle_root: Option<[u8; 32]>,
    pub dry_run: bool,
}

impl TelemetryEvent {
    /// A verification or recovery record, with the asset's path redacted to its identifier.
    pub fn security(
        event_type: EventType,
        outcome: Outcome,
        asset_path: &[u8],
        timestamp_unix_ms: u64,
        release_counter: Option<u64>,
        merkle_root: Option<[u8; 32]>,
    ) -> (e: Self)
        ensures
            e.event_type == event_type,
            e.outcome == outcome,
            e.timestamp_unix_ms == timestamp_unix_ms,
            e.asset_id@ == asset_id_of(asset_path@),
            e.release_counter == release_counter,
            e.merkle_root == merkle_root,
            !e.dry_run,
    {
        TelemetryEvent {
            event_type,
            outcome,
            timestamp_unix_ms,
            asset_id: asset_id(asset_path),
            release_counter,
            merkle_root,
            dry_run: false,
        }
    }

    /// A provisioning record; a dry run is marked so that write alerts can be suppressed.
    pub fn provision(
        event_type: EventType,
        outcome: Outcome,
        asset_path: &[u8],
        timestamp_unix_ms: u64,
        release_counter: Option<u64>,
        merkle_root: Option<[u8; 32]>,
        dry_run: bool,
    ) -> (e: Self)
        ensures
            e.event_type == event_type,
            e.outcome == outcome,
            e.timestamp_unix_ms == timestamp_unix_ms,
            e.asset_id@ == asset_id_of(asset_path@),
            e.release_counter == release_counter,
            e.merkle_root == merkle_root,
            e.dry_run == dry_run,
    {
        TelemetryEvent {
            event_type,
            outcome,
            timestamp_unix_ms,
            asset_id: asset_id(asset_path),
            release_counter,
            merkle_root,
            dry_run,
        }
    }
}

/// The record's JSON line.
pub open spec fn telemetry_json(e: TelemetryEvent) -> Seq<u8> {
    encode_utf8("{\"schema_version\":1,\"event_type\":\""@) + encode_utf8(event_type_name(e.event_type))
        + encode_utf8("\",\"severity\":\""@) + encode_utf8(outcome_severity(e.outcome)) + encode_utf8(
        "\",\"outcome\":\""@,
    ) + encode_utf8(outcome_name(e.outcome)) + encode_utf8("\",\"timestamp_unix_ms\":"@) + decimal(
        e.timestamp_unix_ms as nat,
    ) + encode_utf8(",\"asset_id\":\""@) + json_escaped(e.asset_id@, true) + encode_utf8("\""@)
        + opt_number(encode_utf8(",\"release_counter\":"@), e.release_counter) + match e.merkle_root {
        Some(root) => encode_utf8(",\"merkle_root\":\""@) + hex_of(root@) + encode_utf8("\""@),
        None => Seq::empty(),
    } + if e.dry_run {
        encode_utf8(",\"dry_run\":true"@)
    } else {
        Seq::empty()
    } + encode_utf8("}\n"@)
}

impl TelemetryEvent {
    /// The record as one JSON line.
    pub fn to_json_line(&self) -> (line: Vec<u8>)
        ensures
            line@ == telemetry_json(*self),
    {
        let mut line: Vec<u8> = Vec::new();
        push_str(&mut line, "{\"schema_version\":1,\"event_type\":\"");
        push_str(&mut line, self.event_type.as_str());
        push_str(&mut line, "\",\"severity\":\"");
        push_str(&mut line, self.outcome.severity());
        push_str(&mut line, "\",\"outcome\":\"");
        push_str(&mut line, self.outcome.as_str());
        push_str(&mut line, "\",\"timestamp_unix_ms\":");
        push_decimal(&mut line, self.timestamp_unix_ms);
        push_str(&mut line, ",\"asset_id\":\"");
        push_json_escaped(&mut line, self.asset_id.as_slice(), true);
        push_str(&mut line, "\"");
        let ghost before_release = line@;
        match self.release_counter {
            Some(c) => {
                push_str(&mut line, ",\"release_counter\":");
                push_decimal(&mut line, c);
            },
            None => {},
        }
        assert(line@ =~= before_release + opt_number(encode_utf8(",\"release_counter\":"@), self.release_counter));
        let ghost before_root = line@;
        match self.merkle_root {
            Some(root) => {
                push_str(&mut line, ",\"merkle_root\":\"");
                push_hex(&mut line, &root);
                push_str(&mut line, "\"");
            },
            None => {},
        }
        let ghost before_dry = line@;
        if self.dry_run {
            push_str(&mut line, ",\"dry_run\":true");
        }
        let ghost before_end = line@;
        push_str(&mut line, "}\n");
        proof {
            let root_part = match self.merkle_root {
                Some(root) => encode_utf8(",\"merkle_root\":\""@) + hex_of(root@) + encode_utf8("\""@),
                None => Seq::<u8>::empty(),
            };
            assert(before_dry =~= before_root + root_part);
            let dry_part = if self.dry_run {
                encode_utf8(",\"dry_run\":true"@)
            } else {
                Seq::<u8>::empty()
            };
            assert(before_end =~= before_dry + dry_part);
            assert(line@ =~= telemetry_json(*self));
        }
        line
    }
}

} // verus!
