//! Decoding of the kernel's deny ring-buffer records into SIEM deny events.
//!
//! A record is the `repr(C)` layout of [`DenyEventV1`] in the host's (little-endian) byte
//! order: `device_id` at 0, `inode` at 8, `reason` at 16, four bytes of padding, and
//! `policy_generation` at 24, 32 bytes in all.
use vstd::prelude::*;
use crate::codec::{le_u32, le_u64, lemma_u32_le_round_trip, lemma_u64_le_round_trip, read_le_u32_at, read_le_u64_at, u32_le, u64_le};
use crate::enforcement_policy::{DenyEventV1, EnforcementDecision};
use crate::siem_sink::{is_policy_deny_event, SiemDenyEvent};

verus! {

/// Byte size of one deny record.
pub const DENY_EVENT_V1_LEN: usize = 32;

/// The deny record encoded by the first 32 bytes of `b`.
pub open spec fn deny_event_from_bytes(b: Seq<u8>) -> DenyEventV1 {
    DenyEventV1 {
        device_id: le_u64(b.subrange(0, 8)) as u64,
        inode: le_u64(b.subrange(8, 16)) as u64,
        reason: le_u32(b.subrange(16, 20)) as u32,
        policy_generation: le_u64(b.subrange(24, 32)) as u64,
    }
}

/// The kernel decisions a deny record may carry: only the three deny codes are accepted.
pub open spec fn denied_decision(reason: u32) -> Option<EnforcementDecision> {
    if reason == 3 {
        Some(EnforcementDecision::DenyInvalidScope)
    } else if reason == 4 {
        Some(EnforcementDecision::DenyInvalidConfig)
    } else if reason == 5 {
        Some(EnforcementDecision::DenyStaleGeneration)
    } else {
        None
    }
}

/// Reads a deny record from its 32 bytes.
pub fn bytemuck_must_read(bytes: &[u8; 32]) -> (e: DenyEventV1)
    ensures
        e == deny_event_from_bytes(bytes@),
{
    let b: &[u8] = bytes.as_slice();
    DenyEventV1 {
        device_id: read_le_u64_at(b, 0),
        inode: read_le_u64_at(b, 8),
        reason: read_le_u32_at(b, 16),
        policy_generation: read_le_u64_at(b, 24),
    }
}

/// Decodes one ring-buffer record: `None` when it is shorter than a deny record or carries a
/// reason that is not a kernel deny; otherwise the SIEM policy-deny event of that record.
pub fn parse_deny_event(bytes: &[u8]) -> (r: Option<SiemDenyEvent>)
    ensures
        bytes@.len() < DENY_EVENT_V1_LEN ==> r is None,
        bytes@.len() >= DENY_EVENT_V1_LEN ==> ({
            let rec = deny_event_from_bytes(bytes@.subrange(0, 32));
            match denied_decision(rec.reason) {
                None => r is None,
                Some(d) => r matches Some(e) && is_policy_deny_event(
                    e,
                    rec.device_id,
                    rec.inode,
                    d,
                    rec.policy_generation,
                ),
            }
        }),
{
    if bytes.len() < DENY_EVENT_V1_LEN {
        return None;
    }
    let mut raw = [0u8; 32];
    let mut i: usize = 0;
    while i < DENY_EVENT_V1_LEN
        invariant
            i <= DENY_EVENT_V1_LEN <= bytes@.len(),
            forall|j: int| 0 <= j < i ==> raw@[j] == bytes@[j],
        decreases DENY_EVENT_V1_LEN - i,
    {
        raw[i] = bytes[i];
        i += 1;
    }
    assert(raw@ =~= bytes@.subrange(0, 32));
    let record = bytemuck_must_read(&raw);
    let decision = match record.reason {
        3 => EnforcementDecision::DenyInvalidScope,
        4 => EnforcementDecision::DenyInvalidConfig,
        5 => EnforcementDecision::DenyStaleGeneration,
        _ => return None,
    };
    Some(SiemDenyEvent::from_enforcement_decision(
        record.device_id,
        record.inode,
        decision,
        record.policy_generation,
    ))
}

/// The ring-buffer bytes of a deny record as the probe publishes it: the fields in
/// little-endian order at their `repr(C)` offsets, with `pad` in the four padding bytes.
pub open spec fn deny_record_bytes(e: DenyEventV1, pad: Seq<u8>) -> Seq<u8> {
    u64_le(e.device_id) + u64_le(e.inode) + u32_le(e.reason) + pad + u64_le(e.policy_generation)
}

/// Every deny record the probe publishes is read back field for field, whatever its padding
/// bytes hold.
pub proof fn law_deny_record_read_back(e: DenyEventV1, pad: Seq<u8>)
    requires
        pad.len() == 4,
    ensures
        deny_record_bytes(e, pad).len() == DENY_EVENT_V1_LEN,
        deny_event_from_bytes(deny_record_bytes(e, pad)) == e,
{
    let b = deny_record_bytes(e, pad);
    lemma_u64_le_round_trip(e.device_id);
    lemma_u64_le_round_trip(e.inode);
    lemma_u32_le_round_trip(e.reason);
    lemma_u64_le_round_trip(e.policy_generation);
    assert(b.subrange(0, 8) =~= u64_le(e.device_id));
    assert(b.subrange(8, 16) =~= u64_le(e.inode));
    assert(b.subrange(16, 20) =~= u32_le(e.reason));
    assert(b.subrange(24, 32) =~= u64_le(e.policy_generation));
}

} // verus!
