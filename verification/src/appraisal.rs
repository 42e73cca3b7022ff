//! Standalone appraisal engine: decides, without kernel IMA, whether an execution of a
//! protected file may proceed, from its enrolled integrity entry and the file's digest.
use vstd::prelude::*;
use crate::crypto::constant_time_hash_eq;
use crate::enforcement_policy::ScopeEntryV1;

verus! {

/// Reason codes carried in appraisal deny records (declaration order is the wire code).
#[derive(Clone, Copy, Debug, PartialEq, Eq, Structural)]
pub enum DenyReason {
    /// Asset not in protected scope: allowed by default.
    NotInScope,
    /// Asset in scope, integrity verified.
    IntegrityPassed,
    /// Asset in scope, digest mismatch: denied.
    DigestMismatch,
    /// Asset in scope, Merkle leaf check failed: denied.
    MerkleFailure,
    /// Asset in scope without an integrity entry: denied (fail closed).
    MissingEntry,
    /// Asset in scope, attestation required but not available.
    AttestationMissing,
    /// Asset in scope, rollback counter violation.
    RollbackViolation,
    /// Policy misconfiguration: denied (fail closed).
    ConfigError,
}

/// Wire code of a deny reason.
pub open spec fn reason_code(r: DenyReason) -> u32 {
    match r {
        DenyReason::NotInScope => 0,
        DenyReason::IntegrityPassed => 1,
        DenyReason::DigestMismatch => 2,
        DenyReason::MerkleFailure => 3,
        DenyReason::MissingEntry => 4,
        DenyReason::AttestationMissing => 5,
        DenyReason::RollbackViolation => 6,
        DenyReason::ConfigError => 7,
    }
}

impl DenyReason {
    /// Wire code of this reason.
    pub fn code(self) -> (c: u32)
        ensures
            c == reason_code(self),
    {
        match self {
            DenyReason::NotInScope => 0,
            DenyReason::IntegrityPassed => 1,
            DenyReason::DigestMismatch => 2,
            DenyReason::MerkleFailure => 3,
            DenyReason::MissingEntry => 4,
            DenyReason::AttestationMissing => 5,
            DenyReason::RollbackViolation => 6,
            DenyReason::ConfigError => 7,
        }
    }
}

/// Flag bit of an integrity entry: TPM attestation required before execution.
pub const FLAG_ATTESTATION_REQUIRED: u8 = 1;

/// Enrolled integrity data of one protected asset.
#[derive(Clone, Copy, Debug, PartialEq, Eq)]
pub struct ImageIntegrityEntry {
    /// SHA-256 of the expected file content.
    pub expected_digest: [u8; 32],
    /// Merkle root for hierarchical verification (all zero in direct digest mode).
    pub merkle_root: [u8; 32],
    /// Number of blocks in the Merkle tree (0 = direct digest mode).
    pub block_count: u16,
    /// Enforcement policy identifier of the asset.
    pub policy_id: u32,
    /// Bit 0: attestation required; bit 1: rollback enforced.
    pub flags: u8,
}

/// Map key of an appraised file.
#[derive(Clone, Copy, Debug, PartialEq, Eq, Structural)]
pub struct FileKey {
    pub inode: u64,
    pub device: u32,
}

/// The map key and the freshly enrolled entry (no flags set) for a protected asset.
pub fn insert_integrity_entry(
    inode: u64,
    device: u32,
    digest: [u8; 32],
    merkle_root: [u8; 32],
    block_count: u16,
    policy_id: u32,
) -> (r: (FileKey, ImageIntegrityEntry))
    ensures
        r.0 == (FileKey { inode, device }),
        r.1.expected_digest == digest,
        r.1.merkle_root == merkle_root,
        r.1.block_count == block_count,
        r.1.policy_id == policy_id,
        r.1.flags == 0,
{
    (
        FileKey { inode, device },
        ImageIntegrityEntry { expected_digest: digest, merkle_root, block_count, policy_id, flags: 0 },
    )
}

/// The all-zero digest.
pub open spec fn zero_digest() -> Seq<u8> {
    Seq::new(32, |_i: int| 0u8)
}

/// Leaf check against a Merkle root: an all-zero root means direct digest mode and passes;
/// otherwise the enrolled leaf must not be the all-zero digest.
pub open spec fn merkle_leaf_ok(leaf: Seq<u8>, root: Seq<u8>) -> bool {
    root == zero_digest() || leaf != zero_digest()
}

/// Verifies a file digest as a leaf under `root` (the sibling path is checked at enrollment).
pub fn verify_merkle_leaf(leaf_digest: &[u8; 32], root: &[u8; 32], block_count: usize) -> (ok: bool)
    ensures
        ok == merkle_leaf_ok(leaf_digest@, root@),
{
    let _ = block_count;
    let zero: [u8; 32] = [0u8, 0, 0, 0, 0, 0, 0, 0, 0, 0, 0, 0, 0, 0, 0, 0, 0, 0, 0, 0, 0, 0, 0, 0, 0, 0, 0, 0, 0, 0, 0, 0];
    assert(zero@ =~= zero_digest());
    if constant_time_hash_eq(root, &zero) {
        return true;
    }
    !constant_time_hash_eq(leaf_digest, &zero)
}

/// Outcome of an appraisal: the hook's return code (0 allows, -1 denies) and the reason of a deny.
pub open spec fn appraisal_outcome(
    in_scope: bool,
    integrity: Option<ImageIntegrityEntry>,
    file_digest: Seq<u8>,
) -> (i32, Option<DenyReason>) {
    if !in_scope {
        (0i32, None)
    } else {
        match integrity {
            None => (-1i32, Some(DenyReason::MissingEntry)),
            Some(entry) => if entry.flags % 2 == 1 {
                (-1i32, Some(DenyReason::AttestationMissing))
            } else if entry.block_count == 0 {
                if file_digest == entry.expected_digest@ {
                    (0i32, None)
                } else {
                    (-1i32, Some(DenyReason::DigestMismatch))
                }
            } else if merkle_leaf_ok(file_digest, entry.merkle_root@) {
                (0i32, None)
            } else {
                (-1i32, Some(DenyReason::MerkleFailure))
            },
        }
    }
}

/// Appraises one execution: `scope` and `integrity` are the protected-scope and integrity
/// entries found for the file, `file_digest` its measured SHA-256. Returns the hook's code and,
/// on a deny, the reason to record.
pub fn appraise_file(
    scope: Option<&ScopeEntryV1>,
    integrity: Option<&ImageIntegrityEntry>,
    file_digest: &[u8; 32],
) -> (r: (i32, Option<DenyReason>))
    ensures
        r == appraisal_outcome(
            scope is Some,
            match integrity {
                Some(e) => Some(*e),
                None => None,
            },
            file_digest@,
        ),
{
    if scope.is_none() {
        return (0, None);
    }
    let integrity = match integrity {
        Some(entry) => entry,
        None => return (-1, Some(DenyReason::MissingEntry)),
    };
    let flags: u8 = integrity.flags;
    assert(flags & 1u8 == flags % 2) by (bit_vector);
    if flags & FLAG_ATTESTATION_REQUIRED != 0 {
        return (-1, Some(DenyReason::AttestationMissing));
    }
    if integrity.block_count == 0 {
        if !constant_time_hash_eq(file_digest, &integrity.expected_digest) {
            return (-1, Some(DenyReason::DigestMismatch));
        }
        return (0, None);
    }
    if !verify_merkle_leaf(file_digest, &integrity.merkle_root, integrity.block_count as usize) {
        return (-1, Some(DenyReason::MerkleFailure));
    }
    (0, None)
}

/// Deny record of the appraisal engine.
#[derive(Clone, Copy, Debug, PartialEq, Eq)]
pub struct DenyEvent {
    /// Timestamp in nanoseconds (kernel monotonic clock).
    pub timestamp_ns: u64,
    pub inode: u64,
    pub device: u32,
    /// Reason code of the deny.
    pub reason: u32,
    /// First 8 bytes of the expected digest (zero when not recorded).
    pub expected_prefix: [u8; 8],
    /// First 8 bytes of the measured digest (zero when not recorded).
    pub actual_prefix: [u8; 8],
    /// Process that triggered the deny (low half of the pid/tgid pair).
    pub pid: u32,
}

/// Builds the deny record for `reason`, given the clock reading and the current pid/tgid pair.
pub fn emit_deny_event(inode: u64, device: u32, reason: u32, timestamp_ns: u64, pid_tgid: u64) -> (e: DenyEvent)
    ensures
        e.timestamp_ns == timestamp_ns,
        e.inode == inode,
        e.device == device,
        e.reason == reason,
        e.expected_prefix@ == Seq::new(8, |_i: int| 0u8),
        e.actual_prefix@ == Seq::new(8, |_i: int| 0u8),
        e.pid == pid_tgid % 0x1_0000_0000,
{
    let pid = (pid_tgid & 0xffff_ffff) as u32;
    assert(pid_tgid & 0xffff_ffff == pid_tgid % 0x1_0000_0000) by (bit_vector);
    let e = DenyEvent {
        timestamp_ns,
        inode,
        device,
        reason,
        expected_prefix: [0u8, 0, 0, 0, 0, 0, 0, 0],
        actual_prefix: [0u8, 0, 0, 0, 0, 0, 0, 0],
        pid,
    };
    assert(e.expected_prefix@ =~= Seq::new(8, |_i: int| 0u8));
    assert(e.actual_prefix@ =~= Seq::new(8, |_i: int| 0u8));
    e
}

} // verus!
