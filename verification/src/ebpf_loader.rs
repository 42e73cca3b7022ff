//! Decisions of the eBPF loader that enrolls one target: the live image is checked against
//! its on-disk sidecar before any map is written, and the protected-scope entries and the
//! production configuration are published in an order that never locks the target out.
use vstd::prelude::*;
use crate::boot_validate::{image_len_error, strictly_decodes_block};
use crate::codec::bytes_eq_at;
use crate::crypto::constant_time_hash_eq;
use crate::enforcement_policy::{
    enforcement_decision, DfimConfigV1, EnforcementDecision, ScopeEntryV1, DFIM_CONFIG_FLAG_ENFORCEMENT_READY,
    DFIM_CONFIG_MAGIC, DFIM_CONFIG_SCHEMA_V1, DFIM_CONFIG_V1_SIZE, DFIM_PROFILE_PROTECTED_SCOPE,
    DFIM_SCOPE_ACTIVE, DFIM_SCOPE_PENDING,
};
use crate::error::DfimError;
use crate::parser::stream_outcome;
use crate::siem_sink::{is_error_event, is_mismatch_event, SiemDenyEvent};
use crate::uefi::manifest::{
    build_boot_sidecar, image_root, is_sidecar_of, manifest_parsed_as, parse_boot_manifest, BootManifest,
};
use crate::uefi::pipeline::{
    boot_validation_of, law_built_sidecar_validates, pipeline_outcome, validate_boot_image, validated_view,
    ValidatedBootImage,
};

verus! {

/// Why a live image was refused against its sidecar.
#[derive(Clone, Copy, Debug, PartialEq, Eq)]
pub enum LiveImageError {
    /// Building, parsing or validating failed with this core error.
    Dfim(DfimError),
    /// The live image's Merkle root is not the on-disk sidecar's.
    RootMismatch { disk_root: [u8; 32], live_root: [u8; 32] },
}

impl LiveImageError {
    /// The SIEM deny event recorded for this refusal of the target at `target_path`.
    pub fn siem_event(&self, target_path: &[u8]) -> (e: SiemDenyEvent)
        ensures
            match *self {
                LiveImageError::Dfim(err) => is_error_event(e, target_path@, err),
                LiveImageError::RootMismatch { disk_root, live_root } => is_mismatch_event(
                    e,
                    target_path@,
                    disk_root,
                    live_root,
                ),
            },
    {
        match self {
            LiveImageError::Dfim(err) => SiemDenyEvent::from_dfim_error(target_path, *err),
            LiveImageError::RootMismatch { disk_root, live_root } => SiemDenyEvent::integrity_mismatch(
                target_path,
                *disk_root,
                *live_root,
            ),
        }
    }

    /// The operator-facing message of this refusal.
    pub fn message(&self) -> (s: &'static str)
        ensures
            match *self {
                LiveImageError::Dfim(err) => s@ == crate::error::error_text(err),
                LiveImageError::RootMismatch { .. } => s@
                    == "live Merkle root differs from on-disk sidecar — possible post-provision tamper"@,
            },
    {
        match self {
            LiveImageError::Dfim(err) => err.as_str(),
            LiveImageError::RootMismatch { .. } => "live Merkle root differs from on-disk sidecar — possible post-provision tamper",
        }
    }
}

/// A live image accepted against its on-disk sidecar.
pub struct LiveImageCheck {
    /// Manifest of the sidecar rebuilt from the live image.
    pub live_manifest: BootManifest,
    /// Manifest parsed from the on-disk sidecar.
    pub disk_manifest: BootManifest,
    /// Whether the on-disk sidecar is byte for byte the rebuilt one.
    pub canonical_sidecar: bool,
}

/// Rebuilds the sidecar of a live image and parses it back.
fn rebuild_live_manifest(image: &[u8]) -> (res: Result<(Vec<u8>, BootManifest), DfimError>)
    ensures
        match res {
            Ok((blob, m)) => {
                &&& image_len_error(image@.len() as usize) is None
                &&& exists|fec: Seq<u8>| #[trigger] is_sidecar_of(image@, fec, blob@)
                &&& manifest_parsed_as(blob@, m)
                &&& m.merkle_root@ == image_root(image@)
            },
            Err(e) => image_len_error(image@.len() as usize) == Some(e),
        },
{
    let _n = image.len();
    let live_sidecar = build_boot_sidecar(image)?;
    let _m = live_sidecar.len();
    let ghost fec = choose|fec: Seq<u8>| #[trigger] is_sidecar_of(image@, fec, live_sidecar@);
    match parse_boot_manifest(live_sidecar.as_slice()) {
        Ok(m) => {
            proof {
                law_built_sidecar_validates(image@, fec, live_sidecar@, m, Seq::empty());
            }
            Ok((live_sidecar, m))
        },
        Err(e) => {
            proof {
                law_built_sidecar_validates(image@, fec, live_sidecar@, arbitrary(), Seq::empty());
            }
            Err(e)
        },
    }
}

/// A validation result without its payload.
pub open spec fn unit_of(v: Result<ValidatedBootImage, DfimError>) -> Result<(), DfimError> {
    match v {
        Ok(_) => Ok(()),
        Err(e) => Err(e),
    }
}

/// `r` is what validating `image` against `manifest` reports, payload aside.
pub open spec fn validation_verdict(image: Seq<u8>, manifest: BootManifest, r: Result<(), DfimError>) -> bool {
    exists|v: Result<ValidatedBootImage, DfimError>| #[trigger] boot_validation_of(image, manifest, v) && r == unit_of(v)
}

/// What the check gives once the on-disk manifest `disk` agrees with the image's own root: the
/// second read's validation against the manifest rebuilt from the image.
pub open spec fn reread_outcome(
    image: Seq<u8>,
    sidecar: Seq<u8>,
    reread: Seq<u8>,
    disk: BootManifest,
    res: Result<LiveImageCheck, LiveImageError>,
) -> bool {
    exists|blob: Seq<u8>, live: BootManifest, r2: Result<(), DfimError>|
        #![trigger manifest_parsed_as(blob, live), validation_verdict(reread, live, r2)]
        (exists|fec: Seq<u8>| #[trigger] is_sidecar_of(image, fec, blob)) && manifest_parsed_as(blob, live)
            && live.merkle_root@ == image_root(image) && validation_verdict(reread, live, r2) && match r2 {
            Err(e) => res == Err::<LiveImageCheck, LiveImageError>(LiveImageError::Dfim(e)),
            Ok(_) => res matches Ok(c) && c.disk_manifest == disk && c.live_manifest == live && c.canonical_sidecar
                == (blob == sidecar),
        }
}

/// What the check gives once the image was validated against the on-disk manifest `disk`
/// with verdict `r1`.
pub open spec fn disk_outcome(
    image: Seq<u8>,
    sidecar: Seq<u8>,
    reread: Seq<u8>,
    disk: BootManifest,
    r1: Result<(), DfimError>,
    res: Result<LiveImageCheck, LiveImageError>,
) -> bool {
    match r1 {
        Err(e) => res == Err::<LiveImageCheck, LiveImageError>(LiveImageError::Dfim(e)),
        Ok(_) => if disk.merkle_root@ != image_root(image) {
            res matches Err(LiveImageError::RootMismatch { disk_root, live_root }) && disk_root == disk.merkle_root
                && live_root@ == image_root(image)
        } else {
            reread_outcome(image, sidecar, reread, disk, res)
        },
    }
}

/// `res` is what checking the live `image` (read again as `reread`) against the on-disk
/// `sidecar` gives: the size cap, the on-disk sidecar's parse, the image's validation against
/// it, the agreement of its root with the image's own, then the second read's validation
/// against the manifest rebuilt from the image.
pub open spec fn live_check_of(
    image: Seq<u8>,
    sidecar: Seq<u8>,
    reread: Seq<u8>,
    res: Result<LiveImageCheck, LiveImageError>,
) -> bool {
    match image_len_error(image.len() as usize) {
        Some(e) => res == Err::<LiveImageCheck, LiveImageError>(LiveImageError::Dfim(e)),
        None => match stream_outcome(sidecar) {
            Err(e) => res == Err::<LiveImageCheck, LiveImageError>(LiveImageError::Dfim(e)),
            Ok(_) => exists|disk: BootManifest, r1: Result<(), DfimError>|
                #![trigger manifest_parsed_as(sidecar, disk), validation_verdict(image, disk, r1)]
                manifest_parsed_as(sidecar, disk) && validation_verdict(image, disk, r1) && disk_outcome(
                    image,
                    sidecar,
                    reread,
                    disk,
                    r1,
                    res,
                ),
        },
    }
}

/// Validates an image against a parsed manifest; the manifest of a sidecar built from the
/// same image always validates.
fn validate_against(image: &[u8], manifest: &BootManifest, Ghost(blob): Ghost<Seq<u8>>) -> (res: Result<(), DfimError>)
    requires
        blob.len() <= usize::MAX,
    ensures
        image_len_error(image@.len() as usize) matches Some(e) ==> res == Err::<(), DfimError>(e),
        (image_len_error(image@.len() as usize) is None && manifest_parsed_as(blob, *manifest) && exists|fec: Seq<u8>|
            #[trigger] is_sidecar_of(image@, fec, blob)) ==> res is Ok,
        validation_verdict(image@, *manifest, res),
{
    let _n = image.len();
    let r = validate_boot_image(image, manifest);
    assert(boot_validation_of(image@, *manifest, r) && unit_of(r) == unit_of(r));
    proof {
        if image_len_error(image@.len() as usize) is None && manifest_parsed_as(blob, *manifest) && exists|fec: Seq<u8>|
            #[trigger] is_sidecar_of(image@, fec, blob) {
            let fec = choose|fec: Seq<u8>| #[trigger] is_sidecar_of(image@, fec, blob);
            law_built_sidecar_validates(image@, fec, blob, *manifest, Seq::empty());
            let d = choose|d: Seq<u8>|
                #[trigger] strictly_decodes_block(manifest.fec_backup@, d) && validated_view(r, image@)
                    == pipeline_outcome(image@, *manifest, d);
            law_built_sidecar_validates(image@, fec, blob, *manifest, d);
        }
    }
    let res = match r {
        Ok(_) => Ok(()),
        Err(e) => Err(e),
    };
    assert(res == unit_of(r));
    res
}

/// Checks a live image against its on-disk sidecar: rebuilds the image's own sidecar, parses
/// both, validates the image against the on-disk manifest, requires the two Merkle roots to
/// agree, and validates the image as read again (`reread`) against the rebuilt manifest.
///
/// A sidecar built from the same image, with the image unchanged on the second read, is
/// always accepted.
#[verifier::spinoff_prover]
#[verifier::rlimit(100)]
pub fn verify_live_image_against_sidecar(image: &[u8], sidecar_bytes: &[u8], reread: &[u8]) -> (res: Result<
    LiveImageCheck,
    LiveImageError,
>)
    ensures
        image_len_error(image@.len() as usize) matches Some(e) ==> res == Err::<LiveImageCheck, LiveImageError>(
            LiveImageError::Dfim(e),
        ),
        live_check_of(image@, sidecar_bytes@, reread@, res),
        (image_len_error(image@.len() as usize) is None && reread@ == image@ && exists|fec: Seq<u8>|
            #[trigger] is_sidecar_of(image@, fec, sidecar_bytes@)) ==> res is Ok,
{
    let _n = sidecar_bytes.len();
    let _k = image.len();
    let (live_sidecar, live_manifest) = match rebuild_live_manifest(image) {
        Ok(pair) => pair,
        Err(e) => {
            return Err(LiveImageError::Dfim(e));
        },
    };
    proof {
        if exists|fec: Seq<u8>| #[trigger] is_sidecar_of(image@, fec, sidecar_bytes@) {
            let fec = choose|fec: Seq<u8>| #[trigger] is_sidecar_of(image@, fec, sidecar_bytes@);
            law_built_sidecar_validates(image@, fec, sidecar_bytes@, arbitrary(), Seq::empty());
        }
    }
    let disk_manifest = match parse_boot_manifest(sidecar_bytes) {
        Ok(m) => m,
        Err(e) => {
            return Err(LiveImageError::Dfim(e));
        },
    };
    let first = validate_against(image, &disk_manifest, Ghost(sidecar_bytes@));
    let ghost r1 = first;
    assert(manifest_parsed_as(sidecar_bytes@, disk_manifest) && validation_verdict(image@, disk_manifest, r1));
    match first {
        Ok(()) => {},
        Err(e) => {
            return Err(LiveImageError::Dfim(e));
        },
    }
    if !constant_time_hash_eq(&live_manifest.merkle_root, &disk_manifest.merkle_root) {
        return Err(
            LiveImageError::RootMismatch {
                disk_root: disk_manifest.merkle_root,
                live_root: live_manifest.merkle_root,
            },
        );
    }
    let _m = live_sidecar.len();
    let canonical_sidecar = live_sidecar.len() == sidecar_bytes.len() && bytes_eq_at(
        live_sidecar.as_slice(),
        0,
        sidecar_bytes,
    );
    proof {
        if canonical_sidecar {
            assert(live_sidecar@.subrange(0, sidecar_bytes@.len() as int) =~= live_sidecar@);
        }
        if live_sidecar@ == sidecar_bytes@ {
            assert(live_sidecar@.subrange(0, sidecar_bytes@.len() as int) =~= live_sidecar@);
        }
        assert(canonical_sidecar == (live_sidecar@ == sidecar_bytes@));
    }
    let second = validate_against(reread, &live_manifest, Ghost(live_sidecar@));
    let ghost r2 = second;
    assert(manifest_parsed_as(live_sidecar@, live_manifest) && validation_verdict(reread@, live_manifest, r2));
    match second {
        Ok(()) => {},
        Err(e) => {
            return Err(LiveImageError::Dfim(e));
        },
    }
    Ok(LiveImageCheck { live_manifest, disk_manifest, canonical_sidecar })
}

/// Scope entry published first: the target is enrolled but not yet enforced.
pub open spec fn pending_entry(policy_generation: u64, root: [u8; 32]) -> ScopeEntryV1 {
    ScopeEntryV1 { policy_generation, state: DFIM_SCOPE_PENDING, reserved: 0, expected_merkle_root: root }
}

/// Scope entry published last: the target is protected.
pub open spec fn active_entry(policy_generation: u64, root: [u8; 32]) -> ScopeEntryV1 {
    ScopeEntryV1 { policy_generation, state: DFIM_SCOPE_ACTIVE, reserved: 0, expected_merkle_root: root }
}

/// The production configuration of a generation.
pub open spec fn production_config(policy_generation: u64) -> DfimConfigV1 {
    DfimConfigV1 {
        magic: DFIM_CONFIG_MAGIC,
        schema_version: DFIM_CONFIG_SCHEMA_V1,
        struct_size: DFIM_CONFIG_V1_SIZE,
        deployment_profile: DFIM_PROFILE_PROTECTED_SCOPE,
        policy_generation,
        flags: DFIM_CONFIG_FLAG_ENFORCEMENT_READY,
        reserved: 0,
    }
}

/// The map writes of one enrollment, in the order they are published: the pending scope
/// entry, then the production configuration, then the committed scope entry.
#[derive(Clone, Copy, Debug, PartialEq, Eq)]
pub struct EnrollmentPlan {
    pub pending: ScopeEntryV1,
    pub config: DfimConfigV1,
    pub active: ScopeEntryV1,
}

/// The map writes that enroll a target whose live Merkle root is `expected_merkle_root`;
/// a zero policy generation is refused.
pub fn plan_enrollment(policy_generation: u64, expected_merkle_root: [u8; 32]) -> (r: Result<EnrollmentPlan, &'static str>)
    ensures
        r is Err <==> policy_generation == 0,
        r matches Err(m) ==> m@ == "policy generation must be non-zero"@,
        r matches Ok(p) ==> {
            &&& p.pending == pending_entry(policy_generation, expected_merkle_root)
            &&& p.config == production_config(policy_generation)
            &&& p.active == active_entry(policy_generation, expected_merkle_root)
        },
{
    if policy_generation == 0 {
        return Err("policy generation must be non-zero");
    }
    Ok(EnrollmentPlan {
        pending: ScopeEntryV1::pending(policy_generation, expected_merkle_root),
        config: DfimConfigV1::production(policy_generation),
        active: ScopeEntryV1::active(policy_generation, expected_merkle_root),
    })
}

/// Enrollment never locks the target out: with the pending entry in place the target is let
/// through whatever configuration an earlier run left behind, it stays let through once the
/// production configuration is published, and after the commit it is protected (handed on to
/// IMA) rather than denied, for every non-zero generation.
pub proof fn law_enrollment_never_locks_out(
    policy_generation: u64,
    root: [u8; 32],
    prior_config: Option<DfimConfigV1>,
)
    requires
        policy_generation != 0,
    ensures
        enforcement_decision(Some(pending_entry(policy_generation, root)), prior_config)
            == EnforcementDecision::AllowPendingEnrollment,
        enforcement_decision(
            Some(pending_entry(policy_generation, root)),
            Some(production_config(policy_generation)),
        ) == EnforcementDecision::AllowPendingEnrollment,
        enforcement_decision(
            Some(active_entry(policy_generation, root)),
            Some(production_config(policy_generation)),
        ) == EnforcementDecision::AllowProtectedToIma,
{
}

} // verus!
