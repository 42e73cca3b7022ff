//! Verification of an image against a persisted sidecar state database, and of a signed
//! (v2) sidecar against a trust policy. Reading the image and the state file is left to the
//! caller, which checks the image before it reads the state.
use vstd::prelude::*;
use crate::boot_validate::{blocks_for, image_len_error, strictly_decodes_block, DFIM_BLOCK_SIZE};
use crate::codec::bytes_eq_at;
use crate::crypto::constant_time_hash_eq;
use crate::error::DfimError;
use crate::integrity_gate::assert_image_bounds;
use crate::parser::stream_outcome;
use crate::codec::u32_le;
use crate::state_db::{boot_magic, envelope_arithmetic_fits, parse_authenticated_state_db, plaintext_prefix, state_db_outcome, wrapped_magic};
use crate::uefi::manifest::{build_boot_sidecar, image_root, is_sidecar_of, manifest_parsed_as, metadata_bytes, parse_boot_manifest, BootManifest};
use crate::uefi::pipeline::{boot_validation_of, law_built_sidecar_validates, validate_boot_image, ValidatedBootImage};
use crate::ecdsa::{p256_key_parses, p256_signature_parses, p256_verifies};
use crate::uefi::signed_manifest::{
    backs_up_metadata, law_signed_image_validates, signed_validation_of, v2_body_of, v2_outcome, v2_verified_as,
    validate_signed_boot_image_v2, TrustedManifestPolicy, ValidatedSignedBootImage, VerifiedBootManifest,
};

verus! {

/// What a successful verification reports.
#[derive(Debug, Clone, Copy, PartialEq, Eq)]
pub struct VerifyReport {
    pub merkle_root: [u8; 32],
    pub block_count: usize,
}

/// Why verification failed.
#[derive(Debug, Clone, Copy, PartialEq, Eq)]
pub enum VerifyError {
    /// The target image is empty.
    EmptyImage,
    /// The image is outside the size bounds.
    ImageBounds(DfimError),
    /// The state database is empty.
    EmptyState,
    /// The state database is plaintext, a license blob, or fails authentication.
    InvalidStateDatabase(DfimError),
    /// The sidecar inside the state database does not parse.
    CorruptSidecar(DfimError),
    /// The live image's Merkle root could not be computed.
    LiveRoot(DfimError),
    /// The sidecar does not validate the image: replay or block-level tamper.
    BlockTamper(DfimError),
    /// The live Merkle root differs from the baseline.
    RootMismatch { live: [u8; 32], expected: [u8; 32] },
    /// A v2 state starting with `STATE_`.
    PlaintextInjection,
    /// A 16-byte legacy license blob offered as v2 state.
    LegacyLicenseBlob,
    /// The signed sidecar failed trust validation.
    V2Trust(DfimError),
}

/// Refuses an empty image and an image outside the size bounds.
pub fn check_image(image: &[u8]) -> (res: Result<(), VerifyError>)
    ensures
        image@.len() == 0 ==> res == Err::<(), VerifyError>(VerifyError::EmptyImage),
        image@.len() > 0 ==> match image_len_error(image@.len() as usize) {
            Some(e) => res == Err::<(), VerifyError>(VerifyError::ImageBounds(e)),
            None => res is Ok,
        },
{
    if image.len() == 0 {
        return Err(VerifyError::EmptyImage);
    }
    match assert_image_bounds(image.len()) {
        Ok(()) => Ok(()),
        Err(e) => Err(VerifyError::ImageBounds(e)),
    }
}

/// The Merkle root of an image, through building and parsing its sidecar.
fn compute_live_merkle_root(image: &[u8]) -> (res: Result<[u8; 32], DfimError>)
    ensures
        match res {
            Ok(r) => image_len_error(image@.len() as usize) is None && r@ == image_root(image@),
            Err(e) => image_len_error(image@.len() as usize) == Some(e),
        },
{
    let _n = image.len();
    let sidecar = match build_boot_sidecar(image) {
        Ok(s) => s,
        Err(e) => {
            return Err(e);
        },
    };
    let _m = sidecar.len();
    let ghost fec = choose|fec: Seq<u8>| #[trigger] is_sidecar_of(image@, fec, sidecar@);
    match parse_boot_manifest(sidecar.as_slice()) {
        Ok(m) => {
            proof {
                law_built_sidecar_validates(image@, fec, sidecar@, m, Seq::empty());
            }
            Ok(m.merkle_root)
        },
        Err(e) => {
            proof {
                law_built_sidecar_validates(image@, fec, sidecar@, arbitrary(), Seq::empty());
            }
            Err(e)
        },
    }
}

/// What verifying `image` against the state database `state_raw` gives, in the order of the
/// checks: the image, the state, the sidecar inside it, then the image's validation `v`
/// against the parsed baseline `m` and the comparison of the validated root with the live one.
pub open spec fn state_verification_of(image: Seq<u8>, state_raw: Seq<u8>, res: Result<VerifyReport, VerifyError>) -> bool {
    if image.len() == 0 {
        res == Err::<VerifyReport, VerifyError>(VerifyError::EmptyImage)
    } else {
        match image_len_error(image.len() as usize) {
            Some(e) => res == Err::<VerifyReport, VerifyError>(VerifyError::ImageBounds(e)),
            None => if state_raw.len() == 0 {
                res == Err::<VerifyReport, VerifyError>(VerifyError::EmptyState)
            } else {
                match state_db_outcome(state_raw) {
                    Err(e) => res == Err::<VerifyReport, VerifyError>(VerifyError::InvalidStateDatabase(e)),
                    Ok(s) => match stream_outcome(s) {
                        Err(e) => res == Err::<VerifyReport, VerifyError>(VerifyError::CorruptSidecar(e)),
                        Ok(_) => exists|m: BootManifest, v: Result<ValidatedBootImage, DfimError>|
                            #[trigger] boot_validation_of(image, m, v) && manifest_parsed_as(s, m)
                                && report_of_validation(image, v, res),
                    },
                }
            },
        }
    }
}

/// `res` reports the validation `v` of `image`: its error as block tamper, a validated root
/// other than the live one as a mismatch, otherwise the root and the block count.
pub open spec fn report_of_validation(
    image: Seq<u8>,
    v: Result<ValidatedBootImage, DfimError>,
    res: Result<VerifyReport, VerifyError>,
) -> bool {
    match v {
        Err(e) => res == Err::<VerifyReport, VerifyError>(VerifyError::BlockTamper(e)),
        Ok(x) => if x.merkle_root@ != image_root(image) {
            res matches Err(VerifyError::RootMismatch { live, expected }) && live@ == image_root(image)
                && expected == x.merkle_root
        } else {
            res == Ok::<VerifyReport, VerifyError>(
                VerifyReport { merkle_root: x.merkle_root, block_count: blocks_for(image.len() as int) as usize },
            )
        },
    }
}

/// Verifies an image against the bytes of a sidecar state database. On success the image's
/// Merkle root is the baseline's, and the report carries it with the image's block count.
pub fn verify_image_bytes_against_state(image: &[u8], state_raw: &[u8]) -> (res: Result<VerifyReport, VerifyError>)
    requires
        envelope_arithmetic_fits(state_raw@),
    ensures
        state_verification_of(image@, state_raw@, res),
        res matches Ok(r) ==> r.merkle_root@ == image_root(image@) && r.block_count == blocks_for(
            image@.len() as int,
        ),
{
    match check_image(image) {
        Ok(()) => {},
        Err(e) => {
            return Err(e);
        },
    }
    if state_raw.len() == 0 {
        return Err(VerifyError::EmptyState);
    }
    let sidecar = match parse_authenticated_state_db(state_raw) {
        Ok(s) => s,
        Err(e) => {
            return Err(VerifyError::InvalidStateDatabase(e));
        },
    };
    let baseline = match parse_boot_manifest(sidecar.as_slice()) {
        Ok(m) => m,
        Err(e) => {
            return Err(VerifyError::CorruptSidecar(e));
        },
    };
    let live_root = match compute_live_merkle_root(image) {
        Ok(r) => r,
        Err(e) => {
            return Err(VerifyError::LiveRoot(e));
        },
    };
    let checked = validate_boot_image(image, &baseline);
    let ghost v = checked;
    let validated = match checked {
        Ok(v) => v,
        Err(e) => {
            assert(boot_validation_of(image@, baseline, v));
            return Err(VerifyError::BlockTamper(e));
        },
    };
    assert(boot_validation_of(image@, baseline, v));
    if !constant_time_hash_eq(&live_root, &validated.merkle_root) {
        return Err(VerifyError::RootMismatch { live: live_root, expected: validated.merkle_root });
    }
    let n = image.len();
    let block_count = n / DFIM_BLOCK_SIZE + if n % DFIM_BLOCK_SIZE == 0 { 0 } else { 1 };
    assert(block_count == blocks_for(n as int));
    Ok(VerifyReport { merkle_root: validated.merkle_root, block_count })
}

/// The sidecar built for an image is accepted as a state database as it stands.
proof fn lemma_built_sidecar_is_state(image: Seq<u8>, fec: Seq<u8>, blob: Seq<u8>)
    requires
        image.len() <= usize::MAX,
        image_len_error(image.len() as usize) is None,
        is_sidecar_of(image, fec, blob),
    ensures
        state_db_outcome(blob) == Ok::<Seq<u8>, DfimError>(blob),
{
    let n = blocks_for(image.len() as int);
    assert(1 <= n <= 64);
    let root = image_root(image);
    crate::uefi::pipeline::lemma_image_paths_shaped(image);
    assert(metadata_bytes(root, n as u32).len() == 40);
    assert(fec.len() == 80);
    crate::codec::lemma_u32_le_round_trip(1);
    crate::codec::lemma_u32_le_round_trip(4096);
    crate::codec::lemma_u32_le_round_trip(n as u32);
    assert(blob.len() >= 136);
    assert(blob.subrange(0, 8) =~= boot_magic());
    assert(blob.subrange(8, 12) =~= u32_le(1));
    assert(blob.subrange(12, 16) =~= u32_le(4096));
    assert(blob.subrange(16, 20) =~= u32_le(n as u32));
    assert(blob.subrange(0, 6) != plaintext_prefix()) by {
        assert(blob.subrange(0, 6)[0] != plaintext_prefix()[0]);
    }
    assert(blob.subrange(0, 8) != wrapped_magic()) by {
        assert(blob.subrange(0, 8)[4] != wrapped_magic()[4]);
    }
}

/// Verification accepts what provisioning wrote: an image checked against the state database
/// that holds the sidecar built for it is reported with its own Merkle root and block count.
pub proof fn law_provisioned_image_verifies(
    image: Seq<u8>,
    fec: Seq<u8>,
    blob: Seq<u8>,
    res: Result<VerifyReport, VerifyError>,
)
    requires
        image.len() <= usize::MAX,
        image_len_error(image.len() as usize) is None,
        is_sidecar_of(image, fec, blob),
        blob.len() <= usize::MAX,
        state_verification_of(image, blob, res),
    ensures
        res matches Ok(r) && r.merkle_root@ == image_root(image) && r.block_count == blocks_for(image.len() as int),
{
    lemma_built_sidecar_is_state(image, fec, blob);
    law_built_sidecar_validates(image, fec, blob, arbitrary(), Seq::empty());
    let (m, v) = choose|m: BootManifest, v: Result<ValidatedBootImage, DfimError>|
        #[trigger] boot_validation_of(image, m, v) && manifest_parsed_as(blob, m) && report_of_validation(image, v, res);
    law_built_sidecar_validates(image, fec, blob, m, Seq::empty());
    let d = choose|d: Seq<u8>|
        #[trigger] strictly_decodes_block(m.fec_backup@, d) && crate::uefi::pipeline::validated_view(v, image)
            == crate::uefi::pipeline::pipeline_outcome(image, m, d);
    law_built_sidecar_validates(image, fec, blob, m, d);
}

/// The state offered for v2 verification is not empty, not plaintext and not a legacy
/// 16-byte license blob.
pub fn validate_v2_sidecar_envelope(state_raw: &[u8]) -> (res: Result<(), VerifyError>)
    ensures
        state_raw@.len() == 0 ==> res == Err::<(), VerifyError>(VerifyError::EmptyState),
        state_raw@.len() > 0 && state_raw@.len() >= 6 && state_raw@.subrange(0, 6) == plaintext_prefix()
            ==> res == Err::<(), VerifyError>(VerifyError::PlaintextInjection),
        state_raw@.len() > 0 && !(state_raw@.len() >= 6 && state_raw@.subrange(0, 6) == plaintext_prefix())
            && state_raw@.len() == 16 ==> res == Err::<(), VerifyError>(VerifyError::LegacyLicenseBlob),
        state_raw@.len() > 0 && !(state_raw@.len() >= 6 && state_raw@.subrange(0, 6) == plaintext_prefix())
            && state_raw@.len() != 16 ==> res is Ok,
{
    if state_raw.len() == 0 {
        return Err(VerifyError::EmptyState);
    }
    let prefix: [u8; 6] = [0x53, 0x54, 0x41, 0x54, 0x45, 0x5f];
    assert(prefix@ =~= plaintext_prefix());
    if state_raw.len() >= 6 && bytes_eq_at(state_raw, 0, &prefix) {
        return Err(VerifyError::PlaintextInjection);
    }
    if state_raw.len() == 16 {
        return Err(VerifyError::LegacyLicenseBlob);
    }
    Ok(())
}

/// Verifies an image against a signed sidecar and a trust policy: signature, key id,
/// release floor, then the image itself.
pub fn verify_v2_image_bytes(image: &[u8], sidecar: &[u8], policy: &TrustedManifestPolicy) -> (res: Result<
    VerifyReport,
    VerifyError,
>)
    ensures
        image@.len() == 0 ==> res == Err::<VerifyReport, VerifyError>(VerifyError::EmptyImage),
        image@.len() > 0 ==> match image_len_error(image@.len() as usize) {
            Some(e) => res == Err::<VerifyReport, VerifyError>(VerifyError::ImageBounds(e)),
            None => exists|post: Result<ValidatedSignedBootImage, DfimError>|
                #[trigger] signed_validation_of(image@, sidecar@, *policy, post) && res == v2_report_of(post),
        },
        image@.len() > 0 && image_len_error(image@.len() as usize) is None ==> match v2_outcome(sidecar@, *policy) {
            Err(e) => res == Err::<VerifyReport, VerifyError>(VerifyError::V2Trust(e)),
            Ok(_) => true,
        },
        res is Ok ==> exists|m: VerifiedBootManifest| #[trigger] v2_verified_as(sidecar@, *policy, m),
{
    match check_image(image) {
        Ok(()) => {},
        Err(e) => {
            return Err(e);
        },
    }
    let post = validate_signed_boot_image_v2(image, sidecar, policy);
    let ghost post_view = post;
    let res = match post {
        Ok(validated) => Ok(
            VerifyReport {
                merkle_root: validated.boot.merkle_root,
                block_count: validated.boot.blocks_verified as usize,
            },
        ),
        Err(e) => Err(VerifyError::V2Trust(e)),
    };
    assert(res == v2_report_of(post_view));
    res
}

/// The report, or the trust failure, of a signed validation.
pub open spec fn v2_report_of(post: Result<ValidatedSignedBootImage, DfimError>) -> Result<VerifyReport, VerifyError> {
    match post {
        Ok(v) => Ok(VerifyReport { merkle_root: v.boot.merkle_root, block_count: v.boot.blocks_verified as usize }),
        Err(e) => Err(VerifyError::V2Trust(e)),
    }
}

/// An image provisioned with a signed sidecar built for it, under a key that verifies the
/// signature, passes v2 verification under a policy with that key, the key id used and any
/// release floor up to the counter, reporting the image's Merkle root and block count.
pub proof fn law_provisioned_v2_image_verifies(
    image: Seq<u8>,
    key_id: Seq<u8>,
    release: u64,
    fec: Seq<u8>,
    sig: [u8; 64],
    policy: TrustedManifestPolicy,
    post: Result<ValidatedSignedBootImage, DfimError>,
)
    requires
        image.len() <= usize::MAX,
        image_len_error(image.len() as usize) is None,
        key_id.len() == 16,
        release != 0,
        backs_up_metadata(image, fec),
        p256_key_parses(policy.public_key_sec1@),
        p256_signature_parses(sig@),
        p256_verifies(policy.public_key_sec1@, v2_body_of(image, key_id, release, fec), sig@),
        policy.expected_key_id@ == key_id,
        policy.minimum_release <= release,
        v2_body_of(image, key_id, release, fec).len() + 64 <= usize::MAX,
        signed_validation_of(image, v2_body_of(image, key_id, release, fec) + sig@, policy, post),
    ensures
        v2_report_of(post) matches Ok(r) && r.merkle_root@ == image_root(image) && r.block_count == blocks_for(
            image.len() as int,
        ),
{
    law_signed_image_validates(image, key_id, release, fec, sig, policy, post);
}

} // verus!
