//! Fail-closed recovery of a protected image and its signed sidecar: the replacement pair is
//! authorized before anything is written, and the restored pair must verify with the same
//! identity afterwards. Replacing the files is left to the caller, between the two checks.
use vstd::prelude::*;
use crate::boot_validate::image_len_error;
use crate::ecdsa::{p256_key_parses, p256_signature_parses, p256_verifies};
use crate::error::DfimError;
use crate::uefi::manifest::image_root;
use crate::uefi::signed_manifest::{
    backs_up_metadata, law_signed_image_validates, signed_validation_of, v2_body_of, v2_outcome,
    v2_verified_as, validate_signed_boot_image_v2, TrustedManifestPolicy, ValidatedSignedBootImage,
    VerifiedBootManifest, V2_KEY_ID_LEN,
};

verus! {

/// What a completed recovery reports.
#[derive(Clone, Copy, Debug, PartialEq, Eq)]
pub struct RecoveryReport {
    pub release_counter: u64,
    pub key_id: [u8; V2_KEY_ID_LEN],
    pub restored_bytes: usize,
    pub merkle_root: [u8; 32],
}

/// Why a recovery stopped.
#[derive(Clone, Copy, Debug, PartialEq, Eq)]
pub enum RecoveryError {
    /// The replacement pair does not verify under the trust policy.
    AuthorizationFailed(DfimError),
    /// The restored pair does not verify under the trust policy.
    PostRecoveryFailed(DfimError),
    /// The restored pair verifies, but with another release, key id or Merkle root.
    IdentityMismatch,
}

/// Authorizes a replacement image and sidecar before anything is written.
pub fn authorize_recovery(image: &[u8], sidecar: &[u8], policy: &TrustedManifestPolicy) -> (res: Result<
    ValidatedSignedBootImage,
    RecoveryError,
>)
    ensures
        res matches Err(e) ==> e is AuthorizationFailed,
        signed_validation_of(image@, sidecar@, *policy, authorization_part(res)),
        v2_outcome(sidecar@, *policy) matches Err(e) ==> res == Err::<ValidatedSignedBootImage, RecoveryError>(
            RecoveryError::AuthorizationFailed(e),
        ),
        res matches Ok(v) ==> exists|m: VerifiedBootManifest| #[trigger] v2_verified_as(sidecar@, *policy, m)
            && v.release_counter == m.release_counter && v.key_id == m.key_id,
{
    let validated = validate_signed_boot_image_v2(image, sidecar, policy);
    let res = match validated {
        Ok(v) => Ok(v),
        Err(e) => Err(RecoveryError::AuthorizationFailed(e)),
    };
    assert(authorization_part(res) == validated);
    res
}

/// An authorization result with its error unwrapped back to the validation error.
pub open spec fn authorization_part(res: Result<ValidatedSignedBootImage, RecoveryError>) -> Result<
    ValidatedSignedBootImage,
    DfimError,
> {
    match res {
        Ok(v) => Ok(v),
        Err(RecoveryError::AuthorizationFailed(e)) => Err(e),
        Err(_) => Err(DfimError::IntegrityFailure),
    }
}

/// What confirming gives once the restored pair validated to `post`: the validation error,
/// a mismatch of release counter, key id or Merkle root, or the report.
pub open spec fn confirm_outcome(
    authorized: ValidatedSignedBootImage,
    post: Result<ValidatedSignedBootImage, DfimError>,
    restored_len: nat,
) -> Result<RecoveryReport, RecoveryError> {
    match post {
        Err(e) => Err(RecoveryError::PostRecoveryFailed(e)),
        Ok(p) => if p.release_counter != authorized.release_counter || p.key_id != authorized.key_id
            || p.boot.merkle_root != authorized.boot.merkle_root {
            Err(RecoveryError::IdentityMismatch)
        } else {
            Ok(
                RecoveryReport {
                    release_counter: p.release_counter,
                    key_id: p.key_id,
                    restored_bytes: restored_len as usize,
                    merkle_root: p.boot.merkle_root,
                },
            )
        },
    }
}

/// Re-verifies the restored pair and requires the identity that was authorized: same
/// release counter, key id and Merkle root.
pub fn confirm_recovery(
    authorized: &ValidatedSignedBootImage,
    restored_image: &[u8],
    restored_sidecar: &[u8],
    policy: &TrustedManifestPolicy,
) -> (res: Result<RecoveryReport, RecoveryError>)
    ensures
        exists|post: Result<ValidatedSignedBootImage, DfimError>|
            #[trigger] signed_validation_of(restored_image@, restored_sidecar@, *policy, post) && res
                == confirm_outcome(*authorized, post, restored_image@.len()),
        v2_outcome(restored_sidecar@, *policy) matches Err(e) ==> res == Err::<RecoveryReport, RecoveryError>(
            RecoveryError::PostRecoveryFailed(e),
        ),
        res matches Ok(r) ==> r.release_counter == authorized.release_counter && r.key_id == authorized.key_id
            && r.merkle_root == authorized.boot.merkle_root && r.restored_bytes == restored_image@.len()
            && exists|m: VerifiedBootManifest| #[trigger] v2_verified_as(restored_sidecar@, *policy, m),
{
    let validated = validate_signed_boot_image_v2(restored_image, restored_sidecar, policy);
    let ghost post_result = validated;
    let post = match validated {
        Ok(v) => v,
        Err(e) => {
            assert(signed_validation_of(restored_image@, restored_sidecar@, *policy, post_result));
            return Err(RecoveryError::PostRecoveryFailed(e));
        },
    };
    assert(signed_validation_of(restored_image@, restored_sidecar@, *policy, post_result));
    if post.release_counter != authorized.release_counter || !same_key_id(&post.key_id, &authorized.key_id)
        || !same_root(&post.boot.merkle_root, &authorized.boot.merkle_root) {
        return Err(RecoveryError::IdentityMismatch);
    }
    Ok(
        RecoveryReport {
            release_counter: post.release_counter,
            key_id: post.key_id,
            restored_bytes: restored_image.len(),
            merkle_root: post.boot.merkle_root,
        },
    )
}

fn same_key_id(a: &[u8; 16], b: &[u8; 16]) -> (r: bool)
    ensures
        r == (*a == *b),
{
    let mut i: usize = 0;
    while i < 16
        invariant
            i <= 16,
            forall|j: int| 0 <= j < i ==> a@[j] == b@[j],
        decreases 16 - i,
    {
        if a[i] != b[i] {
            return false;
        }
        i = i + 1;
    }
    assert(*a =~= *b);
    true
}

fn same_root(a: &[u8; 32], b: &[u8; 32]) -> (r: bool)
    ensures
        r == (*a == *b),
{
    let mut i: usize = 0;
    while i < 32
        invariant
            i <= 32,
            forall|j: int| 0 <= j < i ==> a@[j] == b@[j],
        decreases 32 - i,
    {
        if a[i] != b[i] {
            return false;
        }
        i = i + 1;
    }
    assert(*a =~= *b);
    true
}

/// Recovering from a signed pair built for an image completes: the pair is authorized, and
/// once it is restored unchanged its re-verification confirms the recovery, reporting the
/// sidecar's release counter and key id and the image's Merkle root and length.
pub proof fn law_recovery_of_signed_pair_completes(
    image: Seq<u8>,
    key_id: [u8; V2_KEY_ID_LEN],
    release: u64,
    fec: Seq<u8>,
    sig: [u8; 64],
    policy: TrustedManifestPolicy,
    authorization: Result<ValidatedSignedBootImage, RecoveryError>,
    post: Result<ValidatedSignedBootImage, DfimError>,
)
    requires
        image.len() <= usize::MAX,
        image_len_error(image.len() as usize) is None,
        release != 0,
        backs_up_metadata(image, fec),
        p256_key_parses(policy.public_key_sec1@),
        p256_signature_parses(sig@),
        p256_verifies(policy.public_key_sec1@, v2_body_of(image, key_id@, release, fec), sig@),
        policy.expected_key_id == key_id,
        policy.minimum_release <= release,
        v2_body_of(image, key_id@, release, fec).len() + 64 <= usize::MAX,
        signed_validation_of(image, v2_body_of(image, key_id@, release, fec) + sig@, policy, authorization_part(authorization)),
        signed_validation_of(image, v2_body_of(image, key_id@, release, fec) + sig@, policy, post),
    ensures
        authorization matches Ok(a) && confirm_outcome(a, post, image.len()) == Ok::<RecoveryReport, RecoveryError>(
            RecoveryReport {
                release_counter: release,
                key_id,
                restored_bytes: image.len() as usize,
                merkle_root: a.boot.merkle_root,
            },
        ) && a.boot.merkle_root@ == image_root(image),
{
    let blob = v2_body_of(image, key_id@, release, fec) + sig@;
    law_signed_image_validates(image, key_id@, release, fec, sig, policy, authorization_part(authorization));
    law_signed_image_validates(image, key_id@, release, fec, sig, policy, post);
    let a = authorization->Ok_0;
    let p = post->Ok_0;
    assert(a.key_id =~= key_id);
    assert(p.key_id =~= key_id);
    assert(a.boot.merkle_root =~= p.boot.merkle_root);
}

} // verus!
