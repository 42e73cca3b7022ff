//! Provisioning: building and self-checking the sidecar of a target image, signed or not,
//! and the trust inputs the commands take as hexadecimal text.
use vstd::prelude::*;
use vstd::string::{StringExecFns, StringSliceAdditionalSpecFns};
use crate::boot_validate::{blocks_for, image_len_error, strictly_decodes_block, DFIM_BLOCK_SIZE};
use crate::cli::hex::{all_hex, decode_hex_exact, hex_decodes_to, HexError};
use crate::error::DfimError;
use crate::integrity_gate::{assert_image_bounds, assert_target_path};
use crate::uefi::manifest::{build_boot_sidecar, image_root, is_sidecar_of, parse_boot_manifest};
use crate::uefi::pipeline::{law_built_sidecar_validates, validate_boot_image, validated_view};
use crate::uefi::rollback::build_rollback_baseline;
use crate::ecdsa::{
    p256_key_parses, p256_public_key_of, p256_signature_of, p256_signature_parses, p256_verifies,
};
use crate::uefi::signed_manifest::{
    backs_up_metadata, build_signed_boot_sidecar_v2, law_signed_image_validates,
    public_key_sec1_from_private, signed_validation_of, v2_body_of, validate_signed_boot_image_v2,
    TrustedManifestPolicy, ValidatedSignedBootImage,
};

verus! {

/// Why provisioning was refused.
#[derive(Debug, Clone, Copy, PartialEq, Eq)]
pub enum ProvisionError {
    /// The target file is empty.
    EmptyTarget,
    /// The release counter is zero.
    ZeroReleaseCounter,
    /// The minimum release of a trust policy is zero.
    ZeroMinimumRelease,
    /// A trust-policy public key is not a compressed SEC1 point.
    UncompressedPublicKey,
    /// Hexadecimal key material was refused.
    Hex(HexError),
    /// The integrity pipeline refused.
    Pipeline(DfimError),
}

/// A sidecar built for an image, with what its self-check established.
pub struct ProvisionedSidecar {
    pub sidecar: Vec<u8>,
    pub merkle_root: [u8; 32],
    pub block_count: usize,
    pub release_counter: Option<u64>,
    pub key_id: Option<[u8; 16]>,
}

/// The path-length gate that every command applies to its target first.
pub fn run_integrity_gates(target_path_len: usize) -> (res: Result<(), DfimError>)
    ensures
        res is Ok <==> (0 < target_path_len <= u32::MAX),
        target_path_len == 0 ==> res == Err::<(), DfimError>(DfimError::InvalidParameter),
        target_path_len > u32::MAX ==> res == Err::<(), DfimError>(DfimError::ParameterOverflow),
{
    assert_target_path(target_path_len)
}

/// Parses a sidecar built for `image` and validates `image` against it; this never fails.
fn validate_built_sidecar(image: &[u8], sidecar: &Vec<u8>) -> (root: [u8; 32])
    requires
        image_len_error(image@.len() as usize) is None,
        exists|fec: Seq<u8>| #[trigger] is_sidecar_of(image@, fec, sidecar@),
    ensures
        root@ == image_root(image@),
{
    let _n = image.len();
    let _m = sidecar.len();
    let ghost fec = choose|fec: Seq<u8>| #[trigger] is_sidecar_of(image@, fec, sidecar@);
    let manifest = match parse_boot_manifest(sidecar.as_slice()) {
        Ok(m) => m,
        Err(e) => {
            proof {
                law_built_sidecar_validates(image@, fec, sidecar@, arbitrary(), Seq::empty());
            }
            return [0u8; 32];
        },
    };
    let validated = validate_boot_image(image, &manifest);
    proof {
        law_built_sidecar_validates(image@, fec, sidecar@, manifest, Seq::empty());
        let d = choose|d: Seq<u8>| #[trigger] strictly_decodes_block(manifest.fec_backup@, d)
            && validated_view(validated, image@) == crate::uefi::pipeline::pipeline_outcome(image@, manifest, d);
        law_built_sidecar_validates(image@, fec, sidecar@, manifest, d);
    }
    match validated {
        Ok(v) => v.merkle_root,
        Err(e) => [0u8; 32],
    }
}

/// Builds the sidecar of an image and validates the image against it. A non-empty image
/// within the size bound is always provisioned, with its own Merkle root.
pub fn provision_sidecar(image: &[u8]) -> (res: Result<ProvisionedSidecar, ProvisionError>)
    ensures
        image@.len() == 0 ==> res == Err::<ProvisionedSidecar, ProvisionError>(ProvisionError::EmptyTarget),
        image@.len() > 0 ==> match image_len_error(image@.len() as usize) {
            Some(e) => res == Err::<ProvisionedSidecar, ProvisionError>(ProvisionError::Pipeline(e)),
            None => res is Ok,
        },
        res matches Ok(p) ==> (exists|fec: Seq<u8>| #[trigger] is_sidecar_of(image@, fec, p.sidecar@))
            && p.merkle_root@ == image_root(image@) && p.block_count == blocks_for(image@.len() as int)
            && p.release_counter is None && p.key_id is None,
{
    if image.len() == 0 {
        return Err(ProvisionError::EmptyTarget);
    }
    match assert_image_bounds(image.len()) {
        Ok(()) => {},
        Err(e) => {
            return Err(ProvisionError::Pipeline(e));
        },
    }
    let sidecar = match build_boot_sidecar(image) {
        Ok(s) => s,
        Err(e) => {
            return Err(ProvisionError::Pipeline(e));
        },
    };
    let ghost fec = choose|fec: Seq<u8>| #[trigger] is_sidecar_of(image@, fec, sidecar@);
    assert(is_sidecar_of(image@, fec, sidecar@));
    let merkle_root = validate_built_sidecar(image, &sidecar);
    let n = image.len();
    let block_count = n / DFIM_BLOCK_SIZE + if n % DFIM_BLOCK_SIZE == 0 { 0 } else { 1 };
    assert(block_count == blocks_for(n as int));
    let provisioned = ProvisionedSidecar { sidecar, merkle_root, block_count, release_counter: None, key_id: None };
    assert(is_sidecar_of(image@, fec, provisioned.sidecar@));
    Ok(provisioned)
}

/// A signed sidecar that the builder made for an image, checked under the signer's own key,
/// key id and release counter, validates the image.
proof fn lemma_signed_provision_validates(
    image: Seq<u8>,
    private_key: Seq<u8>,
    key_id: Seq<u8>,
    release: u64,
    built: Result<Vec<u8>, DfimError>,
    sidecar: Seq<u8>,
    policy: TrustedManifestPolicy,
    checked: Result<ValidatedSignedBootImage, DfimError>,
)
    requires
        image.len() <= usize::MAX,
        image_len_error(image.len() as usize) is None,
        key_id.len() == 16,
        release != 0,
        sidecar.len() <= usize::MAX,
        p256_public_key_of(private_key) is Some,
        policy.public_key_sec1@ == p256_public_key_of(private_key)->Some_0,
        p256_key_parses(policy.public_key_sec1@),
        policy.expected_key_id@ == key_id,
        policy.minimum_release == release,
        exists|fec: Seq<u8>| #[trigger] backs_up_metadata(image, fec) && match p256_signature_of(
            private_key,
            v2_body_of(image, key_id, release, fec),
        ) {
            None => built == Err::<Vec<u8>, DfimError>(DfimError::InvalidParameter),
            Some(sig) => {
                &&& built matches Ok(blob) && blob@ == v2_body_of(image, key_id, release, fec) + sig@
                &&& p256_signature_parses(sig@)
                &&& p256_verifies(
                    p256_public_key_of(private_key)->Some_0,
                    v2_body_of(image, key_id, release, fec),
                    sig@,
                )
            },
        },
        built matches Ok(blob) && blob@ == sidecar,
        signed_validation_of(image, sidecar, policy, checked),
    ensures
        checked matches Ok(v) && v.boot.merkle_root@ == image_root(image),
{
    let fec = choose|fec: Seq<u8>| #[trigger] backs_up_metadata(image, fec) && match p256_signature_of(
        private_key,
        v2_body_of(image, key_id, release, fec),
    ) {
        None => built == Err::<Vec<u8>, DfimError>(DfimError::InvalidParameter),
        Some(sig) => {
            &&& built matches Ok(blob) && blob@ == v2_body_of(image, key_id, release, fec) + sig@
            &&& p256_signature_parses(sig@)
            &&& p256_verifies(
                p256_public_key_of(private_key)->Some_0,
                v2_body_of(image, key_id, release, fec),
                sig@,
            )
        },
    };
    let sig = p256_signature_of(private_key, v2_body_of(image, key_id, release, fec))->Some_0;
    law_signed_image_validates(image, key_id, release, fec, sig, policy, checked);
}

/// `sidecar` is the signed sidecar of `image` under the private key, key id and release
/// counter: the signed body over the image's metadata backup, followed by the deterministic
/// signature of that body.
pub open spec fn signed_sidecar_of(image: Seq<u8>, private_key: Seq<u8>, key_id: Seq<u8>, release: u64, sidecar: Seq<u8>) -> bool {
    exists|fec: Seq<u8>|
        #[trigger] backs_up_metadata(image, fec) && (p256_signature_of(
            private_key,
            v2_body_of(image, key_id, release, fec),
        ) matches Some(sig) && sidecar == v2_body_of(image, key_id, release, fec) + sig@)
}

/// Validates an image against the signed sidecar built for it, under the signer's own key,
/// key id and release counter; gives the validated root.
#[verifier::spinoff_prover]
fn check_own_sidecar(
    image: &[u8],
    sidecar: &Vec<u8>,
    public_key_sec1: [u8; 33],
    key_id: [u8; 16],
    release_counter: u64,
    Ghost(private_key): Ghost<Seq<u8>>,
    Ghost(built): Ghost<Result<Vec<u8>, DfimError>>,
) -> (root: Result<[u8; 32], DfimError>)
    requires
        image_len_error(image@.len() as usize) is None,
        release_counter != 0,
        p256_public_key_of(private_key) == Some(public_key_sec1@),
        p256_key_parses(public_key_sec1@),
        exists|fec: Seq<u8>| #[trigger] backs_up_metadata(image@, fec) && match p256_signature_of(
            private_key,
            v2_body_of(image@, key_id@, release_counter, fec),
        ) {
            None => built == Err::<Vec<u8>, DfimError>(DfimError::InvalidParameter),
            Some(sig) => {
                &&& built matches Ok(blob) && blob@ == v2_body_of(image@, key_id@, release_counter, fec) + sig@
                &&& p256_signature_parses(sig@)
                &&& p256_verifies(
                    p256_public_key_of(private_key)->Some_0,
                    v2_body_of(image@, key_id@, release_counter, fec),
                    sig@,
                )
            },
        },
        built matches Ok(blob) && blob@ == sidecar@,
    ensures
        root matches Ok(r) && r@ == image_root(image@),
{
    let _n = image.len();
    let _m = sidecar.len();
    let policy = TrustedManifestPolicy { public_key_sec1, expected_key_id: key_id, minimum_release: release_counter };
    let checked = validate_signed_boot_image_v2(image, sidecar.as_slice(), &policy);
    proof {
        lemma_signed_provision_validates(
            image@,
            private_key,
            key_id@,
            release_counter,
            built,
            sidecar@,
            policy,
            checked,
        );
    }
    match checked {
        Ok(v) => Ok(v.boot.merkle_root),
        Err(e) => Err(e),
    }
}

/// Builds and signs the sidecar of an image, then validates the image against it under the
/// signer's own key, key id and release counter; gives the sidecar and the validated root.
fn sign_and_check(image: &[u8], private_key: &[u8; 32], key_id: [u8; 16], release_counter: u64) -> (res: Result<
    (Vec<u8>, [u8; 32]),
    DfimError,
>)
    requires
        image_len_error(image@.len() as usize) is None,
        release_counter != 0,
    ensures
        p256_public_key_of(private_key@) is Some ==> (res matches Ok((_, root)) && root@ == image_root(image@)),
        res matches Ok((sidecar, _)) ==> signed_sidecar_of(image@, private_key@, key_id@, release_counter, sidecar@),
        p256_public_key_of(private_key@) is None ==> res == Err::<(Vec<u8>, [u8; 32]), DfimError>(
            DfimError::InvalidParameter,
        ),
{
    let public_key_sec1 = match public_key_sec1_from_private(private_key) {
        Ok(k) => k,
        Err(e) => {
            return Err(e);
        },
    };
    let built = build_signed_boot_sidecar_v2(image, private_key, key_id, release_counter);
    let ghost built_view = built;
    let sidecar = match built {
        Ok(s) => s,
        Err(e) => {
            return Err(e);
        },
    };
    match check_own_sidecar(
        image,
        &sidecar,
        public_key_sec1,
        key_id,
        release_counter,
        Ghost(private_key@),
        Ghost(built_view),
    ) {
        Ok(root) => Ok((sidecar, root)),
        Err(e) => Err(e),
    }
}

/// Builds and signs the sidecar of an image, then validates the image against it under the
/// signer's own trust policy.
#[verifier::spinoff_prover]
#[verifier::rlimit(80)]
pub fn provision_signed_sidecar(
    image: &[u8],
    private_key: &[u8; 32],
    key_id_hex: &str,
    release_counter: u64,
) -> (res: Result<ProvisionedSidecar, ProvisionError>)
    ensures
        release_counter == 0 ==> res == Err::<ProvisionedSidecar, ProvisionError>(
            ProvisionError::ZeroReleaseCounter,
        ),
        release_counter != 0 ==> match image_len_error(image@.len() as usize) {
            Some(e) => res == Err::<ProvisionedSidecar, ProvisionError>(ProvisionError::Pipeline(e)),
            None => key_id_hex.spec_bytes().len() != 32 ==> res == Err::<ProvisionedSidecar, ProvisionError>(
                ProvisionError::Hex(HexError::WrongLength { expected_chars: 32 }),
            ),
        },
        res matches Ok(p) ==> p.release_counter == Some(release_counter) && p.block_count == blocks_for(
            image@.len() as int,
        ) && (p.key_id matches Some(k) && hex_decodes_to(key_id_hex.spec_bytes(), k@) && signed_sidecar_of(
            image@,
            private_key@,
            k@,
            release_counter,
            p.sidecar@,
        )),
        (release_counter != 0 && image_len_error(image@.len() as usize) is None && key_id_hex.spec_bytes().len()
            == 32 && all_hex(key_id_hex.spec_bytes()) && p256_public_key_of(private_key@) is Some) ==> (
        res matches Ok(p) && p.merkle_root@ == image_root(image@) && p.block_count == blocks_for(
            image@.len() as int,
        ) && p.release_counter == Some(release_counter) && (p.key_id matches Some(k) && hex_decodes_to(
            key_id_hex.spec_bytes(),
            k@,
        ))),
        p256_public_key_of(private_key@) is None && release_counter != 0 && image_len_error(
            image@.len() as usize,
        ) is None && key_id_hex.spec_bytes().len() == 32 && all_hex(key_id_hex.spec_bytes()) ==> res == Err::<
            ProvisionedSidecar,
            ProvisionError,
        >(ProvisionError::Pipeline(DfimError::InvalidParameter)),
{
    if release_counter == 0 {
        return Err(ProvisionError::ZeroReleaseCounter);
    }
    match assert_image_bounds(image.len()) {
        Ok(()) => {},
        Err(e) => {
            return Err(ProvisionError::Pipeline(e));
        },
    }
    let mut key_id = [0u8; 16];
    match decode_hex_exact(key_id_hex, &mut key_id) {
        Ok(()) => {},
        Err(e) => {
            return Err(ProvisionError::Hex(e));
        },
    }
    let (sidecar, merkle_root) = match sign_and_check(image, private_key, key_id, release_counter) {
        Ok(pair) => pair,
        Err(e) => {
            return Err(ProvisionError::Pipeline(e));
        },
    };
    let n = image.len();
    let block_count = n / DFIM_BLOCK_SIZE + if n % DFIM_BLOCK_SIZE == 0 { 0 } else { 1 };
    assert(block_count == blocks_for(n as int));
    Ok(ProvisionedSidecar {
        sidecar,
        merkle_root,
        block_count,
        release_counter: Some(release_counter),
        key_id: Some(key_id),
    })
}

/// A trust policy from hexadecimal public key and key id and a release floor.
pub fn parse_trusted_policy(public_key_hex: &str, key_id_hex: &str, minimum_release: u64) -> (res: Result<
    TrustedManifestPolicy,
    ProvisionError,
>)
    ensures
        minimum_release == 0 ==> res == Err::<TrustedManifestPolicy, ProvisionError>(
            ProvisionError::ZeroMinimumRelease,
        ),
        minimum_release != 0 && public_key_hex.spec_bytes().len() != 66 ==> res == Err::<
            TrustedManifestPolicy,
            ProvisionError,
        >(ProvisionError::Hex(HexError::WrongLength { expected_chars: 66 })),
        res matches Ok(p) ==> p.minimum_release == minimum_release && hex_decodes_to(
            public_key_hex.spec_bytes(),
            p.public_key_sec1@,
        ) && (p.public_key_sec1[0] == 2 || p.public_key_sec1[0] == 3) && hex_decodes_to(
            key_id_hex.spec_bytes(),
            p.expected_key_id@,
        ),
        minimum_release != 0 && public_key_hex.spec_bytes().len() == 66 && all_hex(public_key_hex.spec_bytes())
            && key_id_hex.spec_bytes().len() == 32 && all_hex(key_id_hex.spec_bytes()) ==> (res is Ok
            <==> exists|k: Seq<u8>| #[trigger] hex_decodes_to(public_key_hex.spec_bytes(), k) && (k[0] == 2
            || k[0] == 3)),
{
    if minimum_release == 0 {
        return Err(ProvisionError::ZeroMinimumRelease);
    }
    let mut public_key_sec1 = [0u8; 33];
    match decode_hex_exact(public_key_hex, &mut public_key_sec1) {
        Ok(()) => {},
        Err(e) => {
            return Err(ProvisionError::Hex(e));
        },
    }
    if public_key_sec1[0] != 0x02 && public_key_sec1[0] != 0x03 {
        proof {
            assert forall|k: Seq<u8>| #[trigger] hex_decodes_to(public_key_hex.spec_bytes(), k) implies !(k[0]
                == 2 || k[0] == 3) by {
                assert(k[0] == public_key_sec1@[0]);
            }
        }
        return Err(ProvisionError::UncompressedPublicKey);
    }
    let mut expected_key_id = [0u8; 16];
    match decode_hex_exact(key_id_hex, &mut expected_key_id) {
        Ok(()) => {},
        Err(e) => {
            return Err(ProvisionError::Hex(e));
        },
    }
    assert(hex_decodes_to(public_key_hex.spec_bytes(), public_key_sec1@));
    Ok(TrustedManifestPolicy { public_key_sec1, expected_key_id, minimum_release })
}

/// The rollback-baseline payload for a hexadecimal key id and a release floor.
pub fn rollback_payload(key_id_hex: &str, minimum_release: u64) -> (res: Result<[u8; 36], ProvisionError>)
    ensures
        key_id_hex.spec_bytes().len() != 32 ==> res == Err::<[u8; 36], ProvisionError>(
            ProvisionError::Hex(HexError::WrongLength { expected_chars: 32 }),
        ),
        key_id_hex.spec_bytes().len() == 32 && all_hex(key_id_hex.spec_bytes()) && minimum_release == 0
            ==> res == Err::<[u8; 36], ProvisionError>(ProvisionError::Pipeline(DfimError::InvalidParameter)),
{
    let mut key_id = [0u8; 16];
    match decode_hex_exact(key_id_hex, &mut key_id) {
        Ok(()) => {},
        Err(e) => {
            return Err(ProvisionError::Hex(e));
        },
    }
    match build_rollback_baseline(key_id, minimum_release) {
        Ok(p) => Ok(p),
        Err(e) => Err(ProvisionError::Pipeline(e)),
    }
}

/// Default sidecar location: the target path with `.dfim` appended.
pub fn default_sidecar_path(target: &str) -> (path: String)
    ensures
        path@ == target@ + ".dfim"@,
{
    let mut path = target.to_owned();
    path.append(".dfim");
    path
}

} // verus!
