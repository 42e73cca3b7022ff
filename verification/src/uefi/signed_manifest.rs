//! Signed sidecars (`DFIMBOOT` v2): ECDSA P-256 over the whole sidecar, an organisational key
//! id and a release counter that may not fall below the trusted floor.
//!
//! Header (little-endian): magic, version 2, header length 92, block size, block count,
//! release counter (`u64`), 16-byte key id, algorithm 1, signature length 64, Merkle root,
//! backup length. Then the Hamming backup, one proof per block, and the 64-byte signature.
use vstd::prelude::*;
use crate::boot_validate::{
    blocks_for, block_accepted, image_len_error, strictly_decodes_block, validate_block_count,
    validate_image_byte_len, DFIM_BLOCK_SIZE, MAX_BOOT_BLOCKS, MAX_PROOF_STEPS,
};
use crate::codec::{le_u32, le_u64, u32_le, u64_le, bytes_eq_at, read_le_u32_at, read_le_u64_at, copy_32, extend_bytes, push_u32_le, push_u64_le};
use crate::crypto::constant_time_hash_eq;
use crate::ecdsa::{
    p256_check, p256_key_parses, p256_public_key, p256_public_key_of, p256_sign, p256_signature_of,
    p256_signature_parses, p256_verifies, SignatureCheck,
};
use crate::error::DfimError;
use crate::hamming::{decode_block, encode_block, encodes_block};
use crate::merkle::{MerkleProof, MerkleTree, ProofStep, leaf_digests, proof_siblings, lemma_layers_determined, lemma_tree_height};
use crate::parser::{proofs_view, siblings_at};
use crate::state_db::boot_magic;
use crate::uefi::manifest::{BootManifest, MANIFEST_MAGIC, image_block_digests, image_proof_paths, image_root, metadata_bytes, partition_image_blocks, proof_records, flatten};
use crate::uefi::pipeline::{ValidatedBootImage, boot_validation_of, validate_boot_image};
use vstd::arithmetic::power2::lemma2_to64;

verus! {

/// Signed sidecar format version.
pub const SIGNED_MANIFEST_VERSION: u32 = 2;

/// Fixed P1363 ECDSA P-256 signature size.
pub const V2_SIGNATURE_LEN: usize = 64;

/// Compressed SEC1 P-256 public key size.
pub const V2_PUBLIC_KEY_LEN: usize = 33;

/// Organisational key identifier size.
pub const V2_KEY_ID_LEN: usize = 16;

/// ECDSA P-256 with SHA-256 algorithm identifier.
pub const V2_SIGNATURE_ALGORITHM: u32 = 1;

/// Fixed header size before the backup and proofs.
pub const V2_HEADER_LEN: usize = 92;

/// Offset of the signed Merkle root within the header.
pub const V2_MERKLE_ROOT_OFFSET: usize = 56;

/// Trust anchor and release floor required for verification.
#[derive(Clone, Copy, Debug, PartialEq, Eq)]
pub struct TrustedManifestPolicy {
    pub public_key_sec1: [u8; V2_PUBLIC_KEY_LEN],
    pub expected_key_id: [u8; V2_KEY_ID_LEN],
    pub minimum_release: u64,
}

/// Authenticated metadata, returned only once signature and rollback checks pass.
pub struct VerifiedBootManifest {
    pub manifest: BootManifest,
    pub release_counter: u64,
    pub key_id: [u8; V2_KEY_ID_LEN],
}

/// Authenticity, rollback and image validation, all passed.
pub struct ValidatedSignedBootImage {
    pub boot: ValidatedBootImage,
    pub release_counter: u64,
    pub key_id: [u8; V2_KEY_ID_LEN],
}

/// Derives the compressed public key for a deployment trust policy.
pub fn public_key_sec1_from_private(private_key: &[u8; 32]) -> (res: Result<[u8; V2_PUBLIC_KEY_LEN], DfimError>)
    ensures
        p256_public_key_of(private_key@) is None ==> res == Err::<[u8; 33], DfimError>(DfimError::InvalidParameter),
        p256_public_key_of(private_key@) matches Some(pk) ==> res matches Ok(k) && k@ == pk && p256_key_parses(k@),
{
    let bytes = match p256_public_key(private_key) {
        Some(b) => b,
        None => {
            return Err(DfimError::InvalidParameter);
        },
    };
    if bytes.len() != V2_PUBLIC_KEY_LEN {
        return Err(DfimError::IntegrityFailure);
    }
    let mut public_key = [0u8; 33];
    let mut i: usize = 0;
    while i < 33
        invariant
            i <= 33,
            bytes@.len() == 33,
            public_key@.len() == 33,
            forall|j: int| 0 <= j < i ==> public_key@[j] == bytes@[j],
        decreases 33 - i,
    {
        public_key[i] = bytes[i];
        i = i + 1;
    }
    assert(public_key@ =~= bytes@);
    Ok(public_key)
}

// ---------------------------------------------------------------------------------------------
// Parsing and verification.

/// The error, if any, that the fixed header draws under a policy: length, magic, version and
/// header length, block size and count, release floor, key id, algorithm and signature length.
pub open spec fn v2_header_error(data: Seq<u8>, policy: TrustedManifestPolicy) -> Option<DfimError> {
    if data.len() < 156 {
        Some(DfimError::BufferTooShort)
    } else if data.subrange(0, 8) != boot_magic() {
        Some(DfimError::IntegrityFailure)
    } else if le_u32(data.subrange(8, 12)) != 2 || le_u32(data.subrange(12, 16)) != 92 {
        Some(DfimError::InvalidParameter)
    } else if le_u32(data.subrange(16, 20)) != 4096 || le_u32(data.subrange(20, 24)) == 0 {
        Some(DfimError::InvalidParameter)
    } else if le_u32(data.subrange(20, 24)) > 64 {
        Some(DfimError::ParameterOverflow)
    } else if le_u64(data.subrange(24, 32)) < policy.minimum_release || le_u64(data.subrange(24, 32)) == 0 {
        Some(DfimError::IntegrityFailure)
    } else if data.subrange(32, 48) != policy.expected_key_id@ {
        Some(DfimError::IntegrityFailure)
    } else if le_u32(data.subrange(48, 52)) != 1 || le_u32(data.subrange(52, 56)) != 64 {
        Some(DfimError::InvalidParameter)
    } else {
        None
    }
}

/// The signed part of a sidecar: all but its last 64 bytes.
pub open spec fn v2_signed_part(data: Seq<u8>) -> Seq<u8> {
    data.subrange(0, data.len() - 64)
}

/// The error, if any, that the signature draws.
pub open spec fn v2_signature_error(data: Seq<u8>, policy: TrustedManifestPolicy) -> Option<DfimError> {
    let sig = data.subrange(data.len() - 64, data.len() as int);
    if !p256_key_parses(policy.public_key_sec1@) {
        Some(DfimError::InvalidParameter)
    } else if !p256_signature_parses(sig) {
        Some(DfimError::IntegrityFailure)
    } else if !p256_verifies(policy.public_key_sec1@, v2_signed_part(data), sig) {
        Some(DfimError::IntegrityFailure)
    } else {
        None
    }
}

/// Parses `count` proofs of the signed part from `off` on; they must end where it ends.
pub open spec fn v2_proofs_at(signed: Seq<u8>, off: nat, count: nat) -> Result<Seq<Seq<Seq<u8>>>, DfimError>
    decreases count,
{
    if count == 0 {
        if off == signed.len() {
            Ok(Seq::empty())
        } else {
            Err(DfimError::IntegrityFailure)
        }
    } else if off >= signed.len() {
        Err(DfimError::BufferTooShort)
    } else {
        let sc = signed[off as int] as nat;
        let end = off + 1 + 32 * sc;
        if sc > 16 {
            Err(DfimError::InvalidParameter)
        } else if signed.len() < end {
            Err(DfimError::BufferTooShort)
        } else {
            match v2_proofs_at(signed, end as nat, (count - 1) as nat) {
                Err(e) => Err(e),
                Ok(rest) => Ok(seq![siblings_at(signed, off + 1int, sc)] + rest),
            }
        }
    }
}

/// The backup and proofs carried by the signed part.
pub open spec fn v2_body_outcome(data: Seq<u8>) -> Result<(Seq<u8>, Seq<Seq<Seq<u8>>>), DfimError> {
    let signed = v2_signed_part(data);
    let fec_len = le_u32(data.subrange(88, 92));
    let fec_end = 92 + fec_len;
    if fec_end > usize::MAX {
        Err(DfimError::ParameterOverflow)
    } else if fec_end > signed.len() || fec_len == 0 || fec_len % 2 != 0 {
        Err(DfimError::BufferTooShort)
    } else {
        match v2_proofs_at(signed, fec_end as nat, le_u32(data.subrange(20, 24)) as nat) {
            Err(e) => Err(e),
            Ok(ps) => Ok((data.subrange(92, fec_end), ps)),
        }
    }
}

/// Everything checked before the backup is decoded: header, signature, body.
pub open spec fn v2_outcome(data: Seq<u8>, policy: TrustedManifestPolicy) -> Result<(Seq<u8>, Seq<Seq<Seq<u8>>>), DfimError> {
    match v2_header_error(data, policy) {
        Some(e) => Err(e),
        None => match v2_signature_error(data, policy) {
            Some(e) => Err(e),
            None => v2_body_outcome(data),
        },
    }
}

/// The decoded backup `d` names the signed root.
pub open spec fn v2_backup_matches(data: Seq<u8>, d: Seq<u8>) -> bool {
    d.len() >= 40 && d.subrange(0, 32) == data.subrange(56, 88)
}

/// `v` holds what verifying `data` under `policy` gave.
pub open spec fn v2_verified_as(data: Seq<u8>, policy: TrustedManifestPolicy, v: VerifiedBootManifest) -> bool {
    &&& v2_outcome(data, policy) == Ok::<(Seq<u8>, Seq<Seq<Seq<u8>>>), DfimError>(
        (v.manifest.fec_backup@, proofs_view(v.manifest.proofs@)),
    )
    &&& v.manifest.merkle_root@ == data.subrange(56, 88)
    &&& v.manifest.block_size == le_u32(data.subrange(16, 20))
    &&& v.manifest.block_count == le_u32(data.subrange(20, 24))
    &&& v.release_counter == le_u64(data.subrange(24, 32))
    &&& v.key_id@ == data.subrange(32, 48)
}

fn constant_time_key_id_eq(left: &[u8; V2_KEY_ID_LEN], right: &[u8; V2_KEY_ID_LEN]) -> (r: bool)
    ensures
        r == (left@ == right@),
{
    let mut difference: u8 = 0;
    let mut index: usize = 0;
    while index < V2_KEY_ID_LEN
        invariant
            index <= 16,
            (difference == 0) == (forall|j: int| 0 <= j < index ==> #[trigger] left@[j] == right@[j]),
        decreases 16 - index,
    {
        let a = left[index];
        let b = right[index];
        let ghost old_d = difference;
        difference = difference | (a ^ b);
        proof {
            assert((old_d | (a ^ b)) == 0 <==> (old_d == 0 && a == b)) by (bit_vector);
        }
        index = index + 1;
    }
    if difference == 0 {
        assert(left@ =~= right@);
    } else {
        proof {
            let j = choose|j: int| 0 <= j < 16 && #[trigger] left@[j] != right@[j];
            assert(left@[j] != right@[j]);
        }
    }
    difference == 0
}

/// Verifies signature, key identity, release floor and canonical encoding of a signed
/// sidecar, then checks that its Hamming backup names the signed root.
pub fn parse_and_verify_boot_sidecar_v2(data: &[u8], policy: &TrustedManifestPolicy) -> (res: Result<
    VerifiedBootManifest,
    DfimError,
>)
    ensures
        v2_outcome(data@, *policy) matches Err(e) ==> res == Err::<VerifiedBootManifest, DfimError>(e),
        v2_outcome(data@, *policy) matches Ok((fec, ps)) ==> {
            &&& !block_accepted(fec) ==> res == Err::<VerifiedBootManifest, DfimError>(
                DfimError::CorruptMetadata,
            )
            &&& block_accepted(fec) ==> exists|d: Seq<u8>|
                #[trigger] strictly_decodes_block(fec, d) && if v2_backup_matches(data@, d) {
                    res matches Ok(v) && v2_verified_as(data@, *policy, v)
                } else {
                    res == Err::<VerifiedBootManifest, DfimError>(DfimError::CorruptMetadata)
                }
        },
{
    let _n = data.len();
    if data.len() < 156 {
        return Err(DfimError::BufferTooShort);
    }
    assert(MANIFEST_MAGIC@ =~= boot_magic());
    if !bytes_eq_at(data, 0, &MANIFEST_MAGIC) {
        return Err(DfimError::IntegrityFailure);
    }
    if read_le_u32_at(data, 8) != SIGNED_MANIFEST_VERSION || read_le_u32_at(data, 12) as usize
        != V2_HEADER_LEN {
        return Err(DfimError::InvalidParameter);
    }
    let block_size = read_le_u32_at(data, 16);
    let block_count = read_le_u32_at(data, 20);
    if block_size as usize != DFIM_BLOCK_SIZE || block_count == 0 {
        return Err(DfimError::InvalidParameter);
    }
    validate_block_count(block_count)?;
    let release_counter = read_le_u64_at(data, 24);
    if release_counter < policy.minimum_release || release_counter == 0 {
        return Err(DfimError::IntegrityFailure);
    }
    let mut key_id = [0u8; 16];
    let mut k: usize = 0;
    while k < 16
        invariant
            k <= 16,
            data@.len() >= 156,
            key_id@.len() == 16,
            forall|j: int| 0 <= j < k ==> key_id@[j] == data@[32 + j],
        decreases 16 - k,
    {
        key_id[k] = data[32 + k];
        k = k + 1;
    }
    assert(key_id@ =~= data@.subrange(32, 48));
    if !constant_time_key_id_eq(&key_id, &policy.expected_key_id) {
        return Err(DfimError::IntegrityFailure);
    }
    if read_le_u32_at(data, 48) != V2_SIGNATURE_ALGORITHM || read_le_u32_at(data, 52) as usize
        != V2_SIGNATURE_LEN {
        return Err(DfimError::InvalidParameter);
    }
    let signed_end = data.len() - V2_SIGNATURE_LEN;
    let signed = &data[0..signed_end];
    let signature = &data[signed_end..data.len()];
    match p256_check(&policy.public_key_sec1, signed, signature) {
        SignatureCheck::KeyRejected => {
            return Err(DfimError::InvalidParameter);
        },
        SignatureCheck::SignatureMalformed => {
            return Err(DfimError::IntegrityFailure);
        },
        SignatureCheck::Invalid => {
            return Err(DfimError::IntegrityFailure);
        },
        SignatureCheck::Valid => {},
    }
    let merkle_root = copy_32(data, V2_MERKLE_ROOT_OFFSET);
    let fec_len = read_le_u32_at(data, 88) as usize;
    let fec_end = match V2_HEADER_LEN.checked_add(fec_len) {
        Some(e) => e,
        None => {
            return Err(DfimError::ParameterOverflow);
        },
    };
    if fec_end > signed_end || fec_len == 0 || fec_len % 2 != 0 {
        return Err(DfimError::BufferTooShort);
    }
    let mut fec_backup: Vec<u8> = Vec::new();
    extend_bytes(&mut fec_backup, &data[V2_HEADER_LEN..fec_end]);
    let ghost sp = v2_signed_part(data@);
    assert(sp =~= signed@);
    let mut proofs: Vec<MerkleProof> = Vec::new();
    let mut offset = fec_end;
    let mut i: u32 = 0;
    while i < block_count
        invariant
            data@.len() >= 156,
            data@.len() <= usize::MAX,
            signed_end == data@.len() - 64,
            sp == v2_signed_part(data@),
            sp.len() == signed_end,
            v2_header_error(data@, *policy) is None,
            v2_signature_error(data@, *policy) is None,
            fec_end == 92 + le_u32(data@.subrange(88, 92)),
            fec_end <= signed_end,
            le_u32(data@.subrange(88, 92)) != 0,
            le_u32(data@.subrange(88, 92)) % 2 == 0,
            block_count == le_u32(data@.subrange(20, 24)),
            i <= block_count,
            offset <= signed_end,
            v2_proofs_at(sp, fec_end as nat, block_count as nat) matches Ok(all) ==> {
                &&& v2_proofs_at(sp, offset as nat, (block_count - i) as nat) matches Ok(rest)
                &&& all == proofs_view(proofs@) + rest
            },
            v2_proofs_at(sp, fec_end as nat, block_count as nat) is Err ==> v2_proofs_at(
                sp,
                fec_end as nat,
                block_count as nat,
            ) == v2_proofs_at(sp, offset as nat, (block_count - i) as nat),
        decreases block_count - i,
    {
        if offset >= signed_end {
            assert(v2_proofs_at(sp, offset as nat, (block_count - i) as nat) == Err::<Seq<Seq<Seq<u8>>>, DfimError>(DfimError::BufferTooShort));
            return Err(DfimError::BufferTooShort);
        }
        let step_count = data[offset] as usize;
        assert(sp[offset as int] == data@[offset as int]);
        let start = offset + 1;
        if step_count > MAX_PROOF_STEPS {
            assert(v2_proofs_at(sp, offset as nat, (block_count - i) as nat) == Err::<Seq<Seq<Seq<u8>>>, DfimError>(DfimError::InvalidParameter));
            return Err(DfimError::InvalidParameter);
        }
        let mut steps: Vec<ProofStep> = Vec::new();
        let mut cur = start;
        let mut s: usize = 0;
        while s < step_count
            invariant
                s <= step_count <= 16,
                start == offset + 1,
                offset < signed_end,
                signed_end == data@.len() - 64,
                data@.len() <= usize::MAX,
                data@.len() >= 156,
                sp == v2_signed_part(data@),
                sp.len() == signed_end,
                step_count == sp[offset as int],
                v2_header_error(data@, *policy) is None,
                v2_signature_error(data@, *policy) is None,
                fec_end == 92 + le_u32(data@.subrange(88, 92)),
                fec_end <= signed_end,
                le_u32(data@.subrange(88, 92)) != 0,
                le_u32(data@.subrange(88, 92)) % 2 == 0,
                block_count == le_u32(data@.subrange(20, 24)),
                i < block_count,
                v2_proofs_at(sp, fec_end as nat, block_count as nat) matches Ok(all) ==> {
                    &&& v2_proofs_at(sp, offset as nat, (block_count - i) as nat) matches Ok(rest)
                    &&& all == proofs_view(proofs@) + rest
                },
                v2_proofs_at(sp, fec_end as nat, block_count as nat) is Err ==> v2_proofs_at(
                    sp,
                    fec_end as nat,
                    block_count as nat,
                ) == v2_proofs_at(sp, offset as nat, (block_count - i) as nat),
                cur == start + 32 * s,
                cur <= signed_end,
                steps@.len() == s,
                forall|j: int|
                    0 <= j < s ==> #[trigger] steps@[j].sibling@ == data@.subrange(
                        start + 32 * j,
                        start + 32 * j + 32,
                    ),
            decreases step_count - s,
        {
            let end = cur + 32;
            if end > signed_end {
                proof {
                    assert(start + 32 * step_count > signed_end);
                    assert(v2_proofs_at(sp, offset as nat, (block_count - i) as nat) == Err::<Seq<Seq<Seq<u8>>>, DfimError>(DfimError::BufferTooShort));
                }
                return Err(DfimError::BufferTooShort);
            }
            let sibling = copy_32(data, cur);
            assert(sibling@ == data@.subrange(start + 32 * s, start + 32 * s + 32));
            let ghost old_steps = steps@;
            steps.push(ProofStep { sibling });
            proof {
                assert(steps@[s as int].sibling == sibling);
                assert forall|j: int| 0 <= j < s + 1 implies #[trigger] steps@[j].sibling@ == data@.subrange(
                    start + 32 * j,
                    start + 32 * j + 32,
                ) by {
                    if j < s {
                        assert(steps@[j] == old_steps[j]);
                        assert(old_steps[j].sibling@ == data@.subrange(start + 32 * j, start + 32 * j + 32));
                    } else {
                        assert(j == s);
                    }
                }
            }
            cur = end;
            s = s + 1;
        }
        let p = MerkleProof { steps };
        let ghost before = proofs_view(proofs@);
        proofs.push(p);
        proof {
            let sibs = siblings_at(sp, start as int, step_count as nat);
            assert forall|j: int| 0 <= j < step_count implies #[trigger] sibs[j] == data@.subrange(start + 32 * j, start + 32 * j + 32) by {
                assert(sp.subrange(start + 32 * j, start + 32 * j + 32) =~= data@.subrange(start + 32 * j, start + 32 * j + 32));
            }
            assert(proofs_view(proofs@)[before.len() as int] =~= sibs);
            assert(proofs_view(proofs@) =~= before + seq![sibs]);
            if let Ok(all) = v2_proofs_at(sp, fec_end as nat, block_count as nat) {
                let rest = v2_proofs_at(sp, offset as nat, (block_count - i) as nat)->Ok_0;
                let rest2 = v2_proofs_at(sp, cur as nat, (block_count - i - 1) as nat)->Ok_0;
                assert(rest == seq![sibs] + rest2);
                assert(all =~= proofs_view(proofs@) + rest2);
            }
        }
        offset = cur;
        i = i + 1;
    }
    if offset != signed_end {
        return Err(DfimError::IntegrityFailure);
    }
    proof {
        if let Ok(all) = v2_proofs_at(sp, fec_end as nat, block_count as nat) {
            assert(all =~= proofs_view(proofs@));
        }
        assert(fec_backup@ =~= data@.subrange(92, fec_end as int));
    }
    let manifest = BootManifest { merkle_root, block_size, block_count, fec_backup, proofs };
    let decoded = decode_block(manifest.fec_backup.as_slice())?;
    let ghost d = decoded@;
    assert(strictly_decodes_block(manifest.fec_backup@, d));
    if decoded.len() < 40 {
        return Err(DfimError::CorruptMetadata);
    }
    let decoded_root = copy_32(decoded.as_slice(), 0);
    if !constant_time_hash_eq(&manifest.merkle_root, &decoded_root) {
        return Err(DfimError::CorruptMetadata);
    }
    Ok(VerifiedBootManifest { manifest, release_counter, key_id })
}

/// Enforces every trust gate before handing out the executable payload: signed sidecar,
/// rollback floor, then image validation.
pub fn validate_signed_boot_image_v2(image: &[u8], sidecar: &[u8], policy: &TrustedManifestPolicy) -> (res: Result<
    ValidatedSignedBootImage,
    DfimError,
>)
    ensures
        signed_validation_of(image@, sidecar@, *policy, res),
        res matches Ok(v) ==> exists|m: VerifiedBootManifest| #[trigger] v2_verified_as(sidecar@, *policy, m)
            && v.release_counter == m.release_counter && v.key_id == m.key_id,
        v2_outcome(sidecar@, *policy) matches Err(e) ==> res == Err::<ValidatedSignedBootImage, DfimError>(e),
{
    let verified = parse_and_verify_boot_sidecar_v2(sidecar, policy)?;
    let boot = validate_boot_image(image, &verified.manifest);
    let res = match boot {
        Ok(b) => Ok(ValidatedSignedBootImage { boot: b, release_counter: verified.release_counter, key_id: verified.key_id }),
        Err(e) => Err(e),
    };
    assert(v2_verified_as(sidecar@, *policy, verified));
    assert(boot_part(res) == boot);
    res
}

/// The image-validation part of a signed validation result.
pub open spec fn boot_part(res: Result<ValidatedSignedBootImage, DfimError>) -> Result<ValidatedBootImage, DfimError> {
    match res {
        Ok(v) => Ok(v.boot),
        Err(e) => Err(e),
    }
}

/// `res` is what validating `image` against the signed sidecar `sidecar` under `policy`
/// gives: the sidecar's own refusal, or, once the sidecar verifies, the validation of the
/// image against the verified manifest, carrying the manifest's release counter and key id.
pub open spec fn signed_validation_of(
    image: Seq<u8>,
    sidecar: Seq<u8>,
    policy: TrustedManifestPolicy,
    res: Result<ValidatedSignedBootImage, DfimError>,
) -> bool {
    match v2_outcome(sidecar, policy) {
        Err(e) => res == Err::<ValidatedSignedBootImage, DfimError>(e),
        Ok((fec, _ps)) => if !block_accepted(fec) {
            res == Err::<ValidatedSignedBootImage, DfimError>(DfimError::CorruptMetadata)
        } else {
            exists|d: Seq<u8>|
                #[trigger] strictly_decodes_block(fec, d) && if v2_backup_matches(sidecar, d) {
                    exists|m: VerifiedBootManifest|
                        #[trigger] v2_verified_as(sidecar, policy, m) && boot_validation_of(
                            image,
                            m.manifest,
                            boot_part(res),
                        ) && (res matches Ok(v) ==> v.release_counter == m.release_counter && v.key_id
                            == m.key_id)
                } else {
                    res == Err::<ValidatedSignedBootImage, DfimError>(DfimError::CorruptMetadata)
                }
        },
    }
}

// ---------------------------------------------------------------------------------------------
// Building.

/// The header and Hamming backup of a signed sidecar.
pub open spec fn v2_head_bytes(
    root: Seq<u8>,
    block_count: u32,
    release: u64,
    key_id: Seq<u8>,
    fec: Seq<u8>,
) -> Seq<u8> {
    boot_magic() + u32_le(2) + u32_le(92) + u32_le(4096) + u32_le(block_count) + u64_le(release)
        + key_id + u32_le(1) + u32_le(64) + root + u32_le(fec.len() as u32) + fec
}

/// The unsigned bytes of a signed sidecar.
pub open spec fn v2_unsigned_bytes(
    root: Seq<u8>,
    block_count: u32,
    release: u64,
    key_id: Seq<u8>,
    fec: Seq<u8>,
    ps: Seq<Seq<Seq<u8>>>,
) -> Seq<u8> {
    v2_head_bytes(root, block_count, release, key_id, fec) + proof_records(ps)
}

/// The unsigned bytes of the signed sidecar of `image`, with Hamming backup `fec`.
pub open spec fn v2_body_of(image: Seq<u8>, key_id: Seq<u8>, release: u64, fec: Seq<u8>) -> Seq<u8> {
    v2_unsigned_bytes(
        image_root(image),
        blocks_for(image.len() as int) as u32,
        release,
        key_id,
        fec,
        image_proof_paths(image),
    )
}

/// `fec` is the Hamming backup of an image's metadata.
pub open spec fn backs_up_metadata(image: Seq<u8>, fec: Seq<u8>) -> bool {
    encodes_block(metadata_bytes(image_root(image), blocks_for(image.len() as int) as u32), fec)
}

/// Builds and deterministically signs the signed sidecar of a bootloader image.
pub fn build_signed_boot_sidecar_v2(
    image: &[u8],
    private_key: &[u8; 32],
    key_id: [u8; V2_KEY_ID_LEN],
    release_counter: u64,
) -> (res: Result<Vec<u8>, DfimError>)
    ensures
        image_len_error(image@.len() as usize) matches Some(e) ==> res == Err::<Vec<u8>, DfimError>(e),
        image_len_error(image@.len() as usize) is None && release_counter == 0 ==> res == Err::<
            Vec<u8>,
            DfimError,
        >(DfimError::InvalidParameter),
        image_len_error(image@.len() as usize) is None && release_counter != 0 ==> (res is Ok
            <==> p256_public_key_of(private_key@) is Some),
        image_len_error(image@.len() as usize) is None && release_counter != 0 ==> exists|fec: Seq<u8>|
            #[trigger] backs_up_metadata(image@, fec) && match p256_signature_of(
                private_key@,
                v2_body_of(image@, key_id@, release_counter, fec),
            ) {
                None => res == Err::<Vec<u8>, DfimError>(DfimError::InvalidParameter),
                Some(sig) => {
                    &&& res matches Ok(blob) && blob@ == v2_body_of(image@, key_id@, release_counter, fec) + sig@
                    &&& p256_signature_parses(sig@)
                    &&& p256_verifies(
                        p256_public_key_of(private_key@)->Some_0,
                        v2_body_of(image@, key_id@, release_counter, fec),
                        sig@,
                    )
                },
            },
{
    validate_image_byte_len(image.len())?;
    if release_counter == 0 {
        return Err(DfimError::InvalidParameter);
    }
    let blocks = partition_image_blocks(image, DFIM_BLOCK_SIZE)?;
    let block_count = blocks.len() as u32;
    let ghost n = blocks@.len();
    let mut refs: Vec<&[u8]> = Vec::new();
    let mut i: usize = 0;
    while i < blocks.len()
        invariant
            n == blocks@.len() <= MAX_BOOT_BLOCKS,
            i <= n,
            refs@.len() == i,
            forall|j: int| 0 <= j < i ==> #[trigger] refs@[j]@ == blocks@[j]@,
        decreases n - i,
    {
        refs.push(blocks[i].as_slice());
        i = i + 1;
    }
    let ghost digests = image_block_digests(image@);
    assert(leaf_digests(refs@) =~= digests);
    let tree = match MerkleTree::build(refs.as_slice()) {
        Ok(t) => t,
        Err(e) => {
            return Err(e);
        },
    };
    let root = *tree.root();
    let ghost layers = tree.layers_view();
    proof {
        lemma_layers_determined(layers, 0);
        assert(layers.subrange(0, layers.len() as int) =~= layers);
        lemma2_to64();
        lemma_tree_height(digests, 6);
    }
    let mut metadata: Vec<u8> = Vec::new();
    extend_bytes(&mut metadata, &root);
    push_u32_le(&mut metadata, DFIM_BLOCK_SIZE as u32);
    push_u32_le(&mut metadata, block_count);
    assert(metadata@ == metadata_bytes(image_root(image@), block_count));
    let fec_backup = match encode_block(metadata.as_slice()) {
        Ok(f) => f,
        Err(e) => {
            return Err(e);
        },
    };
    assert(backs_up_metadata(image@, fec_backup@));
    let mut blob: Vec<u8> = Vec::new();
    extend_bytes(&mut blob, &MANIFEST_MAGIC);
    push_u32_le(&mut blob, SIGNED_MANIFEST_VERSION);
    push_u32_le(&mut blob, V2_HEADER_LEN as u32);
    push_u32_le(&mut blob, DFIM_BLOCK_SIZE as u32);
    push_u32_le(&mut blob, block_count);
    push_u64_le(&mut blob, release_counter);
    extend_bytes(&mut blob, &key_id);
    push_u32_le(&mut blob, V2_SIGNATURE_ALGORITHM);
    push_u32_le(&mut blob, V2_SIGNATURE_LEN as u32);
    extend_bytes(&mut blob, &root);
    push_u32_le(&mut blob, fec_backup.len() as u32);
    extend_bytes(&mut blob, fec_backup.as_slice());
    let ghost prefix = blob@;
    assert(MANIFEST_MAGIC@ =~= boot_magic());
    let ghost paths = image_proof_paths(image@);
    assert(prefix + proof_records(paths.subrange(0, 0)) =~= prefix);
    let mut index: usize = 0;
    while index < blocks.len()
        invariant
            n == blocks@.len() <= MAX_BOOT_BLOCKS,
            tree.wf(),
            tree.leaf_hashes() == digests,
            layers == tree.layers_view(),
            layers == crate::merkle::tree_layers(digests),
            crate::merkle::tree_layers(digests).len() <= 7,
            digests.len() == n,
            digests == image_block_digests(image@),
            paths == image_proof_paths(image@),
            paths.len() == n,
            index <= n,
            blob@ == prefix + proof_records(paths.subrange(0, index as int)),
        decreases n - index,
    {
        let proof = match tree.prove(index) {
            Ok(p) => p,
            Err(e) => {
                return Err(e);
            },
        };
        assert(paths[index as int] == crate::merkle::proof_path(crate::merkle::tree_layers(digests), index as nat));
        assert(proof_siblings(proof) == paths[index as int]);
        if proof.steps.len() > MAX_PROOF_STEPS {
            return Err(DfimError::InvalidParameter);
        }
        let ghost before = blob@;
        blob.push(proof.steps.len() as u8);
        let ghost sibs = paths[index as int];
        let mut k: usize = 0;
        assert(sibs.subrange(0, 0) =~= Seq::<Seq<u8>>::empty());
        while k < proof.steps.len()
            invariant
                sibs == proof_siblings(proof),
                k <= proof.steps@.len(),
                sibs.len() == proof.steps@.len(),
                blob@ == before + seq![sibs.len() as u8] + flatten(sibs.subrange(0, k as int)),
            decreases proof.steps@.len() - k,
        {
            let sibling = proof.steps[k].sibling;
            assert(sibling@ == sibs[k as int]);
            let ghost mid = blob@;
            extend_bytes(&mut blob, &sibling);
            proof {
                assert(sibs.subrange(0, k + 1) =~= sibs.subrange(0, k as int).push(sibs[k as int]));
                crate::uefi::manifest::lemma_flatten_push_public(sibs.subrange(0, k as int), sibs[k as int]);
                assert(blob@ =~= before + seq![sibs.len() as u8] + flatten(sibs.subrange(0, k + 1)));
            }
            k = k + 1;
        }
        proof {
            assert(sibs.subrange(0, k as int) =~= sibs);
            assert(paths.subrange(0, index + 1) =~= paths.subrange(0, index as int).push(sibs));
            crate::uefi::manifest::lemma_records_push_public(paths.subrange(0, index as int), sibs);
            assert(blob@ =~= prefix + proof_records(paths.subrange(0, index + 1)));
        }
        index = index + 1;
    }
    assert(paths.subrange(0, index as int) =~= paths);
    let ghost body = blob@;
    assert(body == v2_body_of(image@, key_id@, release_counter, fec_backup@));
    let signature = match p256_sign(private_key, blob.as_slice()) {
        Some(sig) => sig,
        None => {
            return Err(DfimError::InvalidParameter);
        },
    };
    extend_bytes(&mut blob, &signature);
    Ok(blob)
}

proof fn lemma_v2_proofs_at_records(pre: Seq<u8>, ps: Seq<Seq<Seq<u8>>>, data: Seq<u8>)
    requires
        data == pre + proof_records(ps),
        crate::uefi::manifest::proofs_well_shaped(ps),
    ensures
        v2_proofs_at(data, pre.len(), ps.len()) == Ok::<Seq<Seq<Seq<u8>>>, DfimError>(ps),
    decreases ps.len(),
{
    if ps.len() == 0 {
        assert(data =~= pre);
        assert(ps =~= Seq::<Seq<Seq<u8>>>::empty());
    } else {
        let p0 = ps[0];
        let rest = ps.drop_first();
        assert(ps[0].len() <= MAX_PROOF_STEPS);
        assert forall|k: int| 0 <= k < p0.len() implies #[trigger] p0[k].len() == 32 by {
            assert(ps[0][k].len() == 32);
        }
        crate::uefi::manifest::lemma_flatten_shape(p0);
        let rec = crate::uefi::manifest::proof_record(p0);
        let pre2 = pre + rec;
        assert(data =~= pre2 + proof_records(rest));
        let off = pre.len();
        assert(data[off as int] == rec[0]);
        let sc = p0.len();
        assert(off + 1 + 32 * sc == pre2.len());
        assert forall|k: int| 0 <= k < sc implies #[trigger] siblings_at(data, off + 1int, sc)[k]
            == p0[k] by {
            crate::uefi::manifest::lemma_flatten_shape_slot(p0, k);
            assert(data.subrange(off + 1 + 32 * k, off + 1 + 32 * k + 32) =~= flatten(p0).subrange(
                32 * k,
                32 * k + 32,
            ));
        }
        assert(siblings_at(data, off + 1int, sc) =~= p0);
        assert forall|i: int| 0 <= i < rest.len() implies #[trigger] rest[i].len()
            <= MAX_PROOF_STEPS && forall|k: int|
            0 <= k < rest[i].len() ==> #[trigger] rest[i][k].len() == 32 by {
            assert(rest[i] == ps[i + 1]);
        }
        lemma_v2_proofs_at_records(pre2, rest, data);
        assert(seq![p0] + rest =~= ps);
    }
}

proof fn lemma_v2_layout(
    root: Seq<u8>,
    n: u32,
    release: u64,
    key_id: Seq<u8>,
    fec: Seq<u8>,
    paths: Seq<Seq<Seq<u8>>>,
    sig: [u8; 64],
    policy: TrustedManifestPolicy,
)
    requires
        key_id.len() == 16,
        release != 0,
        fec.len() == 80,
        root.len() == 32,
        1 <= n <= 64,
        p256_key_parses(policy.public_key_sec1@),
        p256_signature_parses(sig@),
        p256_verifies(policy.public_key_sec1@, v2_unsigned_bytes(root, n, release, key_id, fec, paths), sig@),
        policy.expected_key_id@ == key_id,
        policy.minimum_release <= release,
    ensures
        ({
            let body = v2_unsigned_bytes(root, n, release, key_id, fec, paths);
            let blob = body + sig@;
            &&& v2_header_error(blob, policy) is None
            &&& v2_signature_error(blob, policy) is None
            &&& v2_signed_part(blob) == body
            &&& blob.subrange(88, 92) == u32_le(fec.len() as u32)
            &&& blob.subrange(92, 172) == fec
            &&& blob.subrange(56, 88) == root
            &&& blob.subrange(20, 24) == u32_le(n)
            &&& blob.subrange(16, 20) == u32_le(4096)
            &&& blob.subrange(24, 32) == u64_le(release)
            &&& blob.subrange(32, 48) == key_id
            &&& v2_head_bytes(root, n, release, key_id, fec).len() == 172
        }),
{
    let body = v2_unsigned_bytes(root, n, release, key_id, fec, paths);
    let blob = body + sig@;
    let head = v2_head_bytes(root, n, release, key_id, fec);
    crate::codec::lemma_u32_le_round_trip(2);
    crate::codec::lemma_u32_le_round_trip(92);
    crate::codec::lemma_u32_le_round_trip(4096);
    crate::codec::lemma_u32_le_round_trip(n);
    crate::codec::lemma_u32_le_round_trip(1);
    crate::codec::lemma_u32_le_round_trip(64);
    crate::codec::lemma_u64_le_round_trip(release);
    assert(head.len() == 172);
    assert(blob.subrange(0, 8) =~= boot_magic());
    assert(blob.subrange(8, 12) =~= u32_le(2));
    assert(blob.subrange(12, 16) =~= u32_le(92));
    assert(blob.subrange(16, 20) =~= u32_le(4096));
    assert(blob.subrange(20, 24) =~= u32_le(n));
    assert(blob.subrange(24, 32) =~= u64_le(release));
    assert(blob.subrange(32, 48) =~= key_id);
    assert(blob.subrange(48, 52) =~= u32_le(1));
    assert(blob.subrange(52, 56) =~= u32_le(64));
    assert(blob.subrange(56, 88) =~= root);
    assert(blob.subrange(88, 92) =~= u32_le(fec.len() as u32));
    assert(v2_header_error(blob, policy) is None);
    assert(v2_signed_part(blob) =~= body);
    assert(blob.subrange(blob.len() - 64, blob.len() as int) =~= sig@);
    assert(blob.subrange(92, 172) =~= fec);
}

proof fn lemma_v2_body_ok(
    blob: Seq<u8>,
    head: Seq<u8>,
    fec: Seq<u8>,
    paths: Seq<Seq<Seq<u8>>>,
    n: u32,
)
    requires
        v2_signed_part(blob) == head + proof_records(paths),
        head.len() == 172,
        fec.len() == 80,
        blob.subrange(88, 92) == u32_le(80),
        blob.subrange(92, 172) == fec,
        blob.subrange(20, 24) == u32_le(n),
        paths.len() == n,
        crate::uefi::manifest::proofs_well_shaped(paths),
        blob.len() <= usize::MAX,
    ensures
        v2_body_outcome(blob) == Ok::<(Seq<u8>, Seq<Seq<Seq<u8>>>), DfimError>((fec, paths)),
{
    crate::codec::lemma_u32_le_round_trip(80);
    crate::codec::lemma_u32_le_round_trip(n);
    lemma_v2_proofs_at_records(head, paths, v2_signed_part(blob));
}

proof fn lemma_v2_outcome_ok(
    root: Seq<u8>,
    n: u32,
    release: u64,
    key_id: Seq<u8>,
    fec: Seq<u8>,
    paths: Seq<Seq<Seq<u8>>>,
    sig: [u8; 64],
    policy: TrustedManifestPolicy,
)
    requires
        key_id.len() == 16,
        release != 0,
        fec.len() == 80,
        root.len() == 32,
        1 <= n <= 64,
        paths.len() == n,
        crate::uefi::manifest::proofs_well_shaped(paths),
        p256_key_parses(policy.public_key_sec1@),
        p256_signature_parses(sig@),
        p256_verifies(policy.public_key_sec1@, v2_unsigned_bytes(root, n, release, key_id, fec, paths), sig@),
        policy.expected_key_id@ == key_id,
        policy.minimum_release <= release,
        v2_unsigned_bytes(root, n, release, key_id, fec, paths).len() + 64 <= usize::MAX,
    ensures
        v2_outcome(v2_unsigned_bytes(root, n, release, key_id, fec, paths) + sig@, policy) == Ok::<
            (Seq<u8>, Seq<Seq<Seq<u8>>>),
            DfimError,
        >((fec, paths)),
{
    lemma_v2_layout(root, n, release, key_id, fec, paths, sig, policy);
    let body = v2_unsigned_bytes(root, n, release, key_id, fec, paths);
    let blob = body + sig@;
    lemma_v2_body_ok(blob, v2_head_bytes(root, n, release, key_id, fec), fec, paths, n);
}

proof fn lemma_signed_blob(
    root: Seq<u8>,
    n: u32,
    release: u64,
    key_id: Seq<u8>,
    fec: Seq<u8>,
    paths: Seq<Seq<Seq<u8>>>,
    sig: [u8; 64],
    policy: TrustedManifestPolicy,
    d: Seq<u8>,
)
    requires
        key_id.len() == 16,
        release != 0,
        root.len() == 32,
        1 <= n <= 64,
        paths.len() == n,
        crate::uefi::manifest::proofs_well_shaped(paths),
        encodes_block(metadata_bytes(root, n), fec),
        p256_key_parses(policy.public_key_sec1@),
        p256_signature_parses(sig@),
        p256_verifies(policy.public_key_sec1@, v2_unsigned_bytes(root, n, release, key_id, fec, paths), sig@),
        policy.expected_key_id@ == key_id,
        policy.minimum_release <= release,
        v2_unsigned_bytes(root, n, release, key_id, fec, paths).len() + 64 <= usize::MAX,
    ensures
        ({
            let blob = v2_unsigned_bytes(root, n, release, key_id, fec, paths) + sig@;
            &&& v2_outcome(blob, policy) == Ok::<(Seq<u8>, Seq<Seq<Seq<u8>>>), DfimError>((fec, paths))
            &&& block_accepted(fec)
            &&& strictly_decodes_block(fec, d) ==> v2_backup_matches(blob, d)
        }),
{
    lemma_backup_decodes(root, n, fec, d);
    lemma_v2_outcome_ok(root, n, release, key_id, fec, paths, sig, policy);
    lemma_v2_layout(root, n, release, key_id, fec, paths, sig, policy);
}

proof fn lemma_backup_decodes(root: Seq<u8>, n: u32, fec: Seq<u8>, d: Seq<u8>)
    requires
        root.len() == 32,
        encodes_block(metadata_bytes(root, n), fec),
    ensures
        fec.len() == 80,
        block_accepted(fec),
        strictly_decodes_block(fec, d) ==> d.len() >= 40 && d.subrange(0, 32) == root,
{
    let meta = metadata_bytes(root, n);
    crate::hamming::law_block_round_trip(meta, fec);
    if strictly_decodes_block(fec, d) {
        assert forall|j: int| 0 <= j < d.len() implies d[j] == meta[j] by {
            assert(crate::hamming::pair_strictly_decodes_at(fec, j, d[j]));
        }
        assert(d =~= meta);
        assert(d.subrange(0, 32) =~= root);
    }
}

/// A signed sidecar, as built for an image, verifies under a policy holding the signer's
/// public key, the key id used and any release floor up to the counter; its backup decodes
/// to the image's metadata, and the manifest it yields validates the image.
pub proof fn law_signed_sidecar_verifies(
    image: Seq<u8>,
    key_id: Seq<u8>,
    release: u64,
    fec: Seq<u8>,
    sig: [u8; 64],
    policy: TrustedManifestPolicy,
    d: Seq<u8>,
    v: VerifiedBootManifest,
)
    requires
        image.len() <= usize::MAX,
        image_len_error(image.len() as usize) is None,
        key_id.len() == 16,
        release != 0,
        backs_up_metadata(image, fec),
        p256_key_parses(policy.public_key_sec1@),
        p256_signature_parses(sig@),
        p256_verifies(policy.public_key_sec1@, v2_body_of(image, key_id, release, fec), sig@),
        policy.expected_key_id@ == key_id,
        policy.minimum_release <= release,
        v2_body_of(image, key_id, release, fec).len() + 64 <= usize::MAX,
    ensures
        ({
            let blob = v2_body_of(image, key_id, release, fec) + sig@;
            &&& v2_outcome(blob, policy) == Ok::<(Seq<u8>, Seq<Seq<Seq<u8>>>), DfimError>(
                (fec, image_proof_paths(image)),
            )
            &&& block_accepted(fec)
            &&& strictly_decodes_block(fec, d) ==> v2_backup_matches(blob, d)
        }),
{
    let n = blocks_for(image.len() as int);
    assert(1 <= n <= 64);
    crate::uefi::pipeline::lemma_image_paths_shaped(image);
    lemma_signed_blob(image_root(image), n as u32, release, key_id, fec, image_proof_paths(image), sig, policy, d);
}

/// The manifest that verifying a signed sidecar built for an image yields validates that
/// image, with the image's Merkle root and block count.
pub proof fn law_verified_manifest_validates(
    image: Seq<u8>,
    key_id: Seq<u8>,
    release: u64,
    fec: Seq<u8>,
    sig: [u8; 64],
    policy: TrustedManifestPolicy,
    d: Seq<u8>,
    v: VerifiedBootManifest,
)
    requires
        image.len() <= usize::MAX,
        image_len_error(image.len() as usize) is None,
        key_id.len() == 16,
        release != 0,
        backs_up_metadata(image, fec),
        p256_key_parses(policy.public_key_sec1@),
        p256_signature_parses(sig@),
        p256_verifies(policy.public_key_sec1@, v2_body_of(image, key_id, release, fec), sig@),
        policy.expected_key_id@ == key_id,
        policy.minimum_release <= release,
        v2_body_of(image, key_id, release, fec).len() + 64 <= usize::MAX,
        v2_verified_as(v2_body_of(image, key_id, release, fec) + sig@, policy, v),
        strictly_decodes_block(v.manifest.fec_backup@, d),
    ensures
        crate::uefi::pipeline::pipeline_outcome(image, v.manifest, d) == Ok::<(Seq<u8>, u32), DfimError>(
            (image_root(image), blocks_for(image.len() as int) as u32),
        ),
{
    let n = blocks_for(image.len() as int);
    assert(1 <= n <= 64);
    crate::uefi::pipeline::lemma_image_paths_shaped(image);
    lemma_signed_fields(image_root(image), n as u32, release, key_id, fec, image_proof_paths(image), sig, policy, v);
    crate::uefi::pipeline::law_matching_manifest_validates(image, v.manifest, d);
}

/// The central promise of the boot guard: an image whose signed sidecar was built for it, with
/// a signature that the deployment key verifies, passes validation under a policy holding that
/// key, the key id used and any release floor up to the sidecar's counter. Whatever
/// validating returns is then a success handing out the image itself, with its Merkle root,
/// its block count, and the sidecar's release counter and key id.
pub proof fn law_signed_image_validates(
    image: Seq<u8>,
    key_id: Seq<u8>,
    release: u64,
    fec: Seq<u8>,
    sig: [u8; 64],
    policy: TrustedManifestPolicy,
    res: Result<ValidatedSignedBootImage, DfimError>,
)
    requires
        image.len() <= usize::MAX,
        image_len_error(image.len() as usize) is None,
        key_id.len() == 16,
        release != 0,
        backs_up_metadata(image, fec),
        p256_key_parses(policy.public_key_sec1@),
        p256_signature_parses(sig@),
        p256_verifies(policy.public_key_sec1@, v2_body_of(image, key_id, release, fec), sig@),
        policy.expected_key_id@ == key_id,
        policy.minimum_release <= release,
        v2_body_of(image, key_id, release, fec).len() + 64 <= usize::MAX,
        signed_validation_of(image, v2_body_of(image, key_id, release, fec) + sig@, policy, res),
    ensures
        res matches Ok(v) && {
            &&& v.boot.payload@ == image
            &&& !v.boot.fec_corrected
            &&& v.boot.merkle_root@ == image_root(image)
            &&& v.boot.blocks_verified == blocks_for(image.len() as int)
            &&& v.release_counter == release
            &&& v.key_id@ == key_id
        },
{
    let blob = v2_body_of(image, key_id, release, fec) + sig@;
    law_signed_sidecar_verifies(image, key_id, release, fec, sig, policy, Seq::empty(), arbitrary());
    let d0 = choose|d: Seq<u8>|
        #[trigger] strictly_decodes_block(fec, d) && if v2_backup_matches(blob, d) {
            exists|m: VerifiedBootManifest|
                #[trigger] v2_verified_as(blob, policy, m) && boot_validation_of(image, m.manifest, boot_part(res))
                    && (res matches Ok(v) ==> v.release_counter == m.release_counter && v.key_id == m.key_id)
        } else {
            res == Err::<ValidatedSignedBootImage, DfimError>(DfimError::CorruptMetadata)
        };
    law_signed_sidecar_verifies(image, key_id, release, fec, sig, policy, d0, arbitrary());
    let m = choose|m: VerifiedBootManifest|
        #[trigger] v2_verified_as(blob, policy, m) && boot_validation_of(image, m.manifest, boot_part(res))
            && (res matches Ok(v) ==> v.release_counter == m.release_counter && v.key_id == m.key_id);
    lemma_verified_fields_of_built(image, key_id, release, fec, sig, policy, m);
    lemma_built_manifest_accepts_image(image, key_id, release, fec, sig, policy, m, boot_part(res));
}

/// Nothing boots below the release floor or under another key: whatever signed validation
/// accepts carries a non-zero release counter at or above the policy's floor, the policy's key
/// id, and a signature that the policy's key verifies over the sidecar's signed part.
pub proof fn law_accepted_image_respects_policy(
    image: Seq<u8>,
    sidecar: Seq<u8>,
    policy: TrustedManifestPolicy,
    res: Result<ValidatedSignedBootImage, DfimError>,
)
    requires
        signed_validation_of(image, sidecar, policy, res),
        res is Ok,
    ensures
        res matches Ok(v) && v.release_counter >= policy.minimum_release && v.release_counter != 0
            && v.key_id == policy.expected_key_id,
        sidecar.len() >= 156,
        p256_verifies(
            policy.public_key_sec1@,
            v2_signed_part(sidecar),
            sidecar.subrange(sidecar.len() - 64, sidecar.len() as int),
        ),
{
    let (fec, ps) = v2_outcome(sidecar, policy)->Ok_0;
    let d = choose|d: Seq<u8>|
        #[trigger] strictly_decodes_block(fec, d) && if v2_backup_matches(sidecar, d) {
            exists|m: VerifiedBootManifest|
                #[trigger] v2_verified_as(sidecar, policy, m) && boot_validation_of(image, m.manifest, boot_part(res))
                    && (res matches Ok(v) ==> v.release_counter == m.release_counter && v.key_id == m.key_id)
        } else {
            res == Err::<ValidatedSignedBootImage, DfimError>(DfimError::CorruptMetadata)
        };
    let m = choose|m: VerifiedBootManifest|
        #[trigger] v2_verified_as(sidecar, policy, m) && boot_validation_of(image, m.manifest, boot_part(res))
            && (res matches Ok(v) ==> v.release_counter == m.release_counter && v.key_id == m.key_id);
    let v = res->Ok_0;
    assert(v.key_id =~= policy.expected_key_id);
}

/// The manifest verified from a signed sidecar built for an image carries the image's backup,
/// the sidecar's release counter and its key id.
#[verifier::spinoff_prover]
proof fn lemma_verified_fields_of_built(
    image: Seq<u8>,
    key_id: Seq<u8>,
    release: u64,
    fec: Seq<u8>,
    sig: [u8; 64],
    policy: TrustedManifestPolicy,
    m: VerifiedBootManifest,
)
    requires
        image.len() <= usize::MAX,
        image_len_error(image.len() as usize) is None,
        key_id.len() == 16,
        release != 0,
        backs_up_metadata(image, fec),
        p256_key_parses(policy.public_key_sec1@),
        p256_signature_parses(sig@),
        p256_verifies(policy.public_key_sec1@, v2_body_of(image, key_id, release, fec), sig@),
        policy.expected_key_id@ == key_id,
        policy.minimum_release <= release,
        v2_body_of(image, key_id, release, fec).len() + 64 <= usize::MAX,
        v2_verified_as(v2_body_of(image, key_id, release, fec) + sig@, policy, m),
    ensures
        m.manifest.fec_backup@ == fec,
        fec.len() == 80,
        m.release_counter == release,
        m.key_id@ == key_id,
{
    let n = blocks_for(image.len() as int);
    assert(1 <= n <= 64);
    let root = image_root(image);
    crate::uefi::pipeline::lemma_image_paths_shaped(image);
    assert(metadata_bytes(root, n as u32).len() == 40);
    assert(fec.len() == 80);
    law_signed_sidecar_verifies(image, key_id, release, fec, sig, policy, Seq::empty(), m);
    let blob = v2_body_of(image, key_id, release, fec) + sig@;
    lemma_v2_layout(root, n as u32, release, key_id, fec, image_proof_paths(image), sig, policy);
    crate::codec::lemma_u64_le_round_trip(release);
    assert(m.release_counter == le_u64(blob.subrange(24, 32)));
    assert(m.key_id@ == blob.subrange(32, 48));
}

/// Image validation against the manifest verified from a signed sidecar built for that image
/// succeeds with the image, its root and its block count.
proof fn lemma_built_manifest_accepts_image(
    image: Seq<u8>,
    key_id: Seq<u8>,
    release: u64,
    fec: Seq<u8>,
    sig: [u8; 64],
    policy: TrustedManifestPolicy,
    m: VerifiedBootManifest,
    r: Result<ValidatedBootImage, DfimError>,
)
    requires
        image.len() <= usize::MAX,
        image_len_error(image.len() as usize) is None,
        key_id.len() == 16,
        release != 0,
        backs_up_metadata(image, fec),
        p256_key_parses(policy.public_key_sec1@),
        p256_signature_parses(sig@),
        p256_verifies(policy.public_key_sec1@, v2_body_of(image, key_id, release, fec), sig@),
        policy.expected_key_id@ == key_id,
        policy.minimum_release <= release,
        v2_body_of(image, key_id, release, fec).len() + 64 <= usize::MAX,
        v2_verified_as(v2_body_of(image, key_id, release, fec) + sig@, policy, m),
        m.manifest.fec_backup@ == fec,
        fec.len() == 80,
        block_accepted(fec),
        boot_validation_of(image, m.manifest, r),
    ensures
        r matches Ok(v) && v.payload@ == image && !v.fec_corrected && v.merkle_root@ == image_root(image)
            && v.blocks_verified == blocks_for(image.len() as int),
{
    let d1 = choose|d: Seq<u8>|
        #[trigger] strictly_decodes_block(fec, d) && crate::uefi::pipeline::validated_view(r, image)
            == crate::uefi::pipeline::pipeline_outcome(image, m.manifest, d);
    law_verified_manifest_validates(image, key_id, release, fec, sig, policy, d1, m);
}

proof fn lemma_signed_fields(
    root: Seq<u8>,
    n: u32,
    release: u64,
    key_id: Seq<u8>,
    fec: Seq<u8>,
    paths: Seq<Seq<Seq<u8>>>,
    sig: [u8; 64],
    policy: TrustedManifestPolicy,
    v: VerifiedBootManifest,
)
    requires
        key_id.len() == 16,
        release != 0,
        root.len() == 32,
        1 <= n <= 64,
        paths.len() == n,
        crate::uefi::manifest::proofs_well_shaped(paths),
        encodes_block(metadata_bytes(root, n), fec),
        p256_key_parses(policy.public_key_sec1@),
        p256_signature_parses(sig@),
        p256_verifies(policy.public_key_sec1@, v2_unsigned_bytes(root, n, release, key_id, fec, paths), sig@),
        policy.expected_key_id@ == key_id,
        policy.minimum_release <= release,
        v2_unsigned_bytes(root, n, release, key_id, fec, paths).len() + 64 <= usize::MAX,
        v2_verified_as(v2_unsigned_bytes(root, n, release, key_id, fec, paths) + sig@, policy, v),
    ensures
        v.manifest.fec_backup@ == fec,
        proofs_view(v.manifest.proofs@) == paths,
        v.manifest.merkle_root@ == root,
        v.manifest.block_size == 4096,
        v.manifest.block_count == n,
{
    lemma_backup_decodes(root, n, fec, Seq::empty());
    lemma_v2_outcome_ok(root, n, release, key_id, fec, paths, sig, policy);
    lemma_v2_layout(root, n, release, key_id, fec, paths, sig, policy);
    crate::codec::lemma_u32_le_round_trip(4096);
    crate::codec::lemma_u32_le_round_trip(n);
}
} // verus!
