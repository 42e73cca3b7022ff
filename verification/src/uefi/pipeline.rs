//! Boot-image validation: Hamming recovery of the metadata, then a Merkle proof per block.
use vstd::prelude::*;
use crate::boot_validate::{
    blocks_for, image_len_error, metadata_check, padded_block, strictly_decodes_block,
    block_accepted, validate_block_count, validate_image_byte_len, DFIM_BLOCK_SIZE,
    MAX_BOOT_BLOCKS,
};
use crate::codec::{le_u32, u32_le, read_le_u32_at, copy_32, extend_bytes};
use crate::crypto::constant_time_hash_eq;
use crate::digest::{sha256_of, SHA256_LEN};
use crate::error::DfimError;
use crate::hamming::decode_block;
use crate::merkle::{path_hash, verify_proof, tree_layers, tree_root, law_path_reaches_root, lemma_path_nodes, lemma_tree_height, lemma_tree_nodes_len, lemma_tree_layers_wf};
use crate::hamming::{law_block_round_trip, encodes_block};
use crate::codec::lemma_u32_le_round_trip;
use crate::parser::stream_outcome;
use crate::uefi::manifest::{is_sidecar_of, image_root, image_block_digests, image_proof_paths, metadata_bytes, manifest_parsed_as, proofs_well_shaped, law_sidecar_round_trip};
use vstd::arithmetic::power2::lemma2_to64;
use crate::parser::proofs_view;
use crate::uefi::manifest::{BootManifest, partition_image_blocks};

verus! {

/// Outcome of a successful boot-guard validation pass.
pub struct ValidatedBootImage {
    pub payload: Vec<u8>,
    pub merkle_root: [u8; SHA256_LEN],
    pub fec_corrected: bool,
    pub blocks_verified: u32,
}

/// Metadata recovered from decoded backup bytes, checked against the manifest header.
pub open spec fn recovered_metadata(m: BootManifest, d: Seq<u8>) -> Result<(Seq<u8>, u32, u32), DfimError> {
    if d.len() < 40 {
        Err(DfimError::BufferTooShort)
    } else {
        metadata_check(m.merkle_root@, m.block_size, m.block_count, d)
    }
}

/// Verdicts on blocks `k ..` of an image, stopping at the first block whose proof fails.
pub open spec fn proofs_outcome(
    image: Seq<u8>,
    proofs: Seq<Seq<Seq<u8>>>,
    root: Seq<u8>,
    k: nat,
    count: nat,
) -> Result<(), DfimError>
    decreases count - k,
{
    if k >= count {
        Ok(())
    } else if path_hash(sha256_of(padded_block(image, k as int)), proofs[k as int], k) != root {
        Err(DfimError::IntegrityFailure)
    } else {
        proofs_outcome(image, proofs, root, k + 1, count)
    }
}

/// What validation owes once the backup decodes to `d`: the verified root and block count.
pub open spec fn pipeline_outcome(image: Seq<u8>, m: BootManifest, d: Seq<u8>) -> Result<(Seq<u8>, u32), DfimError> {
    match recovered_metadata(m, d) {
        Err(e) => Err(e),
        Ok((root, bs, bc)) => if m.proofs@.len() != bc {
            Err(DfimError::IntegrityFailure)
        } else if blocks_for(image.len() as int) != bc {
            Err(DfimError::IntegrityFailure)
        } else {
            match proofs_outcome(image, proofs_view(m.proofs@), root, 0, bc as nat) {
                Err(e) => Err(e),
                Ok(()) => Ok((root, bc)),
            }
        },
    }
}

/// View of a validation result: the verified root and block count. A success that hands out
/// another payload or reports a correction reads as a refusal here; `boot_validation_of`
/// rules such a success out altogether.
pub open spec fn validated_view(r: Result<ValidatedBootImage, DfimError>, image: Seq<u8>) -> Result<(Seq<u8>, u32), DfimError> {
    match r {
        Ok(v) => if v.payload@ == image && !v.fec_corrected {
            Ok((v.merkle_root@, v.blocks_verified))
        } else {
            Err(DfimError::IntegrityFailure)
        },
        Err(e) => Err(e),
    }
}

/// An accepted image is handed back unchanged, with no correction reported.
pub open spec fn accepted_as_is(res: Result<ValidatedBootImage, DfimError>, image: Seq<u8>) -> bool {
    match res {
        Ok(v) => v.payload@ == image && !v.fec_corrected,
        Err(_) => true,
    }
}

/// `res` is what validating `image` against `manifest` gives: the size cap first, then the
/// Hamming backup (which must have a positive even length and decode), then the pipeline on
/// the decoded metadata. Whatever the pipeline refuses (a block whose proof fails among
/// them) comes back as that error; an accepted image comes back as it was read.
pub open spec fn boot_validation_of(
    image: Seq<u8>,
    manifest: BootManifest,
    res: Result<ValidatedBootImage, DfimError>,
) -> bool {
    &&& accepted_as_is(res, image)
    &&& match image_len_error(image.len() as usize) {
        Some(e) => res == Err::<ValidatedBootImage, DfimError>(e),
        None => {
            let fec = manifest.fec_backup@;
            &&& !(fec.len() > 0 && fec.len() % 2 == 0) ==> res == Err::<ValidatedBootImage, DfimError>(
                DfimError::InvalidParameter,
            )
            &&& (fec.len() > 0 && fec.len() % 2 == 0 && !block_accepted(fec)) ==> res == Err::<
                ValidatedBootImage,
                DfimError,
            >(DfimError::CorruptMetadata)
            &&& (fec.len() > 0 && fec.len() % 2 == 0 && block_accepted(fec)) ==> exists|d: Seq<u8>|
                #[trigger] strictly_decodes_block(fec, d) && validated_view(res, image) == pipeline_outcome(
                    image,
                    manifest,
                    d,
                )
        },
    }
}

/// Whatever the pipeline owes on the decoded metadata is returned: its error as it is, or the
/// image unchanged with the recovered root and block count.
pub open spec fn follows_pipeline(
    image: Seq<u8>,
    manifest: BootManifest,
    res: Result<ValidatedBootImage, DfimError>,
) -> bool {
    forall|d: Seq<u8>| #[trigger]
        strictly_decodes_block(manifest.fec_backup@, d) ==> match pipeline_outcome(image, manifest, d) {
            Err(e) => res == Err::<ValidatedBootImage, DfimError>(e),
            Ok((root, bc)) => res matches Ok(v) && v.payload@ == image && !v.fec_corrected
                && v.merkle_root@ == root && v.blocks_verified == bc,
        }
}

/// Validation refuses exactly what the pipeline refuses, with the pipeline's error: a block
/// whose Merkle proof fails gives `IntegrityFailure`, never an accepted image; and what the
/// pipeline accepts comes back as the image itself, uncorrected.
pub proof fn law_validation_follows_pipeline(
    image: Seq<u8>,
    manifest: BootManifest,
    res: Result<ValidatedBootImage, DfimError>,
)
    requires
        boot_validation_of(image, manifest, res),
        image_len_error(image.len() as usize) is None,
        manifest.fec_backup@.len() > 0,
        manifest.fec_backup@.len() % 2 == 0,
        block_accepted(manifest.fec_backup@),
    ensures
        follows_pipeline(image, manifest, res),
{
    let fec = manifest.fec_backup@;
    let d0 = choose|d: Seq<u8>| #[trigger] strictly_decodes_block(fec, d) && validated_view(res, image)
        == pipeline_outcome(image, manifest, d);
    assert forall|d: Seq<u8>| #[trigger] strictly_decodes_block(fec, d) implies match pipeline_outcome(
        image,
        manifest,
        d,
    ) {
        Err(e) => res == Err::<ValidatedBootImage, DfimError>(e),
        Ok((root, bc)) => res matches Ok(v) && v.payload@ == image && !v.fec_corrected && v.merkle_root@
            == root && v.blocks_verified == bc,
    } by {
        crate::boot_validate::lemma_strict_block_decoding_unique(fec, d, d0);
    }
}

fn fec_recover_metadata(fec_backup: &[u8]) -> (res: Result<([u8; SHA256_LEN], u32, u32), DfimError>)
    ensures
        !(fec_backup@.len() > 0 && fec_backup@.len() % 2 == 0) ==> res == Err::<
            ([u8; SHA256_LEN], u32, u32),
            DfimError,
        >(DfimError::InvalidParameter),
        fec_backup@.len() > 0 && fec_backup@.len() % 2 == 0 && !block_accepted(fec_backup@) ==> res
            == Err::<([u8; SHA256_LEN], u32, u32), DfimError>(DfimError::CorruptMetadata),
        fec_backup@.len() > 0 && fec_backup@.len() % 2 == 0 && block_accepted(fec_backup@) ==> exists|d: Seq<u8>|
            #[trigger] strictly_decodes_block(fec_backup@, d) && (if d.len() < 40 {
                res == Err::<([u8; SHA256_LEN], u32, u32), DfimError>(DfimError::BufferTooShort)
            } else {
                res matches Ok((root, bs, bc)) && root@ == d.subrange(0, 32) && bs == le_u32(
                    d.subrange(32, 36),
                ) && bc == le_u32(d.subrange(36, 40))
            }),
{
    let decoded = decode_block(fec_backup)?;
    let ghost d = decoded@;
    assert(strictly_decodes_block(fec_backup@, d));
    if decoded.len() < 40 {
        return Err(DfimError::BufferTooShort);
    }
    let ds = decoded.as_slice();
    let root = copy_32(ds, 0);
    let block_size = read_le_u32_at(ds, 32);
    let block_count = read_le_u32_at(ds, 36);
    Ok((root, block_size, block_count))
}

fn resolve_metadata(manifest: &BootManifest) -> (res: Result<([u8; SHA256_LEN], u32, u32, bool), DfimError>)
    ensures
        ({
            let fec = manifest.fec_backup@;
            &&& !(fec.len() > 0 && fec.len() % 2 == 0) ==> res == Err::<
                ([u8; SHA256_LEN], u32, u32, bool),
                DfimError,
            >(DfimError::InvalidParameter)
            &&& fec.len() > 0 && fec.len() % 2 == 0 && !block_accepted(fec) ==> res == Err::<
                ([u8; SHA256_LEN], u32, u32, bool),
                DfimError,
            >(DfimError::CorruptMetadata)
            &&& fec.len() > 0 && fec.len() % 2 == 0 && block_accepted(fec) ==> exists|d: Seq<u8>|
                #[trigger] strictly_decodes_block(fec, d) && match res {
                    Ok((root, bs, bc, corrected)) => !corrected && recovered_metadata(*manifest, d)
                        == Ok::<(Seq<u8>, u32, u32), DfimError>((root@, bs, bc)),
                    Err(e) => recovered_metadata(*manifest, d) == Err::<(Seq<u8>, u32, u32), DfimError>(e),
                }
        }),
{
    let (fec_root, fec_block_size, fec_block_count) = fec_recover_metadata(manifest.fec_backup.as_slice())?;
    if fec_block_size as usize != DFIM_BLOCK_SIZE {
        return Err(DfimError::InvalidParameter);
    }
    if fec_block_count == 0 {
        return Err(DfimError::InvalidParameter);
    }
    validate_block_count(fec_block_count)?;
    let header_matches = constant_time_hash_eq(&manifest.merkle_root, &fec_root)
        && manifest.block_size == fec_block_size && manifest.block_count == fec_block_count;
    if header_matches {
        return Ok((fec_root, fec_block_size, fec_block_count, false));
    }
    Err(DfimError::CorruptMetadata)
}

/// Runs the boot-guard pipeline on an image and its parsed sidecar: size cap, Hamming
/// recovery of the metadata, then every block's Merkle proof against the recovered root.
pub fn validate_boot_image(image: &[u8], manifest: &BootManifest) -> (res: Result<
    ValidatedBootImage,
    DfimError,
>)
    ensures
        boot_validation_of(image@, *manifest, res),
        (image_len_error(image@.len() as usize) is None && manifest.fec_backup@.len() > 0
            && manifest.fec_backup@.len() % 2 == 0 && block_accepted(manifest.fec_backup@))
            ==> follows_pipeline(image@, *manifest, res),
{
    let res = validate_boot_image_body(image, manifest);
    proof {
        if image_len_error(image@.len() as usize) is None && manifest.fec_backup@.len() > 0
            && manifest.fec_backup@.len() % 2 == 0 && block_accepted(manifest.fec_backup@) {
            law_validation_follows_pipeline(image@, *manifest, res);
        }
    }
    res
}

fn validate_boot_image_body(image: &[u8], manifest: &BootManifest) -> (res: Result<
    ValidatedBootImage,
    DfimError,
>)
    ensures
        boot_validation_of(image@, *manifest, res),
{
    validate_image_byte_len(image.len())?;
    let r = resolve_metadata(manifest);
    let ghost fec = manifest.fec_backup@;
    let ghost d = choose|d: Seq<u8>| #[trigger] strictly_decodes_block(fec, d) && match r {
        Ok((root, bs, bc, corrected)) => !corrected && recovered_metadata(*manifest, d)
            == Ok::<(Seq<u8>, u32, u32), DfimError>((root@, bs, bc)),
        Err(e) => recovered_metadata(*manifest, d) == Err::<(Seq<u8>, u32, u32), DfimError>(e),
    };
    let (merkle_root, block_size, block_count, fec_corrected) = match r {
        Ok(x) => x,
        Err(e) => {
            return Err(e);
        },
    };
    assert(strictly_decodes_block(fec, d));
    if manifest.proofs.len() != block_count as usize {
        return Err(DfimError::IntegrityFailure);
    }
    let blocks = partition_image_blocks(image, block_size as usize)?;
    if blocks.len() as u32 != block_count {
        return Err(DfimError::IntegrityFailure);
    }
    let ghost pv = proofs_view(manifest.proofs@);
    let count = blocks.len();
    let mut index: usize = 0;
    assert(pipeline_outcome(image@, *manifest, d) == match proofs_outcome(image@, pv, merkle_root@, 0, count as nat) {
        Err(e) => Err::<(Seq<u8>, u32), DfimError>(e),
        Ok(()) => Ok::<(Seq<u8>, u32), DfimError>((merkle_root@, block_count)),
    });
    while index < count
        invariant
            count == blocks@.len() == block_count <= MAX_BOOT_BLOCKS,
            count == manifest.proofs@.len(),
            pv == proofs_view(manifest.proofs@),
            forall|i: int| 0 <= i < count ==> #[trigger] blocks@[i]@ == padded_block(image@, i),
            image_len_error(image@.len() as usize) is None,
            fec == manifest.fec_backup@,
            fec.len() > 0 && fec.len() % 2 == 0 && block_accepted(fec),
            strictly_decodes_block(fec, d),
            pipeline_outcome(image@, *manifest, d) == match proofs_outcome(image@, pv, merkle_root@, 0, count as nat) {
                Err(e) => Err::<(Seq<u8>, u32), DfimError>(e),
                Ok(()) => Ok::<(Seq<u8>, u32), DfimError>((merkle_root@, block_count)),
            },
            index <= count,
            proofs_outcome(image@, pv, merkle_root@, 0, count as nat) == proofs_outcome(
                image@,
                pv,
                merkle_root@,
                index as nat,
                count as nat,
            ),
        decreases count - index,
    {
        let proof = &manifest.proofs[index];
        let ok = match verify_proof(&merkle_root, blocks[index].as_slice(), index, proof) {
            Ok(b) => b,
            Err(e) => {
                return Err(e);
            },
        };
        assert(crate::merkle::proof_siblings(*proof) =~= pv[index as int]);
        if !ok {
            assert(proofs_outcome(image@, pv, merkle_root@, index as nat, count as nat) == Err::<(), DfimError>(DfimError::IntegrityFailure));
            assert(strictly_decodes_block(fec, d) && validated_view(Err::<ValidatedBootImage, DfimError>(DfimError::IntegrityFailure), image@) == pipeline_outcome(image@, *manifest, d));
            return Err(DfimError::IntegrityFailure);
        }
        index = index + 1;
    }
    let mut payload: Vec<u8> = Vec::new();
    extend_bytes(&mut payload, image);
    Ok(ValidatedBootImage { payload, merkle_root, fec_corrected, blocks_verified: block_count })
}

proof fn lemma_proofs_outcome_ok(image: Seq<u8>, k: nat)
    requires
        k <= blocks_for(image.len() as int),
    ensures
        proofs_outcome(
            image,
            image_proof_paths(image),
            image_root(image),
            k,
            blocks_for(image.len() as int) as nat,
        ) == Ok::<(), DfimError>(()),
    decreases blocks_for(image.len() as int) - k,
{
    let n = blocks_for(image.len() as int) as nat;
    if k < n {
        let x = image_block_digests(image);
        law_path_reaches_root(x, k);
        lemma_proofs_outcome_ok(image, k + 1);
    }
}

/// The root over 32-byte digests is a 32-byte digest.
proof fn lemma_root_len(x: Seq<Seq<u8>>)
    requires
        x.len() >= 1,
        forall|j: int| 0 <= j < x.len() ==> #[trigger] x[j].len() == 32,
    ensures
        tree_root(x).len() == 32,
{
    lemma_tree_layers_wf(x);
    lemma_tree_nodes_len(x);
    let l = tree_layers(x);
    crate::merkle::lemma_layers_root_public(l);
    assert(l[l.len() - 1].len() == 1);
    assert(l[l.len() - 1][0].len() == 32);
}

/// A manifest carrying an image's root, block size and count, the Hamming backup of that
/// metadata and the image's proof paths validates the image, whatever the backup decodes to.
pub proof fn law_matching_manifest_validates(image: Seq<u8>, m: BootManifest, d: Seq<u8>)
    requires
        image.len() <= usize::MAX,
        image_len_error(image.len() as usize) is None,
        encodes_block(metadata_bytes(image_root(image), blocks_for(image.len() as int) as u32), m.fec_backup@),
        m.merkle_root@ == image_root(image),
        m.block_size == 4096,
        m.block_count == blocks_for(image.len() as int),
        proofs_view(m.proofs@) == image_proof_paths(image),
    ensures
        m.fec_backup@.len() > 0 && m.fec_backup@.len() % 2 == 0 && block_accepted(m.fec_backup@),
        strictly_decodes_block(m.fec_backup@, d) ==> d == metadata_bytes(
            image_root(image),
            blocks_for(image.len() as int) as u32,
        ) && pipeline_outcome(image, m, d) == Ok::<(Seq<u8>, u32), DfimError>(
            (image_root(image), blocks_for(image.len() as int) as u32),
        ),
{
    let n = blocks_for(image.len() as int);
    assert(1 <= n <= 64);
    let x = image_block_digests(image);
    let root = image_root(image);
    let meta = metadata_bytes(root, n as u32);
    let fec = m.fec_backup@;
    lemma2_to64();
    lemma_root_len(x);
    law_block_round_trip(meta, fec);
    assert(block_accepted(fec));
    if strictly_decodes_block(fec, d) {
        assert forall|j: int| 0 <= j < d.len() implies d[j] == meta[j] by {
            assert(crate::hamming::pair_strictly_decodes_at(fec, j, d[j]));
        }
        assert(d =~= meta);
        lemma_u32_le_round_trip(4096);
        lemma_u32_le_round_trip(n as u32);
        assert(d.subrange(0, 32) =~= root);
        assert(d.subrange(32, 36) =~= u32_le(4096));
        assert(d.subrange(36, 40) =~= u32_le(n as u32));
        assert(m.proofs@.len() == image_proof_paths(image).len());
        lemma_proofs_outcome_ok(image, 0);
    }
}

/// The proof paths of an image are well shaped: at most the proof-depth cap, 32-byte siblings.
pub proof fn lemma_image_paths_shaped(image: Seq<u8>)
    requires
        image.len() <= usize::MAX,
        image_len_error(image.len() as usize) is None,
    ensures
        proofs_well_shaped(image_proof_paths(image)),
        image_root(image).len() == 32,
{
    let n = blocks_for(image.len() as int);
    assert(1 <= n <= 64);
    let x = image_block_digests(image);
    let paths = image_proof_paths(image);
    lemma2_to64();
    lemma_root_len(x);
    lemma_tree_height(x, 6);
    assert forall|i: int| 0 <= i < paths.len() implies #[trigger] paths[i].len() <= 16 && forall|k: int|
        0 <= k < paths[i].len() ==> #[trigger] paths[i][k].len() == 32 by {
        lemma_path_nodes(x, i as nat);
    }
}

/// A sidecar built from an image parses, its Hamming backup is accepted, and validating the
/// image against it succeeds with the image's Merkle root and block count.
pub proof fn law_built_sidecar_validates(image: Seq<u8>, fec: Seq<u8>, blob: Seq<u8>, m: BootManifest, d: Seq<u8>)
    requires
        image.len() <= usize::MAX,
        image_len_error(image.len() as usize) is None,
        is_sidecar_of(image, fec, blob),
        blob.len() <= usize::MAX,
    ensures
        stream_outcome(blob) == Ok::<(Seq<u8>, Seq<Seq<Seq<u8>>>), DfimError>(
            (fec, image_proof_paths(image)),
        ),
        blob.subrange(20, 52) == image_root(image),
        manifest_parsed_as(blob, m) ==> m.fec_backup@.len() > 0 && m.fec_backup@.len() % 2 == 0
            && block_accepted(m.fec_backup@),
        manifest_parsed_as(blob, m) && strictly_decodes_block(m.fec_backup@, d) ==> pipeline_outcome(
            image,
            m,
            d,
        ) == Ok::<(Seq<u8>, u32), DfimError>(
            (image_root(image), blocks_for(image.len() as int) as u32),
        ),
{
    let n = blocks_for(image.len() as int);
    assert(1 <= n <= 64);
    lemma_image_paths_shaped(image);
    law_block_round_trip(metadata_bytes(image_root(image), n as u32), fec);
    law_sidecar_round_trip(image_root(image), 4096, n as u32, fec, image_proof_paths(image));
    if manifest_parsed_as(blob, m) {
        law_matching_manifest_validates(image, m, d);
    }
}

} // verus!
