use dfim::boot_validate::{
    resolve_metadata_compact, validate_boot_image_compact, CompactManifest, CompactProof,
    DFIM_BLOCK_SIZE, MAX_FEC_BACKUP, MAX_PROOF_STEPS,
};
use dfim::digest::SHA256_LEN;
use dfim::error::DfimError;
use dfim::hamming::encode_block;
use dfim::merkle::MerkleTree;
use dfim::parser::{parse_block_stream, BLOCK_STREAM_MAGIC, BLOCK_STREAM_VERSION};
use dfim::uefi::manifest::{build_boot_sidecar, parse_boot_manifest, BootManifest};
use dfim::uefi::pipeline::validate_boot_image;
use dfim::uefi::rollback::{build_rollback_baseline, effective_minimum_release, parse_rollback_baseline};
use dfim::uefi::signed_manifest::{
    build_signed_boot_sidecar_v2, parse_and_verify_boot_sidecar_v2, public_key_sec1_from_private,
    validate_signed_boot_image_v2, TrustedManifestPolicy, V2_MERKLE_ROOT_OFFSET,
};

fn blocks_of(n: usize) -> Vec<Vec<u8>> {
    (0..n).map(|i| vec![i as u8; DFIM_BLOCK_SIZE]).collect()
}

fn metadata_fec(root: &[u8; 32], block_count: usize) -> Vec<u8> {
    let mut meta = [0u8; 40];
    meta[0..32].copy_from_slice(root.as_slice());
    meta[32..36].copy_from_slice(&(DFIM_BLOCK_SIZE as u32).to_le_bytes());
    meta[36..40].copy_from_slice(&(block_count as u32).to_le_bytes());
    encode_block(&meta).expect("fec")
}

fn compact_manifest(root: [u8; 32], block_count: usize, fec: &[u8]) -> CompactManifest {
    let mut manifest = CompactManifest {
        merkle_root: root,
        block_size: DFIM_BLOCK_SIZE as u32,
        block_count: block_count as u32,
        fec_len: fec.len() as u16,
        fec_backup: [0u8; MAX_FEC_BACKUP],
    };
    manifest.fec_backup[..fec.len()].copy_from_slice(fec);
    manifest
}

#[test]
fn compact_validation_matches_tree() {
    let blocks = blocks_of(4);
    let image: Vec<u8> = blocks.concat();
    let refs: Vec<&[u8]> = blocks.iter().map(|b| b.as_slice()).collect();
    let tree = MerkleTree::build(&refs).expect("tree");
    let root = *tree.root();
    let fec = metadata_fec(&root, blocks.len());
    let manifest = compact_manifest(root, blocks.len(), &fec);
    let mut proofs = Vec::new();
    for i in 0..blocks.len() {
        let p = tree.prove(i).expect("prove");
        let mut cp = CompactProof { step_count: p.steps.len() as u8, siblings: [[0u8; SHA256_LEN]; MAX_PROOF_STEPS] };
        for (j, step) in p.steps.iter().enumerate() {
            cp.siblings[j] = step.sibling;
        }
        proofs.push(cp);
    }
    validate_boot_image_compact(&image, &manifest, &proofs).expect("valid");

    let mut tampered = image.clone();
    tampered[DFIM_BLOCK_SIZE * 2] ^= 1;
    assert!(validate_boot_image_compact(&tampered, &manifest, &proofs).is_err());
}

#[test]
fn resolve_metadata_rejects_merkle_fec_mismatch() {
    let blocks = blocks_of(2);
    let refs: Vec<&[u8]> = blocks.iter().map(|b| b.as_slice()).collect();
    let tree = MerkleTree::build(&refs).expect("tree");
    let root = *tree.root();
    let fec = metadata_fec(&root, blocks.len());
    let mut manifest = compact_manifest(root, blocks.len(), &fec);
    assert_eq!(resolve_metadata_compact(&manifest).map(|r| r.0), Ok(root));
    manifest.merkle_root[0] ^= 0xff;
    assert_eq!(resolve_metadata_compact(&manifest).err(), Some(DfimError::CorruptMetadata));
}

#[test]
fn resolve_metadata_rejects_double_bit_fec_rot() {
    let blocks = blocks_of(2);
    let refs: Vec<&[u8]> = blocks.iter().map(|b| b.as_slice()).collect();
    let tree = MerkleTree::build(&refs).expect("tree");
    let root = *tree.root();
    let mut fec = metadata_fec(&root, blocks.len());
    fec[0] ^= 0x03;
    fec[1] ^= 0x05;
    let manifest = compact_manifest(root, blocks.len(), &fec);
    assert_eq!(resolve_metadata_compact(&manifest).err(), Some(DfimError::CorruptMetadata));
}

#[test]
fn parse_block_stream_round_trip() {
    let blocks = blocks_of(4);
    let refs: Vec<&[u8]> = blocks.iter().map(|b| b.as_slice()).collect();
    let tree = MerkleTree::build(&refs).expect("tree");
    let root = *tree.root();
    let fec = metadata_fec(&root, blocks.len());
    let mut blob = Vec::new();
    blob.extend_from_slice(&BLOCK_STREAM_MAGIC);
    blob.extend_from_slice(&BLOCK_STREAM_VERSION.to_le_bytes());
    blob.extend_from_slice(&(DFIM_BLOCK_SIZE as u32).to_le_bytes());
    blob.extend_from_slice(&(blocks.len() as u32).to_le_bytes());
    blob.extend_from_slice(root.as_slice());
    blob.extend_from_slice(&(fec.len() as u32).to_le_bytes());
    blob.extend_from_slice(&fec);
    for i in 0..blocks.len() {
        let proof = tree.prove(i).expect("prove");
        blob.push(proof.steps.len() as u8);
        for step in &proof.steps {
            blob.extend_from_slice(step.sibling.as_slice());
        }
    }
    let parsed = parse_block_stream(&blob).expect("parse");
    assert_eq!(parsed.block_count as usize, blocks.len());
    assert_eq!(parsed.merkle_root, root);
    assert_eq!(parsed.fec_backup, fec);
}

#[test]
fn round_trip_parse_generated_manifest() {
    let blocks = blocks_of(4);
    let image: Vec<u8> = blocks.concat();
    let blob = build_boot_sidecar(&image).expect("build");
    let parsed = parse_boot_manifest(&blob).expect("parse");
    assert_eq!(parsed.block_count as usize, blocks.len());
}

#[test]
fn parse_rejects_proof_depth_above_ebpf_cap() {
    let image: Vec<u8> = blocks_of(4).concat();
    let mut blob = build_boot_sidecar(&image).expect("build");
    let fec_len = u32::from_le_bytes(blob[52..56].try_into().unwrap()) as usize;
    let proof_step_offset = 56 + fec_len;
    blob[proof_step_offset] = (MAX_PROOF_STEPS + 1) as u8;
    assert_eq!(parse_boot_manifest(&blob).err(), Some(DfimError::InvalidParameter));
}

#[test]
fn provision_round_trip_matches_uefi_parser() {
    let image = vec![0x4D_u8; DFIM_BLOCK_SIZE * 3 + 512];
    let sidecar = build_boot_sidecar(&image).expect("build");
    let manifest = parse_boot_manifest(&sidecar).expect("parse");
    assert_eq!(manifest.block_count as usize, 4);
    validate_boot_image(&image, &manifest).expect("validate");
}

fn build_fixture(block_count: usize) -> (Vec<u8>, BootManifest) {
    let image: Vec<u8> = blocks_of(block_count).concat();
    let sidecar = build_boot_sidecar(&image).expect("build");
    let manifest = parse_boot_manifest(&sidecar).expect("parse");
    (image, manifest)
}

#[test]
fn validate_passes_for_signed_fixture() {
    let (image, manifest) = build_fixture(8);
    let result = validate_boot_image(&image, &manifest).expect("validate");
    assert_eq!(result.blocks_verified, 8);
    assert!(!result.fec_corrected);
    assert_eq!(result.payload, image);
}

#[test]
fn validate_rejects_tampered_block() {
    let (mut image, manifest) = build_fixture(4);
    image[DFIM_BLOCK_SIZE + 10] ^= 0xff;
    assert_eq!(validate_boot_image(&image, &manifest).err(), Some(DfimError::IntegrityFailure));
}

#[test]
fn build_sidecar_rejects_empty_and_oversized_images() {
    assert!(build_boot_sidecar(&[]).is_err());
    assert!(build_boot_sidecar(&vec![0u8; DFIM_BLOCK_SIZE * 64 + 1]).is_err());
}

const ROLLBACK_KEY_ID: [u8; 16] = *b"DFIM-ROLLBACK-01";

#[test]
fn rollback_baseline_round_trip() {
    let payload = build_rollback_baseline(ROLLBACK_KEY_ID, 42).expect("build");
    assert_eq!(parse_rollback_baseline(&payload, &ROLLBACK_KEY_ID).expect("parse"), 42);
}

#[test]
fn rollback_baseline_rejects_wrong_key_and_zero_counter() {
    assert_eq!(build_rollback_baseline(ROLLBACK_KEY_ID, 0).err(), Some(DfimError::InvalidParameter));
    let payload = build_rollback_baseline(ROLLBACK_KEY_ID, 4).expect("build");
    assert_eq!(parse_rollback_baseline(&payload, &[0xAA; 16]).err(), Some(DfimError::IntegrityFailure));
}

#[test]
fn persisted_floor_can_only_raise_compiled_floor() {
    assert_eq!(effective_minimum_release(7, 9).expect("floor"), 9);
    assert_eq!(effective_minimum_release(9, 7).expect("floor"), 9);
}

const PRIVATE_KEY: [u8; 32] = [0x11; 32];
const KEY_ID: [u8; 16] = *b"DFIM-TEST-KEY-01";

fn fixture() -> Vec<u8> {
    vec![0x4D; DFIM_BLOCK_SIZE * 2]
}

fn policy(minimum_release: u64) -> TrustedManifestPolicy {
    TrustedManifestPolicy {
        public_key_sec1: public_key_sec1_from_private(&PRIVATE_KEY).expect("public key"),
        expected_key_id: KEY_ID,
        minimum_release,
    }
}

#[test]
fn signed_v2_round_trip_is_verified() {
    let blob = build_signed_boot_sidecar_v2(&fixture(), &PRIVATE_KEY, KEY_ID, 7).expect("signed");
    let verified = parse_and_verify_boot_sidecar_v2(&blob, &policy(7)).expect("verified");
    assert_eq!(verified.release_counter, 7);
    assert_eq!(verified.key_id, KEY_ID);
    assert_eq!(verified.manifest.block_count, 2);
}

#[test]
fn trusted_pipeline_validates_signed_image() {
    let image = fixture();
    let blob = build_signed_boot_sidecar_v2(&image, &PRIVATE_KEY, KEY_ID, 7).expect("signed");
    let validated = validate_signed_boot_image_v2(&image, &blob, &policy(7)).expect("validated");
    assert_eq!(validated.release_counter, 7);
    assert_eq!(validated.boot.blocks_verified, 2);
}

#[test]
fn trusted_pipeline_rejects_image_tamper() {
    let image = fixture();
    let blob = build_signed_boot_sidecar_v2(&image, &PRIVATE_KEY, KEY_ID, 7).expect("signed");
    let mut tampered = image;
    tampered[3] ^= 1;
    assert_eq!(
        validate_signed_boot_image_v2(&tampered, &blob, &policy(7)).err(),
        Some(DfimError::IntegrityFailure)
    );
}

#[test]
fn signed_v2_rejects_payload_tamper() {
    let mut blob = build_signed_boot_sidecar_v2(&fixture(), &PRIVATE_KEY, KEY_ID, 7).expect("signed");
    blob[V2_MERKLE_ROOT_OFFSET] ^= 1;
    assert_eq!(parse_and_verify_boot_sidecar_v2(&blob, &policy(7)).err(), Some(DfimError::IntegrityFailure));
}

#[test]
fn signed_v2_rejects_signature_tamper() {
    let mut blob = build_signed_boot_sidecar_v2(&fixture(), &PRIVATE_KEY, KEY_ID, 7).expect("signed");
    let last = blob.len() - 1;
    blob[last] ^= 1;
    assert_eq!(parse_and_verify_boot_sidecar_v2(&blob, &policy(7)).err(), Some(DfimError::IntegrityFailure));
}

#[test]
fn signed_v2_rejects_rollback() {
    let blob = build_signed_boot_sidecar_v2(&fixture(), &PRIVATE_KEY, KEY_ID, 6).expect("signed");
    assert_eq!(parse_and_verify_boot_sidecar_v2(&blob, &policy(7)).err(), Some(DfimError::IntegrityFailure));
}

#[test]
fn signed_v2_rejects_wrong_key_id() {
    let blob = build_signed_boot_sidecar_v2(&fixture(), &PRIVATE_KEY, [0xAA; 16], 7).expect("signed");
    assert_eq!(parse_and_verify_boot_sidecar_v2(&blob, &policy(7)).err(), Some(DfimError::IntegrityFailure));
}

#[test]
fn trusted_parser_rejects_legacy_v1() {
    let legacy = build_boot_sidecar(&fixture()).expect("legacy");
    assert_eq!(parse_and_verify_boot_sidecar_v2(&legacy, &policy(1)).err(), Some(DfimError::InvalidParameter));
}

#[test]
fn compact_and_full_proofs_agree() {
    let blocks = blocks_of(5);
    let refs: Vec<&[u8]> = blocks.iter().map(|b| b.as_slice()).collect();
    let tree = MerkleTree::build(&refs).expect("tree");
    let root = *tree.root();
    let mut wrong_root = root;
    wrong_root[7] ^= 0x40;
    for i in 0..blocks.len() {
        let p = tree.prove(i).expect("prove");
        let mut cp = CompactProof { step_count: p.steps.len() as u8, siblings: [[0u8; SHA256_LEN]; MAX_PROOF_STEPS] };
        for (j, step) in p.steps.iter().enumerate() {
            cp.siblings[j] = step.sibling;
        }
        for r in [&root, &wrong_root] {
            for k in [i, (i + 1) % blocks.len()] {
                let full = dfim::merkle::verify_proof(r, &blocks[k], k, &p).expect("full");
                let compact = cp.verify_block(r, &blocks[k], k).expect("compact");
                assert_eq!(full, compact);
            }
        }
        assert!(cp.verify_block(&root, &blocks[i], i).expect("compact"));
    }
}

#[test]
fn scratch_and_buffer_resolution_agree() {
    let blocks = blocks_of(3);
    let refs: Vec<&[u8]> = blocks.iter().map(|b| b.as_slice()).collect();
    let tree = MerkleTree::build(&refs).expect("tree");
    let root = *tree.root();
    let fec = metadata_fec(&root, blocks.len());
    let good = compact_manifest(root, blocks.len(), &fec);
    let mut bad_root = good;
    bad_root.merkle_root[3] ^= 1;
    let mut rotten = fec.clone();
    rotten[2] ^= 0x03;
    let rot = compact_manifest(root, blocks.len(), &rotten);
    for m in [good, bad_root, rot] {
        let mut d = [0u8; 64];
        let mut l = 0usize;
        let buffered = dfim::boot_validate::resolve_metadata_into(&m, &mut d, &mut l);
        let mut scratch = dfim::boot_validate::BpfValidateScratch {
            block: [9u8; DFIM_BLOCK_SIZE],
            fec_decoded: [0u8; 64],
            fec_len: 0,
            root: [0u8; 32],
            index: 2,
            block_count: 0,
            proof: CompactProof { step_count: 0, siblings: [[0u8; SHA256_LEN]; MAX_PROOF_STEPS] },
        };
        let scratched = dfim::boot_validate::resolve_metadata_from_scratch(&mut scratch, &m);
        assert_eq!(scratched, buffered.map(|_| ()));
        if scratched.is_ok() {
            assert_eq!(scratch.root, m.merkle_root);
            assert_eq!(scratch.block_count, m.block_count);
        }
        assert_eq!(scratch.index, 2);
        assert_eq!(scratch.block, [9u8; DFIM_BLOCK_SIZE]);
    }
}

#[test]
fn tampered_image_is_refused_with_integrity_failure() {
    let image: Vec<u8> = (0..3 * DFIM_BLOCK_SIZE + 17).map(|i| (i * 7 % 251) as u8).collect();
    let manifest = parse_boot_manifest(&build_boot_sidecar(&image).expect("sidecar")).expect("parse");
    let ok = validate_boot_image(&image, &manifest).expect("valid");
    assert_eq!(ok.payload, image);
    assert!(!ok.fec_corrected);
    for at in [0usize, DFIM_BLOCK_SIZE + 5, 3 * DFIM_BLOCK_SIZE + 16] {
        let mut tampered = image.clone();
        tampered[at] ^= 0x80;
        assert_eq!(validate_boot_image(&tampered, &manifest).err(), Some(DfimError::IntegrityFailure));
    }
}
