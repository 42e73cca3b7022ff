//! Fixed-buffer boot validation limits and compact (no-heap) block validation.
use vstd::prelude::*;
use crate::codec::{le_u32, read_le_u32_at, copy_32};
use crate::crypto::constant_time_hash_eq;
use crate::digest::{sha256_digest, sha256_of, SHA256_LEN};
use crate::error::DfimError;
use crate::hamming::{decode_block_into_strict, pair_rejected, pair_strictly_decodes_at};
use crate::integrity_gate::assert_block_index;
use crate::merkle::{parent_hash, path_hash, proof_siblings, MerkleProof};

verus! {

/// Layer-0 block size.
pub const DFIM_BLOCK_SIZE: usize = 4096;

/// Maximum blocks verifiable in a single boot validation.
pub const MAX_BOOT_BLOCKS: usize = 64;

/// Maximum guarded image bytes (`MAX_BOOT_BLOCKS * DFIM_BLOCK_SIZE`).
pub const MAX_IMAGE_BYTES: usize = 262144;

/// Maximum Merkle proof depth supported in kernel probes.
pub const MAX_PROOF_STEPS: usize = 16;

/// Maximum Hamming FEC backup bytes in compact manifests.
pub const MAX_FEC_BACKUP: usize = 128;

/// The error, if any, that a manifest block count draws.
pub open spec fn block_count_error(block_count: u32) -> Option<DfimError> {
    if block_count == 0 {
        Some(DfimError::InvalidParameter)
    } else if block_count > MAX_BOOT_BLOCKS {
        Some(DfimError::ParameterOverflow)
    } else {
        None
    }
}

/// Rejects manifests whose block count is zero or exceeds the Layer-0 cap.
pub fn validate_block_count(block_count: u32) -> (r: Result<(), DfimError>)
    ensures
        r is Ok <==> block_count_error(block_count) is None,
        r matches Err(e) ==> block_count_error(block_count) == Some(e),
{
    if block_count == 0 {
        return Err(DfimError::InvalidParameter);
    }
    if block_count as usize > MAX_BOOT_BLOCKS {
        return Err(DfimError::ParameterOverflow);
    }
    Ok(())
}

/// The error, if any, that an image byte length draws.
pub open spec fn image_len_error(image_len: usize) -> Option<DfimError> {
    if image_len == 0 {
        Some(DfimError::EmptyInput)
    } else if image_len > MAX_IMAGE_BYTES {
        Some(DfimError::BufferTooLong)
    } else {
        None
    }
}

/// Number of `DFIM_BLOCK_SIZE` blocks needed to hold `len` bytes.
pub open spec fn blocks_for(len: int) -> int {
    (len + DFIM_BLOCK_SIZE - 1) / (DFIM_BLOCK_SIZE as int)
}

/// Rejects empty images and images above the Layer-0 cap.
pub fn validate_image_byte_len(image_len: usize) -> (r: Result<(), DfimError>)
    ensures
        r is Ok <==> image_len_error(image_len) is None,
        r matches Err(e) ==> image_len_error(image_len) == Some(e),
        r is Ok ==> 1 <= blocks_for(image_len as int) <= MAX_BOOT_BLOCKS,
{
    if image_len == 0 {
        return Err(DfimError::EmptyInput);
    }
    if image_len > MAX_IMAGE_BYTES {
        return Err(DfimError::BufferTooLong);
    }
    let blocks = image_len / DFIM_BLOCK_SIZE + if image_len % DFIM_BLOCK_SIZE == 0 { 0 } else { 1 };
    assert(blocks == blocks_for(image_len as int));
    if blocks > MAX_BOOT_BLOCKS {
        return Err(DfimError::ParameterOverflow);
    }
    Ok(())
}

/// Compact Merkle proof with a fixed number of sibling slots.
#[derive(Clone, Copy)]
pub struct CompactProof {
    pub step_count: u8,
    pub siblings: [[u8; SHA256_LEN]; MAX_PROOF_STEPS],
}

/// The siblings a compact proof uses: its first `step_count` slots.
pub open spec fn compact_siblings(p: CompactProof) -> Seq<Seq<u8>> {
    Seq::new(p.step_count as nat, |k: int| p.siblings@[k]@)
}

/// Whether a compact proof for `block` at `index` reaches `root`.
pub open spec fn compact_proof_holds(p: CompactProof, root: Seq<u8>, block: Seq<u8>, index: nat) -> bool {
    path_hash(sha256_of(block), compact_siblings(p), index) == root
}

impl CompactProof {
    /// Verifies one block against `root` by folding in the proof's siblings.
    pub fn verify_block(&self, root: &[u8; SHA256_LEN], block: &[u8], index: usize) -> (res: Result<
        bool,
        DfimError,
    >)
        ensures
            res is Err <==> self.step_count > MAX_PROOF_STEPS,
            res is Err ==> res == Err::<bool, DfimError>(DfimError::InvalidParameter),
            res matches Ok(b) ==> b == compact_proof_holds(*self, root@, block@, index as nat),
    {
        let steps = self.step_count as usize;
        if steps > MAX_PROOF_STEPS {
            return Err(DfimError::InvalidParameter);
        }
        let ghost sibs = compact_siblings(*self);
        let mut hash = sha256_digest(block);
        let mut idx = index;
        let mut k: usize = 0;
        assert(sibs.subrange(0, steps as int) =~= sibs);
        while k < steps
            invariant
                steps == self.step_count <= MAX_PROOF_STEPS,
                sibs == compact_siblings(*self),
                k <= steps,
                path_hash(hash@, sibs.subrange(k as int, steps as int), idx as nat) == path_hash(
                    sha256_of(block@),
                    sibs,
                    index as nat,
                ),
            decreases steps - k,
        {
            let sibling = self.siblings[k];
            assert(sibs.subrange(k as int, steps as int).drop_first() =~= sibs.subrange(
                k + 1,
                steps as int,
            ));
            hash = if idx % 2 == 0 {
                parent_hash(&hash, &sibling)
            } else {
                parent_hash(&sibling, &hash)
            };
            idx = idx / 2;
            k = k + 1;
        }
        assert(sibs.subrange(steps as int, steps as int) =~= Seq::<Seq<u8>>::empty());
        Ok(constant_time_hash_eq(&hash, root))
    }
}

/// A compact proof and a full proof with the same siblings give the same verdict on every
/// root, block and index: the compact check holds exactly when the full proof's path from the
/// block's digest reaches the root.
pub proof fn law_compact_proof_agrees(cp: CompactProof, p: MerkleProof, root: Seq<u8>, block: Seq<u8>, index: nat)
    requires
        p.steps@.len() <= MAX_PROOF_STEPS,
        cp.step_count == p.steps@.len(),
        forall|k: int| 0 <= k < p.steps@.len() ==> #[trigger] cp.siblings@[k] == p.steps@[k].sibling,
    ensures
        cp.step_count <= MAX_PROOF_STEPS,
        compact_proof_holds(cp, root, block, index) == (path_hash(sha256_of(block), proof_siblings(p), index)
            == root),
{
    assert(compact_siblings(cp) =~= proof_siblings(p));
}

/// Compact manifest with an inline Hamming backup of the metadata.
#[derive(Clone, Copy)]
pub struct CompactManifest {
    pub merkle_root: [u8; SHA256_LEN],
    pub block_size: u32,
    pub block_count: u32,
    pub fec_len: u16,
    pub fec_backup: [u8; MAX_FEC_BACKUP],
}

/// The backup bytes a manifest declares: empty when its length exceeds the buffer.
pub open spec fn fec_bytes(m: CompactManifest) -> Seq<u8> {
    if m.fec_len > MAX_FEC_BACKUP {
        Seq::empty()
    } else {
        m.fec_backup@.subrange(0, m.fec_len as int)
    }
}

impl CompactManifest {
    /// The declared part of the backup buffer.
    pub fn fec_slice(&self) -> (s: &[u8])
        ensures
            s@ == fec_bytes(*self),
    {
        let len = self.fec_len as usize;
        if len > MAX_FEC_BACKUP {
            let empty: &[u8] = &[];
            assert(empty@ =~= Seq::<u8>::empty());
            return empty;
        }
        let all = self.fec_backup.as_slice();
        &all[0..len]
    }
}

/// `d` is the strict Hamming(7,4) decoding of the whole block `e`.
pub open spec fn strictly_decodes_block(e: Seq<u8>, d: Seq<u8>) -> bool {
    &&& d.len() == e.len() / 2
    &&& forall|j: int| 0 <= j < d.len() ==> #[trigger] pair_strictly_decodes_at(e, j, d[j])
}

/// A received block strictly decodes to at most one byte string.
pub proof fn lemma_strict_block_decoding_unique(e: Seq<u8>, d1: Seq<u8>, d2: Seq<u8>)
    requires
        strictly_decodes_block(e, d1),
        strictly_decodes_block(e, d2),
    ensures
        d1 == d2,
{
    assert forall|j: int| 0 <= j < d1.len() implies d1[j] == d2[j] by {
        let b1 = d1[j];
        let b2 = d2[j];
        assert(crate::hamming::pair_strictly_decodes_at(e, j, b1));
        assert(crate::hamming::pair_strictly_decodes_at(e, j, b2));
        let c0 = crate::hamming::received_nibble(e[2 * j]);
        let c1 = crate::hamming::received_nibble(e[2 * j + 1]);
        let s1 = choose|s: u32| #[trigger] crate::hamming::is_decoding_of(c0, 4, crate::hamming::hi_nibble(b1), s) && crate::hamming::strict_accepts(c0, 4, crate::hamming::hi_nibble(b1), s);
        let s2 = choose|s: u32| #[trigger] crate::hamming::is_decoding_of(c0, 4, crate::hamming::hi_nibble(b2), s) && crate::hamming::strict_accepts(c0, 4, crate::hamming::hi_nibble(b2), s);
        crate::hamming::law_decoding_unique(c0, 4, crate::hamming::hi_nibble(b1), s1, crate::hamming::hi_nibble(b2), s2);
        let t1 = choose|s: u32| #[trigger] crate::hamming::is_decoding_of(c1, 4, crate::hamming::lo_nibble(b1), s) && crate::hamming::strict_accepts(c1, 4, crate::hamming::lo_nibble(b1), s);
        let t2 = choose|s: u32| #[trigger] crate::hamming::is_decoding_of(c1, 4, crate::hamming::lo_nibble(b2), s) && crate::hamming::strict_accepts(c1, 4, crate::hamming::lo_nibble(b2), s);
        crate::hamming::law_decoding_unique(c1, 4, crate::hamming::lo_nibble(b1), t1, crate::hamming::lo_nibble(b2), t2);
        assert((b1 >> 4u8) == (b2 >> 4u8) && (b1 & 0x0fu8) == (b2 & 0x0fu8) ==> b1 == b2) by (bit_vector);
    }
    assert(d1 =~= d2);
}


/// Every pair of the block strictly decodes.
pub open spec fn block_accepted(e: Seq<u8>) -> bool {
    forall|j: int| 0 <= j < e.len() / 2 ==> !#[trigger] pair_rejected(e, j)
}

/// Metadata read from decoded backup bytes `d` (root, block size, block count), checked
/// for sanity and against the cleartext header fields.
pub open spec fn metadata_check(
    header_root: Seq<u8>,
    header_block_size: u32,
    header_block_count: u32,
    d: Seq<u8>,
) -> Result<(Seq<u8>, u32, u32), DfimError> {
    let root = d.subrange(0, 32);
    let bs = le_u32(d.subrange(32, 36));
    let bc = le_u32(d.subrange(36, 40));
    if bs != DFIM_BLOCK_SIZE || bc == 0 {
        Err(DfimError::InvalidParameter)
    } else if bc > MAX_BOOT_BLOCKS {
        Err(DfimError::ParameterOverflow)
    } else if header_root == root && header_block_size == bs && header_block_count == bc {
        Ok((root, bs as u32, bc as u32))
    } else {
        Err(DfimError::CorruptMetadata)
    }
}

/// Metadata read from decoded backup bytes `d`, checked against the manifest fields.
pub open spec fn metadata_from(m: CompactManifest, d: Seq<u8>) -> Result<(Seq<u8>, u32, u32), DfimError> {
    metadata_check(m.merkle_root@, m.block_size, m.block_count, d)
}

/// View of a metadata result, the root taken as a sequence.
pub open spec fn metadata_view(r: Result<([u8; SHA256_LEN], u32, u32), DfimError>) -> Result<(Seq<u8>, u32, u32), DfimError> {
    match r {
        Ok((root, bs, bc)) => Ok((root@, bs, bc)),
        Err(e) => Err(e),
    }
}

/// What metadata resolution owes when the backup decodes to `d`.
pub open spec fn resolve_outcome(m: CompactManifest, d: Seq<u8>) -> Result<(Seq<u8>, u32, u32), DfimError> {
    if d.len() < 40 {
        Err(DfimError::BufferTooShort)
    } else {
        metadata_from(m, d)
    }
}

/// `res`, `decoded` and `decoded_len` are what resolving the metadata of `m` into a caller
/// buffer gives, from `old_decoded` and `old_len`: a backup of bad shape is refused with
/// `InvalidParameter` and leaves the buffer alone; a backup the strict decoder rejects gives
/// `CorruptMetadata`; otherwise the buffer holds the decoded backup and `res` is the check of
/// the metadata read from it.
pub open spec fn resolved_into(
    m: CompactManifest,
    old_decoded: [u8; 64],
    old_len: usize,
    decoded: [u8; 64],
    decoded_len: usize,
    res: Result<([u8; SHA256_LEN], u32, u32), DfimError>,
) -> bool {
    let fec = fec_bytes(m);
    &&& !(fec.len() > 0 && fec.len() % 2 == 0) ==> res == Err::<([u8; SHA256_LEN], u32, u32), DfimError>(
        DfimError::InvalidParameter,
    ) && decoded == old_decoded && decoded_len == old_len
    &&& fec.len() > 0 && fec.len() % 2 == 0 ==> {
        &&& !block_accepted(fec) ==> res == Err::<([u8; SHA256_LEN], u32, u32), DfimError>(
            DfimError::CorruptMetadata,
        )
        &&& block_accepted(fec) ==> {
            &&& decoded_len == fec.len() / 2
            &&& strictly_decodes_block(fec, decoded@.subrange(0, decoded_len as int))
            &&& metadata_view(res) == resolve_outcome(m, decoded@.subrange(0, decoded_len as int))
        }
    }
}

/// `res` and `after` are what resolving the metadata of `m` into the scratch `before` gives: the
/// block, index and proof are kept; a backup of bad shape is refused with `InvalidParameter`
/// and leaves the scratch alone; a backup the strict decoder rejects gives `CorruptMetadata`;
/// otherwise the scratch holds the decoded backup, the root and block count read from it, and
/// `res` is the check of that metadata.
pub open spec fn resolved_into_scratch(
    m: CompactManifest,
    before: BpfValidateScratch,
    after: BpfValidateScratch,
    res: Result<(), DfimError>,
) -> bool {
    let fec = fec_bytes(m);
    &&& after.block == before.block
    &&& after.index == before.index
    &&& after.proof == before.proof
    &&& !(fec.len() > 0 && fec.len() % 2 == 0) ==> res == Err::<(), DfimError>(DfimError::InvalidParameter)
        && after == before
    &&& fec.len() > 0 && fec.len() % 2 == 0 ==> {
        &&& !block_accepted(fec) ==> res == Err::<(), DfimError>(DfimError::CorruptMetadata)
        &&& block_accepted(fec) ==> {
            let d = after.fec_decoded@.subrange(0, after.fec_len as int);
            &&& after.fec_len == fec.len() / 2
            &&& strictly_decodes_block(fec, d)
            &&& (res is Ok <==> resolve_outcome(m, d) is Ok)
            &&& res matches Err(e) ==> resolve_outcome(m, d) == Err::<(Seq<u8>, u32, u32), DfimError>(e)
            &&& d.len() >= 40 ==> after.root@ == d.subrange(0, 32) && after.block_count == le_u32(
                d.subrange(36, 40),
            )
        }
    }
}

/// Resolving into the scratch and resolving into a caller buffer agree: the same error, or
/// success in both, and then the scratch holds the manifest's own root and block count.
pub proof fn law_scratch_resolution_agrees(
    m: CompactManifest,
    old_decoded: [u8; 64],
    old_len: usize,
    decoded: [u8; 64],
    decoded_len: usize,
    res: Result<([u8; SHA256_LEN], u32, u32), DfimError>,
    before: BpfValidateScratch,
    after: BpfValidateScratch,
    scratch_res: Result<(), DfimError>,
)
    requires
        resolved_into(m, old_decoded, old_len, decoded, decoded_len, res),
        resolved_into_scratch(m, before, after, scratch_res),
    ensures
        match res {
            Ok(_) => scratch_res is Ok,
            Err(e) => scratch_res == Err::<(), DfimError>(e),
        },
        scratch_res is Ok ==> after.root == m.merkle_root && after.block_count == m.block_count,
{
    let fec = fec_bytes(m);
    if fec.len() > 0 && fec.len() % 2 == 0 && block_accepted(fec) {
        let d1 = decoded@.subrange(0, decoded_len as int);
        let d2 = after.fec_decoded@.subrange(0, after.fec_len as int);
        lemma_strict_block_decoding_unique(fec, d1, d2);
        if scratch_res is Ok {
            assert(after.root@ =~= m.merkle_root@);
        }
    }
}

/// Recovers manifest metadata from the Hamming backup into a caller buffer and checks it
/// against the manifest fields.
pub fn resolve_metadata_into(
    manifest: &CompactManifest,
    decoded: &mut [u8; 64],
    decoded_len: &mut usize,
) -> (res: Result<([u8; SHA256_LEN], u32, u32), DfimError>)
    ensures
        resolved_into(*manifest, *old(decoded), *old(decoded_len), *final(decoded), *final(decoded_len), res),
{
    let fec = manifest.fec_slice();
    if fec.len() == 0 || fec.len() % 2 != 0 {
        return Err(DfimError::InvalidParameter);
    }
    *decoded_len = 0;
    let r = decode_block_into_strict(fec, decoded, decoded_len);
    match r {
        Ok(()) => {},
        Err(e) => {
            return Err(e);
        },
    }
    if *decoded_len < 40 {
        return Err(DfimError::BufferTooShort);
    }
    let ghost d = decoded@.subrange(0, *decoded_len as int);
    let dslice = decoded.as_slice();
    let fec_root = copy_32(dslice, 0);
    let block_size = read_le_u32_at(dslice, 32);
    let block_count = read_le_u32_at(dslice, 36);
    assert(fec_root@ == d.subrange(0, 32));
    assert(d.subrange(32, 36) =~= decoded@.subrange(32, 36));
    assert(d.subrange(36, 40) =~= decoded@.subrange(36, 40));
    if block_size as usize != DFIM_BLOCK_SIZE || block_count == 0 {
        return Err(DfimError::InvalidParameter);
    }
    validate_block_count(block_count)?;
    if constant_time_hash_eq(&manifest.merkle_root, &fec_root) && manifest.block_size == block_size
        && manifest.block_count == block_count {
        return Ok((fec_root, block_size, block_count));
    }
    Err(DfimError::CorruptMetadata)
}

/// Recovers and checks manifest metadata from the Hamming backup.
pub fn resolve_metadata_compact(manifest: &CompactManifest) -> (res: Result<
    ([u8; SHA256_LEN], u32, u32),
    DfimError,
>)
    ensures
        !(fec_bytes(*manifest).len() > 0 && fec_bytes(*manifest).len() % 2 == 0) ==> res == Err::<
            ([u8; SHA256_LEN], u32, u32),
            DfimError,
        >(DfimError::InvalidParameter),
        fec_bytes(*manifest).len() > 0 && fec_bytes(*manifest).len() % 2 == 0 ==> {
            &&& !block_accepted(fec_bytes(*manifest)) ==> res == Err::<
                ([u8; SHA256_LEN], u32, u32),
                DfimError,
            >(DfimError::CorruptMetadata)
            &&& block_accepted(fec_bytes(*manifest)) ==> exists|d: Seq<u8>|
                #[trigger] strictly_decodes_block(fec_bytes(*manifest), d) && metadata_view(res)
                    == resolve_outcome(*manifest, d)
        },
{
    let mut decoded = [0u8; 64];
    let mut decoded_len: usize = 0;
    let r = resolve_metadata_into(manifest, &mut decoded, &mut decoded_len);
    proof {
        let fec = fec_bytes(*manifest);
        if fec.len() > 0 && fec.len() % 2 == 0 && block_accepted(fec) {
            let d = decoded@.subrange(0, decoded_len as int);
            assert(strictly_decodes_block(fec, d));
        }
    }
    r
}

/// Validates one 4096-byte block against a compact proof.
pub fn validate_block_compact(
    root: &[u8; SHA256_LEN],
    block: &[u8],
    index: usize,
    proof: &CompactProof,
) -> (res: Result<(), DfimError>)
    ensures
        res == block_verdict(*proof, root@, block@, index as nat),
{
    if block.len() != DFIM_BLOCK_SIZE {
        return Err(DfimError::InvalidParameter);
    }
    if proof.verify_block(root, block, index)? {
        Ok(())
    } else {
        Err(DfimError::IntegrityFailure)
    }
}

/// The verdict on one block: its size, its proof's length, then the proof itself.
pub open spec fn block_verdict(p: CompactProof, root: Seq<u8>, block: Seq<u8>, index: nat) -> Result<(), DfimError> {
    if block.len() != DFIM_BLOCK_SIZE {
        Err(DfimError::InvalidParameter)
    } else if p.step_count > MAX_PROOF_STEPS {
        Err(DfimError::InvalidParameter)
    } else if compact_proof_holds(p, root, block, index) {
        Ok(())
    } else {
        Err(DfimError::IntegrityFailure)
    }
}

/// Block `i` of an image, zero-padded to `DFIM_BLOCK_SIZE` bytes.
pub open spec fn padded_block(image: Seq<u8>, i: int) -> Seq<u8> {
    let start = i * DFIM_BLOCK_SIZE;
    let end = if start + DFIM_BLOCK_SIZE <= image.len() {
        start + DFIM_BLOCK_SIZE
    } else {
        image.len() as int
    };
    image.subrange(start, end) + Seq::new((DFIM_BLOCK_SIZE - (end - start)) as nat, |k: int| 0u8)
}

/// Copies block `index` of an image, zero-padded to `DFIM_BLOCK_SIZE` bytes.
pub(crate) fn copy_padded_block(image: &[u8], index: usize) -> (block: Vec<u8>)
    requires
        image@.len() <= MAX_IMAGE_BYTES,
        index < blocks_for(image@.len() as int),
    ensures
        block@ == padded_block(image@, index as int),
{
    let start = index * DFIM_BLOCK_SIZE;
    let end = if start + DFIM_BLOCK_SIZE <= image.len() {
        start + DFIM_BLOCK_SIZE
    } else {
        image.len()
    };
    let mut block: Vec<u8> = Vec::new();
    let mut k: usize = start;
    while k < end
        invariant
            start <= k <= end <= image@.len(),
            block@ == image@.subrange(start as int, k as int),
        decreases end - k,
    {
        block.push(image[k]);
        k = k + 1;
    }
    let mut z: usize = end - start;
    while z < DFIM_BLOCK_SIZE
        invariant
            end - start <= z <= DFIM_BLOCK_SIZE,
            block@ == image@.subrange(start as int, end as int) + Seq::new(
                (z - (end - start)) as nat,
                |k: int| 0u8,
            ),
        decreases DFIM_BLOCK_SIZE - z,
    {
        block.push(0u8);
        z = z + 1;
        assert(block@ =~= image@.subrange(start as int, end as int) + Seq::new(
            (z - (end - start)) as nat,
            |k: int| 0u8,
        ));
    }
    assert(block@ =~= padded_block(image@, index as int));
    block
}

/// Verdicts on blocks `k ..` of `count`, stopping at the first failure.
pub open spec fn blocks_outcome(
    image: Seq<u8>,
    proofs: Seq<CompactProof>,
    root: Seq<u8>,
    k: nat,
    count: nat,
) -> Result<(), DfimError>
    decreases count - k,
{
    if k >= count {
        Ok(())
    } else {
        match block_verdict(proofs[k as int], root, padded_block(image, k as int), k) {
            Err(e) => Err(e),
            Ok(()) => blocks_outcome(image, proofs, root, k + 1, count),
        }
    }
}

/// What validating an image owes once the backup decodes to `d`.
pub open spec fn image_outcome(
    image: Seq<u8>,
    m: CompactManifest,
    proofs: Seq<CompactProof>,
    d: Seq<u8>,
) -> Result<(), DfimError> {
    match resolve_outcome(m, d) {
        Err(e) => Err(e),
        Ok((root, bs, bc)) => if proofs.len() != bc {
            Err(DfimError::IntegrityFailure)
        } else if blocks_for(image.len() as int) != bc {
            Err(DfimError::IntegrityFailure)
        } else {
            blocks_outcome(image, proofs, root, 0, bc as nat)
        },
    }
}

/// Every block from `k` on has its proof checked when the walk over them succeeds.
proof fn lemma_blocks_outcome_ok(image: Seq<u8>, proofs: Seq<CompactProof>, root: Seq<u8>, k: nat, count: nat)
    requires
        blocks_outcome(image, proofs, root, k, count) is Ok,
    ensures
        forall|i: int| k <= i < count ==> #[trigger] compact_proof_holds(proofs[i], root, padded_block(image, i), i as nat),
    decreases count - k,
{
    if k < count {
        lemma_blocks_outcome_ok(image, proofs, root, k + 1, count);
    }
}

/// What an accepted compact validation establishes: the image has exactly as many blocks as
/// the manifest enrolled (no byte lies beyond the checked blocks), there is one proof per
/// block, and every block's proof reaches the manifest's Merkle root.
pub proof fn law_compact_validation_covers_image(
    image: Seq<u8>,
    m: CompactManifest,
    proofs: Seq<CompactProof>,
    d: Seq<u8>,
)
    requires
        image_outcome(image, m, proofs, d) is Ok,
    ensures
        blocks_for(image.len() as int) == m.block_count,
        proofs.len() == m.block_count,
        forall|i: int| 0 <= i < m.block_count ==> #[trigger] compact_proof_holds(
            proofs[i],
            m.merkle_root@,
            padded_block(image, i),
            i as nat,
        ),
{
    let (root, bs, bc) = resolve_outcome(m, d)->Ok_0;
    assert(root =~= m.merkle_root@);
    lemma_blocks_outcome_ok(image, proofs, root, 0, bc as nat);
}

/// Validates a whole image: size cap, metadata recovered from the backup, then every block
/// against its compact proof.
pub fn validate_boot_image_compact(
    image: &[u8],
    manifest: &CompactManifest,
    proofs: &[CompactProof],
) -> (res: Result<(), DfimError>)
    ensures
        image_len_error(image@.len() as usize) matches Some(e) ==> res == Err::<(), DfimError>(e),
        image_len_error(image@.len() as usize) is None ==> {
            let fec = fec_bytes(*manifest);
            &&& !(fec.len() > 0 && fec.len() % 2 == 0) ==> res == Err::<(), DfimError>(
                DfimError::InvalidParameter,
            )
            &&& (fec.len() > 0 && fec.len() % 2 == 0 && !block_accepted(fec)) ==> res == Err::<
                (),
                DfimError,
            >(DfimError::CorruptMetadata)
            &&& (fec.len() > 0 && fec.len() % 2 == 0 && block_accepted(fec)) ==> exists|d: Seq<u8>|
                #[trigger] strictly_decodes_block(fec, d) && res == image_outcome(
                    image@,
                    *manifest,
                    proofs@,
                    d,
                )
        },
        res is Ok ==> blocks_for(image@.len() as int) == manifest.block_count && proofs@.len()
            == manifest.block_count && forall|i: int|
            0 <= i < manifest.block_count ==> #[trigger] compact_proof_holds(
                proofs@[i],
                manifest.merkle_root@,
                padded_block(image@, i),
                i as nat,
            ),
{
    let res = validate_boot_image_compact_body(image, manifest, proofs);
    proof {
        if res is Ok {
            let fec = fec_bytes(*manifest);
            let d = choose|d: Seq<u8>| #[trigger] strictly_decodes_block(fec, d) && res == image_outcome(
                image@,
                *manifest,
                proofs@,
                d,
            );
            law_compact_validation_covers_image(image@, *manifest, proofs@, d);
        }
    }
    res
}

fn validate_boot_image_compact_body(
    image: &[u8],
    manifest: &CompactManifest,
    proofs: &[CompactProof],
) -> (res: Result<(), DfimError>)
    ensures
        image_len_error(image@.len() as usize) matches Some(e) ==> res == Err::<(), DfimError>(e),
        image_len_error(image@.len() as usize) is None ==> {
            let fec = fec_bytes(*manifest);
            &&& !(fec.len() > 0 && fec.len() % 2 == 0) ==> res == Err::<(), DfimError>(
                DfimError::InvalidParameter,
            )
            &&& (fec.len() > 0 && fec.len() % 2 == 0 && !block_accepted(fec)) ==> res == Err::<
                (),
                DfimError,
            >(DfimError::CorruptMetadata)
            &&& (fec.len() > 0 && fec.len() % 2 == 0 && block_accepted(fec)) ==> exists|d: Seq<u8>|
                #[trigger] strictly_decodes_block(fec, d) && res == image_outcome(
                    image@,
                    *manifest,
                    proofs@,
                    d,
                )
        },
{
    let _n = image.len();
    validate_image_byte_len(image.len())?;
    let mut decoded = [0u8; 64];
    let mut decoded_len: usize = 0;
    let meta = resolve_metadata_into(manifest, &mut decoded, &mut decoded_len);
    let ghost d = decoded@.subrange(0, decoded_len as int);
    let ghost fec = fec_bytes(*manifest);
    let (root, block_size, block_count) = match meta {
        Ok(x) => x,
        Err(e) => {
            assert(fec.len() > 0 && fec.len() % 2 == 0 && block_accepted(fec) ==> strictly_decodes_block(fec, d));
            return Err(e);
        },
    };
    assert(strictly_decodes_block(fec, d));
    if block_size as usize != DFIM_BLOCK_SIZE {
        return Err(DfimError::InvalidParameter);
    }
    if proofs.len() != block_count as usize {
        return Err(DfimError::IntegrityFailure);
    }
    validate_block_count(block_count)?;
    let expected_blocks = image.len() / DFIM_BLOCK_SIZE + if image.len() % DFIM_BLOCK_SIZE == 0 {
        0
    } else {
        1
    };
    assert(expected_blocks == blocks_for(image@.len() as int));
    if expected_blocks as u32 != block_count {
        return Err(DfimError::IntegrityFailure);
    }
    let count = block_count as usize;
    assert(image_outcome(image@, *manifest, proofs@, d) == blocks_outcome(image@, proofs@, root@, 0, count as nat));
    let mut index: usize = 0;
    while index < count
        invariant
            count == block_count <= MAX_BOOT_BLOCKS,
            count == proofs@.len(),
            count == blocks_for(image@.len() as int),
            image@.len() <= MAX_IMAGE_BYTES,
            index <= count,
            strictly_decodes_block(fec, d),
            fec == fec_bytes(*manifest),
            fec.len() > 0 && fec.len() % 2 == 0 && block_accepted(fec),
            image_len_error(image@.len() as usize) is None,
            image_outcome(image@, *manifest, proofs@, d) == blocks_outcome(
                image@,
                proofs@,
                root@,
                index as nat,
                count as nat,
            ),
        decreases count - index,
    {
        assert_block_index(index, block_count)?;
        let block = copy_padded_block(image, index);
        match validate_block_compact(&root, block.as_slice(), index, &proofs[index]) {
            Ok(()) => {},
            Err(e) => {
                assert(blocks_outcome(image@, proofs@, root@, index as nat, count as nat) == Err::<
                    (),
                    DfimError,
                >(e));
                assert(strictly_decodes_block(fec, d) && Err::<(), DfimError>(e) == image_outcome(
                    image@,
                    *manifest,
                    proofs@,
                    d,
                ));
                return Err(e);
            },
        }
        index = index + 1;
    }
    Ok(())
}

/// Per-CPU validation scratch: one buffer for the block, the decoded metadata and the proof.
pub struct BpfValidateScratch {
    pub block: [u8; DFIM_BLOCK_SIZE],
    pub fec_decoded: [u8; 64],
    pub fec_len: usize,
    pub root: [u8; SHA256_LEN],
    pub index: usize,
    pub block_count: u32,
    pub proof: CompactProof,
}

/// Recovers manifest metadata into the scratch buffer and checks it against the manifest.
pub fn resolve_metadata_from_scratch(
    scratch: &mut BpfValidateScratch,
    manifest: &CompactManifest,
) -> (res: Result<(), DfimError>)
    ensures
        resolved_into_scratch(*manifest, *old(scratch), *final(scratch), res),
{
    let fec = manifest.fec_slice();
    if fec.len() == 0 || fec.len() % 2 != 0 {
        return Err(DfimError::InvalidParameter);
    }
    let mut decoded = scratch.fec_decoded;
    let mut decoded_len: usize = 0;
    let r = decode_block_into_strict(fec, &mut decoded, &mut decoded_len);
    scratch.fec_decoded = decoded;
    scratch.fec_len = decoded_len;
    match r {
        Ok(()) => {},
        Err(e) => {
            return Err(e);
        },
    }
    if decoded_len < 40 {
        return Err(DfimError::BufferTooShort);
    }
    let ghost d = decoded@.subrange(0, decoded_len as int);
    let dslice = decoded.as_slice();
    scratch.root = copy_32(dslice, 0);
    let block_size = read_le_u32_at(dslice, 32);
    scratch.block_count = read_le_u32_at(dslice, 36);
    assert(d.subrange(0, 32) =~= decoded@.subrange(0, 32));
    assert(d.subrange(32, 36) =~= decoded@.subrange(32, 36));
    assert(d.subrange(36, 40) =~= decoded@.subrange(36, 40));
    if block_size as usize != DFIM_BLOCK_SIZE || scratch.block_count == 0 {
        return Err(DfimError::InvalidParameter);
    }
    validate_block_count(scratch.block_count)?;
    if constant_time_hash_eq(&manifest.merkle_root, &scratch.root) && manifest.block_size
        == block_size && manifest.block_count == scratch.block_count {
        return Ok(());
    }
    Err(DfimError::CorruptMetadata)
}

/// Validates the scratch block against the scratch root with the scratch proof.
pub fn validate_block_from_scratch(scratch: &mut BpfValidateScratch) -> (res: Result<(), DfimError>)
    ensures
        *final(scratch) == *old(scratch),
        old(scratch).proof.step_count > MAX_PROOF_STEPS ==> res == Err::<(), DfimError>(
            DfimError::InvalidParameter,
        ),
        old(scratch).proof.step_count <= MAX_PROOF_STEPS ==> (res is Ok <==> compact_proof_holds(
            old(scratch).proof,
            old(scratch).root@,
            old(scratch).block@,
            old(scratch).index as nat,
        )),
        res is Err && old(scratch).proof.step_count <= MAX_PROOF_STEPS ==> res == Err::<
            (),
            DfimError,
        >(DfimError::IntegrityFailure),
{
    let proof = scratch.proof;
    let root = scratch.root;
    let ok = proof.verify_block(&root, scratch.block.as_slice(), scratch.index)?;
    if ok {
        Ok(())
    } else {
        Err(DfimError::IntegrityFailure)
    }
}

} // verus!
