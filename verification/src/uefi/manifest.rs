//! The DFIM boot sidecar consumed by the UEFI boot guard: layout, serialisation, and
//! construction from a bootloader image.
use vstd::prelude::*;
use crate::boot_validate::{
    blocks_for, copy_padded_block, image_len_error, padded_block, validate_block_count,
    validate_image_byte_len, DFIM_BLOCK_SIZE, MAX_BOOT_BLOCKS, MAX_IMAGE_BYTES, MAX_PROOF_STEPS,
};
use crate::codec::{le_u32, u32_le, lemma_u32_le_round_trip, extend_bytes, push_u32_le};
use crate::digest::SHA256_LEN;
use crate::error::DfimError;
use crate::hamming::{encode_block, encodes_block};
use crate::merkle::{MerkleProof, MerkleTree, leaf_digests, proof_path, proof_siblings, tree_root, tree_layers, lemma_layers_determined, lemma_tree_height};
use crate::digest::sha256_of;
use vstd::arithmetic::power2::lemma2_to64;
use crate::parser::{parse_block_stream, proofs_at, proofs_view, siblings_at, stream_outcome};
use crate::state_db::{boot_magic, sidecar_header_error};

verus! {

/// Magic prefix of a boot sidecar: `DFIMBOOT`.
pub const MANIFEST_MAGIC: [u8; 8] = [0x44, 0x46, 0x49, 0x4d, 0x42, 0x4f, 0x4f, 0x54];

/// Boot sidecar format version.
pub const MANIFEST_VERSION: u32 = 1;

/// A parsed boot integrity sidecar.
pub struct BootManifest {
    pub merkle_root: [u8; SHA256_LEN],
    pub block_size: u32,
    pub block_count: u32,
    pub fec_backup: Vec<u8>,
    pub proofs: Vec<MerkleProof>,
}

/// `m` holds what parsing the sidecar `data` gave.
pub open spec fn manifest_parsed_as(data: Seq<u8>, m: BootManifest) -> bool {
    &&& stream_outcome(data) == Ok::<(Seq<u8>, Seq<Seq<Seq<u8>>>), DfimError>(
        (m.fec_backup@, proofs_view(m.proofs@)),
    )
    &&& m.merkle_root@ == data.subrange(20, 52)
    &&& m.block_size == le_u32(data.subrange(12, 16))
    &&& m.block_count == le_u32(data.subrange(16, 20))
}

/// Parses a sidecar blob into a boot manifest.
pub fn parse_boot_manifest(data: &[u8]) -> (res: Result<BootManifest, DfimError>)
    ensures
        res is Ok <==> stream_outcome(data@) is Ok,
        res matches Ok(m) ==> manifest_parsed_as(data@, m),
        res matches Err(e) ==> stream_outcome(data@) == Err::<
            (Seq<u8>, Seq<Seq<Seq<u8>>>),
            DfimError,
        >(e),
{
    let parsed = parse_block_stream(data)?;
    Ok(BootManifest {
        merkle_root: parsed.merkle_root,
        block_size: parsed.block_size,
        block_count: parsed.block_count,
        fec_backup: parsed.fec_backup,
        proofs: parsed.proofs,
    })
}

/// Splits an image into `DFIM_BLOCK_SIZE`-byte blocks, zero-padding the last one.
pub fn partition_image_blocks(image: &[u8], block_size: usize) -> (res: Result<Vec<Vec<u8>>, DfimError>)
    ensures
        image_len_error(image@.len() as usize) matches Some(e) ==> res == Err::<Vec<Vec<u8>>, DfimError>(e),
        image_len_error(image@.len() as usize) is None && block_size != DFIM_BLOCK_SIZE ==> res
            == Err::<Vec<Vec<u8>>, DfimError>(DfimError::InvalidParameter),
        image_len_error(image@.len() as usize) is None && block_size == DFIM_BLOCK_SIZE ==> (res matches Ok(
            blocks,
        ) && blocks@.len() == blocks_for(image@.len() as int) && forall|i: int|
            0 <= i < blocks@.len() ==> #[trigger] blocks@[i]@ == padded_block(image@, i)),
{
    let _n = image.len();
    validate_image_byte_len(image.len())?;
    if block_size != DFIM_BLOCK_SIZE {
        return Err(DfimError::InvalidParameter);
    }
    let block_count = image.len() / DFIM_BLOCK_SIZE + if image.len() % DFIM_BLOCK_SIZE == 0 {
        0
    } else {
        1
    };
    assert(block_count == blocks_for(image@.len() as int));
    validate_block_count(block_count as u32)?;
    let mut blocks: Vec<Vec<u8>> = Vec::new();
    let mut idx: usize = 0;
    while idx < block_count
        invariant
            block_count == blocks_for(image@.len() as int) <= MAX_BOOT_BLOCKS,
            image@.len() <= MAX_IMAGE_BYTES,
            idx <= block_count,
            blocks@.len() == idx,
            forall|i: int| 0 <= i < idx ==> #[trigger] blocks@[i]@ == padded_block(image@, i),
        decreases block_count - idx,
    {
        let block = copy_padded_block(image, idx);
        blocks.push(block);
        idx = idx + 1;
    }
    Ok(blocks)
}

/// The bytes of a list of equally long byte strings, end to end.
pub open spec fn flatten(s: Seq<Seq<u8>>) -> Seq<u8>
    decreases s.len(),
{
    if s.len() == 0 {
        Seq::empty()
    } else {
        s[0] + flatten(s.drop_first())
    }
}

/// One proof record: the step count byte, then the siblings.
pub open spec fn proof_record(sibs: Seq<Seq<u8>>) -> Seq<u8> {
    seq![sibs.len() as u8] + flatten(sibs)
}

/// The proof records of a list of proofs.
pub open spec fn proof_records(ps: Seq<Seq<Seq<u8>>>) -> Seq<u8>
    decreases ps.len(),
{
    if ps.len() == 0 {
        Seq::empty()
    } else {
        proof_record(ps[0]) + proof_records(ps.drop_first())
    }
}

/// The sidecar bytes of a root, block size and count, metadata backup and proofs.
pub open spec fn sidecar_bytes(
    root: Seq<u8>,
    block_size: u32,
    block_count: u32,
    fec: Seq<u8>,
    ps: Seq<Seq<Seq<u8>>>,
) -> Seq<u8> {
    boot_magic() + u32_le(1) + u32_le(block_size) + u32_le(block_count) + root + u32_le(
        fec.len() as u32,
    ) + fec + proof_records(ps)
}

proof fn lemma_flatten_push(s: Seq<Seq<u8>>, x: Seq<u8>)
    ensures
        flatten(s.push(x)) == flatten(s) + x,
    decreases s.len(),
{
    let sp = s.push(x);
    if s.len() == 0 {
        assert(sp[0] == x);
        assert(sp.drop_first() =~= Seq::<Seq<u8>>::empty());
        assert(flatten(sp.drop_first()) == Seq::<u8>::empty());
        assert(flatten(sp) == x + flatten(sp.drop_first()));
        assert(flatten(sp) =~= flatten(s) + x);
    } else {
        assert(sp[0] == s[0]);
        assert(sp.drop_first() =~= s.drop_first().push(x));
        lemma_flatten_push(s.drop_first(), x);
        assert(flatten(sp) == s[0] + flatten(s.drop_first().push(x)));
        assert(flatten(sp) =~= flatten(s) + x);
    }
}

/// Appending a proof appends its record.
pub proof fn lemma_records_push_public(ps: Seq<Seq<Seq<u8>>>, p: Seq<Seq<u8>>)
    ensures
        proof_records(ps.push(p)) == proof_records(ps) + proof_record(p),
{
    lemma_records_push(ps, p);
}

/// Appending a byte string appends its bytes.
pub proof fn lemma_flatten_push_public(s: Seq<Seq<u8>>, x: Seq<u8>)
    ensures
        flatten(s.push(x)) == flatten(s) + x,
{
    lemma_flatten_push(s, x);
}

proof fn lemma_records_push(ps: Seq<Seq<Seq<u8>>>, p: Seq<Seq<u8>>)
    ensures
        proof_records(ps.push(p)) == proof_records(ps) + proof_record(p),
    decreases ps.len(),
{
    let pp = ps.push(p);
    if ps.len() == 0 {
        assert(pp[0] == p);
        assert(pp.drop_first() =~= Seq::<Seq<Seq<u8>>>::empty());
        assert(proof_records(pp.drop_first()) == Seq::<u8>::empty());
        assert(proof_records(pp) == proof_record(p) + proof_records(pp.drop_first()));
        assert(proof_records(pp) =~= proof_records(ps) + proof_record(p));
    } else {
        assert(pp[0] == ps[0]);
        assert(pp.drop_first() =~= ps.drop_first().push(p));
        lemma_records_push(ps.drop_first(), p);
        assert(proof_records(pp) == proof_record(ps[0]) + proof_records(ps.drop_first().push(p)));
        assert(proof_records(pp) =~= proof_records(ps) + proof_record(p));
    }
}

/// Serialises a boot sidecar in the `DFIMBOOT` v1 layout.
pub fn serialize_boot_sidecar(
    merkle_root: &[u8; SHA256_LEN],
    block_size: u32,
    block_count: u32,
    fec_backup: &[u8],
    proofs: &[MerkleProof],
) -> (res: Result<Vec<u8>, DfimError>)
    ensures
        block_size != DFIM_BLOCK_SIZE || block_count == 0 ==> res == Err::<Vec<u8>, DfimError>(
            DfimError::InvalidParameter,
        ),
        block_size == DFIM_BLOCK_SIZE && block_count > MAX_BOOT_BLOCKS ==> res == Err::<
            Vec<u8>,
            DfimError,
        >(DfimError::ParameterOverflow),
        block_size == DFIM_BLOCK_SIZE && 0 < block_count <= MAX_BOOT_BLOCKS ==> {
            &&& (res is Ok <==> proofs@.len() == block_count && fec_backup@.len() > 0
                && fec_backup@.len() % 2 == 0 && forall|i: int|
                0 <= i < proofs@.len() ==> #[trigger] proofs@[i].steps@.len() <= MAX_PROOF_STEPS)
            &&& res is Err ==> res == Err::<Vec<u8>, DfimError>(DfimError::InvalidParameter)
        },
        res matches Ok(blob) ==> blob@ == sidecar_bytes(
            merkle_root@,
            block_size,
            block_count,
            fec_backup@,
            proofs_view(proofs@),
        ),
{
    if block_size as usize != DFIM_BLOCK_SIZE || block_count == 0 {
        return Err(DfimError::InvalidParameter);
    }
    validate_block_count(block_count)?;
    if proofs.len() != block_count as usize {
        return Err(DfimError::InvalidParameter);
    }
    if fec_backup.len() == 0 || fec_backup.len() % 2 != 0 {
        return Err(DfimError::InvalidParameter);
    }
    let mut blob: Vec<u8> = Vec::new();
    extend_bytes(&mut blob, &MANIFEST_MAGIC);
    push_u32_le(&mut blob, MANIFEST_VERSION);
    push_u32_le(&mut blob, block_size);
    push_u32_le(&mut blob, block_count);
    extend_bytes(&mut blob, merkle_root);
    push_u32_le(&mut blob, fec_backup.len() as u32);
    extend_bytes(&mut blob, fec_backup);
    let ghost prefix = blob@;
    assert(MANIFEST_MAGIC@ =~= boot_magic());
    assert(prefix =~= boot_magic() + u32_le(1) + u32_le(block_size) + u32_le(block_count)
        + merkle_root@ + u32_le(fec_backup@.len() as u32) + fec_backup@);
    let ghost pv = proofs_view(proofs@);
    let mut i: usize = 0;
    assert(pv.subrange(0, 0) =~= Seq::<Seq<Seq<u8>>>::empty());
    while i < proofs.len()
        invariant
            pv == proofs_view(proofs@),
            block_size == DFIM_BLOCK_SIZE,
            0 < block_count <= MAX_BOOT_BLOCKS,
            proofs@.len() == block_count,
            fec_backup@.len() > 0 && fec_backup@.len() % 2 == 0,
            i <= proofs@.len(),
            forall|j: int| 0 <= j < i ==> #[trigger] proofs@[j].steps@.len() <= MAX_PROOF_STEPS,
            blob@ == prefix + proof_records(pv.subrange(0, i as int)),
        decreases proofs@.len() - i,
    {
        let proof = &proofs[i];
        if proof.steps.len() > MAX_PROOF_STEPS {
            return Err(DfimError::InvalidParameter);
        }
        let ghost before = blob@;
        blob.push(proof.steps.len() as u8);
        let ghost sibs = pv[i as int];
        let mut k: usize = 0;
        assert(sibs.subrange(0, 0) =~= Seq::<Seq<u8>>::empty());
        while k < proof.steps.len()
            invariant
                sibs == proofs_view(proofs@)[i as int],
                i < proofs@.len(),
                proof == &proofs@[i as int],
                k <= proof.steps@.len(),
                sibs.len() == proof.steps@.len(),
                blob@ == before + seq![sibs.len() as u8] + flatten(sibs.subrange(0, k as int)),
            decreases proof.steps@.len() - k,
        {
            let sibling = proof.steps[k].sibling;
            assert(proofs_view(proofs@)[i as int] == Seq::new(
                proofs@[i as int].steps@.len(),
                |k2: int| proofs@[i as int].steps@[k2].sibling@,
            ));
            assert(sibs[k as int] == proofs@[i as int].steps@[k as int].sibling@);
            assert(proof.steps@[k as int] == proofs@[i as int].steps@[k as int]);
            assert(sibling@ == sibs[k as int]);
            let ghost mid = blob@;
            extend_bytes(&mut blob, &sibling);
            proof {
                assert(blob@ == mid + sibs[k as int]);
                assert(sibs.subrange(0, k + 1) =~= sibs.subrange(0, k as int).push(sibs[k as int]));
                lemma_flatten_push(sibs.subrange(0, k as int), sibs[k as int]);
                assert(blob@ =~= before + seq![sibs.len() as u8] + flatten(sibs.subrange(0, k + 1)));
            }
            k = k + 1;
        }
        proof {
            assert(sibs.subrange(0, k as int) =~= sibs);
            assert(pv.subrange(0, i + 1) =~= pv.subrange(0, i as int).push(sibs));
            lemma_records_push(pv.subrange(0, i as int), sibs);
            assert(blob@ =~= prefix + proof_records(pv.subrange(0, i + 1)));
        }
        i = i + 1;
    }
    assert(pv.subrange(0, i as int) =~= pv);
    Ok(blob)
}

/// Every sibling of every proof is 32 bytes and no proof is deeper than the cap.
pub open spec fn proofs_well_shaped(ps: Seq<Seq<Seq<u8>>>) -> bool {
    forall|i: int|
        0 <= i < ps.len() ==> #[trigger] ps[i].len() <= MAX_PROOF_STEPS && forall|k: int|
            0 <= k < ps[i].len() ==> #[trigger] ps[i][k].len() == 32
}

/// A list of 32-byte strings flattens to 32 bytes each.
pub proof fn lemma_flatten_shape(s: Seq<Seq<u8>>)
    requires
        forall|k: int| 0 <= k < s.len() ==> #[trigger] s[k].len() == 32,
    ensures
        flatten(s).len() == 32 * s.len(),
{
    lemma_flatten_len(s);
}

/// Slot `k` of a flattened list of 32-byte strings is its `k`-th string.
pub proof fn lemma_flatten_shape_slot(s: Seq<Seq<u8>>, k: int)
    requires
        forall|j: int| 0 <= j < s.len() ==> #[trigger] s[j].len() == 32,
        0 <= k < s.len(),
    ensures
        flatten(s).subrange(32 * k, 32 * k + 32) == s[k],
{
    lemma_flatten_slot(s, k);
}

proof fn lemma_flatten_len(s: Seq<Seq<u8>>)
    requires
        forall|k: int| 0 <= k < s.len() ==> #[trigger] s[k].len() == 32,
    ensures
        flatten(s).len() == 32 * s.len(),
    decreases s.len(),
{
    if s.len() > 0 {
        lemma_flatten_len(s.drop_first());
    }
}

proof fn lemma_flatten_slot(s: Seq<Seq<u8>>, k: int)
    requires
        forall|j: int| 0 <= j < s.len() ==> #[trigger] s[j].len() == 32,
        0 <= k < s.len(),
    ensures
        flatten(s).subrange(32 * k, 32 * k + 32) == s[k],
    decreases s.len(),
{
    lemma_flatten_len(s.drop_first());
    if k == 0 {
        assert(flatten(s).subrange(0, 32) =~= s[0]);
    } else {
        lemma_flatten_slot(s.drop_first(), k - 1);
        assert(flatten(s).subrange(32 * k, 32 * k + 32) =~= flatten(s.drop_first()).subrange(
            32 * (k - 1),
            32 * (k - 1) + 32,
        ));
    }
}

proof fn lemma_proofs_at_records(pre: Seq<u8>, ps: Seq<Seq<Seq<u8>>>, data: Seq<u8>)
    requires
        data == pre + proof_records(ps),
        data.len() <= usize::MAX,
        proofs_well_shaped(ps),
    ensures
        proofs_at(data, pre.len(), ps.len()) == Ok::<Seq<Seq<Seq<u8>>>, DfimError>(ps),
    decreases ps.len(),
{
    if ps.len() == 0 {
        assert(data =~= pre);
        assert(ps =~= Seq::<Seq<Seq<u8>>>::empty());
    } else {
        let p0 = ps[0];
        let rest = ps.drop_first();
        assert(ps[0].len() <= MAX_PROOF_STEPS);
        assert forall|k: int| 0 <= k < p0.len() implies #[trigger] p0[k].len() == 32 by {
            assert(ps[0][k].len() == 32);
        }
        lemma_flatten_len(p0);
        let rec = proof_record(p0);
        let pre2 = pre + rec;
        assert(data =~= pre2 + proof_records(rest));
        let off = pre.len();
        assert(data[off as int] == rec[0]);
        assert(rec[0] == p0.len() as u8);
        let sc = p0.len();
        let end = off + 1 + 32 * sc;
        assert(end == pre2.len());
        assert forall|k: int| 0 <= k < sc implies #[trigger] siblings_at(data, off + 1int, sc)[k]
            == p0[k] by {
            lemma_flatten_slot(p0, k);
            assert(data.subrange(off + 1 + 32 * k, off + 1 + 32 * k + 32) =~= flatten(p0).subrange(
                32 * k,
                32 * k + 32,
            ));
        }
        assert(siblings_at(data, off + 1int, sc) =~= p0);
        assert forall|i: int| 0 <= i < rest.len() implies #[trigger] rest[i].len()
            <= MAX_PROOF_STEPS && forall|k: int|
            0 <= k < rest[i].len() ==> #[trigger] rest[i][k].len() == 32 by {
            assert(rest[i] == ps[i + 1]);
        }
        lemma_proofs_at_records(pre2, rest, data);
        assert(seq![p0] + rest =~= ps);
    }
}

/// Parsing serialised sidecar bytes gives back the root, block size and count, metadata
/// backup and proofs that went in.
pub proof fn law_sidecar_round_trip(
    root: Seq<u8>,
    block_size: u32,
    block_count: u32,
    fec: Seq<u8>,
    ps: Seq<Seq<Seq<u8>>>,
)
    requires
        root.len() == 32,
        block_size == DFIM_BLOCK_SIZE,
        0 < block_count <= MAX_BOOT_BLOCKS,
        ps.len() == block_count,
        fec.len() > 0,
        fec.len() % 2 == 0,
        fec.len() <= u32::MAX,
        proofs_well_shaped(ps),
        sidecar_bytes(root, block_size, block_count, fec, ps).len() <= usize::MAX,
    ensures
        ({
            let data = sidecar_bytes(root, block_size, block_count, fec, ps);
            &&& stream_outcome(data) == Ok::<(Seq<u8>, Seq<Seq<Seq<u8>>>), DfimError>((fec, ps))
            &&& data.subrange(20, 52) == root
            &&& le_u32(data.subrange(12, 16)) == block_size
            &&& le_u32(data.subrange(16, 20)) == block_count
        }),
{
    let data = sidecar_bytes(root, block_size, block_count, fec, ps);
    let head = boot_magic() + u32_le(1) + u32_le(block_size) + u32_le(block_count) + root + u32_le(
        fec.len() as u32,
    ) + fec;
    assert(data =~= head + proof_records(ps));
    lemma_u32_le_round_trip(1);
    lemma_u32_le_round_trip(block_size);
    lemma_u32_le_round_trip(block_count);
    lemma_u32_le_round_trip(fec.len() as u32);
    assert(head.len() == 56 + fec.len());
    assert(data.subrange(0, 8) =~= boot_magic());
    assert(data.subrange(8, 12) =~= u32_le(1));
    assert(data.subrange(12, 16) =~= u32_le(block_size));
    assert(data.subrange(16, 20) =~= u32_le(block_count));
    assert(data.subrange(20, 52) =~= root);
    assert(data.subrange(52, 56) =~= u32_le(fec.len() as u32));
    assert(sidecar_header_error(data) is None);
    assert(data.subrange(56, 56 + fec.len() as int) =~= fec);
    lemma_proofs_at_records(head, ps, data);
}

/// Digests of the zero-padded blocks of an image.
pub open spec fn image_block_digests(image: Seq<u8>) -> Seq<Seq<u8>> {
    Seq::new(blocks_for(image.len() as int) as nat, |i: int| sha256_of(padded_block(image, i)))
}

/// The Merkle root over an image's blocks.
pub open spec fn image_root(image: Seq<u8>) -> Seq<u8> {
    tree_root(image_block_digests(image))
}

/// The membership proof paths of all blocks of an image.
pub open spec fn image_proof_paths(image: Seq<u8>) -> Seq<Seq<Seq<u8>>> {
    Seq::new(
        blocks_for(image.len() as int) as nat,
        |i: int| proof_path(tree_layers(image_block_digests(image)), i as nat),
    )
}

/// The metadata a sidecar backs up with Hamming coding: root, block size, block count.
pub open spec fn metadata_bytes(root: Seq<u8>, block_count: u32) -> Seq<u8> {
    root + u32_le(DFIM_BLOCK_SIZE as u32) + u32_le(block_count)
}

/// `blob` is the sidecar of `image`, with `fec` the Hamming backup of its metadata.
pub open spec fn is_sidecar_of(image: Seq<u8>, fec: Seq<u8>, blob: Seq<u8>) -> bool {
    let n = blocks_for(image.len() as int) as u32;
    &&& encodes_block(metadata_bytes(image_root(image), n), fec)
    &&& blob == sidecar_bytes(image_root(image), DFIM_BLOCK_SIZE as u32, n, fec, image_proof_paths(image))
}

/// Builds the complete sidecar of a bootloader image: blocks, Merkle tree, Hamming backup of
/// the metadata, and one proof per block.
pub fn build_boot_sidecar(image: &[u8]) -> (res: Result<Vec<u8>, DfimError>)
    ensures
        image_len_error(image@.len() as usize) matches Some(e) ==> res == Err::<Vec<u8>, DfimError>(e),
        image_len_error(image@.len() as usize) is None ==> (res matches Ok(blob) && exists|fec: Seq<u8>|
            #[trigger] is_sidecar_of(image@, fec, blob@)),
{
    validate_image_byte_len(image.len())?;
    let blocks = partition_image_blocks(image, DFIM_BLOCK_SIZE)?;
    let block_count = blocks.len() as u32;
    let ghost n = blocks@.len();
    let mut refs: Vec<&[u8]> = Vec::new();
    let mut i: usize = 0;
    while i < blocks.len()
        invariant
            n == blocks@.len() <= MAX_BOOT_BLOCKS,
            i <= n,
            refs@.len() == i,
            forall|j: int| 0 <= j < i ==> #[trigger] refs@[j]@ == blocks@[j]@,
        decreases n - i,
    {
        refs.push(blocks[i].as_slice());
        i = i + 1;
    }
    let ghost digests = image_block_digests(image@);
    assert(leaf_digests(refs@) =~= digests);
    let tree = match MerkleTree::build(refs.as_slice()) {
        Ok(t) => t,
        Err(e) => {
            return Err(e);
        },
    };
    let root = *tree.root();
    let ghost layers = tree.layers_view();
    proof {
        lemma_layers_determined(layers, 0);
        assert(layers.subrange(0, layers.len() as int) =~= layers);
        lemma2_to64();
        lemma_tree_height(digests, 6);
    }
    let mut meta: Vec<u8> = Vec::new();
    extend_bytes(&mut meta, &root);
    push_u32_le(&mut meta, DFIM_BLOCK_SIZE as u32);
    push_u32_le(&mut meta, block_count);
    assert(meta@ == metadata_bytes(image_root(image@), block_count));
    let fec_backup = match encode_block(meta.as_slice()) {
        Ok(f) => f,
        Err(e) => {
            return Err(e);
        },
    };
    let mut proofs: Vec<MerkleProof> = Vec::new();
    let mut k: usize = 0;
    while k < blocks.len()
        invariant
            n == blocks@.len() <= MAX_BOOT_BLOCKS,
            tree.wf(),
            tree.leaf_hashes() == digests,
            layers == tree.layers_view(),
            layers == tree_layers(digests),
            tree_layers(digests).len() <= 7,
            digests.len() == n,
            k <= n,
            proofs@.len() == k,
            forall|j: int| 0 <= j < k ==> #[trigger] proofs_view(proofs@)[j] == proof_path(layers, j as nat),
        decreases n - k,
    {
        let p = match tree.prove(k) {
            Ok(p) => p,
            Err(e) => {
                return Err(e);
            },
        };
        let ghost before = proofs@;
        proofs.push(p);
        proof {
            assert forall|j: int| 0 <= j < k + 1 implies #[trigger] proofs_view(proofs@)[j]
                == proof_path(layers, j as nat) by {
                if j < k {
                    assert(proofs_view(proofs@)[j] =~= proofs_view(before)[j]);
                } else {
                    assert(proofs_view(proofs@)[j] =~= proof_siblings(p));
                }
            }
        }
        k = k + 1;
    }
    proof {
        assert(proofs_view(proofs@) =~= image_proof_paths(image@));
        assert forall|j: int| 0 <= j < proofs@.len() implies #[trigger] proofs@[j].steps@.len()
            <= MAX_PROOF_STEPS by {
            assert(proofs_view(proofs@)[j].len() == proofs@[j].steps@.len());
        }
    }
    let blob = serialize_boot_sidecar(&root, DFIM_BLOCK_SIZE as u32, block_count, fec_backup.as_slice(), proofs.as_slice());
    match blob {
        Ok(b) => {
            assert(is_sidecar_of(image@, fec_backup@, b@));
            Ok(b)
        },
        Err(e) => Err(e),
    }
}

} // verus!
