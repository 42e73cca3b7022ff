//! Boot block stream (`.dfim` sidecar) parsing and UEFI variable envelopes.
//!
//! Layout: `DFIMBOOT`, version, block size, block count (little-endian `u32`s), the Merkle
//! root, the length of the Hamming metadata backup and the backup itself, then one proof per
//! block: a step count byte followed by that many 32-byte siblings. Nothing may follow.
use vstd::prelude::*;
use crate::codec::{le_u32, read_le_u32_at, copy_32, extend_bytes};
use crate::error::DfimError;
use crate::merkle::{MerkleProof, ProofStep};
use crate::state_db::{sidecar_header_error, validate_boot_sidecar_header, parse_authenticated_state_db, state_db_outcome, envelope_arithmetic_fits};

verus! {

/// Magic prefix of DFIM boot block streams: `DFIMBOOT`.
pub const BLOCK_STREAM_MAGIC: [u8; 8] = [0x44, 0x46, 0x49, 0x4d, 0x42, 0x4f, 0x4f, 0x54];

/// Supported block stream format version.
pub const BLOCK_STREAM_VERSION: u32 = 1;

const HEADER_PREFIX_LEN: usize = 56;

/// A parsed boot block stream.
pub struct BlockStreamManifest {
    pub merkle_root: [u8; 32],
    pub block_size: u32,
    pub block_count: u32,
    pub fec_backup: Vec<u8>,
    pub proofs: Vec<MerkleProof>,
}

/// The `n` 32-byte siblings stored from `off` on.
pub open spec fn siblings_at(data: Seq<u8>, off: int, n: nat) -> Seq<Seq<u8>> {
    Seq::new(n, |k: int| data.subrange(off + 32 * k, off + 32 * k + 32))
}

/// The siblings of each proof in a list of proofs.
pub open spec fn proofs_view(ps: Seq<MerkleProof>) -> Seq<Seq<Seq<u8>>> {
    Seq::new(ps.len(), |i: int| Seq::new(ps[i].steps@.len(), |k: int| ps[i].steps@[k].sibling@))
}

/// Parses `count` proofs from `off` on; they must end exactly where `data` ends.
pub open spec fn proofs_at(data: Seq<u8>, off: nat, count: nat) -> Result<Seq<Seq<Seq<u8>>>, DfimError>
    decreases count,
{
    if count == 0 {
        if off == data.len() {
            Ok(Seq::empty())
        } else {
            Err(DfimError::IntegrityFailure)
        }
    } else if off >= data.len() {
        Err(DfimError::BufferTooShort)
    } else {
        let sc = data[off as int] as nat;
        let end = off + 1 + 32 * sc;
        if sc > 16 {
            Err(DfimError::InvalidParameter)
        } else if end > usize::MAX {
            Err(DfimError::ParameterOverflow)
        } else if data.len() < end {
            Err(DfimError::BufferTooShort)
        } else {
            match proofs_at(data, end as nat, (count - 1) as nat) {
                Err(e) => Err(e),
                Ok(rest) => Ok(seq![siblings_at(data, off + 1int, sc)] + rest),
            }
        }
    }
}

/// What parsing a block stream gives: the metadata backup and the proofs' siblings.
pub open spec fn stream_outcome(data: Seq<u8>) -> Result<(Seq<u8>, Seq<Seq<Seq<u8>>>), DfimError> {
    match sidecar_header_error(data) {
        Some(e) => Err(e),
        None => {
            let fec_len = le_u32(data.subrange(52, 56));
            let fec_end = 56 + fec_len;
            if fec_end > usize::MAX {
                Err(DfimError::ParameterOverflow)
            } else if data.len() < fec_end {
                Err(DfimError::BufferTooShort)
            } else if fec_len == 0 || fec_len % 2 != 0 {
                Err(DfimError::InvalidParameter)
            } else {
                match proofs_at(data, fec_end as nat, le_u32(data.subrange(16, 20)) as nat) {
                    Err(e) => Err(e),
                    Ok(ps) => Ok((data.subrange(56, fec_end), ps)),
                }
            }
        }
    }
}

/// `m` holds what parsing `data` gave.
pub open spec fn stream_parsed_as(data: Seq<u8>, m: BlockStreamManifest) -> bool {
    &&& stream_outcome(data) == Ok::<(Seq<u8>, Seq<Seq<Seq<u8>>>), DfimError>(
        (m.fec_backup@, proofs_view(m.proofs@)),
    )
    &&& m.merkle_root@ == data.subrange(20, 52)
    &&& m.block_size == le_u32(data.subrange(12, 16))
    &&& m.block_count == le_u32(data.subrange(16, 20))
}

/// Reads one proof: `sc` siblings from `off`.
fn read_proof(data: &[u8], off: usize, sc: usize) -> (p: MerkleProof)
    requires
        sc <= 16,
        off + 32 * sc <= data@.len(),
    ensures
        proofs_view(seq![p])[0] == siblings_at(data@, off as int, sc as nat),
{
    let _n = data.len();
    let mut steps: Vec<ProofStep> = Vec::new();
    let mut k: usize = 0;
    while k < sc
        invariant
            k <= sc <= 16,
            off + 32 * sc <= data@.len(),
            data@.len() <= usize::MAX,
            steps@.len() == k,
            forall|j: int|
                0 <= j < k ==> #[trigger] steps@[j].sibling@ == data@.subrange(
                    off + 32 * j,
                    off + 32 * j + 32,
                ),
        decreases sc - k,
    {
        let sibling = copy_32(data, off + 32 * k);
        steps.push(ProofStep { sibling });
        k = k + 1;
    }
    let p = MerkleProof { steps };
    assert(proofs_view(seq![p])[0] =~= siblings_at(data@, off as int, sc as nat));
    p
}

/// Parses a boot block stream, refusing any corruption with an error rather than a panic.
pub fn parse_block_stream(data: &[u8]) -> (res: Result<BlockStreamManifest, DfimError>)
    ensures
        res is Ok <==> stream_outcome(data@) is Ok,
        res matches Ok(m) ==> stream_parsed_as(data@, m),
        res matches Err(e) ==> stream_outcome(data@) == Err::<
            (Seq<u8>, Seq<Seq<Seq<u8>>>),
            DfimError,
        >(e),
{
    let _n = data.len();
    validate_boot_sidecar_header(data)?;
    let block_size = read_le_u32_at(data, 12);
    let block_count = read_le_u32_at(data, 16);
    let merkle_root = copy_32(data, 20);
    let fec_len = read_le_u32_at(data, 52) as usize;
    let fec_end = match HEADER_PREFIX_LEN.checked_add(fec_len) {
        Some(e) => e,
        None => {
            return Err(DfimError::ParameterOverflow);
        },
    };
    if data.len() < fec_end {
        return Err(DfimError::BufferTooShort);
    }
    let mut fec_backup: Vec<u8> = Vec::new();
    extend_bytes(&mut fec_backup, &data[HEADER_PREFIX_LEN..fec_end]);
    if fec_backup.len() == 0 || fec_backup.len() % 2 != 0 {
        return Err(DfimError::InvalidParameter);
    }
    let ghost count0 = block_count as nat;
    let mut offset = fec_end;
    let mut proofs: Vec<MerkleProof> = Vec::new();
    let mut i: u32 = 0;
    while i < block_count
        invariant
            data@.len() <= usize::MAX,
            sidecar_header_error(data@) is None,
            fec_end == 56 + le_u32(data@.subrange(52, 56)),
            fec_end <= data@.len(),
            le_u32(data@.subrange(52, 56)) != 0,
            le_u32(data@.subrange(52, 56)) % 2 == 0,
            block_count == le_u32(data@.subrange(16, 20)),
            i <= block_count,
            offset <= data@.len(),
            proofs_at(data@, fec_end as nat, block_count as nat) matches Ok(all) ==> {
                &&& proofs_at(data@, offset as nat, (block_count - i) as nat) matches Ok(rest)
                &&& all == proofs_view(proofs@) + rest
            },
            proofs_at(data@, fec_end as nat, block_count as nat) is Err ==> proofs_at(
                data@,
                fec_end as nat,
                block_count as nat,
            ) == proofs_at(data@, offset as nat, (block_count - i) as nat),
        decreases block_count - i,
    {
        if offset >= data.len() {
            assert(proofs_at(data@, offset as nat, (block_count - i) as nat) == Err::<Seq<Seq<Seq<u8>>>, DfimError>(DfimError::BufferTooShort));
            return Err(DfimError::BufferTooShort);
        }
        let step_count = data[offset] as usize;
        let start = offset + 1;
        if step_count > 16 {
            return Err(DfimError::InvalidParameter);
        }
        let proof_bytes = step_count * 32;
        let proof_end = match start.checked_add(proof_bytes) {
            Some(e) => e,
            None => {
                assert(proofs_at(data@, offset as nat, (block_count - i) as nat) == Err::<Seq<Seq<Seq<u8>>>, DfimError>(DfimError::ParameterOverflow));
                return Err(DfimError::ParameterOverflow);
            },
        };
        if data.len() < proof_end {
            assert(proofs_at(data@, offset as nat, (block_count - i) as nat) == Err::<Seq<Seq<Seq<u8>>>, DfimError>(DfimError::BufferTooShort));
            return Err(DfimError::BufferTooShort);
        }
        let p = read_proof(data, start, step_count);
        let ghost before = proofs_view(proofs@);
        proofs.push(p);
        proof {
            assert(proofs_view(proofs@) =~= before + seq![siblings_at(data@, start as int, step_count as nat)]);
            if let Ok(all) = proofs_at(data@, fec_end as nat, block_count as nat) {
                let rest = proofs_at(data@, offset as nat, (block_count - i) as nat)->Ok_0;
                let rest2 = proofs_at(data@, proof_end as nat, (block_count - i - 1) as nat)->Ok_0;
                assert(rest == seq![siblings_at(data@, start as int, step_count as nat)] + rest2);
                assert(all =~= proofs_view(proofs@) + rest2);
            }
        }
        offset = proof_end;
        i = i + 1;
    }
    if offset != data.len() {
        return Err(DfimError::IntegrityFailure);
    }
    proof {
        if let Ok(all) = proofs_at(data@, fec_end as nat, block_count as nat) {
            assert(all =~= proofs_view(proofs@));
        }
        assert(fec_backup@ =~= data@.subrange(56, fec_end as int));
    }
    Ok(BlockStreamManifest { merkle_root, block_size, block_count, fec_backup, proofs })
}

/// Parses a UEFI variable or `--state` envelope into authenticated sidecar bytes.
pub fn parse_uefi_variable(raw: &[u8]) -> (res: Result<Vec<u8>, DfimError>)
    requires
        envelope_arithmetic_fits(raw@),
    ensures
        match res {
            Ok(v) => state_db_outcome(raw@) == Ok::<Seq<u8>, DfimError>(v@),
            Err(e) => state_db_outcome(raw@) == Err::<Seq<u8>, DfimError>(e),
        },
{
    parse_authenticated_state_db(raw)
}

} // verus!
