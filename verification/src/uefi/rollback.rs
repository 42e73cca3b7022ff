//! Authenticated rollback baseline stored in a UEFI variable: `DFIMROLL`, version, the
//! minimum release (little-endian `u64`), and the 16-byte id of the signing key.
use vstd::prelude::*;
use crate::codec::{le_u32, le_u64, u32_le, u64_le, bytes_eq_at, read_le_u32_at, read_le_u64_at, extend_bytes, push_u32_le, push_u64_le, lemma_u32_le_round_trip, lemma_u64_le_round_trip};
use crate::error::DfimError;

verus! {

/// Magic prefix of a rollback baseline: `DFIMROLL`.
pub const ROLLBACK_BASELINE_MAGIC: [u8; 8] = [0x44, 0x46, 0x49, 0x4d, 0x52, 0x4f, 0x4c, 0x4c];

/// Rollback baseline format version.
pub const ROLLBACK_BASELINE_VERSION: u32 = 1;

/// Byte length of a rollback baseline.
pub const ROLLBACK_BASELINE_LEN: usize = 36;

/// The bytes `DFIMROLL`.
pub open spec fn rollback_magic() -> Seq<u8> {
    seq![0x44u8, 0x46u8, 0x49u8, 0x4du8, 0x52u8, 0x4fu8, 0x4cu8, 0x4cu8]
}

/// The baseline bytes for a key id and minimum release.
pub open spec fn baseline_bytes(key_id: Seq<u8>, minimum_release: u64) -> Seq<u8> {
    rollback_magic() + u32_le(1) + u64_le(minimum_release) + key_id
}

/// What parsing a baseline against an expected key id gives.
pub open spec fn baseline_outcome(data: Seq<u8>, expected_key_id: Seq<u8>) -> Result<u64, DfimError> {
    if data.len() != 36 {
        Err(DfimError::InvalidParameter)
    } else if data.subrange(0, 8) != rollback_magic() {
        Err(DfimError::IntegrityFailure)
    } else if le_u32(data.subrange(8, 12)) != 1 {
        Err(DfimError::InvalidParameter)
    } else if le_u64(data.subrange(12, 20)) == 0 {
        Err(DfimError::IntegrityFailure)
    } else if data.subrange(20, 36) != expected_key_id {
        Err(DfimError::IntegrityFailure)
    } else {
        Ok(le_u64(data.subrange(12, 20)) as u64)
    }
}

/// Builds the data of a time-authenticated rollback variable.
pub fn build_rollback_baseline(key_id: [u8; 16], minimum_release: u64) -> (res: Result<[u8; 36], DfimError>)
    ensures
        minimum_release == 0 ==> res == Err::<[u8; 36], DfimError>(DfimError::InvalidParameter),
        minimum_release != 0 ==> (res matches Ok(p) && p@ == baseline_bytes(key_id@, minimum_release)),
{
    if minimum_release == 0 {
        return Err(DfimError::InvalidParameter);
    }
    let mut v: Vec<u8> = Vec::new();
    extend_bytes(&mut v, &ROLLBACK_BASELINE_MAGIC);
    push_u32_le(&mut v, ROLLBACK_BASELINE_VERSION);
    push_u64_le(&mut v, minimum_release);
    extend_bytes(&mut v, &key_id);
    assert(ROLLBACK_BASELINE_MAGIC@ =~= rollback_magic());
    assert(v@ == baseline_bytes(key_id@, minimum_release));
    let mut payload = [0u8; 36];
    let mut i: usize = 0;
    while i < 36
        invariant
            i <= 36,
            v@.len() == 36,
            payload@.len() == 36,
            forall|j: int| 0 <= j < i ==> payload@[j] == v@[j],
        decreases 36 - i,
    {
        payload[i] = v[i];
        i = i + 1;
    }
    assert(payload@ =~= v@);
    Ok(payload)
}

/// Parses a firmware-authenticated baseline and binds it to the expected signing key.
pub fn parse_rollback_baseline(data: &[u8], expected_key_id: &[u8; 16]) -> (res: Result<u64, DfimError>)
    ensures
        res == baseline_outcome(data@, expected_key_id@),
{
    if data.len() != ROLLBACK_BASELINE_LEN {
        return Err(DfimError::InvalidParameter);
    }
    assert(ROLLBACK_BASELINE_MAGIC@ =~= rollback_magic());
    if !bytes_eq_at(data, 0, &ROLLBACK_BASELINE_MAGIC) {
        return Err(DfimError::IntegrityFailure);
    }
    let version = read_le_u32_at(data, 8);
    if version != ROLLBACK_BASELINE_VERSION {
        return Err(DfimError::InvalidParameter);
    }
    let minimum_release = read_le_u64_at(data, 12);
    if minimum_release == 0 {
        return Err(DfimError::IntegrityFailure);
    }
    let mut difference: u8 = 0;
    let mut index: usize = 0;
    while index < 16
        invariant
            index <= 16,
            data@.len() == 36,
            (difference == 0) == (forall|j: int| 0 <= j < index ==> #[trigger] data@[20 + j] == expected_key_id@[j]),
        decreases 16 - index,
    {
        let a = data[20 + index];
        let b = expected_key_id[index];
        let ghost old_d = difference;
        difference = difference | (a ^ b);
        proof {
            assert((old_d | (a ^ b)) == 0 <==> (old_d == 0 && a == b)) by (bit_vector);
        }
        index = index + 1;
    }
    if difference != 0 {
        assert(data@.subrange(20, 36) != expected_key_id@) by {
            let j = choose|j: int| 0 <= j < 16 && #[trigger] data@[20 + j] != expected_key_id@[j];
            assert(data@.subrange(20, 36)[j] != expected_key_id@[j]);
        }
        return Err(DfimError::IntegrityFailure);
    }
    assert forall|j: int| 0 <= j < 16 implies data@.subrange(20, 36)[j] == expected_key_id@[j] by {
        assert(data@[20 + j] == expected_key_id@[j]);
    }
    assert(data@.subrange(20, 36) =~= expected_key_id@);
    Ok(minimum_release)
}

/// Combines the compiled and the persisted release floors: the higher one wins, so neither
/// can lower the other.
pub fn effective_minimum_release(compiled: u64, persisted: u64) -> (res: Result<u64, DfimError>)
    ensures
        compiled == 0 || persisted == 0 ==> res == Err::<u64, DfimError>(DfimError::InvalidParameter),
        compiled != 0 && persisted != 0 ==> res == Ok::<u64, DfimError>(
            if compiled >= persisted { compiled } else { persisted },
        ),
{
    if compiled == 0 || persisted == 0 {
        return Err(DfimError::InvalidParameter);
    }
    if compiled >= persisted {
        Ok(compiled)
    } else {
        Ok(persisted)
    }
}

/// A baseline built for a key and a non-zero release parses back to that release under the
/// same key.
pub proof fn law_baseline_round_trip(key_id: Seq<u8>, minimum_release: u64)
    requires
        key_id.len() == 16,
        minimum_release != 0,
    ensures
        baseline_outcome(baseline_bytes(key_id, minimum_release), key_id) == Ok::<u64, DfimError>(
            minimum_release,
        ),
{
    let b = baseline_bytes(key_id, minimum_release);
    lemma_u32_le_round_trip(1);
    lemma_u64_le_round_trip(minimum_release);
    assert(b.subrange(0, 8) =~= rollback_magic());
    assert(b.subrange(8, 12) =~= u32_le(1));
    assert(b.subrange(12, 20) =~= u64_le(minimum_release));
    assert(b.subrange(20, 36) =~= key_id);
}

} // verus!
