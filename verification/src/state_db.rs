//! Authenticated state-database envelope around boot sidecar bytes.
//!
//! A wrapped database is `DFIMSTAT`, version, payload length, the sidecar payload, and the
//! SHA-256 of all that. Plaintext license blobs and unauthenticated injections are refused.
use vstd::prelude::*;
use crate::boot_validate::validate_block_count;
use crate::codec::{le_u32, u32_le, read_le_u32_at, bytes_eq_at, extend_bytes, push_u32_le, copy_32};
use crate::crypto::constant_time_hash_eq;
use crate::digest::{sha256_digest, sha256_of};
use crate::error::DfimError;

verus! {

/// Magic prefix of bare boot sidecar blobs: `DFIMBOOT`.
pub const BOOT_SIDECAR_MAGIC: [u8; 8] = [0x44, 0x46, 0x49, 0x4d, 0x42, 0x4f, 0x4f, 0x54];

/// Magic prefix of wrapped authenticated state databases: `DFIMSTAT`.
pub const WRAPPED_STATE_MAGIC: [u8; 8] = [0x44, 0x46, 0x49, 0x4d, 0x53, 0x54, 0x41, 0x54];

/// Prefix of plaintext state blobs that are refused: `STATE_`.
const PLAINTEXT_STATE_PREFIX: [u8; 6] = [0x53, 0x54, 0x41, 0x54, 0x45, 0x5f];

const BOOT_SIDECAR_VERSION: u32 = 1;

const WRAPPED_STATE_VERSION: u32 = 1;

const BOOT_HEADER_PREFIX_LEN: usize = 56;

const WRAPPED_HEADER_LEN: usize = 16;

const WRAPPED_CHECKSUM_LEN: usize = 32;

const LEGACY_LICENSE_LEN: usize = 16;

/// Minimum on-disk size of a wrapped state database.
pub const MIN_WRAPPED_STATE_LEN: usize = 48;

/// The bytes `DFIMBOOT`.
pub open spec fn boot_magic() -> Seq<u8> {
    seq![0x44u8, 0x46u8, 0x49u8, 0x4du8, 0x42u8, 0x4fu8, 0x4fu8, 0x54u8]
}

/// The bytes `DFIMSTAT`.
pub open spec fn wrapped_magic() -> Seq<u8> {
    seq![0x44u8, 0x46u8, 0x49u8, 0x4du8, 0x53u8, 0x54u8, 0x41u8, 0x54u8]
}

/// The bytes `STATE_`.
pub open spec fn plaintext_prefix() -> Seq<u8> {
    seq![0x53u8, 0x54u8, 0x41u8, 0x54u8, 0x45u8, 0x5fu8]
}

/// The error, if any, that a boot sidecar header draws: length, magic, version, block size,
/// block count.
pub open spec fn sidecar_header_error(d: Seq<u8>) -> Option<DfimError> {
    if d.len() < 56 {
        Some(DfimError::BufferTooShort)
    } else if d.subrange(0, 8) != boot_magic() {
        Some(DfimError::IntegrityFailure)
    } else if le_u32(d.subrange(8, 12)) != 1 {
        Some(DfimError::InvalidParameter)
    } else if le_u32(d.subrange(12, 16)) != 4096 || le_u32(d.subrange(16, 20)) == 0 {
        Some(DfimError::InvalidParameter)
    } else if le_u32(d.subrange(16, 20)) > 64 {
        Some(DfimError::ParameterOverflow)
    } else {
        None
    }
}

/// Printable ASCII or ASCII whitespace.
pub open spec fn is_text_byte(b: u8) -> bool {
    (0x21 <= b && b <= 0x7e) || b == 0x20 || b == 0x09 || b == 0x0a || b == 0x0c || b == 0x0d
}

/// The error, if any, that marks `raw` as a plaintext or empty injection.
pub open spec fn plaintext_error(raw: Seq<u8>) -> Option<DfimError> {
    if raw.len() == 0 {
        Some(DfimError::EmptyInput)
    } else if raw.len() == 16 {
        Some(DfimError::CorruptMetadata)
    } else if raw.len() >= 6 && raw.subrange(0, 6) == plaintext_prefix() {
        Some(DfimError::CorruptMetadata)
    } else if raw.len() < 8 && forall|i: int| 0 <= i < raw.len() ==> is_text_byte(#[trigger] raw[i]) {
        Some(DfimError::CorruptMetadata)
    } else {
        None
    }
}

/// What unwrapping a `DFIMSTAT` envelope gives.
pub open spec fn unwrap_outcome(raw: Seq<u8>) -> Result<Seq<u8>, DfimError> {
    if raw.len() < 48 {
        Err(DfimError::BufferTooShort)
    } else if le_u32(raw.subrange(8, 12)) != 1 {
        Err(DfimError::InvalidParameter)
    } else {
        let pend = 16 + le_u32(raw.subrange(12, 16));
        if pend > usize::MAX {
            Err(DfimError::ParameterOverflow)
        } else if raw.len() != pend + 32 {
            Err(DfimError::CorruptMetadata)
        } else if sha256_of(raw.subrange(0, pend)) != raw.subrange(pend, pend + 32) {
            Err(DfimError::IntegrityFailure)
        } else {
            match sidecar_header_error(raw.subrange(16, pend)) {
                Some(e) => Err(e),
                None => Ok(raw.subrange(16, pend)),
            }
        }
    }
}

/// What parsing a state database gives: the sidecar bytes, authenticated when wrapped.
pub open spec fn state_db_outcome(raw: Seq<u8>) -> Result<Seq<u8>, DfimError> {
    match plaintext_error(raw) {
        Some(e) => Err(e),
        None => if raw.len() >= 8 && raw.subrange(0, 8) == wrapped_magic() {
            unwrap_outcome(raw)
        } else if raw.len() >= 8 && raw.subrange(0, 8) == boot_magic() {
            match sidecar_header_error(raw) {
                Some(e) => Err(e),
                None => Ok(raw),
            }
        } else {
            Err(DfimError::CorruptMetadata)
        },
    }
}

/// A wrapped envelope's declared end plus its checksum stays within `usize` whenever the
/// declared end does (only a 32-bit target can break this).
pub open spec fn envelope_arithmetic_fits(raw: Seq<u8>) -> bool {
    raw.len() >= 16 ==> {
        let pend = 16 + le_u32(raw.subrange(12, 16));
        pend > usize::MAX || pend + 32 <= usize::MAX
    }
}

/// The wrapped envelope of a sidecar payload.
pub open spec fn wrapped_bytes(p: Seq<u8>) -> Seq<u8> {
    let head = wrapped_magic() + u32_le(1) + u32_le(p.len() as u32) + p;
    head + sha256_of(head)
}

/// Checks the fixed header of a boot sidecar.
pub(crate) fn validate_boot_sidecar_header(data: &[u8]) -> (r: Result<(), DfimError>)
    ensures
        r is Ok <==> sidecar_header_error(data@) is None,
        r matches Err(e) ==> sidecar_header_error(data@) == Some(e),
{
    if data.len() < BOOT_HEADER_PREFIX_LEN {
        return Err(DfimError::BufferTooShort);
    }
    assert(BOOT_SIDECAR_MAGIC@ =~= boot_magic());
    if !bytes_eq_at(data, 0, &BOOT_SIDECAR_MAGIC) {
        return Err(DfimError::IntegrityFailure);
    }
    let version = read_le_u32_at(data, 8);
    if version != BOOT_SIDECAR_VERSION {
        return Err(DfimError::InvalidParameter);
    }
    let block_size = read_le_u32_at(data, 12);
    let block_count = read_le_u32_at(data, 16);
    if block_size as usize != 4096 || block_count == 0 {
        return Err(DfimError::InvalidParameter);
    }
    validate_block_count(block_count)?;
    Ok(())
}

fn reject_plaintext_injection(raw: &[u8]) -> (r: Result<(), DfimError>)
    ensures
        r is Ok <==> plaintext_error(raw@) is None,
        r matches Err(e) ==> plaintext_error(raw@) == Some(e),
{
    if raw.len() == 0 {
        return Err(DfimError::EmptyInput);
    }
    if raw.len() == LEGACY_LICENSE_LEN {
        return Err(DfimError::CorruptMetadata);
    }
    assert(PLAINTEXT_STATE_PREFIX@ =~= plaintext_prefix());
    if raw.len() >= 6 && bytes_eq_at(raw, 0, &PLAINTEXT_STATE_PREFIX) {
        return Err(DfimError::CorruptMetadata);
    }
    if raw.len() < 8 {
        let mut all_text = true;
        let mut i: usize = 0;
        while i < raw.len()
            invariant
                i <= raw@.len(),
                all_text == forall|j: int| 0 <= j < i ==> is_text_byte(#[trigger] raw@[j]),
            decreases raw@.len() - i,
        {
            let b = raw[i];
            let text = (0x21 <= b && b <= 0x7e) || b == 0x20 || b == 0x09 || b == 0x0a || b == 0x0c
                || b == 0x0d;
            all_text = all_text && text;
            i = i + 1;
        }
        if all_text {
            return Err(DfimError::CorruptMetadata);
        }
    }
    Ok(())
}

fn unwrap_authenticated_envelope(raw: &[u8]) -> (res: Result<Vec<u8>, DfimError>)
    requires
        envelope_arithmetic_fits(raw@),
    ensures
        match res {
            Ok(v) => unwrap_outcome(raw@) == Ok::<Seq<u8>, DfimError>(v@),
            Err(e) => unwrap_outcome(raw@) == Err::<Seq<u8>, DfimError>(e),
        },
{
    if raw.len() < MIN_WRAPPED_STATE_LEN {
        return Err(DfimError::BufferTooShort);
    }
    let version = read_le_u32_at(raw, 8);
    if version != WRAPPED_STATE_VERSION {
        return Err(DfimError::InvalidParameter);
    }
    let payload_len = read_le_u32_at(raw, 12) as usize;
    let payload_end = match WRAPPED_HEADER_LEN.checked_add(payload_len) {
        Some(e) => e,
        None => {
            return Err(DfimError::ParameterOverflow);
        },
    };
    if raw.len() != payload_end + WRAPPED_CHECKSUM_LEN {
        return Err(DfimError::CorruptMetadata);
    }
    let head = &raw[0..payload_end];
    let expected_checksum = sha256_digest(head);
    let stored = copy_32(raw, payload_end);
    if !constant_time_hash_eq(&expected_checksum, &stored) {
        return Err(DfimError::IntegrityFailure);
    }
    let payload = &raw[WRAPPED_HEADER_LEN..payload_end];
    validate_boot_sidecar_header(payload)?;
    let mut out: Vec<u8> = Vec::new();
    extend_bytes(&mut out, payload);
    assert(out@ =~= raw@.subrange(16, payload_end as int));
    Ok(out)
}

/// Parses and authenticates a state database into raw boot sidecar bytes.
pub fn parse_authenticated_state_db(raw: &[u8]) -> (res: Result<Vec<u8>, DfimError>)
    requires
        envelope_arithmetic_fits(raw@),
    ensures
        match res {
            Ok(v) => state_db_outcome(raw@) == Ok::<Seq<u8>, DfimError>(v@),
            Err(e) => state_db_outcome(raw@) == Err::<Seq<u8>, DfimError>(e),
        },
        res is Ok && raw@.len() >= 8 && raw@.subrange(0, 8) == wrapped_magic() ==> raw@.subrange(
            raw@.len() - 32,
            raw@.len() as int,
        ) == sha256_of(raw@.subrange(0, raw@.len() - 32)),
{
    let res = parse_state_db_body(raw);
    proof {
        if res is Ok && raw@.len() >= 8 && raw@.subrange(0, 8) == wrapped_magic() {
            law_accepted_envelope_checksum_covers_payload(raw@);
        }
    }
    res
}

fn parse_state_db_body(raw: &[u8]) -> (res: Result<Vec<u8>, DfimError>)
    requires
        envelope_arithmetic_fits(raw@),
    ensures
        match res {
            Ok(v) => state_db_outcome(raw@) == Ok::<Seq<u8>, DfimError>(v@),
            Err(e) => state_db_outcome(raw@) == Err::<Seq<u8>, DfimError>(e),
        },
{
    reject_plaintext_injection(raw)?;
    assert(WRAPPED_STATE_MAGIC@ =~= wrapped_magic());
    assert(BOOT_SIDECAR_MAGIC@ =~= boot_magic());
    if raw.len() >= 8 && bytes_eq_at(raw, 0, &WRAPPED_STATE_MAGIC) {
        return unwrap_authenticated_envelope(raw);
    }
    if raw.len() >= 8 && bytes_eq_at(raw, 0, &BOOT_SIDECAR_MAGIC) {
        validate_boot_sidecar_header(raw)?;
        let mut out: Vec<u8> = Vec::new();
        extend_bytes(&mut out, raw);
        return Ok(out);
    }
    Err(DfimError::CorruptMetadata)
}

/// Wraps a boot sidecar payload in an authenticated state-database envelope.
pub fn wrap_authenticated_state_db(sidecar_payload: &[u8]) -> (res: Result<Vec<u8>, DfimError>)
    ensures
        sidecar_header_error(sidecar_payload@) matches Some(e) ==> res == Err::<Vec<u8>, DfimError>(
            e,
        ),
        sidecar_header_error(sidecar_payload@) is None && sidecar_payload@.len() > u32::MAX
            ==> res == Err::<Vec<u8>, DfimError>(DfimError::ParameterOverflow),
        sidecar_header_error(sidecar_payload@) is None && sidecar_payload@.len() <= u32::MAX
            ==> (res matches Ok(w) && w@ == wrapped_bytes(sidecar_payload@)),
        res matches Ok(w) ==> w@.len() == sidecar_payload@.len() + 48 && w@.subrange(w@.len() - 32, w@.len() as int)
            == sha256_of(w@.subrange(0, w@.len() - 32)) && w@.subrange(16, w@.len() - 32) == sidecar_payload@,
{
    proof {
        law_wrapped_checksum_covers_payload(sidecar_payload@);
    }
    validate_boot_sidecar_header(sidecar_payload)?;
    let payload_len = sidecar_payload.len();
    if payload_len > 0xffff_ffff {
        return Err(DfimError::ParameterOverflow);
    }
    let mut out: Vec<u8> = Vec::new();
    extend_bytes(&mut out, &WRAPPED_STATE_MAGIC);
    push_u32_le(&mut out, WRAPPED_STATE_VERSION);
    push_u32_le(&mut out, payload_len as u32);
    extend_bytes(&mut out, sidecar_payload);
    let checksum = sha256_digest(out.as_slice());
    extend_bytes(&mut out, &checksum);
    assert(WRAPPED_STATE_MAGIC@ =~= wrapped_magic());
    Ok(out)
}

/// Parsing the envelope that wrapping produced gives the payload back.
pub proof fn law_wrap_then_parse(p: Seq<u8>)
    requires
        sidecar_header_error(p) is None,
        p.len() <= u32::MAX,
        wrapped_bytes(p).len() <= usize::MAX,
    ensures
        envelope_arithmetic_fits(wrapped_bytes(p)),
        state_db_outcome(wrapped_bytes(p)) == Ok::<Seq<u8>, DfimError>(p),
{
    let head = wrapped_magic() + u32_le(1) + u32_le(p.len() as u32) + p;
    let w = wrapped_bytes(p);
    assert(head.len() == 16 + p.len());
    assert(w.len() == 48 + p.len());
    assert(w.subrange(0, 8) =~= wrapped_magic());
    assert(w.subrange(0, 6) =~= seq![0x44u8, 0x46u8, 0x49u8, 0x4du8, 0x53u8, 0x54u8]);
    assert(w.subrange(0, 6) != plaintext_prefix()) by {
        assert(w.subrange(0, 6)[0] != plaintext_prefix()[0]);
    }
    assert(w.subrange(8, 12) =~= u32_le(1));
    assert(w.subrange(12, 16) =~= u32_le(p.len() as u32));
    crate::codec::lemma_u32_le_round_trip(1);
    crate::codec::lemma_u32_le_round_trip(p.len() as u32);
    let pend: int = 16 + p.len() as int;
    assert(w.subrange(0, pend) =~= head);
    assert(w.subrange(pend, pend + 32) =~= sha256_of(head));
    assert(w.subrange(16, pend) =~= p);
}

/// An accepted `DFIMSTAT` database ends with the SHA-256 of every byte before it: the
/// checksum covers the envelope header and the whole payload handed out.
pub proof fn law_accepted_envelope_checksum_covers_payload(raw: Seq<u8>)
    requires
        state_db_outcome(raw) is Ok,
        raw.len() >= 8,
        raw.subrange(0, 8) == wrapped_magic(),
    ensures
        raw.len() >= 48,
        raw.subrange(raw.len() - 32, raw.len() as int) == sha256_of(raw.subrange(0, raw.len() - 32)),
        state_db_outcome(raw) == Ok::<Seq<u8>, DfimError>(raw.subrange(16, raw.len() - 32)),
{
}

/// A wrapped database ends with the SHA-256 of every byte before it, and those bytes end with
/// the payload.
pub proof fn law_wrapped_checksum_covers_payload(p: Seq<u8>)
    ensures
        wrapped_bytes(p).len() == p.len() + 48,
        wrapped_bytes(p).subrange(wrapped_bytes(p).len() - 32, wrapped_bytes(p).len() as int) == sha256_of(
            wrapped_bytes(p).subrange(0, wrapped_bytes(p).len() - 32),
        ),
        wrapped_bytes(p).subrange(16, wrapped_bytes(p).len() - 32) == p,
{
    let w = wrapped_bytes(p);
    let head = wrapped_magic() + u32_le(1) + u32_le(p.len() as u32) + p;
    assert(w.subrange(0, w.len() - 32) =~= head);
    assert(w.subrange(w.len() - 32, w.len() as int) =~= sha256_of(head));
    assert(w.subrange(16, w.len() - 32) =~= p);
}

/// Swapping the payload of a wrapped database for another of the same length, keeping its
/// header and checksum, is accepted only on a SHA-256 collision between two different
/// header-and-payload byte strings.
pub proof fn law_substituted_payload_needs_collision(p: Seq<u8>, q: Seq<u8>)
    requires
        p.len() == q.len(),
        p != q,
    ensures
        ({
            let w = wrapped_bytes(p);
            let forged = w.subrange(0, 16) + q + w.subrange(w.len() - 32, w.len() as int);
            state_db_outcome(forged) is Ok ==> w.subrange(0, w.len() - 32) != forged.subrange(0, forged.len() - 32)
                && sha256_of(w.subrange(0, w.len() - 32)) == sha256_of(forged.subrange(0, forged.len() - 32))
        }),
{
    law_wrapped_checksum_covers_payload(p);
    let w = wrapped_bytes(p);
    let forged = w.subrange(0, 16) + q + w.subrange(w.len() - 32, w.len() as int);
    assert(forged.len() == w.len());
    assert(forged.subrange(forged.len() - 32, forged.len() as int) =~= w.subrange(w.len() - 32, w.len() as int));
    assert(forged.subrange(0, 8) =~= w.subrange(0, 8));
    assert(w.subrange(0, 8) =~= wrapped_magic());
    if state_db_outcome(forged) is Ok {
        law_accepted_envelope_checksum_covers_payload(forged);
        assert(forged.subrange(16, forged.len() - 32) =~= q);
        if w.subrange(0, w.len() - 32) == forged.subrange(0, forged.len() - 32) {
            assert(w.subrange(0, w.len() - 32).subrange(16, w.len() - 32) =~= p);
            assert(forged.subrange(0, forged.len() - 32).subrange(16, forged.len() - 32) =~= q);
        }
    }
}

} // verus!
