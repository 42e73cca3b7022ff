//! Build-identity hash commitment.
//!
//! `BUILD_IDENTITY_HASH = SHA256(canonical bytes)`, where the canonical bytes are a
//! fixed-width little-endian encoding of the build terms. The two angle and weight fields
//! are committed through their IEEE-754 bit patterns, which is how a term carries them here.
use vstd::prelude::*;
use vstd::string::StringSliceAdditionalSpecFns;
use crate::codec::{extend_bytes, push_u32_le, u32_le};
use crate::constants::SHA256_LEN;
use crate::digest::{digest_to_hex, hex_of, sha256_digest, spec_sha256};
use crate::error::DfimError;

verus! {

/// One build-identity term, with its angle and weight as IEEE-754 single-precision bits.
#[derive(Debug, Clone, Copy, PartialEq, Eq)]
pub struct PhasorTerm {
    pub role: &'static str,
    pub rank: u32,
    pub axis: u32,
    pub phi_rad_bits: u32,
    pub weight_bits: u32,
}

/// Canonical bytes of one term: role bytes, a NUL separator, then rank, axis, angle bits
/// and weight bits, each as four little-endian bytes.
pub open spec fn canonical_term(t: PhasorTerm) -> Seq<u8> {
    t.role.spec_bytes() + seq![0u8] + u32_le(t.rank) + u32_le(t.axis) + u32_le(t.phi_rad_bits)
        + u32_le(t.weight_bits)
}

/// Concatenated canonical bytes of the terms, in order.
pub open spec fn canonical_terms(ts: Seq<PhasorTerm>) -> Seq<u8>
    decreases ts.len(),
{
    if ts.len() == 0 {
        Seq::empty()
    } else {
        canonical_terms(ts.drop_last()) + canonical_term(ts.last())
    }
}

fn append_canonical_term(term: &PhasorTerm, out: &mut Vec<u8>)
    ensures
        final(out)@ == old(out)@ + canonical_term(*term),
{
    extend_bytes(out, term.role.as_bytes());
    out.push(0);
    push_u32_le(out, term.rank);
    push_u32_le(out, term.axis);
    push_u32_le(out, term.phi_rad_bits);
    push_u32_le(out, term.weight_bits);
    assert(final(out)@ =~= old(out)@ + canonical_term(*term));
}

/// `SHA256(canonical bytes of the terms)`; no terms is an error.
pub fn build_identity_hash(terms: &[PhasorTerm]) -> (res: Result<[u8; SHA256_LEN], DfimError>)
    ensures
        terms@.len() == 0 ==> res == Err::<[u8; SHA256_LEN], DfimError>(DfimError::EmptyInput),
        terms@.len() > 0 ==> res == Ok::<[u8; SHA256_LEN], DfimError>(
            spec_sha256(canonical_terms(terms@)),
        ),
{
    if terms.len() == 0 {
        return Err(DfimError::EmptyInput);
    }
    let mut buf: Vec<u8> = Vec::new();
    let mut i: usize = 0;
    while i < terms.len()
        invariant
            i <= terms@.len(),
            buf@ == canonical_terms(terms@.subrange(0, i as int)),
        decreases terms@.len() - i,
    {
        let ghost before = buf@;
        append_canonical_term(&terms[i], &mut buf);
        proof {
            let next = terms@.subrange(0, i + 1);
            assert(next.drop_last() =~= terms@.subrange(0, i as int));
            assert(next.last() == terms@[i as int]);
        }
        i = i + 1;
    }
    assert(terms@.subrange(0, terms@.len() as int) =~= terms@);
    Ok(sha256_digest(buf.as_slice()))
}

/// 64-character lowercase hexadecimal form of a build-identity hash.
pub fn build_identity_hex(hash: &[u8; SHA256_LEN]) -> (out: [u8; 64])
    ensures
        out@ == hex_of(hash@),
{
    digest_to_hex(hash)
}

} // verus!
