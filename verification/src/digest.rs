//! SHA-256 integrity seals for manifests and raw byte streams.
use vstd::prelude::*;
use sha2::Digest;
use crate::error::DfimError;

verus! {

/// SHA-256 digest length in bytes.
pub const SHA256_LEN: usize = 32;

/// The SHA-256 digest of a byte sequence (FIPS 180-4), as computed by the `sha2` crate.
pub uninterp spec fn spec_sha256(data: Seq<u8>) -> [u8; 32];

/// The SHA-256 digest of `data` as a byte sequence (always 32 bytes).
pub open spec fn sha256_of(data: Seq<u8>) -> Seq<u8> {
    spec_sha256(data)@
}

/// SHA-256 over an arbitrary byte stream.
///
/// Trusted: calls `sha2::Sha256::digest`; the contract claims only that the
/// 32 returned bytes are the SHA-256 digest of `data`, named `spec_sha256`.
#[verifier::external_body]
pub fn sha256_digest(data: &[u8]) -> (d: [u8; 32])
    ensures
        d == spec_sha256(data@),
{
    let out = sha2::Sha256::digest(data);
    let mut d = [0u8; 32];
    d.copy_from_slice(out.as_slice());
    d
}

/// SHA-256 over canonical UTF-8 manifest bytes; an empty manifest is refused.
pub fn manifest_digest(canonical_utf8: &[u8]) -> (res: Result<[u8; SHA256_LEN], DfimError>)
    ensures
        canonical_utf8@.len() == 0 ==> res == Err::<[u8; 32], DfimError>(DfimError::EmptyInput),
        canonical_utf8@.len() > 0 ==> res == Ok::<[u8; 32], DfimError>(spec_sha256(canonical_utf8@)),
{
    if canonical_utf8.len() == 0 {
        return Err(DfimError::EmptyInput);
    }
    Ok(sha256_digest(canonical_utf8))
}

/// The bytes of a list of byte strings, end to end.
pub open spec fn concat_chunks(chunks: Seq<&[u8]>) -> Seq<u8>
    decreases chunks.len(),
{
    if chunks.len() == 0 {
        Seq::empty()
    } else {
        concat_chunks(chunks.drop_last()) + chunks.last()@
    }
}

/// SHA-256 over a stream presented as segments: the digest of their concatenation.
pub fn sha256_digest_chunked(chunks: &[&[u8]]) -> (d: [u8; SHA256_LEN])
    ensures
        d == spec_sha256(concat_chunks(chunks@)),
{
    let mut buf: Vec<u8> = Vec::new();
    let mut i: usize = 0;
    assert(chunks@.subrange(0, 0) =~= Seq::<&[u8]>::empty());
    while i < chunks.len()
        invariant
            i <= chunks@.len(),
            buf@ == concat_chunks(chunks@.subrange(0, i as int)),
        decreases chunks@.len() - i,
    {
        crate::codec::extend_bytes(&mut buf, chunks[i]);
        assert(chunks@.subrange(0, i + 1).drop_last() =~= chunks@.subrange(0, i as int));
        i = i + 1;
    }
    assert(chunks@.subrange(0, i as int) =~= chunks@);
    sha256_digest(buf.as_slice())
}

/// Lowercase hexadecimal digit of a nibble.
pub open spec fn hex_digit(n: u8) -> u8 {
    if n < 10 {
        (48 + n) as u8
    } else {
        (87 + n) as u8
    }
}

/// Lowercase hexadecimal of a byte string, two digits per byte.
pub open spec fn hex_of(bytes: Seq<u8>) -> Seq<u8> {
    Seq::new(
        2 * bytes.len(),
        |i: int| if i % 2 == 0 {
            hex_digit(bytes[i / 2] / 16)
        } else {
            hex_digit(bytes[i / 2] % 16)
        },
    )
}

/// Lowercase hexadecimal digit of a nibble.
pub fn nibble_hex(n: u8) -> (c: u8)
    requires
        n < 16,
    ensures
        c == hex_digit(n),
{
    if n < 10 {
        48 + n
    } else {
        87 + n
    }
}

/// Encodes a digest as 64 lowercase hexadecimal characters.
pub fn digest_to_hex(digest: &[u8; SHA256_LEN]) -> (out: [u8; 64])
    ensures
        out@ == hex_of(digest@),
{
    let mut out = [0u8; 64];
    let mut i: usize = 0;
    while i < 32
        invariant
            i <= 32,
            out@.len() == 64,
            forall|j: int| 0 <= j < 2 * i ==> #[trigger] out@[j] == hex_of(digest@)[j],
        decreases 32 - i,
    {
        let byte = digest[i];
        out[2 * i] = nibble_hex(byte / 16);
        out[2 * i + 1] = nibble_hex(byte % 16);
        i = i + 1;
    }
    assert(out@ =~= hex_of(digest@));
    out
}

} // verus!
