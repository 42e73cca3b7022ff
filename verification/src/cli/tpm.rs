//! Shaping of TPM 2.0 data for attestation: device preference, signature and public-key
//! encodings, and the stability of a PCR snapshot around a quote.
use vstd::prelude::*;
use crate::ecdsa::{p256_key_accepted, p256_key_parses};

verus! {

/// Linux TPM 2.0 device paths, resource manager first, raw device as fallback.
pub const TPM_DEVICE_CANDIDATES: [&'static str; 2] = ["/dev/tpmrm0", "/dev/tpm0"];

/// Environment variable naming a TCTI that overrides the device search.
pub const DFIM_TPM_TCTI_ENV: &'static str = "DFIM_TPM_TCTI";

/// Marshalled TPM-resident attestation key and its enrolment public key.
pub struct EnrolledAttestationKey {
    pub private_blob: Vec<u8>,
    pub public_blob: Vec<u8>,
    pub public_key_sec1: [u8; 33],
}

/// Why TPM output was refused.
#[derive(Clone, Copy, Debug, PartialEq, Eq, Structural)]
pub enum TpmDataError {
    /// An ECDSA signature component is empty or longer than 32 bytes.
    SignatureComponentLength,
    /// An ECC coordinate is empty or longer than 32 bytes.
    NotP256Key,
    /// The compressed point is not on the curve.
    InvalidP256Key,
    /// PCR values or the update counter changed while the quote was made.
    PcrChangedDuringQuote,
}

/// `c` left-padded with zeros to 32 bytes.
pub open spec fn left_padded(c: Seq<u8>) -> Seq<u8> {
    Seq::new((32 - c.len()) as nat, |i: int| 0u8) + c
}

fn copy_left_padded(source: &[u8], output: &mut [u8; 32]) -> (ok: bool)
    requires
        old(output)@ == Seq::new(32, |i: int| 0u8),
    ensures
        ok == (0 < source@.len() <= 32),
        ok ==> final(output)@ == left_padded(source@),
{
    let n = source.len();
    if n == 0 || n > 32 {
        return false;
    }
    let start = 32 - n;
    let mut i: usize = 0;
    while i < n
        invariant
            n == source@.len(),
            0 < n <= 32,
            start == 32 - n,
            i <= n,
            output@.len() == 32,
            forall|j: int| 0 <= j < start ==> output@[j] == 0u8,
            forall|j: int| 0 <= j < i ==> output@[start + j] == source@[j],
        decreases n - i,
    {
        output[start + i] = source[i];
        i = i + 1;
    }
    assert(output@ =~= left_padded(source@));
    true
}

/// The 64-byte `r || s` signature of an ECDSA result whose components the TPM trimmed of
/// leading zeros.
pub fn normalize_ecdsa_signature(r: &[u8], s: &[u8]) -> (res: Result<[u8; 64], TpmDataError>)
    ensures
        match res {
            Ok(sig) => 0 < r@.len() <= 32 && 0 < s@.len() <= 32 && sig@ == left_padded(r@) + left_padded(
                s@,
            ),
            Err(e) => !(0 < r@.len() <= 32 && 0 < s@.len() <= 32) && e
                == TpmDataError::SignatureComponentLength,
        },
{
    let mut hi = [0u8; 32];
    let mut lo = [0u8; 32];
    assert(hi@ =~= Seq::new(32, |i: int| 0u8));
    assert(lo@ =~= Seq::new(32, |i: int| 0u8));
    if !copy_left_padded(r, &mut hi) {
        return Err(TpmDataError::SignatureComponentLength);
    }
    if !copy_left_padded(s, &mut lo) {
        return Err(TpmDataError::SignatureComponentLength);
    }
    let mut out = [0u8; 64];
    let mut i: usize = 0;
    while i < 32
        invariant
            i <= 32,
            out@.len() == 64,
            forall|j: int| 0 <= j < i ==> out@[j] == hi@[j] && out@[32 + j] == lo@[j],
        decreases 32 - i,
    {
        out[i] = hi[i];
        out[32 + i] = lo[i];
        i = i + 1;
    }
    assert(out@ =~= hi@ + lo@);
    Ok(out)
}

/// Compressed SEC1 encoding of the point `(x, y)`: parity prefix, then `x` left-padded.
pub open spec fn compressed_point(x: Seq<u8>, y: Seq<u8>) -> Seq<u8> {
    seq![(2 + y.last() % 2) as u8] + left_padded(x)
}

/// Compressed SEC1 encoding of a TPM ECC public point, which must be a valid P-256 key.
pub fn ecc_public_to_sec1(x: &[u8], y: &[u8]) -> (res: Result<[u8; 33], TpmDataError>)
    ensures
        !(0 < x@.len() <= 32 && 0 < y@.len() <= 32) ==> res == Err::<[u8; 33], TpmDataError>(
            TpmDataError::NotP256Key,
        ),
        (0 < x@.len() <= 32 && 0 < y@.len() <= 32) ==> if p256_key_parses(compressed_point(x@, y@)) {
            res matches Ok(k) && k@ == compressed_point(x@, y@)
        } else {
            res == Err::<[u8; 33], TpmDataError>(TpmDataError::InvalidP256Key)
        },
{
    if x.len() == 0 || x.len() > 32 || y.len() == 0 || y.len() > 32 {
        return Err(TpmDataError::NotP256Key);
    }
    let mut padded = [0u8; 32];
    assert(padded@ =~= Seq::new(32, |i: int| 0u8));
    let _ = copy_left_padded(x, &mut padded);
    let parity = y[y.len() - 1] % 2;
    let mut encoded = [0u8; 33];
    encoded[0] = 2 + parity;
    let mut i: usize = 0;
    while i < 32
        invariant
            i <= 32,
            encoded@.len() == 33,
            encoded@[0] == 2 + parity,
            forall|j: int| 0 <= j < i ==> encoded@[1 + j] == padded@[j],
        decreases 32 - i,
    {
        encoded[1 + i] = padded[i];
        i = i + 1;
    }
    assert(encoded@ =~= compressed_point(x@, y@));
    if !p256_key_accepted(&encoded) {
        return Err(TpmDataError::InvalidP256Key);
    }
    Ok(encoded)
}

/// A quote is only meaningful when the PCR update counter and values read before and after
/// it agree.
pub fn check_pcr_snapshot_stable(
    counter_before: u32,
    values_before: &[[u8; 32]; 5],
    counter_after: u32,
    values_after: &[[u8; 32]; 5],
) -> (res: Result<(), TpmDataError>)
    ensures
        res is Ok <==> counter_before == counter_after && forall|i: int|
            0 <= i < 5 ==> #[trigger] values_before@[i]@ == values_after@[i]@,
        res is Err ==> res == Err::<(), TpmDataError>(TpmDataError::PcrChangedDuringQuote),
{
    if counter_before != counter_after {
        return Err(TpmDataError::PcrChangedDuringQuote);
    }
    let mut i: usize = 0;
    while i < 5
        invariant
            i <= 5,
            forall|k: int| 0 <= k < i ==> #[trigger] values_before@[k]@ == values_after@[k]@,
        decreases 5 - i,
    {
        let mut j: usize = 0;
        while j < 32
            invariant
                i < 5,
                j <= 32,
                forall|m: int| 0 <= m < j ==> values_before@[i as int]@[m] == values_after@[i as int]@[m],
            decreases 32 - j,
        {
            if values_before[i][j] != values_after[i][j] {
                return Err(TpmDataError::PcrChangedDuringQuote);
            }
            j = j + 1;
        }
        assert(values_before@[i as int]@ =~= values_after@[i as int]@);
        i = i + 1;
    }
    Ok(())
}

} // verus!
