use vstd::prelude::*;
use subtle::ConstantTimeEq;

verus! {

/// Compares two 32-byte digests in constant time.
///
/// Trusted: calls `subtle::ConstantTimeEq::ct_eq` on the two arrays and converts the
/// resulting `Choice` to `bool`; the contract claims it is true exactly when the arrays are equal.
#[verifier::external_body]
pub fn constant_time_hash_eq(a: &[u8; 32], b: &[u8; 32]) -> (r: bool)
    ensures
        r == (a@ == b@),
{
    a.ct_eq(b).into()
}

} // verus!
