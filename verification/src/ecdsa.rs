//! ECDSA P-256 / SHA-256 through the `p256` crate: names for what its functions compute, and
//! the wrappers that make the calls.
use vstd::prelude::*;
use p256::ecdsa::signature::{Signer, Verifier};

verus! {

/// The compressed SEC1 public key of a P-256 private scalar, when the scalar is valid.
pub uninterp spec fn p256_public_key_of(private_key: Seq<u8>) -> Option<Seq<u8>>;

/// The deterministic (RFC 6979) ECDSA P-256/SHA-256 signature of `msg`, when the private
/// scalar is valid.
pub uninterp spec fn p256_signature_of(private_key: Seq<u8>, msg: Seq<u8>) -> Option<[u8; 64]>;

/// `bytes` is a valid SEC1 encoding of a P-256 point.
pub uninterp spec fn p256_key_parses(bytes: Seq<u8>) -> bool;

/// `bytes` is a 64-byte signature whose scalars are in range.
pub uninterp spec fn p256_signature_parses(bytes: Seq<u8>) -> bool;

/// The signature verifies `msg` under the public key.
pub uninterp spec fn p256_verifies(public_key: Seq<u8>, msg: Seq<u8>, signature: Seq<u8>) -> bool;

/// Trusted: `SigningKey::from_bytes` on the private scalar, then the verifying key's
/// compressed SEC1 encoding (`to_sec1_point(true)`); `None` when the scalar is rejected.
/// The contract names the result and says that a valid scalar's public key parses back and,
/// being a compressed encoding of a P-256 point, is 33 bytes long.
#[verifier::external_body]
pub(crate) fn p256_public_key(private_key: &[u8; 32]) -> (r: Option<Vec<u8>>)
    ensures
        match r {
            Some(v) => p256_public_key_of(private_key@) == Some(v@) && p256_key_parses(v@) && v@.len() == 33,
            None => p256_public_key_of(private_key@) is None,
        },
{
    match p256::ecdsa::SigningKey::from_bytes(&(*private_key).into()) {
        Ok(sk) => Some(p256::ecdsa::VerifyingKey::from(&sk).to_sec1_point(true).as_bytes().to_vec()),
        Err(_) => None,
    }
}

/// Trusted: `SigningKey::from_bytes`, then `Signer::sign` on `msg` and `Signature::to_bytes`;
/// `None` exactly when the scalar is rejected. The contract names the signature and states
/// ECDSA's completeness: a signature made with a key parses and verifies under that key's
/// public key.
#[verifier::external_body]
pub(crate) fn p256_sign(private_key: &[u8; 32], msg: &[u8]) -> (r: Option<[u8; 64]>)
    ensures
        r == p256_signature_of(private_key@, msg@),
        r is None <==> p256_public_key_of(private_key@) is None,
        r matches Some(sig) ==> p256_signature_parses(sig@) && p256_verifies(
            p256_public_key_of(private_key@)->Some_0,
            msg@,
            sig@,
        ),
{
    match p256::ecdsa::SigningKey::from_bytes(&(*private_key).into()) {
        Ok(sk) => {
            let signature: p256::ecdsa::Signature = sk.sign(msg);
            let mut out = [0u8; 64];
            out.copy_from_slice(signature.to_bytes().as_slice());
            Some(out)
        },
        Err(_) => None,
    }
}

/// What checking a signature gives.
#[derive(PartialEq, Eq, Structural)]
pub(crate) enum SignatureCheck {
    KeyRejected,
    SignatureMalformed,
    Invalid,
    Valid,
}

/// Trusted: `VerifyingKey::from_sec1_bytes` on the key, `Signature::from_slice` on the
/// signature, then `Verifier::verify` on `msg`; each failure is told apart. The contract
/// names each step's outcome.
#[verifier::external_body]
pub(crate) fn p256_check(public_key: &[u8; 33], msg: &[u8], signature: &[u8]) -> (r: SignatureCheck)
    ensures
        r == if !p256_key_parses(public_key@) {
            SignatureCheck::KeyRejected
        } else if !p256_signature_parses(signature@) {
            SignatureCheck::SignatureMalformed
        } else if !p256_verifies(public_key@, msg@, signature@) {
            SignatureCheck::Invalid
        } else {
            SignatureCheck::Valid
        },
{
    match p256::ecdsa::VerifyingKey::from_sec1_bytes(public_key) {
        Err(_) => SignatureCheck::KeyRejected,
        Ok(key) => match p256::ecdsa::Signature::from_slice(signature) {
            Err(_) => SignatureCheck::SignatureMalformed,
            Ok(sig) => match key.verify(msg, &sig) {
                Err(_) => SignatureCheck::Invalid,
                Ok(()) => SignatureCheck::Valid,
            },
        },
    }
}

/// Trusted: `VerifyingKey::from_sec1_bytes`; the contract claims it accepts exactly the
/// encodings named valid.
#[verifier::external_body]
pub(crate) fn p256_key_accepted(public_key: &[u8]) -> (r: bool)
    ensures
        r == p256_key_parses(public_key@),
{
    p256::ecdsa::VerifyingKey::from_sec1_bytes(public_key).is_ok()
}

/// Trusted: `Signature::from_slice`; the contract claims it accepts exactly the signatures
/// named well formed.
#[verifier::external_body]
pub(crate) fn p256_signature_accepted(signature: &[u8]) -> (r: bool)
    ensures
        r == p256_signature_parses(signature@),
{
    p256::ecdsa::Signature::from_slice(signature).is_ok()
}

} // verus!
