//! Key derivation and HMAC authentication of enrolled manifests.
//!
//! - `S = SHA256(salt_label || seed)`: deterministic, domain-separated salt
//! - `K = HKDF-SHA256(IKM = seed, salt = S, info = context)`
//! - `Tag = HMAC-SHA256(K, manifest_bytes)`
use vstd::prelude::*;
use crate::codec::extend_bytes;
use hmac::Mac;
use vstd::utf8::encode_utf8;
use crate::constants::{default_salt_label_const, protocol_id_const, DK_LEN, SHA256_LEN};
use crate::digest::{sha256_digest, spec_sha256};
use crate::error::DfimError;
use crate::secrets::{anchors_label, default_salt_label_bytes};
use crate::text::{decimal, push_decimal};

verus! {

/// Uniform-random authentication seed.
pub type AuthSeed = [u8; DK_LEN];

/// Derived authentication key.
pub type AuthKey = [u8; DK_LEN];

/// HMAC-SHA256 authentication tag.
pub type AuthTag = [u8; DK_LEN];

/// HKDF context separating the manifest-authentication domain: `dfim-manifest-auth-v1`.
const AUTH_INFO: [u8; 21] = [
    0x64, 0x66, 0x69, 0x6d, 0x2d, 0x6d, 0x61, 0x6e, 0x69, 0x66, 0x65, 0x73, 0x74, 0x2d, 0x61, 0x75,
    0x74, 0x68, 0x2d, 0x76, 0x31,
];

/// The bytes of `dfim-manifest-auth-v1`.
pub open spec fn auth_info_bytes() -> Seq<u8> {
    seq![
        0x64u8, 0x66u8, 0x69u8, 0x6du8, 0x2du8, 0x6du8, 0x61u8, 0x6eu8, 0x69u8, 0x66u8, 0x65u8,
        0x73u8, 0x74u8, 0x2du8, 0x61u8, 0x75u8, 0x74u8, 0x68u8, 0x2du8, 0x76u8, 0x31u8,
    ]
}

/// HMAC-SHA256 (RFC 2104) of `data` under `key`, as computed by the `hmac` crate.
pub uninterp spec fn spec_hmac_sha256(key: Seq<u8>, data: Seq<u8>) -> [u8; 32];

/// HKDF-SHA256 (RFC 5869) output keying material of length `len`, as computed by the `hkdf`
/// crate: extract with `salt` over `ikm`, expand with `info`.
pub uninterp spec fn spec_hkdf_sha256(ikm: Seq<u8>, salt: Seq<u8>, info: Seq<u8>, len: nat) -> Seq<u8>;

/// HMAC-SHA256 tag of `data` under `key`.
pub fn hmac_sha256_tag(key: &[u8], data: &[u8]) -> (t: [u8; 32])
    ensures
        t == spec_hmac_sha256(key@, data@),
{
    match hmac_sha256(key, data) {
        Some(t) => t,
        None => [0u8; 32],
    }
}

/// Trusted: `Hmac::<Sha256>::new_from_slice(key)`, `update(data)`, `finalize`. The `hmac`
/// source accepts keys of any length, so the contract promises `Some`, holding the named tag.
#[verifier::external_body]
fn hmac_sha256(key: &[u8], data: &[u8]) -> (r: Option<[u8; 32]>)
    ensures
        r == Some(spec_hmac_sha256(key@, data@)),
{
    match <hmac::Hmac<sha2::Sha256> as hmac::KeyInit>::new_from_slice(key) {
        Ok(mut mac) => {
            mac.update(data);
            let out = mac.finalize().into_bytes();
            let mut tag = [0u8; 32];
            tag.copy_from_slice(out.as_slice());
            Some(tag)
        },
        Err(_) => None,
    }
}

/// Trusted: `Hkdf::<Sha256>::new(Some(salt), ikm)` then `expand(info, okm)` into `len` bytes.
/// The `hkdf` source refuses only outputs longer than 255 blocks of 32 bytes; the contract
/// says exactly that and names the output.
#[verifier::external_body]
fn hkdf_sha256(ikm: &[u8], salt: &[u8], info: &[u8], len: usize) -> (r: Option<Vec<u8>>)
    ensures
        r is Some <==> len <= 8160,
        r matches Some(okm) ==> okm@ == spec_hkdf_sha256(ikm@, salt@, info@, len as nat) && okm@.len() == len,
{
    let hk = hkdf::Hkdf::<sha2::Sha256>::new(Some(salt), ikm);
    let mut okm = vec![0u8; len];
    match hk.expand(info, &mut okm) {
        Ok(()) => Some(okm),
        Err(_) => None,
    }
}

/// The salt derived from a label and a seed: the digest of the label followed by the seed.
pub open spec fn salt_of(salt_label: Seq<u8>, seed: Seq<u8>) -> [u8; 32] {
    spec_sha256(salt_label + seed)
}

/// Derives a deterministic salt: `S = SHA256(salt_label || seed)`, refusing an empty seed.
pub fn derive_salt(salt_label: &[u8], seed: &[u8]) -> (res: Result<[u8; SHA256_LEN], DfimError>)
    requires
        salt_label@.len() + seed@.len() <= usize::MAX,
    ensures
        seed@.len() == 0 ==> res == Err::<[u8; 32], DfimError>(DfimError::EmptyInput),
        seed@.len() > 0 ==> res == Ok::<[u8; 32], DfimError>(salt_of(salt_label@, seed@)),
{
    if seed.len() == 0 {
        return Err(DfimError::EmptyInput);
    }
    let mut buf: Vec<u8> = Vec::new();
    extend_bytes(&mut buf, salt_label);
    extend_bytes(&mut buf, seed);
    assert(buf@ =~= salt_label@ + seed@);
    Ok(sha256_digest(buf.as_slice()))
}

/// Derives an authentication key with HKDF-SHA256.
pub fn derive_authentication_key(seed: &AuthSeed, salt: &[u8], info: &[u8]) -> (res: Result<AuthKey, DfimError>)
    ensures
        res matches Ok(k) && k@ == spec_hkdf_sha256(seed@, salt@, info@, 32),
{
    let okm = match hkdf_sha256(seed, salt, info, DK_LEN) {
        Some(v) => v,
        None => {
            return Err(DfimError::IntegrityFailure);
        },
    };
    let mut key = [0u8; 32];
    let mut i: usize = 0;
    while i < 32
        invariant
            i <= 32,
            okm@.len() == 32,
            key@.len() == 32,
            forall|j: int| 0 <= j < i ==> key@[j] == okm@[j],
        decreases 32 - i,
    {
        key[i] = okm[i];
        i = i + 1;
    }
    assert(key@ =~= okm@);
    Ok(key)
}

/// HMAC-SHA256 authentication tag over manifest bytes.
pub fn authentication_tag(key: &AuthKey, manifest_bytes: &[u8]) -> (res: Result<AuthTag, DfimError>)
    ensures
        manifest_bytes@.len() == 0 ==> res == Err::<[u8; 32], DfimError>(DfimError::EmptyInput),
        manifest_bytes@.len() > 0 ==> res == Ok::<[u8; 32], DfimError>(
            spec_hmac_sha256(key@, manifest_bytes@),
        ),
{
    if manifest_bytes.len() == 0 {
        return Err(DfimError::EmptyInput);
    }
    match hmac_sha256(key, manifest_bytes) {
        Some(tag) => Ok(tag),
        None => Err(DfimError::IntegrityFailure),
    }
}

/// Values in decimal, separated by `|`.
pub open spec fn joined(xs: Seq<u64>) -> Seq<u8>
    decreases xs.len(),
{
    if xs.len() == 0 {
        Seq::empty()
    } else if xs.len() == 1 {
        decimal(xs[0] as nat)
    } else {
        joined(xs.drop_last()) + seq![0x7cu8] + decimal(xs.last() as nat)
    }
}

/// Canonical manifest bytes: protocol id, `anchors`, the coordinates and the abjad values,
/// one per line.
pub open spec fn canonical_manifest(coords: Seq<u64>, abjad: Seq<u64>) -> Seq<u8> {
    encode_utf8("dfim_integrity_protocol_v1"@) + seq![0x0au8] + encode_utf8("anchors"@) + seq![0x0au8]
        + joined(coords) + seq![0x0au8] + joined(abjad)
}

fn push_joined(out: &mut Vec<u8>, xs: &[u64])
    ensures
        final(out)@ == old(out)@ + joined(xs@),
{
    let ghost start = out@;
    let mut i: usize = 0;
    assert(xs@.subrange(0, 0) =~= Seq::<u64>::empty());
    while i < xs.len()
        invariant
            i <= xs@.len(),
            out@ == start + joined(xs@.subrange(0, i as int)),
        decreases xs@.len() - i,
    {
        let ghost before = out@;
        if i > 0 {
            out.push(0x7c);
        }
        push_decimal(out, xs[i]);
        proof {
            let t = xs@.subrange(0, i + 1);
            assert(t.drop_last() =~= xs@.subrange(0, i as int));
            assert(t.last() == xs@[i as int]);
            if i == 0 {
                assert(out@ =~= start + joined(t));
            } else {
                assert(out@ =~= start + joined(t));
            }
        }
        i = i + 1;
    }
    assert(xs@.subrange(0, i as int) =~= xs@);
}

/// Builds canonical manifest bytes from anchor coordinates and abjad values.
pub fn canonical_manifest_bytes(coords: &[u64], abjad: &[u64]) -> (res: Result<Vec<u8>, DfimError>)
    ensures
        coords@.len() == 0 && abjad@.len() == 0 ==> res == Err::<Vec<u8>, DfimError>(DfimError::EmptyInput),
        !(coords@.len() == 0 && abjad@.len() == 0) ==> (res matches Ok(v) && v@ == canonical_manifest(coords@, abjad@)),
{
    if coords.len() == 0 && abjad.len() == 0 {
        return Err(DfimError::EmptyInput);
    }
    let mut out: Vec<u8> = Vec::new();
    extend_bytes(&mut out, protocol_id_const().as_bytes());
    out.push(0x0a);
    extend_bytes(&mut out, anchors_label().as_bytes());
    out.push(0x0a);
    push_joined(&mut out, coords);
    out.push(0x0a);
    push_joined(&mut out, abjad);
    assert(out@ =~= canonical_manifest(coords@, abjad@));
    Ok(out)
}

/// The tag of a manifest under a seed: HMAC-SHA256 keyed with the HKDF key derived from the
/// seed and its salt under the default label.
pub open spec fn manifest_tag(seed: Seq<u8>, manifest: Seq<u8>) -> [u8; 32] {
    let salt = salt_of(default_salt_label_bytes(), seed);
    let key = spec_hkdf_sha256(seed, salt@, auth_info_bytes(), 32);
    spec_hmac_sha256(key, manifest)
}

/// Full authentication: derive the HKDF key from the seed, then tag the manifest.
pub fn authenticate_manifest(seed: &AuthSeed, manifest_bytes: &[u8]) -> (res: Result<AuthTag, DfimError>)
    ensures
        manifest_bytes@.len() == 0 ==> res == Err::<[u8; 32], DfimError>(DfimError::EmptyInput),
        manifest_bytes@.len() > 0 ==> res == Ok::<[u8; 32], DfimError>(manifest_tag(seed@, manifest_bytes@)),
{
    let salt = derive_salt(default_salt_label_const(), seed)?;
    assert(AUTH_INFO@ =~= auth_info_bytes());
    let key = derive_authentication_key(seed, &salt, &AUTH_INFO)?;
    authentication_tag(&key, manifest_bytes)
}

/// HKDF-SHA256 key material of `out_len` bytes for build identities.
pub fn hkdf_sha256_expand(ikm: &[u8], salt: &[u8], info: &[u8], out_len: usize) -> (res: Result<Vec<u8>, DfimError>)
    ensures
        ikm@.len() == 0 || out_len == 0 || out_len > 128 ==> res == Err::<Vec<u8>, DfimError>(DfimError::InvalidParameter),
        !(ikm@.len() == 0 || out_len == 0 || out_len > 128) ==> (res matches Ok(okm) && okm@ == spec_hkdf_sha256(ikm@, salt@, info@, out_len as nat)),
{
    if ikm.len() == 0 || out_len == 0 || out_len > DK_LEN * 4 {
        return Err(DfimError::InvalidParameter);
    }
    match hkdf_sha256(ikm, salt, info, out_len) {
        Some(okm) => Ok(okm),
        None => Err(DfimError::IntegrityFailure),
    }
}

/// The decimal digits of a number: at least one, each an ASCII digit, and at least two from
/// ten on.
proof fn lemma_decimal_digits(x: nat)
    ensures
        decimal(x).len() >= 1,
        x >= 10 ==> decimal(x).len() >= 2,
        forall|k: int| 0 <= k < decimal(x).len() ==> 48 <= #[trigger] decimal(x)[k] <= 57,
    decreases x,
{
    if x >= 10 {
        lemma_decimal_digits(x / 10);
    }
}

/// Different numbers have different decimal digits.
proof fn lemma_decimal_injective(x: nat, y: nat)
    requires
        decimal(x) == decimal(y),
    ensures
        x == y,
    decreases x,
{
    lemma_decimal_digits(x);
    lemma_decimal_digits(y);
    if x < 10 && y < 10 {
        assert(decimal(x)[0] == decimal(y)[0]);
        assert(decimal(x)[0] == (48 + x) as u8);
        assert(decimal(y)[0] == (48 + y) as u8);
    } else if x >= 10 && y >= 10 {
        let dx = decimal(x);
        assert(dx.last() == decimal(y).last());
        assert(dx.last() == (48 + x % 10) as u8);
        assert(decimal(y).last() == (48 + y % 10) as u8);
        assert(x % 10 == y % 10);
        assert(dx.drop_last() =~= decimal(x / 10));
        assert(decimal(y).drop_last() =~= decimal(y / 10));
        lemma_decimal_injective(x / 10, y / 10);
        assert(x == 10 * (x / 10) + x % 10);
        assert(y == 10 * (y / 10) + y % 10);
    }
}

/// Joined values: non-empty exactly when there is a value, a bar only between values.
proof fn lemma_joined_shape(xs: Seq<u64>)
    ensures
        xs.len() > 0 ==> joined(xs).len() >= 1,
        xs.len() <= 1 ==> forall|k: int| 0 <= k < joined(xs).len() ==> #[trigger] joined(xs)[k] != 0x7c,
        xs.len() >= 2 ==> joined(xs)[joined(xs.drop_last()).len() as int] == 0x7c,
        forall|k: int| 0 <= k < joined(xs).len() ==> #[trigger] joined(xs)[k] != 0x0a,
    decreases xs.len(),
{
    if xs.len() == 1 {
        lemma_decimal_digits(xs[0] as nat);
    } else if xs.len() >= 2 {
        lemma_joined_shape(xs.drop_last());
        lemma_decimal_digits(xs.last() as nat);
        let a = joined(xs.drop_last());
        let d = decimal(xs.last() as nat);
        assert forall|k: int| 0 <= k < joined(xs).len() implies #[trigger] joined(xs)[k] != 0x0a by {
            if k < a.len() {
                assert(joined(xs)[k] == a[k]);
            } else if k > a.len() {
                assert(joined(xs)[k] == d[k - a.len() - 1]);
            }
        }
    }
}

/// Joined values give the values back: different lists join to different bytes.
pub proof fn lemma_joined_injective(a: Seq<u64>, b: Seq<u64>)
    requires
        joined(a) == joined(b),
    ensures
        a == b,
    decreases a.len() + b.len(),
{
    lemma_joined_shape(a);
    lemma_joined_shape(b);
    if a.len() == 0 || b.len() == 0 {
        assert(a.len() == 0 && b.len() == 0);
        assert(a =~= b);
    } else if a.len() == 1 && b.len() == 1 {
        lemma_decimal_injective(a[0] as nat, b[0] as nat);
        assert(a =~= b);
    } else if a.len() == 1 {
        let k = joined(b.drop_last()).len() as int;
        assert(joined(a)[k] != 0x7c);
    } else if b.len() == 1 {
        let k = joined(a.drop_last()).len() as int;
        assert(joined(b)[k] != 0x7c);
    } else {
        let s = joined(a);
        let xa = joined(a.drop_last());
        let xb = joined(b.drop_last());
        let da = decimal(a.last() as nat);
        let db = decimal(b.last() as nat);
        lemma_decimal_digits(a.last() as nat);
        lemma_decimal_digits(b.last() as nat);
        assert(s == xa + seq![0x7cu8] + da);
        assert(s == xb + seq![0x7cu8] + db);
        if xa.len() < xb.len() {
            assert(s[xb.len() as int] == 0x7c);
            assert(s[xb.len() as int] == da[xb.len() - xa.len() - 1]);
        }
        if xb.len() < xa.len() {
            assert(s[xa.len() as int] == 0x7c);
            assert(s[xa.len() as int] == db[xa.len() - xb.len() - 1]);
        }
        assert(xa.len() == xb.len());
        assert(xa =~= s.subrange(0, xa.len() as int));
        assert(xb =~= s.subrange(0, xb.len() as int));
        assert(da =~= s.subrange(xa.len() + 1int, s.len() as int));
        assert(db =~= s.subrange(xb.len() + 1int, s.len() as int));
        lemma_joined_injective(a.drop_last(), b.drop_last());
        lemma_decimal_injective(a.last() as nat, b.last() as nat);
        assert(a =~= a.drop_last().push(a.last()));
        assert(b =~= b.drop_last().push(b.last()));
    }
}

/// Canonical manifest bytes determine the manifest: two manifests with the same bytes have the
/// same coordinates and the same abjad values, so manifests that differ in either get
/// different bytes (and are authenticated apart).
pub proof fn law_canonical_manifest_injective(c1: Seq<u64>, a1: Seq<u64>, c2: Seq<u64>, a2: Seq<u64>)
    requires
        canonical_manifest(c1, a1) == canonical_manifest(c2, a2),
    ensures
        c1 == c2,
        a1 == a2,
{
    let pre = encode_utf8("dfim_integrity_protocol_v1"@) + seq![0x0au8] + encode_utf8("anchors"@) + seq![0x0au8];
    let s = canonical_manifest(c1, a1);
    let j1 = joined(c1);
    let j2 = joined(c2);
    lemma_joined_shape(c1);
    lemma_joined_shape(c2);
    assert(s == pre + j1 + seq![0x0au8] + joined(a1));
    assert(s == pre + j2 + seq![0x0au8] + joined(a2));
    let n: int = pre.len() as int;
    if j1.len() < j2.len() {
        assert(s[n + j1.len() as int] == 0x0a);
        assert(s[n + j1.len() as int] == j2[j1.len() as int]);
    }
    if j2.len() < j1.len() {
        assert(s[n + j2.len() as int] == 0x0a);
        assert(s[n + j2.len() as int] == j1[j2.len() as int]);
    }
    assert(j1 =~= s.subrange(n, n + j1.len() as int));
    assert(j2 =~= s.subrange(n, n + j2.len() as int));
    assert(joined(a1) =~= s.subrange(n + j1.len() as int + 1, s.len() as int));
    assert(joined(a2) =~= s.subrange(n + j2.len() as int + 1, s.len() as int));
    lemma_joined_injective(c1, c2);
    lemma_joined_injective(a1, a2);
}

} // verus!
