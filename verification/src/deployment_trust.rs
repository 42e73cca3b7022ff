//! Deployment trust anchors of the UEFI boot guard: the compressed P-256 public key, the
//! signing key id and the compiled release floor, read from their textual settings and
//! rendered as the constants the boot guard is built with.
use vstd::prelude::*;
use vstd::string::StringSliceAdditionalSpecFns;
use vstd::utf8::encode_utf8;
use crate::cli::hex::{all_hex, decode_hex_exact, hex_decodes_to, hex_value, HexError};
use crate::text::{decimal, push_decimal, push_str};

verus! {

/// The trust anchors compiled into the boot guard.
#[derive(Clone, Copy, Debug, PartialEq, Eq)]
pub struct DeploymentTrust {
    pub public_key: [u8; 33],
    pub key_id: [u8; 16],
    pub minimum_release: u64,
}

/// Why the trust settings were refused.
#[derive(Clone, Copy, Debug, PartialEq, Eq)]
pub enum DeploymentTrustError {
    /// The public key is not 66 hexadecimal characters.
    PublicKey(HexError),
    /// The public key is not a compressed SEC1 point (`02` or `03` prefix).
    NotCompressedKey,
    /// The key id is not 32 hexadecimal characters.
    KeyId(HexError),
    /// The release floor is not an unsigned 64-bit decimal.
    InvalidMinRelease,
    /// The release floor is zero.
    ZeroMinRelease,
}

/// Whether every byte is an ASCII digit.
pub open spec fn all_digits(s: Seq<u8>) -> bool {
    forall|i: int| 0 <= i < s.len() ==> 48 <= #[trigger] s[i] <= 57
}

/// Value of a string of ASCII digits.
pub open spec fn digits_value(s: Seq<u8>) -> int
    decreases s.len(),
{
    if s.len() == 0 {
        0
    } else {
        digits_value(s.drop_last()) * 10 + (s.last() - 48)
    }
}

/// The digits of a decimal text: the text without one leading `+`.
pub open spec fn unsigned_digits(s: Seq<u8>) -> Seq<u8> {
    if s.len() > 0 && s[0] == 43 {
        s.drop_first()
    } else {
        s
    }
}

/// The value `u64::from_str` reads from a text: an optional `+`, then one or more ASCII
/// digits whose value fits in 64 bits.
pub open spec fn u64_text_value(s: Seq<u8>) -> Option<u64> {
    let d = unsigned_digits(s);
    if d.len() == 0 || !all_digits(d) || digits_value(d) > u64::MAX {
        None
    } else {
        Some(digits_value(d) as u64)
    }
}

proof fn lemma_digits_grow(s: Seq<u8>, i: int, j: int)
    requires
        all_digits(s),
        0 <= i <= j <= s.len(),
    ensures
        0 <= digits_value(s.take(i)) <= digits_value(s.take(j)),
    decreases j - i,
{
    assert(all_digits(s.take(i)));
    assert(all_digits(s.take(j)));
    if i == j {
        lemma_digits_nonneg(s.take(i));
    } else {
        lemma_digits_grow(s, i, j - 1);
        assert(s.take(j).drop_last() =~= s.take(j - 1));
        assert(all_digits(s.take(j - 1)));
        lemma_digits_nonneg(s.take(j - 1));
    }
}

proof fn lemma_digits_nonneg(s: Seq<u8>)
    requires
        all_digits(s),
    ensures
        digits_value(s) >= 0,
    decreases s.len(),
{
    if s.len() > 0 {
        assert(all_digits(s.drop_last()));
        lemma_digits_nonneg(s.drop_last());
    }
}

/// Reads an unsigned 64-bit decimal as `u64::from_str` does.
pub fn parse_u64_text(text: &str) -> (r: Option<u64>)
    ensures
        r == u64_text_value(text.spec_bytes()),
{
    let b = text.as_bytes();
    let n = b.len();
    let start: usize = if n > 0 && b[0] == 43 { 1 } else { 0 };
    let ghost d = unsigned_digits(b@);
    assert(d =~= b@.subrange(start as int, n as int));
    if start == n {
        return None;
    }
    let mut acc: u64 = 0;
    let mut i: usize = start;
    while i < n
        invariant
            n == b@.len(),
            b@ == text.spec_bytes(),
            d == unsigned_digits(b@),
            start <= i <= n,
            d == b@.subrange(start as int, n as int),
            forall|k: int| 0 <= k < i - start ==> 48 <= #[trigger] d[k] <= 57,
            acc == digits_value(d.take(i - start)),
        decreases n - i,
    {
        let c = b[i];
        if c < 48 || c > 57 {
            assert(!all_digits(d)) by {
                assert(d[i - start] == c);
            }
            return None;
        }
        proof {
            assert(d.take(i - start + 1).drop_last() =~= d.take(i - start));
        }
        let digit = (c - 48) as u64;
        let next = match acc.checked_mul(10) {
            Some(t) => t.checked_add(digit),
            None => None,
        };
        match next {
            Some(v) => {
                acc = v;
            },
            None => {
                proof {
                    if all_digits(d) {
                        lemma_digits_grow(d, i - start + 1, d.len() as int);
                        assert(d.take(d.len() as int) =~= d);
                    }
                }
                return None;
            },
        }
        i = i + 1;
    }
    assert(d.take(n - start) =~= d);
    assert(all_digits(d));
    Some(acc)
}

/// What the trust settings give: the key (which must be compressed), the key id and a
/// non-zero release floor, each refusal in that order.
pub open spec fn trust_outcome(
    public_key_hex: Seq<u8>,
    key_id_hex: Seq<u8>,
    min_release: Seq<u8>,
    r: Result<DeploymentTrust, DeploymentTrustError>,
) -> bool {
    if public_key_hex.len() != 66 {
        r == Err::<DeploymentTrust, DeploymentTrustError>(
            DeploymentTrustError::PublicKey(HexError::WrongLength { expected_chars: 66 }),
        )
    } else if !all_hex(public_key_hex) {
        r == Err::<DeploymentTrust, DeploymentTrustError>(DeploymentTrustError::PublicKey(HexError::InvalidCharacter))
    } else if !(public_key_hex[0] == 48 && (public_key_hex[1] == 50 || public_key_hex[1] == 51)) {
        r == Err::<DeploymentTrust, DeploymentTrustError>(DeploymentTrustError::NotCompressedKey)
    } else if key_id_hex.len() != 32 {
        r == Err::<DeploymentTrust, DeploymentTrustError>(
            DeploymentTrustError::KeyId(HexError::WrongLength { expected_chars: 32 }),
        )
    } else if !all_hex(key_id_hex) {
        r == Err::<DeploymentTrust, DeploymentTrustError>(DeploymentTrustError::KeyId(HexError::InvalidCharacter))
    } else {
        match u64_text_value(min_release) {
            None => r == Err::<DeploymentTrust, DeploymentTrustError>(DeploymentTrustError::InvalidMinRelease),
            Some(v) => if v == 0 {
                r == Err::<DeploymentTrust, DeploymentTrustError>(DeploymentTrustError::ZeroMinRelease)
            } else {
                r matches Ok(t) && hex_decodes_to(public_key_hex, t.public_key@) && hex_decodes_to(
                    key_id_hex,
                    t.key_id@,
                ) && t.minimum_release == v
            },
        }
    }
}

/// Reads the trust settings of a boot-guard build: the public key and key id in hexadecimal
/// and the release floor in decimal.
pub fn deployment_trust_from_settings(
    public_key_hex: &str,
    key_id_hex: &str,
    min_release: &str,
) -> (r: Result<DeploymentTrust, DeploymentTrustError>)
    ensures
        trust_outcome(public_key_hex.spec_bytes(), key_id_hex.spec_bytes(), min_release.spec_bytes(), r),
{
    let mut public_key = [0u8; 33];
    match decode_hex_exact(public_key_hex, &mut public_key) {
        Ok(()) => {},
        Err(e) => {
            return Err(DeploymentTrustError::PublicKey(e));
        },
    }
    let ghost t = public_key_hex.spec_bytes();
    proof {
        assert(public_key@[0] == hex_value(t[0])->Some_0 * 16 + hex_value(t[1])->Some_0);
        assert(hex_value(t[0]) is Some);
        assert(hex_value(t[1]) is Some);
    }
    if public_key[0] != 2 && public_key[0] != 3 {
        return Err(DeploymentTrustError::NotCompressedKey);
    }
    let mut key_id = [0u8; 16];
    match decode_hex_exact(key_id_hex, &mut key_id) {
        Ok(()) => {},
        Err(e) => {
            return Err(DeploymentTrustError::KeyId(e));
        },
    }
    let minimum_release = match parse_u64_text(min_release) {
        Some(v) => v,
        None => {
            return Err(DeploymentTrustError::InvalidMinRelease);
        },
    };
    if minimum_release == 0 {
        return Err(DeploymentTrustError::ZeroMinRelease);
    }
    Ok(DeploymentTrust { public_key, key_id, minimum_release })
}

/// The anchors of a build without the boot-guard application: all zero.
pub fn unset_deployment_trust() -> (t: DeploymentTrust)
    ensures
        t.public_key@ == Seq::new(33, |_i: int| 0u8),
        t.key_id@ == Seq::new(16, |_i: int| 0u8),
        t.minimum_release == 0,
{
    let t = DeploymentTrust { public_key: [0u8; 33], key_id: [0u8; 16], minimum_release: 0 };
    assert(t.public_key@ =~= Seq::new(33, |_i: int| 0u8));
    assert(t.key_id@ =~= Seq::new(16, |_i: int| 0u8));
    t
}

/// The decimal items of a byte list, separated by `, `.
pub open spec fn list_items(s: Seq<u8>) -> Seq<u8>
    decreases s.len(),
{
    if s.len() == 0 {
        Seq::empty()
    } else if s.len() == 1 {
        decimal(s[0] as nat)
    } else {
        list_items(s.drop_last()) + encode_utf8(", "@) + decimal(s.last() as nat)
    }
}

/// A byte array as `Debug` prints it: `[2, 17, 255]`.
pub open spec fn byte_list(s: Seq<u8>) -> Seq<u8> {
    encode_utf8("["@) + list_items(s) + encode_utf8("]"@)
}

/// The constants source the boot guard is compiled with.
pub open spec fn trust_constants_text(t: DeploymentTrust) -> Seq<u8> {
    encode_utf8("pub const BOOT_PUBLIC_KEY: [u8; 33] = "@) + byte_list(t.public_key@) + encode_utf8(
        ";\npub const BOOT_KEY_ID: [u8; 16] = "@,
    ) + byte_list(t.key_id@) + encode_utf8(";\npub const BOOT_MIN_RELEASE: u64 = "@) + decimal(
        t.minimum_release as nat,
    ) + encode_utf8(";\n"@)
}

fn push_byte_list(out: &mut Vec<u8>, bytes: &[u8])
    ensures
        final(out)@ == old(out)@ + byte_list(bytes@),
{
    push_str(out, "[");
    let ghost start = out@;
    let mut i: usize = 0;
    while i < bytes.len()
        invariant
            i <= bytes@.len(),
            out@ == start + list_items(bytes@.take(i as int)),
        decreases bytes@.len() - i,
    {
        proof {
            assert(bytes@.take(i + 1).drop_last() =~= bytes@.take(i as int));
            assert(bytes@.take(i + 1).last() == bytes@[i as int]);
        }
        if i > 0 {
            push_str(out, ", ");
        }
        push_decimal(out, bytes[i] as u64);
        proof {
            if i == 0 {
                assert(out@ =~= start + list_items(bytes@.take(1)));
            } else {
                assert(out@ =~= start + list_items(bytes@.take(i + 1)));
            }
        }
        i = i + 1;
    }
    assert(bytes@.take(bytes@.len() as int) =~= bytes@);
    push_str(out, "]");
    assert(final(out)@ =~= old(out)@ + byte_list(bytes@));
}

/// Renders the anchors as the constants source of the boot guard.
pub fn render_deployment_trust(t: &DeploymentTrust) -> (text: Vec<u8>)
    ensures
        text@ == trust_constants_text(*t),
{
    let mut out: Vec<u8> = Vec::new();
    push_str(&mut out, "pub const BOOT_PUBLIC_KEY: [u8; 33] = ");
    push_byte_list(&mut out, &t.public_key);
    push_str(&mut out, ";\npub const BOOT_KEY_ID: [u8; 16] = ");
    push_byte_list(&mut out, &t.key_id);
    push_str(&mut out, ";\npub const BOOT_MIN_RELEASE: u64 = ");
    push_decimal(&mut out, t.minimum_release);
    push_str(&mut out, ";\n");
    out
}

} // verus!
