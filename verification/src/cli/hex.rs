//! Hexadecimal key material.
use vstd::prelude::*;
use vstd::string::StringSliceAdditionalSpecFns;
use crate::digest::hex_of;
use crate::text::push_hex;

verus! {

/// Lowercase hexadecimal of a 32-byte value.
pub fn encode(bytes: &[u8; 32]) -> (out: Vec<u8>)
    ensures
        out@ == hex_of(bytes@),
{
    let mut out: Vec<u8> = Vec::new();
    push_hex(&mut out, bytes);
    out
}

/// Why hexadecimal text was refused.
#[derive(Clone, Copy, Debug, PartialEq, Eq, Structural)]
pub enum HexError {
    /// The text does not have two characters per output byte.
    WrongLength { expected_chars: usize },
    /// A character is not a hexadecimal digit.
    InvalidCharacter,
}

/// Value of a hexadecimal digit (either case), if `c` is one.
pub open spec fn hex_value(c: u8) -> Option<u8> {
    if 0x30 <= c <= 0x39 {
        Some((c - 0x30) as u8)
    } else if 0x61 <= c <= 0x66 {
        Some((c - 0x61 + 10) as u8)
    } else if 0x41 <= c <= 0x46 {
        Some((c - 0x41 + 10) as u8)
    } else {
        None
    }
}

/// Decodes one hexadecimal digit.
pub fn decode_hex_nibble(value: u8) -> (res: Result<u8, HexError>)
    ensures
        match hex_value(value) {
            Some(v) => res == Ok::<u8, HexError>(v),
            None => res == Err::<u8, HexError>(HexError::InvalidCharacter),
        },
{
    if 0x30 <= value && value <= 0x39 {
        Ok(value - 0x30)
    } else if 0x61 <= value && value <= 0x66 {
        Ok(value - 0x61 + 10)
    } else if 0x41 <= value && value <= 0x46 {
        Ok(value - 0x41 + 10)
    } else {
        Err(HexError::InvalidCharacter)
    }
}

/// Every character of `text` is a hexadecimal digit.
pub open spec fn all_hex(text: Seq<u8>) -> bool {
    forall|j: int| 0 <= j < text.len() ==> #[trigger] hex_value(text[j]) is Some
}

/// `out` is what the digit pairs of `text` spell, high digit first.
pub open spec fn hex_decodes_to(text: Seq<u8>, out: Seq<u8>) -> bool {
    &&& text.len() == 2 * out.len()
    &&& forall|i: int|
        0 <= i < out.len() ==> #[trigger] out[i] == hex_value(text[2 * i])->Some_0 * 16 + hex_value(
            text[2 * i + 1],
        )->Some_0
}

/// Decodes exactly `out.len()` bytes from `2 * out.len()` hexadecimal characters into `out`.
/// On refusal `out` holds no meaningful value.
pub fn decode_hex_exact(text: &str, out: &mut [u8]) -> (res: Result<(), HexError>)
    requires
        old(out)@.len() * 2 <= usize::MAX,
    ensures
        final(out)@.len() == old(out)@.len(),
        text.spec_bytes().len() != 2 * old(out)@.len() ==> res == Err::<(), HexError>(
            HexError::WrongLength { expected_chars: (2 * old(out)@.len()) as usize },
        ),
        text.spec_bytes().len() == 2 * old(out)@.len() && !all_hex(text.spec_bytes()) ==> res == Err::<
            (),
            HexError,
        >(HexError::InvalidCharacter),
        text.spec_bytes().len() == 2 * old(out)@.len() && all_hex(text.spec_bytes()) ==> res is Ok
            && hex_decodes_to(text.spec_bytes(), final(out)@),
{
    let n = out.len();
    let bytes = text.as_bytes();
    if bytes.len() != n * 2 {
        return Err(HexError::WrongLength { expected_chars: n * 2 });
    }
    let ghost t = bytes@;
    let mut i: usize = 0;
    while i < n
        invariant
            n == out@.len(),
            n == old(out)@.len(),
            2 * n <= usize::MAX,
            t == bytes@,
            t == text.spec_bytes(),
            t.len() == 2 * n,
            i <= n,
            forall|j: int| 0 <= j < 2 * i ==> #[trigger] hex_value(t[j]) is Some,
            forall|k: int|
                0 <= k < i ==> #[trigger] out@[k] == hex_value(t[2 * k])->Some_0 * 16 + hex_value(
                    t[2 * k + 1],
                )->Some_0,
        decreases n - i,
    {
        let high = match decode_hex_nibble(bytes[2 * i]) {
            Ok(v) => v,
            Err(e) => {
                assert(!all_hex(t));
                return Err(e);
            },
        };
        let low = match decode_hex_nibble(bytes[2 * i + 1]) {
            Ok(v) => v,
            Err(e) => {
                assert(!all_hex(t));
                return Err(e);
            },
        };
        out[i] = high * 16 + low;
        proof {
            assert forall|j: int| 0 <= j < 2 * (i + 1) implies #[trigger] hex_value(t[j]) is Some by {
                if j == 2 * i || j == 2 * i + 1 {
                } else {
                }
            }
        }
        i = i + 1;
    }
    Ok(())
}

} // verus!
