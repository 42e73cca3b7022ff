//! Byte-level text building shared by the JSON records: decimal and hexadecimal numbers,
//! lowercase hex of byte strings, and JSON string escaping.
//!
//! Text is built as UTF-8 bytes. Escaping works byte by byte: every byte it rewrites is ASCII,
//! and ASCII bytes never occur inside a multi-byte UTF-8 sequence, so escaping the bytes of a
//! string is escaping its characters.
use vstd::prelude::*;
use vstd::string::StringSliceAdditionalSpecFns;
use crate::codec::extend_bytes;
use crate::digest::{hex_digit, hex_of, nibble_hex};

verus! {

/// Decimal digits of `x`, most significant first.
pub open spec fn decimal(x: nat) -> Seq<u8>
    decreases x,
{
    if x < 10 {
        seq![(48 + x) as u8]
    } else {
        decimal(x / 10).push((48 + x % 10) as u8)
    }
}

/// Lowercase hexadecimal digits of `x` without leading zeros.
pub open spec fn lower_hex(x: nat) -> Seq<u8>
    decreases x,
{
    if x < 16 {
        seq![hex_digit(x as u8)]
    } else {
        lower_hex(x / 16).push(hex_digit((x % 16) as u8))
    }
}

/// Appends the decimal digits of `x`.
pub fn push_decimal(out: &mut Vec<u8>, x: u64)
    ensures
        final(out)@ == old(out)@ + decimal(x as nat),
    decreases x,
{
    if x >= 10 {
        push_decimal(out, x / 10);
    }
    out.push((48 + x % 10) as u8);
    assert(final(out)@ =~= old(out)@ + decimal(x as nat));
}

/// Appends the lowercase hexadecimal digits of `x`.
pub fn push_lower_hex(out: &mut Vec<u8>, x: u64)
    ensures
        final(out)@ == old(out)@ + lower_hex(x as nat),
    decreases x,
{
    if x >= 16 {
        push_lower_hex(out, x / 16);
    }
    out.push(nibble_hex((x % 16) as u8));
    assert(final(out)@ =~= old(out)@ + lower_hex(x as nat));
}

/// Appends the lowercase hexadecimal of a byte string.
pub fn push_hex(out: &mut Vec<u8>, bytes: &[u8])
    ensures
        final(out)@ == old(out)@ + hex_of(bytes@),
{
    let ghost start = out@;
    let mut i: usize = 0;
    while i < bytes.len()
        invariant
            i <= bytes@.len(),
            out@ == start + hex_of(bytes@.subrange(0, i as int)),
        decreases bytes@.len() - i,
    {
        let b = bytes[i];
        out.push(nibble_hex(b / 16));
        out.push(nibble_hex(b % 16));
        i = i + 1;
        assert(out@ =~= start + hex_of(bytes@.subrange(0, i as int)));
    }
    assert(bytes@.subrange(0, bytes@.len() as int) =~= bytes@);
}

/// Lowercase hexadecimal of a byte string, as bytes.
pub fn hex_encode(bytes: &[u8]) -> (out: Vec<u8>)
    ensures
        out@ == hex_of(bytes@),
{
    let mut out: Vec<u8> = Vec::new();
    push_hex(&mut out, bytes);
    out
}

/// Appends the UTF-8 bytes of a string.
pub fn push_str(out: &mut Vec<u8>, s: &str)
    ensures
        final(out)@ == old(out)@ + s.spec_bytes(),
{
    extend_bytes(out, s.as_bytes());
}

/// JSON escape of one byte. Quote, backslash, line feed, carriage return and tab get their
/// short escapes; backspace and form feed get theirs when `named_bf` is set; every other
/// control byte becomes `\u00XX`; any other byte stays.
pub open spec fn escaped_byte(b: u8, named_bf: bool) -> Seq<u8> {
    if b == 0x22 {
        seq![0x5cu8, 0x22u8]
    } else if b == 0x5c {
        seq![0x5cu8, 0x5cu8]
    } else if named_bf && b == 0x08 {
        seq![0x5cu8, 0x62u8]
    } else if named_bf && b == 0x0c {
        seq![0x5cu8, 0x66u8]
    } else if b == 0x0a {
        seq![0x5cu8, 0x6eu8]
    } else if b == 0x0d {
        seq![0x5cu8, 0x72u8]
    } else if b == 0x09 {
        seq![0x5cu8, 0x74u8]
    } else if b <= 0x1f {
        seq![0x5cu8, 0x75u8, 0x30u8, 0x30u8, hex_digit(b / 16), hex_digit(b % 16)]
    } else {
        seq![b]
    }
}

/// JSON escape of a byte string.
pub open spec fn json_escaped(s: Seq<u8>, named_bf: bool) -> Seq<u8>
    decreases s.len(),
{
    if s.len() == 0 {
        Seq::empty()
    } else {
        json_escaped(s.drop_last(), named_bf) + escaped_byte(s.last(), named_bf)
    }
}

fn push_escaped_byte(out: &mut Vec<u8>, b: u8, named_bf: bool)
    ensures
        final(out)@ == old(out)@ + escaped_byte(b, named_bf),
{
    if b == 0x22 {
        out.push(0x5c);
        out.push(0x22);
    } else if b == 0x5c {
        out.push(0x5c);
        out.push(0x5c);
    } else if named_bf && b == 0x08 {
        out.push(0x5c);
        out.push(0x62);
    } else if named_bf && b == 0x0c {
        out.push(0x5c);
        out.push(0x66);
    } else if b == 0x0a {
        out.push(0x5c);
        out.push(0x6e);
    } else if b == 0x0d {
        out.push(0x5c);
        out.push(0x72);
    } else if b == 0x09 {
        out.push(0x5c);
        out.push(0x74);
    } else if b <= 0x1f {
        out.push(0x5c);
        out.push(0x75);
        out.push(0x30);
        out.push(0x30);
        out.push(nibble_hex(b / 16));
        out.push(nibble_hex(b % 16));
    } else {
        out.push(b);
    }
    assert(final(out)@ =~= old(out)@ + escaped_byte(b, named_bf));
}

/// Appends the JSON escape of a byte string.
pub fn push_json_escaped(out: &mut Vec<u8>, s: &[u8], named_bf: bool)
    ensures
        final(out)@ == old(out)@ + json_escaped(s@, named_bf),
{
    let ghost start = out@;
    let mut i: usize = 0;
    while i < s.len()
        invariant
            i <= s@.len(),
            out@ == start + json_escaped(s@.subrange(0, i as int), named_bf),
        decreases s@.len() - i,
    {
        push_escaped_byte(out, s[i], named_bf);
        proof {
            let t = s@.subrange(0, i + 1);
            assert(t.drop_last() =~= s@.subrange(0, i as int));
            assert(t.last() == s@[i as int]);
        }
        i = i + 1;
    }
    assert(s@.subrange(0, s@.len() as int) =~= s@);
}

/// JSON escape of a string, with the short escapes for backspace and form feed.
pub fn json_escape(value: &str) -> (out: Vec<u8>)
    ensures
        out@ == json_escaped(value.spec_bytes(), true),
{
    let mut out: Vec<u8> = Vec::new();
    push_json_escaped(&mut out, value.as_bytes(), true);
    out
}

/// `s` with every occurrence of `from` replaced by `to`.
pub open spec fn replaced_char(s: Seq<char>, from: char, to: Seq<char>) -> Seq<char>
    decreases s.len(),
{
    if s.len() == 0 {
        Seq::empty()
    } else {
        replaced_char(s.drop_last(), from, to) + if s.last() == from {
            to
        } else {
            seq![s.last()]
        }
    }
}

/// Trusted: `str::replace` with a `char` pattern, which its documentation describes as
/// copying the string with every match of the pattern replaced by `to`; the contract claims
/// exactly that.
#[verifier::external_body]
pub(crate) fn replace_char(s: &str, from: char, to: &str) -> (r: String)
    ensures
        r@ == replaced_char(s@, from, to@),
{
    s.replace(from, to)
}

/// `s` with every match of the non-empty pattern `pat`, taken left to right without overlap,
/// replaced by `to`.
pub open spec fn replaced_text(s: Seq<char>, pat: Seq<char>, to: Seq<char>) -> Seq<char>
    decreases s.len(),
{
    if s.len() == 0 || pat.len() == 0 {
        s
    } else if s.len() >= pat.len() && s.take(pat.len() as int) == pat {
        to + replaced_text(s.skip(pat.len() as int), pat, to)
    } else {
        seq![s[0]] + replaced_text(s.skip(1), pat, to)
    }
}

/// Trusted: `str::replace` with a non-empty `&str` pattern, which its documentation describes
/// as copying the string with every match of the pattern replaced by `to`; matches are found
/// left to right and do not overlap, which is what the contract claims.
#[verifier::external_body]
pub(crate) fn replace_text(s: &str, pat: &str, to: &str) -> (r: String)
    requires
        pat@.len() > 0,
    ensures
        r@ == replaced_text(s@, pat@, to@),
{
    s.replace(pat, to)
}

} // verus!
