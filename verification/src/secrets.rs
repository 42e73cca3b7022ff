//! Fixed protocol labels and operator-facing log and phase strings, and the checks on the
//! key that encrypts string literals at build time.
use vstd::prelude::*;
use vstd::string::StringSliceAdditionalSpecFns;

verus! {

const DEFAULT_SALT_LABEL: [u8; 17] = [
    0x44, 0x46, 0x49, 0x4d, 0x2d, 0x49, 0x4e, 0x54, 0x45, 0x47, 0x52, 0x49, 0x54, 0x59, 0x2d, 0x76,
    0x31,
];

/// The bytes of `DFIM-INTEGRITY-v1`.
pub open spec fn default_salt_label_bytes() -> Seq<u8> {
    seq![
        0x44u8, 0x46u8, 0x49u8, 0x4du8, 0x2du8, 0x49u8, 0x4eu8, 0x54u8, 0x45u8, 0x47u8, 0x52u8,
        0x49u8, 0x54u8, 0x59u8, 0x2du8, 0x76u8, 0x31u8,
    ]
}

/// Protocol identifier of canonical manifest bytes.
pub fn protocol_id() -> (s: &'static str)
    ensures
        s@ == "dfim_integrity_protocol_v1"@,
{
    "dfim_integrity_protocol_v1"
}

/// Default salt label for deterministic salt derivation: `DFIM-INTEGRITY-v1`.
pub fn default_salt_label() -> (s: &'static [u8])
    ensures
        s@ == default_salt_label_bytes(),
{
    assert(DEFAULT_SALT_LABEL@ =~= default_salt_label_bytes());
    &DEFAULT_SALT_LABEL
}

/// Label of the anchor line in canonical manifests.
pub fn anchors_label() -> (s: &'static str)
    ensures
        s@ == "anchors"@,
{
    "anchors"
}

/// Phase name: reading the boot manager image.
pub fn phase_bootmgfw_read() -> (s: &'static str)
    ensures
        s@ == "BOOTMGFW_READ"@,
{
    "BOOTMGFW_READ"
}

/// Phase name: reading the sidecar.
pub fn phase_manifest_read() -> (s: &'static str)
    ensures
        s@ == "MANIFEST_READ"@,
{
    "MANIFEST_READ"
}

/// Phase name: parsing the sidecar.
pub fn phase_manifest_parse() -> (s: &'static str)
    ensures
        s@ == "MANIFEST_PARSE"@,
{
    "MANIFEST_PARSE"
}

/// Phase name: the integrity pipeline.
pub fn phase_integrity_pipeline() -> (s: &'static str)
    ensures
        s@ == "INTEGRITY_PIPELINE"@,
{
    "INTEGRITY_PIPELINE"
}

/// Phase name: loading the verified image.
pub fn phase_load_image() -> (s: &'static str)
    ensures
        s@ == "LOAD_IMAGE"@,
{
    "LOAD_IMAGE"
}

/// Phase name: starting the verified image.
pub fn phase_start_image() -> (s: &'static str)
    ensures
        s@ == "START_IMAGE"@,
{
    "START_IMAGE"
}

/// Prefix of hardware log lines.
pub fn log_hw_prefix() -> (s: &'static str)
    ensures
        s@ == "[DFIM-HW-LOG] phase="@,
{
    "[DFIM-HW-LOG] phase="
}

/// Prefix of the halt message.
pub fn log_halt_prefix() -> (s: &'static str)
    ensures
        s@ == "[DFIM] Boot sequence halted — status="@,
{
    "[DFIM] Boot sequence halted — status="
}

/// Message after a Hamming correction of the sidecar metadata.
pub fn log_fec_corrected() -> (s: &'static str)
    ensures
        s@ == "Hamming FEC corrected manifest bit-rot; blocks="@,
{
    "Hamming FEC corrected manifest bit-rot; blocks="
}

/// Message after every block proof passed.
pub fn log_merkle_passed() -> (s: &'static str)
    ensures
        s@ == "Merkle O(log N) validation passed; blocks="@,
{
    "Merkle O(log N) validation passed; blocks="
}

/// Message before handing off to the verified image.
pub fn log_handoff() -> (s: &'static str)
    ensures
        s@ == "Handoff to verified bootmgfw.efi via LoadImage/StartImage"@,
{
    "Handoff to verified bootmgfw.efi via LoadImage/StartImage"
}

/// Banner of the boot guard.
pub fn log_gate() -> (s: &'static str)
    ensures
        s@ == "DFIM Windows UEFI Boot Guard — Layer-0 integrity gate"@,
{
    "DFIM Windows UEFI Boot Guard — Layer-0 integrity gate"
}

/// Prefix of fatal messages.
pub fn log_dfim_fatal_prefix() -> (s: &'static str)
    ensures
        s@ == "DFIM FATAL phase="@,
{
    "DFIM FATAL phase="
}

/// Message when loading the image failed.
pub fn log_load_image_failed() -> (s: &'static str)
    ensures
        s@ == "LoadImage failed:"@,
{
    "LoadImage failed:"
}

/// Message when starting the image failed.
pub fn log_start_image_failed() -> (s: &'static str)
    ensures
        s@ == "StartImage failed:"@,
{
    "StartImage failed:"
}

/// Line prefix of hardware log lines.
pub fn log_hw_log_line_prefix() -> (s: &'static str)
    ensures
        s@ == "\r\n[DFIM-HW-LOG] phase="@,
{
    "\r\n[DFIM-HW-LOG] phase="
}

/// Error suffix of hardware log lines.
pub fn log_hw_log_error_suffix() -> (s: &'static str)
    ensures
        s@ == " error="@,
{
    " error="
}

/// Line prefix of the halt message.
pub fn log_halt_line_prefix() -> (s: &'static str)
    ensures
        s@ == "\r\n[DFIM] Boot sequence halted — status="@,
{
    "\r\n[DFIM] Boot sequence halted — status="
}

/// Line suffix of the halt message.
pub fn log_halt_line_suffix() -> (s: &'static str)
    ensures
        s@ == "\r\n"@,
{
    "\r\n"
}

/// Minimum length, in bytes, of the build-time string-encryption key.
pub const MIN_KEY_LEN: usize = 16;

/// Why a string-encryption key was refused.
#[derive(Clone, Copy, Debug, PartialEq, Eq)]
pub enum LitcryptKeyError {
    /// The key is shorter than the minimum (its length in bytes).
    TooShort(usize),
    /// The key holds a line feed, a carriage return or a NUL byte.
    ControlCharacter,
    /// The key is shorter than the minimum once surrounding whitespace is removed.
    TooShortTrimmed(usize),
}

/// Whether a character has the Unicode `White_Space` property: U+0009 to U+000D, U+0020,
/// U+0085, U+00A0, U+1680, U+2000 to U+200A, U+2028, U+2029, U+202F, U+205F and U+3000.
pub open spec fn is_white_space(c: char) -> bool {
    let n = c as int;
    ||| 0x09 <= n <= 0x0d
    ||| n == 0x20
    ||| n == 0x85
    ||| n == 0xa0
    ||| n == 0x1680
    ||| 0x2000 <= n <= 0x200a
    ||| n == 0x2028
    ||| n == 0x2029
    ||| n == 0x202f
    ||| n == 0x205f
    ||| n == 0x3000
}

/// How many characters of white space `s` starts with.
pub open spec fn leading_white_space(s: Seq<char>) -> nat
    decreases s.len(),
{
    if s.len() > 0 && is_white_space(s[0]) {
        1 + leading_white_space(s.drop_first())
    } else {
        0
    }
}

/// How many characters of white space `s` ends with.
pub open spec fn trailing_white_space(s: Seq<char>) -> nat
    decreases s.len(),
{
    if s.len() > 0 && is_white_space(s.last()) {
        1 + trailing_white_space(s.drop_last())
    } else {
        0
    }
}

/// `s` without its leading and trailing white space.
pub open spec fn trimmed(s: Seq<char>) -> Seq<char> {
    if leading_white_space(s) >= s.len() {
        Seq::empty()
    } else {
        s.subrange(leading_white_space(s) as int, s.len() - trailing_white_space(s))
    }
}

/// Trusted: `str::trim`, which its documentation describes as removing leading and trailing
/// characters with the Unicode `White_Space` property; the contract says exactly that.
#[verifier::external_body]
fn trim(s: &str) -> (r: &str)
    ensures
        r@ == trimmed(s@),
{
    s.trim()
}

/// Whether a key byte is a line feed, a carriage return or NUL.
pub open spec fn is_key_control(b: u8) -> bool {
    b == 0x0a || b == 0x0d || b == 0
}

/// Checks the build-time string-encryption key and gives it trimmed: at least 16 bytes, no
/// line feed, carriage return or NUL, and still at least 16 bytes once trimmed.
pub fn check_litcrypt_key(key: &str) -> (r: Result<&str, LitcryptKeyError>)
    ensures
        key.spec_bytes().len() < MIN_KEY_LEN ==> r == Err::<&str, LitcryptKeyError>(
            LitcryptKeyError::TooShort(key.spec_bytes().len() as usize),
        ),
        key.spec_bytes().len() >= MIN_KEY_LEN && (exists|i: int|
            0 <= i < key.spec_bytes().len() && #[trigger] is_key_control(key.spec_bytes()[i])) ==> r == Err::<
            &str,
            LitcryptKeyError,
        >(LitcryptKeyError::ControlCharacter),
        key.spec_bytes().len() >= MIN_KEY_LEN && (forall|i: int|
            0 <= i < key.spec_bytes().len() ==> !#[trigger] is_key_control(key.spec_bytes()[i])) ==> ({
            let t = vstd::utf8::encode_utf8(trimmed(key@));
            &&& t.len() < MIN_KEY_LEN ==> r == Err::<&str, LitcryptKeyError>(
                LitcryptKeyError::TooShortTrimmed(t.len() as usize),
            )
            &&& t.len() >= MIN_KEY_LEN ==> (r matches Ok(k) && k@ == trimmed(key@))
        }),
{
    let b = key.as_bytes();
    if b.len() < MIN_KEY_LEN {
        return Err(LitcryptKeyError::TooShort(b.len()));
    }
    let mut i: usize = 0;
    while i < b.len()
        invariant
            i <= b@.len(),
            b@ == key.spec_bytes(),
            b@.len() >= MIN_KEY_LEN,
            forall|j: int| 0 <= j < i ==> !#[trigger] is_key_control(b@[j]),
        decreases b@.len() - i,
    {
        if b[i] == 0x0a || b[i] == 0x0d || b[i] == 0 {
            assert(is_key_control(b@[i as int]));
            return Err(LitcryptKeyError::ControlCharacter);
        }
        i = i + 1;
    }
    let trimmed = trim(key);
    let n = trimmed.as_bytes().len();
    if n < MIN_KEY_LEN {
        return Err(LitcryptKeyError::TooShortTrimmed(n));
    }
    Ok(trimmed)
}

} // verus!
