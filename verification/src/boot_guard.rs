//! Decisions of the UEFI boot guard: which firmware-reported values it accepts, the trust
//! policy it validates the boot manager under, the phase a halt is charged to, and the lines
//! it logs before halting.
use vstd::prelude::*;
use vstd::string::StringSliceAdditionalSpecFns;
use vstd::utf8::encode_utf8;
use crate::boot_validate::MAX_IMAGE_BYTES;
use crate::error::{error_text, DfimError};
use crate::secrets::{
    log_dfim_fatal_prefix, log_hw_log_error_suffix, log_hw_log_line_prefix, phase_integrity_pipeline,
    phase_manifest_parse,
};
use crate::text::push_str;
use crate::uefi::rollback::{baseline_outcome, effective_minimum_release, parse_rollback_baseline};
use crate::boot_validate::image_len_error;
use crate::ecdsa::{p256_key_parses, p256_signature_parses, p256_verifies};
use crate::uefi::signed_manifest::{
    backs_up_metadata, law_signed_image_validates, signed_validation_of, v2_body_of, validate_signed_boot_image_v2,
    TrustedManifestPolicy, ValidatedSignedBootImage, V2_KEY_ID_LEN, V2_PUBLIC_KEY_LEN,
};

verus! {

/// `EFI_VARIABLE_NON_VOLATILE`.
pub const VARIABLE_NON_VOLATILE: u32 = 0x01;
/// `EFI_VARIABLE_BOOTSERVICE_ACCESS`.
pub const VARIABLE_BOOTSERVICE_ACCESS: u32 = 0x02;
/// `EFI_VARIABLE_TIME_BASED_AUTHENTICATED_WRITE_ACCESS`.
pub const VARIABLE_TIME_BASED_AUTHENTICATED_WRITE_ACCESS: u32 = 0x20;
/// Attributes the rollback-floor variable must carry: non-volatile, boot-service access and
/// time-based authenticated writes.
pub const REQUIRED_FLOOR_ATTRIBUTES: u32 = 0x23;

/// Whether a variable's attributes include every required one.
pub open spec fn floor_attributes_ok(attributes: u32) -> bool {
    attributes & REQUIRED_FLOOR_ATTRIBUTES == REQUIRED_FLOOR_ATTRIBUTES
}

/// Reads the monotonic release floor from the firmware variable only when the firmware
/// authenticates its writes: `variable` is the variable's content, `None` when the firmware
/// could not return it, and `attributes` its attribute bits.
pub fn read_authenticated_rollback_floor(
    variable: Option<&[u8]>,
    attributes: u32,
    expected_key_id: &[u8; 16],
) -> (r: Result<u64, DfimError>)
    ensures
        variable is None ==> r == Err::<u64, DfimError>(DfimError::IntegrityFailure),
        variable is Some && !floor_attributes_ok(attributes) ==> r == Err::<u64, DfimError>(
            DfimError::IntegrityFailure,
        ),
        floor_attributes_ok(attributes) ==> match variable {
            Some(d) => r == baseline_outcome(d@, expected_key_id@),
            None => true,
        },
{
    let data = match variable {
        Some(d) => d,
        None => return Err(DfimError::IntegrityFailure),
    };
    if attributes & REQUIRED_FLOOR_ATTRIBUTES != REQUIRED_FLOOR_ATTRIBUTES {
        return Err(DfimError::IntegrityFailure);
    }
    parse_rollback_baseline(data, expected_key_id)
}

/// Checks a file found on the boot volume before it is read: it must be a regular file of
/// non-zero size within the image cap. Returns the number of bytes to read.
pub fn volume_file_len(is_regular: bool, file_size: u64) -> (r: Result<usize, DfimError>)
    ensures
        !is_regular ==> r == Err::<usize, DfimError>(DfimError::InvalidParameter),
        is_regular && file_size == 0 ==> r == Err::<usize, DfimError>(DfimError::EmptyInput),
        is_regular && file_size > usize::MAX ==> r == Err::<usize, DfimError>(DfimError::ParameterOverflow),
        is_regular && 0 < file_size <= usize::MAX && file_size > MAX_IMAGE_BYTES ==> r == Err::<
            usize,
            DfimError,
        >(DfimError::BufferTooLong),
        is_regular && 0 < file_size <= MAX_IMAGE_BYTES ==> r == Ok::<usize, DfimError>(file_size as usize),
{
    if !is_regular {
        return Err(DfimError::InvalidParameter);
    }
    if file_size == 0 {
        return Err(DfimError::EmptyInput);
    }
    if file_size > usize::MAX as u64 {
        return Err(DfimError::ParameterOverflow);
    }
    let size = file_size as usize;
    if size > MAX_IMAGE_BYTES {
        return Err(DfimError::BufferTooLong);
    }
    Ok(size)
}

/// Checks that a read of a volume file returned the whole file.
pub fn check_volume_read(bytes_read: usize, expected: usize) -> (r: Result<(), DfimError>)
    ensures
        r is Ok <==> bytes_read == expected,
        r is Err ==> r == Err::<(), DfimError>(DfimError::BufferTooShort),
{
    if bytes_read != expected {
        return Err(DfimError::BufferTooShort);
    }
    Ok(())
}

/// A boot halt: the phase it is charged to and the error that caused it.
#[derive(Clone, Copy, Debug, PartialEq, Eq)]
pub struct BootHalt {
    pub phase: &'static str,
    pub error: DfimError,
}

/// The trust policy the boot manager is validated under: the deployment's key, key id and the
/// higher of the compiled and the persisted release floors (both must be non-zero).
pub open spec fn boot_trust_policy(
    compiled_min_release: u64,
    persisted_floor: u64,
    public_key_sec1: [u8; V2_PUBLIC_KEY_LEN],
    key_id: [u8; V2_KEY_ID_LEN],
) -> TrustedManifestPolicy {
    TrustedManifestPolicy {
        public_key_sec1,
        expected_key_id: key_id,
        minimum_release: if compiled_min_release >= persisted_floor {
            compiled_min_release
        } else {
            persisted_floor
        },
    }
}

/// A boot decision with each halt reduced to its error.
pub open spec fn halt_error(r: Result<ValidatedSignedBootImage, BootHalt>) -> Result<ValidatedSignedBootImage, DfimError> {
    match r {
        Ok(v) => Ok(v),
        Err(h) => Err(h.error),
    }
}

/// `r` is the boot decision for `boot_image` with sidecar `manifest_bytes`, given the
/// persisted floor (or the error reading it), the compiled floor and the deployment key: a
/// floor problem halts in the sidecar-parse phase, anything else is the signed validation under
/// the combined policy, halting in the integrity-pipeline phase.
pub open spec fn boot_handoff_of(
    boot_image: Seq<u8>,
    manifest_bytes: Seq<u8>,
    persisted_floor: Result<u64, DfimError>,
    compiled_min_release: u64,
    public_key_sec1: [u8; V2_PUBLIC_KEY_LEN],
    key_id: [u8; V2_KEY_ID_LEN],
    r: Result<ValidatedSignedBootImage, BootHalt>,
) -> bool {
    match persisted_floor {
        Err(e) => r matches Err(h) && h.phase@ == "MANIFEST_PARSE"@ && h.error == e,
        Ok(p) => if compiled_min_release == 0 || p == 0 {
            r matches Err(h) && h.phase@ == "MANIFEST_PARSE"@ && h.error == DfimError::InvalidParameter
        } else {
            let policy = boot_trust_policy(compiled_min_release, p, public_key_sec1, key_id);
            &&& r matches Err(h) ==> h.phase@ == "INTEGRITY_PIPELINE"@
            &&& signed_validation_of(boot_image, manifest_bytes, policy, halt_error(r))
        },
    }
}

/// Decides whether the boot manager image may be handed control: the persisted floor (or the
/// error reading it), combined with the compiled floor, gives the trust policy, under which
/// the signed sidecar and the image are validated. A failure is charged to the sidecar-parse
/// phase when it concerns the floors, to the integrity-pipeline phase otherwise.
pub fn authorize_boot_handoff(
    boot_image: &[u8],
    manifest_bytes: &[u8],
    persisted_floor: Result<u64, DfimError>,
    compiled_min_release: u64,
    public_key_sec1: [u8; V2_PUBLIC_KEY_LEN],
    key_id: [u8; V2_KEY_ID_LEN],
) -> (r: Result<ValidatedSignedBootImage, BootHalt>)
    ensures
        boot_handoff_of(
            boot_image@,
            manifest_bytes@,
            persisted_floor,
            compiled_min_release,
            public_key_sec1,
            key_id,
            r,
        ),
{
    let persisted = match persisted_floor {
        Ok(floor) => floor,
        Err(error) => {
            return Err(BootHalt { phase: phase_manifest_parse(), error });
        },
    };
    let minimum_release = match effective_minimum_release(compiled_min_release, persisted) {
        Ok(floor) => floor,
        Err(error) => {
            return Err(BootHalt { phase: phase_manifest_parse(), error });
        },
    };
    let trust_policy = TrustedManifestPolicy {
        public_key_sec1,
        expected_key_id: key_id,
        minimum_release,
    };
    let validated = validate_signed_boot_image_v2(boot_image, manifest_bytes, &trust_policy);
    let r = match validated {
        Ok(v) => Ok(v),
        Err(error) => Err(BootHalt { phase: phase_integrity_pipeline(), error }),
    };
    assert(halt_error(r) == validated);
    r
}

/// The two lines logged for a fatal failure in `phase`: the log record
/// `DFIM FATAL phase=<phase> code=<error>`, and the console line, whose format writes the
/// phase twice: `\r\n[DFIM-HW-LOG] phase=<phase><phase> error=<error>\r\n`.
pub fn hardware_log_lines(phase: &str, err: DfimError) -> (lines: (Vec<u8>, Vec<u8>))
    ensures
        lines.0@ == encode_utf8("DFIM FATAL phase="@) + phase.spec_bytes() + encode_utf8(" code="@)
            + encode_utf8(error_text(err)),
        lines.1@ == encode_utf8("\r\n[DFIM-HW-LOG] phase="@) + phase.spec_bytes() + phase.spec_bytes()
            + encode_utf8(" error="@) + encode_utf8(error_text(err)) + encode_utf8("\r\n"@),
{
    let mut record: Vec<u8> = Vec::new();
    push_str(&mut record, log_dfim_fatal_prefix());
    push_str(&mut record, phase);
    push_str(&mut record, " code=");
    push_str(&mut record, err.as_str());
    let mut console: Vec<u8> = Vec::new();
    push_str(&mut console, log_hw_log_line_prefix());
    push_str(&mut console, phase);
    push_str(&mut console, phase);
    push_str(&mut console, log_hw_log_error_suffix());
    push_str(&mut console, err.as_str());
    push_str(&mut console, "\r\n");
    (record, console)
}

/// The boot manager boots: an image whose signed sidecar was built for it and signed with the
/// deployment key is handed control, with the image itself as payload and the sidecar's
/// release counter, whenever both release floors are non-zero and neither exceeds that counter.
pub proof fn law_signed_boot_manager_boots(
    image: Seq<u8>,
    fec: Seq<u8>,
    sig: [u8; 64],
    release: u64,
    persisted_floor: u64,
    compiled_min_release: u64,
    public_key_sec1: [u8; V2_PUBLIC_KEY_LEN],
    key_id: [u8; V2_KEY_ID_LEN],
    r: Result<ValidatedSignedBootImage, BootHalt>,
)
    requires
        image.len() <= usize::MAX,
        image_len_error(image.len() as usize) is None,
        backs_up_metadata(image, fec),
        p256_key_parses(public_key_sec1@),
        p256_signature_parses(sig@),
        p256_verifies(public_key_sec1@, v2_body_of(image, key_id@, release, fec), sig@),
        v2_body_of(image, key_id@, release, fec).len() + 64 <= usize::MAX,
        0 < compiled_min_release <= release,
        0 < persisted_floor <= release,
        boot_handoff_of(
            image,
            v2_body_of(image, key_id@, release, fec) + sig@,
            Ok(persisted_floor),
            compiled_min_release,
            public_key_sec1,
            key_id,
            r,
        ),
    ensures
        r matches Ok(v) && v.boot.payload@ == image && !v.boot.fec_corrected && v.release_counter == release
            && v.key_id == key_id,
{
    let policy = boot_trust_policy(compiled_min_release, persisted_floor, public_key_sec1, key_id);
    law_signed_image_validates(image, key_id@, release, fec, sig, policy, halt_error(r));
    assert(r matches Ok(v) && v.key_id@ == key_id@);
}

} // verus!
