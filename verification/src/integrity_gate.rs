//! Active pipeline preconditions enforced before any Merkle work.
use vstd::prelude::*;
use crate::boot_validate::{block_count_error, image_len_error, validate_block_count, validate_image_byte_len, MAX_IMAGE_BYTES};
use crate::error::DfimError;

verus! {

/// Validates guarded image byte length against Layer-0 caps.
pub fn assert_image_bounds(image_len: usize) -> (r: Result<(), DfimError>)
    ensures
        r is Ok <==> image_len_error(image_len) is None,
        r matches Err(e) ==> image_len_error(image_len) == Some(e),
{
    validate_image_byte_len(image_len)
}

/// Validates that a block index lies within a valid manifest block count.
pub fn assert_block_index(index: usize, block_count: u32) -> (r: Result<(), DfimError>)
    ensures
        r is Ok <==> (block_count_error(block_count) is None && index < block_count),
        r matches Err(e) ==> e == (match block_count_error(block_count) {
            Some(b) => b,
            None => DfimError::IntegrityFailure,
        }),
{
    validate_block_count(block_count)?;
    if index >= block_count as usize {
        return Err(DfimError::IntegrityFailure);
    }
    Ok(())
}

/// Validates a host target path length is non-empty and fits in 32 bits.
pub fn assert_target_path(path_component_len: usize) -> (r: Result<(), DfimError>)
    ensures
        r is Ok <==> (0 < path_component_len <= u32::MAX),
        path_component_len == 0 ==> r == Err::<(), DfimError>(DfimError::InvalidParameter),
        path_component_len > u32::MAX ==> r == Err::<(), DfimError>(DfimError::ParameterOverflow),
{
    if path_component_len == 0 {
        return Err(DfimError::InvalidParameter);
    }
    if path_component_len as u64 > u32::MAX as u64 {
        return Err(DfimError::ParameterOverflow);
    }
    Ok(())
}

/// Every image length above the guarded-image cap is refused, with `BufferTooLong`.
pub proof fn law_image_bounds_rejects_above_cap(image_len: usize)
    requires
        image_len > MAX_IMAGE_BYTES,
    ensures
        image_len_error(image_len) == Some(DfimError::BufferTooLong),
{
}

} // verus!
