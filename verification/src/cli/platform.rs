//! Raw block-device geometry.
use vstd::prelude::*;

verus! {

/// Alignment of direct (cache-bypassing) I/O buffers and offsets.
pub const DIRECT_IO_ALIGN: usize = 4096;

/// Byte offset of a block, saturating at `u64::MAX`.
pub fn block_byte_offset(block_index: u64, block_size: usize) -> (off: u64)
    ensures
        block_index * block_size <= u64::MAX ==> off == block_index * block_size,
        block_index * block_size > u64::MAX ==> off == u64::MAX,
{
    let size = block_size as u64;
    match block_index.checked_mul(size) {
        Some(v) => v,
        None => u64::MAX,
    }
}

/// `value` rounded up to a multiple of `align`.
pub open spec fn round_up(value: int, align: int) -> int {
    (value + align - 1) / align * align
}

/// `value` rounded up to the next multiple of `align`.
pub fn align_up(value: usize, align: usize) -> (r: usize)
    requires
        align > 0,
        round_up(value as int, align as int) <= usize::MAX,
    ensures
        r == round_up(value as int, align as int),
        r % align == 0,
        value <= r < value + align,
{
    assert(value % align != 0 ==> value / align < usize::MAX) by (nonlinear_arith)
        requires
            align > 0,
    ;
    let q = value / align + if value % align == 0 { 0 } else { 1 };
    proof {
        let (v, a, qi) = (value as int, align as int, q as int);
        assert((v + a - 1) / a == qi) by (nonlinear_arith)
            requires
                a > 0,
                v >= 0,
                qi == v / a + if v % a == 0 { 0int } else { 1int },
        ;
        assert(qi * a % a == 0) by (nonlinear_arith)
            requires
                a > 0,
        ;
        assert(v <= qi * a < v + a) by (nonlinear_arith)
            requires
                a > 0,
                v >= 0,
                qi == v / a + if v % a == 0 { 0int } else { 1int },
        ;
    }
    q * align
}

} // verus!
