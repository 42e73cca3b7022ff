//! Hamming linear block code with single-bit error correction.
//!
//! Positions are numbered from 1; position `q` of a codeword is bit `q - 1` of the word.
//! Powers of two are parity positions, all other positions carry data bits in order.
use vstd::prelude::*;
use vstd::arithmetic::power2::{pow2, lemma2_to64, lemma_pow2_strictly_increases, lemma_pow2_unfold};
use vstd::bits::{lemma_u64_shl_is_mul, lemma_u64_pow2_no_overflow};
use crate::constants::{HAMMING_MAX_DATA_BITS, HAMMING_MIN_DATA_BITS};
use crate::error::DfimError;
use crate::observer::PatternObserver;

verus! {

/// Smallest `r >= from` with `2^r >= n + r + 1` (searching no further than 64).
pub open spec fn parity_count_from(n: nat, from: nat) -> nat
    decreases 64 - from,
{
    if from >= 64 || pow2(from) >= n + from + 1 {
        from
    } else {
        parity_count_from(n, from + 1)
    }
}

/// Minimum number of parity bits `r` with `2^r >= n + r + 1`.
pub open spec fn parity_count(n: nat) -> nat {
    parity_count_from(n, 0)
}

proof fn lemma_parity_count_skip(n: nat, from: nat)
    requires
        from <= 64,
        forall|q: nat| q < from ==> pow2(q) < n + q + 1,
    ensures
        parity_count_from(n, 0) == parity_count_from(n, from),
    decreases from,
{
    if from > 0 {
        lemma_parity_count_skip(n, (from - 1) as nat);
        assert(pow2((from - 1) as nat) < n + (from - 1) + 1);
        assert(parity_count_from(n, (from - 1) as nat) == parity_count_from(n, from));
    }
}

/// Concrete parity counts over the supported widths.
pub proof fn lemma_parity_count_values(n: nat)
    requires
        4 <= n <= 247,
    ensures
        n == 4 ==> parity_count(n) == 3,
        5 <= n <= 11 ==> parity_count(n) == 4,
        12 <= n <= 26 ==> parity_count(n) == 5,
        27 <= n <= 57 ==> parity_count(n) == 6,
        58 <= n <= 120 ==> parity_count(n) == 7,
        121 <= n ==> parity_count(n) == 8,
{
    lemma2_to64();
    reveal_with_fuel(parity_count_from, 10);
}

/// Smallest `r >= 1` with `2^r >= m`.
fn ceil_log2(m: usize) -> (r: usize)
    requires
        2 <= m <= 1024,
    ensures
        1 <= r <= 10,
        pow2(r as nat) >= m,
        pow2((r - 1) as nat) < m,
{
    let mut r: usize = 1;
    let mut p: usize = 2;
    proof { lemma2_to64(); }
    while p < m
        invariant
            1 <= r <= 10,
            2 <= p,
            p == pow2(r as nat),
            pow2((r - 1) as nat) < m,
            m <= 1024,
        decreases 10 - r,
    {
        proof {
            lemma2_to64();
            lemma_pow2_unfold((r + 1) as nat);
            if r == 10 { assert(p == 1024); }
        }
        p = p * 2;
        r = r + 1;
    }
    r
}

/// Minimum parity bits `r` satisfying `2^r >= n + r + 1`, for `4 <= n <= 247`.
pub fn parity_bit_count(n_data: usize) -> (res: Result<usize, DfimError>)
    ensures
        (4 <= n_data <= 247) <==> res is Ok,
        res is Err ==> res == Err::<usize, DfimError>(DfimError::InvalidParameter),
        res matches Ok(r) ==> r == parity_count(n_data as nat),
{
    if n_data < HAMMING_MIN_DATA_BITS || n_data > HAMMING_MAX_DATA_BITS {
        return Err(DfimError::InvalidParameter);
    }
    let r0 = ceil_log2(n_data + 1);
    let mut r = r0;
    let mut p: usize = 1;
    let mut i: usize = 0;
    proof { lemma2_to64(); }
    while i < r
        invariant
            i <= r,
            r <= 10,
            p == pow2(i as nat),
        decreases r - i,
    {
        proof {
            lemma2_to64();
            lemma_pow2_unfold((i + 1) as nat);
        }
        p = p * 2;
        i = i + 1;
    }
    let mut observer = PatternObserver::new(64)?;
    proof {
        lemma2_to64();
        assert forall|q: nat| q < r0 implies pow2(q) < n_data + q + 1 by {
            if q < r0 - 1 {
                lemma_pow2_strictly_increases(q, (r0 - 1) as nat);
            }
        }
    }
    while p < n_data + r + 1
        invariant
            4 <= n_data <= 247,
            r0 <= r <= 8,
            p == pow2(r as nat),
            forall|q: nat| q < r ==> pow2(q) < n_data + q + 1,
            observer.wf(),
            observer@.max_iterations == 64,
            observer@.count == r - r0,
        decreases 8 - r,
    {
        proof {
            lemma2_to64();
            lemma_pow2_unfold((r + 1) as nat);
            if r == 8 { assert(p == 256); }
        }
        observer.tick()?;
        r = r + 1;
        p = p * 2;
        if r > 64 {
            return Err(DfimError::ParameterOverflow);
        }
    }
    proof {
        lemma_parity_count_skip(n_data as nat, r as nat);
        assert(parity_count_from(n_data as nat, r as nat) == r);
    }
    Ok(r)
}

/// Total codeword bit length `n + r`.
pub fn codeword_bit_length(n_data: usize) -> (res: Result<usize, DfimError>)
    ensures
        (4 <= n_data <= 247) <==> res is Ok,
        res is Err ==> res == Err::<usize, DfimError>(DfimError::InvalidParameter),
        res matches Ok(t) ==> t == n_data + parity_count(n_data as nat),
{
    let r = parity_bit_count(n_data)?;
    proof { lemma_parity_count_values(n_data as nat); }
    match n_data.checked_add(r) {
        Some(t) => Ok(t),
        None => Err(DfimError::ParameterOverflow),
    }
}

/// True when the 1-indexed position is a parity location (a power of two).
pub fn is_parity_position(pos: usize) -> (r: bool)
    ensures
        r == (pos != 0 && pos & ((pos - 1) as usize) == 0),
        pos < 256 ==> r == is_check_pos(pos as nat),
{
    proof {
        assert(pos < 256 ==> ((pos != 0 && pos & ((pos - 1) as usize) == 0) <==> (pos == 1
            || pos == 2 || pos == 4 || pos == 8 || pos == 16 || pos == 32 || pos == 64
            || pos == 128))) by (bit_vector);
    }
    pos != 0 && (pos & (pos - 1)) == 0
}

/// Bit `i` of `x`, bit 0 being the least significant.
pub open spec fn bit(x: u64, i: nat) -> bool {
    i < 64 && (x >> (i as u64)) & 1u64 == 1u64
}

/// Bit at the 1-indexed codeword position `q` of `w`.
pub open spec fn at(w: u64, q: nat) -> bool {
    q >= 1 && bit(w, (q - 1) as nat)
}

/// No bit of `x` is set at or above bit `n`.
pub open spec fn fits(x: u64, n: nat) -> bool {
    forall|j: nat| n <= j ==> !#[trigger] bit(x, j)
}

/// The parity positions: powers of two (a codeword has fewer than 256 positions).
pub open spec fn is_check_pos(q: nat) -> bool {
    q == 1 || q == 2 || q == 4 || q == 8 || q == 16 || q == 32 || q == 64 || q == 128
}

/// Number of data positions among positions `1 .. q - 1`: the data bit carried at position `q`.
pub open spec fn data_index(q: nat) -> nat
    decreases q,
{
    if q <= 1 {
        0
    } else {
        data_index((q - 1) as nat) + if is_check_pos((q - 1) as nat) {
            0nat
        } else {
            1nat
        }
    }
}

/// Position `q` takes part in parity check `p`: bit `p` of `q` is set.
pub open spec fn covers(q: nat, p: nat) -> bool {
    q < 256 && p < 8 && ((q as u64) >> (p as u64)) & 1u64 == 1u64
}

/// Parity of check `p` over positions `1 ..= k` of `w`.
pub open spec fn check(w: u64, p: nat, k: nat) -> bool
    decreases k,
{
    if k == 0 {
        false
    } else {
        check(w, p, (k - 1) as nat) != (covers(k, p) && at(w, k))
    }
}

/// Codeword length `n + r` for `n` data bits.
pub open spec fn code_len(n: nat) -> nat {
    n + parity_count(n)
}

/// `w` is the Hamming codeword of the `n`-bit value `d`: the data positions carry the bits
/// of `d` in order, every parity check is even, and nothing is set past the codeword.
pub open spec fn is_codeword_of(w: u64, d: u64, n: nat) -> bool {
    &&& fits(d, n)
    &&& fits(w, code_len(n))
    &&& forall|q: nat|
        1 <= q <= code_len(n) && !is_check_pos(q) ==> #[trigger] at(w, q) == bit(d, data_index(q))
    &&& forall|p: nat| p < parity_count(n) ==> !#[trigger] check(w, p, code_len(n))
}

/// Mask of the low `t` bits.
pub open spec fn low_mask(t: nat) -> u64 {
    if t >= 64 {
        0xffff_ffff_ffff_ffffu64
    } else {
        !(0xffff_ffff_ffff_ffffu64 << (t as u64))
    }
}

/// `s` is the syndrome of `w`: its bit `p` is the parity of check `p`.
pub open spec fn is_syndrome_of(w: u64, n: nat, s: u32) -> bool {
    &&& fits(s as u64, parity_count(n))
    &&& forall|p: nat| p < parity_count(n) ==> bit(s as u64, p) == #[trigger] check(w, p, code_len(n))
}

/// `w` with the bit at position `s` flipped when `s` names a position of the codeword.
pub open spec fn corrected(w: u64, s: u32, t: nat) -> u64 {
    if 0 < s <= t {
        w ^ (1u64 << ((s - 1) as u64))
    } else {
        w
    }
}

/// `d` is the `n`-bit value read off the data positions of `w`.
pub open spec fn carries_data(w: u64, n: nat, d: u64) -> bool {
    &&& fits(d, n)
    &&& forall|q: nat|
        1 <= q <= code_len(n) && !is_check_pos(q) ==> #[trigger] at(w, q) == bit(d, data_index(q))
}

/// `(d, s)` is what decoding the received word `c` gives: `s` is the syndrome of the
/// codeword part of `c`, and `d` is read from that part after the bit named by `s` is flipped.
pub open spec fn is_decoding_of(c: u64, n: nat, d: u64, s: u32) -> bool {
    let w = c & low_mask(code_len(n));
    &&& is_syndrome_of(w, n, s)
    &&& carries_data(corrected(w, s, code_len(n)), n, d)
}

/// A strict decoder accepts `(d, s)` when the received word, or the word with the bit named
/// by `s` flipped, is exactly the codeword of `d`.
pub open spec fn strict_accepts(c: u64, n: nat, d: u64, s: u32) -> bool {
    let w = c & low_mask(code_len(n));
    ||| is_codeword_of(w, d, n)
    ||| (0 < s <= code_len(n) && is_codeword_of(w ^ (1u64 << ((s - 1) as u64)), d, n))
}

/// `d` is the decoding of `c`, and a strict decoder accepts it.
pub open spec fn strictly_decodes(c: u64, n: nat, d: u64) -> bool {
    exists|s: u32| #[trigger] is_decoding_of(c, n, d, s) && strict_accepts(c, n, d, s)
}

/// Widest data whose codeword (data and parity bits) fits in 64 bits.
pub const MAX_CODEWORD_DATA_BITS: usize = 57;

/// Widths on which the codec computes: `4 ..= 57` data bits, a codeword within 63 bits.
pub open spec fn codec_width(n: nat) -> bool {
    4 <= n <= 57
}

// ---------------------------------------------------------------------------------------------
// Bit-level facts.

proof fn lemma_bit_or(x: u64, b: u64, i: u64)
    requires
        b <= 1,
        i < 64,
    ensures
        forall|j: nat| #[trigger]
            bit(x | (b << i), j) == if j == i as nat {
                bit(x, j) || b == 1
            } else {
                bit(x, j)
            },
{
    assert forall|j: nat| #[trigger]
        bit(x | (b << i), j) == if j == i as nat {
            bit(x, j) || b == 1
        } else {
            bit(x, j)
        } by {
        if j < 64 {
            let jj = j as u64;
            assert((((x | (b << i)) >> jj) & 1u64 == 1u64) == if jj == i {
                ((x >> jj) & 1u64 == 1u64) || b == 1
            } else {
                (x >> jj) & 1u64 == 1u64
            }) by (bit_vector)
                requires
                    b <= 1,
                    i < 64,
                    jj < 64,
            ;
        }
    }
}

proof fn lemma_bit_flip(x: u64, i: u64)
    requires
        i < 64,
    ensures
        forall|j: nat| #[trigger]
            bit(x ^ (1u64 << i), j) == if j == i as nat {
                !bit(x, j)
            } else {
                bit(x, j)
            },
{
    assert forall|j: nat| #[trigger]
        bit(x ^ (1u64 << i), j) == if j == i as nat {
            !bit(x, j)
        } else {
            bit(x, j)
        } by {
        if j < 64 {
            let jj = j as u64;
            assert((((x ^ (1u64 << i)) >> jj) & 1u64 == 1u64) == if jj == i {
                !((x >> jj) & 1u64 == 1u64)
            } else {
                (x >> jj) & 1u64 == 1u64
            }) by (bit_vector)
                requires
                    i < 64,
                    jj < 64,
            ;
        }
    }
}

proof fn lemma_bit_mask(x: u64, t: nat)
    ensures
        forall|j: nat| #[trigger] bit(x & low_mask(t), j) == (j < t && bit(x, j)),
{
    assert forall|j: nat| #[trigger] bit(x & low_mask(t), j) == (j < t && bit(x, j)) by {
        if j < 64 {
            let jj = j as u64;
            if t >= 64 {
                assert(((x & 0xffff_ffff_ffff_ffffu64) >> jj) & 1u64 == (x >> jj) & 1u64)
                    by (bit_vector);
            } else {
                let tt = t as u64;
                assert((((x & !(0xffff_ffff_ffff_ffffu64 << tt)) >> jj) & 1u64 == 1u64) == (jj
                    < tt && (x >> jj) & 1u64 == 1u64)) by (bit_vector)
                    requires
                        jj < 64,
                        tt < 64,
                ;
            }
        }
    }
}

proof fn lemma_low_ext(a: u64, b: u64, k: u64)
    requires
        k <= 63,
        forall|j: nat| j < k ==> #[trigger] bit(a, j) == bit(b, j),
    ensures
        a & !(0xffff_ffff_ffff_ffffu64 << k) == b & !(0xffff_ffff_ffff_ffffu64 << k),
    decreases k,
{
    if k == 0 {
        assert(a & !(0xffff_ffff_ffff_ffffu64 << 0u64) == 0u64) by (bit_vector);
        assert(b & !(0xffff_ffff_ffff_ffffu64 << 0u64) == 0u64) by (bit_vector);
    } else {
        let k1 = (k - 1) as u64;
        lemma_low_ext(a, b, k1);
        assert(bit(a, k1 as nat) == bit(b, k1 as nat));
        assert(a & !(0xffff_ffff_ffff_ffffu64 << k) == b & !(0xffff_ffff_ffff_ffffu64 << k))
            by (bit_vector)
            requires
                k1 < 63,
                k == k1 + 1,
                a & !(0xffff_ffff_ffff_ffffu64 << k1) == b & !(0xffff_ffff_ffff_ffffu64 << k1),
                ((a >> k1) & 1u64 == 1u64) == ((b >> k1) & 1u64 == 1u64),
        ;
    }
}

/// Two words with the same 64 bits are equal.
proof fn lemma_bits_ext(a: u64, b: u64)
    requires
        forall|j: nat| j < 64 ==> #[trigger] bit(a, j) == bit(b, j),
    ensures
        a == b,
{
    lemma_low_ext(a, b, 63);
    assert(bit(a, 63) == bit(b, 63));
    assert(a == b) by (bit_vector)
        requires
            a & !(0xffff_ffff_ffff_ffffu64 << 63u64) == b & !(0xffff_ffff_ffff_ffffu64 << 63u64),
            ((a >> 63u64) & 1u64 == 1u64) == ((b >> 63u64) & 1u64 == 1u64),
    ;
}

/// Two `n`-bit values agreeing on their low `n` bits are equal.
proof fn lemma_fits_ext(a: u64, b: u64, n: nat)
    requires
        fits(a, n),
        fits(b, n),
        forall|j: nat| j < n ==> #[trigger] bit(a, j) == bit(b, j),
    ensures
        a == b,
{
    assert forall|j: nat| j < 64 implies #[trigger] bit(a, j) == bit(b, j) by {
        if j >= n {
            assert(!bit(a, j) && !bit(b, j));
        }
    }
    lemma_bits_ext(a, b);
}

/// A single bit `(x >> i) & 1` is 0 or 1 and says whether bit `i` is set.
proof fn lemma_extract(x: u64, i: u64)
    requires
        i < 64,
    ensures
        (x >> i) & 1u64 <= 1,
        ((x >> i) & 1u64 == 1u64) == bit(x, i as nat),
{
    assert((x >> i) & 1u64 <= 1) by (bit_vector);
}

/// The check positions covered by check `p` are exactly `2^p`.
proof fn lemma_check_pos_covers(q: nat, p: nat)
    requires
        p < 8,
    ensures
        is_check_pos(q) && covers(q, p) ==> q == pow2(p),
        is_check_pos(pow2(p)),
        covers(pow2(p), p),
        pow2(p) < 256,
{
    lemma2_to64();
    let pp = p as u64;
    assert(pp < 8 ==> ((1u64 << pp) == 1 || (1u64 << pp) == 2 || (1u64 << pp) == 4 || (1u64
        << pp) == 8 || (1u64 << pp) == 16 || (1u64 << pp) == 32 || (1u64 << pp) == 64 || (1u64
        << pp) == 128)) by (bit_vector);
    assert(pp < 8 ==> ((1u64 << pp) >> pp) & 1u64 == 1u64) by (bit_vector);
    lemma_u64_shl_is_mul(1, pp);
    if q < 256 {
        let qq = q as u64;
        assert(qq < 256 && pp < 8 && (qq == 1 || qq == 2 || qq == 4 || qq == 8 || qq == 16 || qq
            == 32 || qq == 64 || qq == 128) && (qq >> pp) & 1u64 == 1u64 ==> qq == (1u64 << pp))
            by (bit_vector);
    }
}

/// `2^p` takes part in check `p2` only when `p2 == p`.
proof fn lemma_pow2_covers(p: nat, p2: nat)
    requires
        p < 8,
        p2 < 8,
    ensures
        covers(pow2(p), p2) == (p == p2),
{
    lemma2_to64();
    let pp = p as u64;
    let pp2 = p2 as u64;
    lemma_u64_shl_is_mul(1, pp);
    assert(pp < 8 && pp2 < 8 ==> ((((1u64 << pp) >> pp2) & 1u64 == 1u64) == (pp == pp2)))
        by (bit_vector);
}

// ---------------------------------------------------------------------------------------------
// Facts on data positions.

proof fn lemma_data_index_mono(a: nat, b: nat)
    requires
        a <= b,
    ensures
        data_index(a) <= data_index(b),
        a < b && a >= 1 && !is_check_pos(a) ==> data_index(a) < data_index(b),
    decreases b,
{
    if a < b {
        lemma_data_index_mono(a, (b - 1) as nat);
    }
}

/// Number of powers of two below `q`, for `1 <= q <= 256`.
spec fn checks_below(q: nat) -> nat {
    if q <= 1 {
        0
    } else if q <= 2 {
        1
    } else if q <= 4 {
        2
    } else if q <= 8 {
        3
    } else if q <= 16 {
        4
    } else if q <= 32 {
        5
    } else if q <= 64 {
        6
    } else if q <= 128 {
        7
    } else {
        8
    }
}

proof fn lemma_data_index_closed(q: nat)
    requires
        1 <= q <= 256,
    ensures
        data_index(q) + checks_below(q) == q - 1,
    decreases q,
{
    if q > 1 {
        lemma_data_index_closed((q - 1) as nat);
    }
}

/// The data positions of a codeword for `n` bits carry exactly the indices `0 .. n - 1`.
proof fn lemma_data_positions(n: nat)
    requires
        4 <= n <= 247,
    ensures
        data_index(code_len(n) + 1) == n,
        forall|q: nat|
            1 <= q <= code_len(n) && !is_check_pos(q) ==> #[trigger] data_index(q) < n,
        code_len(n) <= 255,
        n <= 57 ==> code_len(n) <= 63,
        forall|p: nat| p < parity_count(n) ==> #[trigger] pow2(p) <= code_len(n),
        parity_count(n) <= 8,
        n <= 57 ==> parity_count(n) <= 6,
        code_len(n) < pow2(parity_count(n)),
{
    lemma_parity_count_values(n);
    lemma_data_index_closed(code_len(n) + 1);
    assert forall|q: nat| 1 <= q <= code_len(n) && !is_check_pos(q) implies #[trigger] data_index(
        q,
    ) < n by {
        lemma_data_index_mono(q, code_len(n) + 1);
    }
    lemma2_to64();
    assert forall|p: nat| p < parity_count(n) implies #[trigger] pow2(p) <= code_len(n) by {
        if p < parity_count(n) - 1 {
            lemma_pow2_strictly_increases(p, (parity_count(n) - 1) as nat);
        }
    }
}

/// Every index below `data_index(m)` is carried by some data position below `m`.
proof fn lemma_data_index_onto(m: nat, k: nat)
    requires
        k < data_index(m),
    ensures
        exists|q: nat| 1 <= q < m && !is_check_pos(q) && #[trigger] data_index(q) == k,
    decreases m,
{
    let m1 = (m - 1) as nat;
    if k < data_index(m1) {
        lemma_data_index_onto(m1, k);
        let q = choose|q: nat| 1 <= q < m1 && !is_check_pos(q) && #[trigger] data_index(q) == k;
        assert(1 <= q < m && !is_check_pos(q) && data_index(q) == k);
    } else {
        assert(data_index(m1) == k);
        assert(1 <= m1 < m && !is_check_pos(m1) && data_index(m1) == k);
    }
}

// ---------------------------------------------------------------------------------------------
// Facts on parity checks.

/// Changing positions outside check `p`, and one position `q0`, changes the check by that
/// one position.
proof fn lemma_check_agree(w1: u64, w2: u64, p: nat, k: nat, q0: nat)
    requires
        forall|q: nat| 1 <= q <= k && q != q0 && covers(q, p) ==> #[trigger] at(w1, q) == at(w2, q),
    ensures
        check(w1, p, k) == (check(w2, p, k) != (1 <= q0 <= k && covers(q0, p) && at(w1, q0) != at(
            w2,
            q0,
        ))),
    decreases k,
{
    if k > 0 {
        lemma_check_agree(w1, w2, p, (k - 1) as nat, q0);
    }
}

/// The bits of a word below `2^r` are zero from bit `r` on.
proof fn lemma_small_fits(x: u64, r: nat)
    requires
        r < 64,
        x < pow2(r),
    ensures
        fits(x, r),
{
    let rr = r as u64;
    lemma_u64_pow2_no_overflow(r);
    lemma_u64_shl_is_mul(1, rr);
    assert forall|j: nat| r <= j implies !#[trigger] bit(x, j) by {
        if j < 64 {
            let jj = j as u64;
            assert(x < (1u64 << rr) && rr <= jj && jj < 64 && rr < 64 ==> (x >> jj) & 1u64 == 0u64)
                by (bit_vector);
        }
    }
}

/// No bit of zero is set.
proof fn lemma_zero_bits()
    ensures
        forall|j: nat| !#[trigger] bit(0u64, j),
{
    assert forall|j: nat| !#[trigger] bit(0u64, j) by {
        if j < 64 {
            let jj = j as u64;
            assert((0u64 >> jj) & 1u64 == 0u64) by (bit_vector);
        }
    }
}

/// A word fitting in `r < 64` bits is below `2^r`.
proof fn lemma_fits_bound(x: u64, r: nat)
    requires
        r < 64,
        fits(x, r),
    ensures
        x < pow2(r),
{
    lemma_bit_mask(x, r);
    assert forall|j: nat| j < 64 implies #[trigger] bit(x & low_mask(r), j) == bit(x, j) by {}
    lemma_bits_ext(x & low_mask(r), x);
    let rr = r as u64;
    lemma_u64_pow2_no_overflow(r);
    lemma_u64_shl_is_mul(1, rr);
    assert(rr < 64 ==> x & !(0xffff_ffff_ffff_ffffu64 << rr) < (1u64 << rr)) by (bit_vector);
}

/// The low mask as a number: `2^t - 1`, or all ones from 64 bits on.
fn data_mask(bits: usize) -> (m: u64)
    ensures
        m == low_mask(bits as nat),
{
    if bits >= 64 {
        u64::MAX
    } else {
        let b = bits as u64;
        assert(b < 64 ==> (1u64 << b) >= 1u64) by (bit_vector);
        assert(b < 64 ==> ((1u64 << b) - 1u64) as u64 == !(0xffff_ffff_ffff_ffffu64 << b))
            by (bit_vector);
        (1u64 << b) - 1
    }
}

/// Parity of check `p` over the first `total` positions of `cw`, as 0 or 1.
fn check_parity(cw: u64, p: u64, total: u64) -> (parity: u64)
    requires
        p < 8,
        total <= 63,
    ensures
        parity <= 1,
        (parity == 1) == check(cw, p as nat, total as nat),
{
    let mut parity: u64 = 0;
    let mut pos: u64 = 1;
    while pos <= total
        invariant
            1 <= pos <= total + 1,
            total <= 63,
            p < 8,
            parity <= 1,
            (parity == 1) == check(cw, p as nat, (pos - 1) as nat),
        decreases total + 1 - pos,
    {
        if (pos >> p) & 1 == 1 {
            let b = (cw >> (pos - 1)) & 1;
            proof {
                lemma_extract(cw, (pos - 1) as u64);
                assert(parity <= 1 && b <= 1 ==> (parity ^ b) <= 1 && ((parity ^ b == 1) == ((
                parity == 1) != (b == 1)))) by (bit_vector);
            }
            parity = parity ^ b;
        }
        assert(check(cw, p as nat, pos as nat) == (check(cw, p as nat, (pos - 1) as nat) != (
        covers(pos as nat, p as nat) && at(cw, pos as nat))));
        pos = pos + 1;
    }
    parity
}

/// Encodes the `n_data`-bit value `data` into its Hamming codeword.
///
/// The width is checked first, then that the data fits in it. Widths `58 ..= 247` are valid
/// parameters whose codeword would not fit in 64 bits: data that fits is refused there with
/// `ParameterOverflow`.
pub fn encode_bits(data: u64, n_data: usize) -> (res: Result<u64, DfimError>)
    ensures
        res is Ok <==> (codec_width(n_data as nat) && fits(data, n_data as nat)),
        !(4 <= n_data <= 247) || (4 <= n_data <= 63 && !fits(data, n_data as nat)) ==> res == Err::<
            u64,
            DfimError,
        >(DfimError::InvalidParameter),
        58 <= n_data <= 247 && fits(data, n_data as nat) ==> res == Err::<u64, DfimError>(
            DfimError::ParameterOverflow,
        ),
        res matches Ok(w) ==> is_codeword_of(w, data, n_data as nat),
{
    if n_data < HAMMING_MIN_DATA_BITS || n_data > HAMMING_MAX_DATA_BITS {
        return Err(DfimError::InvalidParameter);
    }
    if n_data > 63 {
        return Err(DfimError::ParameterOverflow);
    }
    let mask = data_mask(n_data);
    let ghost n = n_data as nat;
    proof {
        lemma_zero_bits();
        let nn = n_data as u64;
        assert forall|j: nat| #[trigger] bit(data & !mask, j) == (n <= j && bit(data, j)) by {
            if j < 64 {
                let jj = j as u64;
                assert((((data & !(!(0xffff_ffff_ffff_ffffu64 << nn))) >> jj) & 1u64 == 1u64) == (
                nn <= jj && (data >> jj) & 1u64 == 1u64)) by (bit_vector)
                    requires
                        jj < 64,
                        nn < 64,
                ;
            }
        }
        if data & !mask == 0 {
            assert forall|j: nat| n <= j implies !#[trigger] bit(data, j) by {
                assert(bit(data & !mask, j) == (n <= j && bit(data, j)));
            }
        }
        if fits(data, n) {
            assert forall|j: nat| j < 64 implies #[trigger] bit(data & !mask, j) == bit(0u64, j) by {}
            lemma_bits_ext(data & !mask, 0u64);
        }
    }
    if data & !mask != 0 {
        return Err(DfimError::InvalidParameter);
    }
    if n_data > MAX_CODEWORD_DATA_BITS {
        return Err(DfimError::ParameterOverflow);
    }
    let r = parity_bit_count(n_data)?;
    proof {
        lemma_data_positions(n);
    }
    let total: u64 = (n_data + r) as u64;
    let ghost t = total as nat;

    let mut cw: u64 = 0;
    let mut data_idx: u64 = 0;
    let mut pos: u64 = 1;
    while pos <= total
        invariant
            1 <= pos <= total + 1,
            t == total == code_len(n) <= 63,
            data_idx == data_index(pos as nat),
            fits(cw, (pos - 1) as nat),
            forall|q: nat|
                1 <= q < pos && !is_check_pos(q) ==> #[trigger] at(cw, q) == bit(data, data_index(q)),
            forall|q: nat| 1 <= q < pos && is_check_pos(q) ==> !#[trigger] at(cw, q),
        decreases total + 1 - pos,
    {
        if is_parity_position(pos as usize) {
            pos = pos + 1;
            continue;
        }
        proof {
            lemma_data_index_closed(pos as nat);
        }
        let b = (data >> data_idx) & 1;
        proof {
            lemma_extract(data, data_idx);
            lemma_bit_or(cw, b, (pos - 1) as u64);
        }
        let ghost prev = cw;
        cw = cw | (b << (pos - 1));
        proof {
            assert forall|q: nat| q != pos implies #[trigger] at(cw, q) == at(prev, q) by {}
            assert(at(cw, pos as nat) == bit(data, data_index(pos as nat)));
        }
        data_idx = data_idx + 1;
        pos = pos + 1;
    }
    proof {
        assert forall|p2: nat| 0 <= p2 < parity_count(n) implies !#[trigger] at(cw, pow2(p2)) by {
            lemma_check_pos_covers(0, p2);
        }
    }

    let r64 = r as u64;
    let mut p: u64 = 0;
    proof {
        lemma2_to64();
    }
    while p < r64
        invariant
            p <= r64,
            r64 == parity_count(n) <= 6,
            t == total == code_len(n) <= 63,
            4 <= n <= 57,
            forall|p2: nat| p2 < parity_count(n) ==> #[trigger] pow2(p2) <= code_len(n),
            fits(cw, t),
            forall|q: nat|
                1 <= q <= t && !is_check_pos(q) ==> #[trigger] at(cw, q) == bit(data, data_index(q)),
            forall|p2: nat| p2 < p ==> !#[trigger] check(cw, p2, t),
            forall|p2: nat| p <= p2 < r64 ==> !#[trigger] at(cw, pow2(p2)),
        decreases r64 - p,
    {
        let parity = check_parity(cw, p, total);
        proof {
            lemma_u64_pow2_no_overflow(p as nat);
            lemma_u64_shl_is_mul(1, p);
            lemma_check_pos_covers(0, p as nat);
        }
        let parity_pos: u64 = 1u64 << p;
        let ghost old_cw = cw;
        let ghost pp = pow2(p as nat);
        proof {
            assert(!at(old_cw, pp));
            lemma_bit_or(cw, parity, (parity_pos - 1) as u64);
        }
        cw = cw | (parity << (parity_pos - 1));
        proof {
            assert forall|q: nat| q != pp implies #[trigger] at(cw, q) == at(old_cw, q) by {}
            assert(at(cw, pp) == (parity == 1));
            assert forall|p2: nat| p2 < p + 1 implies !#[trigger] check(cw, p2, t) by {
                lemma_pow2_covers(p as nat, p2);
                lemma_check_agree(cw, old_cw, p2, t, pp);
            }
            assert forall|p2: nat| p + 1 <= p2 < r64 implies !#[trigger] at(cw, pow2(p2)) by {
                lemma_pow2_strictly_increases(p as nat, p2);
            }
        }
        p = p + 1;
    }
    let res = cw & data_mask(total as usize);
    proof {
        lemma_bit_mask(cw, t);
        assert forall|j: nat| j < 64 implies #[trigger] bit(res, j) == bit(cw, j) by {}
        lemma_bits_ext(res, cw);
    }
    Ok(res)
}

/// Decodes a received word, correcting a single flipped bit; returns `(data, syndrome)`.
///
/// With two or more flipped bits the data read off may differ from what was encoded.
/// Widths `58 ..= 247` are refused with `ParameterOverflow`, their codeword exceeding 64 bits.
pub fn decode_bits(codeword: u64, n_data: usize) -> (res: Result<(u64, u32), DfimError>)
    ensures
        res is Ok <==> codec_width(n_data as nat),
        !(4 <= n_data <= 247) ==> res == Err::<(u64, u32), DfimError>(DfimError::InvalidParameter),
        58 <= n_data <= 247 ==> res == Err::<(u64, u32), DfimError>(DfimError::ParameterOverflow),
        res matches Ok((d, s)) ==> is_decoding_of(codeword, n_data as nat, d, s),
{
    if n_data < HAMMING_MIN_DATA_BITS || n_data > HAMMING_MAX_DATA_BITS {
        return Err(DfimError::InvalidParameter);
    }
    if n_data > MAX_CODEWORD_DATA_BITS {
        return Err(DfimError::ParameterOverflow);
    }
    let r = parity_bit_count(n_data)?;
    let ghost n = n_data as nat;
    proof {
        lemma_data_positions(n);
        lemma_zero_bits();
    }
    let total: u64 = (n_data + r) as u64;
    let ghost t = total as nat;
    let mask = data_mask(total as usize);
    let mut cw = codeword & mask;
    let ghost w = cw;

    let r64 = r as u64;
    let mut syn: u64 = 0;
    let mut p: u64 = 0;
    while p < r64
        invariant
            p <= r64,
            r64 == parity_count(n) <= 6,
            t == total == code_len(n) <= 63,
            fits(syn, p as nat),
            forall|p2: nat| p2 < p ==> bit(syn, p2) == #[trigger] check(w, p2, t),
            cw == w,
        decreases r64 - p,
    {
        let parity = check_parity(cw, p, total);
        if parity != 0 {
            proof {
                lemma_bit_or(syn, 1, p);
            }
            syn = syn | (1u64 << p);
        } else {
            assert(bit(syn, p as nat) == false);
        }
        p = p + 1;
    }
    proof {
        lemma_fits_bound(syn, r64 as nat);
        lemma2_to64();
    }
    let syndrome = syn as u32;
    assert(syndrome as u64 == syn);
    if syndrome != 0 {
        let err_pos = syndrome as u64;
        if err_pos <= total {
            cw = cw ^ (1u64 << (err_pos - 1));
        }
    }
    let ghost fixed = cw;
    assert(fixed == corrected(w, syndrome, t));

    let mut data: u64 = 0;
    let mut data_idx: u64 = 0;
    let mut pos: u64 = 1;
    while pos <= total
        invariant
            1 <= pos <= total + 1,
            t == total == code_len(n) <= 63,
            4 <= n <= 57,
            cw == fixed,
            data_idx == data_index(pos as nat),
            fits(data, data_idx as nat),
            forall|q: nat|
                1 <= q < pos && !is_check_pos(q) ==> #[trigger] at(cw, q) == bit(data, data_index(q)),
        decreases total + 1 - pos,
    {
        if is_parity_position(pos as usize) {
            pos = pos + 1;
            continue;
        }
        proof {
            lemma_data_index_closed(pos as nat);
        }
        let b = (cw >> (pos - 1)) & 1;
        proof {
            lemma_extract(cw, (pos - 1) as u64);
            lemma_bit_or(data, b, data_idx);
        }
        let ghost prev = data;
        data = data | (b << data_idx);
        proof {
            assert forall|q: nat| 1 <= q < pos && !is_check_pos(q) implies #[trigger] at(cw, q)
                == bit(data, data_index(q)) by {
                lemma_data_index_mono(q, pos as nat);
            }
        }
        data_idx = data_idx + 1;
        pos = pos + 1;
    }
    let out = data & data_mask(n_data);
    proof {
        lemma_bit_mask(data, n);
        assert(syndrome as u64 == syn);
    }
    Ok((out, syndrome))
}

/// Decodes like `decode_bits`, then accepts the data only when the received word, or that word
/// with the bit named by the syndrome flipped, is exactly the codeword of the data.
pub fn decode_bits_strict(codeword: u64, n_data: usize) -> (res: Result<u64, DfimError>)
    ensures
        !(4 <= n_data <= 247) ==> res == Err::<u64, DfimError>(DfimError::InvalidParameter),
        58 <= n_data <= 247 ==> res == Err::<u64, DfimError>(DfimError::ParameterOverflow),
        res matches Ok(d) ==> strictly_decodes(codeword, n_data as nat, d),
        (codec_width(n_data as nat) && res is Err) ==> res == Err::<u64, DfimError>(
            DfimError::CorruptMetadata,
        ) && forall|d: u64, s: u32| #[trigger]
            is_decoding_of(codeword, n_data as nat, d, s) ==> !strict_accepts(
                codeword,
                n_data as nat,
                d,
                s,
            ),
{
    if n_data < HAMMING_MIN_DATA_BITS || n_data > HAMMING_MAX_DATA_BITS {
        return Err(DfimError::InvalidParameter);
    }
    if n_data > MAX_CODEWORD_DATA_BITS {
        return Err(DfimError::ParameterOverflow);
    }
    let r = parity_bit_count(n_data)?;
    let ghost n = n_data as nat;
    proof {
        lemma_data_positions(n);
    }
    let total: u64 = (n_data + r) as u64;
    let ghost t = total as nat;
    let mask = data_mask(total as usize);
    let received = codeword & mask;
    proof {
        let m = mask;
        assert((codeword & m) & m == codeword & m) by (bit_vector);
    }
    let (data, syndrome) = decode_bits(received, n_data)?;
    assert(is_decoding_of(codeword, n, data, syndrome));
    let reencoded = encode_bits(data, n_data)?;
    proof {
        assert forall|d: u64, s: u32| #[trigger] is_decoding_of(codeword, n, d, s) implies d == data
            && s == syndrome by {
            law_decoding_unique(codeword, n, d, s, data, syndrome);
        }
        assert forall|x: u64| is_codeword_of(x, data, n) implies x == reencoded by {
            law_codeword_unique(x, reencoded, data, n);
        }
    }
    if reencoded == received {
        assert(is_decoding_of(codeword, n, data, syndrome) && strict_accepts(codeword, n, data, syndrome));
        assert(strictly_decodes(codeword, n, data));
        return Ok(data);
    }
    if syndrome == 0 {
        return Err(DfimError::CorruptMetadata);
    }
    let err_pos = syndrome as u64;
    if err_pos == 0 || err_pos > total {
        return Err(DfimError::CorruptMetadata);
    }
    let flipped = received ^ (1u64 << (err_pos - 1));
    if reencoded == flipped {
        assert(is_decoding_of(codeword, n, data, syndrome) && strict_accepts(codeword, n, data, syndrome));
        assert(strictly_decodes(codeword, n, data));
        return Ok(data);
    }
    Err(DfimError::CorruptMetadata)
}

// ---------------------------------------------------------------------------------------------
// Uniqueness.

/// A value has exactly one codeword: the codeword is determined by the data it carries.
pub proof fn law_codeword_unique(w1: u64, w2: u64, d: u64, n: nat)
    requires
        codec_width(n),
        is_codeword_of(w1, d, n),
        is_codeword_of(w2, d, n),
    ensures
        w1 == w2,
{
    lemma_data_positions(n);
    lemma_parity_count_values(n);
    lemma2_to64();
    let t = code_len(n);
    let r = parity_count(n);
    assert forall|q: nat| 1 <= q <= t implies #[trigger] at(w1, q) == at(w2, q) by {
        if is_check_pos(q) {
            let p: nat = if q == 1 {
                0
            } else if q == 2 {
                1
            } else if q == 4 {
                2
            } else if q == 8 {
                3
            } else if q == 16 {
                4
            } else if q == 32 {
                5
            } else if q == 64 {
                6
            } else {
                7
            };
            assert(pow2(p) == q);
            if p >= r {
                if p > r {
                    lemma_pow2_strictly_increases(r, p);
                }
                assert(false);
            }
            assert forall|q2: nat| 1 <= q2 <= t && q2 != q && covers(q2, p) implies #[trigger] at(
                w1,
                q2,
            ) == at(w2, q2) by {
                lemma_check_pos_covers(q2, p);
            }
            lemma_check_agree(w1, w2, p, t, q);
            lemma_check_pos_covers(q, p);
            assert(!check(w1, p, t) && !check(w2, p, t));
        }
    }
    assert forall|j: nat| j < 64 implies #[trigger] bit(w1, j) == bit(w2, j) by {
        if j < t {
            assert(at(w1, j + 1) == at(w2, j + 1));
        }
    }
    lemma_bits_ext(w1, w2);
}

/// Decoding is a function of the received word: a word has exactly one decoding.
pub proof fn law_decoding_unique(c: u64, n: nat, d1: u64, s1: u32, d2: u64, s2: u32)
    requires
        codec_width(n),
        is_decoding_of(c, n, d1, s1),
        is_decoding_of(c, n, d2, s2),
    ensures
        d1 == d2,
        s1 == s2,
{
    lemma_data_positions(n);
    let t = code_len(n);
    let r = parity_count(n);
    let w = c & low_mask(t);
    assert(is_syndrome_of(w, n, s1));
    assert(is_syndrome_of(w, n, s2));
    assert forall|j: nat| j < r implies #[trigger] bit(s1 as u64, j) == bit(s2 as u64, j) by {
        assert(bit(s1 as u64, j) == check(w, j, code_len(n)));
        assert(bit(s2 as u64, j) == check(w, j, code_len(n)));
    }
    lemma_fits_ext(s1 as u64, s2 as u64, r);
    let fixed = corrected(w, s1, t);
    assert forall|k: nat| k < n implies #[trigger] bit(d1, k) == bit(d2, k) by {
        lemma_data_index_onto(t + 1, k);
        let q = choose|q: nat| 1 <= q < t + 1 && !is_check_pos(q) && #[trigger] data_index(q) == k;
        assert(at(fixed, q) == bit(d1, k));
    }
    lemma_fits_ext(d1, d2, n);
}

// ---------------------------------------------------------------------------------------------
// Laws of the bit codec.

/// Decoding a codeword gives back the data it was made from, with a zero syndrome, and the
/// strict decoder accepts it.
pub proof fn law_decode_inverts_encode(w: u64, d: u64, n: nat)
    requires
        codec_width(n),
        is_codeword_of(w, d, n),
    ensures
        is_decoding_of(w, n, d, 0),
        strictly_decodes(w, n, d),
        forall|d2: u64, s2: u32| #[trigger] is_decoding_of(w, n, d2, s2) ==> d2 == d && s2 == 0,
{
    lemma_data_positions(n);
    lemma_zero_bits();
    let t = code_len(n);
    lemma_bit_mask(w, t);
    assert forall|j: nat| j < 64 implies #[trigger] bit(w & low_mask(t), j) == bit(w, j) by {}
    lemma_bits_ext(w & low_mask(t), w);
    assert(is_syndrome_of(w, n, 0));
    assert(corrected(w, 0, t) == w);
    assert(is_decoding_of(w, n, d, 0));
    assert(strict_accepts(w, n, d, 0));
    assert forall|d2: u64, s2: u32| #[trigger] is_decoding_of(w, n, d2, s2) implies d2 == d && s2
        == 0 by {
        law_decoding_unique(w, n, d2, s2, d, 0);
    }
}

/// A codeword with one flipped bit decodes to the original data; the syndrome names the
/// flipped position, and the strict decoder accepts the correction.
pub proof fn law_single_bit_corrected(w: u64, d: u64, n: nat, i: u64)
    requires
        codec_width(n),
        is_codeword_of(w, d, n),
        i < code_len(n),
    ensures
        is_decoding_of(w ^ (1u64 << i), n, d, (i + 1) as u32),
        strictly_decodes(w ^ (1u64 << i), n, d),
        forall|d2: u64, s2: u32| #[trigger]
            is_decoding_of(w ^ (1u64 << i), n, d2, s2) ==> d2 == d && s2 == i + 1,
{
    lemma_data_positions(n);
    lemma_parity_count_values(n);
    let t = code_len(n);
    let r = parity_count(n);
    let wf = w ^ (1u64 << i);
    lemma_bit_flip(w, i);
    lemma_bit_mask(wf, t);
    assert forall|j: nat| j < 64 implies #[trigger] bit(wf & low_mask(t), j) == bit(wf, j) by {}
    lemma_bits_ext(wf & low_mask(t), wf);
    let s: u32 = (i + 1) as u32;
    assert(s as u64 == i + 1);
    lemma_small_fits(s as u64, r);
    assert forall|p: nat| p < r implies bit(s as u64, p) == #[trigger] check(wf, p, t) by {
        lemma_check_agree(wf, w, p, t, (i + 1) as nat);
    }
    assert(is_syndrome_of(wf, n, s));
    assert((w ^ (1u64 << i)) ^ (1u64 << i) == w) by (bit_vector);
    assert(corrected(wf, s, t) == w);
    assert(is_decoding_of(wf, n, d, s));
    assert(strict_accepts(wf, n, d, s));
    assert forall|d2: u64, s2: u32| #[trigger] is_decoding_of(wf, n, d2, s2) implies d2 == d && s2
        == i + 1 by {
        law_decoding_unique(wf, n, d2, s2, d, s);
    }
}

// ---------------------------------------------------------------------------------------------
// Byte blocks in Hamming(7,4): each byte becomes two codewords, high nibble first.

/// High nibble of a byte.
pub open spec fn hi_nibble(b: u8) -> u64 {
    (b >> 4u8) as u64
}

/// Low nibble of a byte.
pub open spec fn lo_nibble(b: u8) -> u64 {
    (b & 0x0fu8) as u64
}

/// The seven codeword bits of a received byte.
pub open spec fn received_nibble(c: u8) -> u64 {
    (c & 0x7fu8) as u64
}

/// `e` is the Hamming(7,4) encoding of `x`.
pub open spec fn encodes_block(x: Seq<u8>, e: Seq<u8>) -> bool {
    &&& e.len() == 2 * x.len()
    &&& forall|j: int|
        0 <= j < x.len() ==> is_codeword_of(e[2 * j] as u64, hi_nibble(#[trigger] x[j]), 4)
            && is_codeword_of(e[2 * j + 1] as u64, lo_nibble(x[j]), 4)
}

/// `b` is the byte that decoding the pair `(c0, c1)` gives.
pub open spec fn pair_decodes(c0: u8, c1: u8, b: u8) -> bool {
    &&& exists|s: u32| #[trigger] is_decoding_of(received_nibble(c0), 4, hi_nibble(b), s)
    &&& exists|s: u32| #[trigger] is_decoding_of(received_nibble(c1), 4, lo_nibble(b), s)
}

/// `b` is the byte that strictly decoding the pair `(c0, c1)` gives.
pub open spec fn pair_strictly_decodes(c0: u8, c1: u8, b: u8) -> bool {
    strictly_decodes(received_nibble(c0), 4, hi_nibble(b)) && strictly_decodes(
        received_nibble(c1),
        4,
        lo_nibble(b),
    )
}

/// The strict decoder rejects the received byte `c`.
pub open spec fn nibble_rejected(c: u8) -> bool {
    forall|d: u64, s: u32| #[trigger]
        is_decoding_of(received_nibble(c), 4, d, s) ==> !strict_accepts(received_nibble(c), 4, d, s)
}

/// The strict decoder rejects pair `j` of `e`.
pub open spec fn pair_rejected(e: Seq<u8>, j: int) -> bool {
    nibble_rejected(e[2 * j]) || nibble_rejected(e[2 * j + 1])
}

/// Recombines two nibbles into a byte.
fn join_nibbles(hi: u64, lo: u64) -> (b: u8)
    requires
        hi < 16,
        lo < 16,
    ensures
        hi_nibble(b) == hi,
        lo_nibble(b) == lo,
{
    let h = hi as u8;
    let l = lo as u8;
    assert(h < 16 && l < 16 ==> (((h << 4u8) | l) >> 4u8) == h && (((h << 4u8) | l) & 0x0fu8)
        == l) by (bit_vector);
    (h << 4) | l
}

/// Two nibble codewords of a byte, each within seven bits.
fn encode_byte(byte: u8) -> (pair: (u8, u8))
    ensures
        is_codeword_of(pair.0 as u64, hi_nibble(byte), 4),
        is_codeword_of(pair.1 as u64, lo_nibble(byte), 4),
{
    let hi = (byte >> 4) & 0x0f;
    let lo = byte & 0x0f;
    proof {
        assert((byte >> 4u8) & 0x0fu8 == byte >> 4u8) by (bit_vector);
        assert(hi < 16 && lo < 16) by (bit_vector)
            requires
                hi == (byte >> 4u8) & 0x0fu8,
                lo == byte & 0x0fu8,
        ;
        lemma2_to64();
        lemma_small_fits(hi as u64, 4);
        lemma_small_fits(lo as u64, 4);
        lemma_parity_count_values(4);
    }
    let cw_hi = match encode_bits(hi as u64, 4) {
        Ok(w) => w,
        Err(_) => {
            proof {
                assert(false);
            }
            0
        },
    };
    let cw_lo = match encode_bits(lo as u64, 4) {
        Ok(w) => w,
        Err(_) => {
            proof {
                assert(false);
            }
            0
        },
    };
    proof {
        lemma_fits_bound(cw_hi, 7);
        lemma_fits_bound(cw_lo, 7);
    }
    let a = (cw_hi & 0x7f) as u8;
    let b = (cw_lo & 0x7f) as u8;
    assert(cw_hi < 128 ==> ((cw_hi & 0x7fu64) as u8) as u64 == cw_hi) by (bit_vector);
    assert(cw_lo < 128 ==> ((cw_lo & 0x7fu64) as u8) as u64 == cw_lo) by (bit_vector);
    (a, b)
}

/// Encodes a byte slice in Hamming(7,4): two codeword bytes per input byte, high nibble first.
pub fn encode_block(data: &[u8]) -> (res: Result<Vec<u8>, DfimError>)
    requires
        data@.len() * 2 <= usize::MAX,
    ensures
        res is Ok <==> data@.len() > 0,
        res is Err ==> res == Err::<Vec<u8>, DfimError>(DfimError::EmptyInput),
        res matches Ok(e) ==> encodes_block(data@, e@),
{
    if data.len() == 0 {
        return Err(DfimError::EmptyInput);
    }
    let mut out: Vec<u8> = Vec::new();
    let mut observer = PatternObserver::new(data.len() * 2)?;
    let mut i: usize = 0;
    while i < data.len()
        invariant
            i <= data@.len(),
            data@.len() * 2 <= usize::MAX,
            out@.len() == 2 * i,
            observer.wf(),
            observer@.max_iterations == data@.len() * 2,
            observer@.count == i,
            forall|j: int|
                0 <= j < i ==> is_codeword_of(out@[2 * j] as u64, hi_nibble(#[trigger] data@[j]), 4)
                    && is_codeword_of(out@[2 * j + 1] as u64, lo_nibble(data@[j]), 4),
        decreases data@.len() - i,
    {
        observer.tick()?;
        let (a, b) = encode_byte(data[i]);
        out.push(a);
        out.push(b);
        i = i + 1;
    }
    Ok(out)
}

/// Pair `j` of `e` decodes to `b`.
pub open spec fn pair_decodes_at(e: Seq<u8>, j: int, b: u8) -> bool {
    pair_decodes(e[2 * j], e[2 * j + 1], b)
}

/// Pair `j` of `e` strictly decodes to `b`.
pub open spec fn pair_strictly_decodes_at(e: Seq<u8>, j: int, b: u8) -> bool {
    pair_strictly_decodes(e[2 * j], e[2 * j + 1], b)
}

/// An encoded block has a positive, even length.
pub open spec fn block_shape_ok(e: Seq<u8>) -> bool {
    e.len() > 0 && e.len() % 2 == 0
}

/// Decodes one pair of received bytes into a byte.
fn decode_pair(c0: u8, c1: u8) -> (b: u8)
    ensures
        pair_decodes(c0, c1, b),
{
    proof {
        lemma_parity_count_values(4);
        lemma2_to64();
    }
    let (hi, s0) = match decode_bits((c0 & 0x7f) as u64, 4) {
        Ok(x) => x,
        Err(_) => {
            proof {
                assert(false);
            }
            (0, 0)
        },
    };
    let (lo, s1) = match decode_bits((c1 & 0x7f) as u64, 4) {
        Ok(x) => x,
        Err(_) => {
            proof {
                assert(false);
            }
            (0, 0)
        },
    };
    proof {
        lemma_fits_bound(hi, 4);
        lemma_fits_bound(lo, 4);
    }
    let b = join_nibbles(hi, lo);
    assert(is_decoding_of(received_nibble(c0), 4, hi_nibble(b), s0));
    assert(is_decoding_of(received_nibble(c1), 4, lo_nibble(b), s1));
    b
}

/// Strictly decodes one pair of received bytes into a byte.
fn decode_pair_strict(c0: u8, c1: u8) -> (res: Result<u8, DfimError>)
    ensures
        res is Ok <==> !nibble_rejected(c0) && !nibble_rejected(c1),
        res is Err ==> res == Err::<u8, DfimError>(DfimError::CorruptMetadata),
        res matches Ok(b) ==> pair_strictly_decodes(c0, c1, b),
{
    proof {
        lemma_parity_count_values(4);
        lemma2_to64();
    }
    let hi = decode_bits_strict((c0 & 0x7f) as u64, 4)?;
    let lo = decode_bits_strict((c1 & 0x7f) as u64, 4)?;
    proof {
        let s0 = choose|s: u32|
            #[trigger] is_decoding_of(received_nibble(c0), 4, hi, s) && strict_accepts(
                received_nibble(c0),
                4,
                hi,
                s,
            );
        let s1 = choose|s: u32|
            #[trigger] is_decoding_of(received_nibble(c1), 4, lo, s) && strict_accepts(
                received_nibble(c1),
                4,
                lo,
                s,
            );
        assert(is_decoding_of(received_nibble(c0), 4, hi, s0));
        assert(is_decoding_of(received_nibble(c1), 4, lo, s1));
        lemma_fits_bound(hi, 4);
        lemma_fits_bound(lo, 4);
    }
    let b = join_nibbles(hi, lo);
    Ok(b)
}

/// `res`, `out` and `written` are what decoding `encoded` into the buffer `old_out` gives: a
/// block of bad shape or a buffer too short leaves the buffer alone; otherwise every pair is
/// decoded, one flipped bit per codeword corrected.
pub open spec fn decoded_into(
    encoded: Seq<u8>,
    old_out: Seq<u8>,
    old_written: usize,
    out: Seq<u8>,
    written: usize,
    res: Result<(), DfimError>,
) -> bool {
    &&& out.len() == old_out.len()
    &&& !block_shape_ok(encoded) ==> res == Err::<(), DfimError>(DfimError::InvalidParameter) && out
        == old_out && written == old_written
    &&& block_shape_ok(encoded) && old_out.len() < encoded.len() / 2 ==> res == Err::<(), DfimError>(
        DfimError::BufferTooShort,
    ) && out == old_out && written == old_written
    &&& block_shape_ok(encoded) && old_out.len() >= encoded.len() / 2 ==> res is Ok && written
        == encoded.len() / 2 && (forall|j: int|
        0 <= j < encoded.len() / 2 ==> #[trigger] pair_decodes_at(encoded, j, out[j])) && (forall|j: int|
        encoded.len() / 2 <= j < old_out.len() ==> #[trigger] out[j] == old_out[j])
}

/// `res`, `out` and `written` are what strictly decoding `encoded` into the buffer `old_out`
/// gives: as `decoded_into`, except that decoding stops at the first pair the strict decoder
/// rejects, with `CorruptMetadata`.
pub open spec fn strictly_decoded_into(
    encoded: Seq<u8>,
    old_out: Seq<u8>,
    old_written: usize,
    out: Seq<u8>,
    written: usize,
    res: Result<(), DfimError>,
) -> bool {
    &&& out.len() == old_out.len()
    &&& !block_shape_ok(encoded) ==> res == Err::<(), DfimError>(DfimError::InvalidParameter) && out
        == old_out && written == old_written
    &&& block_shape_ok(encoded) && old_out.len() < encoded.len() / 2 ==> res == Err::<(), DfimError>(
        DfimError::BufferTooShort,
    ) && out == old_out && written == old_written
    &&& block_shape_ok(encoded) && old_out.len() >= encoded.len() / 2 ==> {
        &&& (res is Ok <==> forall|j: int| 0 <= j < encoded.len() / 2 ==> !#[trigger] pair_rejected(encoded, j))
        &&& res is Ok ==> written == encoded.len() / 2
        &&& res is Err ==> res == Err::<(), DfimError>(DfimError::CorruptMetadata) && written < encoded.len()
            / 2 && pair_rejected(encoded, written as int)
        &&& forall|j: int|
            0 <= j < written ==> #[trigger] pair_strictly_decodes_at(encoded, j, out[j]) && !pair_rejected(
                encoded,
                j,
            )
        &&& forall|j: int| written <= j < old_out.len() ==> #[trigger] out[j] == old_out[j]
    }
}

/// Decodes Hamming(7,4) pairs into a caller buffer, correcting one flipped bit per codeword.
pub fn decode_block_into(encoded: &[u8], out: &mut [u8], written: &mut usize) -> (res: Result<
    (),
    DfimError,
>)
    ensures
        decoded_into(encoded@, old(out)@, *old(written), final(out)@, *final(written), res),
{
    if encoded.len() == 0 || encoded.len() % 2 != 0 {
        return Err(DfimError::InvalidParameter);
    }
    let pairs = encoded.len() / 2;
    let _n = encoded.len();
    if out.len() < pairs {
        return Err(DfimError::BufferTooShort);
    }
    let mut observer = PatternObserver::new(pairs)?;
    *written = 0;
    let mut i: usize = 0;
    while i < pairs
        invariant
            i <= pairs,
            block_shape_ok(encoded@),
            pairs == encoded@.len() / 2,
            encoded@.len() <= usize::MAX,
            pairs <= out@.len(),
            out@.len() == old(out)@.len(),
            *written == i,
            observer.wf(),
            observer@.max_iterations == pairs,
            observer@.count == i,
            forall|j: int| 0 <= j < i ==> #[trigger] pair_decodes_at(encoded@, j, out@[j]),
            forall|j: int| i <= j < out@.len() ==> #[trigger] out@[j] == old(out)@[j],
        decreases pairs - i,
    {
        observer.tick()?;
        let b = decode_pair(encoded[2 * i], encoded[2 * i + 1]);
        out[*written] = b;
        *written = *written + 1;
        i = i + 1;
    }
    Ok(())
}

/// Strictly decodes Hamming(7,4) pairs into a caller buffer; stops at the first pair that
/// does not decode to an accepted codeword, leaving `written` at that pair.
pub fn decode_block_into_strict(encoded: &[u8], out: &mut [u8], written: &mut usize) -> (res:
    Result<(), DfimError>)
    ensures
        strictly_decoded_into(encoded@, old(out)@, *old(written), final(out)@, *final(written), res),
{
    if encoded.len() == 0 || encoded.len() % 2 != 0 {
        return Err(DfimError::InvalidParameter);
    }
    let pairs = encoded.len() / 2;
    let _n = encoded.len();
    if out.len() < pairs {
        return Err(DfimError::BufferTooShort);
    }
    let mut observer = PatternObserver::new(pairs)?;
    *written = 0;
    let mut i: usize = 0;
    while i < pairs
        invariant
            i <= pairs,
            block_shape_ok(encoded@),
            pairs == encoded@.len() / 2,
            encoded@.len() <= usize::MAX,
            pairs <= out@.len(),
            out@.len() == old(out)@.len(),
            *written == i,
            observer.wf(),
            observer@.max_iterations == pairs,
            observer@.count == i,
            forall|j: int| 0 <= j < i ==> #[trigger] pair_strictly_decodes_at(encoded@, j, out@[j]),
            forall|j: int| 0 <= j < i ==> !#[trigger] pair_rejected(encoded@, j),
            forall|j: int| i <= j < out@.len() ==> #[trigger] out@[j] == old(out)@[j],
        decreases pairs - i,
    {
        observer.tick()?;
        let b = match decode_pair_strict(encoded[2 * i], encoded[2 * i + 1]) {
            Ok(b) => b,
            Err(e) => {
                assert(pair_rejected(encoded@, i as int));
                return Err(e);
            },
        };
        out[*written] = b;
        *written = *written + 1;
        i = i + 1;
    }
    Ok(())
}

/// Strictly decodes a Hamming(7,4) block into a new vector.
pub fn decode_block(encoded: &[u8]) -> (res: Result<Vec<u8>, DfimError>)
    ensures
        !block_shape_ok(encoded@) ==> res == Err::<Vec<u8>, DfimError>(
            DfimError::InvalidParameter,
        ),
        block_shape_ok(encoded@) ==> (res is Ok <==> forall|j: int|
            0 <= j < encoded@.len() / 2 ==> !#[trigger] pair_rejected(encoded@, j)),
        block_shape_ok(encoded@) && res is Err ==> res == Err::<Vec<u8>, DfimError>(
            DfimError::CorruptMetadata,
        ),
        res matches Ok(v) ==> v@.len() == encoded@.len() / 2 && forall|j: int|
            0 <= j < v@.len() ==> #[trigger] pair_strictly_decodes_at(encoded@, j, v@[j]),
{
    if encoded.len() == 0 || encoded.len() % 2 != 0 {
        return Err(DfimError::InvalidParameter);
    }
    let mut out: Vec<u8> = Vec::new();
    let pairs = encoded.len() / 2;
    let _n = encoded.len();
    let mut observer = PatternObserver::new(pairs)?;
    let mut i: usize = 0;
    while i < pairs
        invariant
            i <= pairs,
            block_shape_ok(encoded@),
            pairs == encoded@.len() / 2,
            encoded@.len() <= usize::MAX,
            out@.len() == i,
            observer.wf(),
            observer@.max_iterations == pairs,
            observer@.count == i,
            forall|j: int| 0 <= j < i ==> #[trigger] pair_strictly_decodes_at(encoded@, j, out@[j]),
            forall|j: int| 0 <= j < i ==> !#[trigger] pair_rejected(encoded@, j),
        decreases pairs - i,
    {
        observer.tick()?;
        let b = match decode_pair_strict(encoded[2 * i], encoded[2 * i + 1]) {
            Ok(b) => b,
            Err(e) => {
                assert(pair_rejected(encoded@, i as int));
                return Err(e);
            },
        };
        out.push(b);
        i = i + 1;
    }
    Ok(out)
}

proof fn lemma_pair_round_trip(x: Seq<u8>, e: Seq<u8>, j: int)
    requires
        encodes_block(x, e),
        0 <= j < x.len(),
    ensures
        !pair_rejected(e, j),
        forall|b: u8| #[trigger] pair_strictly_decodes_at(e, j, b) ==> b == x[j],
        forall|b: u8| #[trigger] pair_decodes_at(e, j, b) ==> b == x[j],
{
    lemma_parity_count_values(4);
    lemma2_to64();
    let xj = x[j];
    let c0 = e[2 * j];
    let c1 = e[2 * j + 1];
    assert(is_codeword_of(c0 as u64, hi_nibble(xj), 4));
    assert(is_codeword_of(c1 as u64, lo_nibble(xj), 4));
    lemma_fits_bound(c0 as u64, 7);
    lemma_fits_bound(c1 as u64, 7);
    assert(c0 < 128 ==> (c0 & 0x7fu8) == c0) by (bit_vector);
    assert(c1 < 128 ==> (c1 & 0x7fu8) == c1) by (bit_vector);
    assert(received_nibble(c0) == c0 as u64);
    assert(received_nibble(c1) == c1 as u64);
    law_decode_inverts_encode(c0 as u64, hi_nibble(xj), 4);
    law_decode_inverts_encode(c1 as u64, lo_nibble(xj), 4);
    assert(strict_accepts(c0 as u64, 4, hi_nibble(xj), 0));
    assert(strict_accepts(c1 as u64, 4, lo_nibble(xj), 0));
    assert(!nibble_rejected(c0));
    assert(!nibble_rejected(c1));
    assert forall|b: u8| #[trigger] pair_decodes_at(e, j, b) implies b == xj by {
        let s0 = choose|s: u32| #[trigger] is_decoding_of(received_nibble(c0), 4, hi_nibble(b), s);
        let s1 = choose|s: u32| #[trigger] is_decoding_of(received_nibble(c1), 4, lo_nibble(b), s);
        assert(is_decoding_of(c0 as u64, 4, hi_nibble(b), s0));
        assert(is_decoding_of(c1 as u64, 4, lo_nibble(b), s1));
        assert((b >> 4u8) == (xj >> 4u8) && (b & 0x0fu8) == (xj & 0x0fu8) ==> b == xj)
            by (bit_vector);
    }
    assert forall|b: u8| #[trigger] pair_strictly_decodes_at(e, j, b) implies b == xj by {
        let s0 = choose|s: u32|
            #[trigger] is_decoding_of(received_nibble(c0), 4, hi_nibble(b), s) && strict_accepts(
                received_nibble(c0),
                4,
                hi_nibble(b),
                s,
            );
        let s1 = choose|s: u32|
            #[trigger] is_decoding_of(received_nibble(c1), 4, lo_nibble(b), s) && strict_accepts(
                received_nibble(c1),
                4,
                lo_nibble(b),
                s,
            );
        assert(is_decoding_of(c0 as u64, 4, hi_nibble(b), s0));
        assert(is_decoding_of(c1 as u64, 4, lo_nibble(b), s1));
        assert((b >> 4u8) == (xj >> 4u8) && (b & 0x0fu8) == (xj & 0x0fu8) ==> b == xj)
            by (bit_vector);
    }
}

/// Strictly decoding the Hamming(7,4) encoding of a block accepts every pair and gives the
/// block back; so does lenient decoding.
pub proof fn law_block_round_trip(x: Seq<u8>, e: Seq<u8>)
    requires
        encodes_block(x, e),
    ensures
        forall|j: int| 0 <= j < x.len() ==> !#[trigger] pair_rejected(e, j),
        forall|j: int, b: u8|
            0 <= j < x.len() && #[trigger] pair_strictly_decodes_at(e, j, b) ==> b == x[j],
        forall|j: int, b: u8| 0 <= j < x.len() && #[trigger] pair_decodes_at(e, j, b) ==> b == x[j],
{
    assert forall|j: int| 0 <= j < x.len() implies !#[trigger] pair_rejected(e, j) by {
        lemma_pair_round_trip(x, e, j);
    }
    assert forall|j: int, b: u8|
        0 <= j < x.len() && #[trigger] pair_strictly_decodes_at(e, j, b) implies b == x[j] by {
        lemma_pair_round_trip(x, e, j);
    }
    assert forall|j: int, b: u8|
        0 <= j < x.len() && #[trigger] pair_decodes_at(e, j, b) implies b == x[j] by {
        lemma_pair_round_trip(x, e, j);
    }
}


/// The received byte `r` carries the seven codeword bits of `c` with at most one of them
/// flipped; its top bit is free.
pub open spec fn within_one_flip(c: u8, r: u8) -> bool {
    ||| received_nibble(r) == received_nibble(c)
    ||| exists|i: u64| i < 7 && received_nibble(r) == #[trigger] (received_nibble(c) ^ (1u64 << i))
}

/// A nibble codeword received with at most one flipped bit is accepted by the strict decoder
/// and decodes to its data, and only to it.
proof fn lemma_nibble_within_one_flip(c: u8, r: u8, d: u64)
    requires
        is_codeword_of(c as u64, d, 4),
        within_one_flip(c, r),
    ensures
        !nibble_rejected(r),
        strictly_decodes(received_nibble(r), 4, d),
        forall|d2: u64, s2: u32| #[trigger] is_decoding_of(received_nibble(r), 4, d2, s2) ==> d2 == d,
{
    lemma_parity_count_values(4);
    lemma2_to64();
    lemma_fits_bound(c as u64, 7);
    assert(c < 128 ==> (c & 0x7fu8) == c) by (bit_vector);
    assert(received_nibble(c) == c as u64);
    let rn = received_nibble(r);
    if rn == received_nibble(c) {
        law_decode_inverts_encode(c as u64, d, 4);
    } else {
        let i = choose|i: u64| i < 7 && rn == #[trigger] (received_nibble(c) ^ (1u64 << i));
        law_single_bit_corrected(c as u64, d, 4, i);
    }
    let s = choose|s: u32| #[trigger] is_decoding_of(rn, 4, d, s) && strict_accepts(rn, 4, d, s);
    assert(is_decoding_of(rn, 4, d, s) && strict_accepts(rn, 4, d, s));
}

/// Pair `j` of a block received with at most one flipped bit per codeword byte is accepted
/// and decodes to byte `j` of the original.
proof fn lemma_noisy_pair(x: Seq<u8>, e: Seq<u8>, rx: Seq<u8>, j: int)
    requires
        encodes_block(x, e),
        rx.len() == e.len(),
        forall|k: int| 0 <= k < e.len() ==> #[trigger] within_one_flip(e[k], rx[k]),
        0 <= j < x.len(),
    ensures
        !pair_rejected(rx, j),
        forall|b: u8| #[trigger] pair_strictly_decodes_at(rx, j, b) ==> b == x[j],
        forall|b: u8| #[trigger] pair_decodes_at(rx, j, b) ==> b == x[j],
{
    let xj = x[j];
    assert(within_one_flip(e[2 * j], rx[2 * j]));
    assert(within_one_flip(e[2 * j + 1], rx[2 * j + 1]));
    lemma_nibble_within_one_flip(e[2 * j], rx[2 * j], hi_nibble(xj));
    lemma_nibble_within_one_flip(e[2 * j + 1], rx[2 * j + 1], lo_nibble(xj));
    let c0 = received_nibble(rx[2 * j]);
    let c1 = received_nibble(rx[2 * j + 1]);
    assert forall|b: u8| #[trigger] pair_decodes_at(rx, j, b) implies b == xj by {
        let s0 = choose|s: u32| #[trigger] is_decoding_of(c0, 4, hi_nibble(b), s);
        let s1 = choose|s: u32| #[trigger] is_decoding_of(c1, 4, lo_nibble(b), s);
        assert(is_decoding_of(c0, 4, hi_nibble(b), s0));
        assert(is_decoding_of(c1, 4, lo_nibble(b), s1));
        assert((b >> 4u8) == (xj >> 4u8) && (b & 0x0fu8) == (xj & 0x0fu8) ==> b == xj) by (bit_vector);
    }
    assert forall|b: u8| #[trigger] pair_strictly_decodes_at(rx, j, b) implies b == xj by {
        let s0 = choose|s: u32| #[trigger] is_decoding_of(c0, 4, hi_nibble(b), s) && strict_accepts(c0, 4, hi_nibble(b), s);
        let s1 = choose|s: u32| #[trigger] is_decoding_of(c1, 4, lo_nibble(b), s) && strict_accepts(c1, 4, lo_nibble(b), s);
        assert(is_decoding_of(c0, 4, hi_nibble(b), s0));
        assert(is_decoding_of(c1, 4, lo_nibble(b), s1));
        assert((b >> 4u8) == (xj >> 4u8) && (b & 0x0fu8) == (xj & 0x0fu8) ==> b == xj) by (bit_vector);
    }
}

/// A Hamming(7,4)-encoded block received with at most one flipped bit in every codeword byte
/// (the top bit of each byte free) is accepted by the strict decoder and decodes, strictly or
/// not, back to the original bytes.
pub proof fn law_noisy_block_round_trip(x: Seq<u8>, e: Seq<u8>, rx: Seq<u8>)
    requires
        encodes_block(x, e),
        rx.len() == e.len(),
        forall|k: int| 0 <= k < e.len() ==> #[trigger] within_one_flip(e[k], rx[k]),
    ensures
        forall|j: int| 0 <= j < x.len() ==> !#[trigger] pair_rejected(rx, j),
        forall|j: int, b: u8|
            0 <= j < x.len() && #[trigger] pair_strictly_decodes_at(rx, j, b) ==> b == x[j],
        forall|j: int, b: u8| 0 <= j < x.len() && #[trigger] pair_decodes_at(rx, j, b) ==> b == x[j],
{
    assert forall|j: int| 0 <= j < x.len() implies !#[trigger] pair_rejected(rx, j) by {
        lemma_noisy_pair(x, e, rx, j);
    }
    assert forall|j: int, b: u8|
        0 <= j < x.len() && #[trigger] pair_strictly_decodes_at(rx, j, b) implies b == x[j] by {
        lemma_noisy_pair(x, e, rx, j);
    }
    assert forall|j: int, b: u8| 0 <= j < x.len() && #[trigger] pair_decodes_at(rx, j, b) implies b == x[j] by {
        lemma_noisy_pair(x, e, rx, j);
    }
}

/// Every seven-bit word lies within one bit of a Hamming(7,4) codeword: its syndrome names
/// the bit to flip, and the flipped word is the codeword of the data read from it. So every
/// received byte has a decoding that the strict decoder accepts.
proof fn lemma_nibble_perfect(c: u8)
    ensures
        exists|d: u64, s: u32|
            #[trigger] is_decoding_of(received_nibble(c), 4, d, s) && strict_accepts(received_nibble(c), 4, d, s),
{
    lemma_parity_count_values(4);
    lemma2_to64();
    let w = received_nibble(c);
    assert(w < 128) by (bit_vector)
        requires
            w == (c & 0x7fu8) as u64,
    ;
    assert(code_len(4) == 7);
    assert(w < 128 ==> w & !(0xffff_ffff_ffff_ffffu64 << 7u64) == w) by (bit_vector);
    assert(w & low_mask(7) == w);
    let b0 = check(w, 0, 7);
    let b1 = check(w, 1, 7);
    let b2 = check(w, 2, 7);
    let x0: u64 = if b0 { 1 } else { 0 };
    let x1: u64 = if b1 { 1 } else { 0 };
    let x2: u64 = if b2 { 1 } else { 0 };
    let s64: u64 = (x0 + 2 * x1 + 4 * x2) as u64;
    let s: u32 = s64 as u32;
    assert(s as u64 == s64);
    assert(x0 <= 1 && x1 <= 1 && x2 <= 1 && s64 == x0 + 2 * x1 + 4 * x2 ==> s64 < 8 && ((s64 >> 0u64) & 1u64
        == 1u64) == (x0 == 1) && ((s64 >> 1u64) & 1u64 == 1u64) == (x1 == 1) && ((s64 >> 2u64) & 1u64 == 1u64)
        == (x2 == 1)) by (bit_vector);
    assert(bit(s as u64, 0) == b0);
    assert(bit(s as u64, 1) == b1);
    assert(bit(s as u64, 2) == b2);
    lemma_small_fits(s as u64, 3);
    assert forall|p: nat| p < parity_count(4) implies bit(s as u64, p) == #[trigger] check(w, p, code_len(4)) by {
        if p == 0 {
        } else if p == 1 {
        } else {
        }
    }
    assert(is_syndrome_of(w, 4, s));
    let wc = corrected(w, s, 7);
    if s > 0 {
        let i = (s - 1) as u64;
        lemma_bit_flip(w, i);
    }
    assert forall|p: nat| p < 3 implies !#[trigger] check(wc, p, 7) by {
        if s > 0 {
            assert forall|q: nat| 1 <= q <= 7 && q != s as nat && covers(q, p) implies #[trigger] at(wc, q)
                == at(w, q) by {}
            lemma_check_agree(wc, w, p, 7, s as nat);
            assert(covers(s as nat, p) == bit(s as u64, p)) by {
                assert((s as nat) as u64 == s as u64);
            }
        }
    }
    assert(wc < 128) by (bit_vector)
        requires
            w < 128,
            s < 8,
            wc == if 0 < s && s <= 7 { w ^ (1u64 << ((s - 1) as u64)) } else { w },
    ;
    lemma_small_fits(wc, 7);
    let y0: u64 = if at(wc, 3) { 1 } else { 0 };
    let y1: u64 = if at(wc, 5) { 1 } else { 0 };
    let y2: u64 = if at(wc, 6) { 1 } else { 0 };
    let y3: u64 = if at(wc, 7) { 1 } else { 0 };
    let d: u64 = (y0 + 2 * y1 + 4 * y2 + 8 * y3) as u64;
    assert(y0 <= 1 && y1 <= 1 && y2 <= 1 && y3 <= 1 && d == y0 + 2 * y1 + 4 * y2 + 8 * y3 ==> d < 16 && ((d
        >> 0u64) & 1u64 == 1u64) == (y0 == 1) && ((d >> 1u64) & 1u64 == 1u64) == (y1 == 1) && ((d >> 2u64)
        & 1u64 == 1u64) == (y2 == 1) && ((d >> 3u64) & 1u64 == 1u64) == (y3 == 1)) by (bit_vector);
    lemma_small_fits(d, 4);
    reveal_with_fuel(data_index, 8);
    assert(data_index(3) == 0 && data_index(5) == 1 && data_index(6) == 2 && data_index(7) == 3);
    assert forall|q: nat| 1 <= q <= code_len(4) && !is_check_pos(q) implies #[trigger] at(wc, q) == bit(
        d,
        data_index(q),
    ) by {
        assert(q == 3 || q == 5 || q == 6 || q == 7);
    }
    assert(is_codeword_of(wc, d, 4));
    assert(carries_data(wc, 4, d));
    assert(is_decoding_of(w, 4, d, s));
    assert(strict_accepts(w, 4, d, s));
}

/// The strict Hamming(7,4) block decoder never rejects a pair of bytes, and on every pair it
/// agrees with the lenient decoder: the two decode every block to the same bytes.
pub proof fn law_strict_and_lenient_decoding_agree(e: Seq<u8>)
    ensures
        forall|j: int| 0 <= j < e.len() / 2 ==> !#[trigger] pair_rejected(e, j),
        forall|j: int, b: u8|
            0 <= j < e.len() / 2 ==> (#[trigger] pair_strictly_decodes_at(e, j, b) <==> pair_decodes_at(e, j, b)),
{
    lemma_parity_count_values(4);
    assert forall|j: int| 0 <= j < e.len() / 2 implies !#[trigger] pair_rejected(e, j) by {
        lemma_nibble_never_rejected(e[2 * j]);
        lemma_nibble_never_rejected(e[2 * j + 1]);
    }
    assert forall|j: int, b: u8| 0 <= j < e.len() / 2 implies (#[trigger] pair_strictly_decodes_at(e, j, b)
        <==> pair_decodes_at(e, j, b)) by {
        let c0 = received_nibble(e[2 * j]);
        let c1 = received_nibble(e[2 * j + 1]);
        lemma_nibble_never_rejected(e[2 * j]);
        lemma_nibble_never_rejected(e[2 * j + 1]);
        if pair_decodes_at(e, j, b) {
            let s0 = choose|s: u32| #[trigger] is_decoding_of(c0, 4, hi_nibble(b), s);
            let s1 = choose|s: u32| #[trigger] is_decoding_of(c1, 4, lo_nibble(b), s);
            assert(is_decoding_of(c0, 4, hi_nibble(b), s0));
            assert(is_decoding_of(c1, 4, lo_nibble(b), s1));
        }
        if pair_strictly_decodes_at(e, j, b) {
            let s0 = choose|s: u32| #[trigger] is_decoding_of(c0, 4, hi_nibble(b), s) && strict_accepts(c0, 4, hi_nibble(b), s);
            let s1 = choose|s: u32| #[trigger] is_decoding_of(c1, 4, lo_nibble(b), s) && strict_accepts(c1, 4, lo_nibble(b), s);
            assert(is_decoding_of(c0, 4, hi_nibble(b), s0));
            assert(is_decoding_of(c1, 4, lo_nibble(b), s1));
        }
    }
}

/// No received byte is rejected, and every decoding of its low seven bits is a strict one.
proof fn lemma_nibble_never_rejected(c: u8)
    ensures
        !nibble_rejected(c),
        forall|d2: u64, s2: u32| #[trigger] is_decoding_of(received_nibble(c), 4, d2, s2) ==> strictly_decodes(
            received_nibble(c),
            4,
            d2,
        ),
{
    lemma_parity_count_values(4);
    lemma_nibble_perfect(c);
    let rn = received_nibble(c);
    let (d, s) = choose|d: u64, s: u32| #[trigger] is_decoding_of(rn, 4, d, s) && strict_accepts(rn, 4, d, s);
    assert forall|d2: u64, s2: u32| #[trigger] is_decoding_of(rn, 4, d2, s2) implies strictly_decodes(rn, 4, d2) by {
        law_decoding_unique(rn, 4, d, s, d2, s2);
    }
}


/// A pair of received bytes decodes to at most one byte.
proof fn lemma_pair_decoding_unique(e: Seq<u8>, j: int, b1: u8, b2: u8)
    requires
        pair_decodes_at(e, j, b1),
        pair_decodes_at(e, j, b2),
    ensures
        b1 == b2,
{
    lemma_parity_count_values(4);
    let c0 = received_nibble(e[2 * j]);
    let c1 = received_nibble(e[2 * j + 1]);
    let s1 = choose|s: u32| #[trigger] is_decoding_of(c0, 4, hi_nibble(b1), s);
    let s2 = choose|s: u32| #[trigger] is_decoding_of(c0, 4, hi_nibble(b2), s);
    law_decoding_unique(c0, 4, hi_nibble(b1), s1, hi_nibble(b2), s2);
    let t1 = choose|s: u32| #[trigger] is_decoding_of(c1, 4, lo_nibble(b1), s);
    let t2 = choose|s: u32| #[trigger] is_decoding_of(c1, 4, lo_nibble(b2), s);
    law_decoding_unique(c1, 4, lo_nibble(b1), t1, lo_nibble(b2), t2);
    assert((b1 >> 4u8) == (b2 >> 4u8) && (b1 & 0x0fu8) == (b2 & 0x0fu8) ==> b1 == b2) by (bit_vector);
}

/// Decoding a block into a buffer strictly or leniently, from the same buffer, gives the same
/// result, the same bytes and the same count: the strict decoder never stops early.
pub proof fn law_block_decoders_agree(
    encoded: Seq<u8>,
    old_out: Seq<u8>,
    old_written: usize,
    out1: Seq<u8>,
    written1: usize,
    res1: Result<(), DfimError>,
    out2: Seq<u8>,
    written2: usize,
    res2: Result<(), DfimError>,
)
    requires
        decoded_into(encoded, old_out, old_written, out1, written1, res1),
        strictly_decoded_into(encoded, old_out, old_written, out2, written2, res2),
    ensures
        res1 == res2,
        written1 == written2,
        out1 == out2,
{
    if block_shape_ok(encoded) && old_out.len() >= encoded.len() / 2 {
        law_strict_and_lenient_decoding_agree(encoded);
        assert(forall|j: int| 0 <= j < encoded.len() / 2 ==> !#[trigger] pair_rejected(encoded, j));
        assert(res2 is Ok);
        assert(res1 is Ok);
        let u1 = res1->Ok_0;
        let u2 = res2->Ok_0;
        assert(u1 == u2);
        assert forall|j: int| 0 <= j < out1.len() implies out1[j] == out2[j] by {
            if j < encoded.len() / 2 {
                assert(pair_strictly_decodes_at(encoded, j, out2[j]));
                assert(pair_decodes_at(encoded, j, out1[j]));
                lemma_pair_decoding_unique(encoded, j, out1[j], out2[j]);
            }
        }
        assert(out1 =~= out2);
    }
}

} // verus!
