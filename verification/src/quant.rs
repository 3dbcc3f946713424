//! The integer core of the Q4_K × Q8_K dot product.
//!
//! A Q4_K super-block is 144 bytes: `d` (f16, bytes 0..2), `dmin` (f16, bytes
//! 2..4), twelve bytes that pack eight 6-bit scales and eight 6-bit mins
//! (bytes 4..16), and 128 bytes holding 256 4-bit weights (bytes 16..144).
//! It is multiplied against 256 int8 activations whose 32-element partial sums
//! are supplied alongside.
//!
//! For every super-block the kernels accumulate two integers per row,
//! `isum = Σ scale·(nibbles·activations)` and `imin = Σ min·partial_sum`, and
//! only then combine them with the floating-point scales. This module computes
//! those two integers exactly; the floating-point tail stays with the caller.
use vstd::prelude::*;
use crate::fixture::{interleaved_rows4, law_interleave_places_blocks};

verus! {

/// Weights per K-quant super-block.
pub const QK_K: usize = 256;

/// Activations per Q8_K partial sum.
pub const QK: usize = 32;

/// Bytes per Q4_K super-block.
pub const Q4_K_BLOCK_BYTES: usize = 144;

/// Bytes per Q6_K super-block.
pub const Q6_K_BLOCK_BYTES: usize = 210;

/// The 6-bit scale of sub-block `j` (0..8) packed in the twelve scale bytes `s`.
///
/// Sub-blocks 0..4 keep their scale in the low six bits of `s[j]`; sub-blocks
/// 4..8 keep its low nibble in `s[j + 4]` and its top two bits in the top two
/// bits of `s[j - 4]`.
pub open spec fn packed_scale(j: int, s: Seq<u8>) -> int {
    if j < 4 {
        (s[j] % 64) as int
    } else {
        (s[j + 4] % 16) + 16 * (s[j - 4] / 64)
    }
}

/// The 6-bit min of sub-block `j` (0..8) packed in the twelve scale bytes `s`.
pub open spec fn packed_min(j: int, s: Seq<u8>) -> int {
    if j < 4 {
        (s[j + 4] % 64) as int
    } else {
        (s[j + 4] / 16) + 16 * (s[j] / 64)
    }
}

/// Unpack the 6-bit `(scale, min)` pair of sub-block `j`.
pub fn get_scale_min_k4(j: usize, scales: &[u8]) -> (r: (u8, u8))
    requires
        j + 4 < scales.len(),
    ensures
        r.0 == packed_scale(j as int, scales@),
        r.1 == packed_min(j as int, scales@),
        r.0 < 64,
        r.1 < 64,
        j < 4 ==> r.0 == scales@[j as int] & 63 && r.1 == scales@[j + 4] & 63,
        j >= 4 ==> r.0 == (scales@[j + 4] & 0x0F) | ((scales@[j - 4] >> 6u8) << 4u8) && r.1 == (
        scales@[j + 4] >> 4u8) | ((scales@[j as int] >> 6u8) << 4u8),
{
    if j < 4 {
        let a = scales[j];
        let b = scales[j + 4];
        assert(a & 63 == a % 64) by (bit_vector);
        assert(b & 63 == b % 64) by (bit_vector);
        (a & 63, b & 63)
    } else {
        let a = scales[j + 4];
        let lo = scales[j - 4];
        let hi = scales[j];
        assert((a & 0x0F) | ((lo >> 6) << 4) == a % 16 + 16 * (lo / 64)) by (bit_vector);
        assert((a >> 4) | ((hi >> 6) << 4) == a / 16 + 16 * (hi / 64)) by (bit_vector);
        ((a & 0x0F) | ((lo >> 6) << 4), (a >> 4) | ((hi >> 6) << 4))
    }
}

/// The low (`high == false`) or high nibble of a byte.
pub open spec fn nibble(b: u8, high: bool) -> int {
    if high {
        (b / 16) as int
    } else {
        (b % 16) as int
    }
}

/// What the twelve scale bytes hold, bit by bit: for sub-blocks 0..4 the
/// scale is the low six bits of byte `j` and the min the low six bits of byte
/// `j + 4`; for sub-blocks 4..8 the low nibble of byte `j + 4` gives the
/// scale's low four bits and its high nibble the min's, while the top two bits
/// of bytes `j - 4` and `j` give the scale's and the min's top two bits. Every
/// value is below 64.
pub proof fn law_scale_min_bits(j: int, s: Seq<u8>)
    requires
        0 <= j,
        j + 4 < s.len(),
    ensures
        0 <= packed_scale(j, s) < 64,
        0 <= packed_min(j, s) < 64,
        j < 4 ==> (s[j] as int - packed_scale(j, s)) % 64 == 0,
        j < 4 ==> (s[j + 4] as int - packed_min(j, s)) % 64 == 0,
        j >= 4 ==> packed_scale(j, s) % 16 == s[j + 4] as int % 16,
        j >= 4 ==> packed_scale(j, s) / 16 == s[j - 4] as int / 64,
        j >= 4 ==> packed_min(j, s) % 16 == s[j + 4] as int / 16,
        j >= 4 ==> packed_min(j, s) / 16 == s[j] as int / 64,
{
}

/// A byte is its low nibble plus sixteen times its high nibble, each below 16.
pub proof fn law_nibbles_split_the_byte(b: u8)
    ensures
        0 <= nibble(b, false) < 16,
        0 <= nibble(b, true) < 16,
        nibble(b, false) + 16 * nibble(b, true) == b,
{
}

/// `Σ_{l < n} nibble(q[qo + l]) · x[xo + l]`.
pub open spec fn nibble_dot(q: Seq<u8>, qo: int, x: Seq<i8>, xo: int, high: bool, n: nat) -> int
    decreases n,
{
    if n == 0 {
        0
    } else {
        nibble_dot(q, qo, x, xo, high, (n - 1) as nat) + nibble(q[qo + n - 1], high) * x[xo + n
            - 1]
    }
}

/// The twelve packed scale bytes of a super-block.
pub open spec fn block_scales(block: Seq<u8>) -> Seq<u8> {
    block.subrange(4, 16)
}

/// Chunk `c` (0..4) of a super-block covers 64 weights: the low nibbles of
/// `qs[32c..32c+32]` against activations `64c..64c+32` (sub-block `2c`) and the
/// high nibbles of the same bytes against activations `64c+32..64c+64`
/// (sub-block `2c+1`).
pub open spec fn chunk_isum(block: Seq<u8>, x: Seq<i8>, c: int) -> int {
    let s = block_scales(block);
    packed_scale(2 * c, s) * nibble_dot(block, 16 + 32 * c, x, 64 * c, false, 32) + packed_scale(
        2 * c + 1,
        s,
    ) * nibble_dot(block, 16 + 32 * c, x, 64 * c + 32, true, 32)
}

/// The min-correction of chunk `c`: each sub-block's min times its partial sum.
pub open spec fn chunk_imin(block: Seq<u8>, sums: Seq<i32>, c: int) -> int {
    let s = block_scales(block);
    packed_min(2 * c, s) * sums[2 * c] + packed_min(2 * c + 1, s) * sums[2 * c + 1]
}

pub open spec fn isum_upto(block: Seq<u8>, x: Seq<i8>, n: nat) -> int
    decreases n,
{
    if n == 0 {
        0
    } else {
        isum_upto(block, x, (n - 1) as nat) + chunk_isum(block, x, n - 1)
    }
}

pub open spec fn imin_upto(block: Seq<u8>, sums: Seq<i32>, n: nat) -> int
    decreases n,
{
    if n == 0 {
        0
    } else {
        imin_upto(block, sums, (n - 1) as nat) + chunk_imin(block, sums, n - 1)
    }
}

/// `isum` of one 144-byte super-block against its 256 activations.
pub open spec fn super_block_isum(block: Seq<u8>, x: Seq<i8>) -> int {
    isum_upto(block, x, 4)
}

/// `imin` of one 144-byte super-block against its eight partial sums.
pub open spec fn super_block_imin(block: Seq<u8>, sums: Seq<i32>) -> int {
    imin_upto(block, sums, 4)
}

/// The 256 activations that super-block `b` is multiplied against.
pub open spec fn activations_of(x: Seq<i8>, b: int) -> Seq<i8> {
    x.subrange(256 * b, 256 * b + 256)
}

/// The eight partial sums of super-block `b`.
pub open spec fn partial_sums_of(sums: Seq<i32>, b: int) -> Seq<i32> {
    sums.subrange(8 * b, 8 * b + 8)
}

/// Block `b` of a single row laid out block after block.
pub open spec fn row_block(row: Seq<u8>, b: int) -> Seq<u8> {
    row.subrange(144 * b, 144 * b + 144)
}

/// Block `b` of row `r` in a Q4_K_R4 row-group: the four rows' blocks `b`
/// stand next to each other, row 0 first.
pub open spec fn r4_block(packed: Seq<u8>, b: int, r: int) -> Seq<u8> {
    packed.subrange(144 * (4 * b + r), 144 * (4 * b + r) + 144)
}

/// Two's-complement wrap of an integer into `i32`: what `i32` accumulation
/// gives in a release build, where overflow wraps.
pub open spec fn wrap_i32(v: int) -> i32 {
    v as i32
}

/// Within range the wrap changes nothing.
pub proof fn law_wrap_is_identity_in_range(v: int)
    requires
        i32::MIN <= v <= i32::MAX,
    ensures
        wrap_i32(v) == v,
{
}

/// Where each super-block's data sits: byte `i` of block `b` of a row is row
/// byte `144b + i`; byte `i` of block `b` of row `r` in a Q4_K_R4 group is
/// group byte `144(4b + r) + i`; activation `i` of block `b` is activation
/// `256b + i`; partial sum `j` of block `b` is partial sum `8b + j`.
pub proof fn law_super_block_layout(
    row: Seq<u8>,
    packed: Seq<u8>,
    x: Seq<i8>,
    sums: Seq<i32>,
    b: int,
    r: int,
    i: int,
    j: int,
)
    requires
        0 <= b,
        0 <= r < 4,
        0 <= i < 144,
        0 <= j < 8,
        144 * b + 144 <= row.len(),
        576 * b + 576 <= packed.len(),
    ensures
        row_block(row, b).len() == 144,
        row_block(row, b)[i] == row[144 * b + i],
        r4_block(packed, b, r).len() == 144,
        r4_block(packed, b, r)[i] == packed[144 * (4 * b + r) + i],
        256 * b + 256 <= x.len() ==> activations_of(x, b).len() == 256 && forall|k: int|
            0 <= k < 256 ==> #[trigger] activations_of(x, b)[k] == x[256 * b + k],
        8 * b + 8 <= sums.len() ==> partial_sums_of(sums, b).len() == 8 && partial_sums_of(
            sums,
            b,
        )[j] == sums[8 * b + j],
{
}

proof fn lemma_nibble_dot_congruent(
    q1: Seq<u8>,
    qo1: int,
    x1: Seq<i8>,
    xo1: int,
    q2: Seq<u8>,
    qo2: int,
    x2: Seq<i8>,
    xo2: int,
    high: bool,
    n: nat,
)
    requires
        0 <= qo1 && qo1 + n <= q1.len(),
        0 <= qo2 && qo2 + n <= q2.len(),
        0 <= xo1 && xo1 + n <= x1.len(),
        0 <= xo2 && xo2 + n <= x2.len(),
        q1.subrange(qo1, qo1 + n) == q2.subrange(qo2, qo2 + n),
        x1.subrange(xo1, xo1 + n) == x2.subrange(xo2, xo2 + n),
    ensures
        nibble_dot(q1, qo1, x1, xo1, high, n) == nibble_dot(q2, qo2, x2, xo2, high, n),
    decreases n,
{
    if n > 0 {
        let m = (n - 1) as nat;
        assert(q1.subrange(qo1, qo1 + m) =~= q1.subrange(qo1, qo1 + n).subrange(0, m as int));
        assert(q2.subrange(qo2, qo2 + m) =~= q2.subrange(qo2, qo2 + n).subrange(0, m as int));
        assert(x1.subrange(xo1, xo1 + m) =~= x1.subrange(xo1, xo1 + n).subrange(0, m as int));
        assert(x2.subrange(xo2, xo2 + m) =~= x2.subrange(xo2, xo2 + n).subrange(0, m as int));
        lemma_nibble_dot_congruent(q1, qo1, x1, xo1, q2, qo2, x2, xo2, high, m);
        assert(q1[qo1 + m] == q1.subrange(qo1, qo1 + n)[m as int]);
        assert(q2[qo2 + m] == q2.subrange(qo2, qo2 + n)[m as int]);
        assert(x1[xo1 + m] == x1.subrange(xo1, xo1 + n)[m as int]);
        assert(x2[xo2 + m] == x2.subrange(xo2, xo2 + n)[m as int]);
    }
}

proof fn lemma_nibble_dot_bound(q: Seq<u8>, qo: int, x: Seq<i8>, xo: int, high: bool, n: nat)
    ensures
        -1920 * n <= nibble_dot(q, qo, x, xo, high, n) <= 1920 * n,
    decreases n,
{
    if n > 0 {
        lemma_nibble_dot_bound(q, qo, x, xo, high, (n - 1) as nat);
        let v = nibble(q[qo + n - 1], high);
        let w = x[xo + n - 1] as int;
        assert(0 <= v <= 15);
        assert(-128 <= w <= 127);
        assert(-1920 <= v * w <= 1920) by (nonlinear_arith)
            requires
                0 <= v <= 15,
                -128 <= w <= 127,
        ;
    }
}

proof fn lemma_packed_bounds(j: int, s: Seq<u8>)
    requires
        0 <= j,
        j + 4 < s.len(),
    ensures
        0 <= packed_scale(j, s) < 64,
        0 <= packed_min(j, s) < 64,
{
}

proof fn lemma_chunk_isum_bound(block: Seq<u8>, x: Seq<i8>, c: int)
    requires
        block.len() == 144,
        0 <= c < 4,
    ensures
        -7741440 <= chunk_isum(block, x, c) <= 7741440,
{
    let s = block_scales(block);
    lemma_packed_bounds(2 * c, s);
    lemma_packed_bounds(2 * c + 1, s);
    lemma_nibble_dot_bound(block, 16 + 32 * c, x, 64 * c, false, 32);
    lemma_nibble_dot_bound(block, 16 + 32 * c, x, 64 * c + 32, true, 32);
    let a = packed_scale(2 * c, s);
    let b = packed_scale(2 * c + 1, s);
    let d1 = nibble_dot(block, 16 + 32 * c, x, 64 * c, false, 32);
    let d2 = nibble_dot(block, 16 + 32 * c, x, 64 * c + 32, true, 32);
    assert(-3870720 <= a * d1 <= 3870720) by (nonlinear_arith)
        requires
            0 <= a < 64,
            -61440 <= d1 <= 61440,
    ;
    assert(-3870720 <= b * d2 <= 3870720) by (nonlinear_arith)
        requires
            0 <= b < 64,
            -61440 <= d2 <= 61440,
    ;
}

proof fn lemma_isum_upto_bound(block: Seq<u8>, x: Seq<i8>, n: nat)
    requires
        block.len() == 144,
        n <= 4,
    ensures
        -7741440 * n <= isum_upto(block, x, n) <= 7741440 * n,
    decreases n,
{
    if n > 0 {
        lemma_isum_upto_bound(block, x, (n - 1) as nat);
        lemma_chunk_isum_bound(block, x, n - 1);
    }
}

/// `nibble_dot` over 32 consecutive bytes and activations.
fn nibble_dot_32(q: &[u8], qo: usize, x: &[i8], xo: usize, high: bool) -> (d: i32)
    requires
        qo + 32 <= q.len(),
        xo + 32 <= x.len(),
    ensures
        d == nibble_dot(q@, qo as int, x@, xo as int, high, 32),
        -61440 <= d <= 61440,
{
    let mut acc: i32 = 0;
    let mut l: usize = 0;
    while l < 32
        invariant
            l <= 32,
            qo + 32 <= q.len(),
            xo + 32 <= x.len(),
            acc == nibble_dot(q@, qo as int, x@, xo as int, high, l as nat),
        decreases 32 - l,
    {
        proof {
            lemma_nibble_dot_bound(q@, qo as int, x@, xo as int, high, l as nat);
        }
        let byte = q[qo + l];
        let v: u8 = if high {
            byte >> 4
        } else {
            byte & 0x0F
        };
        assert(byte >> 4 == byte / 16) by (bit_vector);
        assert(byte & 0x0F == byte % 16) by (bit_vector);
        assert(v as int == nibble(byte, high));
        let w = x[xo + l];
        let vi = v as i32;
        let wi = w as i32;
        assert(-1920 <= vi * wi <= 1920) by (nonlinear_arith)
            requires
                0 <= vi <= 15,
                -128 <= wi <= 127,
        ;
        acc = acc + vi * wi;
        l = l + 1;
    }
    proof {
        lemma_nibble_dot_bound(q@, qo as int, x@, xo as int, high, 32);
    }
    acc
}

/// The 4-bit quant of weight `w` (0..256) of a super-block: weight `w` lies in
/// sub-block `w / 32`; sub-blocks `2c` and `2c + 1` share the 32 bytes at
/// `16 + 32c`, the even one in the low nibbles, the odd one in the high ones.
pub open spec fn weight_quant(block: Seq<u8>, w: int) -> int {
    let j = w / 32;
    nibble(block[16 + 32 * (j / 2) + w % 32], j % 2 == 1)
}

/// `Σ_{w < n} scale(w / 32) · quant(w) · x[w]`, weight by weight.
pub open spec fn weighted_sum(block: Seq<u8>, x: Seq<i8>, n: nat) -> int
    decreases n,
{
    if n == 0 {
        0
    } else {
        weighted_sum(block, x, (n - 1) as nat) + packed_scale((n - 1) / 32, block_scales(block))
            * weight_quant(block, n - 1) * x[n - 1]
    }
}

/// `Σ_{j < n} min(j) · sums[j]`, sub-block by sub-block.
pub open spec fn weighted_mins(block: Seq<u8>, sums: Seq<i32>, n: nat) -> int
    decreases n,
{
    if n == 0 {
        0
    } else {
        weighted_mins(block, sums, (n - 1) as nat) + packed_min(n - 1, block_scales(block))
            * sums[n - 1]
    }
}

proof fn lemma_sub_block_segment(block: Seq<u8>, x: Seq<i8>, j: int, l: nat)
    requires
        0 <= j < 8,
        l <= 32,
    ensures
        weighted_sum(block, x, (32 * j + l) as nat) == weighted_sum(block, x, (32 * j) as nat)
            + packed_scale(j, block_scales(block)) * nibble_dot(
            block,
            16 + 32 * (j / 2),
            x,
            32 * j,
            j % 2 == 1,
            l,
        ),
    decreases l,
{
    if l > 0 {
        let m = (l - 1) as nat;
        lemma_sub_block_segment(block, x, j, m);
        let w = 32 * j + m;
        assert(w / 32 == j);
        assert(w % 32 == m);
        let sc = packed_scale(j, block_scales(block));
        let q = weight_quant(block, w);
        let xv = x[w] as int;
        let d = nibble_dot(block, 16 + 32 * (j / 2), x, 32 * j, j % 2 == 1, m);
        assert(q == nibble(block[16 + 32 * (j / 2) + m], j % 2 == 1));
        assert(sc * (d + q * xv) == sc * d + sc * q * xv) by (nonlinear_arith);
    }
}

/// `isum` weight by weight: each of the 256 weights contributes its
/// sub-block's scale times its own 4-bit quant times its own activation.
pub proof fn law_isum_is_per_weight_sum(block: Seq<u8>, x: Seq<i8>)
    ensures
        super_block_isum(block, x) == weighted_sum(block, x, 256),
{
    lemma_isum_upto_flat(block, x, 4);
}

proof fn lemma_isum_upto_flat(block: Seq<u8>, x: Seq<i8>, c: nat)
    requires
        c <= 4,
    ensures
        isum_upto(block, x, c) == weighted_sum(block, x, 64 * c),
    decreases c,
{
    if c > 0 {
        let k = (c - 1) as int;
        lemma_isum_upto_flat(block, x, (c - 1) as nat);
        lemma_sub_block_segment(block, x, 2 * k, 32);
        lemma_sub_block_segment(block, x, 2 * k + 1, 32);
        assert((2 * k) / 2 == k);
        assert((2 * k + 1) / 2 == k);
        assert((2 * k) % 2 == 0);
        assert((2 * k + 1) % 2 == 1);
        assert(32 * (2 * k) + 32 == 32 * (2 * k + 1));
        assert(64 * c == 32 * (2 * k + 1) + 32);
    }
}

/// `imin` sub-block by sub-block: each of the eight sub-blocks contributes
/// its min times its own partial sum.
pub proof fn law_imin_is_per_sub_block_sum(block: Seq<u8>, sums: Seq<i32>)
    ensures
        super_block_imin(block, sums) == weighted_mins(block, sums, 8),
{
    lemma_imin_upto_flat(block, sums, 4);
}

proof fn lemma_imin_upto_flat(block: Seq<u8>, sums: Seq<i32>, c: nat)
    requires
        c <= 4,
    ensures
        imin_upto(block, sums, c) == weighted_mins(block, sums, 2 * c),
    decreases c,
{
    if c > 0 {
        lemma_imin_upto_flat(block, sums, (c - 1) as nat);
        assert(weighted_mins(block, sums, 2 * c) == weighted_mins(block, sums, (2 * c - 1) as nat)
            + packed_min(2 * c - 1, block_scales(block)) * sums[2 * c - 1]);
    }
}

/// `isum` and `imin` of the super-block stored at `bytes[base..base + 144]`,
/// against activations `x[xo..xo + 256]` and partial sums `sums[so..so + 8]`.
fn block_sums(bytes: &[u8], base: usize, x: &[i8], xo: usize, sums: &[i32], so: usize) -> (r: (
    i32,
    i32,
))
    requires
        base + 144 <= bytes.len(),
        xo + 256 <= x.len(),
        so + 8 <= sums.len(),
    ensures
        r.0 == super_block_isum(
            bytes@.subrange(base as int, base + 144),
            x@.subrange(xo as int, xo + 256),
        ),
        r.1 == wrap_i32(
            super_block_imin(
                bytes@.subrange(base as int, base + 144),
                sums@.subrange(so as int, so + 8),
            ),
        ),
        -30965760 <= r.0 <= 30965760,
{
    let ghost block = bytes@.subrange(base as int, base + 144);
    let ghost xs = x@.subrange(xo as int, xo + 256);
    let ghost ss = sums@.subrange(so as int, so + 8);
    let scales = &bytes[base + 4..base + 16];
    assert(scales@ =~= block_scales(block));
    let mut isum: i32 = 0;
    let mut imin: i64 = 0;
    let mut c: usize = 0;
    while c < 4
        invariant
            c <= 4,
            base + 144 <= bytes.len(),
            xo + 256 <= x.len(),
            so + 8 <= sums.len(),
            block == bytes@.subrange(base as int, base + 144),
            xs == x@.subrange(xo as int, xo + 256),
            ss == sums@.subrange(so as int, so + 8),
            scales@ == block_scales(block),
            isum == isum_upto(block, xs, c as nat),
            imin == imin_upto(block, ss, c as nat),
            -300000000000 * c <= imin <= 300000000000 * c,
        decreases 4 - c,
    {
        proof {
            lemma_isum_upto_bound(block, xs, c as nat);
            lemma_chunk_isum_bound(block, xs, c as int);
        }
        let (sc1, m1) = get_scale_min_k4(2 * c, scales);
        let (sc2, m2) = get_scale_min_k4(2 * c + 1, scales);
        let q_off = base + 16 + 32 * c;
        let x_off = xo + 64 * c;
        let dot_lo = nibble_dot_32(bytes, q_off, x, x_off, false);
        let dot_hi = nibble_dot_32(bytes, q_off, x, x_off + 32, true);
        proof {
            assert(bytes@.subrange(q_off as int, q_off + 32) =~= block.subrange(
                16 + 32 * c,
                16 + 32 * c + 32,
            ));
            assert(x@.subrange(x_off as int, x_off + 32) =~= xs.subrange(64 * c, 64 * c + 32));
            assert(x@.subrange(x_off + 32, x_off + 64) =~= xs.subrange(
                64 * c + 32,
                64 * c + 64,
            ));
            lemma_nibble_dot_congruent(
                bytes@,
                q_off as int,
                x@,
                x_off as int,
                block,
                16 + 32 * c,
                xs,
                64 * c as int,
                false,
                32,
            );
            lemma_nibble_dot_congruent(
                bytes@,
                q_off as int,
                x@,
                x_off + 32,
                block,
                16 + 32 * c,
                xs,
                64 * c + 32,
                true,
                32,
            );
        }
        let a1 = sc1 as i32;
        let a2 = sc2 as i32;
        assert(-3870720 <= a1 * dot_lo <= 3870720) by (nonlinear_arith)
            requires
                0 <= a1 < 64,
                -61440 <= dot_lo <= 61440,
        ;
        assert(-3870720 <= a2 * dot_hi <= 3870720) by (nonlinear_arith)
            requires
                0 <= a2 < 64,
                -61440 <= dot_hi <= 61440,
        ;
        assert(a1 * dot_lo + a2 * dot_hi == chunk_isum(block, xs, c as int));
        isum = isum + (a1 * dot_lo + a2 * dot_hi);
        let s_lo = sums[so + 2 * c] as i64;
        let s_hi = sums[so + 2 * c + 1] as i64;
        let n1 = m1 as i64;
        let n2 = m2 as i64;
        assert(-140000000000 <= n1 * s_lo <= 140000000000) by (nonlinear_arith)
            requires
                0 <= n1 < 64,
                -2147483648 <= s_lo <= 2147483647,
        ;
        assert(-140000000000 <= n2 * s_hi <= 140000000000) by (nonlinear_arith)
            requires
                0 <= n2 < 64,
                -2147483648 <= s_hi <= 2147483647,
        ;
        assert(n1 * s_lo + n2 * s_hi == chunk_imin(block, ss, c as int));
        imin = imin + (n1 * s_lo + n2 * s_hi);
        c = c + 1;
    }
    proof {
        lemma_isum_upto_bound(block, xs, 4);
    }
    (isum, imin as i32)
}

/// Integer sums of super-block `b` of a single row (blocks laid out one after
/// another), against the Q8_K activations that cover it.
pub fn q4_k_row_super_block_sums(row: &[u8], b: usize, x_i8: &[i8], x_sums: &[i32]) -> (r: (
    i32,
    i32,
))
    requires
        144 * b + 144 <= row.len(),
        256 * b + 256 <= x_i8.len(),
        8 * b + 8 <= x_sums.len(),
    ensures
        r.0 == super_block_isum(row_block(row@, b as int), activations_of(x_i8@, b as int)),
        r.1 == wrap_i32(
            super_block_imin(row_block(row@, b as int), partial_sums_of(x_sums@, b as int)),
        ),
        -30965760 <= r.0 <= 30965760,
{
    block_sums(row, 144 * b, x_i8, 256 * b, x_sums, 8 * b)
}

/// Integer sums of super-block `b` for each of the four rows of a Q4_K_R4
/// row-group: `r.0[row]` is that row's `isum`, `r.1[row]` its `imin`.
pub fn q4_k_r4_super_block_sums(packed: &[u8], b: usize, x_i8: &[i8], x_sums: &[i32]) -> (r: (
    [i32; 4],
    [i32; 4],
))
    requires
        576 * b + 576 <= packed.len(),
        256 * b + 256 <= x_i8.len(),
        8 * b + 8 <= x_sums.len(),
    ensures
        forall|row: int|
            0 <= row < 4 ==> #[trigger] r.0@[row] == super_block_isum(
                r4_block(packed@, b as int, row),
                activations_of(x_i8@, b as int),
            ),
        forall|row: int|
            0 <= row < 4 ==> #[trigger] r.1@[row] == wrap_i32(
                super_block_imin(
                    r4_block(packed@, b as int, row),
                    partial_sums_of(x_sums@, b as int),
                ),
            ),
{
    let gbase = 576 * b;
    let (is0, im0) = block_sums(packed, gbase, x_i8, 256 * b, x_sums, 8 * b);
    let (is1, im1) = block_sums(packed, gbase + 144, x_i8, 256 * b, x_sums, 8 * b);
    let (is2, im2) = block_sums(packed, gbase + 288, x_i8, 256 * b, x_sums, 8 * b);
    let (is3, im3) = block_sums(packed, gbase + 432, x_i8, 256 * b, x_sums, 8 * b);
    let isum = [is0, is1, is2, is3];
    let imin = [im0, im1, im2, im3];
    assert(isum@[0] == is0 && isum@[1] == is1 && isum@[2] == is2 && isum@[3] == is3);
    assert(imin@[0] == im0 && imin@[1] == im1 && imin@[2] == im2 && imin@[3] == im3);
    (isum, imin)
}

/// `Σ_{l < n} x[start + l]`.
pub open spec fn partial_sum(x: Seq<i8>, start: int, n: nat) -> int
    decreases n,
{
    if n == 0 {
        0
    } else {
        partial_sum(x, start, (n - 1) as nat) + x[start + n - 1]
    }
}

/// Q8_K partial sums that agree with their activations: sum `j` is the sum of
/// activations `32j..32j + 32`.
pub open spec fn sums_consistent(x: Seq<i8>, sums: Seq<i32>) -> bool {
    forall|j: int| 0 <= j < 8 ==> #[trigger] sums[j] == partial_sum(x, 32 * j, 32)
}

proof fn lemma_partial_sum_bound(x: Seq<i8>, start: int, n: nat)
    ensures
        -128 * n <= partial_sum(x, start, n) <= 127 * n,
    decreases n,
{
    if n > 0 {
        lemma_partial_sum_bound(x, start, (n - 1) as nat);
    }
}

proof fn lemma_imin_upto_bound(block: Seq<u8>, sums: Seq<i32>, n: nat)
    requires
        block.len() == 144,
        sums.len() == 8,
        n <= 4,
        forall|j: int| 0 <= j < 8 ==> -4096 <= #[trigger] sums[j] <= 4096,
    ensures
        -516096 * n <= imin_upto(block, sums, n) <= 516096 * n,
    decreases n,
{
    if n > 0 {
        lemma_imin_upto_bound(block, sums, (n - 1) as nat);
        let c = n - 1;
        let s = block_scales(block);
        lemma_packed_bounds(2 * c, s);
        lemma_packed_bounds(2 * c + 1, s);
        let a = packed_min(2 * c, s);
        let b = packed_min(2 * c + 1, s);
        let u = sums[2 * c] as int;
        let v = sums[2 * c + 1] as int;
        assert(-258048 <= a * u <= 258048) by (nonlinear_arith)
            requires
                0 <= a < 64,
                -4096 <= u <= 4096,
        ;
        assert(-258048 <= b * v <= 258048) by (nonlinear_arith)
            requires
                0 <= b < 64,
                -4096 <= v <= 4096,
        ;
    }
}

/// With partial sums that agree with their activations the min-correction
/// stays far inside `i32`, so the accumulation never wraps and the kernels'
/// `imin` is the exact integer.
pub proof fn law_consistent_sums_never_wrap(block: Seq<u8>, x: Seq<i8>, sums: Seq<i32>)
    requires
        block.len() == 144,
        x.len() == 256,
        sums.len() == 8,
        sums_consistent(x, sums),
    ensures
        -2064384 <= super_block_imin(block, sums) <= 2064384,
        wrap_i32(super_block_imin(block, sums)) == super_block_imin(block, sums),
{
    assert forall|j: int| 0 <= j < 8 implies -4096 <= #[trigger] sums[j] <= 4096 by {
        lemma_partial_sum_bound(x, 32 * j, 32);
    }
    lemma_imin_upto_bound(block, sums, 4);
}

/// The Q4_K_R4 row-group kernel computes, for every row, exactly the integers
/// the single-row kernel computes on that row: when `packed` is the interleave
/// of four rows, block `b` of row `r` in the group is block `b` of row `r`, so
/// both `isum` and `imin` agree.
pub proof fn law_r4_sums_match_row_sums(
    rows: Seq<u8>,
    row_bytes: int,
    b: int,
    r: int,
    x: Seq<i8>,
    sums: Seq<i32>,
)
    requires
        row_bytes % 144 == 0,
        rows.len() == 4 * row_bytes,
        0 <= b < row_bytes / 144,
        0 <= r < 4,
    ensures
        r4_block(interleaved_rows4(rows, row_bytes, 144), b, r) == row_block(
            rows.subrange(r * row_bytes, r * row_bytes + row_bytes),
            b,
        ),
        super_block_isum(r4_block(interleaved_rows4(rows, row_bytes, 144), b, r), activations_of(x, b))
            == super_block_isum(
            row_block(rows.subrange(r * row_bytes, r * row_bytes + row_bytes), b),
            activations_of(x, b),
        ),
        super_block_imin(
            r4_block(interleaved_rows4(rows, row_bytes, 144), b, r),
            partial_sums_of(sums, b),
        ) == super_block_imin(
            row_block(rows.subrange(r * row_bytes, r * row_bytes + row_bytes), b),
            partial_sums_of(sums, b),
        ),
{
    let packed = interleaved_rows4(rows, row_bytes, 144);
    let row = rows.subrange(r * row_bytes, r * row_bytes + row_bytes);
    assert(0 <= r * row_bytes) by (nonlinear_arith)
        requires
            r >= 0,
            row_bytes >= 0,
    ;
    assert(r * row_bytes + row_bytes <= 4 * row_bytes) by (nonlinear_arith)
        requires
            r <= 3,
            row_bytes >= 0,
    ;
    assert(144 * b + 144 <= row_bytes);
    assert forall|i: int| 0 <= i < 144 implies #[trigger] r4_block(packed, b, r)[i] == row_block(
        row,
        b,
    )[i] by {
        law_interleave_places_blocks(rows, row_bytes, 144, b, r, i);
        assert((4 * b + r) * 144 + i == 144 * (4 * b + r) + i);
        assert(b * 144 == 144 * b);
    }
    assert(r4_block(packed, b, r) =~= row_block(row, b));
}

} // verus!
