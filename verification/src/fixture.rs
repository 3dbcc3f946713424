//! Deterministic fixtures: the byte and draw streams of the study's linear
//! congruential generator, the super-block header stamping that keeps random
//! weights decodable, the Q4_K_R4 row interleave, and the reduction lengths.
use vstd::prelude::*;
use vstd::arithmetic::div_mod::*;
use crate::quant::{Q4_K_BLOCK_BYTES, Q6_K_BLOCK_BYTES, QK_K};

verus! {

/// Multiplier of the generator (Knuth's MMIX constants).
pub const LCG_MULTIPLIER: u64 = 6364136223846793005;

/// Increment of the generator.
pub const LCG_INCREMENT: u64 = 1442695040888963407;

/// One step of the generator: `s · a + c  (mod 2^64)`.
pub open spec fn lcg_next(s: u64) -> u64 {
    ((s as int * LCG_MULTIPLIER as int + LCG_INCREMENT as int) % 0x1_0000_0000_0000_0000) as u64
}

/// The state after `i` steps from `seed`.
pub open spec fn lcg_state(seed: u64, i: nat) -> u64
    decreases i,
{
    if i == 0 {
        seed
    } else {
        lcg_next(lcg_state(seed, (i - 1) as nat))
    }
}

/// Draw `i` of the stream: the top 31 bits of the state after `i + 1` steps.
pub open spec fn lcg_draw(seed: u64, i: nat) -> u32 {
    (lcg_state(seed, i + 1) >> 33u64) as u32
}

/// Byte `i` of the stream: the low byte of draw `i`'s bits, `(state >> 33) as u8`.
pub open spec fn lcg_byte(seed: u64, i: nat) -> u8 {
    (lcg_state(seed, i + 1) >> 33u64) as u8
}

/// The first `n` bytes of the stream.
pub open spec fn lcg_byte_stream(seed: u64, n: nat) -> Seq<u8> {
    Seq::new(n, |i: int| lcg_byte(seed, i as nat))
}

/// The first `n` draws of the stream.
pub open spec fn lcg_draw_stream(seed: u64, n: nat) -> Seq<u32> {
    Seq::new(n, |i: int| lcg_draw(seed, i as nat))
}

proof fn lemma_lcg_step(s: u64)
    ensures
        s.wrapping_mul(LCG_MULTIPLIER).wrapping_add(LCG_INCREMENT) == lcg_next(s),
{
    let m: int = 0x1_0000_0000_0000_0000;
    let p = (s as int * LCG_MULTIPLIER as int) % m;
    assert(s.wrapping_mul(LCG_MULTIPLIER) == p as u64);
    lemma_small_mod(LCG_INCREMENT as nat, m as nat);
    lemma_add_mod_noop(s as int * LCG_MULTIPLIER as int, LCG_INCREMENT as int, m);
    assert((p + LCG_INCREMENT as int) % m == (s as int * LCG_MULTIPLIER as int
        + LCG_INCREMENT as int) % m);
    if p + LCG_INCREMENT as int >= m {
        lemma_fundamental_div_mod_converse_mod(p + LCG_INCREMENT as int, m, 1, p
            + LCG_INCREMENT as int - m);
    } else {
        lemma_small_mod((p + LCG_INCREMENT as int) as nat, m as nat);
    }
}

/// Deterministic byte stream: `n` bytes, byte `i` being `(s_{i+1} >> 33) as u8`
/// where `s_0 = seed` and `s_{j+1} = s_j · a + c (mod 2^64)`.
pub fn lcg_bytes(seed: u64, n: usize) -> (v: Vec<u8>)
    ensures
        v@ == lcg_byte_stream(seed, n as nat),
{
    let mut s = seed;
    let mut v: Vec<u8> = Vec::new();
    let mut i: usize = 0;
    while i < n
        invariant
            i <= n,
            s == lcg_state(seed, i as nat),
            v@ == lcg_byte_stream(seed, i as nat),
        decreases n - i,
    {
        proof {
            lemma_lcg_step(s);
        }
        s = s.wrapping_mul(LCG_MULTIPLIER).wrapping_add(LCG_INCREMENT);
        v.push((s >> 33u64) as u8);
        i = i + 1;
        assert(v@ =~= lcg_byte_stream(seed, i as nat));
    }
    v
}

/// The integer draws behind the activation fixture: `n` values, draw `i` being
/// `s_{i+1} >> 33` of the same generator as [`lcg_bytes`]; every draw is below
/// `2^31`.
pub fn lcg_draws(seed: u64, n: usize) -> (v: Vec<u32>)
    ensures
        v@ == lcg_draw_stream(seed, n as nat),
        forall|i: int| 0 <= i < n ==> #[trigger] v@[i] < 0x8000_0000,
{
    let mut s = seed;
    let mut v: Vec<u32> = Vec::new();
    let mut i: usize = 0;
    while i < n
        invariant
            i <= n,
            s == lcg_state(seed, i as nat),
            v@ == lcg_draw_stream(seed, i as nat),
            forall|j: int| 0 <= j < i ==> #[trigger] v@[j] < 0x8000_0000,
        decreases n - i,
    {
        proof {
            lemma_lcg_step(s);
        }
        s = s.wrapping_mul(LCG_MULTIPLIER).wrapping_add(LCG_INCREMENT);
        let d = s >> 33u64;
        assert(d < 0x8000_0000) by (bit_vector)
            requires
                d == s >> 33u64,
        ;
        v.push(d as u32);
        i = i + 1;
        assert(v@ =~= lcg_draw_stream(seed, i as nat));
    }
    v
}

/// The byte stream and the draw stream are one generator: byte `i` is the low
/// byte of draw `i`, so the weight and activation fixtures of a seed come from
/// the same sequence of states.
pub proof fn law_bytes_are_low_bytes_of_draws(seed: u64, i: nat)
    ensures
        lcg_byte(seed, i) == lcg_draw(seed, i) as u8,
{
    let s = lcg_state(seed, i + 1);
    assert((s >> 33u64) as u8 == ((s >> 33u64) as u32) as u8) by (bit_vector);
}

/// A longer stream of a seed extends every shorter one.
pub proof fn law_lcg_stream_prefix(seed: u64, n: nat, m: nat)
    requires
        n <= m,
    ensures
        lcg_byte_stream(seed, n) == lcg_byte_stream(seed, m).subrange(0, n as int),
        lcg_draw_stream(seed, n) == lcg_draw_stream(seed, m).subrange(0, n as int),
{
    assert(lcg_byte_stream(seed, n) =~= lcg_byte_stream(seed, m).subrange(0, n as int));
    assert(lcg_draw_stream(seed, n) =~= lcg_draw_stream(seed, m).subrange(0, n as int));
}

proof fn lemma_lcg_state_shift(seed: u64, i: nat)
    ensures
        lcg_state(seed, i + 1) == lcg_state(lcg_next(seed), i),
    decreases i,
{
    if i == 0 {
        assert(lcg_state(seed, 1) == lcg_next(lcg_state(seed, 0)));
    } else {
        lemma_lcg_state_shift(seed, (i - 1) as nat);
        assert(lcg_state(seed, i + 1) == lcg_next(lcg_state(seed, i)));
        assert(lcg_state(lcg_next(seed), i) == lcg_next(lcg_state(lcg_next(seed), (i - 1) as nat)));
    }
}

/// Shifting by one step: the `n + 1` bytes of a seed are the byte of its first
/// step followed by the `n` bytes of the state that step reaches.
pub proof fn law_lcg_stream_shift(seed: u64, n: nat)
    ensures
        lcg_next(seed) == seed.wrapping_mul(LCG_MULTIPLIER).wrapping_add(LCG_INCREMENT),
        lcg_byte_stream(seed, n + 1)[0] == (lcg_next(seed) >> 33u64) as u8,
        lcg_byte_stream(seed, n + 1).subrange(1, n + 1 as int) == lcg_byte_stream(lcg_next(seed), n),
{
    lemma_lcg_step(seed);
    let next = lcg_next(seed);
    let whole = lcg_byte_stream(seed, n + 1);
    let rest = lcg_byte_stream(next, n);
    lemma_lcg_state_shift(seed, 0);
    assert(whole[0] == lcg_byte(seed, 0));
    assert forall|i: int| 0 <= i < n implies #[trigger] whole.subrange(1, n + 1 as int)[i]
        == rest[i] by {
        lemma_lcg_state_shift(seed, (i + 1) as nat);
        assert(whole.subrange(1, n + 1 as int)[i] == whole[i + 1]);
        assert(whole[i + 1] == lcg_byte(seed, (i + 1) as nat));
        assert(rest[i] == lcg_byte(next, i as nat));
    }
    assert(lcg_byte_stream(seed, n + 1).subrange(1, n + 1 as int) =~= lcg_byte_stream(lcg_next(seed), n));
}

/// Byte `p` of `rows` after every `block_bytes`-sized block has had bytes
/// `offset..offset + field.len()` overwritten with `field`.
pub open spec fn stamped(rows: Seq<u8>, block_bytes: int, offset: int, field: Seq<u8>, p: int) -> u8 {
    let w = p % block_bytes;
    if offset <= w < offset + field.len() {
        field[w - offset]
    } else {
        rows[p]
    }
}

/// `rows` with bytes `offset..offset + field.len()` of every
/// `block_bytes`-sized block overwritten with `field`.
pub open spec fn stamped_seq(rows: Seq<u8>, block_bytes: int, offset: int, field: Seq<u8>) -> Seq<
    u8,
> {
    Seq::new(rows.len(), |p: int| stamped(rows, block_bytes, offset, field, p))
}

/// Overwrite bytes `offset..offset + field.len()` of every super-block in
/// `rows` with `field` (the fixture's fixed, decodable `d`/`dmin` bytes), and
/// leave every other byte as it was.
pub fn stamp_block_field(rows: &mut Vec<u8>, block_bytes: usize, offset: usize, field: &[u8])
    requires
        block_bytes > 0,
        offset + field.len() <= block_bytes,
        old(rows)@.len() % (block_bytes as nat) == 0,
    ensures
        final(rows)@ == stamped_seq(old(rows)@, block_bytes as int, offset as int, field@),
{
    let ghost orig = rows@;
    let n = rows.len();
    let mut p: usize = 0;
    while p < n
        invariant
            p <= n,
            n == orig.len(),
            rows@.len() == n,
            block_bytes > 0,
            offset + field.len() <= block_bytes,
            forall|q: int|
                0 <= q < p ==> #[trigger] rows@[q] == stamped(
                    orig,
                    block_bytes as int,
                    offset as int,
                    field@,
                    q,
                ),
            forall|q: int| p <= q < n ==> #[trigger] rows@[q] == orig[q],
        decreases n - p,
    {
        let w = p % block_bytes;
        if offset <= w && w < offset + field.len() {
            rows[p] = field[w - offset];
        }
        p = p + 1;
    }
    assert(rows@ =~= stamped_seq(orig, block_bytes as int, offset as int, field@));
}

/// Every block of a stamped buffer carries `field` at `offset`, whatever the
/// random bytes were: a stamped fixture never decodes a NaN or infinite
/// super-block scale from noise.
pub proof fn law_stamped_blocks_carry_field(
    rows: Seq<u8>,
    block_bytes: int,
    offset: int,
    field: Seq<u8>,
    g: int,
    i: int,
)
    requires
        block_bytes > 0,
        0 <= offset,
        offset + field.len() <= block_bytes,
        0 <= g,
        (g + 1) * block_bytes <= rows.len(),
        0 <= i < field.len(),
    ensures
        stamped_seq(rows, block_bytes, offset, field)[g * block_bytes + offset + i] == field[i],
{
    let p = g * block_bytes + offset + i;
    assert(0 <= g * block_bytes) by (nonlinear_arith)
        requires
            g >= 0,
            block_bytes > 0,
    ;
    assert(p < rows.len()) by (nonlinear_arith)
        requires
            p == g * block_bytes + offset + i,
            offset + i < block_bytes,
            (g + 1) * block_bytes <= rows.len(),
    ;
    lemma_fundamental_div_mod_converse_mod(p, block_bytes, g, offset + i);
    assert(p == g * block_bytes + (offset + i));
}

/// Stamping leaves every byte outside the field of its block as it was, and
/// keeps the length.
pub proof fn law_stamp_keeps_other_bytes(
    rows: Seq<u8>,
    block_bytes: int,
    offset: int,
    field: Seq<u8>,
    p: int,
)
    requires
        block_bytes > 0,
        0 <= p < rows.len(),
        !(offset <= p % block_bytes < offset + field.len()),
    ensures
        stamped_seq(rows, block_bytes, offset, field).len() == rows.len(),
        stamped_seq(rows, block_bytes, offset, field)[p] == rows[p],
{
}

/// The Q4_K_R4 layout of a four-row group: block `b` of rows 0, 1, 2, 3 stand
/// next to each other, then block `b + 1` of the four rows, and so on. Byte
/// `p` of the result is byte `p % bb` of block `(p / bb) / 4` of row
/// `(p / bb) % 4`.
pub open spec fn interleaved_rows4(rows: Seq<u8>, row_bytes: int, block_bytes: int) -> Seq<u8> {
    Seq::new(
        rows.len(),
        |p: int|
            rows[((p / block_bytes) % 4) * row_bytes + ((p / block_bytes) / 4) * block_bytes + p
                % block_bytes],
    )
}

proof fn lemma_interleave_source(p: int, row_bytes: int, block_bytes: int, nb: int)
    requires
        block_bytes > 0,
        nb >= 0,
        row_bytes == nb * block_bytes,
        0 <= p < 4 * row_bytes,
    ensures
        0 <= ((p / block_bytes) % 4) * row_bytes + ((p / block_bytes) / 4) * block_bytes + p
            % block_bytes < 4 * row_bytes,
{
    let q = p / block_bytes;
    let i = p % block_bytes;
    let r = q % 4;
    let b = q / 4;
    lemma_fundamental_div_mod(p, block_bytes);
    lemma_fundamental_div_mod(q, 4);
    assert(0 <= i < block_bytes);
    assert(0 <= r < 4);
    assert(q >= 0) by {
        lemma_div_pos_is_pos(p, block_bytes);
    }
    assert(b >= 0);
    // q * bb <= p < 4 * nb * bb, hence q < 4 * nb and b < nb.
    assert(q < 4 * nb) by (nonlinear_arith)
        requires
            p == block_bytes * q + i,
            0 <= i,
            p < 4 * (nb * block_bytes),
            block_bytes > 0,
    ;
    assert(b <= nb - 1);
    assert(b * block_bytes <= (nb - 1) * block_bytes) by (nonlinear_arith)
        requires
            b <= nb - 1,
            block_bytes > 0,
    ;
    assert(r * row_bytes <= 3 * row_bytes) by (nonlinear_arith)
        requires
            r <= 3,
            row_bytes >= 0,
    ;
    assert((nb - 1) * block_bytes == row_bytes - block_bytes) by (nonlinear_arith)
        requires
            row_bytes == nb * block_bytes,
    ;
    assert(0 <= r * row_bytes) by (nonlinear_arith)
        requires
            r >= 0,
            row_bytes >= 0,
    ;
    assert(0 <= b * block_bytes) by (nonlinear_arith)
        requires
            b >= 0,
            block_bytes >= 0,
    ;
}

/// Repack four rows of super-blocks into the Q4_K_R4 interleaved layout.
pub fn interleave_rows4(rows: &[u8], row_bytes: usize, block_bytes: usize) -> (packed: Vec<u8>)
    requires
        block_bytes > 0,
        row_bytes % block_bytes == 0,
        rows@.len() == 4 * row_bytes,
    ensures
        packed@ == interleaved_rows4(rows@, row_bytes as int, block_bytes as int),
{
    let ghost nb = row_bytes as int / block_bytes as int;
    proof {
        lemma_fundamental_div_mod(row_bytes as int, block_bytes as int);
        assert(row_bytes == nb * block_bytes) by (nonlinear_arith)
            requires
                row_bytes == block_bytes * nb + row_bytes % block_bytes,
                row_bytes % block_bytes == 0,
        ;
        lemma_div_pos_is_pos(row_bytes as int, block_bytes as int);
    }
    let n = rows.len();
    let mut packed: Vec<u8> = Vec::new();
    let mut p: usize = 0;
    while p < n
        invariant
            p <= n,
            n == rows@.len(),
            n == 4 * row_bytes,
            block_bytes > 0,
            nb >= 0,
            row_bytes == nb * block_bytes,
            packed@ == interleaved_rows4(rows@, row_bytes as int, block_bytes as int).subrange(
                0,
                p as int,
            ),
        decreases n - p,
    {
        proof {
            lemma_interleave_source(p as int, row_bytes as int, block_bytes as int, nb);
        }
        let q = p / block_bytes;
        let src = (q % 4) * row_bytes + (q / 4) * block_bytes + p % block_bytes;
        packed.push(rows[src]);
        p = p + 1;
        assert(packed@ =~= interleaved_rows4(rows@, row_bytes as int, block_bytes as int).subrange(
            0,
            p as int,
        ));
    }
    assert(packed@ =~= interleaved_rows4(rows@, row_bytes as int, block_bytes as int));
    packed
}

/// The interleave puts block `b` of row `r` at block slot `4b + r`.
pub proof fn law_interleave_places_blocks(
    rows: Seq<u8>,
    row_bytes: int,
    block_bytes: int,
    b: int,
    r: int,
    i: int,
)
    requires
        block_bytes > 0,
        row_bytes % block_bytes == 0,
        rows.len() == 4 * row_bytes,
        0 <= b < row_bytes / block_bytes,
        0 <= r < 4,
        0 <= i < block_bytes,
    ensures
        interleaved_rows4(rows, row_bytes, block_bytes)[(4 * b + r) * block_bytes + i] == rows[r
            * row_bytes + b * block_bytes + i],
{
    let nb = row_bytes / block_bytes;
    lemma_fundamental_div_mod(row_bytes, block_bytes);
    assert(row_bytes == nb * block_bytes) by (nonlinear_arith)
        requires
            row_bytes == block_bytes * nb + row_bytes % block_bytes,
            row_bytes % block_bytes == 0,
    ;
    let p = (4 * b + r) * block_bytes + i;
    assert(p == (4 * b + r) * block_bytes + i);
    lemma_fundamental_div_mod_converse_div(p, block_bytes, 4 * b + r, i);
    lemma_fundamental_div_mod_converse_mod(p, block_bytes, 4 * b + r, i);
    lemma_fundamental_div_mod_converse_div(4 * b + r, 4, b, r);
    lemma_fundamental_div_mod_converse_mod(4 * b + r, 4, b, r);
    let t = 4 * b + r;
    assert(t <= 4 * nb - 1);
    assert(t * block_bytes <= (4 * nb - 1) * block_bytes) by (nonlinear_arith)
        requires
            t <= 4 * nb - 1,
            block_bytes > 0,
    ;
    assert((4 * nb - 1) * block_bytes == 4 * row_bytes - block_bytes) by (nonlinear_arith)
        requires
            row_bytes == nb * block_bytes,
    ;
    assert(p < 4 * row_bytes);
    assert(0 <= p) by (nonlinear_arith)
        requires
            p == (4 * b + r) * block_bytes + i,
            b >= 0,
            r >= 0,
            i >= 0,
            block_bytes > 0,
    ;
}

/// Bytes per row of `k` weights in blocks of `block_bytes`.
pub open spec fn row_bytes_for(k: int, block_bytes: int) -> int {
    k / 256 * block_bytes
}

/// The four Q4_K rows of a fixture: `4 · row_bytes` bytes of the seed's stream,
/// each super-block's `d`/`dmin` bytes (bytes 0..4) overwritten with `header`.
pub open spec fn q4_k_fixture_rows(seed: u64, k: int, header: Seq<u8>) -> Seq<u8> {
    stamped_seq(lcg_byte_stream(seed, (4 * row_bytes_for(k, 144)) as nat), 144, 0, header)
}

/// The four Q6_K rows of a fixture: `4 · row_bytes` bytes of the seed's stream,
/// each super-block's `d` bytes (bytes 208..210) overwritten with `d`.
pub open spec fn q6_k_fixture_rows(seed: u64, k: int, d: Seq<u8>) -> Seq<u8> {
    stamped_seq(lcg_byte_stream(seed, (4 * row_bytes_for(k, 210)) as nat), 210, 208, d)
}

/// The weights of a four-row Q4_K fixture for reduction length `k`: the rows
/// one after another and the same rows in the Q4_K_R4 layout, with the row
/// length in bytes.
pub fn q4_k_weights(seed: u64, k: usize, header: &[u8]) -> (r: (Vec<u8>, Vec<u8>, usize))
    requires
        k % 256 == 0,
        header@.len() == 4,
        4 * row_bytes_for(k as int, 144) <= usize::MAX,
    ensures
        r.2 == row_bytes_for(k as int, 144),
        r.0@ == q4_k_fixture_rows(seed, k as int, header@),
        r.1@ == interleaved_rows4(r.0@, r.2 as int, 144),
{
    let row_bytes = k / QK_K * Q4_K_BLOCK_BYTES;
    let mut rows = lcg_bytes(seed, 4 * row_bytes);
    proof {
        assert(4 * row_bytes == (4 * (k / 256)) * 144) by (nonlinear_arith)
            requires
                row_bytes == k / 256 * 144,
        ;
        lemma_mod_multiples_basic(4 * (k as int / 256), 144);
    }
    stamp_block_field(&mut rows, Q4_K_BLOCK_BYTES, 0, header);
    proof {
        assert(row_bytes % 144 == 0) by {
            lemma_mod_multiples_basic(k as int / 256, 144);
        }
    }
    let packed = interleave_rows4(&rows, row_bytes, Q4_K_BLOCK_BYTES);
    (rows, packed, row_bytes)
}

/// The four rows of a Q6_K fixture for reduction length `k`, one after
/// another, with the row length in bytes.
pub fn q6_k_weights(seed: u64, k: usize, d: &[u8]) -> (r: (Vec<u8>, usize))
    requires
        k % 256 == 0,
        d@.len() == 2,
        4 * row_bytes_for(k as int, 210) <= usize::MAX,
    ensures
        r.1 == row_bytes_for(k as int, 210),
        r.0@ == q6_k_fixture_rows(seed, k as int, d@),
{
    let row_bytes = k / QK_K * Q6_K_BLOCK_BYTES;
    let mut rows = lcg_bytes(seed, 4 * row_bytes);
    proof {
        assert(4 * row_bytes == (4 * (k / 256)) * 210) by (nonlinear_arith)
            requires
                row_bytes == k / 256 * 210,
        ;
        lemma_mod_multiples_basic(4 * (k as int / 256), 210);
    }
    stamp_block_field(&mut rows, Q6_K_BLOCK_BYTES, 208, d);
    (rows, row_bytes)
}

/// A four-row group of weights and the Q8_K activations that cover it, as
/// plain integers: the rows one after another, the same rows interleaved,
/// the int8 activations and their 32-element partial sums. (The activations'
/// per-super-block float scales travel beside it.)
pub struct Fixture {
    pub rows: Vec<u8>,
    pub packed: Vec<u8>,
    pub row_bytes: usize,
    pub k: usize,
    pub x_i8: Vec<i8>,
    pub x_sums: Vec<i32>,
}

impl Fixture {
    /// Row `r` of the un-interleaved rows: `rows[r·row_bytes .. (r+1)·row_bytes]`.
    pub fn row(&self, r: usize) -> (s: &[u8])
        requires
            (r + 1) * self.row_bytes <= self.rows@.len(),
        ensures
            s@ == self.rows@.subrange(
                r * self.row_bytes as int,
                r * self.row_bytes + self.row_bytes,
            ),
    {
        let rb = self.row_bytes;
        let _n = self.rows.len();
        proof {
            assert((r + 1) * rb == r * rb + rb) by (nonlinear_arith);
            assert(0 <= r * rb) by (nonlinear_arith);
        }
        let start = r * self.row_bytes;
        &self.rows.as_slice()[start..start + self.row_bytes]
    }
}

/// Reduction lengths of the models the engine runs, with their labels.
pub fn shapes() -> (v: Vec<(&'static str, usize)>)
    ensures
        v@.len() == 5,
        v@[0].1 == 1536,
        v@[1].1 == 2048,
        v@[2].1 == 4096,
        v@[3].1 == 8960,
        v@[4].1 == 14336,
        v@[0].0@ == "qwen2.5-1.5b hidden"@,
        v@[1].0@ == "llama-3.2-1b hidden"@,
        v@[2].0@ == "mixtral-8x7b hidden"@,
        v@[3].0@ == "qwen2.5-1.5b ffn"@,
        v@[4].0@ == "mixtral-8x7b ffn"@,
        forall|i: int| 0 <= i < 5 ==> (#[trigger] v@[i]).1 % 256 == 0 && v@[i].1 > 0,
{
    let mut v: Vec<(&'static str, usize)> = Vec::new();
    v.push(("qwen2.5-1.5b hidden", 1536));
    v.push(("llama-3.2-1b hidden", 2048));
    v.push(("mixtral-8x7b hidden", 4096));
    v.push(("qwen2.5-1.5b ffn", 8960));
    v.push(("mixtral-8x7b ffn", 14336));
    v
}

} // verus!
