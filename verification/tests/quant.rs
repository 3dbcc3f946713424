use sapient::fixture::{interleave_rows4, lcg_bytes, stamp_block_field};
use sapient::quant::{
    get_scale_min_k4, q4_k_r4_super_block_sums, q4_k_row_super_block_sums, Q4_K_BLOCK_BYTES,
    QK_K,
};

fn sample_scales() -> Vec<u8> {
    vec![0xC1, 0x82, 0x43, 0x04, 0x05, 0x46, 0x87, 0xC8, 0x21, 0x43, 0x65, 0x87]
}

fn sample_block() -> Vec<u8> {
    let mut blk = vec![0u8, 0, 0, 0];
    blk.extend(sample_scales());
    for i in 0..128usize {
        blk.push(((i * 37 + 11) % 256) as u8);
    }
    blk
}

fn sample_activations() -> Vec<i8> {
    (0..256usize).map(|i| (((i * 13) % 256) as i32 - 128) as i8).collect()
}

#[test]
fn scale_min_unpacking_low_and_high_sub_blocks() {
    let s = sample_scales();
    let expected = [(1, 5), (2, 6), (3, 7), (4, 8), (49, 2), (35, 20), (21, 38), (7, 56)];
    for (j, want) in expected.iter().enumerate() {
        assert_eq!(get_scale_min_k4(j, &s), *want, "sub-block {j}");
    }
}

#[test]
fn scale_min_values_stay_below_64() {
    let s = vec![0xFFu8; 12];
    for j in 0..8 {
        let (sc, m) = get_scale_min_k4(j, &s);
        assert_eq!((sc, m), (63, 63));
    }
}

#[test]
fn single_block_integer_sums() {
    let blk = sample_block();
    let x = sample_activations();
    let sums = vec![100, -200, 300, -400, 500, -600, 700, -800];
    assert_eq!(q4_k_row_super_block_sums(&blk, 0, &x, &sums), (213888, -31000));
}

#[test]
fn extreme_block_stays_in_range() {
    // Every nibble 15, every activation -128, every scale 63.
    let mut blk = vec![0u8; 4];
    blk.extend(vec![0xFFu8; 12]);
    blk.extend(vec![0xFFu8; 128]);
    let x = vec![-128i8; 256];
    let sums = vec![0i32; 8];
    let (isum, imin) = q4_k_row_super_block_sums(&blk, 0, &x, &sums);
    assert_eq!(isum, -(63 * 15 * 128 * 32 * 8));
    assert_eq!(imin, 0);
}

#[test]
fn huge_partial_sums_wrap_like_release_arithmetic() {
    let mut blk = vec![0u8; 4];
    blk.extend(vec![0xFFu8; 12]);
    blk.extend(vec![0u8; 128]);
    let x = vec![0i8; 256];
    let sums = vec![i32::MAX; 8];
    let (_, imin) = q4_k_row_super_block_sums(&blk, 0, &x, &sums);
    let exact: i64 = 63 * 8 * (i32::MAX as i64);
    assert_eq!(imin, exact as i32);
    let mut wrapped: i32 = 0;
    for _ in 0..8 {
        wrapped = wrapped.wrapping_add(63i32.wrapping_mul(i32::MAX));
    }
    assert_eq!(imin, wrapped);
}

#[test]
fn second_super_block_reads_its_own_activations() {
    let mut row = vec![0u8; Q4_K_BLOCK_BYTES];
    row.extend(sample_block());
    let mut x = vec![0i8; 256];
    x.extend(sample_activations());
    let mut sums = vec![0i32; 8];
    sums.extend(vec![100, -200, 300, -400, 500, -600, 700, -800]);
    assert_eq!(q4_k_row_super_block_sums(&row, 1, &x, &sums), (213888, -31000));
    assert_eq!(q4_k_row_super_block_sums(&row, 0, &x, &sums), (0, 0));
}

#[test]
fn r4_group_sums_equal_single_row_sums() {
    let k = 3 * QK_K;
    let row_bytes = k / QK_K * Q4_K_BLOCK_BYTES;
    let mut rows = lcg_bytes(7, 4 * row_bytes);
    stamp_block_field(&mut rows, Q4_K_BLOCK_BYTES, 0, &[0x1f, 0x29, 0x1f, 0x25]);
    let packed = interleave_rows4(&rows, row_bytes, Q4_K_BLOCK_BYTES);
    let x: Vec<i8> = lcg_bytes(99, k).iter().map(|b| *b as i8).collect();
    let sums: Vec<i32> = (0..k / 32)
        .map(|j| x[32 * j..32 * j + 32].iter().map(|v| *v as i32).sum())
        .collect();
    for b in 0..k / QK_K {
        let (isum, imin) = q4_k_r4_super_block_sums(&packed, b, &x, &sums);
        for r in 0..4 {
            let row = &rows[r * row_bytes..(r + 1) * row_bytes];
            let (want_isum, want_imin) = q4_k_row_super_block_sums(row, b, &x, &sums);
            assert_eq!(isum[r], want_isum, "block {b} row {r}");
            assert_eq!(imin[r], want_imin, "block {b} row {r}");
        }
    }
}

#[test]
fn consistent_partial_sums_give_exact_imin() {
    let blk = sample_block();
    let x = sample_activations();
    let sums: Vec<i32> = (0..8)
        .map(|j| x[32 * j..32 * j + 32].iter().map(|v| *v as i32).sum())
        .collect();
    let (_, imin) = q4_k_row_super_block_sums(&blk, 0, &x, &sums);
    let s = sample_scales();
    let mut exact: i64 = 0;
    for j in 0..8 {
        let (_, m) = get_scale_min_k4(j, &s);
        exact += m as i64 * sums[j] as i64;
    }
    assert_eq!(imin as i64, exact);
}
