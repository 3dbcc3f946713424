use sapient::fixture::{
    interleave_rows4, lcg_bytes, lcg_draws, q4_k_weights, q6_k_weights, shapes, stamp_block_field,
    Fixture,
};

#[test]
fn lcg_bytes_known_values() {
    assert_eq!(lcg_bytes(0, 6), vec![191, 8, 17, 116, 109, 155]);
    assert_eq!(lcg_bytes(42, 4), vec![118, 82, 210, 31]);
    assert!(lcg_bytes(5, 0).is_empty());
}

#[test]
fn lcg_draws_known_values() {
    assert_eq!(
        lcg_draws(0, 6),
        vec![167951807, 218396424, 1299921937, 861605236, 823830125, 1204436891]
    );
    assert_eq!(lcg_draws(42, 4), vec![1220265334, 484179026, 886563538, 1353769503]);
}

#[test]
fn lcg_bytes_are_low_bytes_of_draws() {
    let b = lcg_bytes(0xDEAD_BEEF, 100);
    let d = lcg_draws(0xDEAD_BEEF, 100);
    for i in 0..100 {
        assert_eq!(b[i], d[i] as u8);
        assert!(d[i] < 0x8000_0000);
    }
}

#[test]
fn lcg_streams_extend() {
    let short = lcg_bytes(1337, 10);
    let long = lcg_bytes(1337, 50);
    assert_eq!(&long[..10], &short[..]);
}

#[test]
fn lcg_matches_wrapping_recurrence() {
    let mut s: u64 = 3;
    let got = lcg_bytes(3, 20);
    for b in got {
        s = s
            .wrapping_mul(6364136223846793005)
            .wrapping_add(1442695040888963407);
        assert_eq!(b, (s >> 33) as u8);
    }
}

#[test]
fn stamp_overwrites_only_the_field() {
    let mut rows = vec![0xAAu8; 30];
    stamp_block_field(&mut rows, 10, 2, &[1, 2, 3]);
    for p in 0..30 {
        let w = p % 10;
        let want = if (2..5).contains(&w) { (w - 1) as u8 } else { 0xAA };
        assert_eq!(rows[p], want, "byte {p}");
    }
}

#[test]
fn stamp_q6_k_scale_at_the_end_of_the_block() {
    let mut rows = lcg_bytes(11, 2 * 210);
    let before = rows.clone();
    stamp_block_field(&mut rows, 210, 208, &[0x1f, 0x29]);
    for p in 0..rows.len() {
        match p % 210 {
            208 => assert_eq!(rows[p], 0x1f),
            209 => assert_eq!(rows[p], 0x29),
            _ => assert_eq!(rows[p], before[p]),
        }
    }
}

#[test]
fn interleave_places_block_b_of_row_r_at_slot_4b_plus_r() {
    let bb = 3;
    let row_bytes = 2 * bb;
    let rows: Vec<u8> = (0..4 * row_bytes as u8).collect();
    let packed = interleave_rows4(&rows, row_bytes, bb);
    assert_eq!(
        packed,
        vec![0, 1, 2, 6, 7, 8, 12, 13, 14, 18, 19, 20, 3, 4, 5, 9, 10, 11, 15, 16, 17, 21, 22, 23]
    );
    for b in 0..2 {
        for r in 0..4 {
            for i in 0..bb {
                assert_eq!(packed[(4 * b + r) * bb + i], rows[r * row_bytes + b * bb + i]);
            }
        }
    }
}

#[test]
fn fixture_row_slices_the_rows() {
    let f = Fixture {
        rows: (0..12u8).collect(),
        packed: Vec::new(),
        row_bytes: 3,
        k: 0,
        x_i8: Vec::new(),
        x_sums: Vec::new(),
    };
    assert_eq!(f.row(0), &[0, 1, 2]);
    assert_eq!(f.row(3), &[9, 10, 11]);
}

#[test]
fn shapes_are_whole_super_blocks() {
    let s = shapes();
    let ks: Vec<usize> = s.iter().map(|(_, k)| *k).collect();
    assert_eq!(ks, vec![1536, 2048, 4096, 8960, 14336]);
    assert_eq!(s[0].0, "qwen2.5-1.5b hidden");
    assert_eq!(s[4].0, "mixtral-8x7b ffn");
    for k in ks {
        assert_eq!(k % 256, 0);
    }
}

#[test]
fn q4_k_weights_stamp_every_header_and_interleave() {
    let header = [0x1f, 0x29, 0x1f, 0x25];
    let (rows, packed, row_bytes) = q4_k_weights(0xC0FF_EE01, 512, &header);
    assert_eq!(row_bytes, 2 * 144);
    assert_eq!(rows.len(), 4 * row_bytes);
    let raw = lcg_bytes(0xC0FF_EE01, 4 * row_bytes);
    for p in 0..rows.len() {
        if p % 144 < 4 {
            assert_eq!(rows[p], header[p % 144]);
        } else {
            assert_eq!(rows[p], raw[p]);
        }
    }
    assert_eq!(packed, interleave_rows4(&rows, row_bytes, 144));
}

#[test]
fn q6_k_weights_stamp_d_only() {
    let (rows, row_bytes) = q6_k_weights(5, 256, &[0x1f, 0x29]);
    assert_eq!(row_bytes, 210);
    let raw = lcg_bytes(5, 4 * 210);
    for p in 0..rows.len() {
        match p % 210 {
            208 => assert_eq!(rows[p], 0x1f),
            209 => assert_eq!(rows[p], 0x29),
            _ => assert_eq!(rows[p], raw[p]),
        }
    }
}

#[test]
fn lcg_stream_shifts_by_one_step() {
    for seed in [0u64, 7, 0xDEAD_BEEF, u64::MAX] {
        let s1 = seed
            .wrapping_mul(6364136223846793005)
            .wrapping_add(1442695040888963407);
        let long = lcg_bytes(seed, 9);
        assert_eq!(long[0], (s1 >> 33) as u8);
        assert_eq!(&long[1..], &lcg_bytes(s1, 8)[..]);
    }
}
