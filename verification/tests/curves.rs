use voxt::curves::{FlatIdx, HilbertIdx, HilbertLinearIdx, MortonIdx};

#[test]
fn flat_roundtrip() {
    let input = [
        (11, 31, 5),
        (5, 1, 9),
        (4, 1, 11),
        (0, 8, 0),
        (14, 28, 14),
        (11, 11, 12),
    ];

    for (x, y, z) in input {
        let f = FlatIdx::encode(x, y, z);
        let (nx, ny, nz) = f.decode();
        assert_eq!((x, y, z), (nx, ny, nz));
    }
}

#[test]
fn morton_roundtrip() {
    let input = [
        (10, 0, 15),
        (5, 1, 8),
        (0, 0, 2),
        (11, 15, 15),
        (30, 31, 14),
        (0, 10, 1),
    ];

    for (x, y, z) in input {
        let m = MortonIdx::encode(x, y, z);
        let (nx, ny, nz) = m.decode();
        assert_eq!((x, y, z), (nx, ny, nz));
    }
}

#[test]
fn hilbert_linear_roundtrip() {
    let input = [
        (0, 31, 31),
        (15, 15, 15),
        (0, 0, 0),
        (1, 1, 20),
        (1, 7, 5),
        (15, 2, 8),
    ];

    for (x, y, z) in input {
        let h = HilbertLinearIdx::encode(x, y, z);
        let (nx, ny, nz) = h.decode();

        assert_eq!((x, y, z), (nx, ny, nz))
    }
}

#[test]
fn hilbert_roundtrip() {
    let input = [(0, 0), (127, 127), (63, 64), (1, 1), (100, 50), (112, 89)];

    for (x, z) in input {
        let h = HilbertIdx::encode(x, z);
        let (nx, nz) = h.decode();

        assert_eq!((x, z), (nx, nz))
    }
}

#[test]
fn flat_index_is_x_then_y_then_z() {
    assert_eq!(FlatIdx::encode(0, 0, 0).idx(), 0);
    assert_eq!(FlatIdx::encode(1, 0, 0).idx(), 1);
    assert_eq!(FlatIdx::encode(0, 1, 0).idx(), 32);
    assert_eq!(FlatIdx::encode(0, 0, 1).idx(), 1024);
    assert_eq!(FlatIdx::encode(31, 31, 31).idx(), 32767);
}

#[test]
fn every_flat_index_decodes_and_encodes_back() {
    for x in 0..32u8 {
        for y in 0..32u8 {
            for z in 0..32u8 {
                let f = FlatIdx::encode(x, y, z);
                assert_eq!(f.decode(), (x, y, z));
            }
        }
    }
}

#[test]
fn morton_interleaves_bits() {
    assert_eq!(MortonIdx::encode(0, 0, 0).idx(), 0);
    assert_eq!(MortonIdx::encode(1, 0, 0).idx(), 1);
    assert_eq!(MortonIdx::encode(0, 1, 0).idx(), 2);
    assert_eq!(MortonIdx::encode(0, 0, 1).idx(), 4);
    assert_eq!(MortonIdx::encode(31, 31, 31).idx(), 32767);
}

#[test]
fn every_morton_index_round_trips() {
    let mut seen = vec![false; 32768];
    for x in 0..32u8 {
        for y in 0..32u8 {
            for z in 0..32u8 {
                let m = MortonIdx::encode(x, y, z);
                assert_eq!(m.decode(), (x, y, z));
                assert!(!seen[m.idx() as usize]);
                seen[m.idx() as usize] = true;
            }
        }
    }
}

#[test]
fn every_hilbert_cell_round_trips_and_is_distinct() {
    let mut seen = vec![false; 65536];
    for x in 0..=255u8 {
        for z in 0..=255u8 {
            let h = HilbertIdx::encode(x, z);
            assert_eq!(h.decode(), (x, z));
            assert!(!seen[h.idx() as usize]);
            seen[h.idx() as usize] = true;
        }
    }
}

#[test]
fn hilbert_starts_at_origin() {
    assert_eq!(HilbertIdx::encode(0, 0).idx(), 0);
}

#[test]
fn every_hilbert_linear_cell_round_trips() {
    for x in 0..32u8 {
        for y in 0..32u8 {
            for z in 0..32u8 {
                let h = HilbertLinearIdx::encode(x, y, z);
                assert_eq!(h.decode(), (x, y, z));
            }
        }
    }
}

#[test]
fn consecutive_hilbert_indices_are_neighbours() {
    let mut points = vec![(0u8, 0u8); 65536];
    for x in 0..=255u8 {
        for z in 0..=255u8 {
            let h = HilbertIdx::encode(x, z);
            points[h.idx() as usize] = h.decode();
        }
    }
    for i in 0..65535usize {
        let (a, b) = (points[i], points[i + 1]);
        let d = (a.0 as i32 - b.0 as i32).abs() + (a.1 as i32 - b.1 as i32).abs();
        assert_eq!(d, 1, "indices {i} and {}", i + 1);
    }
}

#[test]
fn consecutive_linear_hilbert_columns_are_neighbours() {
    let mut points = vec![(0u8, 0u8, 0u8); 32768];
    for x in 0..32u8 {
        for y in 0..32u8 {
            for z in 0..32u8 {
                let h = HilbertLinearIdx::encode(x, y, z);
                points[h.idx() as usize] = h.decode();
            }
        }
    }
    for i in 0..(32768 - 32) {
        let (a, b) = (points[i], points[i + 32]);
        assert_eq!(a.1, b.1);
        let d = (a.0 as i32 - b.0 as i32).abs() + (a.2 as i32 - b.2 as i32).abs();
        assert_eq!(d, 1);
    }
}

#[test]
fn linear_hilbert_keeps_a_large_y_in_the_low_bits() {
    let base = HilbertLinearIdx::encode(0, 0, 0).idx();
    assert_eq!(HilbertLinearIdx::encode(0, 200, 0).idx(), base + 200);
    assert_eq!(HilbertLinearIdx::encode(0, 255, 0).idx(), base + 255);
    let top = HilbertLinearIdx::encode(31, 0, 0).idx();
    assert_eq!(HilbertLinearIdx::encode(31, 255, 0).idx(), top + 255);
}
