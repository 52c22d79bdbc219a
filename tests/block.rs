use life::life_matrix::matrix::Matrix;

#[test]
fn matrix_can_set_and_get() {
    let mut matrix = Matrix::new(0b100 << 8 | 0b11);

    // get uninitialized bits
    assert_eq!(matrix.get(0, 0), false);
    assert_eq!(matrix.get(2, 3), false);

    // get initialized bits
    assert_eq!(matrix.get(5, 6), true);
    assert_eq!(matrix.get(6, 7), true);
    assert_eq!(matrix.get(7, 7), true);

    // modify initialized bits
    matrix.set(0, 0, false);
    matrix.set(2, 3, true);
    matrix.set(5, 6, false);

    // modify uninitialized bits
    matrix.set(6, 5, true);

    // get overwritten bits
    assert_eq!(matrix.get(0, 0), false);
    assert_eq!(matrix.get(2, 3), true);
    assert_eq!(matrix.get(5, 6), false);
    assert_eq!(matrix.get(6, 5), true);
}

#[test]
fn block_single_cell_from_zero() {
    let mut block = Matrix::new(0);
    block.set(5, 6, true);
    for x in 0..8 {
        for y in 0..8 {
            assert_eq!(block.get(x, y), x == 5 && y == 6, "cell ({}, {})", x, y);
        }
    }
}

#[test]
fn block_round_trip_keeps_other_cells() {
    let patterns: [u64; 3] = [0, u64::MAX, 0x0123_4567_89ab_cdef];
    for &initial in patterns.iter() {
        for x in 0..8 {
            for y in 0..8 {
                for &v in [false, true].iter() {
                    let mut block = Matrix::new(initial);
                    let before = Matrix::new(initial);
                    block.set(x, y, v);
                    assert_eq!(block.get(x, y), v);
                    for i in 0..8 {
                        for j in 0..8 {
                            if i != x || j != y {
                                assert_eq!(block.get(i, j), before.get(i, j));
                            }
                        }
                    }
                }
            }
        }
    }
}

#[test]
fn block_bit_layout() {
    // (7, 7) is bit 0, (0, 0) is bit 63, (0, 7) is bit 7.
    assert!(Matrix::new(1).get(7, 7));
    assert!(Matrix::new(1 << 63).get(0, 0));
    assert!(Matrix::new(1 << 7).get(0, 7));
    assert!(!Matrix::new(1 << 7).get(7, 0));
    assert!(Matrix::new(1 << 56).get(7, 0));
}
