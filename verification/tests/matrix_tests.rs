use matrix::Matrix;

/// Builds a matrix from columns of binary64 values.
fn mx(cols: Vec<Vec<f64>>) -> Matrix {
    let bits: Vec<Vec<u64>> = cols
        .into_iter()
        .map(|c| c.into_iter().map(f64::to_bits).collect())
        .collect();
    Matrix::from_vec(bits).expect("rectangular input")
}

/// Reads the entry in column `i`, row `j` as a binary64 value.
fn gf(m: &Matrix, i: usize, j: usize) -> f64 {
    f64::from_bits(m.get(i, j).expect("entry in bounds"))
}

#[test]
fn new_reports_its_size_and_is_zero_filled() {
    let m = Matrix::new(2, 3);
    assert_eq!(m.size(), (2, 3));
    for i in 0..2 {
        for j in 0..3 {
            assert_eq!(m.get(i, j), Some(0.0f64.to_bits()));
            assert_eq!(gf(&m, i, j), 0.0);
        }
    }
    assert_eq!(m.get(2, 0), None);
    assert_eq!(m.get(0, 3), None);
    assert_eq!(Matrix::new(0, 0).size(), (0, 0));
}

#[test]
fn new_with_no_columns_reports_height_zero() {
    let m = Matrix::new(0, 5);
    assert_eq!(m.size(), (0, 0));
    assert_eq!(m.get(0, 0), None);
    let n = Matrix::new(3, 0);
    assert_eq!(n.size(), (3, 0));
    assert_eq!(n.get(0, 0), None);
}

#[test]
fn from_vec_round_trip() {
    let data = vec![vec![1.0, 2.0], vec![3.0, 4.0], vec![5.0, 6.0]];
    let m = mx(data.clone());
    assert_eq!(m.size(), (3, 2));
    for i in 0..3 {
        for j in 0..2 {
            assert_eq!(gf(&m, i, j), data[i][j]);
        }
    }
}

#[test]
fn from_vec_rejects_jagged_input() {
    let jagged = vec![
        vec![1.0f64.to_bits(), 2.0f64.to_bits()],
        vec![3.0f64.to_bits()],
    ];
    assert!(Matrix::from_vec(jagged).is_none());
    assert!(Matrix::from_vec(vec![]).is_none());
}

#[test]
fn from_vec_accepts_empty_columns() {
    let m = Matrix::from_vec(vec![vec![], vec![]]).expect("equal column lengths");
    assert_eq!(m.size(), (2, 0));
    assert_eq!(m.get(0, 0), None);
}

#[test]
fn set_then_get_returns_the_written_value() {
    let mut m = Matrix::new(2, 2);
    assert_eq!(m.set(1, 0, 7.5f64.to_bits()), Some(()));
    assert_eq!(gf(&m, 1, 0), 7.5);
    assert_eq!(gf(&m, 0, 0), 0.0);
    assert_eq!(gf(&m, 0, 1), 0.0);
    assert_eq!(gf(&m, 1, 1), 0.0);
}

#[test]
fn set_out_of_bounds_fails_and_changes_nothing() {
    let mut m = mx(vec![vec![1.0, 2.0], vec![3.0, 4.0]]);
    assert_eq!(m.set(2, 0, 9.0f64.to_bits()), None);
    assert_eq!(m.set(0, 2, 9.0f64.to_bits()), None);
    assert_eq!(gf(&m, 0, 0), 1.0);
    assert_eq!(gf(&m, 0, 1), 2.0);
    assert_eq!(gf(&m, 1, 0), 3.0);
    assert_eq!(gf(&m, 1, 1), 4.0);
}

#[test]
fn add_matches_binary64_addition_and_commutes() {
    let a = mx(vec![vec![1.5, -2.25], vec![1.0e300, 0.1]]);
    let b = mx(vec![vec![2.5, 0.75], vec![1.0e300, 0.2]]);
    let ab = a.add_with(&b).expect("same shape");
    let ba = b.add_with(&a).expect("same shape");
    let lhs: [[f64; 2]; 2] = [[1.5, -2.25], [1.0e300, 0.1]];
    let rhs: [[f64; 2]; 2] = [[2.5, 0.75], [1.0e300, 0.2]];
    for i in 0..2 {
        for j in 0..2 {
            let expected = (lhs[i][j] + rhs[i][j]).to_bits();
            assert_eq!(ab.get(i, j), Some(expected));
            assert_eq!(ba.get(i, j), Some(expected));
        }
    }
}

#[test]
fn add_propagates_nan_and_infinity() {
    let a = mx(vec![vec![f64::NAN, f64::INFINITY]]);
    let b = mx(vec![vec![1.0, 2.0]]);
    let s = a.add_with(&b).expect("same shape");
    assert!(gf(&s, 0, 0).is_nan());
    assert_eq!(gf(&s, 0, 1), f64::INFINITY);
    let opposite = mx(vec![vec![f64::NEG_INFINITY]]);
    let inf = mx(vec![vec![f64::INFINITY]]);
    let d = inf.add_with(&opposite).expect("same shape");
    assert!(gf(&d, 0, 0).is_nan());
}

#[test]
fn add_rejects_a_shape_mismatch() {
    let a = Matrix::new(2, 2);
    let b = Matrix::new(3, 3);
    assert!(a.add_with(&b).is_none());
    assert!(b.add_with(&a).is_none());
    let c = Matrix::new(2, 3);
    assert!(a.add_with(&c).is_none());
}

#[test]
fn transpose_swaps_coordinates() {
    let m = mx(vec![vec![1.0, 2.0, 3.0], vec![4.0, 5.0, 6.0]]);
    let t = m.transpose();
    assert_eq!(t.size(), (3, 2));
    for i in 0..2 {
        for j in 0..3 {
            assert_eq!(gf(&t, j, i), gf(&m, i, j));
        }
    }
}

#[test]
fn transpose_is_involutive() {
    let m = mx(vec![vec![1.0, 2.0, 3.0], vec![4.0, 5.0, 6.0]]);
    let tt = m.transpose().transpose();
    assert_eq!(tt.size(), m.size());
    for i in 0..2 {
        for j in 0..3 {
            assert_eq!(tt.get(i, j), m.get(i, j));
        }
    }
}

#[test]
fn transpose_of_empty_columns_is_the_empty_matrix() {
    let m = Matrix::new(3, 0);
    let t = m.transpose();
    assert_eq!(t.size(), (0, 0));
    assert_eq!(t.transpose().size(), (0, 0));
}

#[test]
fn mul_worked_example() {
    // Columns (1,3) and (2,4) store the logical rows (1,2) and (3,4);
    // squaring that matrix gives logical rows (7,10) and (15,22), that
    // is, columns (7,15) and (10,22).
    let a = mx(vec![vec![1.0, 3.0], vec![2.0, 4.0]]);
    let b = mx(vec![vec![1.0, 3.0], vec![2.0, 4.0]]);
    let p = a.mul_with(&b).expect("matching shapes");
    assert_eq!(p.size(), (2, 2));
    assert_eq!(gf(&p, 0, 0), 7.0);
    assert_eq!(gf(&p, 0, 1), 15.0);
    assert_eq!(gf(&p, 1, 0), 10.0);
    assert_eq!(gf(&p, 1, 1), 22.0);
}

#[test]
fn mul_rectangular_shapes() {
    // One column of two rows times two columns of one row: a 2x1 by 1x2
    // logical product, giving two columns of two rows.
    let a = mx(vec![vec![1.0, 2.0]]);
    let b = mx(vec![vec![3.0], vec![4.0]]);
    let p = a.mul_with(&b).expect("matching shapes");
    assert_eq!(p.size(), (2, 2));
    assert_eq!(gf(&p, 0, 0), 3.0);
    assert_eq!(gf(&p, 0, 1), 6.0);
    assert_eq!(gf(&p, 1, 0), 4.0);
    assert_eq!(gf(&p, 1, 1), 8.0);
}

#[test]
fn mul_rejects_a_contraction_mismatch() {
    // The left operand's column count must equal the right operand's row
    // count.
    let a = mx(vec![vec![1.0, 2.0], vec![3.0, 4.0]]);
    let b = mx(vec![vec![1.0, 2.0, 3.0], vec![4.0, 5.0, 6.0]]);
    assert!(a.mul_with(&b).is_none());
    assert!(Matrix::new(2, 5).mul_with(&Matrix::new(4, 3)).is_none());
}

#[test]
fn dot_of_two_three_column_vectors() {
    let a = mx(vec![vec![1.0], vec![2.0], vec![3.0]]);
    let b = mx(vec![vec![4.0], vec![5.0], vec![6.0]]);
    assert_eq!(a.dot_with(&b), Some(32.0f64.to_bits()));
    assert_eq!(b.dot_with(&a), Some(32.0f64.to_bits()));
}

#[test]
fn dot_of_zero_length_vectors_is_no_value() {
    let a = Matrix::new(0, 0);
    let b = Matrix::new(0, 0);
    assert_eq!(a.dot_with(&b), None);
    let c = Matrix::from_vec(vec![vec![]]).expect("one empty column");
    let d = Matrix::from_vec(vec![vec![]]).expect("one empty column");
    assert_eq!(c.dot_with(&d), None);
}

#[test]
fn dot_rejects_non_vectors_and_shape_mismatches() {
    let tall = Matrix::new(3, 2);
    assert_eq!(tall.dot_with(&tall), None);
    let a = mx(vec![vec![1.0], vec![2.0]]);
    let b = mx(vec![vec![1.0], vec![2.0], vec![3.0]]);
    assert_eq!(a.dot_with(&b), None);
}

#[test]
fn cross_of_unit_vectors() {
    let x = mx(vec![vec![1.0], vec![0.0], vec![0.0]]);
    let y = mx(vec![vec![0.0], vec![1.0], vec![0.0]]);
    let z = x.cross_with(&y).expect("three columns, one row");
    assert_eq!(z.size(), (3, 1));
    assert_eq!(gf(&z, 0, 0), 0.0);
    assert_eq!(gf(&z, 1, 0), 0.0);
    assert_eq!(gf(&z, 2, 0), 1.0);
}

#[test]
fn cross_matches_the_component_formula() {
    let a = mx(vec![vec![1.0], vec![2.0], vec![3.0]]);
    let b = mx(vec![vec![4.0], vec![5.0], vec![6.0]]);
    let c = a.cross_with(&b).expect("three columns, one row");
    assert_eq!(gf(&c, 0, 0), 2.0 * 6.0 - 3.0 * 5.0);
    assert_eq!(gf(&c, 1, 0), 3.0 * 4.0 - 1.0 * 6.0);
    assert_eq!(gf(&c, 2, 0), 1.0 * 5.0 - 2.0 * 4.0);
}

#[test]
fn cross_rejects_other_shapes() {
    let two = mx(vec![vec![1.0], vec![2.0]]);
    let three = mx(vec![vec![1.0], vec![0.0], vec![0.0]]);
    assert!(two.cross_with(&three).is_none());
    assert!(three.cross_with(&two).is_none());
    let tall = Matrix::new(3, 2);
    assert!(tall.cross_with(&three).is_none());
}
