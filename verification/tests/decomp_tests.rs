use math::Mat;

fn mat(rows: &[&[f32]]) -> Mat {
    let data: Vec<Vec<u32>> = rows
        .iter()
        .map(|r| r.iter().map(|x| x.to_bits()).collect())
        .collect();
    Mat::from_rows(data)
}

fn cell(m: &Mat, i: usize, j: usize) -> f32 {
    f32::from_bits(m.entry(i, j))
}

fn assert_cells(m: &Mat, expected: &[&[f32]]) {
    let (rows, cols) = m.dim();
    assert_eq!(rows, expected.len());
    for i in 0..rows {
        assert_eq!(cols, expected[i].len());
        for j in 0..cols {
            assert_eq!(cell(m, i, j), expected[i][j], "cell ({i}, {j})");
        }
    }
}

#[test]
fn lu_of_identity_is_identity_twice() {
    let e = Mat::identity(3);
    let (l, u) = e.lu_decomposition();
    assert_cells(&l, &[&[1., 0., 0.], &[0., 1., 0.], &[0., 0., 1.]]);
    assert_cells(&u, &[&[1., 0., 0.], &[0., 1., 0.], &[0., 0., 1.]]);
}

#[test]
fn lu_product_reconstructs_the_matrix() {
    let a = mat(&[&[1., -2., 3.], &[4., 0., 6.], &[-7., 8., 9.]]);
    let (l, u) = a.lu_decomposition();
    // L is unit lower-triangular, U upper-triangular.
    for i in 0..3 {
        assert_eq!(cell(&l, i, i), 1.);
        for j in 0..3 {
            if j > i {
                assert_eq!(cell(&l, i, j), 0.);
            }
            if j < i {
                assert_eq!(cell(&u, i, j), 0.);
            }
        }
    }
    let p = l.mul(&u);
    for i in 0..3 {
        for j in 0..3 {
            assert!((cell(&p, i, j) - cell(&a, i, j)).abs() <= 1e-5, "cell ({i}, {j})");
        }
    }
}

#[test]
fn det_of_identity_is_one() {
    assert_eq!(f32::from_bits(Mat::identity(1).det()), 1.);
    assert_eq!(f32::from_bits(Mat::identity(2).det()), 1.);
    assert_eq!(f32::from_bits(Mat::identity(4).det()), 1.);
}

#[test]
fn det_three_by_three_is_204() {
    let a = mat(&[&[1., -2., 3.], &[4., 0., 6.], &[-7., 8., 9.]]);
    let det = f32::from_bits(a.det());
    assert!((det - 204.).abs() <= 1e-3, "det was {det}");
}

#[test]
fn det_two_by_two_uses_the_closed_form() {
    let a = mat(&[&[1., -2.], &[4., 0.]]);
    assert_eq!(f32::from_bits(a.det()), 8.);
}

#[test]
fn minor_deletes_one_row_and_one_column() {
    let a = mat(&[&[1., 2., 3.], &[4., 5., 6.], &[7., 8., 9.]]);
    let m = a.minor(0, 1);
    assert_eq!(m.dim(), (2, 2));
    assert_cells(&m, &[&[4., 6.], &[7., 9.]]);
}

#[test]
fn adjugate_two_by_two() {
    let a = mat(&[&[1., 2.], &[3., 4.]]);
    assert_cells(&a.adjugate(), &[&[4., -2.], &[-3., 1.]]);
}

#[test]
fn invertible_returns_the_inverse() {
    let a = mat(&[&[1., 2.], &[3., 4.]]);
    let inv = a.invertible().expect("determinant is -2, not zero");
    assert_cells(&inv, &[&[-2., 1.], &[1.5, -0.5]]);
}

#[test]
fn invertible_reports_a_singular_matrix() {
    let a = mat(&[&[1., 2.], &[2., 4.]]);
    let err = a.invertible().expect_err("determinant is zero");
    assert_eq!(err, "singular matrix");
}

#[test]
fn zero_pivot_propagates_non_finite_cells() {
    // No pivoting: a zero in the leading position makes the lower fill
    // divide by zero instead of failing.
    let a = mat(&[&[0., 1.], &[1., 0.]]);
    let (l, _u) = a.lu_decomposition();
    assert!(!cell(&l, 1, 0).is_finite());
}
