use math::Mat;

fn mat(rows: &[&[f32]]) -> Mat {
    let data: Vec<Vec<u32>> = rows
        .iter()
        .map(|r| r.iter().map(|x| x.to_bits()).collect())
        .collect();
    Mat::from_rows(data)
}

fn cell(m: &Mat, i: usize, j: usize) -> f32 {
    f32::from_bits(m.entry(i, j))
}

fn assert_cells(m: &Mat, expected: &[&[f32]]) {
    let (rows, cols) = m.dim();
    assert_eq!(rows, expected.len());
    for i in 0..rows {
        assert_eq!(cols, expected[i].len());
        for j in 0..cols {
            assert_eq!(cell(m, i, j), expected[i][j], "cell ({i}, {j})");
        }
    }
}

#[test]
fn test() {
    let m: Mat = mat(&[
        &[1., -2., 3.],
        &[4., 0., 6.],
        &[-7., 8., 9.],
    ]);

    println!("{m:?}");
    println!("{det}", det = f32::from_bits(m.det()));
    let n = m.transpose();
    println!("{n:?}")
}

#[test]
fn zero_fills_every_cell() {
    let z = Mat::zero(2, 3);
    assert_eq!(z.dim(), (2, 3));
    assert_cells(&z, &[&[0., 0., 0.], &[0., 0., 0.]]);
}

#[test]
fn scalar_puts_value_on_diagonal() {
    let s = Mat::scalar(3, 2.5f32.to_bits());
    assert_cells(&s, &[&[2.5, 0., 0.], &[0., 2.5, 0.], &[0., 0., 2.5]]);
}

#[test]
fn identity_is_scalar_one() {
    let e = Mat::identity(2);
    assert_cells(&e, &[&[1., 0.], &[0., 1.]]);
}

#[test]
fn row_and_column_copy_the_right_cells() {
    let m = mat(&[&[1., 2., 3.], &[4., 5., 6.]]);
    let r: Vec<f32> = m.row(1).into_iter().map(f32::from_bits).collect();
    assert_eq!(r, vec![4., 5., 6.]);
    let c: Vec<f32> = m.column(2).into_iter().map(f32::from_bits).collect();
    assert_eq!(c, vec![3., 6.]);
}

#[test]
fn set_row_replaces_one_row() {
    let mut m = mat(&[&[1., 2.], &[3., 4.]]);
    m.set_row(0, vec![9f32.to_bits(), 8f32.to_bits()]);
    assert_cells(&m, &[&[9., 8.], &[3., 4.]]);
}

#[test]
fn transpose_swaps_rows_and_columns() {
    let m = mat(&[&[1., 2., 3.], &[4., 5., 6.]]);
    let t = m.transpose();
    assert_eq!(t.dim(), (3, 2));
    assert_cells(&t, &[&[1., 4.], &[2., 5.], &[3., 6.]]);
}

#[test]
fn transpose_twice_is_identity_map() {
    let m = mat(&[&[1., -2., 3.5], &[4., 0., -6.25]]);
    let back = m.transpose().transpose();
    assert_cells(&back, &[&[1., -2., 3.5], &[4., 0., -6.25]]);
}

#[test]
fn add_is_elementwise() {
    let a = mat(&[&[1., 2.], &[3., 4.]]);
    let b = mat(&[&[10., 20.], &[30., 40.]]);
    assert_cells(&a.add(&b), &[&[11., 22.], &[33., 44.]]);
}

#[test]
fn add_commutes() {
    let a = mat(&[&[1.5, -2.], &[0.25, 4.]]);
    let b = mat(&[&[-7., 3.], &[8., 0.125]]);
    let ab = a.add(&b);
    let ba = b.add(&a);
    for i in 0..2 {
        for j in 0..2 {
            assert_eq!(ab.entry(i, j), ba.entry(i, j));
        }
    }
}

#[test]
fn add_of_negation_gives_zero() {
    let a = mat(&[&[1.5, -2.], &[0.25, 4.]]);
    let n = a.neg();
    assert_cells(&a.add(&n), &[&[0., 0.], &[0., 0.]]);
}

#[test]
fn sub_of_itself_gives_zero() {
    let a = mat(&[&[1., -2., 3.], &[4., 5., -6.]]);
    assert_cells(&a.sub(&a), &[&[0., 0., 0.], &[0., 0., 0.]]);
}

#[test]
fn sub_is_elementwise() {
    let a = mat(&[&[5., 7.], &[9., 11.]]);
    let b = mat(&[&[1., 2.], &[3., 4.]]);
    assert_cells(&a.sub(&b), &[&[4., 5.], &[6., 7.]]);
}

#[test]
fn neg_flips_every_sign() {
    let a = mat(&[&[1.5, -2.], &[0., 4.]]);
    assert_cells(&a.neg(), &[&[-1.5, 2.], &[0., -4.]]);
}

#[test]
fn scale_reaches_every_cell_of_a_non_square_matrix() {
    let a = mat(&[&[1., 2., 3., 4.], &[5., 6., 7., 8.]]);
    let doubled = a.scale(2f32.to_bits());
    assert_cells(&doubled, &[&[2., 4., 6., 8.], &[10., 12., 14., 16.]]);
}

#[test]
fn scale_reaches_cells_outside_a_three_by_three_window() {
    let a = mat(&[
        &[1., 1., 1., 1.],
        &[1., 1., 1., 1.],
        &[1., 1., 1., 1.],
        &[1., 1., 1., 1.],
    ]);
    let doubled = a.scale(2f32.to_bits());
    for i in 0..4 {
        for j in 0..4 {
            assert_eq!(cell(&doubled, i, j), 2., "cell ({i}, {j})");
        }
    }
}

#[test]
fn div_scales_by_reciprocal() {
    let a = mat(&[&[2., 4.], &[8., 16.]]);
    assert_cells(&a.div(2f32.to_bits()), &[&[1., 2.], &[4., 8.]]);
}

#[test]
fn compound_operators_match_plain_ones() {
    let b = mat(&[&[5., 6.], &[7., 8.]]);
    let mut m = mat(&[&[1., 2.], &[3., 4.]]);
    m.add_assign(&b);
    assert_cells(&m, &[&[6., 8.], &[10., 12.]]);
    let mut m = mat(&[&[1., 2.], &[3., 4.]]);
    m.sub_assign(&b);
    assert_cells(&m, &[&[-4., -4.], &[-4., -4.]]);
    let mut m = mat(&[&[1., 2.], &[3., 4.]]);
    m.scale_assign(3f32.to_bits());
    assert_cells(&m, &[&[3., 6.], &[9., 12.]]);
    let mut m = mat(&[&[2., 4.], &[6., 8.]]);
    m.div_assign(2f32.to_bits());
    assert_cells(&m, &[&[1., 2.], &[3., 4.]]);
}

#[test]
fn mul_is_the_matrix_product() {
    let a = mat(&[&[1., 2.], &[3., 4.]]);
    let b = mat(&[&[5., 6.], &[7., 8.]]);
    assert_cells(&a.mul(&b), &[&[19., 22.], &[43., 50.]]);
}

#[test]
fn mul_handles_rectangular_shapes() {
    let a = mat(&[&[1., 2., 3.]]);
    let b = mat(&[&[4.], &[5.], &[6.]]);
    let p = a.mul(&b);
    assert_eq!(p.dim(), (1, 1));
    assert_eq!(cell(&p, 0, 0), 32.);
}
