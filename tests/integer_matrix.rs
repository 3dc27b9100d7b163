use matmul::{Matrix, MatrixError, RayonMatrix, SimpleMatrix, SimpleMatrix2};

fn sample_a<S>() -> Matrix<i64, S> {
    Matrix::from(2, 3, vec![1, -2, 3, 4, 5, -6]).unwrap()
}

fn sample_b<S>() -> Matrix<i64, S> {
    Matrix::from(3, 2, vec![7, 8, -9, 10, 11, 12]).unwrap()
}

#[test]
fn strategies_agree_on_rectangular_operands() {
    let expected = vec![58, 24, -83, 10];
    let naive = sample_a::<matmul::Naive>().mul(&sample_b()).unwrap();
    let by_rows = sample_a::<matmul::Transposed>().mul(&sample_b()).unwrap();
    let parallel = sample_a::<matmul::Parallel>().mul(&sample_b()).unwrap();
    assert_eq!(naive.data(), &expected[..]);
    assert_eq!(by_rows.data(), &expected[..]);
    assert_eq!(parallel.data(), &expected[..]);
}

#[test]
fn integer_scenario_for_every_strategy() {
    let a = SimpleMatrix::from(2, 2, vec![1, 2, 3, 4]).unwrap();
    let b = SimpleMatrix::from(2, 2, vec![5, 6, 7, 8]).unwrap();
    assert_eq!(a.mul(&b).unwrap().data(), &[19, 22, 43, 50]);

    let a = SimpleMatrix2::from(2, 2, vec![1, 2, 3, 4]).unwrap();
    let b = SimpleMatrix2::from(2, 2, vec![5, 6, 7, 8]).unwrap();
    assert_eq!(a.mul(&b).unwrap().data(), &[19, 22, 43, 50]);

    let a = RayonMatrix::from(2, 2, vec![1, 2, 3, 4]).unwrap();
    let b = RayonMatrix::from(2, 2, vec![5, 6, 7, 8]).unwrap();
    assert_eq!(a.mul(&b).unwrap().data(), &[19, 22, 43, 50]);
}

#[test]
fn transpose_scenario() {
    let a = SimpleMatrix::from(2, 2, vec![1, 2, 3, 4]).unwrap();
    assert_eq!(a.transposed().data(), &[1, 3, 2, 4]);
}

#[test]
fn transpose_of_rectangular_swaps_shape() {
    let a: SimpleMatrix<i64> = sample_a();
    let t = a.transposed();
    assert_eq!((t.rows(), t.cols()), (3, 2));
    assert_eq!(t.data(), &[1, 4, -2, 5, 3, -6]);
}

#[test]
fn transpose_twice_gives_back_the_matrix() {
    let a: RayonMatrix<i64> = sample_a();
    let tt = a.transposed().transposed();
    assert_eq!((tt.rows(), tt.cols()), (2, 3));
    assert_eq!(tt.data(), a.data());
}

#[test]
fn identity_on_the_right_keeps_the_matrix() {
    let a: SimpleMatrix<i64> = sample_a();
    let id = SimpleMatrix::identity(3);
    assert_eq!(id.data(), &[1, 0, 0, 0, 1, 0, 0, 0, 1]);
    assert_eq!(a.mul(&id).unwrap().data(), a.data());

    let a: SimpleMatrix2<i64> = sample_a();
    assert_eq!(a.mul(&SimpleMatrix2::identity(3)).unwrap().data(), a.data());

    let a: RayonMatrix<i64> = sample_a();
    assert_eq!(a.mul(&RayonMatrix::identity(3)).unwrap().data(), a.data());
}

#[test]
fn identity_on_the_left_keeps_the_matrix() {
    let a: SimpleMatrix<i64> = sample_a();
    assert_eq!(SimpleMatrix::identity(2).mul(&a).unwrap().data(), a.data());
    let a: SimpleMatrix2<i64> = sample_a();
    assert_eq!(SimpleMatrix2::identity(2).mul(&a).unwrap().data(), a.data());
    let a: RayonMatrix<i64> = sample_a();
    assert_eq!(RayonMatrix::identity(2).mul(&a).unwrap().data(), a.data());
}

#[test]
fn dimension_mismatch_for_every_strategy() {
    let a: SimpleMatrix<i64> = sample_a();
    assert_eq!(a.mul(&sample_a()).unwrap_err(), MatrixError::DimensionMismatch);
    let a: SimpleMatrix2<i64> = sample_a();
    assert_eq!(a.mul(&sample_a()).unwrap_err(), MatrixError::DimensionMismatch);
    let a: RayonMatrix<i64> = sample_a();
    assert_eq!(a.mul(&sample_a()).unwrap_err(), MatrixError::DimensionMismatch);
}

#[test]
fn shape_mismatch_for_every_strategy() {
    assert_eq!(
        SimpleMatrix::from(2, 2, vec![1i64, 2, 3]).unwrap_err(),
        MatrixError::ShapeMismatch
    );
    assert_eq!(
        SimpleMatrix2::from(2, 2, vec![1i64, 2, 3, 4, 5]).unwrap_err(),
        MatrixError::ShapeMismatch
    );
    assert_eq!(
        RayonMatrix::from(3, 1, Vec::<i64>::new()).unwrap_err(),
        MatrixError::ShapeMismatch
    );
}

#[test]
fn shape_whose_size_overflows_is_a_mismatch() {
    assert_eq!(
        SimpleMatrix::from(usize::MAX, 2, vec![1i64]).unwrap_err(),
        MatrixError::ShapeMismatch
    );
}

#[test]
fn product_shape_is_rows_by_cols() {
    let a: SimpleMatrix<i64> = sample_a();
    let c = a.mul(&sample_b()).unwrap();
    assert_eq!((c.rows(), c.cols()), (2, 2));
    let b: RayonMatrix<i64> = sample_b();
    let c = b.mul(&sample_a()).unwrap();
    assert_eq!((c.rows(), c.cols()), (3, 3));
    assert_eq!(c.data(), &[39, 26, -27, 31, 68, -87, 59, 38, -39]);
    let b: SimpleMatrix2<i64> = sample_b();
    let c = b.mul(&sample_a()).unwrap();
    assert_eq!(c.data(), &[39, 26, -27, 31, 68, -87, 59, 38, -39]);
}

#[test]
fn new_is_zero_filled() {
    let z: SimpleMatrix<i64> = Matrix::new(2, 3);
    assert_eq!((z.rows(), z.cols()), (2, 3));
    assert_eq!(z.data(), &[0, 0, 0, 0, 0, 0]);
}

#[test]
fn empty_shapes_are_valid() {
    let a: RayonMatrix<i64> = Matrix::new(0, 3);
    let b: RayonMatrix<i64> = Matrix::new(3, 0);
    let c = a.mul(&b).unwrap();
    assert_eq!((c.rows(), c.cols()), (0, 0));
    let d = b.mul(&a).unwrap();
    assert_eq!((d.rows(), d.cols()), (3, 3));
    assert_eq!(d.data(), &[0; 9]);
    let e: SimpleMatrix<i64> = Matrix::from(0, 0, Vec::new()).unwrap();
    assert_eq!(e.transposed().data().len(), 0);
}

#[test]
fn rows_and_elements_are_checked() {
    let mut a: SimpleMatrix<i64> = sample_a();
    assert_eq!(a.row(1).unwrap(), &[4, 5, -6]);
    assert_eq!(a.row(2).unwrap_err(), MatrixError::OutOfRange);
    assert_eq!(a.get(0, 2), Ok(3));
    assert_eq!(a.get(2, 0), Err(MatrixError::OutOfRange));
    assert_eq!(a.get(0, 3), Err(MatrixError::OutOfRange));
    assert_eq!(a.set(1, 0, 40), Ok(()));
    assert_eq!(a.data(), &[1, -2, 3, 40, 5, -6]);
    assert_eq!(a.set(0, 3, 9), Err(MatrixError::OutOfRange));
    assert_eq!(a.data(), &[1, -2, 3, 40, 5, -6]);
}

#[test]
fn integer_arithmetic_wraps() {
    let a = SimpleMatrix::from(1, 2, vec![i64::MAX, 1]).unwrap();
    let b = SimpleMatrix::from(2, 1, vec![1, 1]).unwrap();
    assert_eq!(a.mul(&b).unwrap().data(), &[i64::MIN]);
    let a = RayonMatrix::from(1, 2, vec![i64::MAX, 1]).unwrap();
    let b = RayonMatrix::from(2, 1, vec![1, 1]).unwrap();
    assert_eq!(a.mul(&b).unwrap().data(), &[i64::MIN]);
}

#[test]
fn parallel_product_of_larger_operands_matches_naive() {
    let n: usize = 7;
    let m: usize = 5;
    let k: usize = 9;
    let left: Vec<i64> = (0..n * m).map(|x| (x as i64 * 37) % 23 - 11).collect();
    let right: Vec<i64> = (0..m * k).map(|x| (x as i64 * 19) % 17 - 8).collect();
    let naive = SimpleMatrix::from(n, m, left.clone())
        .unwrap()
        .mul(&SimpleMatrix::from(m, k, right.clone()).unwrap())
        .unwrap();
    let parallel = RayonMatrix::from(n, m, left.clone())
        .unwrap()
        .mul(&RayonMatrix::from(m, k, right.clone()).unwrap())
        .unwrap();
    let by_rows = SimpleMatrix2::from(n, m, left)
        .unwrap()
        .mul(&SimpleMatrix2::from(m, k, right).unwrap())
        .unwrap();
    assert_eq!(parallel.data(), naive.data());
    assert_eq!(by_rows.data(), naive.data());
    assert_eq!((parallel.rows(), parallel.cols()), (n, k));
}
