use n_linear_algebra::matrixes::matrix::Matrix;

#[test]
fn zero_eq_def() {
    let m1: Matrix<usize, 2, 2> = Matrix::new(0);
    let m2: Matrix<usize, 2, 2> = Matrix::default();

    assert_eq!(m1, m2);
}

#[test]
fn zero_plus_one() {
    let m0: Matrix<usize, 2, 2> = Matrix::default();
    let m1: Matrix<usize, 2, 2> = Matrix::new(1);

    assert_eq!(m0 + m1, m1);
}

#[test]
fn zero_times_one_both() {
    let m0: Matrix<usize, 2, 2> = Matrix::default();
    let m1: Matrix<usize, 2, 2> = Matrix::new(1);

    assert_eq!(m0 * m1, m0);
}

#[test]
fn zero_times_one() {
    let m0: Matrix<usize, 3, 2> = Matrix::default();
    let m1: Matrix<usize, 2, 1> = Matrix::new(1);

    assert_eq!(m0 * m1, Matrix::default());
}

#[test]
fn one_minus_one() {
    let m1: Matrix<isize, 2, 2> = Matrix::new(1);
    let mm1: Matrix<isize, 2, 2> = Matrix::new(-1);

    assert_eq!(m1 + mm1, Matrix::default());
}

#[test]
fn one_times_one() {
    let m1: Matrix<usize, 2, 2> = Matrix::new(1);

    assert_eq!(m1 * m1, Matrix::new(2));
}
