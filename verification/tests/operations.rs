use n_linear_algebra::matrixes::matrix::Matrix;

fn sample() -> Matrix<i64, 2, 3> {
    Matrix::from([[1, -2, 3], [4, 5, -6]])
}

#[test]
fn new_fills_every_cell() {
    let m: Matrix<u32, 2, 3> = Matrix::new(7);
    assert_eq!(m, Matrix::from([[7, 7, 7], [7, 7, 7]]));
}

#[test]
fn new_of_zero_equals_default_for_each_element_type() {
    assert_eq!(Matrix::<i32, 3, 2>::new(0), Matrix::<i32, 3, 2>::default());
    assert_eq!(Matrix::<u64, 1, 4>::new(0), Matrix::<u64, 1, 4>::default());
    assert_eq!(Matrix::<isize, 2, 2>::new(0), Matrix::<isize, 2, 2>::default());
}

#[test]
fn default_is_all_zero() {
    let m: Matrix<i32, 2, 2> = Matrix::default();
    assert_eq!(m, Matrix::from([[0, 0], [0, 0]]));
}

#[test]
fn literal_round_trip_by_get() {
    let literal = [[1u64, 2, 3], [4, 5, 6]];
    let m = Matrix::from(literal);
    for row in 0..2 {
        for col in 0..3 {
            assert_eq!(m.get(row, col), Some(&literal[row][col]));
        }
    }
}

#[test]
fn literal_round_trip_by_index() {
    let literal = [[1u64, 2, 3], [4, 5, 6]];
    let m = Matrix::from(literal);
    for row in 0..2 {
        for col in 0..3 {
            assert_eq!(m[row][col], literal[row][col]);
        }
    }
    assert_eq!(*m, literal);
}

#[test]
fn get_outside_the_matrix_is_none() {
    let m = sample();
    assert_eq!(m.get(2, 0), None);
    assert_eq!(m.get(0, 3), None);
    assert_eq!(m.get(usize::MAX, usize::MAX), None);
    assert_eq!(m.get(1, 2), Some(&-6));
}

#[test]
fn set_writes_one_cell() {
    let mut m = sample();
    assert_eq!(m.set(1, 0, 40), None);
    assert_eq!(m, Matrix::from([[1, -2, 3], [40, 5, -6]]));
}

#[test]
fn set_outside_the_matrix_changes_nothing() {
    let mut m = sample();
    assert_eq!(m.set(2, 0, 9), Some(9));
    assert_eq!(m.set(0, 3, 9), Some(9));
    assert_eq!(m, sample());
}

#[test]
fn index_assignment_writes_one_cell() {
    let mut m = sample();
    m[0][2] = 30;
    assert_eq!(m, Matrix::from([[1, -2, 30], [4, 5, -6]]));
}

#[test]
fn transpose_swaps_rows_and_columns() {
    let t: Matrix<i64, 3, 2> = sample().transpose();
    assert_eq!(t, Matrix::from([[1, 4], [-2, 5], [3, -6]]));
}

#[test]
fn transpose_twice_is_identity() {
    let m = sample();
    assert_eq!(m.transpose().transpose(), m);
    let row: Matrix<u32, 1, 4> = Matrix::from([[9, 8, 7, 6]]);
    assert_eq!(row.transpose().transpose(), row);
}

#[test]
fn add_is_cell_by_cell() {
    let a = sample();
    let b: Matrix<i64, 2, 3> = Matrix::from([[10, 20, 30], [40, 50, 60]]);
    assert_eq!(a + b, Matrix::from([[11, 18, 33], [44, 55, 54]]));
}

#[test]
fn add_zero_on_either_side() {
    let a = sample();
    let zero: Matrix<i64, 2, 3> = Matrix::default();
    assert_eq!(a + zero, a);
    assert_eq!(zero + a, a);
}

#[test]
fn add_reaches_the_largest_value() {
    let a: Matrix<u32, 1, 2> = Matrix::from([[u32::MAX - 1, 0]]);
    let b: Matrix<u32, 1, 2> = Matrix::from([[1, u32::MAX]]);
    assert_eq!(a + b, Matrix::new(u32::MAX));
}

#[test]
fn mul_two_by_two() {
    let a: Matrix<usize, 2, 2> = Matrix::from([[1, 2], [3, 4]]);
    let b: Matrix<usize, 2, 2> = Matrix::from([[5, 6], [7, 8]]);
    assert_eq!(a * b, Matrix::from([[19, 22], [43, 50]]));
    assert_eq!(b * a, Matrix::from([[23, 34], [31, 46]]));
}

#[test]
fn mul_of_conformable_shapes() {
    let a = sample();
    let b: Matrix<i64, 3, 2> = Matrix::from([[1, 2], [3, 4], [5, 6]]);
    let product: Matrix<i64, 2, 2> = a * b;
    assert_eq!(product, Matrix::from([[10, 12], [-11, -8]]));
    let other: Matrix<i64, 3, 3> = b * a;
    assert_eq!(other, Matrix::from([[9, 8, -9], [19, 14, -15], [29, 20, -21]]));
}

#[test]
fn mul_row_by_column() {
    let row: Matrix<i32, 1, 3> = Matrix::from([[2, 3, 4]]);
    let column: Matrix<i32, 3, 1> = Matrix::from([[5], [6], [7]]);
    assert_eq!(row * column, Matrix::from([[56]]));
}

#[test]
fn mul_by_zero_on_either_side() {
    let a = sample();
    let left: Matrix<i64, 4, 2> = Matrix::default();
    let right: Matrix<i64, 3, 5> = Matrix::default();
    assert_eq!(left * a, Matrix::<i64, 4, 3>::default());
    assert_eq!(a * right, Matrix::<i64, 2, 5>::default());
}

#[test]
fn mul_is_associative() {
    let a = sample();
    let b: Matrix<i64, 3, 2> = Matrix::from([[1, 2], [3, 4], [5, 6]]);
    let c: Matrix<i64, 2, 4> = Matrix::from([[7, -8, 9, 1], [0, 2, -3, 4]]);
    assert_eq!((a * b) * c, a * (b * c));
}

#[test]
fn clone_is_independent() {
    let first = sample();
    let mut copy = first.clone();
    copy[0][0] = 100;
    assert_eq!(first, sample());
    assert_eq!(copy, Matrix::from([[100, -2, 3], [4, 5, -6]]));
}

#[test]
fn matrices_differ_in_one_cell() {
    let a = sample();
    let mut b = sample();
    b[1][1] = 0;
    assert_ne!(a, b);
}
