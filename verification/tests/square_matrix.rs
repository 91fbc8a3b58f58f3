use n_linear_algebra::matrixes::matrix::Matrix;
use n_linear_algebra::matrixes::square_matrix::SquareMatrix;

fn fibonacci_matrix() -> SquareMatrix<u64, 2> {
    SquareMatrix::from([[1, 1], [1, 0]])
}

fn naive_pow(m: SquareMatrix<i64, 3>, exp: usize) -> SquareMatrix<i64, 3> {
    let mut power = m;
    for _ in 1..exp {
        power = power * m;
    }
    power
}

#[test]
fn square_from_literal_reads_back() {
    let literal = [[1i32, 2], [3, 4]];
    let m = SquareMatrix::from(literal);
    for row in 0..2 {
        for col in 0..2 {
            assert_eq!(m.get(row, col), Some(&literal[row][col]));
            assert_eq!(m[row][col], literal[row][col]);
        }
    }
}

#[test]
fn square_from_square_matrix() {
    let m: Matrix<i32, 2, 2> = Matrix::from([[1, 2], [3, 4]]);
    assert_eq!(SquareMatrix::from(m), SquareMatrix::from([[1, 2], [3, 4]]));
}

#[test]
fn square_from_narrower_matrix_pads_with_default() {
    let m: Matrix<i32, 3, 2> = Matrix::from([[1, 2], [3, 4], [5, 6]]);
    let square: SquareMatrix<i32, 3> = SquareMatrix::from(m);
    assert_eq!(square, SquareMatrix::from([[1, 2, 0], [3, 4, 0], [5, 6, 0]]));
}

#[test]
fn square_from_wider_matrix_keeps_the_left_block() {
    let m: Matrix<i32, 2, 3> = Matrix::from([[1, 2, 3], [4, 5, 6]]);
    let square: SquareMatrix<i32, 2> = SquareMatrix::from(m);
    assert_eq!(square, SquareMatrix::from([[1, 2], [4, 5]]));
}

#[test]
fn square_back_to_matrix() {
    let square = SquareMatrix::from([[1u32, 2], [3, 4]]);
    let m: Matrix<u32, 2, 2> = Matrix::from(square);
    assert_eq!(m, Matrix::from([[1, 2], [3, 4]]));
    let again: Matrix<u32, 2, 2> = square.into();
    assert_eq!(again, m);
}

#[test]
fn square_mul() {
    let a = SquareMatrix::from([[1usize, 2], [3, 4]]);
    let b = SquareMatrix::from([[5usize, 6], [7, 8]]);
    assert_eq!(a * b, SquareMatrix::from([[19, 22], [43, 50]]));
}

#[test]
fn square_derefs_to_matrix() {
    let mut square = SquareMatrix::from([[1i64, 2], [3, 4]]);
    assert_eq!(square.transpose(), Matrix::from([[1, 3], [2, 4]]));
    square[1][0] = 30;
    assert_eq!(square, SquareMatrix::from([[1, 2], [30, 4]]));
}

#[test]
fn square_clone_is_independent() {
    let first = SquareMatrix::from([[1i64, 2], [3, 4]]);
    let mut copy = first.clone();
    copy[0][0] = 9;
    assert_eq!(first, SquareMatrix::from([[1, 2], [3, 4]]));
    assert_eq!(copy, SquareMatrix::from([[9, 2], [3, 4]]));
}

#[test]
fn fast_pow_to_one_is_the_matrix() {
    let m = SquareMatrix::from([[2i64, -1, 0], [3, 1, 4], [0, 5, -2]]);
    assert_eq!(m.fast_pow(1), m);
}

#[test]
fn fast_pow_small_exponents() {
    let m = SquareMatrix::from([[1u64, 2], [3, 4]]);
    assert_eq!(m.fast_pow(2), SquareMatrix::from([[7, 10], [15, 22]]));
    assert_eq!(m.fast_pow(3), SquareMatrix::from([[37, 54], [81, 118]]));
    assert_eq!(m.fast_pow(4), SquareMatrix::from([[199, 290], [435, 634]]));
    assert_eq!(m.fast_pow(5), SquareMatrix::from([[1069, 1558], [2337, 3406]]));
}

#[test]
fn fast_pow_equals_repeated_multiplication() {
    let m = SquareMatrix::from([[2i64, -1, 0], [3, 1, 4], [0, 5, -2]]);
    for exp in 1..=12 {
        assert_eq!(m.fast_pow(exp), naive_pow(m, exp));
    }
}

#[test]
fn fast_pow_of_even_exponent_is_a_square() {
    let m = SquareMatrix::from([[2i64, -1, 0], [3, 1, 4], [0, 5, -2]]);
    for half in 1..=6 {
        assert_eq!(m.fast_pow(2 * half), m.fast_pow(half) * m.fast_pow(half));
    }
}

#[test]
fn fast_pow_fibonacci() {
    assert_eq!(fibonacci_matrix().fast_pow(1)[0][1], 1);
    assert_eq!(fibonacci_matrix().fast_pow(6)[0][1], 8);
    assert_eq!(fibonacci_matrix().fast_pow(10)[0][1], 55);
}

#[test]
fn fast_pow_fibonacci_sequence() {
    let mut previous: u64 = 0;
    let mut current: u64 = 1;
    for n in 1..=90 {
        assert_eq!(fibonacci_matrix().fast_pow(n)[0][1], current);
        let next = previous + current;
        previous = current;
        current = next;
    }
}

#[test]
fn fast_pow_of_the_zero_matrix() {
    let zero: SquareMatrix<i32, 2> = SquareMatrix::from(Matrix::<i32, 2, 2>::default());
    assert_eq!(zero.fast_pow(7), zero);
}

#[test]
fn checked_fast_pow_rejects_exponent_zero() {
    assert_eq!(fibonacci_matrix().checked_fast_pow(0), None);
}

#[test]
fn checked_fast_pow_of_positive_exponent() {
    assert_eq!(fibonacci_matrix().checked_fast_pow(1), Some(fibonacci_matrix()));
    assert_eq!(
        fibonacci_matrix().checked_fast_pow(10),
        Some(SquareMatrix::from([[89, 55], [55, 34]]))
    );
}
