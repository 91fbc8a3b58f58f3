use n_linear_algebra::matrixes::matrix::Matrix;
use n_linear_algebra::matrixes::square_matrix::SquareMatrix;
use std::ops::{Add, Mul};

/// The integers modulo 7: an element type that the library does not know.
#[derive(Clone, Copy, Debug, Default, PartialEq, Eq)]
struct Mod7(u8);

impl Add for Mod7 {
    type Output = Mod7;

    fn add(self, rhs: Mod7) -> Mod7 {
        Mod7((self.0 + rhs.0) % 7)
    }
}

impl Mul for Mod7 {
    type Output = Mod7;

    fn mul(self, rhs: Mod7) -> Mod7 {
        Mod7((self.0 * rhs.0) % 7)
    }
}

/// Text under concatenation: an element type with `+` only, and no `Copy`.
#[derive(Clone, Debug, Default, PartialEq, Eq)]
struct Text(String);

impl Add for Text {
    type Output = Text;

    fn add(self, rhs: Text) -> Text {
        Text(self.0 + &rhs.0)
    }
}

fn text(s: &str) -> Text {
    Text(s.to_string())
}

#[test]
fn matrix_of_strings_is_filled_and_transposed() {
    let filled: Matrix<String, 2, 2> = Matrix::new("x".to_string());
    assert_eq!(
        filled,
        Matrix::from([["x".to_string(), "x".to_string()], ["x".to_string(), "x".to_string()]])
    );
    let m: Matrix<String, 1, 2> = Matrix::from([["a".to_string(), "b".to_string()]]);
    assert_eq!(m.transpose(), Matrix::from([["a".to_string()], ["b".to_string()]]));
    assert_eq!(Matrix::<String, 1, 2>::default(), Matrix::new(String::new()));
}

#[test]
fn add_over_an_element_type_without_copy() {
    let a: Matrix<Text, 1, 2> = Matrix::from([[text("ab"), text("c")]]);
    let b: Matrix<Text, 1, 2> = Matrix::from([[text("x"), text("yz")]]);
    assert_eq!(a + b, Matrix::from([[text("abx"), text("cyz")]]));
}

#[test]
fn mul_over_the_integers_modulo_seven() {
    let a: Matrix<Mod7, 2, 2> = Matrix::from([[Mod7(3), Mod7(4)], [Mod7(5), Mod7(6)]]);
    let b: Matrix<Mod7, 2, 2> = Matrix::from([[Mod7(2), Mod7(0)], [Mod7(1), Mod7(5)]]);
    assert_eq!(a * b, Matrix::from([[Mod7(3), Mod7(6)], [Mod7(2), Mod7(2)]]));
}

#[test]
fn fast_pow_over_the_integers_modulo_seven() {
    let m = SquareMatrix::from([[Mod7(1), Mod7(1)], [Mod7(1), Mod7(0)]]);
    let mut previous = 0u64;
    let mut current = 1u64;
    for n in 1..=40 {
        assert_eq!(m.fast_pow(n)[0][1], Mod7((current % 7) as u8));
        let next = previous + current;
        previous = current;
        current = next;
    }
}

#[test]
fn arithmetic_over_each_integer_type_with_laws() {
    assert_eq!(
        Matrix::<u32, 1, 1>::from([[6]]) * Matrix::from([[7]]) + Matrix::from([[1]]),
        Matrix::from([[43]])
    );
    assert_eq!(
        Matrix::<u64, 1, 1>::from([[6]]) * Matrix::from([[7]]) + Matrix::from([[1]]),
        Matrix::from([[43]])
    );
    assert_eq!(
        Matrix::<usize, 1, 1>::from([[6]]) * Matrix::from([[7]]) + Matrix::from([[1]]),
        Matrix::from([[43]])
    );
    assert_eq!(
        Matrix::<i32, 1, 1>::from([[-6]]) * Matrix::from([[7]]) + Matrix::from([[1]]),
        Matrix::from([[-41]])
    );
    assert_eq!(
        Matrix::<i64, 1, 1>::from([[-6]]) * Matrix::from([[7]]) + Matrix::from([[1]]),
        Matrix::from([[-41]])
    );
    assert_eq!(
        Matrix::<isize, 1, 1>::from([[-6]]) * Matrix::from([[-7]]) + Matrix::from([[1]]),
        Matrix::from([[43]])
    );
}

#[test]
fn arithmetic_at_the_ends_of_the_range() {
    let a: Matrix<i32, 1, 2> = Matrix::from([[i32::MIN, i32::MAX]]);
    let zero: Matrix<i32, 1, 2> = Matrix::default();
    assert_eq!(a + zero, a);
    let one: Matrix<i32, 2, 2> = Matrix::from([[1, 0], [0, 1]]);
    assert_eq!(a * one, a);
    let b: Matrix<u64, 1, 1> = Matrix::from([[u64::MAX]]);
    assert_eq!(b * Matrix::from([[1]]), b);
}
