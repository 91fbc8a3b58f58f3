//! Dense matrices of fixed dimensions over any element type with `+` and `*`,
//! with addition, multiplication, transposition and exponentiation by
//! squaring, and the laws of their arithmetic over a lawful element type.

pub mod grid;
pub mod scalar;
pub mod matrixes;
pub mod semiring;
pub mod algebra;
