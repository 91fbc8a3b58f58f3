//! The matrix types.

pub mod matrix;
pub mod square_matrix;
