//! The circuit definitions: each one decomposes a computation into
//! multiplication gates and linear combinations over the field.

pub mod complex;
pub mod division;
pub mod fibonacci;
pub mod matrix_multiplication;
pub mod multivar_polynomial;
pub mod polynomial;
pub mod xor;
