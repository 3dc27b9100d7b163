//! Dense row-major matrices with three interchangeable multiplication
//! strategies: a naive triple loop, a dot product against the transposed
//! right operand, and a data-parallel variant that computes every output
//! cell as an independent task.

mod grid;
mod matrix;
mod parallel;
mod scalar;
mod strategy;

pub use grid::{
    dot_rows, identity, law_identity_product, law_product_shape, law_strategies_agree,
    law_transpose_round_trip, law_unit_laws_i64, mul_entry, product, product_by_rows, row_of,
    transpose, unit_laws, Grid,
};
pub use matrix::{Matrix, MatrixError};
pub use scalar::Scalar;
pub use strategy::{Naive, Parallel, RayonMatrix, SimpleMatrix, SimpleMatrix2, Transposed};
