//! Dense matrix multiplication kernels with machine-checked contracts.
//!
//! Three interchangeable strategies compute the product of two matrices given
//! as nested rows: a reference triple loop, a four-lane grouped dot product
//! over a transposed right operand, and a delegation to a platform routine
//! working on column-major buffers. The kernels are generic in the element
//! type; their contracts are stated over the mathematical functions that the
//! element operations compute.

pub mod algebra;
pub mod error;
pub mod helpers;
pub mod laws;
pub mod matrix;
pub mod methods;
pub mod offload;
pub mod product;
pub mod scalar;
pub mod wrapping;

pub use error::{MatrixError, ShapeViolation};
pub use helpers::{
    dims_match, flatten_row_major, is_rectangular, row_major_to_vec, transpose_row_major,
};
pub use methods::accelerate::{
    multiply_accelerate, prepare_gemm, rows_from_column_major, to_column_major, Factor, GemmCall,
};
pub use methods::base::{matmul_naive, multiply_base};
pub use methods::simd::{dot_wide, matmul_simd_row_row, multiply_simd};
pub use offload::settle;
pub use scalar::Scalar;
