//! Batched dense matrix multiplication over N-dimensional integer tensors.
//!
//! The crate collapses the leading axes of two operands into a single batch
//! axis, applies a restricted broadcasting rule to mismatched batch sizes,
//! multiplies the per-batch matrices (sequentially or across a rayon worker
//! pool), and reassembles the flat result into the caller's dimensionality.

pub mod batch;
pub mod broadcast;
pub mod error;
pub mod gemm;
pub mod laws;
pub mod matmul;
pub mod parallel;
pub mod shape;
pub mod tensor;
