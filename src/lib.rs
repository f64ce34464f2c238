//! Dense square matrix multiplication over `i64`, sequential and parallel.
pub mod kernels;
pub mod laws;
pub mod model;
pub mod parallel;

pub use kernels::{gemm, gemm_transpose, transpose_in_place};
pub use parallel::{gemm_parallel, gemm_parallel_transpose, gemm_parallel_with_threads, PoolError};
