//! A small fixed-dimension linear-algebra library: a dense row-major matrix
//! of IEEE-754 binary32 entries, with construction, element access,
//! transpose, arithmetic, Doolittle LU decomposition, determinant, and a
//! cofactor-based inverse.
//!
//! Entries are carried as `u32` bit patterns of binary32 values; the
//! arithmetic on single entries is done by `rustc_apfloat` behind the
//! trusted wrappers of `scalar`, and everything the matrix code does with
//! those entries is verified against the names those wrappers establish.

pub mod scalar;
pub mod matrix;
pub mod decomp;

pub use matrix::Mat;
