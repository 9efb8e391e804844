//! Fixed-dimension linear algebra over exact integer scalars: vectors and
//! square matrices with arithmetic, column decomposition, per-coordinate
//! bound checking, and stochastic crossover for genetic optimization.
//!
//! The dimension is a type-level parameter, so operations that only make
//! sense in one dimension (such as the cross product in three dimensions)
//! are restricted at compile time.
//!
//! Operations whose results are inherently real-valued — the Euclidean norm
//! and normalization, rotation about an arbitrary axis, Gauss-Jordan
//! inversion with its divisions, and Gaussian mutation — need floating-point
//! arithmetic, which Verus refuses, so they live in the unverified
//! double-precision companion around this library. The elementary row
//! operations of Gauss-Jordan elimination are verified here.

pub mod algebra;
pub mod matrix;
mod rng;
pub mod vector;

pub use matrix::Matrix;
pub use vector::Vector;
