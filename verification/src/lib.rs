//! Verified core of a discrete-time algebraic Riccati equation (DARE) solver
//! for LQR design, together with the continuous-to-discrete conversion that
//! produces its inputs.
//!
//! The floating-point linear algebra itself (matrix products, Cholesky and
//! LU solves, the matrix exponential, norms) is delegated to an outside
//! dense-matrix library and runs in the unverified harness. Everything that
//! can be stated exactly is verified here:
//!
//! - matrices as dense column-major arrays of 64-bit IEEE-754 bit patterns,
//!   with exact indexing and shape invariants ([`matrix`]);
//! - the block layout of the discretization — assembling the augmented
//!   matrix `[[A, B], [0, 0]]` and extracting the blocks of its exponential
//!   — together with bit-level finiteness checks ([`discrete`]);
//! - the solver's entire decision logic: input dimension validation, the
//!   abort-on-indefinite-`R` policy, the per-iteration
//!   singularity/convergence decisions, and the iteration cap that bounds
//!   the doubling recursion ([`solver`]).
//!
//! The harness converts between bit patterns and machine doubles at the
//! boundary, performs each floating-point operation, and reports every
//! outcome back to the verified decision kernel.

pub mod discrete;
pub mod matrix;
pub mod solver;

use vstd::prelude::*;

verus! {

/// The ways a computation in this crate can fail.
#[derive(Clone, Copy, Debug, PartialEq, Eq, Structural)]
pub enum DareError {
    /// Input matrix shapes are inconsistent or empty.
    DimensionMismatch,
    /// The matrix exponential produced a non-finite entry.
    MatrixExponentialFailure,
    /// The Cholesky factorization of `R` failed: `R` is not positive
    /// definite.
    NonPositiveDefiniteR,
    /// The doubling iteration hit a singular linear system; holds the index
    /// of the failing iteration.
    SingularIteration(usize),
    /// The iteration cap was reached before the convergence test passed.
    NonConvergence,
}

} // verus!
