//! Decision logic of the structure-preserving doubling solver.
//!
//! The doubling recursion itself works on machine doubles and runs in the
//! harness; every decision it takes — whether the inputs are well shaped,
//! whether the failed Cholesky factorization of `R` aborts the solve,
//! whether a singular iteration aborts it, whether the iteration cap has
//! been reached, and when the recursion is declared converged — is made
//! here, with an exact contract, so that the error policy and the
//! termination bound are verified.

use vstd::prelude::*;

use crate::matrix::Mat;
use crate::matrix::MatV;
use crate::DareError;

verus! {

/// Iterations allowed before the solver gives up with
/// [`DareError::NonConvergence`], unless the caller picks its own cap. The
/// doubling recursion converges quadratically, so well-posed problems
/// finish in well under twenty iterations; the cap only bounds breakdown
/// cases.
pub const DEFAULT_ITERATION_CAP: usize = 100;

/// Shapes of a well-posed DARE instance: `a` is square n by n with n > 0,
/// `b` is n by m with m > 0, `q` is n by n and `r` is m by m.
pub open spec fn dare_dims_ok(a: MatV, b: MatV, q: MatV, r: MatV) -> bool {
    &&& a.is_square()
    &&& a.rows > 0
    &&& b.rows == a.rows
    &&& b.cols > 0
    &&& q.rows == a.rows
    &&& q.cols == a.rows
    &&& r.rows == b.cols
    &&& r.cols == b.cols
}

/// Cost weights of the LQR problem: `q` (n by n, state cost) and `r`
/// (m by m, input cost). Positive semi-definiteness of `q` and positive
/// definiteness of `r` are numeric properties of the encoded doubles; the
/// latter is enforced at solve time, when the Cholesky factorization of
/// `r` either succeeds or aborts the solve.
#[derive(Debug)]
pub struct CostWeights {
    pub q: Mat,
    pub r: Mat,
}

impl CostWeights {
    /// Shapes fit a plant with `n` states and `m` inputs.
    pub open spec fn wf(&self, n: nat, m: nat) -> bool {
        &&& self.q.wf()
        &&& self.r.wf()
        &&& self.q@.rows == n
        &&& self.q@.cols == n
        &&& self.r@.rows == m
        &&& self.r@.cols == m
    }

    /// Fails with `DimensionMismatch` exactly when the shapes do not fit a
    /// plant with `n` states and `m` inputs.
    pub fn new(q: Mat, r: Mat, n: usize, m: usize) -> (res: Result<CostWeights, DareError>)
        requires
            q.wf(),
            r.wf(),
        ensures
            match res {
                Ok(w) => w.wf(n as nat, m as nat) && w.q@ == q@ && w.r@ == r@,
                Err(e) => e == DareError::DimensionMismatch && !(q@.rows == n && q@.cols == n
                    && r@.rows == m && r@.cols == m),
            },
    {
        if q.nrows() == n && q.ncols() == n && r.nrows() == m && r.ncols() == m {
            Ok(CostWeights { q, r })
        } else {
            Err(DareError::DimensionMismatch)
        }
    }
}

/// What one doubling iteration reported back.
#[derive(Clone, Copy, Debug, PartialEq, Eq, Structural)]
pub enum StepOutcome {
    /// The LU factorization of `W = I + G H` found `W` singular.
    Singular,
    /// The iterate was computed; `converged` tells whether
    /// `‖H_next − H‖ ≤ ε · ‖H_next‖` held.
    Advanced { converged: bool },
}

/// What the solver should do after an iteration was recorded.
#[derive(Clone, Copy, Debug, PartialEq, Eq, Structural)]
pub enum Progress {
    /// The convergence test passed: the current `H` iterate solves the
    /// equation, and no further iteration runs.
    Converged,
    /// Run the next iteration.
    Continue,
}

/// The converged solution `S` of the DARE: an n by n matrix, symmetric and
/// positive semi-definite up to floating-point error, satisfying the
/// equation up to the convergence tolerance. Owned by the caller that
/// receives it.
#[derive(Debug)]
pub struct DareSolution {
    pub s: Mat,
}

impl DareSolution {
    /// The solution matrix is square of the plant's state dimension.
    pub open spec fn wf(&self, n: nat) -> bool {
        &&& self.s.wf()
        &&& self.s@.rows == n
        &&& self.s@.cols == n
    }

    /// Packages a converged iterate; fails with `DimensionMismatch` exactly
    /// when it is not square of size `n`.
    pub fn new(s: Mat, n: usize) -> (res: Result<DareSolution, DareError>)
        requires
            s.wf(),
        ensures
            match res {
                Ok(sol) => sol.wf(n as nat) && sol.s@ == s@,
                Err(e) => e == DareError::DimensionMismatch && !(s@.rows == n && s@.cols == n),
            },
    {
        if s.nrows() == n && s.ncols() == n {
            Ok(DareSolution { s })
        } else {
            Err(DareError::DimensionMismatch)
        }
    }
}

/// Decision kernel of one DARE solve: it validates the input shapes once,
/// then sequences the doubling iterations, bounding them by `cap`.
#[derive(Debug)]
pub struct DareSolver {
    /// Number of plant states, n.
    pub states: usize,
    /// Number of plant inputs, m.
    pub inputs: usize,
    /// Index of the next iteration to run; grows by one per non-converged
    /// iteration and never passes `cap`.
    pub iteration: usize,
    /// Iteration cap; reaching it without convergence aborts the solve.
    pub cap: usize,
}

/// One application of the solver's decision rule: what recording `outcome`
/// in state `s` answers, and the state it leaves behind.
pub open spec fn record_spec(s: DareSolver, outcome: StepOutcome) -> (DareSolver, Result<
    Progress,
    DareError,
>) {
    match outcome {
        StepOutcome::Singular => (s, Err(DareError::SingularIteration(s.iteration))),
        StepOutcome::Advanced { converged } => {
            if converged {
                (s, Ok(Progress::Converged))
            } else if s.iteration < s.cap {
                ((DareSolver { iteration: (s.iteration + 1) as usize, ..s }), Ok(
                    Progress::Continue,
                ))
            } else {
                (s, Err(DareError::NonConvergence))
            }
        },
    }
}

/// The state left behind after recording a whole sequence of outcomes.
pub open spec fn run_spec(s: DareSolver, outcomes: Seq<StepOutcome>) -> DareSolver
    decreases outcomes.len(),
{
    if outcomes.len() == 0 {
        s
    } else {
        run_spec(record_spec(s, outcomes[0]).0, outcomes.skip(1))
    }
}

/// The iteration cap is a deterministic bound on any solve: however many
/// outcomes are recorded, in whatever order, the iteration index never
/// passes the cap (and the cap itself never changes), so no solve runs
/// more than `cap` doubling iterations.
pub proof fn lemma_cap_bounds_iterations(s: DareSolver, outcomes: Seq<StepOutcome>)
    requires
        s.iteration <= s.cap,
    ensures
        run_spec(s, outcomes).iteration <= s.cap,
        run_spec(s, outcomes).cap == s.cap,
    decreases outcomes.len(),
{
    if outcomes.len() > 0 {
        lemma_cap_bounds_iterations(record_spec(s, outcomes[0]).0, outcomes.skip(1));
    }
}

impl DareSolver {
    /// Accepts a DARE instance `(a, b, q, r)`; fails with
    /// `DimensionMismatch` exactly when the shapes are not those of a
    /// well-posed instance.
    pub fn new(a: &Mat, b: &Mat, q: &Mat, r: &Mat, cap: usize) -> (res: Result<
        DareSolver,
        DareError,
    >)
        requires
            a.wf(),
            b.wf(),
            q.wf(),
            r.wf(),
        ensures
            match res {
                Ok(s) => dare_dims_ok(a@, b@, q@, r@) && s.states == a@.rows && s.inputs == b@.cols
                    && s.iteration == 0 && s.cap == cap,
                Err(e) => e == DareError::DimensionMismatch && !dare_dims_ok(a@, b@, q@, r@),
            },
    {
        let n = a.nrows();
        let m = b.ncols();
        if a.ncols() == n && n > 0 && b.nrows() == n && m > 0 && q.nrows() == n && q.ncols() == n
            && r.nrows() == m && r.ncols() == m {
            Ok(DareSolver { states: n, inputs: m, iteration: 0, cap })
        } else {
            Err(DareError::DimensionMismatch)
        }
    }

    /// The abort policy for the initial Cholesky factorization of `R`,
    /// which the harness attempts in order to form `G_0 = B R⁻¹ Bᵗ`: a
    /// failed factorization means `R` is not positive definite, and the
    /// solve stops before any iteration with `NonPositiveDefiniteR`.
    pub fn check_r_factorization(&self, factorization_succeeded: bool) -> (res: Result<
        (),
        DareError,
    >)
        ensures
            factorization_succeeded ==> res == Result::<(), DareError>::Ok(()),
            !factorization_succeeded ==> res == Result::<(), DareError>::Err(
                DareError::NonPositiveDefiniteR,
            ),
    {
        if factorization_succeeded {
            Ok(())
        } else {
            Err(DareError::NonPositiveDefiniteR)
        }
    }

    /// Asks for the next iteration to run: its index, or `NonConvergence`
    /// exactly when the cap is exhausted.
    pub fn next_step(&self) -> (res: Result<usize, DareError>)
        ensures
            self.iteration < self.cap ==> res == Result::<usize, DareError>::Ok(self.iteration),
            self.iteration >= self.cap ==> res == Result::<usize, DareError>::Err(
                DareError::NonConvergence,
            ),
    {
        if self.iteration < self.cap {
            Ok(self.iteration)
        } else {
            Err(DareError::NonConvergence)
        }
    }

    /// Records what iteration `self.iteration` reported and decides how the
    /// solve goes on: a singular `W` aborts it with the failing index, a
    /// converged iterate finishes it, and otherwise the next iteration is
    /// scheduled — or, with the cap exhausted, the solve aborts with
    /// `NonConvergence`.
    pub fn record_outcome(&mut self, outcome: StepOutcome) -> (res: Result<Progress, DareError>)
        ensures
            *final(self) == record_spec(*old(self), outcome).0,
            res == record_spec(*old(self), outcome).1,
    {
        match outcome {
            StepOutcome::Singular => Err(DareError::SingularIteration(self.iteration)),
            StepOutcome::Advanced { converged } => {
                if converged {
                    Ok(Progress::Converged)
                } else if self.iteration < self.cap {
                    self.iteration = self.iteration + 1;
                    Ok(Progress::Continue)
                } else {
                    Err(DareError::NonConvergence)
                }
            },
        }
    }
}

} // verus!
