//! Structure of the continuous-to-discrete conversion.
//!
//! Discretizing a continuous plant `(A, B)` with time step `dt` means
//! forming the augmented matrix `M = [[A, B], [0, 0]]`, computing
//! `Φ = exp(M · dt)`, and reading `discA` off the top-left n by n block of
//! `Φ` and `discB` off its top-right n by m block. The exponential is a
//! floating-point routine of the outside matrix library and runs in the
//! harness; the assembly of `M`, the bit-level finiteness check of `Φ`, and
//! the extraction of the two blocks are verified here, entry by entry.

use vstd::prelude::*;

use crate::matrix::Mat;
use crate::matrix::MatV;
use crate::DareError;

verus! {

/// A continuous-time plant: dynamics matrix `cont_a` (n by n) and input
/// matrix `cont_b` (n by m).
#[derive(Debug)]
pub struct StateSpaceModel {
    pub cont_a: Mat,
    pub cont_b: Mat,
}

impl StateSpaceModel {
    /// Shapes of a nonempty plant: `cont_a` square n by n with n > 0,
    /// `cont_b` with n rows and m > 0 columns.
    pub open spec fn wf(&self) -> bool {
        &&& self.cont_a.wf()
        &&& self.cont_b.wf()
        &&& self.cont_a@.is_square()
        &&& self.cont_a@.rows > 0
        &&& self.cont_b@.rows == self.cont_a@.rows
        &&& self.cont_b@.cols > 0
    }

    /// Number of states, n.
    pub open spec fn states(&self) -> nat {
        self.cont_a@.rows
    }

    /// Number of inputs, m.
    pub open spec fn inputs(&self) -> nat {
        self.cont_b@.cols
    }

    /// Fails with `DimensionMismatch` exactly when the shapes are not those
    /// of a nonempty plant.
    pub fn new(cont_a: Mat, cont_b: Mat) -> (res: Result<StateSpaceModel, DareError>)
        requires
            cont_a.wf(),
            cont_b.wf(),
        ensures
            match res {
                Ok(model) => model.wf() && model.cont_a@ == cont_a@ && model.cont_b@ == cont_b@,
                Err(e) => e == DareError::DimensionMismatch && !(cont_a@.is_square()
                    && cont_a@.rows > 0 && cont_b@.rows == cont_a@.rows && cont_b@.cols > 0),
            },
    {
        let n = cont_a.nrows();
        if cont_a.ncols() == n && n > 0 && cont_b.nrows() == n && cont_b.ncols() > 0 {
            Ok(StateSpaceModel { cont_a, cont_b })
        } else {
            Err(DareError::DimensionMismatch)
        }
    }
}

/// A discretized plant: `disc_a` (n by n) and `disc_b` (n by m).
#[derive(Debug)]
pub struct DiscreteModel {
    pub disc_a: Mat,
    pub disc_b: Mat,
}

/// Entry `k` (column-major) of the augmented matrix `[[a, b], [0, 0]]` of
/// size (n+m) by (n+m), where `a` is n by n and `b` is n by m.
pub open spec fn augmented_entry(a: MatV, b: MatV, k: int) -> u64 {
    let n = a.rows as int;
    let s = (a.rows + b.cols) as int;
    let i = k % s;
    let j = k / s;
    if i >= n {
        0u64
    } else if j < n {
        a.entry(i, j)
    } else {
        b.entry(i, j - n)
    }
}

/// The augmented matrix `[[a, b], [0, 0]]` of size (n+m) by (n+m).
pub open spec fn augmented_v(a: MatV, b: MatV) -> MatV {
    let s = a.rows + b.cols;
    MatV { rows: s, cols: s, data: Seq::new(s * s, |k: int| augmented_entry(a, b, k)) }
}

/// The nr by nc block of `m` whose top-left entry is `(r0, c0)`.
pub open spec fn block_v(m: MatV, r0: int, c0: int, nr: nat, nc: nat) -> MatV {
    MatV {
        rows: nr,
        cols: nc,
        data: Seq::new(nr * nc, |k: int| m.entry(r0 + k % (nr as int), c0 + k / (nr as int))),
    }
}

/// Assembles the augmented matrix `[[A, B], [0, 0]]` that the harness
/// scales by the time step and exponentiates.
pub fn build_augmented(model: &StateSpaceModel) -> (r: Mat)
    requires
        model.wf(),
        (model.states() + model.inputs()) * (model.states() + model.inputs()) <= usize::MAX,
    ensures
        r.wf(),
        r@ == augmented_v(model.cont_a@, model.cont_b@),
{
    let n = model.cont_a.nrows();
    proof {
        let t = (model.states() + model.inputs()) as int;
        assert(t <= t * t) by (nonlinear_arith)
            requires
                t >= 1,
        ;
    }
    let s = n + model.cont_b.ncols();
    let total = s * s;
    let mut data: Vec<u64> = Vec::new();
    let mut k: usize = 0;
    while k < total
        invariant
            model.wf(),
            n == model.states(),
            s == model.states() + model.inputs(),
            total == s * s,
            k <= total,
            data@.len() == k,
            forall|t: int|
                0 <= t < k ==> data@[t] == augmented_entry(
                    model.cont_a@,
                    model.cont_b@,
                    t,
                ),
        decreases total - k,
    {
        proof {
            lemma_div_mod_in_range(k as int, s as int, s as int);
        }
        let i = k % s;
        let j = k / s;
        let v: u64 = if i >= n {
            0u64
        } else if j < n {
            model.cont_a.get(i, j)
        } else {
            model.cont_b.get(i, j - n)
        };
        assert(v == augmented_entry(model.cont_a@, model.cont_b@, k as int));
        data.push(v);
        k += 1;
    }
    let r = Mat { rows: s, cols: s, data };
    proof {
        assert(r@ =~= augmented_v(model.cont_a@, model.cont_b@));
    }
    r
}

/// Copies the nr by nc block of `m` whose top-left entry is `(r0, c0)`.
pub fn extract_block(m: &Mat, r0: usize, c0: usize, nr: usize, nc: usize) -> (r: Mat)
    requires
        m.wf(),
        r0 + nr <= m@.rows,
        c0 + nc <= m@.cols,
    ensures
        r.wf(),
        r@.rows == nr,
        r@.cols == nc,
        r@ == block_v(m@, r0 as int, c0 as int, nr as nat, nc as nat),
{
    let len = m.data.len();
    proof {
        lemma_mul_le_mul(nr as int, nc as int, m@.rows as int, m@.cols as int);
        assert(m@.rows * m@.cols == len);
    }
    let total = nr * nc;
    let mut data: Vec<u64> = Vec::new();
    let mut k: usize = 0;
    while k < total
        invariant
            m.wf(),
            r0 + nr <= m@.rows,
            c0 + nc <= m@.cols,
            total == nr * nc,
            k <= total,
            data@.len() == k,
            forall|t: int|
                0 <= t < k ==> data@[t] == m@.entry(
                    r0 + t % (nr as int),
                    c0 + t / (nr as int),
                ),
        decreases total - k,
    {
        proof {
            lemma_div_mod_in_range(k as int, nr as int, nc as int);
        }
        let i = k % nr;
        let j = k / nr;
        let v = m.get(r0 + i, c0 + j);
        data.push(v);
        k += 1;
    }
    let r = Mat { rows: nr, cols: nc, data };
    proof {
        assert(r@ =~= block_v(m@, r0 as int, c0 as int, nr as nat, nc as nat));
    }
    r
}

/// Splits the exponential `Φ` of the scaled augmented matrix into the
/// discretized plant: fails with `DimensionMismatch` exactly when `Φ` is
/// not square of size n+m (with n, m > 0), and with
/// `MatrixExponentialFailure` exactly when a well-shaped `Φ` holds a
/// non-finite entry — the sign that the exponential broke down
/// numerically. Otherwise `disc_a` is the top-left n by n block of `Φ` and
/// `disc_b` its top-right n by m block, entry for entry.
pub fn split_exponential(phi: &Mat, n: usize, m: usize) -> (res: Result<DiscreteModel, DareError>)
    requires
        phi.wf(),
    ensures
        match res {
            Ok(d) => {
                &&& n > 0
                &&& m > 0
                &&& phi@.rows == n + m
                &&& phi@.cols == n + m
                &&& phi@.all_finite()
                &&& d.disc_a.wf()
                &&& d.disc_b.wf()
                &&& d.disc_a@ == block_v(phi@, 0, 0, n as nat, n as nat)
                &&& d.disc_b@ == block_v(phi@, 0, n as int, n as nat, m as nat)
            },
            Err(DareError::DimensionMismatch) => !(n > 0 && m > 0 && phi@.rows == n + m
                && phi@.cols == n + m),
            Err(DareError::MatrixExponentialFailure) => n > 0 && m > 0 && phi@.rows == n + m
                && phi@.cols == n + m && !phi@.all_finite(),
            Err(_) => false,
        },
{
    let shapes_ok = match n.checked_add(m) {
        Some(s) => n > 0 && m > 0 && phi.nrows() == s && phi.ncols() == s,
        None => false,
    };
    if !shapes_ok {
        return Err(DareError::DimensionMismatch);
    }
    if !phi.all_entries_finite() {
        return Err(DareError::MatrixExponentialFailure);
    }
    let disc_a = extract_block(phi, 0, 0, n, n);
    let disc_b = extract_block(phi, 0, n, n, m);
    Ok(DiscreteModel { disc_a, disc_b })
}

/// Division and remainder by the row count map an in-range column-major
/// index to in-range coordinates.
proof fn lemma_div_mod_in_range(k: int, rows: int, cols: int)
    requires
        rows > 0,
        cols > 0,
        0 <= k < rows * cols,
    ensures
        0 <= k % rows < rows,
        0 <= k / rows < cols,
{
    assert(0 <= k % rows < rows && 0 <= k / rows < cols) by (nonlinear_arith)
        requires
            rows > 0,
            cols > 0,
            0 <= k < rows * cols,
    ;
}

/// Multiplication preserves `<=` on nonnegative factors.
proof fn lemma_mul_le_mul(a: int, b: int, c: int, d: int)
    requires
        0 <= a <= c,
        0 <= b <= d,
    ensures
        a * b <= c * d,
{
    assert(a * b <= c * d) by (nonlinear_arith)
        requires
            0 <= a <= c,
            0 <= b <= d,
    ;
}

/// The block layout is lossless: the top-left n by n block of the
/// augmented matrix `[[a, b], [0, 0]]` is `a` itself, and its top-right
/// n by m block is `b` itself, entry for entry. This pins the extraction
/// offsets of the discretizer to the assembly layout.
pub proof fn lemma_augmented_blocks(a: MatV, b: MatV)
    requires
        a.wf(),
        b.wf(),
        a.is_square(),
        a.rows > 0,
        b.rows == a.rows,
        b.cols > 0,
    ensures
        block_v(augmented_v(a, b), 0, 0, a.rows, a.rows) == a,
        block_v(augmented_v(a, b), 0, a.rows as int, a.rows, b.cols) == b,
{
    let n = a.rows as int;
    let m = b.cols as int;
    let s = n + m;
    let aug = augmented_v(a, b);
    let ba = block_v(aug, 0, 0, a.rows, a.rows);
    let bb = block_v(aug, 0, n, a.rows, b.cols);
    assert forall|k: int| 0 <= k < n * n implies ba.data[k] == a.data[k] by {
        lemma_div_mod_in_range(k, n, n);
        let i = k % n;
        let j = k / n;
        lemma_aug_entry(a, b, i, j);
        assert(ba.data[k] == aug.entry(i, j));
        assert(aug.entry(i, j) == a.entry(i, j));
        assert(a.entry(i, j) == a.data[j * n + i]);
        assert(j * n + i == k) by (nonlinear_arith)
            requires
                n > 0,
                i == k % n,
                j == k / n,
        ;
    }
    assert(ba =~= a);
    assert forall|k: int| 0 <= k < n * m implies bb.data[k] == b.data[k] by {
        lemma_div_mod_in_range(k, n, m);
        let i = k % n;
        let j = k / n;
        lemma_aug_entry(a, b, i, j + n);
        assert(bb.data[k] == aug.entry(i, n + j));
        assert(n + j == j + n);
        assert(aug.entry(i, j + n) == b.entry(i, j));
        assert(b.entry(i, j) == b.data[j * n + i]);
        assert(j * n + i == k) by (nonlinear_arith)
            requires
                n > 0,
                i == k % n,
                j == k / n,
        ;
    }
    assert(bb =~= b);
}

/// What the augmented matrix holds at in-range coordinates `(i, j)`.
proof fn lemma_aug_entry(a: MatV, b: MatV, i: int, j: int)
    requires
        a.wf(),
        b.wf(),
        a.is_square(),
        a.rows > 0,
        b.rows == a.rows,
        b.cols > 0,
        0 <= i < a.rows + b.cols,
        0 <= j < a.rows + b.cols,
    ensures
        augmented_v(a, b).entry(i, j) == (if i >= a.rows {
            0u64
        } else if j < a.rows {
            a.entry(i, j)
        } else {
            b.entry(i, j - a.rows)
        }),
{
    let n = a.rows as int;
    let s = n + b.cols as int;
    let k = j * s + i;
    assert(0 <= k < s * s && k % s == i && k / s == j) by (nonlinear_arith)
        requires
            s > 0,
            0 <= i < s,
            0 <= j < s,
            k == j * s + i,
    ;
    assert(augmented_v(a, b).entry(i, j) == augmented_v(a, b).data[k]);
    assert(augmented_v(a, b).data[k] == augmented_entry(a, b, k));
}

} // verus!
