use nalgebra::DMatrix;
use riccati::discrete::build_augmented;
use riccati::discrete::extract_block;
use riccati::discrete::split_exponential;
use riccati::discrete::StateSpaceModel;
use riccati::matrix::positive_finite_bits;
use riccati::matrix::Mat;
use riccati::solver::CostWeights;
use riccati::solver::DareSolver;
use riccati::solver::Progress;
use riccati::solver::StepOutcome;
use riccati::DareError;

fn to_mat(d: &DMatrix<f64>) -> Mat {
    Mat::from_column_major(d.nrows(), d.ncols(), d.iter().map(|v| v.to_bits()).collect()).unwrap()
}

fn entry(m: &Mat, i: usize, j: usize) -> f64 {
    f64::from_bits(m.get(i, j))
}

#[test]
fn from_column_major_rejects_bad_length() {
    assert!(Mat::from_column_major(2, 2, vec![0u64; 3]).is_none());
    assert!(Mat::from_column_major(2, 2, vec![0u64; 4]).is_some());
    assert!(Mat::from_column_major(0, 5, vec![]).is_some());
}

#[test]
fn get_uses_column_major_layout() {
    // 2x3 matrix [[1, 2, 3], [4, 5, 6]] in column-major order.
    let data: Vec<u64> = [1.0f64, 4.0, 2.0, 5.0, 3.0, 6.0].iter().map(|v| v.to_bits()).collect();
    let m = Mat::from_column_major(2, 3, data).unwrap();
    assert_eq!(m.nrows(), 2);
    assert_eq!(m.ncols(), 3);
    assert_eq!(entry(&m, 0, 0), 1.0);
    assert_eq!(entry(&m, 0, 1), 2.0);
    assert_eq!(entry(&m, 0, 2), 3.0);
    assert_eq!(entry(&m, 1, 0), 4.0);
    assert_eq!(entry(&m, 1, 1), 5.0);
    assert_eq!(entry(&m, 1, 2), 6.0);
}

#[test]
fn positive_finite_bits_accepts_exactly_positive_finite_doubles() {
    assert!(positive_finite_bits(0.005f64.to_bits()));
    assert!(positive_finite_bits(1e-308f64.to_bits()));
    assert!(positive_finite_bits(f64::MAX.to_bits()));
    assert!(!positive_finite_bits(0.0f64.to_bits()));
    assert!(!positive_finite_bits((-0.0f64).to_bits()));
    assert!(!positive_finite_bits((-1.0f64).to_bits()));
    assert!(!positive_finite_bits(f64::INFINITY.to_bits()));
    assert!(!positive_finite_bits(f64::NEG_INFINITY.to_bits()));
    assert!(!positive_finite_bits(f64::NAN.to_bits()));
}

#[test]
fn all_entries_finite_spots_non_finite_entries() {
    let finite = to_mat(&DMatrix::from_row_slice(2, 2, &[1.0, -2.0, 0.0, 3.5]));
    assert!(finite.all_entries_finite());
    let with_nan = to_mat(&DMatrix::from_row_slice(2, 2, &[1.0, f64::NAN, 0.0, 3.5]));
    assert!(!with_nan.all_entries_finite());
    let with_inf = to_mat(&DMatrix::from_row_slice(2, 2, &[1.0, 2.0, f64::INFINITY, 3.5]));
    assert!(!with_inf.all_entries_finite());
}

#[test]
fn state_space_model_checks_shapes() {
    let a = to_mat(&DMatrix::from_row_slice(2, 2, &[0.0, 1.0, 0.0, 0.0]));
    let b = to_mat(&DMatrix::from_row_slice(2, 1, &[0.0, 1.0]));
    assert!(StateSpaceModel::new(a, b).is_ok());

    let a = to_mat(&DMatrix::from_row_slice(2, 2, &[0.0, 1.0, 0.0, 0.0]));
    let b_wrong = to_mat(&DMatrix::from_row_slice(3, 1, &[0.0, 1.0, 0.0]));
    assert_eq!(StateSpaceModel::new(a, b_wrong).unwrap_err(), DareError::DimensionMismatch);

    let a_rect = to_mat(&DMatrix::from_row_slice(2, 3, &[0.0; 6]));
    let b = to_mat(&DMatrix::from_row_slice(2, 1, &[0.0, 1.0]));
    assert_eq!(StateSpaceModel::new(a_rect, b).unwrap_err(), DareError::DimensionMismatch);
}

#[test]
fn cost_weights_check_shapes() {
    let q = to_mat(&DMatrix::from_row_slice(2, 2, &[1.0, 0.0, 0.0, 1.0]));
    let r = to_mat(&DMatrix::from_row_slice(1, 1, &[1.0]));
    assert!(CostWeights::new(q, r, 2, 1).is_ok());
    let q = to_mat(&DMatrix::from_row_slice(2, 2, &[1.0, 0.0, 0.0, 1.0]));
    let r = to_mat(&DMatrix::from_row_slice(1, 1, &[1.0]));
    assert_eq!(CostWeights::new(q, r, 2, 2).unwrap_err(), DareError::DimensionMismatch);
}

#[test]
fn build_augmented_matches_block_layout() {
    let a = DMatrix::from_row_slice(2, 2, &[1.0, 2.0, 3.0, 4.0]);
    let b = DMatrix::from_row_slice(2, 1, &[5.0, 6.0]);
    let model = StateSpaceModel::new(to_mat(&a), to_mat(&b)).unwrap();
    let aug = build_augmented(&model);
    assert_eq!(aug.nrows(), 3);
    assert_eq!(aug.ncols(), 3);

    let mut expected = DMatrix::<f64>::zeros(3, 3);
    expected.view_mut((0, 0), (2, 2)).copy_from(&a);
    expected.view_mut((0, 2), (2, 1)).copy_from(&b);
    for i in 0..3 {
        for j in 0..3 {
            assert_eq!(entry(&aug, i, j), expected[(i, j)]);
        }
    }
}

#[test]
fn extract_block_copies_the_requested_entries() {
    let m = DMatrix::from_row_slice(3, 4, &[
        1.0, 2.0, 3.0, 4.0,
        5.0, 6.0, 7.0, 8.0,
        9.0, 10.0, 11.0, 12.0,
    ]);
    let block = extract_block(&to_mat(&m), 1, 2, 2, 2);
    assert_eq!(block.nrows(), 2);
    assert_eq!(block.ncols(), 2);
    assert_eq!(entry(&block, 0, 0), 7.0);
    assert_eq!(entry(&block, 0, 1), 8.0);
    assert_eq!(entry(&block, 1, 0), 11.0);
    assert_eq!(entry(&block, 1, 1), 12.0);
}

#[test]
fn split_exponential_checks_shape_and_finiteness() {
    let phi = to_mat(&DMatrix::from_row_slice(3, 3, &[
        1.0, 0.1, 0.2,
        0.0, 1.0, 0.3,
        0.0, 0.0, 1.0,
    ]));
    let d = split_exponential(&phi, 2, 1).unwrap();
    assert_eq!(d.disc_a.nrows(), 2);
    assert_eq!(d.disc_a.ncols(), 2);
    assert_eq!(d.disc_b.nrows(), 2);
    assert_eq!(d.disc_b.ncols(), 1);
    assert_eq!(entry(&d.disc_a, 0, 1), 0.1);
    assert_eq!(entry(&d.disc_b, 0, 0), 0.2);
    assert_eq!(entry(&d.disc_b, 1, 0), 0.3);

    let phi_small = to_mat(&DMatrix::from_row_slice(2, 2, &[1.0, 0.0, 0.0, 1.0]));
    assert_eq!(split_exponential(&phi_small, 2, 1).unwrap_err(), DareError::DimensionMismatch);

    let phi_nan = to_mat(&DMatrix::from_row_slice(3, 3, &[
        1.0, 0.1, 0.2,
        0.0, f64::NAN, 0.3,
        0.0, 0.0, 1.0,
    ]));
    assert_eq!(
        split_exponential(&phi_nan, 2, 1).unwrap_err(),
        DareError::MatrixExponentialFailure
    );
}

#[test]
fn dare_solution_checks_its_shape() {
    let s = to_mat(&DMatrix::from_row_slice(2, 2, &[1.0, 0.0, 0.0, 1.0]));
    let sol = riccati::solver::DareSolution::new(s, 2).unwrap();
    assert_eq!(sol.s.nrows(), 2);
    let s_rect = to_mat(&DMatrix::from_row_slice(2, 3, &[0.0; 6]));
    assert_eq!(
        riccati::solver::DareSolution::new(s_rect, 2).unwrap_err(),
        DareError::DimensionMismatch
    );
}

#[test]
fn dare_solver_rejects_bad_shapes() {
    let a = to_mat(&DMatrix::from_row_slice(2, 2, &[0.0; 4]));
    let b = to_mat(&DMatrix::from_row_slice(2, 1, &[0.0; 2]));
    let q = to_mat(&DMatrix::from_row_slice(2, 2, &[0.0; 4]));
    let r_wrong = to_mat(&DMatrix::from_row_slice(2, 2, &[0.0; 4]));
    assert_eq!(
        DareSolver::new(&a, &b, &q, &r_wrong, 10).unwrap_err(),
        DareError::DimensionMismatch
    );
}

#[test]
fn failed_r_factorization_aborts_before_any_iteration() {
    let a = to_mat(&DMatrix::from_row_slice(1, 1, &[0.5]));
    let b = to_mat(&DMatrix::from_row_slice(1, 1, &[1.0]));
    let q = to_mat(&DMatrix::from_row_slice(1, 1, &[1.0]));
    let r = to_mat(&DMatrix::from_row_slice(1, 1, &[1.0]));
    let solver = DareSolver::new(&a, &b, &q, &r, 10).unwrap();
    assert_eq!(
        solver.check_r_factorization(false).unwrap_err(),
        DareError::NonPositiveDefiniteR
    );
    assert!(solver.check_r_factorization(true).is_ok());
    // No iteration was scheduled or recorded before the policy decision.
    assert_eq!(solver.iteration, 0);
}

#[test]
fn iteration_cap_yields_non_convergence() {
    let a = to_mat(&DMatrix::from_row_slice(1, 1, &[0.5]));
    let b = to_mat(&DMatrix::from_row_slice(1, 1, &[1.0]));
    let q = to_mat(&DMatrix::from_row_slice(1, 1, &[1.0]));
    let r = to_mat(&DMatrix::from_row_slice(1, 1, &[1.0]));
    let mut solver = DareSolver::new(&a, &b, &q, &r, 2).unwrap();
    assert_eq!(solver.next_step().unwrap(), 0);
    assert_eq!(
        solver.record_outcome(StepOutcome::Advanced { converged: false }).unwrap(),
        Progress::Continue
    );
    assert_eq!(solver.next_step().unwrap(), 1);
    assert_eq!(
        solver.record_outcome(StepOutcome::Advanced { converged: false }).unwrap(),
        Progress::Continue
    );
    assert_eq!(solver.next_step().unwrap_err(), DareError::NonConvergence);
}

#[test]
fn singular_iteration_reports_its_index() {
    let a = to_mat(&DMatrix::from_row_slice(1, 1, &[0.5]));
    let b = to_mat(&DMatrix::from_row_slice(1, 1, &[1.0]));
    let q = to_mat(&DMatrix::from_row_slice(1, 1, &[1.0]));
    let r = to_mat(&DMatrix::from_row_slice(1, 1, &[1.0]));
    let mut solver = DareSolver::new(&a, &b, &q, &r, 10).unwrap();
    assert_eq!(
        solver.record_outcome(StepOutcome::Advanced { converged: false }).unwrap(),
        Progress::Continue
    );
    assert_eq!(
        solver.record_outcome(StepOutcome::Singular).unwrap_err(),
        DareError::SingularIteration(1)
    );
}

#[test]
fn converged_outcome_finishes_the_solve() {
    let a = to_mat(&DMatrix::from_row_slice(1, 1, &[0.5]));
    let b = to_mat(&DMatrix::from_row_slice(1, 1, &[1.0]));
    let q = to_mat(&DMatrix::from_row_slice(1, 1, &[1.0]));
    let r = to_mat(&DMatrix::from_row_slice(1, 1, &[1.0]));
    let mut solver = DareSolver::new(&a, &b, &q, &r, 10).unwrap();
    assert_eq!(
        solver.record_outcome(StepOutcome::Advanced { converged: true }).unwrap(),
        Progress::Converged
    );
    assert_eq!(solver.iteration, 0);
}
