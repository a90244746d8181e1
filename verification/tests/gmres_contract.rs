//! Value-semantic restarted-GMRES conformance over a host backend.

use core::marker::PhantomData;

use athena::{
    ConvergencePolicy, CsrMatrix, CsrOperator, Gmres, GmresWorkspace, Identity, IterationObserver,
    IterationState, Jacobi, KrylovBackend, LetoBackendError, LinearOperator, Preconditioner,
    SolveError, Termination, axpy_slice, combine_direction_slices, copy_slice,
    fused_cg_update_slices, residual_slice, scale_slice,
};

/// Real scalar a host test backend computes in.
trait Real:
    Copy
    + Default
    + PartialEq
    + PartialOrd
    + core::fmt::Debug
    + core::ops::Add<Output = Self>
    + core::ops::Sub<Output = Self>
    + core::ops::Mul<Output = Self>
    + core::ops::Div<Output = Self>
    + core::ops::Neg<Output = Self>
    + 'static
{
    const EPSILON: Self;
    const ZERO: Self;
    const ONE: Self;
    fn from_f64(value: f64) -> Self;
    fn from_count(count: usize) -> Self;
    fn finite(self) -> bool;
    fn magnitude(self) -> Self;
    fn root(self) -> Self;
    fn to_f64(self) -> f64;
}

impl Real for f32 {
    const EPSILON: Self = f32::EPSILON;
    const ZERO: Self = 0.0;
    const ONE: Self = 1.0;
    fn from_f64(value: f64) -> Self {
        value as f32
    }
    fn from_count(count: usize) -> Self {
        count as f32
    }
    fn finite(self) -> bool {
        self.is_finite()
    }
    fn magnitude(self) -> Self {
        self.abs()
    }
    fn root(self) -> Self {
        self.sqrt()
    }
    fn to_f64(self) -> f64 {
        f64::from(self)
    }
}

impl Real for f64 {
    const EPSILON: Self = f64::EPSILON;
    const ZERO: Self = 0.0;
    const ONE: Self = 1.0;
    fn from_f64(value: f64) -> Self {
        value
    }
    fn from_count(count: usize) -> Self {
        count as f64
    }
    fn finite(self) -> bool {
        self.is_finite()
    }
    fn magnitude(self) -> Self {
        self.abs()
    }
    fn root(self) -> Self {
        self.sqrt()
    }
    fn to_f64(self) -> f64 {
        self
    }
}

/// Zero-sized host backend over `Vec<T>` with IEEE arithmetic, its vector
/// kernels delegated to the library's host-slice kernels.
#[derive(Debug)]
struct Host<T>(PhantomData<T>);

impl<T> Default for Host<T> {
    fn default() -> Self {
        Host(PhantomData)
    }
}

fn dot<T: Real>(left: &[T], right: &[T]) -> Result<T, LetoBackendError> {
    if left.len() != right.len() {
        return Err(LetoBackendError::LengthMismatch { left: left.len(), right: right.len() });
    }
    let mut sum = T::ZERO;
    for (a, b) in left.iter().zip(right) {
        sum = sum + *a * *b;
    }
    Ok(sum)
}

impl<T: Real> KrylovBackend for Host<T> {
    type Scalar = T;
    type Error = LetoBackendError;
    type Vector = Vec<T>;
    type VectorBlock = Vec<Vec<T>>;
    type PreparedDot = ();
    type PreparedNorm = ();
    type View<'a> = &'a [T];
    type ViewMut<'a> = &'a mut [T];

    fn zero(&self) -> T {
        T::ZERO
    }
    fn one(&self) -> T {
        T::ONE
    }
    fn epsilon(&self) -> T {
        T::EPSILON
    }
    fn from_count(&self, count: usize) -> T {
        T::from_count(count)
    }
    fn is_finite(&self, value: T) -> bool {
        value.finite()
    }
    fn less(&self, left: T, right: T) -> bool {
        left < right
    }
    fn less_equal(&self, left: T, right: T) -> bool {
        left <= right
    }
    fn equal(&self, left: T, right: T) -> bool {
        left == right
    }
    fn add(&self, left: T, right: T) -> T {
        left + right
    }
    fn sub(&self, left: T, right: T) -> T {
        left - right
    }
    fn mul(&self, left: T, right: T) -> T {
        left * right
    }
    fn div(&self, left: T, right: T) -> T {
        left / right
    }
    fn neg(&self, value: T) -> T {
        -value
    }
    fn abs(&self, value: T) -> T {
        value.magnitude()
    }
    fn sqrt(&self, value: T) -> T {
        value.root()
    }
    fn allocate(&self, len: usize) -> Result<Vec<T>, LetoBackendError> {
        Ok(vec![T::ZERO; len])
    }
    fn allocate_block(&self, count: usize, len: usize) -> Result<Vec<Vec<T>>, LetoBackendError> {
        Ok(vec![vec![T::ZERO; len]; count])
    }
    fn view<'a>(&'a self, vector: &'a Vec<T>) -> &'a [T] {
        vector
    }
    fn view_mut<'a>(&'a self, vector: &'a mut Vec<T>) -> &'a mut [T] {
        vector
    }
    fn block_view<'a>(&'a self, block: &'a Vec<Vec<T>>, index: usize) -> &'a [T] {
        &block[index]
    }
    fn block_view_mut<'a>(&'a self, block: &'a mut Vec<Vec<T>>, index: usize) -> &'a mut [T] {
        &mut block[index]
    }
    fn vector_len(&self, vector: &Vec<T>) -> usize {
        vector.len()
    }
    fn copy(&self, source: &[T], target: &mut [T]) -> Result<(), LetoBackendError> {
        copy_slice(source, target)
    }
    fn scale(&self, target: &mut [T], factor: T) -> Result<(), LetoBackendError> {
        scale_slice(self, target, factor);
        Ok(())
    }
    fn axpy(&self, target: &mut [T], source: &[T], factor: T) -> Result<(), LetoBackendError> {
        axpy_slice(self, target, source, factor)
    }
    fn prepare_dot(&self, _left: &[T], _right: &[T]) -> Result<(), LetoBackendError> {
        Ok(())
    }
    fn dot_prepared(&self, _prepared: &(), left: &[T], right: &[T]) -> Result<T, LetoBackendError> {
        dot(left, right)
    }
    fn prepare_norm_l2(&self, _vector: &[T]) -> Result<(), LetoBackendError> {
        Ok(())
    }
    fn norm_l2_prepared(&self, _prepared: &(), vector: &[T]) -> Result<T, LetoBackendError> {
        Ok(dot(vector, vector)?.root())
    }
    fn norm_l2(&self, vector: &[T]) -> Result<T, LetoBackendError> {
        Ok(dot(vector, vector)?.root())
    }
    fn residual(&self, rhs: &[T], image: &[T], residual: &mut [T]) -> Result<(), LetoBackendError> {
        residual_slice(self, rhs, image, residual)
    }
    fn fused_cg_update(
        &self,
        solution: &mut [T],
        direction: &[T],
        residual: &mut [T],
        image: &[T],
        alpha: T,
    ) -> Result<(), LetoBackendError> {
        fused_cg_update_slices(self, solution, direction, residual, image, alpha)
    }
    fn combine_direction(&self, direction: &mut [T], z: &[T], beta: T) -> Result<(), LetoBackendError> {
        combine_direction_slices(self, direction, z, beta)
    }
}

/// `output = A · input` over the matrix's stored entries.
fn sparse_product<T: Real>(matrix: &CsrMatrix<T>, input: &[T], output: &mut [T]) -> Result<(), LetoBackendError> {
    let (rows, columns) = matrix.shape();
    if input.len() != columns {
        return Err(LetoBackendError::LengthMismatch { left: input.len(), right: columns });
    }
    if output.len() != rows {
        return Err(LetoBackendError::LengthMismatch { left: output.len(), right: rows });
    }
    let row_ptr = matrix.row_ptr();
    for row in 0..rows {
        let mut sum = T::ZERO;
        for entry in row_ptr[row]..row_ptr[row + 1] {
            sum = sum + matrix.values()[entry] * input[matrix.col_indices()[entry]];
        }
        output[row] = sum;
    }
    Ok(())
}

impl<T: Real> LinearOperator<Host<T>> for CsrOperator<T> {
    fn dimension(&self) -> usize {
        CsrOperator::dimension(self)
    }
    fn apply(&self, _backend: &Host<T>, input: &[T], output: &mut [T]) -> Result<(), LetoBackendError> {
        sparse_product(self.matrix(), input, output)
    }
}

impl<T: Real> Preconditioner<Host<T>> for Jacobi<T> {
    fn apply(&self, backend: &Host<T>, residual: &[T], output: &mut [T]) -> Result<(), LetoBackendError> {
        Jacobi::apply(self, backend, residual, output)
    }
}

fn csr<T: Real>(values: &[f64], col_indices: Vec<usize>, row_ptr: Vec<usize>, rows: usize, columns: usize) -> CsrMatrix<T> {
    CsrMatrix::from_parts(values.iter().map(|&v| T::from_f64(v)).collect(), col_indices, row_ptr, rows, columns)
        .expect("invariant: manufactured CSR parts are valid")
}

fn vector<T: Real>(values: &[f64]) -> Vec<T> {
    values.iter().map(|&v| T::from_f64(v)).collect()
}

fn nonsymmetric_matrix<T: Real>() -> CsrMatrix<T> {
    csr(&[4.0, 1.0, 2.0, 3.0, 1.0, 1.0, 2.0], vec![0, 1, 0, 1, 2, 1, 2], vec![0, 2, 5, 7], 3, 3)
}

fn assert_manufactured_solution<T: Real>(values: &[T], bound: T) {
    assert!((values[0] - T::from_f64(1.0)).magnitude() <= bound);
    assert!((values[1] - T::from_f64(-2.0)).magnitude() <= bound);
    assert!((values[2] - T::from_f64(3.0)).magnitude() <= bound);

    // Independent direct substitution verifies A*x=b in addition to comparing
    // the solution vector. The matrix infinity norm is six, so this residual
    // bound is six times the forward-error bound plus one rounding per row.
    let residual_bound = T::from_f64(8.0) * bound;
    let first = T::from_f64(4.0) * values[0] + values[1] - T::from_f64(2.0);
    let second = T::from_f64(2.0) * values[0] + T::from_f64(3.0) * values[1] + values[2] + T::ONE;
    let third = values[1] + T::from_f64(2.0) * values[2] - T::from_f64(4.0);
    assert!(first.magnitude() <= residual_bound);
    assert!(second.magnitude() <= residual_bound);
    assert!(third.magnitude() <= residual_bound);
}

fn verifies_nonsymmetric_solution<T: Real>() {
    let backend = Host::<T>::default();
    let matrix = nonsymmetric_matrix::<T>();
    let operator = CsrOperator::new(matrix.clone()).expect("invariant: matrix is square");
    let right_hand_side = vector::<T>(&[2.0, -1.0, 4.0]);
    let mut solution = vec![T::ZERO; 3];
    let mut workspace =
        GmresWorkspace::<_, 3>::new(&backend, 3).expect("invariant: host allocation succeeds");
    // One MGS pass, three Arnoldi columns, and one triangular backsolve give
    // O(n² ε) forward error for this well-conditioned manufactured system.
    let bound = T::from_f64(4096.0) * T::EPSILON;
    let policy = ConvergencePolicy::new(&backend, bound, bound, 6)
        .expect("invariant: tolerance is finite and non-negative");

    let report = Gmres::<Host<T>, 3>::solve_into(
        &backend,
        &operator,
        &Identity,
        &right_hand_side,
        &mut solution,
        &mut workspace,
        policy,
    )
    .expect("invariant: manufactured solve has valid dimensions");

    assert_eq!(report.termination, Termination::Converged);
    assert_manufactured_solution(&solution, bound);

    let jacobi = Jacobi::from_csr(&backend, &matrix).expect("invariant: diagonal is nonzero");
    solution.fill(T::ZERO);
    let report = Gmres::<Host<T>, 3>::solve_into(
        &backend,
        &operator,
        &jacobi,
        &right_hand_side,
        &mut solution,
        &mut workspace,
        policy,
    )
    .expect("invariant: right-preconditioned solve has valid dimensions");
    assert_eq!(report.termination, Termination::Converged);
    assert_manufactured_solution(&solution, bound);
}

#[test]
fn gmres_solves_nonsymmetric_system_for_every_cpu_scalar() {
    verifies_nonsymmetric_solution::<f32>();
    verifies_nonsymmetric_solution::<f64>();
}

#[test]
fn restart_width_smaller_than_dimension_executes_multiple_cycles() {
    let backend = Host::<f64>::default();
    let operator = CsrOperator::new(nonsymmetric_matrix::<f64>()).expect("invariant: matrix is square");
    let right_hand_side = vec![2.0, -1.0, 4.0];
    let mut solution = vec![0.0; 3];
    let mut workspace =
        GmresWorkspace::<_, 2>::new(&backend, 3).expect("invariant: host allocation succeeds");
    let policy = ConvergencePolicy::new(&backend, 4096.0 * f64::EPSILON, 4096.0 * f64::EPSILON, 30)
        .expect("invariant: valid policy");

    let report = Gmres::<Host<f64>, 2>::solve_into(
        &backend,
        &operator,
        &Identity,
        &right_hand_side,
        &mut solution,
        &mut workspace,
        policy,
    )
    .expect("invariant: restarted solve succeeds");

    assert_eq!(report.termination, Termination::Converged);
    assert!(report.iterations > workspace.restart_width());
    let bound = 8192.0 * f64::EPSILON;
    assert!((solution[0] - 1.0).abs() <= bound);
    assert!((solution[1] + 2.0).abs() <= bound);
    assert!((solution[2] - 3.0).abs() <= bound);
}

#[test]
fn gmres_algorithm_marker_is_zero_sized() {
    assert_eq!(core::mem::size_of::<Gmres<Host<f64>, 3>>(), 0);
}

#[test]
fn gmres_rejects_dimension_mismatch_before_dispatch() {
    let backend = Host::<f64>::default();
    let operator = CsrOperator::new(nonsymmetric_matrix::<f64>()).expect("invariant: matrix is square");
    let right_hand_side = vec![1.0, 2.0];
    let mut solution = vec![0.0; 3];
    let mut workspace =
        GmresWorkspace::<_, 3>::new(&backend, 3).expect("invariant: host allocation succeeds");
    let policy = ConvergencePolicy::new(&backend, 0.0, 0.0, 3).expect("invariant: zero tolerance is valid");

    let error = Gmres::<Host<f64>, 3>::solve_into(
        &backend,
        &operator,
        &Identity,
        &right_hand_side,
        &mut solution,
        &mut workspace,
        policy,
    )
    .expect_err("right-hand-side length must be validated");

    assert!(matches!(
        error,
        SolveError::DimensionMismatch { context: "right-hand side", expected: 3, actual: 2 }
    ));
}

#[test]
fn gmres_reports_budget_and_breakdown_value_semantically() {
    let backend = Host::<f64>::default();
    let operator = CsrOperator::new(nonsymmetric_matrix::<f64>()).expect("invariant: matrix is square");
    let right_hand_side = vec![2.0, -1.0, 4.0];
    let mut solution = vec![0.0; 3];
    let mut workspace =
        GmresWorkspace::<_, 1>::new(&backend, 3).expect("invariant: host allocation succeeds");
    let policy = ConvergencePolicy::new(&backend, 0.0, 0.0, 1).expect("invariant: exact policy is valid");
    let report = Gmres::<Host<f64>, 1>::solve_into(
        &backend,
        &operator,
        &Identity,
        &right_hand_side,
        &mut solution,
        &mut workspace,
        policy,
    )
    .expect("invariant: one Arnoldi step is valid");
    assert_eq!(report.termination, Termination::MaxIterations);
    assert_eq!(report.iterations, 1);

    let zero = CsrMatrix::from_parts(Vec::new(), Vec::new(), vec![0, 0, 0], 2, 2)
        .expect("invariant: empty square CSR is valid");
    let zero_operator = CsrOperator::new(zero).expect("invariant: matrix is square");
    let zero_rhs = vec![1.0, 0.0];
    let mut zero_solution = vec![0.0; 2];
    let mut zero_workspace =
        GmresWorkspace::<_, 2>::new(&backend, 2).expect("invariant: host allocation succeeds");
    let policy = ConvergencePolicy::new(&backend, 0.0, 0.0, 2).expect("invariant: exact policy is valid");
    let report = Gmres::<Host<f64>, 2>::solve_into(
        &backend,
        &zero_operator,
        &Identity,
        &zero_rhs,
        &mut zero_solution,
        &mut zero_workspace,
        policy,
    )
    .expect("invariant: singular recurrence terminates value-semantically");
    assert_eq!(report.termination, Termination::Breakdown);
    assert_eq!(report.iterations, 1);
}

#[test]
fn gmres_zero_right_hand_side_converges_without_iteration() {
    let backend = Host::<f64>::default();
    let operator = CsrOperator::new(nonsymmetric_matrix::<f64>()).expect("invariant: matrix is square");
    let right_hand_side = vec![0.0; 3];
    let mut solution = vec![0.0; 3];
    let mut workspace =
        GmresWorkspace::<_, 3>::new(&backend, 3).expect("invariant: host allocation succeeds");
    let policy = ConvergencePolicy::new(&backend, 0.0, 0.0, 3).expect("invariant: exact policy is valid");

    let report = Gmres::<Host<f64>, 3>::solve_into(
        &backend,
        &operator,
        &Identity,
        &right_hand_side,
        &mut solution,
        &mut workspace,
        policy,
    )
    .expect("invariant: zero system is valid");

    assert_eq!(report.termination, Termination::InitialResidual);
    assert_eq!(report.iterations, 0);
}

/// Collect every observed residual so the history a stalled solve produces is
/// checkable.
#[derive(Default)]
struct ResidualHistory {
    samples: Vec<f64>,
}

impl IterationObserver<f64> for ResidualHistory {
    fn observe(&mut self, state: IterationState<f64>) {
        self.samples.push(state.residual_norm);
    }
}

/// The cyclic down-shift `A e_i = e_{i+1}` with `b = e_1` is the exact
/// stagnation case for restarted GMRES: `A b` is orthogonal to `b`, so
/// GMRES(1) minimises `‖b − α A b‖` at `α = 0` and every cycle returns the
/// iterate unchanged with the residual still at `‖b‖ = 1`.
fn cyclic_shift_matrix(order: usize) -> CsrMatrix<f64> {
    let values = vec![1.0; order];
    let columns = (0..order).map(|row| (row + order - 1) % order).collect();
    let offsets = (0..=order).collect();
    CsrMatrix::from_parts(values, columns, offsets, order, order)
        .expect("invariant: one unit entry per row is a valid CSR permutation")
}

#[test]
fn gmres_reports_stagnation_with_a_residual_history() {
    let backend = Host::<f64>::default();
    let operator = CsrOperator::new(cyclic_shift_matrix(4)).expect("invariant: matrix is square");
    let mut right_hand_side = vec![0.0; 4];
    right_hand_side[0] = 1.0;
    let mut solution = vec![0.0; 4];
    let mut workspace =
        GmresWorkspace::<_, 1>::new(&backend, 4).expect("invariant: host allocation succeeds");
    let policy = ConvergencePolicy::new(&backend, 1.0e-12, 1.0e-12, 32).expect("invariant: valid policy");
    let mut history = ResidualHistory::default();

    let report = Gmres::<Host<f64>, 1>::solve_with_observer(
        &backend,
        &operator,
        &Identity,
        &right_hand_side,
        &mut solution,
        &mut workspace,
        policy,
        &mut history,
    )
    .expect("invariant: the stalled solve has valid dimensions");

    assert_eq!(report.termination, Termination::Stagnated);
    assert!(!report.converged());

    // The stall is detected on the first unproductive cycle, not after the
    // 32-iteration budget drains.
    assert_eq!(report.iterations, 1);
    assert!(report.final_residual_norm >= report.initial_residual_norm);

    assert!(!history.samples.is_empty());
    for sample in &history.samples {
        assert!((sample - 1.0).abs() <= 8.0 * f64::EPSILON);
    }
}

#[test]
fn gmres_makes_progress_where_the_shift_operator_is_not_orthogonal() {
    // The guard for the case above: a system GMRES(1) can reduce must not be
    // classified as stagnant.
    let backend = Host::<f64>::default();
    let operator = CsrOperator::new(nonsymmetric_matrix::<f64>()).expect("invariant: matrix is square");
    let right_hand_side = vec![2.0, -1.0, 4.0];
    let mut solution = vec![0.0; 3];
    let mut workspace =
        GmresWorkspace::<_, 1>::new(&backend, 3).expect("invariant: host allocation succeeds");
    let policy = ConvergencePolicy::new(&backend, 1.0e-10, 1.0e-10, 64).expect("invariant: valid policy");

    let report = Gmres::<Host<f64>, 1>::solve_into(
        &backend,
        &operator,
        &Identity,
        &right_hand_side,
        &mut solution,
        &mut workspace,
        policy,
    )
    .expect("invariant: manufactured solve has valid dimensions");

    assert_eq!(report.termination, Termination::Converged);
    assert_manufactured_solution(&solution, 1.0e-8);
}
