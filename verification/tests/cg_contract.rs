//! Value-semantic conjugate-gradient conformance over a host backend.

use core::marker::PhantomData;

use athena::{
    Cg, CgWorkspace, ConvergencePolicy, CsrMatrix, CsrOperator, Identity, IterationObserver,
    IterationState, Jacobi, KrylovBackend, LetoBackendError, LinearOperator, Preconditioner,
    SolveError, Termination, axpy_slice, combine_direction_slices, copy_slice,
    fused_cg_update_slices, residual_slice, scale_slice,
};

/// Real scalar a host test backend computes in.
trait Real:
    Copy
    + Default
    + PartialEq
    + PartialOrd
    + core::fmt::Debug
    + core::ops::Add<Output = Self>
    + core::ops::Sub<Output = Self>
    + core::ops::Mul<Output = Self>
    + core::ops::Div<Output = Self>
    + core::ops::Neg<Output = Self>
    + 'static
{
    const EPSILON: Self;
    const ZERO: Self;
    const ONE: Self;
    fn from_f64(value: f64) -> Self;
    fn from_count(count: usize) -> Self;
    fn finite(self) -> bool;
    fn magnitude(self) -> Self;
    fn root(self) -> Self;
    fn to_f64(self) -> f64;
}

impl Real for f32 {
    const EPSILON: Self = f32::EPSILON;
    const ZERO: Self = 0.0;
    const ONE: Self = 1.0;
    fn from_f64(value: f64) -> Self {
        value as f32
    }
    fn from_count(count: usize) -> Self {
        count as f32
    }
    fn finite(self) -> bool {
        self.is_finite()
    }
    fn magnitude(self) -> Self {
        self.abs()
    }
    fn root(self) -> Self {
        self.sqrt()
    }
    fn to_f64(self) -> f64 {
        f64::from(self)
    }
}

impl Real for f64 {
    const EPSILON: Self = f64::EPSILON;
    const ZERO: Self = 0.0;
    const ONE: Self = 1.0;
    fn from_f64(value: f64) -> Self {
        value
    }
    fn from_count(count: usize) -> Self {
        count as f64
    }
    fn finite(self) -> bool {
        self.is_finite()
    }
    fn magnitude(self) -> Self {
        self.abs()
    }
    fn root(self) -> Self {
        self.sqrt()
    }
    fn to_f64(self) -> f64 {
        self
    }
}

/// Zero-sized host backend over `Vec<T>` with IEEE arithmetic, its vector
/// kernels delegated to the library's host-slice kernels.
#[derive(Debug)]
struct Host<T>(PhantomData<T>);

impl<T> Default for Host<T> {
    fn default() -> Self {
        Host(PhantomData)
    }
}

fn dot<T: Real>(left: &[T], right: &[T]) -> Result<T, LetoBackendError> {
    if left.len() != right.len() {
        return Err(LetoBackendError::LengthMismatch { left: left.len(), right: right.len() });
    }
    let mut sum = T::ZERO;
    for (a, b) in left.iter().zip(right) {
        sum = sum + *a * *b;
    }
    Ok(sum)
}

impl<T: Real> KrylovBackend for Host<T> {
    type Scalar = T;
    type Error = LetoBackendError;
    type Vector = Vec<T>;
    type VectorBlock = Vec<Vec<T>>;
    type PreparedDot = ();
    type PreparedNorm = ();
    type View<'a> = &'a [T];
    type ViewMut<'a> = &'a mut [T];

    fn zero(&self) -> T {
        T::ZERO
    }
    fn one(&self) -> T {
        T::ONE
    }
    fn epsilon(&self) -> T {
        T::EPSILON
    }
    fn from_count(&self, count: usize) -> T {
        T::from_count(count)
    }
    fn is_finite(&self, value: T) -> bool {
        value.finite()
    }
    fn less(&self, left: T, right: T) -> bool {
        left < right
    }
    fn less_equal(&self, left: T, right: T) -> bool {
        left <= right
    }
    fn equal(&self, left: T, right: T) -> bool {
        left == right
    }
    fn add(&self, left: T, right: T) -> T {
        left + right
    }
    fn sub(&self, left: T, right: T) -> T {
        left - right
    }
    fn mul(&self, left: T, right: T) -> T {
        left * right
    }
    fn div(&self, left: T, right: T) -> T {
        left / right
    }
    fn neg(&self, value: T) -> T {
        -value
    }
    fn abs(&self, value: T) -> T {
        value.magnitude()
    }
    fn sqrt(&self, value: T) -> T {
        value.root()
    }
    fn allocate(&self, len: usize) -> Result<Vec<T>, LetoBackendError> {
        Ok(vec![T::ZERO; len])
    }
    fn allocate_block(&self, count: usize, len: usize) -> Result<Vec<Vec<T>>, LetoBackendError> {
        Ok(vec![vec![T::ZERO; len]; count])
    }
    fn view<'a>(&'a self, vector: &'a Vec<T>) -> &'a [T] {
        vector
    }
    fn view_mut<'a>(&'a self, vector: &'a mut Vec<T>) -> &'a mut [T] {
        vector
    }
    fn block_view<'a>(&'a self, block: &'a Vec<Vec<T>>, index: usize) -> &'a [T] {
        &block[index]
    }
    fn block_view_mut<'a>(&'a self, block: &'a mut Vec<Vec<T>>, index: usize) -> &'a mut [T] {
        &mut block[index]
    }
    fn vector_len(&self, vector: &Vec<T>) -> usize {
        vector.len()
    }
    fn copy(&self, source: &[T], target: &mut [T]) -> Result<(), LetoBackendError> {
        copy_slice(source, target)
    }
    fn scale(&self, target: &mut [T], factor: T) -> Result<(), LetoBackendError> {
        scale_slice(self, target, factor);
        Ok(())
    }
    fn axpy(&self, target: &mut [T], source: &[T], factor: T) -> Result<(), LetoBackendError> {
        axpy_slice(self, target, source, factor)
    }
    fn prepare_dot(&self, _left: &[T], _right: &[T]) -> Result<(), LetoBackendError> {
        Ok(())
    }
    fn dot_prepared(&self, _prepared: &(), left: &[T], right: &[T]) -> Result<T, LetoBackendError> {
        dot(left, right)
    }
    fn prepare_norm_l2(&self, _vector: &[T]) -> Result<(), LetoBackendError> {
        Ok(())
    }
    fn norm_l2_prepared(&self, _prepared: &(), vector: &[T]) -> Result<T, LetoBackendError> {
        Ok(dot(vector, vector)?.root())
    }
    fn norm_l2(&self, vector: &[T]) -> Result<T, LetoBackendError> {
        Ok(dot(vector, vector)?.root())
    }
    fn residual(&self, rhs: &[T], image: &[T], residual: &mut [T]) -> Result<(), LetoBackendError> {
        residual_slice(self, rhs, image, residual)
    }
    fn fused_cg_update(
        &self,
        solution: &mut [T],
        direction: &[T],
        residual: &mut [T],
        image: &[T],
        alpha: T,
    ) -> Result<(), LetoBackendError> {
        fused_cg_update_slices(self, solution, direction, residual, image, alpha)
    }
    fn combine_direction(&self, direction: &mut [T], z: &[T], beta: T) -> Result<(), LetoBackendError> {
        combine_direction_slices(self, direction, z, beta)
    }
}

/// `output = A · input` over the matrix's stored entries.
fn sparse_product<T: Real>(matrix: &CsrMatrix<T>, input: &[T], output: &mut [T]) -> Result<(), LetoBackendError> {
    let (rows, columns) = matrix.shape();
    if input.len() != columns {
        return Err(LetoBackendError::LengthMismatch { left: input.len(), right: columns });
    }
    if output.len() != rows {
        return Err(LetoBackendError::LengthMismatch { left: output.len(), right: rows });
    }
    let row_ptr = matrix.row_ptr();
    for row in 0..rows {
        let mut sum = T::ZERO;
        for entry in row_ptr[row]..row_ptr[row + 1] {
            sum = sum + matrix.values()[entry] * input[matrix.col_indices()[entry]];
        }
        output[row] = sum;
    }
    Ok(())
}

impl<T: Real> LinearOperator<Host<T>> for CsrOperator<T> {
    fn dimension(&self) -> usize {
        CsrOperator::dimension(self)
    }
    fn apply(&self, _backend: &Host<T>, input: &[T], output: &mut [T]) -> Result<(), LetoBackendError> {
        sparse_product(self.matrix(), input, output)
    }
}

impl<T: Real> Preconditioner<Host<T>> for Jacobi<T> {
    fn apply(&self, backend: &Host<T>, residual: &[T], output: &mut [T]) -> Result<(), LetoBackendError> {
        Jacobi::apply(self, backend, residual, output)
    }
}

fn csr<T: Real>(values: &[f64], col_indices: Vec<usize>, row_ptr: Vec<usize>, rows: usize, columns: usize) -> CsrMatrix<T> {
    CsrMatrix::from_parts(values.iter().map(|&v| T::from_f64(v)).collect(), col_indices, row_ptr, rows, columns)
        .expect("invariant: manufactured CSR parts are valid")
}

fn vector<T: Real>(values: &[f64]) -> Vec<T> {
    values.iter().map(|&v| T::from_f64(v)).collect()
}

fn spd_matrix<T: Real>() -> CsrMatrix<T> {
    csr(&[4.0, 1.0, 1.0, 3.0], vec![0, 1, 0, 1], vec![0, 2, 4], 2, 2)
}

fn verifies_spd_solution<T: Real>() {
    let backend = Host::<T>::default();
    let matrix = spd_matrix::<T>();
    let operator = CsrOperator::new(matrix.clone()).expect("invariant: matrix is square");
    let right_hand_side = vector::<T>(&[6.0, 7.0]);
    let mut solution = vec![T::ZERO; 2];
    let mut workspace = CgWorkspace::new(&backend, 2).expect("invariant: host allocation succeeds");
    let policy = ConvergencePolicy::new(
        &backend,
        T::from_f64(64.0) * T::EPSILON,
        T::from_f64(64.0) * T::EPSILON,
        4,
    )
    .expect("invariant: tolerance is finite and positive");

    let report = Cg::<Host<T>>::solve_into(
        &backend,
        &operator,
        &Identity,
        &right_hand_side,
        &mut solution,
        &mut workspace,
        policy,
    )
    .expect("invariant: manufactured solve has valid dimensions");

    assert_eq!(report.termination, Termination::Converged);
    let bound = T::from_f64(256.0) * T::EPSILON;
    assert!((solution[0] - T::from_f64(1.0)).magnitude() <= bound);
    assert!((solution[1] - T::from_f64(2.0)).magnitude() <= bound);

    let jacobi = Jacobi::from_csr(&backend, &matrix).expect("invariant: diagonal is nonzero");
    solution.fill(T::ZERO);
    let report = Cg::<Host<T>>::solve_into(
        &backend,
        &operator,
        &jacobi,
        &right_hand_side,
        &mut solution,
        &mut workspace,
        policy,
    )
    .expect("invariant: Jacobi solve has valid dimensions");
    assert_eq!(report.termination, Termination::Converged);
}

#[test]
fn cg_solves_spd_system_for_every_cpu_scalar() {
    verifies_spd_solution::<f32>();
    verifies_spd_solution::<f64>();
}

#[test]
fn cg_reports_non_positive_curvature() {
    let backend = Host::<f64>::default();
    let matrix = csr::<f64>(&[-1.0], vec![0], vec![0, 1], 1, 1);
    let operator = CsrOperator::new(matrix).expect("invariant: matrix is square");
    let right_hand_side = vec![1.0];
    let mut solution = vec![0.0; 1];
    let mut workspace = CgWorkspace::new(&backend, 1).expect("invariant: host allocation succeeds");
    let policy = ConvergencePolicy::new(&backend, f64::EPSILON, f64::EPSILON, 2)
        .expect("invariant: valid policy");

    let report = Cg::<Host<f64>>::solve_into(
        &backend,
        &operator,
        &Identity,
        &right_hand_side,
        &mut solution,
        &mut workspace,
        policy,
    )
    .expect("invariant: numerical termination is value-semantic");

    assert_eq!(report.termination, Termination::NonPositiveCurvature);
    assert_eq!(report.iterations, 0);
}

#[test]
fn zero_right_hand_side_converges_without_iteration() {
    let backend = Host::<f64>::default();
    let operator = CsrOperator::new(spd_matrix::<f64>()).expect("invariant: matrix is square");
    let right_hand_side = vec![0.0; 2];
    let mut solution = vec![0.0; 2];
    let mut workspace = CgWorkspace::new(&backend, 2).expect("invariant: host allocation succeeds");
    let policy = ConvergencePolicy::new(&backend, 0.0, 0.0, 2).expect("invariant: valid policy");

    let report = Cg::<Host<f64>>::solve_into(
        &backend,
        &operator,
        &Identity,
        &right_hand_side,
        &mut solution,
        &mut workspace,
        policy,
    )
    .expect("invariant: zero system is valid");

    assert_eq!(report.termination, Termination::InitialResidual);
    assert_eq!(report.iterations, 0);
    assert!(solution.iter().all(|value| value.to_bits() == 0.0_f64.to_bits()));
}

#[test]
fn iteration_budget_is_a_value_semantic_termination() {
    let backend = Host::<f64>::default();
    let operator = CsrOperator::new(spd_matrix::<f64>()).expect("invariant: matrix is square");
    let right_hand_side = vec![6.0, 7.0];
    let mut solution = vec![0.0; 2];
    let mut workspace = CgWorkspace::new(&backend, 2).expect("invariant: host allocation succeeds");
    let policy = ConvergencePolicy::new(&backend, 0.0, 0.0, 1).expect("invariant: valid policy");

    let report = Cg::<Host<f64>>::solve_into(
        &backend,
        &operator,
        &Identity,
        &right_hand_side,
        &mut solution,
        &mut workspace,
        policy,
    )
    .expect("iteration exhaustion is not a backend failure");

    assert_eq!(report.termination, Termination::MaxIterations);
    assert_eq!(report.iterations, 1);
}

#[test]
fn cg_rejects_vector_dimension_mismatch_before_dispatch() {
    let backend = Host::<f64>::default();
    let operator = CsrOperator::new(spd_matrix::<f64>()).expect("invariant: matrix is square");
    let right_hand_side = vec![1.0];
    let mut solution = vec![0.0; 2];
    let mut workspace = CgWorkspace::new(&backend, 2).expect("invariant: host allocation succeeds");
    let policy = ConvergencePolicy::new(&backend, f64::EPSILON, f64::EPSILON, 2)
        .expect("invariant: valid policy");

    let error = Cg::<Host<f64>>::solve_into(
        &backend,
        &operator,
        &Identity,
        &right_hand_side,
        &mut solution,
        &mut workspace,
        policy,
    )
    .expect_err("a length-one right-hand side must be rejected");

    assert!(matches!(
        error,
        SolveError::DimensionMismatch { context: "right-hand side", expected: 2, actual: 1 }
    ));
}

#[derive(Default)]
struct ResidualTrace {
    values: Vec<f64>,
}

impl IterationObserver<f64> for ResidualTrace {
    fn observe(&mut self, state: IterationState<f64>) {
        self.values.push(state.residual_norm);
    }
}

#[test]
fn observer_receives_decreasing_checked_residuals() {
    let backend = Host::<f64>::default();
    let operator = CsrOperator::new(spd_matrix::<f64>()).expect("invariant: matrix is square");
    let right_hand_side = vec![6.0, 7.0];
    let mut solution = vec![0.0; 2];
    let mut workspace = CgWorkspace::new(&backend, 2).expect("invariant: host allocation succeeds");
    let policy = ConvergencePolicy::new(&backend, 64.0 * f64::EPSILON, 64.0 * f64::EPSILON, 4)
        .expect("invariant: valid policy");
    let mut trace = ResidualTrace::default();

    let report = Cg::<Host<f64>>::solve_with_observer(
        &backend,
        &operator,
        &Identity,
        &right_hand_side,
        &mut solution,
        &mut workspace,
        policy,
        &mut trace,
    )
    .expect("invariant: manufactured solve succeeds");

    assert_eq!(report.termination, Termination::Converged);
    assert!(!trace.values.is_empty());
    assert!(trace.values.windows(2).all(|pair| pair[1] <= pair[0]));
}

#[test]
fn backend_and_algorithm_markers_are_zero_sized() {
    assert_eq!(core::mem::size_of::<Host<f64>>(), 0);
    assert_eq!(core::mem::size_of::<Cg<Host<f64>>>(), 0);
    assert_eq!(core::mem::size_of::<Identity>(), 0);
}

#[test]
fn cg_leaves_the_solution_untouched_on_a_dimension_error() {
    let backend = Host::<f64>::default();
    let operator = CsrOperator::new(spd_matrix::<f64>()).expect("invariant: matrix is square");
    let right_hand_side = vec![6.0, 7.0];
    let mut solution = vec![5.0, 5.0];
    let mut workspace = CgWorkspace::new(&backend, 3).expect("invariant: host allocation succeeds");
    let policy = ConvergencePolicy::new(&backend, 0.0, 0.0, 4).expect("invariant: valid policy");
    let error = Cg::<Host<f64>>::solve_into(
        &backend,
        &operator,
        &Identity,
        &right_hand_side,
        &mut solution,
        &mut workspace,
        policy,
    )
    .expect_err("a workspace of the wrong length must be rejected");
    assert_eq!(error, SolveError::DimensionMismatch { context: "CG workspace", expected: 2, actual: 3 });
    assert_eq!(solution, vec![5.0, 5.0]);
}
