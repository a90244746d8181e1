//! Value-semantic right-preconditioned BiCGSTAB conformance over a host backend.

use core::marker::PhantomData;

use athena::{
    BiCgStab, BiCgStabWorkspace, ConvergencePolicy, CsrMatrix, CsrOperator, Identity, IterationObserver,
    IterationState, Jacobi, KrylovBackend, LetoBackendError, LinearOperator, Preconditioner,
    SolveError, Termination, axpy_slice, combine_direction_slices, copy_slice,
    fused_cg_update_slices, residual_slice, scale_slice,
};

/// Real scalar a host test backend computes in.
trait Real:
    Copy
    + Default
    + PartialEq
    + PartialOrd
    + core::fmt::Debug
    + core::ops::Add<Output = Self>
    + core::ops::Sub<Output = Self>
    + core::ops::Mul<Output = Self>
    + core::ops::Div<Output = Self>
    + core::ops::Neg<Output = Self>
    + 'static
{
    const EPSILON: Self;
    const ZERO: Self;
    const ONE: Self;
    fn from_f64(value: f64) -> Self;
    fn from_count(count: usize) -> Self;
    fn finite(self) -> bool;
    fn magnitude(self) -> Self;
    fn root(self) -> Self;
    fn to_f64(self) -> f64;
}

impl Real for f32 {
    const EPSILON: Self = f32::EPSILON;
    const ZERO: Self = 0.0;
    const ONE: Self = 1.0;
    fn from_f64(value: f64) -> Self {
        value as f32
    }
    fn from_count(count: usize) -> Self {
        count as f32
    }
    fn finite(self) -> bool {
        self.is_finite()
    }
    fn magnitude(self) -> Self {
        self.abs()
    }
    fn root(self) -> Self {
        self.sqrt()
    }
    fn to_f64(self) -> f64 {
        f64::from(self)
    }
}

impl Real for f64 {
    const EPSILON: Self = f64::EPSILON;
    const ZERO: Self = 0.0;
    const ONE: Self = 1.0;
    fn from_f64(value: f64) -> Self {
        value
    }
    fn from_count(count: usize) -> Self {
        count as f64
    }
    fn finite(self) -> bool {
        self.is_finite()
    }
    fn magnitude(self) -> Self {
        self.abs()
    }
    fn root(self) -> Self {
        self.sqrt()
    }
    fn to_f64(self) -> f64 {
        self
    }
}

/// Zero-sized host backend over `Vec<T>` with IEEE arithmetic, its vector
/// kernels delegated to the library's host-slice kernels.
#[derive(Debug)]
struct Host<T>(PhantomData<T>);

impl<T> Default for Host<T> {
    fn default() -> Self {
        Host(PhantomData)
    }
}

fn dot<T: Real>(left: &[T], right: &[T]) -> Result<T, LetoBackendError> {
    if left.len() != right.len() {
        return Err(LetoBackendError::LengthMismatch { left: left.len(), right: right.len() });
    }
    let mut sum = T::ZERO;
    for (a, b) in left.iter().zip(right) {
        sum = sum + *a * *b;
    }
    Ok(sum)
}

impl<T: Real> KrylovBackend for Host<T> {
    type Scalar = T;
    type Error = LetoBackendError;
    type Vector = Vec<T>;
    type VectorBlock = Vec<Vec<T>>;
    type PreparedDot = ();
    type PreparedNorm = ();
    type View<'a> = &'a [T];
    type ViewMut<'a> = &'a mut [T];

    fn zero(&self) -> T {
        T::ZERO
    }
    fn one(&self) -> T {
        T::ONE
    }
    fn epsilon(&self) -> T {
        T::EPSILON
    }
    fn from_count(&self, count: usize) -> T {
        T::from_count(count)
    }
    fn is_finite(&self, value: T) -> bool {
        value.finite()
    }
    fn less(&self, left: T, right: T) -> bool {
        left < right
    }
    fn less_equal(&self, left: T, right: T) -> bool {
        left <= right
    }
    fn equal(&self, left: T, right: T) -> bool {
        left == right
    }
    fn add(&self, left: T, right: T) -> T {
        left + right
    }
    fn sub(&self, left: T, right: T) -> T {
        left - right
    }
    fn mul(&self, left: T, right: T) -> T {
        left * right
    }
    fn div(&self, left: T, right: T) -> T {
        left / right
    }
    fn neg(&self, value: T) -> T {
        -value
    }
    fn abs(&self, value: T) -> T {
        value.magnitude()
    }
    fn sqrt(&self, value: T) -> T {
        value.root()
    }
    fn allocate(&self, len: usize) -> Result<Vec<T>, LetoBackendError> {
        Ok(vec![T::ZERO; len])
    }
    fn allocate_block(&self, count: usize, len: usize) -> Result<Vec<Vec<T>>, LetoBackendError> {
        Ok(vec![vec![T::ZERO; len]; count])
    }
    fn view<'a>(&'a self, vector: &'a Vec<T>) -> &'a [T] {
        vector
    }
    fn view_mut<'a>(&'a self, vector: &'a mut Vec<T>) -> &'a mut [T] {
        vector
    }
    fn block_view<'a>(&'a self, block: &'a Vec<Vec<T>>, index: usize) -> &'a [T] {
        &block[index]
    }
    fn block_view_mut<'a>(&'a self, block: &'a mut Vec<Vec<T>>, index: usize) -> &'a mut [T] {
        &mut block[index]
    }
    fn vector_len(&self, vector: &Vec<T>) -> usize {
        vector.len()
    }
    fn copy(&self, source: &[T], target: &mut [T]) -> Result<(), LetoBackendError> {
        copy_slice(source, target)
    }
    fn scale(&self, target: &mut [T], factor: T) -> Result<(), LetoBackendError> {
        scale_slice(self, target, factor);
        Ok(())
    }
    fn axpy(&self, target: &mut [T], source: &[T], factor: T) -> Result<(), LetoBackendError> {
        axpy_slice(self, target, source, factor)
    }
    fn prepare_dot(&self, _left: &[T], _right: &[T]) -> Result<(), LetoBackendError> {
        Ok(())
    }
    fn dot_prepared(&self, _prepared: &(), left: &[T], right: &[T]) -> Result<T, LetoBackendError> {
        dot(left, right)
    }
    fn prepare_norm_l2(&self, _vector: &[T]) -> Result<(), LetoBackendError> {
        Ok(())
    }
    fn norm_l2_prepared(&self, _prepared: &(), vector: &[T]) -> Result<T, LetoBackendError> {
        Ok(dot(vector, vector)?.root())
    }
    fn norm_l2(&self, vector: &[T]) -> Result<T, LetoBackendError> {
        Ok(dot(vector, vector)?.root())
    }
    fn residual(&self, rhs: &[T], image: &[T], residual: &mut [T]) -> Result<(), LetoBackendError> {
        residual_slice(self, rhs, image, residual)
    }
    fn fused_cg_update(
        &self,
        solution: &mut [T],
        direction: &[T],
        residual: &mut [T],
        image: &[T],
        alpha: T,
    ) -> Result<(), LetoBackendError> {
        fused_cg_update_slices(self, solution, direction, residual, image, alpha)
    }
    fn combine_direction(&self, direction: &mut [T], z: &[T], beta: T) -> Result<(), LetoBackendError> {
        combine_direction_slices(self, direction, z, beta)
    }
}

/// `output = A · input` over the matrix's stored entries.
fn sparse_product<T: Real>(matrix: &CsrMatrix<T>, input: &[T], output: &mut [T]) -> Result<(), LetoBackendError> {
    let (rows, columns) = matrix.shape();
    if input.len() != columns {
        return Err(LetoBackendError::LengthMismatch { left: input.len(), right: columns });
    }
    if output.len() != rows {
        return Err(LetoBackendError::LengthMismatch { left: output.len(), right: rows });
    }
    let row_ptr = matrix.row_ptr();
    for row in 0..rows {
        let mut sum = T::ZERO;
        for entry in row_ptr[row]..row_ptr[row + 1] {
            sum = sum + matrix.values()[entry] * input[matrix.col_indices()[entry]];
        }
        output[row] = sum;
    }
    Ok(())
}

impl<T: Real> LinearOperator<Host<T>> for CsrOperator<T> {
    fn dimension(&self) -> usize {
        CsrOperator::dimension(self)
    }
    fn apply(&self, _backend: &Host<T>, input: &[T], output: &mut [T]) -> Result<(), LetoBackendError> {
        sparse_product(self.matrix(), input, output)
    }
}

impl<T: Real> Preconditioner<Host<T>> for Jacobi<T> {
    fn apply(&self, backend: &Host<T>, residual: &[T], output: &mut [T]) -> Result<(), LetoBackendError> {
        Jacobi::apply(self, backend, residual, output)
    }
}

fn csr<T: Real>(values: &[f64], col_indices: Vec<usize>, row_ptr: Vec<usize>, rows: usize, columns: usize) -> CsrMatrix<T> {
    CsrMatrix::from_parts(values.iter().map(|&v| T::from_f64(v)).collect(), col_indices, row_ptr, rows, columns)
        .expect("invariant: manufactured CSR parts are valid")
}

fn vector<T: Real>(values: &[f64]) -> Vec<T> {
    values.iter().map(|&v| T::from_f64(v)).collect()
}

/// Nonsymmetric, well-conditioned 2x2 system. CG cannot solve it; the
/// asymmetry is what distinguishes this contract from the CG one.
fn nonsymmetric_matrix<T: Real>() -> CsrMatrix<T> {
    csr(&[4.0, 1.0, 2.0, 3.0], vec![0, 1, 0, 1], vec![0, 2, 4], 2, 2)
}

/// Nonsymmetric tridiagonal of dimension `n`, diagonally dominant so BiCGSTAB
/// is not asked to survive a case where it has no convergence guarantee.
fn tridiagonal_matrix<T: Real>(n: usize) -> CsrMatrix<T> {
    let mut values = Vec::new();
    let mut columns = Vec::new();
    let mut row_offsets = vec![0usize];
    for row in 0..n {
        if row > 0 {
            values.push(T::from_f64(-1.0));
            columns.push(row - 1);
        }
        values.push(T::from_f64(4.0));
        columns.push(row);
        if row + 1 < n {
            values.push(T::from_f64(2.0));
            columns.push(row + 1);
        }
        row_offsets.push(values.len());
    }
    CsrMatrix::from_parts(values, columns, row_offsets, n, n).expect("invariant: manufactured CSR parts are valid")
}

/// Ascending test data `1..=n`.
fn ascending(n: usize) -> Vec<f64> {
    (0..n).map(|index| 1.0 + index as f64).collect()
}

fn policy<T: Real>(max_iterations: usize) -> ConvergencePolicy<T> {
    let backend = Host::<T>::default();
    ConvergencePolicy::new(
        &backend,
        T::from_f64(256.0) * T::EPSILON,
        T::from_f64(256.0) * T::EPSILON,
        max_iterations,
    )
    .expect("invariant: tolerance is finite and positive")
}

fn product<T: Real>(operator: &CsrOperator<T>, input: &Vec<T>) -> Vec<T> {
    let backend = Host::<T>::default();
    let mut output = vec![T::ZERO; input.len()];
    operator
        .apply(&backend, backend.view(input), backend.view_mut(&mut output))
        .expect("invariant: manufactured application has valid dimensions");
    output
}

/// Manufacture `b = A·x*` through the operator, solve, and require `x*` back.
fn recovers_manufactured_solution<T: Real>(n: usize, max_iterations: usize) {
    let backend = Host::<T>::default();
    let operator = CsrOperator::new(tridiagonal_matrix::<T>(n)).expect("invariant: square matrix");
    let exact = vector::<T>(&ascending(n));
    let right_hand_side = product(&operator, &exact);
    let mut solution = vec![T::ZERO; n];
    let mut workspace = BiCgStabWorkspace::new(&backend, n).expect("invariant: host allocation succeeds");

    let report = BiCgStab::<Host<T>>::solve_into(
        &backend,
        &operator,
        &Identity,
        &right_hand_side,
        &mut solution,
        &mut workspace,
        policy::<T>(max_iterations),
    )
    .expect("invariant: manufactured solve has valid dimensions");

    assert!(
        report.converged(),
        "expected convergence, got {:?} at residual {:?}",
        report.termination,
        report.final_residual_norm
    );
    assert!(report.final_residual_norm <= report.threshold);

    // The reported residual is the recomputed one, so the solution is checked
    // independently against the manufactured vector.
    let bound = T::from_f64(1024.0) * T::EPSILON * T::from_count(n);
    for (index, (&g, &w)) in solution.iter().zip(exact.iter()).enumerate() {
        assert!((g - w).magnitude() <= bound, "component {index}: got {g:?}, want {w:?}");
    }
}

#[test]
fn recovers_manufactured_solution_f64() {
    recovers_manufactured_solution::<f64>(8, 64);
}

#[test]
fn recovers_manufactured_solution_f32() {
    recovers_manufactured_solution::<f32>(8, 64);
}

#[test]
fn solves_a_nonsymmetric_system() {
    // A = [[4, 1], [2, 3]], x = [1, 2] gives b = [6, 8].
    let backend = Host::<f64>::default();
    let operator = CsrOperator::new(nonsymmetric_matrix::<f64>()).expect("invariant: square");
    let right_hand_side = vector::<f64>(&[6.0, 8.0]);
    let mut solution = vec![0.0; 2];
    let mut workspace = BiCgStabWorkspace::new(&backend, 2).expect("invariant: host allocation succeeds");

    let report = BiCgStab::<Host<f64>>::solve_into(
        &backend,
        &operator,
        &Identity,
        &right_hand_side,
        &mut solution,
        &mut workspace,
        policy::<f64>(16),
    )
    .expect("invariant: valid dimensions");

    assert!(report.converged());
    assert!((solution[0] - 1.0).abs() <= 1e-12);
    assert!((solution[1] - 2.0).abs() <= 1e-12);
}

#[test]
fn right_preconditioning_preserves_the_solution() {
    // Jacobi enters on the right, so it must change the iteration path without
    // changing the fixed point.
    let backend = Host::<f64>::default();
    let matrix = tridiagonal_matrix::<f64>(12);
    let operator = CsrOperator::new(matrix.clone()).expect("invariant: square");
    let preconditioner = Jacobi::from_csr(&backend, &matrix).expect("invariant: nonzero diagonal");
    let exact = vector::<f64>(&ascending(12));
    let right_hand_side = product(&operator, &exact);

    let mut plain = vec![0.0; 12];
    let mut plain_workspace = BiCgStabWorkspace::new(&backend, 12).expect("invariant: host allocation succeeds");
    let plain_report = BiCgStab::<Host<f64>>::solve_into(
        &backend,
        &operator,
        &Identity,
        &right_hand_side,
        &mut plain,
        &mut plain_workspace,
        policy::<f64>(128),
    )
    .expect("invariant: valid dimensions");

    let mut scaled = vec![0.0; 12];
    let mut scaled_workspace = BiCgStabWorkspace::new(&backend, 12).expect("invariant: host allocation succeeds");
    let scaled_report = BiCgStab::<Host<f64>>::solve_into(
        &backend,
        &operator,
        &preconditioner,
        &right_hand_side,
        &mut scaled,
        &mut scaled_workspace,
        policy::<f64>(128),
    )
    .expect("invariant: valid dimensions");

    assert!(plain_report.converged() && scaled_report.converged());
    assert!(scaled_report.preconditioner_applications > 0);
    for (&p, &q) in plain.iter().zip(scaled.iter()) {
        assert!((p - q).abs() <= 1e-8, "{p} vs {q}");
    }
}

#[test]
fn a_converged_initial_guess_terminates_without_iterating() {
    let backend = Host::<f64>::default();
    let operator = CsrOperator::new(nonsymmetric_matrix::<f64>()).expect("invariant: square");
    let right_hand_side = vector::<f64>(&[6.0, 8.0]);
    let mut solution = vector::<f64>(&[1.0, 2.0]);
    let mut workspace = BiCgStabWorkspace::new(&backend, 2).expect("invariant: host allocation succeeds");

    let report = BiCgStab::<Host<f64>>::solve_into(
        &backend,
        &operator,
        &Identity,
        &right_hand_side,
        &mut solution,
        &mut workspace,
        policy::<f64>(16),
    )
    .expect("invariant: valid dimensions");

    assert_eq!(report.termination, Termination::InitialResidual);
    assert_eq!(report.iterations, 0);
}

#[test]
fn bicgstab_contract_an_exhausted_budget_reports_max_iterations() {
    let backend = Host::<f64>::default();
    let operator = CsrOperator::new(tridiagonal_matrix::<f64>(32)).expect("invariant: square");
    let right_hand_side = vector::<f64>(&vec![1.0; 32]);
    let mut solution = vec![0.0; 32];
    let mut workspace = BiCgStabWorkspace::new(&backend, 32).expect("invariant: host allocation succeeds");
    let strict = ConvergencePolicy::new(&backend, 1e-300_f64, 0.0, 1).expect("invariant: valid policy");

    let report = BiCgStab::<Host<f64>>::solve_into(
        &backend,
        &operator,
        &Identity,
        &right_hand_side,
        &mut solution,
        &mut workspace,
        strict,
    )
    .expect("invariant: valid dimensions");

    assert_eq!(report.termination, Termination::MaxIterations);
    assert!(!report.converged());
    assert_eq!(report.iterations, 1);
}

#[test]
fn a_singular_operator_never_reports_convergence() {
    // A ≡ 0 makes ⟨r̂₀, v⟩ vanish on the first step. The recurrence must
    // surface that rather than report a solve it did not perform.
    let backend = Host::<f64>::default();
    let matrix = csr::<f64>(&[0.0], vec![0], vec![0, 1, 1], 2, 2);
    let operator = CsrOperator::new(matrix).expect("invariant: square");
    let right_hand_side = vector::<f64>(&[1.0, 1.0]);
    let mut solution = vec![0.0; 2];
    let mut workspace = BiCgStabWorkspace::new(&backend, 2).expect("invariant: host allocation succeeds");

    let report = BiCgStab::<Host<f64>>::solve_into(
        &backend,
        &operator,
        &Identity,
        &right_hand_side,
        &mut solution,
        &mut workspace,
        policy::<f64>(8),
    )
    .expect("invariant: valid dimensions");

    assert!(!report.converged(), "got {:?}", report.termination);
}

#[test]
fn bicgstab_contract_dimension_mismatch_is_rejected() {
    let backend = Host::<f64>::default();
    let operator = CsrOperator::new(nonsymmetric_matrix::<f64>()).expect("invariant: square");
    let right_hand_side = vector::<f64>(&[6.0, 8.0, 1.0]);
    let mut solution = vec![0.0; 2];
    let mut workspace = BiCgStabWorkspace::new(&backend, 2).expect("invariant: host allocation succeeds");

    let outcome = BiCgStab::<Host<f64>>::solve_into(
        &backend,
        &operator,
        &Identity,
        &right_hand_side,
        &mut solution,
        &mut workspace,
        policy::<f64>(8),
    );

    assert!(matches!(outcome, Err(SolveError::DimensionMismatch { .. })));
    assert_eq!(solution, vec![0.0; 2]);
}

#[test]
fn bicgstab_singular_operator_reports_breakdown_without_iterating() {
    // With A ≡ 0 the image v vanishes, so ⟨r̂₀, v⟩ = 0 before any step
    // completes: the breakdown is reported with no iteration counted.
    let backend = Host::<f64>::default();
    let matrix = csr::<f64>(&[0.0], vec![0], vec![0, 1, 1], 2, 2);
    let operator = CsrOperator::new(matrix).expect("invariant: square");
    let right_hand_side = vector::<f64>(&[1.0, 1.0]);
    let mut solution = vec![0.0; 2];
    let mut workspace = BiCgStabWorkspace::new(&backend, 2).expect("invariant: host allocation succeeds");

    let report = BiCgStab::<Host<f64>>::solve_into(
        &backend,
        &operator,
        &Identity,
        &right_hand_side,
        &mut solution,
        &mut workspace,
        policy::<f64>(8),
    )
    .expect("invariant: valid dimensions");

    assert_eq!(report.termination, Termination::Breakdown);
    assert_eq!(report.iterations, 0);
    assert_eq!(report.operator_applications, 2);
    assert_eq!(report.preconditioner_applications, 1);
}

#[derive(Default)]
struct Recorder {
    iterations: Vec<usize>,
}

impl IterationObserver<f64> for Recorder {
    fn observe(&mut self, state: IterationState<f64>) {
        self.iterations.push(state.iteration);
    }
}

#[test]
fn bicgstab_counters_stay_within_the_per_iteration_budget() {
    // Each iteration applies the preconditioner twice and the operator at
    // most four times; the initial residual costs one operator application.
    let backend = Host::<f64>::default();
    let operator = CsrOperator::new(tridiagonal_matrix::<f64>(8)).expect("invariant: square");
    let right_hand_side = vector::<f64>(&ascending(8));
    let mut solution = vec![0.0; 8];
    let mut workspace = BiCgStabWorkspace::new(&backend, 8).expect("invariant: host allocation succeeds");
    let mut recorder = Recorder::default();

    let report = BiCgStab::<Host<f64>>::solve_with_observer(
        &backend,
        &operator,
        &Identity,
        &right_hand_side,
        &mut solution,
        &mut workspace,
        policy::<f64>(64),
        &mut recorder,
    )
    .expect("invariant: valid dimensions");

    assert!(report.converged());
    assert!(report.iterations >= 1);
    assert!(report.operator_applications <= 4 * report.iterations + 2);
    assert!(report.preconditioner_applications <= 2 * report.iterations + 1);
    assert!(report.final_residual_norm <= report.threshold);
    let expected: Vec<usize> = (1..=recorder.iterations.len()).collect();
    assert_eq!(recorder.iterations, expected);
}
