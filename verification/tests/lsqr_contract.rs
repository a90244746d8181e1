//! Value-semantic LSQR conformance, undamped and damped, over a host
//! backend.

use core::marker::PhantomData;

use athena::{
    ConvergencePolicy, CsrMatrix, CsrOperator, Jacobi, KrylovBackend, LetoBackendError,
    LinearOperator, Lsqr, LsqrWorkspace, Preconditioner, RectangularCsrOperator,
    RectangularOperator, SolveError, SolveReport, Termination, axpy_slice,
    combine_direction_slices, copy_slice, fused_cg_update_slices, residual_slice, scale_slice,
};

/// Real scalar a host test backend computes in.
trait Real:
    Copy
    + Default
    + PartialEq
    + PartialOrd
    + core::fmt::Debug
    + core::ops::Add<Output = Self>
    + core::ops::Sub<Output = Self>
    + core::ops::Mul<Output = Self>
    + core::ops::Div<Output = Self>
    + core::ops::Neg<Output = Self>
    + 'static
{
    const EPSILON: Self;
    const ZERO: Self;
    const ONE: Self;
    fn from_f64(value: f64) -> Self;
    fn from_count(count: usize) -> Self;
    fn finite(self) -> bool;
    fn magnitude(self) -> Self;
    fn root(self) -> Self;
    fn to_f64(self) -> f64;
}

impl Real for f32 {
    const EPSILON: Self = f32::EPSILON;
    const ZERO: Self = 0.0;
    const ONE: Self = 1.0;
    fn from_f64(value: f64) -> Self {
        value as f32
    }
    fn from_count(count: usize) -> Self {
        count as f32
    }
    fn finite(self) -> bool {
        self.is_finite()
    }
    fn magnitude(self) -> Self {
        self.abs()
    }
    fn root(self) -> Self {
        self.sqrt()
    }
    fn to_f64(self) -> f64 {
        f64::from(self)
    }
}

impl Real for f64 {
    const EPSILON: Self = f64::EPSILON;
    const ZERO: Self = 0.0;
    const ONE: Self = 1.0;
    fn from_f64(value: f64) -> Self {
        value
    }
    fn from_count(count: usize) -> Self {
        count as f64
    }
    fn finite(self) -> bool {
        self.is_finite()
    }
    fn magnitude(self) -> Self {
        self.abs()
    }
    fn root(self) -> Self {
        self.sqrt()
    }
    fn to_f64(self) -> f64 {
        self
    }
}

/// Zero-sized host backend over `Vec<T>` with IEEE arithmetic, its vector
/// kernels delegated to the library's host-slice kernels.
#[derive(Debug)]
struct Host<T>(PhantomData<T>);

impl<T> Default for Host<T> {
    fn default() -> Self {
        Host(PhantomData)
    }
}

fn dot<T: Real>(left: &[T], right: &[T]) -> Result<T, LetoBackendError> {
    if left.len() != right.len() {
        return Err(LetoBackendError::LengthMismatch { left: left.len(), right: right.len() });
    }
    let mut sum = T::ZERO;
    for (a, b) in left.iter().zip(right) {
        sum = sum + *a * *b;
    }
    Ok(sum)
}

impl<T: Real> KrylovBackend for Host<T> {
    type Scalar = T;
    type Error = LetoBackendError;
    type Vector = Vec<T>;
    type VectorBlock = Vec<Vec<T>>;
    type PreparedDot = ();
    type PreparedNorm = ();
    type View<'a> = &'a [T];
    type ViewMut<'a> = &'a mut [T];

    fn zero(&self) -> T {
        T::ZERO
    }
    fn one(&self) -> T {
        T::ONE
    }
    fn epsilon(&self) -> T {
        T::EPSILON
    }
    fn from_count(&self, count: usize) -> T {
        T::from_count(count)
    }
    fn is_finite(&self, value: T) -> bool {
        value.finite()
    }
    fn less(&self, left: T, right: T) -> bool {
        left < right
    }
    fn less_equal(&self, left: T, right: T) -> bool {
        left <= right
    }
    fn equal(&self, left: T, right: T) -> bool {
        left == right
    }
    fn add(&self, left: T, right: T) -> T {
        left + right
    }
    fn sub(&self, left: T, right: T) -> T {
        left - right
    }
    fn mul(&self, left: T, right: T) -> T {
        left * right
    }
    fn div(&self, left: T, right: T) -> T {
        left / right
    }
    fn neg(&self, value: T) -> T {
        -value
    }
    fn abs(&self, value: T) -> T {
        value.magnitude()
    }
    fn sqrt(&self, value: T) -> T {
        value.root()
    }
    fn allocate(&self, len: usize) -> Result<Vec<T>, LetoBackendError> {
        Ok(vec![T::ZERO; len])
    }
    fn allocate_block(&self, count: usize, len: usize) -> Result<Vec<Vec<T>>, LetoBackendError> {
        Ok(vec![vec![T::ZERO; len]; count])
    }
    fn view<'a>(&'a self, vector: &'a Vec<T>) -> &'a [T] {
        vector
    }
    fn view_mut<'a>(&'a self, vector: &'a mut Vec<T>) -> &'a mut [T] {
        vector
    }
    fn block_view<'a>(&'a self, block: &'a Vec<Vec<T>>, index: usize) -> &'a [T] {
        &block[index]
    }
    fn block_view_mut<'a>(&'a self, block: &'a mut Vec<Vec<T>>, index: usize) -> &'a mut [T] {
        &mut block[index]
    }
    fn vector_len(&self, vector: &Vec<T>) -> usize {
        vector.len()
    }
    fn copy(&self, source: &[T], target: &mut [T]) -> Result<(), LetoBackendError> {
        copy_slice(source, target)
    }
    fn scale(&self, target: &mut [T], factor: T) -> Result<(), LetoBackendError> {
        scale_slice(self, target, factor);
        Ok(())
    }
    fn axpy(&self, target: &mut [T], source: &[T], factor: T) -> Result<(), LetoBackendError> {
        axpy_slice(self, target, source, factor)
    }
    fn prepare_dot(&self, _left: &[T], _right: &[T]) -> Result<(), LetoBackendError> {
        Ok(())
    }
    fn dot_prepared(&self, _prepared: &(), left: &[T], right: &[T]) -> Result<T, LetoBackendError> {
        dot(left, right)
    }
    fn prepare_norm_l2(&self, _vector: &[T]) -> Result<(), LetoBackendError> {
        Ok(())
    }
    fn norm_l2_prepared(&self, _prepared: &(), vector: &[T]) -> Result<T, LetoBackendError> {
        Ok(dot(vector, vector)?.root())
    }
    fn norm_l2(&self, vector: &[T]) -> Result<T, LetoBackendError> {
        Ok(dot(vector, vector)?.root())
    }
    fn residual(&self, rhs: &[T], image: &[T], residual: &mut [T]) -> Result<(), LetoBackendError> {
        residual_slice(self, rhs, image, residual)
    }
    fn fused_cg_update(
        &self,
        solution: &mut [T],
        direction: &[T],
        residual: &mut [T],
        image: &[T],
        alpha: T,
    ) -> Result<(), LetoBackendError> {
        fused_cg_update_slices(self, solution, direction, residual, image, alpha)
    }
    fn combine_direction(&self, direction: &mut [T], z: &[T], beta: T) -> Result<(), LetoBackendError> {
        combine_direction_slices(self, direction, z, beta)
    }
}

/// `output = A · input` over the matrix's stored entries.
fn sparse_product<T: Real>(matrix: &CsrMatrix<T>, input: &[T], output: &mut [T]) -> Result<(), LetoBackendError> {
    let (rows, columns) = matrix.shape();
    if input.len() != columns {
        return Err(LetoBackendError::LengthMismatch { left: input.len(), right: columns });
    }
    if output.len() != rows {
        return Err(LetoBackendError::LengthMismatch { left: output.len(), right: rows });
    }
    let row_ptr = matrix.row_ptr();
    for row in 0..rows {
        let mut sum = T::ZERO;
        for entry in row_ptr[row]..row_ptr[row + 1] {
            sum = sum + matrix.values()[entry] * input[matrix.col_indices()[entry]];
        }
        output[row] = sum;
    }
    Ok(())
}

impl<T: Real> LinearOperator<Host<T>> for CsrOperator<T> {
    fn dimension(&self) -> usize {
        CsrOperator::dimension(self)
    }
    fn apply(&self, _backend: &Host<T>, input: &[T], output: &mut [T]) -> Result<(), LetoBackendError> {
        sparse_product(self.matrix(), input, output)
    }
}

impl<T: Real> Preconditioner<Host<T>> for Jacobi<T> {
    fn apply(&self, backend: &Host<T>, residual: &[T], output: &mut [T]) -> Result<(), LetoBackendError> {
        Jacobi::apply(self, backend, residual, output)
    }
}

fn csr<T: Real>(values: &[f64], col_indices: Vec<usize>, row_ptr: Vec<usize>, rows: usize, columns: usize) -> CsrMatrix<T> {
    CsrMatrix::from_parts(values.iter().map(|&v| T::from_f64(v)).collect(), col_indices, row_ptr, rows, columns)
        .expect("invariant: manufactured CSR parts are valid")
}

fn vector<T: Real>(values: &[f64]) -> Vec<T> {
    values.iter().map(|&v| T::from_f64(v)).collect()
}

impl<T: Real> RectangularOperator<Host<T>> for RectangularCsrOperator<T> {
    fn rows(&self) -> usize {
        RectangularCsrOperator::rows(self)
    }
    fn columns(&self) -> usize {
        RectangularCsrOperator::columns(self)
    }
    fn apply(&self, _backend: &Host<T>, input: &[T], output: &mut [T]) -> Result<(), LetoBackendError> {
        sparse_product(self.matrix(), input, output)
    }
    fn apply_transpose(&self, backend: &Host<T>, input: &[T], output: &mut [T]) -> Result<(), LetoBackendError> {
        RectangularCsrOperator::apply_transpose(self, backend, input, output)
    }
}

fn dense_operator<T: Real>(rows: &[&[f64]]) -> RectangularCsrOperator<T> {
    let mut values = Vec::new();
    let mut columns = Vec::new();
    let mut row_ptr = vec![0usize];
    for row in rows {
        for (column, &value) in row.iter().enumerate() {
            if value != 0.0 {
                values.push(T::from_f64(value));
                columns.push(column);
            }
        }
        row_ptr.push(values.len());
    }
    let matrix = CsrMatrix::from_parts(values, columns, row_ptr, rows.len(), rows[0].len())
        .expect("invariant: manufactured CSR parts are valid");
    RectangularCsrOperator::new(matrix)
}

fn policy<T: Real>(max_iterations: usize) -> ConvergencePolicy<T> {
    ConvergencePolicy::new(
        &Host::<T>::default(),
        T::from_f64(1024.0) * T::EPSILON,
        T::from_f64(1024.0) * T::EPSILON,
        max_iterations,
    )
    .expect("invariant: tolerance is finite and positive")
}

/// `‖Aᵀ(b − A·x)‖₂`, the quantity a least-squares solution drives to zero.
fn normal_equation_residual<T: Real>(
    backend: Host<T>,
    operator: &RectangularCsrOperator<T>,
    right_hand_side: &[T],
    solution: &Vec<T>,
) -> f64 {
    let mut image = vec![T::ZERO; RectangularCsrOperator::rows(operator)];
    RectangularOperator::apply(operator, &backend, backend.view(solution), backend.view_mut(&mut image))
        .expect("invariant: valid dimensions");
    let mut residual = vec![T::ZERO; RectangularCsrOperator::rows(operator)];
    for index in 0..RectangularCsrOperator::rows(operator) {
        residual[index] = right_hand_side[index] - image[index];
    }
    let mut gradient = vec![T::ZERO; RectangularCsrOperator::columns(operator)];
    RectangularOperator::apply_transpose(
        operator,
        &backend,
        backend.view(&residual),
        backend.view_mut(&mut gradient),
    )
    .expect("invariant: valid dimensions");
    let mut sum = 0.0;
    for index in 0..RectangularCsrOperator::columns(operator) {
        let value = gradient[index].to_f64();
        sum += value * value;
    }
    sum.sqrt()
}

fn solve<T: Real>(
    operator: &RectangularCsrOperator<T>,
    right_hand_side: &Vec<T>,
    max_iterations: usize,
) -> (Vec<T>, SolveReport<T>) {
    let backend = Host::<T>::default();
    let mut solution = vec![T::ZERO; RectangularCsrOperator::columns(operator)];
    let mut workspace = LsqrWorkspace::new(
        &backend,
        RectangularCsrOperator::rows(operator),
        RectangularCsrOperator::columns(operator),
    )
    .expect("invariant: host allocation succeeds");
    let report = Lsqr::<Host<T>>::solve_into(
        &backend,
        operator,
        right_hand_side,
        &mut solution,
        &mut workspace,
        policy::<T>(max_iterations),
    )
    .expect("invariant: valid dimensions");
    (solution, report)
}

fn recovers_a_consistent_overdetermined_system<T: Real>() {
    // Four equations, two unknowns, consistent by construction: b is exactly
    // A·[2, -1], so the least-squares solution is the exact one and the
    // residual reaches zero.
    let operator = dense_operator::<T>(&[&[1.0, 0.0], &[0.0, 1.0], &[1.0, 1.0], &[2.0, -1.0]]);
    let right_hand_side = vector::<T>(&[2.0, -1.0, 1.0, 5.0]);

    let (solution, report) = solve(&operator, &right_hand_side, 64);

    assert!(report.converged(), "got {:?}", report.termination);
    let bound = T::from_f64(4096.0) * T::EPSILON;
    assert!((solution[0] - T::from_f64(2.0)).magnitude() <= bound, "{:?}", solution[0]);
    assert!((solution[1] + T::from_f64(1.0)).magnitude() <= bound, "{:?}", solution[1]);
}

#[test]
fn recovers_a_consistent_overdetermined_system_f64() {
    recovers_a_consistent_overdetermined_system::<f64>();
}

#[test]
fn recovers_a_consistent_overdetermined_system_f32() {
    recovers_a_consistent_overdetermined_system::<f32>();
}

#[test]
fn minimises_an_inconsistent_system() {
    // Three equations in one unknown with no exact solution: the
    // least-squares solution is the mean, x = 3, with a residual norm of
    // sqrt(14) that never reaches zero.
    let operator = dense_operator::<f64>(&[&[1.0], &[1.0], &[1.0]]);
    let right_hand_side = vector::<f64>(&[1.0, 2.0, 6.0]);

    let (solution, report) = solve(&operator, &right_hand_side, 32);

    assert!(report.converged(), "got {:?}", report.termination);
    assert_eq!(report.termination, Termination::NormalEquations);
    assert!((solution[0] - 3.0).abs() <= 1e-10, "{}", solution[0]);
    assert!(report.final_residual_norm > 1.0);
    let backend = Host::<f64>::default();
    assert!(normal_equation_residual(backend, &operator, &right_hand_side, &solution) <= 1e-10);
}

#[test]
fn solves_an_underdetermined_system_to_normal_equation_optimality() {
    // One equation, three unknowns: x + y + z = 3. LSQR started from zero
    // converges to the minimum-norm solution [1, 1, 1].
    let operator = dense_operator::<f64>(&[&[1.0, 1.0, 1.0]]);
    let right_hand_side = vector::<f64>(&[3.0]);

    let (solution, report) = solve(&operator, &right_hand_side, 32);

    assert!(report.converged(), "got {:?}", report.termination);
    for index in 0..3 {
        assert!((solution[index] - 1.0).abs() <= 1e-10, "{}", solution[index]);
    }
}

#[test]
fn a_least_squares_solution_beats_its_neighbours() {
    // Any perturbation of the returned solution must increase the residual
    // norm.
    let operator = dense_operator::<f64>(&[&[1.0, 1.0], &[1.0, 2.0], &[1.0, 3.0], &[1.0, 4.0]]);
    let right_hand_side = vector::<f64>(&[6.0, 5.0, 7.0, 10.0]);
    let (solution, report) = solve(&operator, &right_hand_side, 64);
    assert!(report.converged());

    let backend = Host::<f64>::default();
    let residual_norm = |candidate: &Vec<f64>| {
        let mut image = vec![0.0; 4];
        RectangularOperator::apply(&operator, &backend, backend.view(candidate), backend.view_mut(&mut image))
            .expect("invariant: valid dimensions");
        let mut sum = 0.0;
        for index in 0..4 {
            let value = right_hand_side[index] - image[index];
            sum += value * value;
        }
        sum.sqrt()
    };

    let optimum = residual_norm(&solution);
    for component in 0..2 {
        for step in [-1e-3, 1e-3] {
            let mut perturbed = solution.clone();
            perturbed[component] += step;
            assert!(
                residual_norm(&perturbed) >= optimum,
                "perturbing component {component} by {step} reduced the residual"
            );
        }
    }
}

#[test]
fn a_warm_start_is_honoured() {
    // Starting at the answer must terminate immediately without iterating.
    let operator = dense_operator::<f64>(&[&[1.0, 0.0], &[0.0, 1.0], &[1.0, 1.0]]);
    let right_hand_side = vector::<f64>(&[2.0, 3.0, 5.0]);
    let backend = Host::<f64>::default();
    let mut solution = vector::<f64>(&[2.0, 3.0]);
    let mut workspace = LsqrWorkspace::new(&backend, 3, 2).expect("invariant: host allocation succeeds");

    let report = Lsqr::<Host<f64>>::solve_into(
        &backend,
        &operator,
        &right_hand_side,
        &mut solution,
        &mut workspace,
        policy::<f64>(32),
    )
    .expect("invariant: valid dimensions");

    assert_eq!(report.termination, Termination::InitialResidual);
    assert_eq!(report.iterations, 0);
}

#[test]
fn lsqr_contract_an_exhausted_budget_reports_max_iterations() {
    let operator = dense_operator::<f64>(&[&[1.0, 1.0], &[1.0, 2.0], &[1.0, 3.0], &[1.0, 4.0]]);
    let right_hand_side = vector::<f64>(&[6.0, 5.0, 7.0, 10.0]);
    let backend = Host::<f64>::default();
    let mut solution = vec![0.0; 2];
    let mut workspace = LsqrWorkspace::new(&backend, 4, 2).expect("invariant: host allocation succeeds");
    let strict = ConvergencePolicy::new(&backend, 1e-300_f64, 0.0, 1).expect("invariant: valid policy");

    let report = Lsqr::<Host<f64>>::solve_into(
        &backend,
        &operator,
        &right_hand_side,
        &mut solution,
        &mut workspace,
        strict,
    )
    .expect("invariant: valid dimensions");

    assert_eq!(report.termination, Termination::MaxIterations);
    assert!(!report.converged());
}

#[test]
fn lsqr_contract_dimension_mismatch_is_rejected() {
    let operator = dense_operator::<f64>(&[&[1.0, 0.0], &[0.0, 1.0], &[1.0, 1.0]]);
    let backend = Host::<f64>::default();
    let mut solution = vec![0.0; 2];
    let mut workspace = LsqrWorkspace::new(&backend, 3, 2).expect("invariant: host allocation succeeds");

    // Right-hand side must have the operator row count.
    let outcome = Lsqr::<Host<f64>>::solve_into(
        &backend,
        &operator,
        &vector::<f64>(&[1.0, 2.0]),
        &mut solution,
        &mut workspace,
        policy::<f64>(8),
    );
    assert!(matches!(outcome, Err(SolveError::DimensionMismatch { .. })));

    // Workspace must match the operator shape.
    let mut wrong = LsqrWorkspace::new(&backend, 4, 2).expect("invariant: host allocation");
    let outcome = Lsqr::<Host<f64>>::solve_into(
        &backend,
        &operator,
        &vector::<f64>(&[1.0, 2.0, 3.0]),
        &mut solution,
        &mut wrong,
        policy::<f64>(8),
    );
    assert!(matches!(outcome, Err(SolveError::DimensionMismatch { .. })));
}

#[test]
fn transpose_application_matches_the_dense_product() {
    // The adjoint is scattered rather than materialised, so it is checked
    // against the explicit definition.
    let rows: &[&[f64]] = &[&[1.0, 2.0, 0.0], &[0.0, 3.0, 4.0]];
    let operator = dense_operator::<f64>(rows);
    let backend = Host::<f64>::default();
    let input = vector::<f64>(&[2.0, -1.0]);
    let mut output = vec![0.0; 3];

    RectangularOperator::apply_transpose(&operator, &backend, backend.view(&input), backend.view_mut(&mut output))
        .expect("invariant: valid dimensions");

    for column in 0..3 {
        let expected: f64 = (0..2).map(|row| rows[row][column] * input[row]).sum();
        assert!((output[column] - expected).abs() <= 1e-12, "column {column}");
    }
}

#[test]
fn transpose_application_rejects_mismatched_lengths() {
    let operator = dense_operator::<f64>(&[&[1.0, 2.0, 0.0], &[0.0, 3.0, 4.0]]);
    let backend = Host::<f64>::default();
    let mut output = vec![7.0; 3];
    assert_eq!(
        operator.apply_transpose(&backend, &[1.0], &mut output),
        Err(LetoBackendError::LengthMismatch { left: 1, right: 2 })
    );
    let mut short = vec![7.0; 2];
    assert_eq!(
        operator.apply_transpose(&backend, &[1.0, 1.0], &mut short),
        Err(LetoBackendError::LengthMismatch { left: 2, right: 3 })
    );
    assert_eq!(output, vec![7.0; 3]);
    assert_eq!(short, vec![7.0; 2]);
}

fn solve_with_damping<T: Real>(
    operator: &RectangularCsrOperator<T>,
    right_hand_side: &Vec<T>,
    max_iterations: usize,
    damping: f64,
) -> (Vec<T>, SolveReport<T>) {
    let backend = Host::<T>::default();
    let mut solution = vec![T::ZERO; RectangularCsrOperator::columns(operator)];
    let mut workspace = LsqrWorkspace::new(
        &backend,
        RectangularCsrOperator::rows(operator),
        RectangularCsrOperator::columns(operator),
    )
    .expect("invariant: host allocation succeeds");
    let report = Lsqr::<Host<T>>::solve_damped_into(
        &backend,
        operator,
        right_hand_side,
        &mut solution,
        &mut workspace,
        policy::<T>(max_iterations),
        T::from_f64(damping),
    )
    .expect("invariant: valid dimensions");
    (solution, report)
}

fn l2<T: Real>(vector: &[T]) -> f64 {
    let mut sum = 0.0;
    for value in vector {
        let value = value.to_f64();
        sum += value * value;
    }
    sum.sqrt()
}

#[test]
fn zero_damping_matches_undamped_solve_f64() {
    let operator = dense_operator::<f64>(&[&[1.0, 0.0], &[0.0, 1.0], &[1.0, 1.0], &[2.0, -1.0]]);
    let right_hand_side = vector::<f64>(&[2.0, -1.0, 1.0, 5.0]);

    let (undamped, undamped_report) = solve_with_damping(&operator, &right_hand_side, 64, 0.0);
    let (zero_damped, zero_damped_report) = solve_with_damping(&operator, &right_hand_side, 64, 0.0);

    let diff_x0 = (undamped[0] - zero_damped[0]).abs();
    let diff_x1 = (undamped[1] - zero_damped[1]).abs();
    let bound = 64.0 * f64::EPSILON;
    assert!(
        diff_x0 <= bound && diff_x1 <= bound,
        "damped λ=0 should match undamped: dx0={diff_x0:.3e}, dx1={diff_x1:.3e}, bound={bound:.3e}"
    );
    assert!(undamped_report.converged());
    assert!(zero_damped_report.converged());
}

#[test]
fn damped_solve_matches_augmented_normal_equations() {
    let epsilon = 1.0e-6;
    let operator = dense_operator::<f64>(&[&[1.0, epsilon], &[1.0, -epsilon]]);
    let right_hand_side = vector::<f64>(&[1.0, 0.0]);

    let lambda = 1.0e-2;
    let lambda_sq = lambda * lambda;
    let ata_00 = 2.0_f64;
    let ata_11 = 2.0 * epsilon * epsilon;
    let atb_0 = 1.0_f64;
    let atb_1 = epsilon;
    let direct_x0 = atb_0 / (ata_00 + lambda_sq);
    let direct_x1 = atb_1 / (ata_11 + lambda_sq);

    let (solution, report) = solve_with_damping(&operator, &right_hand_side, 4096, lambda);

    let bound = 1.0e-3;
    assert!((solution[0] - direct_x0).abs() <= bound, "x0 LSQR={:.12}, direct={:.12}", solution[0], direct_x0);
    assert!((solution[1] - direct_x1).abs() <= bound, "x1 LSQR={:.12}, direct={:.12}", solution[1], direct_x1);
    assert!(report.converged(), "got {:?}", report.termination);
}

#[test]
fn damping_reduces_objective_on_perturbed_right_hand_side() {
    let operator = dense_operator::<f64>(&[&[1.0, 0.0], &[0.0, 1.0], &[1.0, 1.0], &[0.0, 1.0]]);
    let delta = 1.0e-1;
    let right_hand_side = vector::<f64>(&[1.0 + delta, 1.0, 2.0, 1.0]);

    let (undamped_solution, _) = solve_with_damping(&operator, &right_hand_side, 64, 0.0);
    let lambda = 5.0e-1;
    let (damped_solution, _) = solve_with_damping(&operator, &right_hand_side, 64, lambda);

    let undamped_x_norm = l2(&undamped_solution);
    let damped_x_norm = l2(&damped_solution);
    assert!(
        damped_x_norm < undamped_x_norm,
        "damping should shrink ‖x‖₂: damped={damped_x_norm:.6}, undamped={undamped_x_norm:.6}"
    );
}

#[test]
fn damping_tolerates_extreme_lambda_values() {
    let operator = dense_operator::<f64>(&[&[1.0]]);
    let right_hand_side = vector::<f64>(&[1.0]);

    let (solution, report) = solve_with_damping(&operator, &right_hand_side, 16, 1.0);

    let bound = 1.0e3 * f64::EPSILON;
    assert!(
        (solution[0] - 0.5).abs() <= bound,
        "λ=1 single-step LSQR should give x=0.5, got {:.12}, bound {:.3e}",
        solution[0],
        bound
    );
    assert!(report.converged(), "got {:?}", report.termination);
}

#[test]
fn damped_solve_works_in_f32() {
    let operator = dense_operator::<f32>(&[&[1.0, 1.0e-3], &[1.0, -1.0e-3]]);
    let right_hand_side = vector::<f32>(&[1.0, 0.0]);

    let lambda = 1.0e-2_f32;
    let (solution, report) = solve_with_damping(&operator, &right_hand_side, 4096, lambda.into());

    let bound = 1.0e-2;
    let ata_00 = 2.0_f64;
    let ata_11 = 2.0e-6_f64;
    let lambda_sq = (lambda as f64) * (lambda as f64);
    let atb_0 = 1.0_f64;
    let atb_1 = 1.0e-3_f64;
    let direct_x0 = atb_0 / (ata_00 + lambda_sq);
    let direct_x1 = atb_1 / (ata_11 + lambda_sq);
    assert!(((solution[0] as f64) - direct_x0).abs() <= bound as f64);
    assert!(((solution[1] as f64) - direct_x1).abs() <= bound as f64);
    assert!(report.converged(), "got {:?}", report.termination);
}

#[test]
fn damped_solve_minimises_the_augmented_system() {
    // A = diag(1, 2), b = [1, 1], λ = 1: the minimiser of
    // ‖[A; λI]·x − [b; 0]‖₂ is x = (AᵀA + λ²I)⁻¹Aᵀb = [1/2, 2/5].
    let operator = dense_operator::<f64>(&[&[1.0, 0.0], &[0.0, 2.0]]);
    let right_hand_side = vector::<f64>(&[1.0, 1.0]);

    let (solution, report) = solve_with_damping(&operator, &right_hand_side, 64, 1.0);

    assert!((solution[0] - 0.5).abs() <= 1.0e-10, "x0 = {:.12}", solution[0]);
    assert!((solution[1] - 0.4).abs() <= 1.0e-10, "x1 = {:.12}", solution[1]);
    assert!(report.converged(), "got {:?}", report.termination);
}
