//! Convergence-policy, noise-floor, and observer conformance.

use core::marker::PhantomData;

use athena::{
    ConvergencePolicy, CsrMatrix, CsrOperator, InvalidConvergencePolicy, IterationState, Jacobi,
    KrylovBackend, LetoBackendError, LinearOperator, Preconditioner, axpy_slice,
    combine_direction_slices, copy_slice, fused_cg_update_slices, residual_noise_floor,
    residual_slice, scale_slice,
};

/// Real scalar a host test backend computes in.
trait Real:
    Copy
    + Default
    + PartialEq
    + PartialOrd
    + core::fmt::Debug
    + core::ops::Add<Output = Self>
    + core::ops::Sub<Output = Self>
    + core::ops::Mul<Output = Self>
    + core::ops::Div<Output = Self>
    + core::ops::Neg<Output = Self>
    + 'static
{
    const EPSILON: Self;
    const ZERO: Self;
    const ONE: Self;
    fn from_f64(value: f64) -> Self;
    fn from_count(count: usize) -> Self;
    fn finite(self) -> bool;
    fn magnitude(self) -> Self;
    fn root(self) -> Self;
    fn to_f64(self) -> f64;
}

impl Real for f32 {
    const EPSILON: Self = f32::EPSILON;
    const ZERO: Self = 0.0;
    const ONE: Self = 1.0;
    fn from_f64(value: f64) -> Self {
        value as f32
    }
    fn from_count(count: usize) -> Self {
        count as f32
    }
    fn finite(self) -> bool {
        self.is_finite()
    }
    fn magnitude(self) -> Self {
        self.abs()
    }
    fn root(self) -> Self {
        self.sqrt()
    }
    fn to_f64(self) -> f64 {
        f64::from(self)
    }
}

impl Real for f64 {
    const EPSILON: Self = f64::EPSILON;
    const ZERO: Self = 0.0;
    const ONE: Self = 1.0;
    fn from_f64(value: f64) -> Self {
        value
    }
    fn from_count(count: usize) -> Self {
        count as f64
    }
    fn finite(self) -> bool {
        self.is_finite()
    }
    fn magnitude(self) -> Self {
        self.abs()
    }
    fn root(self) -> Self {
        self.sqrt()
    }
    fn to_f64(self) -> f64 {
        self
    }
}

/// Zero-sized host backend over `Vec<T>` with IEEE arithmetic, its vector
/// kernels delegated to the library's host-slice kernels.
#[derive(Debug)]
struct Host<T>(PhantomData<T>);

impl<T> Default for Host<T> {
    fn default() -> Self {
        Host(PhantomData)
    }
}

fn dot<T: Real>(left: &[T], right: &[T]) -> Result<T, LetoBackendError> {
    if left.len() != right.len() {
        return Err(LetoBackendError::LengthMismatch { left: left.len(), right: right.len() });
    }
    let mut sum = T::ZERO;
    for (a, b) in left.iter().zip(right) {
        sum = sum + *a * *b;
    }
    Ok(sum)
}

impl<T: Real> KrylovBackend for Host<T> {
    type Scalar = T;
    type Error = LetoBackendError;
    type Vector = Vec<T>;
    type VectorBlock = Vec<Vec<T>>;
    type PreparedDot = ();
    type PreparedNorm = ();
    type View<'a> = &'a [T];
    type ViewMut<'a> = &'a mut [T];

    fn zero(&self) -> T {
        T::ZERO
    }
    fn one(&self) -> T {
        T::ONE
    }
    fn epsilon(&self) -> T {
        T::EPSILON
    }
    fn from_count(&self, count: usize) -> T {
        T::from_count(count)
    }
    fn is_finite(&self, value: T) -> bool {
        value.finite()
    }
    fn less(&self, left: T, right: T) -> bool {
        left < right
    }
    fn less_equal(&self, left: T, right: T) -> bool {
        left <= right
    }
    fn equal(&self, left: T, right: T) -> bool {
        left == right
    }
    fn add(&self, left: T, right: T) -> T {
        left + right
    }
    fn sub(&self, left: T, right: T) -> T {
        left - right
    }
    fn mul(&self, left: T, right: T) -> T {
        left * right
    }
    fn div(&self, left: T, right: T) -> T {
        left / right
    }
    fn neg(&self, value: T) -> T {
        -value
    }
    fn abs(&self, value: T) -> T {
        value.magnitude()
    }
    fn sqrt(&self, value: T) -> T {
        value.root()
    }
    fn allocate(&self, len: usize) -> Result<Vec<T>, LetoBackendError> {
        Ok(vec![T::ZERO; len])
    }
    fn allocate_block(&self, count: usize, len: usize) -> Result<Vec<Vec<T>>, LetoBackendError> {
        Ok(vec![vec![T::ZERO; len]; count])
    }
    fn view<'a>(&'a self, vector: &'a Vec<T>) -> &'a [T] {
        vector
    }
    fn view_mut<'a>(&'a self, vector: &'a mut Vec<T>) -> &'a mut [T] {
        vector
    }
    fn block_view<'a>(&'a self, block: &'a Vec<Vec<T>>, index: usize) -> &'a [T] {
        &block[index]
    }
    fn block_view_mut<'a>(&'a self, block: &'a mut Vec<Vec<T>>, index: usize) -> &'a mut [T] {
        &mut block[index]
    }
    fn vector_len(&self, vector: &Vec<T>) -> usize {
        vector.len()
    }
    fn copy(&self, source: &[T], target: &mut [T]) -> Result<(), LetoBackendError> {
        copy_slice(source, target)
    }
    fn scale(&self, target: &mut [T], factor: T) -> Result<(), LetoBackendError> {
        scale_slice(self, target, factor);
        Ok(())
    }
    fn axpy(&self, target: &mut [T], source: &[T], factor: T) -> Result<(), LetoBackendError> {
        axpy_slice(self, target, source, factor)
    }
    fn prepare_dot(&self, _left: &[T], _right: &[T]) -> Result<(), LetoBackendError> {
        Ok(())
    }
    fn dot_prepared(&self, _prepared: &(), left: &[T], right: &[T]) -> Result<T, LetoBackendError> {
        dot(left, right)
    }
    fn prepare_norm_l2(&self, _vector: &[T]) -> Result<(), LetoBackendError> {
        Ok(())
    }
    fn norm_l2_prepared(&self, _prepared: &(), vector: &[T]) -> Result<T, LetoBackendError> {
        Ok(dot(vector, vector)?.root())
    }
    fn norm_l2(&self, vector: &[T]) -> Result<T, LetoBackendError> {
        Ok(dot(vector, vector)?.root())
    }
    fn residual(&self, rhs: &[T], image: &[T], residual: &mut [T]) -> Result<(), LetoBackendError> {
        residual_slice(self, rhs, image, residual)
    }
    fn fused_cg_update(
        &self,
        solution: &mut [T],
        direction: &[T],
        residual: &mut [T],
        image: &[T],
        alpha: T,
    ) -> Result<(), LetoBackendError> {
        fused_cg_update_slices(self, solution, direction, residual, image, alpha)
    }
    fn combine_direction(&self, direction: &mut [T], z: &[T], beta: T) -> Result<(), LetoBackendError> {
        combine_direction_slices(self, direction, z, beta)
    }
}

/// `output = A · input` over the matrix's stored entries.
fn sparse_product<T: Real>(matrix: &CsrMatrix<T>, input: &[T], output: &mut [T]) -> Result<(), LetoBackendError> {
    let (rows, columns) = matrix.shape();
    if input.len() != columns {
        return Err(LetoBackendError::LengthMismatch { left: input.len(), right: columns });
    }
    if output.len() != rows {
        return Err(LetoBackendError::LengthMismatch { left: output.len(), right: rows });
    }
    let row_ptr = matrix.row_ptr();
    for row in 0..rows {
        let mut sum = T::ZERO;
        for entry in row_ptr[row]..row_ptr[row + 1] {
            sum = sum + matrix.values()[entry] * input[matrix.col_indices()[entry]];
        }
        output[row] = sum;
    }
    Ok(())
}

impl<T: Real> LinearOperator<Host<T>> for CsrOperator<T> {
    fn dimension(&self) -> usize {
        CsrOperator::dimension(self)
    }
    fn apply(&self, _backend: &Host<T>, input: &[T], output: &mut [T]) -> Result<(), LetoBackendError> {
        sparse_product(self.matrix(), input, output)
    }
}

impl<T: Real> Preconditioner<Host<T>> for Jacobi<T> {
    fn apply(&self, backend: &Host<T>, residual: &[T], output: &mut [T]) -> Result<(), LetoBackendError> {
        Jacobi::apply(self, backend, residual, output)
    }
}

fn csr<T: Real>(values: &[f64], col_indices: Vec<usize>, row_ptr: Vec<usize>, rows: usize, columns: usize) -> CsrMatrix<T> {
    CsrMatrix::from_parts(values.iter().map(|&v| T::from_f64(v)).collect(), col_indices, row_ptr, rows, columns)
        .expect("invariant: manufactured CSR parts are valid")
}

fn vector<T: Real>(values: &[f64]) -> Vec<T> {
    values.iter().map(|&v| T::from_f64(v)).collect()
}

#[test]
fn validates_every_policy_boundary() {
    let backend = Host::<f64>::default();
    assert_eq!(
        ConvergencePolicy::new(&backend, f64::NAN, 0.0, 1),
        Err(InvalidConvergencePolicy::InvalidTolerance)
    );
    assert_eq!(
        ConvergencePolicy::new(&backend, -f64::EPSILON, 0.0, 1),
        Err(InvalidConvergencePolicy::InvalidTolerance)
    );
    assert_eq!(
        ConvergencePolicy::new(&backend, 0.0, 0.0, 0),
        Err(InvalidConvergencePolicy::ZeroIterations)
    );
    assert_eq!(
        ConvergencePolicy::with_check_interval(&backend, 0.0, 0.0, 1, 0),
        Err(InvalidConvergencePolicy::ZeroCheckInterval)
    );
}

#[test]
fn combines_absolute_and_relative_thresholds() {
    let backend = Host::<f64>::default();
    let policy =
        ConvergencePolicy::new(&backend, 0.25_f64, 0.1, 8).expect("invariant: valid policy");
    assert!((policy.threshold(&backend, 1.0) - 0.25).abs() <= f64::EPSILON);
    assert!((policy.threshold(&backend, 10.0) - 1.0).abs() <= f64::EPSILON);
}

#[test]
fn scales_as_the_square_root_of_the_unknown_count() {
    let backend = Host::<f64>::default();
    let single = residual_noise_floor(&backend, 1, 1.0);
    let hundred = residual_noise_floor(&backend, 100, 1.0);

    assert!((single - f64::EPSILON).abs() <= f64::EPSILON * f64::EPSILON);
    assert!((hundred / single - 10.0).abs() <= 1.0e-12);
}

#[test]
fn a_zero_length_or_zero_scale_system_admits_no_noise() {
    let backend = Host::<f64>::default();
    assert!(residual_noise_floor(&backend, 0, 1.0) <= 0.0);
    assert!(residual_noise_floor(&backend, 1024, 0.0) <= 0.0);
}

#[test]
fn constructs_external_observer_sample() {
    let sample = IterationState::new(3, 0.25_f64, 0.5);

    assert_eq!(sample.iteration, 3);
    assert_eq!(sample.residual_norm.to_bits(), 0.25_f64.to_bits());
    assert_eq!(sample.threshold.to_bits(), 0.5_f64.to_bits());
}

#[test]
fn stays_resolvable_for_large_single_precision_systems() {
    // At 1e8 unknowns the worst-case form is `1e8 * EPSILON ~ 11.9`, so a
    // floor derived from it would exceed every residual and declare any
    // such system stagnant. The statistical form is
    // `sqrt(1e8) * EPSILON ~ 1.2e-3`, which still resolves a residual
    // carrying three correct digits.
    let backend = Host::<f32>::default();
    let floor = residual_noise_floor(&backend, 100_000_000, 1.0);

    assert!(floor > 1.0e-3);
    assert!(floor < 2.0e-3);
}

#[test]
fn the_threshold_never_falls_below_the_absolute_tolerance() {
    let backend = Host::<f64>::default();
    let policy = ConvergencePolicy::new(&backend, 0.5_f64, 0.25, 3).expect("invariant: valid policy");
    assert_eq!(policy.threshold(&backend, 0.0), 0.5);
    assert_eq!(policy.threshold(&backend, 4.0), 1.0);
    assert_eq!(policy.absolute_tolerance(), 0.5);
    assert_eq!(policy.relative_tolerance(), 0.25);
    assert_eq!(policy.max_iterations(), 3);
    assert_eq!(policy.check_interval(), 1);
}

#[test]
fn checks_fall_on_interval_multiples_and_the_last_iteration() {
    let backend = Host::<f64>::default();
    let policy =
        ConvergencePolicy::with_check_interval(&backend, 0.0_f64, 0.0, 10, 4).expect("invariant: valid policy");
    let checked: Vec<usize> = (0..=10).filter(|&iteration| policy.should_check(iteration)).collect();
    assert_eq!(checked, vec![0, 4, 8, 10]);
}

#[test]
fn a_tolerance_that_is_infinite_is_rejected() {
    let backend = Host::<f64>::default();
    assert_eq!(
        ConvergencePolicy::new(&backend, 0.0, f64::INFINITY, 1),
        Err(InvalidConvergencePolicy::InvalidTolerance)
    );
    assert_eq!(
        ConvergencePolicy::with_check_interval(&backend, f64::NAN, 0.0, 0, 0),
        Err(InvalidConvergencePolicy::InvalidTolerance)
    );
    assert_eq!(
        ConvergencePolicy::with_check_interval(&backend, 0.0, 0.0, 0, 0),
        Err(InvalidConvergencePolicy::ZeroIterations)
    );
}

#[test]
fn the_noise_floor_is_the_scaled_epsilon() {
    let backend = Host::<f64>::default();
    let floor = residual_noise_floor(&backend, 4, 3.0);
    assert_eq!(floor, 2.0 * f64::EPSILON * 3.0);
}

#[test]
fn a_csr_operator_reports_its_dimension() {
    let matrix = CsrMatrix::from_parts(vec![2.0_f64], vec![0], vec![0, 1], 1, 1)
        .expect("invariant: one-entry CSR is valid");
    let operator = CsrOperator::new(matrix).expect("invariant: matrix is square");
    assert_eq!(LinearOperator::<Host<f64>>::dimension(&operator), 1);
}
