//! The dense host-slice kernels, the length checks in front of them, and the
//! canonical CSR structure every sparse operator rests on.

use core::marker::PhantomData;

use athena::{
    CsrMatrix, CsrOperator, BorrowedCsrOperator, Jacobi, KrylovBackend, LetoBackendError,
    LinearOperator, Preconditioner, axpy_slice, combine_direction_slices, copy_slice,
    fused_cg_update_slices, residual_slice, scale_slice, validate_four_lengths, validate_lengths,
    validate_three_lengths,
};

/// Real scalar a host test backend computes in.
trait Real:
    Copy
    + Default
    + PartialEq
    + PartialOrd
    + core::fmt::Debug
    + core::ops::Add<Output = Self>
    + core::ops::Sub<Output = Self>
    + core::ops::Mul<Output = Self>
    + core::ops::Div<Output = Self>
    + core::ops::Neg<Output = Self>
    + 'static
{
    const EPSILON: Self;
    const ZERO: Self;
    const ONE: Self;
    fn from_f64(value: f64) -> Self;
    fn from_count(count: usize) -> Self;
    fn finite(self) -> bool;
    fn magnitude(self) -> Self;
    fn root(self) -> Self;
    fn to_f64(self) -> f64;
}

impl Real for f32 {
    const EPSILON: Self = f32::EPSILON;
    const ZERO: Self = 0.0;
    const ONE: Self = 1.0;
    fn from_f64(value: f64) -> Self {
        value as f32
    }
    fn from_count(count: usize) -> Self {
        count as f32
    }
    fn finite(self) -> bool {
        self.is_finite()
    }
    fn magnitude(self) -> Self {
        self.abs()
    }
    fn root(self) -> Self {
        self.sqrt()
    }
    fn to_f64(self) -> f64 {
        f64::from(self)
    }
}

impl Real for f64 {
    const EPSILON: Self = f64::EPSILON;
    const ZERO: Self = 0.0;
    const ONE: Self = 1.0;
    fn from_f64(value: f64) -> Self {
        value
    }
    fn from_count(count: usize) -> Self {
        count as f64
    }
    fn finite(self) -> bool {
        self.is_finite()
    }
    fn magnitude(self) -> Self {
        self.abs()
    }
    fn root(self) -> Self {
        self.sqrt()
    }
    fn to_f64(self) -> f64 {
        self
    }
}

/// Zero-sized host backend over `Vec<T>` with IEEE arithmetic, its vector
/// kernels delegated to the library's host-slice kernels.
#[derive(Debug)]
struct Host<T>(PhantomData<T>);

impl<T> Default for Host<T> {
    fn default() -> Self {
        Host(PhantomData)
    }
}

fn dot<T: Real>(left: &[T], right: &[T]) -> Result<T, LetoBackendError> {
    if left.len() != right.len() {
        return Err(LetoBackendError::LengthMismatch { left: left.len(), right: right.len() });
    }
    let mut sum = T::ZERO;
    for (a, b) in left.iter().zip(right) {
        sum = sum + *a * *b;
    }
    Ok(sum)
}

impl<T: Real> KrylovBackend for Host<T> {
    type Scalar = T;
    type Error = LetoBackendError;
    type Vector = Vec<T>;
    type VectorBlock = Vec<Vec<T>>;
    type PreparedDot = ();
    type PreparedNorm = ();
    type View<'a> = &'a [T];
    type ViewMut<'a> = &'a mut [T];

    fn zero(&self) -> T {
        T::ZERO
    }
    fn one(&self) -> T {
        T::ONE
    }
    fn epsilon(&self) -> T {
        T::EPSILON
    }
    fn from_count(&self, count: usize) -> T {
        T::from_count(count)
    }
    fn is_finite(&self, value: T) -> bool {
        value.finite()
    }
    fn less(&self, left: T, right: T) -> bool {
        left < right
    }
    fn less_equal(&self, left: T, right: T) -> bool {
        left <= right
    }
    fn equal(&self, left: T, right: T) -> bool {
        left == right
    }
    fn add(&self, left: T, right: T) -> T {
        left + right
    }
    fn sub(&self, left: T, right: T) -> T {
        left - right
    }
    fn mul(&self, left: T, right: T) -> T {
        left * right
    }
    fn div(&self, left: T, right: T) -> T {
        left / right
    }
    fn neg(&self, value: T) -> T {
        -value
    }
    fn abs(&self, value: T) -> T {
        value.magnitude()
    }
    fn sqrt(&self, value: T) -> T {
        value.root()
    }
    fn allocate(&self, len: usize) -> Result<Vec<T>, LetoBackendError> {
        Ok(vec![T::ZERO; len])
    }
    fn allocate_block(&self, count: usize, len: usize) -> Result<Vec<Vec<T>>, LetoBackendError> {
        Ok(vec![vec![T::ZERO; len]; count])
    }
    fn view<'a>(&'a self, vector: &'a Vec<T>) -> &'a [T] {
        vector
    }
    fn view_mut<'a>(&'a self, vector: &'a mut Vec<T>) -> &'a mut [T] {
        vector
    }
    fn block_view<'a>(&'a self, block: &'a Vec<Vec<T>>, index: usize) -> &'a [T] {
        &block[index]
    }
    fn block_view_mut<'a>(&'a self, block: &'a mut Vec<Vec<T>>, index: usize) -> &'a mut [T] {
        &mut block[index]
    }
    fn vector_len(&self, vector: &Vec<T>) -> usize {
        vector.len()
    }
    fn copy(&self, source: &[T], target: &mut [T]) -> Result<(), LetoBackendError> {
        copy_slice(source, target)
    }
    fn scale(&self, target: &mut [T], factor: T) -> Result<(), LetoBackendError> {
        scale_slice(self, target, factor);
        Ok(())
    }
    fn axpy(&self, target: &mut [T], source: &[T], factor: T) -> Result<(), LetoBackendError> {
        axpy_slice(self, target, source, factor)
    }
    fn prepare_dot(&self, _left: &[T], _right: &[T]) -> Result<(), LetoBackendError> {
        Ok(())
    }
    fn dot_prepared(&self, _prepared: &(), left: &[T], right: &[T]) -> Result<T, LetoBackendError> {
        dot(left, right)
    }
    fn prepare_norm_l2(&self, _vector: &[T]) -> Result<(), LetoBackendError> {
        Ok(())
    }
    fn norm_l2_prepared(&self, _prepared: &(), vector: &[T]) -> Result<T, LetoBackendError> {
        Ok(dot(vector, vector)?.root())
    }
    fn norm_l2(&self, vector: &[T]) -> Result<T, LetoBackendError> {
        Ok(dot(vector, vector)?.root())
    }
    fn residual(&self, rhs: &[T], image: &[T], residual: &mut [T]) -> Result<(), LetoBackendError> {
        residual_slice(self, rhs, image, residual)
    }
    fn fused_cg_update(
        &self,
        solution: &mut [T],
        direction: &[T],
        residual: &mut [T],
        image: &[T],
        alpha: T,
    ) -> Result<(), LetoBackendError> {
        fused_cg_update_slices(self, solution, direction, residual, image, alpha)
    }
    fn combine_direction(&self, direction: &mut [T], z: &[T], beta: T) -> Result<(), LetoBackendError> {
        combine_direction_slices(self, direction, z, beta)
    }
}

/// `output = A · input` over the matrix's stored entries.
fn sparse_product<T: Real>(matrix: &CsrMatrix<T>, input: &[T], output: &mut [T]) -> Result<(), LetoBackendError> {
    let (rows, columns) = matrix.shape();
    if input.len() != columns {
        return Err(LetoBackendError::LengthMismatch { left: input.len(), right: columns });
    }
    if output.len() != rows {
        return Err(LetoBackendError::LengthMismatch { left: output.len(), right: rows });
    }
    let row_ptr = matrix.row_ptr();
    for row in 0..rows {
        let mut sum = T::ZERO;
        for entry in row_ptr[row]..row_ptr[row + 1] {
            sum = sum + matrix.values()[entry] * input[matrix.col_indices()[entry]];
        }
        output[row] = sum;
    }
    Ok(())
}

impl<T: Real> LinearOperator<Host<T>> for CsrOperator<T> {
    fn dimension(&self) -> usize {
        CsrOperator::dimension(self)
    }
    fn apply(&self, _backend: &Host<T>, input: &[T], output: &mut [T]) -> Result<(), LetoBackendError> {
        sparse_product(self.matrix(), input, output)
    }
}

impl<T: Real> Preconditioner<Host<T>> for Jacobi<T> {
    fn apply(&self, backend: &Host<T>, residual: &[T], output: &mut [T]) -> Result<(), LetoBackendError> {
        Jacobi::apply(self, backend, residual, output)
    }
}

fn csr<T: Real>(values: &[f64], col_indices: Vec<usize>, row_ptr: Vec<usize>, rows: usize, columns: usize) -> CsrMatrix<T> {
    CsrMatrix::from_parts(values.iter().map(|&v| T::from_f64(v)).collect(), col_indices, row_ptr, rows, columns)
        .expect("invariant: manufactured CSR parts are valid")
}

fn vector<T: Real>(values: &[f64]) -> Vec<T> {
    values.iter().map(|&v| T::from_f64(v)).collect()
}

#[test]
fn length_checks_name_the_first_disagreeing_operand() {
    assert_eq!(validate_lengths(3, 3), Ok(()));
    assert_eq!(validate_lengths(3, 4), Err(LetoBackendError::LengthMismatch { left: 3, right: 4 }));
    assert_eq!(validate_three_lengths(2, 2, 2), Ok(()));
    assert_eq!(
        validate_three_lengths(2, 5, 7),
        Err(LetoBackendError::LengthMismatch { left: 2, right: 5 })
    );
    assert_eq!(
        validate_three_lengths(2, 2, 7),
        Err(LetoBackendError::LengthMismatch { left: 2, right: 7 })
    );
    assert_eq!(validate_four_lengths(1, 1, 1, 1), Ok(()));
    assert_eq!(
        validate_four_lengths(1, 1, 1, 9),
        Err(LetoBackendError::LengthMismatch { left: 1, right: 9 })
    );
    assert_eq!(
        validate_four_lengths(1, 1, 4, 9),
        Err(LetoBackendError::LengthMismatch { left: 1, right: 4 })
    );
}

#[test]
fn kernels_compute_elementwise_recurrences() {
    let backend = Host::<f64>::default();
    let mut target = vec![1.0, 2.0, 3.0];
    copy_slice(&[4.0, 5.0, 6.0], &mut target).expect("invariant: equal lengths");
    assert_eq!(target, vec![4.0, 5.0, 6.0]);

    scale_slice(&backend, &mut target, 0.5);
    assert_eq!(target, vec![2.0, 2.5, 3.0]);

    axpy_slice(&backend, &mut target, &[1.0, 1.0, 1.0], 2.0).expect("invariant: equal lengths");
    assert_eq!(target, vec![4.0, 4.5, 5.0]);

    let mut residual = vec![0.0; 3];
    residual_slice(&backend, &[5.0, 5.0, 5.0], &target, &mut residual).expect("invariant: equal lengths");
    assert_eq!(residual, vec![1.0, 0.5, 0.0]);

    let mut solution = vec![0.0, 0.0, 0.0];
    let mut running = vec![1.0, 1.0, 1.0];
    fused_cg_update_slices(&backend, &mut solution, &[1.0, 2.0, 3.0], &mut running, &[2.0, 2.0, 2.0], 0.5)
        .expect("invariant: equal lengths");
    assert_eq!(solution, vec![0.5, 1.0, 1.5]);
    assert_eq!(running, vec![0.0, 0.0, 0.0]);

    let mut direction = vec![1.0, 2.0, 3.0];
    combine_direction_slices(&backend, &mut direction, &[1.0, 1.0, 1.0], 2.0).expect("invariant: equal lengths");
    assert_eq!(direction, vec![3.0, 5.0, 7.0]);
}

#[test]
fn kernels_reject_mismatched_operands_without_writing() {
    let backend = Host::<f64>::default();
    let mut target = vec![1.0, 2.0];
    assert_eq!(
        copy_slice(&[1.0], &mut target),
        Err(LetoBackendError::LengthMismatch { left: 1, right: 2 })
    );
    assert_eq!(
        axpy_slice(&backend, &mut target, &[1.0, 1.0, 1.0], 1.0),
        Err(LetoBackendError::LengthMismatch { left: 2, right: 3 })
    );
    assert_eq!(
        residual_slice(&backend, &[1.0, 1.0], &[1.0], &mut target),
        Err(LetoBackendError::LengthMismatch { left: 2, right: 1 })
    );
    let mut other = vec![9.0; 3];
    assert_eq!(
        fused_cg_update_slices(&backend, &mut target, &[1.0, 1.0], &mut other, &[1.0, 1.0], 1.0),
        Err(LetoBackendError::LengthMismatch { left: 2, right: 3 })
    );
    assert_eq!(
        combine_direction_slices(&backend, &mut target, &[1.0], 1.0),
        Err(LetoBackendError::LengthMismatch { left: 2, right: 1 })
    );
    assert_eq!(target, vec![1.0, 2.0]);
    assert_eq!(other, vec![9.0; 3]);
}

#[test]
fn only_canonical_parts_make_a_matrix() {
    // Canonical: offsets from 0 to nnz, in-range and strictly increasing
    // columns in every row.
    let matrix = CsrMatrix::from_parts(vec![1.0_f64, 2.0, 3.0], vec![0, 2, 1], vec![0, 2, 3], 2, 3)
        .expect("invariant: canonical parts");
    assert_eq!(matrix.shape(), (2, 3));
    assert_eq!(matrix.values(), &[1.0, 2.0, 3.0]);
    assert_eq!(matrix.col_indices(), &[0, 2, 1]);
    assert_eq!(matrix.row_ptr(), &[0, 2, 3]);

    // Columns out of order within a row.
    assert!(CsrMatrix::from_parts(vec![1.0_f64, 2.0], vec![1, 0], vec![0, 2], 1, 2).is_none());
    // A repeated column.
    assert!(CsrMatrix::from_parts(vec![1.0_f64, 2.0], vec![1, 1], vec![0, 2], 1, 2).is_none());
    // A column past the matrix.
    assert!(CsrMatrix::from_parts(vec![1.0_f64], vec![2], vec![0, 1], 1, 2).is_none());
    // Offsets that do not end at the value count.
    assert!(CsrMatrix::from_parts(vec![1.0_f64], vec![0], vec![0, 0], 1, 1).is_none());
    // Offsets that decrease.
    assert!(CsrMatrix::from_parts(vec![1.0_f64, 1.0], vec![0, 0], vec![0, 2, 1, 2], 3, 1).is_none());
    // One offset too few.
    assert!(CsrMatrix::from_parts(vec![1.0_f64], vec![0], vec![0, 1], 2, 1).is_none());
}

#[test]
fn square_operators_refuse_rectangles_and_hand_back_their_matrix() {
    let rectangle = CsrMatrix::from_parts(vec![1.0_f64, 2.0], vec![0, 1], vec![0, 2], 1, 2)
        .expect("invariant: canonical parts");
    assert!(matches!(
        BorrowedCsrOperator::new(&rectangle),
        Err(LetoBackendError::NonSquareOperator { rows: 1, columns: 2 })
    ));
    assert!(matches!(
        CsrOperator::new(rectangle),
        Err(LetoBackendError::NonSquareOperator { rows: 1, columns: 2 })
    ));

    let square = CsrMatrix::from_parts(vec![3.0_f64], vec![0], vec![0, 1], 1, 1)
        .expect("invariant: canonical parts");
    let borrowed = BorrowedCsrOperator::new(&square).expect("invariant: square");
    assert_eq!(borrowed.dimension(), 1);
    assert_eq!(borrowed.matrix().values(), &[3.0]);
    let owned = CsrOperator::new(square.clone()).expect("invariant: square");
    assert_eq!(owned.dimension(), 1);
    let returned = owned.into_matrix();
    assert_eq!(returned.values(), square.values());
    assert_eq!(returned.shape(), (1, 1));
}
