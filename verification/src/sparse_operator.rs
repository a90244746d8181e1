//! Linear operators over canonical CSR matrices.
use vstd::prelude::*;
use crate::backend::KrylovBackend;
use crate::sparse::{CsrMatrix, LetoBackendError, entry_in_columns, lemma_entry_in_columns, strictly_increasing};

verus! {

/// Square CSR operator backed by a canonical sparse matrix.
#[derive(Debug)]
pub struct CsrOperator<T> {
    matrix: CsrMatrix<T>,
    dimension: usize,
}

impl<T> CsrOperator<T> {
    /// The wrapped matrix.
    pub closed spec fn spec_matrix(&self) -> CsrMatrix<T> {
        self.matrix
    }

    /// The operator's dimension.
    pub closed spec fn spec_dimension(&self) -> usize {
        self.dimension
    }

    /// Validate and construct a square sparse operator.
    ///
    /// Returns [`LetoBackendError::NonSquareOperator`] for a rectangular
    /// matrix.
    pub fn new(matrix: CsrMatrix<T>) -> (operator: Result<Self, LetoBackendError>)
        ensures
            matrix.spec_rows() != matrix.spec_columns() ==> operator == Err::<Self, LetoBackendError>(
                LetoBackendError::NonSquareOperator { rows: matrix.spec_rows(), columns: matrix.spec_columns() },
            ),
            matrix.spec_rows() == matrix.spec_columns() ==> (operator matches Ok(built) && built.spec_matrix()
                == matrix && built.spec_dimension() == matrix.spec_rows()),
    {
        let (rows, columns) = matrix.shape();
        if rows != columns {
            return Err(LetoBackendError::NonSquareOperator { rows, columns });
        }
        Ok(CsrOperator { matrix, dimension: rows })
    }

    /// Borrow the canonical CSR matrix.
    pub fn matrix(&self) -> (matrix: &CsrMatrix<T>)
        ensures
            *matrix == self.spec_matrix(),
    {
        &self.matrix
    }

    /// Consume the operator and return the canonical CSR matrix.
    pub fn into_matrix(self) -> (matrix: CsrMatrix<T>)
        ensures
            matrix == self.spec_matrix(),
    {
        self.matrix
    }

    /// The operator's dimension.
    pub fn dimension(&self) -> (dimension: usize)
        ensures
            dimension == self.spec_dimension(),
    {
        self.dimension
    }
}

/// Square CSR operator that borrows a canonical sparse matrix.
#[derive(Debug)]
pub struct BorrowedCsrOperator<'a, T> {
    matrix: &'a CsrMatrix<T>,
    dimension: usize,
}

impl<'a, T> BorrowedCsrOperator<'a, T> {
    /// The borrowed matrix.
    pub closed spec fn spec_matrix(&self) -> CsrMatrix<T> {
        *self.matrix
    }

    /// The operator's dimension.
    pub closed spec fn spec_dimension(&self) -> usize {
        self.dimension
    }

    /// Borrow and validate a square sparse operator.
    ///
    /// Returns [`LetoBackendError::NonSquareOperator`] for a rectangular
    /// matrix.
    pub fn new(matrix: &'a CsrMatrix<T>) -> (operator: Result<Self, LetoBackendError>)
        ensures
            matrix.spec_rows() != matrix.spec_columns() ==> operator == Err::<Self, LetoBackendError>(
                LetoBackendError::NonSquareOperator { rows: matrix.spec_rows(), columns: matrix.spec_columns() },
            ),
            matrix.spec_rows() == matrix.spec_columns() ==> (operator matches Ok(built) && built.spec_matrix()
                == *matrix && built.spec_dimension() == matrix.spec_rows()),
    {
        let (rows, columns) = matrix.shape();
        if rows != columns {
            return Err(LetoBackendError::NonSquareOperator { rows, columns });
        }
        Ok(BorrowedCsrOperator { matrix, dimension: rows })
    }

    /// Borrow the canonical CSR matrix.
    pub fn matrix(&self) -> (matrix: &'a CsrMatrix<T>)
        ensures
            *matrix == self.spec_matrix(),
    {
        self.matrix
    }

    /// The operator's dimension.
    pub fn dimension(&self) -> (dimension: usize)
        ensures
            dimension == self.spec_dimension(),
    {
        self.dimension
    }
}

/// Column `column` of `Aᵀ·input` after the rows `0..rows`: each row storing
/// that column adds its entry times the row's input value, in row order.
pub open spec fn transpose_column<B: KrylovBackend>(
    backend: &B,
    values: Seq<B::Scalar>,
    col_indices: Seq<usize>,
    row_ptr: Seq<usize>,
    input: Seq<B::Scalar>,
    column: int,
    rows: int,
) -> B::Scalar
    decreases rows,
{
    if rows <= 0 {
        backend.spec_zero()
    } else {
        let before = transpose_column(backend, values, col_indices, row_ptr, input, column, rows - 1);
        let entry = entry_in_columns(col_indices, row_ptr[rows - 1] as int, row_ptr[rows as int] as int, column);
        if entry >= 0 {
            backend.spec_add(before, backend.spec_mul(values[entry], input[rows - 1]))
        } else {
            before
        }
    }
}

/// Column `column` of the scatter partway through row `row`: the rows before
/// it complete, and of row `row` the entries `[row_ptr[row], upto)`.
pub open spec fn scattered_column<B: KrylovBackend>(
    backend: &B,
    values: Seq<B::Scalar>,
    col_indices: Seq<usize>,
    row_ptr: Seq<usize>,
    input: Seq<B::Scalar>,
    column: int,
    row: int,
    upto: int,
) -> B::Scalar {
    let before = transpose_column(backend, values, col_indices, row_ptr, input, column, row);
    let entry = entry_in_columns(col_indices, row_ptr[row] as int, upto, column);
    if entry >= 0 {
        backend.spec_add(before, backend.spec_mul(values[entry], input[row]))
    } else {
        before
    }
}

/// Rectangular CSR operator supporting both `A x` and `Aᵀ y`.
///
/// Kept separate from the square [`CsrOperator`]: least-squares recurrences
/// need the adjoint and genuinely different operand lengths, and a square
/// operator should not be forced to carry a transpose it never uses.
#[derive(Debug)]
pub struct RectangularCsrOperator<T> {
    matrix: CsrMatrix<T>,
    rows: usize,
    columns: usize,
}

impl<T> RectangularCsrOperator<T> {
    /// The wrapped matrix.
    pub closed spec fn spec_matrix(&self) -> CsrMatrix<T> {
        self.matrix
    }

    /// Row count.
    pub closed spec fn spec_rows(&self) -> usize {
        self.rows
    }

    /// Column count.
    pub closed spec fn spec_columns(&self) -> usize {
        self.columns
    }

    /// The recorded shape is the matrix's.
    #[verifier::type_invariant]
    pub(crate) open spec fn shaped(self) -> bool {
        &&& self.spec_rows() == self.spec_matrix().spec_rows()
        &&& self.spec_columns() == self.spec_matrix().spec_columns()
    }

    /// Wrap a CSR matrix of any shape.
    pub fn new(matrix: CsrMatrix<T>) -> (operator: Self)
        ensures
            operator.spec_matrix() == matrix,
            operator.spec_rows() == matrix.spec_rows(),
            operator.spec_columns() == matrix.spec_columns(),
    {
        let (rows, columns) = matrix.shape();
        RectangularCsrOperator { matrix, rows, columns }
    }

    /// Borrow the canonical CSR matrix.
    pub fn matrix(&self) -> (matrix: &CsrMatrix<T>)
        ensures
            *matrix == self.spec_matrix(),
    {
        &self.matrix
    }

    /// Row count.
    pub fn rows(&self) -> (rows: usize)
        ensures
            rows == self.spec_rows(),
    {
        self.rows
    }

    /// Column count.
    pub fn columns(&self) -> (columns: usize)
        ensures
            columns == self.spec_columns(),
    {
        self.columns
    }
}

impl<T: Copy> RectangularCsrOperator<T> {
    /// `output = Aᵀ·input`, accumulated by scattering each stored row into
    /// `output`.
    ///
    /// Transposing the matrix first would cost an `O(nnz)` allocation and a
    /// full rebuild per application; the scatter reads the same CSR arrays the
    /// forward product does, which matters because LSQR applies the adjoint
    /// once per iteration.
    ///
    /// Returns [`LetoBackendError::LengthMismatch`] when `input` does not hold
    /// one entry per row, then when `output` does not hold one per column.
    pub fn apply_transpose<B: KrylovBackend<Scalar = T>>(&self, backend: &B, input: &[T], output: &mut [T]) -> (outcome:
        Result<(), LetoBackendError>)
        ensures
            input@.len() != self.spec_rows() ==> outcome == Err::<(), LetoBackendError>(
                LetoBackendError::LengthMismatch { left: input@.len() as usize, right: self.spec_rows() },
            ),
            input@.len() == self.spec_rows() && old(output)@.len() != self.spec_columns() ==> outcome == Err::<
                (),
                LetoBackendError,
            >(LetoBackendError::LengthMismatch { left: old(output)@.len() as usize, right: self.spec_columns() }),
            outcome is Err ==> final(output)@ == old(output)@,
            input@.len() == self.spec_rows() && old(output)@.len() == self.spec_columns() ==> {
                &&& outcome is Ok
                &&& final(output)@.len() == old(output)@.len()
                &&& forall|column: int|
                    0 <= column < self.spec_columns() ==> #[trigger] final(output)@[column] == transpose_column(
                        backend,
                        self.spec_matrix().spec_values(),
                        self.spec_matrix().spec_col_indices(),
                        self.spec_matrix().spec_row_ptr(),
                        input@,
                        column,
                        self.spec_rows() as int,
                    )
            },
    {
        proof {
            use_type_invariant(self);
            use_type_invariant(&self.matrix);
        }
        if input.len() != self.rows {
            return Err(LetoBackendError::LengthMismatch { left: input.len(), right: self.rows });
        }
        if output.len() != self.columns {
            return Err(LetoBackendError::LengthMismatch { left: output.len(), right: self.columns });
        }
        let columns = self.columns;
        let rows = self.rows;
        let zero = backend.zero();
        let mut column: usize = 0;
        while column < columns
            invariant
                output@.len() == columns,
                column <= columns,
                zero == backend.spec_zero(),
                forall|done: int| 0 <= done < column ==> output@[done] == zero,
            decreases columns - column,
        {
            output[column] = zero;
            column = column + 1;
        }
        let row_ptr = self.matrix.row_ptr();
        let col_indices = self.matrix.col_indices();
        let values = self.matrix.values();
        let ghost nnz = values@.len();
        let mut row: usize = 0;
        while row < rows
            invariant
                crate::sparse::csr_canonical(nnz, col_indices@, row_ptr@, rows as nat, columns as nat),
                values@.len() == nnz,
                input@.len() == rows,
                output@.len() == columns,
                row <= rows,
                forall|any: int|
                    0 <= any < columns ==> #[trigger] output@[any] == transpose_column(
                        backend,
                        values@,
                        col_indices@,
                        row_ptr@,
                        input@,
                        any,
                        row as int,
                    ),
            decreases rows - row,
        {
            let scale = input[row];
            let start = row_ptr[row];
            let end = row_ptr[row + 1];
            assert(row_ptr@[row + 1] <= row_ptr@[rows as int]);
            assert(strictly_increasing(col_indices@, start as int, end as int));
            let mut entry: usize = start;
            while entry < end
                invariant
                    start == row_ptr@[row as int],
                    end == row_ptr@[row + 1],
                    start <= entry <= end <= nnz,
                    values@.len() == nnz,
                    col_indices@.len() == nnz,
                    forall|stored: int| 0 <= stored < nnz ==> #[trigger] col_indices@[stored] < columns,
                    strictly_increasing(col_indices@, start as int, end as int),
                    row < rows,
                    input@.len() == rows,
                    scale == input@[row as int],
                    output@.len() == columns,
                    forall|any: int|
                        0 <= any < columns ==> #[trigger] output@[any] == scattered_column(
                            backend,
                            values@,
                            col_indices@,
                            row_ptr@,
                            input@,
                            any,
                            row as int,
                            entry as int,
                        ),
                decreases end - entry,
            {
                let target = col_indices[entry];
                proof {
                    lemma_entry_in_columns(col_indices@, start as int, entry as int, target as int);
                    let found = entry_in_columns(col_indices@, start as int, entry as int, target as int);
                    if found != -1 {
                        assert(col_indices@[found] < col_indices@[entry as int]);
                    }
                }
                let value = backend.add(output[target], backend.mul(values[entry], scale));
                output[target] = value;
                entry = entry + 1;
            }
            row = row + 1;
        }
        Ok(())
    }
}

} // verus!
