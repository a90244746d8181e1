//! Jacobi preconditioning: the inverse of a matrix diagonal.
use vstd::prelude::*;
use crate::backend::KrylovBackend;
use crate::sparse::{CsrMatrix, LetoBackendError, first_entry_in_columns};

verus! {

/// The diagonal entry of a row spanning `[start, end)`: the first entry of
/// the span storing column `row`, or zero when none does.
pub open spec fn stored_diagonal<B: KrylovBackend>(
    backend: &B,
    values: Seq<B::Scalar>,
    col_indices: Seq<usize>,
    start: int,
    end: int,
    row: int,
) -> B::Scalar {
    let entry = first_entry_in_columns(col_indices, start, end, row);
    if entry >= 0 {
        values[entry]
    } else {
        backend.spec_zero()
    }
}

/// The diagonal entry of row `row` of a CSR structure.
pub open spec fn row_diagonal<B: KrylovBackend>(
    backend: &B,
    values: Seq<B::Scalar>,
    col_indices: Seq<usize>,
    row_ptr: Seq<usize>,
    row: int,
) -> B::Scalar {
    stored_diagonal(backend, values, col_indices, row_ptr[row] as int, row_ptr[row + 1] as int, row)
}

/// The diagonal entry of row `row` is zero, stored or absent.
pub open spec fn diagonal_vanishes<B: KrylovBackend>(
    backend: &B,
    values: Seq<B::Scalar>,
    col_indices: Seq<usize>,
    row_ptr: Seq<usize>,
    row: int,
) -> bool {
    backend.spec_equal(row_diagonal(backend, values, col_indices, row_ptr, row), backend.spec_zero())
}

/// The reciprocal of every diagonal entry of rows `0..rows`.
pub open spec fn inverse_diagonal_of<B: KrylovBackend>(
    backend: &B,
    values: Seq<B::Scalar>,
    col_indices: Seq<usize>,
    row_ptr: Seq<usize>,
    rows: nat,
) -> Seq<B::Scalar> {
    Seq::new(
        rows,
        |row: int| backend.spec_div(backend.spec_one(), row_diagonal(backend, values, col_indices, row_ptr, row)),
    )
}

/// The diagonal entry of a row spanning `[start, end)`, found by a scan.
fn find_diagonal<B: KrylovBackend>(
    backend: &B,
    values: &[B::Scalar],
    col_indices: &[usize],
    start: usize,
    end: usize,
    row: usize,
) -> (diagonal: B::Scalar)
    requires
        start <= end <= values@.len(),
        end <= col_indices@.len(),
    ensures
        diagonal == stored_diagonal(
            backend,
            values@,
            col_indices@,
            start as int,
            end as int,
            row as int,
        ),
{
    let mut entry: usize = start;
    while entry < end
        invariant
            start <= entry <= end <= values@.len(),
            end <= col_indices@.len(),
            first_entry_in_columns(col_indices@, start as int, end as int, row as int)
                == first_entry_in_columns(col_indices@, entry as int, end as int, row as int),
        decreases end - entry,
    {
        if col_indices[entry] == row {
            return values[entry];
        }
        entry = entry + 1;
    }
    backend.zero()
}

/// Jacobi preconditioner storing the inverse matrix diagonal.
#[derive(Clone, Debug)]
pub struct Jacobi<T> {
    inverse_diagonal: Vec<T>,
}

impl<T: Copy> Jacobi<T> {
    /// The stored inverse diagonal.
    pub closed spec fn spec_inverse_diagonal(&self) -> Seq<T> {
        self.inverse_diagonal@
    }

    /// Build the inverse diagonal from a square CSR matrix.
    ///
    /// Returns [`LetoBackendError::NonSquareOperator`] for a rectangular
    /// matrix and [`LetoBackendError::SingularDiagonal`] for the first zero
    /// diagonal entry; a diagonal the pattern does not store is zero.
    pub fn from_csr<B: KrylovBackend<Scalar = T>>(backend: &B, matrix: &CsrMatrix<T>) -> (built: Result<
        Self,
        LetoBackendError,
    >)
        ensures
            matrix.spec_rows() != matrix.spec_columns() ==> built == Err::<Self, LetoBackendError>(
                LetoBackendError::NonSquareOperator {
                    rows: matrix.spec_rows(),
                    columns: matrix.spec_columns(),
                },
            ),
            matrix.spec_rows() == matrix.spec_columns() ==> match built {
                Ok(jacobi) => {
                    &&& forall|row: int|
                        0 <= row < matrix.spec_rows() ==> !diagonal_vanishes(
                            backend,
                            matrix.spec_values(),
                            matrix.spec_col_indices(),
                            matrix.spec_row_ptr(),
                            row,
                        )
                    &&& jacobi.spec_inverse_diagonal() == inverse_diagonal_of(
                        backend,
                        matrix.spec_values(),
                        matrix.spec_col_indices(),
                        matrix.spec_row_ptr(),
                        matrix.spec_rows() as nat,
                    )
                },
                Err(error) => match error {
                    LetoBackendError::SingularDiagonal { index } => {
                        &&& index < matrix.spec_rows()
                        &&& diagonal_vanishes(
                            backend,
                            matrix.spec_values(),
                            matrix.spec_col_indices(),
                            matrix.spec_row_ptr(),
                            index as int,
                        )
                        &&& forall|earlier: int|
                            0 <= earlier < index ==> !diagonal_vanishes(
                                backend,
                                matrix.spec_values(),
                                matrix.spec_col_indices(),
                                matrix.spec_row_ptr(),
                                earlier,
                            )
                    },
                    _ => false,
                },
            },
    {
        let (rows, columns) = matrix.shape();
        if rows != columns {
            return Err(LetoBackendError::NonSquareOperator { rows, columns });
        }
        let values = matrix.values();
        let col_indices = matrix.col_indices();
        let row_ptr = matrix.row_ptr();
        proof {
            assert forall|row: int| 0 <= row < rows implies #[trigger] span_within(row_ptr@, row, values@.len()) by {
                assert(row_ptr@[row] <= row_ptr@[row + 1] <= values@.len());
            }
        }
        let inverse_diagonal = match inverse_diagonal_from_csr(backend, values, col_indices, row_ptr, rows, columns) {
            Ok(inverse) => {
                proof {
                    assert forall|row: int| 0 <= row < rows implies !diagonal_vanishes(
                        backend,
                        values@,
                        col_indices@,
                        row_ptr@,
                        row,
                    ) by {
                        assert(row_invertible(backend, values@, col_indices@, row_ptr@, row));
                    }
                }
                inverse
            },
            Err(error) => {
                proof {
                    match error {
                        InverseDiagonalError::RowOutOfBounds { row, .. } => {
                            assert(span_within(row_ptr@, row as int, values@.len()));
                        },
                        InverseDiagonalError::ZeroDiagonal { row } => {
                            assert forall|earlier: int| 0 <= earlier < row implies !diagonal_vanishes(
                                backend,
                                values@,
                                col_indices@,
                                row_ptr@,
                                earlier,
                            ) by {
                                assert(row_invertible(backend, values@, col_indices@, row_ptr@, earlier));
                            }
                        },
                        _ => {},
                    }
                }
                // A canonical square matrix passes every structural check, so
                // only a vanishing diagonal stops the inversion.
                let index = match error {
                    InverseDiagonalError::ZeroDiagonal { row } => row,
                    _ => vstd::pervasive::unreached(),
                };
                return Err(LetoBackendError::SingularDiagonal { index });
            },
        };
        Ok(Jacobi { inverse_diagonal })
    }

    /// Borrow the inverse diagonal.
    pub fn inverse_diagonal(&self) -> (inverse: &[T])
        ensures
            inverse@ == self.spec_inverse_diagonal(),
    {
        self.inverse_diagonal.as_slice()
    }

    /// `output = inverse_diagonal ⊙ residual`.
    ///
    /// Returns [`LetoBackendError::LengthMismatch`] when `residual` disagrees
    /// in length with `output`, then with the stored diagonal.
    pub fn apply<B: KrylovBackend<Scalar = T>>(&self, backend: &B, residual: &[T], output: &mut [T]) -> (outcome:
        Result<(), LetoBackendError>)
        ensures
            final(output)@.len() == old(output)@.len(),
            residual@.len() != old(output)@.len() ==> outcome == Err::<(), LetoBackendError>(
                LetoBackendError::LengthMismatch {
                    left: residual@.len() as usize,
                    right: old(output)@.len() as usize,
                },
            ),
            residual@.len() == old(output)@.len() && residual@.len() != self.spec_inverse_diagonal().len()
                ==> outcome == Err::<(), LetoBackendError>(
                LetoBackendError::LengthMismatch {
                    left: residual@.len() as usize,
                    right: self.spec_inverse_diagonal().len() as usize,
                },
            ),
            residual@.len() == old(output)@.len() && residual@.len() == self.spec_inverse_diagonal().len()
                ==> outcome is Ok && forall|entry: int|
                0 <= entry < residual@.len() ==> #[trigger] final(output)@[entry] == backend.spec_mul(
                    self.spec_inverse_diagonal()[entry],
                    residual@[entry],
                ),
    {
        let inverse = self.inverse_diagonal.as_slice();
        if residual.len() != output.len() {
            return Err(LetoBackendError::LengthMismatch { left: residual.len(), right: output.len() });
        }
        if residual.len() != inverse.len() {
            return Err(LetoBackendError::LengthMismatch { left: residual.len(), right: inverse.len() });
        }
        let n = residual.len();
        let mut entry: usize = 0;
        while entry < n
            invariant
                n == residual@.len() == output@.len() == inverse@.len(),
                inverse@ == self.spec_inverse_diagonal(),
                entry <= n,
                forall|done: int|
                    0 <= done < entry ==> #[trigger] output@[done] == backend.spec_mul(
                        inverse@[done],
                        residual@[done],
                    ),
            decreases n - entry,
        {
            let value = backend.mul(inverse[entry], residual[entry]);
            output[entry] = value;
            entry = entry + 1;
        }
        Ok(())
    }
}

/// Why CSR parts cannot yield an inverse diagonal.
#[derive(Clone, Copy, Debug, PartialEq, Eq, Structural)]
pub enum InverseDiagonalError {
    /// A square matrix was required.
    NonSquare {
        /// Matrix row count.
        rows: usize,
        /// Matrix column count.
        columns: usize,
    },
    /// The column-index and value arrays disagree in length.
    ValueCountMismatch {
        /// Column-index count.
        col_indices: usize,
        /// Value count.
        values: usize,
    },
    /// The row-offset array does not hold one entry more than the row count.
    RowPointerCount {
        /// Declared row count.
        rows: usize,
        /// Row-offset count.
        row_ptr: usize,
    },
    /// A row's span lies outside the stored entries.
    RowOutOfBounds {
        /// The row.
        row: usize,
        /// Its first offset.
        start: usize,
        /// Its end offset.
        end: usize,
        /// The stored entry count.
        stored: usize,
    },
    /// A diagonal entry, stored or absent, is zero.
    ZeroDiagonal {
        /// The row.
        row: usize,
    },
}

/// Row `row`'s span `[row_ptr[row], row_ptr[row + 1])` is ordered and within
/// the `stored` entries.
pub open spec fn span_within(row_ptr: Seq<usize>, row: int, stored: nat) -> bool {
    row_ptr[row] <= row_ptr[row + 1] <= stored
}

/// Row `row` has an in-range span and a nonzero diagonal.
pub open spec fn row_invertible<B: KrylovBackend>(
    backend: &B,
    values: Seq<B::Scalar>,
    col_indices: Seq<usize>,
    row_ptr: Seq<usize>,
    row: int,
) -> bool {
    span_within(row_ptr, row, values.len()) && !diagonal_vanishes(backend, values, col_indices, row_ptr, row)
}

/// Extract and invert the diagonal of a square matrix given by raw CSR parts.
///
/// Host-side and device-free: this is the whole construction contract of a
/// device Jacobi preconditioner, separated so a caller that already holds an
/// inverse diagonal, or that wants to validate a system before acquiring a
/// device, need not go through an upload. The parts are checked as far as the
/// extraction needs: agreeing array lengths and in-range row spans.
///
/// A diagonal entry absent from the sparsity structure is zero, and is
/// rejected on the same terms as a stored zero: the preconditioner would
/// divide by it.
pub fn inverse_diagonal_from_csr<B: KrylovBackend>(
    backend: &B,
    values: &[B::Scalar],
    col_indices: &[usize],
    row_ptr: &[usize],
    rows: usize,
    columns: usize,
) -> (inverse: Result<Vec<B::Scalar>, InverseDiagonalError>)
    ensures
        rows != columns ==> inverse == Err::<Vec<B::Scalar>, InverseDiagonalError>(
            InverseDiagonalError::NonSquare { rows, columns },
        ),
        rows == columns && col_indices@.len() != values@.len() ==> inverse == Err::<
            Vec<B::Scalar>,
            InverseDiagonalError,
        >(
            InverseDiagonalError::ValueCountMismatch {
                col_indices: col_indices@.len() as usize,
                values: values@.len() as usize,
            },
        ),
        rows == columns && col_indices@.len() == values@.len() && row_ptr@.len() != rows + 1 ==> inverse
            == Err::<Vec<B::Scalar>, InverseDiagonalError>(
            InverseDiagonalError::RowPointerCount { rows, row_ptr: row_ptr@.len() as usize },
        ),
        rows == columns && col_indices@.len() == values@.len() && row_ptr@.len() == rows + 1 ==> match inverse {
            Ok(inverse) => {
                &&& forall|row: int|
                    0 <= row < rows ==> #[trigger] row_invertible(backend, values@, col_indices@, row_ptr@, row)
                &&& inverse@ == inverse_diagonal_of(backend, values@, col_indices@, row_ptr@, rows as nat)
            },
            Err(error) => match error {
                InverseDiagonalError::RowOutOfBounds { row, start, end, stored } => {
                    &&& row < rows
                    &&& start == row_ptr@[row as int]
                    &&& end == row_ptr@[row + 1]
                    &&& stored == values@.len()
                    &&& !span_within(row_ptr@, row as int, values@.len())
                    &&& forall|earlier: int|
                        0 <= earlier < row ==> #[trigger] row_invertible(
                            backend,
                            values@,
                            col_indices@,
                            row_ptr@,
                            earlier,
                        )
                },
                InverseDiagonalError::ZeroDiagonal { row } => {
                    &&& row < rows
                    &&& span_within(row_ptr@, row as int, values@.len())
                    &&& diagonal_vanishes(backend, values@, col_indices@, row_ptr@, row as int)
                    &&& forall|earlier: int|
                        0 <= earlier < row ==> #[trigger] row_invertible(
                            backend,
                            values@,
                            col_indices@,
                            row_ptr@,
                            earlier,
                        )
                },
                _ => false,
            },
        },
{
    if rows != columns {
        return Err(InverseDiagonalError::NonSquare { rows, columns });
    }
    if col_indices.len() != values.len() {
        return Err(
            InverseDiagonalError::ValueCountMismatch { col_indices: col_indices.len(), values: values.len() },
        );
    }
    if row_ptr.len().checked_sub(1) != Some(rows) {
        return Err(InverseDiagonalError::RowPointerCount { rows, row_ptr: row_ptr.len() });
    }
    let mut inverse: Vec<B::Scalar> = Vec::with_capacity(rows);
    let mut row: usize = 0;
    while row < rows
        invariant
            rows == columns,
            row_ptr@.len() == rows + 1,
            col_indices@.len() == values@.len(),
            row <= rows,
            inverse@ == inverse_diagonal_of(backend, values@, col_indices@, row_ptr@, row as nat),
            forall|earlier: int|
                0 <= earlier < row ==> #[trigger] row_invertible(backend, values@, col_indices@, row_ptr@, earlier),
        decreases rows - row,
    {
        let start = row_ptr[row];
        let end = row_ptr[row + 1];
        if start > end || end > values.len() {
            return Err(InverseDiagonalError::RowOutOfBounds { row, start, end, stored: values.len() });
        }
        let diagonal = find_diagonal(backend, values, col_indices, start, end, row);
        if backend.equal(diagonal, backend.zero()) {
            proof {
                assert(span_within(row_ptr@, row as int, values@.len()));
                assert(diagonal_vanishes(backend, values@, col_indices@, row_ptr@, row as int));
            }
            return Err(InverseDiagonalError::ZeroDiagonal { row });
        }
        inverse.push(backend.div(backend.one(), diagonal));
        proof {
            assert(row_invertible(backend, values@, col_indices@, row_ptr@, row as int));
            assert(inverse@ =~= inverse_diagonal_of(backend, values@, col_indices@, row_ptr@, (row + 1) as nat));
        }
        row = row + 1;
    }
    Ok(inverse)
}

} // verus!
