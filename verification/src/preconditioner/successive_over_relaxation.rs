//! Successive over-relaxation preconditioner.
use vstd::prelude::*;
use crate::backend::KrylovBackend;
use crate::sparse::{CsrMatrix, LetoBackendError};
use crate::host::copy_slice;
use super::triangular::{
    DiagonalIndex, diagonal_entry, forward_solved, forward_substitute, lemma_forward_sweep_solves_rows,
    lemma_sweep_row, lower_system_row, missing_diagonal, scaled_pivot_vanishes, sweep_structure,
};

verus! {

/// `relaxation` lies in the open interval `(0, 2)` and is finite.
pub open spec fn relaxation_admissible<B: KrylovBackend>(backend: &B, relaxation: B::Scalar) -> bool {
    &&& backend.spec_is_finite(relaxation)
    &&& !backend.spec_less_equal(relaxation, backend.spec_zero())
    &&& !backend.spec_less_equal(backend.spec_add(backend.spec_one(), backend.spec_one()), relaxation)
}

/// Row `row` stores a diagonal entry, and it is zero.
pub open spec fn stored_pivot_vanishes<B: KrylovBackend>(
    backend: &B,
    values: Seq<B::Scalar>,
    col_indices: Seq<usize>,
    row_ptr: Seq<usize>,
    row: int,
) -> bool {
    &&& diagonal_entry(col_indices, row_ptr, row) >= 0
    &&& backend.spec_equal(values[diagonal_entry(col_indices, row_ptr, row)], backend.spec_zero())
}

/// Successive over-relaxation preconditioner.
///
/// Applies the inverse of the lower-triangular splitting factor
/// `D/omega + L`, which reduces to Gauss-Seidel at `omega = 1`. The apply is a
/// single forward sweep over the stored lower triangle, so it costs one pass
/// over the nonzeros and allocates nothing.
///
/// The factor is not symmetric, so this preconditioner suits GMRES and
/// `BiCGSTAB` rather than CG, whose contract requires a symmetric positive
/// definite preconditioner.
#[derive(Debug)]
pub struct SuccessiveOverRelaxation<T> {
    values: Vec<T>,
    col_indices: Vec<usize>,
    row_ptr: Vec<usize>,
    diagonal: DiagonalIndex,
    inverse_relaxation: T,
    dimension: usize,
}

impl<T> SuccessiveOverRelaxation<T> {
    /// The stored splitting spans a canonical square pattern with its
    /// diagonals located.
    #[verifier::type_invariant]
    pub(crate) open spec fn indexed(self) -> bool {
        sweep_structure(
            self.spec_values().len(),
            self.spec_col_indices(),
            self.spec_row_ptr(),
            self.spec_diagonal(),
            self.spec_dimension() as nat,
        )
    }

    /// Stored matrix values.
    pub closed spec fn spec_values(&self) -> Seq<T> {
        self.values@
    }

    /// Column index of each stored value.
    pub closed spec fn spec_col_indices(&self) -> Seq<usize> {
        self.col_indices@
    }

    /// Row offsets of the stored values.
    pub closed spec fn spec_row_ptr(&self) -> Seq<usize> {
        self.row_ptr@
    }

    /// Diagonal position of each row.
    pub closed spec fn spec_diagonal(&self) -> DiagonalIndex {
        self.diagonal
    }

    /// `1 / relaxation`, the scale of every stored pivot.
    pub closed spec fn spec_inverse_relaxation(&self) -> T {
        self.inverse_relaxation
    }

    /// Dimension of the preconditioned system.
    pub closed spec fn spec_dimension(&self) -> usize {
        self.dimension
    }

    /// Dimension of the preconditioned system.
    pub fn dimension(&self) -> (dimension: usize)
        ensures
            dimension == self.spec_dimension(),
    {
        self.dimension
    }
}

/// The outcome of building a splitting from `matrix` and `relaxation`, where
/// `identity_rows` lets rows without a stored diagonal stand as identity rows.
pub open spec fn sor_build_outcome<B: KrylovBackend>(
    backend: &B,
    matrix: CsrMatrix<B::Scalar>,
    relaxation: B::Scalar,
    identity_rows: bool,
    outcome: Result<SuccessiveOverRelaxation<B::Scalar>, LetoBackendError>,
) -> bool {
    let rows = matrix.spec_rows();
    let square = matrix.spec_rows() == matrix.spec_columns();
    let col_indices = matrix.spec_col_indices();
    let row_ptr = matrix.spec_row_ptr();
    let diagonals_present = identity_rows || forall|row: int|
        0 <= row < rows ==> !missing_diagonal(col_indices, row_ptr, row);
    let pivots_nonzero = forall|row: int|
        0 <= row < rows ==> !stored_pivot_vanishes(backend, matrix.spec_values(), col_indices, row_ptr, row);
    &&& !relaxation_admissible(backend, relaxation) ==> outcome == Err::<
        SuccessiveOverRelaxation<B::Scalar>,
        LetoBackendError,
    >(LetoBackendError::InvalidRelaxation)
    &&& relaxation_admissible(backend, relaxation) && !square ==> outcome == Err::<
        SuccessiveOverRelaxation<B::Scalar>,
        LetoBackendError,
    >(LetoBackendError::NonSquareOperator { rows: matrix.spec_rows(), columns: matrix.spec_columns() })
    &&& outcome matches Err(LetoBackendError::InvalidRelaxation) ==> !relaxation_admissible(backend, relaxation)
    &&& outcome matches Err(LetoBackendError::NonSquareOperator { .. }) ==> relaxation_admissible(
        backend,
        relaxation,
    ) && !square
    &&& outcome matches Err(LetoBackendError::MissingDiagonal { row }) ==> {
        &&& !identity_rows
        &&& relaxation_admissible(backend, relaxation)
        &&& square
        &&& row < rows
        &&& missing_diagonal(col_indices, row_ptr, row as int)
        &&& forall|earlier: int| 0 <= earlier < row ==> !missing_diagonal(col_indices, row_ptr, earlier)
    }
    &&& relaxation_admissible(backend, relaxation) && square && !diagonals_present ==> (outcome matches Err(
        LetoBackendError::MissingDiagonal { .. },
    ))
    &&& outcome matches Err(LetoBackendError::SingularDiagonal { index }) ==> {
        &&& relaxation_admissible(backend, relaxation)
        &&& square
        &&& diagonals_present
        &&& index < rows
        &&& stored_pivot_vanishes(backend, matrix.spec_values(), col_indices, row_ptr, index as int)
        &&& forall|earlier: int|
            0 <= earlier < index ==> !stored_pivot_vanishes(
                backend,
                matrix.spec_values(),
                col_indices,
                row_ptr,
                earlier,
            )
    }
    &&& outcome matches Err(error) ==> (error is InvalidRelaxation || error is NonSquareOperator
        || error is MissingDiagonal || error is SingularDiagonal)
    &&& relaxation_admissible(backend, relaxation) && square && diagonals_present ==> (outcome is Ok
        <==> pivots_nonzero)
    &&& outcome matches Ok(splitting) ==> {
        &&& splitting.spec_values() == matrix.spec_values()
        &&& splitting.spec_col_indices() == col_indices
        &&& splitting.spec_row_ptr() == row_ptr
        &&& splitting.spec_dimension() == rows
        &&& splitting.spec_inverse_relaxation() == backend.spec_div(backend.spec_one(), relaxation)
        &&& splitting.spec_diagonal().indexes(col_indices, row_ptr, rows as nat)
    }
}

impl<T: Copy> SuccessiveOverRelaxation<T> {
    /// Build from a square CSR matrix and a relaxation factor.
    ///
    /// Returns [`LetoBackendError::InvalidRelaxation`] unless `relaxation`
    /// lies in the open interval `(0, 2)`, the classical convergence range for
    /// the underlying splitting. Indexing the diagonal additionally returns
    /// [`LetoBackendError::NonSquareOperator`] for a rectangular matrix and
    /// [`LetoBackendError::MissingDiagonal`] when a row stores no diagonal
    /// entry; a zero stored diagonal is [`LetoBackendError::SingularDiagonal`].
    pub fn from_csr<B: KrylovBackend<Scalar = T>>(backend: &B, matrix: &CsrMatrix<T>, relaxation: T) -> (built:
        Result<Self, LetoBackendError>)
        ensures
            sor_build_outcome(backend, *matrix, relaxation, false, built),
    {
        Self::build(backend, matrix, relaxation, false)
    }

    /// Build while treating a row with no stored diagonal as an identity row.
    ///
    /// A sparsity pattern may omit the diagonal of a row that carries no
    /// self-coupling — an inactive degree of freedom, or a constraint row
    /// eliminated during assembly. [`Self::from_csr`] rejects those, because a
    /// splitting factor with a structurally absent pivot is undefined. This
    /// constructor instead gives such a row an implied unit pivot, leaving it
    /// unchanged by the sweep.
    ///
    /// The distinction is deliberate rather than defaulted: a caller that does
    /// not know its assembly omits diagonals should hear about it.
    ///
    /// Errors as [`Self::from_csr`], minus the missing-diagonal case.
    pub fn from_csr_with_identity_rows<B: KrylovBackend<Scalar = T>>(
        backend: &B,
        matrix: &CsrMatrix<T>,
        relaxation: T,
    ) -> (built: Result<Self, LetoBackendError>)
        ensures
            sor_build_outcome(backend, *matrix, relaxation, true, built),
    {
        Self::build(backend, matrix, relaxation, true)
    }

    fn build<B: KrylovBackend<Scalar = T>>(
        backend: &B,
        matrix: &CsrMatrix<T>,
        relaxation: T,
        identity_rows: bool,
    ) -> (built: Result<Self, LetoBackendError>)
        ensures
            sor_build_outcome(backend, *matrix, relaxation, identity_rows, built),
    {
        proof {
            use_type_invariant(matrix);
        }
        let zero = backend.zero();
        let two = backend.add(backend.one(), backend.one());
        if !backend.is_finite(relaxation) || backend.less_equal(relaxation, zero) || backend.less_equal(
            two,
            relaxation,
        ) {
            return Err(LetoBackendError::InvalidRelaxation);
        }
        let diagonal = if identity_rows {
            DiagonalIndex::new_optional(matrix)?
        } else {
            DiagonalIndex::new(matrix)?
        };
        let (dimension, _) = matrix.shape();
        let values = matrix.values();
        let ghost col_indices = matrix.spec_col_indices();
        let ghost row_ptr = matrix.spec_row_ptr();
        proof {
            reveal(sweep_structure);
        }
        let mut row: usize = 0;
        while row < dimension
            invariant
                sweep_structure(values@.len(), col_indices, row_ptr, diagonal, dimension as nat),
                values@ == matrix.spec_values(),
                col_indices == matrix.spec_col_indices(),
                row_ptr == matrix.spec_row_ptr(),
                dimension == matrix.spec_rows(),
                matrix.spec_rows() == matrix.spec_columns(),
                zero == backend.spec_zero(),
                relaxation_admissible(backend, relaxation),
                identity_rows || forall|any: int|
                    0 <= any < dimension ==> !missing_diagonal(col_indices, row_ptr, any),
                row <= dimension,
                forall|earlier: int|
                    0 <= earlier < row ==> !stored_pivot_vanishes(backend, values@, col_indices, row_ptr, earlier),
            decreases dimension - row,
        {
            proof {
                lemma_sweep_row(values@.len(), col_indices, row_ptr, diagonal, dimension as nat, row as int);
            }
            if let Some(position) = diagonal.position(row) {
                if backend.equal(values[position], zero) {
                    proof {
                        assert(stored_pivot_vanishes(backend, values@, col_indices, row_ptr, row as int));
                    }
                    return Err(LetoBackendError::SingularDiagonal { index: row });
                }
            }
            assert(!stored_pivot_vanishes(backend, values@, col_indices, row_ptr, row as int));
            row = row + 1;
        }
        Ok(
            SuccessiveOverRelaxation {
                values: vstd::slice::slice_to_vec(values),
                col_indices: vstd::slice::slice_to_vec(matrix.col_indices()),
                row_ptr: vstd::slice::slice_to_vec(matrix.row_ptr()),
                diagonal,
                inverse_relaxation: backend.div(backend.one(), relaxation),
                dimension,
            },
        )
    }

    /// Apply the splitting factor's inverse to `residual` into `output`: copy,
    /// then one forward sweep over the stored lower triangle with each stored
    /// pivot scaled by `1 / relaxation`.
    ///
    /// Returns [`LetoBackendError::LengthMismatch`] when `residual` and
    /// `output` disagree in length, or when they disagree with the
    /// preconditioner's dimension, and [`LetoBackendError::SingularDiagonal`]
    /// for the first row whose scaled pivot is zero.
    pub fn apply<B: KrylovBackend<Scalar = T>>(&self, backend: &B, residual: &[T], output: &mut [T]) -> (outcome:
        Result<(), LetoBackendError>)
        ensures
            final(output)@.len() == old(output)@.len(),
            residual@.len() != old(output)@.len() ==> outcome == Err::<(), LetoBackendError>(
                LetoBackendError::LengthMismatch {
                    left: residual@.len() as usize,
                    right: old(output)@.len() as usize,
                },
            ),
            residual@.len() == old(output)@.len() && residual@.len() != self.spec_dimension() ==> outcome
                == Err::<(), LetoBackendError>(
                LetoBackendError::LengthMismatch {
                    left: residual@.len() as usize,
                    right: self.spec_dimension(),
                },
            ),
            residual@.len() == old(output)@.len() && residual@.len() == self.spec_dimension() ==> match outcome {
                Ok(()) => {
                    &&& forward_solved(
                        backend,
                        self.spec_values(),
                        self.spec_col_indices(),
                        self.spec_row_ptr(),
                        self.spec_diagonal(),
                        residual@,
                        final(output)@,
                        residual@.len() as int,
                        false,
                        self.spec_inverse_relaxation(),
                    )
                    &&& forall|row: int|
                        0 <= row < residual@.len() ==> #[trigger] final(output)@[row] == lower_system_row(
                            backend,
                            self.spec_values(),
                            self.spec_col_indices(),
                            self.spec_row_ptr(),
                            self.spec_diagonal().spec_positions()[row],
                            residual@[row],
                            final(output)@,
                            row,
                            false,
                            self.spec_inverse_relaxation(),
                        )
                    &&& forall|row: int|
                        0 <= row < residual@.len() ==> !scaled_pivot_vanishes(
                            backend,
                            self.spec_values(),
                            #[trigger] self.spec_diagonal().spec_positions()[row],
                            self.spec_inverse_relaxation(),
                        )
                },
                Err(error) => match error {
                    LetoBackendError::SingularDiagonal { index } => {
                        &&& index < residual@.len()
                        &&& scaled_pivot_vanishes(
                            backend,
                            self.spec_values(),
                            self.spec_diagonal().spec_positions()[index as int],
                            self.spec_inverse_relaxation(),
                        )
                        &&& forall|earlier: int|
                            0 <= earlier < index ==> !scaled_pivot_vanishes(
                                backend,
                                self.spec_values(),
                                #[trigger] self.spec_diagonal().spec_positions()[earlier],
                                self.spec_inverse_relaxation(),
                            )
                    },
                    _ => false,
                },
            },
    {
        proof {
            use_type_invariant(self);
        }
        if residual.len() != output.len() {
            return Err(LetoBackendError::LengthMismatch { left: residual.len(), right: output.len() });
        }
        if residual.len() != self.dimension {
            return Err(LetoBackendError::LengthMismatch { left: residual.len(), right: self.dimension });
        }
        copy_slice(residual, output)?;
        let outcome = forward_substitute(
            backend,
            self.values.as_slice(),
            self.col_indices.as_slice(),
            self.row_ptr.as_slice(),
            &self.diagonal,
            output,
            false,
            self.inverse_relaxation,
        );
        proof {
            if outcome is Ok {
                lemma_forward_sweep_solves_rows(
                    backend,
                    self.values@,
                    self.col_indices@,
                    self.row_ptr@,
                    self.diagonal,
                    self.dimension as nat,
                    residual@,
                    output@,
                    false,
                    self.inverse_relaxation,
                );
            }
        }
        outcome
    }
}

/// Identity rows relax only the missing-diagonal case: on a matrix whose
/// every row stores its diagonal, building with and without identity rows
/// succeeds together and fails with the same error.
pub proof fn lemma_identity_rows_only_relax_missing_diagonals<B: KrylovBackend>(
    backend: &B,
    matrix: CsrMatrix<B::Scalar>,
    relaxation: B::Scalar,
    strict: Result<SuccessiveOverRelaxation<B::Scalar>, LetoBackendError>,
    lenient: Result<SuccessiveOverRelaxation<B::Scalar>, LetoBackendError>,
)
    requires
        sor_build_outcome(backend, matrix, relaxation, false, strict),
        sor_build_outcome(backend, matrix, relaxation, true, lenient),
        forall|row: int|
            0 <= row < matrix.spec_rows() ==> !missing_diagonal(
                matrix.spec_col_indices(),
                matrix.spec_row_ptr(),
                row,
            ),
    ensures
        strict is Ok <==> lenient is Ok,
        strict is Err ==> strict == lenient,
{
    match (strict, lenient) {
        (
            Err(LetoBackendError::SingularDiagonal { index }),
            Err(LetoBackendError::SingularDiagonal { index: other }),
        ) => {
            if index < other {
                assert(!stored_pivot_vanishes(
                    backend,
                    matrix.spec_values(),
                    matrix.spec_col_indices(),
                    matrix.spec_row_ptr(),
                    index as int,
                ));
            } else if other < index {
                assert(!stored_pivot_vanishes(
                    backend,
                    matrix.spec_values(),
                    matrix.spec_col_indices(),
                    matrix.spec_row_ptr(),
                    other as int,
                ));
            }
        },
        _ => {},
    }
}

} // verus!
