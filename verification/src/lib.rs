//! Backend-neutral Krylov solver law.
//!
//! The crate owns convergence policy, operator and preconditioner contracts,
//! reusable Krylov workspaces, and solver recurrences. Storage and arithmetic
//! are supplied by a [`KrylovBackend`], so one recurrence serves host arrays
//! and device buffers alike without dynamic dispatch.

mod backend;
mod convergence;
mod error;
mod report;

pub use backend::KrylovBackend;
pub use convergence::{ConvergencePolicy, InvalidConvergencePolicy, residual_noise_floor};
pub use error::SolveError;
pub use report::{IterationObserver, IterationState, NoObserver, SolveReport, Termination};
mod operator;
mod solver;

pub use operator::{Identity, LinearOperator, Preconditioner, RectangularOperator};
pub use solver::bicgstab::{BiCgStab, BiCgStabWorkspace};
pub use solver::cg::{Cg, CgWorkspace};
pub use solver::gmres::{Gmres, GmresWorkspace};
pub use solver::lsqr::{Lsqr, LsqrWorkspace};
mod block;
mod host;
mod preconditioner;
mod sparse;
mod sparse_operator;

pub use block::{VectorBlockLayout, lemma_spans_disjoint, vector_span};
pub use host::{
    axpy_slice, combine_direction_slices, copy_slice, fused_cg_update_slices, residual_slice,
    scale_slice, validate_four_lengths, validate_lengths, validate_three_lengths,
};
pub use preconditioner::incomplete_lu::{
    IncompleteLu, ilu_entry, ilu_reduced, lemma_incomplete_lu_entries,
};
pub use preconditioner::jacobi::{InverseDiagonalError, Jacobi, inverse_diagonal_from_csr};
pub use preconditioner::successive_over_relaxation::{
    SuccessiveOverRelaxation, lemma_identity_rows_only_relax_missing_diagonals,
};
pub use preconditioner::triangular::{
    lemma_backward_sweep_solves_rows, lemma_forward_sweep_solves_rows,
    lemma_identity_row_passes_through, lower_system_row, upper_system_row,
};
pub use sparse::{CsrMatrix, LetoBackendError};
pub use sparse_operator::{BorrowedCsrOperator, CsrOperator, RectangularCsrOperator};
