//! Solver error vocabulary.
use vstd::prelude::*;

verus! {

/// Failure to execute a solve.
#[non_exhaustive]
#[derive(Debug, PartialEq)]
pub enum SolveError<E> {
    /// A vector or operator dimension did not match the system dimension.
    DimensionMismatch {
        /// Operation whose dimension contract failed.
        context: &'static str,
        /// Required length.
        expected: usize,
        /// Supplied length.
        actual: usize,
    },
    /// A backend allocation or arithmetic operation failed.
    Backend(E),
}

} // verus!
