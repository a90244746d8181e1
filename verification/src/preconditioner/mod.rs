//! Host-side preconditioners over canonical CSR structure.
pub mod incomplete_lu;
pub mod jacobi;
pub mod successive_over_relaxation;
pub mod triangular;
