//! Iterative solver implementations.
use vstd::prelude::*;
use crate::backend::{KrylovBackend, difference};
use crate::convergence::ConvergencePolicy;
use crate::error::SolveError;
use crate::operator::LinearOperator;
use crate::report::{SolveReport, Termination};

pub mod bicgstab;
pub mod cg;
pub mod gmres;
pub mod lsqr;

verus! {

/// The dimension check every solver performs before touching a vector.
pub open spec fn dimension_outcome<E>(context: &'static str, expected: usize, actual: usize) -> Result<
    (),
    SolveError<E>,
> {
    if expected == actual {
        Ok(())
    } else {
        Err(SolveError::DimensionMismatch { context, expected, actual })
    }
}

/// Compare one supplied length against the system dimension.
pub(crate) fn validate_dimension<E>(context: &'static str, expected: usize, actual: usize) -> (outcome:
    Result<(), SolveError<E>>)
    ensures
        outcome == dimension_outcome::<E>(context, expected, actual),
{
    if expected == actual {
        Ok(())
    } else {
        Err(SolveError::DimensionMismatch { context, expected, actual })
    }
}

/// `‖b − A·x‖₂` as the backend computes it, `A·x` as the operator writes it.
pub open spec fn residual_norm_of<B: KrylovBackend, O: LinearOperator<B>>(
    backend: &B,
    operator: &O,
    right_hand_side: Seq<B::Scalar>,
    solution: Seq<B::Scalar>,
) -> B::Scalar {
    backend.spec_norm_l2(difference(backend, right_hand_side, operator.spec_apply(backend, solution)))
}

/// What a report of a square solve states of where the solve started: the
/// threshold is the policy's for `‖b‖₂`, the initial residual is
/// `‖b − A·x₀‖₂` of the caller's `x₀`, and a solve that ends before its first
/// update leaves `x₀` in place.
pub open spec fn start_law<B: KrylovBackend, O: LinearOperator<B>>(
    backend: &B,
    operator: &O,
    policy: ConvergencePolicy<B::Scalar>,
    right_hand_side: &B::Vector,
    old_solution: B::Vector,
    final_solution: B::Vector,
    report: SolveReport<B::Scalar>,
) -> bool {
    &&& report.threshold == policy.spec_threshold(backend, backend.spec_norm_l2(B::spec_vector(right_hand_side)))
    &&& report.initial_residual_norm == residual_norm_of(
        backend,
        operator,
        B::spec_vector(right_hand_side),
        B::spec_vector(&old_solution),
    )
    &&& report.iterations == 0 ==> final_solution == old_solution
}

/// Convergence is declared on the recomputed residual of the solution the
/// solve returns: the reported final residual is `‖b − A·x‖₂` of that `x`.
pub open spec fn converged_on_true_residual<B: KrylovBackend, O: LinearOperator<B>>(
    backend: &B,
    operator: &O,
    right_hand_side: &B::Vector,
    final_solution: B::Vector,
    report: SolveReport<B::Scalar>,
) -> bool {
    report.termination == Termination::Converged ==> report.final_residual_norm == residual_norm_of(
        backend,
        operator,
        B::spec_vector(right_hand_side),
        B::spec_vector(&final_solution),
    )
}

/// `report` carries the initial residual and threshold of the solve's state.
pub open spec fn carries_start<T>(report: SolveReport<T>, initial_residual: T, threshold: T) -> bool {
    report.initial_residual_norm == initial_residual && report.threshold == threshold
}

/// Outcome of a pre-iteration phase: running state or a finished report.
pub(crate) enum Stage<S, T> {
    Continue(S),
    Complete(SolveReport<T>),
}

} // verus!
