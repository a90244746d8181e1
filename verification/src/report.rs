//! Allocation-free iteration and solve reports.
use vstd::prelude::*;

verus! {

/// Scalar iteration telemetry.
#[non_exhaustive]
#[derive(Clone, Copy, Debug, PartialEq)]
pub struct IterationState<T> {
    /// One-based iteration number.
    pub iteration: usize,
    /// Current Euclidean residual norm.
    pub residual_norm: T,
    /// Effective convergence threshold.
    pub threshold: T,
}

impl<T> IterationState<T> {
    /// Construct one checked residual sample.
    pub fn new(iteration: usize, residual_norm: T, threshold: T) -> (state: Self)
        ensures
            state.iteration == iteration,
            state.residual_norm == residual_norm,
            state.threshold == threshold,
    {
        IterationState { iteration, residual_norm, threshold }
    }
}

/// Observer for allocation-free residual telemetry.
///
/// Applications choose whether to store, stream, or discard samples; the
/// library never allocates a residual-history vector implicitly.
///
/// An observer may opt in to a record of what it saw: when `spec_records`
/// holds, each `observe` appends its sample to `spec_observed`, and the
/// solvers state which samples a solve appends. An observer that does not
/// opt in is promised nothing and promises nothing.
pub trait IterationObserver<T> {
    /// Whether this observer keeps the record `spec_observed`.
    open spec fn spec_records(&self) -> bool {
        false
    }

    /// The samples observed so far, in order, for an observer that records.
    open spec fn spec_observed(&self) -> Seq<IterationState<T>> {
        arbitrary::<spec_fn(&Self) -> Seq<IterationState<T>>>()(self)
    }

    /// Observe one configured residual check.
    fn observe(&mut self, state: IterationState<T>)
        ensures
            old(self).spec_records() ==> final(self).spec_records() && final(self).spec_observed() == old(
                self,
            ).spec_observed().push(state),
    ;
}

/// `after` is `before` with `sample` appended when `observed` holds, and
/// unchanged otherwise, for an observer that records.
pub open spec fn observation_appended<T, Obs: IterationObserver<T>>(
    before: Obs,
    after: Obs,
    observed: bool,
    sample: IterationState<T>,
) -> bool {
    before.spec_records() ==> after.spec_records() && after.spec_observed() == (if observed {
        before.spec_observed().push(sample)
    } else {
        before.spec_observed()
    })
}

/// Zero-sized observer that discards telemetry.
#[derive(Clone, Copy, Debug, Default, PartialEq, Eq)]
pub struct NoObserver;

impl<T> IterationObserver<T> for NoObserver {
    fn observe(&mut self, state: IterationState<T>) {
    }
}

/// Terminal solver condition.
#[non_exhaustive]
#[derive(Clone, Copy, Debug, PartialEq, Eq, Structural)]
pub enum Termination {
    /// The initial guess already met the convergence policy.
    InitialResidual,
    /// An iterative residual met the convergence policy.
    Converged,
    /// The configured iteration budget was exhausted.
    MaxIterations,
    /// A Krylov denominator was numerically zero.
    Breakdown,
    /// CG encountered non-positive curvature, violating its SPD contract.
    NonPositiveCurvature,
    /// A scalar residual or recurrence coefficient became non-finite.
    NonFinite,
    /// The normal-equation residual met the tolerance. An inconsistent
    /// least-squares system keeps a residual bounded away from zero, so this
    /// is the only criterion that can report its optimum.
    NormalEquations,
    /// A restart cycle stopped reducing the residual by more than the
    /// accuracy of the residual's own evaluation.
    Stagnated,
    /// The residual exceeded its initial value by more than the accuracy of
    /// the residual's own evaluation.
    Diverged,
}

/// Whether a terminal condition represents convergence.
pub open spec fn termination_converged(termination: Termination) -> bool {
    ||| termination == Termination::InitialResidual
    ||| termination == Termination::Converged
    ||| termination == Termination::NormalEquations
}

impl Termination {
    /// Return whether this condition represents convergence.
    pub fn converged(self) -> (converged: bool)
        ensures
            converged == termination_converged(self),
    {
        match self {
            Termination::InitialResidual | Termination::Converged | Termination::NormalEquations => true,
            _ => false,
        }
    }
}

/// Allocation-free solver outcome.
///
/// A solve that exhausted its budget, stagnated, or broke down still returns
/// this report rather than an error: which terminal condition was reached is
/// domain information the caller branches on, not a contract failure of the
/// call.
#[must_use]
#[non_exhaustive]
#[derive(Clone, Copy, Debug, PartialEq)]
pub struct SolveReport<T> {
    /// Terminal condition.
    pub termination: Termination,
    /// Completed Krylov iterations.
    pub iterations: usize,
    /// Operator applications.
    pub operator_applications: usize,
    /// Preconditioner applications.
    pub preconditioner_applications: usize,
    /// Initial Euclidean residual norm.
    pub initial_residual_norm: T,
    /// Final checked Euclidean residual norm.
    pub final_residual_norm: T,
    /// Effective convergence threshold.
    pub threshold: T,
}

impl<T> SolveReport<T> {
    /// Assemble a report from its fields.
    pub(crate) fn new(
        termination: Termination,
        iterations: usize,
        operator_applications: usize,
        preconditioner_applications: usize,
        initial_residual_norm: T,
        final_residual_norm: T,
        threshold: T,
    ) -> (report: Self)
        ensures
            report.termination == termination,
            report.iterations == iterations,
            report.operator_applications == operator_applications,
            report.preconditioner_applications == preconditioner_applications,
            report.initial_residual_norm == initial_residual_norm,
            report.final_residual_norm == final_residual_norm,
            report.threshold == threshold,
    {
        SolveReport {
            termination,
            iterations,
            operator_applications,
            preconditioner_applications,
            initial_residual_norm,
            final_residual_norm,
            threshold,
        }
    }

    /// Return whether the solve converged.
    pub fn converged(&self) -> (converged: bool)
        ensures
            converged == termination_converged(self.termination),
    {
        self.termination.converged()
    }
}

} // verus!
