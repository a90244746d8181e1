//! Preconditioned conjugate gradient.
use vstd::prelude::*;
use core::marker::PhantomData;
use crate::backend::{KrylovBackend, axpy_result, combined, difference, reduced, spec_vector_len};
use crate::convergence::ConvergencePolicy;
use crate::error::SolveError;
use crate::operator::{LinearOperator, Preconditioner};
use crate::report::{IterationObserver, IterationState, NoObserver, SolveReport, Termination};
use super::{Stage, carries_start, dimension_outcome, residual_norm_of, start_law, validate_dimension};

verus! {

/// Reusable preconditioned-CG vector workspace.
///
/// Construction performs all vector allocations and prepares the reductions
/// bound to those vectors, so the recurrence itself is allocation-free.
pub struct CgWorkspace<B: KrylovBackend> {
    residual: B::Vector,
    preconditioned_residual: B::Vector,
    direction: B::Vector,
    image: B::Vector,
    residual_norm: B::PreparedNorm,
    residual_preconditioned_dot: B::PreparedDot,
    direction_image_dot: B::PreparedDot,
    len: usize,
}

impl<B: KrylovBackend> CgWorkspace<B> {
    /// Vector length this workspace was allocated for.
    pub closed spec fn spec_len(&self) -> usize {
        self.len
    }

    /// Every workspace vector holds `spec_len()` entries.
    pub closed spec fn vectors_sized(&self) -> bool {
        &&& spec_vector_len::<B>(&self.residual) == self.len
        &&& spec_vector_len::<B>(&self.preconditioned_residual) == self.len
        &&& spec_vector_len::<B>(&self.direction) == self.len
        &&& spec_vector_len::<B>(&self.image) == self.len
    }

    /// Allocate a workspace for `len` unknowns.
    ///
    /// Returns the first backend allocation or reduction-preparation failure.
    pub fn new(backend: &B, len: usize) -> (workspace: Result<Self, B::Error>)
        ensures
            workspace matches Ok(w) ==> w.spec_len() == len && w.vectors_sized(),
    {
        let residual = backend.allocate(len)?;
        let preconditioned_residual = backend.allocate(len)?;
        let direction = backend.allocate(len)?;
        let image = backend.allocate(len)?;
        let residual_norm = backend.prepare_norm_l2(backend.view(&residual))?;
        let residual_preconditioned_dot = backend.prepare_dot(
            backend.view(&residual),
            backend.view(&preconditioned_residual),
        )?;
        let direction_image_dot = backend.prepare_dot(backend.view(&direction), backend.view(&image))?;
        Ok(CgWorkspace {
            residual,
            preconditioned_residual,
            direction,
            image,
            residual_norm,
            residual_preconditioned_dot,
            direction_image_dot,
            len,
        })
    }

    /// Workspace vector length.
    pub fn len(&self) -> (len: usize)
        ensures
            len == self.spec_len(),
    {
        self.len
    }

    /// Return whether this is a zero-length workspace.
    pub fn is_empty(&self) -> (empty: bool)
        ensures
            empty == (self.spec_len() == 0),
    {
        self.len == 0
    }
}

/// Zero-sized preconditioned conjugate-gradient algorithm marker.
#[derive(Debug)]
pub struct Cg<B>(PhantomData<B>);

impl<B> Clone for Cg<B> {
    fn clone(&self) -> Self {
        Cg(PhantomData)
    }
}

impl<B> Copy for Cg<B> {}

impl<B> Default for Cg<B> {
    fn default() -> Self {
        Cg(PhantomData)
    }
}

/// The first dimension the CG entry points reject, in the order they check.
pub open spec fn cg_dimension_check<B: KrylovBackend, E>(
    backend: &B,
    dimension: usize,
    right_hand_side: &B::Vector,
    solution: &B::Vector,
    workspace: &CgWorkspace<B>,
) -> Result<(), SolveError<E>> {
    if dimension_outcome::<E>("right-hand side", dimension, spec_vector_len::<B>(right_hand_side) as usize) is Err {
        dimension_outcome::<E>("right-hand side", dimension, spec_vector_len::<B>(right_hand_side) as usize)
    } else if dimension_outcome::<E>("solution", dimension, spec_vector_len::<B>(solution) as usize) is Err {
        dimension_outcome::<E>("solution", dimension, spec_vector_len::<B>(solution) as usize)
    } else {
        dimension_outcome::<E>("CG workspace", dimension, workspace.spec_len())
    }
}

/// `‖r‖` is finite and meets the threshold.
pub open spec fn residual_meets<B: KrylovBackend>(backend: &B, residual: B::Scalar, threshold: B::Scalar) -> bool {
    backend.spec_is_finite(residual) && backend.spec_less_equal(residual, threshold)
}

/// What every CG report states about its counters and its terminal
/// condition.
pub open spec fn cg_report_law<B: KrylovBackend>(
    backend: &B,
    policy: ConvergencePolicy<B::Scalar>,
    report: SolveReport<B::Scalar>,
) -> bool {
    let it = report.iterations;
    let op = report.operator_applications;
    let pc = report.preconditioner_applications;
    &&& it <= policy.spec_max_iterations()
    &&& ((op == it + 1 && (pc == it || pc == it + 1)) || (op == it + 2 && pc == it + 1))
    &&& (it == 0 ==> report.final_residual_norm == report.initial_residual_norm)
    &&& (report.termination == Termination::InitialResidual <==> residual_meets(
        backend,
        report.initial_residual_norm,
        report.threshold,
    ))
    &&& (report.termination == Termination::InitialResidual ==> it == 0 && op == 1 && pc == 0)
    &&& (report.termination == Termination::Converged ==> {
        &&& it >= 1
        &&& policy.spec_should_check(it)
        &&& residual_meets(backend, report.final_residual_norm, report.threshold)
        &&& op == it + 1
        &&& pc == it
    })
    &&& (report.termination == Termination::MaxIterations ==> {
        &&& it == policy.spec_max_iterations()
        &&& backend.spec_is_finite(report.final_residual_norm)
        &&& !backend.spec_less_equal(report.final_residual_norm, report.threshold)
    })
    &&& (report.termination == Termination::InitialResidual
        || report.termination == Termination::Converged
        || report.termination == Termination::MaxIterations
        || report.termination == Termination::Breakdown
        || report.termination == Termination::NonPositiveCurvature
        || report.termination == Termination::NonFinite)
    &&& exists|rhs_norm: B::Scalar| #[trigger] policy.spec_threshold(backend, rhs_norm) == report.threshold
}

/// Terminal condition CG assigns to a curvature or preconditioned-residual
/// inner product, or `None` when the recurrence may continue.
pub open spec fn spec_curvature_termination<B: KrylovBackend>(backend: &B, value: B::Scalar) -> Option<Termination> {
    if !backend.spec_is_finite(value) {
        Some(Termination::NonFinite)
    } else if backend.spec_less(value, backend.spec_zero()) {
        Some(Termination::NonPositiveCurvature)
    } else if backend.spec_equal(value, backend.spec_zero()) {
        Some(Termination::Breakdown)
    } else {
        None
    }
}

/// Classify a CG inner product: non-finite, negative (non-positive
/// curvature), zero (breakdown), or usable.
pub fn curvature_termination<B: KrylovBackend>(backend: &B, value: B::Scalar) -> (termination: Option<Termination>)
    ensures
        termination == spec_curvature_termination(backend, value),
{
    let zero = backend.zero();
    if !backend.is_finite(value) {
        Some(Termination::NonFinite)
    } else if backend.less(value, zero) {
        Some(Termination::NonPositiveCurvature)
    } else if backend.equal(value, zero) {
        Some(Termination::Breakdown)
    } else {
        None
    }
}

struct ResidualState<T> {
    initial_residual: T,
    threshold: T,
}

struct CgState<T> {
    initial_residual: T,
    last_residual: T,
    threshold: T,
    rho: T,
    operator_applications: usize,
    preconditioner_applications: usize,
}

impl<T: Copy> CgState<T> {
    fn report(&self, termination: Termination, iterations: usize) -> (report: SolveReport<T>)
        ensures
            report.termination == termination,
            report.iterations == iterations,
            report.operator_applications == self.operator_applications,
            report.preconditioner_applications == self.preconditioner_applications,
            report.initial_residual_norm == self.initial_residual,
            report.final_residual_norm == self.last_residual,
            report.threshold == self.threshold,
    {
        SolveReport::new(
            termination,
            iterations,
            self.operator_applications,
            self.preconditioner_applications,
            self.initial_residual,
            self.last_residual,
            self.threshold,
        )
    }
}

} // verus!

verus! {

/// `threshold` is the policy threshold of some right-hand-side norm.
pub open spec fn is_threshold_of_some_norm<B: KrylovBackend>(
    backend: &B,
    policy: ConvergencePolicy<B::Scalar>,
    threshold: B::Scalar,
) -> bool {
    exists|rhs_norm: B::Scalar| #[trigger] policy.spec_threshold(backend, rhs_norm) == threshold
}

/// What a CG entry point returns: the first dimension mismatch, untouched
/// buffers and all, or else a backend failure or a report obeying
/// [`cg_report_law`].
pub open spec fn cg_solve_outcome<B: KrylovBackend, O: LinearOperator<B>, P: Preconditioner<B>>(
    backend: &B,
    operator: &O,
    preconditioner: &P,
    policy: ConvergencePolicy<B::Scalar>,
    right_hand_side: &B::Vector,
    old_solution: B::Vector,
    final_solution: B::Vector,
    old_workspace: CgWorkspace<B>,
    final_workspace: CgWorkspace<B>,
    outcome: Result<SolveReport<B::Scalar>, SolveError<B::Error>>,
) -> bool {
    match cg_dimension_check::<B, B::Error>(
        backend,
        operator.spec_dimension() as usize,
        right_hand_side,
        &old_solution,
        &old_workspace,
    ) {
        Err(mismatch) => {
            &&& outcome == Err::<SolveReport<B::Scalar>, SolveError<B::Error>>(mismatch)
            &&& final_solution == old_solution
            &&& final_workspace == old_workspace
        },
        Ok(()) => {
            &&& final_workspace.spec_len() == old_workspace.spec_len()
            &&& match outcome {
                Ok(report) => {
                    &&& cg_report_law(backend, policy, report)
                    &&& start_law(backend, operator, policy, right_hand_side, old_solution, final_solution, report)
                    &&& B::spec_vector(&final_solution) == pcg_iterate(
                        backend,
                        operator,
                        preconditioner,
                        B::spec_vector(right_hand_side),
                        B::spec_vector(&old_solution),
                        report.iterations as nat,
                    ).0
                },
                Err(error) => error is Backend,
            }
        },
    }
}

/// Loop state of CG before iteration `iteration`: one operator and one
/// preconditioner application per completed step plus the initial ones.
spec fn cg_ready<B: KrylovBackend>(
    backend: &B,
    policy: ConvergencePolicy<B::Scalar>,
    state: CgState<B::Scalar>,
    iteration: usize,
) -> bool {
    &&& 1 <= iteration <= policy.spec_max_iterations()
    &&& policy.spec_max_iterations() < usize::MAX
    &&& state.operator_applications == iteration
    &&& state.preconditioner_applications == iteration
    &&& (iteration == 1 ==> state.last_residual == state.initial_residual)
    &&& !residual_meets(backend, state.initial_residual, state.threshold)
    &&& is_threshold_of_some_norm(backend, policy, state.threshold)
}

fn cg_validate_dimensions<B: KrylovBackend, O: LinearOperator<B>>(
    backend: &B,
    operator: &O,
    right_hand_side: &B::Vector,
    solution: &B::Vector,
    workspace: &CgWorkspace<B>,
) -> (outcome: Result<(), SolveError<B::Error>>)
    ensures
        outcome == cg_dimension_check::<B, B::Error>(
            backend,
            operator.spec_dimension() as usize,
            right_hand_side,
            solution,
            workspace,
        ),
{
    let dimension = operator.dimension();
    validate_dimension("right-hand side", dimension, backend.vector_len(right_hand_side))?;
    validate_dimension("solution", dimension, backend.vector_len(solution))?;
    validate_dimension("CG workspace", dimension, workspace.len())
}

fn cg_initialize_residual<B: KrylovBackend, O: LinearOperator<B>>(
    backend: &B,
    operator: &O,
    right_hand_side: &B::Vector,
    solution: &B::Vector,
    workspace: &mut CgWorkspace<B>,
    policy: ConvergencePolicy<B::Scalar>,
) -> (outcome: Result<Stage<ResidualState<B::Scalar>, B::Scalar>, SolveError<B::Error>>)
    ensures
        final(workspace).spec_len() == old(workspace).spec_len(),
        match outcome {
            Ok(Stage::Complete(report)) => {
                &&& cg_report_law(backend, policy, report)
                &&& report.iterations == 0
                &&& carries_start(
                    report,
                    residual_norm_of(backend, operator, B::spec_vector(right_hand_side), B::spec_vector(solution)),
                    policy.spec_threshold(backend, backend.spec_norm_l2(B::spec_vector(right_hand_side))),
                )
            },
            Ok(Stage::Continue(state)) => {
                &&& B::spec_vector(&final(workspace).residual) == difference(
                    backend,
                    B::spec_vector(right_hand_side),
                    operator.spec_apply(backend, B::spec_vector(solution)),
                )
                &&& !residual_meets(backend, state.initial_residual, state.threshold)
                &&& is_threshold_of_some_norm(backend, policy, state.threshold)
                &&& state.initial_residual == residual_norm_of(
                    backend,
                    operator,
                    B::spec_vector(right_hand_side),
                    B::spec_vector(solution),
                )
                &&& state.threshold == policy.spec_threshold(
                    backend,
                    backend.spec_norm_l2(B::spec_vector(right_hand_side)),
                )
            },
            Err(error) => error is Backend,
        },
{
    match backend.copy(backend.view(right_hand_side), backend.view_mut(&mut workspace.residual)) {
        Ok(()) => {},
        Err(error) => return Err(SolveError::Backend(error)),
    }
    let rhs_norm = match backend.norm_l2_prepared(
        &workspace.residual_norm,
        backend.view(&workspace.residual),
    ) {
        Ok(norm) => norm,
        Err(error) => return Err(SolveError::Backend(error)),
    };
    let threshold = policy.threshold(backend, rhs_norm);
    assert(policy.spec_threshold(backend, rhs_norm) == threshold);
    match operator.apply(backend, backend.view(solution), backend.view_mut(&mut workspace.image)) {
        Ok(()) => {},
        Err(error) => return Err(SolveError::Backend(error)),
    }
    match backend.residual(
        backend.view(right_hand_side),
        backend.view(&workspace.image),
        backend.view_mut(&mut workspace.residual),
    ) {
        Ok(()) => {},
        Err(error) => return Err(SolveError::Backend(error)),
    }
    let initial_residual = match backend.norm_l2_prepared(
        &workspace.residual_norm,
        backend.view(&workspace.residual),
    ) {
        Ok(norm) => norm,
        Err(error) => return Err(SolveError::Backend(error)),
    };
    let termination = if !backend.is_finite(initial_residual) {
        Some(Termination::NonFinite)
    } else if backend.less_equal(initial_residual, threshold) {
        Some(Termination::InitialResidual)
    } else {
        None
    };
    if let Some(termination) = termination {
        return Ok(
            Stage::Complete(
                SolveReport::new(termination, 0, 1, 0, initial_residual, initial_residual, threshold),
            ),
        );
    }
    Ok(Stage::Continue(ResidualState { initial_residual, threshold }))
}

/// The preconditioned conjugate-gradient recurrence as the backend, the
/// operator and the preconditioner compute it: iterate `k` is the solution,
/// the residual, the search direction and `ρ = ⟨r, M⁻¹r⟩` after `k` steps from
/// `x₀`. Step `k + 1` takes `α = ρ / ⟨p, A·p⟩`, `x ← x + α·p`,
/// `r ← r − α·A·p`, `z = M⁻¹r`, `ρ' = ⟨r, z⟩` and `p ← z + (ρ'/ρ)·p`.
pub open spec fn pcg_iterate<B: KrylovBackend, O: LinearOperator<B>, P: Preconditioner<B>>(
    backend: &B,
    operator: &O,
    preconditioner: &P,
    right_hand_side: Seq<B::Scalar>,
    initial_solution: Seq<B::Scalar>,
    steps: nat,
) -> (Seq<B::Scalar>, Seq<B::Scalar>, Seq<B::Scalar>, B::Scalar)
    decreases steps,
{
    if steps == 0 {
        let residual = difference(backend, right_hand_side, operator.spec_apply(backend, initial_solution));
        let preconditioned = preconditioner.spec_apply(backend, residual);
        (initial_solution, residual, preconditioned, backend.spec_dot(residual, preconditioned))
    } else {
        pcg_advance(
            backend,
            operator,
            preconditioner,
            pcg_iterate(backend, operator, preconditioner, right_hand_side, initial_solution, (steps - 1) as nat),
        )
    }
}

/// One step of the preconditioned conjugate-gradient recurrence.
pub open spec fn pcg_advance<B: KrylovBackend, O: LinearOperator<B>, P: Preconditioner<B>>(
    backend: &B,
    operator: &O,
    preconditioner: &P,
    iterate: (Seq<B::Scalar>, Seq<B::Scalar>, Seq<B::Scalar>, B::Scalar),
) -> (Seq<B::Scalar>, Seq<B::Scalar>, Seq<B::Scalar>, B::Scalar) {
    let (solution, residual, direction, rho) = iterate;
    let image = operator.spec_apply(backend, direction);
    let alpha = backend.spec_div(rho, backend.spec_dot(direction, image));
    let next_residual = reduced(backend, residual, image, alpha);
    let preconditioned = preconditioner.spec_apply(backend, next_residual);
    let next_rho = backend.spec_dot(next_residual, preconditioned);
    (
        axpy_result(backend, solution, direction, alpha),
        next_residual,
        combined(backend, preconditioned, direction, backend.spec_div(next_rho, rho)),
        next_rho,
    )
}

/// `⟨r, M⁻¹r⟩` of the residual `r` the solve starts from, as the backend and
/// the preconditioner compute it.
spec fn initial_curvature<B: KrylovBackend, P: Preconditioner<B>>(
    backend: &B,
    preconditioner: &P,
    residual: Seq<B::Scalar>,
) -> B::Scalar {
    backend.spec_dot(residual, preconditioner.spec_apply(backend, residual))
}

fn cg_initialize_direction<B: KrylovBackend, P: Preconditioner<B>>(
    backend: &B,
    preconditioner: &P,
    workspace: &mut CgWorkspace<B>,
    policy: ConvergencePolicy<B::Scalar>,
    residual: ResidualState<B::Scalar>,
) -> (outcome: Result<Stage<CgState<B::Scalar>, B::Scalar>, SolveError<B::Error>>)
    requires
        0 < policy.spec_max_iterations() < usize::MAX,
        !residual_meets(backend, residual.initial_residual, residual.threshold),
        is_threshold_of_some_norm(backend, policy, residual.threshold),
    ensures
        final(workspace).spec_len() == old(workspace).spec_len(),
        match outcome {
            Ok(Stage::Complete(report)) => {
                &&& cg_report_law(backend, policy, report)
                &&& report.iterations == 0
                &&& carries_start(report, residual.initial_residual, residual.threshold)
                &&& spec_curvature_termination(
                    backend,
                    initial_curvature(backend, preconditioner, B::spec_vector(&old(workspace).residual)),
                ) == Some(report.termination)
            },
            Ok(Stage::Continue(state)) => {
                &&& cg_ready(backend, policy, state, 1)
                &&& state.initial_residual == residual.initial_residual
                &&& state.threshold == residual.threshold
                &&& state.rho == initial_curvature(backend, preconditioner, B::spec_vector(&old(workspace).residual))
                &&& spec_curvature_termination(backend, state.rho) is None
                &&& B::spec_vector(&final(workspace).preconditioned_residual) == preconditioner.spec_apply(
                    backend,
                    B::spec_vector(&old(workspace).residual),
                )
                &&& B::spec_vector(&final(workspace).direction) == B::spec_vector(
                    &final(workspace).preconditioned_residual,
                )
                &&& final(workspace).residual == old(workspace).residual
            },
            Err(error) => error is Backend,
        },
{
    match preconditioner.apply(
        backend,
        backend.view(&workspace.residual),
        backend.view_mut(&mut workspace.preconditioned_residual),
    ) {
        Ok(()) => {},
        Err(error) => return Err(SolveError::Backend(error)),
    }
    match backend.copy(
        backend.view(&workspace.preconditioned_residual),
        backend.view_mut(&mut workspace.direction),
    ) {
        Ok(()) => {},
        Err(error) => return Err(SolveError::Backend(error)),
    }
    let rho = match backend.dot_prepared(
        &workspace.residual_preconditioned_dot,
        backend.view(&workspace.residual),
        backend.view(&workspace.preconditioned_residual),
    ) {
        Ok(value) => value,
        Err(error) => return Err(SolveError::Backend(error)),
    };
    if let Some(termination) = curvature_termination(backend, rho) {
        return Ok(
            Stage::Complete(
                SolveReport::new(
                    termination,
                    0,
                    1,
                    1,
                    residual.initial_residual,
                    residual.initial_residual,
                    residual.threshold,
                ),
            ),
        );
    }
    Ok(
        Stage::Continue(
            CgState {
                initial_residual: residual.initial_residual,
                last_residual: residual.initial_residual,
                threshold: residual.threshold,
                rho,
                operator_applications: 1,
                preconditioner_applications: 1,
            },
        ),
    )
}

} // verus!

verus! {

fn cg_check_residual<B: KrylovBackend, Obs: IterationObserver<B::Scalar>>(
    backend: &B,
    workspace: &CgWorkspace<B>,
    policy: ConvergencePolicy<B::Scalar>,
    observer: &mut Obs,
    iteration: usize,
    state: &mut CgState<B::Scalar>,
) -> (outcome: Result<Option<SolveReport<B::Scalar>>, SolveError<B::Error>>)
    requires
        1 <= iteration <= old(state).operator_applications - 1,
        old(state).operator_applications == iteration + 1,
        old(state).preconditioner_applications == iteration,
        iteration <= policy.spec_max_iterations(),
        !residual_meets(backend, old(state).initial_residual, old(state).threshold),
        is_threshold_of_some_norm(backend, policy, old(state).threshold),
    ensures
        final(state).operator_applications == old(state).operator_applications,
        final(state).preconditioner_applications == old(state).preconditioner_applications,
        final(state).initial_residual == old(state).initial_residual,
        final(state).threshold == old(state).threshold,
        final(state).rho == old(state).rho,
        !policy.spec_should_check(iteration) ==> final(state).last_residual == old(state).last_residual,
        match outcome {
            Ok(Some(report)) => {
                &&& cg_report_law(backend, policy, report)
                &&& report.iterations == iteration
                &&& carries_start(report, old(state).initial_residual, old(state).threshold)
                &&& report.final_residual_norm == backend.spec_norm_l2(B::spec_vector(&workspace.residual))
            },
            Ok(None) => iteration < policy.spec_max_iterations(),
            Err(error) => error is Backend,
        },
{
    if !policy.should_check(iteration) {
        return Ok(None);
    }
    state.last_residual = match backend.norm_l2_prepared(
        &workspace.residual_norm,
        backend.view(&workspace.residual),
    ) {
        Ok(norm) => norm,
        Err(error) => return Err(SolveError::Backend(error)),
    };
    observer.observe(IterationState::new(iteration, state.last_residual, state.threshold));
    let termination = if !backend.is_finite(state.last_residual) {
        Some(Termination::NonFinite)
    } else if backend.less_equal(state.last_residual, state.threshold) {
        Some(Termination::Converged)
    } else if iteration == policy.max_iterations() {
        Some(Termination::MaxIterations)
    } else {
        None
    };
    match termination {
        Some(reason) => Ok(Some(state.report(reason, iteration))),
        None => Ok(None),
    }
}

fn cg_prepare_direction<B: KrylovBackend, P: Preconditioner<B>>(
    backend: &B,
    preconditioner: &P,
    workspace: &mut CgWorkspace<B>,
    policy: ConvergencePolicy<B::Scalar>,
    iteration: usize,
    state: &mut CgState<B::Scalar>,
) -> (outcome: Result<Option<SolveReport<B::Scalar>>, SolveError<B::Error>>)
    requires
        1 <= iteration < policy.spec_max_iterations(),
        policy.spec_max_iterations() < usize::MAX,
        old(state).operator_applications == iteration + 1,
        old(state).preconditioner_applications == iteration,
        !residual_meets(backend, old(state).initial_residual, old(state).threshold),
        is_threshold_of_some_norm(backend, policy, old(state).threshold),
    ensures
        final(workspace).spec_len() == old(workspace).spec_len(),
        final(state).operator_applications == old(state).operator_applications,
        outcome is Ok ==> final(state).preconditioner_applications == iteration + 1,
        final(state).initial_residual == old(state).initial_residual,
        final(state).last_residual == old(state).last_residual,
        final(state).threshold == old(state).threshold,
        match outcome {
            Ok(Some(report)) => {
                &&& cg_report_law(backend, policy, report)
                &&& report.iterations == iteration
                &&& carries_start(report, old(state).initial_residual, old(state).threshold)
                &&& report.termination != Termination::Converged
            },
            Ok(None) => {
                let preconditioned = preconditioner.spec_apply(backend, B::spec_vector(&old(workspace).residual));
                let next_rho = backend.spec_dot(B::spec_vector(&old(workspace).residual), preconditioned);
                &&& final(state).rho == next_rho
                &&& B::spec_vector(&final(workspace).direction) == combined(
                    backend,
                    preconditioned,
                    B::spec_vector(&old(workspace).direction),
                    backend.spec_div(next_rho, old(state).rho),
                )
            },
            Err(error) => error is Backend,
        },
        final(workspace).residual == old(workspace).residual,
{
    match preconditioner.apply(
        backend,
        backend.view(&workspace.residual),
        backend.view_mut(&mut workspace.preconditioned_residual),
    ) {
        Ok(()) => {},
        Err(error) => return Err(SolveError::Backend(error)),
    }
    state.preconditioner_applications = state.preconditioner_applications + 1;
    let next_rho = match backend.dot_prepared(
        &workspace.residual_preconditioned_dot,
        backend.view(&workspace.residual),
        backend.view(&workspace.preconditioned_residual),
    ) {
        Ok(value) => value,
        Err(error) => return Err(SolveError::Backend(error)),
    };
    if let Some(termination) = curvature_termination(backend, next_rho) {
        return Ok(Some(state.report(termination, iteration)));
    }
    let beta = backend.div(next_rho, state.rho);
    match backend.combine_direction(
        backend.view_mut(&mut workspace.direction),
        backend.view(&workspace.preconditioned_residual),
        beta,
    ) {
        Ok(()) => {},
        Err(error) => return Err(SolveError::Backend(error)),
    }
    state.rho = next_rho;
    Ok(None)
}

#[allow(clippy::too_many_arguments)]
fn cg_step<B: KrylovBackend, O: LinearOperator<B>, P: Preconditioner<B>, Obs: IterationObserver<
    B::Scalar,
>>(
    backend: &B,
    operator: &O,
    preconditioner: &P,
    solution: &mut B::Vector,
    workspace: &mut CgWorkspace<B>,
    policy: ConvergencePolicy<B::Scalar>,
    observer: &mut Obs,
    iteration: usize,
    state: &mut CgState<B::Scalar>,
) -> (outcome: Result<Option<SolveReport<B::Scalar>>, SolveError<B::Error>>)
    requires
        cg_ready(backend, policy, *old(state), iteration),
    ensures
        final(workspace).spec_len() == old(workspace).spec_len(),
        final(state).initial_residual == old(state).initial_residual,
        final(state).threshold == old(state).threshold,
        ({
            let direction = B::spec_vector(&old(workspace).direction);
            let image = operator.spec_apply(backend, direction);
            let curvature = backend.spec_dot(direction, image);
            let alpha = backend.spec_div(old(state).rho, curvature);
            let advanced = axpy_result(backend, B::spec_vector(old(solution)), direction, alpha);
            match outcome {
                Ok(Some(report)) => {
                    &&& cg_report_law(backend, policy, report)
                    &&& carries_start(report, old(state).initial_residual, old(state).threshold)
                    &&& report.iterations == iteration - 1 || report.iterations == iteration
                    &&& report.iterations == iteration - 1 ==> *final(solution) == *old(solution)
                        && spec_curvature_termination(backend, curvature) == Some(report.termination)
                    &&& report.iterations == iteration ==> B::spec_vector(final(solution)) == advanced
                    &&& report.termination == Termination::Converged ==> report.final_residual_norm
                        == backend.spec_norm_l2(
                        reduced(backend, B::spec_vector(&old(workspace).residual), image, alpha),
                    )
                },
                Ok(None) => {
                    &&& cg_ready(backend, policy, *final(state), (iteration + 1) as usize)
                    &&& (B::spec_vector(final(solution)), B::spec_vector(&final(workspace).residual), B::spec_vector(
                        &final(workspace).direction,
                    ), final(state).rho) == pcg_advance(
                        backend,
                        operator,
                        preconditioner,
                        (
                            B::spec_vector(old(solution)),
                            B::spec_vector(&old(workspace).residual),
                            B::spec_vector(&old(workspace).direction),
                            old(state).rho,
                        ),
                    )
                },
                Err(error) => error is Backend,
            }
        }),
{
    match operator.apply(
        backend,
        backend.view(&workspace.direction),
        backend.view_mut(&mut workspace.image),
    ) {
        Ok(()) => {},
        Err(error) => return Err(SolveError::Backend(error)),
    }
    state.operator_applications = state.operator_applications + 1;
    let denominator = match backend.dot_prepared(
        &workspace.direction_image_dot,
        backend.view(&workspace.direction),
        backend.view(&workspace.image),
    ) {
        Ok(value) => value,
        Err(error) => return Err(SolveError::Backend(error)),
    };
    if let Some(termination) = curvature_termination(backend, denominator) {
        return Ok(Some(state.report(termination, iteration - 1)));
    }
    let alpha = backend.div(state.rho, denominator);
    match backend.fused_cg_update(
        backend.view_mut(solution),
        backend.view(&workspace.direction),
        backend.view_mut(&mut workspace.residual),
        backend.view(&workspace.image),
        alpha,
    ) {
        Ok(()) => {},
        Err(error) => return Err(SolveError::Backend(error)),
    }
    match cg_check_residual(backend, workspace, policy, observer, iteration, state) {
        Ok(Some(report)) => return Ok(Some(report)),
        Ok(None) => {},
        Err(error) => return Err(error),
    }
    cg_prepare_direction(backend, preconditioner, workspace, policy, iteration, state)
}

#[allow(clippy::too_many_arguments)]
fn cg_iterate<B: KrylovBackend, O: LinearOperator<B>, P: Preconditioner<B>, Obs: IterationObserver<
    B::Scalar,
>>(
    backend: &B,
    operator: &O,
    preconditioner: &P,
    solution: &mut B::Vector,
    workspace: &mut CgWorkspace<B>,
    policy: ConvergencePolicy<B::Scalar>,
    observer: &mut Obs,
    entering: CgState<B::Scalar>,
    right_hand_side: Ghost<Seq<B::Scalar>>,
) -> (outcome: Result<SolveReport<B::Scalar>, SolveError<B::Error>>)
    requires
        cg_ready(backend, policy, entering, 1),
        (B::spec_vector(old(solution)), B::spec_vector(&old(workspace).residual), B::spec_vector(
            &old(workspace).direction,
        ), entering.rho) == pcg_iterate(
            backend,
            operator,
            preconditioner,
            right_hand_side@,
            B::spec_vector(old(solution)),
            0,
        ),
    ensures
        final(workspace).spec_len() == old(workspace).spec_len(),
        match outcome {
            Ok(report) => {
                &&& cg_report_law(backend, policy, report)
                &&& carries_start(report, entering.initial_residual, entering.threshold)
                &&& report.iterations == 0 ==> *final(solution) == *old(solution)
                &&& B::spec_vector(final(solution)) == pcg_iterate(
                    backend,
                    operator,
                    preconditioner,
                    right_hand_side@,
                    B::spec_vector(old(solution)),
                    report.iterations as nat,
                ).0
            },
            Err(error) => error is Backend,
        },
{
    let mut state = entering;
    let mut iteration: usize = 1;
    loop
        invariant
            cg_ready(backend, policy, state, iteration),
            workspace.spec_len() == old(workspace).spec_len(),
            state.initial_residual == entering.initial_residual,
            state.threshold == entering.threshold,
            iteration == 1 ==> *solution == *old(solution),
            (B::spec_vector(solution), B::spec_vector(&workspace.residual), B::spec_vector(&workspace.direction), state.rho)
                == pcg_iterate(
                backend,
                operator,
                preconditioner,
                right_hand_side@,
                B::spec_vector(old(solution)),
                (iteration - 1) as nat,
            ),
        decreases policy.spec_max_iterations() - iteration,
    {
        match cg_step(
            backend,
            operator,
            preconditioner,
            solution,
            workspace,
            policy,
            observer,
            iteration,
            &mut state,
        ) {
            Ok(Some(report)) => return Ok(report),
            Ok(None) => {},
            Err(error) => return Err(error),
        }
        iteration = iteration + 1;
    }
}

impl<B: KrylovBackend> Cg<B> {
    /// Solve `A x = b` into caller-owned `solution`.
    ///
    /// Returns a dimension or backend failure. Numerical termination such as
    /// non-positive curvature is returned value-semantically in
    /// [`SolveReport`].
    pub fn solve_into<O: LinearOperator<B>, P: Preconditioner<B>>(
        backend: &B,
        operator: &O,
        preconditioner: &P,
        right_hand_side: &B::Vector,
        solution: &mut B::Vector,
        workspace: &mut CgWorkspace<B>,
        policy: ConvergencePolicy<B::Scalar>,
    ) -> (outcome: Result<SolveReport<B::Scalar>, SolveError<B::Error>>)
        requires
            policy.spec_max_iterations() < usize::MAX,
        ensures
            cg_solve_outcome(
                backend,
                operator,
                preconditioner,
                policy,
                right_hand_side,
                *old(solution),
                *final(solution),
                *old(workspace),
                *final(workspace),
                outcome,
            ),
    {
        let mut observer = NoObserver;
        Self::solve_with_observer(
            backend,
            operator,
            preconditioner,
            right_hand_side,
            solution,
            workspace,
            policy,
            &mut observer,
        )
    }

    /// Solve while reporting configured residual checks to `observer`.
    ///
    /// Returns a dimension or backend failure.
    #[allow(clippy::too_many_arguments)]
    pub fn solve_with_observer<O: LinearOperator<B>, P: Preconditioner<B>, Obs: IterationObserver<
        B::Scalar,
    >>(
        backend: &B,
        operator: &O,
        preconditioner: &P,
        right_hand_side: &B::Vector,
        solution: &mut B::Vector,
        workspace: &mut CgWorkspace<B>,
        policy: ConvergencePolicy<B::Scalar>,
        observer: &mut Obs,
    ) -> (outcome: Result<SolveReport<B::Scalar>, SolveError<B::Error>>)
        requires
            policy.spec_max_iterations() < usize::MAX,
        ensures
            cg_solve_outcome(
                backend,
                operator,
                preconditioner,
                policy,
                right_hand_side,
                *old(solution),
                *final(solution),
                *old(workspace),
                *final(workspace),
                outcome,
            ),
    {
        cg_validate_dimensions(backend, operator, right_hand_side, solution, workspace)?;
        let _budget = policy.max_iterations();
        let residual = match cg_initialize_residual(
            backend,
            operator,
            right_hand_side,
            solution,
            workspace,
            policy,
        )? {
            Stage::Continue(residual) => residual,
            Stage::Complete(report) => return Ok(report),
        };
        let state = match cg_initialize_direction(backend, preconditioner, workspace, policy, residual)? {
            Stage::Continue(state) => state,
            Stage::Complete(report) => return Ok(report),
        };
        cg_iterate(
            backend,
            operator,
            preconditioner,
            solution,
            workspace,
            policy,
            observer,
            state,
            Ghost(B::spec_vector(right_hand_side)),
        )
    }
}

} // verus!
