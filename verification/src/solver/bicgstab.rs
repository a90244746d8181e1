//! Right-preconditioned BiCGSTAB: algorithm marker and reusable workspace.
use vstd::prelude::*;
use core::marker::PhantomData;
use crate::backend::{KrylovBackend, axpy_result, combined, difference, spec_vector_len};
use crate::convergence::ConvergencePolicy;
use crate::error::SolveError;
use crate::operator::{LinearOperator, Preconditioner};
use crate::report::{IterationObserver, IterationState, NoObserver, SolveReport, Termination};
use super::cg::{is_threshold_of_some_norm, residual_meets};
use super::{
    Stage, carries_start, converged_on_true_residual, dimension_outcome, residual_norm_of, start_law,
    validate_dimension,
};

verus! {

/// Reusable right-preconditioned `BiCGSTAB` vector workspace.
///
/// Construction performs all vector allocations and prepares the reductions
/// bound to those vectors, so the recurrence itself is allocation-free and
/// accelerator backends reuse dispatch resources across solves.
///
/// The recurrence carries seven vectors rather than the eight of the textbook
/// statement: the intermediate `s = r - alpha v` is formed in place in
/// `residual`, which then becomes `r = s - omega t` by a second update.
pub struct BiCgStabWorkspace<B: KrylovBackend> {
    /// Recursive residual `r`, and the intermediate `s` within a step.
    residual: B::Vector,
    /// Fixed shadow residual `r̂₀`.
    shadow: B::Vector,
    /// Search direction `p`.
    direction: B::Vector,
    /// Preconditioned direction `M⁻¹p`.
    preconditioned_direction: B::Vector,
    /// Preconditioned intermediate `M⁻¹s`.
    preconditioned_residual: B::Vector,
    /// Operator image `v = A·M⁻¹p`.
    image: B::Vector,
    /// Operator image `t = A·M⁻¹s`.
    stabilizer: B::Vector,
    residual_norm: B::PreparedNorm,
    shadow_residual_dot: B::PreparedDot,
    shadow_image_dot: B::PreparedDot,
    stabilizer_residual_dot: B::PreparedDot,
    stabilizer_norm_dot: B::PreparedDot,
    len: usize,
}

impl<B: KrylovBackend> BiCgStabWorkspace<B> {
    /// Vector length this workspace was allocated for.
    pub closed spec fn spec_len(&self) -> usize {
        self.len
    }

    /// Every workspace vector holds `spec_len()` entries.
    pub closed spec fn vectors_sized(&self) -> bool {
        &&& spec_vector_len::<B>(&self.residual) == self.len
        &&& spec_vector_len::<B>(&self.shadow) == self.len
        &&& spec_vector_len::<B>(&self.direction) == self.len
        &&& spec_vector_len::<B>(&self.preconditioned_direction) == self.len
        &&& spec_vector_len::<B>(&self.preconditioned_residual) == self.len
        &&& spec_vector_len::<B>(&self.image) == self.len
        &&& spec_vector_len::<B>(&self.stabilizer) == self.len
    }

    /// Allocate a workspace for `len` unknowns.
    ///
    /// Returns the first backend allocation or reduction-preparation failure.
    pub fn new(backend: &B, len: usize) -> (workspace: Result<Self, B::Error>)
        ensures
            workspace matches Ok(w) ==> w.spec_len() == len && w.vectors_sized(),
    {
        let residual = backend.allocate(len)?;
        let shadow = backend.allocate(len)?;
        let direction = backend.allocate(len)?;
        let preconditioned_direction = backend.allocate(len)?;
        let preconditioned_residual = backend.allocate(len)?;
        let image = backend.allocate(len)?;
        let stabilizer = backend.allocate(len)?;
        let residual_norm = backend.prepare_norm_l2(backend.view(&residual))?;
        let shadow_residual_dot = backend.prepare_dot(backend.view(&shadow), backend.view(&residual))?;
        let shadow_image_dot = backend.prepare_dot(backend.view(&shadow), backend.view(&image))?;
        let stabilizer_residual_dot = backend.prepare_dot(
            backend.view(&stabilizer),
            backend.view(&residual),
        )?;
        let stabilizer_norm_dot = backend.prepare_dot(backend.view(&stabilizer), backend.view(&stabilizer))?;
        Ok(BiCgStabWorkspace {
            residual,
            shadow,
            direction,
            preconditioned_direction,
            preconditioned_residual,
            image,
            stabilizer,
            residual_norm,
            shadow_residual_dot,
            shadow_image_dot,
            stabilizer_residual_dot,
            stabilizer_norm_dot,
            len,
        })
    }

    /// Workspace vector length.
    pub fn len(&self) -> (len: usize)
        ensures
            len == self.spec_len(),
    {
        self.len
    }

    /// Return whether this is a zero-length workspace.
    pub fn is_empty(&self) -> (empty: bool)
        ensures
            empty == (self.spec_len() == 0),
    {
        self.len == 0
    }
}

/// Zero-sized right-preconditioned `BiCGSTAB` algorithm marker.
///
/// Solves general nonsymmetric systems without the restart parameter and
/// `O(n·m)` basis storage GMRES requires, at the cost of a non-monotone
/// residual and two operator applications per iteration.
///
/// The preconditioner enters on the right, `A·M⁻¹y = b` with `x = M⁻¹y`, so
/// the recurrence residual is the residual of the entering system and the
/// convergence policy applies to it directly.
///
/// Reference: van der Vorst (1992), *Bi-CGSTAB: a fast and smoothly
/// converging variant of Bi-CG for the solution of nonsymmetric linear
/// systems*, SIAM J. Sci. Stat. Comput. 13(2), 631–644.
#[derive(Debug)]
pub struct BiCgStab<B>(PhantomData<B>);

impl<B> Clone for BiCgStab<B> {
    fn clone(&self) -> Self {
        BiCgStab(PhantomData)
    }
}

impl<B> Copy for BiCgStab<B> {}

impl<B> Default for BiCgStab<B> {
    fn default() -> Self {
        BiCgStab(PhantomData)
    }
}

/// The first dimension the BiCGSTAB entry points reject, in the order they
/// check.
pub open spec fn bicgstab_dimension_check<B: KrylovBackend, E>(
    dimension: usize,
    right_hand_side: &B::Vector,
    solution: &B::Vector,
    workspace: &BiCgStabWorkspace<B>,
) -> Result<(), SolveError<E>> {
    if dimension_outcome::<E>("right-hand side", dimension, spec_vector_len::<B>(right_hand_side) as usize) is Err {
        dimension_outcome::<E>("right-hand side", dimension, spec_vector_len::<B>(right_hand_side) as usize)
    } else if dimension_outcome::<E>("solution", dimension, spec_vector_len::<B>(solution) as usize) is Err {
        dimension_outcome::<E>("solution", dimension, spec_vector_len::<B>(solution) as usize)
    } else {
        dimension_outcome::<E>("BiCGSTAB workspace", dimension, workspace.spec_len())
    }
}

/// The budget under which BiCGSTAB's application counters cannot overflow:
/// each iteration applies the operator at most four times.
pub open spec fn bicgstab_budget_admissible<T>(policy: ConvergencePolicy<T>) -> bool {
    policy.spec_max_iterations() <= (usize::MAX - 2) / 4
}

/// What every BiCGSTAB report states about its counters and its terminal
/// condition. Convergence is only ever declared on a recomputed true
/// residual, which is the norm the report carries.
pub open spec fn bicgstab_report_law<B: KrylovBackend>(
    backend: &B,
    policy: ConvergencePolicy<B::Scalar>,
    report: SolveReport<B::Scalar>,
) -> bool {
    let it = report.iterations;
    let op = report.operator_applications;
    let pc = report.preconditioner_applications;
    &&& it <= policy.spec_max_iterations()
    &&& 1 <= op <= 4 * it + 2
    &&& pc <= 2 * it + 1
    &&& (pc == 0 ==> op == 1 && it == 0 && report.final_residual_norm == report.initial_residual_norm)
    &&& (report.termination == Termination::InitialResidual <==> residual_meets(
        backend,
        report.initial_residual_norm,
        report.threshold,
    ))
    &&& (report.termination == Termination::InitialResidual ==> it == 0 && op == 1 && pc == 0)
    &&& (report.termination == Termination::Converged ==> {
        &&& it >= 1
        &&& residual_meets(backend, report.final_residual_norm, report.threshold)
    })
    &&& (report.termination == Termination::MaxIterations ==> {
        &&& it == policy.spec_max_iterations()
        &&& backend.spec_is_finite(report.final_residual_norm)
        &&& !backend.spec_less_equal(report.final_residual_norm, report.threshold)
    })
    &&& (report.termination == Termination::InitialResidual
        || report.termination == Termination::Converged
        || report.termination == Termination::MaxIterations
        || report.termination == Termination::Breakdown
        || report.termination == Termination::NonFinite)
    &&& is_threshold_of_some_norm(backend, policy, report.threshold)
}

/// What a BiCGSTAB entry point returns: the first dimension mismatch,
/// untouched buffers and all, or else a backend failure or a report obeying
/// [`bicgstab_report_law`].
pub open spec fn bicgstab_solve_outcome<B: KrylovBackend, O: LinearOperator<B>, P: Preconditioner<B>>(
    backend: &B,
    operator: &O,
    preconditioner: &P,
    policy: ConvergencePolicy<B::Scalar>,
    right_hand_side: &B::Vector,
    old_solution: B::Vector,
    final_solution: B::Vector,
    old_workspace: BiCgStabWorkspace<B>,
    final_workspace: BiCgStabWorkspace<B>,
    outcome: Result<SolveReport<B::Scalar>, SolveError<B::Error>>,
) -> bool {
    match bicgstab_dimension_check::<B, B::Error>(
        operator.spec_dimension() as usize,
        right_hand_side,
        &old_solution,
        &old_workspace,
    ) {
        Err(mismatch) => {
            &&& outcome == Err::<SolveReport<B::Scalar>, SolveError<B::Error>>(mismatch)
            &&& final_solution == old_solution
            &&& final_workspace == old_workspace
        },
        Ok(()) => {
            &&& final_workspace.spec_len() == old_workspace.spec_len()
            &&& match outcome {
                Ok(report) => {
                    &&& bicgstab_report_law(backend, policy, report)
                    &&& start_law(backend, operator, policy, right_hand_side, old_solution, final_solution, report)
                    &&& converged_on_true_residual(backend, operator, right_hand_side, final_solution, report)
                    &&& bicgstab_reaches(
                        backend,
                        operator,
                        preconditioner,
                        policy,
                        report.threshold,
                        B::spec_vector(right_hand_side),
                        B::spec_vector(&old_solution),
                        report.iterations as nat,
                        B::spec_vector(&final_solution),
                    )
                },
                Err(error) => error is Backend,
            }
        },
    }
}

/// Scalar state carried from one BiCGSTAB iteration to the next.
struct BiCgStabState<T> {
    initial_residual: T,
    last_residual: T,
    threshold: T,
    /// `⟨r̂, r⟩` of the previous iteration.
    rho: T,
    alpha: T,
    omega: T,
    operator_applications: usize,
    preconditioner_applications: usize,
}

impl<T: Copy> BiCgStabState<T> {
    fn report(&self, termination: Termination, iterations: usize) -> (report: SolveReport<T>)
        ensures
            report.termination == termination,
            report.iterations == iterations,
            report.operator_applications == self.operator_applications,
            report.preconditioner_applications == self.preconditioner_applications,
            report.initial_residual_norm == self.initial_residual,
            report.final_residual_norm == self.last_residual,
            report.threshold == self.threshold,
    {
        SolveReport::new(
            termination,
            iterations,
            self.operator_applications,
            self.preconditioner_applications,
            self.initial_residual,
            self.last_residual,
            self.threshold,
        )
    }
}

/// Loop state before iteration `iteration`: counters within the per-iteration
/// budget, and an initial residual that did not already converge.
spec fn bicgstab_ready<B: KrylovBackend>(
    backend: &B,
    policy: ConvergencePolicy<B::Scalar>,
    state: BiCgStabState<B::Scalar>,
    iteration: usize,
) -> bool {
    &&& 1 <= iteration <= policy.spec_max_iterations()
    &&& bicgstab_budget_admissible(policy)
    &&& 1 <= state.operator_applications <= 4 * (iteration - 1) + 1
    &&& state.preconditioner_applications <= 2 * (iteration - 1)
    &&& (state.preconditioner_applications == 0 ==> state.operator_applications == 1 && iteration == 1)
    &&& (iteration == 1 ==> state.last_residual == state.initial_residual)
    &&& !residual_meets(backend, state.initial_residual, state.threshold)
    &&& is_threshold_of_some_norm(backend, policy, state.threshold)
}

fn bicgstab_validate_dimensions<B: KrylovBackend, O: LinearOperator<B>>(
    backend: &B,
    operator: &O,
    right_hand_side: &B::Vector,
    solution: &B::Vector,
    workspace: &BiCgStabWorkspace<B>,
) -> (outcome: Result<(), SolveError<B::Error>>)
    ensures
        outcome == bicgstab_dimension_check::<B, B::Error>(
            operator.spec_dimension() as usize,
            right_hand_side,
            solution,
            workspace,
        ),
{
    let dimension = operator.dimension();
    validate_dimension("right-hand side", dimension, backend.vector_len(right_hand_side))?;
    validate_dimension("solution", dimension, backend.vector_len(solution))?;
    validate_dimension("BiCGSTAB workspace", dimension, workspace.len())
}

/// The search direction, its preconditioned image `M⁻¹p`, the operator image
/// `v = A·M⁻¹p`, `ρ = ⟨r̂, r⟩` and `α = ρ / ⟨r̂, v⟩` of iteration `iteration`
/// from residual `r`: the first iteration takes `p = r`, later ones
/// `p ← r + β·(p − ω·v)` with `β = (ρ/ρ_prev)·(α/ω)`.
pub open spec fn bicgstab_direction_of<B: KrylovBackend, O: LinearOperator<B>, P: Preconditioner<B>>(
    backend: &B,
    operator: &O,
    preconditioner: &P,
    shadow: Seq<B::Scalar>,
    iteration: int,
    residual: Seq<B::Scalar>,
    direction: Seq<B::Scalar>,
    image: Seq<B::Scalar>,
    scalars: (B::Scalar, B::Scalar, B::Scalar),
) -> (Seq<B::Scalar>, Seq<B::Scalar>, Seq<B::Scalar>, B::Scalar, B::Scalar) {
    let (previous_rho, alpha, omega) = scalars;
    let rho = backend.spec_dot(shadow, residual);
    let next_direction = if iteration == 1 {
        residual
    } else {
        combined(
            backend,
            residual,
            axpy_result(backend, direction, image, backend.spec_neg(omega)),
            backend.spec_mul(backend.spec_div(rho, previous_rho), backend.spec_div(alpha, omega)),
        )
    };
    let preconditioned = preconditioner.spec_apply(backend, next_direction);
    let next_image = operator.spec_apply(backend, preconditioned);
    (next_direction, preconditioned, next_image, rho, backend.spec_div(rho, backend.spec_dot(shadow, next_image)))
}

/// The BiCGSTAB recurrence as the backend, the operator and the
/// preconditioner compute it: iterate `k` is `((x, r), (p, v), (ρ, α, ω))`
/// after `k` iterations from `x₀`, with shadow residual `r̂ = b − A·x₀`.
/// Each iteration is [`bicgstab_advance`].
pub open spec fn bicgstab_recurrence<B: KrylovBackend, O: LinearOperator<B>, P: Preconditioner<B>>(
    backend: &B,
    operator: &O,
    preconditioner: &P,
    policy: ConvergencePolicy<B::Scalar>,
    threshold: B::Scalar,
    right_hand_side: Seq<B::Scalar>,
    initial_solution: Seq<B::Scalar>,
    steps: nat,
) -> ((Seq<B::Scalar>, Seq<B::Scalar>), (Seq<B::Scalar>, Seq<B::Scalar>), (B::Scalar, B::Scalar, B::Scalar))
    decreases steps,
{
    if steps == 0 {
        let residual = difference(backend, right_hand_side, operator.spec_apply(backend, initial_solution));
        ((initial_solution, residual), (residual, residual), (backend.spec_one(), backend.spec_one(), backend.spec_one()))
    } else {
        bicgstab_advance(
            backend,
            operator,
            preconditioner,
            policy,
            threshold,
            right_hand_side,
            difference(backend, right_hand_side, operator.spec_apply(backend, initial_solution)),
            steps as int,
            bicgstab_recurrence(
                backend,
                operator,
                preconditioner,
                policy,
                threshold,
                right_hand_side,
                initial_solution,
                (steps - 1) as nat,
            ),
        )
    }
}

/// The half step of iteration `iteration` from iterate `iterate`:
/// `x ← x + α·M⁻¹p` and `s = r − α·v`, the residual replaced by the
/// recomputed `b − A·x` when `‖s‖` meets the threshold.
pub open spec fn bicgstab_half_of<B: KrylovBackend, O: LinearOperator<B>, P: Preconditioner<B>>(
    backend: &B,
    operator: &O,
    preconditioner: &P,
    threshold: B::Scalar,
    right_hand_side: Seq<B::Scalar>,
    shadow: Seq<B::Scalar>,
    iteration: int,
    iterate: ((Seq<B::Scalar>, Seq<B::Scalar>), (Seq<B::Scalar>, Seq<B::Scalar>), (B::Scalar, B::Scalar, B::Scalar)),
) -> (Seq<B::Scalar>, Seq<B::Scalar>) {
    let ((solution, residual), (direction, image), scalars) = iterate;
    let (_, preconditioned, next_image, _, alpha) = bicgstab_direction_of(
        backend,
        operator,
        preconditioner,
        shadow,
        iteration,
        residual,
        direction,
        image,
        scalars,
    );
    let next_solution = axpy_result(backend, solution, preconditioned, alpha);
    let intermediate = axpy_result(backend, residual, next_image, backend.spec_neg(alpha));
    (
        next_solution,
        if backend.spec_less_equal(backend.spec_norm_l2(intermediate), threshold) {
            difference(backend, right_hand_side, operator.spec_apply(backend, next_solution))
        } else {
            intermediate
        },
    )
}

/// Iteration `iteration` of the recurrence: the half step, then the
/// stabilizing half `x ← x + ω·M⁻¹s`, `r ← s − ω·A·M⁻¹s` with
/// `ω = ⟨t, s⟩ / ⟨t, t⟩`, then, at a configured check whose residual meets the
/// threshold, the residual replaced by the recomputed `b − A·x`.
pub open spec fn bicgstab_advance<B: KrylovBackend, O: LinearOperator<B>, P: Preconditioner<B>>(
    backend: &B,
    operator: &O,
    preconditioner: &P,
    policy: ConvergencePolicy<B::Scalar>,
    threshold: B::Scalar,
    right_hand_side: Seq<B::Scalar>,
    shadow: Seq<B::Scalar>,
    iteration: int,
    iterate: ((Seq<B::Scalar>, Seq<B::Scalar>), (Seq<B::Scalar>, Seq<B::Scalar>), (B::Scalar, B::Scalar, B::Scalar)),
) -> ((Seq<B::Scalar>, Seq<B::Scalar>), (Seq<B::Scalar>, Seq<B::Scalar>), (B::Scalar, B::Scalar, B::Scalar)) {
    let ((solution, residual), (direction, image), scalars) = iterate;
    let (next_direction, _, next_image, rho, alpha) = bicgstab_direction_of(
        backend,
        operator,
        preconditioner,
        shadow,
        iteration,
        residual,
        direction,
        image,
        scalars,
    );
    let (half_solution, half_residual) = bicgstab_half_of(
        backend,
        operator,
        preconditioner,
        threshold,
        right_hand_side,
        shadow,
        iteration,
        iterate,
    );
    let preconditioned = preconditioner.spec_apply(backend, half_residual);
    let stabilizer = operator.spec_apply(backend, preconditioned);
    let omega = backend.spec_div(
        backend.spec_dot(stabilizer, half_residual),
        backend.spec_dot(stabilizer, stabilizer),
    );
    let next_solution = axpy_result(backend, half_solution, preconditioned, omega);
    let stabilized = axpy_result(backend, half_residual, stabilizer, backend.spec_neg(omega));
    let next_residual = if policy.spec_should_check(iteration as usize) && backend.spec_less_equal(
        backend.spec_norm_l2(stabilized),
        threshold,
    ) {
        difference(backend, right_hand_side, operator.spec_apply(backend, next_solution))
    } else {
        stabilized
    };
    ((next_solution, next_residual), (next_direction, next_image), (rho, alpha, omega))
}

/// The recurrence's view of a running solve: its iterate, residual, search
/// vectors and scalars.
spec fn bicgstab_current<B: KrylovBackend>(
    solution: B::Vector,
    workspace: BiCgStabWorkspace<B>,
    state: BiCgStabState<B::Scalar>,
) -> ((Seq<B::Scalar>, Seq<B::Scalar>), (Seq<B::Scalar>, Seq<B::Scalar>), (B::Scalar, B::Scalar, B::Scalar)) {
    (
        (B::spec_vector(&solution), B::spec_vector(&workspace.residual)),
        (B::spec_vector(&workspace.direction), B::spec_vector(&workspace.image)),
        (state.rho, state.alpha, state.omega),
    )
}

/// `solution` is an iterate the recurrence reaches in `iterations` counted
/// iterations: the full iterate, or the half step of the last iteration.
pub open spec fn bicgstab_reaches<B: KrylovBackend, O: LinearOperator<B>, P: Preconditioner<B>>(
    backend: &B,
    operator: &O,
    preconditioner: &P,
    policy: ConvergencePolicy<B::Scalar>,
    threshold: B::Scalar,
    right_hand_side: Seq<B::Scalar>,
    initial_solution: Seq<B::Scalar>,
    iterations: nat,
    solution: Seq<B::Scalar>,
) -> bool {
    ||| solution == bicgstab_recurrence(
        backend,
        operator,
        preconditioner,
        policy,
        threshold,
        right_hand_side,
        initial_solution,
        iterations,
    ).0.0
    ||| iterations >= 1 && solution == bicgstab_half_of(
        backend,
        operator,
        preconditioner,
        threshold,
        right_hand_side,
        difference(backend, right_hand_side, operator.spec_apply(backend, initial_solution)),
        iterations as int,
        bicgstab_recurrence(
            backend,
            operator,
            preconditioner,
            policy,
            threshold,
            right_hand_side,
            initial_solution,
            (iterations - 1) as nat,
        ),
    ).0
}

/// The first iteration reads only the iterate and the residual of the state
/// it starts from, not its search vectors or scalars.
proof fn lemma_first_iteration_reads_residual<B: KrylovBackend, O: LinearOperator<B>, P: Preconditioner<B>>(
    backend: &B,
    operator: &O,
    preconditioner: &P,
    policy: ConvergencePolicy<B::Scalar>,
    threshold: B::Scalar,
    right_hand_side: Seq<B::Scalar>,
    shadow: Seq<B::Scalar>,
    first: ((Seq<B::Scalar>, Seq<B::Scalar>), (Seq<B::Scalar>, Seq<B::Scalar>), (B::Scalar, B::Scalar, B::Scalar)),
    second: ((Seq<B::Scalar>, Seq<B::Scalar>), (Seq<B::Scalar>, Seq<B::Scalar>), (B::Scalar, B::Scalar, B::Scalar)),
)
    requires
        first.0 == second.0,
    ensures
        bicgstab_half_of(backend, operator, preconditioner, threshold, right_hand_side, shadow, 1, first)
            == bicgstab_half_of(backend, operator, preconditioner, threshold, right_hand_side, shadow, 1, second),
        bicgstab_advance(backend, operator, preconditioner, policy, threshold, right_hand_side, shadow, 1, first)
            == bicgstab_advance(backend, operator, preconditioner, policy, threshold, right_hand_side, shadow, 1, second),
{
}

/// The vectors carried from one part of an iteration to the next are left
/// alone.
spec fn keeps_search_vectors<B: KrylovBackend>(before: BiCgStabWorkspace<B>, after: BiCgStabWorkspace<B>) -> bool {
    &&& after.shadow == before.shadow
    &&& after.direction == before.direction
    &&& after.preconditioned_direction == before.preconditioned_direction
    &&& after.image == before.image
}

/// `residual = b − A·solution`, its norm returned; the operator image passes
/// through `stabilizer`, which the recurrence does not need at that point.
fn bicgstab_true_residual<B: KrylovBackend, O: LinearOperator<B>>(
    backend: &B,
    operator: &O,
    right_hand_side: &B::Vector,
    solution: &B::Vector,
    workspace: &mut BiCgStabWorkspace<B>,
) -> (norm: Result<B::Scalar, SolveError<B::Error>>)
    ensures
        final(workspace).spec_len() == old(workspace).spec_len(),
        norm matches Ok(value) ==> value == residual_norm_of(
            backend,
            operator,
            B::spec_vector(right_hand_side),
            B::spec_vector(solution),
        ) && B::spec_vector(&final(workspace).residual) == difference(
            backend,
            B::spec_vector(right_hand_side),
            operator.spec_apply(backend, B::spec_vector(solution)),
        ),
        keeps_search_vectors(*old(workspace), *final(workspace)),
        norm matches Err(error) ==> error is Backend,
{
    match operator.apply(backend, backend.view(solution), backend.view_mut(&mut workspace.stabilizer)) {
        Ok(()) => {},
        Err(error) => return Err(SolveError::Backend(error)),
    }
    match backend.residual(
        backend.view(right_hand_side),
        backend.view(&workspace.stabilizer),
        backend.view_mut(&mut workspace.residual),
    ) {
        Ok(()) => {},
        Err(error) => return Err(SolveError::Backend(error)),
    }
    match backend.norm_l2_prepared(&workspace.residual_norm, backend.view(&workspace.residual)) {
        Ok(norm) => Ok(norm),
        Err(error) => Err(SolveError::Backend(error)),
    }
}

/// Measure the right-hand side, form the initial residual, and either finish
/// (a non-finite or already converged residual) or fix the shadow residual.
fn bicgstab_initialize<B: KrylovBackend, O: LinearOperator<B>>(
    backend: &B,
    operator: &O,
    right_hand_side: &B::Vector,
    solution: &B::Vector,
    workspace: &mut BiCgStabWorkspace<B>,
    policy: ConvergencePolicy<B::Scalar>,
) -> (outcome: Result<Stage<BiCgStabState<B::Scalar>, B::Scalar>, SolveError<B::Error>>)
    requires
        bicgstab_budget_admissible(policy),
        policy.spec_max_iterations() >= 1,
    ensures
        final(workspace).spec_len() == old(workspace).spec_len(),
        match outcome {
            Ok(Stage::Complete(report)) => {
                &&& bicgstab_report_law(backend, policy, report)
                &&& report.iterations == 0
                &&& carries_start(
                    report,
                    residual_norm_of(backend, operator, B::spec_vector(right_hand_side), B::spec_vector(solution)),
                    policy.spec_threshold(backend, backend.spec_norm_l2(B::spec_vector(right_hand_side))),
                )
            },
            Ok(Stage::Continue(state)) => {
                &&& bicgstab_ready(backend, policy, state, 1)
                &&& B::spec_vector(&final(workspace).residual) == difference(
                    backend,
                    B::spec_vector(right_hand_side),
                    operator.spec_apply(backend, B::spec_vector(solution)),
                )
                &&& B::spec_vector(&final(workspace).shadow) == B::spec_vector(&final(workspace).residual)
                &&& state.initial_residual == residual_norm_of(
                    backend,
                    operator,
                    B::spec_vector(right_hand_side),
                    B::spec_vector(solution),
                )
                &&& state.threshold == policy.spec_threshold(
                    backend,
                    backend.spec_norm_l2(B::spec_vector(right_hand_side)),
                )
            },
            Err(error) => error is Backend,
        },
{
    match backend.copy(backend.view(right_hand_side), backend.view_mut(&mut workspace.residual)) {
        Ok(()) => {},
        Err(error) => return Err(SolveError::Backend(error)),
    }
    let rhs_norm = match backend.norm_l2_prepared(&workspace.residual_norm, backend.view(&workspace.residual)) {
        Ok(norm) => norm,
        Err(error) => return Err(SolveError::Backend(error)),
    };
    let threshold = policy.threshold(backend, rhs_norm);
    assert(policy.spec_threshold(backend, rhs_norm) == threshold);
    let initial_residual = bicgstab_true_residual(backend, operator, right_hand_side, solution, workspace)?;
    let termination = if !backend.is_finite(initial_residual) {
        Some(Termination::NonFinite)
    } else if backend.less_equal(initial_residual, threshold) {
        Some(Termination::InitialResidual)
    } else {
        None
    };
    if let Some(termination) = termination {
        return Ok(
            Stage::Complete(SolveReport::new(termination, 0, 1, 0, initial_residual, initial_residual, threshold)),
        );
    }
    match backend.copy(backend.view(&workspace.residual), backend.view_mut(&mut workspace.shadow)) {
        Ok(()) => {},
        Err(error) => return Err(SolveError::Backend(error)),
    }
    let one = backend.one();
    Ok(
        Stage::Continue(
            BiCgStabState {
                initial_residual,
                last_residual: initial_residual,
                threshold,
                rho: one,
                alpha: one,
                omega: one,
                operator_applications: 1,
                preconditioner_applications: 0,
            },
        ),
    )
}

/// Mid-iteration state of iteration `iteration`: at most `operators` and
/// `preconditioners` applications beyond those the earlier iterations may
/// have made, and at least one preconditioner application in all.
spec fn bicgstab_within<B: KrylovBackend>(
    backend: &B,
    policy: ConvergencePolicy<B::Scalar>,
    state: BiCgStabState<B::Scalar>,
    iteration: usize,
    operators: int,
    preconditioners: int,
) -> bool {
    &&& 1 <= iteration <= policy.spec_max_iterations()
    &&& bicgstab_budget_admissible(policy)
    &&& 1 <= state.operator_applications <= 4 * (iteration - 1) + 1 + operators
    &&& 1 <= state.preconditioner_applications <= 2 * (iteration - 1) + preconditioners
    &&& !residual_meets(backend, state.initial_residual, state.threshold)
    &&& is_threshold_of_some_norm(backend, policy, state.threshold)
}

/// `ρ = ⟨r̂, r⟩`: the shadow residual against the recursive residual.
spec fn shadow_residual<B: KrylovBackend>(backend: &B, workspace: BiCgStabWorkspace<B>) -> B::Scalar {
    backend.spec_dot(B::spec_vector(&workspace.shadow), B::spec_vector(&workspace.residual))
}

/// `σ = ⟨r̂, v⟩`: the shadow residual against the operator image `v = A·M⁻¹p`.
spec fn shadow_image<B: KrylovBackend>(backend: &B, workspace: BiCgStabWorkspace<B>) -> B::Scalar {
    backend.spec_dot(B::spec_vector(&workspace.shadow), B::spec_vector(&workspace.image))
}

/// `τ = ⟨t, t⟩` of the stabilizing image `t = A·M⁻¹s`.
spec fn stabilizer_norm<B: KrylovBackend>(backend: &B, workspace: BiCgStabWorkspace<B>) -> B::Scalar {
    backend.spec_dot(B::spec_vector(&workspace.stabilizer), B::spec_vector(&workspace.stabilizer))
}

/// `ω = ⟨t, s⟩ / ⟨t, t⟩`, `s` the intermediate residual the stabilizing half
/// starts from and `t` the image it forms.
spec fn stabilized_omega<B: KrylovBackend>(
    backend: &B,
    entering: BiCgStabWorkspace<B>,
    formed: BiCgStabWorkspace<B>,
) -> B::Scalar {
    backend.spec_div(
        backend.spec_dot(B::spec_vector(&formed.stabilizer), B::spec_vector(&entering.residual)),
        stabilizer_norm(backend, formed),
    )
}

/// Form the search direction, precondition it, apply the operator, and take
/// the step length `α = ⟨r̂, r⟩ / ⟨r̂, v⟩`; either inner product vanishing is
/// the `ρ` breakdown of the two-term recurrence.
fn bicgstab_direction<B: KrylovBackend, O: LinearOperator<B>, P: Preconditioner<B>>(
    backend: &B,
    operator: &O,
    preconditioner: &P,
    workspace: &mut BiCgStabWorkspace<B>,
    policy: ConvergencePolicy<B::Scalar>,
    iteration: usize,
    state: &mut BiCgStabState<B::Scalar>,
) -> (outcome: Result<Option<SolveReport<B::Scalar>>, SolveError<B::Error>>)
    requires
        bicgstab_ready(backend, policy, *old(state), iteration),
    ensures
        final(workspace).spec_len() == old(workspace).spec_len(),
        final(state).initial_residual == old(state).initial_residual,
        final(state).threshold == old(state).threshold,
        final(workspace).residual == old(workspace).residual,
        final(workspace).shadow == old(workspace).shadow,
        match outcome {
            Ok(Some(report)) => {
                &&& bicgstab_report_law(backend, policy, report)
                &&& report.iterations == iteration - 1
                &&& carries_start(report, old(state).initial_residual, old(state).threshold)
                &&& (report.termination == Termination::NonFinite || report.termination == Termination::Breakdown)
                &&& report.termination == Termination::NonFinite ==> !backend.spec_is_finite(
                    shadow_residual(backend, *old(workspace)),
                ) || !backend.spec_is_finite(shadow_image(backend, *final(workspace)))
                &&& report.termination == Termination::Breakdown ==> backend.spec_equal(
                    shadow_residual(backend, *old(workspace)),
                    backend.spec_zero(),
                ) || backend.spec_equal(shadow_image(backend, *final(workspace)), backend.spec_zero())
            },
            Ok(None) => {
                &&& (
                    B::spec_vector(&final(workspace).direction),
                    B::spec_vector(&final(workspace).preconditioned_direction),
                    B::spec_vector(&final(workspace).image),
                    final(state).rho,
                    final(state).alpha,
                ) == bicgstab_direction_of(
                    backend,
                    operator,
                    preconditioner,
                    B::spec_vector(&old(workspace).shadow),
                    iteration as int,
                    B::spec_vector(&old(workspace).residual),
                    B::spec_vector(&old(workspace).direction),
                    B::spec_vector(&old(workspace).image),
                    (old(state).rho, old(state).alpha, old(state).omega),
                )
                &&& final(state).omega == old(state).omega
                &&& bicgstab_within(backend, policy, *final(state), iteration, 1, 1)
                &&& final(state).rho == shadow_residual(backend, *old(workspace))
                &&& final(state).alpha == backend.spec_div(final(state).rho, shadow_image(backend, *final(workspace)))
            },
            Err(error) => error is Backend,
        },
{
    let zero = backend.zero();
    let rho = match backend.dot_prepared(
        &workspace.shadow_residual_dot,
        backend.view(&workspace.shadow),
        backend.view(&workspace.residual),
    ) {
        Ok(value) => value,
        Err(error) => return Err(SolveError::Backend(error)),
    };
    if !backend.is_finite(rho) {
        return Ok(Some(state.report(Termination::NonFinite, iteration - 1)));
    }
    if backend.equal(rho, zero) {
        return Ok(Some(state.report(Termination::Breakdown, iteration - 1)));
    }
    if iteration == 1 {
        match backend.copy(backend.view(&workspace.residual), backend.view_mut(&mut workspace.direction)) {
            Ok(()) => {},
            Err(error) => return Err(SolveError::Backend(error)),
        }
    } else {
        let beta = backend.mul(backend.div(rho, state.rho), backend.div(state.alpha, state.omega));
        match backend.axpy(
            backend.view_mut(&mut workspace.direction),
            backend.view(&workspace.image),
            backend.neg(state.omega),
        ) {
            Ok(()) => {},
            Err(error) => return Err(SolveError::Backend(error)),
        }
        match backend.combine_direction(
            backend.view_mut(&mut workspace.direction),
            backend.view(&workspace.residual),
            beta,
        ) {
            Ok(()) => {},
            Err(error) => return Err(SolveError::Backend(error)),
        }
    }
    match preconditioner.apply(
        backend,
        backend.view(&workspace.direction),
        backend.view_mut(&mut workspace.preconditioned_direction),
    ) {
        Ok(()) => {},
        Err(error) => return Err(SolveError::Backend(error)),
    }
    state.preconditioner_applications = state.preconditioner_applications + 1;
    match operator.apply(
        backend,
        backend.view(&workspace.preconditioned_direction),
        backend.view_mut(&mut workspace.image),
    ) {
        Ok(()) => {},
        Err(error) => return Err(SolveError::Backend(error)),
    }
    state.operator_applications = state.operator_applications + 1;
    let sigma = match backend.dot_prepared(
        &workspace.shadow_image_dot,
        backend.view(&workspace.shadow),
        backend.view(&workspace.image),
    ) {
        Ok(value) => value,
        Err(error) => return Err(SolveError::Backend(error)),
    };
    if !backend.is_finite(sigma) {
        return Ok(Some(state.report(Termination::NonFinite, iteration - 1)));
    }
    if backend.equal(sigma, zero) {
        return Ok(Some(state.report(Termination::Breakdown, iteration - 1)));
    }
    state.alpha = backend.div(rho, sigma);
    state.rho = rho;
    Ok(None)
}

/// Recompute the true residual of the current solution after the recursive
/// one met the threshold: convergence when it meets it too, otherwise the
/// recurrence continues from the true residual.
fn bicgstab_confirm<B: KrylovBackend, O: LinearOperator<B>>(
    backend: &B,
    operator: &O,
    right_hand_side: &B::Vector,
    solution: &B::Vector,
    workspace: &mut BiCgStabWorkspace<B>,
    policy: ConvergencePolicy<B::Scalar>,
    iteration: usize,
    state: &mut BiCgStabState<B::Scalar>,
    operators: Ghost<int>,
    preconditioners: Ghost<int>,
) -> (outcome: Result<Option<SolveReport<B::Scalar>>, SolveError<B::Error>>)
    requires
        bicgstab_within(backend, policy, *old(state), iteration, operators@, preconditioners@),
        operators@ <= 3,
        preconditioners@ <= 2,
    ensures
        final(workspace).spec_len() == old(workspace).spec_len(),
        final(state).initial_residual == old(state).initial_residual,
        final(state).threshold == old(state).threshold,
        final(state).rho == old(state).rho,
        final(state).alpha == old(state).alpha,
        final(state).omega == old(state).omega,
        final(state).preconditioner_applications == old(state).preconditioner_applications,
        keeps_search_vectors(*old(workspace), *final(workspace)),
        outcome matches Ok(None) ==> B::spec_vector(&final(workspace).residual) == difference(
            backend,
            B::spec_vector(right_hand_side),
            operator.spec_apply(backend, B::spec_vector(solution)),
        ),
        outcome is Ok ==> final(state).operator_applications == old(state).operator_applications + 1,
        match outcome {
            Ok(Some(report)) => {
                &&& bicgstab_report_law(backend, policy, report)
                &&& report.iterations == iteration
                &&& carries_start(report, old(state).initial_residual, old(state).threshold)
                &&& converged_on_true_residual(backend, operator, right_hand_side, *solution, report)
            },
            Ok(None) => {
                &&& bicgstab_within(backend, policy, *final(state), iteration, operators@ + 1, preconditioners@)
                &&& backend.spec_is_finite(final(state).last_residual)
                &&& !backend.spec_less_equal(final(state).last_residual, final(state).threshold)
            },
            Err(error) => error is Backend,
        },
{
    let true_residual = bicgstab_true_residual(backend, operator, right_hand_side, solution, workspace)?;
    state.operator_applications = state.operator_applications + 1;
    state.last_residual = true_residual;
    if !backend.is_finite(true_residual) {
        return Ok(Some(state.report(Termination::NonFinite, iteration)));
    }
    if backend.less_equal(true_residual, state.threshold) {
        return Ok(Some(state.report(Termination::Converged, iteration)));
    }
    Ok(None)
}

/// The half step `s = r − α·v`, `x += α·M⁻¹p`, finishing when the true
/// residual of that solution already converges.
fn bicgstab_half_step<B: KrylovBackend, O: LinearOperator<B>>(
    backend: &B,
    operator: &O,
    right_hand_side: &B::Vector,
    solution: &mut B::Vector,
    workspace: &mut BiCgStabWorkspace<B>,
    policy: ConvergencePolicy<B::Scalar>,
    iteration: usize,
    state: &mut BiCgStabState<B::Scalar>,
) -> (outcome: Result<Option<SolveReport<B::Scalar>>, SolveError<B::Error>>)
    requires
        bicgstab_within(backend, policy, *old(state), iteration, 1, 1),
    ensures
        final(workspace).spec_len() == old(workspace).spec_len(),
        final(state).initial_residual == old(state).initial_residual,
        final(state).threshold == old(state).threshold,
        final(state).rho == old(state).rho,
        final(state).omega == old(state).omega,
        final(state).preconditioner_applications == old(state).preconditioner_applications,
        final(state).alpha == old(state).alpha,
        keeps_search_vectors(*old(workspace), *final(workspace)),
        outcome matches Ok(None) ==> B::spec_vector(&final(workspace).residual) == ({
            let intermediate = axpy_result(
                backend,
                B::spec_vector(&old(workspace).residual),
                B::spec_vector(&old(workspace).image),
                backend.spec_neg(old(state).alpha),
            );
            if backend.spec_less_equal(backend.spec_norm_l2(intermediate), old(state).threshold) {
                difference(
                    backend,
                    B::spec_vector(right_hand_side),
                    operator.spec_apply(backend, B::spec_vector(final(solution))),
                )
            } else {
                intermediate
            }
        }),
        outcome is Ok ==> B::spec_vector(final(solution)) == axpy_result(
            backend,
            B::spec_vector(old(solution)),
            B::spec_vector(&old(workspace).preconditioned_direction),
            old(state).alpha,
        ),
        match outcome {
            Ok(Some(report)) => {
                &&& bicgstab_report_law(backend, policy, report)
                &&& report.iterations == iteration
                &&& carries_start(report, old(state).initial_residual, old(state).threshold)
                &&& converged_on_true_residual(backend, operator, right_hand_side, *final(solution), report)
            },
            Ok(None) => {
                &&& bicgstab_within(backend, policy, *final(state), iteration, 2, 1)
                &&& ({
                    ||| final(state).operator_applications == old(state).operator_applications
                        && final(state).last_residual == old(state).last_residual
                    ||| final(state).operator_applications == old(state).operator_applications + 1
                        && backend.spec_is_finite(final(state).last_residual)
                        && !backend.spec_less_equal(final(state).last_residual, final(state).threshold)
                })
            },
            Err(error) => error is Backend,
        },
{
    match backend.axpy(
        backend.view_mut(&mut workspace.residual),
        backend.view(&workspace.image),
        backend.neg(state.alpha),
    ) {
        Ok(()) => {},
        Err(error) => return Err(SolveError::Backend(error)),
    }
    match backend.axpy(backend.view_mut(solution), backend.view(&workspace.preconditioned_direction), state.alpha) {
        Ok(()) => {},
        Err(error) => return Err(SolveError::Backend(error)),
    }
    let half_norm = match backend.norm_l2_prepared(&workspace.residual_norm, backend.view(&workspace.residual)) {
        Ok(norm) => norm,
        Err(error) => return Err(SolveError::Backend(error)),
    };
    if !backend.is_finite(half_norm) {
        state.last_residual = half_norm;
        return Ok(Some(state.report(Termination::NonFinite, iteration)));
    }
    if backend.less_equal(half_norm, state.threshold) {
        return bicgstab_confirm(
            backend,
            operator,
            right_hand_side,
            solution,
            workspace,
            policy,
            iteration,
            state,
            Ghost(1),
            Ghost(1),
        );
    }
    Ok(None)
}

/// The stabilizing half: `t = A·M⁻¹s`, `ω = ⟨t, s⟩ / ⟨t, t⟩`,
/// `x += ω·M⁻¹s`, `r = s − ω·t`; a vanishing `⟨t, t⟩` or `ω` is the `ω`
/// breakdown of the recurrence.
fn bicgstab_stabilize<B: KrylovBackend, O: LinearOperator<B>, P: Preconditioner<B>>(
    backend: &B,
    operator: &O,
    preconditioner: &P,
    solution: &mut B::Vector,
    workspace: &mut BiCgStabWorkspace<B>,
    policy: ConvergencePolicy<B::Scalar>,
    iteration: usize,
    state: &mut BiCgStabState<B::Scalar>,
) -> (outcome: Result<Option<SolveReport<B::Scalar>>, SolveError<B::Error>>)
    requires
        bicgstab_within(backend, policy, *old(state), iteration, 2, 1),
    ensures
        final(workspace).spec_len() == old(workspace).spec_len(),
        final(state).initial_residual == old(state).initial_residual,
        final(state).last_residual == old(state).last_residual,
        final(state).threshold == old(state).threshold,
        final(state).rho == old(state).rho,
        final(state).alpha == old(state).alpha,
        keeps_search_vectors(*old(workspace), *final(workspace)),
        outcome matches Ok(None) ==> {
            let preconditioned = preconditioner.spec_apply(backend, B::spec_vector(&old(workspace).residual));
            &&& B::spec_vector(&final(workspace).stabilizer) == operator.spec_apply(backend, preconditioned)
            &&& B::spec_vector(&final(workspace).residual) == axpy_result(
                backend,
                B::spec_vector(&old(workspace).residual),
                B::spec_vector(&final(workspace).stabilizer),
                backend.spec_neg(final(state).omega),
            )
        },
        outcome matches Ok(Some(_)) ==> *final(solution) == *old(solution),
        outcome matches Ok(None) ==> B::spec_vector(final(solution)) == axpy_result(
            backend,
            B::spec_vector(old(solution)),
            preconditioner.spec_apply(backend, B::spec_vector(&old(workspace).residual)),
            final(state).omega,
        ),
        outcome is Ok ==> final(state).operator_applications == old(state).operator_applications + 1,
        outcome is Ok ==> final(state).preconditioner_applications == old(state).preconditioner_applications + 1,
        match outcome {
            Ok(Some(report)) => {
                &&& bicgstab_report_law(backend, policy, report)
                &&& report.iterations == iteration
                &&& carries_start(report, old(state).initial_residual, old(state).threshold)
                &&& (report.termination == Termination::NonFinite || report.termination == Termination::Breakdown)
                &&& final(state).omega == old(state).omega
                &&& report.termination == Termination::NonFinite ==> !backend.spec_is_finite(
                    stabilizer_norm(backend, *final(workspace)),
                ) || !backend.spec_is_finite(stabilized_omega(backend, *old(workspace), *final(workspace)))
                &&& report.termination == Termination::Breakdown ==> backend.spec_equal(
                    stabilizer_norm(backend, *final(workspace)),
                    backend.spec_zero(),
                ) || backend.spec_equal(
                    stabilized_omega(backend, *old(workspace), *final(workspace)),
                    backend.spec_zero(),
                )
            },
            Ok(None) => {
                &&& final(state).omega == stabilized_omega(backend, *old(workspace), *final(workspace))
                &&& bicgstab_within(backend, policy, *final(state), iteration, 3, 2)
                &&& backend.spec_is_finite(final(state).omega)
                &&& !backend.spec_equal(final(state).omega, backend.spec_zero())
            },
            Err(error) => error is Backend,
        },
{
    let zero = backend.zero();
    match preconditioner.apply(
        backend,
        backend.view(&workspace.residual),
        backend.view_mut(&mut workspace.preconditioned_residual),
    ) {
        Ok(()) => {},
        Err(error) => return Err(SolveError::Backend(error)),
    }
    state.preconditioner_applications = state.preconditioner_applications + 1;
    match operator.apply(
        backend,
        backend.view(&workspace.preconditioned_residual),
        backend.view_mut(&mut workspace.stabilizer),
    ) {
        Ok(()) => {},
        Err(error) => return Err(SolveError::Backend(error)),
    }
    state.operator_applications = state.operator_applications + 1;
    let tau = match backend.dot_prepared(
        &workspace.stabilizer_norm_dot,
        backend.view(&workspace.stabilizer),
        backend.view(&workspace.stabilizer),
    ) {
        Ok(value) => value,
        Err(error) => return Err(SolveError::Backend(error)),
    };
    if !backend.is_finite(tau) {
        return Ok(Some(state.report(Termination::NonFinite, iteration)));
    }
    if backend.equal(tau, zero) {
        return Ok(Some(state.report(Termination::Breakdown, iteration)));
    }
    let theta = match backend.dot_prepared(
        &workspace.stabilizer_residual_dot,
        backend.view(&workspace.stabilizer),
        backend.view(&workspace.residual),
    ) {
        Ok(value) => value,
        Err(error) => return Err(SolveError::Backend(error)),
    };
    let omega = backend.div(theta, tau);
    if !backend.is_finite(omega) {
        return Ok(Some(state.report(Termination::NonFinite, iteration)));
    }
    if backend.equal(omega, zero) {
        return Ok(Some(state.report(Termination::Breakdown, iteration)));
    }
    match backend.axpy(backend.view_mut(solution), backend.view(&workspace.preconditioned_residual), omega) {
        Ok(()) => {},
        Err(error) => return Err(SolveError::Backend(error)),
    }
    match backend.axpy(
        backend.view_mut(&mut workspace.residual),
        backend.view(&workspace.stabilizer),
        backend.neg(omega),
    ) {
        Ok(()) => {},
        Err(error) => return Err(SolveError::Backend(error)),
    }
    state.omega = omega;
    Ok(None)
}

/// The configured residual check closing iteration `iteration`: observe the
/// recursive residual, confirm an apparent convergence on the true residual,
/// and stop at the iteration budget.
#[allow(clippy::too_many_arguments)]
fn bicgstab_check<B: KrylovBackend, O: LinearOperator<B>, Obs: IterationObserver<B::Scalar>>(
    backend: &B,
    operator: &O,
    right_hand_side: &B::Vector,
    solution: &B::Vector,
    workspace: &mut BiCgStabWorkspace<B>,
    policy: ConvergencePolicy<B::Scalar>,
    observer: &mut Obs,
    iteration: usize,
    state: &mut BiCgStabState<B::Scalar>,
) -> (outcome: Result<Option<SolveReport<B::Scalar>>, SolveError<B::Error>>)
    requires
        bicgstab_within(backend, policy, *old(state), iteration, 3, 2),
    ensures
        final(workspace).spec_len() == old(workspace).spec_len(),
        final(state).initial_residual == old(state).initial_residual,
        final(state).threshold == old(state).threshold,
        final(state).rho == old(state).rho,
        final(state).alpha == old(state).alpha,
        final(state).omega == old(state).omega,
        keeps_search_vectors(*old(workspace), *final(workspace)),
        outcome matches Ok(None) ==> B::spec_vector(&final(workspace).residual) == (if policy.spec_should_check(
            iteration,
        ) && backend.spec_less_equal(backend.spec_norm_l2(B::spec_vector(&old(workspace).residual)), old(state).threshold) {
            difference(backend, B::spec_vector(right_hand_side), operator.spec_apply(backend, B::spec_vector(solution)))
        } else {
            B::spec_vector(&old(workspace).residual)
        }),
        match outcome {
            Ok(Some(report)) => {
                &&& bicgstab_report_law(backend, policy, report)
                &&& report.iterations == iteration
                &&& carries_start(report, old(state).initial_residual, old(state).threshold)
                &&& converged_on_true_residual(backend, operator, right_hand_side, *solution, report)
            },
            Ok(None) => bicgstab_ready(backend, policy, *final(state), (iteration + 1) as usize),
            Err(error) => error is Backend,
        },
{
    if policy.should_check(iteration) {
        let norm = match backend.norm_l2_prepared(&workspace.residual_norm, backend.view(&workspace.residual)) {
            Ok(norm) => norm,
            Err(error) => return Err(SolveError::Backend(error)),
        };
        state.last_residual = norm;
        observer.observe(IterationState::new(iteration, norm, state.threshold));
        if !backend.is_finite(norm) {
            return Ok(Some(state.report(Termination::NonFinite, iteration)));
        }
        if backend.less_equal(norm, state.threshold) {
            match bicgstab_confirm(
                backend,
                operator,
                right_hand_side,
                solution,
                workspace,
                policy,
                iteration,
                state,
                Ghost(3),
                Ghost(2),
            ) {
                Ok(Some(report)) => return Ok(Some(report)),
                Ok(None) => {},
                Err(error) => return Err(error),
            }
        }
        if iteration == policy.max_iterations() {
            return Ok(Some(state.report(Termination::MaxIterations, iteration)));
        }
    }
    Ok(None)
}

/// One full BiCGSTAB iteration.
#[allow(clippy::too_many_arguments)]
fn bicgstab_step<B: KrylovBackend, O: LinearOperator<B>, P: Preconditioner<B>, Obs: IterationObserver<
    B::Scalar,
>>(
    backend: &B,
    operator: &O,
    preconditioner: &P,
    right_hand_side: &B::Vector,
    solution: &mut B::Vector,
    workspace: &mut BiCgStabWorkspace<B>,
    policy: ConvergencePolicy<B::Scalar>,
    observer: &mut Obs,
    iteration: usize,
    state: &mut BiCgStabState<B::Scalar>,
) -> (outcome: Result<Option<SolveReport<B::Scalar>>, SolveError<B::Error>>)
    requires
        bicgstab_ready(backend, policy, *old(state), iteration),
    ensures
        final(workspace).spec_len() == old(workspace).spec_len(),
        final(state).initial_residual == old(state).initial_residual,
        final(state).threshold == old(state).threshold,
        final(workspace).shadow == old(workspace).shadow,
        outcome matches Ok(None) ==> bicgstab_current(*final(solution), *final(workspace), *final(state))
            == bicgstab_advance(
            backend,
            operator,
            preconditioner,
            policy,
            old(state).threshold,
            B::spec_vector(right_hand_side),
            B::spec_vector(&old(workspace).shadow),
            iteration as int,
            bicgstab_current(*old(solution), *old(workspace), *old(state)),
        ),
        (outcome matches Ok(Some(report)) && report.iterations == iteration) ==> ({
            let half = bicgstab_half_of(
                backend,
                operator,
                preconditioner,
                old(state).threshold,
                B::spec_vector(right_hand_side),
                B::spec_vector(&old(workspace).shadow),
                iteration as int,
                bicgstab_current(*old(solution), *old(workspace), *old(state)),
            );
            ||| B::spec_vector(final(solution)) == half.0
            ||| B::spec_vector(final(solution)) == bicgstab_advance(
                backend,
                operator,
                preconditioner,
                policy,
                old(state).threshold,
                B::spec_vector(right_hand_side),
                B::spec_vector(&old(workspace).shadow),
                iteration as int,
                bicgstab_current(*old(solution), *old(workspace), *old(state)),
            ).0.0
        }),
        match outcome {
            Ok(Some(report)) => {
                &&& bicgstab_report_law(backend, policy, report)
                &&& carries_start(report, old(state).initial_residual, old(state).threshold)
                &&& report.iterations == iteration - 1 || report.iterations == iteration
                &&& report.iterations == iteration - 1 ==> *final(solution) == *old(solution)
                &&& converged_on_true_residual(backend, operator, right_hand_side, *final(solution), report)
            },
            Ok(None) => bicgstab_ready(backend, policy, *final(state), (iteration + 1) as usize),
            Err(error) => error is Backend,
        },
{
    match bicgstab_direction(backend, operator, preconditioner, workspace, policy, iteration, state) {
        Ok(Some(report)) => return Ok(Some(report)),
        Ok(None) => {},
        Err(error) => return Err(error),
    }
    match bicgstab_half_step(backend, operator, right_hand_side, solution, workspace, policy, iteration, state) {
        Ok(Some(report)) => return Ok(Some(report)),
        Ok(None) => {},
        Err(error) => return Err(error),
    }
    match bicgstab_stabilize(backend, operator, preconditioner, solution, workspace, policy, iteration, state) {
        Ok(Some(report)) => return Ok(Some(report)),
        Ok(None) => {},
        Err(error) => return Err(error),
    }
    bicgstab_check(backend, operator, right_hand_side, solution, workspace, policy, observer, iteration, state)
}

#[allow(clippy::too_many_arguments)]
fn bicgstab_iterate<B: KrylovBackend, O: LinearOperator<B>, P: Preconditioner<B>, Obs: IterationObserver<
    B::Scalar,
>>(
    backend: &B,
    operator: &O,
    preconditioner: &P,
    right_hand_side: &B::Vector,
    solution: &mut B::Vector,
    workspace: &mut BiCgStabWorkspace<B>,
    policy: ConvergencePolicy<B::Scalar>,
    observer: &mut Obs,
    entering: BiCgStabState<B::Scalar>,
) -> (outcome: Result<SolveReport<B::Scalar>, SolveError<B::Error>>)
    requires
        bicgstab_ready(backend, policy, entering, 1),
        B::spec_vector(&old(workspace).residual) == difference(
            backend,
            B::spec_vector(right_hand_side),
            operator.spec_apply(backend, B::spec_vector(old(solution))),
        ),
        B::spec_vector(&old(workspace).shadow) == B::spec_vector(&old(workspace).residual),
    ensures
        final(workspace).spec_len() == old(workspace).spec_len(),
        match outcome {
            Ok(report) => {
                &&& bicgstab_report_law(backend, policy, report)
                &&& carries_start(report, entering.initial_residual, entering.threshold)
                &&& report.iterations == 0 ==> *final(solution) == *old(solution)
                &&& converged_on_true_residual(backend, operator, right_hand_side, *final(solution), report)
                &&& bicgstab_reaches(
                    backend,
                    operator,
                    preconditioner,
                    policy,
                    entering.threshold,
                    B::spec_vector(right_hand_side),
                    B::spec_vector(old(solution)),
                    report.iterations as nat,
                    B::spec_vector(final(solution)),
                )
            },
            Err(error) => error is Backend,
        },
{
    let mut state = entering;
    let mut iteration: usize = 1;
    loop
        invariant
            bicgstab_ready(backend, policy, state, iteration),
            workspace.spec_len() == old(workspace).spec_len(),
            state.initial_residual == entering.initial_residual,
            state.threshold == entering.threshold,
            B::spec_vector(&old(workspace).residual) == difference(
                backend,
                B::spec_vector(right_hand_side),
                operator.spec_apply(backend, B::spec_vector(old(solution))),
            ),
            B::spec_vector(&old(workspace).shadow) == B::spec_vector(&old(workspace).residual),
            iteration == 1 ==> *solution == *old(solution),
            workspace.shadow == old(workspace).shadow,
            iteration == 1 ==> workspace.residual == old(workspace).residual,
            iteration > 1 ==> bicgstab_current(*solution, *workspace, state) == bicgstab_recurrence(
                backend,
                operator,
                preconditioner,
                policy,
                entering.threshold,
                B::spec_vector(right_hand_side),
                B::spec_vector(old(solution)),
                (iteration - 1) as nat,
            ),
        decreases policy.spec_max_iterations() - iteration,
    {
        let ghost before = bicgstab_current(*solution, *workspace, state);
        let ghost rhs = B::spec_vector(right_hand_side);
        let ghost start = B::spec_vector(old(solution));
        let ghost previous = bicgstab_recurrence(
            backend,
            operator,
            preconditioner,
            policy,
            entering.threshold,
            rhs,
            start,
            (iteration - 1) as nat,
        );
        let ghost shadow = difference(backend, rhs, operator.spec_apply(backend, start));
        proof {
            assert(B::spec_vector(&workspace.shadow) == shadow);
            if iteration == 1 {
                lemma_first_iteration_reads_residual(
                    backend,
                    operator,
                    preconditioner,
                    policy,
                    entering.threshold,
                    rhs,
                    shadow,
                    before,
                    previous,
                );
            }
            assert(bicgstab_recurrence(
                backend,
                operator,
                preconditioner,
                policy,
                entering.threshold,
                rhs,
                start,
                iteration as nat,
            ) == bicgstab_advance(
                backend,
                operator,
                preconditioner,
                policy,
                entering.threshold,
                rhs,
                shadow,
                iteration as int,
                previous,
            ));
        }
        match bicgstab_step(
            backend,
            operator,
            preconditioner,
            right_hand_side,
            solution,
            workspace,
            policy,
            observer,
            iteration,
            &mut state,
        ) {
            Ok(Some(report)) => return Ok(report),
            Ok(None) => {},
            Err(error) => return Err(error),
        }
        iteration = iteration + 1;
    }
}

impl<B: KrylovBackend> BiCgStab<B> {
    /// Solve `A x = b` into caller-owned `solution`.
    ///
    /// Returns a dimension or backend failure. Numerical breakdown and
    /// non-finite recurrence state are returned value-semantically in
    /// [`SolveReport`].
    pub fn solve_into<O: LinearOperator<B>, P: Preconditioner<B>>(
        backend: &B,
        operator: &O,
        preconditioner: &P,
        right_hand_side: &B::Vector,
        solution: &mut B::Vector,
        workspace: &mut BiCgStabWorkspace<B>,
        policy: ConvergencePolicy<B::Scalar>,
    ) -> (outcome: Result<SolveReport<B::Scalar>, SolveError<B::Error>>)
        requires
            bicgstab_budget_admissible(policy),
        ensures
            bicgstab_solve_outcome(
                backend,
                operator,
                preconditioner,
                policy,
                right_hand_side,
                *old(solution),
                *final(solution),
                *old(workspace),
                *final(workspace),
                outcome,
            ),
    {
        let mut observer = NoObserver;
        Self::solve_with_observer(
            backend,
            operator,
            preconditioner,
            right_hand_side,
            solution,
            workspace,
            policy,
            &mut observer,
        )
    }

    /// Solve while reporting configured residual checks to `observer`.
    ///
    /// Returns a dimension or backend failure.
    #[allow(clippy::too_many_arguments)]
    pub fn solve_with_observer<O: LinearOperator<B>, P: Preconditioner<B>, Obs: IterationObserver<
        B::Scalar,
    >>(
        backend: &B,
        operator: &O,
        preconditioner: &P,
        right_hand_side: &B::Vector,
        solution: &mut B::Vector,
        workspace: &mut BiCgStabWorkspace<B>,
        policy: ConvergencePolicy<B::Scalar>,
        observer: &mut Obs,
    ) -> (outcome: Result<SolveReport<B::Scalar>, SolveError<B::Error>>)
        requires
            bicgstab_budget_admissible(policy),
        ensures
            bicgstab_solve_outcome(
                backend,
                operator,
                preconditioner,
                policy,
                right_hand_side,
                *old(solution),
                *final(solution),
                *old(workspace),
                *final(workspace),
                outcome,
            ),
    {
        bicgstab_validate_dimensions(backend, operator, right_hand_side, solution, workspace)?;
        let _budget = policy.max_iterations();
        match bicgstab_initialize(backend, operator, right_hand_side, solution, workspace, policy)? {
            Stage::Continue(state) => bicgstab_iterate(
                backend,
                operator,
                preconditioner,
                right_hand_side,
                solution,
                workspace,
                policy,
                observer,
                state,
            ),
            Stage::Complete(report) => Ok(report),
        }
    }
}

} // verus!
