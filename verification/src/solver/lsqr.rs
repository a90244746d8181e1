//! Golub–Kahan bidiagonalisation least squares (LSQR).
use vstd::prelude::*;
use core::marker::PhantomData;
use crate::backend::{KrylovBackend, axpy_result, difference, spec_vector_len};
use crate::convergence::ConvergencePolicy;
use crate::error::SolveError;
use crate::operator::RectangularOperator;
use crate::report::{
    IterationObserver, IterationState, NoObserver, SolveReport, Termination, observation_appended,
};
use super::{Stage, dimension_outcome, validate_dimension};
use super::cg::residual_meets;

verus! {

/// Reusable LSQR vector workspace.
///
/// LSQR bidiagonalises a rectangular operator, so its vectors come in two
/// lengths: `rows` for the range of `A` and `columns` for its domain.
pub struct LsqrWorkspace<B: KrylovBackend> {
    /// Left bidiagonalisation vector, length `rows`.
    left: B::Vector,
    /// Right bidiagonalisation vector, length `columns`.
    right: B::Vector,
    /// Search direction, length `columns`.
    direction: B::Vector,
    /// Operator image `A·v`, length `rows`.
    image: B::Vector,
    /// Adjoint image `Aᵀ·u`, length `columns`.
    adjoint_image: B::Vector,
    left_norm: B::PreparedNorm,
    right_norm: B::PreparedNorm,
    rows: usize,
    columns: usize,
}

impl<B: KrylovBackend> LsqrWorkspace<B> {
    /// Row count this workspace was allocated for.
    pub closed spec fn spec_rows(&self) -> usize {
        self.rows
    }

    /// Column count this workspace was allocated for.
    pub closed spec fn spec_columns(&self) -> usize {
        self.columns
    }

    /// The range vectors hold `spec_rows()` entries and the domain vectors
    /// `spec_columns()`.
    pub closed spec fn vectors_sized(&self) -> bool {
        &&& spec_vector_len::<B>(&self.left) == self.rows
        &&& spec_vector_len::<B>(&self.image) == self.rows
        &&& spec_vector_len::<B>(&self.right) == self.columns
        &&& spec_vector_len::<B>(&self.direction) == self.columns
        &&& spec_vector_len::<B>(&self.adjoint_image) == self.columns
    }

    /// Allocate a workspace for a `rows × columns` operator.
    ///
    /// Returns the first backend allocation or reduction-preparation failure.
    pub fn new(backend: &B, rows: usize, columns: usize) -> (workspace: Result<Self, B::Error>)
        ensures
            workspace matches Ok(w) ==> w.spec_rows() == rows && w.spec_columns() == columns
                && w.vectors_sized(),
    {
        let left = backend.allocate(rows)?;
        let right = backend.allocate(columns)?;
        let direction = backend.allocate(columns)?;
        let image = backend.allocate(rows)?;
        let adjoint_image = backend.allocate(columns)?;
        let left_norm = backend.prepare_norm_l2(backend.view(&left))?;
        let right_norm = backend.prepare_norm_l2(backend.view(&right))?;
        Ok(LsqrWorkspace {
            left,
            right,
            direction,
            image,
            adjoint_image,
            left_norm,
            right_norm,
            rows,
            columns,
        })
    }

    /// Row count this workspace was allocated for.
    pub fn rows(&self) -> (rows: usize)
        ensures
            rows == self.spec_rows(),
    {
        self.rows
    }

    /// Column count this workspace was allocated for.
    pub fn columns(&self) -> (columns: usize)
        ensures
            columns == self.spec_columns(),
    {
        self.columns
    }
}

/// Zero-sized LSQR algorithm marker.
///
/// Solves `min ‖A·x − b‖₂` for a rectangular operator by Golub–Kahan
/// bidiagonalisation, never forming `AᵀA`. A consistent system is detected on
/// the residual itself; an inconsistent one by the normal-equation residual
/// `‖Aᵀr‖` relative to `‖r‖`, reported as [`Termination::NormalEquations`].
///
/// Paige & Saunders (1982). *LSQR: An algorithm for sparse linear equations
/// and sparse least squares.* ACM TOMS 8(1), 43–71.
#[derive(Debug)]
pub struct Lsqr<B>(PhantomData<B>);

impl<B> Clone for Lsqr<B> {
    fn clone(&self) -> Self {
        Lsqr(PhantomData)
    }
}

impl<B> Copy for Lsqr<B> {}

impl<B> Default for Lsqr<B> {
    fn default() -> Self {
        Lsqr(PhantomData)
    }
}

/// The first dimension the LSQR entry points reject, in the order they check.
pub open spec fn lsqr_dimension_check<B: KrylovBackend, E>(
    rows: usize,
    columns: usize,
    right_hand_side: &B::Vector,
    solution: &B::Vector,
    workspace: &LsqrWorkspace<B>,
) -> Result<(), SolveError<E>> {
    if dimension_outcome::<E>("right-hand side", rows, spec_vector_len::<B>(right_hand_side) as usize) is Err {
        dimension_outcome::<E>("right-hand side", rows, spec_vector_len::<B>(right_hand_side) as usize)
    } else if dimension_outcome::<E>("solution", columns, spec_vector_len::<B>(solution) as usize) is Err {
        dimension_outcome::<E>("solution", columns, spec_vector_len::<B>(solution) as usize)
    } else if dimension_outcome::<E>("LSQR workspace rows", rows, workspace.spec_rows()) is Err {
        dimension_outcome::<E>("LSQR workspace rows", rows, workspace.spec_rows())
    } else {
        dimension_outcome::<E>("LSQR workspace columns", columns, workspace.spec_columns())
    }
}

/// What every LSQR report states about its counters and its terminal
/// condition.
pub open spec fn lsqr_report_law<B: KrylovBackend>(
    backend: &B,
    policy: ConvergencePolicy<B::Scalar>,
    report: SolveReport<B::Scalar>,
) -> bool {
    let it = report.iterations;
    let op = report.operator_applications;
    let threshold = report.threshold;
    let last = report.final_residual_norm;
    &&& it <= policy.spec_max_iterations()
    &&& report.preconditioner_applications == 0
    &&& (op == 1 || op == 2 * it + 2 || op == 2 * it + 4)
    &&& (op == 1 ==> it == 0 && last == report.initial_residual_norm && (report.termination
        == Termination::InitialResidual || report.termination == Termination::NonFinite))
    &&& (report.termination == Termination::InitialResidual ==> op == 1 && residual_meets(
        backend,
        report.initial_residual_norm,
        threshold,
    ))
    &&& (op >= 2 ==> backend.spec_is_finite(report.initial_residual_norm) && !backend.spec_less_equal(
        report.initial_residual_norm,
        threshold,
    ))
    &&& (it == 0 ==> last == report.initial_residual_norm)
    &&& (report.termination == Termination::Converged ==> it >= 1 && residual_meets(
        backend,
        last,
        threshold,
    ))
    &&& (report.termination == Termination::NormalEquations ==> {
        ||| it == 0 && op == 2
        ||| it >= 1 && backend.spec_is_finite(last) && backend.spec_less(backend.spec_zero(), last)
            && !backend.spec_less_equal(last, threshold)
    })
    &&& (report.termination == Termination::MaxIterations ==> {
        &&& it == policy.spec_max_iterations()
        &&& backend.spec_is_finite(last)
        &&& !backend.spec_less_equal(last, threshold)
    })
    &&& (report.termination == Termination::InitialResidual
        || report.termination == Termination::Converged
        || report.termination == Termination::MaxIterations
        || report.termination == Termination::Breakdown
        || report.termination == Termination::NonFinite
        || report.termination == Termination::NormalEquations)
    &&& exists|rhs_norm: B::Scalar| #[trigger] policy.spec_threshold(backend, rhs_norm) == threshold
}

/// One Golub–Kahan recurrence before normalisation, `image − coefficient ·
/// previous`, formed as the kernels form it: `previous` scaled by
/// `−coefficient`, then `image` added.
pub open spec fn bidiagonal_step<B: KrylovBackend>(
    backend: &B,
    previous: Seq<B::Scalar>,
    image: Seq<B::Scalar>,
    coefficient: B::Scalar,
) -> Seq<B::Scalar> {
    axpy_result(
        backend,
        previous.map_values(|value: B::Scalar| backend.spec_mul(value, backend.spec_neg(coefficient))),
        image,
        backend.spec_one(),
    )
}

/// `vector · (1 / norm)`.
pub open spec fn normalised<B: KrylovBackend>(backend: &B, vector: Seq<B::Scalar>, norm: B::Scalar) -> Seq<
    B::Scalar,
> {
    vector.map_values(|value: B::Scalar| backend.spec_mul(value, backend.spec_div(backend.spec_one(), norm)))
}

/// A bidiagonalisation vector after its norm is taken: normalised when the
/// norm is positive, left as it is otherwise.
pub open spec fn renormalised<B: KrylovBackend>(backend: &B, vector: Seq<B::Scalar>, norm: B::Scalar) -> Seq<
    B::Scalar,
> {
    if backend.spec_less(backend.spec_zero(), norm) {
        normalised(backend, vector, norm)
    } else {
        vector
    }
}

/// `‖b − A·x‖₂` as the backend computes it, `A·x` as the operator writes it.
pub open spec fn lsqr_residual_norm<B: KrylovBackend, O: RectangularOperator<B>>(
    backend: &B,
    operator: &O,
    right_hand_side: Seq<B::Scalar>,
    solution: Seq<B::Scalar>,
) -> B::Scalar {
    backend.spec_norm_l2(difference(backend, right_hand_side, operator.spec_apply(backend, solution)))
}

/// What an LSQR report states of where the solve started: the threshold is
/// the policy's for `‖b‖₂`, the initial residual is `‖b − A·x₀‖₂` of the
/// caller's `x₀`, and a solve that ends before its first update leaves `x₀`
/// in place.
pub open spec fn lsqr_start_law<B: KrylovBackend, O: RectangularOperator<B>>(
    backend: &B,
    operator: &O,
    policy: ConvergencePolicy<B::Scalar>,
    right_hand_side: &B::Vector,
    old_solution: B::Vector,
    final_solution: B::Vector,
    report: SolveReport<B::Scalar>,
) -> bool {
    &&& report.threshold == policy.spec_threshold(backend, backend.spec_norm_l2(B::spec_vector(right_hand_side)))
    &&& report.initial_residual_norm == lsqr_residual_norm(
        backend,
        operator,
        B::spec_vector(right_hand_side),
        B::spec_vector(&old_solution),
    )
    &&& report.iterations == 0 ==> final_solution == old_solution
}

/// What an LSQR entry point returns: the first dimension mismatch, untouched
/// buffers and all, or else a backend failure or a report obeying
/// [`lsqr_report_law`].
pub open spec fn lsqr_solve_outcome<B: KrylovBackend, O: RectangularOperator<B>>(
    backend: &B,
    operator: &O,
    damping: B::Scalar,
    policy: ConvergencePolicy<B::Scalar>,
    right_hand_side: &B::Vector,
    old_solution: B::Vector,
    final_solution: B::Vector,
    old_workspace: LsqrWorkspace<B>,
    final_workspace: LsqrWorkspace<B>,
    outcome: Result<SolveReport<B::Scalar>, SolveError<B::Error>>,
) -> bool {
    match lsqr_dimension_check::<B, B::Error>(
        operator.spec_rows() as usize,
        operator.spec_columns() as usize,
        right_hand_side,
        &old_solution,
        &old_workspace,
    ) {
        Err(mismatch) => {
            &&& outcome == Err::<SolveReport<B::Scalar>, SolveError<B::Error>>(mismatch)
            &&& final_solution == old_solution
            &&& final_workspace == old_workspace
        },
        Ok(()) => {
            &&& final_workspace.spec_rows() == old_workspace.spec_rows()
            &&& final_workspace.spec_columns() == old_workspace.spec_columns()
            &&& match outcome {
                Ok(report) => {
                    &&& lsqr_report_law(backend, policy, report)
                    &&& lsqr_start_law(backend, operator, policy, right_hand_side, old_solution, final_solution, report)
                    &&& B::spec_vector(&final_solution) == lsqr_recurrence(
                        backend,
                        operator,
                        B::spec_vector(right_hand_side),
                        B::spec_vector(&old_solution),
                        damping,
                        lsqr_reached(report),
                    ).0.0
                },
                Err(error) => error is Backend,
            }
        },
    }
}

/// The budget bound under which LSQR's operator counter cannot overflow.
pub open spec fn lsqr_budget_admissible<T>(policy: ConvergencePolicy<T>) -> bool {
    policy.spec_max_iterations() <= (usize::MAX - 4) / 2
}

struct LsqrState<T> {
    initial_residual: T,
    residual: T,
    threshold: T,
    alpha: T,
    phi_bar: T,
    rho_bar: T,
    /// Estimate `|φ̄|·α·|c|` of the normal-equation residual `‖Aᵀr‖`.
    normal_residual: T,
    iterations: usize,
    operator_applications: usize,
}

impl<T: Copy> LsqrState<T> {
    fn report(&self, termination: Termination) -> (report: SolveReport<T>)
        ensures
            report.termination == termination,
            report.iterations == self.iterations,
            report.operator_applications == self.operator_applications,
            report.preconditioner_applications == 0,
            report.initial_residual_norm == self.initial_residual,
            report.final_residual_norm == self.residual,
            report.threshold == self.threshold,
    {
        SolveReport::new(
            termination,
            self.iterations,
            self.operator_applications,
            0,
            self.initial_residual,
            self.residual,
            self.threshold,
        )
    }
}

/// Report for a solve that terminated before the first iteration.
fn initial_report<T: Copy>(
    termination: Termination,
    operator_applications: usize,
    residual: T,
    threshold: T,
) -> (report: SolveReport<T>)
    ensures
        report.termination == termination,
        report.iterations == 0,
        report.operator_applications == operator_applications,
        report.preconditioner_applications == 0,
        report.initial_residual_norm == residual,
        report.final_residual_norm == residual,
        report.threshold == threshold,
{
    SolveReport::new(termination, 0, operator_applications, 0, residual, residual, threshold)
}

/// The residual test of a step: `|φ̄| ≤ threshold`, `|φ̄|` being the
/// residual estimate of the current iterate.
spec fn lsqr_converges<B: KrylovBackend>(backend: &B, state: LsqrState<B::Scalar>) -> bool {
    &&& state.residual == backend.spec_abs(state.phi_bar)
    &&& backend.spec_less_equal(state.residual, state.threshold)
}

/// The scale-free normal-equation test of a step: a nonzero residual whose
/// normal-equation residual `‖Aᵀr‖ ≈ |φ̄|·α·|c|` is at most the relative
/// tolerance times it.
spec fn lsqr_normal_equations_met<B: KrylovBackend>(
    backend: &B,
    policy: ConvergencePolicy<B::Scalar>,
    state: LsqrState<B::Scalar>,
) -> bool {
    &&& state.residual == backend.spec_abs(state.phi_bar)
    &&& backend.spec_less(backend.spec_zero(), state.residual)
    &&& backend.spec_less_equal(
        state.normal_residual,
        backend.spec_mul(policy.spec_relative_tolerance(), state.residual),
    )
}

/// `ρ̄₁ = √(ρ̄² + λ²)`: the bidiagonal entry after the damping row `λ` of
/// `[A; λI]` is rotated out; `ρ̄` itself when `λ² = 0`.
pub open spec fn damped_rho_bar<B: KrylovBackend>(backend: &B, rho_bar: B::Scalar, damping: B::Scalar) -> B::Scalar {
    let damping_squared = backend.spec_mul(damping, damping);
    if backend.spec_less(backend.spec_zero(), damping_squared) {
        backend.spec_sqrt(backend.spec_add(backend.spec_mul(rho_bar, rho_bar), damping_squared))
    } else {
        rho_bar
    }
}

/// `φ̄ ← (ρ̄/ρ̄₁)·φ̄`: the right-hand side entry after the damping rotation.
pub open spec fn damped_phi_bar<B: KrylovBackend>(
    backend: &B,
    rho_bar: B::Scalar,
    phi_bar: B::Scalar,
    damping: B::Scalar,
) -> B::Scalar {
    if backend.spec_less(backend.spec_zero(), backend.spec_mul(damping, damping)) {
        backend.spec_mul(backend.spec_div(rho_bar, damped_rho_bar(backend, rho_bar, damping)), phi_bar)
    } else {
        phi_bar
    }
}

/// The LSQR recurrence as the backend and the operator compute it, for
/// damping `λ`: iterate `k` is `((x, w), (u, v), (α, φ̄, ρ̄))` after `k` steps
/// from `x₀`. It starts from `β·u = b − A·x₀`, `α·v = Aᵀu`, `w = v`,
/// `φ̄ = β`, `ρ̄ = α`, and each step is [`lsqr_advance`].
pub open spec fn lsqr_recurrence<B: KrylovBackend, O: RectangularOperator<B>>(
    backend: &B,
    operator: &O,
    right_hand_side: Seq<B::Scalar>,
    initial_solution: Seq<B::Scalar>,
    damping: B::Scalar,
    steps: nat,
) -> ((Seq<B::Scalar>, Seq<B::Scalar>), (Seq<B::Scalar>, Seq<B::Scalar>), (B::Scalar, B::Scalar, B::Scalar))
    decreases steps,
{
    if steps == 0 {
        let residual = difference(backend, right_hand_side, operator.spec_apply(backend, initial_solution));
        let beta = backend.spec_norm_l2(residual);
        let left = normalised(backend, residual, beta);
        let adjoint = operator.spec_apply_transpose(backend, left);
        let alpha = backend.spec_norm_l2(adjoint);
        let right = normalised(backend, adjoint, alpha);
        ((initial_solution, right), (left, right), (alpha, beta, alpha))
    } else {
        lsqr_advance(
            backend,
            operator,
            damping,
            lsqr_recurrence(backend, operator, right_hand_side, initial_solution, damping, (steps - 1) as nat),
        )
    }
}

/// One LSQR step: `β·u ← A·v − α·u`, `α·v ← Aᵀ·u − β·v`, the damping
/// rotation ([`damped_rho_bar`], [`damped_phi_bar`]), the plane rotation
/// `ρ = √(ρ̄₁² + β²)`, `c = ρ̄₁/ρ`, `s = β/ρ`, then `x ← x + (c·φ̄₁/ρ)·w`,
/// `w ← v − (s·α/ρ)·w`, `φ̄ ← s·φ̄₁`, `ρ̄ ← −c·α`.
pub open spec fn lsqr_advance<B: KrylovBackend, O: RectangularOperator<B>>(
    backend: &B,
    operator: &O,
    damping: B::Scalar,
    iterate: ((Seq<B::Scalar>, Seq<B::Scalar>), (Seq<B::Scalar>, Seq<B::Scalar>), (B::Scalar, B::Scalar, B::Scalar)),
) -> ((Seq<B::Scalar>, Seq<B::Scalar>), (Seq<B::Scalar>, Seq<B::Scalar>), (B::Scalar, B::Scalar, B::Scalar)) {
    let ((solution, direction), (left, right), (alpha, phi_bar, rho_bar)) = iterate;
    let formed_left = bidiagonal_step(backend, left, operator.spec_apply(backend, right), alpha);
    let beta = backend.spec_norm_l2(formed_left);
    let next_left = renormalised(backend, formed_left, beta);
    let formed_right = bidiagonal_step(backend, right, operator.spec_apply_transpose(backend, next_left), beta);
    let next_alpha = backend.spec_norm_l2(formed_right);
    let next_right = renormalised(backend, formed_right, next_alpha);
    let rho_bar_damped = damped_rho_bar(backend, rho_bar, damping);
    let phi_bar_damped = damped_phi_bar(backend, rho_bar, phi_bar, damping);
    let rho = backend.spec_sqrt(
        backend.spec_add(backend.spec_mul(rho_bar_damped, rho_bar_damped), backend.spec_mul(beta, beta)),
    );
    let cosine = backend.spec_div(rho_bar_damped, rho);
    let sine = backend.spec_div(beta, rho);
    let theta = backend.spec_mul(sine, next_alpha);
    (
        (
            axpy_result(
                backend,
                solution,
                direction,
                backend.spec_div(backend.spec_mul(cosine, phi_bar_damped), rho),
            ),
            axpy_result(
                backend,
                direction.map_values(
                    |value: B::Scalar| backend.spec_mul(value, backend.spec_neg(backend.spec_div(theta, rho))),
                ),
                next_right,
                backend.spec_one(),
            ),
        ),
        (next_left, next_right),
        (next_alpha, backend.spec_mul(sine, phi_bar_damped), backend.spec_mul(backend.spec_neg(cosine), next_alpha)),
    )
}

/// The recurrence's view of a running solve: its iterate, workspace vectors
/// and scalars.
spec fn lsqr_current<B: KrylovBackend>(
    solution: B::Vector,
    workspace: LsqrWorkspace<B>,
    state: LsqrState<B::Scalar>,
) -> ((Seq<B::Scalar>, Seq<B::Scalar>), (Seq<B::Scalar>, Seq<B::Scalar>), (B::Scalar, B::Scalar, B::Scalar)) {
    (
        (B::spec_vector(&solution), B::spec_vector(&workspace.direction)),
        (B::spec_vector(&workspace.left), B::spec_vector(&workspace.right)),
        (state.alpha, state.phi_bar, state.rho_bar),
    )
}

/// The number of completed recurrence steps behind a report's iterate: a
/// breakdown is counted as an iteration but leaves the iterate of the step
/// before it.
pub open spec fn lsqr_reached<T>(report: SolveReport<T>) -> nat {
    if report.termination == Termination::Breakdown && report.iterations > 0 {
        (report.iterations - 1) as nat
    } else {
        report.iterations as nat
    }
}

/// What a step finds non-finite: the norm of a new bidiagonalisation vector,
/// the residual estimate, or the normal-equation residual estimate.
spec fn lsqr_non_finite<B: KrylovBackend>(
    backend: &B,
    state: LsqrState<B::Scalar>,
    workspace: LsqrWorkspace<B>,
) -> bool {
    ||| !backend.spec_is_finite(backend.spec_norm_l2(B::spec_vector(&workspace.left)))
    ||| !backend.spec_is_finite(backend.spec_norm_l2(B::spec_vector(&workspace.right)))
    ||| !backend.spec_is_finite(state.residual)
    ||| !backend.spec_is_finite(state.normal_residual)
}

/// LSQR loop state before a step.
spec fn lsqr_ready<B: KrylovBackend>(
    backend: &B,
    policy: ConvergencePolicy<B::Scalar>,
    state: LsqrState<B::Scalar>,
) -> bool {
    &&& lsqr_budget_admissible(policy)
    &&& state.iterations < policy.spec_max_iterations() || state.iterations
        == policy.spec_max_iterations()
    &&& state.operator_applications == 2 * state.iterations + 2
    &&& backend.spec_is_finite(state.initial_residual)
    &&& !backend.spec_less_equal(state.initial_residual, state.threshold)
    &&& (state.iterations == 0 ==> state.residual == state.initial_residual)
    &&& (state.iterations > 0 ==> backend.spec_is_finite(state.residual) && !backend.spec_less_equal(
        state.residual,
        state.threshold,
    ))
    &&& exists|rhs_norm: B::Scalar| #[trigger] policy.spec_threshold(backend, rhs_norm) == state.threshold
}

} // verus!

verus! {

fn lsqr_validate_dimensions<B: KrylovBackend, O: RectangularOperator<B>>(
    backend: &B,
    operator: &O,
    right_hand_side: &B::Vector,
    solution: &B::Vector,
    workspace: &LsqrWorkspace<B>,
) -> (outcome: Result<(), SolveError<B::Error>>)
    ensures
        outcome == lsqr_dimension_check::<B, B::Error>(
            operator.spec_rows() as usize,
            operator.spec_columns() as usize,
            right_hand_side,
            solution,
            workspace,
        ),
{
    let rows = operator.rows();
    let columns = operator.columns();
    validate_dimension("right-hand side", rows, backend.vector_len(right_hand_side))?;
    validate_dimension("solution", columns, backend.vector_len(solution))?;
    validate_dimension("LSQR workspace rows", rows, workspace.rows())?;
    validate_dimension("LSQR workspace columns", columns, workspace.columns())
}

/// `u ← b − A·x₀`, returning its norm before normalisation.
fn lsqr_seed_left<B: KrylovBackend, O: RectangularOperator<B>>(
    backend: &B,
    operator: &O,
    right_hand_side: &B::Vector,
    solution: &B::Vector,
    workspace: &mut LsqrWorkspace<B>,
) -> (outcome: Result<B::Scalar, SolveError<B::Error>>)
    ensures
        final(workspace).spec_rows() == old(workspace).spec_rows(),
        final(workspace).spec_columns() == old(workspace).spec_columns(),
        outcome matches Ok(norm) ==> norm == lsqr_residual_norm(
            backend,
            operator,
            B::spec_vector(right_hand_side),
            B::spec_vector(solution),
        ) && B::spec_vector(&final(workspace).left) == difference(
            backend,
            B::spec_vector(right_hand_side),
            operator.spec_apply(backend, B::spec_vector(solution)),
        ),
        final(workspace).right == old(workspace).right,
        final(workspace).direction == old(workspace).direction,
        outcome matches Err(error) ==> error is Backend,
{
    match operator.apply(backend, backend.view(solution), backend.view_mut(&mut workspace.image)) {
        Ok(()) => {},
        Err(error) => return Err(SolveError::Backend(error)),
    }
    match backend.residual(
        backend.view(right_hand_side),
        backend.view(&workspace.image),
        backend.view_mut(&mut workspace.left),
    ) {
        Ok(()) => {},
        Err(error) => return Err(SolveError::Backend(error)),
    }
    match backend.norm_l2_prepared(&workspace.left_norm, backend.view(&workspace.left)) {
        Ok(norm) => Ok(norm),
        Err(error) => Err(SolveError::Backend(error)),
    }
}

/// `v ← Aᵀ·u`, returning its norm before normalisation.
fn lsqr_seed_right<B: KrylovBackend, O: RectangularOperator<B>>(
    backend: &B,
    operator: &O,
    workspace: &mut LsqrWorkspace<B>,
) -> (outcome: Result<B::Scalar, SolveError<B::Error>>)
    ensures
        final(workspace).spec_rows() == old(workspace).spec_rows(),
        final(workspace).spec_columns() == old(workspace).spec_columns(),
        outcome matches Ok(norm) ==> norm == backend.spec_norm_l2(
            operator.spec_apply_transpose(backend, B::spec_vector(&old(workspace).left)),
        ) && B::spec_vector(&final(workspace).right) == operator.spec_apply_transpose(
            backend,
            B::spec_vector(&old(workspace).left),
        ),
        final(workspace).left == old(workspace).left,
        outcome matches Err(error) ==> error is Backend,
{
    match operator.apply_transpose(
        backend,
        backend.view(&workspace.left),
        backend.view_mut(&mut workspace.right),
    ) {
        Ok(()) => {},
        Err(error) => return Err(SolveError::Backend(error)),
    }
    match backend.norm_l2_prepared(&workspace.right_norm, backend.view(&workspace.right)) {
        Ok(norm) => Ok(norm),
        Err(error) => Err(SolveError::Backend(error)),
    }
}

/// `u = b − A·x₀`, normalised; then `v = Aᵀu`, normalised; `w = v`.
fn lsqr_initialize<B: KrylovBackend, O: RectangularOperator<B>>(
    backend: &B,
    operator: &O,
    right_hand_side: &B::Vector,
    solution: &B::Vector,
    workspace: &mut LsqrWorkspace<B>,
    policy: ConvergencePolicy<B::Scalar>,
) -> (outcome: Result<Stage<LsqrState<B::Scalar>, B::Scalar>, SolveError<B::Error>>)
    requires
        lsqr_budget_admissible(policy),
    ensures
        final(workspace).spec_rows() == old(workspace).spec_rows(),
        final(workspace).spec_columns() == old(workspace).spec_columns(),
        match outcome {
            Ok(Stage::Complete(report)) => {
                &&& lsqr_report_law(backend, policy, report)
                &&& report.iterations == 0
                &&& report.threshold == policy.spec_threshold(
                    backend,
                    backend.spec_norm_l2(B::spec_vector(right_hand_side)),
                )
                &&& report.initial_residual_norm == lsqr_residual_norm(
                    backend,
                    operator,
                    B::spec_vector(right_hand_side),
                    B::spec_vector(solution),
                )
            },
            Ok(Stage::Continue(state)) => {
                let left = normalised(
                    backend,
                    difference(
                        backend,
                        B::spec_vector(right_hand_side),
                        operator.spec_apply(backend, B::spec_vector(solution)),
                    ),
                    state.initial_residual,
                );
                let adjoint = operator.spec_apply_transpose(backend, left);
                &&& state.iterations == 0
                &&& state.alpha == backend.spec_norm_l2(adjoint)
                &&& state.rho_bar == state.alpha
                &&& state.phi_bar == state.initial_residual
                &&& state.residual == state.initial_residual
                &&& B::spec_vector(&final(workspace).left) == left
                &&& B::spec_vector(&final(workspace).right) == normalised(backend, adjoint, state.alpha)
                &&& B::spec_vector(&final(workspace).direction) == B::spec_vector(&final(workspace).right)
                &&& lsqr_ready(backend, policy, state)
                &&& state.threshold == policy.spec_threshold(
                    backend,
                    backend.spec_norm_l2(B::spec_vector(right_hand_side)),
                )
                &&& state.initial_residual == lsqr_residual_norm(
                    backend,
                    operator,
                    B::spec_vector(right_hand_side),
                    B::spec_vector(solution),
                )
            },
            Err(error) => error is Backend,
        },
{
    let right_hand_side_norm = match backend.norm_l2(backend.view(right_hand_side)) {
        Ok(norm) => norm,
        Err(error) => return Err(SolveError::Backend(error)),
    };
    let threshold = policy.threshold(backend, right_hand_side_norm);
    assert(policy.spec_threshold(backend, right_hand_side_norm) == threshold);
    let beta = lsqr_seed_left(backend, operator, right_hand_side, solution, workspace)?;
    if !backend.is_finite(beta) || !backend.is_finite(threshold) {
        return Ok(Stage::Complete(initial_report(Termination::NonFinite, 1, beta, threshold)));
    }
    if backend.less_equal(beta, threshold) {
        return Ok(Stage::Complete(initial_report(Termination::InitialResidual, 1, beta, threshold)));
    }
    match backend.scale(backend.view_mut(&mut workspace.left), backend.div(backend.one(), beta)) {
        Ok(()) => {},
        Err(error) => return Err(SolveError::Backend(error)),
    }
    let alpha = lsqr_seed_right(backend, operator, workspace)?;
    if !backend.is_finite(alpha) {
        return Ok(Stage::Complete(initial_report(Termination::NonFinite, 2, beta, threshold)));
    }
    // `Aᵀr = 0` at a non-zero residual is the exact least-squares optimum.
    if backend.equal(alpha, backend.zero()) {
        return Ok(Stage::Complete(initial_report(Termination::NormalEquations, 2, beta, threshold)));
    }
    match backend.scale(backend.view_mut(&mut workspace.right), backend.div(backend.one(), alpha)) {
        Ok(()) => {},
        Err(error) => return Err(SolveError::Backend(error)),
    }
    match backend.copy(backend.view(&workspace.right), backend.view_mut(&mut workspace.direction)) {
        Ok(()) => {},
        Err(error) => return Err(SolveError::Backend(error)),
    }
    let _budget = policy.max_iterations();
    Ok(
        Stage::Continue(
            LsqrState {
                initial_residual: beta,
                residual: beta,
                threshold,
                alpha,
                phi_bar: beta,
                rho_bar: alpha,
                normal_residual: backend.mul(alpha, beta),
                iterations: 0,
                operator_applications: 2,
            },
        ),
    )
}

/// `βu ← A·v − αu`, returning the new `β` after normalising `u`, or `None`
/// when `β` is not finite.
fn lsqr_advance_left<B: KrylovBackend, O: RectangularOperator<B>>(
    backend: &B,
    operator: &O,
    workspace: &mut LsqrWorkspace<B>,
    alpha: B::Scalar,
) -> (outcome: Result<Option<B::Scalar>, SolveError<B::Error>>)
    ensures
        final(workspace).spec_rows() == old(workspace).spec_rows(),
        final(workspace).spec_columns() == old(workspace).spec_columns(),
        final(workspace).direction == old(workspace).direction,
        final(workspace).right == old(workspace).right,
        outcome matches Ok(Some(beta)) ==> backend.spec_is_finite(beta),
        outcome matches Ok(None) ==> !backend.spec_is_finite(
            backend.spec_norm_l2(B::spec_vector(&final(workspace).left)),
        ),
        ({
            let formed = bidiagonal_step(
                backend,
                B::spec_vector(&old(workspace).left),
                operator.spec_apply(backend, B::spec_vector(&old(workspace).right)),
                alpha,
            );
            &&& outcome matches Ok(Some(beta)) ==> beta == backend.spec_norm_l2(formed)
                && B::spec_vector(&final(workspace).left) == renormalised(backend, formed, beta)
            &&& outcome matches Ok(None) ==> B::spec_vector(&final(workspace).left) == formed
        }),
        outcome matches Err(error) ==> error is Backend,
{
    let one = backend.one();
    match operator.apply(backend, backend.view(&workspace.right), backend.view_mut(&mut workspace.image)) {
        Ok(()) => {},
        Err(error) => return Err(SolveError::Backend(error)),
    }
    match backend.scale(backend.view_mut(&mut workspace.left), backend.neg(alpha)) {
        Ok(()) => {},
        Err(error) => return Err(SolveError::Backend(error)),
    }
    match backend.axpy(backend.view_mut(&mut workspace.left), backend.view(&workspace.image), one) {
        Ok(()) => {},
        Err(error) => return Err(SolveError::Backend(error)),
    }
    let beta = match backend.norm_l2_prepared(&workspace.left_norm, backend.view(&workspace.left)) {
        Ok(norm) => norm,
        Err(error) => return Err(SolveError::Backend(error)),
    };
    if !backend.is_finite(beta) {
        return Ok(None);
    }
    if backend.less(backend.zero(), beta) {
        match backend.scale(backend.view_mut(&mut workspace.left), backend.div(one, beta)) {
            Ok(()) => {},
            Err(error) => return Err(SolveError::Backend(error)),
        }
    }
    Ok(Some(beta))
}

/// `αv ← Aᵀ·u − βv`, returning the new `α` after normalising `v`, or `None`
/// when `α` is not finite. Counts the forward and adjoint applications of the
/// step.
fn lsqr_advance_right<B: KrylovBackend, O: RectangularOperator<B>>(
    backend: &B,
    operator: &O,
    workspace: &mut LsqrWorkspace<B>,
    state: &mut LsqrState<B::Scalar>,
    beta: B::Scalar,
) -> (outcome: Result<Option<B::Scalar>, SolveError<B::Error>>)
    requires
        old(state).operator_applications <= usize::MAX - 2,
    ensures
        final(workspace).spec_rows() == old(workspace).spec_rows(),
        final(workspace).spec_columns() == old(workspace).spec_columns(),
        outcome is Ok ==> final(state).operator_applications == old(state).operator_applications + 2,
        final(state).initial_residual == old(state).initial_residual,
        final(state).residual == old(state).residual,
        final(state).threshold == old(state).threshold,
        final(state).iterations == old(state).iterations,
        final(state).alpha == old(state).alpha,
        final(state).phi_bar == old(state).phi_bar,
        final(state).rho_bar == old(state).rho_bar,
        final(state).normal_residual == old(state).normal_residual,
        final(workspace).direction == old(workspace).direction,
        final(workspace).left == old(workspace).left,
        outcome matches Ok(Some(alpha)) ==> backend.spec_is_finite(alpha),
        outcome matches Ok(None) ==> !backend.spec_is_finite(
            backend.spec_norm_l2(B::spec_vector(&final(workspace).right)),
        ),
        ({
            let formed = bidiagonal_step(
                backend,
                B::spec_vector(&old(workspace).right),
                operator.spec_apply_transpose(backend, B::spec_vector(&old(workspace).left)),
                beta,
            );
            &&& outcome matches Ok(Some(alpha)) ==> alpha == backend.spec_norm_l2(formed)
                && B::spec_vector(&final(workspace).right) == renormalised(backend, formed, alpha)
            &&& outcome matches Ok(None) ==> B::spec_vector(&final(workspace).right) == formed
        }),
        outcome matches Err(error) ==> error is Backend,
{
    let one = backend.one();
    match operator.apply_transpose(
        backend,
        backend.view(&workspace.left),
        backend.view_mut(&mut workspace.adjoint_image),
    ) {
        Ok(()) => {},
        Err(error) => return Err(SolveError::Backend(error)),
    }
    state.operator_applications = state.operator_applications + 2;
    match backend.scale(backend.view_mut(&mut workspace.right), backend.neg(beta)) {
        Ok(()) => {},
        Err(error) => return Err(SolveError::Backend(error)),
    }
    match backend.axpy(
        backend.view_mut(&mut workspace.right),
        backend.view(&workspace.adjoint_image),
        one,
    ) {
        Ok(()) => {},
        Err(error) => return Err(SolveError::Backend(error)),
    }
    let alpha = match backend.norm_l2_prepared(&workspace.right_norm, backend.view(&workspace.right)) {
        Ok(norm) => norm,
        Err(error) => return Err(SolveError::Backend(error)),
    };
    if !backend.is_finite(alpha) {
        return Ok(None);
    }
    if backend.less(backend.zero(), alpha) {
        match backend.scale(backend.view_mut(&mut workspace.right), backend.div(one, alpha)) {
            Ok(()) => {},
            Err(error) => return Err(SolveError::Backend(error)),
        }
    }
    Ok(Some(alpha))
}

} // verus!

verus! {

/// One bidiagonalisation step with its plane rotation, solution update and
/// termination tests. Tikhonov damping `λ` is eliminated by a rotation of its
/// own before the bidiagonal one (Paige & Saunders 1982, §4.4), so the
/// iterates minimise `‖[A; λI]·x − [b; 0]‖₂`.
#[allow(clippy::too_many_arguments)]
fn lsqr_step<B: KrylovBackend, O: RectangularOperator<B>, Obs: IterationObserver<B::Scalar>>(
    backend: &B,
    operator: &O,
    solution: &mut B::Vector,
    workspace: &mut LsqrWorkspace<B>,
    policy: ConvergencePolicy<B::Scalar>,
    observer: &mut Obs,
    damping: B::Scalar,
    state: &mut LsqrState<B::Scalar>,
) -> (outcome: Result<Option<SolveReport<B::Scalar>>, SolveError<B::Error>>)
    requires
        lsqr_ready(backend, policy, *old(state)),
        old(state).iterations < policy.spec_max_iterations(),
    ensures
        final(workspace).spec_rows() == old(workspace).spec_rows(),
        final(workspace).spec_columns() == old(workspace).spec_columns(),
        final(state).initial_residual == old(state).initial_residual,
        final(state).threshold == old(state).threshold,
        match outcome {
            Ok(Some(report)) => {
                &&& lsqr_report_law(backend, policy, report)
                &&& report.initial_residual_norm == old(state).initial_residual
                &&& report.threshold == old(state).threshold
                &&& report.iterations == old(state).iterations || report.iterations == old(state).iterations + 1
                &&& report.iterations == old(state).iterations ==> *final(solution) == *old(solution)
                &&& report.termination == Termination::Breakdown ==> *final(solution) == *old(solution)
                    && report.iterations == old(state).iterations + 1
                &&& (report.termination == Termination::Converged || report.termination
                    == Termination::NormalEquations) ==> report.iterations == old(state).iterations + 1
                &&& report.termination == Termination::Converged ==> lsqr_converges(
                    backend,
                    *final(state),
                )
                &&& report.termination == Termination::NonFinite ==> lsqr_non_finite(
                    backend,
                    *final(state),
                    *final(workspace),
                )
                &&& report.termination == Termination::NormalEquations ==> !lsqr_converges(
                    backend,
                    *final(state),
                ) && lsqr_normal_equations_met(backend, policy, *final(state))
            },
            Ok(None) => {
                &&& lsqr_ready(backend, policy, *final(state))
                &&& final(state).iterations == old(state).iterations + 1
                &&& !lsqr_converges(backend, *final(state))
                &&& !lsqr_normal_equations_met(backend, policy, *final(state))
            },
            Err(error) => error is Backend,
        },
        ({
            let formed_left = bidiagonal_step(
                backend,
                B::spec_vector(&old(workspace).left),
                operator.spec_apply(backend, B::spec_vector(&old(workspace).right)),
                old(state).alpha,
            );
            let beta = backend.spec_norm_l2(formed_left);
            let left = renormalised(backend, formed_left, beta);
            let formed_right = bidiagonal_step(
                backend,
                B::spec_vector(&old(workspace).right),
                operator.spec_apply_transpose(backend, left),
                beta,
            );
            let alpha = backend.spec_norm_l2(formed_right);
            let right = renormalised(backend, formed_right, alpha);
            let rho_bar_damped = damped_rho_bar(backend, old(state).rho_bar, damping);
            let phi_bar_damped = damped_phi_bar(backend, old(state).rho_bar, old(state).phi_bar, damping);
            let rho = backend.spec_sqrt(
                backend.spec_add(
                    backend.spec_mul(rho_bar_damped, rho_bar_damped),
                    backend.spec_mul(beta, beta),
                ),
            );
            let cosine = backend.spec_div(rho_bar_damped, rho);
            let sine = backend.spec_div(beta, rho);
            let phi_bar = backend.spec_mul(sine, phi_bar_damped);
            let step = backend.spec_div(backend.spec_mul(cosine, phi_bar_damped), rho);
            let theta = backend.spec_mul(sine, alpha);
            let completed = match outcome {
                Ok(None) => true,
                Ok(Some(report)) => report.iterations == old(state).iterations + 1 && report.termination
                    != Termination::Breakdown,
                Err(_) => false,
            };
            let observed = match outcome {
                Ok(None) => true,
                Ok(Some(report)) => report.termination == Termination::Converged || report.termination
                    == Termination::NormalEquations,
                Err(_) => false,
            } && policy.spec_should_check(final(state).iterations);
            &&& completed ==> {
                &&& B::spec_vector(&final(workspace).left) == left
                &&& B::spec_vector(&final(workspace).right) == right
                &&& final(state).rho_bar == backend.spec_mul(backend.spec_neg(cosine), alpha)
                &&& final(state).phi_bar == phi_bar
                &&& final(state).residual == backend.spec_abs(phi_bar)
                &&& final(state).normal_residual == backend.spec_mul(
                    backend.spec_mul(backend.spec_abs(phi_bar), alpha),
                    backend.spec_abs(cosine),
                )
                &&& B::spec_vector(final(solution)) == axpy_result(
                    backend,
                    B::spec_vector(old(solution)),
                    B::spec_vector(&old(workspace).direction),
                    step,
                )
                &&& B::spec_vector(&final(workspace).direction) == axpy_result(
                    backend,
                    B::spec_vector(&old(workspace).direction).map_values(
                        |value: B::Scalar| backend.spec_mul(value, backend.spec_neg(backend.spec_div(theta, rho))),
                    ),
                    right,
                    backend.spec_one(),
                )
            }
            &&& outcome matches Ok(None) ==> final(state).alpha == alpha
            &&& outcome matches Ok(None) ==> lsqr_current(*final(solution), *final(workspace), *final(state))
                == lsqr_advance(backend, operator, damping, lsqr_current(*old(solution), *old(workspace), *old(state)))
            &&& completed ==> B::spec_vector(final(solution)) == lsqr_advance(
                backend,
                operator,
                damping,
                lsqr_current(*old(solution), *old(workspace), *old(state)),
            ).0.0
            &&& (outcome matches Ok(Some(report)) && report.termination == Termination::Breakdown) ==> (
            !backend.spec_is_finite(rho) || backend.spec_equal(rho, backend.spec_zero()))
            &&& observation_appended(
                *old(observer),
                *final(observer),
                observed,
                IterationState {
                    iteration: final(state).iterations,
                    residual_norm: final(state).residual,
                    threshold: final(state).threshold,
                },
            )
        }),
{
    let one = backend.one();
    let zero = backend.zero();
    let damping_squared = backend.mul(damping, damping);
    let beta = match lsqr_advance_left(backend, operator, workspace, state.alpha)? {
        Some(beta) => beta,
        None => return Ok(Some(state.report(Termination::NonFinite))),
    };
    let alpha = match lsqr_advance_right(backend, operator, workspace, state, beta)? {
        Some(alpha) => alpha,
        None => return Ok(Some(state.report(Termination::NonFinite))),
    };
    state.iterations = state.iterations + 1;
    // A damped problem first eliminates the `λ` row of `[A; λI]` against
    // `ρ̄`: `ρ̄₁ = √(ρ̄² + λ²)`, `φ̄ ← (ρ̄/ρ̄₁)·φ̄`.
    let mut rho_bar_damped = state.rho_bar;
    if backend.less(zero, damping_squared) {
        rho_bar_damped = backend.sqrt(backend.add(backend.mul(state.rho_bar, state.rho_bar), damping_squared));
        state.phi_bar = backend.mul(backend.div(state.rho_bar, rho_bar_damped), state.phi_bar);
    }
    let rho = backend.sqrt(
        backend.add(backend.mul(rho_bar_damped, rho_bar_damped), backend.mul(beta, beta)),
    );
    if !backend.is_finite(rho) || backend.equal(rho, zero) {
        return Ok(Some(state.report(Termination::Breakdown)));
    }
    let cosine = backend.div(rho_bar_damped, rho);
    let sine = backend.div(beta, rho);
    let theta = backend.mul(sine, alpha);
    state.rho_bar = backend.mul(backend.neg(cosine), alpha);
    let phi = backend.mul(cosine, state.phi_bar);
    state.phi_bar = backend.mul(sine, state.phi_bar);
    // x += (phi/rho) w
    let step = backend.div(phi, rho);
    match backend.axpy(backend.view_mut(solution), backend.view(&workspace.direction), step) {
        Ok(()) => {},
        Err(error) => return Err(SolveError::Backend(error)),
    }
    assert(B::spec_vector(solution) == axpy_result(
        backend,
        B::spec_vector(old(solution)),
        B::spec_vector(&old(workspace).direction),
        step,
    ));
    // w = v - (theta/rho) w
    match backend.scale(
        backend.view_mut(&mut workspace.direction),
        backend.neg(backend.div(theta, rho)),
    ) {
        Ok(()) => {},
        Err(error) => return Err(SolveError::Backend(error)),
    }
    match backend.axpy(
        backend.view_mut(&mut workspace.direction),
        backend.view(&workspace.right),
        one,
    ) {
        Ok(()) => {},
        Err(error) => return Err(SolveError::Backend(error)),
    }
    // `phi_bar` is the residual norm of the current iterate, and
    // `phi_bar · alpha · |cosine|` is the norm of `Aᵀr`.
    state.residual = backend.abs(state.phi_bar);
    let normal_residual = backend.mul(
        backend.mul(backend.abs(state.phi_bar), alpha),
        backend.abs(cosine),
    );
    state.normal_residual = normal_residual;
    if !backend.is_finite(state.residual) || !backend.is_finite(normal_residual) {
        return Ok(Some(state.report(Termination::NonFinite)));
    }
    state.alpha = alpha;
    if policy.should_check(state.iterations) {
        observer.observe(IterationState::new(state.iterations, state.residual, state.threshold));
    }
    if backend.less_equal(state.residual, state.threshold) {
        return Ok(Some(state.report(Termination::Converged)));
    }
    // Scale-free normal-equation test: an inconsistent system keeps a
    // residual bounded away from zero, so only this criterion can report its
    // optimum.
    if backend.less(zero, state.residual) && backend.less_equal(
        state.normal_residual,
        backend.mul(policy.relative_tolerance(), state.residual),
    ) {
        return Ok(Some(state.report(Termination::NormalEquations)));
    }
    Ok(None)
}

#[allow(clippy::too_many_arguments)]
fn lsqr_iterate<B: KrylovBackend, O: RectangularOperator<B>, Obs: IterationObserver<B::Scalar>>(
    backend: &B,
    operator: &O,
    solution: &mut B::Vector,
    workspace: &mut LsqrWorkspace<B>,
    policy: ConvergencePolicy<B::Scalar>,
    observer: &mut Obs,
    damping: B::Scalar,
    entering: LsqrState<B::Scalar>,
    right_hand_side: Ghost<Seq<B::Scalar>>,
) -> (outcome: Result<SolveReport<B::Scalar>, SolveError<B::Error>>)
    requires
        entering.iterations == 0,
        lsqr_ready(backend, policy, entering),
        lsqr_current(*old(solution), *old(workspace), entering) == lsqr_recurrence(
            backend,
            operator,
            right_hand_side@,
            B::spec_vector(old(solution)),
            damping,
            entering.iterations as nat,
        ),
    ensures
        final(workspace).spec_rows() == old(workspace).spec_rows(),
        final(workspace).spec_columns() == old(workspace).spec_columns(),
        match outcome {
            Ok(report) => {
                &&& lsqr_report_law(backend, policy, report)
                &&& report.initial_residual_norm == entering.initial_residual
                &&& report.threshold == entering.threshold
                &&& report.iterations == entering.iterations ==> *final(solution) == *old(solution)
                &&& B::spec_vector(final(solution)) == lsqr_recurrence(
                    backend,
                    operator,
                    right_hand_side@,
                    B::spec_vector(old(solution)),
                    damping,
                    lsqr_reached(report),
                ).0.0
            },
            Err(error) => error is Backend,
        },
{
    let mut state = entering;
    let max_iterations = policy.max_iterations();
    while state.iterations < max_iterations
        invariant
            workspace.spec_rows() == old(workspace).spec_rows(),
            workspace.spec_columns() == old(workspace).spec_columns(),
            max_iterations == policy.spec_max_iterations(),
            lsqr_ready(backend, policy, state),
            state.initial_residual == entering.initial_residual,
            state.threshold == entering.threshold,
            entering.iterations <= state.iterations,
            state.iterations == entering.iterations ==> *solution == *old(solution),
            entering.iterations == 0,
            lsqr_current(*solution, *workspace, state) == lsqr_recurrence(
                backend,
                operator,
                right_hand_side@,
                B::spec_vector(old(solution)),
                damping,
                state.iterations as nat,
            ),
        decreases max_iterations - state.iterations,
    {
        match lsqr_step(backend, operator, solution, workspace, policy, observer, damping, &mut state)? {
            Some(report) => return Ok(report),
            None => {},
        }
    }
    Ok(state.report(Termination::MaxIterations))
}

impl<B: KrylovBackend> Lsqr<B> {
    /// Solve `min ‖A·x − b‖₂` into caller-owned `solution` with no Tikhonov
    /// damping. `solution` is both the initial guess and the output.
    ///
    /// Returns a dimension or backend failure. Numerical termination is
    /// returned value-semantically in [`SolveReport`].
    pub fn solve_into<O: RectangularOperator<B>>(
        backend: &B,
        operator: &O,
        right_hand_side: &B::Vector,
        solution: &mut B::Vector,
        workspace: &mut LsqrWorkspace<B>,
        policy: ConvergencePolicy<B::Scalar>,
    ) -> (outcome: Result<SolveReport<B::Scalar>, SolveError<B::Error>>)
        requires
            lsqr_budget_admissible(policy),
        ensures
            lsqr_solve_outcome(
                backend,
                operator,
                backend.spec_zero(),
                policy,
                right_hand_side,
                *old(solution),
                *final(solution),
                *old(workspace),
                *final(workspace),
                outcome,
            ),
    {
        let mut observer = NoObserver;
        let damping = backend.zero();
        Self::solve_damped_with_observer(
            backend,
            operator,
            right_hand_side,
            solution,
            workspace,
            policy,
            damping,
            &mut observer,
        )
    }

    /// Solve while reporting configured residual checks to `observer`, with
    /// no Tikhonov damping.
    ///
    /// Returns a dimension or backend failure.
    pub fn solve_with_observer<O: RectangularOperator<B>, Obs: IterationObserver<B::Scalar>>(
        backend: &B,
        operator: &O,
        right_hand_side: &B::Vector,
        solution: &mut B::Vector,
        workspace: &mut LsqrWorkspace<B>,
        policy: ConvergencePolicy<B::Scalar>,
        observer: &mut Obs,
    ) -> (outcome: Result<SolveReport<B::Scalar>, SolveError<B::Error>>)
        requires
            lsqr_budget_admissible(policy),
        ensures
            lsqr_solve_outcome(
                backend,
                operator,
                backend.spec_zero(),
                policy,
                right_hand_side,
                *old(solution),
                *final(solution),
                *old(workspace),
                *final(workspace),
                outcome,
            ),
    {
        let damping = backend.zero();
        Self::solve_damped_with_observer(
            backend,
            operator,
            right_hand_side,
            solution,
            workspace,
            policy,
            damping,
            observer,
        )
    }

    /// Solve `min ‖A·x − b‖₂² + λ²·‖x‖₂²` (Tikhonov-regularised least squares,
    /// the least-squares solution of `[A; λI]·x ≈ [b; 0]`)
    /// into caller-owned `solution`, with `λ = damping ≥ 0`.
    ///
    /// Returns a dimension or backend failure. Numerical termination is
    /// returned value-semantically in [`SolveReport`].
    pub fn solve_damped_into<O: RectangularOperator<B>>(
        backend: &B,
        operator: &O,
        right_hand_side: &B::Vector,
        solution: &mut B::Vector,
        workspace: &mut LsqrWorkspace<B>,
        policy: ConvergencePolicy<B::Scalar>,
        damping: B::Scalar,
    ) -> (outcome: Result<SolveReport<B::Scalar>, SolveError<B::Error>>)
        requires
            lsqr_budget_admissible(policy),
        ensures
            lsqr_solve_outcome(
                backend,
                operator,
                damping,
                policy,
                right_hand_side,
                *old(solution),
                *final(solution),
                *old(workspace),
                *final(workspace),
                outcome,
            ),
    {
        let mut observer = NoObserver;
        Self::solve_damped_with_observer(
            backend,
            operator,
            right_hand_side,
            solution,
            workspace,
            policy,
            damping,
            &mut observer,
        )
    }

    /// Solve the damped least-squares problem while reporting configured
    /// residual checks to `observer`.
    ///
    /// Returns a dimension or backend failure.
    #[allow(clippy::too_many_arguments)]
    pub fn solve_damped_with_observer<O: RectangularOperator<B>, Obs: IterationObserver<B::Scalar>>(
        backend: &B,
        operator: &O,
        right_hand_side: &B::Vector,
        solution: &mut B::Vector,
        workspace: &mut LsqrWorkspace<B>,
        policy: ConvergencePolicy<B::Scalar>,
        damping: B::Scalar,
        observer: &mut Obs,
    ) -> (outcome: Result<SolveReport<B::Scalar>, SolveError<B::Error>>)
        requires
            lsqr_budget_admissible(policy),
        ensures
            lsqr_solve_outcome(
                backend,
                operator,
                damping,
                policy,
                right_hand_side,
                *old(solution),
                *final(solution),
                *old(workspace),
                *final(workspace),
                outcome,
            ),
    {
        lsqr_validate_dimensions(backend, operator, right_hand_side, solution, workspace)?;
        match lsqr_initialize(backend, operator, right_hand_side, solution, workspace, policy)? {
            Stage::Continue(state) => lsqr_iterate(
                backend,
                operator,
                solution,
                workspace,
                policy,
                observer,
                damping,
                state,
                Ghost(B::spec_vector(right_hand_side)),
            ),
            Stage::Complete(report) => Ok(report),
        }
    }
}

} // verus!
