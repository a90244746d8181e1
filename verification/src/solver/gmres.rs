//! Restarted right-preconditioned GMRES.
use vstd::prelude::*;
use core::marker::PhantomData;
use crate::backend::{KrylovBackend, axpy_result, spec_block_count, spec_vector_len};
use crate::convergence::{ConvergencePolicy, residual_noise_floor, spec_residual_noise_floor};
use crate::error::SolveError;
use crate::operator::{LinearOperator, Preconditioner};
use crate::report::{IterationObserver, IterationState, NoObserver, SolveReport, Termination};
use super::{
    Stage, carries_start, converged_on_true_residual, dimension_outcome, residual_norm_of, start_law,
    validate_dimension,
};
use super::cg::{is_threshold_of_some_norm, residual_meets};

verus! {

/// A restart width the workspace can size: positive, with the Hessenberg
/// storage `(RESTART + 1) · RESTART` representable.
pub open spec fn restart_admissible(restart: usize) -> bool {
    0 < restart < usize::MAX && (restart + 1) * restart <= usize::MAX
}

/// Column-major position of Hessenberg entry `(row, column)`.
pub open spec fn spec_hessenberg_index(restart: usize, row: int, column: int) -> int {
    column * (restart + 1) + row
}

proof fn lemma_hessenberg_index_in_bounds(restart: usize, row: int, column: int)
    by (nonlinear_arith)
    requires
        0 <= row <= restart,
        0 <= column < restart,
    ensures
        0 <= spec_hessenberg_index(restart, row, column) < (restart + 1) * restart,
{
}

/// Failure of a scalar step in the rotation or back-substitution.
#[derive(Clone, Copy, Debug, PartialEq, Eq, Structural)]
pub enum ScalarFailure {
    /// A denominator was exactly zero.
    Breakdown,
    /// A scalar became infinite or NaN.
    NonFinite,
}

impl ScalarFailure {
    /// Terminal condition a scalar failure ends the solve with.
    pub fn termination(self) -> (termination: Termination)
        ensures
            termination == (match self {
                ScalarFailure::Breakdown => Termination::Breakdown,
                ScalarFailure::NonFinite => Termination::NonFinite,
            }),
    {
        match self {
            ScalarFailure::Breakdown => Termination::Breakdown,
            ScalarFailure::NonFinite => Termination::NonFinite,
        }
    }
}

/// The scaled Givens rotation `(c, s)` that zeroes `lower` against `upper`:
/// both scaled by `max(|upper|, |lower|)` before the radius is formed, so the
/// squares neither overflow nor underflow.
pub open spec fn spec_givens<B: KrylovBackend>(backend: &B, upper: B::Scalar, lower: B::Scalar) -> Result<
    (B::Scalar, B::Scalar),
    ScalarFailure,
> {
    if !backend.spec_is_finite(upper) || !backend.spec_is_finite(lower) {
        Err(ScalarFailure::NonFinite)
    } else {
        let upper_magnitude = backend.spec_abs(upper);
        let lower_magnitude = backend.spec_abs(lower);
        let scale = if backend.spec_less(lower_magnitude, upper_magnitude) {
            upper_magnitude
        } else {
            lower_magnitude
        };
        if backend.spec_equal(scale, backend.spec_zero()) {
            Ok((backend.spec_one(), backend.spec_zero()))
        } else {
            let scaled_upper = backend.spec_div(upper, scale);
            let scaled_lower = backend.spec_div(lower, scale);
            let radius = backend.spec_mul(
                scale,
                backend.spec_sqrt(
                    backend.spec_add(
                        backend.spec_mul(scaled_upper, scaled_upper),
                        backend.spec_mul(scaled_lower, scaled_lower),
                    ),
                ),
            );
            if !backend.spec_is_finite(radius) || backend.spec_equal(radius, backend.spec_zero()) {
                Err(ScalarFailure::NonFinite)
            } else {
                Ok((backend.spec_div(upper, radius), backend.spec_div(lower, radius)))
            }
        }
    }
}

/// Compute the scaled Givens rotation of `(upper, lower)`.
pub fn givens<B: KrylovBackend>(backend: &B, upper: B::Scalar, lower: B::Scalar) -> (rotation: Result<
    (B::Scalar, B::Scalar),
    ScalarFailure,
>)
    ensures
        rotation == spec_givens(backend, upper, lower),
{
    if !backend.is_finite(upper) || !backend.is_finite(lower) {
        return Err(ScalarFailure::NonFinite);
    }
    let upper_magnitude = backend.abs(upper);
    let lower_magnitude = backend.abs(lower);
    let scale = if backend.less(lower_magnitude, upper_magnitude) {
        upper_magnitude
    } else {
        lower_magnitude
    };
    if backend.equal(scale, backend.zero()) {
        return Ok((backend.one(), backend.zero()));
    }
    let scaled_upper = backend.div(upper, scale);
    let scaled_lower = backend.div(lower, scale);
    let sum = backend.add(
        backend.mul(scaled_upper, scaled_upper),
        backend.mul(scaled_lower, scaled_lower),
    );
    let radius = backend.mul(scale, backend.sqrt(sum));
    if !backend.is_finite(radius) || backend.equal(radius, backend.zero()) {
        return Err(ScalarFailure::NonFinite);
    }
    Ok((backend.div(upper, radius), backend.div(lower, radius)))
}

/// Row `row` of the upper-triangular solve after the columns in
/// `row + 1 .. upto` have been subtracted:
/// `transformed[row] − Σ H[row, column] · coefficients[column]`, accumulated
/// in increasing column order.
pub open spec fn back_substitution_value<B: KrylovBackend>(
    backend: &B,
    restart: usize,
    hessenberg: Seq<B::Scalar>,
    transformed: Seq<B::Scalar>,
    coefficients: Seq<B::Scalar>,
    row: int,
    upto: int,
) -> B::Scalar
    decreases upto - row,
{
    if upto <= row + 1 {
        transformed[row]
    } else {
        backend.spec_sub(
            back_substitution_value(
                backend,
                restart,
                hessenberg,
                transformed,
                coefficients,
                row,
                upto - 1,
            ),
            backend.spec_mul(
                hessenberg[spec_hessenberg_index(restart, row, upto - 1)],
                coefficients[upto - 1],
            ),
        )
    }
}

/// `coefficients[..count]` solves the leading `count × count` upper
/// triangle of the Hessenberg factor against `transformed`, each entry being
/// its row's back-substituted value over its finite, nonzero diagonal.
pub open spec fn solves_triangle<B: KrylovBackend>(
    backend: &B,
    restart: usize,
    hessenberg: Seq<B::Scalar>,
    transformed: Seq<B::Scalar>,
    coefficients: Seq<B::Scalar>,
    from: int,
    count: int,
) -> bool {
    forall|row: int|
        from <= row < count ==> #[trigger] coefficients[row] == backend.spec_div(
            back_substitution_value(
                backend,
                restart,
                hessenberg,
                transformed,
                coefficients,
                row,
                count,
            ),
            hessenberg[spec_hessenberg_index(restart, row, row)],
        )
}

proof fn lemma_back_substitution_value_frame<B: KrylovBackend>(
    backend: &B,
    restart: usize,
    hessenberg: Seq<B::Scalar>,
    transformed: Seq<B::Scalar>,
    before: Seq<B::Scalar>,
    after: Seq<B::Scalar>,
    row: int,
    upto: int,
)
    requires
        forall|column: int| row < column < upto ==> before[column] == after[column],
    ensures
        back_substitution_value(backend, restart, hessenberg, transformed, before, row, upto)
            == back_substitution_value(backend, restart, hessenberg, transformed, after, row, upto),
    decreases upto - row,
{
    if upto > row + 1 {
        lemma_back_substitution_value_frame(
            backend,
            restart,
            hessenberg,
            transformed,
            before,
            after,
            row,
            upto - 1,
        );
    }
}

/// How back substitution fails at `row`, given the coefficients below it: a
/// non-finite value or diagonal, a zero diagonal, or a non-finite quotient;
/// `None` when the row divides cleanly.
pub open spec fn back_substitution_failure<B: KrylovBackend>(
    backend: &B,
    restart: usize,
    hessenberg: Seq<B::Scalar>,
    transformed: Seq<B::Scalar>,
    coefficients: Seq<B::Scalar>,
    row: int,
    count: int,
) -> Option<ScalarFailure> {
    let value = back_substitution_value(backend, restart, hessenberg, transformed, coefficients, row, count);
    let diagonal = hessenberg[spec_hessenberg_index(restart, row, row)];
    if !backend.spec_is_finite(value) || !backend.spec_is_finite(diagonal) {
        Some(ScalarFailure::NonFinite)
    } else if backend.spec_equal(diagonal, backend.spec_zero()) {
        Some(ScalarFailure::Breakdown)
    } else if !backend.spec_is_finite(backend.spec_div(value, diagonal)) {
        Some(ScalarFailure::NonFinite)
    } else {
        None
    }
}

/// What back substitution over the leading `count` rows returns, given the
/// coefficients it leaves: success exactly when every row, solved bottom row
/// first, divides cleanly; otherwise the failure of the lowest row reached,
/// every row below it solved.
pub open spec fn back_substitution_outcome<B: KrylovBackend>(
    backend: &B,
    restart: usize,
    hessenberg: Seq<B::Scalar>,
    transformed: Seq<B::Scalar>,
    coefficients: Seq<B::Scalar>,
    count: int,
    outcome: Result<(), ScalarFailure>,
) -> bool {
    match outcome {
        Ok(()) => {
            &&& solves_triangle(backend, restart, hessenberg, transformed, coefficients, 0, count)
            &&& forall|row: int|
                0 <= row < count ==> #[trigger] back_substitution_failure(
                    backend,
                    restart,
                    hessenberg,
                    transformed,
                    coefficients,
                    row,
                    count,
                ) is None
        },
        Err(failure) => exists|row: int|
            {
                &&& 0 <= row < count
                &&& solves_triangle(backend, restart, hessenberg, transformed, coefficients, row + 1, count)
                &&& forall|later: int|
                    row < later < count ==> #[trigger] back_substitution_failure(
                        backend,
                        restart,
                        hessenberg,
                        transformed,
                        coefficients,
                        later,
                        count,
                    ) is None
                &&& #[trigger] back_substitution_failure(
                    backend,
                    restart,
                    hessenberg,
                    transformed,
                    coefficients,
                    row,
                    count,
                ) == Some(failure)
            },
    }
}

proof fn lemma_back_substitution_failure_frame<B: KrylovBackend>(
    backend: &B,
    restart: usize,
    hessenberg: Seq<B::Scalar>,
    transformed: Seq<B::Scalar>,
    before: Seq<B::Scalar>,
    after: Seq<B::Scalar>,
    row: int,
    count: int,
)
    requires
        forall|column: int| row < column < count ==> before[column] == after[column],
    ensures
        back_substitution_failure(backend, restart, hessenberg, transformed, before, row, count)
            == back_substitution_failure(backend, restart, hessenberg, transformed, after, row, count),
{
    lemma_back_substitution_value_frame(backend, restart, hessenberg, transformed, before, after, row, count);
}

/// Solve the leading `count × count` upper triangle of the rotated
/// Hessenberg factor into `coefficients`, bottom row first.
///
/// A non-finite value or diagonal reports `NonFinite`, a zero diagonal
/// `Breakdown`, and a non-finite quotient `NonFinite`.
pub fn back_substitute<B: KrylovBackend>(
    backend: &B,
    restart: usize,
    hessenberg: &Vec<B::Scalar>,
    transformed_residual: &Vec<B::Scalar>,
    coefficients: &mut Vec<B::Scalar>,
    count: usize,
) -> (outcome: Result<(), ScalarFailure>)
    requires
        restart_admissible(restart),
        count <= restart,
        hessenberg.len() == (restart + 1) * restart,
        transformed_residual.len() == restart + 1,
        old(coefficients).len() == restart,
    ensures
        final(coefficients).len() == restart,
        back_substitution_outcome(
            backend,
            restart,
            hessenberg@,
            transformed_residual@,
            final(coefficients)@,
            count as int,
            outcome,
        ),
{
    let mut row: usize = count;
    while row > 0
        invariant
            restart_admissible(restart),
            count <= restart,
            row <= count,
            hessenberg.len() == (restart + 1) * restart,
            transformed_residual.len() == restart + 1,
            coefficients.len() == restart,
            solves_triangle(
                backend,
                restart,
                hessenberg@,
                transformed_residual@,
                coefficients@,
                row as int,
                count as int,
            ),
            forall|later: int|
                row <= later < count ==> #[trigger] back_substitution_failure(
                    backend,
                    restart,
                    hessenberg@,
                    transformed_residual@,
                    coefficients@,
                    later,
                    count as int,
                ) is None,
        decreases row,
    {
        row = row - 1;
        let mut value = transformed_residual[row];
        let mut column: usize = row + 1;
        while column < count
            invariant
                restart_admissible(restart),
                row < column <= count,
                count <= restart,
                hessenberg.len() == (restart + 1) * restart,
                transformed_residual.len() == restart + 1,
                coefficients.len() == restart,
                value == back_substitution_value(
                    backend,
                    restart,
                    hessenberg@,
                    transformed_residual@,
                    coefficients@,
                    row as int,
                    column as int,
                ),
            decreases count - column,
        {
            proof {
                lemma_hessenberg_index_in_bounds(restart, row as int, column as int);
            }
            let index = column * (restart + 1) + row;
            value = backend.sub(value, backend.mul(hessenberg[index], coefficients[column]));
            column = column + 1;
        }
        proof {
            lemma_hessenberg_index_in_bounds(restart, row as int, row as int);
        }
        let diagonal = hessenberg[row * (restart + 1) + row];
        let ghost failure_here = back_substitution_failure(
            backend,
            restart,
            hessenberg@,
            transformed_residual@,
            coefficients@,
            row as int,
            count as int,
        );
        if !backend.is_finite(value) || !backend.is_finite(diagonal) {
            assert(failure_here == Some(ScalarFailure::NonFinite));
            return Err(ScalarFailure::NonFinite);
        }
        if backend.equal(diagonal, backend.zero()) {
            assert(failure_here == Some(ScalarFailure::Breakdown));
            return Err(ScalarFailure::Breakdown);
        }
        let quotient = backend.div(value, diagonal);
        let ghost before = coefficients@;
        coefficients.set(row, quotient);
        proof {
            assert forall|other: int| row <= other < count implies #[trigger] coefficients@[other]
                == backend.spec_div(
                back_substitution_value(
                    backend,
                    restart,
                    hessenberg@,
                    transformed_residual@,
                    coefficients@,
                    other,
                    count as int,
                ),
                hessenberg@[spec_hessenberg_index(restart, other, other)],
            ) by {
                lemma_back_substitution_value_frame(
                    backend,
                    restart,
                    hessenberg@,
                    transformed_residual@,
                    before,
                    coefficients@,
                    other,
                    count as int,
                );
                if other > row {
                    assert(coefficients@[other] == before[other]);
                }
            }
        }
        proof {
            assert forall|later: int| row <= later < count implies #[trigger] back_substitution_failure(
                backend,
                restart,
                hessenberg@,
                transformed_residual@,
                coefficients@,
                later,
                count as int,
            ) == back_substitution_failure(
                backend,
                restart,
                hessenberg@,
                transformed_residual@,
                before,
                later,
                count as int,
            ) by {
                lemma_back_substitution_failure_frame(
                    backend,
                    restart,
                    hessenberg@,
                    transformed_residual@,
                    before,
                    coefficients@,
                    later,
                    count as int,
                );
            }
        }
        if !backend.is_finite(quotient) {
            assert(back_substitution_failure(
                backend,
                restart,
                hessenberg@,
                transformed_residual@,
                coefficients@,
                row as int,
                count as int,
            ) == Some(ScalarFailure::NonFinite));
            return Err(ScalarFailure::NonFinite);
        }
    }
    Ok(())
}

} // verus!

verus! {

/// A vector of `count` copies of `value`.
fn filled<T: Copy>(value: T, count: usize) -> (filled: Vec<T>)
    ensures
        filled@ == Seq::new(count as nat, |_index: int| value),
{
    let mut filled: Vec<T> = Vec::with_capacity(count);
    while filled.len() < count
        invariant
            filled.len() <= count,
            forall|index: int| 0 <= index < filled.len() ==> filled@[index] == value,
        decreases count - filled.len(),
    {
        filled.push(value);
    }
    assert(filled@ == Seq::new(count as nat, |_index: int| value));
    filled
}

/// Overwrite every entry of `values` with `value`.
fn fill<T: Copy>(values: &mut Vec<T>, value: T)
    ensures
        final(values)@ == Seq::new(old(values).len() as nat, |_index: int| value),
{
    let mut index: usize = 0;
    while index < values.len()
        invariant
            values.len() == old(values).len(),
            index <= values.len(),
            forall|filled: int| 0 <= filled < index ==> values@[filled] == value,
        decreases values.len() - index,
    {
        values.set(index, value);
        index = index + 1;
    }
    assert(values@ == Seq::new(old(values).len() as nat, |_index: int| value));
}

/// Reusable restarted-GMRES vector and scalar workspace.
///
/// Construction performs every host and backend allocation and prepares the
/// reductions bound to the workspace vectors: `RESTART + 1` Arnoldi vectors,
/// `RESTART` preconditioned vectors, and `(RESTART + 1) · RESTART` Hessenberg
/// entries. A workspace serves repeated solves with the same vector length and
/// restart width without allocating.
pub struct GmresWorkspace<B: KrylovBackend, const RESTART: usize> {
    residual: B::Vector,
    work: B::Vector,
    basis: B::VectorBlock,
    preconditioned_basis: B::VectorBlock,
    residual_norm: B::PreparedNorm,
    work_norm: B::PreparedNorm,
    work_basis_dot: Vec<B::PreparedDot>,
    hessenberg: Vec<B::Scalar>,
    cosine: Vec<B::Scalar>,
    sine: Vec<B::Scalar>,
    transformed_residual: Vec<B::Scalar>,
    coefficients: Vec<B::Scalar>,
    len: usize,
}

impl<B: KrylovBackend, const RESTART: usize> GmresWorkspace<B, RESTART> {
    /// Vector length this workspace was allocated for.
    pub closed spec fn spec_len(&self) -> usize {
        self.len
    }

    /// Every store has the size the restart width fixes.
    pub closed spec fn wf(&self) -> bool {
        &&& restart_admissible(RESTART)
        &&& spec_block_count::<B>(&self.basis) == RESTART + 1
        &&& spec_block_count::<B>(&self.preconditioned_basis) == RESTART
        &&& self.work_basis_dot.len() == RESTART + 1
        &&& self.hessenberg.len() == (RESTART + 1) * RESTART
        &&& self.cosine.len() == RESTART
        &&& self.sine.len() == RESTART
        &&& self.transformed_residual.len() == RESTART + 1
        &&& self.coefficients.len() == RESTART
    }

    /// Every vector of the workspace — the `RESTART + 1` Arnoldi vectors, the
    /// `RESTART` preconditioned ones, the residual and the work vector — holds
    /// `spec_len()` entries.
    pub closed spec fn vectors_sized(&self) -> bool {
        &&& spec_vector_len::<B>(&self.residual) == self.len
        &&& spec_vector_len::<B>(&self.work) == self.len
        &&& forall|index: int|
            0 <= index < B::spec_block(&self.basis).len() ==> #[trigger] B::spec_block(&self.basis)[index].len()
                == self.len
        &&& forall|index: int|
            0 <= index < B::spec_block(&self.preconditioned_basis).len() ==> #[trigger] B::spec_block(
                &self.preconditioned_basis,
            )[index].len() == self.len
    }

    /// Allocate a workspace for `len` unknowns.
    ///
    /// Returns the first backend allocation or reduction-preparation failure.
    pub fn new(backend: &B, len: usize) -> (workspace: Result<Self, B::Error>)
        requires
            restart_admissible(RESTART),
        ensures
            workspace matches Ok(w) ==> w.wf() && w.spec_len() == len && w.vectors_sized(),
    {
        let basis_len = RESTART + 1;
        let hessenberg_len = basis_len * RESTART;
        let basis = backend.allocate_block(basis_len, len)?;
        let preconditioned_basis = backend.allocate_block(RESTART, len)?;
        let residual = backend.allocate(len)?;
        let work = backend.allocate(len)?;
        let residual_norm = backend.prepare_norm_l2(backend.view(&residual))?;
        let work_norm = backend.prepare_norm_l2(backend.view(&work))?;
        let mut work_basis_dot: Vec<B::PreparedDot> = Vec::with_capacity(basis_len);
        let mut index: usize = 0;
        while index < basis_len
            invariant
                basis_len == RESTART + 1,
                spec_block_count::<B>(&basis) == basis_len,
                index <= basis_len,
                work_basis_dot.len() == index,
            decreases basis_len - index,
        {
            let prepared = backend.prepare_dot(backend.view(&work), backend.block_view(&basis, index))?;
            work_basis_dot.push(prepared);
            index = index + 1;
        }
        let zero = backend.zero();
        Ok(GmresWorkspace {
            residual,
            work,
            basis,
            preconditioned_basis,
            residual_norm,
            work_norm,
            work_basis_dot,
            hessenberg: filled(zero, hessenberg_len),
            cosine: filled(zero, RESTART),
            sine: filled(zero, RESTART),
            transformed_residual: filled(zero, basis_len),
            coefficients: filled(zero, RESTART),
            len,
        })
    }

    /// Workspace vector length.
    pub fn len(&self) -> (len: usize)
        ensures
            len == self.spec_len(),
    {
        self.len
    }

    /// Compile-time restart width.
    pub fn restart_width(&self) -> (width: usize)
        ensures
            width == RESTART,
    {
        RESTART
    }

    /// Return whether this is a zero-length vector workspace.
    pub fn is_empty(&self) -> (empty: bool)
        ensures
            empty == (self.spec_len() == 0),
    {
        self.len == 0
    }

    /// Zero every scalar store before a restart cycle.
    fn reset_cycle(&mut self, zero: B::Scalar)
        requires
            old(self).wf(),
        ensures
            final(self).wf(),
            final(self).spec_len() == old(self).spec_len(),
            final(self).residual == old(self).residual,
            final(self).work == old(self).work,
            final(self).basis == old(self).basis,
            final(self).preconditioned_basis == old(self).preconditioned_basis,
            final(self).hessenberg@ == Seq::new(old(self).hessenberg.len() as nat, |_index: int| zero),
            final(self).cosine@ == Seq::new(old(self).cosine.len() as nat, |_index: int| zero),
            final(self).sine@ == Seq::new(old(self).sine.len() as nat, |_index: int| zero),
            final(self).transformed_residual@ == Seq::new(
                old(self).transformed_residual.len() as nat,
                |_index: int| zero,
            ),
            final(self).coefficients@ == Seq::new(old(self).coefficients.len() as nat, |_index: int| zero),
    {
        fill(&mut self.hessenberg, zero);
        fill(&mut self.cosine, zero);
        fill(&mut self.sine, zero);
        fill(&mut self.transformed_residual, zero);
        fill(&mut self.coefficients, zero);
    }

    /// Column-major position of Hessenberg entry `(row, column)`.
    fn hessenberg_index(row: usize, column: usize) -> (index: usize)
        requires
            restart_admissible(RESTART),
            row <= RESTART,
            column < RESTART,
        ensures
            index == spec_hessenberg_index(RESTART, row as int, column as int),
            index < (RESTART + 1) * RESTART,
    {
        proof {
            lemma_hessenberg_index_in_bounds(RESTART, row as int, column as int);
        }
        column * (RESTART + 1) + row
    }
}

/// Zero-sized restarted right-preconditioned GMRES algorithm marker.
#[derive(Debug)]
pub struct Gmres<B, const RESTART: usize>(PhantomData<B>);

impl<B, const RESTART: usize> Clone for Gmres<B, RESTART> {
    fn clone(&self) -> Self {
        Gmres(PhantomData)
    }
}

impl<B, const RESTART: usize> Copy for Gmres<B, RESTART> {}

impl<B, const RESTART: usize> Default for Gmres<B, RESTART> {
    fn default() -> Self {
        Gmres(PhantomData)
    }
}

} // verus!

verus! {

/// The first dimension the GMRES entry points reject, in the order they
/// check.
pub open spec fn gmres_dimension_check<B: KrylovBackend, E, const RESTART: usize>(
    dimension: usize,
    right_hand_side: &B::Vector,
    solution: &B::Vector,
    workspace: &GmresWorkspace<B, RESTART>,
) -> Result<(), SolveError<E>> {
    if dimension_outcome::<E>("right-hand side", dimension, spec_vector_len::<B>(right_hand_side) as usize) is Err {
        dimension_outcome::<E>("right-hand side", dimension, spec_vector_len::<B>(right_hand_side) as usize)
    } else if dimension_outcome::<E>("solution", dimension, spec_vector_len::<B>(solution) as usize) is Err {
        dimension_outcome::<E>("solution", dimension, spec_vector_len::<B>(solution) as usize)
    } else {
        dimension_outcome::<E>("GMRES workspace", dimension, workspace.spec_len())
    }
}

/// What every GMRES report states about its counters and its terminal
/// condition. `len` is the system dimension, which scales the residual
/// noise floor that separates stagnation and divergence from progress.
pub open spec fn gmres_report_law<B: KrylovBackend>(
    backend: &B,
    policy: ConvergencePolicy<B::Scalar>,
    len: usize,
    report: SolveReport<B::Scalar>,
) -> bool {
    let it = report.iterations;
    let op = report.operator_applications;
    let pc = report.preconditioner_applications;
    let threshold = report.threshold;
    let last = report.final_residual_norm;
    &&& it <= policy.spec_max_iterations()
    &&& (pc == it || pc == it + 1)
    &&& pc + 1 <= op <= pc + 1 + it
    &&& (pc == 0 ==> {
        &&& it == 0
        &&& op == 1
        &&& last == report.initial_residual_norm
        &&& (report.termination == Termination::InitialResidual || report.termination
            == Termination::NonFinite)
    })
    &&& (report.termination == Termination::InitialResidual ==> pc == 0 && residual_meets(
        backend,
        report.initial_residual_norm,
        threshold,
    ))
    &&& (pc > 0 ==> !residual_meets(backend, report.initial_residual_norm, threshold))
    &&& (report.termination == Termination::Converged ==> it >= 1 && residual_meets(
        backend,
        last,
        threshold,
    ))
    &&& (report.termination == Termination::MaxIterations ==> {
        &&& it == policy.spec_max_iterations()
        &&& backend.spec_is_finite(last)
        &&& !backend.spec_less_equal(last, threshold)
    })
    &&& (report.termination == Termination::Stagnated || report.termination
        == Termination::Diverged ==> {
        &&& it >= 1
        &&& backend.spec_is_finite(last)
        &&& !backend.spec_less_equal(last, threshold)
    })
    &&& (report.termination == Termination::InitialResidual
        || report.termination == Termination::Converged
        || report.termination == Termination::MaxIterations
        || report.termination == Termination::Breakdown
        || report.termination == Termination::NonFinite
        || report.termination == Termination::Stagnated
        || report.termination == Termination::Diverged)
    &&& exists|rhs_norm: B::Scalar|
        #[trigger] policy.spec_threshold(backend, rhs_norm) == threshold && (report.termination
            == Termination::Diverged ==> backend.spec_less(
            backend.spec_add(
                report.initial_residual_norm,
                spec_residual_noise_floor(backend, len, rhs_norm),
            ),
            last,
        ))
}

/// What a GMRES entry point returns: the first dimension mismatch, untouched
/// buffers and all, or else a backend failure or a report obeying
/// [`gmres_report_law`].
pub open spec fn gmres_solve_outcome<B: KrylovBackend, O: LinearOperator<B>, const RESTART: usize>(
    backend: &B,
    operator: &O,
    policy: ConvergencePolicy<B::Scalar>,
    right_hand_side: &B::Vector,
    old_solution: B::Vector,
    final_solution: B::Vector,
    old_workspace: GmresWorkspace<B, RESTART>,
    final_workspace: GmresWorkspace<B, RESTART>,
    outcome: Result<SolveReport<B::Scalar>, SolveError<B::Error>>,
) -> bool {
    match gmres_dimension_check::<B, B::Error, RESTART>(
        operator.spec_dimension() as usize,
        right_hand_side,
        &old_solution,
        &old_workspace,
    ) {
        Err(mismatch) => {
            &&& outcome == Err::<SolveReport<B::Scalar>, SolveError<B::Error>>(mismatch)
            &&& final_solution == old_solution
            &&& final_workspace == old_workspace
        },
        Ok(()) => {
            &&& final_workspace.wf()
            &&& final_workspace.spec_len() == old_workspace.spec_len()
            &&& match outcome {
                Ok(report) => {
                    &&& gmres_report_law(backend, policy, operator.spec_dimension() as usize, report)
                    &&& start_law(backend, operator, policy, right_hand_side, old_solution, final_solution, report)
                    &&& converged_on_true_residual(backend, operator, right_hand_side, final_solution, report)
                },
                Err(error) => error is Backend,
            }
        },
    }
}

/// Scalar state carried across restart cycles.
struct GmresState<T> {
    initial_residual: T,
    last_residual: T,
    threshold: T,
    residual_noise: T,
    right_hand_side_norm: Ghost<T>,
    iterations: usize,
    operator_applications: usize,
    preconditioner_applications: usize,
}

impl<T: Copy> GmresState<T> {
    fn report(&self, termination: Termination) -> (report: SolveReport<T>)
        ensures
            report.termination == termination,
            report.iterations == self.iterations,
            report.operator_applications == self.operator_applications,
            report.preconditioner_applications == self.preconditioner_applications,
            report.initial_residual_norm == self.initial_residual,
            report.final_residual_norm == self.last_residual,
            report.threshold == self.threshold,
    {
        SolveReport::new(
            termination,
            self.iterations,
            self.operator_applications,
            self.preconditioner_applications,
            self.initial_residual,
            self.last_residual,
            self.threshold,
        )
    }
}

/// Counters and scalars of a GMRES solve past its initial check.
spec fn gmres_running<B: KrylovBackend>(
    backend: &B,
    policy: ConvergencePolicy<B::Scalar>,
    len: usize,
    state: GmresState<B::Scalar>,
) -> bool {
    &&& state.iterations <= policy.spec_max_iterations()
    &&& policy.spec_max_iterations() < usize::MAX / 2
    &&& (state.preconditioner_applications == state.iterations
        || state.preconditioner_applications == state.iterations + 1)
    &&& state.preconditioner_applications + 1 <= state.operator_applications
        <= state.preconditioner_applications + 1 + state.iterations
    &&& state.preconditioner_applications > 0 || state.iterations == 0
    &&& !residual_meets(backend, state.initial_residual, state.threshold)
    &&& policy.spec_threshold(backend, state.right_hand_side_norm@) == state.threshold
    &&& state.residual_noise == spec_residual_noise_floor(backend, len, state.right_hand_side_norm@)
}

/// `gmres_running`, at a cycle boundary: every Arnoldi step succeeded and the
/// last residual is a recomputed, finite, unconverged one.
spec fn gmres_ready<B: KrylovBackend>(
    backend: &B,
    policy: ConvergencePolicy<B::Scalar>,
    len: usize,
    state: GmresState<B::Scalar>,
) -> bool {
    &&& gmres_running(backend, policy, len, state)
    &&& state.preconditioner_applications == state.iterations
    &&& backend.spec_is_finite(state.last_residual)
    &&& !backend.spec_less_equal(state.last_residual, state.threshold)
}

} // verus!

verus! {

/// What one restart cycle produced for the solution update.
struct CycleOutcome {
    /// Arnoldi vectors the cycle built, and so the width of the least-squares
    /// problem the update solves.
    vectors_used: usize,
    /// The Krylov space became invariant, so the cycle's solution is exact
    /// within it and no further vector can be built.
    happy_breakdown: bool,
}

enum CycleProgress {
    Ready(CycleOutcome),
    Terminated(Termination),
}

enum ArnoldiOutcome {
    Ready { happy_breakdown: bool },
    Failed(ScalarFailure),
}

fn gmres_validate_dimensions<B: KrylovBackend, O: LinearOperator<B>, const RESTART: usize>(
    backend: &B,
    operator: &O,
    right_hand_side: &B::Vector,
    solution: &B::Vector,
    workspace: &GmresWorkspace<B, RESTART>,
) -> (outcome: Result<(), SolveError<B::Error>>)
    ensures
        outcome == gmres_dimension_check::<B, B::Error, RESTART>(
            operator.spec_dimension() as usize,
            right_hand_side,
            solution,
            workspace,
        ),
{
    let dimension = operator.dimension();
    validate_dimension("right-hand side", dimension, backend.vector_len(right_hand_side))?;
    validate_dimension("solution", dimension, backend.vector_len(solution))?;
    validate_dimension("GMRES workspace", dimension, workspace.len())
}

/// `r = b − A x`, returning `‖r‖₂`.
fn gmres_recompute_residual<B: KrylovBackend, O: LinearOperator<B>, const RESTART: usize>(
    backend: &B,
    operator: &O,
    right_hand_side: &B::Vector,
    solution: &B::Vector,
    workspace: &mut GmresWorkspace<B, RESTART>,
) -> (outcome: Result<B::Scalar, SolveError<B::Error>>)
    requires
        old(workspace).wf(),
    ensures
        final(workspace).wf(),
        final(workspace).spec_len() == old(workspace).spec_len(),
        outcome matches Ok(norm) ==> norm == residual_norm_of(
            backend,
            operator,
            B::spec_vector(right_hand_side),
            B::spec_vector(solution),
        ),
        outcome matches Err(error) ==> error is Backend,
{
    match operator.apply(backend, backend.view(solution), backend.view_mut(&mut workspace.work)) {
        Ok(()) => {},
        Err(error) => return Err(SolveError::Backend(error)),
    }
    match backend.residual(
        backend.view(right_hand_side),
        backend.view(&workspace.work),
        backend.view_mut(&mut workspace.residual),
    ) {
        Ok(()) => {},
        Err(error) => return Err(SolveError::Backend(error)),
    }
    match backend.norm_l2_prepared(&workspace.residual_norm, backend.view(&workspace.residual)) {
        Ok(norm) => Ok(norm),
        Err(error) => Err(SolveError::Backend(error)),
    }
}

fn gmres_initialize<B: KrylovBackend, O: LinearOperator<B>, const RESTART: usize>(
    backend: &B,
    operator: &O,
    right_hand_side: &B::Vector,
    solution: &B::Vector,
    workspace: &mut GmresWorkspace<B, RESTART>,
    policy: ConvergencePolicy<B::Scalar>,
) -> (outcome: Result<Stage<GmresState<B::Scalar>, B::Scalar>, SolveError<B::Error>>)
    requires
        old(workspace).wf(),
        policy.spec_max_iterations() < usize::MAX / 2,
    ensures
        final(workspace).wf(),
        final(workspace).spec_len() == old(workspace).spec_len(),
        match outcome {
            Ok(Stage::Complete(report)) => {
                &&& gmres_report_law(backend, policy, old(workspace).spec_len(), report)
                &&& report.iterations == 0
                &&& carries_start(
                    report,
                    residual_norm_of(backend, operator, B::spec_vector(right_hand_side), B::spec_vector(solution)),
                    policy.spec_threshold(backend, backend.spec_norm_l2(B::spec_vector(right_hand_side))),
                )
            },
            Ok(Stage::Continue(state)) => {
                &&& gmres_ready(backend, policy, old(workspace).spec_len(), state)
                &&& state.iterations == 0
                &&& state.last_residual == state.initial_residual
                &&& state.initial_residual == residual_norm_of(
                    backend,
                    operator,
                    B::spec_vector(right_hand_side),
                    B::spec_vector(solution),
                )
                &&& state.threshold == policy.spec_threshold(
                    backend,
                    backend.spec_norm_l2(B::spec_vector(right_hand_side)),
                )
            },
            Err(error) => error is Backend,
        },
{
    match backend.copy(backend.view(right_hand_side), backend.view_mut(&mut workspace.residual)) {
        Ok(()) => {},
        Err(error) => return Err(SolveError::Backend(error)),
    }
    let right_hand_side_norm = match backend.norm_l2_prepared(
        &workspace.residual_norm,
        backend.view(&workspace.residual),
    ) {
        Ok(norm) => norm,
        Err(error) => return Err(SolveError::Backend(error)),
    };
    let threshold = policy.threshold(backend, right_hand_side_norm);
    let initial_residual = gmres_recompute_residual(
        backend,
        operator,
        right_hand_side,
        solution,
        workspace,
    )?;
    let termination = if !backend.is_finite(right_hand_side_norm) || !backend.is_finite(threshold)
        || !backend.is_finite(initial_residual) {
        Some(Termination::NonFinite)
    } else if backend.less_equal(initial_residual, threshold) {
        Some(Termination::InitialResidual)
    } else {
        None
    };
    if let Some(termination) = termination {
        assert(policy.spec_threshold(backend, right_hand_side_norm) == threshold);
        return Ok(
            Stage::Complete(
                SolveReport::new(termination, 0, 1, 0, initial_residual, initial_residual, threshold),
            ),
        );
    }
    let residual_noise = residual_noise_floor(backend, workspace.len(), right_hand_side_norm);
    Ok(
        Stage::Continue(
            GmresState {
                initial_residual,
                last_residual: initial_residual,
                threshold,
                residual_noise,
                right_hand_side_norm: Ghost(right_hand_side_norm),
                iterations: 0,
                operator_applications: 1,
                preconditioner_applications: 0,
            },
        ),
    )
}

/// Seed a restart cycle: zero the scalar stores, record `‖r‖` as the first
/// transformed-residual entry, and normalise `r` into the first basis vector.
fn gmres_prepare_cycle<B: KrylovBackend, const RESTART: usize>(
    backend: &B,
    workspace: &mut GmresWorkspace<B, RESTART>,
    residual_norm: B::Scalar,
) -> (outcome: Result<(), SolveError<B::Error>>)
    requires
        old(workspace).wf(),
    ensures
        final(workspace).wf(),
        final(workspace).spec_len() == old(workspace).spec_len(),
        final(workspace).hessenberg@ == Seq::new(
            ((RESTART + 1) * RESTART) as nat,
            |_index: int| backend.spec_zero(),
        ),
        final(workspace).cosine@ == Seq::new(RESTART as nat, |_index: int| backend.spec_zero()),
        final(workspace).sine@ == Seq::new(RESTART as nat, |_index: int| backend.spec_zero()),
        final(workspace).coefficients@ == Seq::new(RESTART as nat, |_index: int| backend.spec_zero()),
        final(workspace).transformed_residual@ == Seq::new(
            (RESTART + 1) as nat,
            |_index: int| backend.spec_zero(),
        ).update(0, residual_norm),
        outcome matches Err(error) ==> error is Backend,
{
    let zero = backend.zero();
    workspace.reset_cycle(zero);
    workspace.transformed_residual.set(0, residual_norm);
    match backend.copy(backend.view(&workspace.residual), backend.block_view_mut(&mut workspace.basis, 0)) {
        Ok(()) => {},
        Err(error) => return Err(SolveError::Backend(error)),
    }
    let factor = backend.div(backend.one(), residual_norm);
    match backend.scale(backend.block_view_mut(&mut workspace.basis, 0), factor) {
        Ok(()) => Ok(()),
        Err(error) => Err(SolveError::Backend(error)),
    }
}

/// Entries `0 .. rows` of Hessenberg column `column` are finite.
spec fn column_entries_finite<B: KrylovBackend>(
    backend: &B,
    restart: usize,
    hessenberg: Seq<B::Scalar>,
    column: int,
    rows: int,
) -> bool {
    forall|row: int|
        0 <= row < rows ==> backend.spec_is_finite(
            #[trigger] hessenberg[spec_hessenberg_index(restart, row, column)],
        )
}

/// `after` differs from `before` at most in entries `0 ..= column + 1` of
/// Hessenberg column `column`.
spec fn outside_column_unchanged<T>(
    restart: usize,
    before: Seq<T>,
    after: Seq<T>,
    column: int,
) -> bool {
    &&& after.len() == before.len()
    &&& forall|index: int|
        0 <= index < before.len() && !(spec_hessenberg_index(restart, 0, column) <= index
            <= spec_hessenberg_index(restart, column + 1, column)) ==> #[trigger] after[index]
            == before[index]
}

/// The modified Gram–Schmidt remainder of `work` after the projections on
/// basis vectors `0 .. rows` have been subtracted in order, each with the
/// coefficient recorded in Hessenberg column `column`.
pub open spec fn mgs_remainder<B: KrylovBackend>(
    backend: &B,
    restart: usize,
    work: Seq<B::Scalar>,
    basis: Seq<Seq<B::Scalar>>,
    hessenberg: Seq<B::Scalar>,
    column: int,
    rows: int,
) -> Seq<B::Scalar>
    decreases rows,
{
    if rows <= 0 {
        work
    } else {
        let previous = mgs_remainder(backend, restart, work, basis, hessenberg, column, rows - 1);
        let coefficient = hessenberg[spec_hessenberg_index(restart, rows - 1, column)];
        Seq::new(
            previous.len(),
            |entry: int| backend.spec_add(
                previous[entry],
                backend.spec_mul(backend.spec_neg(coefficient), basis[rows - 1][entry]),
            ),
        )
    }
}

/// Entries `0 .. rows` of Hessenberg column `column` are the modified
/// Gram–Schmidt coefficients: each the dot product of the remainder so far
/// with its basis vector.
pub open spec fn mgs_coefficients<B: KrylovBackend>(
    backend: &B,
    restart: usize,
    work: Seq<B::Scalar>,
    basis: Seq<Seq<B::Scalar>>,
    hessenberg: Seq<B::Scalar>,
    column: int,
    rows: int,
) -> bool {
    forall|row: int|
        0 <= row < rows ==> #[trigger] hessenberg[spec_hessenberg_index(restart, row, column)] == backend.spec_dot(
            mgs_remainder(backend, restart, work, basis, hessenberg, column, row),
            basis[row],
        )
}

proof fn lemma_mgs_remainder_frame<B: KrylovBackend>(
    backend: &B,
    restart: usize,
    work: Seq<B::Scalar>,
    basis: Seq<Seq<B::Scalar>>,
    before: Seq<B::Scalar>,
    after: Seq<B::Scalar>,
    column: int,
    rows: int,
)
    requires
        forall|row: int|
            0 <= row < rows ==> #[trigger] after[spec_hessenberg_index(restart, row, column)]
                == before[spec_hessenberg_index(restart, row, column)],
    ensures
        mgs_remainder(backend, restart, work, basis, before, column, rows) == mgs_remainder(
            backend,
            restart,
            work,
            basis,
            after,
            column,
            rows,
        ),
    decreases rows,
{
    if rows > 0 {
        lemma_mgs_remainder_frame(backend, restart, work, basis, before, after, column, rows - 1);
        assert(after[spec_hessenberg_index(restart, rows - 1, column)] == before[spec_hessenberg_index(
            restart,
            rows - 1,
            column,
        )]);
    }
}

/// Modified Gram–Schmidt: orthogonalise `A M⁻¹ vⱼ` against `v₀ … vⱼ`,
/// recording the coefficients in Hessenberg column `column`, then normalise
/// the remainder into `vⱼ₊₁`. A zero remainder is a happy breakdown.
fn gmres_orthogonalize<B: KrylovBackend, const RESTART: usize>(
    backend: &B,
    workspace: &mut GmresWorkspace<B, RESTART>,
    column: usize,
) -> (outcome: Result<ArnoldiOutcome, SolveError<B::Error>>)
    requires
        old(workspace).wf(),
        column < RESTART,
    ensures
        final(workspace).wf(),
        final(workspace).spec_len() == old(workspace).spec_len(),
        final(workspace).cosine == old(workspace).cosine,
        final(workspace).sine == old(workspace).sine,
        final(workspace).transformed_residual == old(workspace).transformed_residual,
        final(workspace).coefficients == old(workspace).coefficients,
        outside_column_unchanged(RESTART, old(workspace).hessenberg@, final(workspace).hessenberg@, column as int),
        final(workspace).residual == old(workspace).residual,
        final(workspace).preconditioned_basis == old(workspace).preconditioned_basis,
        match outcome {
            Ok(ArnoldiOutcome::Ready { happy_breakdown }) => {
                let norm = final(workspace).hessenberg@[spec_hessenberg_index(RESTART, column + 1, column as int)];
                let remainder = B::spec_vector(&final(workspace).work);
                &&& column_entries_finite(
                    backend,
                    RESTART,
                    final(workspace).hessenberg@,
                    column as int,
                    column + 2,
                )
                &&& happy_breakdown == backend.spec_equal(norm, backend.spec_zero())
                &&& mgs_coefficients(
                    backend,
                    RESTART,
                    B::spec_vector(&old(workspace).work),
                    B::spec_block(&old(workspace).basis),
                    final(workspace).hessenberg@,
                    column as int,
                    column + 1,
                )
                &&& remainder == mgs_remainder(
                    backend,
                    RESTART,
                    B::spec_vector(&old(workspace).work),
                    B::spec_block(&old(workspace).basis),
                    final(workspace).hessenberg@,
                    column as int,
                    column + 1,
                )
                &&& norm == backend.spec_norm_l2(remainder)
                &&& happy_breakdown ==> final(workspace).basis == old(workspace).basis
                &&& !happy_breakdown ==> B::spec_block(&final(workspace).basis) == B::spec_block(
                    &old(workspace).basis,
                ).update(
                    column + 1,
                    remainder.map_values(
                        |value: B::Scalar| backend.spec_mul(value, backend.spec_div(backend.spec_one(), norm)),
                    ),
                )
            },
            Ok(ArnoldiOutcome::Failed(failure)) => {
                &&& failure == ScalarFailure::NonFinite
                &&& final(workspace).basis == old(workspace).basis
                &&& exists|row: int|
                    0 <= row <= column + 1 && column_entries_finite(
                        backend,
                        RESTART,
                        final(workspace).hessenberg@,
                        column as int,
                        row,
                    ) && !backend.spec_is_finite(
                        #[trigger] final(workspace).hessenberg@[spec_hessenberg_index(
                            RESTART,
                            row,
                            column as int,
                        )],
                    )
            },
            Err(error) => error is Backend,
        },
{
    let mut row: usize = 0;
    while row <= column
        invariant
            workspace.wf(),
            workspace.spec_len() == old(workspace).spec_len(),
            workspace.cosine == old(workspace).cosine,
            workspace.sine == old(workspace).sine,
            workspace.transformed_residual == old(workspace).transformed_residual,
            workspace.coefficients == old(workspace).coefficients,
            outside_column_unchanged(RESTART, old(workspace).hessenberg@, workspace.hessenberg@, column as int),
            column_entries_finite(backend, RESTART, workspace.hessenberg@, column as int, row as int),
            workspace.basis == old(workspace).basis,
            workspace.residual == old(workspace).residual,
            workspace.preconditioned_basis == old(workspace).preconditioned_basis,
            B::spec_vector(&workspace.work) == mgs_remainder(
                backend,
                RESTART,
                B::spec_vector(&old(workspace).work),
                B::spec_block(&old(workspace).basis),
                workspace.hessenberg@,
                column as int,
                row as int,
            ),
            mgs_coefficients(
                backend,
                RESTART,
                B::spec_vector(&old(workspace).work),
                B::spec_block(&old(workspace).basis),
                workspace.hessenberg@,
                column as int,
                row as int,
            ),
            column < RESTART,
            row <= column + 1,
        decreases column + 1 - row,
    {
        let ghost before = workspace.hessenberg@;
        let coefficient = match backend.dot_prepared(
            &workspace.work_basis_dot[row],
            backend.view(&workspace.work),
            backend.block_view(&workspace.basis, row),
        ) {
            Ok(value) => value,
            Err(error) => return Err(SolveError::Backend(error)),
        };
        let index = GmresWorkspace::<B, RESTART>::hessenberg_index(row, column);
        workspace.hessenberg.set(index, coefficient);
        assert(workspace.hessenberg@[spec_hessenberg_index(RESTART, row as int, column as int)] == coefficient);
        proof {
            let work0 = B::spec_vector(&old(workspace).work);
            let basis0 = B::spec_block(&old(workspace).basis);
            assert forall|earlier: int| 0 <= earlier <= row implies #[trigger] workspace.hessenberg@[
                spec_hessenberg_index(RESTART, earlier, column as int)
            ] == (if earlier == row { coefficient } else { before[spec_hessenberg_index(RESTART, earlier, column as int)] }) by {
                lemma_hessenberg_index_in_bounds(RESTART, earlier, column as int);
            }
            assert forall|earlier: int| 0 <= earlier <= row implies mgs_remainder(
                backend,
                RESTART,
                work0,
                basis0,
                before,
                column as int,
                earlier,
            ) == #[trigger] mgs_remainder(
                backend,
                RESTART,
                work0,
                basis0,
                workspace.hessenberg@,
                column as int,
                earlier,
            ) by {
                lemma_mgs_remainder_frame(
                    backend,
                    RESTART,
                    work0,
                    basis0,
                    before,
                    workspace.hessenberg@,
                    column as int,
                    earlier,
                );
            }
        }
        if !backend.is_finite(coefficient) {
            return Ok(ArnoldiOutcome::Failed(ScalarFailure::NonFinite));
        }
        let factor = backend.neg(coefficient);
        let ghost remainder = B::spec_vector(&workspace.work);
        match backend.axpy(
            backend.view_mut(&mut workspace.work),
            backend.block_view(&workspace.basis, row),
            factor,
        ) {
            Ok(()) => {},
            Err(error) => return Err(SolveError::Backend(error)),
        }
        proof {
            let work0 = B::spec_vector(&old(workspace).work);
            let basis0 = B::spec_block(&old(workspace).basis);
            assert(mgs_remainder(backend, RESTART, work0, basis0, workspace.hessenberg@, column as int, row as int)
                == remainder);
            assert(B::spec_vector(&workspace.work) =~= mgs_remainder(
                backend,
                RESTART,
                work0,
                basis0,
                workspace.hessenberg@,
                column as int,
                row + 1,
            ));
        }
        row = row + 1;
    }
    let next_norm = match backend.norm_l2_prepared(&workspace.work_norm, backend.view(&workspace.work)) {
        Ok(norm) => norm,
        Err(error) => return Err(SolveError::Backend(error)),
    };
    let next_index = GmresWorkspace::<B, RESTART>::hessenberg_index(column + 1, column);
    let ghost before = workspace.hessenberg@;
    workspace.hessenberg.set(next_index, next_norm);
    assert(workspace.hessenberg@[spec_hessenberg_index(RESTART, column + 1, column as int)] == next_norm);
    proof {
        let work0 = B::spec_vector(&old(workspace).work);
        let basis0 = B::spec_block(&old(workspace).basis);
        assert forall|earlier: int| 0 <= earlier <= column implies #[trigger] workspace.hessenberg@[
            spec_hessenberg_index(RESTART, earlier, column as int)
        ] == before[spec_hessenberg_index(RESTART, earlier, column as int)] by {
            lemma_hessenberg_index_in_bounds(RESTART, earlier, column as int);
        }
        assert forall|earlier: int| 0 <= earlier <= column + 1 implies mgs_remainder(
            backend,
            RESTART,
            work0,
            basis0,
            before,
            column as int,
            earlier,
        ) == #[trigger] mgs_remainder(
            backend,
            RESTART,
            work0,
            basis0,
            workspace.hessenberg@,
            column as int,
            earlier,
        ) by {
            lemma_mgs_remainder_frame(
                backend,
                RESTART,
                work0,
                basis0,
                before,
                workspace.hessenberg@,
                column as int,
                earlier,
            );
        }
        assert(mgs_coefficients(
            backend,
            RESTART,
            work0,
            basis0,
            workspace.hessenberg@,
            column as int,
            column + 1,
        ));
    }
    if !backend.is_finite(next_norm) {
        return Ok(ArnoldiOutcome::Failed(ScalarFailure::NonFinite));
    }
    if backend.equal(next_norm, backend.zero()) {
        return Ok(ArnoldiOutcome::Ready { happy_breakdown: true });
    }
    match backend.copy(
        backend.view(&workspace.work),
        backend.block_view_mut(&mut workspace.basis, column + 1),
    ) {
        Ok(()) => {},
        Err(error) => return Err(SolveError::Backend(error)),
    }
    let factor = backend.div(backend.one(), next_norm);
    match backend.scale(backend.block_view_mut(&mut workspace.basis, column + 1), factor) {
        Ok(()) => {},
        Err(error) => return Err(SolveError::Backend(error)),
    }
    Ok(ArnoldiOutcome::Ready { happy_breakdown: false })
}

/// Rotation `row` of the cycle, `(c, s)` from `cosine[row]` and `sine[row]`,
/// applied to entries `row` and `row + 1` of Hessenberg column `column`:
/// `(c·upper + s·lower, −s·upper + c·lower)`.
pub open spec fn rotate_entries<B: KrylovBackend>(
    backend: &B,
    restart: usize,
    hessenberg: Seq<B::Scalar>,
    cosine: Seq<B::Scalar>,
    sine: Seq<B::Scalar>,
    row: int,
    column: int,
) -> Seq<B::Scalar> {
    let upper = hessenberg[spec_hessenberg_index(restart, row, column)];
    let lower = hessenberg[spec_hessenberg_index(restart, row + 1, column)];
    hessenberg.update(
        spec_hessenberg_index(restart, row, column),
        backend.spec_add(backend.spec_mul(cosine[row], upper), backend.spec_mul(sine[row], lower)),
    ).update(
        spec_hessenberg_index(restart, row + 1, column),
        backend.spec_add(
            backend.spec_mul(backend.spec_neg(sine[row]), upper),
            backend.spec_mul(cosine[row], lower),
        ),
    )
}

/// Hessenberg column `column` after the first `rows` rotations of the cycle,
/// applied in increasing row order.
pub open spec fn rotated_column<B: KrylovBackend>(
    backend: &B,
    restart: usize,
    hessenberg: Seq<B::Scalar>,
    cosine: Seq<B::Scalar>,
    sine: Seq<B::Scalar>,
    column: int,
    rows: int,
) -> Seq<B::Scalar>
    decreases rows,
{
    if rows <= 0 {
        hessenberg
    } else {
        rotate_entries(
            backend,
            restart,
            rotated_column(backend, restart, hessenberg, cosine, sine, column, rows - 1),
            cosine,
            sine,
            rows - 1,
            column,
        )
    }
}

/// Apply the accumulated Givens rotations to Hessenberg column `column`,
/// then form and apply the rotation that eliminates its subdiagonal, carrying
/// it into the transformed residual.
fn gmres_apply_rotations<B: KrylovBackend, const RESTART: usize>(
    backend: &B,
    workspace: &mut GmresWorkspace<B, RESTART>,
    column: usize,
) -> (outcome: Result<(), ScalarFailure>)
    requires
        old(workspace).wf(),
        column < RESTART,
    ensures
        final(workspace).wf(),
        final(workspace).spec_len() == old(workspace).spec_len(),
        final(workspace).coefficients == old(workspace).coefficients,
        final(workspace).basis == old(workspace).basis,
        final(workspace).preconditioned_basis == old(workspace).preconditioned_basis,
        ({
            let rotated = rotated_column(
                backend,
                RESTART,
                old(workspace).hessenberg@,
                old(workspace).cosine@,
                old(workspace).sine@,
                column as int,
                column as int,
            );
            let diagonal = spec_hessenberg_index(RESTART, column as int, column as int);
            let subdiagonal = spec_hessenberg_index(RESTART, column + 1, column as int);
            let transformed = old(workspace).transformed_residual@[column as int];
            match spec_givens(backend, rotated[diagonal], rotated[subdiagonal]) {
                Err(failure) => {
                    &&& outcome == Err::<(), ScalarFailure>(failure)
                    &&& final(workspace).hessenberg@ == rotated
                    &&& final(workspace).cosine == old(workspace).cosine
                    &&& final(workspace).sine == old(workspace).sine
                    &&& final(workspace).transformed_residual == old(workspace).transformed_residual
                },
                Ok((cosine, sine)) => {
                    &&& outcome is Ok
                    &&& final(workspace).hessenberg@ == rotated.update(
                        diagonal,
                        backend.spec_add(
                            backend.spec_mul(cosine, rotated[diagonal]),
                            backend.spec_mul(sine, rotated[subdiagonal]),
                        ),
                    ).update(subdiagonal, backend.spec_zero())
                    &&& final(workspace).cosine@ == old(workspace).cosine@.update(column as int, cosine)
                    &&& final(workspace).sine@ == old(workspace).sine@.update(column as int, sine)
                    &&& final(workspace).transformed_residual@ == old(
                        workspace,
                    ).transformed_residual@.update(column as int, backend.spec_mul(cosine, transformed)).update(
                        column + 1,
                        backend.spec_mul(backend.spec_neg(sine), transformed),
                    )
                },
            }
        }),
        outcome matches Err(failure) ==> failure == ScalarFailure::NonFinite,
{
    let mut row: usize = 0;
    while row < column
        invariant
            workspace.wf(),
            workspace.spec_len() == old(workspace).spec_len(),
            workspace.cosine == old(workspace).cosine,
            workspace.sine == old(workspace).sine,
            workspace.transformed_residual == old(workspace).transformed_residual,
            workspace.coefficients == old(workspace).coefficients,
            workspace.basis == old(workspace).basis,
            workspace.preconditioned_basis == old(workspace).preconditioned_basis,
            workspace.hessenberg@ == rotated_column(
                backend,
                RESTART,
                old(workspace).hessenberg@,
                old(workspace).cosine@,
                old(workspace).sine@,
                column as int,
                row as int,
            ),
            column < RESTART,
            row <= column,
        decreases column - row,
    {
        let upper_index = GmresWorkspace::<B, RESTART>::hessenberg_index(row, column);
        let lower_index = GmresWorkspace::<B, RESTART>::hessenberg_index(row + 1, column);
        let upper = workspace.hessenberg[upper_index];
        let lower = workspace.hessenberg[lower_index];
        let cosine = workspace.cosine[row];
        let sine = workspace.sine[row];
        let rotated_upper = backend.add(backend.mul(cosine, upper), backend.mul(sine, lower));
        let rotated_lower = backend.add(
            backend.mul(backend.neg(sine), upper),
            backend.mul(cosine, lower),
        );
        workspace.hessenberg.set(upper_index, rotated_upper);
        workspace.hessenberg.set(lower_index, rotated_lower);
        row = row + 1;
    }
    let diagonal = GmresWorkspace::<B, RESTART>::hessenberg_index(column, column);
    let subdiagonal = GmresWorkspace::<B, RESTART>::hessenberg_index(column + 1, column);
    let (cosine, sine) = givens(
        backend,
        workspace.hessenberg[diagonal],
        workspace.hessenberg[subdiagonal],
    )?;
    workspace.cosine.set(column, cosine);
    workspace.sine.set(column, sine);
    let upper = workspace.hessenberg[diagonal];
    let lower = workspace.hessenberg[subdiagonal];
    workspace.hessenberg.set(
        diagonal,
        backend.add(backend.mul(cosine, upper), backend.mul(sine, lower)),
    );
    workspace.hessenberg.set(subdiagonal, backend.zero());
    let transformed = workspace.transformed_residual[column];
    workspace.transformed_residual.set(column, backend.mul(cosine, transformed));
    workspace.transformed_residual.set(
        column + 1,
        backend.mul(backend.neg(sine), transformed),
    );
    Ok(())
}

} // verus!

verus! {

/// The scalars a restart cycle leaves untouched.
spec fn same_scalars<T>(left: GmresState<T>, right: GmresState<T>) -> bool {
    &&& left.initial_residual == right.initial_residual
    &&& left.last_residual == right.last_residual
    &&& left.threshold == right.threshold
    &&& left.residual_noise == right.residual_noise
    &&& left.right_hand_side_norm == right.right_hand_side_norm
}

proof fn lemma_terminal_report<B: KrylovBackend>(
    backend: &B,
    policy: ConvergencePolicy<B::Scalar>,
    len: usize,
    state: GmresState<B::Scalar>,
    termination: Termination,
)
    requires
        gmres_running(backend, policy, len, state),
        state.preconditioner_applications > 0,
        termination == Termination::Converged || termination == Termination::MaxIterations
            || termination == Termination::Breakdown || termination == Termination::NonFinite
            || termination == Termination::Stagnated || termination == Termination::Diverged,
        termination != Termination::Breakdown && termination != Termination::NonFinite
            ==> state.iterations >= 1,
        termination == Termination::Converged ==> residual_meets(
            backend,
            state.last_residual,
            state.threshold,
        ),
        termination == Termination::MaxIterations ==> state.iterations
            == policy.spec_max_iterations(),
        termination == Termination::MaxIterations || termination == Termination::Stagnated
            || termination == Termination::Diverged ==> backend.spec_is_finite(state.last_residual)
            && !backend.spec_less_equal(state.last_residual, state.threshold),
        termination == Termination::Diverged ==> backend.spec_less(
            backend.spec_add(state.initial_residual, state.residual_noise),
            state.last_residual,
        ),
    ensures
        gmres_report_law(
            backend,
            policy,
            len,
            SolveReport {
                termination,
                iterations: state.iterations,
                operator_applications: state.operator_applications,
                preconditioner_applications: state.preconditioner_applications,
                initial_residual_norm: state.initial_residual,
                final_residual_norm: state.last_residual,
                threshold: state.threshold,
            },
        ),
{
    let rhs_norm = state.right_hand_side_norm@;
    assert(policy.spec_threshold(backend, rhs_norm) == state.threshold);
}

/// The first `count` preconditioned basis vectors are the preconditioner's
/// solves `M⁻¹vⱼ` of the Arnoldi vectors.
spec fn preconditioned_basis_of<B: KrylovBackend, P: Preconditioner<B>>(
    backend: &B,
    preconditioner: &P,
    basis: Seq<Seq<B::Scalar>>,
    preconditioned: Seq<Seq<B::Scalar>>,
    count: int,
) -> bool {
    forall|index: int|
        0 <= index < count ==> #[trigger] preconditioned[index] == preconditioner.spec_apply(backend, basis[index])
}

/// One Arnoldi step: precondition `vⱼ`, apply the operator, orthogonalise,
/// and rotate the new Hessenberg column.
fn gmres_arnoldi_step<B: KrylovBackend, O: LinearOperator<B>, P: Preconditioner<B>, const RESTART: usize>(
    backend: &B,
    operator: &O,
    preconditioner: &P,
    workspace: &mut GmresWorkspace<B, RESTART>,
    column: usize,
    state: &mut GmresState<B::Scalar>,
) -> (outcome: Result<ArnoldiOutcome, SolveError<B::Error>>)
    requires
        old(workspace).wf(),
        column < RESTART,
        old(state).operator_applications < usize::MAX,
        old(state).preconditioner_applications < usize::MAX,
    ensures
        final(workspace).wf(),
        final(workspace).spec_len() == old(workspace).spec_len(),
        same_scalars(*final(state), *old(state)),
        final(state).iterations == old(state).iterations,
        outcome is Ok ==> final(state).operator_applications == old(state).operator_applications + 1,
        outcome is Ok ==> final(state).preconditioner_applications
            == old(state).preconditioner_applications + 1,
        outcome is Ok ==> B::spec_block(&final(workspace).preconditioned_basis) == B::spec_block(
            &old(workspace).preconditioned_basis,
        ).update(
            column as int,
            preconditioner.spec_apply(backend, B::spec_block(&old(workspace).basis)[column as int]),
        ),
        outcome is Ok ==> forall|index: int|
            0 <= index <= column ==> #[trigger] B::spec_block(&final(workspace).basis)[index] == B::spec_block(
                &old(workspace).basis,
            )[index],
        outcome matches Err(error) ==> error is Backend,
{
    match preconditioner.apply(
        backend,
        backend.block_view(&workspace.basis, column),
        backend.block_view_mut(&mut workspace.preconditioned_basis, column),
    ) {
        Ok(()) => {},
        Err(error) => return Err(SolveError::Backend(error)),
    }
    state.preconditioner_applications = state.preconditioner_applications + 1;
    match operator.apply(
        backend,
        backend.block_view(&workspace.preconditioned_basis, column),
        backend.view_mut(&mut workspace.work),
    ) {
        Ok(()) => {},
        Err(error) => return Err(SolveError::Backend(error)),
    }
    state.operator_applications = state.operator_applications + 1;
    let happy_breakdown = match gmres_orthogonalize(backend, workspace, column)? {
        ArnoldiOutcome::Ready { happy_breakdown } => happy_breakdown,
        ArnoldiOutcome::Failed(failure) => return Ok(ArnoldiOutcome::Failed(failure)),
    };
    match gmres_apply_rotations(backend, workspace, column) {
        Ok(()) => Ok(ArnoldiOutcome::Ready { happy_breakdown }),
        Err(failure) => Ok(ArnoldiOutcome::Failed(failure)),
    }
}

/// Run up to `cycle_limit` Arnoldi steps, stopping early once the rotated
/// residual estimate meets the threshold, the space becomes invariant, or
/// the budget is spent.
#[allow(clippy::too_many_arguments)]
fn gmres_run_cycle<B: KrylovBackend, O: LinearOperator<B>, P: Preconditioner<B>, Obs: IterationObserver<
    B::Scalar,
>, const RESTART: usize>(
    backend: &B,
    operator: &O,
    preconditioner: &P,
    workspace: &mut GmresWorkspace<B, RESTART>,
    policy: ConvergencePolicy<B::Scalar>,
    observer: &mut Obs,
    cycle_limit: usize,
    state: &mut GmresState<B::Scalar>,
) -> (outcome: Result<CycleProgress, SolveError<B::Error>>)
    requires
        old(workspace).wf(),
        gmres_ready(backend, policy, old(workspace).spec_len(), *old(state)),
        1 <= cycle_limit <= RESTART,
        old(state).iterations + cycle_limit <= policy.spec_max_iterations(),
    ensures
        final(workspace).wf(),
        final(workspace).spec_len() == old(workspace).spec_len(),
        same_scalars(*final(state), *old(state)),
        match outcome {
            Ok(CycleProgress::Terminated(termination)) => {
                &&& gmres_running(backend, policy, old(workspace).spec_len(), *final(state))
                &&& final(state).iterations >= old(state).iterations
                &&& final(state).preconditioner_applications > 0
                &&& (termination == Termination::Breakdown || termination == Termination::NonFinite)
            },
            Ok(CycleProgress::Ready(cycle)) => {
                &&& 1 <= cycle.vectors_used <= cycle_limit
                &&& preconditioned_basis_of(
                    backend,
                    preconditioner,
                    B::spec_block(&final(workspace).basis),
                    B::spec_block(&final(workspace).preconditioned_basis),
                    cycle.vectors_used as int,
                )
                &&& final(state).iterations == old(state).iterations + cycle.vectors_used
                &&& final(state).preconditioner_applications == final(state).iterations
                &&& final(state).operator_applications == old(state).operator_applications
                    + cycle.vectors_used
            },
            Err(error) => error is Backend,
        },
{
    let ghost start = *state;
    let ghost len = workspace.spec_len();
    let mut outcome = CycleOutcome { vectors_used: 0, happy_breakdown: false };
    let mut column: usize = 0;
    while column < cycle_limit
        invariant
            workspace.wf(),
            workspace.spec_len() == len,
            len == old(workspace).spec_len(),
            start == *old(state),
            gmres_ready(backend, policy, len, start),
            start.iterations + cycle_limit <= policy.spec_max_iterations(),
            1 <= cycle_limit <= RESTART,
            column <= cycle_limit,
            same_scalars(*state, start),
            state.iterations == start.iterations + column,
            state.preconditioner_applications == state.iterations,
            state.operator_applications == start.operator_applications + column,
            outcome.vectors_used == column,
            preconditioned_basis_of(
                backend,
                preconditioner,
                B::spec_block(&workspace.basis),
                B::spec_block(&workspace.preconditioned_basis),
                column as int,
            ),
        decreases cycle_limit - column,
    {
        let happy_breakdown = match gmres_arnoldi_step(
            backend,
            operator,
            preconditioner,
            workspace,
            column,
            state,
        )? {
            ArnoldiOutcome::Ready { happy_breakdown } => happy_breakdown,
            ArnoldiOutcome::Failed(failure) => {
                return Ok(CycleProgress::Terminated(failure.termination()));
            },
        };
        state.iterations = state.iterations + 1;
        outcome.vectors_used = column + 1;
        outcome.happy_breakdown = happy_breakdown;
        let estimate = backend.abs(workspace.transformed_residual[column + 1]);
        if !backend.is_finite(estimate) {
            return Ok(CycleProgress::Terminated(Termination::NonFinite));
        }
        if policy.should_check(state.iterations) {
            observer.observe(IterationState::new(state.iterations, estimate, state.threshold));
        }
        if backend.less_equal(estimate, state.threshold) || happy_breakdown || state.iterations
            == policy.max_iterations() {
            return Ok(CycleProgress::Ready(outcome));
        }
        column = column + 1;
    }
    Ok(CycleProgress::Ready(outcome))
}

/// `solution + Σ_{j < count} coefficients[j] · directions[j]`, the terms added
/// in increasing `j`.
pub open spec fn corrected<B: KrylovBackend>(
    backend: &B,
    solution: Seq<B::Scalar>,
    directions: Seq<Seq<B::Scalar>>,
    coefficients: Seq<B::Scalar>,
    count: int,
) -> Seq<B::Scalar>
    decreases count,
{
    if count <= 0 {
        solution
    } else {
        axpy_result(
            backend,
            corrected(backend, solution, directions, coefficients, count - 1),
            directions[count - 1],
            coefficients[count - 1],
        )
    }
}

/// Back-substitute the cycle's least-squares coefficients and add the
/// correction `Σ yⱼ M⁻¹ vⱼ` to the solution.
fn gmres_update_solution<B: KrylovBackend, const RESTART: usize>(
    backend: &B,
    solution: &mut B::Vector,
    workspace: &mut GmresWorkspace<B, RESTART>,
    count: usize,
) -> (outcome: Result<Option<ScalarFailure>, SolveError<B::Error>>)
    requires
        old(workspace).wf(),
        count <= RESTART,
    ensures
        final(workspace).wf(),
        final(workspace).spec_len() == old(workspace).spec_len(),
        final(workspace).hessenberg == old(workspace).hessenberg,
        final(workspace).transformed_residual == old(workspace).transformed_residual,
        final(workspace).cosine == old(workspace).cosine,
        final(workspace).sine == old(workspace).sine,
        back_substitution_outcome(
            backend,
            RESTART,
            old(workspace).hessenberg@,
            old(workspace).transformed_residual@,
            final(workspace).coefficients@,
            count as int,
            match outcome {
                Ok(Some(failure)) => Err(failure),
                _ => Ok(()),
            },
        ),
        outcome matches Ok(Some(_)) ==> *final(solution) == *old(solution),
        outcome matches Ok(None) ==> B::spec_vector(final(solution)) == corrected(
            backend,
            B::spec_vector(old(solution)),
            B::spec_block(&old(workspace).preconditioned_basis),
            final(workspace).coefficients@,
            count as int,
        ),
        outcome matches Err(error) ==> error is Backend,
{
    if let Err(failure) = back_substitute(
        backend,
        RESTART,
        &workspace.hessenberg,
        &workspace.transformed_residual,
        &mut workspace.coefficients,
        count,
    ) {
        return Ok(Some(failure));
    }
    let ghost solved = *workspace;
    let mut index: usize = 0;
    while index < count
        invariant
            workspace.wf(),
            *workspace == solved,
            solved.spec_len() == old(workspace).spec_len(),
            solved.hessenberg == old(workspace).hessenberg,
            solved.transformed_residual == old(workspace).transformed_residual,
            solved.cosine == old(workspace).cosine,
            solved.sine == old(workspace).sine,
            back_substitution_outcome(
                backend,
                RESTART,
                old(workspace).hessenberg@,
                old(workspace).transformed_residual@,
                solved.coefficients@,
                count as int,
                Ok(()),
            ),
            count <= RESTART,
            index <= count,
            solved.preconditioned_basis == old(workspace).preconditioned_basis,
            B::spec_vector(solution) == corrected(
                backend,
                B::spec_vector(old(solution)),
                B::spec_block(&solved.preconditioned_basis),
                solved.coefficients@,
                index as int,
            ),
        decreases count - index,
    {
        match backend.axpy(
            backend.view_mut(solution),
            backend.block_view(&workspace.preconditioned_basis, index),
            workspace.coefficients[index],
        ) {
            Ok(()) => {},
            Err(error) => return Err(SolveError::Backend(error)),
        }
        index = index + 1;
    }
    Ok(None)
}

/// Classify a completed, unconverged restart cycle by the progress it made:
/// a residual above the initial one by more than the evaluation noise has
/// diverged; a cycle that reduced the residual by no more than that noise has
/// stagnated.
pub open spec fn spec_progress_failure<B: KrylovBackend>(
    backend: &B,
    initial_residual: B::Scalar,
    residual_noise: B::Scalar,
    cycle_entry_residual: B::Scalar,
    last_residual: B::Scalar,
) -> Option<Termination> {
    if backend.spec_less(backend.spec_add(initial_residual, residual_noise), last_residual) {
        Some(Termination::Diverged)
    } else if backend.spec_less_equal(
        backend.spec_sub(cycle_entry_residual, last_residual),
        residual_noise,
    ) {
        Some(Termination::Stagnated)
    } else {
        None
    }
}

/// Classify a completed, unconverged restart cycle by the progress it made.
pub fn progress_failure<B: KrylovBackend>(
    backend: &B,
    initial_residual: B::Scalar,
    residual_noise: B::Scalar,
    cycle_entry_residual: B::Scalar,
    last_residual: B::Scalar,
) -> (termination: Option<Termination>)
    ensures
        termination == spec_progress_failure(
            backend,
            initial_residual,
            residual_noise,
            cycle_entry_residual,
            last_residual,
        ),
{
    if backend.less(backend.add(initial_residual, residual_noise), last_residual) {
        return Some(Termination::Diverged);
    }
    if backend.less_equal(backend.sub(cycle_entry_residual, last_residual), residual_noise) {
        return Some(Termination::Stagnated);
    }
    None
}

} // verus!

verus! {

#[allow(clippy::too_many_arguments)]
fn gmres_iterate<B: KrylovBackend, O: LinearOperator<B>, P: Preconditioner<B>, Obs: IterationObserver<
    B::Scalar,
>, const RESTART: usize>(
    backend: &B,
    operator: &O,
    preconditioner: &P,
    right_hand_side: &B::Vector,
    solution: &mut B::Vector,
    workspace: &mut GmresWorkspace<B, RESTART>,
    policy: ConvergencePolicy<B::Scalar>,
    observer: &mut Obs,
    entering: GmresState<B::Scalar>,
) -> (outcome: Result<SolveReport<B::Scalar>, SolveError<B::Error>>)
    requires
        old(workspace).wf(),
        gmres_ready(backend, policy, old(workspace).spec_len(), entering),
        entering.iterations == 0,
    ensures
        final(workspace).wf(),
        final(workspace).spec_len() == old(workspace).spec_len(),
        match outcome {
            Ok(report) => {
                &&& gmres_report_law(backend, policy, old(workspace).spec_len(), report)
                &&& carries_start(report, entering.initial_residual, entering.threshold)
                &&& report.iterations == 0 ==> *final(solution) == *old(solution)
                &&& converged_on_true_residual(backend, operator, right_hand_side, *final(solution), report)
            },
            Err(error) => error is Backend,
        },
{
    let ghost len = workspace.spec_len();
    let mut state = entering;
    let max_iterations = policy.max_iterations();
    while state.iterations < max_iterations
        invariant
            workspace.wf(),
            workspace.spec_len() == len,
            len == old(workspace).spec_len(),
            max_iterations == policy.spec_max_iterations(),
            gmres_ready(backend, policy, len, state),
            state.initial_residual == entering.initial_residual,
            state.threshold == entering.threshold,
            state.iterations == 0 ==> *solution == *old(solution),
        decreases max_iterations - state.iterations,
    {
        let cycle_entry_residual = state.last_residual;
        gmres_prepare_cycle(backend, workspace, state.last_residual)?;
        let remaining = max_iterations - state.iterations;
        let cycle_limit = if RESTART < remaining {
            RESTART
        } else {
            remaining
        };
        let cycle = match gmres_run_cycle(
            backend,
            operator,
            preconditioner,
            workspace,
            policy,
            observer,
            cycle_limit,
            &mut state,
        )? {
            CycleProgress::Ready(cycle) => cycle,
            CycleProgress::Terminated(termination) => {
                proof {
                    lemma_terminal_report(backend, policy, len, state, termination);
                }
                return Ok(state.report(termination));
            },
        };
        if let Some(failure) = gmres_update_solution(backend, solution, workspace, cycle.vectors_used)? {
            let termination = failure.termination();
            proof {
                lemma_terminal_report(backend, policy, len, state, termination);
            }
            return Ok(state.report(termination));
        }
        state.last_residual = gmres_recompute_residual(
            backend,
            operator,
            right_hand_side,
            solution,
            workspace,
        )?;
        state.operator_applications = state.operator_applications + 1;
        if !policy.should_check(state.iterations) && (backend.less_equal(
            state.last_residual,
            state.threshold,
        ) || cycle.happy_breakdown) {
            observer.observe(
                IterationState::new(state.iterations, state.last_residual, state.threshold),
            );
        }
        let termination = if !backend.is_finite(state.last_residual) {
            Some(Termination::NonFinite)
        } else if backend.less_equal(state.last_residual, state.threshold) {
            Some(Termination::Converged)
        } else if cycle.happy_breakdown {
            Some(Termination::Breakdown)
        } else {
            progress_failure(
                backend,
                state.initial_residual,
                state.residual_noise,
                cycle_entry_residual,
                state.last_residual,
            )
        };
        if let Some(termination) = termination {
            proof {
                lemma_terminal_report(backend, policy, len, state, termination);
            }
            return Ok(state.report(termination));
        }
    }
    proof {
        lemma_terminal_report(backend, policy, len, state, Termination::MaxIterations);
    }
    Ok(state.report(Termination::MaxIterations))
}

impl<B: KrylovBackend, const RESTART: usize> Gmres<B, RESTART> {
    /// Solve `A x = b` into caller-owned `solution`.
    ///
    /// Returns a dimension or backend failure. Numerical breakdown and
    /// non-finite recurrence state are returned value-semantically in
    /// [`SolveReport`].
    pub fn solve_into<O: LinearOperator<B>, P: Preconditioner<B>>(
        backend: &B,
        operator: &O,
        preconditioner: &P,
        right_hand_side: &B::Vector,
        solution: &mut B::Vector,
        workspace: &mut GmresWorkspace<B, RESTART>,
        policy: ConvergencePolicy<B::Scalar>,
    ) -> (outcome: Result<SolveReport<B::Scalar>, SolveError<B::Error>>)
        requires
            old(workspace).wf(),
            policy.spec_max_iterations() < usize::MAX / 2,
        ensures
            gmres_solve_outcome(
                backend,
                operator,
                policy,
                right_hand_side,
                *old(solution),
                *final(solution),
                *old(workspace),
                *final(workspace),
                outcome,
            ),
    {
        let mut observer = NoObserver;
        Self::solve_with_observer(
            backend,
            operator,
            preconditioner,
            right_hand_side,
            solution,
            workspace,
            policy,
            &mut observer,
        )
    }

    /// Solve while reporting checked residuals to `observer`.
    ///
    /// Returns a dimension or backend failure.
    #[allow(clippy::too_many_arguments)]
    pub fn solve_with_observer<O: LinearOperator<B>, P: Preconditioner<B>, Obs: IterationObserver<
        B::Scalar,
    >>(
        backend: &B,
        operator: &O,
        preconditioner: &P,
        right_hand_side: &B::Vector,
        solution: &mut B::Vector,
        workspace: &mut GmresWorkspace<B, RESTART>,
        policy: ConvergencePolicy<B::Scalar>,
        observer: &mut Obs,
    ) -> (outcome: Result<SolveReport<B::Scalar>, SolveError<B::Error>>)
        requires
            old(workspace).wf(),
            policy.spec_max_iterations() < usize::MAX / 2,
        ensures
            gmres_solve_outcome(
                backend,
                operator,
                policy,
                right_hand_side,
                *old(solution),
                *final(solution),
                *old(workspace),
                *final(workspace),
                outcome,
            ),
    {
        gmres_validate_dimensions(backend, operator, right_hand_side, solution, workspace)?;
        match gmres_initialize(backend, operator, right_hand_side, solution, workspace, policy)? {
            Stage::Continue(state) => gmres_iterate(
                backend,
                operator,
                preconditioner,
                right_hand_side,
                solution,
                workspace,
                policy,
                observer,
                state,
            ),
            Stage::Complete(report) => Ok(report),
        }
    }
}

} // verus!
