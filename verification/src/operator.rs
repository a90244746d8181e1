//! Matrix-free operator and preconditioner contracts.
use vstd::prelude::*;
use crate::backend::KrylovBackend;

verus! {

/// Matrix-free linear operator `y = A x`.
///
/// Implementations write into caller-owned output and must not retain either
/// borrowed view after returning.
///
/// Each spec name defaults to an unspecified function of its arguments, the
/// implementation among them, so an implementation that cannot define a name
/// is described by whatever it computes.
pub trait LinearOperator<B: KrylovBackend> {
    /// Square operator dimension.
    open spec fn spec_dimension(&self) -> nat {
        arbitrary::<spec_fn(&Self) -> nat>()(self)
    }

    /// Square operator dimension.
    fn dimension(&self) -> (dimension: usize)
        ensures
            dimension == self.spec_dimension(),
    ;

    /// The image `A · input` this operator writes, as it computes it.
    open spec fn spec_apply(&self, backend: &B, input: Seq<B::Scalar>) -> Seq<B::Scalar> {
        arbitrary::<spec_fn(&Self, &B, Seq<B::Scalar>) -> Seq<B::Scalar>>()(self, backend, input)
    }

    /// Apply the operator.
    fn apply(&self, backend: &B, input: B::View<'_>, output: B::ViewMut<'_>) -> (outcome: Result<(), B::Error>)
        ensures
            outcome is Ok ==> B::spec_written(&output) == self.spec_apply(backend, B::spec_view(input)),
    ;
}

/// Matrix-free rectangular operator supporting both `A x` and `Aᵀ y`.
///
/// Least-squares recurrences need the adjoint as well as the forward product,
/// and they need the two to have genuinely different lengths, so this is a
/// separate contract from [`LinearOperator`] rather than an extension of it.
///
/// Each spec name defaults to an unspecified function of its arguments, the
/// implementation among them, so an implementation that cannot define a name
/// is described by whatever it computes.
pub trait RectangularOperator<B: KrylovBackend> {
    /// Row count: the length of `A x` and of the right-hand side.
    open spec fn spec_rows(&self) -> nat {
        arbitrary::<spec_fn(&Self) -> nat>()(self)
    }

    /// Column count: the length of `x` and of `Aᵀ y`.
    open spec fn spec_columns(&self) -> nat {
        arbitrary::<spec_fn(&Self) -> nat>()(self)
    }

    /// Row count: the length of `A x` and of the right-hand side.
    fn rows(&self) -> (rows: usize)
        ensures
            rows == self.spec_rows(),
    ;

    /// Column count: the length of `x` and of `Aᵀ y`.
    fn columns(&self) -> (columns: usize)
        ensures
            columns == self.spec_columns(),
    ;

    /// The image `A · input` this operator writes, as it computes it.
    open spec fn spec_apply(&self, backend: &B, input: Seq<B::Scalar>) -> Seq<B::Scalar> {
        arbitrary::<spec_fn(&Self, &B, Seq<B::Scalar>) -> Seq<B::Scalar>>()(self, backend, input)
    }

    /// The image `Aᵀ · input` this operator writes, as it computes it.
    open spec fn spec_apply_transpose(&self, backend: &B, input: Seq<B::Scalar>) -> Seq<B::Scalar> {
        arbitrary::<spec_fn(&Self, &B, Seq<B::Scalar>) -> Seq<B::Scalar>>()(self, backend, input)
    }

    /// Apply `output = A · input`.
    fn apply(&self, backend: &B, input: B::View<'_>, output: B::ViewMut<'_>) -> (outcome: Result<(), B::Error>)
        ensures
            outcome is Ok ==> B::spec_written(&output) == self.spec_apply(backend, B::spec_view(input)),
    ;

    /// Apply `output = Aᵀ · input`.
    fn apply_transpose(&self, backend: &B, input: B::View<'_>, output: B::ViewMut<'_>) -> (outcome: Result<
        (),
        B::Error,
    >)
        ensures
            outcome is Ok ==> B::spec_written(&output) == self.spec_apply_transpose(backend, B::spec_view(input)),
    ;
}

/// Preconditioner solve `z = M⁻¹r`.
///
/// Individual algorithms define whether this operation enters on the left or
/// right of the transformed operator.
///
/// Each spec name defaults to an unspecified function of its arguments, the
/// implementation among them, so an implementation that cannot define a name
/// is described by whatever it computes.
pub trait Preconditioner<B: KrylovBackend> {
    /// The solve `M⁻¹ · residual` this preconditioner writes, as it computes it.
    open spec fn spec_apply(&self, backend: &B, residual: Seq<B::Scalar>) -> Seq<B::Scalar> {
        arbitrary::<spec_fn(&Self, &B, Seq<B::Scalar>) -> Seq<B::Scalar>>()(self, backend, residual)
    }

    /// Apply the preconditioner into caller-owned output.
    fn apply(&self, backend: &B, residual: B::View<'_>, output: B::ViewMut<'_>) -> (outcome: Result<
        (),
        B::Error,
    >)
        ensures
            outcome is Ok ==> B::spec_written(&output) == self.spec_apply(backend, B::spec_view(residual)),
    ;
}

/// Zero-sized identity preconditioner.
#[derive(Clone, Copy, Debug, Default, PartialEq, Eq)]
pub struct Identity;

impl<B: KrylovBackend> Preconditioner<B> for Identity {
    /// The identity writes its input.
    open spec fn spec_apply(&self, backend: &B, residual: Seq<B::Scalar>) -> Seq<B::Scalar> {
        residual
    }

    fn apply(&self, backend: &B, residual: B::View<'_>, output: B::ViewMut<'_>) -> Result<
        (),
        B::Error,
    > {
        backend.copy(residual, output)
    }
}

} // verus!
