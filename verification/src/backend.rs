//! The storage-and-arithmetic seam every recurrence is written against.
use vstd::prelude::*;

verus! {

/// Vector storage, vector kernels and real-scalar arithmetic required by the
/// backend-neutral Krylov recurrences.
///
/// A backend supplies both the storage the recurrences work in and the
/// arithmetic on its scalar, so the recurrences never inspect a scalar
/// themselves: every comparison and every operation on a `Scalar` goes through
/// the backend. Each scalar operation is named by a spec function, and an
/// implementation promises that the operation returns exactly the named value
/// for its operands; in exchange the recurrences state their results over
/// those names. The default of each name is an unspecified function of all
/// its arguments, the backend among them — so an implementation that cannot
/// define the name itself is described by whatever function it computes — and
/// the recurrences assume nothing of a backend beyond what its operations
/// return.
///
/// The generic associated view types preserve backend-native borrowing: a
/// host backend maps them to slices or array views, an accelerator to borrowed
/// device buffers.
pub trait KrylovBackend {
    /// Real scalar the backend computes in.
    type Scalar: Copy;
    /// Backend-specific failure.
    type Error;
    /// Owned, reusable vector storage.
    type Vector;
    /// Owned storage for a fixed count of equal-length vectors.
    type VectorBlock;
    /// Backend-owned fixed-buffer dot-product resources.
    type PreparedDot;
    /// Backend-owned fixed-buffer Euclidean-norm resources.
    type PreparedNorm;
    /// Immutable zero-copy vector view.
    type View<'a>: Copy where Self: 'a;
    /// Mutable zero-copy vector view.
    type ViewMut<'a> where Self: 'a;

    // ----- scalar law -------------------------------------------------------

    /// The additive identity.
    open spec fn spec_zero(&self) -> Self::Scalar {
        arbitrary::<spec_fn(&Self) -> Self::Scalar>()(self)
    }

    /// The multiplicative identity.
    open spec fn spec_one(&self) -> Self::Scalar {
        arbitrary::<spec_fn(&Self) -> Self::Scalar>()(self)
    }

    /// The scalar's machine epsilon.
    open spec fn spec_epsilon(&self) -> Self::Scalar {
        arbitrary::<spec_fn(&Self) -> Self::Scalar>()(self)
    }

    /// The scalar nearest to a count.
    open spec fn spec_from_count(&self, count: usize) -> Self::Scalar {
        arbitrary::<spec_fn(&Self, usize) -> Self::Scalar>()(self, count)
    }

    /// Whether a scalar is neither infinite nor NaN.
    open spec fn spec_is_finite(&self, value: Self::Scalar) -> bool {
        arbitrary::<spec_fn(&Self, Self::Scalar) -> bool>()(self, value)
    }

    /// `left < right` (false whenever either side is NaN).
    open spec fn spec_less(&self, left: Self::Scalar, right: Self::Scalar) -> bool {
        arbitrary::<spec_fn(&Self, Self::Scalar, Self::Scalar) -> bool>()(self, left, right)
    }

    /// `left <= right` (false whenever either side is NaN).
    open spec fn spec_less_equal(&self, left: Self::Scalar, right: Self::Scalar) -> bool {
        arbitrary::<spec_fn(&Self, Self::Scalar, Self::Scalar) -> bool>()(self, left, right)
    }

    /// `left == right` (false whenever either side is NaN).
    open spec fn spec_equal(&self, left: Self::Scalar, right: Self::Scalar) -> bool {
        arbitrary::<spec_fn(&Self, Self::Scalar, Self::Scalar) -> bool>()(self, left, right)
    }

    /// `left + right`.
    open spec fn spec_add(&self, left: Self::Scalar, right: Self::Scalar) -> Self::Scalar {
        arbitrary::<spec_fn(&Self, Self::Scalar, Self::Scalar) -> Self::Scalar>()(self, left, right)
    }

    /// `left - right`.
    open spec fn spec_sub(&self, left: Self::Scalar, right: Self::Scalar) -> Self::Scalar {
        arbitrary::<spec_fn(&Self, Self::Scalar, Self::Scalar) -> Self::Scalar>()(self, left, right)
    }

    /// `left * right`.
    open spec fn spec_mul(&self, left: Self::Scalar, right: Self::Scalar) -> Self::Scalar {
        arbitrary::<spec_fn(&Self, Self::Scalar, Self::Scalar) -> Self::Scalar>()(self, left, right)
    }

    /// `left / right`.
    open spec fn spec_div(&self, left: Self::Scalar, right: Self::Scalar) -> Self::Scalar {
        arbitrary::<spec_fn(&Self, Self::Scalar, Self::Scalar) -> Self::Scalar>()(self, left, right)
    }

    /// `-value`.
    open spec fn spec_neg(&self, value: Self::Scalar) -> Self::Scalar {
        arbitrary::<spec_fn(&Self, Self::Scalar) -> Self::Scalar>()(self, value)
    }

    /// `|value|`.
    open spec fn spec_abs(&self, value: Self::Scalar) -> Self::Scalar {
        arbitrary::<spec_fn(&Self, Self::Scalar) -> Self::Scalar>()(self, value)
    }

    /// `√value`.
    open spec fn spec_sqrt(&self, value: Self::Scalar) -> Self::Scalar {
        arbitrary::<spec_fn(&Self, Self::Scalar) -> Self::Scalar>()(self, value)
    }

    /// The additive identity.
    fn zero(&self) -> (value: Self::Scalar)
        ensures
            value == self.spec_zero(),
    ;

    /// The multiplicative identity.
    fn one(&self) -> (value: Self::Scalar)
        ensures
            value == self.spec_one(),
    ;

    /// The scalar's machine epsilon.
    fn epsilon(&self) -> (value: Self::Scalar)
        ensures
            value == self.spec_epsilon(),
    ;

    /// The scalar nearest to `count`.
    fn from_count(&self, count: usize) -> (value: Self::Scalar)
        ensures
            value == self.spec_from_count(count),
    ;

    /// Whether `value` is neither infinite nor NaN.
    fn is_finite(&self, value: Self::Scalar) -> (finite: bool)
        ensures
            finite == self.spec_is_finite(value),
    ;

    /// `left < right`.
    fn less(&self, left: Self::Scalar, right: Self::Scalar) -> (holds: bool)
        ensures
            holds == self.spec_less(left, right),
    ;

    /// `left <= right`.
    fn less_equal(&self, left: Self::Scalar, right: Self::Scalar) -> (holds: bool)
        ensures
            holds == self.spec_less_equal(left, right),
    ;

    /// `left == right`.
    fn equal(&self, left: Self::Scalar, right: Self::Scalar) -> (holds: bool)
        ensures
            holds == self.spec_equal(left, right),
    ;

    /// `left + right`.
    fn add(&self, left: Self::Scalar, right: Self::Scalar) -> (value: Self::Scalar)
        ensures
            value == self.spec_add(left, right),
    ;

    /// `left - right`.
    fn sub(&self, left: Self::Scalar, right: Self::Scalar) -> (value: Self::Scalar)
        ensures
            value == self.spec_sub(left, right),
    ;

    /// `left * right`.
    fn mul(&self, left: Self::Scalar, right: Self::Scalar) -> (value: Self::Scalar)
        ensures
            value == self.spec_mul(left, right),
    ;

    /// `left / right`.
    fn div(&self, left: Self::Scalar, right: Self::Scalar) -> (value: Self::Scalar)
        ensures
            value == self.spec_div(left, right),
    ;

    /// `-value`.
    fn neg(&self, value: Self::Scalar) -> (negated: Self::Scalar)
        ensures
            negated == self.spec_neg(value),
    ;

    /// `|value|`.
    fn abs(&self, value: Self::Scalar) -> (magnitude: Self::Scalar)
        ensures
            magnitude == self.spec_abs(value),
    ;

    /// `√value`.
    fn sqrt(&self, value: Self::Scalar) -> (root: Self::Scalar)
        ensures
            root == self.spec_sqrt(value),
    ;

    // ----- vector storage ---------------------------------------------------

    /// Contents of an owned vector.
    open spec fn spec_vector(vector: &Self::Vector) -> Seq<Self::Scalar> {
        arbitrary::<spec_fn(&Self::Vector) -> Seq<Self::Scalar>>()(vector)
    }

    /// Contents of each vector of a block, in order.
    open spec fn spec_block(block: &Self::VectorBlock) -> Seq<Seq<Self::Scalar>> {
        arbitrary::<spec_fn(&Self::VectorBlock) -> Seq<Seq<Self::Scalar>>>()(block)
    }

    /// Contents seen through an immutable view.
    open spec fn spec_view<'a>(view: Self::View<'a>) -> Seq<Self::Scalar> where Self: 'a {
        arbitrary::<spec_fn(Self::View<'a>) -> Seq<Self::Scalar>>()(view)
    }

    /// Contents a writable view sees when it is borrowed.
    open spec fn spec_view_mut<'a>(view: &Self::ViewMut<'a>) -> Seq<Self::Scalar> where Self: 'a {
        arbitrary::<spec_fn(&Self::ViewMut<'a>) -> Seq<Self::Scalar>>()(view)
    }

    /// Contents a writable view leaves in the storage it borrows once the
    /// borrow ends: what the kernel that receives the view writes.
    open spec fn spec_written<'a>(view: &Self::ViewMut<'a>) -> Seq<Self::Scalar> where Self: 'a {
        arbitrary::<spec_fn(&Self::ViewMut<'a>) -> Seq<Self::Scalar>>()(view)
    }

    /// The native-precision dot product the backend computes of two vectors.
    open spec fn spec_dot(&self, left: Seq<Self::Scalar>, right: Seq<Self::Scalar>) -> Self::Scalar {
        arbitrary::<spec_fn(&Self, Seq<Self::Scalar>, Seq<Self::Scalar>) -> Self::Scalar>()(self, left, right)
    }

    /// The native-precision Euclidean norm the backend computes of a vector.
    open spec fn spec_norm_l2(&self, vector: Seq<Self::Scalar>) -> Self::Scalar {
        arbitrary::<spec_fn(&Self, Seq<Self::Scalar>) -> Self::Scalar>()(self, vector)
    }

    /// Allocate a zero-initialized vector.
    fn allocate(&self, len: usize) -> (vector: Result<Self::Vector, Self::Error>)
        ensures
            vector matches Ok(v) ==> Self::spec_vector(&v) == Seq::new(len as nat, |_entry: int| self.spec_zero()),
    ;

    /// Allocate `count` zero-initialized vectors of `len` elements each.
    fn allocate_block(&self, count: usize, len: usize) -> (block: Result<
        Self::VectorBlock,
        Self::Error,
    >)
        ensures
            block matches Ok(b) ==> Self::spec_block(&b) == Seq::new(
                count as nat,
                |_index: int| Seq::new(len as nat, |_entry: int| self.spec_zero()),
            ),
    ;

    /// Borrow an immutable vector view.
    fn view<'a>(&'a self, vector: &'a Self::Vector) -> (view: Self::View<'a>)
        ensures
            Self::spec_view(view) == Self::spec_vector(vector),
    ;

    /// Borrow a writable vector view. The vector keeps its length, and holds
    /// what the view is written with once the borrow ends.
    fn view_mut<'a>(&'a self, vector: &'a mut Self::Vector) -> (view: Self::ViewMut<'a>)
        ensures
            Self::spec_view_mut(&view) == Self::spec_vector(old(vector)),
            Self::spec_vector(final(vector)) == Self::spec_written(&view),
            Self::spec_vector(final(vector)).len() == Self::spec_vector(old(vector)).len(),
    ;

    /// Borrow vector `index` of a block immutably.
    fn block_view<'a>(&'a self, block: &'a Self::VectorBlock, index: usize) -> (view: Self::View<'a>)
        requires
            index < Self::spec_block(block).len(),
        ensures
            Self::spec_view(view) == Self::spec_block(block)[index as int],
    ;

    /// Borrow vector `index` of a block for writing; the other vectors stay
    /// as they are and this one keeps its length.
    fn block_view_mut<'a>(&'a self, block: &'a mut Self::VectorBlock, index: usize) -> (view:
        Self::ViewMut<'a>)
        requires
            index < Self::spec_block(old(block)).len(),
        ensures
            Self::spec_view_mut(&view) == Self::spec_block(old(block))[index as int],
            Self::spec_block(final(block)) == Self::spec_block(old(block)).update(
                index as int,
                Self::spec_written(&view),
            ),
            Self::spec_written(&view).len() == Self::spec_block(old(block))[index as int].len(),
    ;

    /// Logical length of an owned vector.
    fn vector_len(&self, vector: &Self::Vector) -> (len: usize)
        ensures
            len == Self::spec_vector(vector).len(),
    ;

    // ----- vector kernels ---------------------------------------------------

    /// Copy `source` into caller-owned `target`.
    fn copy(&self, source: Self::View<'_>, target: Self::ViewMut<'_>) -> (outcome: Result<(), Self::Error>)
        ensures
            outcome is Ok ==> Self::spec_view(source).len() == Self::spec_view_mut(&target).len()
                && Self::spec_written(&target) == Self::spec_view(source),
    ;

    /// Scale `target` in place.
    fn scale(&self, target: Self::ViewMut<'_>, factor: Self::Scalar) -> (outcome: Result<(), Self::Error>)
        ensures
            outcome is Ok ==> Self::spec_written(&target) == Self::spec_view_mut(&target).map_values(
                |value: Self::Scalar| self.spec_mul(value, factor),
            ),
    ;

    /// Apply `target += factor * source` in place.
    fn axpy(&self, target: Self::ViewMut<'_>, source: Self::View<'_>, factor: Self::Scalar) -> (outcome:
        Result<(), Self::Error>)
        ensures
            outcome is Ok ==> Self::spec_view(source).len() == Self::spec_view_mut(&target).len()
                && Self::spec_written(&target) == Seq::new(
                Self::spec_view_mut(&target).len(),
                |entry: int| self.spec_add(
                    Self::spec_view_mut(&target)[entry],
                    self.spec_mul(factor, Self::spec_view(source)[entry]),
                ),
            ),
    ;

    /// Prepare a dot product over fixed vector allocations.
    fn prepare_dot(&self, left: Self::View<'_>, right: Self::View<'_>) -> Result<
        Self::PreparedDot,
        Self::Error,
    >;

    /// Execute a prepared native-precision dot product.
    fn dot_prepared(
        &self,
        prepared: &Self::PreparedDot,
        left: Self::View<'_>,
        right: Self::View<'_>,
    ) -> (value: Result<Self::Scalar, Self::Error>)
        ensures
            value matches Ok(v) ==> v == self.spec_dot(Self::spec_view(left), Self::spec_view(right)),
    ;

    /// Prepare a Euclidean norm over a fixed vector allocation.
    fn prepare_norm_l2(&self, vector: Self::View<'_>) -> Result<Self::PreparedNorm, Self::Error>;

    /// Execute a prepared native-precision Euclidean norm.
    fn norm_l2_prepared(&self, prepared: &Self::PreparedNorm, vector: Self::View<'_>) -> (norm: Result<
        Self::Scalar,
        Self::Error,
    >)
        ensures
            norm matches Ok(v) ==> v == self.spec_norm_l2(Self::spec_view(vector)),
    ;

    /// Compute a one-shot native-precision dot product.
    fn dot(&self, left: Self::View<'_>, right: Self::View<'_>) -> (value: Result<Self::Scalar, Self::Error>)
        ensures
            value matches Ok(v) ==> v == self.spec_dot(Self::spec_view(left), Self::spec_view(right)),
    {
        let prepared = self.prepare_dot(left, right)?;
        self.dot_prepared(&prepared, left, right)
    }

    /// Compute a one-shot native-precision Euclidean norm.
    fn norm_l2(&self, vector: Self::View<'_>) -> (norm: Result<Self::Scalar, Self::Error>)
        ensures
            norm matches Ok(v) ==> v == self.spec_norm_l2(Self::spec_view(vector)),
    {
        let prepared = self.prepare_norm_l2(vector)?;
        self.norm_l2_prepared(&prepared, vector)
    }

    /// Compute `residual = right_hand_side - image`.
    fn residual(
        &self,
        right_hand_side: Self::View<'_>,
        image: Self::View<'_>,
        residual: Self::ViewMut<'_>,
    ) -> (outcome: Result<(), Self::Error>)
        ensures
            outcome is Ok ==> Self::spec_view(right_hand_side).len() == Self::spec_view_mut(&residual).len()
                && Self::spec_view(image).len() == Self::spec_view_mut(&residual).len()
                && Self::spec_written(&residual) == Seq::new(
                Self::spec_view(right_hand_side).len(),
                |entry: int| self.spec_sub(
                    Self::spec_view(right_hand_side)[entry],
                    Self::spec_view(image)[entry],
                ),
            ),
    ;

    /// Apply the fused CG update `x += αp; r -= αAp`.
    fn fused_cg_update(
        &self,
        solution: Self::ViewMut<'_>,
        direction: Self::View<'_>,
        residual: Self::ViewMut<'_>,
        image: Self::View<'_>,
        alpha: Self::Scalar,
    ) -> (outcome: Result<(), Self::Error>)
        ensures
            outcome is Ok ==> {
                &&& Self::spec_view(direction).len() == Self::spec_view_mut(&solution).len()
                &&& Self::spec_view(image).len() == Self::spec_view_mut(&residual).len()
                &&& Self::spec_written(&solution) == Seq::new(
                    Self::spec_view_mut(&solution).len(),
                    |entry: int| self.spec_add(
                        Self::spec_view_mut(&solution)[entry],
                        self.spec_mul(alpha, Self::spec_view(direction)[entry]),
                    ),
                )
                &&& Self::spec_written(&residual) == Seq::new(
                    Self::spec_view_mut(&residual).len(),
                    |entry: int| self.spec_sub(
                        Self::spec_view_mut(&residual)[entry],
                        self.spec_mul(alpha, Self::spec_view(image)[entry]),
                    ),
                )
            },
    ;

    /// Apply the CG direction recurrence `p = z + βp`.
    fn combine_direction(
        &self,
        direction: Self::ViewMut<'_>,
        preconditioned_residual: Self::View<'_>,
        beta: Self::Scalar,
    ) -> (outcome: Result<(), Self::Error>)
        ensures
            outcome is Ok ==> Self::spec_view(preconditioned_residual).len() == Self::spec_view_mut(
                &direction,
            ).len() && Self::spec_written(&direction) == Seq::new(
                Self::spec_view(preconditioned_residual).len(),
                |entry: int| self.spec_add(
                    Self::spec_view(preconditioned_residual)[entry],
                    self.spec_mul(beta, Self::spec_view_mut(&direction)[entry]),
                ),
            ),
    ;
}

/// Logical length of an owned vector.
pub open spec fn spec_vector_len<B: KrylovBackend>(vector: &B::Vector) -> nat {
    B::spec_vector(vector).len()
}

/// Number of vectors a block holds.
pub open spec fn spec_block_count<B: KrylovBackend>(block: &B::VectorBlock) -> nat {
    B::spec_block(block).len()
}

/// `target + factor · source`, entry by entry: what `axpy` writes.
pub open spec fn axpy_result<B: KrylovBackend + ?Sized>(
    backend: &B,
    target: Seq<B::Scalar>,
    source: Seq<B::Scalar>,
    factor: B::Scalar,
) -> Seq<B::Scalar> {
    Seq::new(target.len(), |entry: int| backend.spec_add(target[entry], backend.spec_mul(factor, source[entry])))
}

/// `target − factor · source`, entry by entry: the residual half of the
/// fused CG update.
pub open spec fn reduced<B: KrylovBackend + ?Sized>(
    backend: &B,
    target: Seq<B::Scalar>,
    source: Seq<B::Scalar>,
    factor: B::Scalar,
) -> Seq<B::Scalar> {
    Seq::new(target.len(), |entry: int| backend.spec_sub(target[entry], backend.spec_mul(factor, source[entry])))
}

/// `source + factor · target`, entry by entry: what `combine_direction`
/// writes.
pub open spec fn combined<B: KrylovBackend + ?Sized>(
    backend: &B,
    source: Seq<B::Scalar>,
    target: Seq<B::Scalar>,
    factor: B::Scalar,
) -> Seq<B::Scalar> {
    Seq::new(source.len(), |entry: int| backend.spec_add(source[entry], backend.spec_mul(factor, target[entry])))
}

/// `left − right`, entry by entry.
pub open spec fn difference<B: KrylovBackend + ?Sized>(backend: &B, left: Seq<B::Scalar>, right: Seq<B::Scalar>) -> Seq<
    B::Scalar,
> {
    Seq::new(left.len(), |entry: int| backend.spec_sub(left[entry], right[entry]))
}

} // verus!
