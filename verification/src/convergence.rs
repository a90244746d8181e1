//! Validated absolute-plus-relative convergence policy.
use vstd::prelude::*;
use crate::backend::KrylovBackend;

verus! {

/// Invalid convergence-policy reason.
#[non_exhaustive]
#[derive(Clone, Copy, Debug, PartialEq, Eq, Structural)]
pub enum InvalidConvergencePolicy {
    /// An absolute or relative tolerance was negative or non-finite.
    InvalidTolerance,
    /// No iterations were permitted.
    ZeroIterations,
    /// Residual checks were disabled by a zero interval.
    ZeroCheckInterval,
}

/// Whether a tolerance is finite and not negative.
pub open spec fn tolerance_admissible<B: KrylovBackend>(backend: &B, tolerance: B::Scalar) -> bool {
    backend.spec_is_finite(tolerance) && !backend.spec_less(tolerance, backend.spec_zero())
}

/// Absolute-plus-relative convergence policy.
///
/// A residual `r` is converged when
/// `‖r‖₂ <= max(absolute_tolerance, relative_tolerance * ‖b‖₂)`.
#[derive(Copy, Debug, PartialEq)]
pub struct ConvergencePolicy<T> {
    absolute_tolerance: T,
    relative_tolerance: T,
    max_iterations: usize,
    check_interval: usize,
}

impl<T: Copy> Clone for ConvergencePolicy<T> {
    fn clone(&self) -> (copy: Self)
        ensures
            copy == *self,
    {
        *self
    }
}

impl<T> ConvergencePolicy<T> {
    /// Budget and interval are positive in every policy.
    #[verifier::type_invariant]
    spec fn positive_counts(self) -> bool {
        self.max_iterations > 0 && self.check_interval > 0
    }

    /// Absolute residual tolerance.
    pub closed spec fn spec_absolute_tolerance(self) -> T {
        self.absolute_tolerance
    }

    /// Relative residual tolerance.
    pub closed spec fn spec_relative_tolerance(self) -> T {
        self.relative_tolerance
    }

    /// Maximum Krylov iterations.
    pub closed spec fn spec_max_iterations(self) -> usize {
        self.max_iterations
    }

    /// Iteration interval between explicit convergence checks.
    pub closed spec fn spec_check_interval(self) -> usize {
        self.check_interval
    }

}

impl<T: Copy> ConvergencePolicy<T> {
    /// Iteration `iteration` is a configured check point.
    pub open spec fn spec_should_check(self, iteration: usize) -> bool {
        ||| iteration % self.spec_check_interval() == 0
        ||| iteration == self.spec_max_iterations()
    }

    /// Effective residual threshold for a right-hand side of norm `rhs_norm`:
    /// the larger of the absolute tolerance and `relative_tolerance * rhs_norm`.
    pub open spec fn spec_threshold<B: KrylovBackend<Scalar = T>>(
        self,
        backend: &B,
        rhs_norm: T,
    ) -> T {
        let relative = backend.spec_mul(self.spec_relative_tolerance(), rhs_norm);
        if backend.spec_less(self.spec_absolute_tolerance(), relative) {
            relative
        } else {
            self.spec_absolute_tolerance()
        }
    }

    /// The checks a policy construction performs, in the order it performs
    /// them.
    pub open spec fn spec_validation(
        tolerances_admissible: bool,
        max_iterations: usize,
        check_interval: usize,
    ) -> Option<InvalidConvergencePolicy> {
        if !tolerances_admissible {
            Some(InvalidConvergencePolicy::InvalidTolerance)
        } else if max_iterations == 0 {
            Some(InvalidConvergencePolicy::ZeroIterations)
        } else if check_interval == 0 {
            Some(InvalidConvergencePolicy::ZeroCheckInterval)
        } else {
            None
        }
    }

    /// A constructed policy holds exactly the requested parameters.
    pub open spec fn holds(
        self,
        absolute_tolerance: T,
        relative_tolerance: T,
        max_iterations: usize,
        check_interval: usize,
    ) -> bool {
        &&& self.spec_absolute_tolerance() == absolute_tolerance
        &&& self.spec_relative_tolerance() == relative_tolerance
        &&& self.spec_max_iterations() == max_iterations
        &&& self.spec_check_interval() == check_interval
    }

    /// Construct a validated policy that checks every iteration.
    ///
    /// Returns the exact invalid-policy reason.
    pub fn new<B: KrylovBackend<Scalar = T>>(
        backend: &B,
        absolute_tolerance: T,
        relative_tolerance: T,
        max_iterations: usize,
    ) -> (policy: Result<Self, InvalidConvergencePolicy>)
        ensures
            match Self::spec_validation(
                tolerance_admissible(backend, absolute_tolerance) && tolerance_admissible(
                    backend,
                    relative_tolerance,
                ),
                max_iterations,
                1,
            ) {
                Some(reason) => policy == Err::<Self, InvalidConvergencePolicy>(reason),
                None => policy matches Ok(p) && p.holds(
                    absolute_tolerance,
                    relative_tolerance,
                    max_iterations,
                    1,
                ),
            },
    {
        Self::with_check_interval(
            backend,
            absolute_tolerance,
            relative_tolerance,
            max_iterations,
            1,
        )
    }

    /// Construct a policy with a residual check interval.
    ///
    /// Returns the exact invalid-policy reason: tolerances first, then the
    /// iteration budget, then the interval.
    pub fn with_check_interval<B: KrylovBackend<Scalar = T>>(
        backend: &B,
        absolute_tolerance: T,
        relative_tolerance: T,
        max_iterations: usize,
        check_interval: usize,
    ) -> (policy: Result<Self, InvalidConvergencePolicy>)
        ensures
            match Self::spec_validation(
                tolerance_admissible(backend, absolute_tolerance) && tolerance_admissible(
                    backend,
                    relative_tolerance,
                ),
                max_iterations,
                check_interval,
            ) {
                Some(reason) => policy == Err::<Self, InvalidConvergencePolicy>(reason),
                None => policy matches Ok(p) && p.holds(
                    absolute_tolerance,
                    relative_tolerance,
                    max_iterations,
                    check_interval,
                ),
            },
    {
        let zero = backend.zero();
        if !backend.is_finite(absolute_tolerance) || !backend.is_finite(relative_tolerance)
            || backend.less(absolute_tolerance, zero) || backend.less(relative_tolerance, zero) {
            return Err(InvalidConvergencePolicy::InvalidTolerance);
        }
        if max_iterations == 0 {
            return Err(InvalidConvergencePolicy::ZeroIterations);
        }
        if check_interval == 0 {
            return Err(InvalidConvergencePolicy::ZeroCheckInterval);
        }
        Ok(ConvergencePolicy { absolute_tolerance, relative_tolerance, max_iterations, check_interval })
    }

    /// Absolute residual tolerance.
    pub fn absolute_tolerance(&self) -> (tolerance: T)
        ensures
            tolerance == self.spec_absolute_tolerance(),
    {
        self.absolute_tolerance
    }

    /// Relative residual tolerance.
    pub fn relative_tolerance(&self) -> (tolerance: T)
        ensures
            tolerance == self.spec_relative_tolerance(),
    {
        self.relative_tolerance
    }

    /// Maximum Krylov iterations.
    pub fn max_iterations(&self) -> (budget: usize)
        ensures
            budget == self.spec_max_iterations(),
            budget > 0,
    {
        proof {
            use_type_invariant(self);
        }
        self.max_iterations
    }

    /// Iteration interval between explicit convergence checks.
    pub fn check_interval(&self) -> (interval: usize)
        ensures
            interval == self.spec_check_interval(),
            interval > 0,
    {
        proof {
            use_type_invariant(self);
        }
        self.check_interval
    }

    /// Compute the effective residual threshold for `right_hand_side_norm`.
    pub fn threshold<B: KrylovBackend<Scalar = T>>(&self, backend: &B, right_hand_side_norm: T) -> (threshold: T)
        ensures
            threshold == self.spec_threshold(backend, right_hand_side_norm),
    {
        let relative = backend.mul(self.relative_tolerance, right_hand_side_norm);
        if backend.less(self.absolute_tolerance, relative) {
            relative
        } else {
            self.absolute_tolerance
        }
    }

    /// Return whether iteration `iteration` is a configured check point.
    pub fn should_check(&self, iteration: usize) -> (check: bool)
        ensures
            check == self.spec_should_check(iteration),
    {
        proof {
            use_type_invariant(self);
        }
        iteration % self.check_interval == 0 || iteration == self.max_iterations
    }
}

/// Absolute accuracy floor of an explicitly recomputed residual norm:
/// `√len · EPSILON · ‖b‖₂`.
///
/// Returns the magnitude below which a change in `‖b − Ax‖₂` carries no
/// information about the iteration, because it is smaller than the rounding
/// of the residual's own evaluation. The floor is absolute and scales with
/// `‖b‖₂`; the `√len` factor is the statistical accumulation error of the
/// length-`len` summations in the norm and the product (Higham, *Accuracy and
/// Stability of Numerical Algorithms*, 2nd ed., §3.1, §7.1).
pub open spec fn spec_residual_noise_floor<B: KrylovBackend>(
    backend: &B,
    len: usize,
    right_hand_side_norm: B::Scalar,
) -> B::Scalar {
    backend.spec_mul(
        backend.spec_mul(backend.spec_sqrt(backend.spec_from_count(len)), backend.spec_epsilon()),
        right_hand_side_norm,
    )
}

/// Absolute accuracy floor of an explicitly recomputed residual norm,
/// `√len · EPSILON · ‖b‖₂`, evaluated in the backend's scalar.
pub fn residual_noise_floor<B: KrylovBackend>(
    backend: &B,
    len: usize,
    right_hand_side_norm: B::Scalar,
) -> (floor: B::Scalar)
    ensures
        floor == spec_residual_noise_floor(backend, len, right_hand_side_norm),
{
    let samples = backend.from_count(len);
    let root = backend.sqrt(samples);
    let scaled = backend.mul(root, backend.epsilon());
    backend.mul(scaled, right_hand_side_norm)
}

} // verus!
