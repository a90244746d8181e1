//! Dense host-slice kernels: the elementwise vector operations a host
//! backend performs once its views are resolved to contiguous slices.
use vstd::prelude::*;
use crate::backend::KrylovBackend;
use crate::sparse::LetoBackendError;

verus! {

/// Two operand lengths agree, or the mismatch naming both.
pub open spec fn lengths_outcome(left: usize, right: usize) -> Result<(), LetoBackendError> {
    if left == right {
        Ok(())
    } else {
        Err(LetoBackendError::LengthMismatch { left, right })
    }
}

/// Require two operand lengths to agree.
pub fn validate_lengths(left: usize, right: usize) -> (outcome: Result<(), LetoBackendError>)
    ensures
        outcome == lengths_outcome(left, right),
{
    if left == right {
        Ok(())
    } else {
        Err(LetoBackendError::LengthMismatch { left, right })
    }
}

/// Require three operand lengths to agree with the first, checking the second
/// before the third.
pub fn validate_three_lengths(first: usize, second: usize, third: usize) -> (outcome: Result<
    (),
    LetoBackendError,
>)
    ensures
        outcome == match lengths_outcome(first, second) {
            Ok(()) => lengths_outcome(first, third),
            Err(error) => Err(error),
        },
{
    validate_lengths(first, second)?;
    validate_lengths(first, third)
}

/// Require four operand lengths to agree with the first, checking them in
/// order.
pub fn validate_four_lengths(first: usize, second: usize, third: usize, fourth: usize) -> (outcome:
    Result<(), LetoBackendError>)
    ensures
        outcome == match lengths_outcome(first, second) {
            Ok(()) => match lengths_outcome(first, third) {
                Ok(()) => lengths_outcome(first, fourth),
                Err(error) => Err(error),
            },
            Err(error) => Err(error),
        },
{
    validate_three_lengths(first, second, third)?;
    validate_lengths(first, fourth)
}

/// Copy `source` into `target`.
pub fn copy_slice<T: Copy>(source: &[T], target: &mut [T]) -> (outcome: Result<(), LetoBackendError>)
    ensures
        outcome == lengths_outcome(source@.len() as usize, old(target)@.len() as usize),
        outcome is Ok ==> final(target)@ == source@,
        outcome is Err ==> final(target)@ == old(target)@,
{
    validate_lengths(source.len(), target.len())?;
    let n = source.len();
    let mut entry: usize = 0;
    while entry < n
        invariant
            n == source@.len() == target@.len(),
            entry <= n,
            forall|done: int| 0 <= done < entry ==> target@[done] == source@[done],
        decreases n - entry,
    {
        target[entry] = source[entry];
        entry = entry + 1;
    }
    assert(target@ =~= source@);
    Ok(())
}

/// Multiply every entry of `target` by `factor`.
pub fn scale_slice<B: KrylovBackend>(backend: &B, target: &mut [B::Scalar], factor: B::Scalar)
    ensures
        final(target)@ == old(target)@.map_values(|value: B::Scalar| backend.spec_mul(value, factor)),
{
    let ghost entering = target@;
    let n = target.len();
    let mut entry: usize = 0;
    while entry < n
        invariant
            n == target@.len() == entering.len(),
            entry <= n,
            forall|done: int| 0 <= done < entry ==> target@[done] == backend.spec_mul(entering[done], factor),
            forall|later: int| entry <= later < n ==> target@[later] == entering[later],
        decreases n - entry,
    {
        let value = backend.mul(target[entry], factor);
        target[entry] = value;
        entry = entry + 1;
    }
    assert(target@ =~= entering.map_values(|value: B::Scalar| backend.spec_mul(value, factor)));
}

/// `target += factor * source`, entry by entry.
pub fn axpy_slice<B: KrylovBackend>(
    backend: &B,
    target: &mut [B::Scalar],
    source: &[B::Scalar],
    factor: B::Scalar,
) -> (outcome: Result<(), LetoBackendError>)
    ensures
        outcome == lengths_outcome(old(target)@.len() as usize, source@.len() as usize),
        outcome is Err ==> final(target)@ == old(target)@,
        outcome is Ok ==> final(target)@.len() == old(target)@.len() && forall|entry: int|
            0 <= entry < source@.len() ==> #[trigger] final(target)@[entry] == backend.spec_add(
                old(target)@[entry],
                backend.spec_mul(factor, source@[entry]),
            ),
{
    validate_lengths(target.len(), source.len())?;
    let ghost entering = target@;
    let n = target.len();
    let mut entry: usize = 0;
    while entry < n
        invariant
            n == target@.len() == entering.len() == source@.len(),
            entry <= n,
            forall|done: int|
                0 <= done < entry ==> #[trigger] target@[done] == backend.spec_add(
                    entering[done],
                    backend.spec_mul(factor, source@[done]),
                ),
            forall|later: int| entry <= later < n ==> target@[later] == entering[later],
        decreases n - entry,
    {
        let value = backend.add(target[entry], backend.mul(factor, source[entry]));
        target[entry] = value;
        entry = entry + 1;
    }
    Ok(())
}

/// `residual = right_hand_side - image`, entry by entry.
pub fn residual_slice<B: KrylovBackend>(
    backend: &B,
    right_hand_side: &[B::Scalar],
    image: &[B::Scalar],
    residual: &mut [B::Scalar],
) -> (outcome: Result<(), LetoBackendError>)
    ensures
        outcome == match lengths_outcome(right_hand_side@.len() as usize, image@.len() as usize) {
            Ok(()) => lengths_outcome(right_hand_side@.len() as usize, old(residual)@.len() as usize),
            Err(error) => Err(error),
        },
        outcome is Err ==> final(residual)@ == old(residual)@,
        outcome is Ok ==> final(residual)@.len() == old(residual)@.len() && forall|entry: int|
            0 <= entry < right_hand_side@.len() ==> #[trigger] final(residual)@[entry] == backend.spec_sub(
                right_hand_side@[entry],
                image@[entry],
            ),
{
    validate_three_lengths(right_hand_side.len(), image.len(), residual.len())?;
    let n = residual.len();
    let mut entry: usize = 0;
    while entry < n
        invariant
            n == residual@.len() == right_hand_side@.len() == image@.len(),
            entry <= n,
            forall|done: int|
                0 <= done < entry ==> #[trigger] residual@[done] == backend.spec_sub(
                    right_hand_side@[done],
                    image@[done],
                ),
        decreases n - entry,
    {
        let value = backend.sub(right_hand_side[entry], image[entry]);
        residual[entry] = value;
        entry = entry + 1;
    }
    Ok(())
}

/// The fused CG update `solution += α·direction; residual -= α·image`.
pub fn fused_cg_update_slices<B: KrylovBackend>(
    backend: &B,
    solution: &mut [B::Scalar],
    direction: &[B::Scalar],
    residual: &mut [B::Scalar],
    image: &[B::Scalar],
    alpha: B::Scalar,
) -> (outcome: Result<(), LetoBackendError>)
    ensures
        outcome == match lengths_outcome(old(solution)@.len() as usize, direction@.len() as usize) {
            Ok(()) => match lengths_outcome(old(solution)@.len() as usize, old(residual)@.len() as usize) {
                Ok(()) => lengths_outcome(old(solution)@.len() as usize, image@.len() as usize),
                Err(error) => Err(error),
            },
            Err(error) => Err(error),
        },
        outcome is Err ==> final(solution)@ == old(solution)@ && final(residual)@ == old(residual)@,
        outcome is Ok ==> {
            &&& final(solution)@.len() == old(solution)@.len()
            &&& final(residual)@.len() == old(residual)@.len()
            &&& forall|entry: int|
                0 <= entry < direction@.len() ==> #[trigger] final(solution)@[entry] == backend.spec_add(
                    old(solution)@[entry],
                    backend.spec_mul(alpha, direction@[entry]),
                )
            &&& forall|entry: int|
                0 <= entry < image@.len() ==> #[trigger] final(residual)@[entry] == backend.spec_sub(
                    old(residual)@[entry],
                    backend.spec_mul(alpha, image@[entry]),
                )
        },
{
    validate_four_lengths(solution.len(), direction.len(), residual.len(), image.len())?;
    let ghost entering_solution = solution@;
    let ghost entering_residual = residual@;
    let n = solution.len();
    let mut entry: usize = 0;
    while entry < n
        invariant
            n == solution@.len() == direction@.len() == residual@.len() == image@.len(),
            n == entering_solution.len() == entering_residual.len(),
            entry <= n,
            forall|done: int|
                0 <= done < entry ==> #[trigger] solution@[done] == backend.spec_add(
                    entering_solution[done],
                    backend.spec_mul(alpha, direction@[done]),
                ),
            forall|done: int|
                0 <= done < entry ==> #[trigger] residual@[done] == backend.spec_sub(
                    entering_residual[done],
                    backend.spec_mul(alpha, image@[done]),
                ),
            forall|later: int| entry <= later < n ==> solution@[later] == entering_solution[later],
            forall|later: int| entry <= later < n ==> residual@[later] == entering_residual[later],
        decreases n - entry,
    {
        let moved = backend.add(solution[entry], backend.mul(alpha, direction[entry]));
        solution[entry] = moved;
        let reduced = backend.sub(residual[entry], backend.mul(alpha, image[entry]));
        residual[entry] = reduced;
        entry = entry + 1;
    }
    Ok(())
}

/// The CG direction recurrence `direction = preconditioned_residual +
/// β·direction`.
pub fn combine_direction_slices<B: KrylovBackend>(
    backend: &B,
    direction: &mut [B::Scalar],
    preconditioned_residual: &[B::Scalar],
    beta: B::Scalar,
) -> (outcome: Result<(), LetoBackendError>)
    ensures
        outcome == lengths_outcome(old(direction)@.len() as usize, preconditioned_residual@.len() as usize),
        outcome is Err ==> final(direction)@ == old(direction)@,
        outcome is Ok ==> final(direction)@.len() == old(direction)@.len() && forall|entry: int|
            0 <= entry < preconditioned_residual@.len() ==> #[trigger] final(direction)@[entry]
                == backend.spec_add(
                preconditioned_residual@[entry],
                backend.spec_mul(beta, old(direction)@[entry]),
            ),
{
    validate_lengths(direction.len(), preconditioned_residual.len())?;
    let ghost entering = direction@;
    let n = direction.len();
    let mut entry: usize = 0;
    while entry < n
        invariant
            n == direction@.len() == entering.len() == preconditioned_residual@.len(),
            entry <= n,
            forall|done: int|
                0 <= done < entry ==> #[trigger] direction@[done] == backend.spec_add(
                    preconditioned_residual@[done],
                    backend.spec_mul(beta, entering[done]),
                ),
            forall|later: int| entry <= later < n ==> direction@[later] == entering[later],
        decreases n - entry,
    {
        let value = backend.add(preconditioned_residual[entry], backend.mul(beta, direction[entry]));
        direction[entry] = value;
        entry = entry + 1;
    }
    Ok(())
}

} // verus!
