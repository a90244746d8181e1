# athena

Backend-neutral Krylov solvers — preconditioned conjugate gradient, restarted
GMRES, right-preconditioned BiCGSTAB and LSQR — with their convergence policy,
operator and preconditioner seams, sparse host preconditioners, and the CSR
structure they run on, stated and proved in Verus.

## Layout

- `src/` — the verified library.
  - `backend.rs`: the `KrylovBackend` seam. Every scalar operation a
    recurrence performs goes through the backend and is named by a spec
    function; vectors, blocks and views have named contents, and each kernel
    states what it writes over them, so the contracts below are stated over
    those names. Each name defaults to an unspecified function of its
    arguments, so a backend written in plain Rust is described by whatever it
    computes.
  - `convergence.rs`: the validated absolute-plus-relative policy,
    `‖r‖ ≤ max(absolute, relative · ‖b‖)`, its check schedule, and the
    residual noise floor.
  - `report.rs`, `error.rs`, `operator.rs`: telemetry, terminal conditions,
    the dimension/backend error split, and the operator, rectangular-operator
    and preconditioner contracts.
  - `solver/`: CG, restarted GMRES (Givens rotations, back substitution,
    stagnation and divergence detection), right-preconditioned BiCGSTAB
    (true-residual confirmation, `ρ` and `ω` breakdowns), and LSQR with
    optional damping. Each entry point states the exact dimension check it
    performs and a report law: its counters; a threshold that is the
    policy's for `‖b‖₂`; an initial residual that is `‖b − A·x₀‖₂` of the
    caller's `x₀`, which a solve ending before its first update leaves in
    place; and, for GMRES and BiCGSTAB, a `Converged` declared on the
    recomputed `‖b − A·x‖₂` of the returned `x`. CG returns the iterate of
    the preconditioned conjugate-gradient recurrence (`pcg_iterate`) at the
    reported iteration count, BiCGSTAB an iterate or half-step iterate of its
    recurrence (`bicgstab_recurrence`), and LSQR the iterate of its damped
    bidiagonalisation recurrence (`lsqr_recurrence`), damping included, so
    the undamped entry points are that recurrence at zero damping. The step
    functions state their scalar decisions, their solution updates and which
    samples an observer that keeps a record receives.
  - `sparse.rs`, `sparse_operator.rs`: canonical CSR matrices (accepted
    exactly when canonical), square and rectangular CSR operators, and the
    transposed product as a scatter.
  - `preconditioner/`: the diagonal index, forward and backward triangular
    sweeps, zero-fill incomplete LU, successive over-relaxation, Jacobi, and
    the host-side inverse diagonal of a device Jacobi preconditioner.
  - `host.rs`, `block.rs`: dense slice kernels with their length checks, and
    the placement of vector blocks in one contiguous extent.
- `tests/` — conformance suites run against a plain IEEE host backend.
- `app/` — the Leto CPU and Hephaestus accelerator bindings, which supply
  float arithmetic, arrays, sparse products and devices to the library.
