//! Incomplete LU factorisation with zero fill-in.
use vstd::prelude::*;
use crate::backend::KrylovBackend;
use crate::host::copy_slice;
use crate::sparse::{
    CsrMatrix, LetoBackendError, entry_in_columns, lemma_entry_in_columns,
    lemma_entry_in_columns_skip, lemma_entry_in_columns_unique, strictly_increasing,
};
use super::triangular::{
    DiagonalIndex, back_substitute, backward_solved, diagonal_entry, forward_solved,
    forward_substitute, lemma_backward_sweep_solves_rows, lemma_forward_sweep_solves_rows,
    lemma_sweep_row, lower_system_row, missing_diagonal, pivot_vanishes, sweep_structure,
    upper_system_row,
};

verus! {

/// `scaled` after subtracting a multiple of a pivot row: every entry of
/// `(lower, row_end)` whose column the pivot row's range `[pivot_from,
/// pivot_to)` also stores loses `multiplier` times that pivot-row entry.
/// Entries whose column the pivot row lacks are left alone, which is what
/// keeps the factor inside the source pattern.
pub open spec fn pivot_row_update<B: KrylovBackend>(
    backend: &B,
    scaled: Seq<B::Scalar>,
    col_indices: Seq<usize>,
    multiplier: B::Scalar,
    lower: int,
    row_end: int,
    pivot_from: int,
    pivot_to: int,
) -> Seq<B::Scalar> {
    Seq::new(
        scaled.len(),
        |target: int|
            {
                let source = entry_in_columns(col_indices, pivot_from, pivot_to, col_indices[target] as int);
                if lower < target < row_end && source >= 0 {
                    backend.spec_sub(scaled[target], backend.spec_mul(multiplier, scaled[source]))
                } else {
                    scaled[target]
                }
            },
    )
}

/// Eliminate the strict-lower entry `lower` of row `row` against the row its
/// column names: the entry becomes its multiplier, and a nonzero multiplier
/// times the pivot row's upper part is subtracted from the rest of the row.
pub open spec fn eliminate_entry<B: KrylovBackend>(
    backend: &B,
    values: Seq<B::Scalar>,
    col_indices: Seq<usize>,
    row_ptr: Seq<usize>,
    row: int,
    lower: int,
) -> Seq<B::Scalar> {
    let pivot_row = col_indices[lower] as int;
    let pivot = diagonal_entry(col_indices, row_ptr, pivot_row);
    let multiplier = backend.spec_div(values[lower], values[pivot]);
    let scaled = values.update(lower, multiplier);
    if backend.spec_equal(multiplier, backend.spec_zero()) {
        scaled
    } else {
        pivot_row_update(
            backend,
            scaled,
            col_indices,
            multiplier,
            lower,
            row_ptr[row + 1] as int,
            pivot + 1,
            row_ptr[pivot_row + 1] as int,
        )
    }
}

/// Row `row` with its entries `[row_ptr[row], upto)` eliminated in column
/// order, or the pivot row whose zero pivot stops the elimination.
pub open spec fn eliminate_row_prefix<B: KrylovBackend>(
    backend: &B,
    values: Seq<B::Scalar>,
    col_indices: Seq<usize>,
    row_ptr: Seq<usize>,
    row: int,
    upto: int,
) -> Result<Seq<B::Scalar>, usize>
    decreases upto - row_ptr[row],
{
    if upto <= row_ptr[row] {
        Ok(values)
    } else {
        match eliminate_row_prefix(backend, values, col_indices, row_ptr, row, upto - 1) {
            Err(index) => Err(index),
            Ok(before) => {
                let pivot_row = col_indices[upto - 1];
                if backend.spec_equal(
                    before[diagonal_entry(col_indices, row_ptr, pivot_row as int)],
                    backend.spec_zero(),
                ) {
                    Err(pivot_row)
                } else {
                    Ok(eliminate_entry(backend, before, col_indices, row_ptr, row, upto - 1))
                }
            },
        }
    }
}

/// Row `row` factored: its strict lower part eliminated, then its own pivot
/// required to be nonzero.
pub open spec fn factor_row<B: KrylovBackend>(
    backend: &B,
    values: Seq<B::Scalar>,
    col_indices: Seq<usize>,
    row_ptr: Seq<usize>,
    row: int,
) -> Result<Seq<B::Scalar>, usize> {
    let pivot = diagonal_entry(col_indices, row_ptr, row);
    match eliminate_row_prefix(backend, values, col_indices, row_ptr, row, pivot) {
        Err(index) => Err(index),
        Ok(done) => if backend.spec_equal(done[pivot], backend.spec_zero()) {
            Err(row as usize)
        } else {
            Ok(done)
        },
    }
}

/// The values after factoring rows `1..rows` in order (row `0` has nothing
/// left of its diagonal), or the index of the zero pivot that stops it.
pub open spec fn factor_rows<B: KrylovBackend>(
    backend: &B,
    values: Seq<B::Scalar>,
    col_indices: Seq<usize>,
    row_ptr: Seq<usize>,
    rows: int,
) -> Result<Seq<B::Scalar>, usize>
    decreases rows,
{
    if rows <= 1 {
        Ok(values)
    } else {
        match factor_rows(backend, values, col_indices, row_ptr, rows - 1) {
            Err(index) => Err(index),
            Ok(before) => factor_row(backend, before, col_indices, row_ptr, rows - 1),
        }
    }
}

proof fn lemma_row_prefix_stops<B: KrylovBackend>(
    backend: &B,
    values: Seq<B::Scalar>,
    col_indices: Seq<usize>,
    row_ptr: Seq<usize>,
    row: int,
    stopped: int,
    upto: int,
)
    requires
        stopped <= upto,
        eliminate_row_prefix(backend, values, col_indices, row_ptr, row, stopped) is Err,
    ensures
        eliminate_row_prefix(backend, values, col_indices, row_ptr, row, upto) == eliminate_row_prefix(
            backend,
            values,
            col_indices,
            row_ptr,
            row,
            stopped,
        ),
    decreases upto - stopped,
{
    if upto > stopped {
        lemma_row_prefix_stops(backend, values, col_indices, row_ptr, row, stopped, upto - 1);
    }
}

proof fn lemma_factor_rows_stops<B: KrylovBackend>(
    backend: &B,
    values: Seq<B::Scalar>,
    col_indices: Seq<usize>,
    row_ptr: Seq<usize>,
    stopped: int,
    rows: int,
)
    requires
        stopped <= rows,
        factor_rows(backend, values, col_indices, row_ptr, stopped) is Err,
    ensures
        factor_rows(backend, values, col_indices, row_ptr, rows) == factor_rows(
            backend,
            values,
            col_indices,
            row_ptr,
            stopped,
        ),
    decreases rows - stopped,
{
    if rows > stopped {
        lemma_factor_rows_stops(backend, values, col_indices, row_ptr, stopped, rows - 1);
    }
}

/// Entry `entry` of row `row` with the updates of the row's entries
/// `[row_ptr[row], upto)` applied to its source value in column order: each
/// such entry `q`, whose column `k` names an earlier pivot row, subtracts
/// its nonzero multiplier `factors[q]` times the factor of row `k` stored in
/// the column of `entry`, when row `k` stores that column right of its
/// diagonal. Columns that row `k` does not store contribute nothing.
pub open spec fn ilu_reduced<B: KrylovBackend>(
    backend: &B,
    source: Seq<B::Scalar>,
    factors: Seq<B::Scalar>,
    col_indices: Seq<usize>,
    row_ptr: Seq<usize>,
    row: int,
    entry: int,
    upto: int,
) -> B::Scalar
    decreases upto - row_ptr[row],
{
    if upto <= row_ptr[row] {
        source[entry]
    } else {
        let before = ilu_reduced(backend, source, factors, col_indices, row_ptr, row, entry, upto - 1);
        let pivot_row = col_indices[upto - 1] as int;
        let column = col_indices[entry] as int;
        let stored = entry_in_columns(col_indices, row_ptr[pivot_row] as int, row_ptr[pivot_row + 1] as int, column);
        if pivot_row < column && stored >= 0 && !backend.spec_equal(factors[upto - 1], backend.spec_zero()) {
            backend.spec_sub(before, backend.spec_mul(factors[upto - 1], factors[stored]))
        } else {
            before
        }
    }
}

/// The incomplete-LU factor entry `entry` of row `row` in terms of the source
/// values and the other factor entries: left of the diagonal, the multiplier
/// `l[row][j]`, the entry reduced by the rows before its column over the
/// pivot `u[j][j]`; from the diagonal on, `u[row][j]`, the entry reduced by
/// every row left of the diagonal.
pub open spec fn ilu_entry<B: KrylovBackend>(
    backend: &B,
    source: Seq<B::Scalar>,
    factors: Seq<B::Scalar>,
    col_indices: Seq<usize>,
    row_ptr: Seq<usize>,
    row: int,
    entry: int,
) -> B::Scalar {
    let column = col_indices[entry] as int;
    if column < row {
        backend.spec_div(
            ilu_reduced(backend, source, factors, col_indices, row_ptr, row, entry, entry),
            factors[diagonal_entry(col_indices, row_ptr, column)],
        )
    } else {
        ilu_reduced(
            backend,
            source,
            factors,
            col_indices,
            row_ptr,
            row,
            entry,
            diagonal_entry(col_indices, row_ptr, row),
        )
    }
}

/// A successful zero-fill factorisation satisfies the incomplete-LU
/// equations entry by entry: every stored entry `(i, j)` loses
/// `l[i][k] · u[k][j]` for every earlier pivot row `k < min(i, j)` whose
/// multiplier is nonzero and which stores column `j`, and a strict-lower
/// entry is then divided by its column's pivot. Where elimination creates no
/// fill outside the pattern (a dense matrix), these are the equations of the
/// exact `L·U` factorisation.
pub proof fn lemma_incomplete_lu_entries<B: KrylovBackend>(
    backend: &B,
    source: Seq<B::Scalar>,
    col_indices: Seq<usize>,
    row_ptr: Seq<usize>,
    diagonal: DiagonalIndex,
    n: nat,
    factors: Seq<B::Scalar>,
)
    requires
        factor_structure(source.len(), col_indices, row_ptr, diagonal, n),
        factor_rows(backend, source, col_indices, row_ptr, n as int) == Ok::<Seq<B::Scalar>, usize>(factors),
    ensures
        factors.len() == source.len(),
        forall|row: int, entry: int|
            0 <= row < n && row_ptr[row] <= entry < row_ptr[row + 1] ==> factors[entry]
                == #[trigger] ilu_entry(backend, source, factors, col_indices, row_ptr, row, entry),
{
    if n == 0 {
        return;
    }
    lemma_factor_rows_settled(backend, source, col_indices, row_ptr, diagonal, n, factors, 1);
    assert forall|row: int, entry: int|
        0 <= row < n && row_ptr[row] <= entry < row_ptr[row + 1] implies factors[entry]
            == #[trigger] ilu_entry(backend, source, factors, col_indices, row_ptr, row, entry) by {
        lemma_sweep_row(source.len(), col_indices, row_ptr, diagonal, n, row);
        assert(diagonal.spec_positions()[row] is Some);
        if row == 0 {
            let pivot = diagonal_entry(col_indices, row_ptr, 0);
            if pivot > row_ptr[0] {
                assert(col_indices[row_ptr[0] as int] < col_indices[pivot]);
            }
            assert(factors[entry] == source[entry]);
        } else {
            lemma_row_factors(backend, source, col_indices, row_ptr, diagonal, n, factors, row, entry);
        }
    }
}

/// The law for one entry of a row past the first.
proof fn lemma_row_factors<B: KrylovBackend>(
    backend: &B,
    source: Seq<B::Scalar>,
    col_indices: Seq<usize>,
    row_ptr: Seq<usize>,
    diagonal: DiagonalIndex,
    n: nat,
    factors: Seq<B::Scalar>,
    row: int,
    entry: int,
)
    requires
        factor_structure(source.len(), col_indices, row_ptr, diagonal, n),
        factor_rows(backend, source, col_indices, row_ptr, n as int) == Ok::<Seq<B::Scalar>, usize>(factors),
        0 < row < n,
        row_ptr[row] <= entry < row_ptr[row + 1],
    ensures
        factors[entry] == ilu_entry(backend, source, factors, col_indices, row_ptr, row, entry),
{
    lemma_sweep_row(source.len(), col_indices, row_ptr, diagonal, n, row);
    assert(diagonal.spec_positions()[row] is Some);
    lemma_factor_rows_settled(backend, source, col_indices, row_ptr, diagonal, n, factors, row);
    lemma_factor_rows_untouched(backend, source, col_indices, row_ptr, diagonal, n, row);
    lemma_factor_rows_settled(backend, source, col_indices, row_ptr, diagonal, n, factors, row + 1);
    let values = factor_rows(backend, source, col_indices, row_ptr, row)->Ok_0;
    let pivot = diagonal_entry(col_indices, row_ptr, row);
    assert(eliminate_row_prefix(backend, values, col_indices, row_ptr, row, pivot) is Ok);
    let done = eliminate_row_prefix(backend, values, col_indices, row_ptr, row, pivot)->Ok_0;
    assert(factor_rows(backend, source, col_indices, row_ptr, row + 1) == Ok::<Seq<B::Scalar>, usize>(done));
    assert forall|x: int| row_ptr[row] <= x < row_ptr[row + 1] implies factors[x] == done[x] by {
        assert(row_ptr[row + 1] <= row_ptr[row + 1]);
    }
    lemma_row_elimination(
        backend,
        source,
        factors,
        values,
        col_indices,
        row_ptr,
        diagonal,
        n,
        row,
        pivot,
    );
    if entry >= pivot {
        if entry > pivot {
            assert(col_indices[pivot] < col_indices[entry]);
        }
    } else {
        assert(col_indices[entry] < col_indices[pivot]);
        let column = col_indices[entry] as int;
        lemma_row_elimination(
            backend,
            source,
            factors,
            values,
            col_indices,
            row_ptr,
            diagonal,
            n,
            row,
            entry,
        );
        lemma_prefix_frame(backend, values, col_indices, row_ptr, row, entry + 1, pivot);
        lemma_prefix_frame(backend, values, col_indices, row_ptr, row, row_ptr[row] as int, entry);
        lemma_sweep_row(source.len(), col_indices, row_ptr, diagonal, n, column);
        assert(diagonal.spec_positions()[column] is Some);
        assert(row_ptr[column + 1] <= row_ptr[row]);
    }
}

/// Elimination of row `row` up to `upto` leaves every entry from `upto` on
/// reduced by the entries before `upto`.
proof fn lemma_row_elimination<B: KrylovBackend>(
    backend: &B,
    source: Seq<B::Scalar>,
    factors: Seq<B::Scalar>,
    values: Seq<B::Scalar>,
    col_indices: Seq<usize>,
    row_ptr: Seq<usize>,
    diagonal: DiagonalIndex,
    n: nat,
    row: int,
    upto: int,
)
    requires
        factor_structure(values.len(), col_indices, row_ptr, diagonal, n),
        0 < row < n,
        row_ptr[row] <= upto <= diagonal_entry(col_indices, row_ptr, row),
        eliminate_row_prefix(
            backend,
            values,
            col_indices,
            row_ptr,
            row,
            diagonal_entry(col_indices, row_ptr, row),
        ) is Ok,
        factors.len() == values.len(),
        forall|x: int| 0 <= x < row_ptr[row] ==> values[x] == factors[x],
        forall|x: int| row_ptr[row] <= x < row_ptr[row + 1] ==> values[x] == source[x],
        forall|x: int|
            row_ptr[row] <= x < row_ptr[row + 1] ==> factors[x] == eliminate_row_prefix(
                backend,
                values,
                col_indices,
                row_ptr,
                row,
                diagonal_entry(col_indices, row_ptr, row),
            )->Ok_0[x],
    ensures
        eliminate_row_prefix(backend, values, col_indices, row_ptr, row, upto) is Ok,
        forall|e: int|
            upto <= e < row_ptr[row + 1] ==> eliminate_row_prefix(
                backend,
                values,
                col_indices,
                row_ptr,
                row,
                upto,
            )->Ok_0[e] == ilu_reduced(backend, source, factors, col_indices, row_ptr, row, e, upto),
    decreases upto - row_ptr[row],
{
    let pivot = diagonal_entry(col_indices, row_ptr, row);
    lemma_sweep_row(values.len(), col_indices, row_ptr, diagonal, n, row);
    assert(diagonal.spec_positions()[row] is Some);
    lemma_prefix_frame(backend, values, col_indices, row_ptr, row, upto, pivot);
    if upto > row_ptr[row] {
        let lower = upto - 1;
        lemma_row_elimination(
            backend,
            source,
            factors,
            values,
            col_indices,
            row_ptr,
            diagonal,
            n,
            row,
            lower,
        );
        lemma_prefix_frame(backend, values, col_indices, row_ptr, row, row_ptr[row] as int, lower);
        lemma_prefix_len(backend, values, col_indices, row_ptr, row, lower);
        let before = eliminate_row_prefix(backend, values, col_indices, row_ptr, row, lower)->Ok_0;
        let after = eliminate_row_prefix(backend, values, col_indices, row_ptr, row, upto)->Ok_0;
        assert(col_indices[lower] < col_indices[pivot]);
        let pivot_row = col_indices[lower] as int;
        lemma_sweep_row(values.len(), col_indices, row_ptr, diagonal, n, pivot_row);
        assert(diagonal.spec_positions()[pivot_row] is Some);
        assert(row_ptr[pivot_row + 1] <= row_ptr[row]);
        let pivot_entry = diagonal_entry(col_indices, row_ptr, pivot_row);
        let multiplier = backend.spec_div(before[lower], before[pivot_entry]);
        assert(after == eliminate_entry(backend, before, col_indices, row_ptr, row, lower));
        assert(after[lower] == multiplier);
        assert(factors[lower] == multiplier);
        assert forall|e: int| upto <= e < row_ptr[row + 1] implies after[e] == ilu_reduced(
            backend,
            source,
            factors,
            col_indices,
            row_ptr,
            row,
            e,
            upto,
        ) by {
            assert(col_indices[lower] < col_indices[e]);
            let column = col_indices[e] as int;
            lemma_pivot_row_lookup(col_indices, row_ptr, pivot_row, pivot_entry, column);
            let stored = entry_in_columns(
                col_indices,
                row_ptr[pivot_row] as int,
                row_ptr[pivot_row + 1] as int,
                column,
            );
            lemma_entry_in_columns(col_indices, row_ptr[pivot_row] as int, row_ptr[pivot_row + 1] as int, column);
            let scaled = before.update(lower, multiplier);
            assert(scaled[e] == before[e]);
            assert(before[e] == ilu_reduced(backend, source, factors, col_indices, row_ptr, row, e, lower));
            let reduced = ilu_reduced(backend, source, factors, col_indices, row_ptr, row, e, upto);
            if stored >= 0 && !backend.spec_equal(multiplier, backend.spec_zero()) {
                assert(reduced == backend.spec_sub(
                    before[e],
                    backend.spec_mul(multiplier, factors[stored]),
                ));
            } else {
                assert(reduced == before[e]);
            }
            if stored >= 0 {
                assert(before[stored] == values[stored]);
                assert(values[stored] == factors[stored]);
                assert(scaled[stored] == before[stored]);
            }
            if !backend.spec_equal(multiplier, backend.spec_zero()) {
                assert(after == pivot_row_update(
                    backend,
                    scaled,
                    col_indices,
                    multiplier,
                    lower,
                    row_ptr[row + 1] as int,
                    pivot_entry + 1,
                    row_ptr[pivot_row + 1] as int,
                ));
                if stored >= 0 {
                    assert(after[e] == backend.spec_sub(
                        scaled[e],
                        backend.spec_mul(multiplier, scaled[stored]),
                    ));
                } else {
                    assert(after[e] == scaled[e]);
                }
            } else {
                assert(after[e] == scaled[e]);
            }
        }
    }
}

/// Eliminating entry `lower` keeps the length and leaves every entry before
/// it and past the row alone.
proof fn lemma_eliminate_entry_frame<B: KrylovBackend>(
    backend: &B,
    values: Seq<B::Scalar>,
    col_indices: Seq<usize>,
    row_ptr: Seq<usize>,
    row: int,
    lower: int,
)
    requires
        0 <= lower < row_ptr[row + 1] <= values.len(),
    ensures
        eliminate_entry(backend, values, col_indices, row_ptr, row, lower).len() == values.len(),
        forall|x: int|
            0 <= x < values.len() && (x < lower || x >= row_ptr[row + 1]) ==> #[trigger] eliminate_entry(
                backend,
                values,
                col_indices,
                row_ptr,
                row,
                lower,
            )[x] == values[x],
{
    let pivot_row = col_indices[lower] as int;
    let pivot = diagonal_entry(col_indices, row_ptr, pivot_row);
    let multiplier = backend.spec_div(values[lower], values[pivot]);
    let scaled = values.update(lower, multiplier);
    let result = eliminate_entry(backend, values, col_indices, row_ptr, row, lower);
    assert forall|x: int| 0 <= x < values.len() && (x < lower || x >= row_ptr[row + 1]) implies #[trigger] result[x]
        == values[x] by {
        assert(scaled[x] == values[x]);
        if !backend.spec_equal(multiplier, backend.spec_zero()) {
            assert(result == pivot_row_update(
                backend,
                scaled,
                col_indices,
                multiplier,
                lower,
                row_ptr[row + 1] as int,
                pivot + 1,
                row_ptr[pivot_row + 1] as int,
            ));
        }
    }
}

/// Every prefix elimination keeps the length of the values.
proof fn lemma_prefix_len<B: KrylovBackend>(
    backend: &B,
    values: Seq<B::Scalar>,
    col_indices: Seq<usize>,
    row_ptr: Seq<usize>,
    row: int,
    upto: int,
)
    requires
        row_ptr[row] <= upto <= row_ptr[row + 1] <= values.len(),
        eliminate_row_prefix(backend, values, col_indices, row_ptr, row, upto) is Ok,
    ensures
        eliminate_row_prefix(backend, values, col_indices, row_ptr, row, upto)->Ok_0.len() == values.len(),
    decreases upto - row_ptr[row],
{
    if upto > row_ptr[row] {
        lemma_prefix_len(backend, values, col_indices, row_ptr, row, upto - 1);
        lemma_eliminate_entry_frame(
            backend,
            eliminate_row_prefix(backend, values, col_indices, row_ptr, row, upto - 1)->Ok_0,
            col_indices,
            row_ptr,
            row,
            upto - 1,
        );
    }
}

/// Eliminating further entries of the row leaves the entries before the
/// earlier stop, and those past the row, as they were.
proof fn lemma_prefix_frame<B: KrylovBackend>(
    backend: &B,
    values: Seq<B::Scalar>,
    col_indices: Seq<usize>,
    row_ptr: Seq<usize>,
    row: int,
    upto: int,
    later: int,
)
    requires
        row_ptr[row] <= upto <= later <= row_ptr[row + 1] <= values.len(),
        eliminate_row_prefix(backend, values, col_indices, row_ptr, row, later) is Ok,
    ensures
        eliminate_row_prefix(backend, values, col_indices, row_ptr, row, upto) is Ok,
        eliminate_row_prefix(backend, values, col_indices, row_ptr, row, later)->Ok_0.len() == values.len(),
        eliminate_row_prefix(backend, values, col_indices, row_ptr, row, upto)->Ok_0.len() == values.len(),
        forall|x: int|
            0 <= x < values.len() && (x < upto || x >= row_ptr[row + 1]) ==> #[trigger] eliminate_row_prefix(
                backend,
                values,
                col_indices,
                row_ptr,
                row,
                later,
            )->Ok_0[x] == eliminate_row_prefix(backend, values, col_indices, row_ptr, row, upto)->Ok_0[x],
    decreases later - upto,
{
    lemma_prefix_len(backend, values, col_indices, row_ptr, row, later);
    if later > upto {
        lemma_prefix_frame(backend, values, col_indices, row_ptr, row, upto, later - 1);
        lemma_eliminate_entry_frame(
            backend,
            eliminate_row_prefix(backend, values, col_indices, row_ptr, row, later - 1)->Ok_0,
            col_indices,
            row_ptr,
            row,
            later - 1,
        );
    }
}

/// A column right of the diagonal of row `pivot_row` is found right of the
/// diagonal exactly where the whole row stores it.
proof fn lemma_pivot_row_lookup(
    col_indices: Seq<usize>,
    row_ptr: Seq<usize>,
    pivot_row: int,
    pivot: int,
    column: int,
)
    requires
        strictly_increasing(col_indices, row_ptr[pivot_row] as int, row_ptr[pivot_row + 1] as int),
        row_ptr[pivot_row] <= pivot < row_ptr[pivot_row + 1],
        col_indices[pivot] == pivot_row,
        pivot_row < column,
    ensures
        entry_in_columns(col_indices, pivot + 1, row_ptr[pivot_row + 1] as int, column) == entry_in_columns(
            col_indices,
            row_ptr[pivot_row] as int,
            row_ptr[pivot_row + 1] as int,
            column,
        ),
{
    let from = row_ptr[pivot_row] as int;
    let to = row_ptr[pivot_row + 1] as int;
    lemma_entry_in_columns(col_indices, from, to, column);
    lemma_entry_in_columns(col_indices, pivot + 1, to, column);
    let whole = entry_in_columns(col_indices, from, to, column);
    if whole >= 0 {
        if whole <= pivot {
            if whole < pivot {
                assert(col_indices[whole] < col_indices[pivot]);
            }
        }
        lemma_entry_in_columns_unique(col_indices, pivot + 1, to, whole);
    }
}

/// Factoring row `row` keeps the length and touches no entry outside it.
proof fn lemma_factor_row_frame<B: KrylovBackend>(
    backend: &B,
    values: Seq<B::Scalar>,
    col_indices: Seq<usize>,
    row_ptr: Seq<usize>,
    diagonal: DiagonalIndex,
    n: nat,
    row: int,
)
    requires
        factor_structure(values.len(), col_indices, row_ptr, diagonal, n),
        0 < row < n,
        factor_row(backend, values, col_indices, row_ptr, row) is Ok,
    ensures
        factor_row(backend, values, col_indices, row_ptr, row)->Ok_0.len() == values.len(),
        forall|x: int|
            0 <= x < values.len() && (x < row_ptr[row] || x >= row_ptr[row + 1]) ==> #[trigger] factor_row(
                backend,
                values,
                col_indices,
                row_ptr,
                row,
            )->Ok_0[x] == values[x],
{
    lemma_sweep_row(values.len(), col_indices, row_ptr, diagonal, n, row);
    assert(diagonal.spec_positions()[row] is Some);
    let pivot = diagonal_entry(col_indices, row_ptr, row);
    lemma_prefix_frame(backend, values, col_indices, row_ptr, row, row_ptr[row] as int, pivot);
}

/// While the factorisation of the first `rows` rows succeeds, the rows from
/// `rows` on still hold their source values.
proof fn lemma_factor_rows_untouched<B: KrylovBackend>(
    backend: &B,
    source: Seq<B::Scalar>,
    col_indices: Seq<usize>,
    row_ptr: Seq<usize>,
    diagonal: DiagonalIndex,
    n: nat,
    rows: int,
)
    requires
        factor_structure(source.len(), col_indices, row_ptr, diagonal, n),
        1 <= rows <= n,
        factor_rows(backend, source, col_indices, row_ptr, rows) is Ok,
    ensures
        factor_rows(backend, source, col_indices, row_ptr, rows)->Ok_0.len() == source.len(),
        forall|x: int|
            row_ptr[rows] <= x < source.len() ==> #[trigger] factor_rows(
                backend,
                source,
                col_indices,
                row_ptr,
                rows,
            )->Ok_0[x] == source[x],
    decreases rows,
{
    if rows > 1 {
        lemma_factor_rows_untouched(backend, source, col_indices, row_ptr, diagonal, n, rows - 1);
        let before = factor_rows(backend, source, col_indices, row_ptr, rows - 1)->Ok_0;
        lemma_factor_row_frame(backend, before, col_indices, row_ptr, diagonal, n, rows - 1);
        lemma_sweep_row(source.len(), col_indices, row_ptr, diagonal, n, rows - 1);
        assert(row_ptr[rows - 1] <= row_ptr[rows]);
    }
}

/// When the whole factorisation succeeds, the factorisation of the first
/// `rows` rows does too, and already holds the final factors of those rows.
proof fn lemma_factor_rows_settled<B: KrylovBackend>(
    backend: &B,
    source: Seq<B::Scalar>,
    col_indices: Seq<usize>,
    row_ptr: Seq<usize>,
    diagonal: DiagonalIndex,
    n: nat,
    factors: Seq<B::Scalar>,
    rows: int,
)
    requires
        factor_structure(source.len(), col_indices, row_ptr, diagonal, n),
        factor_rows(backend, source, col_indices, row_ptr, n as int) == Ok::<Seq<B::Scalar>, usize>(factors),
        1 <= rows <= n,
    ensures
        factor_rows(backend, source, col_indices, row_ptr, rows) is Ok,
        factors.len() == source.len(),
        factor_rows(backend, source, col_indices, row_ptr, rows)->Ok_0.len() == source.len(),
        forall|x: int|
            0 <= x < row_ptr[rows] ==> #[trigger] factor_rows(
                backend,
                source,
                col_indices,
                row_ptr,
                rows,
            )->Ok_0[x] == factors[x],
    decreases n - rows,
{
    if factor_rows(backend, source, col_indices, row_ptr, rows) is Err {
        lemma_factor_rows_stops(backend, source, col_indices, row_ptr, rows, n as int);
    }
    lemma_factor_rows_untouched(backend, source, col_indices, row_ptr, diagonal, n, rows);
    lemma_factor_rows_untouched(backend, source, col_indices, row_ptr, diagonal, n, n as int);
    if rows < n {
        lemma_factor_rows_settled(backend, source, col_indices, row_ptr, diagonal, n, factors, rows + 1);
        let before = factor_rows(backend, source, col_indices, row_ptr, rows)->Ok_0;
        let after = factor_rows(backend, source, col_indices, row_ptr, rows + 1)->Ok_0;
        assert(factor_rows(backend, source, col_indices, row_ptr, rows + 1) == factor_row(
            backend,
            before,
            col_indices,
            row_ptr,
            rows,
        ));
        lemma_factor_row_frame(backend, before, col_indices, row_ptr, diagonal, n, rows);
        lemma_sweep_row(source.len(), col_indices, row_ptr, diagonal, n, rows);
        assert forall|x: int| 0 <= x < row_ptr[rows] implies #[trigger] before[x] == factors[x] by {
            assert(after[x] == before[x]);
            assert(after[x] == factors[x]);
        }
    }
}

/// One source entry of the merge: extending the processed pivot-row range by
/// `source` changes only the row entry storing the source's column.
proof fn lemma_pivot_row_update_step<B: KrylovBackend>(
    backend: &B,
    scaled: Seq<B::Scalar>,
    col_indices: Seq<usize>,
    multiplier: B::Scalar,
    lower: int,
    row_end: int,
    pivot_from: int,
    source: int,
    target: int,
)
    requires
        0 <= pivot_from <= source < lower < target <= row_end <= col_indices.len() == scaled.len(),
        strictly_increasing(col_indices, pivot_from, source + 1),
        strictly_increasing(col_indices, lower + 1, row_end),
        forall|skipped: int| lower < skipped < target ==> col_indices[skipped] < col_indices[source],
        target < row_end ==> col_indices[source] <= col_indices[target],
    ensures
        pivot_row_update(backend, scaled, col_indices, multiplier, lower, row_end, pivot_from, source)[source]
            == scaled[source],
        target < row_end && col_indices[target] == col_indices[source] ==> pivot_row_update(
            backend,
            scaled,
            col_indices,
            multiplier,
            lower,
            row_end,
            pivot_from,
            source,
        )[target] == scaled[target],
        target < row_end && col_indices[target] == col_indices[source] ==> pivot_row_update(
            backend,
            scaled,
            col_indices,
            multiplier,
            lower,
            row_end,
            pivot_from,
            source + 1,
        ) == pivot_row_update(backend, scaled, col_indices, multiplier, lower, row_end, pivot_from, source).update(
            target,
            backend.spec_sub(scaled[target], backend.spec_mul(multiplier, scaled[source])),
        ),
        !(target < row_end && col_indices[target] == col_indices[source]) ==> pivot_row_update(
            backend,
            scaled,
            col_indices,
            multiplier,
            lower,
            row_end,
            pivot_from,
            source + 1,
        ) == pivot_row_update(backend, scaled, col_indices, multiplier, lower, row_end, pivot_from, source),
{
    let before = pivot_row_update(backend, scaled, col_indices, multiplier, lower, row_end, pivot_from, source);
    let after = pivot_row_update(
        backend,
        scaled,
        col_indices,
        multiplier,
        lower,
        row_end,
        pivot_from,
        source + 1,
    );
    let column = col_indices[source] as int;
    lemma_entry_in_columns(col_indices, pivot_from, source, column);
    assert(entry_in_columns(col_indices, pivot_from, source, column) == -1) by {
        let found = entry_in_columns(col_indices, pivot_from, source, column);
        if found != -1 {
            assert(col_indices[found] < col_indices[source]);
        }
    }
    assert forall|entry: int| 0 <= entry < scaled.len() && col_indices[entry] != column implies #[trigger] after[entry]
        == before[entry] by {
        assert(entry_in_columns(col_indices, pivot_from, source + 1, col_indices[entry] as int) == entry_in_columns(
            col_indices,
            pivot_from,
            source,
            col_indices[entry] as int,
        ));
    }
    assert forall|entry: int|
        0 <= entry < scaled.len() && col_indices[entry] == column && !(lower < entry < row_end) implies #[trigger] after[entry]
        == before[entry] by {}
    assert forall|entry: int| lower < entry < row_end && col_indices[entry] == column implies entry == target by {
        if entry < target {
            assert(col_indices[entry] < column);
        } else if entry > target {
            assert(col_indices[target] < col_indices[entry]);
        }
    }
    if target < row_end && col_indices[target] == column {
        assert(after =~= before.update(
            target,
            backend.spec_sub(scaled[target], backend.spec_mul(multiplier, scaled[source])),
        ));
    } else {
        assert(after =~= before);
    }
}

/// Subtract `multiplier` times the pivot-row range `[pivot_from, pivot_to)`
/// from the entries of `(lower, row_end)` that share its columns, walking both
/// sorted ranges in one merge pass.
fn subtract_pivot_row<B: KrylovBackend>(
    backend: &B,
    values: &mut Vec<B::Scalar>,
    col_indices: &Vec<usize>,
    multiplier: B::Scalar,
    lower: usize,
    row_end: usize,
    pivot_from: usize,
    pivot_to: usize,
)
    requires
        pivot_from <= pivot_to <= lower < row_end <= col_indices@.len() == old(values)@.len(),
        strictly_increasing(col_indices@, pivot_from as int, pivot_to as int),
        strictly_increasing(col_indices@, lower + 1, row_end as int),
    ensures
        final(values)@ == pivot_row_update(
            backend,
            old(values)@,
            col_indices@,
            multiplier,
            lower as int,
            row_end as int,
            pivot_from as int,
            pivot_to as int,
        ),
{
    let ghost scaled = values@;
    let mut target: usize = lower + 1;
    let mut source: usize = pivot_from;
    proof {
        assert(pivot_row_update(
            backend,
            scaled,
            col_indices@,
            multiplier,
            lower as int,
            row_end as int,
            pivot_from as int,
            pivot_from as int,
        ) =~= scaled);
    }
    while source < pivot_to
        invariant_except_break
            pivot_from <= source <= pivot_to <= lower < target <= row_end,
            row_end <= col_indices@.len() == scaled.len() == values@.len(),
            strictly_increasing(col_indices@, pivot_from as int, pivot_to as int),
            strictly_increasing(col_indices@, lower + 1, row_end as int),
            source < pivot_to ==> forall|skipped: int|
                lower < skipped < target ==> col_indices@[skipped] < col_indices@[source as int],
            values@ == pivot_row_update(
                backend,
                scaled,
                col_indices@,
                multiplier,
                lower as int,
                row_end as int,
                pivot_from as int,
                source as int,
            ),
        ensures
            values@ == pivot_row_update(
                backend,
                scaled,
                col_indices@,
                multiplier,
                lower as int,
                row_end as int,
                pivot_from as int,
                pivot_to as int,
            ),
        decreases pivot_to - source,
    {
        let column = col_indices[source];
        while target < row_end && col_indices[target] < column
            invariant
                lower < target <= row_end <= col_indices@.len(),
                column == col_indices@[source as int],
                forall|skipped: int| lower < skipped < target ==> col_indices@[skipped] < column,
            decreases row_end - target,
        {
            target = target + 1;
        }
        if target == row_end {
            proof {
                assert forall|entry: int| 0 <= entry < scaled.len() implies #[trigger] pivot_row_update(
                    backend,
                    scaled,
                    col_indices@,
                    multiplier,
                    lower as int,
                    row_end as int,
                    pivot_from as int,
                    pivot_to as int,
                )[entry] == values@[entry] by {
                    if lower < entry < row_end {
                        assert forall|later: int| source <= later < pivot_to implies col_indices@[later]
                            != col_indices@[entry] by {
                            if later > source {
                                assert(col_indices@[source as int] < col_indices@[later]);
                            }
                        }
                        lemma_entry_in_columns_skip(
                            col_indices@,
                            pivot_from as int,
                            source as int,
                            pivot_to as int,
                            col_indices@[entry] as int,
                        );
                    }
                }
                assert(values@ =~= pivot_row_update(
                    backend,
                    scaled,
                    col_indices@,
                    multiplier,
                    lower as int,
                    row_end as int,
                    pivot_from as int,
                    pivot_to as int,
                ));
            }
            break;
        }
        proof {
            lemma_pivot_row_update_step(
                backend,
                scaled,
                col_indices@,
                multiplier,
                lower as int,
                row_end as int,
                pivot_from as int,
                source as int,
                target as int,
            );
        }
        if col_indices[target] == column {
            let update = backend.mul(multiplier, values[source]);
            let current = values[target];
            values.set(target, backend.sub(current, update));
        }
        source = source + 1;
        proof {
            if source < pivot_to {
                assert forall|skipped: int| lower < skipped < target implies col_indices@[skipped]
                    < col_indices@[source as int] by {
                    assert(col_indices@[source - 1] < col_indices@[source as int]);
                }
            }
        }
    }
}

/// The structure a factorisation over an `n`-square pattern runs on: a
/// canonical pattern whose every row stores its diagonal.
pub open spec fn factor_structure(
    nnz: nat,
    col_indices: Seq<usize>,
    row_ptr: Seq<usize>,
    diagonal: DiagonalIndex,
    n: nat,
) -> bool {
    &&& sweep_structure(nnz, col_indices, row_ptr, diagonal, n)
    &&& diagonal.complete()
}

/// Factor row `row` in place: eliminate its strict lower entries in column
/// order, then require its own pivot to be nonzero.
fn factor_row_in_place<B: KrylovBackend>(
    backend: &B,
    values: &mut Vec<B::Scalar>,
    col_indices: &Vec<usize>,
    row_ptr: &Vec<usize>,
    diagonal: &DiagonalIndex,
    n: usize,
    row: usize,
) -> (outcome: Result<(), LetoBackendError>)
    requires
        factor_structure(old(values)@.len(), col_indices@, row_ptr@, *diagonal, n as nat),
        0 < row < n,
    ensures
        final(values)@.len() == old(values)@.len(),
        match outcome {
            Ok(()) => factor_row(backend, old(values)@, col_indices@, row_ptr@, row as int) == Ok::<
                Seq<B::Scalar>,
                usize,
            >(final(values)@),
            Err(error) => error matches LetoBackendError::SingularDiagonal { index } && factor_row(
                backend,
                old(values)@,
                col_indices@,
                row_ptr@,
                row as int,
            ) == Err::<Seq<B::Scalar>, usize>(index),
        },
{
    let ghost nnz = values@.len();
    proof {
        lemma_sweep_row(nnz, col_indices@, row_ptr@, *diagonal, n as nat, row as int);
    }
    let start = row_ptr[row];
    let end = row_ptr[row + 1];
    let row_diagonal = diagonal.required_position(row);
    let ghost initial = values@;
    let mut lower: usize = start;
    while lower < row_diagonal
        invariant
            factor_structure(nnz, col_indices@, row_ptr@, *diagonal, n as nat),
            0 < row < n,
            initial == old(values)@,
            nnz == old(values)@.len(),
            values@.len() == nnz,
            col_indices@.len() == nnz,
            row_ptr@.len() == n + 1,
            start == row_ptr@[row as int],
            end == row_ptr@[row + 1],
            start <= lower <= row_diagonal < end <= nnz,
            row_diagonal == diagonal_entry(col_indices@, row_ptr@, row as int),
            col_indices@[row_diagonal as int] == row,
            strictly_increasing(col_indices@, start as int, end as int),
            eliminate_row_prefix(backend, initial, col_indices@, row_ptr@, row as int, lower as int) == Ok::<
                Seq<B::Scalar>,
                usize,
            >(values@),
        decreases row_diagonal - lower,
    {
        let pivot_row = col_indices[lower];
        proof {
            assert(col_indices@[lower as int] < col_indices@[row_diagonal as int]);
            lemma_sweep_row(nnz, col_indices@, row_ptr@, *diagonal, n as nat, pivot_row as int);
            assert(row_ptr@[pivot_row + 1] <= row_ptr@[row as int]);
            assert(diagonal.spec_positions()[pivot_row as int] is Some);
        }
        let pivot = diagonal.required_position(pivot_row);
        let pivot_value = values[pivot];
        if backend.equal(pivot_value, backend.zero()) {
            proof {
                assert(eliminate_row_prefix(
                    backend,
                    initial,
                    col_indices@,
                    row_ptr@,
                    row as int,
                    lower + 1,
                ) == Err::<Seq<B::Scalar>, usize>(pivot_row));
                lemma_row_prefix_stops(
                    backend,
                    initial,
                    col_indices@,
                    row_ptr@,
                    row as int,
                    lower + 1,
                    row_diagonal as int,
                );
            }
            return Err(LetoBackendError::SingularDiagonal { index: pivot_row });
        }
        let multiplier = backend.div(values[lower], pivot_value);
        values.set(lower, multiplier);
        if !backend.equal(multiplier, backend.zero()) {
            let pivot_end = row_ptr[pivot_row + 1];
            proof {
                assert(strictly_increasing(col_indices@, pivot + 1, pivot_end as int)) by {
                    assert(strictly_increasing(
                        col_indices@,
                        row_ptr@[pivot_row as int] as int,
                        row_ptr@[pivot_row + 1] as int,
                    ));
                }
            }
            subtract_pivot_row(backend, values, col_indices, multiplier, lower, end, pivot + 1, pivot_end);
        }
        lower = lower + 1;
    }
    if backend.equal(values[row_diagonal], backend.zero()) {
        return Err(LetoBackendError::SingularDiagonal { index: row });
    }
    Ok(())
}

/// Factor rows `1..n` in order, stopping at the first vanishing pivot.
fn factor_in_place<B: KrylovBackend>(
    backend: &B,
    values: &mut Vec<B::Scalar>,
    col_indices: &Vec<usize>,
    row_ptr: &Vec<usize>,
    diagonal: &DiagonalIndex,
    n: usize,
) -> (outcome: Result<(), LetoBackendError>)
    requires
        factor_structure(old(values)@.len(), col_indices@, row_ptr@, *diagonal, n as nat),
    ensures
        final(values)@.len() == old(values)@.len(),
        match factor_rows(backend, old(values)@, col_indices@, row_ptr@, n as int) {
            Ok(factors) => outcome is Ok && final(values)@ == factors,
            Err(index) => outcome == Err::<(), LetoBackendError>(LetoBackendError::SingularDiagonal { index }),
        },
{
    let ghost source = values@;
    let mut row: usize = 1;
    while row < n
        invariant
            factor_structure(source.len(), col_indices@, row_ptr@, *diagonal, n as nat),
            source == old(values)@,
            values@.len() == source.len(),
            1 <= row,
            row <= n || row == 1,
            factor_rows(backend, source, col_indices@, row_ptr@, row as int) == Ok::<Seq<B::Scalar>, usize>(
                values@,
            ),
        decreases n - row,
    {
        match factor_row_in_place(backend, values, col_indices, row_ptr, diagonal, n, row) {
            Ok(()) => {},
            Err(error) => {
                proof {
                    let index = error->index;
                    assert(factor_rows(backend, source, col_indices@, row_ptr@, row + 1) == Err::<
                        Seq<B::Scalar>,
                        usize,
                    >(index));
                    lemma_factor_rows_stops(backend, source, col_indices@, row_ptr@, row + 1, n as int);
                }
                return Err(error);
            },
        }
        row = row + 1;
    }
    proof {
        if n == 0 {
            assert(factor_rows(backend, source, col_indices@, row_ptr@, 1) == Ok::<Seq<B::Scalar>, usize>(
                source,
            ));
        }
    }
    Ok(())
}

/// `solution` is what the two sweeps of an incomplete-LU application leave:
/// some `forward` solves the unit lower factor against `rhs`, and `solution`
/// solves the upper factor against `forward`.
pub open spec fn lu_solved<B: KrylovBackend>(
    backend: &B,
    values: Seq<B::Scalar>,
    col_indices: Seq<usize>,
    row_ptr: Seq<usize>,
    diagonal: DiagonalIndex,
    rhs: Seq<B::Scalar>,
    solution: Seq<B::Scalar>,
) -> bool {
    exists|forward: Seq<B::Scalar>|
        {
            &&& forward.len() == rhs.len()
            &&& solution.len() == rhs.len()
            &&& forward_solved(
                backend,
                values,
                col_indices,
                row_ptr,
                diagonal,
                rhs,
                forward,
                rhs.len() as int,
                true,
                backend.spec_one(),
            )
            &&& backward_solved(backend, values, col_indices, row_ptr, diagonal, forward, solution, 0)
            &&& forall|row: int|
                0 <= row < rhs.len() ==> #[trigger] forward[row] == lower_system_row(
                    backend,
                    values,
                    col_indices,
                    row_ptr,
                    diagonal.spec_positions()[row],
                    rhs[row],
                    forward,
                    row,
                    true,
                    backend.spec_one(),
                )
            &&& forall|row: int|
                0 <= row < rhs.len() ==> #[trigger] solution[row] == upper_system_row(
                    backend,
                    values,
                    col_indices,
                    row_ptr,
                    diagonal.spec_positions()[row]->0,
                    forward[row],
                    solution,
                    row,
                )
        }
}

/// Incomplete LU factorization with zero fill-in.
///
/// The factors reuse the sparsity pattern of the source matrix exactly: any
/// update that would land outside that pattern is discarded, which is what
/// makes the factorization incomplete and keeps its storage equal to the
/// matrix. `L` carries an implicit unit diagonal and `U` the stored one, so
/// both factors pack into one value array alongside the entering indices.
///
/// Reference: Saad (2003), *Iterative Methods for Sparse Linear Systems*, 2nd
/// ed., §10.3.2, IKJ variant.
#[derive(Debug)]
pub struct IncompleteLu<T> {
    values: Vec<T>,
    col_indices: Vec<usize>,
    row_ptr: Vec<usize>,
    diagonal: DiagonalIndex,
    dimension: usize,
}

impl<T> IncompleteLu<T> {
    /// The packed factors span a canonical square pattern whose every row
    /// stores its diagonal.
    #[verifier::type_invariant]
    pub(crate) open spec fn factored(self) -> bool {
        factor_structure(
            self.spec_values().len(),
            self.spec_col_indices(),
            self.spec_row_ptr(),
            self.spec_diagonal(),
            self.spec_dimension() as nat,
        )
    }

    /// Packed factor values: `L` strictly left of each diagonal, `U` from it on.
    pub closed spec fn spec_values(&self) -> Seq<T> {
        self.values@
    }

    /// Column index of each packed value.
    pub closed spec fn spec_col_indices(&self) -> Seq<usize> {
        self.col_indices@
    }

    /// Row offsets of the packed values.
    pub closed spec fn spec_row_ptr(&self) -> Seq<usize> {
        self.row_ptr@
    }

    /// Diagonal position of each row.
    pub closed spec fn spec_diagonal(&self) -> DiagonalIndex {
        self.diagonal
    }

    /// Dimension of the factored system.
    pub closed spec fn spec_dimension(&self) -> usize {
        self.dimension
    }

    /// Dimension of the factored system.
    pub fn dimension(&self) -> (dimension: usize)
        ensures
            dimension == self.spec_dimension(),
    {
        self.dimension
    }
}

impl<T: Copy> IncompleteLu<T> {
    /// Factor a square CSR matrix in its own pattern.
    ///
    /// Returns [`LetoBackendError::NonSquareOperator`] for a rectangular
    /// matrix, [`LetoBackendError::MissingDiagonal`] naming the first row that
    /// stores no diagonal entry, and [`LetoBackendError::SingularDiagonal`]
    /// naming the pivot that vanishes during elimination.
    pub fn from_csr<B: KrylovBackend<Scalar = T>>(backend: &B, matrix: &CsrMatrix<T>) -> (factored: Result<
        Self,
        LetoBackendError,
    >)
        ensures
            matrix.spec_rows() != matrix.spec_columns() ==> factored == Err::<Self, LetoBackendError>(
                LetoBackendError::NonSquareOperator {
                    rows: matrix.spec_rows(),
                    columns: matrix.spec_columns(),
                },
            ),
            factored matches Err(LetoBackendError::MissingDiagonal { row }) ==> {
                &&& matrix.spec_rows() == matrix.spec_columns()
                &&& row < matrix.spec_rows()
                &&& missing_diagonal(matrix.spec_col_indices(), matrix.spec_row_ptr(), row as int)
                &&& forall|earlier: int|
                    0 <= earlier < row ==> !missing_diagonal(
                        matrix.spec_col_indices(),
                        matrix.spec_row_ptr(),
                        earlier,
                    )
            },
            matrix.spec_rows() == matrix.spec_columns() && (exists|row: int|
                0 <= row < matrix.spec_rows() && missing_diagonal(
                    matrix.spec_col_indices(),
                    matrix.spec_row_ptr(),
                    row,
                )) ==> factored matches Err(LetoBackendError::MissingDiagonal { .. }),
            matrix.spec_rows() == matrix.spec_columns() && (forall|row: int|
                0 <= row < matrix.spec_rows() ==> !missing_diagonal(
                    matrix.spec_col_indices(),
                    matrix.spec_row_ptr(),
                    row,
                )) ==> match factor_rows(
                backend,
                matrix.spec_values(),
                matrix.spec_col_indices(),
                matrix.spec_row_ptr(),
                matrix.spec_rows() as int,
            ) {
                Ok(factors) => factored matches Ok(ilu) && {
                    &&& ilu.spec_values() == factors
                    &&& ilu.spec_values().len() == matrix.spec_values().len()
                    &&& ilu.spec_col_indices() == matrix.spec_col_indices()
                    &&& ilu.spec_row_ptr() == matrix.spec_row_ptr()
                    &&& ilu.spec_dimension() == matrix.spec_rows()
                    &&& forall|row: int, entry: int|
                        0 <= row < matrix.spec_rows() && matrix.spec_row_ptr()[row] <= entry
                            < matrix.spec_row_ptr()[row + 1] ==> ilu.spec_values()[entry]
                            == #[trigger] ilu_entry(
                            backend,
                            matrix.spec_values(),
                            ilu.spec_values(),
                            matrix.spec_col_indices(),
                            matrix.spec_row_ptr(),
                            row,
                            entry,
                        )
                },
                Err(index) => factored == Err::<Self, LetoBackendError>(
                    LetoBackendError::SingularDiagonal { index },
                ),
            },
    {
        proof {
            use_type_invariant(matrix);
        }
        let diagonal = DiagonalIndex::new(matrix)?;
        let (dimension, _) = matrix.shape();
        let mut values = vstd::slice::slice_to_vec(matrix.values());
        let col_indices = vstd::slice::slice_to_vec(matrix.col_indices());
        let row_ptr = vstd::slice::slice_to_vec(matrix.row_ptr());
        proof {
            reveal(sweep_structure);
        }
        let ghost source = values@;
        proof {
            assert(factor_structure(source.len(), col_indices@, row_ptr@, diagonal, dimension as nat));
        }
        factor_in_place(backend, &mut values, &col_indices, &row_ptr, &diagonal, dimension)?;
        proof {
            lemma_incomplete_lu_entries(
                backend,
                source,
                col_indices@,
                row_ptr@,
                diagonal,
                dimension as nat,
                values@,
            );
        }
        Ok(IncompleteLu { values, col_indices, row_ptr, diagonal, dimension })
    }

    /// Apply the factors to `residual` into `output`: copy, sweep forward
    /// through the unit lower factor, then back through the upper factor.
    ///
    /// Returns [`LetoBackendError::LengthMismatch`] when `residual` and
    /// `output` disagree in length, or when they disagree with the factored
    /// dimension, and [`LetoBackendError::SingularDiagonal`] for the last
    /// row whose stored pivot is zero.
    pub fn apply<B: KrylovBackend<Scalar = T>>(&self, backend: &B, residual: &[T], output: &mut [T]) -> (outcome:
        Result<(), LetoBackendError>)
        ensures
            final(output)@.len() == old(output)@.len(),
            residual@.len() != old(output)@.len() ==> outcome == Err::<(), LetoBackendError>(
                LetoBackendError::LengthMismatch {
                    left: residual@.len() as usize,
                    right: old(output)@.len() as usize,
                },
            ),
            residual@.len() == old(output)@.len() && residual@.len() != self.spec_dimension() ==> outcome
                == Err::<(), LetoBackendError>(
                LetoBackendError::LengthMismatch {
                    left: residual@.len() as usize,
                    right: self.spec_dimension(),
                },
            ),
            residual@.len() == old(output)@.len() && residual@.len() == self.spec_dimension() ==> match outcome {
                Ok(()) => {
                    &&& lu_solved(
                        backend,
                        self.spec_values(),
                        self.spec_col_indices(),
                        self.spec_row_ptr(),
                        self.spec_diagonal(),
                        residual@,
                        final(output)@,
                    )
                    &&& forall|row: int|
                        0 <= row < residual@.len() ==> !#[trigger] pivot_vanishes(
                            backend,
                            self.spec_values(),
                            self.spec_diagonal(),
                            row,
                        )
                },
                Err(error) => match error {
                    LetoBackendError::SingularDiagonal { index } => {
                        &&& index < residual@.len()
                        &&& pivot_vanishes(backend, self.spec_values(), self.spec_diagonal(), index as int)
                        &&& forall|later: int|
                            index < later < residual@.len() ==> !#[trigger] pivot_vanishes(
                                backend,
                                self.spec_values(),
                                self.spec_diagonal(),
                                later,
                            )
                    },
                    _ => false,
                },
            },
    {
        proof {
            use_type_invariant(self);
        }
        if residual.len() != output.len() {
            return Err(LetoBackendError::LengthMismatch { left: residual.len(), right: output.len() });
        }
        if residual.len() != self.dimension {
            return Err(LetoBackendError::LengthMismatch { left: residual.len(), right: self.dimension });
        }
        copy_slice(residual, output)?;
        forward_substitute(
            backend,
            self.values.as_slice(),
            self.col_indices.as_slice(),
            self.row_ptr.as_slice(),
            &self.diagonal,
            output,
            true,
            backend.one(),
        )?;
        let ghost forward = output@;
        let outcome = back_substitute(
            backend,
            self.values.as_slice(),
            self.col_indices.as_slice(),
            self.row_ptr.as_slice(),
            &self.diagonal,
            output,
        );
        proof {
            if outcome is Ok {
                assert(forward.len() == residual@.len());
                assert(forward_solved(
                    backend,
                    self.spec_values(),
                    self.spec_col_indices(),
                    self.spec_row_ptr(),
                    self.spec_diagonal(),
                    residual@,
                    forward,
                    residual@.len() as int,
                    true,
                    backend.spec_one(),
                ));
                lemma_forward_sweep_solves_rows(
                    backend,
                    self.values@,
                    self.col_indices@,
                    self.row_ptr@,
                    self.diagonal,
                    self.dimension as nat,
                    residual@,
                    forward,
                    true,
                    backend.spec_one(),
                );
                lemma_backward_sweep_solves_rows(
                    backend,
                    self.values@,
                    self.col_indices@,
                    self.row_ptr@,
                    self.diagonal,
                    self.dimension as nat,
                    forward,
                    output@,
                );
            }
        }
        outcome
    }
}

} // verus!
