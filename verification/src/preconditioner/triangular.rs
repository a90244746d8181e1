//! Diagonal index and the sparse triangular sweeps the host preconditioners
//! apply.
use vstd::prelude::*;
use crate::backend::KrylovBackend;
use crate::sparse::{
    CsrMatrix, LetoBackendError, csr_canonical, entry_in_columns, lemma_entry_in_columns,
    lemma_entry_in_columns_unique, offsets_nondecreasing, strictly_increasing,
};

verus! {

/// Binary search of `sorted[start..end]` for `target`: the offset of
/// `target` within the range, or `None` when the range does not hold it.
fn binary_search_range(sorted: &[usize], start: usize, end: usize, target: usize) -> (offset: Option<
    usize,
>)
    requires
        start <= end <= sorted@.len(),
        strictly_increasing(sorted@, start as int, end as int),
    ensures
        match offset {
            Some(found) => found < end - start && sorted@[start + found] == target,
            None => forall|entry: int| start <= entry < end ==> sorted@[entry] != target,
        },
{
    let mut low = start;
    let mut high = end;
    while low < high
        invariant
            start <= low <= high <= end <= sorted@.len(),
            strictly_increasing(sorted@, start as int, end as int),
            forall|entry: int| start <= entry < low ==> sorted@[entry] < target,
            forall|entry: int| high <= entry < end ==> sorted@[entry] > target,
        decreases high - low,
    {
        let middle = low + (high - low) / 2;
        if sorted[middle] == target {
            return Some(middle - start);
        } else if sorted[middle] < target {
            low = middle + 1;
        } else {
            high = middle;
        }
    }
    None
}

/// `position` is where row `row` stores its diagonal, or `None` when the row
/// stores none.
pub open spec fn locates_diagonal(
    col_indices: Seq<usize>,
    row_ptr: Seq<usize>,
    row: int,
    position: Option<usize>,
) -> bool {
    match position {
        Some(found) => row_ptr[row] <= found < row_ptr[row + 1] && col_indices[found as int] == row,
        None => forall|entry: int|
            row_ptr[row] <= entry < row_ptr[row + 1] ==> col_indices[entry] != row,
    }
}

/// Where row `row` stores its diagonal, or `-1` when it stores none.
pub open spec fn diagonal_entry(col_indices: Seq<usize>, row_ptr: Seq<usize>, row: int) -> int {
    entry_in_columns(col_indices, row_ptr[row] as int, row_ptr[row + 1] as int, row)
}

/// Row `row` stores no diagonal entry.
pub open spec fn missing_diagonal(col_indices: Seq<usize>, row_ptr: Seq<usize>, row: int) -> bool {
    diagonal_entry(col_indices, row_ptr, row) < 0
}

/// Along a row of strictly increasing columns a located diagonal is the one
/// [`diagonal_entry`] names.
pub proof fn lemma_locates_diagonal_entry(
    col_indices: Seq<usize>,
    row_ptr: Seq<usize>,
    row: int,
    position: Option<usize>,
)
    requires
        strictly_increasing(col_indices, row_ptr[row] as int, row_ptr[row + 1] as int),
        locates_diagonal(col_indices, row_ptr, row, position),
    ensures
        match position {
            Some(found) => diagonal_entry(col_indices, row_ptr, row) == found,
            None => diagonal_entry(col_indices, row_ptr, row) == -1,
        },
{
    lemma_entry_in_columns(col_indices, row_ptr[row] as int, row_ptr[row + 1] as int, row);
    match position {
        Some(found) => {
            lemma_entry_in_columns_unique(
                col_indices,
                row_ptr[row] as int,
                row_ptr[row + 1] as int,
                found as int,
            );
        },
        None => {},
    }
}

/// A row misses its diagonal exactly when no entry of the row stores it.
pub proof fn lemma_missing_diagonal(col_indices: Seq<usize>, row_ptr: Seq<usize>, row: int)
    requires
        strictly_increasing(col_indices, row_ptr[row] as int, row_ptr[row + 1] as int),
    ensures
        missing_diagonal(col_indices, row_ptr, row) <==> locates_diagonal(col_indices, row_ptr, row, None),
{
    lemma_entry_in_columns(col_indices, row_ptr[row] as int, row_ptr[row + 1] as int, row);
    if locates_diagonal(col_indices, row_ptr, row, None) {
        lemma_locates_diagonal_entry(col_indices, row_ptr, row, None);
    }
}

/// Position of each row's diagonal entry within a CSR value array.
///
/// CSR rows carry strictly increasing column indices, so the diagonal is
/// located once at construction and every later triangular sweep splits a row
/// into its strict lower part `[start, diagonal)` and upper part
/// `(diagonal, end)` by slicing rather than searching.
#[derive(Clone, Debug)]
pub struct DiagonalIndex {
    /// Value-array position of each row's diagonal, or `None` where the
    /// sparsity pattern stores no diagonal entry for that row.
    positions: Vec<Option<usize>>,
}

impl DiagonalIndex {
    /// Diagonal position of each row.
    pub closed spec fn spec_positions(&self) -> Seq<Option<usize>> {
        self.positions@
    }

    /// Every row of the structure has its diagonal located.
    pub open spec fn indexes(&self, col_indices: Seq<usize>, row_ptr: Seq<usize>, rows: nat) -> bool {
        &&& self.spec_positions().len() == rows
        &&& forall|row: int|
            0 <= row < rows ==> locates_diagonal(
                col_indices,
                row_ptr,
                row,
                #[trigger] self.spec_positions()[row],
            )
    }

    /// Every row stores a diagonal entry.
    pub open spec fn complete(&self) -> bool {
        forall|row: int| 0 <= row < self.spec_positions().len() ==> #[trigger] self.spec_positions()[row] is Some
    }

    /// Locate every diagonal entry, requiring the matrix to be square and
    /// each row to store one.
    ///
    /// Returns [`LetoBackendError::NonSquareOperator`], or
    /// [`LetoBackendError::MissingDiagonal`] naming the first row that stores
    /// no diagonal.
    pub fn new<T>(matrix: &CsrMatrix<T>) -> (index: Result<Self, LetoBackendError>)
        ensures
            matrix.spec_rows() != matrix.spec_columns() ==> index == Err::<Self, LetoBackendError>(
                LetoBackendError::NonSquareOperator {
                    rows: matrix.spec_rows(),
                    columns: matrix.spec_columns(),
                },
            ),
            index matches Err(LetoBackendError::NonSquareOperator { .. }) ==> matrix.spec_rows()
                != matrix.spec_columns(),
            index matches Err(LetoBackendError::MissingDiagonal { row }) ==> {
                &&& matrix.spec_rows() == matrix.spec_columns()
                &&& row < matrix.spec_rows()
                &&& missing_diagonal(matrix.spec_col_indices(), matrix.spec_row_ptr(), row as int)
                &&& forall|earlier: int|
                    0 <= earlier < row ==> !missing_diagonal(
                        matrix.spec_col_indices(),
                        matrix.spec_row_ptr(),
                        earlier,
                    )
            },
            index matches Err(error) ==> error is NonSquareOperator || error is MissingDiagonal,
            index matches Ok(found) ==> {
                &&& matrix.spec_rows() == matrix.spec_columns()
                &&& found.indexes(matrix.spec_col_indices(), matrix.spec_row_ptr(), matrix.spec_rows() as nat)
                &&& found.complete()
                &&& forall|row: int|
                    0 <= row < matrix.spec_rows() ==> !missing_diagonal(
                        matrix.spec_col_indices(),
                        matrix.spec_row_ptr(),
                        row,
                    )
            },
            matrix.spec_rows() == matrix.spec_columns() && (forall|row: int|
                0 <= row < matrix.spec_rows() ==> !missing_diagonal(
                    matrix.spec_col_indices(),
                    matrix.spec_row_ptr(),
                    row,
                )) ==> index is Ok,
    {
        proof {
            use_type_invariant(matrix);
        }
        let index = Self::new_optional(matrix)?;
        let ghost nnz = matrix.spec_values().len();
        let ghost col_indices = matrix.spec_col_indices();
        let ghost row_ptr = matrix.spec_row_ptr();
        let ghost n = matrix.spec_rows() as nat;
        proof {
            assert forall|row: int| 0 <= row < n implies (missing_diagonal(col_indices, row_ptr, row)
                <==> #[trigger] index.spec_positions()[row] is None) by {
                assert(strictly_increasing(col_indices, row_ptr[row] as int, row_ptr[row + 1] as int));
                lemma_missing_diagonal(col_indices, row_ptr, row);
                assert(locates_diagonal(col_indices, row_ptr, row, index.spec_positions()[row]));
                lemma_locates_diagonal_entry(col_indices, row_ptr, row, index.spec_positions()[row]);
            }
        }
        let mut row: usize = 0;
        while row < index.positions.len()
            invariant
                matrix.spec_rows() == matrix.spec_columns(),
                index.indexes(col_indices, row_ptr, n),
                n == matrix.spec_rows(),
                col_indices == matrix.spec_col_indices(),
                row_ptr == matrix.spec_row_ptr(),
                forall|any: int| 0 <= any < n ==> (missing_diagonal(col_indices, row_ptr, any)
                    <==> #[trigger] index.spec_positions()[any] is None),
                row <= index.positions.len(),
                forall|done: int| 0 <= done < row ==> #[trigger] index.positions@[done] is Some,
            decreases index.positions.len() - row,
        {
            if index.positions[row].is_none() {
                proof {
                    assert forall|earlier: int| 0 <= earlier < row implies !missing_diagonal(
                        col_indices,
                        row_ptr,
                        earlier,
                    ) by {
                        assert(index.positions@[earlier] is Some);
                        assert(index.spec_positions()[earlier] is Some);
                    }
                    assert(index.spec_positions()[row as int] is None);
                }
                return Err(LetoBackendError::MissingDiagonal { row });
            }
            row = row + 1;
        }
        proof {
            assert forall|any: int| 0 <= any < n implies !missing_diagonal(col_indices, row_ptr, any) by {
                assert(index.positions@[any] is Some);
                assert(index.spec_positions()[any] is Some);
            }
            assert forall|any: int| 0 <= any < index.spec_positions().len() implies #[trigger] index.spec_positions()[any] is Some by {
                assert(index.positions@[any] is Some);
            }
        }
        Ok(index)
    }

    /// Locate diagonal entries, tolerating rows that store none.
    ///
    /// Returns [`LetoBackendError::NonSquareOperator`] for a rectangular
    /// matrix.
    pub fn new_optional<T>(matrix: &CsrMatrix<T>) -> (index: Result<Self, LetoBackendError>)
        ensures
            matrix.spec_rows() != matrix.spec_columns() ==> index == Err::<Self, LetoBackendError>(
                LetoBackendError::NonSquareOperator {
                    rows: matrix.spec_rows(),
                    columns: matrix.spec_columns(),
                },
            ),
            index matches Err(LetoBackendError::NonSquareOperator { .. }) ==> matrix.spec_rows()
                != matrix.spec_columns(),
            matrix.spec_rows() == matrix.spec_columns() ==> (index matches Ok(found) && found.indexes(
                matrix.spec_col_indices(),
                matrix.spec_row_ptr(),
                matrix.spec_rows() as nat,
            )),
    {
        proof {
            use_type_invariant(matrix);
        }
        let (rows, columns) = matrix.shape();
        if rows != columns {
            return Err(LetoBackendError::NonSquareOperator { rows, columns });
        }
        let row_ptr = matrix.row_ptr();
        let col_indices = matrix.col_indices();
        let mut positions: Vec<Option<usize>> = Vec::with_capacity(rows);
        let mut row: usize = 0;
        while row < rows
            invariant
                csr_canonical(
                    matrix.spec_values().len(),
                    col_indices@,
                    row_ptr@,
                    rows as nat,
                    columns as nat,
                ),
                col_indices@ == matrix.spec_col_indices(),
                row_ptr@ == matrix.spec_row_ptr(),
                row <= rows,
                positions.len() == row,
                forall|done: int|
                    0 <= done < row ==> locates_diagonal(col_indices@, row_ptr@, done, #[trigger] positions@[done]),
            decreases rows - row,
        {
            let start = row_ptr[row];
            let end = row_ptr[row + 1];
            assert(row_ptr@[row + 1] <= row_ptr@[rows as int]);
            let position = match binary_search_range(col_indices, start, end, row) {
                Some(offset) => Some(start + offset),
                None => None,
            };
            positions.push(position);
            row = row + 1;
        }
        Ok(DiagonalIndex { positions })
    }

    /// Diagonal position of `row`, or `None` where the row stores none.
    pub fn position(&self, row: usize) -> (position: Option<usize>)
        requires
            row < self.spec_positions().len(),
        ensures
            position == self.spec_positions()[row as int],
    {
        self.positions[row]
    }

    /// Diagonal position for a row of a complete index.
    pub fn required_position(&self, row: usize) -> (position: usize)
        requires
            row < self.spec_positions().len(),
            self.spec_positions()[row as int] is Some,
        ensures
            Some(position) == self.spec_positions()[row as int],
    {
        match self.positions[row] {
            Some(position) => position,
            None => 0,
        }
    }
}

} // verus!

verus! {

/// `start − Σ values[e] · solved[col_indices[e]]` over the entries
/// `e ∈ [from, to)`, subtracted in entry order.
pub open spec fn row_sum<B: KrylovBackend>(
    backend: &B,
    values: Seq<B::Scalar>,
    col_indices: Seq<usize>,
    start: B::Scalar,
    solved: Seq<B::Scalar>,
    from: int,
    to: int,
) -> B::Scalar
    decreases to - from,
{
    if to <= from {
        start
    } else {
        backend.spec_sub(
            row_sum(backend, values, col_indices, start, solved, from, to - 1),
            backend.spec_mul(values[to - 1], solved[col_indices[to - 1] as int]),
        )
    }
}

/// [`row_sum`] restricted to the entries left of the diagonal of `row`.
pub open spec fn lower_row_sum<B: KrylovBackend>(
    backend: &B,
    values: Seq<B::Scalar>,
    col_indices: Seq<usize>,
    start: B::Scalar,
    solved: Seq<B::Scalar>,
    row: int,
    from: int,
    to: int,
) -> B::Scalar
    decreases to - from,
{
    if to <= from {
        start
    } else {
        let before = lower_row_sum(backend, values, col_indices, start, solved, row, from, to - 1);
        if col_indices[to - 1] < row {
            backend.spec_sub(before, backend.spec_mul(values[to - 1], solved[col_indices[to - 1] as int]))
        } else {
            before
        }
    }
}

/// Row `row` of the forward sweep `L y = rhs`: the strictly lower part of the
/// row subtracted from `rhs_row`, divided by the scaled stored pivot unless
/// the diagonal is implicitly one. A row without a stored diagonal has an
/// implied unit pivot.
pub open spec fn forward_row<B: KrylovBackend>(
    backend: &B,
    values: Seq<B::Scalar>,
    col_indices: Seq<usize>,
    row_ptr: Seq<usize>,
    position: Option<usize>,
    rhs_row: B::Scalar,
    solved: Seq<B::Scalar>,
    row: int,
    unit_diagonal: bool,
    diagonal_scale: B::Scalar,
) -> B::Scalar {
    match position {
        None => lower_row_sum(
            backend,
            values,
            col_indices,
            rhs_row,
            solved,
            row,
            row_ptr[row] as int,
            row_ptr[row + 1] as int,
        ),
        Some(pivot) => {
            let accumulated = row_sum(
                backend,
                values,
                col_indices,
                rhs_row,
                solved,
                row_ptr[row] as int,
                pivot as int,
            );
            if unit_diagonal {
                accumulated
            } else {
                backend.spec_div(accumulated, backend.spec_mul(values[pivot as int], diagonal_scale))
            }
        },
    }
}

/// Row `row` of the backward sweep `U z = rhs`: the strictly upper part of
/// the row subtracted from `rhs_row`, divided by the stored pivot.
pub open spec fn backward_row<B: KrylovBackend>(
    backend: &B,
    values: Seq<B::Scalar>,
    col_indices: Seq<usize>,
    row_ptr: Seq<usize>,
    pivot: usize,
    rhs_row: B::Scalar,
    solved: Seq<B::Scalar>,
    row: int,
) -> B::Scalar {
    backend.spec_div(
        row_sum(backend, values, col_indices, rhs_row, solved, pivot + 1, row_ptr[row + 1] as int),
        values[pivot as int],
    )
}

proof fn lemma_row_sum_frame<B: KrylovBackend>(
    backend: &B,
    values: Seq<B::Scalar>,
    col_indices: Seq<usize>,
    start: B::Scalar,
    before: Seq<B::Scalar>,
    after: Seq<B::Scalar>,
    from: int,
    to: int,
)
    requires
        forall|entry: int|
            from <= entry < to ==> before[col_indices[entry] as int] == after[col_indices[entry] as int],
    ensures
        row_sum(backend, values, col_indices, start, before, from, to) == row_sum(
            backend,
            values,
            col_indices,
            start,
            after,
            from,
            to,
        ),
    decreases to - from,
{
    if to > from {
        lemma_row_sum_frame(backend, values, col_indices, start, before, after, from, to - 1);
    }
}

proof fn lemma_lower_row_sum_frame<B: KrylovBackend>(
    backend: &B,
    values: Seq<B::Scalar>,
    col_indices: Seq<usize>,
    start: B::Scalar,
    before: Seq<B::Scalar>,
    after: Seq<B::Scalar>,
    row: int,
    from: int,
    to: int,
)
    requires
        forall|column: int| 0 <= column < row ==> before[column] == after[column],
    ensures
        lower_row_sum(backend, values, col_indices, start, before, row, from, to) == lower_row_sum(
            backend,
            values,
            col_indices,
            start,
            after,
            row,
            from,
            to,
        ),
    decreases to - from,
{
    if to > from {
        lemma_lower_row_sum_frame(backend, values, col_indices, start, before, after, row, from, to - 1);
    }
}

/// The structure a sweep over an `n`-vector runs on.
#[verifier::opaque]
pub open spec fn sweep_structure(
    nnz: nat,
    col_indices: Seq<usize>,
    row_ptr: Seq<usize>,
    diagonal: DiagonalIndex,
    n: nat,
) -> bool {
    &&& csr_canonical(nnz, col_indices, row_ptr, n, n)
    &&& diagonal.indexes(col_indices, row_ptr, n)
}

/// Every column index of the structure addresses an entry of the vector.
pub open spec fn columns_within(col_indices: Seq<usize>, n: nat) -> bool {
    forall|stored: int| 0 <= stored < col_indices.len() ==> #[trigger] col_indices[stored] < n
}

/// What a sweep needs to know of one row of its structure.
pub(crate) proof fn lemma_sweep_row(
    nnz: nat,
    col_indices: Seq<usize>,
    row_ptr: Seq<usize>,
    diagonal: DiagonalIndex,
    n: nat,
    row: int,
)
    requires
        sweep_structure(nnz, col_indices, row_ptr, diagonal, n),
        0 <= row < n,
    ensures
        row_ptr.len() == n + 1,
        col_indices.len() == nnz,
        row_ptr[row] <= row_ptr[row + 1] <= nnz,
        strictly_increasing(col_indices, row_ptr[row] as int, row_ptr[row + 1] as int),
        locates_diagonal(col_indices, row_ptr, row, diagonal.spec_positions()[row]),
        diagonal.spec_positions().len() == n,
        columns_within(col_indices, n),
        offsets_nondecreasing(row_ptr),
        match diagonal.spec_positions()[row] {
            Some(found) => diagonal_entry(col_indices, row_ptr, row) == found,
            None => diagonal_entry(col_indices, row_ptr, row) == -1,
        },
{
    reveal(sweep_structure);
    assert(locates_diagonal(col_indices, row_ptr, row, diagonal.spec_positions()[row]));
    lemma_locates_diagonal_entry(col_indices, row_ptr, row, diagonal.spec_positions()[row]);
    assert(row_ptr[row + 1] <= row_ptr[n as int]);
    assert(strictly_increasing(col_indices, row_ptr[row] as int, row_ptr[row + 1] as int));
    assert(locates_diagonal(col_indices, row_ptr, row, diagonal.spec_positions()[row]));
}

/// `forward_row` reads only the solved entries left of `row`.
proof fn lemma_forward_row_frame<B: KrylovBackend>(
    backend: &B,
    values: Seq<B::Scalar>,
    col_indices: Seq<usize>,
    row_ptr: Seq<usize>,
    diagonal: DiagonalIndex,
    n: nat,
    rhs_row: B::Scalar,
    before: Seq<B::Scalar>,
    after: Seq<B::Scalar>,
    row: int,
    unit_diagonal: bool,
    diagonal_scale: B::Scalar,
)
    requires
        sweep_structure(values.len(), col_indices, row_ptr, diagonal, n),
        0 <= row < n,
        forall|column: int| 0 <= column < row ==> before[column] == after[column],
    ensures
        forward_row(
            backend,
            values,
            col_indices,
            row_ptr,
            diagonal.spec_positions()[row],
            rhs_row,
            before,
            row,
            unit_diagonal,
            diagonal_scale,
        ) == forward_row(
            backend,
            values,
            col_indices,
            row_ptr,
            diagonal.spec_positions()[row],
            rhs_row,
            after,
            row,
            unit_diagonal,
            diagonal_scale,
        ),
{
    lemma_sweep_row(values.len(), col_indices, row_ptr, diagonal, n, row);
    match diagonal.spec_positions()[row] {
        None => {
            lemma_lower_row_sum_frame(
                backend,
                values,
                col_indices,
                rhs_row,
                before,
                after,
                row,
                row_ptr[row] as int,
                row_ptr[row + 1] as int,
            );
        },
        Some(pivot) => {
            assert forall|entry: int| row_ptr[row] <= entry < pivot implies before[col_indices[entry]
                as int] == after[col_indices[entry] as int] by {
                assert(col_indices[entry] < col_indices[pivot as int]);
            }
            lemma_row_sum_frame(
                backend,
                values,
                col_indices,
                rhs_row,
                before,
                after,
                row_ptr[row] as int,
                pivot as int,
            );
        },
    }
}

/// `backward_row` reads only the solved entries right of `row`.
proof fn lemma_backward_row_frame<B: KrylovBackend>(
    backend: &B,
    values: Seq<B::Scalar>,
    col_indices: Seq<usize>,
    row_ptr: Seq<usize>,
    diagonal: DiagonalIndex,
    n: nat,
    pivot: usize,
    rhs_row: B::Scalar,
    before: Seq<B::Scalar>,
    after: Seq<B::Scalar>,
    row: int,
)
    requires
        sweep_structure(values.len(), col_indices, row_ptr, diagonal, n),
        0 <= row < n,
        diagonal.spec_positions()[row] == Some(pivot),
        forall|column: int| row < column < n ==> before[column] == after[column],
    ensures
        backward_row(backend, values, col_indices, row_ptr, pivot, rhs_row, before, row)
            == backward_row(backend, values, col_indices, row_ptr, pivot, rhs_row, after, row),
{
    lemma_sweep_row(values.len(), col_indices, row_ptr, diagonal, n, row);
    assert forall|entry: int| pivot + 1 <= entry < row_ptr[row + 1] implies before[col_indices[entry]
        as int] == after[col_indices[entry] as int] by {
        assert(col_indices[pivot as int] < col_indices[entry]);
    }
    lemma_row_sum_frame(
        backend,
        values,
        col_indices,
        rhs_row,
        before,
        after,
        pivot + 1,
        row_ptr[row + 1] as int,
    );
}

/// `initial` with every entry of `[start, end)` subtracted in turn, each
/// weighted by the vector entry its column addresses.
fn subtract_entries<B: KrylovBackend>(
    backend: &B,
    values: &[B::Scalar],
    col_indices: &[usize],
    vector: &[B::Scalar],
    initial: B::Scalar,
    start: usize,
    end: usize,
) -> (accumulated: B::Scalar)
    requires
        start <= end <= col_indices@.len(),
        col_indices@.len() == values@.len(),
        columns_within(col_indices@, vector@.len()),
    ensures
        accumulated == row_sum(backend, values@, col_indices@, initial, vector@, start as int, end as int),
{
    let mut accumulated = initial;
    let mut entry: usize = start;
    while entry < end
        invariant
            start <= entry <= end <= col_indices@.len(),
            col_indices@.len() == values@.len(),
            columns_within(col_indices@, vector@.len()),
            accumulated == row_sum(
                backend,
                values@,
                col_indices@,
                initial,
                vector@,
                start as int,
                entry as int,
            ),
        decreases end - entry,
    {
        let column = col_indices[entry];
        accumulated = backend.sub(accumulated, backend.mul(values[entry], vector[column]));
        entry = entry + 1;
    }
    accumulated
}

/// `initial` with the entries of `[start, end)` left of column `row`
/// subtracted in turn.
fn subtract_lower_entries<B: KrylovBackend>(
    backend: &B,
    values: &[B::Scalar],
    col_indices: &[usize],
    vector: &[B::Scalar],
    initial: B::Scalar,
    row: usize,
    start: usize,
    end: usize,
) -> (accumulated: B::Scalar)
    requires
        start <= end <= col_indices@.len(),
        col_indices@.len() == values@.len(),
        columns_within(col_indices@, vector@.len()),
    ensures
        accumulated == lower_row_sum(
            backend,
            values@,
            col_indices@,
            initial,
            vector@,
            row as int,
            start as int,
            end as int,
        ),
{
    let mut accumulated = initial;
    let mut entry: usize = start;
    while entry < end
        invariant
            start <= entry <= end <= col_indices@.len(),
            col_indices@.len() == values@.len(),
            columns_within(col_indices@, vector@.len()),
            accumulated == lower_row_sum(
                backend,
                values@,
                col_indices@,
                initial,
                vector@,
                row as int,
                start as int,
                entry as int,
            ),
        decreases end - entry,
    {
        let column = col_indices[entry];
        if column < row {
            accumulated = backend.sub(accumulated, backend.mul(values[entry], vector[column]));
        }
        entry = entry + 1;
    }
    accumulated
}

/// The stored pivot at `position`, scaled by `diagonal_scale`, is zero; a row
/// without a stored pivot never is.
pub open spec fn scaled_pivot_vanishes<B: KrylovBackend>(
    backend: &B,
    values: Seq<B::Scalar>,
    position: Option<usize>,
    diagonal_scale: B::Scalar,
) -> bool {
    match position {
        Some(pivot) => backend.spec_equal(
            backend.spec_mul(values[pivot as int], diagonal_scale),
            backend.spec_zero(),
        ),
        None => false,
    }
}

/// The stored pivot of row `row` is zero.
pub open spec fn pivot_vanishes<B: KrylovBackend>(
    backend: &B,
    values: Seq<B::Scalar>,
    diagonal: DiagonalIndex,
    row: int,
) -> bool {
    backend.spec_equal(values[diagonal.spec_positions()[row]->0 as int], backend.spec_zero())
}

/// The value row `row` of the forward sweep takes, reading the solved rows
/// left of it from `vector`.
fn forward_row_value<B: KrylovBackend>(
    backend: &B,
    values: &[B::Scalar],
    col_indices: &[usize],
    row_ptr: &[usize],
    diagonal: &DiagonalIndex,
    vector: &[B::Scalar],
    row: usize,
    unit_diagonal: bool,
    diagonal_scale: B::Scalar,
) -> (value: Result<B::Scalar, LetoBackendError>)
    requires
        sweep_structure(values@.len(), col_indices@, row_ptr@, *diagonal, vector@.len()),
        row < vector@.len(),
    ensures
        match value {
            Ok(value) => value == forward_row(
                backend,
                values@,
                col_indices@,
                row_ptr@,
                diagonal.spec_positions()[row as int],
                vector@[row as int],
                vector@,
                row as int,
                unit_diagonal,
                diagonal_scale,
            ),
            Err(error) => !unit_diagonal && error == LetoBackendError::SingularDiagonal { index: row }
                && scaled_pivot_vanishes(backend, values@, diagonal.spec_positions()[row as int], diagonal_scale),
        },
        value is Ok && !unit_diagonal ==> !scaled_pivot_vanishes(
            backend,
            values@,
            diagonal.spec_positions()[row as int],
            diagonal_scale,
        ),
{
    proof {
        lemma_sweep_row(values@.len(), col_indices@, row_ptr@, *diagonal, vector@.len(), row as int);
    }
    let start = row_ptr[row];
    let end = row_ptr[row + 1];
    match diagonal.position(row) {
        None => Ok(
            subtract_lower_entries(backend, values, col_indices, vector, vector[row], row, start, end),
        ),
        Some(pivot) => {
            let accumulated = subtract_entries(
                backend,
                values,
                col_indices,
                vector,
                vector[row],
                start,
                pivot,
            );
            if unit_diagonal {
                Ok(accumulated)
            } else {
                let pivot_value = backend.mul(values[pivot], diagonal_scale);
                if backend.equal(pivot_value, backend.zero()) {
                    return Err(LetoBackendError::SingularDiagonal { index: row });
                }
                Ok(backend.div(accumulated, pivot_value))
            }
        },
    }
}

/// Every row before `row` holds its forward-sweep value.
pub open spec fn forward_solved<B: KrylovBackend>(
    backend: &B,
    values: Seq<B::Scalar>,
    col_indices: Seq<usize>,
    row_ptr: Seq<usize>,
    diagonal: DiagonalIndex,
    rhs: Seq<B::Scalar>,
    solved: Seq<B::Scalar>,
    row: int,
    unit_diagonal: bool,
    diagonal_scale: B::Scalar,
) -> bool {
    forall|done: int|
        0 <= done < row ==> #[trigger] solved[done] == forward_row(
            backend,
            values,
            col_indices,
            row_ptr,
            diagonal.spec_positions()[done],
            rhs[done],
            solved,
            done,
            unit_diagonal,
            diagonal_scale,
        )
}

/// Writing row `row`'s value keeps every earlier row solved.
proof fn lemma_forward_step<B: KrylovBackend>(
    backend: &B,
    values: Seq<B::Scalar>,
    col_indices: Seq<usize>,
    row_ptr: Seq<usize>,
    diagonal: DiagonalIndex,
    n: nat,
    rhs: Seq<B::Scalar>,
    before: Seq<B::Scalar>,
    value: B::Scalar,
    row: int,
    unit_diagonal: bool,
    diagonal_scale: B::Scalar,
)
    requires
        sweep_structure(values.len(), col_indices, row_ptr, diagonal, n),
        0 <= row < n,
        before.len() == n,
        rhs.len() == n,
        before[row] == rhs[row],
        forward_solved(backend, values, col_indices, row_ptr, diagonal, rhs, before, row, unit_diagonal, diagonal_scale),
        value == forward_row(
            backend,
            values,
            col_indices,
            row_ptr,
            diagonal.spec_positions()[row],
            rhs[row],
            before,
            row,
            unit_diagonal,
            diagonal_scale,
        ),
    ensures
        forward_solved(
            backend,
            values,
            col_indices,
            row_ptr,
            diagonal,
            rhs,
            before.update(row, value),
            row + 1,
            unit_diagonal,
            diagonal_scale,
        ),
{
    let after = before.update(row, value);
    assert forall|done: int| 0 <= done <= row implies #[trigger] after[done] == forward_row(
        backend,
        values,
        col_indices,
        row_ptr,
        diagonal.spec_positions()[done],
        rhs[done],
        after,
        done,
        unit_diagonal,
        diagonal_scale,
    ) by {
        lemma_forward_row_frame(
            backend,
            values,
            col_indices,
            row_ptr,
            diagonal,
            n,
            rhs[done],
            before,
            after,
            done,
            unit_diagonal,
            diagonal_scale,
        );
    }
}

/// Solve `L y = rhs` in place, where `L` is the strict lower triangle of the
/// stored pattern with the supplied diagonal: an implicit unit diagonal, as an
/// incomplete-LU factor carries, or the stored diagonal scaled by
/// `diagonal_scale`. A row storing no diagonal has an implied unit pivot.
///
/// Returns [`LetoBackendError::SingularDiagonal`] for the first row whose
/// scaled pivot is zero.
pub fn forward_substitute<B: KrylovBackend>(
    backend: &B,
    values: &[B::Scalar],
    col_indices: &[usize],
    row_ptr: &[usize],
    diagonal: &DiagonalIndex,
    vector: &mut [B::Scalar],
    unit_diagonal: bool,
    diagonal_scale: B::Scalar,
) -> (outcome: Result<(), LetoBackendError>)
    requires
        sweep_structure(values@.len(), col_indices@, row_ptr@, *diagonal, old(vector)@.len()),
    ensures
        final(vector)@.len() == old(vector)@.len(),
        match outcome {
            Ok(()) => forward_solved(
                backend,
                values@,
                col_indices@,
                row_ptr@,
                *diagonal,
                old(vector)@,
                final(vector)@,
                old(vector)@.len() as int,
                unit_diagonal,
                diagonal_scale,
            ),
            Err(error) => !unit_diagonal && match error {
                LetoBackendError::SingularDiagonal { index } => index < old(vector)@.len()
                    && scaled_pivot_vanishes(backend, values@, diagonal.spec_positions()[index as int], diagonal_scale)
                    && forall|earlier: int| 0 <= earlier < index ==> !scaled_pivot_vanishes(
                        backend,
                        values@,
                        #[trigger] diagonal.spec_positions()[earlier],
                        diagonal_scale,
                    ),
                _ => false,
            },
        },
        outcome is Ok && !unit_diagonal ==> forall|row: int| 0 <= row < old(vector)@.len() ==> !scaled_pivot_vanishes(
            backend,
            values@,
            #[trigger] diagonal.spec_positions()[row],
            diagonal_scale,
        ),
{
    let n = vector.len();
    let ghost entering = vector@;
    let mut row: usize = 0;
    while row < n
        invariant
            n == vector@.len(),
            n == entering.len(),
            entering == old(vector)@,
            row <= n,
            sweep_structure(values@.len(), col_indices@, row_ptr@, *diagonal, n as nat),
            forall|later: int| row <= later < n ==> vector@[later] == entering[later],
            !unit_diagonal ==> forall|earlier: int| 0 <= earlier < row ==> !scaled_pivot_vanishes(
                backend,
                values@,
                #[trigger] diagonal.spec_positions()[earlier],
                diagonal_scale,
            ),
            forward_solved(
                backend,
                values@,
                col_indices@,
                row_ptr@,
                *diagonal,
                entering,
                vector@,
                row as int,
                unit_diagonal,
                diagonal_scale,
            ),
        decreases n - row,
    {
        let value = forward_row_value(
            backend,
            values,
            col_indices,
            row_ptr,
            diagonal,
            vector,
            row,
            unit_diagonal,
            diagonal_scale,
        )?;
        proof {
            lemma_forward_step(
                backend,
                values@,
                col_indices@,
                row_ptr@,
                *diagonal,
                n as nat,
                entering,
                vector@,
                value,
                row as int,
                unit_diagonal,
                diagonal_scale,
            );
        }
        vector[row] = value;
        row = row + 1;
    }
    Ok(())
}

/// Every row from `row` on holds its backward-sweep value.
pub open spec fn backward_solved<B: KrylovBackend>(
    backend: &B,
    values: Seq<B::Scalar>,
    col_indices: Seq<usize>,
    row_ptr: Seq<usize>,
    diagonal: DiagonalIndex,
    rhs: Seq<B::Scalar>,
    solved: Seq<B::Scalar>,
    row: int,
) -> bool {
    forall|done: int|
        row <= done < solved.len() ==> #[trigger] solved[done] == backward_row(
            backend,
            values,
            col_indices,
            row_ptr,
            diagonal.spec_positions()[done]->0,
            rhs[done],
            solved,
            done,
        )
}

/// The value row `row` of the backward sweep takes, reading the solved rows
/// right of it from `vector`.
fn backward_row_value<B: KrylovBackend>(
    backend: &B,
    values: &[B::Scalar],
    col_indices: &[usize],
    row_ptr: &[usize],
    diagonal: &DiagonalIndex,
    vector: &[B::Scalar],
    row: usize,
) -> (value: Result<B::Scalar, LetoBackendError>)
    requires
        sweep_structure(values@.len(), col_indices@, row_ptr@, *diagonal, vector@.len()),
        diagonal.complete(),
        row < vector@.len(),
    ensures
        match value {
            Ok(value) => value == backward_row(
                backend,
                values@,
                col_indices@,
                row_ptr@,
                diagonal.spec_positions()[row as int]->0,
                vector@[row as int],
                vector@,
                row as int,
            ),
            Err(error) => error == LetoBackendError::SingularDiagonal { index: row } && pivot_vanishes(
                backend,
                values@,
                *diagonal,
                row as int,
            ),
        },
        value is Ok ==> !pivot_vanishes(backend, values@, *diagonal, row as int),
{
    proof {
        lemma_sweep_row(values@.len(), col_indices@, row_ptr@, *diagonal, vector@.len(), row as int);
        assert(diagonal.spec_positions()[row as int] is Some);
        assert(row < vector.len());
    }
    let end = row_ptr[row + 1];
    let pivot = diagonal.required_position(row);
    let accumulated = subtract_entries(backend, values, col_indices, vector, vector[row], pivot + 1, end);
    let pivot_value = values[pivot];
    if backend.equal(pivot_value, backend.zero()) {
        return Err(LetoBackendError::SingularDiagonal { index: row });
    }
    Ok(backend.div(accumulated, pivot_value))
}

/// Writing row `row`'s value keeps every later row solved.
proof fn lemma_backward_step<B: KrylovBackend>(
    backend: &B,
    values: Seq<B::Scalar>,
    col_indices: Seq<usize>,
    row_ptr: Seq<usize>,
    diagonal: DiagonalIndex,
    n: nat,
    rhs: Seq<B::Scalar>,
    before: Seq<B::Scalar>,
    value: B::Scalar,
    row: int,
)
    requires
        sweep_structure(values.len(), col_indices, row_ptr, diagonal, n),
        diagonal.complete(),
        0 <= row < n,
        before.len() == n,
        rhs.len() == n,
        backward_solved(backend, values, col_indices, row_ptr, diagonal, rhs, before, row + 1),
        value == backward_row(
            backend,
            values,
            col_indices,
            row_ptr,
            diagonal.spec_positions()[row]->0,
            rhs[row],
            before,
            row,
        ),
    ensures
        backward_solved(
            backend,
            values,
            col_indices,
            row_ptr,
            diagonal,
            rhs,
            before.update(row, value),
            row,
        ),
{
    let after = before.update(row, value);
    assert forall|done: int| row <= done < n implies #[trigger] after[done] == backward_row(
        backend,
        values,
        col_indices,
        row_ptr,
        diagonal.spec_positions()[done]->0,
        rhs[done],
        after,
        done,
    ) by {
        lemma_sweep_row(values.len(), col_indices, row_ptr, diagonal, n, done);
        assert(diagonal.spec_positions()[done] is Some);
        lemma_backward_row_frame(
            backend,
            values,
            col_indices,
            row_ptr,
            diagonal,
            n,
            diagonal.spec_positions()[done]->0,
            rhs[done],
            before,
            after,
            done,
        );
    }
}

/// Solve `U z = rhs` in place, where `U` is the upper triangle of the stored
/// pattern including its diagonal, sweeping from the last row up.
///
/// Returns [`LetoBackendError::SingularDiagonal`] for the first row, from
/// the bottom, whose stored pivot is zero.
pub fn back_substitute<B: KrylovBackend>(
    backend: &B,
    values: &[B::Scalar],
    col_indices: &[usize],
    row_ptr: &[usize],
    diagonal: &DiagonalIndex,
    vector: &mut [B::Scalar],
) -> (outcome: Result<(), LetoBackendError>)
    requires
        sweep_structure(values@.len(), col_indices@, row_ptr@, *diagonal, old(vector)@.len()),
        diagonal.complete(),
    ensures
        final(vector)@.len() == old(vector)@.len(),
        match outcome {
            Ok(()) => backward_solved(
                backend,
                values@,
                col_indices@,
                row_ptr@,
                *diagonal,
                old(vector)@,
                final(vector)@,
                0,
            ),
            Err(error) => match error {
                LetoBackendError::SingularDiagonal { index } => index < old(vector)@.len()
                    && pivot_vanishes(backend, values@, *diagonal, index as int)
                    && forall|later: int| index < later < old(vector)@.len() ==> !#[trigger] pivot_vanishes(
                        backend,
                        values@,
                        *diagonal,
                        later,
                    ),
                _ => false,
            },
        },
        outcome is Ok ==> forall|row: int| 0 <= row < old(vector)@.len() ==> !#[trigger] pivot_vanishes(
            backend,
            values@,
            *diagonal,
            row,
        ),
{
    let n = vector.len();
    let ghost entering = vector@;
    let mut row: usize = n;
    while row > 0
        invariant
            n == vector@.len(),
            n == entering.len(),
            entering == old(vector)@,
            row <= n,
            sweep_structure(values@.len(), col_indices@, row_ptr@, *diagonal, n as nat),
            diagonal.complete(),
            forall|earlier: int| 0 <= earlier < row ==> vector@[earlier] == entering[earlier],
            forall|later: int| row <= later < n ==> !#[trigger] pivot_vanishes(backend, values@, *diagonal, later),
            backward_solved(backend, values@, col_indices@, row_ptr@, *diagonal, entering, vector@, row as int),
        decreases row,
    {
        row = row - 1;
        let value = backward_row_value(backend, values, col_indices, row_ptr, diagonal, vector, row)?;
        proof {
            lemma_backward_step(
                backend,
                values@,
                col_indices@,
                row_ptr@,
                *diagonal,
                n as nat,
                entering,
                vector@,
                value,
                row as int,
            );
        }
        vector[row] = value;
    }
    Ok(())
}

/// A row storing no diagonal and nothing left of it is an identity row of
/// the forward sweep: its implied unit pivot leaves the right-hand side
/// unchanged, whatever the diagonal scale.
pub proof fn lemma_identity_row_passes_through<B: KrylovBackend>(
    backend: &B,
    values: Seq<B::Scalar>,
    col_indices: Seq<usize>,
    row_ptr: Seq<usize>,
    rhs_row: B::Scalar,
    solved: Seq<B::Scalar>,
    row: int,
    unit_diagonal: bool,
    diagonal_scale: B::Scalar,
)
    requires
        forall|entry: int| row_ptr[row] <= entry < row_ptr[row + 1] ==> col_indices[entry] >= row,
    ensures
        forward_row(
            backend,
            values,
            col_indices,
            row_ptr,
            None,
            rhs_row,
            solved,
            row,
            unit_diagonal,
            diagonal_scale,
        ) == rhs_row,
{
    lemma_upper_entries_subtract_nothing(
        backend,
        values,
        col_indices,
        rhs_row,
        solved,
        row,
        row_ptr[row] as int,
        row_ptr[row + 1] as int,
    );
}

/// Row `row` of the lower system `(D·s + L) y = rhs` solved for `y[row]`:
/// `rhs_row` less every stored entry of the row whose column lies left of
/// `row`, each times the solved value its column addresses, subtracted in
/// entry order; then divided by the stored pivot scaled by `diagonal_scale`,
/// unless the diagonal is a unit one or the row stores none.
pub open spec fn lower_system_row<B: KrylovBackend>(
    backend: &B,
    values: Seq<B::Scalar>,
    col_indices: Seq<usize>,
    row_ptr: Seq<usize>,
    position: Option<usize>,
    rhs_row: B::Scalar,
    solved: Seq<B::Scalar>,
    row: int,
    unit_diagonal: bool,
    diagonal_scale: B::Scalar,
) -> B::Scalar {
    let residual = lower_row_sum(
        backend,
        values,
        col_indices,
        rhs_row,
        solved,
        row,
        row_ptr[row] as int,
        row_ptr[row + 1] as int,
    );
    match position {
        Some(pivot) => if unit_diagonal {
            residual
        } else {
            backend.spec_div(residual, backend.spec_mul(values[pivot as int], diagonal_scale))
        },
        None => residual,
    }
}

/// A completed forward sweep solves every row of its lower system: each
/// entry of the result is its right-hand side less the whole strict lower
/// part of its row applied to the result, over the scaled pivot.
pub proof fn lemma_forward_sweep_solves_rows<B: KrylovBackend>(
    backend: &B,
    values: Seq<B::Scalar>,
    col_indices: Seq<usize>,
    row_ptr: Seq<usize>,
    diagonal: DiagonalIndex,
    n: nat,
    rhs: Seq<B::Scalar>,
    solved: Seq<B::Scalar>,
    unit_diagonal: bool,
    diagonal_scale: B::Scalar,
)
    requires
        sweep_structure(values.len(), col_indices, row_ptr, diagonal, n),
        forward_solved(
            backend,
            values,
            col_indices,
            row_ptr,
            diagonal,
            rhs,
            solved,
            n as int,
            unit_diagonal,
            diagonal_scale,
        ),
    ensures
        forall|row: int|
            0 <= row < n ==> #[trigger] solved[row] == lower_system_row(
                backend,
                values,
                col_indices,
                row_ptr,
                diagonal.spec_positions()[row],
                rhs[row],
                solved,
                row,
                unit_diagonal,
                diagonal_scale,
            ),
{
    assert forall|row: int| 0 <= row < n implies #[trigger] solved[row] == lower_system_row(
        backend,
        values,
        col_indices,
        row_ptr,
        diagonal.spec_positions()[row],
        rhs[row],
        solved,
        row,
        unit_diagonal,
        diagonal_scale,
    ) by {
        lemma_sweep_row(values.len(), col_indices, row_ptr, diagonal, n, row);
        assert(solved[row] == forward_row(
            backend,
            values,
            col_indices,
            row_ptr,
            diagonal.spec_positions()[row],
            rhs[row],
            solved,
            row,
            unit_diagonal,
            diagonal_scale,
        ));
        match diagonal.spec_positions()[row] {
            None => {},
            Some(pivot) => {
                lemma_lower_row_sum_splits_at_pivot(
                    backend,
                    values,
                    col_indices,
                    rhs[row],
                    solved,
                    row,
                    row_ptr[row] as int,
                    pivot as int,
                    row_ptr[row + 1] as int,
                );
            },
        }
    }
}

/// Along a strictly increasing row whose entry `pivot` stores column `row`,
/// the entries left of `row` are exactly those before `pivot`.
proof fn lemma_lower_row_sum_splits_at_pivot<B: KrylovBackend>(
    backend: &B,
    values: Seq<B::Scalar>,
    col_indices: Seq<usize>,
    start: B::Scalar,
    solved: Seq<B::Scalar>,
    row: int,
    from: int,
    pivot: int,
    to: int,
)
    requires
        from <= pivot < to,
        strictly_increasing(col_indices, from, to),
        col_indices[pivot] == row,
    ensures
        lower_row_sum(backend, values, col_indices, start, solved, row, from, to) == row_sum(
            backend,
            values,
            col_indices,
            start,
            solved,
            from,
            pivot,
        ),
    decreases to - from,
{
    if to - 1 > pivot {
        assert(col_indices[to - 1] > col_indices[pivot]);
        lemma_lower_row_sum_splits_at_pivot(
            backend,
            values,
            col_indices,
            start,
            solved,
            row,
            from,
            pivot,
            to - 1,
        );
    } else {
        assert forall|entry: int| from <= entry < pivot implies col_indices[entry] < row by {
            assert(col_indices[entry] < col_indices[pivot]);
        }
        lemma_lower_row_sum_before_pivot(backend, values, col_indices, start, solved, row, from, pivot);
    }
}

/// Entries whose columns all lie left of `row` are all subtracted.
proof fn lemma_lower_row_sum_before_pivot<B: KrylovBackend>(
    backend: &B,
    values: Seq<B::Scalar>,
    col_indices: Seq<usize>,
    start: B::Scalar,
    solved: Seq<B::Scalar>,
    row: int,
    from: int,
    to: int,
)
    requires
        forall|entry: int| from <= entry < to ==> col_indices[entry] < row,
    ensures
        lower_row_sum(backend, values, col_indices, start, solved, row, from, to) == row_sum(
            backend,
            values,
            col_indices,
            start,
            solved,
            from,
            to,
        ),
    decreases to - from,
{
    if to > from {
        lemma_lower_row_sum_before_pivot(backend, values, col_indices, start, solved, row, from, to - 1);
    }
}

/// [`row_sum`] restricted to the entries right of the diagonal of `row`.
pub open spec fn upper_row_sum<B: KrylovBackend>(
    backend: &B,
    values: Seq<B::Scalar>,
    col_indices: Seq<usize>,
    start: B::Scalar,
    solved: Seq<B::Scalar>,
    row: int,
    from: int,
    to: int,
) -> B::Scalar
    decreases to - from,
{
    if to <= from {
        start
    } else {
        let before = upper_row_sum(backend, values, col_indices, start, solved, row, from, to - 1);
        if col_indices[to - 1] > row {
            backend.spec_sub(before, backend.spec_mul(values[to - 1], solved[col_indices[to - 1] as int]))
        } else {
            before
        }
    }
}

/// Row `row` of the upper system `U z = rhs` solved for `z[row]`: `rhs_row`
/// less every stored entry of the row whose column lies right of `row`, each
/// times the solved value its column addresses, subtracted in entry order,
/// over the stored pivot at `pivot`.
pub open spec fn upper_system_row<B: KrylovBackend>(
    backend: &B,
    values: Seq<B::Scalar>,
    col_indices: Seq<usize>,
    row_ptr: Seq<usize>,
    pivot: usize,
    rhs_row: B::Scalar,
    solved: Seq<B::Scalar>,
    row: int,
) -> B::Scalar {
    backend.spec_div(
        upper_row_sum(
            backend,
            values,
            col_indices,
            rhs_row,
            solved,
            row,
            row_ptr[row] as int,
            row_ptr[row + 1] as int,
        ),
        values[pivot as int],
    )
}

/// A completed backward sweep solves every row of its upper system: each
/// entry of the result is its right-hand side less the whole strict upper
/// part of its row applied to the result, over the stored pivot.
pub proof fn lemma_backward_sweep_solves_rows<B: KrylovBackend>(
    backend: &B,
    values: Seq<B::Scalar>,
    col_indices: Seq<usize>,
    row_ptr: Seq<usize>,
    diagonal: DiagonalIndex,
    n: nat,
    rhs: Seq<B::Scalar>,
    solved: Seq<B::Scalar>,
)
    requires
        sweep_structure(values.len(), col_indices, row_ptr, diagonal, n),
        diagonal.complete(),
        solved.len() == n,
        backward_solved(backend, values, col_indices, row_ptr, diagonal, rhs, solved, 0),
    ensures
        forall|row: int|
            0 <= row < n ==> #[trigger] solved[row] == upper_system_row(
                backend,
                values,
                col_indices,
                row_ptr,
                diagonal.spec_positions()[row]->0,
                rhs[row],
                solved,
                row,
            ),
{
    assert forall|row: int| 0 <= row < n implies #[trigger] solved[row] == upper_system_row(
        backend,
        values,
        col_indices,
        row_ptr,
        diagonal.spec_positions()[row]->0,
        rhs[row],
        solved,
        row,
    ) by {
        lemma_sweep_row(values.len(), col_indices, row_ptr, diagonal, n, row);
        assert(diagonal.spec_positions()[row] is Some);
        let pivot = diagonal.spec_positions()[row]->0;
        assert(solved[row] == backward_row(
            backend,
            values,
            col_indices,
            row_ptr,
            pivot,
            rhs[row],
            solved,
            row,
        ));
        lemma_upper_row_sum_splits_at_pivot(
            backend,
            values,
            col_indices,
            rhs[row],
            solved,
            row,
            row_ptr[row] as int,
            pivot as int,
            row_ptr[row + 1] as int,
        );
    }
}

/// Along a strictly increasing row whose entry `pivot` stores column `row`,
/// the entries right of `row` are exactly those after `pivot`.
proof fn lemma_upper_row_sum_splits_at_pivot<B: KrylovBackend>(
    backend: &B,
    values: Seq<B::Scalar>,
    col_indices: Seq<usize>,
    start: B::Scalar,
    solved: Seq<B::Scalar>,
    row: int,
    from: int,
    pivot: int,
    to: int,
)
    requires
        from <= pivot < to,
        strictly_increasing(col_indices, from, to),
        col_indices[pivot] == row,
    ensures
        upper_row_sum(backend, values, col_indices, start, solved, row, from, to) == row_sum(
            backend,
            values,
            col_indices,
            start,
            solved,
            pivot + 1,
            to,
        ),
    decreases to - from,
{
    if to - 1 > pivot {
        assert(col_indices[to - 1] > col_indices[pivot]);
        lemma_upper_row_sum_splits_at_pivot(
            backend,
            values,
            col_indices,
            start,
            solved,
            row,
            from,
            pivot,
            to - 1,
        );
    } else {
        assert forall|entry: int| from <= entry < to implies col_indices[entry] <= row by {
            if entry < pivot {
                assert(col_indices[entry] < col_indices[pivot]);
            }
        }
        lemma_upper_row_sum_skips_lower(backend, values, col_indices, start, solved, row, from, to);
    }
}

/// Entries whose columns all lie at or left of `row` subtract nothing.
proof fn lemma_upper_row_sum_skips_lower<B: KrylovBackend>(
    backend: &B,
    values: Seq<B::Scalar>,
    col_indices: Seq<usize>,
    start: B::Scalar,
    solved: Seq<B::Scalar>,
    row: int,
    from: int,
    to: int,
)
    requires
        forall|entry: int| from <= entry < to ==> col_indices[entry] <= row,
    ensures
        upper_row_sum(backend, values, col_indices, start, solved, row, from, to) == start,
    decreases to - from,
{
    if to > from {
        lemma_upper_row_sum_skips_lower(backend, values, col_indices, start, solved, row, from, to - 1);
    }
}

proof fn lemma_upper_entries_subtract_nothing<B: KrylovBackend>(
    backend: &B,
    values: Seq<B::Scalar>,
    col_indices: Seq<usize>,
    start: B::Scalar,
    solved: Seq<B::Scalar>,
    row: int,
    from: int,
    to: int,
)
    requires
        forall|entry: int| from <= entry < to ==> col_indices[entry] >= row,
    ensures
        lower_row_sum(backend, values, col_indices, start, solved, row, from, to) == start,
    decreases to - from,
{
    if to > from {
        lemma_upper_entries_subtract_nothing(backend, values, col_indices, start, solved, row, from, to - 1);
    }
}

} // verus!
