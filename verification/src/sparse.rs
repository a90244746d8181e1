//! Canonical compressed-sparse-row structure and the diagonal index the
//! triangular preconditioners sweep with.
use vstd::prelude::*;

verus! {

/// Failure in a host-side sparse or preconditioner operation.
#[non_exhaustive]
#[derive(Clone, Copy, Debug, PartialEq, Eq, Structural)]
pub enum LetoBackendError {
    /// A vector view was not dense rank-one storage.
    NonContiguousVector,
    /// Operands had different logical lengths.
    LengthMismatch {
        /// First operand length.
        left: usize,
        /// Second operand length.
        right: usize,
    },
    /// A square operator was required.
    NonSquareOperator {
        /// Matrix row count.
        rows: usize,
        /// Matrix column count.
        columns: usize,
    },
    /// A diagonal or pivot entry required by a preconditioner was zero.
    SingularDiagonal {
        /// Index of the zero entry.
        index: usize,
    },
    /// A row carried no stored diagonal entry, so the sparsity pattern cannot
    /// support a triangular solve.
    MissingDiagonal {
        /// Row lacking a diagonal entry.
        row: usize,
    },
    /// A relaxation factor fell outside the convergent open interval `(0, 2)`.
    InvalidRelaxation,
    /// A vector block's total extent `count * len` does not fit in `usize`.
    BlockExtentOverflow {
        /// Requested vector count.
        count: usize,
        /// Requested vector length.
        len: usize,
    },
}

/// Row offsets never decrease.
pub open spec fn offsets_nondecreasing(row_ptr: Seq<usize>) -> bool {
    forall|i: int, j: int| 0 <= i <= j < row_ptr.len() ==> row_ptr[i] <= row_ptr[j]
}

/// Column indices increase strictly along `[start, end)`.
pub open spec fn strictly_increasing(col_indices: Seq<usize>, start: int, end: int) -> bool {
    forall|a: int, b: int| start <= a < b < end ==> col_indices[a] < col_indices[b]
}

/// The position in `[from, to)` storing column `column`, the last such when
/// several do, or `-1` when none does.
pub open spec fn entry_in_columns(col_indices: Seq<usize>, from: int, to: int, column: int) -> int
    decreases to - from,
{
    if to <= from {
        -1
    } else if col_indices[to - 1] == column {
        to - 1
    } else {
        entry_in_columns(col_indices, from, to - 1, column)
    }
}

/// The first position in `[from, to)` storing column `column`, or `-1` when
/// none does.
pub open spec fn first_entry_in_columns(col_indices: Seq<usize>, from: int, to: int, column: int) -> int
    decreases to - from,
{
    if to <= from {
        -1
    } else if col_indices[from] == column {
        from
    } else {
        first_entry_in_columns(col_indices, from + 1, to, column)
    }
}

/// What [`entry_in_columns`] finds stores the column, and a miss means no
/// entry of the range does.
pub proof fn lemma_entry_in_columns(col_indices: Seq<usize>, from: int, to: int, column: int)
    requires
        0 <= from,
    ensures
        entry_in_columns(col_indices, from, to, column) == -1 || (from <= entry_in_columns(
            col_indices,
            from,
            to,
            column,
        ) < to && col_indices[entry_in_columns(col_indices, from, to, column)] == column),
        entry_in_columns(col_indices, from, to, column) == -1 ==> forall|entry: int|
            from <= entry < to ==> col_indices[entry] != column,
    decreases to - from,
{
    if to > from {
        lemma_entry_in_columns(col_indices, from, to - 1, column);
    }
}

/// Along strictly increasing columns the entry storing a column is the one
/// [`entry_in_columns`] finds.
pub proof fn lemma_entry_in_columns_unique(col_indices: Seq<usize>, from: int, to: int, entry: int)
    requires
        strictly_increasing(col_indices, from, to),
        from <= entry < to,
    ensures
        entry_in_columns(col_indices, from, to, col_indices[entry] as int) == entry,
    decreases to - from,
{
    if entry < to - 1 {
        assert(col_indices[entry] < col_indices[to - 1]);
        lemma_entry_in_columns_unique(col_indices, from, to - 1, entry);
    }
}

/// Entries of `[middle, to)` that store another column leave the search over
/// `[from, to)` where the search over `[from, middle)` ends.
pub proof fn lemma_entry_in_columns_skip(
    col_indices: Seq<usize>,
    from: int,
    middle: int,
    to: int,
    column: int,
)
    requires
        from <= middle <= to,
        forall|entry: int| middle <= entry < to ==> col_indices[entry] != column,
    ensures
        entry_in_columns(col_indices, from, to, column) == entry_in_columns(col_indices, from, middle, column),
    decreases to - middle,
{
    if to > middle {
        lemma_entry_in_columns_skip(col_indices, from, middle, to - 1, column);
    }
}

/// The structure leto-ops' canonical CSR matrix guarantees: `rows + 1` row
/// offsets from `0` to `nnz` that never decrease, in-range column indices, and
/// strictly increasing columns within every row.
pub open spec fn csr_canonical(
    nnz: nat,
    col_indices: Seq<usize>,
    row_ptr: Seq<usize>,
    rows: nat,
    columns: nat,
) -> bool {
    &&& row_ptr.len() == rows + 1
    &&& col_indices.len() == nnz
    &&& row_ptr[0] == 0
    &&& row_ptr[rows as int] == nnz
    &&& offsets_nondecreasing(row_ptr)
    &&& forall|entry: int| 0 <= entry < nnz ==> col_indices[entry] < columns
    &&& forall|row: int|
        0 <= row < rows ==> strictly_increasing(
            col_indices,
            #[trigger] row_ptr[row] as int,
            row_ptr[row + 1] as int,
        )
}

/// A sparse matrix in canonical compressed-sparse-row form.
#[derive(Debug)]
pub struct CsrMatrix<T> {
    values: Vec<T>,
    col_indices: Vec<usize>,
    row_ptr: Vec<usize>,
    rows: usize,
    columns: usize,
}

/// A matrix's row offsets.
pub open spec fn row_ptr_of<T>(matrix: &CsrMatrix<T>) -> Seq<usize> {
    matrix.spec_row_ptr()
}

impl<T> CsrMatrix<T> {
    /// The stored structure is canonical.
    #[verifier::type_invariant]
    pub(crate) open spec fn canonical(self) -> bool {
        csr_canonical(
            self.spec_values().len(),
            self.spec_col_indices(),
            self.spec_row_ptr(),
            self.spec_rows() as nat,
            self.spec_columns() as nat,
        )
    }

    /// Stored values.
    pub closed spec fn spec_values(&self) -> Seq<T> {
        self.values@
    }

    /// Column index of each stored value.
    pub closed spec fn spec_col_indices(&self) -> Seq<usize> {
        self.col_indices@
    }

    /// Offset of each row's first stored value, followed by `nnz`.
    pub closed spec fn spec_row_ptr(&self) -> Seq<usize> {
        self.row_ptr@
    }

    /// Row count.
    pub closed spec fn spec_rows(&self) -> usize {
        self.rows
    }

    /// Column count.
    pub closed spec fn spec_columns(&self) -> usize {
        self.columns
    }

    /// Take ownership of CSR parts, returning `None` unless they are
    /// canonical.
    pub fn from_parts(
        values: Vec<T>,
        col_indices: Vec<usize>,
        row_ptr: Vec<usize>,
        rows: usize,
        columns: usize,
    ) -> (matrix: Option<Self>)
        ensures
            matrix is Some <==> csr_canonical(
                values.len() as nat,
                col_indices@,
                row_ptr@,
                rows as nat,
                columns as nat,
            ),
            matrix matches Some(m) ==> {
                &&& m.spec_values() == values@
                &&& m.spec_col_indices() == col_indices@
                &&& m.spec_row_ptr() == row_ptr@
                &&& m.spec_rows() == rows
                &&& m.spec_columns() == columns
            },
    {
        if !csr_parts_canonical(values.len(), &col_indices, &row_ptr, rows, columns) {
            return None;
        }
        Some(CsrMatrix { values, col_indices, row_ptr, rows, columns })
    }

    /// `(rows, columns)`.
    pub fn shape(&self) -> (shape: (usize, usize))
        ensures
            shape == (self.spec_rows(), self.spec_columns()),
    {
        (self.rows, self.columns)
    }

    /// Stored values.
    pub fn values(&self) -> (values: &[T])
        ensures
            values@ == self.spec_values(),
    {
        self.values.as_slice()
    }

    /// Column index of each stored value.
    pub fn col_indices(&self) -> (col_indices: &[usize])
        ensures
            col_indices@ == self.spec_col_indices(),
            col_indices@.len() == self.spec_values().len(),
    {
        proof {
            use_type_invariant(self);
        }
        self.col_indices.as_slice()
    }

    /// Row offsets: one more than the rows, each row's span ordered and
    /// within the stored values.
    pub fn row_ptr(&self) -> (row_ptr: &[usize])
        ensures
            row_ptr@ == self.spec_row_ptr(),
            row_ptr@.len() == self.spec_rows() + 1,
            forall|row: int|
                0 <= row < self.spec_rows() ==> #[trigger] row_ptr@[row] <= row_ptr@[row + 1] <= self.spec_values().len(),
    {
        proof {
            use_type_invariant(self);
            assert forall|row: int| 0 <= row < self.spec_rows() implies #[trigger] row_ptr_of(self)[row]
                <= row_ptr_of(self)[row + 1] <= self.spec_values().len() by {
                assert(self.spec_row_ptr()[row + 1] <= self.spec_row_ptr()[self.spec_rows() as int]);
            }
        }
        self.row_ptr.as_slice()
    }
}

impl<T: Copy> Clone for CsrMatrix<T> {
    /// A matrix with the same structure and values.
    fn clone(&self) -> (copy: Self)
        ensures
            copy.spec_values() == self.spec_values(),
            copy.spec_col_indices() == self.spec_col_indices(),
            copy.spec_row_ptr() == self.spec_row_ptr(),
            copy.spec_rows() == self.spec_rows(),
            copy.spec_columns() == self.spec_columns(),
    {
        proof {
            use_type_invariant(self);
        }
        CsrMatrix {
            values: vstd::slice::slice_to_vec(self.values.as_slice()),
            col_indices: vstd::slice::slice_to_vec(self.col_indices.as_slice()),
            row_ptr: vstd::slice::slice_to_vec(self.row_ptr.as_slice()),
            rows: self.rows,
            columns: self.columns,
        }
    }
}

proof fn lemma_adjacent_increasing(col_indices: Seq<usize>, start: int, end: int)
    requires
        0 <= start <= end <= col_indices.len(),
        forall|a: int| start <= a && a + 1 < end ==> #[trigger] col_indices[a] < col_indices[a + 1],
    ensures
        strictly_increasing(col_indices, start, end),
    decreases end - start,
{
    if end - start > 1 {
        lemma_adjacent_increasing(col_indices, start + 1, end);
        assert forall|a: int, b: int| start <= a < b < end implies col_indices[a] < col_indices[b] by {
            if a > start {
            } else if b > start + 1 {
                assert(col_indices[start] < col_indices[start + 1]);
            }
        }
    }
}

proof fn lemma_adjacent_nondecreasing(row_ptr: Seq<usize>, end: int)
    requires
        0 <= end <= row_ptr.len(),
        forall|a: int| 0 <= a && a + 1 < end ==> #[trigger] row_ptr[a] <= row_ptr[a + 1],
    ensures
        forall|i: int, j: int| 0 <= i <= j < end ==> row_ptr[i] <= row_ptr[j],
    decreases end,
{
    if end > 0 {
        lemma_adjacent_nondecreasing(row_ptr, end - 1);
        assert forall|i: int, j: int| 0 <= i <= j < end implies row_ptr[i] <= row_ptr[j] by {
            if j == end - 1 && i < j {
                assert(row_ptr[i] <= row_ptr[j - 1]);
            }
        }
    }
}

/// Whether CSR parts have canonical structure.
pub fn csr_parts_canonical(
    nnz: usize,
    col_indices: &Vec<usize>,
    row_ptr: &Vec<usize>,
    rows: usize,
    columns: usize,
) -> (canonical: bool)
    ensures
        canonical == csr_canonical(nnz as nat, col_indices@, row_ptr@, rows as nat, columns as nat),
{
    if row_ptr.len() == 0 || row_ptr.len() - 1 != rows {
        return false;
    }
    if col_indices.len() != nnz {
        return false;
    }
    if row_ptr[0] != 0 || row_ptr[rows] != nnz {
        return false;
    }
    let mut row: usize = 0;
    while row < rows
        invariant
            row_ptr.len() == rows + 1,
            row <= rows,
            forall|a: int| 0 <= a && a + 1 <= row ==> #[trigger] row_ptr[a] <= row_ptr[a + 1],
        decreases rows - row,
    {
        if row_ptr[row] > row_ptr[row + 1] {
            proof {
                assert(!offsets_nondecreasing(row_ptr@));
            }
            return false;
        }
        row = row + 1;
    }
    proof {
        lemma_adjacent_nondecreasing(row_ptr@, row_ptr.len() as int);
    }
    let mut entry: usize = 0;
    while entry < nnz
        invariant
            col_indices.len() == nnz,
            entry <= nnz,
            forall|checked: int| 0 <= checked < entry ==> col_indices[checked] < columns,
        decreases nnz - entry,
    {
        if col_indices[entry] >= columns {
            return false;
        }
        entry = entry + 1;
    }
    let mut row: usize = 0;
    while row < rows
        invariant
            row_ptr.len() == rows + 1,
            col_indices.len() == nnz,
            row_ptr[rows as int] == nnz,
            offsets_nondecreasing(row_ptr@),
            row <= rows,
            forall|done: int|
                0 <= done < row ==> strictly_increasing(
                    col_indices@,
                    #[trigger] row_ptr@[done] as int,
                    row_ptr@[done + 1] as int,
                ),
        decreases rows - row,
    {
        let start = row_ptr[row];
        let end = row_ptr[row + 1];
        assert(row_ptr[row + 1] <= row_ptr[rows as int]);
        let mut position: usize = start;
        while position < end && position + 1 < end
            invariant
                row < rows,
                row_ptr.len() == rows + 1,
                start == row_ptr@[row as int],
                end == row_ptr@[row + 1],
                start <= position,
                start <= end <= nnz,
                col_indices.len() == nnz,
                position < end || position == start,
                forall|a: int| start <= a && a + 1 <= position ==> #[trigger] col_indices[a] < col_indices[a + 1],
            decreases end - position,
        {
            if col_indices[position] >= col_indices[position + 1] {
                proof {
                    assert(row_ptr@[row as int] == start);
                    assert(!strictly_increasing(col_indices@, start as int, end as int));
                }
                return false;
            }
            position = position + 1;
        }
        proof {
            lemma_adjacent_increasing(col_indices@, start as int, end as int);
        }
        row = row + 1;
    }
    true
}

} // verus!
