//! A dense matrix, held row after row.
//!
//! The model of a [`Matrix`] is the sequence of its rows, each a sequence of
//! `cols` entries. A matrix without rows still has a column count, so that
//! count is part of the model beside the rows.

use vstd::prelude::*;

verus! {

/// Row `r` of a matrix with `cols` columns whose entries `flat` holds row
/// after row.
pub open spec fn row_of<T>(flat: Seq<T>, r: int, cols: int) -> Seq<T> {
    flat.subrange(r * cols, r * cols + cols)
}

/// The `rows` rows of `cols` entries that `flat` holds one after another.
pub open spec fn rows_of<T>(flat: Seq<T>, rows: nat, cols: nat) -> Seq<Seq<T>> {
    Seq::new(rows, |r: int| row_of(flat, r, cols as int))
}

/// The rows of `m` that `picks` names, in the order of `picks`.
pub open spec fn selected<T>(m: Seq<Seq<T>>, picks: Seq<usize>) -> Seq<Seq<T>> {
    Seq::new(picks.len(), |k: int| m[picks[k] as int])
}

/// A matrix of `rows` by `cols` entries.
pub struct Matrix<T> {
    rows: usize,
    cols: usize,
    data: Vec<T>,
}

impl<T> View for Matrix<T> {
    type V = Seq<Seq<T>>;

    closed spec fn view(&self) -> Seq<Seq<T>> {
        rows_of(self.data@, self.rows as nat, self.cols as nat)
    }
}

proof fn lemma_row_bounds(r: int, rows: int, cols: int)
    requires
        0 <= r < rows,
        0 <= cols,
    ensures
        0 <= r * cols,
        r * cols + cols <= rows * cols,
{
    assert(0 <= r * cols) by (nonlinear_arith)
        requires
            0 <= r,
            0 <= cols,
    ;
    assert(r * cols + cols <= rows * cols) by (nonlinear_arith)
        requires
            r + 1 <= rows,
            0 <= cols,
    ;
}

impl<T> Matrix<T> {
    /// The entries fill the rows exactly.
    #[verifier::type_invariant]
    pub closed spec fn wf(self) -> bool {
        self.data@.len() == self.rows * self.cols
    }

    /// The number of columns.
    pub closed spec fn spec_cols(self) -> nat {
        self.cols as nat
    }

    /// This matrix is well formed, has the columns of `whole`, and its one
    /// row is row `r` of `whole`.
    pub open spec fn is_row_of(self, whole: Matrix<T>, r: int) -> bool {
        &&& self.wf()
        &&& self.spec_cols() == whole.spec_cols()
        &&& self@ == seq![whole@[r]]
    }

    /// Every row of a well-formed matrix has one entry per column.
    pub proof fn lemma_row_len(self, r: int)
        requires
            self.wf(),
            0 <= r < self@.len(),
        ensures
            self@[r].len() == self.spec_cols(),
    {
        lemma_row_bounds(r, self.rows as int, self.cols as int);
    }

    /// The matrix of `rows` by `cols` entries that `data` holds row after
    /// row.
    pub fn new(rows: usize, cols: usize, data: Vec<T>) -> (m: Matrix<T>)
        requires
            rows * cols == data@.len(),
        ensures
            m.wf(),
            m.spec_cols() == cols,
            m@ == rows_of(data@, rows as nat, cols as nat),
    {
        Matrix { rows, cols, data }
    }

    /// The number of rows.
    pub fn rows(&self) -> (n: usize)
        ensures
            n == self@.len(),
    {
        self.rows
    }

    /// The number of columns.
    pub fn cols(&self) -> (n: usize)
        ensures
            n == self.spec_cols(),
    {
        self.cols
    }

    /// The entries, row after row.
    pub fn data(&self) -> (d: &Vec<T>)
        ensures
            d@.len() == self@.len() * self.spec_cols(),
            self@ == rows_of(d@, self@.len(), self.spec_cols()),
    {
        proof {
            use_type_invariant(self);
        }
        &self.data
    }
}

impl<T: Copy> Matrix<T> {
    /// A new matrix made of the rows that `rows` names, in that order. A row
    /// may be named more than once.
    pub fn select_rows(&self, rows: &[usize]) -> (m: Matrix<T>)
        requires
            forall|k: int| 0 <= k < rows@.len() ==> #[trigger] rows@[k] < self@.len(),
        ensures
            m.wf(),
            m.spec_cols() == self.spec_cols(),
            m@ == selected(self@, rows@),
    {
        proof {
            use_type_invariant(self);
        }
        let cols: usize = self.cols;
        let len: usize = self.data.len();
        let mut out: Vec<T> = Vec::new();
        let mut k: usize = 0;
        while k < rows.len()
            invariant
                cols == self.cols,
                len == self.data@.len(),
                len == self.rows * self.cols,
                forall|j: int| 0 <= j < rows@.len() ==> #[trigger] rows@[j] < self.rows,
                k <= rows@.len(),
                out@.len() == k * cols,
                forall|j: int|
                    0 <= j < k ==> #[trigger] row_of(out@, j, cols as int) == row_of(
                        self.data@,
                        rows@[j] as int,
                        cols as int,
                    ),
            decreases rows@.len() - k,
        {
            let r: usize = rows[k];
            proof {
                lemma_row_bounds(r as int, self.rows as int, cols as int);
            }
            let base: usize = r * cols;
            let ghost before = out@;
            let mut c: usize = 0;
            while c < cols
                invariant
                    cols == self.cols,
                    base == r * cols,
                    len == self.data@.len(),
                    base + cols <= len,
                    c <= cols,
                    out@ == before + self.data@.subrange(base as int, base + c),
                decreases cols - c,
            {
                out.push(self.data[base + c]);
                c += 1;
            }
            proof {
                assert((k + 1) * cols == k * cols + cols) by (nonlinear_arith);
                assert(row_of(out@, k as int, cols as int) == row_of(self.data@, r as int, cols as int));
                assert forall|j: int| 0 <= j < k implies #[trigger] row_of(out@, j, cols as int)
                    == row_of(self.data@, rows@[j] as int, cols as int) by {
                    lemma_row_bounds(j, k as int, cols as int);
                    assert(row_of(out@, j, cols as int) == row_of(before, j, cols as int));
                }
            }
            k += 1;
        }
        let m = Matrix { rows: rows.len(), cols, data: out };
        proof {
            assert forall|j: int| 0 <= j < rows@.len() implies m@[j] == selected(self@, rows@)[j] by {
                assert(m@[j] == row_of(out@, j, cols as int));
            }
        }
        m
    }
}

} // verus!
