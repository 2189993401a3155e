use vstd::prelude::*;
use crate::binary64::Binary64;

verus! {

/// A matrix as mathematics sees it: its shape and its entries, row by row.
pub struct MatrixView {
    pub rows: nat,
    pub cols: nat,
    pub data: Seq<Binary64>,
}

impl MatrixView {
    /// The entries fill the shape exactly.
    pub open spec fn wf(self) -> bool {
        self.data.len() == self.rows * self.cols
    }

    /// The entry in row `row` and column `col`.
    pub open spec fn at(self, row: int, col: int) -> Binary64 {
        self.data[row * self.cols + col]
    }

    /// The entries of row `row`, in order.
    pub open spec fn row(self, row: int) -> Seq<Binary64> {
        self.data.subrange(row * self.cols, (row + 1) * self.cols)
    }
}

/// A dense matrix of double-precision numbers, stored row by row.
#[derive(Debug)]
pub struct Matrix {
    rows: usize,
    cols: usize,
    data: Vec<Binary64>,
}

impl View for Matrix {
    type V = MatrixView;

    closed spec fn view(&self) -> MatrixView {
        MatrixView { rows: self.rows as nat, cols: self.cols as nat, data: self.data@ }
    }
}

impl Clone for Matrix {
    fn clone(&self) -> (copy: Matrix)
        ensures
            copy@ == self@,
    {
        proof {
            use_type_invariant(self);
        }
        let mut data: Vec<Binary64> = Vec::with_capacity(self.data.len());
        let mut k: usize = 0;
        while k < self.data.len()
            invariant
                k <= self.data@.len(),
                data@ == self.data@.subrange(0, k as int),
            decreases self.data@.len() - k,
        {
            data.push(self.data[k]);
            k += 1;
        }
        assert(data@ == self.data@);
        Matrix { rows: self.rows, cols: self.cols, data }
    }
}

impl Matrix {
    #[verifier::type_invariant]
    spec fn filled(self) -> bool {
        self.data@.len() == self.rows * self.cols && self.rows * self.cols <= usize::MAX
    }

    /// Builds a matrix from its shape and its entries, row by row. There is
    /// one exactly when the number of entries is `rows * cols`.
    pub fn from_parts(rows: usize, cols: usize, data: Vec<Binary64>) -> (built: Option<Matrix>)
        ensures
            built is Some <==> data@.len() == rows * cols,
            built is Some ==> built->Some_0@ == (MatrixView {
                rows: rows as nat,
                cols: cols as nat,
                data: data@,
            }),
    {
        let given: usize = data.len();
        match rows.checked_mul(cols) {
            Some(size) => {
                if given == size {
                    Some(Matrix { rows, cols, data })
                } else {
                    None
                }
            },
            None => None,
        }
    }

    /// The number of rows.
    pub fn rows(&self) -> (rows: usize)
        ensures
            rows == self@.rows,
            self@.wf(),
    {
        proof {
            use_type_invariant(self);
        }
        self.rows
    }

    /// The number of columns.
    pub fn cols(&self) -> (cols: usize)
        ensures
            cols == self@.cols,
            self@.wf(),
    {
        proof {
            use_type_invariant(self);
        }
        self.cols
    }

    /// The entries, row by row.
    pub fn data(&self) -> (data: &Vec<Binary64>)
        ensures
            data@ == self@.data,
            self@.wf(),
    {
        proof {
            use_type_invariant(self);
        }
        &self.data
    }

    /// The entries, row by row, leaving the matrix behind.
    pub fn into_data(self) -> (data: Vec<Binary64>)
        ensures
            data@ == self@.data,
            self@.wf(),
    {
        proof {
            use_type_invariant(&self);
        }
        self.data
    }

    /// The entries of row `row`, if the matrix has such a row.
    pub fn row(&self, row: usize) -> (entries: Option<Vec<Binary64>>)
        ensures
            entries is Some <==> row < self@.rows,
            entries is Some ==> entries->Some_0@ == self@.row(row as int),
    {
        proof {
            use_type_invariant(self);
        }
        if row >= self.rows {
            return None;
        }
        proof {
            lemma_row_in_range(self.rows as int, self.cols as int, row as int);
        }
        let start: usize = row * self.cols;
        let size: usize = self.data.len();
        let mut entries: Vec<Binary64> = Vec::with_capacity(self.cols);
        let mut col: usize = 0;
        while col < self.cols
            invariant
                col <= self.cols,
                size == self.data@.len(),
                row < self.rows,
                start == row * self.cols,
                start + self.cols == (row + 1) * self.cols,
                start + self.cols <= self.data@.len(),
                entries@ == self.data@.subrange(start as int, start + col),
            decreases self.cols - col,
        {
            entries.push(self.data[start + col]);
            col += 1;
        }
        Some(entries)
    }

    /// The entry in row `row` and column `col`, if the matrix has one there.
    pub fn get(&self, row: usize, col: usize) -> (entry: Option<Binary64>)
        ensures
            entry == if row < self@.rows && col < self@.cols {
                Some(self@.at(row as int, col as int))
            } else {
                None::<Binary64>
            },
    {
        proof {
            use_type_invariant(self);
        }
        if row < self.rows && col < self.cols {
            proof {
                lemma_cell_in_range(
                    self.rows as int,
                    self.cols as int,
                    row as int,
                    col as int,
                );
            }
            Some(self.data[row * self.cols + col])
        } else {
            None
        }
    }
}

/// A row of a `rows` by `cols` matrix lies within its `rows * cols` entries.
pub proof fn lemma_row_in_range(rows: int, cols: int, row: int)
    requires
        0 <= row < rows,
        0 <= cols,
    ensures
        0 <= row * cols,
        (row + 1) * cols == row * cols + cols,
        (row + 1) * cols <= rows * cols,
{
    assert(0 <= row * cols) by (nonlinear_arith)
        requires
            0 <= row,
            0 <= cols,
    ;
    assert((row + 1) * cols <= rows * cols) by (nonlinear_arith)
        requires
            row + 1 <= rows,
            0 <= cols,
    ;
    assert((row + 1) * cols == row * cols + cols) by (nonlinear_arith);
}

/// A cell of a `rows` by `cols` matrix lies within its `rows * cols` entries.
pub proof fn lemma_cell_in_range(rows: int, cols: int, row: int, col: int)
    requires
        0 <= row < rows,
        0 <= col < cols,
    ensures
        0 <= row * cols <= row * cols + col < rows * cols,
        (row + 1) * cols <= rows * cols,
{
    lemma_row_in_range(rows, cols, row);
}

} // verus!
