use vstd::prelude::*;
use crate::binary64::Binary64;
use crate::error::EnsembleError;
use crate::matrix::{lemma_cell_in_range, Matrix, MatrixView};
use crate::rng::{draw_seeded_units, seeded_units};

verus! {

/// The hidden layer after activation: the rectifier applied to every entry
/// of the product of the inputs and the projection weights.
pub open spec fn activated(product: MatrixView) -> MatrixView {
    MatrixView {
        rows: product.rows,
        cols: product.cols,
        data: product.data.map_values(|entry: Binary64| entry.rectified()),
    }
}

/// Whether hidden units are dropped at all: the rate is greater than zero.
pub open spec fn dropout_applies(rate: Binary64) -> bool {
    Binary64::zero_spec().less(rate)
}

/// Which hidden units are dropped: those whose draw is below the rate. The
/// others are kept and scaled up by the caller.
pub open spec fn dropped(draws: Seq<Binary64>, rate: Binary64) -> Seq<bool> {
    draws.map_values(|draw: Binary64| draw.less(rate))
}

/// Which of `count` hidden units a round drops: one uniform number is drawn
/// for each unit from the stream of the round's seed, and the unit is dropped
/// where its draw is below the rate.
pub open spec fn round_mask(seed: u64, count: nat, rate: Binary64) -> Seq<bool> {
    dropped(seeded_units(seed, count), rate)
}

/// The number of columns that the estimator of a round sees.
pub open spec fn projected_cols(n_features: nat, n_hidden: nat, direct_link: bool) -> nat {
    if direct_link {
        n_features + n_hidden
    } else {
        n_hidden
    }
}

/// An entry of what the estimator of a round sees: with a direct link the
/// inputs come first in each row and the hidden layer after them; without
/// one the hidden layer stands alone.
pub open spec fn projected_entry(
    inputs: MatrixView,
    hidden: MatrixView,
    direct_link: bool,
    row: int,
    col: int,
) -> Binary64 {
    if !direct_link {
        hidden.at(row, col)
    } else if col < inputs.cols {
        inputs.at(row, col)
    } else {
        hidden.at(row, col - inputs.cols)
    }
}

/// What the estimator of a round sees: as many rows as the inputs, and in
/// each row the entries that [`projected_entry`] names.
pub open spec fn linked(inputs: MatrixView, hidden: MatrixView, direct_link: bool) -> MatrixView {
    let cols = projected_cols(inputs.cols, hidden.cols, direct_link);
    MatrixView {
        rows: inputs.rows,
        cols,
        data: Seq::new(
            inputs.rows * cols,
            |k: int| projected_entry(inputs, hidden, direct_link, k / cols as int, k % cols as int),
        ),
    }
}

/// The place of a cell among the entries of a matrix stored row by row.
pub open spec fn cell(width: int, row: int, col: int) -> int {
    row * width + col
}

/// Every entry of a matrix stored row by row is the cell of one row and one
/// column, which division by the width finds.
pub proof fn lemma_cell_split(k: int, rows: int, width: int)
    requires
        0 <= k < rows * width,
        0 <= rows,
        0 <= width,
    ensures
        0 <= k / width < rows,
        0 <= k % width < width,
        cell(width, k / width, k % width) == k,
{
    assert(width > 0) by (nonlinear_arith)
        requires
            0 <= k < rows * width,
            0 <= width,
    ;
    vstd::arithmetic::div_mod::lemma_fundamental_div_mod(k, width);
    vstd::arithmetic::div_mod::lemma_mod_bound(k, width);
    vstd::arithmetic::div_mod::lemma_div_pos_is_pos(k, width);
    assert(k < width * rows) by (nonlinear_arith)
        requires
            k < rows * width,
    ;
    vstd::arithmetic::div_mod::lemma_multiply_divide_lt(k, width, rows);
    assert((k / width) * width == width * (k / width)) by (nonlinear_arith);
}

/// The cell of a row and a column is found again by division by the width.
pub proof fn lemma_cell_found(width: int, row: int, col: int)
    requires
        0 <= row,
        0 <= col < width,
    ensures
        cell(width, row, col) / width == row,
        cell(width, row, col) % width == col,
{
    vstd::arithmetic::div_mod::lemma_fundamental_div_mod_converse(
        cell(width, row, col),
        width,
        row,
        col,
    );
}

/// The projection entry by entry: in row `row` and column `col` stands what
/// [`projected_entry`] names.
pub proof fn lemma_linked_entry(
    inputs: MatrixView,
    hidden: MatrixView,
    direct_link: bool,
    row: int,
    col: int,
)
    requires
        0 <= row < inputs.rows,
        0 <= col < projected_cols(inputs.cols, hidden.cols, direct_link),
    ensures
        linked(inputs, hidden, direct_link).at(row, col) == projected_entry(
            inputs,
            hidden,
            direct_link,
            row,
            col,
        ),
{
    let cols = projected_cols(inputs.cols, hidden.cols, direct_link) as int;
    lemma_cell_in_range(inputs.rows as int, cols, row, col);
    lemma_cell_found(cols, row, col);
}

/// The shape law of the projector: for inputs of `n` rows and `f` columns
/// and a product with the weights of `n` rows and `h` columns, the projection
/// has `n` rows and `h` columns, or `f + h` columns where the inputs are
/// linked, and holds exactly one entry for each cell of that shape.
pub proof fn lemma_projection_shape(inputs: MatrixView, product: MatrixView, direct_link: bool)
    ensures
        linked(inputs, activated(product), direct_link).rows == inputs.rows,
        linked(inputs, activated(product), direct_link).cols == if direct_link {
            inputs.cols + product.cols
        } else {
            product.cols
        },
        linked(inputs, activated(product), direct_link).wf(),
        activated(product).rows == product.rows,
        activated(product).cols == product.cols,
        product.wf() ==> activated(product).wf(),
{
}

/// Without a direct link the projection is the hidden layer itself.
pub proof fn lemma_linked_alone(inputs: MatrixView, hidden: MatrixView)
    requires
        hidden.wf(),
        inputs.rows == hidden.rows,
    ensures
        linked(inputs, hidden, false) == hidden,
{
    let projected = linked(inputs, hidden, false);
    assert(projected.data =~= hidden.data) by {
        assert forall|k: int| 0 <= k < hidden.data.len() implies projected.data[k]
            == hidden.data[k] by {
            lemma_cell_split(k, hidden.rows as int, hidden.cols as int);
        }
    }
}

/// Applies the rectifier to every entry of `product`.
pub fn activate(product: &Matrix) -> (hidden: Matrix)
    ensures
        hidden@ == activated(product@),
{
    let source = product.data();
    let mut data: Vec<Binary64> = Vec::with_capacity(source.len());
    let mut k: usize = 0;
    while k < source.len()
        invariant
            k <= source@.len(),
            data@ == source@.subrange(0, k as int).map_values(
                |entry: Binary64| entry.rectified(),
            ),
        decreases source@.len() - k,
    {
        data.push(source[k].relu());
        k += 1;
    }
    assert(source@.subrange(0, k as int) == source@);
    match Matrix::from_parts(product.rows(), product.cols(), data) {
        Some(hidden) => hidden,
        None => vstd::pervasive::unreached(),
    }
}

/// Decides whether hidden units are dropped at all.
pub fn dropout_active(rate: Binary64) -> (active: bool)
    ensures
        active == dropout_applies(rate),
{
    Binary64::zero().lt(&rate)
}

/// Decides, draw by draw, which hidden units are dropped.
pub fn dropout_mask(draws: &Vec<Binary64>, rate: Binary64) -> (mask: Vec<bool>)
    ensures
        mask@ == dropped(draws@, rate),
{
    let mut mask: Vec<bool> = Vec::with_capacity(draws.len());
    let mut k: usize = 0;
    while k < draws.len()
        invariant
            k <= draws@.len(),
            mask@ == draws@.subrange(0, k as int).map_values(|draw: Binary64| draw.less(rate)),
        decreases draws@.len() - k,
    {
        mask.push(draws[k].lt(&rate));
        k += 1;
    }
    mask
}

/// Decides which of `count` hidden units the round of seed `seed` drops.
pub fn round_dropout_mask(seed: u64, count: usize, rate: Binary64) -> (mask: Vec<bool>)
    ensures
        mask@ == round_mask(seed, count as nat, rate),
{
    let draws = draw_seeded_units(seed, count);
    dropout_mask(&draws, rate)
}

/// Builds what the estimator of a round sees from the inputs and the hidden
/// layer. The result has the rows of the inputs; its columns are those of the
/// hidden layer, after those of the inputs where there is a direct link. A
/// hidden layer with another number of rows than the inputs cannot be linked.
pub fn link(inputs: &Matrix, hidden: &Matrix, direct_link: bool) -> (projection: Result<
    Matrix,
    EnsembleError,
>)
    requires
        direct_link ==> inputs@.cols + hidden@.cols <= usize::MAX,
    ensures
        match projection {
            Ok(projected) => inputs@.rows == hidden@.rows && projected@ == linked(
                inputs@,
                hidden@,
                direct_link,
            ),
            Err(error) => inputs@.rows != hidden@.rows && error == (EnsembleError::ShapeMismatch {
                expected: inputs@.rows as usize,
                found: hidden@.rows as usize,
            }),
        },
{
    let rows: usize = inputs.rows();
    if hidden.rows() != rows {
        return Err(EnsembleError::ShapeMismatch { expected: rows, found: hidden.rows() });
    }
    if !direct_link {
        proof {
            lemma_linked_alone(inputs@, hidden@);
        }
        return Ok(hidden.clone());
    }
    let left: usize = inputs.cols();
    let right: usize = hidden.cols();
    let width: usize = left + right;
    let left_data = inputs.data();
    let right_data = hidden.data();
    let left_size: usize = left_data.len();
    let right_size: usize = right_data.len();
    let mut data: Vec<Binary64> = Vec::new();
    let mut row: usize = 0;
    while row < rows
        invariant
            row <= rows,
            rows == inputs@.rows,
            rows == hidden@.rows,
            left == inputs@.cols,
            right == hidden@.cols,
            width == left + right,
            inputs@.wf(),
            hidden@.wf(),
            left_data@ == inputs@.data,
            right_data@ == hidden@.data,
            left_size == left_data@.len(),
            right_size == right_data@.len(),
            data@.len() == row * width,
            forall|r: int, c: int|
                0 <= r < row && 0 <= c < width ==> 0 <= #[trigger] cell(width as int, r, c)
                    < data@.len() && data@[cell(width as int, r, c)] == projected_entry(
                    inputs@,
                    hidden@,
                    true,
                    r,
                    c,
                ),
        decreases rows - row,
    {
        let ghost done = data@;
        let mut col: usize = 0;
        while col < left
            invariant
                col <= left,
                row < rows,
                rows == inputs@.rows,
                left == inputs@.cols,
                width == left + right,
                inputs@.wf(),
                left_data@ == inputs@.data,
                left_size == left_data@.len(),
                done.len() == row * width,
                data@.len() == row * width + col,
                data@.subrange(0, done.len() as int) == done,
                forall|c: int|
                    0 <= c < col ==> data@[row * width + c] == inputs@.at(row as int, c),
            decreases left - col,
        {
            proof {
                lemma_cell_in_range(rows as int, left as int, row as int, col as int);
            }
            data.push(left_data[row * left + col]);
            col += 1;
        }
        let mut col: usize = 0;
        while col < right
            invariant
                col <= right,
                row < rows,
                rows == hidden@.rows,
                right == hidden@.cols,
                left == inputs@.cols,
                width == left + right,
                hidden@.wf(),
                right_data@ == hidden@.data,
                right_size == right_data@.len(),
                done.len() == row * width,
                data@.len() == row * width + left + col,
                data@.subrange(0, done.len() as int) == done,
                forall|c: int|
                    0 <= c < left ==> data@[row * width + c] == inputs@.at(row as int, c),
                forall|c: int|
                    0 <= c < col ==> data@[row * width + left + c] == hidden@.at(row as int, c),
            decreases right - col,
        {
            proof {
                lemma_cell_in_range(rows as int, right as int, row as int, col as int);
            }
            data.push(right_data[row * right + col]);
            col += 1;
        }
        proof {
            assert((row + 1) * width == row * width + width) by (nonlinear_arith);
            assert forall|r: int, c: int| 0 <= r < row + 1 && 0 <= c < width implies 0
                <= #[trigger] cell(width as int, r, c) < data@.len() && data@[cell(
                width as int,
                r,
                c,
            )] == projected_entry(inputs@, hidden@, true, r, c) by {
                lemma_cell_in_range(row as int + 1, width as int, r, c);
                if r < row {
                    lemma_cell_in_range(row as int, width as int, r, c);
                } else if c < left {
                    assert(cell(width as int, r, c) == row * width + c) by (nonlinear_arith)
                        requires
                            r == row,
                            cell(width as int, r, c) == r * width + c,
                    ;
                } else {
                    assert(cell(width as int, r, c) == row * width + left + (c - left))
                        by (nonlinear_arith)
                        requires
                            r == row,
                            cell(width as int, r, c) == r * width + c,
                    ;
                }
            }
        }
        row += 1;
    }
    match Matrix::from_parts(rows, width, data) {
        Some(projected) => {
            proof {
                let wanted = linked(inputs@, hidden@, true);
                assert(projected@.data =~= wanted.data) by {
                    assert forall|k: int| 0 <= k < data@.len() implies data@[k]
                        == wanted.data[k] by {
                        lemma_cell_split(k, rows as int, width as int);
                    }
                }
            }
            Ok(projected)
        },
        None => vstd::pervasive::unreached(),
    }
}

} // verus!
