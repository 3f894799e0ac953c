//! Scoring: how many predicted label rows equal the true ones.
//!
//! A predicted cell is the byte it equals, or `None` when it equals no
//! byte. A predicted row is a hit when it is as wide as the true row and
//! every cell is the true byte; anything else is a miss, never an error.

use crate::matrix::matrix_cells;
use crate::matrix::matrix_col_count;
use crate::matrix::matrix_cols;
use crate::matrix::matrix_data;
use crate::matrix::matrix_row_count;
use crate::matrix::matrix_row_seq;
use crate::matrix::matrix_rows;
use crate::matrix::matrix_wf;
use rusty_machine::linalg::Matrix;
use vstd::prelude::*;

verus! {

/// Hits over the rows that were scored.
#[derive(Clone, Copy, Debug, PartialEq, Eq, Structural)]
pub struct Accuracy {
    pub hits: usize,
    pub total: usize,
}

impl Accuracy {
    /// Every row that was scored is a hit.
    pub open spec fn spec_is_perfect(self) -> bool {
        self.hits == self.total
    }

    /// Whether every row that was scored is a hit.
    pub fn is_perfect(&self) -> (perfect: bool)
        ensures
            perfect == self.spec_is_perfect(),
    {
        self.hits == self.total
    }
}

/// A true row with every byte as a predicted cell.
pub open spec fn as_predicted(truth: Seq<u8>) -> Seq<Option<u8>> {
    Seq::new(truth.len(), |j: int| Some(truth[j]))
}

/// The predicted row is the true row: as wide, and every cell the true
/// byte.
pub open spec fn row_matches(truth: Seq<u8>, predicted: Seq<Option<u8>>) -> bool {
    predicted == as_predicted(truth)
}

/// Row `i` is there on both sides and the two rows match.
pub open spec fn is_hit(truth: Seq<Seq<u8>>, predicted: Seq<Seq<Option<u8>>>, i: int) -> bool {
    &&& 0 <= i < truth.len()
    &&& i < predicted.len()
    &&& row_matches(truth[i], predicted[i])
}

/// Number of hits among the first `n` rows.
pub open spec fn hits_upto(truth: Seq<Seq<u8>>, predicted: Seq<Seq<Option<u8>>>, n: nat) -> nat
    decreases n,
{
    if n == 0 {
        0
    } else {
        hits_upto(truth, predicted, (n - 1) as nat) + if is_hit(truth, predicted, n - 1) {
            1nat
        } else {
            0nat
        }
    }
}

/// Number of hits among all true rows. Predicted rows past the last true
/// row count for nothing; true rows without a predicted row are misses.
pub open spec fn hits(truth: Seq<Seq<u8>>, predicted: Seq<Seq<Option<u8>>>) -> nat {
    hits_upto(truth, predicted, truth.len())
}

/// The rows of a prediction as sequences.
pub open spec fn predicted_rows(predicted: Seq<Vec<Option<u8>>>) -> Seq<Seq<Option<u8>>> {
    Seq::new(predicted.len(), |i: int| predicted[i]@)
}

/// Under the digit encoding a label row is one byte, and a predicted row
/// matches it exactly when it is one cell holding that byte.
pub proof fn lemma_digit_match_is_scalar_equality(truth: Seq<u8>, predicted: Seq<Option<u8>>)
    requires
        truth.len() == 1,
    ensures
        row_matches(truth, predicted) <==> predicted == seq![Some(truth[0])],
{
    assert(as_predicted(truth) =~= seq![Some(truth[0])]);
}

/// A predicted row matches a label row exactly when the two are as wide
/// and agree cell for cell.
pub proof fn lemma_match_is_cellwise(truth: Seq<u8>, predicted: Seq<Option<u8>>)
    ensures
        row_matches(truth, predicted) <==> {
            &&& predicted.len() == truth.len()
            &&& forall|j: int| 0 <= j < truth.len() ==> predicted[j] == Some(#[trigger] truth[j])
        },
{
    if predicted.len() == truth.len() && forall|j: int|
        0 <= j < truth.len() ==> predicted[j] == Some(#[trigger] truth[j]) {
        assert(predicted =~= as_predicted(truth));
    }
}

/// There are never more hits than rows looked at.
pub proof fn lemma_hits_bounded(truth: Seq<Seq<u8>>, predicted: Seq<Seq<Option<u8>>>, n: nat)
    ensures
        hits_upto(truth, predicted, n) <= n,
    decreases n,
{
    if n > 0 {
        lemma_hits_bounded(truth, predicted, (n - 1) as nat);
    }
}

/// Among the first `n` rows, all are hits exactly when the hit count is
/// `n`.
pub proof fn lemma_all_hits_upto(truth: Seq<Seq<u8>>, predicted: Seq<Seq<Option<u8>>>, n: nat)
    ensures
        hits_upto(truth, predicted, n) == n <==> forall|i: int|
            0 <= i < n ==> is_hit(truth, predicted, i),
    decreases n,
{
    if n > 0 {
        let before = (n - 1) as nat;
        lemma_all_hits_upto(truth, predicted, before);
        lemma_hits_bounded(truth, predicted, before);
        if hits_upto(truth, predicted, n) == n {
            assert(is_hit(truth, predicted, n - 1));
            assert(hits_upto(truth, predicted, before) == before);
        }
    }
}

/// A perfect predictor scores every row: the hit count equals the number
/// of true rows exactly when every true row has a predicted row equal to
/// it.
pub proof fn lemma_perfect_predictor(truth: Seq<Seq<u8>>, predicted: Seq<Seq<Option<u8>>>)
    ensures
        hits(truth, predicted) == truth.len() <==> forall|i: int|
            0 <= i < truth.len() ==> is_hit(truth, predicted, i),
{
    lemma_all_hits_upto(truth, predicted, truth.len());
}

/// A prediction that hands the true rows back unchanged is perfect.
pub proof fn lemma_echo_is_perfect(truth: Seq<Seq<u8>>)
    ensures
        hits(truth, Seq::new(truth.len(), |i: int| as_predicted(truth[i]))) == truth.len(),
{
    let echoed = Seq::new(truth.len(), |i: int| as_predicted(truth[i]));
    assert forall|i: int| 0 <= i < truth.len() implies is_hit(truth, echoed, i) by {
        assert(echoed[i] == as_predicted(truth[i]));
    }
    lemma_perfect_predictor(truth, echoed);
}

/// The row indices below `n` that are hits.
pub open spec fn hit_rows(truth: Seq<Seq<u8>>, predicted: Seq<Seq<Option<u8>>>, n: nat) -> Set<
    int,
> {
    Set::new(|i: int| 0 <= i < n && is_hit(truth, predicted, i))
}

/// The hit count among the first `n` rows is the number of row indices
/// below `n` that are hits.
pub proof fn lemma_hits_upto_counts(truth: Seq<Seq<u8>>, predicted: Seq<Seq<Option<u8>>>, n: nat)
    ensures
        hit_rows(truth, predicted, n).finite(),
        hit_rows(truth, predicted, n).len() == hits_upto(truth, predicted, n),
    decreases n,
{
    if n == 0 {
        assert(hit_rows(truth, predicted, n) =~= Set::<int>::empty());
    } else {
        let before = (n - 1) as nat;
        lemma_hits_upto_counts(truth, predicted, before);
        if is_hit(truth, predicted, n - 1) {
            assert(hit_rows(truth, predicted, n) =~= hit_rows(truth, predicted, before).insert(
                n - 1,
            ));
        } else {
            assert(hit_rows(truth, predicted, n) =~= hit_rows(truth, predicted, before));
        }
    }
}

/// The hit count is the number of rows that are hits.
pub proof fn lemma_hits_counts(truth: Seq<Seq<u8>>, predicted: Seq<Seq<Option<u8>>>)
    ensures
        Set::new(|i: int| is_hit(truth, predicted, i)).finite(),
        Set::new(|i: int| is_hit(truth, predicted, i)).len() == hits(truth, predicted),
{
    lemma_hits_upto_counts(truth, predicted, truth.len());
    assert(Set::new(|i: int| is_hit(truth, predicted, i)) =~= hit_rows(
        truth,
        predicted,
        truth.len(),
    ));
}

/// Whether row `row` of the row-major `cells`, `cols` wide, matches the
/// predicted row.
fn row_equals(cells: &Vec<u8>, row: usize, cols: usize, predicted: &Vec<Option<u8>>) -> (same:
    bool)
    requires
        (row + 1) * cols <= cells@.len(),
    ensures
        same == row_matches(cells@.subrange(row * cols, (row + 1) * cols), predicted@),
{
    let len: usize = cells.len();
    assert(row * cols + cols == (row + 1) * cols && 0 <= row * cols) by (nonlinear_arith);
    let ghost truth = cells@.subrange(row * cols, (row + 1) * cols);
    proof {
        lemma_match_is_cellwise(truth, predicted@);
    }
    if predicted.len() != cols {
        return false;
    }
    let base: usize = row * cols;
    let mut j: usize = 0;
    while j < cols
        invariant
            j <= cols,
            base == row * cols,
            base + cols == (row + 1) * cols,
            base + cols <= cells@.len() == len,
            predicted@.len() == cols,
            truth == cells@.subrange(row * cols, (row + 1) * cols),
            forall|k: int| 0 <= k < j ==> predicted@[k] == Some(#[trigger] truth[k]),
        decreases cols - j,
    {
        let same_cell = match predicted[j] {
            Some(value) => value == cells[base + j],
            None => false,
        };
        if !same_cell {
            return false;
        }
        j += 1;
    }
    true
}

/// Counts the rows of `predicted` that equal the row of `truth` at the same
/// position.
///
/// The count runs over the rows of `truth`: a row that `predicted` lacks,
/// or one of another width, or one with a cell that is no byte or another
/// byte, is a miss.
pub fn count_hits(truth: &Matrix<u8>, predicted: &Vec<Vec<Option<u8>>>) -> (count: usize)
    requires
        matrix_wf(*truth),
    ensures
        count == hits(matrix_row_seq(*truth), predicted_rows(predicted@)),
        count <= matrix_rows(*truth),
{
    let rows: usize = matrix_row_count(truth);
    let cols: usize = matrix_col_count(truth);
    let cells = matrix_cells(truth);
    let ghost truth_rows = matrix_row_seq(*truth);
    let ghost given = predicted_rows(predicted@);
    let mut count: usize = 0;
    let mut i: usize = 0;
    while i < rows
        invariant
            i <= rows,
            rows == matrix_rows(*truth),
            cols == matrix_cols(*truth),
            cells@ == matrix_data(*truth),
            cells@.len() == rows * cols,
            truth_rows == matrix_row_seq(*truth),
            given == predicted_rows(predicted@),
            count == hits_upto(truth_rows, given, i as nat),
            count <= i,
        decreases rows - i,
    {
        assert((i + 1) * cols <= rows * cols) by (nonlinear_arith)
            requires
                i < rows,
        ;
        let hit = i < predicted.len() && row_equals(cells, i, cols, &predicted[i]);
        if hit {
            count += 1;
        }
        i += 1;
    }
    count
}

} // verus!
