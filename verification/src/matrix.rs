//! The byte matrix of `rusty_machine` as this library sees it.
//!
//! A matrix is opaque to the verifier. What it holds is named by three
//! uninterpreted functions, and the few methods the library calls are wrapped
//! with contracts over those names. The contracts are trusted, not proved.

use rusty_machine::linalg::BaseMatrix;
use rusty_machine::linalg::Matrix;
use vstd::prelude::*;

verus! {

/// Declares `rusty_machine::linalg::Matrix` so that it can stand in
/// signatures and fields; nothing inside a value is visible.
#[verifier::external_type_specification]
#[verifier::external_body]
#[verifier::reject_recursive_types(T)]
pub struct ExMatrix<T>(Matrix<T>);

/// Number of rows a byte matrix was made with.
pub uninterp spec fn matrix_rows(m: Matrix<u8>) -> nat;

/// Number of columns a byte matrix was made with.
pub uninterp spec fn matrix_cols(m: Matrix<u8>) -> nat;

/// The cells of a byte matrix in row-major order.
pub uninterp spec fn matrix_data(m: Matrix<u8>) -> Seq<u8>;

/// The matrix holds exactly `rows * cols` cells.
pub open spec fn matrix_wf(m: Matrix<u8>) -> bool {
    matrix_data(m).len() == matrix_rows(m) * matrix_cols(m)
}

/// `m` has the given shape and cells.
pub open spec fn matrix_is(m: Matrix<u8>, rows: int, cols: int, data: Seq<u8>) -> bool {
    &&& matrix_rows(m) == rows
    &&& matrix_cols(m) == cols
    &&& matrix_data(m) == data
}

/// Row-major `data` cut into `rows` rows of `cols` cells, first row first.
pub open spec fn split_rows(data: Seq<u8>, rows: nat, cols: nat) -> Seq<Seq<u8>> {
    Seq::new(rows, |i: int| data.subrange(i * cols, (i + 1) * cols))
}

/// The rows of a well-formed matrix, first row first.
pub open spec fn matrix_row_seq(m: Matrix<u8>) -> Seq<Seq<u8>> {
    split_rows(matrix_data(m), matrix_rows(m), matrix_cols(m))
}

/// Wraps `Matrix::new`, which stores the two dimensions and takes the
/// vector as its row-major cells. The outside function panics unless the
/// vector holds `rows * cols` cells, so callers must show that it does.
#[verifier::external_body]
pub(crate) fn matrix_new(rows: usize, cols: usize, data: Vec<u8>) -> (m: Matrix<u8>)
    requires
        rows * cols == data@.len(),
    ensures
        matrix_rows(m) == rows,
        matrix_cols(m) == cols,
        matrix_data(m) == data@,
{
    Matrix::new(rows, cols, data)
}

/// Wraps `Clone::clone` on a matrix, which copies the two dimensions and
/// clones the cells.
#[verifier::external_body]
pub(crate) fn matrix_clone(m: &Matrix<u8>) -> (copy: Matrix<u8>)
    ensures
        matrix_rows(copy) == matrix_rows(*m),
        matrix_cols(copy) == matrix_cols(*m),
        matrix_data(copy) == matrix_data(*m),
{
    m.clone()
}

/// Wraps `BaseMatrix::rows` on a matrix, which returns the row count it was
/// made with.
#[verifier::external_body]
pub(crate) fn matrix_row_count(m: &Matrix<u8>) -> (rows: usize)
    ensures
        rows == matrix_rows(*m),
{
    m.rows()
}

/// Wraps `BaseMatrix::cols` on a matrix, which returns the column count it
/// was made with.
#[verifier::external_body]
pub(crate) fn matrix_col_count(m: &Matrix<u8>) -> (cols: usize)
    ensures
        cols == matrix_cols(*m),
{
    m.cols()
}

/// Wraps `Matrix::data`, which lends out the row-major cells.
#[verifier::external_body]
pub(crate) fn matrix_cells(m: &Matrix<u8>) -> (cells: &Vec<u8>)
    ensures
        cells@ == matrix_data(*m),
{
    m.data()
}

} // verus!
