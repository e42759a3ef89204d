//! Trusted boundary around `simple_matrix::Matrix<bool>`.
//!
//! A matrix is modelled by `mat_cells`: the sequence of its rows, each row the
//! sequence of its cells. Everything the engine does with a matrix goes
//! through the four wrappers below; their contracts state what the crate's
//! `from_iter`, `get`, `set` and derived `Clone` do in those terms.

use vstd::prelude::*;
use simple_matrix::Matrix;

verus! {

#[verifier::external_type_specification]
#[verifier::external_body]
#[verifier::reject_recursive_types(T)]
pub struct ExMatrix<T>(Matrix<T>);

/// The contents of a matrix: one sequence per row, in row order.
pub uninterp spec fn mat_cells(m: Matrix<bool>) -> Seq<Seq<bool>>;

/// Relies on simple_matrix::Matrix::from_iter: it fills a rows x cols matrix
/// row by row from the iterator, and panics only on a zero dimension or a
/// short iterator.
#[verifier::external_body]
pub fn mat_from_vec(rows: usize, cols: usize, data: Vec<bool>) -> (m: Matrix<bool>)
    requires
        rows > 0,
        cols > 0,
        data@.len() == rows * cols,
    ensures
        mat_cells(m).len() == rows,
        forall|r: int| 0 <= r < rows ==> (#[trigger] mat_cells(m)[r]).len() == cols,
        forall|r: int, c: int|
            0 <= r < rows && 0 <= c < cols ==> #[trigger] mat_cells(m)[r][c] == data@[r * cols + c],
{
    Matrix::from_iter(rows, cols, data)
}

/// Relies on simple_matrix::Matrix::get: within the matrix's dimensions it
/// returns Some of the cell at (row, col).
#[verifier::external_body]
pub fn mat_get(m: &Matrix<bool>, row: usize, col: usize) -> (b: bool)
    requires
        row < mat_cells(*m).len(),
        col < mat_cells(*m)[row as int].len(),
    ensures
        b == mat_cells(*m)[row as int][col as int],
{
    *m.get(row, col).unwrap()
}

/// Relies on simple_matrix::Matrix::set: within the matrix's dimensions it
/// overwrites the cell at (row, col) and leaves every other cell alone.
#[verifier::external_body]
pub fn mat_set(m: &mut Matrix<bool>, row: usize, col: usize, value: bool)
    requires
        row < mat_cells(*old(m)).len(),
        col < mat_cells(*old(m))[row as int].len(),
    ensures
        mat_cells(*final(m)) == mat_cells(*old(m)).update(
            row as int,
            mat_cells(*old(m))[row as int].update(col as int, value),
        ),
{
    m.set(row, col, value);
}

/// Relies on the derived Clone of simple_matrix::Matrix: it copies the
/// dimensions and the cell data.
#[verifier::external_body]
pub fn mat_clone(m: &Matrix<bool>) -> (r: Matrix<bool>)
    ensures
        mat_cells(r) == mat_cells(*m),
{
    m.clone()
}

} // verus!
