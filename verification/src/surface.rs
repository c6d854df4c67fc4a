//! The latency surface: trial results laid out as a two-dimensional grid,
//! rows indexed by chunk size and columns by delay. The grid itself is an
//! `ndarray` array held behind an opaque struct (Verus cannot declare
//! `ndarray::ArrayBase`, whose `RawData` bound it refuses); what the array
//! holds is stated through a handful of trusted wrappers and everything else
//! is proved against them.

use vstd::prelude::*;

verus! {

/// A finished latency grid: one cell per (chunk size, delay) trial, stored
/// row-major in an `ndarray` two-dimensional array.
#[verifier::external_body]
pub struct Surface {
    grid: ndarray::Array2<u64>,
}

/// The cells of the grid, row by row: cell (r, c) of a grid with
/// `surface_cols` columns is element `r * surface_cols + c`.
pub uninterp spec fn surface_cells(s: Surface) -> Seq<u64>;

/// The number of rows of the grid.
pub uninterp spec fn surface_rows(s: Surface) -> int;

/// The number of columns of the grid.
pub uninterp spec fn surface_cols(s: Surface) -> int;

impl Surface {
    /// Relies on ndarray::Array2::from_shape_vec: with shape (rows, cols) and
    /// a vector of exactly rows * cols elements it returns Ok, and lays the
    /// vector out in row-major order, so cell (r, c) is element r * cols + c.
    #[verifier::external_body]
    pub(crate) fn from_vec(rows: usize, cols: usize, cells: Vec<u64>) -> (s: Surface)
        requires
            rows * cols == cells@.len(),
        ensures
            surface_rows(s) == rows,
            surface_cols(s) == cols,
            surface_cells(s) == cells@,
    {
        Surface { grid: ndarray::Array2::from_shape_vec((rows, cols), cells).unwrap() }
    }

    /// Relies on ndarray's nrows and ncols: the lengths of axes 0 and 1.
    #[verifier::external_body]
    pub fn dims(&self) -> (d: (usize, usize))
        ensures
            d.0 == surface_rows(*self),
            d.1 == surface_cols(*self),
    {
        (self.grid.nrows(), self.grid.ncols())
    }

    /// Relies on ndarray's index operator: `a[[r, c]]` is the element at row
    /// r, column c, which in a row-major array is element r * ncols + c.
    #[verifier::external_body]
    pub fn get(&self, r: usize, c: usize) -> (v: u64)
        requires
            r < surface_rows(*self),
            c < surface_cols(*self),
        ensures
            v == surface_cells(*self)[r * surface_cols(*self) + c],
    {
        self.grid[[r, c]]
    }
}

} // verus!
