//! The mission area: a two-dimensional array of cells, held in an
//! `ndarray::Array2<u32>`.
//!
//! Nothing here looks inside the array. What the array holds is named by
//! [`grid_cells`] and [`grid_width`], and each call into `ndarray` is a small
//! function whose contract is stated over those two names and taken on trust.
//! Everything else in the crate is proved from those contracts.

use vstd::prelude::*;

verus! {

/// A rectangular grid of cells. A cell of `0` is empty; any other value marks
/// a point of interest.
///
/// The array is opaque to the verifier, which knows a grid only through
/// [`grid_cells`] and [`grid_width`].
#[verifier::external_body]
#[derive(Debug, PartialEq)]
pub struct Grid {
    cells: ndarray::Array2<u32>,
}

/// The rows of a grid, top to bottom, each row left to right.
pub uninterp spec fn grid_cells(grid: Grid) -> Seq<Seq<u32>>;

/// The length of axis 1 of a grid: the number of cells in each of its rows.
/// A grid without rows still has a width.
pub uninterp spec fn grid_width(grid: Grid) -> nat;

/// Every row of `cells` is `width` long.
pub open spec fn rectangular(cells: Seq<Seq<u32>>, width: nat) -> bool {
    forall|i: int| 0 <= i < cells.len() ==> (#[trigger] cells[i]).len() == width
}

/// `1` for an axis of length zero, the length otherwise.
pub open spec fn nonzero_len(len: int) -> int {
    if len == 0 { 1 } else { len }
}

/// A vector of `len` cells can be laid out as `rows` rows of `cols` cells:
/// the lengths agree, and the product of the axis lengths that are not zero
/// stays within `isize`.
pub open spec fn shape_fits(rows: int, cols: int, len: int) -> bool {
    &&& rows * cols == len
    &&& nonzero_len(rows) * nonzero_len(cols) <= isize::MAX
}

/// `flat` cut into `rows` consecutive rows of `cols` cells each.
pub open spec fn rows_of(flat: Seq<u32>, rows: int, cols: int) -> Seq<Seq<u32>> {
    Seq::new(rows as nat, |i: int| flat.subrange(i * cols, (i + 1) * cols))
}

/// The cells that remain when only the indices `start..end` of `axis` are
/// kept: whole rows for axis 0, a stretch of every row for axis 1.
pub open spec fn sliced_cells(cells: Seq<Seq<u32>>, axis: int, start: int, end: int) -> Seq<Seq<u32>> {
    if axis == 0 {
        cells.subrange(start, end)
    } else {
        Seq::new(cells.len(), |i: int| cells[i].subrange(start, end))
    }
}

/// The cells of a grid with their indices, row after row: item `k` is the
/// cell at row `k / width` and column `k % width`.
pub open spec fn row_major(cells: Seq<Seq<u32>>, width: nat) -> Seq<((usize, usize), u32)> {
    Seq::new(
        cells.len() * width,
        |k: int| (((k / width as int) as usize, (k % width as int) as usize), cells[k / width as int][k % width as int]),
    )
}

/// `Array2::from_shape_vec` with a shape of `(rows, cols)`, which lays the
/// vector out row by row. Trusted: it succeeds exactly when the shape fits
/// the vector, and the array then holds the vector's cells in that layout.
#[verifier::external_body]
fn array_from_shape_vec(rows: usize, cols: usize, cells: Vec<u32>) -> (grid: Option<Grid>)
    ensures
        grid is Some <==> shape_fits(rows as int, cols as int, cells@.len() as int),
        grid matches Some(g) ==> grid_width(g) == cols && grid_cells(g) == rows_of(
            cells@,
            rows as int,
            cols as int,
        ),
{
    match ndarray::Array2::from_shape_vec((rows, cols), cells) {
        Ok(cells) => Some(Grid { cells }),
        Err(_) => None,
    }
}

/// `ArrayBase::nrows`. Trusted: the length of axis 0 is the number of rows.
#[verifier::external_body]
fn array_nrows(grid: &Grid) -> (n: usize)
    ensures
        n == grid_cells(*grid).len(),
{
    grid.cells.nrows()
}

/// `ArrayBase::ncols`. Trusted: the length of axis 1 is the width, and every
/// row is that long.
#[verifier::external_body]
fn array_ncols(grid: &Grid) -> (n: usize)
    ensures
        n == grid_width(*grid),
        rectangular(grid_cells(*grid), n as nat),
{
    grid.cells.ncols()
}

/// `ArrayBase::slice_axis` over `start..end` with step 1, copied into an
/// array of its own by `to_owned`. Trusted: the copy holds the cells of the
/// slice, and the axis that was not sliced keeps its length.
#[verifier::external_body]
fn array_slice_axis(grid: &Grid, axis: usize, start: usize, end: usize) -> (part: Grid)
    requires
        axis < 2,
        start <= end,
        axis == 0 ==> end <= grid_cells(*grid).len(),
        axis == 1 ==> end <= grid_width(*grid),
    ensures
        grid_cells(part) == sliced_cells(grid_cells(*grid), axis as int, start as int, end as int),
        grid_width(part) == if axis == 0 { grid_width(*grid) } else { (end - start) as nat },
{
    let view = grid.cells.slice_axis(ndarray::Axis(axis), ndarray::Slice::from(start..end));
    Grid { cells: view.to_owned() }
}

/// `ArrayBase::indexed_iter`, each item copied out. Trusted: the iterator
/// visits the cells in logical order, the last index varying fastest.
#[verifier::external_body]
fn array_indexed_iter(grid: &Grid) -> (items: Vec<((usize, usize), u32)>)
    ensures
        items@ == row_major(grid_cells(*grid), grid_width(*grid)),
{
    grid.cells.indexed_iter().map(|(index, cell)| (index, *cell)).collect()
}

/// `Clone::clone` of the array. Trusted: the copy has the same cells and
/// the same width.
#[verifier::external_body]
fn array_clone(grid: &Grid) -> (copy: Grid)
    ensures
        grid_cells(copy) == grid_cells(*grid),
        grid_width(copy) == grid_width(*grid),
{
    Grid { cells: grid.cells.clone() }
}

impl Grid {
    /// The number of rows.
    pub open spec fn height(&self) -> nat {
        grid_cells(*self).len()
    }

    /// A grid of `rows` rows and `cols` columns over `cells`, taken row by
    /// row; `None` when the shape does not fit the vector.
    pub fn from_shape_vec(rows: usize, cols: usize, cells: Vec<u32>) -> (grid: Option<Grid>)
        ensures
            grid is Some <==> shape_fits(rows as int, cols as int, cells@.len() as int),
            grid matches Some(g) ==> {
                &&& grid_width(g) == cols
                &&& grid_cells(g) == rows_of(cells@, rows as int, cols as int)
                &&& g.height() == rows
                &&& rectangular(grid_cells(g), cols as nat)
            },
    {
        let grid = array_from_shape_vec(rows, cols, cells);
        proof {
            if grid is Some {
                assert forall|i: int| 0 <= i < rows implies (#[trigger] rows_of(
                    cells@,
                    rows as int,
                    cols as int,
                )[i]).len() == cols by {
                    lemma_row_bounds(i, rows as int, cols as int);
                }
            }
        }
        grid
    }

    /// The number of rows.
    pub fn nrows(&self) -> (n: usize)
        ensures
            n == self.height(),
    {
        array_nrows(self)
    }

    /// The number of columns; every row is that long.
    pub fn ncols(&self) -> (n: usize)
        ensures
            n == grid_width(*self),
            rectangular(grid_cells(*self), n as nat),
    {
        array_ncols(self)
    }

    /// A grid of its own that holds the indices `start..end` of `axis` and
    /// all of the other axis.
    pub fn slice_axis(&self, axis: usize, start: usize, end: usize) -> (part: Grid)
        requires
            axis < 2,
            start <= end,
            axis == 0 ==> end <= self.height(),
            axis == 1 ==> end <= grid_width(*self),
        ensures
            grid_cells(part) == sliced_cells(grid_cells(*self), axis as int, start as int, end as int),
            grid_width(part) == if axis == 0 { grid_width(*self) } else { (end - start) as nat },
    {
        array_slice_axis(self, axis, start, end)
    }

    /// Every cell with its row and column, row after row.
    pub fn indexed_cells(&self) -> (items: Vec<((usize, usize), u32)>)
        ensures
            items@ == row_major(grid_cells(*self), grid_width(*self)),
    {
        array_indexed_iter(self)
    }

    /// A copy of the grid.
    pub fn duplicate(&self) -> (copy: Grid)
        ensures
            grid_cells(copy) == grid_cells(*self),
            grid_width(copy) == grid_width(*self),
    {
        array_clone(self)
    }
}

/// Row `i` of `rows` rows of `cols` cells spans `cols` indices that lie
/// within the `rows * cols` cells.
pub proof fn lemma_row_bounds(i: int, rows: int, cols: int)
    requires
        0 <= i < rows,
        0 <= cols,
    ensures
        0 <= i * cols,
        (i + 1) * cols == i * cols + cols,
        (i + 1) * cols <= rows * cols,
{
    assert(0 <= i * cols) by (nonlinear_arith)
        requires
            0 <= i,
            0 <= cols,
    ;
    assert((i + 1) * cols == i * cols + cols) by (nonlinear_arith);
    assert((i + 1) * cols <= rows * cols) by (nonlinear_arith)
        requires
            i + 1 <= rows,
            0 <= cols,
    ;
}

} // verus!
