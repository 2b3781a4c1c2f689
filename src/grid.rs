//! Storage of the spins: an `ndarray` two-dimensional array of `i32`.
//!
//! Verus cannot take `ndarray::ArrayBase` as a declared type (its bound on
//! `RawData`), so the array is held in an opaque struct and every access goes
//! through one of the functions below.

use ndarray::Array2;
use vstd::prelude::*;

verus! {

/// A two-dimensional array of spins, indexed by `[i, j]` with `i` below the
/// width and `j` below the height.
#[verifier::external_body]
pub struct SpinGrid {
    array: Array2<i32>,
}

/// The cells of a grid in row-major order: cell `[i, j]` stands at
/// `i * height + j`.
pub uninterp spec fn grid_cells(g: SpinGrid) -> Seq<i32>;

/// The shape `(width, height)` of a grid.
pub uninterp spec fn grid_dim(g: SpinGrid) -> (usize, usize);

impl View for SpinGrid {
    type V = Seq<i32>;

    open spec fn view(&self) -> Seq<i32> {
        grid_cells(*self)
    }
}

/// Relies on `Array::from_shape_vec`: with a shape whose cell count is the
/// length of the vector (and fits in `isize`), it succeeds and lays the
/// vector out in row-major order.
#[verifier::external_body]
pub(crate) fn grid_from_cells(width: usize, height: usize, cells: Vec<i32>) -> (r: SpinGrid)
    requires
        cells@.len() == width * height,
        width * height <= isize::MAX,
    ensures
        grid_cells(r) == cells@,
        grid_dim(r) == (width, height),
{
    SpinGrid { array: Array2::from_shape_vec((width, height), cells).unwrap() }
}

/// Relies on `Index<[usize; 2]>` of `ArrayBase`: the element at `[i, j]`,
/// which panics only out of bounds.
#[verifier::external_body]
pub(crate) fn grid_get(g: &SpinGrid, i: usize, j: usize) -> (r: i32)
    requires
        i < grid_dim(*g).0,
        j < grid_dim(*g).1,
        grid_cells(*g).len() == grid_dim(*g).0 * grid_dim(*g).1,
    ensures
        r == grid_cells(*g)[i * grid_dim(*g).1 + j],
{
    g.array[[i, j]]
}

/// Relies on `IndexMut<[usize; 2]>` of `ArrayBase`: stores a value at
/// `[i, j]` and leaves the shape and every other element alone.
#[verifier::external_body]
pub(crate) fn grid_set(g: &mut SpinGrid, i: usize, j: usize, v: i32)
    requires
        i < grid_dim(*old(g)).0,
        j < grid_dim(*old(g)).1,
        grid_cells(*old(g)).len() == grid_dim(*old(g)).0 * grid_dim(*old(g)).1,
    ensures
        grid_dim(*final(g)) == grid_dim(*old(g)),
        grid_cells(*final(g)) == grid_cells(*old(g)).update(
            i * grid_dim(*old(g)).1 + j,
            v,
        ),
{
    g.array[[i, j]] = v;
}

} // verus!
