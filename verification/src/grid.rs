//! Lattice matrices: a dense, rectangular table of `i32` coordinates held in
//! an `ndarray` array.
//!
//! The array itself is opaque to the verifier. What it holds is named by
//! `grid_rows` and `grid_width`; the private functions at the top of this
//! file are the only code that touches the array, and their contracts are
//! taken on trust from `ndarray`. Everything below them is proved.

use vstd::prelude::*;

verus! {

/// A matrix with `height()` rows of `width()` coordinates each.
#[verifier::external_body]
pub struct Grid {
    cells: ndarray::Array2<i32>,
}

/// The rows of a grid, top to bottom, each row left to right.
pub uninterp spec fn grid_rows(g: Grid) -> Seq<Seq<i32>>;

/// The number of columns of a grid. It is kept apart from `grid_rows`
/// because a grid without rows still has a width.
pub uninterp spec fn grid_width(g: Grid) -> nat;

/// Whether `ndarray` can hold a `rows` by `cols` array of `i32`: the product
/// of the non-zero axis lengths, and the byte size of the buffer, must not
/// exceed `isize::MAX`.
pub open spec fn shape_fits(rows: int, cols: int) -> bool {
    if rows == 0 || cols == 0 {
        rows <= isize::MAX && cols <= isize::MAX
    } else {
        4 * rows * cols <= isize::MAX
    }
}

/// The mathematical rows behind a vector of row vectors.
pub open spec fn rows_of(v: Seq<Vec<i32>>) -> Seq<Seq<i32>> {
    Seq::new(v.len(), |i: int| v[i]@)
}

/// `ndarray::Array2::zeros((rows, cols))`: a `rows` by `cols` array filled
/// with zero. The call panics when the shape does not fit, which the
/// precondition excludes.
#[verifier::external_body]
fn zeroed(rows: usize, cols: usize) -> (g: Grid)
    requires
        shape_fits(rows as int, cols as int),
    ensures
        grid_width(g) == cols,
        grid_rows(g) == Seq::new(rows as nat, |i: int| Seq::new(cols as nat, |j: int| 0i32)),
{
    Grid { cells: ndarray::Array2::zeros((rows, cols)) }
}

/// `IndexMut` of `ndarray::Array2` at `[[i, j]]`: overwrites one cell and
/// leaves every other cell and the shape alone. An index out of bounds
/// panics, which the precondition excludes.
#[verifier::external_body]
fn put(g: &mut Grid, i: usize, j: usize, v: i32)
    requires
        i < grid_rows(*old(g)).len(),
        j < grid_width(*old(g)),
    ensures
        grid_width(*final(g)) == grid_width(*old(g)),
        grid_rows(*final(g)) == grid_rows(*old(g)).update(
            i as int,
            grid_rows(*old(g))[i as int].update(j as int, v),
        ),
{
    g.cells[[i, j]] = v;
}

/// `ArrayBase::dim` of a two-dimensional array: the number of rows and the
/// number of columns. Every row has exactly that many columns.
#[verifier::external_body]
fn shape(g: &Grid) -> (d: (usize, usize))
    ensures
        d.0 == grid_rows(*g).len(),
        d.1 == grid_width(*g),
        forall|i: int| 0 <= i < d.0 ==> (#[trigger] grid_rows(*g)[i]).len() == d.1,
{
    g.cells.dim()
}

/// `ArrayBase::row(i)` copied out with `to_vec`: the coordinates of row `i`.
/// An index out of bounds panics, which the precondition excludes.
#[verifier::external_body]
fn row_at(g: &Grid, i: usize) -> (r: Vec<i32>)
    requires
        i < grid_rows(*g).len(),
    ensures
        r@ == grid_rows(*g)[i as int],
{
    g.cells.row(i).to_vec()
}

/// `Clone::clone` of `ndarray::Array2`: an array with the same shape and
/// the same cells.
#[verifier::external_body]
pub(crate) fn duplicate(g: &Grid) -> (r: Grid)
    ensures
        grid_rows(r) == grid_rows(*g),
        grid_width(r) == grid_width(*g),
{
    Grid { cells: g.cells.clone() }
}

/// `Array2::push_column`: appends `col` as a new last column. It succeeds
/// exactly when `col` has one entry per row; on failure the array is left as
/// it was. The precondition keeps the grown shape within what `ndarray` can
/// hold, so neither its size check nor the buffer growth can fail.
#[verifier::external_body]
pub(crate) fn append_column(g: &mut Grid, col: &Vec<i32>) -> (ok: bool)
    requires
        shape_fits(grid_rows(*old(g)).len() as int, grid_width(*old(g)) as int + 1),
        grid_width(*old(g)) < usize::MAX,
    ensures
        ok <==> col.len() == grid_rows(*old(g)).len(),
        ok ==> grid_width(*final(g)) == grid_width(*old(g)) + 1
            && grid_rows(*final(g)) == Seq::new(
            col.len() as nat,
            |i: int| grid_rows(*old(g))[i].push(col[i]),
        ),
        !ok ==> grid_width(*final(g)) == grid_width(*old(g)) && grid_rows(*final(g)) == grid_rows(
            *old(g),
        ),
{
    g.cells.push_column(ndarray::ArrayView1::from(col.as_slice())).is_ok()
}

/// Decides `shape_fits` at run time.
pub fn fits(rows: usize, cols: usize) -> (b: bool)
    ensures
        b == shape_fits(rows as int, cols as int),
{
    let limit: usize = isize::MAX as usize;
    if rows == 0 || cols == 0 {
        rows <= limit && cols <= limit
    } else {
        match rows.checked_mul(cols) {
            None => {
                assert(4 * rows * cols > isize::MAX) by (nonlinear_arith)
                    requires
                        rows * cols > usize::MAX,
                        usize::MAX >= isize::MAX,
                ;
                false
            },
            Some(p) => {
                assert(4 * rows * cols == 4 * p) by (nonlinear_arith)
                    requires
                        p == rows * cols,
                ;
                p <= limit / 4
            },
        }
    }
}

impl Grid {
    /// The rows of the grid.
    pub open spec fn rows(&self) -> Seq<Seq<i32>> {
        grid_rows(*self)
    }

    /// The number of columns.
    pub open spec fn width(&self) -> nat {
        grid_width(*self)
    }

    /// The number of rows.
    pub open spec fn height(&self) -> nat {
        grid_rows(*self).len()
    }

    /// Every row is as long as the grid is wide.
    pub open spec fn wf(&self) -> bool {
        forall|i: int| 0 <= i < self.rows().len() ==> (#[trigger] self.rows()[i]).len() == self.width()
    }

    /// Builds a grid of the given width from its rows.
    ///
    /// Returns `None` when some row has another length than `width`, or when
    /// the shape is larger than an array can be.
    pub fn from_rows(width: usize, rows: &Vec<Vec<i32>>) -> (r: Option<Grid>)
        ensures
            r is Some <==> (forall|i: int| 0 <= i < rows.len() ==> (#[trigger] rows[i]).len() == width)
                && shape_fits(rows.len() as int, width as int),
            r matches Some(g) ==> g.wf() && g.width() == width && g.rows() == rows_of(rows@),
    {
        let n = rows.len();
        let mut i: usize = 0;
        while i < n
            invariant
                i <= n,
                n == rows.len(),
                forall|l: int| 0 <= l < i ==> (#[trigger] rows[l]).len() == width,
            decreases n - i,
        {
            if rows[i].len() != width {
                return None;
            }
            i = i + 1;
        }
        if !fits(n, width) {
            return None;
        }
        let mut g = zeroed(n, width);
        let mut i: usize = 0;
        while i < n
            invariant
                i <= n,
                n == rows.len(),
                forall|l: int| 0 <= l < n ==> (#[trigger] rows[l]).len() == width,
                grid_width(g) == width,
                grid_rows(g).len() == n,
                forall|l: int| 0 <= l < i ==> (#[trigger] grid_rows(g)[l]) == rows[l]@,
                forall|l: int| i <= l < n ==> (#[trigger] grid_rows(g)[l]).len() == width,
            decreases n - i,
        {
            let mut j: usize = 0;
            while j < width
                invariant
                    i < n,
                    j <= width,
                    n == rows.len(),
                    rows[i as int].len() == width,
                    grid_width(g) == width,
                    grid_rows(g).len() == n,
                    forall|l: int| 0 <= l < i ==> (#[trigger] grid_rows(g)[l]) == rows[l]@,
                    forall|l: int| i <= l < n ==> (#[trigger] grid_rows(g)[l]).len() == width,
                    forall|c: int| 0 <= c < j ==> grid_rows(g)[i as int][c] == rows[i as int][c],
                decreases width - j,
            {
                put(&mut g, i, j, rows[i][j]);
                j = j + 1;
            }
            i = i + 1;
        }
        Some(g)
    }

    /// The number of rows and the number of columns.
    pub fn dims(&self) -> (d: (usize, usize))
        ensures
            d.0 == self.height(),
            d.1 == self.width(),
            self.wf(),
    {
        shape(self)
    }

    /// A copy of row `i`, or `None` when the grid has no such row.
    pub fn row(&self, i: usize) -> (r: Option<Vec<i32>>)
        ensures
            r is Some <==> i < self.height(),
            r matches Some(v) ==> v@ == self.rows()[i as int] && v.len() == self.width(),
    {
        let d = shape(self);
        if i < d.0 {
            Some(row_at(self, i))
        } else {
            None
        }
    }

    /// A copy of all rows, top to bottom.
    pub fn to_rows(&self) -> (r: Vec<Vec<i32>>)
        ensures
            rows_of(r@) == self.rows(),
    {
        let d = shape(self);
        let mut out: Vec<Vec<i32>> = Vec::new();
        let mut i: usize = 0;
        while i < d.0
            invariant
                i <= d.0,
                d.0 == grid_rows(*self).len(),
                out.len() == i,
                forall|l: int| 0 <= l < i ==> (#[trigger] out[l])@ == grid_rows(*self)[l],
            decreases d.0 - i,
        {
            out.push(row_at(self, i));
            i = i + 1;
        }
        out
    }
}

} // verus!
