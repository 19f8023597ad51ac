//! The elevation grid: a rectangular raster of fixed-point elevations with a
//! nodata sentinel.  The input grid is read-only during a run; the output
//! grid starts filled with the sentinel and is written one row at a time.

use vstd::prelude::*;

verus! {

/// Largest accepted number of rows or columns of a grid.
pub const MAX_DIM: usize = 30_000;

/// Largest accepted magnitude of a stored elevation or of the nodata
/// sentinel (fixed-point); keeps the ray-march arithmetic in range.
pub const ELEV_MAX: i64 = 1_000_000_000_000;

/// A rectangular grid of fixed-point values, stored row-major.
pub struct Grid {
    pub rows: usize,
    pub columns: usize,
    pub nodata: i64,
    pub cells: Vec<i64>,
}

impl Grid {
    /// Structural well-formedness: non-empty, bounded dimensions, and a
    /// backing vector of exactly `rows * columns` cells.
    pub open spec fn wf(self) -> bool {
        &&& 1 <= self.rows <= MAX_DIM
        &&& 1 <= self.columns <= MAX_DIM
        &&& self.cells@.len() == self.rows * self.columns
    }

    /// Every stored value and the sentinel lie within `ELEV_MAX`; required
    /// of input grids so the obstacle test cannot overflow.
    pub open spec fn bounded(self) -> bool {
        &&& -ELEV_MAX <= self.nodata <= ELEV_MAX
        &&& forall|i: int|
            0 <= i < self.cells@.len() ==> -ELEV_MAX <= #[trigger] self.cells@[i] <= ELEV_MAX
    }

    /// The value stored at row `r`, column `c` (both in bounds).
    pub open spec fn cell(self, r: int, c: int) -> int {
        self.cells@[r * self.columns + c] as int
    }

    /// The value at `(r, c)`, or the nodata sentinel when `(r, c)` lies
    /// outside the grid.
    pub open spec fn cell_or_nodata(self, r: int, c: int) -> int {
        if 0 <= r < self.rows && 0 <= c < self.columns {
            self.cell(r, c)
        } else {
            self.nodata as int
        }
    }
}

/// A row-major flat index stays within the grid's backing vector.
pub proof fn lemma_flat_index(r: int, c: int, rows: int, columns: int)
    by (nonlinear_arith)
    requires
        0 <= r < rows,
        0 <= c < columns,
    ensures
        0 <= r * columns + c < rows * columns,
        r * columns + c <= (rows - 1) * columns + (columns - 1),
{
}

/// Distinct rows never share a flat index, whatever the columns.
pub proof fn lemma_flat_index_distinct_rows(r1: int, c1: int, r2: int, c2: int, columns: int)
    by (nonlinear_arith)
    requires
        0 <= c1 < columns,
        0 <= c2 < columns,
        r1 != r2,
        0 <= r1,
        0 <= r2,
    ensures
        r1 * columns + c1 != r2 * columns + c2,
{
}

impl Grid {
    /// A grid of the given dimensions with every cell set to `fill`.
    pub fn new_filled(rows: usize, columns: usize, nodata: i64, fill: i64) -> (g: Grid)
        requires
            1 <= rows <= MAX_DIM,
            1 <= columns <= MAX_DIM,
        ensures
            g.wf(),
            g.rows == rows,
            g.columns == columns,
            g.nodata == nodata,
            forall|r: int, c: int|
                0 <= r < rows && 0 <= c < columns ==> #[trigger] g.cell(r, c) == fill,
    {
        proof {
            crate::math::lemma_mul_le_nonneg(rows as int, columns as int, MAX_DIM as int, MAX_DIM as int);
        }
        let n: usize = rows * columns;
        let mut cells: Vec<i64> = Vec::new();
        while cells.len() < n
            invariant
                cells@.len() <= n,
                forall|i: int| 0 <= i < cells@.len() ==> #[trigger] cells@[i] == fill,
            decreases n - cells@.len(),
        {
            cells.push(fill);
        }
        let g = Grid { rows, columns, nodata, cells };
        proof {
            assert forall|r: int, c: int|
                0 <= r < rows && 0 <= c < columns implies #[trigger] g.cell(r, c) == fill by {
                lemma_flat_index(r, c, rows as int, columns as int);
            }
        }
        g
    }

    /// Read the cell at `(r, c)`, which must be inside the grid.
    pub fn get(&self, r: usize, c: usize) -> (z: i64)
        requires
            self.wf(),
            r < self.rows,
            c < self.columns,
        ensures
            z == self.cell(r as int, c as int),
            self.bounded() ==> -ELEV_MAX <= z <= ELEV_MAX,
    {
        proof {
            lemma_flat_index(r as int, c as int, self.rows as int, self.columns as int);
            crate::math::lemma_mul_le_nonneg(r as int, self.columns as int, MAX_DIM as int, MAX_DIM as int);
            assert(r * self.columns + c <= 900_030_000);
        }
        self.cells[r * self.columns + c]
    }

    /// Read the cell at `(r, c)`, yielding the nodata sentinel outside the
    /// grid, as the raster store does for out-of-range indices.
    pub fn get_or_nodata(&self, r: i64, c: i64) -> (z: i64)
        requires
            self.wf(),
        ensures
            z == self.cell_or_nodata(r as int, c as int),
            self.bounded() ==> -ELEV_MAX <= z <= ELEV_MAX,
    {
        if 0 <= r && r < self.rows as i64 && 0 <= c && c < self.columns as i64 {
            self.get(r as usize, c as usize)
        } else {
            self.nodata
        }
    }

    /// Overwrite one whole row; every other cell keeps its value.  The row
    /// buffer is consumed, as a row message's buffer is.
    pub fn set_row(&mut self, row: usize, data: Vec<i64>)
        requires
            old(self).wf(),
            row < old(self).rows,
            data@.len() == old(self).columns,
        ensures
            final(self).wf(),
            final(self).rows == old(self).rows,
            final(self).columns == old(self).columns,
            final(self).nodata == old(self).nodata,
            forall|c: int|
                0 <= c < old(self).columns ==> final(self).cell(row as int, c) == data@[c],
            forall|r: int, c: int|
                0 <= r < old(self).rows && 0 <= c < old(self).columns && r != row
                    ==> final(self).cell(r, c) == old(self).cell(r, c),
    {
        let columns = self.columns;
        proof {
            crate::math::lemma_mul_le_nonneg(row as int, columns as int, MAX_DIM as int, MAX_DIM as int);
            lemma_flat_index(row as int, columns as int - 1, self.rows as int, columns as int);
            assert(row * columns <= 900_000_000);
        }
        let base: usize = row * columns;
        let mut c: usize = 0;
        while c < columns
            invariant
                c <= columns,
                self.rows == old(self).rows,
                self.columns == old(self).columns,
                self.nodata == old(self).nodata,
                old(self).wf(),
                self.cells@.len() == old(self).cells@.len(),
                data@.len() == columns,
                columns == old(self).columns,
                row < old(self).rows,
                base == row * columns,
                base <= 900_000_000,
                base + columns <= self.cells@.len(),
                forall|i: int|
                    0 <= i < self.cells@.len() && !(base <= i < base + c)
                        ==> #[trigger] self.cells@[i] == old(self).cells@[i],
                forall|i: int| base <= i < base + c ==> #[trigger] self.cells@[i] == data@[i - base],
            decreases columns - c,
        {
            let idx: usize = base + c;
            self.cells[idx] = data[c];
            c = c + 1;
        }
        proof {
            assert forall|c2: int|
                0 <= c2 < old(self).columns implies final(self).cell(row as int, c2) == data@[c2] by {
                lemma_flat_index(row as int, c2, self.rows as int, columns as int);
            }
            assert forall|r: int, c2: int|
                0 <= r < old(self).rows && 0 <= c2 < old(self).columns && r != row
                    implies final(self).cell(r, c2) == old(self).cell(r, c2) by {
                lemma_flat_index(r, c2, self.rows as int, columns as int);
                lemma_flat_index_distinct_rows(r, c2, row as int, 0, columns as int);
                lemma_flat_index_distinct_rows(r, c2, row as int, columns as int - 1, columns as int);
                assert(!(base <= r * columns + c2 < base + columns)) by (nonlinear_arith)
                    requires
                        0 <= r,
                        0 <= c2 < columns,
                        r != row,
                        0 <= row,
                        base == row * columns,
                ;
            }
        }
    }
}

} // verus!
