//! The ray-march kernel: from a source cell, walk outward along the azimuth,
//! sampling the elevation surface at successive vertical and horizontal
//! grid-line crossings, and report the distance to the first obstacle, or a
//! negative sentinel when the ray leaves the grid unobstructed.

use vstd::prelude::*;
use crate::grid::Grid;
use crate::math::{SCALE, sqrt_floor, is_sqrt};

verus! {

/// Largest accepted magnitude of the fixed-point line slope
/// (every sanitized azimuth's slope is far below this).
pub const SLOPE_MAX: i64 = 1_000_000;

/// Largest accepted fixed-point cell size.
pub const CELL_SIZE_MAX: u64 = 1_000_000_000;

/// Largest accepted fixed-point height increment.
pub const HEIGHT_INC_MAX: u64 = 1_000_000_000;

/// Largest fixed-point distance any walk can report, given the bounds above.
pub const DIST_MAX: u64 = 43_000_000_000_000;

/// The geometry a run is set up with: the ray's slope in row/column space,
/// the diagonal it travels, the planar cell size, and the obstacle
/// threshold's growth rate.  All fixed-point.
#[derive(Clone, Copy)]
pub struct RayParams {
    pub line_slope: i64,
    pub x_step: i64,
    pub y_step: i64,
    pub cell_size: u64,
    pub height_increment: u64,
}

impl RayParams {
    /// Parameter sanity: unit steps and magnitudes the arithmetic admits.
    pub open spec fn wf(self) -> bool {
        &&& -SLOPE_MAX <= self.line_slope <= SLOPE_MAX
        &&& (self.x_step == 1 || self.x_step == -1)
        &&& (self.y_step == 1 || self.y_step == -1)
        &&& self.cell_size <= CELL_SIZE_MAX
        &&& self.height_increment <= HEIGHT_INC_MAX
    }
}

/// Column reached by the vertical-crossing walk after `k` steps.
pub open spec fn vert_x(col: int, p: RayParams, k: int) -> int {
    col + k * p.x_step
}

/// Fixed-point row coordinate of the ray at that column (the line through
/// `(col, row)` with slope `-line_slope` in row/column space).
pub open spec fn vert_y(row: int, p: RayParams, k: int) -> int {
    row * SCALE - p.line_slope * (k * p.x_step)
}

/// The vertical walk's `k`-th crossing has a column inside the grid.
pub open spec fn vert_x_in(g: Grid, col: int, p: RayParams, k: int) -> bool {
    0 <= vert_x(col, p, k) < g.columns
}

/// The vertical walk's `k`-th crossing has a row coordinate inside the grid.
pub open spec fn vert_y_in(g: Grid, row: int, p: RayParams, k: int) -> bool {
    0 <= vert_y(row, p, k) < g.rows * SCALE
}

/// Fixed-point Euclidean distance from the source to the vertical walk's
/// `k`-th crossing, in the planar cell-size metric.
pub open spec fn vert_dist(p: RayParams, k: int) -> int {
    let dxm = k * p.cell_size;
    let dym = vstd::math::abs(p.line_slope as int) * k * p.cell_size / (SCALE as int);
    sqrt_floor(dxm * dxm + dym * dym)
}

/// Interpolated elevation at the vertical walk's `k`-th crossing, scaled by
/// one extra `SCALE`: a linear estimate between the two integer-row cells
/// bracketing the crossing's row coordinate, at the crossing's column.
pub open spec fn vert_z_num(g: Grid, row: int, col: int, p: RayParams, k: int) -> int {
    let x = vert_x(col, p, k);
    let y = vert_y(row, p, k);
    let y1 = y / (SCALE as int);
    let fr = y - y1 * SCALE;
    let z1 = g.cell_or_nodata(y1, x);
    let z2 = g.cell_or_nodata(y1 - p.y_step, x);
    z1 * SCALE + fr * (z2 - z1)
}

/// The obstacle test at the vertical walk's `k`-th crossing: the interpolated
/// elevation reaches the source elevation plus the distance-scaled threshold.
pub open spec fn vert_hit(g: Grid, row: int, col: int, p: RayParams, k: int) -> bool {
    vert_z_num(g, row, col, p, k)
        >= g.cell(row, col) * SCALE + vert_dist(p, k) * p.height_increment
}

/// The vertical-crossing walk from step `k` on, with `last` the distance of
/// the most recent in-grid crossing.  Yields `(true, obstacle distance)` at
/// the first crossing passing the obstacle test, or `(false, last distance)`
/// when the ray leaves the grid first.
pub open spec fn vert_walk(g: Grid, row: int, col: int, p: RayParams, k: int, last: int) -> (bool, int)
    decreases g.columns + vstd::math::abs(col) - k,
{
    if p.x_step != 1 && p.x_step != -1 {
        (false, last)
    } else if !vert_x_in(g, col, p, k) || !vert_y_in(g, row, p, k) {
        (false, last)
    } else if vert_hit(g, row, col, p, k) {
        (true, vert_dist(p, k))
    } else {
        vert_walk(g, row, col, p, k + 1, vert_dist(p, k))
    }
}

/// Row reached by the horizontal-crossing walk after `k` steps.
pub open spec fn horiz_rc(row: int, p: RayParams, k: int) -> int {
    row - k * p.y_step
}

/// Magnitude of the column offset of the ray at that row (fixed-point).
pub open spec fn horiz_off(p: RayParams, k: int) -> int {
    k * SCALE * SCALE / (vstd::math::abs(p.line_slope as int) as int)
}

/// Direction of the column offset: the walk moves with the slope's sign.
pub open spec fn horiz_sign(p: RayParams) -> int {
    if (p.y_step == 1) == (p.line_slope > 0) {
        1
    } else {
        -1
    }
}

/// Fixed-point column coordinate of the ray at the horizontal walk's `k`-th
/// crossing (the line equation solved for the column).
pub open spec fn horiz_x(col: int, p: RayParams, k: int) -> int {
    col * SCALE + horiz_sign(p) * horiz_off(p, k)
}

/// The horizontal walk's `k`-th crossing has a row inside the grid.
pub open spec fn horiz_rc_in(g: Grid, row: int, p: RayParams, k: int) -> bool {
    0 <= horiz_rc(row, p, k) < g.rows
}

/// The horizontal walk's `k`-th crossing has a column coordinate inside the grid.
pub open spec fn horiz_x_in(g: Grid, col: int, p: RayParams, k: int) -> bool {
    0 <= horiz_x(col, p, k) < g.columns * SCALE
}

/// The second cell bracketing the crossing's column is inside the grid
/// (the walk stops at the boundary otherwise).
pub open spec fn horiz_x2_in(g: Grid, col: int, p: RayParams, k: int) -> bool {
    let x1 = horiz_x(col, p, k) / (SCALE as int);
    0 <= x1 + p.x_step < g.columns
}

/// Fixed-point Euclidean distance from the source to the horizontal walk's
/// `k`-th crossing.
pub open spec fn horiz_dist(p: RayParams, k: int) -> int {
    let dym = k * p.cell_size;
    let dxm = horiz_off(p, k) * p.cell_size / (SCALE as int);
    sqrt_floor(dxm * dxm + dym * dym)
}

/// Interpolated elevation at the horizontal walk's `k`-th crossing, scaled by
/// one extra `SCALE`: a linear estimate between the two integer-column cells
/// bracketing the crossing's column coordinate, at the crossing's row.
pub open spec fn horiz_z_num(g: Grid, row: int, col: int, p: RayParams, k: int) -> int {
    let rc = horiz_rc(row, p, k);
    let x = horiz_x(col, p, k);
    let x1 = x / (SCALE as int);
    let fr = x - x1 * SCALE;
    let z1 = g.cell_or_nodata(rc, x1);
    let z2 = g.cell_or_nodata(rc, x1 + p.x_step);
    z1 * SCALE + fr * (z2 - z1)
}

/// The obstacle test at the horizontal walk's `k`-th crossing.
pub open spec fn horiz_hit(g: Grid, row: int, col: int, p: RayParams, k: int) -> bool {
    horiz_z_num(g, row, col, p, k)
        >= g.cell(row, col) * SCALE + horiz_dist(p, k) * p.height_increment
}

/// The horizontal-crossing walk from step `k` on.  A zero slope means the
/// ray never crosses a horizontal grid line, so that walk finds nothing.
pub open spec fn horiz_walk(g: Grid, row: int, col: int, p: RayParams, k: int, last: int) -> (bool, int)
    decreases g.rows + vstd::math::abs(row) - k,
{
    if p.line_slope == 0 || (p.y_step != 1 && p.y_step != -1) {
        (false, last)
    } else if !horiz_rc_in(g, row, p, k) || !horiz_x_in(g, col, p, k) {
        (false, last)
    } else if !horiz_x2_in(g, col, p, k) {
        (false, horiz_dist(p, k))
    } else if horiz_hit(g, row, col, p, k) {
        (true, horiz_dist(p, k))
    } else {
        horiz_walk(g, row, col, p, k + 1, horiz_dist(p, k))
    }
}

/// An obstacle was found for this source cell by at least one walk.
pub open spec fn fetch_found(g: Grid, row: int, col: int, p: RayParams) -> bool {
    vert_walk(g, row, col, p, 1, 0).0 || horiz_walk(g, row, col, p, 1, 0).0
}

/// The fetch distance of a source cell: the nearer of the two walks'
/// obstacle distances when both find one; the one found otherwise; and the
/// negative of the farther of the two walks' last in-grid distances when
/// neither finds an obstacle.
pub open spec fn fetch_spec(g: Grid, row: int, col: int, p: RayParams) -> int {
    let v = vert_walk(g, row, col, p, 1, 0);
    let h = horiz_walk(g, row, col, p, 1, 0);
    if v.0 && h.0 {
        vstd::math::min(v.1, h.1)
    } else if v.0 {
        v.1
    } else if h.0 {
        h.1
    } else {
        -vstd::math::max(v.1, h.1)
    }
}

/// Run the vertical-crossing walk of one source cell to its end.
pub fn vertical_walk(g: &Grid, row: usize, col: usize, p: RayParams) -> (res: (bool, u64))
    requires
        g.wf(),
        g.bounded(),
        p.wf(),
        row < g.rows,
        col < g.columns,
    ensures
        res.0 == vert_walk(*g, row as int, col as int, p, 1, 0).0,
        res.1 == vert_walk(*g, row as int, col as int, p, 1, 0).1,
        res.1 <= DIST_MAX,
{
    let ghost target = vert_walk(*g, row as int, col as int, p, 1, 0);
    let cur: i64 = g.get(row, col);
    let mut k: u64 = 1;
    let mut last: u64 = 0;
    let mut found: bool = false;
    let mut stopped: bool = false;
    while !stopped
        invariant
            g.wf(),
            g.bounded(),
            p.wf(),
            row < g.rows,
            col < g.columns,
            cur == g.cell(row as int, col as int),
            last <= DIST_MAX,
            k <= g.columns + 2,
            !stopped ==> 1 <= k <= g.columns,
            !stopped ==> !found,
            !stopped ==> vert_walk(*g, row as int, col as int, p, k as int, last as int)
                == target,
            stopped ==> found == target.0 && last as int == target.1,
        decreases g.columns + 2 - k,
    {
        let ghost ki = k as int;
        let ghost rowi = row as int;
        let ghost coli = col as int;
        let xoff: i64 = if p.x_step == 1 {
            k as i64
        } else {
            -(k as i64)
        };
        proof {
            if p.x_step == 1 {
                assert(ki * p.x_step as int == ki) by (nonlinear_arith)
                    requires
                        p.x_step == 1,
                ;
            } else {
                assert(ki * p.x_step as int == -ki) by (nonlinear_arith)
                    requires
                        p.x_step as int == -1,
                ;
            }
            assert(xoff as int == ki * p.x_step);
        }
        let x: i64 = col as i64 + xoff;
        assert(x as int == vert_x(coli, p, ki));
        if x < 0 || x >= g.columns as i64 {
            proof {
                assert(!vert_x_in(*g, coli, p, ki));
                assert(vert_walk(*g, rowi, coli, p, ki, last as int) == (false, last as int));
            }
            stopped = true;
        } else {
            proof {
                crate::math::lemma_mul_bounds(
                    p.line_slope as int,
                    xoff as int,
                    SLOPE_MAX as int,
                    crate::grid::MAX_DIM as int,
                );
            }
            let mdx: i64 = p.line_slope * xoff;
            let y: i64 = (row as i64) * SCALE - mdx;
            assert(y as int == vert_y(rowi, p, ki));
            if y < 0 || y >= (g.rows as i64) * SCALE {
                proof {
                    assert(!vert_y_in(*g, rowi, p, ki));
                    assert(vert_walk(*g, rowi, coli, p, ki, last as int) == (false, last as int));
                }
                stopped = true;
            } else {
                // distance to this crossing
                proof {
                    crate::math::lemma_mul_le_nonneg(
                        ki,
                        p.cell_size as int,
                        crate::grid::MAX_DIM as int,
                        CELL_SIZE_MAX as int,
                    );
                }
                let dxm: u64 = k * p.cell_size;
                let mabs: u64 = if p.line_slope >= 0 {
                    p.line_slope as u64
                } else {
                    (-p.line_slope) as u64
                };
                proof {
                    assert(mabs as int == vstd::math::abs(p.line_slope as int));
                    crate::math::lemma_abs_mul_unit(p.line_slope as int, p.x_step as int, ki);
                    assert(mabs as int * ki == vstd::math::abs(mdx as int));
                    // the in-grid row coordinate bounds the slope offset
                    assert(vstd::math::abs(mdx as int) <= g.rows * SCALE);
                    crate::math::lemma_mul_le_nonneg(
                        mabs as int * ki,
                        p.cell_size as int,
                        30_000_000,
                        CELL_SIZE_MAX as int,
                    );
                    vstd::arithmetic::div_mod::lemma_div_is_ordered(
                        mabs as int * ki * p.cell_size,
                        30_000_000_000_000_000,
                        SCALE as int,
                    );
                }
                let dym: u64 = ((mabs as u128 * k as u128 * p.cell_size as u128)
                    / SCALE as u128) as u64;
                proof {
                    assert(dym as int
                        == vstd::math::abs(p.line_slope as int) * ki * p.cell_size
                            / (SCALE as int));
                    crate::math::lemma_mul_le_nonneg(
                        dxm as int,
                        dxm as int,
                        30_000_000_000_000,
                        30_000_000_000_000,
                    );
                    crate::math::lemma_mul_le_nonneg(
                        dym as int,
                        dym as int,
                        30_000_000_000_000,
                        30_000_000_000_000,
                    );
                }
                let rad: u128 = dxm as u128 * dxm as u128 + dym as u128 * dym as u128;
                let dist: u64 = crate::math::isqrt(rad);
                proof {
                    assert(dist as int == vert_dist(p, ki));
                    assert(dist <= DIST_MAX) by (nonlinear_arith)
                        requires
                            (dist as int) * (dist as int) <= rad as int,
                            rad as int <= 1_800_000_000_000_000_000_000_000_000,
                            dist >= 0,
                    ;
                }
                // interpolated elevation between the two bracketing rows
                let y1: i64 = ((y as u64) / (SCALE as u64)) as i64;
                let fr: i64 = y - y1 * SCALE;
                assert(y1 as int == vert_y(rowi, p, ki) / (SCALE as int));
                assert(0 <= fr < SCALE);
                let z1: i64 = g.get_or_nodata(y1, x);
                let z2: i64 = g.get_or_nodata(y1 - p.y_step, x);
                proof {
                    crate::math::lemma_mul_bounds(
                        fr as int,
                        z2 as int - z1 as int,
                        SCALE as int,
                        2 * crate::grid::ELEV_MAX as int,
                    );
                    crate::math::lemma_mul_le_nonneg(
                        dist as int,
                        p.height_increment as int,
                        DIST_MAX as int,
                        HEIGHT_INC_MAX as int,
                    );
                }
                let znum: i128 = z1 as i128 * SCALE as i128
                    + fr as i128 * (z2 as i128 - z1 as i128);
                let thresh: i128 = cur as i128 * SCALE as i128
                    + dist as i128 * p.height_increment as i128;
                proof {
                    assert(znum as int == vert_z_num(*g, rowi, coli, p, ki));
                    assert(thresh as int
                        == g.cell(rowi, coli) * SCALE + vert_dist(p, ki) * p.height_increment);
                }
                if znum >= thresh {
                    proof {
                        assert(vert_hit(*g, rowi, coli, p, ki));
                        assert(vert_walk(*g, rowi, coli, p, ki, last as int)
                            == (true, vert_dist(p, ki)));
                    }
                    found = true;
                    last = dist;
                    stopped = true;
                } else {
                    proof {
                        assert(!vert_hit(*g, rowi, coli, p, ki));
                        assert(vert_walk(*g, rowi, coli, p, ki, last as int)
                            == vert_walk(*g, rowi, coli, p, ki + 1, vert_dist(p, ki)));
                    }
                    last = dist;
                }
            }
        }
        k = k + 1;
    }
    (found, last)
}

/// Run the horizontal-crossing walk of one source cell to its end.
pub fn horizontal_walk(g: &Grid, row: usize, col: usize, p: RayParams) -> (res: (bool, u64))
    requires
        g.wf(),
        g.bounded(),
        p.wf(),
        row < g.rows,
        col < g.columns,
    ensures
        res.0 == horiz_walk(*g, row as int, col as int, p, 1, 0).0,
        res.1 == horiz_walk(*g, row as int, col as int, p, 1, 0).1,
        res.1 <= DIST_MAX,
{
    let ghost target = horiz_walk(*g, row as int, col as int, p, 1, 0);
    if p.line_slope == 0 {
        return (false, 0);
    }
    let cur: i64 = g.get(row, col);
    let mabs: u64 = if p.line_slope >= 0 {
        p.line_slope as u64
    } else {
        (-p.line_slope) as u64
    };
    assert(mabs as int == vstd::math::abs(p.line_slope as int) && mabs >= 1);
    let mut k: u64 = 1;
    let mut last: u64 = 0;
    let mut found: bool = false;
    let mut stopped: bool = false;
    while !stopped
        invariant
            g.wf(),
            g.bounded(),
            p.wf(),
            row < g.rows,
            col < g.columns,
            p.line_slope != 0,
            mabs as int == vstd::math::abs(p.line_slope as int),
            mabs >= 1,
            cur == g.cell(row as int, col as int),
            last <= DIST_MAX,
            k <= g.rows + 2,
            !stopped ==> 1 <= k <= g.rows,
            !stopped ==> !found,
            !stopped ==> horiz_walk(*g, row as int, col as int, p, k as int, last as int)
                == target,
            stopped ==> found == target.0 && last as int == target.1,
        decreases g.rows + 2 - k,
    {
        let ghost ki = k as int;
        let ghost rowi = row as int;
        let ghost coli = col as int;
        let yoff: i64 = if p.y_step == 1 {
            k as i64
        } else {
            -(k as i64)
        };
        proof {
            if p.y_step == 1 {
                assert(ki * p.y_step as int == ki) by (nonlinear_arith)
                    requires
                        p.y_step == 1,
                ;
            } else {
                assert(ki * p.y_step as int == -ki) by (nonlinear_arith)
                    requires
                        p.y_step as int == -1,
                ;
            }
            assert(yoff as int == ki * p.y_step);
        }
        let rc: i64 = row as i64 - yoff;
        assert(rc as int == horiz_rc(rowi, p, ki));
        if rc < 0 || rc >= g.rows as i64 {
            proof {
                assert(!horiz_rc_in(*g, rowi, p, ki));
                assert(horiz_walk(*g, rowi, coli, p, ki, last as int) == (false, last as int));
            }
            stopped = true;
        } else {
            assert(SCALE * SCALE == 1_000_000);
            let off: u64 = k * 1_000_000 / mabs;
            let ghost ofi = horiz_off(p, ki);
            assert(off as int == ofi);
            let ghost sg = horiz_sign(p);
            let positive: bool = (p.y_step == 1) == (p.line_slope > 0);
            proof {
                if positive {
                    assert(sg == 1);
                    assert(sg * ofi == ofi) by (nonlinear_arith)
                        requires
                            sg == 1,
                    ;
                } else {
                    assert(sg == -1);
                    assert(sg * ofi == -ofi) by (nonlinear_arith)
                        requires
                            sg as int == -1,
                    ;
                }
            }
            let hx: i64 = if positive {
                col as i64 * SCALE + off as i64
            } else {
                col as i64 * SCALE - off as i64
            };
            assert(hx as int == horiz_x(coli, p, ki));
            if hx < 0 || hx >= g.columns as i64 * SCALE {
                proof {
                    assert(!horiz_x_in(*g, coli, p, ki));
                    assert(horiz_walk(*g, rowi, coli, p, ki, last as int)
                        == (false, last as int));
                }
                stopped = true;
            } else {
                // distance to this crossing
                proof {
                    crate::math::lemma_mul_le_nonneg(
                        ki,
                        p.cell_size as int,
                        crate::grid::MAX_DIM as int,
                        CELL_SIZE_MAX as int,
                    );
                    assert(ofi <= 30_000_000);
                    crate::math::lemma_mul_le_nonneg(
                        ofi,
                        p.cell_size as int,
                        30_000_000,
                        CELL_SIZE_MAX as int,
                    );
                    vstd::arithmetic::div_mod::lemma_div_is_ordered(
                        ofi * p.cell_size,
                        30_000_000_000_000_000,
                        SCALE as int,
                    );
                }
                let dym: u64 = k * p.cell_size;
                let dxm: u64 = ((off as u128 * p.cell_size as u128) / SCALE as u128) as u64;
                proof {
                    assert(dxm as int == ofi * p.cell_size / (SCALE as int));
                    crate::math::lemma_mul_le_nonneg(
                        dxm as int,
                        dxm as int,
                        30_000_000_000_000,
                        30_000_000_000_000,
                    );
                    crate::math::lemma_mul_le_nonneg(
                        dym as int,
                        dym as int,
                        30_000_000_000_000,
                        30_000_000_000_000,
                    );
                }
                let rad: u128 = dxm as u128 * dxm as u128 + dym as u128 * dym as u128;
                let dist: u64 = crate::math::isqrt(rad);
                proof {
                    assert(dist as int == horiz_dist(p, ki));
                    assert(dist <= DIST_MAX) by (nonlinear_arith)
                        requires
                            (dist as int) * (dist as int) <= rad as int,
                            rad as int <= 1_800_000_000_000_000_000_000_000_000,
                            dist >= 0,
                    ;
                }
                // the two bracketing columns
                let x1: i64 = ((hx as u64) / (SCALE as u64)) as i64;
                let fr: i64 = hx - x1 * SCALE;
                assert(x1 as int == horiz_x(coli, p, ki) / (SCALE as int));
                assert(0 <= fr < SCALE);
                let x2: i64 = x1 + p.x_step;
                if x2 < 0 || x2 >= g.columns as i64 {
                    proof {
                        assert(!horiz_x2_in(*g, coli, p, ki));
                        assert(horiz_walk(*g, rowi, coli, p, ki, last as int)
                            == (false, horiz_dist(p, ki)));
                    }
                    last = dist;
                    stopped = true;
                } else {
                    let z1: i64 = g.get_or_nodata(rc, x1);
                    let z2: i64 = g.get_or_nodata(rc, x2);
                    proof {
                        crate::math::lemma_mul_bounds(
                            fr as int,
                            z2 as int - z1 as int,
                            SCALE as int,
                            2 * crate::grid::ELEV_MAX as int,
                        );
                        crate::math::lemma_mul_le_nonneg(
                            dist as int,
                            p.height_increment as int,
                            DIST_MAX as int,
                            HEIGHT_INC_MAX as int,
                        );
                    }
                    let znum: i128 = z1 as i128 * SCALE as i128
                        + fr as i128 * (z2 as i128 - z1 as i128);
                    let thresh: i128 = cur as i128 * SCALE as i128
                        + dist as i128 * p.height_increment as i128;
                    proof {
                        assert(znum as int == horiz_z_num(*g, rowi, coli, p, ki));
                        assert(thresh as int
                            == g.cell(rowi, coli) * SCALE
                                + horiz_dist(p, ki) * p.height_increment);
                    }
                    if znum >= thresh {
                        proof {
                            assert(horiz_hit(*g, rowi, coli, p, ki));
                            assert(horiz_walk(*g, rowi, coli, p, ki, last as int)
                                == (true, horiz_dist(p, ki)));
                        }
                        found = true;
                        last = dist;
                        stopped = true;
                    } else {
                        proof {
                            assert(!horiz_hit(*g, rowi, coli, p, ki));
                            assert(horiz_walk(*g, rowi, coli, p, ki, last as int)
                                == horiz_walk(*g, rowi, coli, p, ki + 1, horiz_dist(p, ki)));
                        }
                        last = dist;
                    }
                }
            }
        }
        k = k + 1;
    }
    (found, last)
}

/// The fetch distance of one source cell, from both walks' outcomes: the
/// nearer obstacle when both walks find one, the one found when only one
/// does, and the negative of the farther last in-grid distance when neither
/// does.
pub fn fetch_cell(g: &Grid, row: usize, col: usize, p: RayParams) -> (r: i64)
    requires
        g.wf(),
        g.bounded(),
        p.wf(),
        row < g.rows,
        col < g.columns,
    ensures
        r == fetch_spec(*g, row as int, col as int, p),
        -(DIST_MAX as int) <= r <= DIST_MAX,
{
    let v = vertical_walk(g, row, col, p);
    let h = horizontal_walk(g, row, col, p);
    if v.0 && h.0 {
        if v.1 <= h.1 {
            v.1 as i64
        } else {
            h.1 as i64
        }
    } else if v.0 {
        v.1 as i64
    } else if h.0 {
        h.1 as i64
    } else {
        if v.1 >= h.1 {
            -(v.1 as i64)
        } else {
            -(h.1 as i64)
        }
    }
}

} // verus!
