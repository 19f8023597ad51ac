//! Laws of the fetch computation: the sign convention of the unobstructed
//! sentinel, and monotonicity of the fetch distance in the height increment.

use vstd::prelude::*;
use crate::grid::Grid;
use crate::kernel::{
    RayParams, vert_walk, horiz_walk, vert_dist, horiz_dist, vert_hit, horiz_hit, vert_x_in,
    vert_y_in, horiz_rc_in, horiz_x_in, horiz_x2_in, fetch_spec, fetch_found,
};
use crate::math::{lemma_sqrt_floor_exists, lemma_sqrt_mono, lemma_mul_mono_nonneg};

verus! {

/// The distance to a vertical crossing is never negative.
pub proof fn lemma_vert_dist_nonneg(p: RayParams, k: int)
    requires
        0 <= k,
    ensures
        0 <= vert_dist(p, k),
{
    let dxm = k * p.cell_size;
    let dym = vstd::math::abs(p.line_slope as int) * k * p.cell_size / (crate::math::SCALE as int);
    assert(dxm * dxm >= 0 && dym * dym >= 0) by (nonlinear_arith);
    lemma_sqrt_floor_exists(dxm * dxm + dym * dym);
}

/// The distance to a horizontal crossing is never negative.
pub proof fn lemma_horiz_dist_nonneg(p: RayParams, k: int)
    requires
        0 <= k,
        p.line_slope != 0,
    ensures
        0 <= horiz_dist(p, k),
{
    let dym = k * p.cell_size;
    let dxm = crate::kernel::horiz_off(p, k) * p.cell_size / (crate::math::SCALE as int);
    assert(dxm * dxm >= 0 && dym * dym >= 0) by (nonlinear_arith);
    lemma_sqrt_floor_exists(dxm * dxm + dym * dym);
}

/// Distances along the vertical walk grow with the step count.
pub proof fn lemma_vert_dist_mono(p: RayParams, k1: int, k2: int)
    requires
        0 <= k1 <= k2,
    ensures
        vert_dist(p, k1) <= vert_dist(p, k2),
{
    let ma = vstd::math::abs(p.line_slope as int) as int;
    let dxm1 = k1 * p.cell_size;
    let dxm2 = k2 * p.cell_size;
    lemma_mul_mono_nonneg(k1, k2, p.cell_size as int, p.cell_size as int);
    lemma_mul_mono_nonneg(ma, ma, k1, k2);
    lemma_mul_mono_nonneg(ma * k1, ma * k2, p.cell_size as int, p.cell_size as int);
    vstd::arithmetic::div_mod::lemma_div_is_ordered(
        ma * k1 * p.cell_size,
        ma * k2 * p.cell_size,
        (crate::math::SCALE as int),
    );
    let dym1 = ma * k1 * p.cell_size / (crate::math::SCALE as int);
    let dym2 = ma * k2 * p.cell_size / (crate::math::SCALE as int);
    vstd::arithmetic::div_mod::lemma_div_pos_is_pos(ma * k1 * p.cell_size, (crate::math::SCALE as int));
    lemma_mul_mono_nonneg(dxm1, dxm2, dxm1, dxm2);
    lemma_mul_mono_nonneg(dym1, dym2, dym1, dym2);
    lemma_sqrt_mono(dxm1 * dxm1 + dym1 * dym1, dxm2 * dxm2 + dym2 * dym2);
}

/// Distances along the horizontal walk grow with the step count.
pub proof fn lemma_horiz_dist_mono(p: RayParams, k1: int, k2: int)
    requires
        0 <= k1 <= k2,
        p.line_slope != 0,
    ensures
        horiz_dist(p, k1) <= horiz_dist(p, k2),
{
    let ma = vstd::math::abs(p.line_slope as int) as int;
    let off1 = crate::kernel::horiz_off(p, k1);
    let off2 = crate::kernel::horiz_off(p, k2);
    vstd::arithmetic::div_mod::lemma_div_is_ordered(
        k1 * (crate::math::SCALE as int) * (crate::math::SCALE as int),
        k2 * (crate::math::SCALE as int) * (crate::math::SCALE as int),
        ma,
    );
    vstd::arithmetic::div_mod::lemma_div_pos_is_pos(k1 * (crate::math::SCALE as int) * (crate::math::SCALE as int), ma);
    lemma_mul_mono_nonneg(off1, off2, p.cell_size as int, p.cell_size as int);
    vstd::arithmetic::div_mod::lemma_div_is_ordered(
        off1 * p.cell_size,
        off2 * p.cell_size,
        (crate::math::SCALE as int),
    );
    vstd::arithmetic::div_mod::lemma_div_pos_is_pos(off1 * p.cell_size, (crate::math::SCALE as int));
    let dxm1 = off1 * p.cell_size / (crate::math::SCALE as int);
    let dxm2 = off2 * p.cell_size / (crate::math::SCALE as int);
    let dym1 = k1 * p.cell_size;
    let dym2 = k2 * p.cell_size;
    lemma_mul_mono_nonneg(k1, k2, p.cell_size as int, p.cell_size as int);
    lemma_mul_mono_nonneg(dxm1, dxm2, dxm1, dxm2);
    lemma_mul_mono_nonneg(dym1, dym2, dym1, dym2);
    lemma_sqrt_mono(dxm1 * dxm1 + dym1 * dym1, dxm2 * dxm2 + dym2 * dym2);
}

/// A walk that ends at the boundary reports a non-negative last distance.
pub proof fn lemma_vert_walk_last_nonneg(g: Grid, row: int, col: int, p: RayParams, k: int, last: int)
    requires
        1 <= k,
        0 <= last,
    ensures
        0 <= vert_walk(g, row, col, p, k, last).1,
    decreases g.columns + vstd::math::abs(col) - k,
{
    if p.x_step != 1 && p.x_step != -1 {
    } else if !vert_x_in(g, col, p, k) || !vert_y_in(g, row, p, k) {
    } else if vert_hit(g, row, col, p, k) {
        lemma_vert_dist_nonneg(p, k);
    } else {
        lemma_vert_dist_nonneg(p, k);
        lemma_vert_walk_last_nonneg(g, row, col, p, k + 1, vert_dist(p, k));
    }
}

/// The horizontal walk likewise reports a non-negative value.
pub proof fn lemma_horiz_walk_last_nonneg(g: Grid, row: int, col: int, p: RayParams, k: int, last: int)
    requires
        1 <= k,
        0 <= last,
    ensures
        0 <= horiz_walk(g, row, col, p, k, last).1,
    decreases g.rows + vstd::math::abs(row) - k,
{
    if p.line_slope == 0 || (p.y_step != 1 && p.y_step != -1) {
    } else if !horiz_rc_in(g, row, p, k) || !horiz_x_in(g, col, p, k) {
    } else if !horiz_x2_in(g, col, p, k) {
        lemma_horiz_dist_nonneg(p, k);
    } else if horiz_hit(g, row, col, p, k) {
        lemma_horiz_dist_nonneg(p, k);
    } else {
        lemma_horiz_dist_nonneg(p, k);
        lemma_horiz_walk_last_nonneg(g, row, col, p, k + 1, horiz_dist(p, k));
    }
}

/// Sign convention: when neither walk finds an obstacle, the fetch value is
/// the negative of the farther of the two walks' last in-grid distances; it
/// is never positive, and it is strictly negative whenever either walk took
/// at least one in-grid step.
pub proof fn lemma_unobstructed_sign(g: Grid, row: int, col: int, p: RayParams)
    requires
        !vert_walk(g, row, col, p, 1, 0).0,
        !horiz_walk(g, row, col, p, 1, 0).0,
    ensures
        fetch_spec(g, row, col, p) == -vstd::math::max(
            vert_walk(g, row, col, p, 1, 0).1,
            horiz_walk(g, row, col, p, 1, 0).1,
        ),
        fetch_spec(g, row, col, p) <= 0,
        vert_walk(g, row, col, p, 1, 0).1 > 0 || horiz_walk(g, row, col, p, 1, 0).1 > 0
            ==> fetch_spec(g, row, col, p) < 0,
{
    lemma_vert_walk_last_nonneg(g, row, col, p, 1, 0);
    lemma_horiz_walk_last_nonneg(g, row, col, p, 1, 0);
}

/// Two runs over the same grid whose geometry agrees and whose height
/// increments are ordered.
pub open spec fn same_geometry(p1: RayParams, p2: RayParams) -> bool {
    &&& p1.line_slope == p2.line_slope
    &&& p1.x_step == p2.x_step
    &&& p1.y_step == p2.y_step
    &&& p1.cell_size == p2.cell_size
    &&& p1.height_increment <= p2.height_increment
}

/// A crossing that passes the obstacle test under the larger height
/// increment passes it under the smaller one.
proof fn lemma_vert_hit_mono(g: Grid, row: int, col: int, p1: RayParams, p2: RayParams, k: int)
    requires
        same_geometry(p1, p2),
        1 <= k,
        vert_hit(g, row, col, p2, k),
    ensures
        vert_hit(g, row, col, p1, k),
{
    lemma_vert_dist_nonneg(p2, k);
    let d = vert_dist(p2, k);
    lemma_mul_mono_nonneg(d, d, p1.height_increment as int, p2.height_increment as int);
}

/// The same, at a horizontal crossing.
proof fn lemma_horiz_hit_mono(g: Grid, row: int, col: int, p1: RayParams, p2: RayParams, k: int)
    requires
        same_geometry(p1, p2),
        1 <= k,
        p2.line_slope != 0,
        horiz_hit(g, row, col, p2, k),
    ensures
        horiz_hit(g, row, col, p1, k),
{
    lemma_horiz_dist_nonneg(p2, k);
    let d = horiz_dist(p2, k);
    lemma_mul_mono_nonneg(d, d, p1.height_increment as int, p2.height_increment as int);
}

/// An obstacle found from step `k` on lies at least as far as step `k`.
proof fn lemma_vert_walk_dist_lb(g: Grid, row: int, col: int, p: RayParams, k: int, last: int)
    requires
        p.wf(),
        1 <= k,
        vert_walk(g, row, col, p, k, last).0,
    ensures
        vert_walk(g, row, col, p, k, last).1 >= vert_dist(p, k),
    decreases g.columns + vstd::math::abs(col) - k,
{
    if !vert_x_in(g, col, p, k) || !vert_y_in(g, row, p, k) {
        assert(false);
    } else if vert_hit(g, row, col, p, k) {
    } else {
        lemma_vert_walk_dist_lb(g, row, col, p, k + 1, vert_dist(p, k));
        lemma_vert_dist_mono(p, k, k + 1);
    }
}

/// The same, along the horizontal walk.
proof fn lemma_horiz_walk_dist_lb(g: Grid, row: int, col: int, p: RayParams, k: int, last: int)
    requires
        p.wf(),
        1 <= k,
        horiz_walk(g, row, col, p, k, last).0,
    ensures
        horiz_walk(g, row, col, p, k, last).1 >= horiz_dist(p, k),
    decreases g.rows + vstd::math::abs(row) - k,
{
    if p.line_slope == 0 {
        assert(false);
    } else if !horiz_rc_in(g, row, p, k) || !horiz_x_in(g, col, p, k) {
        assert(false);
    } else if !horiz_x2_in(g, col, p, k) {
        assert(false);
    } else if horiz_hit(g, row, col, p, k) {
    } else {
        lemma_horiz_walk_dist_lb(g, row, col, p, k + 1, horiz_dist(p, k));
        lemma_horiz_dist_mono(p, k, k + 1);
    }
}

/// If the vertical walk finds an obstacle under the larger height increment,
/// it finds one under the smaller, and no farther away.
proof fn lemma_vert_walk_mono(
    g: Grid,
    row: int,
    col: int,
    p1: RayParams,
    p2: RayParams,
    k: int,
    last1: int,
    last2: int,
)
    requires
        p1.wf(),
        p2.wf(),
        same_geometry(p1, p2),
        1 <= k,
        vert_walk(g, row, col, p2, k, last2).0,
    ensures
        vert_walk(g, row, col, p1, k, last1).0,
        vert_walk(g, row, col, p1, k, last1).1 <= vert_walk(g, row, col, p2, k, last2).1,
    decreases g.columns + vstd::math::abs(col) - k,
{
    if !vert_x_in(g, col, p2, k) || !vert_y_in(g, row, p2, k) {
        assert(false);
    } else if vert_hit(g, row, col, p2, k) {
        lemma_vert_hit_mono(g, row, col, p1, p2, k);
    } else if vert_hit(g, row, col, p1, k) {
        lemma_vert_walk_dist_lb(g, row, col, p2, k + 1, vert_dist(p2, k));
        lemma_vert_dist_mono(p2, k, k + 1);
    } else {
        lemma_vert_walk_mono(g, row, col, p1, p2, k + 1, vert_dist(p1, k), vert_dist(p2, k));
    }
}

/// The same, along the horizontal walk.
proof fn lemma_horiz_walk_mono(
    g: Grid,
    row: int,
    col: int,
    p1: RayParams,
    p2: RayParams,
    k: int,
    last1: int,
    last2: int,
)
    requires
        p1.wf(),
        p2.wf(),
        same_geometry(p1, p2),
        1 <= k,
        horiz_walk(g, row, col, p2, k, last2).0,
    ensures
        horiz_walk(g, row, col, p1, k, last1).0,
        horiz_walk(g, row, col, p1, k, last1).1 <= horiz_walk(g, row, col, p2, k, last2).1,
    decreases g.rows + vstd::math::abs(row) - k,
{
    if p2.line_slope == 0 {
        assert(false);
    } else if !horiz_rc_in(g, row, p2, k) || !horiz_x_in(g, col, p2, k) {
        assert(false);
    } else if !horiz_x2_in(g, col, p2, k) {
        assert(false);
    } else if horiz_hit(g, row, col, p2, k) {
        lemma_horiz_hit_mono(g, row, col, p1, p2, k);
    } else if horiz_hit(g, row, col, p1, k) {
        lemma_horiz_walk_dist_lb(g, row, col, p2, k + 1, horiz_dist(p2, k));
        lemma_horiz_dist_mono(p2, k, k + 1);
    } else {
        if p2.y_step == 1 {
            assert(k * p2.y_step == k) by (nonlinear_arith)
                requires
                    p2.y_step == 1,
            ;
        } else {
            assert(k * p2.y_step == -k) by (nonlinear_arith)
                requires
                    p2.y_step as int == -1,
            ;
        }
        lemma_horiz_walk_mono(g, row, col, p1, p2, k + 1, horiz_dist(p1, k), horiz_dist(p2, k));
    }
}

/// Obstacle-distance monotonicity: with the elevations fixed and the
/// geometry unchanged, raising the height increment never brings the
/// reported fetch distance closer — whenever an obstacle is still found
/// under the larger increment, one is found under the smaller, at a
/// distance no greater.
pub proof fn lemma_fetch_monotone_in_height(
    g: Grid,
    row: int,
    col: int,
    p1: RayParams,
    p2: RayParams,
)
    requires
        p1.wf(),
        p2.wf(),
        same_geometry(p1, p2),
        fetch_found(g, row, col, p2),
    ensures
        fetch_found(g, row, col, p1),
        0 <= fetch_spec(g, row, col, p1) <= fetch_spec(g, row, col, p2),
{
    let v1 = vert_walk(g, row, col, p1, 1, 0);
    let h1 = horiz_walk(g, row, col, p1, 1, 0);
    let v2 = vert_walk(g, row, col, p2, 1, 0);
    let h2 = horiz_walk(g, row, col, p2, 1, 0);
    if v1.0 {
        lemma_vert_walk_dist_lb(g, row, col, p1, 1, 0);
        lemma_vert_dist_nonneg(p1, 1);
    }
    if h1.0 {
        lemma_horiz_walk_dist_lb(g, row, col, p1, 1, 0);
        lemma_horiz_dist_nonneg(p1, 1);
    }
    if v2.0 {
        lemma_vert_walk_mono(g, row, col, p1, p2, 1, 0, 0);
    }
    if h2.0 {
        lemma_horiz_walk_mono(g, row, col, p1, p2, 1, 0, 0);
    }
}

} // verus!
