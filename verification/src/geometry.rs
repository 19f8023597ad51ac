//! Geometry setup: azimuth sanitization, ray step directions, and the
//! effective planar cell size.  Degrees are fixed-point (`SCALE` per degree).

use vstd::prelude::*;
use crate::math::SCALE;

verus! {

/// A full circle, in fixed-point degrees.
pub const DEG_FULL: i64 = 360_000;

/// Half a circle, in fixed-point degrees.
pub const DEG_HALF: i64 = 180_000;

/// A quarter circle, in fixed-point degrees.
pub const DEG_QUARTER: i64 = 90_000;

/// Three quarters of a circle, in fixed-point degrees.
pub const DEG_THREE_QUARTER: i64 = 270_000;

/// A tenth of a degree: the nudge applied to degenerate azimuths.
pub const DEG_TENTH: i64 = 100;

/// The sanitized azimuth: degenerate values (exactly 0, 180 or 360 degrees,
/// or outside [0, 360]) are nudged to the nearest open value so the ray's
/// slope is never vertical or undefined; everything else passes through.
pub open spec fn sanitize_spec(az: int) -> int {
    if az > DEG_FULL || az < 0 {
        DEG_TENTH as int
    } else if az == 0 {
        DEG_TENTH as int
    } else if az == DEG_HALF {
        DEG_HALF - DEG_TENTH
    } else if az == DEG_FULL {
        DEG_FULL - DEG_TENTH
    } else {
        az
    }
}

/// Nudge a degenerate azimuth; any other value passes through unchanged.
pub fn sanitize_azimuth(az: i64) -> (r: i64)
    ensures
        r == sanitize_spec(az as int),
        0 < r < DEG_FULL,
        r != DEG_HALF,
{
    if az > DEG_FULL || az < 0 {
        DEG_TENTH
    } else if az == 0 {
        DEG_TENTH
    } else if az == DEG_HALF {
        DEG_HALF - DEG_TENTH
    } else if az == DEG_FULL {
        DEG_FULL - DEG_TENTH
    } else {
        az
    }
}

/// Sanitizing twice is the same as sanitizing once.
pub proof fn lemma_sanitize_idempotent(az: int)
    ensures
        sanitize_spec(sanitize_spec(az)) == sanitize_spec(az),
{
}

/// The signed column step of the walk, from the azimuth's quadrant.
pub open spec fn x_step_spec(az: int) -> int {
    if az <= DEG_HALF {
        1
    } else {
        -1
    }
}

/// The signed row-coordinate step of the walk, from the azimuth's quadrant.
pub open spec fn y_step_spec(az: int) -> int {
    if az <= DEG_QUARTER || az > DEG_THREE_QUARTER {
        1
    } else {
        -1
    }
}

/// The diagonal the ray travels: `(x_step, y_step)` by azimuth quadrant.
pub fn step_directions(az: i64) -> (r: (i64, i64))
    requires
        0 < az <= DEG_FULL,
    ensures
        r.0 == x_step_spec(az as int),
        r.1 == y_step_spec(az as int),
{
    if az <= DEG_QUARTER {
        (1, 1)
    } else if az <= DEG_HALF {
        (1, -1)
    } else if az <= DEG_THREE_QUARTER {
        (-1, -1)
    } else {
        (-1, 1)
    }
}

/// Factor converting degree-based geographic resolution to a locally planar
/// metric distance (multiplied by the cosine of the mid-latitude).
pub const GEOGRAPHIC_FACTOR: i64 = 113_200;

/// The effective planar cell size: the average of the two resolutions, with
/// the geographic correction applied when the mid-latitude is meaningful.
/// `cos_mid` is the fixed-point cosine of the grid's mid-latitude.
pub open spec fn cell_size_spec(
    res_x: int,
    res_y: int,
    geographic: bool,
    north: int,
    south: int,
    cos_mid: int,
) -> int {
    let avg = (res_x + res_y) / 2;
    if geographic && -DEG_HALF <= north - south <= DEG_HALF {
        avg * GEOGRAPHIC_FACTOR * cos_mid / (SCALE as int)
    } else {
        avg
    }
}

/// Compute the effective planar cell size.  The mid-latitude is
/// `(north - south) / 2` degrees; its fixed-point cosine, `cos_mid`, comes
/// from the caller, since the library works on integers alone.
pub fn effective_cell_size(
    res_x: u64,
    res_y: u64,
    geographic: bool,
    north: i64,
    south: i64,
    cos_mid: u64,
) -> (r: u64)
    requires
        res_x <= 1_000_000_000,
        res_y <= 1_000_000_000,
        cos_mid <= SCALE,
        -1_000_000_000_000 <= north <= 1_000_000_000_000,
        -1_000_000_000_000 <= south <= 1_000_000_000_000,
    ensures
        r == cell_size_spec(
            res_x as int,
            res_y as int,
            geographic,
            north as int,
            south as int,
            cos_mid as int,
        ),
        r <= 113_200_000_000_000,
{
    let avg: u64 = (res_x + res_y) / 2;
    if geographic && -DEG_HALF <= north - south && north - south <= DEG_HALF {
        proof {
            crate::math::lemma_mul_le_nonneg(avg as int, GEOGRAPHIC_FACTOR as int, 1_000_000_000, GEOGRAPHIC_FACTOR as int);
            crate::math::lemma_mul_le_nonneg(
                avg as int * GEOGRAPHIC_FACTOR as int,
                cos_mid as int,
                113_200_000_000_000,
                SCALE as int,
            );
            vstd::arithmetic::div_mod::lemma_div_is_ordered(
                avg as int * GEOGRAPHIC_FACTOR as int * cos_mid as int,
                113_200_000_000_000_000,
                SCALE as int,
            );
        }
        ((avg as u128 * GEOGRAPHIC_FACTOR as u128 * cos_mid as u128) / SCALE as u128) as u64
    } else {
        avg
    }
}

} // verus!
