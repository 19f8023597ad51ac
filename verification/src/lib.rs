//! Fetch (upwind exposure) distance analysis over an elevation grid.
//!
//! For every valid cell of an elevation grid, the library computes the
//! distance to the nearest terrain obstacle along a fixed compass azimuth:
//! the ray from the cell is sampled at successive grid-line crossings, and
//! a crossing counts as an obstacle when its interpolated elevation reaches
//! a threshold that grows linearly with distance.  When no obstacle lies
//! within the grid, a negative sentinel carries the distance reached before
//! the ray left the grid.
//!
//! All fractional quantities (elevations, distances, slopes, degrees) are
//! fixed-point integers scaled by [`math::SCALE`]; callers convert at the
//! boundary.

pub mod geometry;
pub mod grid;
pub mod kernel;
pub mod laws;
pub mod math;
pub mod partition;
pub mod rows;
