use fetch_analysis::geometry::{sanitize_azimuth, step_directions};
use fetch_analysis::grid::Grid;
use fetch_analysis::kernel::{fetch_cell, RayParams};
use fetch_analysis::math::isqrt;
use fetch_analysis::rows::{compute, process_row};

const NODATA: f64 = -9999.0;

fn scaled(v: f64) -> i64 {
    (v * 1000.0).round() as i64
}

fn grid_of(rows: usize, columns: usize, elevations: &[f64]) -> Grid {
    assert_eq!(elevations.len(), rows * columns);
    Grid {
        rows,
        columns,
        nodata: scaled(NODATA),
        cells: elevations.iter().map(|&z| scaled(z)).collect(),
    }
}

/// Geometry setup as the run performs it: sanitize the azimuth, take the
/// slope of the ray from it, and pick the diagonal.
fn params_for(azimuth_deg: f64, cell_size: f64, height_increment: f64) -> RayParams {
    let az = sanitize_azimuth(scaled(azimuth_deg));
    let az_deg = az as f64 / 1000.0;
    let slope_deg = if az_deg < 180.0 { 90.0 - az_deg } else { 270.0 - az_deg };
    let line_slope = (slope_deg.to_radians().tan() * 1000.0) as i64;
    let (x_step, y_step) = step_directions(az);
    RayParams {
        line_slope,
        x_step,
        y_step,
        cell_size: (cell_size * 1000.0).round() as u64,
        height_increment: (height_increment * 1000.0).round() as u64,
    }
}

#[test]
fn isqrt_exact_values() {
    assert_eq!(isqrt(0), 0);
    assert_eq!(isqrt(1), 1);
    assert_eq!(isqrt(24), 4);
    assert_eq!(isqrt(25), 5);
    assert_eq!(isqrt(1_000_001), 1000);
    assert_eq!(isqrt(25_000_064), 5000);
}

#[test]
fn flat_grid_due_east_reports_distance_to_the_edge() {
    // a three-by-three grid, every cell at elevation ten, azimuth due east:
    // no obstacle can be found, so every cell reports the negative of the
    // distance to the east edge
    let g = grid_of(3, 3, &[10.0; 9]);
    let p = params_for(90.0, 1.0, 0.05);
    assert_eq!(p.line_slope, 0);
    assert_eq!((p.x_step, p.y_step), (1, 1));
    let out = compute(&g, p);
    for r in 0..3usize {
        assert_eq!(out.get(r, 0), -2_000);
        assert_eq!(out.get(r, 1), -1_000);
        assert_eq!(out.get(r, 2), 0);
    }
}

#[test]
fn single_obstacle_along_a_near_north_ray() {
    // one high cell five rows up along azimuth a tenth of a degree: the
    // source cell reports the Euclidean distance to it, not the sentinel
    let mut elevations = vec![10.0; 12 * 6];
    elevations[5 * 6 + 2] = 50.0;
    let g = grid_of(12, 6, &elevations);
    let p = params_for(0.1, 1.0, 0.05);
    assert_eq!(p.line_slope, 572_957);
    assert_eq!((p.x_step, p.y_step), (1, 1));
    let got = fetch_cell(&g, 10, 2, p);
    assert_eq!(got, 5_000);
}

#[test]
fn unobstructed_diagonal_ray_reports_the_farther_walk() {
    // a flat five-by-five grid with slope one: both walks reach the edge,
    // and the output is the negative of the farther last distance
    let g = grid_of(5, 5, &[10.0; 25]);
    let p = RayParams {
        line_slope: 1_000,
        x_step: 1,
        y_step: 1,
        cell_size: 1_000,
        height_increment: 50,
    };
    let got = fetch_cell(&g, 2, 2, p);
    assert_eq!(got, -2_828);
}

#[test]
fn flat_grid_due_west_walks_the_other_way() {
    let g = grid_of(3, 3, &[10.0; 9]);
    let p = params_for(270.0, 1.0, 0.05);
    assert_eq!(p.line_slope, 0);
    assert_eq!((p.x_step, p.y_step), (-1, -1));
    let out = compute(&g, p);
    for r in 0..3usize {
        assert_eq!(out.get(r, 0), 0);
        assert_eq!(out.get(r, 1), -1_000);
        assert_eq!(out.get(r, 2), -2_000);
    }
}

#[test]
fn nodata_cells_stay_nodata() {
    let mut elevations = vec![10.0; 4];
    elevations[1] = NODATA;
    let g = grid_of(2, 2, &elevations);
    let p = params_for(90.0, 1.0, 0.05);
    let out = compute(&g, p);
    assert_eq!(out.get(0, 1), scaled(NODATA));
    assert_ne!(out.get(0, 0), scaled(NODATA));
    assert_ne!(out.get(1, 0), scaled(NODATA));
    assert_ne!(out.get(1, 1), scaled(NODATA));
}

#[test]
fn higher_increment_never_brings_the_obstacle_closer() {
    // a low near obstacle and a high far one: a small increment stops at
    // the near cell, a large one only at the far cell
    let g = grid_of(1, 6, &[10.0, 12.0, 10.0, 10.0, 100.0, 10.0]);
    let low = RayParams {
        line_slope: 0,
        x_step: 1,
        y_step: 1,
        cell_size: 1_000,
        height_increment: 50,
    };
    let high = RayParams { height_increment: 3_000, ..low };
    let near = fetch_cell(&g, 0, 0, low);
    let far = fetch_cell(&g, 0, 0, high);
    assert_eq!(near, 1_000);
    assert_eq!(far, 4_000);
    assert!(near <= far);
}

#[test]
fn process_row_skips_nodata_and_fills_the_rest() {
    let g = grid_of(1, 3, &[10.0, NODATA, 10.0]);
    let p = params_for(90.0, 1.0, 0.05);
    let data = process_row(&g, 0, p);
    assert_eq!(data.len(), 3);
    // the walk from the first cell passes the nodata cell without finding
    // an obstacle and reaches the far edge
    assert_eq!(data[0], -2_000);
    assert_eq!(data[1], scaled(NODATA));
    assert_eq!(data[2], 0);
}

#[test]
fn output_grid_keeps_the_input_shape() {
    let g = grid_of(2, 3, &[10.0; 6]);
    let p = params_for(315.0, 1.0, 0.05);
    let out = compute(&g, p);
    assert_eq!(out.rows, 2);
    assert_eq!(out.columns, 3);
    assert_eq!(out.nodata, scaled(NODATA));
}
