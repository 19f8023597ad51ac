use fetch_analysis::geometry::{effective_cell_size, sanitize_azimuth, step_directions};

#[test]
fn sanitize_nudges_degenerate_azimuths() {
    // 0, 180, 360, negative and beyond-full-circle values are nudged
    assert_eq!(sanitize_azimuth(0), 100);
    assert_eq!(sanitize_azimuth(180_000), 179_900);
    assert_eq!(sanitize_azimuth(360_000), 359_900);
    assert_eq!(sanitize_azimuth(-5_000), 100);
    assert_eq!(sanitize_azimuth(400_000), 100);
}

#[test]
fn sanitize_passes_ordinary_azimuths_through() {
    assert_eq!(sanitize_azimuth(100), 100);
    assert_eq!(sanitize_azimuth(90_000), 90_000);
    assert_eq!(sanitize_azimuth(179_900), 179_900);
    assert_eq!(sanitize_azimuth(271_500), 271_500);
}

#[test]
fn sanitize_is_idempotent_on_samples() {
    for az in [0i64, 180_000, 360_000, -42, 500_000, 100, 90_000, 359_900] {
        let once = sanitize_azimuth(az);
        assert_eq!(sanitize_azimuth(once), once);
    }
}

#[test]
fn step_directions_follow_the_quadrant() {
    assert_eq!(step_directions(45_000), (1, 1));
    assert_eq!(step_directions(90_000), (1, 1));
    assert_eq!(step_directions(135_000), (1, -1));
    assert_eq!(step_directions(180_000), (1, -1));
    assert_eq!(step_directions(225_000), (-1, -1));
    assert_eq!(step_directions(270_000), (-1, -1));
    assert_eq!(step_directions(315_000), (-1, 1));
    assert_eq!(step_directions(360_000), (-1, 1));
}

#[test]
fn planar_cell_size_is_the_average_resolution() {
    assert_eq!(effective_cell_size(1_000, 3_000, false, 0, 0, 0), 2_000);
}

#[test]
fn geographic_cell_size_applies_the_latitude_correction() {
    // resolutions 1.0 x 1.0 degree, extent giving a mid-latitude of 45
    // degrees, whose cosine is about 0.707
    let got = effective_cell_size(1_000, 1_000, true, 90_000, 0, 707);
    assert_eq!(got, 1_000u64 * 113_200 * 707 / 1_000);
}

#[test]
fn geographic_cell_size_ignores_out_of_range_latitudes() {
    // an extent wider than half a circle leaves the average uncorrected
    let got = effective_cell_size(1_000, 1_000, true, 200_000, -200_000, 707);
    assert_eq!(got, 1_000);
}
