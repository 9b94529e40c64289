//! Tests for the batched heatmap variant with the packed byte color grid.

use heatgrid::heatmap_v2::HeatMapV2;
use heatgrid::rgba::RGBA;
use heatgrid::HeatMapError;

fn configured() -> HeatMapV2 {
    let mut hm = HeatMapV2::new();
    hm.set_size(10, 0, 0, 10_000, 10_000).unwrap();
    hm
}

fn packed_cell(hm: &HeatMapV2, row: usize, col: usize) -> [u8; 4] {
    let bytes = hm.color_values();
    let base = (row * hm.width() + col) * 4;
    [bytes[base], bytes[base + 1], bytes[base + 2], bytes[base + 3]]
}

#[test]
fn starts_unconfigured() {
    let hm = HeatMapV2::new();
    assert_eq!(hm.width(), 0);
    assert_eq!(hm.height(), 0);
    assert_eq!(hm.color_values().len(), 0);
}

#[test]
fn unconfigured_compute_is_harmless() {
    let mut hm = HeatMapV2::new();
    hm.add_points(vec![5_000, 5_000, 1_000]).unwrap();
    hm.calc_heatmap();
    assert_eq!(hm.color_values().len(), 0);
}

#[test]
fn set_size_derives_geometry() {
    let hm = configured();
    assert_eq!(hm.width(), 10);
    assert_eq!(hm.height(), 10);
    assert_eq!(hm.color_values().len(), 400);
    assert!(hm.color_values().iter().all(|&b| b == 0));
}

#[test]
fn set_size_errors() {
    let mut hm = HeatMapV2::new();
    assert_eq!(
        hm.set_size(0, 0, 0, 10_000, 10_000),
        Err(HeatMapError::ZeroWidth)
    );
    assert_eq!(
        hm.set_size(10, 10_000, 0, 0, 10_000),
        Err(HeatMapError::InvalidBounds)
    );
    assert_eq!(
        hm.set_size(10, 0, 10_000, 10_000, 0),
        Err(HeatMapError::InvalidBounds)
    );
    assert_eq!(
        hm.set_size(100_000, 0, 0, 1_000, 100_000),
        Err(HeatMapError::GridTooLarge)
    );
    // Rejected atomically: still unconfigured.
    assert_eq!(hm.width(), 0);
    assert_eq!(hm.height(), 0);
}

#[test]
fn batched_flow_packs_colors() {
    // max_heat 2.0, default gradient: the center cell at density 1.0 lies
    // exactly on the step boundary and packs as opaque white.
    let mut hm = configured();
    hm.set_max_heat(2_000);
    hm.set_radius(1);
    hm.add_points(vec![5_000, 5_000, 1_000]).unwrap();
    hm.calc_heatmap();
    assert_eq!(packed_cell(&hm, 4, 5), [255, 255, 255, 255]);
    // An untouched cell at density zero is the first stop, transparent.
    assert_eq!(packed_cell(&hm, 0, 0), [255, 255, 255, 0]);
}

#[test]
fn add_points_rejects_bad_length() {
    let mut hm = configured();
    assert_eq!(
        hm.add_points(vec![1, 2, 3, 4]),
        Err(HeatMapError::TripleLength)
    );
    hm.calc_heatmap();
    // Nothing was queued.
    assert!(hm.color_values().iter().step_by(4).all(|&r| r == 255));
}

#[test]
fn queue_kept_across_compute_calls() {
    let mut hm = configured();
    hm.set_max_heat(2_000);
    hm.set_radius(0);
    hm.add_points(vec![5_000, 5_000, 750]).unwrap();
    hm.calc_heatmap();
    // 0.75 of step 1.0: alpha ramp round(255 * 0.75) = 191.
    assert_eq!(packed_cell(&hm, 4, 5), [255, 255, 255, 191]);
    hm.calc_heatmap();
    // Replayed: density 1.5 now interpolates half way between the stops.
    assert_eq!(packed_cell(&hm, 4, 5), [128, 128, 128, 255]);
}

#[test]
fn reset_keeps_stale_packed_colors() {
    let mut hm = configured();
    hm.set_max_heat(2_000);
    hm.add_points(vec![5_000, 5_000, 1_000]).unwrap();
    hm.calc_heatmap();
    hm.reset();
    // Density cleared, colors stale until tag2.
    assert_eq!(packed_cell(&hm, 4, 5), [255, 255, 255, 255]);
    hm.tag2();
    assert_eq!(packed_cell(&hm, 4, 5), [255, 255, 255, 0]);
}

#[test]
fn tag_passes_split_the_compute() {
    let mut hm = configured();
    hm.set_max_heat(2_000);
    hm.add_points(vec![5_000, 5_000, 1_000]).unwrap();
    hm.tag1();
    // Accumulated but not recolored: the packed grid is still zeroed.
    assert_eq!(packed_cell(&hm, 4, 5), [0, 0, 0, 0]);
    hm.tag2();
    assert_eq!(packed_cell(&hm, 4, 5), [255, 255, 255, 255]);
}

#[test]
fn set_gradients_validated() {
    let mut hm = configured();
    assert_eq!(hm.set_gradients(Vec::new()), Err(HeatMapError::EmptyGradient));
    hm.set_gradients(vec![RGBA::new(9, 8, 7, 6)]).unwrap();
    hm.set_max_heat(1_000);
    hm.add_points(vec![5_000, 5_000, 2_000]).unwrap();
    hm.calc_heatmap();
    // Saturated density clamps to the single stop.
    assert_eq!(packed_cell(&hm, 4, 5), [9, 8, 7, 6]);
}

#[test]
fn flip_convention_matches_immediate_variant() {
    let mut hm = configured();
    hm.set_flip_y(false);
    hm.set_max_heat(2_000);
    hm.add_points(vec![5_000, 5_000, 1_000]).unwrap();
    hm.calc_heatmap();
    assert_eq!(packed_cell(&hm, 5, 5), [255, 255, 255, 255]);
    assert_eq!(packed_cell(&hm, 4, 5), [255, 255, 255, 0]);
}
