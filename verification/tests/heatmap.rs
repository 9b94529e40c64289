//! Tests for the immediate-mode heatmap: splatting, color mapping, the
//! ingestion protocols, and every error condition.
//!
//! All continuous quantities are fixed-point with three fractional decimal
//! digits: 1000 stands for 1.0.

use heatgrid::heatmap::HeatMap;
use heatgrid::rgba::RGBA;
use heatgrid::{HeatMapError, HeatPoint};

fn ten_by_ten(radius: u32, max_heat: i64) -> HeatMap {
    // width 10, bounding box (0, 0) .. (10, 10), default gradient
    // [opaque white, opaque black].
    HeatMap::new(10, radius, 0, 0, 10_000, 10_000, max_heat).unwrap()
}

#[test]
fn scenario_a_center_point() {
    // radius 1, max_heat 2.0, two stops: step_len = 1.0. The point (5, 5, 1.0)
    // lands in cell (4, 5) with the flipped row convention and accumulates
    // exactly 1.0; stepIndex 1, stepFrac 0 interpolates to G[0] exactly.
    let mut hm = ten_by_ten(1, 2000);
    assert_eq!(hm.width(), 10);
    assert_eq!(hm.height(), 10);
    hm.add_one_point(5_000, 5_000, 1_000);
    assert_eq!(hm.heat_value(4, 5), Ok(1_000));
    assert_eq!(hm.color_value(4, 5), Ok(RGBA::new(255, 255, 255, 255)));
    // Cells at distance exactly 1 get kernel weight zero.
    assert_eq!(hm.heat_value(4, 6), Ok(0));
    assert_eq!(hm.heat_value(4, 4), Ok(0));
    assert_eq!(hm.heat_value(3, 5), Ok(0));
    assert_eq!(hm.heat_value(5, 5), Ok(0));
    // Diagonal neighbors lie beyond the inscribed circle.
    assert_eq!(hm.heat_value(3, 6), Ok(0));
    assert_eq!(hm.heat_value(5, 4), Ok(0));
}

#[test]
fn scenario_b_radius_zero() {
    // radius 0: only the center cell receives weight 1 x value.
    let mut hm = ten_by_ten(0, 2000);
    hm.add_one_point(5_000, 5_000, 700);
    assert_eq!(hm.heat_value(4, 5), Ok(700));
    for row in 0..10 {
        for col in 0..10 {
            if (row, col) != (4, 5) {
                assert_eq!(hm.heat_value(row, col), Ok(0));
            }
        }
    }
}

#[test]
fn scenario_c_reset_zeroes_density() {
    let mut hm = ten_by_ten(2, 2000);
    hm.add_one_point(5_000, 5_000, 1_500);
    hm.add_one_point(2_000, 7_000, 900);
    hm.reset();
    for row in 0..10 {
        for col in 0..10 {
            assert_eq!(hm.heat_value(row, col), Ok(0));
        }
    }
    // The color grid intentionally keeps its last computed contents.
    assert_ne!(hm.color_value(4, 5), Ok(RGBA::new(0, 0, 0, 0)));
}

#[test]
fn scenario_d_empty_gradient_rejected() {
    let mut hm = ten_by_ten(1, 2000);
    hm.add_one_point(5_000, 5_000, 1_000);
    let before = hm.color_value(4, 5);
    assert_eq!(hm.set_gradients(Vec::new()), Err(HeatMapError::EmptyGradient));
    // The state is unchanged: the old gradient still drives the recolor.
    hm.tag2();
    assert_eq!(hm.color_value(4, 5), before);
}

#[test]
fn scenario_e_out_of_bounds_query() {
    let hm = ten_by_ten(1, 2000);
    // One past the last valid row.
    assert_eq!(hm.heat_value(10, 0), Err(HeatMapError::OutOfBounds));
    assert_eq!(hm.color_value(10, 0), Err(HeatMapError::OutOfBounds));
    assert_eq!(hm.heat_value(0, 10), Err(HeatMapError::OutOfBounds));
    assert!(hm.heat_value(9, 9).is_ok());
}

#[test]
fn recoloring_is_deterministic() {
    let mut hm = ten_by_ten(2, 2000);
    hm.add_one_point(5_000, 5_000, 1_234);
    hm.tag2();
    let first = hm.color_values().clone();
    hm.tag2();
    let second = hm.color_values().clone();
    assert_eq!(first, second);
}

#[test]
fn color_continuous_at_step_boundary() {
    // Three stops under ceiling 3.0: step_len = 1.0. A density exactly at
    // the boundary 2.0 maps exactly to the lower stop G[1].
    let mut hm = ten_by_ten(0, 3000);
    let stops = vec![
        RGBA::new(255, 255, 255, 255),
        RGBA::new(200, 100, 50, 255),
        RGBA::new(0, 0, 0, 255),
    ];
    hm.set_gradients(stops).unwrap();
    hm.add_one_point(5_000, 5_000, 2_000);
    hm.tag2();
    assert_eq!(hm.color_value(4, 5), Ok(RGBA::new(200, 100, 50, 255)));
}

#[test]
fn color_interpolates_midband() {
    // Density 1.5 under ceiling 2.0 with stops white and black: fraction
    // one half, each channel rounds 127.5 up to 128.
    let mut hm = ten_by_ten(0, 2000);
    hm.add_one_point(5_000, 5_000, 1_500);
    assert_eq!(hm.color_value(4, 5), Ok(RGBA::new(128, 128, 128, 255)));
}

#[test]
fn color_alpha_ramp_in_first_band() {
    // Density 0.5 under ceiling 2.0: first band, alpha = round(255 * 0.5).
    let mut hm = ten_by_ten(0, 2000);
    hm.add_one_point(5_000, 5_000, 500);
    assert_eq!(hm.color_value(4, 5), Ok(RGBA::new(255, 255, 255, 128)));
}

#[test]
fn color_clamps_at_ceiling() {
    let mut hm = ten_by_ten(0, 2000);
    hm.add_one_point(5_000, 5_000, 5_000);
    assert_eq!(hm.color_value(4, 5), Ok(RGBA::new(0, 0, 0, 255)));
}

#[test]
fn color_transparent_at_zero_density() {
    let hm = ten_by_ten(0, 2000);
    assert_eq!(hm.color_value(0, 0), Ok(RGBA::new(0, 0, 0, 0)));
    let mut hm = ten_by_ten(0, 2000);
    hm.tag2();
    assert_eq!(hm.color_value(0, 0), Ok(RGBA::new(255, 255, 255, 0)));
}

#[test]
fn negative_density_is_transparent_first_stop() {
    let mut hm = ten_by_ten(0, 2000);
    hm.add_one_point(5_000, 5_000, -1_000);
    assert_eq!(hm.heat_value(4, 5), Ok(-1_000));
    assert_eq!(hm.color_value(4, 5), Ok(RGBA::new(255, 255, 255, 0)));
}

#[test]
fn radius_two_kernel_weights() {
    // At radius 2: the center keeps the full value, a cell at distance 1
    // gets weight 1 - 1/2 = 0.5, a diagonal at distance sqrt(2) gets
    // 1 - floor(1000 * sqrt(2)) / 2 / 1000 = 0.293, and the ring at
    // distance 2 gets zero.
    let mut hm = ten_by_ten(2, 10_000);
    hm.add_one_point(5_000, 5_000, 1_000);
    assert_eq!(hm.heat_value(4, 5), Ok(1_000));
    assert_eq!(hm.heat_value(4, 6), Ok(500));
    assert_eq!(hm.heat_value(4, 4), Ok(500));
    assert_eq!(hm.heat_value(3, 5), Ok(500));
    assert_eq!(hm.heat_value(3, 6), Ok(293));
    assert_eq!(hm.heat_value(5, 4), Ok(293));
    assert_eq!(hm.heat_value(4, 7), Ok(0));
    assert_eq!(hm.heat_value(2, 5), Ok(0));
    // Beyond the circle: distance sqrt(5) > 2.
    assert_eq!(hm.heat_value(2, 6), Ok(0));
}

#[test]
fn splats_outside_grid_are_discarded() {
    let mut hm = ten_by_ten(3, 2000);
    // Center cell outside the grid; only the fringe inside is touched.
    hm.add_one_point(-500, 5_000, 1_000);
    for row in 0..10 {
        for col in 3..10 {
            assert_eq!(hm.heat_value(row, col), Ok(0));
        }
    }
    // A point far outside touches nothing.
    hm.reset();
    hm.add_one_point(50_000, 50_000, 1_000);
    for row in 0..10 {
        for col in 0..10 {
            assert_eq!(hm.heat_value(row, col), Ok(0));
        }
    }
}

#[test]
fn flip_y_convention() {
    let mut hm = ten_by_ten(0, 2000);
    hm.set_flip_y(false);
    hm.add_one_point(5_000, 5_000, 1_000);
    assert_eq!(hm.heat_value(5, 5), Ok(1_000));
    assert_eq!(hm.heat_value(4, 5), Ok(0));
}

#[test]
fn construction_errors() {
    assert!(matches!(
        HeatMap::new(0, 1, 0, 0, 10_000, 10_000, 2000),
        Err(HeatMapError::ZeroWidth)
    ));
    assert!(matches!(
        HeatMap::new(10, 1, 10_000, 0, 0, 10_000, 2000),
        Err(HeatMapError::InvalidBounds)
    ));
    assert!(matches!(
        HeatMap::new(10, 1, 0, 10_000, 10_000, 0, 2000),
        Err(HeatMapError::InvalidBounds)
    ));
    assert!(matches!(
        HeatMap::new(0x1000_0001, 1, 0, 0, 10_000, 10_000, 2000),
        Err(HeatMapError::GridTooLarge)
    ));
    // 100_000 columns over a bounding box a hundred times taller than wide.
    assert!(matches!(
        HeatMap::new(100_000, 1, 0, 0, 1_000, 100_000, 2000),
        Err(HeatMapError::GridTooLarge)
    ));
}

#[test]
fn non_square_grid_height() {
    // width 10 over a box 10 wide and 25 tall: 25 rows.
    let hm = HeatMap::new(10, 1, 0, 0, 10_000, 25_000, 2000).unwrap();
    assert_eq!(hm.width(), 10);
    assert_eq!(hm.height(), 25);
    // A fractional row count rounds up: 10 wide, 10.5 tall.
    let hm = HeatMap::new(10, 1, 0, 0, 10_000, 10_500, 2000).unwrap();
    assert_eq!(hm.height(), 11);
}

#[test]
fn add_points_structured() {
    let mut hm = ten_by_ten(0, 2000);
    let pts = vec![
        HeatPoint::new(5_000, 5_000, 400),
        HeatPoint::new(5_000, 5_000, 250),
        HeatPoint::new(1_000, 1_000, 900),
    ];
    hm.add_points(pts);
    assert_eq!(hm.heat_value(4, 5), Ok(650));
    assert_eq!(hm.heat_value(8, 1), Ok(900));
}

#[test]
fn add_points_v2_flat_triples() {
    let mut hm = ten_by_ten(0, 2000);
    hm.add_points_v2(vec![5_000, 5_000, 400, 1_000, 1_000, 900]).unwrap();
    assert_eq!(hm.heat_value(4, 5), Ok(400));
    assert_eq!(hm.heat_value(8, 1), Ok(900));
    // The recolor already ran: alpha ramp at 0.4 / 2.0 of the ceiling.
    assert_eq!(hm.color_value(4, 5), Ok(RGBA::new(255, 255, 255, 102)));
}

#[test]
fn add_points_v2_rejects_bad_length() {
    let mut hm = ten_by_ten(0, 2000);
    assert_eq!(
        hm.add_points_v2(vec![1, 2, 3, 4]),
        Err(HeatMapError::TripleLength)
    );
    // Rejected before any mutation.
    assert_eq!(hm.heat_value(4, 5), Ok(0));
}

#[test]
fn add_points_v3_queues_without_mutation() {
    let mut hm = ten_by_ten(0, 2000);
    assert_eq!(hm.add_points_v3(vec![5_000, 5_000, 400]), Ok(()));
    assert_eq!(hm.heat_value(4, 5), Ok(0));
    assert_eq!(
        hm.add_points_v3(vec![1, 2]),
        Err(HeatMapError::TripleLength)
    );
    hm.calc_heatmap();
    assert_eq!(hm.heat_value(4, 5), Ok(400));
}

#[test]
fn calc_heatmap_replays_whole_queue() {
    // The queue is not drained by a compute call: a second call splats
    // every queued point again.
    let mut hm = ten_by_ten(0, 2000);
    hm.add_points_v3(vec![5_000, 5_000, 400]).unwrap();
    hm.calc_heatmap();
    assert_eq!(hm.heat_value(4, 5), Ok(400));
    hm.calc_heatmap();
    assert_eq!(hm.heat_value(4, 5), Ok(800));
}

#[test]
fn tag1_accumulates_tag2_recolors() {
    let mut hm = ten_by_ten(0, 2000);
    hm.add_points_v3(vec![5_000, 5_000, 1_000]).unwrap();
    hm.tag1();
    assert_eq!(hm.heat_value(4, 5), Ok(1_000));
    // No recolor yet: the color grid still holds its zeroed initial state.
    assert_eq!(hm.color_value(4, 5), Ok(RGBA::new(0, 0, 0, 0)));
    hm.tag2();
    assert_eq!(hm.color_value(4, 5), Ok(RGBA::new(255, 255, 255, 255)));
}

#[test]
fn set_max_heat_and_gradient_take_effect_on_next_recolor() {
    let mut hm = ten_by_ten(0, 2000);
    hm.add_one_point(5_000, 5_000, 1_000);
    assert_eq!(hm.color_value(4, 5), Ok(RGBA::new(255, 255, 255, 255)));
    hm.set_max_heat(1_000);
    // Still the old colors until a recolor is requested.
    assert_eq!(hm.color_value(4, 5), Ok(RGBA::new(255, 255, 255, 255)));
    hm.tag2();
    // Now 1.0 clamps at the new ceiling: the last stop.
    assert_eq!(hm.color_value(4, 5), Ok(RGBA::new(0, 0, 0, 255)));
    hm.set_gradients(vec![RGBA::new(10, 20, 30, 40)]).unwrap();
    hm.tag2();
    assert_eq!(hm.color_value(4, 5), Ok(RGBA::new(10, 20, 30, 40)));
}

#[test]
fn set_radius_affects_only_later_splats() {
    let mut hm = ten_by_ten(0, 10_000);
    hm.add_one_point(5_000, 5_000, 1_000);
    assert_eq!(hm.heat_value(4, 6), Ok(0));
    hm.set_radius(2);
    hm.add_one_point(5_000, 5_000, 1_000);
    assert_eq!(hm.heat_value(4, 5), Ok(2_000));
    assert_eq!(hm.heat_value(4, 6), Ok(500));
}

#[test]
fn accumulation_is_additive_and_local() {
    // A later splat leaves every cell beyond its circle untouched.
    let mut hm = ten_by_ten(1, 2000);
    hm.add_one_point(2_000, 2_000, 1_000);
    assert_eq!(hm.heat_value(7, 2), Ok(1_000));
    hm.add_one_point(8_000, 8_000, 600);
    assert_eq!(hm.heat_value(7, 2), Ok(1_000));
    assert_eq!(hm.heat_value(1, 8), Ok(600));
    // Overlapping splats add up.
    hm.add_one_point(2_000, 2_000, 250);
    assert_eq!(hm.heat_value(7, 2), Ok(1_250));
}

#[test]
fn rgba_value_type() {
    let c = RGBA::new(1, 2, 3, 4);
    assert_eq!(c, RGBA { r: 1, g: 2, b: 3, a: 4 });
    assert_ne!(c, RGBA::new(1, 2, 3, 5));
    let p = HeatPoint::new(-7, 9, 11);
    assert_eq!(p.x, -7);
    assert_eq!(p.y, 9);
    assert_eq!(p.value, 11);
}
