use psbfont::metrics::{calculate_metrics, fixed_height};
use psbfont::types::{AppConfig, FontMetrics, FontSizeConfig};

const ONE: i32 = 65536;

#[allow(non_snake_case)]
fn tier(maxHeight: i32, minHeight: i32) -> FontSizeConfig {
    FontSizeConfig { maxHeight, maxWidth: maxHeight, minHeight, minWidth: 8 * ONE }
}

fn config(tiers: Vec<FontSizeConfig>, correction: i32) -> AppConfig {
    AppConfig {
        output_dir: String::from("out"),
        chars_file: String::from("chars.txt"),
        font_sizes: tiers,
        atlas_max_size: 2048,
        global_offset_correction: correction,
        global_scale: ONE,
        fonts: Vec::new(),
    }
}

#[test]
fn fixed_height_is_the_larger_height_rounded_up() {
    assert_eq!(fixed_height(&tier(32 * ONE, 24 * ONE)), 32);
    assert_eq!(fixed_height(&tier(24 * ONE, 32 * ONE)), 32);
    assert_eq!(fixed_height(&tier(31 * ONE + 1, 24 * ONE)), 32);
    assert_eq!(fixed_height(&tier(24 * ONE, 24 * ONE + ONE / 2)), 25);
    assert_eq!(fixed_height(&tier(0, 0)), 0);
}

#[test]
fn fixed_height_is_never_negative() {
    assert_eq!(fixed_height(&tier(-5 * ONE, -7 * ONE)), 0);
    assert_eq!(fixed_height(&tier(i32::MIN, i32::MIN)), 0);
    assert_eq!(fixed_height(&tier(i32::MAX, 0)), 32768);
}

#[test]
fn metrics_without_correction() {
    let t = tier(32 * ONE, 24 * ONE);
    let m = calculate_metrics(26 * ONE, &t, &config(vec![t], 0), 32 * ONE);
    assert_eq!(
        m,
        FontMetrics {
            baseline_y: 26 * 65536,
            param_a: -6 * 65536,
            param_b: 26 * 65536,
            param_d: 32 * 65536,
        }
    );
}

#[test]
fn render_size_is_centred_in_the_cell() {
    let t = tier(32 * ONE, 24 * ONE);
    let m = calculate_metrics(20 * ONE, &t, &config(vec![t], 0), 24 * ONE);
    assert_eq!(m.baseline_y, 24 * 65536);
    let m = calculate_metrics(20 * ONE, &t, &config(vec![t], 0), 40 * ONE);
    assert_eq!(m.baseline_y, 16 * 65536);
    let m = calculate_metrics(0, &t, &config(vec![t], 0), 31 * ONE + ONE / 2);
    assert_eq!(m.baseline_y, 16384);
    let m = calculate_metrics(0, &t, &config(vec![t], 0), 32 * ONE + 1);
    assert_eq!(m.baseline_y, -1);
}

#[test]
fn correction_scales_with_the_tier_and_is_rounded() {
    let small = tier(16 * ONE, 16 * ONE);
    let large = tier(32 * ONE, 32 * ONE);
    let cfg = config(vec![small, large], 3 * ONE);
    let m = calculate_metrics(12 * ONE, &small, &cfg, 16 * ONE);
    assert_eq!(m.baseline_y, 12 * 65536);
    assert_eq!(m.param_b, 14 * 65536);
    assert_eq!(m.param_a, -2 * 65536);
    assert_eq!(m.param_d, 16 * 65536);
    let m = calculate_metrics(24 * ONE, &large, &cfg, 32 * ONE);
    assert_eq!(m.param_b, 27 * 65536);
    assert_eq!(m.param_a, -5 * 65536);
}

#[test]
fn negative_correction_rounds_away_from_zero() {
    let small = tier(16 * ONE, 16 * ONE);
    let large = tier(32 * ONE, 32 * ONE);
    let cfg = config(vec![small, large], -3 * ONE);
    let m = calculate_metrics(12 * ONE, &small, &cfg, 16 * ONE);
    assert_eq!(m.param_b, 10 * 65536);
    let cfg = config(vec![small, large], -2 * ONE - ONE / 2);
    let m = calculate_metrics(12 * ONE, &small, &cfg, 16 * ONE);
    assert_eq!(m.param_b, 11 * 65536);
}

#[test]
fn a_larger_correction_moves_top_and_bottom_alike() {
    let small = tier(16 * ONE, 16 * ONE);
    let large = tier(32 * ONE, 32 * ONE);
    let before = calculate_metrics(12 * ONE, &small, &config(vec![small, large], 3 * ONE), 16 * ONE);
    let after = calculate_metrics(12 * ONE, &small, &config(vec![small, large], 7 * ONE), 16 * ONE);
    assert_eq!(after.param_a - before.param_a, 2 * 65536);
    assert_eq!(after.param_b - before.param_b, 2 * 65536);
    assert_eq!(after.baseline_y, before.baseline_y);
    assert_eq!(after.param_d, before.param_d);
}

#[test]
fn the_last_tier_is_the_reference() {
    let a = tier(10 * ONE, 10 * ONE);
    let b = tier(40 * ONE, 40 * ONE);
    let c = tier(20 * ONE, 20 * ONE);
    let m = calculate_metrics(0, &b, &config(vec![a, b, c], 4 * ONE), 40 * ONE);
    assert_eq!(m.param_b, 8 * 65536);
}
