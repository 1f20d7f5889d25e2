use lenia::cell::color_index;
use lenia::game::{GameOfLife, Rgb};
use lenia::params::{parse_param, ParamId};

#[test]
fn defaults_are_the_documented_ones() {
    let g = GameOfLife::new(750, 750, 5);
    assert_eq!(g.params.update_freq_milli, 10_000); // 10 steps/s
    assert_eq!(g.params.kernel_rad, 13);
    assert_eq!(g.params.bell_m_milli, 120); // 0.12
    assert_eq!(g.params.bell_s_milli, 15); // 0.015
    assert_eq!(g.params.noise_intensity_milli, 100); // 0.1
    assert_eq!(g.pixel_edge_size, 5);
    assert!(g.noise_enabled);
    assert!(!g.running);
    assert_eq!(g.generation, 0);
    assert_eq!(g.gradient_idx, 0);
    assert_eq!(g.colors.len(), 256);
}

#[test]
fn adjustment_clamps_whatever_the_delta() {
    let mut g = GameOfLife::new(100, 100, 5);
    // A huge positive delta pins the value at its upper bound.
    g.change_parameter("update_freq", i64::MAX);
    assert_eq!(g.params.update_freq_milli, 100_000);
    // Repeating it cannot push past the bound.
    g.change_parameter("update_freq", i64::MAX);
    assert_eq!(g.params.update_freq_milli, 100_000);
    // A huge negative delta pins it at the lower bound.
    g.change_parameter("update_freq", i64::MIN);
    assert_eq!(g.params.update_freq_milli, 1_000);

    g.change_parameter("bell_m", 5_000_000);
    assert_eq!(g.params.bell_m_milli, 1_000); // 1.0
    g.change_parameter("bell_m", -5_000_000);
    assert_eq!(g.params.bell_m_milli, 10); // the 0.01 floor
    g.change_parameter("bell_s", -5_000_000);
    assert_eq!(g.params.bell_s_milli, 10); // stddev floor stays positive
    g.change_parameter("noise_intensity", -1);
    assert_eq!(g.params.noise_intensity_milli, 99);
    g.change_parameter("noise_intensity", -1_000_000);
    assert_eq!(g.params.noise_intensity_milli, 0);
}

#[test]
fn ordinary_deltas_step_as_documented() {
    let mut g = GameOfLife::new(100, 100, 5);
    g.change_parameter("update_freq", 1_000); // the +1.0 key binding
    assert_eq!(g.params.update_freq_milli, 11_000);
    g.change_parameter("bell_m", 10); // +0.01
    assert_eq!(g.params.bell_m_milli, 130);
    g.change_parameter("bell_s", 1); // +0.001
    assert_eq!(g.params.bell_s_milli, 16);
}

#[test]
fn kernel_radius_stays_whole_and_clamped() {
    let mut g = GameOfLife::new(100, 100, 5);
    g.change_parameter("kernel_rad", 1_000);
    assert_eq!(g.params.kernel_rad, 14);
    g.change_parameter("kernel_rad", i64::MAX);
    assert_eq!(g.params.kernel_rad, 20);
    g.change_parameter("kernel_rad", i64::MIN);
    assert_eq!(g.params.kernel_rad, 1);
    // A half-cell delta truncates back to a whole radius.
    g.change_parameter("kernel_rad", 500);
    assert_eq!(g.params.kernel_rad, 1);
}

#[test]
fn unknown_parameter_name_is_a_silent_no_op() {
    let mut g = GameOfLife::new(100, 100, 5);
    let before_params = g.params;
    let before_cells = g.pxl_vec.clone();
    g.change_parameter("no_such_parameter", 1_000_000);
    assert_eq!(g.params, before_params);
    assert_eq!(g.pxl_vec, before_cells);
    assert_eq!(parse_param("no_such_parameter"), None);
    assert_eq!(parse_param("bell_m"), Some(ParamId::BellM));
}

#[test]
fn edge_size_clamps_and_rebuilds_the_grid() {
    let mut g = GameOfLife::new(750, 750, 5);
    g.change_pixel_size(2);
    assert_eq!(g.pixel_edge_size, 7);
    assert_eq!(g.a_width, 107);
    g.change_pixel_size(-1_000);
    assert_eq!(g.pixel_edge_size, 1);
    assert_eq!(g.a_width, 750);
    g.change_pixel_size(1_000);
    assert_eq!(g.pixel_edge_size, 50);
    assert_eq!(g.a_width, 15);
    // A delta that clamps back to the current size changes nothing.
    let cells = g.pxl_vec.clone();
    g.change_pixel_size(100);
    assert_eq!(g.pixel_edge_size, 50);
    assert_eq!(g.pxl_vec, cells);
}

#[test]
fn reset_restores_the_baseline_together() {
    let mut g = GameOfLife::new(750, 750, 5);
    g.toggle_noise();
    g.change_parameter("update_freq", 90_000);
    g.change_pixel_size(3);
    let n = g.pxl_vec.len();
    g.commit_step(vec![0u64; n], 20);
    assert_eq!(g.generation, 1);

    g.reset_parameters();
    assert_eq!(g.params.update_freq_milli, 10_000);
    assert_eq!(g.params.kernel_rad, 13);
    assert_eq!(g.params.bell_m_milli, 120);
    assert_eq!(g.params.bell_s_milli, 15);
    assert_eq!(g.params.noise_intensity_milli, 100);
    assert_eq!(g.pixel_edge_size, 5);
    assert!(g.noise_enabled);
    assert_eq!(g.generation, 0);
    // The grid is reseeded at the current physical size.
    let fresh = GameOfLife::new(750, 750, 5);
    assert_eq!(g.pxl_vec, fresh.pxl_vec);
}

#[test]
fn gradients_cycle_and_wrap() {
    let mut g = GameOfLife::new(100, 100, 5);
    assert_eq!(g.gradient_idx, 0);
    assert_eq!(g.switch_gradient(), 1);
    assert_eq!(g.switch_gradient(), 2);
    assert_eq!(g.switch_gradient(), 3);
    assert_eq!(g.switch_gradient(), 4);
    // After the last entry the cycle wraps to the first.
    assert_eq!(g.switch_gradient(), 0);
    assert_eq!(g.gradient_idx, 0);
}

#[test]
fn color_table_is_replaced_whole() {
    let mut g = GameOfLife::new(100, 100, 5);
    let table: Vec<Rgb> = (0..=255u8).map(|i| Rgb { r: i, g: 0, b: 255 - i }).collect();
    g.set_color_table(table.clone());
    assert_eq!(g.colors, table);
}

#[test]
fn color_index_rounds_the_scaled_value() {
    assert_eq!(color_index((0.0f64).to_bits()), 0);
    assert_eq!(color_index((1.0f64).to_bits()), 255);
    // 0.5 * 255 = 127.5; halves round up.
    assert_eq!(color_index((0.5f64).to_bits()), 128);
    assert_eq!(color_index((0.25f64).to_bits()), 64); // 63.75
    assert_eq!(color_index((0.75f64).to_bits()), 191); // 191.25
    // The double nearest 0.3 is a hair under it, so 255 * value stays
    // below 76.5 and rounds down.
    assert_eq!(color_index((0.3f64).to_bits()), 76);
    assert_eq!(color_index((0.001f64).to_bits()), 0); // 0.255
    assert_eq!(color_index((0.002f64).to_bits()), 1); // 0.51
    assert_eq!(color_index((1e-300f64).to_bits()), 0);
    assert_eq!(color_index(f64::MIN_POSITIVE.to_bits() >> 1), 0); // subnormal
    // Out-of-range proposals are clamped before the lookup.
    assert_eq!(color_index((2.0f64).to_bits()), 255);
    assert_eq!(color_index((-3.0f64).to_bits()), 0);
}

#[test]
fn cell_color_reads_the_table() {
    let mut g = GameOfLife::new(50, 50, 5);
    let table: Vec<Rgb> = (0..=255u8).map(|i| Rgb { r: i, g: i, b: i }).collect();
    g.set_color_table(table);
    g.add_cells_with_brush(0, 0, 0, (1.0f64).to_bits());
    assert_eq!(g.cell_color(0), Rgb { r: 255, g: 255, b: 255 });
    g.add_cells_with_brush(0, 0, 0, (0.5f64).to_bits());
    assert_eq!(g.cell_color(0), Rgb { r: 128, g: 128, b: 128 });
    g.add_cells_with_brush(0, 0, 0, (0.0f64).to_bits());
    assert_eq!(g.cell_color(0), Rgb { r: 0, g: 0, b: 0 });
}
