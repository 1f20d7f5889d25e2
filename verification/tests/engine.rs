use lenia::cell::UNIT_ONE_BITS;
use lenia::game::GameOfLife;
use rand::rngs::StdRng;
use rand::{Rng, SeedableRng};

#[test]
fn logical_dims_truncate() {
    // 750 / 5 divides evenly; 750 / 7 truncates the remainder away.
    let g = GameOfLife::new(750, 750, 5);
    assert_eq!(g.a_width, 150);
    assert_eq!(g.a_height, 150);
    assert_eq!(g.pxl_vec.len(), 150 * 150);

    let g = GameOfLife::new(750, 750, 7);
    assert_eq!(g.a_width, 107);
    assert_eq!(g.a_height, 107);
    assert_eq!(g.pxl_vec.len(), 107 * 107);
}

#[test]
fn resize_truncates_and_reseeds() {
    let mut g = GameOfLife::new(100, 100, 5);
    g.resize(323, 204);
    assert_eq!(g.a_width, 64);
    assert_eq!(g.a_height, 40);
    assert_eq!(g.pxl_vec.len(), 64 * 40);
    // A fresh simulation of the same logical size carries the same cells.
    let h = GameOfLife::new(323, 204, 5);
    assert_eq!(g.pxl_vec, h.pxl_vec);
}

#[test]
fn reinitialisation_is_deterministic() {
    let a = GameOfLife::new(400, 300, 4);
    let b = GameOfLife::new(400, 300, 4);
    assert_eq!(a.pxl_vec, b.pxl_vec);

    // Resizing away and back reproduces the original buffer bit for bit.
    let mut c = GameOfLife::new(400, 300, 4);
    c.resize(50, 50);
    c.resize(400, 300);
    assert_eq!(a.pxl_vec, c.pxl_vec);
}

#[test]
fn initial_cells_match_seeded_generator() {
    // The grid fill must be exactly the doubles the fixed-seed standard
    // generator draws uniformly from [0, 1).
    let g = GameOfLife::new(100, 60, 5);
    let n = g.pxl_vec.len();
    assert_eq!(n, 20 * 12);
    let mut rng = StdRng::seed_from_u64(42);
    for i in 0..n {
        let expected: f64 = rng.gen();
        assert_eq!(
            g.pxl_vec[i],
            expected.to_bits(),
            "cell {} disagrees with the seeded generator",
            i
        );
    }
}

#[test]
fn initial_cells_are_in_range() {
    let g = GameOfLife::new(200, 200, 2);
    for &w in &g.pxl_vec {
        assert!(w < UNIT_ONE_BITS);
        let v = f64::from_bits(w);
        assert!((0.0..1.0).contains(&v));
    }
}

#[test]
fn scheduler_gates_on_running_tick_and_elapsed() {
    let mut g = GameOfLife::new(100, 100, 5);
    // Paused: never due, but the counter still advances.
    assert!(!g.update(1000));
    assert_eq!(g.update_skip_counter, 1);

    let mut g = GameOfLife::new(100, 100, 5);
    g.toggle_running();
    // Counter 0 is divisible by 10 and enough time has passed.
    assert!(g.update(100));
    // Counters 1..=9 are not divisible by 10.
    for _ in 1..10 {
        assert!(!g.update(100));
    }
    // Counter 10 is due again.
    assert!(g.update(100));

    // The wall-clock gate: under 16 ms is not due even on a tenth tick.
    let mut g = GameOfLife::new(100, 100, 5);
    g.toggle_running();
    assert!(!g.update(15));
    let mut g = GameOfLife::new(100, 100, 5);
    g.toggle_running();
    assert!(g.update(16));
}

#[test]
fn commit_clamps_every_cell_and_counts_generations() {
    let mut g = GameOfLife::new(20, 20, 5);
    let n = g.pxl_vec.len();
    assert_eq!(n, 16);
    assert_eq!(g.generation, 0);

    let mut proposed = vec![0u64; n];
    proposed[0] = (2.5f64).to_bits(); // overshoot above 1.0
    proposed[1] = (-0.25f64).to_bits(); // negative undershoot
    proposed[2] = (0.5f64).to_bits(); // in range: kept exactly
    proposed[3] = (1.0f64).to_bits(); // boundary: kept
    proposed[4] = f64::INFINITY.to_bits();
    proposed[5] = f64::NEG_INFINITY.to_bits();

    g.commit_step(proposed, 20);
    assert_eq!(g.generation, 1);
    assert_eq!(g.step_rate_milli, 1_000_000 / 20);

    assert_eq!(g.pxl_vec[0], (1.0f64).to_bits());
    assert_eq!(g.pxl_vec[1], (0.0f64).to_bits());
    assert_eq!(g.pxl_vec[2], (0.5f64).to_bits());
    assert_eq!(g.pxl_vec[3], (1.0f64).to_bits());
    assert_eq!(g.pxl_vec[4], (1.0f64).to_bits());
    assert_eq!(g.pxl_vec[5], (0.0f64).to_bits());
    for &w in &g.pxl_vec {
        let v = f64::from_bits(w);
        assert!((0.0..=1.0).contains(&v));
    }

    // A zero-millisecond step reads as an unmeasurably fast rate.
    let proposed = vec![0u64; n];
    g.commit_step(proposed, 0);
    assert_eq!(g.generation, 2);
    assert_eq!(g.step_rate_milli, u64::MAX);
}

fn painted_cells(before: &[u64], after: &[u64]) -> Vec<usize> {
    (0..before.len()).filter(|&i| before[i] != after[i]).collect()
}

#[test]
fn brush_radius_zero_paints_one_cell() {
    let mut g = GameOfLife::new(50, 50, 5); // 10 x 10 cells
    let before = g.pxl_vec.clone();
    // Pixel (12, 7) lies in cell (2, 1).
    g.add_cells_with_brush(12, 7, 0, (1.0f64).to_bits());
    let changed = painted_cells(&before, &g.pxl_vec);
    assert_eq!(changed, vec![1 * 10 + 2]);
    assert_eq!(g.pxl_vec[12], (1.0f64).to_bits());
}

#[test]
fn brush_paints_exactly_the_circular_mask() {
    let mut g = GameOfLife::new(50, 50, 5); // 10 x 10 cells
    let before = g.pxl_vec.clone();
    // Centre cell (5, 5), radius 2.
    g.add_cells_with_brush(27, 27, 2, (1.0f64).to_bits());
    let mut expected: Vec<usize> = Vec::new();
    for iy in 0i64..10 {
        for ix in 0i64..10 {
            let (dx, dy) = (ix - 5, iy - 5);
            if dx * dx + dy * dy <= 4 {
                expected.push((iy * 10 + ix) as usize);
            }
        }
    }
    let changed: Vec<usize> = (0..g.pxl_vec.len())
        .filter(|&i| g.pxl_vec[i] == (1.0f64).to_bits() && before[i] != (1.0f64).to_bits())
        .collect();
    assert_eq!(changed, expected);
    // 13 cells: the radius-2 disc.
    assert_eq!(expected.len(), 13);
}

#[test]
fn brush_clips_at_the_border_and_never_errors() {
    let mut g = GameOfLife::new(50, 50, 5);
    let before = g.pxl_vec.clone();
    // Centre cell (0, 0): only the in-bounds quarter of the disc is painted.
    g.add_cells_with_brush(0, 0, 1, (1.0f64).to_bits());
    let changed = painted_cells(&before, &g.pxl_vec);
    assert_eq!(changed, vec![0, 1, 10]);

    // A centre far outside the grid paints nothing.
    let mut g = GameOfLife::new(50, 50, 5);
    let before = g.pxl_vec.clone();
    g.add_cells_with_brush(-500, -500, 3, (1.0f64).to_bits());
    assert_eq!(painted_cells(&before, &g.pxl_vec), Vec::<usize>::new());

    // A negative radius paints nothing.
    let mut g = GameOfLife::new(50, 50, 5);
    let before = g.pxl_vec.clone();
    g.add_cells_with_brush(25, 25, -1, (1.0f64).to_bits());
    assert_eq!(painted_cells(&before, &g.pxl_vec), Vec::<usize>::new());
}

#[test]
fn brush_overwrites_dead_state_too() {
    let mut g = GameOfLife::new(50, 50, 5);
    g.add_cells_with_brush(27, 27, 2, (1.0f64).to_bits());
    g.add_cells_with_brush(27, 27, 2, (0.0f64).to_bits());
    assert_eq!(g.pxl_vec[5 * 10 + 5], (0.0f64).to_bits());
}

#[test]
fn row_major_indexing() {
    let g = GameOfLife::new(50, 40, 5); // 10 x 8 cells
    assert_eq!(g.cell_xy(0), (0, 0));
    assert_eq!(g.cell_xy(12), (2, 1));
    assert_eq!(g.cell_xy(79), (9, 7));
}

#[test]
fn kernel_window_follows_the_radius() {
    let mut g = GameOfLife::new(750, 750, 5);
    g.change_parameter("kernel_rad", -12_000); // radius 13 -> 1
    assert_eq!(g.params.kernel_rad, 1);
    assert_eq!(g.kernel_window(75, 80), (74, 76, 79, 81));
    assert_eq!(g.kernel_window(0, 0), (0, 1, 0, 1));
}

#[test]
fn kernel_window_clips_at_edges() {
    let g = GameOfLife::new(750, 750, 5); // 150 x 150, default radius 13
    // Interior cell: the full square window.
    let (x0, x1, y0, y1) = g.kernel_window(75, 80);
    assert_eq!((x0, x1, y0, y1), (62, 88, 67, 93));
    // Corner cell: clipped to the in-bounds part, never wrapped.
    let (x0, x1, y0, y1) = g.kernel_window(0, 149);
    assert_eq!((x0, x1), (0, 13));
    assert_eq!((y0, y1), (136, 149));
    // The window always contains the cell itself.
    assert!(x0 <= 0 && 0 <= x1);
    assert!(y0 <= 149 && 149 <= y1);
}
