//! The simulation state and its operations.
//!
//! One `GameOfLife` value owns the cell grid, the parameter store, the step
//! scheduler's counters and the colour-table bookkeeping.  Cell scalars are
//! held as double bit patterns (see `crate::cell`); the floating-point kernel
//! of a step runs outside and hands its per-cell results to `commit_step`,
//! which clamps them and replaces the grid as one atomic snapshot.

use vstd::prelude::*;

verus! {

use crate::cell::{clamp_word, clamped_word, sample_word, sample_word_spec, UNIT_ONE_BITS};
use crate::params::{parse_param, parse_param_spec, ParamId, Params};
use crate::rng::{std_rng_stream, std_rng_words};
use vstd::arithmetic::div_mod::lemma_div_nonincreasing;
use vstd::arithmetic::mul::{lemma_mul_nonzero, lemma_mul_upper_bound};

/// Seed of the deterministic generator used for every grid (re)initialisation.
pub const GRID_SEED: u64 = 42;

/// Number of entries in the colour lookup table.
pub const COLOR_TABLE_LEN: usize = 256;

/// Number of gradients in the fixed, ordered list the renderer cycles through.
pub const GRADIENT_COUNT: usize = 5;

/// Cell-edge size in pixels, clamped to [1, 50].
pub const EDGE_MIN: u32 = 1;

pub const EDGE_MAX: u32 = 50;

pub const EDGE_DEFAULT: u32 = 5;

/// One entry of the colour lookup table.
#[derive(Clone, Copy, Debug, PartialEq, Eq, Structural)]
pub struct Rgb {
    pub r: u8,
    pub g: u8,
    pub b: u8,
}

/// The grid a fresh (re)initialisation produces for logical size `n`: the
/// seeded generator's words, each cut to its top 53 bits and encoded as the
/// pattern of a double in [0, 1).
pub open spec fn initial_cells(n: nat) -> Seq<u64> {
    Seq::new(n, |i: int| sample_word_spec(std_rng_stream(GRID_SEED, n)[i] >> 11u64))
}

/// Physical pixel coordinate to logical cell coordinate: division by the
/// edge size, truncating toward zero as hardware-integer division does.
pub open spec fn phys_to_cell(c: int, edge: int) -> int
    recommends
        edge >= 1,
{
    if c >= 0 {
        c / edge
    } else {
        -((-c) / edge)
    }
}

/// Lower edge of the clipped averaging window along one axis.
pub open spec fn win_lo(c: int, r: int) -> int {
    if c - r > 0 {
        c - r
    } else {
        0
    }
}

/// Upper edge of the clipped averaging window along one axis.
pub open spec fn win_hi(c: int, r: int, dim: int) -> int
    recommends
        c < dim,
{
    if c + r < dim - 1 {
        c + r
    } else {
        dim - 1
    }
}

/// A coordinate lies in the clipped window exactly when it is within the
/// kernel radius of the centre and inside the grid: out-of-bounds offsets
/// are skipped, not wrapped, mirrored or zero-filled.
pub proof fn lemma_window_membership(c: int, r: int, dim: int, n: int)
    requires
        0 <= c < dim,
        r >= 0,
    ensures
        (win_lo(c, r) <= n <= win_hi(c, r, dim)) <==> (c - r <= n <= c + r && 0 <= n < dim),
{
}

proof fn lemma_square_bound(x: int, b: int)
    by (nonlinear_arith)
    requires
        -b <= x <= b,
        0 <= b,
    ensures
        0 <= x * x <= b * b,
{
}

proof fn lemma_div_product_bound(w: int, h: int, e: int)
    requires
        0 <= w,
        0 <= h,
        1 <= e,
        w * h <= usize::MAX,
    ensures
        (w / e) * (h / e) <= usize::MAX,
{
    lemma_div_nonincreasing(w, e);
    lemma_div_nonincreasing(h, e);
    vstd::arithmetic::div_mod::lemma_div_pos_is_pos(w, e);
    vstd::arithmetic::div_mod::lemma_div_pos_is_pos(h, e);
    lemma_mul_upper_bound(w / e, w, h / e, h);
}

pub struct GameOfLife {
    /// Cell scalars as double bit patterns, row-major: cell (x, y) is at
    /// index `y * a_width + x`.
    pub pxl_vec: Vec<u64>,
    /// Whether scheduled steps execute.
    pub running: bool,
    /// Steps executed since the last parameter reset.
    pub generation: u64,
    /// Instantaneous steps-per-second metric, in thousandths (observability
    /// only; `u64::MAX` stands for an unmeasurably fast step).
    pub step_rate_milli: u64,
    /// Scheduler invocations so far; every tenth one may step.
    pub update_skip_counter: u64,
    /// Physical width in pixels.
    pub width: u32,
    /// Physical height in pixels.
    pub height: u32,
    /// Logical width in cells: `width / pixel_edge_size`.
    pub a_width: u32,
    /// Logical height in cells: `height / pixel_edge_size`.
    pub a_height: u32,
    /// Side of one cell in pixels.
    pub pixel_edge_size: u32,
    /// The range-clamped tunables.
    pub params: Params,
    /// The colour lookup table, always exactly `COLOR_TABLE_LEN` entries.
    pub colors: Vec<Rgb>,
    /// Index of the active gradient in the fixed list.
    pub gradient_idx: usize,
    /// Whether the per-step noise draw is applied.
    pub noise_enabled: bool,
}

impl GameOfLife {
    /// The configuration half of well-formedness: edge size and tunables in
    /// range, colour table full, gradient index in the list.
    pub open spec fn config_wf(self) -> bool {
        &&& EDGE_MIN <= self.pixel_edge_size <= EDGE_MAX
        &&& self.params.wf()
        &&& self.colors@.len() == COLOR_TABLE_LEN
        &&& self.gradient_idx < GRADIENT_COUNT
    }

    /// Well-formedness: logical dimensions derive from the physical ones by
    /// truncating division, the buffer has exactly one word per cell, and
    /// every cell pattern encodes a value in [0, 1].
    pub open spec fn wf(self) -> bool {
        &&& self.config_wf()
        &&& self.a_width == self.width / self.pixel_edge_size
        &&& self.a_height == self.height / self.pixel_edge_size
        &&& self.pxl_vec@.len() == self.a_width * self.a_height
        &&& forall|i: int|
            0 <= i < self.pxl_vec@.len() ==> self.pxl_vec@[i] <= UNIT_ONE_BITS
    }

    /// Fill a fresh buffer of `n` cells from the seeded generator.
    fn seeded_cells(n: usize) -> (cells: Vec<u64>)
        ensures
            cells@ == initial_cells(n as nat),
            cells@.len() == n,
            forall|i: int| 0 <= i < n ==> cells@[i] <= UNIT_ONE_BITS,
    {
        let words = std_rng_words(GRID_SEED, n);
        let mut cells: Vec<u64> = Vec::new();
        let mut i: usize = 0;
        while i < n
            invariant
                words@ == std_rng_stream(GRID_SEED, n as nat),
                words@.len() == n,
                i <= n,
                cells@.len() == i,
                forall|j: int| 0 <= j < i ==> cells@[j] == initial_cells(n as nat)[j],
                forall|j: int| 0 <= j < i ==> cells@[j] <= UNIT_ONE_BITS,
            decreases n - i,
        {
            let w = words[i];
            let k = w >> 11u64;
            proof {
                assert((w >> 11u64) < 0x20_0000_0000_0000u64) by (bit_vector);
            }
            cells.push(sample_word(k));
            i = i + 1;
        }
        proof {
            assert(cells@ =~= initial_cells(n as nat));
        }
        cells
    }

    /// Build a simulation for a `width x height` pixel surface whose cells
    /// are `pixel_edge_size` pixels on a side.  The grid is filled from the
    /// fixed-seed generator; the colour table starts black until the
    /// rendering collaborator supplies gradient samples.
    pub fn new(width: u32, height: u32, pixel_edge_size: u32) -> (game: GameOfLife)
        requires
            EDGE_MIN <= pixel_edge_size <= EDGE_MAX,
            width * height <= usize::MAX,
        ensures
            game.wf(),
            game.width == width,
            game.height == height,
            game.pixel_edge_size == pixel_edge_size,
            game.a_width == width / pixel_edge_size,
            game.a_height == height / pixel_edge_size,
            game.pxl_vec@ == initial_cells((game.a_width * game.a_height) as nat),
            game.running == false,
            game.generation == 0,
            game.step_rate_milli == 0,
            game.update_skip_counter == 0,
            game.params == Params::default_spec(),
            game.gradient_idx == 0,
            game.noise_enabled == true,
            forall|i: int|
                0 <= i < game.colors@.len() ==> game.colors@[i] == (Rgb { r: 0, g: 0, b: 0 }),
    {
        let a_width = width / pixel_edge_size;
        let a_height = height / pixel_edge_size;
        proof {
            lemma_mul_upper_bound(a_width as int, u32::MAX as int, a_height as int, u32::MAX as int);
            lemma_div_product_bound(width as int, height as int, pixel_edge_size as int);
        }
        let n: usize = ((a_width as u64) * (a_height as u64)) as usize;
        let pxl_vec = Self::seeded_cells(n);
        let mut colors: Vec<Rgb> = Vec::new();
        let mut i: usize = 0;
        while i < COLOR_TABLE_LEN
            invariant
                i <= COLOR_TABLE_LEN,
                colors@.len() == i,
                forall|j: int| 0 <= j < i ==> colors@[j] == (Rgb { r: 0, g: 0, b: 0 }),
            decreases COLOR_TABLE_LEN - i,
        {
            colors.push(Rgb { r: 0, g: 0, b: 0 });
            i = i + 1;
        }
        GameOfLife {
            pxl_vec,
            running: false,
            generation: 0,
            step_rate_milli: 0,
            update_skip_counter: 0,
            width,
            height,
            a_width,
            a_height,
            pixel_edge_size,
            params: Params::defaults(),
            colors,
            gradient_idx: 0,
            noise_enabled: true,
        }
    }

    /// Adopt new physical dimensions: recompute the logical dimensions from
    /// the current edge size and recreate the grid from the fixed seed.
    /// Resizing always wipes and reseeds; nothing of the old pattern is kept.
    pub fn resize(&mut self, new_width: u32, new_height: u32)
        requires
            old(self).config_wf(),
            new_width * new_height <= usize::MAX,
        ensures
            final(self).wf(),
            final(self).width == new_width,
            final(self).height == new_height,
            final(self).a_width == new_width / old(self).pixel_edge_size,
            final(self).a_height == new_height / old(self).pixel_edge_size,
            final(self).pxl_vec@ == initial_cells(
                (final(self).a_width * final(self).a_height) as nat,
            ),
            final(self).pixel_edge_size == old(self).pixel_edge_size,
            final(self).params == old(self).params,
            final(self).running == old(self).running,
            final(self).generation == old(self).generation,
            final(self).step_rate_milli == old(self).step_rate_milli,
            final(self).update_skip_counter == old(self).update_skip_counter,
            final(self).colors@ == old(self).colors@,
            final(self).gradient_idx == old(self).gradient_idx,
            final(self).noise_enabled == old(self).noise_enabled,
    {
        self.width = new_width;
        self.height = new_height;
        self.a_width = new_width / self.pixel_edge_size;
        self.a_height = new_height / self.pixel_edge_size;
        proof {
            lemma_mul_upper_bound(
                self.a_width as int,
                u32::MAX as int,
                self.a_height as int,
                u32::MAX as int,
            );
            lemma_div_product_bound(
                new_width as int,
                new_height as int,
                self.pixel_edge_size as int,
            );
        }
        let n: usize = ((self.a_width as u64) * (self.a_height as u64)) as usize;
        self.pxl_vec = Self::seeded_cells(n);
    }

    /// One scheduler invocation.  Returns whether a simulation step is due
    /// now: the simulation must be running, the invocation counter (counted
    /// before this call) must be divisible by 10, and at least 16 ms must
    /// have passed since the last executed step.  The counter advances on
    /// every invocation whether or not a step is due, which throttles the
    /// step frequency independently of how often the caller invokes this.
    pub fn update(&mut self, elapsed_ms: u64) -> (due: bool)
        requires
            old(self).wf(),
        ensures
            final(self).wf(),
            due == (old(self).running && old(self).update_skip_counter % 10 == 0
                && elapsed_ms >= 16),
            final(self).update_skip_counter == (if old(self).update_skip_counter == u64::MAX {
                0u64
            } else {
                (old(self).update_skip_counter + 1) as u64
            }),
            final(self).pxl_vec@ == old(self).pxl_vec@,
            final(self).running == old(self).running,
            final(self).generation == old(self).generation,
            final(self).step_rate_milli == old(self).step_rate_milli,
            final(self).width == old(self).width,
            final(self).height == old(self).height,
            final(self).a_width == old(self).a_width,
            final(self).a_height == old(self).a_height,
            final(self).pixel_edge_size == old(self).pixel_edge_size,
            final(self).params == old(self).params,
            final(self).colors@ == old(self).colors@,
            final(self).gradient_idx == old(self).gradient_idx,
            final(self).noise_enabled == old(self).noise_enabled,
    {
        let due = self.running && self.update_skip_counter % 10 == 0 && elapsed_ms >= 16;
        if self.update_skip_counter == u64::MAX {
            self.update_skip_counter = 0;
        } else {
            self.update_skip_counter = self.update_skip_counter + 1;
        }
        due
    }

    /// Commit one full-grid transition: clamp every proposed cell pattern
    /// into [0, 1] and replace the grid with the new snapshot in one
    /// assignment, so readers never observe a half-updated grid.  Advances
    /// the generation counter and records the instantaneous step rate
    /// (`1000 / elapsed_ms` steps per second, kept in thousandths).
    pub fn commit_step(&mut self, new_cells: Vec<u64>, elapsed_ms: u64)
        requires
            old(self).wf(),
            new_cells@.len() == old(self).pxl_vec@.len(),
        ensures
            final(self).wf(),
            final(self).pxl_vec@.len() == old(self).pxl_vec@.len(),
            forall|i: int|
                0 <= i < new_cells@.len() ==> final(self).pxl_vec@[i] == clamped_word(
                    new_cells@[i],
                ),
            forall|i: int|
                0 <= i < final(self).pxl_vec@.len() ==> final(self).pxl_vec@[i]
                    <= UNIT_ONE_BITS,
            final(self).generation == (if old(self).generation == u64::MAX {
                0u64
            } else {
                (old(self).generation + 1) as u64
            }),
            final(self).step_rate_milli == (if elapsed_ms > 0 {
                (1_000_000u64 / elapsed_ms) as u64
            } else {
                u64::MAX
            }),
            final(self).running == old(self).running,
            final(self).update_skip_counter == old(self).update_skip_counter,
            final(self).width == old(self).width,
            final(self).height == old(self).height,
            final(self).a_width == old(self).a_width,
            final(self).a_height == old(self).a_height,
            final(self).pixel_edge_size == old(self).pixel_edge_size,
            final(self).params == old(self).params,
            final(self).colors@ == old(self).colors@,
            final(self).gradient_idx == old(self).gradient_idx,
            final(self).noise_enabled == old(self).noise_enabled,
    {
        let n = new_cells.len();
        let mut snapshot: Vec<u64> = Vec::new();
        let mut i: usize = 0;
        while i < n
            invariant
                new_cells@.len() == n,
                i <= n,
                snapshot@.len() == i,
                forall|j: int| 0 <= j < i ==> snapshot@[j] == clamped_word(new_cells@[j]),
                forall|j: int| 0 <= j < i ==> snapshot@[j] <= UNIT_ONE_BITS,
            decreases n - i,
        {
            snapshot.push(clamp_word(new_cells[i]));
            i = i + 1;
        }
        self.pxl_vec = snapshot;
        if self.generation == u64::MAX {
            self.generation = 0;
        } else {
            self.generation = self.generation + 1;
        }
        self.step_rate_milli = if elapsed_ms > 0 {
            1_000_000 / elapsed_ms
        } else {
            u64::MAX
        };
    }

    /// Start or pause the simulation.
    pub fn toggle_running(&mut self)
        requires
            old(self).wf(),
        ensures
            final(self).wf(),
            *final(self) == (GameOfLife { running: !old(self).running, ..*old(self) }),
    {
        self.running = !self.running;
    }

    /// Enable or disable the per-step noise draw.
    pub fn toggle_noise(&mut self)
        requires
            old(self).wf(),
        ensures
            final(self).wf(),
            *final(self) == (GameOfLife { noise_enabled: !old(self).noise_enabled, ..*old(self) }),
    {
        self.noise_enabled = !self.noise_enabled;
    }

    /// Advance to the next gradient of the fixed list, wrapping to the first
    /// entry after the last.  The caller regenerates the colour table for the
    /// returned index through `set_color_table`.
    pub fn switch_gradient(&mut self) -> (idx: usize)
        requires
            old(self).wf(),
        ensures
            final(self).wf(),
            idx == (old(self).gradient_idx + 1) % (GRADIENT_COUNT as int),
            *final(self) == (GameOfLife { gradient_idx: idx, ..*old(self) }),
    {
        self.gradient_idx = (self.gradient_idx + 1) % GRADIENT_COUNT;
        self.gradient_idx
    }

    /// Replace the colour lookup table with freshly sampled gradient
    /// entries; the table always holds exactly `COLOR_TABLE_LEN` of them.
    pub fn set_color_table(&mut self, table: Vec<Rgb>)
        requires
            old(self).wf(),
            table@.len() == COLOR_TABLE_LEN,
        ensures
            final(self).wf(),
            final(self).colors@ == table@,
            *final(self) == (GameOfLife { colors: final(self).colors, ..*old(self) }),
    {
        self.colors = table;
    }

    /// Adjust the parameter named `name` by a signed delta (in thousandths)
    /// and clamp it into its documented range.  An unrecognised name is a
    /// silent no-op, so callers can drive adjustments generically.
    pub fn change_parameter(&mut self, name: &str, delta_milli: i64)
        requires
            old(self).wf(),
        ensures
            final(self).wf(),
            final(self).params == (match parse_param_spec(name@) {
                Some(id) => old(self).params.adjusted(id, delta_milli),
                None => old(self).params,
            }),
            *final(self) == (GameOfLife { params: final(self).params, ..*old(self) }),
    {
        match parse_param(name) {
            Some(id) => {
                self.params.adjust(id, delta_milli);
            },
            None => {},
        }
    }

    /// Restore every parameter to its documented default, return the
    /// generation counter to its baseline, and recreate the grid at the
    /// current physical dimensions, so state, parameters and generation
    /// reach a known baseline together.
    pub fn reset_parameters(&mut self)
        requires
            old(self).wf(),
            old(self).width * old(self).height <= usize::MAX,
        ensures
            final(self).wf(),
            final(self).params == Params::default_spec(),
            final(self).pixel_edge_size == EDGE_DEFAULT,
            final(self).noise_enabled == true,
            final(self).generation == 0,
            final(self).a_width == old(self).width / EDGE_DEFAULT,
            final(self).a_height == old(self).height / EDGE_DEFAULT,
            final(self).pxl_vec@ == initial_cells(
                (final(self).a_width * final(self).a_height) as nat,
            ),
            final(self).width == old(self).width,
            final(self).height == old(self).height,
            final(self).running == old(self).running,
            final(self).step_rate_milli == old(self).step_rate_milli,
            final(self).update_skip_counter == old(self).update_skip_counter,
            final(self).colors@ == old(self).colors@,
            final(self).gradient_idx == old(self).gradient_idx,
    {
        self.pixel_edge_size = EDGE_DEFAULT;
        self.params = Params::defaults();
        self.noise_enabled = true;
        self.generation = 0;
        proof {
            lemma_div_product_bound(self.width as int, self.height as int, EDGE_DEFAULT as int);
        }
        let w = self.width;
        let h = self.height;
        self.resize(w, h);
    }

    /// Adjust the cell-edge size by a signed pixel delta, clamped to
    /// [1, 50]; when the clamped size differs from the current one, the grid
    /// is recreated at the current physical dimensions with the new size.
    pub fn change_pixel_size(&mut self, delta: i32)
        requires
            old(self).wf(),
            old(self).width * old(self).height <= usize::MAX,
        ensures
            final(self).wf(),
            final(self).pixel_edge_size == crate::params::clamp_spec(
                old(self).pixel_edge_size + delta,
                EDGE_MIN as int,
                EDGE_MAX as int,
            ),
            final(self).pixel_edge_size != old(self).pixel_edge_size ==> {
                &&& final(self).a_width == old(self).width / final(self).pixel_edge_size
                &&& final(self).a_height == old(self).height / final(self).pixel_edge_size
                &&& final(self).pxl_vec@ == initial_cells(
                    (final(self).a_width * final(self).a_height) as nat,
                )
            },
            final(self).pixel_edge_size == old(self).pixel_edge_size ==> *final(self) == *old(
                self,
            ),
            final(self).width == old(self).width,
            final(self).height == old(self).height,
            final(self).params == old(self).params,
            final(self).running == old(self).running,
            final(self).generation == old(self).generation,
            final(self).step_rate_milli == old(self).step_rate_milli,
            final(self).update_skip_counter == old(self).update_skip_counter,
            final(self).colors@ == old(self).colors@,
            final(self).gradient_idx == old(self).gradient_idx,
            final(self).noise_enabled == old(self).noise_enabled,
    {
        let cur: i64 = self.pixel_edge_size as i64 + delta as i64;
        let clamped: u32 = if cur < EDGE_MIN as i64 {
            EDGE_MIN
        } else if cur > EDGE_MAX as i64 {
            EDGE_MAX
        } else {
            cur as u32
        };
        if clamped != self.pixel_edge_size {
            self.pixel_edge_size = clamped;
            proof {
                lemma_div_product_bound(self.width as int, self.height as int, clamped as int);
            }
            let w = self.width;
            let h = self.height;
            self.resize(w, h);
        }
    }

    /// Whether the brush stroke centred at physical pixel
    /// `(mouse_x, mouse_y)` with the given radius covers the cell at `idx`:
    /// the centre maps to a logical cell by truncating division, and a cell
    /// is covered exactly when its integer offset `(dx, dy)` from the centre
    /// satisfies `dx^2 + dy^2 <= radius^2`.  A negative radius covers
    /// nothing.
    pub open spec fn brush_covers(self, mouse_x: int, mouse_y: int, radius: int, idx: int) -> bool {
        let cx = phys_to_cell(mouse_x, self.pixel_edge_size as int);
        let cy = phys_to_cell(mouse_y, self.pixel_edge_size as int);
        let ix = idx % (self.a_width as int);
        let iy = idx / (self.a_width as int);
        &&& radius >= 0
        &&& 0 <= idx < self.pxl_vec@.len()
        &&& (ix - cx) * (ix - cx) + (iy - cy) * (iy - cy) <= radius * radius
    }

    /// Overwrite every cell the circular brush covers with `state`, a
    /// destructive write that bypasses the growth rule.  Offsets that fall
    /// outside the grid are silently skipped; the call never fails.
    pub fn add_cells_with_brush(
        &mut self,
        mouse_x: i32,
        mouse_y: i32,
        brush_radius: i32,
        state: u64,
    )
        requires
            old(self).wf(),
            state <= UNIT_ONE_BITS,
        ensures
            final(self).wf(),
            final(self).pxl_vec@.len() == old(self).pxl_vec@.len(),
            forall|idx: int|
                0 <= idx < final(self).pxl_vec@.len() ==> final(self).pxl_vec@[idx] == (if old(
                    self,
                ).brush_covers(mouse_x as int, mouse_y as int, brush_radius as int, idx) {
                    state
                } else {
                    old(self).pxl_vec@[idx]
                }),
            *final(self) == (GameOfLife { pxl_vec: final(self).pxl_vec, ..*old(self) }),
    {
        if brush_radius < 0 {
            return;
        }
        let edge_u: u64 = self.pixel_edge_size as u64;
        let cx: i64 = if mouse_x >= 0 {
            proof {
                lemma_div_nonincreasing(mouse_x as int, edge_u as int);
            }
            ((mouse_x as u64) / edge_u) as i64
        } else {
            let pos: u64 = (-(mouse_x as i64)) as u64;
            proof {
                lemma_div_nonincreasing(pos as int, edge_u as int);
            }
            -((pos / edge_u) as i64)
        };
        let cy: i64 = if mouse_y >= 0 {
            proof {
                lemma_div_nonincreasing(mouse_y as int, edge_u as int);
            }
            ((mouse_y as u64) / edge_u) as i64
        } else {
            let pos: u64 = (-(mouse_y as i64)) as u64;
            proof {
                lemma_div_nonincreasing(pos as int, edge_u as int);
            }
            -((pos / edge_u) as i64)
        };
        proof {
            assert(cx == phys_to_cell(mouse_x as int, old(self).pixel_edge_size as int));
            assert(cy == phys_to_cell(mouse_y as int, old(self).pixel_edge_size as int));
            assert(-0x8000_0000 <= cx <= 0x8000_0000);
            assert(-0x8000_0000 <= cy <= 0x8000_0000);
        }
        let r: i64 = brush_radius as i64;
        proof {
            lemma_mul_upper_bound(r as int, 0x8000_0000, r as int, 0x8000_0000);
        }
        let r2: i128 = (r as i128) * (r as i128);
        let w_u: u64 = self.a_width as u64;
        let len: usize = self.pxl_vec.len();
        let mut idx: usize = 0;
        while idx < len
            invariant
                old(self).wf(),
                self.width == old(self).width,
                self.height == old(self).height,
                self.a_width == old(self).a_width,
                self.a_height == old(self).a_height,
                self.pixel_edge_size == old(self).pixel_edge_size,
                self.params == old(self).params,
                self.colors == old(self).colors,
                self.gradient_idx == old(self).gradient_idx,
                self.running == old(self).running,
                self.generation == old(self).generation,
                self.step_rate_milli == old(self).step_rate_milli,
                self.update_skip_counter == old(self).update_skip_counter,
                self.noise_enabled == old(self).noise_enabled,
                state <= UNIT_ONE_BITS,
                brush_radius >= 0,
                r == brush_radius as int,
                r2 == (brush_radius as int) * (brush_radius as int),
                cx == phys_to_cell(mouse_x as int, old(self).pixel_edge_size as int),
                cy == phys_to_cell(mouse_y as int, old(self).pixel_edge_size as int),
                -0x8000_0000 <= cx <= 0x8000_0000,
                -0x8000_0000 <= cy <= 0x8000_0000,
                w_u == old(self).a_width,
                len == old(self).pxl_vec@.len(),
                self.pxl_vec@.len() == len,
                idx <= len,
                forall|j: int|
                    0 <= j < idx ==> self.pxl_vec@[j] == (if old(self).brush_covers(
                        mouse_x as int,
                        mouse_y as int,
                        brush_radius as int,
                        j,
                    ) {
                        state
                    } else {
                        old(self).pxl_vec@[j]
                    }),
                forall|j: int| idx <= j < len ==> self.pxl_vec@[j] == old(self).pxl_vec@[j],
            decreases len - idx,
        {
            proof {
                if old(self).a_width == 0 {
                    lemma_mul_nonzero(old(self).a_width as int, old(self).a_height as int);
                }
                vstd::arithmetic::div_mod::lemma_mod_bound(idx as int, w_u as int);
                vstd::arithmetic::div_mod::lemma_multiply_divide_lt(
                    idx as int,
                    w_u as int,
                    old(self).a_height as int,
                );
            }
            let ix: u64 = (idx as u64) % w_u;
            let iy: u64 = (idx as u64) / w_u;
            let dx: i128 = ix as i128 - cx as i128;
            let dy: i128 = iy as i128 - cy as i128;
            proof {
                assert(-0x2_0000_0000 <= dx <= 0x2_0000_0000);
                assert(-0x2_0000_0000 <= dy <= 0x2_0000_0000);
                lemma_square_bound(dx as int, 0x2_0000_0000);
                lemma_square_bound(dy as int, 0x2_0000_0000);
            }
            if dx * dx + dy * dy <= r2 {
                self.pxl_vec[idx] = state;
            }
            idx = idx + 1;
        }
    }

    /// The clipped neighbourhood window of cell `(x, y)` for the current
    /// kernel radius: the in-bounds part of the square
    /// `[x - r, x + r] x [y - r, y + r]`.  Cells near an edge keep a smaller
    /// window rather than wrapping or zero-filling, and the window always
    /// contains the cell itself, so the averaging collaborator never divides
    /// by zero.
    pub fn kernel_window(&self, x: u32, y: u32) -> (win: (u32, u32, u32, u32))
        requires
            self.wf(),
            x < self.a_width,
            y < self.a_height,
        ensures
            win.0 == win_lo(x as int, self.params.kernel_rad as int),
            win.1 == win_hi(x as int, self.params.kernel_rad as int, self.a_width as int),
            win.2 == win_lo(y as int, self.params.kernel_rad as int),
            win.3 == win_hi(y as int, self.params.kernel_rad as int, self.a_height as int),
            win.0 <= x <= win.1 < self.a_width,
            win.2 <= y <= win.3 < self.a_height,
    {
        let r = self.params.kernel_rad;
        let x0: u32 = if x > r {
            x - r
        } else {
            0
        };
        let xr: u64 = x as u64 + r as u64;
        let x1: u32 = if xr < (self.a_width as u64) - 1 {
            xr as u32
        } else {
            self.a_width - 1
        };
        let y0: u32 = if y > r {
            y - r
        } else {
            0
        };
        let yr: u64 = y as u64 + r as u64;
        let y1: u32 = if yr < (self.a_height as u64) - 1 {
            yr as u32
        } else {
            self.a_height - 1
        };
        (x0, x1, y0, y1)
    }

    /// A brush of radius 0 covers exactly the centre cell: the cell the
    /// physical centre maps to, and only when that cell is inside the grid.
    pub proof fn lemma_brush_radius_zero(g: GameOfLife, mouse_x: int, mouse_y: int, idx: int)
        requires
            g.wf(),
            0 <= idx < g.pxl_vec@.len(),
        ensures
            g.brush_covers(mouse_x, mouse_y, 0, idx) <==> ({
                let cx = phys_to_cell(mouse_x, g.pixel_edge_size as int);
                let cy = phys_to_cell(mouse_y, g.pixel_edge_size as int);
                &&& 0 <= cx < g.a_width
                &&& 0 <= cy < g.a_height
                &&& idx == cy * g.a_width + cx
            }),
    {
        let cx = phys_to_cell(mouse_x, g.pixel_edge_size as int);
        let cy = phys_to_cell(mouse_y, g.pixel_edge_size as int);
        let w = g.a_width as int;
        let h = g.a_height as int;
        let ix = idx % w;
        let iy = idx / w;
        if w == 0 {
            lemma_mul_nonzero(w, h);
        }
        vstd::arithmetic::div_mod::lemma_mod_bound(idx, w);
        vstd::arithmetic::div_mod::lemma_multiply_divide_lt(idx, w, h);
        vstd::arithmetic::div_mod::lemma_fundamental_div_mod(idx, w);
        if g.brush_covers(mouse_x, mouse_y, 0, idx) {
            assert((ix - cx) * (ix - cx) >= 0) by (nonlinear_arith);
            assert((iy - cy) * (iy - cy) >= 0) by (nonlinear_arith);
            assert((ix - cx) * (ix - cx) == 0 ==> ix == cx) by (nonlinear_arith);
            assert((iy - cy) * (iy - cy) == 0 ==> iy == cy) by (nonlinear_arith);
        }
        if 0 <= cx < w && 0 <= cy < h && idx == cy * w + cx {
            vstd::arithmetic::div_mod::lemma_fundamental_div_mod_converse_mod(idx, w, cy, cx);
            vstd::arithmetic::div_mod::lemma_fundamental_div_mod_converse_div(idx, w, cy, cx);
        }
    }

    /// The logical coordinates of the cell at a row-major buffer index:
    /// `(x, y)` with `idx == y * a_width + x`.
    pub fn cell_xy(&self, idx: usize) -> (xy: (u32, u32))
        requires
            self.wf(),
            idx < self.pxl_vec@.len(),
        ensures
            ({
                let (x, y) = xy;
                &&& x == idx as int % (self.a_width as int)
                &&& y == idx as int / (self.a_width as int)
                &&& x < self.a_width
                &&& y < self.a_height
                &&& idx == y * self.a_width + x
            }),
    {
        proof {
            if self.a_width == 0 {
                lemma_mul_nonzero(self.a_width as int, self.a_height as int);
            }
            vstd::arithmetic::div_mod::lemma_mod_bound(idx as int, self.a_width as int);
            vstd::arithmetic::div_mod::lemma_multiply_divide_lt(
                idx as int,
                self.a_width as int,
                self.a_height as int,
            );
            vstd::arithmetic::div_mod::lemma_fundamental_div_mod(
                idx as int,
                self.a_width as int,
            );
            vstd::arithmetic::mul::lemma_mul_is_commutative(
                self.a_width as int,
                idx as int / self.a_width as int,
            );
        }
        let x = ((idx as u64) % (self.a_width as u64)) as u32;
        let y = ((idx as u64) / (self.a_width as u64)) as u32;
        (x, y)
    }

    /// The display colour of the cell at `idx`: the table entry selected by
    /// `round(clamp(value, 0, 1) * 255)`.
    pub fn cell_color(&self, idx: usize) -> (color: Rgb)
        requires
            self.wf(),
            idx < self.pxl_vec@.len(),
        ensures
            color == self.colors@[crate::cell::color_index_spec(self.pxl_vec@[idx as int])],
    {
        let i = crate::cell::color_index(self.pxl_vec[idx]);
        self.colors[i]
    }

    /// Re-initialising with identical physical dimensions and edge size
    /// yields a bit-identical grid: the fill is a pure function of the
    /// logical size, drawn from a generator reseeded with a fixed constant.
    pub proof fn lemma_reinit_deterministic(a: GameOfLife, b: GameOfLife)
        requires
            a.wf(),
            b.wf(),
            a.width == b.width,
            a.height == b.height,
            a.pixel_edge_size == b.pixel_edge_size,
            a.pxl_vec@ == initial_cells((a.a_width * a.a_height) as nat),
            b.pxl_vec@ == initial_cells((b.a_width * b.a_height) as nat),
        ensures
            a.pxl_vec@ == b.pxl_vec@,
    {
    }
}

} // verus!
