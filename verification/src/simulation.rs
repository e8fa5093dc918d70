//! The simulation engine: the double-buffered grid and the operations that
//! evolve, seed, clear and edit it.
//!
//! The grid is a flat array of 32-bit words, one word per cell, addressed by
//! the linear index `y * width + x`; a cell is live exactly when the low bit
//! of its word is set. Two buffers back the grid: `live` (the current,
//! authoritative generation) and `snapshot` (a point-in-time copy of `live`
//! that the step computation reads while it overwrites `live`). The snapshot
//! is refreshed from `live` at the start of every step, so no cell ever
//! observes a neighbor's already-updated state.

use vstd::prelude::*;
use vstd::arithmetic::div_mod::{
    lemma_fundamental_div_mod, lemma_fundamental_div_mod_converse_div,
    lemma_fundamental_div_mod_converse_mod, lemma_mod_bound,
};

verus! {

/// Whether the cell at `(x, y)` is live in the word array `s` of a
/// `w` by `h` grid. Out-of-range coordinates are dead.
pub open spec fn cell_live(s: Seq<u32>, w: int, h: int, x: int, y: int) -> bool {
    0 <= x < w && 0 <= y < h && s[y * w + x] & 1u32 == 1u32
}

/// One if the condition holds, zero otherwise.
pub open spec fn count1(b: bool) -> int {
    if b {
        1
    } else {
        0
    }
}

/// The number of live cells among the eight neighbors of `(x, y)`.
/// There is no wraparound: neighbors beyond an edge count as dead.
pub open spec fn live_neighbors(s: Seq<u32>, w: int, h: int, x: int, y: int) -> int {
    count1(cell_live(s, w, h, x - 1, y - 1)) + count1(cell_live(s, w, h, x, y - 1)) + count1(
        cell_live(s, w, h, x + 1, y - 1),
    ) + count1(cell_live(s, w, h, x - 1, y)) + count1(cell_live(s, w, h, x + 1, y)) + count1(
        cell_live(s, w, h, x - 1, y + 1),
    ) + count1(cell_live(s, w, h, x, y + 1)) + count1(cell_live(s, w, h, x + 1, y + 1))
}

/// The rule of the automaton: a live cell survives with exactly two or three
/// live neighbors; a dead cell becomes live with exactly three.
pub open spec fn next_cell_live(s: Seq<u32>, w: int, h: int, x: int, y: int) -> bool {
    let n = live_neighbors(s, w, h, x, y);
    if cell_live(s, w, h, x, y) {
        n == 2 || n == 3
    } else {
        n == 3
    }
}

/// The word written for cell `(x, y)` by one step: one when the cell is live
/// in the next generation, zero otherwise.
pub open spec fn next_word(s: Seq<u32>, w: int, h: int, x: int, y: int) -> u32 {
    if next_cell_live(s, w, h, x, y) {
        1u32
    } else {
        0u32
    }
}

/// The whole next generation: every cell updated simultaneously from `s`.
pub open spec fn step_words(s: Seq<u32>, w: int, h: int) -> Seq<u32> {
    Seq::new((w * h) as nat, |i: int| next_word(s, w, h, i % w, i / w))
}

/// No cell of the `w` by `h` grid backed by `s` is live.
pub open spec fn all_dead(s: Seq<u32>, w: int, h: int) -> bool {
    forall|x: int, y: int| !cell_live(s, w, h, x, y)
}

/// Scrambles a 32-bit value so that nearby inputs give unrelated bit
/// patterns; used to derive per-cell pseudo-random bits from one seed.
pub open spec fn scramble(v: u32) -> u32 {
    let a = v ^ (v << 13u32);
    let b = a ^ (a >> 17u32);
    b ^ (b << 5u32)
}

/// The pseudo-random word seeded for cell `(x, y)`: a scramble of the
/// dispatch seed mixed with the cell's coordinates.
pub open spec fn seed_word(seed: u32, x: u32, y: u32) -> u32 {
    scramble(seed ^ x ^ ((y << 16u32) | (y >> 16u32)))
}

/// The word array left by seeding a `w` by `h` grid with `seed`: each cell
/// holds the low bit of its pseudo-random word.
pub open spec fn seeded(s: Seq<u32>, w: int, h: int, seed: u32) -> bool {
    forall|x: u32, y: u32|
        x < w && y < h ==> s[y as int * w + x as int] == #[trigger] seed_word(seed, x, y) & 1u32
}

/// Row-major addressing: for an in-range cell the linear index is in range
/// and determines the coordinates uniquely.
pub proof fn lemma_cell_index(w: int, h: int, x: int, y: int)
    requires
        1 <= w,
        0 <= x < w,
        0 <= y < h,
    ensures
        0 <= y * w + x < w * h,
        (y * w + x) / w == y,
        (y * w + x) % w == x,
{
    assert(0 <= y * w + x && y * w + x < w * h) by (nonlinear_arith)
        requires
            1 <= w,
            0 <= x < w,
            0 <= y < h,
    ;
    lemma_fundamental_div_mod_converse_div(y * w + x, w, y, x);
    lemma_fundamental_div_mod_converse_mod(y * w + x, w, y, x);
}

/// Distinct cells give distinct linear indices.
proof fn lemma_cells_distinct(w: int, x1: int, y1: int, x2: int, y2: int)
    requires
        1 <= w,
        0 <= x1 < w,
        0 <= x2 < w,
        0 <= y1,
        0 <= y2,
        !(x1 == x2 && y1 == y2),
    ensures
        y1 * w + x1 != y2 * w + x2,
{
    lemma_fundamental_div_mod_converse_div(y1 * w + x1, w, y1, x1);
    lemma_fundamental_div_mod_converse_mod(y1 * w + x1, w, y1, x1);
    lemma_fundamental_div_mod_converse_div(y2 * w + x2, w, y2, x2);
    lemma_fundamental_div_mod_converse_mod(y2 * w + x2, w, y2, x2);
}

/// A linear index recovers its cell coordinates.
proof fn lemma_index_coords(w: int, h: int, i: int)
    requires
        1 <= w,
        0 <= h,
        0 <= i < w * h,
    ensures
        0 <= i % w < w,
        0 <= i / w < h,
        (i / w) * w + (i % w) == i,
{
    lemma_fundamental_div_mod(i, w);
    lemma_mod_bound(i, w);
    vstd::arithmetic::mul::lemma_mul_is_commutative(i / w, w);
    assert(0 <= i / w && i / w < h) by (nonlinear_arith)
        requires
            1 <= w,
            0 <= i,
            i < w * h,
            i == w * (i / w) + i % w,
            0 <= i % w < w,
    ;
}

/// The low bit of zero is clear.
proof fn lemma_zero_word_dead()
    ensures
        0u32 & 1u32 != 1u32,
{
    assert(0u32 & 1u32 == 0u32) by (bit_vector);
}

/// The simulation engine: grid dimensions fixed at construction, and the two
/// buffer roles of the grid, `live` and `snapshot`, always distinct
/// allocations so that a step never reads a buffer it is writing.
pub struct Simulation {
    pub width: u32,
    pub height: u32,
    pub live: Vec<u32>,
    pub snapshot: Vec<u32>,
}

impl Simulation {
    /// Well-formedness: nonzero dimensions, and both buffers sized to one
    /// word per cell.
    pub open spec fn wf(&self) -> bool {
        &&& 1 <= self.width
        &&& 1 <= self.height
        &&& self.width * self.height <= usize::MAX
        &&& self.live@.len() == self.width * self.height
        &&& self.snapshot@.len() == self.width * self.height
    }

    /// Builds a simulation over a `width` by `height` grid with every cell
    /// dead. (The engine hands out no uninitialized storage: a fresh grid is
    /// a cleared grid.)
    pub fn new(width: u32, height: u32) -> (sim: Simulation)
        requires
            1 <= width,
            1 <= height,
            width * height <= usize::MAX,
        ensures
            sim.wf(),
            sim.width == width,
            sim.height == height,
            all_dead(sim.live@, width as int, height as int),
    {
        let n: usize = (width as usize) * (height as usize);
        let mut live: Vec<u32> = Vec::new();
        let mut snapshot: Vec<u32> = Vec::new();
        let mut i: usize = 0;
        while i < n
            invariant
                i <= n,
                live@.len() == i,
                snapshot@.len() == i,
                forall|j: int| 0 <= j < i ==> live@[j] == 0u32,
            decreases n - i,
        {
            live.push(0);
            snapshot.push(0);
            i += 1;
        }
        let sim = Simulation { width, height, live, snapshot };
        proof {
            lemma_all_words_zero_all_dead(sim.live@, width as int, height as int);
        }
        sim
    }

    /// Whether the cell at `(x, y)` is live in the current generation.
    pub fn is_alive(&self, x: u32, y: u32) -> (r: bool)
        requires
            self.wf(),
            x < self.width,
            y < self.height,
        ensures
            r == cell_live(self.live@, self.width as int, self.height as int, x as int, y as int),
    {
        cell_at(&self.live, self.width, self.height, x, y)
    }

    /// Advances the grid by one generation: refreshes the snapshot from the
    /// live buffer, then rewrites every live word simultaneously from the
    /// snapshot alone.
    pub fn step(&mut self)
        requires
            old(self).wf(),
        ensures
            final(self).wf(),
            final(self).width == old(self).width,
            final(self).height == old(self).height,
            final(self).snapshot@ == old(self).live@,
            final(self).live@ == step_words(
                old(self).live@,
                old(self).width as int,
                old(self).height as int,
            ),
            forall|x: int, y: int|
                0 <= x < old(self).width && 0 <= y < old(self).height ==> final(self).live@[y * old(
                    self,
                ).width as int + x] == next_word(
                    old(self).live@,
                    old(self).width as int,
                    old(self).height as int,
                    x,
                    y,
                ),
    {
        let ghost w = old(self).width as int;
        let ghost h = old(self).height as int;
        let ghost prior = old(self).live@;

        // Refresh the snapshot: copy live into it, word by word.
        let n: usize = self.live.len();
        let mut i: usize = 0;
        while i < n
            invariant
                old(self).wf(),
                w == old(self).width as int,
                h == old(self).height as int,
                prior == old(self).live@,
                i <= n,
                n == w * h,
                self.width == old(self).width,
                self.height == old(self).height,
                self.live@ == prior,
                self.snapshot@.len() == n,
                forall|j: int| 0 <= j < i ==> self.snapshot@[j] == prior[j],
            decreases n - i,
        {
            let v = self.live[i];
            self.snapshot.set(i, v);
            i += 1;
        }
        assert(self.snapshot@ =~= prior);

        // Evolve: write every cell of live from the snapshot.
        let width = self.width;
        let height = self.height;
        let mut y: u32 = 0;
        while y < height
            invariant
                old(self).wf(),
                w == old(self).width as int,
                h == old(self).height as int,
                prior == old(self).live@,
                y <= height,
                width == old(self).width,
                height == old(self).height,
                self.width == width,
                self.height == height,
                self.snapshot@ == prior,
                self.live@.len() == w * h,
                forall|xx: int, yy: int|
                    0 <= xx < w && 0 <= yy < y ==> self.live@[yy * w + xx] == next_word(
                        prior,
                        w,
                        h,
                        xx,
                        yy,
                    ),
            decreases height - y,
        {
            let mut x: u32 = 0;
            while x < width
                invariant
                    old(self).wf(),
                    w == old(self).width as int,
                    h == old(self).height as int,
                    prior == old(self).live@,
                    y < height,
                    x <= width,
                    width == old(self).width,
                    height == old(self).height,
                    self.width == width,
                    self.height == height,
                    self.snapshot@ == prior,
                    self.live@.len() == w * h,
                    forall|xx: int, yy: int|
                        0 <= xx < w && 0 <= yy < y ==> self.live@[yy * w + xx] == next_word(
                            prior,
                            w,
                            h,
                            xx,
                            yy,
                        ),
                    forall|xx: int|
                        0 <= xx < x ==> self.live@[y as int * w + xx] == next_word(
                            prior,
                            w,
                            h,
                            xx,
                            y as int,
                        ),
                decreases width - x,
            {
                let cnt = count_neighbors(&self.snapshot, width, height, x, y);
                let alive = cell_at(&self.snapshot, width, height, x, y);
                let v: u32 = if alive {
                    if cnt == 2 || cnt == 3 {
                        1
                    } else {
                        0
                    }
                } else {
                    if cnt == 3 {
                        1
                    } else {
                        0
                    }
                };
                proof {
                    lemma_cell_index(w, h, x as int, y as int);
                }
                let idx: usize = (y as usize) * (width as usize) + (x as usize);
                self.live.set(idx, v);
                assert(self.live@[y as int * w + x as int] == next_word(
                    prior,
                    w,
                    h,
                    x as int,
                    y as int,
                ));
                assert forall|xx: int, yy: int|
                    0 <= xx < w && 0 <= yy < y implies self.live@[yy * w + xx] == next_word(
                    prior,
                    w,
                    h,
                    xx,
                    yy,
                ) by {
                    lemma_cell_index(w, h, xx, yy);
                    lemma_cells_distinct(w, xx, yy, x as int, y as int);
                }
                assert forall|xx: int|
                    0 <= xx < x + 1 implies self.live@[y as int * w + xx] == next_word(
                    prior,
                    w,
                    h,
                    xx,
                    y as int,
                ) by {
                    lemma_cell_index(w, h, xx, y as int);
                }
                x += 1;
            }
            assert forall|xx: int, yy: int|
                0 <= xx < w && 0 <= yy < y + 1 implies self.live@[yy * w + xx] == next_word(
                prior,
                w,
                h,
                xx,
                yy,
            ) by {
                if yy == y as int {
                    assert(self.live@[y as int * w + xx] == next_word(prior, w, h, xx, y as int));
                }
            }
            y += 1;
        }
        assert(self.live@ =~= step_words(prior, w, h)) by {
            assert forall|i: int| 0 <= i < w * h implies self.live@[i] == next_word(
                prior,
                w,
                h,
                i % w,
                i / w,
            ) by {
                lemma_index_coords(w, h, i);
            }
        }
    }

    /// Zeroes every word of the live buffer: every cell dead.
    pub fn clear(&mut self)
        requires
            old(self).wf(),
        ensures
            final(self).wf(),
            final(self).width == old(self).width,
            final(self).height == old(self).height,
            final(self).snapshot@ == old(self).snapshot@,
            final(self).live@.len() == old(self).live@.len(),
            forall|i: int| 0 <= i < final(self).live@.len() ==> final(self).live@[i] == 0u32,
            all_dead(final(self).live@, old(self).width as int, old(self).height as int),
    {
        let n: usize = self.live.len();
        let mut i: usize = 0;
        while i < n
            invariant
                old(self).wf(),
                i <= n,
                n == old(self).live@.len(),
                self.width == old(self).width,
                self.height == old(self).height,
                self.snapshot@ == old(self).snapshot@,
                self.live@.len() == n,
                forall|j: int| 0 <= j < i ==> self.live@[j] == 0u32,
            decreases n - i,
        {
            self.live.set(i, 0);
            i += 1;
        }
        proof {
            lemma_all_words_zero_all_dead(
                self.live@,
                old(self).width as int,
                old(self).height as int,
            );
        }
    }

    /// Seeds every cell with an independent pseudo-random live/dead bit
    /// derived from `seed` and the cell's coordinates.
    pub fn randomize_with_seed(&mut self, seed: u32)
        requires
            old(self).wf(),
        ensures
            final(self).wf(),
            final(self).width == old(self).width,
            final(self).height == old(self).height,
            final(self).snapshot@ == old(self).snapshot@,
            final(self).live@.len() == old(self).live@.len(),
            seeded(final(self).live@, old(self).width as int, old(self).height as int, seed),
    {
        let ghost w = old(self).width as int;
        let ghost h = old(self).height as int;
        let width = self.width;
        let height = self.height;
        let mut y: u32 = 0;
        while y < height
            invariant
                old(self).wf(),
                w == old(self).width as int,
                h == old(self).height as int,
                y <= height,
                width == old(self).width,
                height == old(self).height,
                self.width == width,
                self.height == height,
                self.snapshot@ == old(self).snapshot@,
                self.live@.len() == w * h,
                forall|xx: u32, yy: u32|
                    xx < width && yy < y ==> self.live@[yy as int * w + xx as int]
                        == #[trigger] seed_word(seed, xx, yy) & 1u32,
            decreases height - y,
        {
            let mut x: u32 = 0;
            while x < width
                invariant
                    old(self).wf(),
                    w == old(self).width as int,
                    h == old(self).height as int,
                    y < height,
                    x <= width,
                    width == old(self).width,
                    height == old(self).height,
                    self.width == width,
                    self.height == height,
                    self.snapshot@ == old(self).snapshot@,
                    self.live@.len() == w * h,
                    forall|xx: u32, yy: u32|
                        xx < width && yy < y ==> self.live@[yy as int * w + xx as int]
                            == #[trigger] seed_word(seed, xx, yy) & 1u32,
                    forall|xx: u32|
                        xx < x ==> self.live@[y as int * w + xx as int] == #[trigger] seed_word(
                            seed,
                            xx,
                            y,
                        ) & 1u32,
                decreases width - x,
            {
                let mixed: u32 = seed ^ x ^ ((y << 16u32) | (y >> 16u32));
                let a: u32 = mixed ^ (mixed << 13u32);
                let b: u32 = a ^ (a >> 17u32);
                let word: u32 = (b ^ (b << 5u32)) & 1;
                assert(word == seed_word(seed, x, y) & 1u32);
                proof {
                    lemma_cell_index(w, h, x as int, y as int);
                }
                let idx: usize = (y as usize) * (width as usize) + (x as usize);
                self.live.set(idx, word);
                assert forall|xx: u32, yy: u32|
                    xx < width && yy < y implies self.live@[yy as int * w + xx as int]
                    == #[trigger] seed_word(seed, xx, yy) & 1u32 by {
                    lemma_cell_index(w, h, xx as int, yy as int);
                    lemma_cells_distinct(w, xx as int, yy as int, x as int, y as int);
                }
                assert forall|xx: u32|
                    xx < x + 1 implies self.live@[y as int * w + xx as int] == #[trigger] seed_word(
                    seed,
                    xx,
                    y,
                ) & 1u32 by {
                    lemma_cell_index(w, h, xx as int, y as int);
                    if xx < x {
                        lemma_cells_distinct(w, xx as int, y as int, x as int, y as int);
                    }
                }
                x += 1;
            }
            assert forall|xx: u32, yy: u32|
                xx < width && yy < y + 1 implies self.live@[yy as int * w + xx as int]
                == #[trigger] seed_word(seed, xx, yy) & 1u32 by {
                if yy == y {
                    assert(self.live@[y as int * w + xx as int] == seed_word(seed, xx, y) & 1u32);
                }
            }
            y += 1;
        }
    }

    /// Seeds the grid from a fresh, unpredictable seed. Each call draws a new
    /// seed; the resulting pattern is some seeding of the grid, not
    /// reproducible across calls.
    pub fn randomize(&mut self)
        requires
            old(self).wf(),
        ensures
            final(self).wf(),
            final(self).width == old(self).width,
            final(self).height == old(self).height,
            final(self).snapshot@ == old(self).snapshot@,
            final(self).live@.len() == old(self).live@.len(),
            exists|seed: u32|
                seeded(final(self).live@, old(self).width as int, old(self).height as int, seed),
    {
        let seed = fresh_seed();
        self.randomize_with_seed(seed);
    }

    /// Flips exactly the addressed cell's bit in the live buffer. The
    /// coordinate must be in range: the caller checks it at the camera
    /// boundary before calling.
    pub fn flip(&mut self, position: [u32; 2])
        requires
            old(self).wf(),
            position[0] < old(self).width,
            position[1] < old(self).height,
        ensures
            final(self).wf(),
            final(self).width == old(self).width,
            final(self).height == old(self).height,
            final(self).snapshot@ == old(self).snapshot@,
            final(self).live@ == old(self).live@.update(
                position[1] as int * old(self).width as int + position[0] as int,
                old(self).live@[position[1] as int * old(self).width as int + position[0] as int]
                    ^ 1u32,
            ),
            cell_live(
                final(self).live@,
                old(self).width as int,
                old(self).height as int,
                position[0] as int,
                position[1] as int,
            ) == !cell_live(
                old(self).live@,
                old(self).width as int,
                old(self).height as int,
                position[0] as int,
                position[1] as int,
            ),
    {
        let x = position[0];
        let y = position[1];
        proof {
            lemma_cell_index(self.width as int, self.height as int, x as int, y as int);
        }
        let idx: usize = (y as usize) * (self.width as usize) + (x as usize);
        let w0 = self.live[idx];
        self.live.set(idx, w0 ^ 1);
        assert((w0 ^ 1u32) & 1u32 == 1u32 <==> w0 & 1u32 != 1u32) by (bit_vector);
    }
}

/// The number of invocation groups that cover `extent` cells at 32 cells per
/// group: `extent / 32`, rounded up when a remainder tile is left.
pub fn dispatch_groups(extent: u32) -> (g: u32)
    ensures
        g == (extent + 31) / 32,
        32 * g >= extent,
{
    let q = extent / 32;
    let r = extent % 32;
    proof {
        lemma_fundamental_div_mod(extent as int, 32);
        lemma_mod_bound(extent as int, 32);
        if r == 0 {
            lemma_fundamental_div_mod_converse_div(extent as int + 31, 32, q as int, 31);
        } else {
            lemma_fundamental_div_mod_converse_div(extent as int + 31, 32, q as int + 1, r as int - 1);
        }
    }
    if r != 0 {
        q + 1
    } else {
        q
    }
}

/// Reads the low bit of the in-range cell `(x, y)` in the word array `s`.
fn cell_at(s: &Vec<u32>, w: u32, h: u32, x: u32, y: u32) -> (r: bool)
    requires
        s@.len() == w * h,
        w * h <= usize::MAX,
        x < w,
        y < h,
    ensures
        r == cell_live(s@, w as int, h as int, x as int, y as int),
{
    proof {
        lemma_cell_index(w as int, h as int, x as int, y as int);
    }
    let idx: usize = (y as usize) * (w as usize) + (x as usize);
    s[idx] & 1 == 1
}

/// Reads a possibly out-of-range neighbor: dead beyond the edges.
fn neighbor_at(s: &Vec<u32>, w: u32, h: u32, x: i64, y: i64) -> (r: bool)
    requires
        s@.len() == w * h,
        w * h <= usize::MAX,
        1 <= w,
        1 <= h,
    ensures
        r == cell_live(s@, w as int, h as int, x as int, y as int),
{
    if 0 <= x && x < w as i64 && 0 <= y && y < h as i64 {
        cell_at(s, w, h, x as u32, y as u32)
    } else {
        false
    }
}

/// Counts the live cells among the eight neighbors of `(x, y)`.
fn count_neighbors(s: &Vec<u32>, w: u32, h: u32, x: u32, y: u32) -> (r: u32)
    requires
        s@.len() == w * h,
        w * h <= usize::MAX,
        x < w,
        y < h,
    ensures
        r == live_neighbors(s@, w as int, h as int, x as int, y as int),
{
    let xi = x as i64;
    let yi = y as i64;
    let mut c: u32 = 0;
    if neighbor_at(s, w, h, xi - 1, yi - 1) {
        c += 1;
    }
    if neighbor_at(s, w, h, xi, yi - 1) {
        c += 1;
    }
    if neighbor_at(s, w, h, xi + 1, yi - 1) {
        c += 1;
    }
    if neighbor_at(s, w, h, xi - 1, yi) {
        c += 1;
    }
    if neighbor_at(s, w, h, xi + 1, yi) {
        c += 1;
    }
    if neighbor_at(s, w, h, xi - 1, yi + 1) {
        c += 1;
    }
    if neighbor_at(s, w, h, xi, yi + 1) {
        c += 1;
    }
    if neighbor_at(s, w, h, xi + 1, yi + 1) {
        c += 1;
    }
    c
}

/// Relies on rand::random: draws a fresh pseudo-random seed from the thread's
/// generator. Nothing is assumed of the value drawn.
#[verifier::external_body]
fn fresh_seed() -> u32 {
    rand::random()
}

/// Law: a cell's next state is a function of the prior snapshot's immediate
/// neighborhood alone. Two snapshots that agree on the three-by-three block
/// around a cell give that cell the same next state, whatever the rest of
/// either grid holds; this is why evolving every cell from one stable
/// snapshot makes the update simultaneous.
pub proof fn lemma_next_word_local(s1: Seq<u32>, s2: Seq<u32>, w: int, h: int, x: int, y: int)
    requires
        s1.len() == w * h,
        s2.len() == w * h,
        1 <= w,
        1 <= h,
        forall|xx: int, yy: int|
            x - 1 <= xx <= x + 1 && y - 1 <= yy <= y + 1 && 0 <= xx < w && 0 <= yy < h
                ==> s1[#[trigger] (yy * w + xx)] == s2[yy * w + xx],
    ensures
        next_word(s1, w, h, x, y) == next_word(s2, w, h, x, y),
{
    assert forall|xx: int, yy: int|
        x - 1 <= xx <= x + 1 && y - 1 <= yy <= y + 1 implies cell_live(s1, w, h, xx, yy)
        == cell_live(s2, w, h, xx, yy) by {
        if 0 <= xx < w && 0 <= yy < h {
            assert(s1[yy * w + xx] == s2[yy * w + xx]);
        }
    }
    assert(cell_live(s1, w, h, x, y) == cell_live(s2, w, h, x, y));
    assert(live_neighbors(s1, w, h, x, y) == live_neighbors(s2, w, h, x, y));
}

/// Law: every word being zero means every cell is dead. Clearing zeroes every
/// word, so clearing after any other operation (a randomize between two
/// clears included) leaves no live cell.
pub proof fn lemma_all_words_zero_all_dead(s: Seq<u32>, w: int, h: int)
    requires
        forall|i: int| 0 <= i < s.len() ==> s[i] == 0u32,
        s.len() == w * h,
        1 <= w,
    ensures
        all_dead(s, w, h),
{
    assert forall|x: int, y: int| !cell_live(s, w, h, x, y) by {
        if 0 <= x < w && 0 <= y < h {
            lemma_cell_index(w, h, x, y);
            assert(s[y * w + x] == 0u32);
            lemma_zero_word_dead();
        }
    }
}

} // verus!
