//! The camera: a pure transform component mapping device pixels to
//! normalized grid space and back.
//!
//! All state is held in fixed-point integers: one unit of zoom or translation
//! is `UNIT` ticks, so every transform is exact integer arithmetic and the
//! pick transform can be proved to invert the forward (rendering) transform.
//! The zoom factor is clamped to `[SCALE_MIN, scale_max]`, with the upper
//! bound a per-camera parameter; the translation is clamped to one unit each
//! way on both axes, so some of the grid always stays on screen.

use vstd::prelude::*;
use vstd::arithmetic::div_mod::{
    lemma_fundamental_div_mod, lemma_fundamental_div_mod_converse_div, lemma_mod_bound,
};

verus! {

/// One whole unit of zoom or translation, in fixed-point ticks.
pub const UNIT: i64 = 1_000_000;

/// The smallest zoom factor: half a unit.
pub const SCALE_MIN: i64 = 500_000;

/// The default largest zoom factor: a thousand units.
pub const SCALE_MAX_DEFAULT: i64 = 1_000_000_000;

/// The hard ceiling any camera's zoom bound may take: a million units.
pub const SCALE_LIMIT: i64 = 1_000_000_000_000;

/// The largest grid dimension the camera can address exactly.
pub const MAX_GAME_DIM: u32 = 1_048_576;

/// The largest viewport dimension the camera can address exactly.
pub const MAX_SCREEN_DIM: u32 = 65_536;

/// Cursor positions are clamped to this many pixels from the origin.
pub const CURSOR_BOUND: i64 = 2_097_152;

/// `v` clamped to `[lo, hi]`.
pub open spec fn clamp_spec(v: int, lo: int, hi: int) -> int {
    if v < lo {
        lo
    } else if v > hi {
        hi
    } else {
        v
    }
}

/// An input event routed to the camera, already reduced to plain values:
/// viewport resize, cursor motion in device pixels, scroll ticks, and the
/// press state of the primary (drag) pointer button.
#[derive(Clone, Copy, Debug)]
pub enum CameraEvent {
    Resized { width: u32, height: u32 },
    CursorMoved { x: i64, y: i64 },
    Scroll { ticks: i32 },
    DragButton { pressed: bool },
}

/// The camera state: zoom, pan, drag tracking, and the grid and viewport
/// dimensions from which the aspect correction is derived.
#[derive(Clone, Copy, Debug)]
pub struct Camera {
    /// Zoom factor in fixed-point ticks; `UNIT` is a zoom of one.
    pub scale: i64,
    /// Upper bound for `scale`, fixed at construction.
    pub scale_max: i64,
    /// Whether a drag is in progress (primary button held).
    pub moving: bool,
    /// Pan offset, each axis in `[-UNIT, UNIT]`.
    pub translation_x: i64,
    pub translation_y: i64,
    /// Grid dimensions in cells.
    pub game_w: u32,
    pub game_h: u32,
    /// Viewport dimensions in pixels.
    pub screen_w: u32,
    pub screen_h: u32,
    /// Last seen cursor position in pixels.
    pub cursor_x: i64,
    pub cursor_y: i64,
}

impl Camera {
    /// Well-formedness: dimensions in range, zoom and pan within their
    /// clamped bounds, cursor within its clamp.
    pub open spec fn wf(&self) -> bool {
        &&& 1 <= self.game_w <= MAX_GAME_DIM
        &&& 1 <= self.game_h <= MAX_GAME_DIM
        &&& 1 <= self.screen_w <= MAX_SCREEN_DIM
        &&& 1 <= self.screen_h <= MAX_SCREEN_DIM
        &&& SCALE_MIN <= self.scale <= self.scale_max
        &&& SCALE_MIN <= self.scale_max <= SCALE_LIMIT
        &&& -UNIT <= self.translation_x <= UNIT
        &&& -UNIT <= self.translation_y <= UNIT
        &&& -CURSOR_BOUND <= self.cursor_x <= CURSOR_BOUND
        &&& -CURSOR_BOUND <= self.cursor_y <= CURSOR_BOUND
    }
}

/// The initial camera value for the given grid size, viewport size and zoom
/// ceiling: zoom one, centered, idle.
pub open spec fn initial_camera(game_size: (u32, u32), screen_size: (u32, u32), scale_max: i64)
    -> Camera {
    Camera {
        scale: UNIT,
        scale_max: scale_max,
        moving: false,
        translation_x: 0,
        translation_y: 0,
        game_w: game_size.0,
        game_h: game_size.1,
        screen_w: screen_size.0,
        screen_h: screen_size.1,
        cursor_x: 0,
        cursor_y: 0,
    }
}

/// The pan delta a cursor move to `nx` adds on the horizontal axis: the
/// motion in normalized device coordinates, divided by the zoom; the result
/// clamped to one unit each way.
pub open spec fn pan_x(cam: Camera, nx: int) -> int {
    clamp_spec(
        cam.translation_x + (nx - cam.cursor_x) * 2 * UNIT * UNIT / (cam.screen_w * cam.scale),
        -UNIT as int,
        UNIT as int,
    )
}

/// The pan on the vertical axis: as for the horizontal axis, further scaled
/// by the aspect correction `game_w * screen_h / (game_h * screen_w)` (the
/// viewport height cancels).
pub open spec fn pan_y(cam: Camera, ny: int) -> int {
    clamp_spec(
        cam.translation_y + (ny - cam.cursor_y) * 2 * UNIT * UNIT * cam.game_w / (cam.game_h * (
        cam.screen_w * cam.scale)),
        -UNIT as int,
        UNIT as int,
    )
}

/// The zoom after `ticks` scroll ticks: relative (exponential) zoom, a tenth
/// of the current zoom per tick, clamped to the camera's zoom range.
pub open spec fn zoom_spec(cam: Camera, ticks: int) -> int {
    clamp_spec(cam.scale + ticks * cam.scale / 10, SCALE_MIN as int, cam.scale_max as int)
}

/// The camera after one input event. Zero-area resizes are ignored (a
/// minimized window is not a viewport), as are resizes beyond the exactly
/// addressable range.
pub open spec fn update_spec(cam: Camera, event: CameraEvent) -> Camera {
    match event {
        CameraEvent::Resized { width, height } => {
            if width != 0 && height != 0 && width <= MAX_SCREEN_DIM && height <= MAX_SCREEN_DIM {
                Camera { screen_w: width, screen_h: height, ..cam }
            } else {
                cam
            }
        },
        CameraEvent::CursorMoved { x, y } => {
            let nx = clamp_spec(x as int, -CURSOR_BOUND as int, CURSOR_BOUND as int);
            let ny = clamp_spec(y as int, -CURSOR_BOUND as int, CURSOR_BOUND as int);
            if cam.moving {
                Camera {
                    translation_x: pan_x(cam, nx) as i64,
                    translation_y: pan_y(cam, ny) as i64,
                    cursor_x: nx as i64,
                    cursor_y: ny as i64,
                    ..cam
                }
            } else {
                Camera { cursor_x: nx as i64, cursor_y: ny as i64, ..cam }
            }
        },
        CameraEvent::Scroll { ticks } => {
            Camera { scale: zoom_spec(cam, ticks as int) as i64, ..cam }
        },
        CameraEvent::DragButton { pressed } => Camera { moving: pressed, ..cam },
    }
}

/// Law: every update keeps the camera well formed; in particular the
/// translation stays within one unit each way on both axes and the zoom
/// stays within its configured range, after arbitrarily long event
/// sequences.
pub proof fn lemma_update_preserves_wf(cam: Camera, event: CameraEvent)
    requires
        cam.wf(),
    ensures
        update_spec(cam, event).wf(),
{
}

/// `v` saturated into the `u32` range.
pub open spec fn sat_u32(v: int) -> u32 {
    if v < 0 {
        0u32
    } else if v > u32::MAX {
        u32::MAX
    } else {
        v as u32
    }
}

/// The grid column under the pixel column `px`: the pick transform on the
/// horizontal axis, before saturation. Undoes the viewport mapping, the
/// zoom and the pan, then scales the normalized grid coordinate by the grid
/// width; the floor of the exact rational value.
pub open spec fn pick_col(cam: Camera, px: int) -> int {
    cam.game_w * ((2 * px - cam.screen_w) * UNIT * UNIT + cam.screen_w * cam.scale * (UNIT
        - cam.translation_x)) / (2 * cam.screen_w * cam.scale * UNIT)
}

/// The grid row under the pixel row `py`: the pick transform on the vertical
/// axis, before saturation; includes the aspect correction.
pub open spec fn pick_row(cam: Camera, py: int) -> int {
    ((2 * py - cam.screen_h) * cam.game_w * UNIT * UNIT + cam.game_h * (cam.screen_w * cam.scale)
        * (UNIT - cam.translation_y)) / (2 * cam.screen_w * cam.scale * UNIT)
}

/// The pixel column of the center of grid column `cx` under the camera
/// transform, as the renderer places it: the forward transform, the floor of
/// the exact rational value.
pub open spec fn forward_px(cam: Camera, cx: int) -> int {
    cam.screen_w * (cam.game_w * UNIT * UNIT + cam.scale * ((2 * cx + 1 - cam.game_w) * UNIT
        + cam.game_w * cam.translation_x)) / (2 * cam.game_w * UNIT * UNIT)
}

/// The pixel row of the center of grid row `cy` under the camera transform.
pub open spec fn forward_py(cam: Camera, cy: int) -> int {
    (cam.game_w * cam.screen_h * UNIT * UNIT + cam.scale * cam.screen_w * ((2 * cy + 1
        - cam.game_h) * UNIT + cam.game_h * cam.translation_y)) / (2 * cam.game_w * UNIT * UNIT)
}

/// Bounded factors give a bounded product.
proof fn lemma_abs_mul(a: int, b: int, aa: int, bb: int)
    requires
        -aa <= a <= aa,
        -bb <= b <= bb,
        0 <= aa,
        0 <= bb,
    ensures
        -(aa * bb) <= a * b <= aa * bb,
{
    assert(-(aa * bb) <= a * b <= aa * bb) by (nonlinear_arith)
        requires
            -aa <= a <= aa,
            -bb <= b <= bb,
            0 <= aa,
            0 <= bb,
    ;
}

/// Positive bounded factors give a positive bounded product.
proof fn lemma_pos_mul(a: int, b: int, aa: int, bb: int)
    requires
        1 <= a <= aa,
        1 <= b <= bb,
    ensures
        1 <= a * b <= aa * bb,
{
    assert(1 <= a * b <= aa * bb) by (nonlinear_arith)
        requires
            1 <= a <= aa,
            1 <= b <= bb,
    ;
}

/// Factors bounded on both sides give a product bounded on both sides.
proof fn lemma_pos_mul_range(a: int, b: int, la: int, aa: int, lb: int, bb: int)
    requires
        1 <= la <= a <= aa,
        1 <= lb <= b <= bb,
    ensures
        la * lb <= a * b <= aa * bb,
{
    assert(la * lb <= a * b <= aa * bb) by (nonlinear_arith)
        requires
            1 <= la <= a <= aa,
            1 <= lb <= b <= bb,
    ;
}

/// Floor division of `n` by the positive `d`, matching the mathematical
/// (Euclidean) quotient of the specifications.
fn div_floor(n: i128, d: i128) -> (q: i128)
    requires
        1 <= d <= 0x4000_0000_0000_0000_0000_0000_0000,
        -0x4000_0000_0000_0000_0000_0000_0000 <= n <= 0x4000_0000_0000_0000_0000_0000_0000,
    ensures
        q == n as int / d as int,
        n >= 0 ==> 0 <= q <= n,
        n < 0 ==> n <= q <= 0,
{
    if n >= 0 {
        let un = n as u128;
        let ud = d as u128;
        let uq = un / ud;
        let ur = un % ud;
        proof {
            lemma_fundamental_div_mod(un as int, ud as int);
            lemma_mod_bound(un as int, ud as int);
            assert(uq as int <= un as int) by (nonlinear_arith)
                requires
                    un as int == ud as int * (uq as int) + ur as int,
                    0 <= ur as int,
                    1 <= ud as int,
                    0 <= uq as int,
            ;
        }
        uq as i128
    } else {
        let un = (-n) as u128;
        let ud = d as u128;
        let uq = un / ud;
        let ur = un % ud;
        proof {
            lemma_fundamental_div_mod(un as int, ud as int);
            lemma_mod_bound(un as int, ud as int);
            assert(uq as int <= un as int) by (nonlinear_arith)
                requires
                    un as int == ud as int * (uq as int) + ur as int,
                    0 <= ur as int,
                    1 <= ud as int,
                    0 <= uq as int,
            ;
        }
        if ur == 0 {
            let q = -(uq as i128);
            proof {
                assert(un as int == ud as int * (uq as int)) by {
                    assert(ur as int == 0);
                }
                assert(n as int == (q as int) * (d as int) + 0) by (nonlinear_arith)
                    requires
                        n as int == -(un as int),
                        d as int == ud as int,
                        un as int == ud as int * (uq as int),
                        q as int == -(uq as int),
                ;
                lemma_fundamental_div_mod_converse_div(n as int, d as int, q as int, 0);
            }
            q
        } else {
            let q = -(uq as i128) - 1;
            proof {
                assert((uq as int) < (un as int)) by (nonlinear_arith)
                    requires
                        un as int == ud as int * (uq as int) + ur as int,
                        1 <= ur as int,
                        1 <= ud as int,
                        0 <= uq as int,
                ;
                assert(n as int == (q as int) * (d as int) + (d as int - ur as int))
                    by (nonlinear_arith)
                    requires
                        n as int == -(un as int),
                        d as int == ud as int,
                        un as int == ud as int * (uq as int) + ur as int,
                        q as int == -(uq as int) - 1,
                ;
                lemma_fundamental_div_mod_converse_div(
                    n as int,
                    d as int,
                    q as int,
                    d as int - ur as int,
                );
            }
            q
        }
    }
}

/// `v` clamped to `[lo, hi]`.
fn clamp_i128(v: i128, lo: i128, hi: i128) -> (r: i128)
    requires
        lo <= hi,
    ensures
        r == clamp_spec(v as int, lo as int, hi as int),
{
    if v < lo {
        lo
    } else if v > hi {
        hi
    } else {
        v
    }
}

/// `v` clamped to `[lo, hi]`.
fn clamp_i64(v: i64, lo: i64, hi: i64) -> (r: i64)
    requires
        lo <= hi,
    ensures
        r == clamp_spec(v as int, lo as int, hi as int),
{
    if v < lo {
        lo
    } else if v > hi {
        hi
    } else {
        v
    }
}

/// The camera transform for the vertex stage, in fixed-point ticks: a
/// non-uniform scale (the vertical axis carries the aspect correction) and
/// the translation.
pub struct CameraMatrix {
    /// Horizontal scale: the zoom itself.
    pub scale_x: i64,
    /// Vertical scale: the zoom divided by the aspect correction.
    pub scale_y: i128,
    pub translation_x: i64,
    pub translation_y: i64,
}

impl Camera {
    /// A camera over a `game_size` grid in a `screen_size` viewport, at zoom
    /// one, centered, idle, with the given zoom ceiling.
    pub fn with_zoom_bound(
        game_size: (u32, u32),
        screen_size: (u32, u32),
        scale_max: i64,
    ) -> (cam: Camera)
        requires
            1 <= game_size.0 <= MAX_GAME_DIM,
            1 <= game_size.1 <= MAX_GAME_DIM,
            1 <= screen_size.0 <= MAX_SCREEN_DIM,
            1 <= screen_size.1 <= MAX_SCREEN_DIM,
            UNIT <= scale_max <= SCALE_LIMIT,
        ensures
            cam.wf(),
            cam == initial_camera(game_size, screen_size, scale_max),
    {
        Camera {
            scale: UNIT,
            scale_max,
            moving: false,
            translation_x: 0,
            translation_y: 0,
            game_w: game_size.0,
            game_h: game_size.1,
            screen_w: screen_size.0,
            screen_h: screen_size.1,
            cursor_x: 0,
            cursor_y: 0,
        }
    }

    /// A camera with the default zoom ceiling.
    pub fn new(game_size: (u32, u32), screen_size: (u32, u32)) -> (cam: Camera)
        requires
            1 <= game_size.0 <= MAX_GAME_DIM,
            1 <= game_size.1 <= MAX_GAME_DIM,
            1 <= screen_size.0 <= MAX_SCREEN_DIM,
            1 <= screen_size.1 <= MAX_SCREEN_DIM,
        ensures
            cam.wf(),
            cam == initial_camera(game_size, screen_size, SCALE_MAX_DEFAULT),
    {
        Camera::with_zoom_bound(game_size, screen_size, SCALE_MAX_DEFAULT)
    }

    /// Applies one input event to the camera: latches or moves a drag,
    /// accumulates pan (clamped to one unit each way), zooms relatively
    /// (clamped to the zoom range), or adopts a new viewport size.
    pub fn update(&mut self, event: CameraEvent)
        requires
            old(self).wf(),
        ensures
            final(self).wf(),
            *final(self) == update_spec(*old(self), event),
    {
        proof {
            lemma_update_preserves_wf(*old(self), event);
        }
        match event {
            CameraEvent::Resized { width, height } => {
                if width != 0 && height != 0 && width <= MAX_SCREEN_DIM && height
                    <= MAX_SCREEN_DIM {
                    self.screen_w = width;
                    self.screen_h = height;
                }
            },
            CameraEvent::CursorMoved { x, y } => {
                let nx = clamp_i64(x, -CURSOR_BOUND, CURSOR_BOUND);
                let ny = clamp_i64(y, -CURSOR_BOUND, CURSOR_BOUND);
                if self.moving {
                    proof {
                        lemma_pos_mul(
                            self.screen_w as int,
                            self.scale as int,
                            MAX_SCREEN_DIM as int,
                            SCALE_LIMIT as int,
                        );
                        lemma_pos_mul(
                            self.game_h as int,
                            self.screen_w as int * self.scale as int,
                            MAX_GAME_DIM as int,
                            MAX_SCREEN_DIM as int * SCALE_LIMIT as int,
                        );
                    }
                    let dx: i128 = ((nx - self.cursor_x) as i128) * 2 * (UNIT as i128) * (
                    UNIT as i128);
                    let den_x: i128 = (self.screen_w as i128) * (self.scale as i128);
                    let add_x = div_floor(dx, den_x);
                    let tx = clamp_i128(
                        (self.translation_x as i128) + add_x,
                        -(UNIT as i128),
                        UNIT as i128,
                    );

                    let dy0: i128 = ((ny - self.cursor_y) as i128) * 2 * (UNIT as i128) * (
                    UNIT as i128);
                    proof {
                        lemma_abs_mul(
                            dy0 as int,
                            self.game_w as int,
                            0x4000_0000_0000_0000_0000,
                            MAX_GAME_DIM as int,
                        );
                    }
                    let dy: i128 = dy0 * (self.game_w as i128);
                    let den_y: i128 = (self.game_h as i128) * ((self.screen_w as i128) * (
                    self.scale as i128));
                    let add_y = div_floor(dy, den_y);
                    let ty = clamp_i128(
                        (self.translation_y as i128) + add_y,
                        -(UNIT as i128),
                        UNIT as i128,
                    );

                    self.translation_x = tx as i64;
                    self.translation_y = ty as i64;
                }
                self.cursor_x = nx;
                self.cursor_y = ny;
            },
            CameraEvent::Scroll { ticks } => {
                proof {
                    lemma_abs_mul(
                        ticks as int,
                        self.scale as int,
                        0x8000_0000,
                        SCALE_LIMIT as int,
                    );
                }
                let delta: i128 = (ticks as i128) * (self.scale as i128);
                let add = div_floor(delta, 10);
                let ns = clamp_i128(
                    (self.scale as i128) + add,
                    SCALE_MIN as i128,
                    self.scale_max as i128,
                );
                self.scale = ns as i64;
            },
            CameraEvent::DragButton { pressed } => {
                self.moving = pressed;
            },
        }
    }

    /// The view transform: horizontal scale equal to the zoom, vertical
    /// scale the zoom divided by the aspect correction, and the pan.
    pub fn matrix(&self) -> (m: CameraMatrix)
        requires
            self.wf(),
        ensures
            m.scale_x == self.scale,
            m.scale_y == self.scale * self.game_h * self.screen_w / (self.game_w * self.screen_h),
            m.translation_x == self.translation_x,
            m.translation_y == self.translation_y,
    {
        proof {
            lemma_pos_mul(
                self.scale as int,
                self.game_h as int,
                SCALE_LIMIT as int,
                MAX_GAME_DIM as int,
            );
            lemma_pos_mul(
                self.scale as int * self.game_h as int,
                self.screen_w as int,
                SCALE_LIMIT as int * MAX_GAME_DIM as int,
                MAX_SCREEN_DIM as int,
            );
            lemma_pos_mul(
                self.game_w as int,
                self.screen_h as int,
                MAX_GAME_DIM as int,
                MAX_SCREEN_DIM as int,
            );
        }
        let num: i128 = (self.scale as i128) * (self.game_h as i128) * (self.screen_w as i128);
        let den: i128 = (self.game_w as i128) * (self.screen_h as i128);
        let sy = div_floor(num, den);
        CameraMatrix {
            scale_x: self.scale,
            scale_y: sy,
            translation_x: self.translation_x,
            translation_y: self.translation_y,
        }
    }

    /// The pick transform on the last seen cursor position, exact and
    /// unsaturated: the grid column and row under the cursor, possibly
    /// outside the grid.
    fn pick_raw(&self) -> (pos: (i128, i128))
        requires
            self.wf(),
        ensures
            pos.0 == pick_col(*self, self.cursor_x as int),
            pos.1 == pick_row(*self, self.cursor_y as int),
    {
        proof {
            lemma_pick_bounds(*self, self.cursor_x as int, self.cursor_y as int);
        }
        let t1: i128 = (2 * (self.cursor_x as i128) - (self.screen_w as i128)) * (UNIT as i128) * (
        UNIT as i128);
        let t2: i128 = ((self.screen_w as i128) * (self.scale as i128)) * ((UNIT as i128) - (
        self.translation_x as i128));
        let numx: i128 = (self.game_w as i128) * (t1 + t2);
        let den: i128 = 2 * (self.screen_w as i128) * (self.scale as i128) * (UNIT as i128);
        let cx = div_floor(numx, den);

        let t1y: i128 = (2 * (self.cursor_y as i128) - (self.screen_h as i128)) * (
        self.game_w as i128) * (UNIT as i128) * (UNIT as i128);
        let t2y: i128 = (self.game_h as i128) * ((self.screen_w as i128) * (self.scale as i128))
            * ((UNIT as i128) - (self.translation_y as i128));
        let numy: i128 = t1y + t2y;
        let cy = div_floor(numy, den);
        (cx, cy)
    }

    /// The grid cell under the last seen cursor position, each axis
    /// saturated into the `u32` range. The result is a grid coordinate only
    /// when the cursor is over the grid: `picked_cell` makes that check.
    pub fn cursor_game_position(&self) -> (pos: [u32; 2])
        requires
            self.wf(),
        ensures
            pos[0] == sat_u32(pick_col(*self, self.cursor_x as int)),
            pos[1] == sat_u32(pick_row(*self, self.cursor_y as int)),
    {
        let (cx, cy) = self.pick_raw();
        let px: u32 = if cx < 0 {
            0
        } else if cx > u32::MAX as i128 {
            u32::MAX
        } else {
            cx as u32
        };
        let py: u32 = if cy < 0 {
            0
        } else if cy > u32::MAX as i128 {
            u32::MAX
        } else {
            cy as u32
        };
        [px, py]
    }

    /// The grid cell under the cursor, where there is one: the camera-side
    /// range check that guards a toggle. The cursor may sit outside the grid
    /// (panned or zoomed away); then there is no cell to toggle.
    pub fn picked_cell(&self) -> (r: Option<[u32; 2]>)
        requires
            self.wf(),
        ensures
            ({
                let cx = pick_col(*self, self.cursor_x as int);
                let cy = pick_row(*self, self.cursor_y as int);
                &&& (r is Some <==> 0 <= cx < self.game_w && 0 <= cy < self.game_h)
                &&& (r matches Some(cell) ==> cell[0] == cx && cell[1] == cy)
            }),
    {
        let (cx, cy) = self.pick_raw();
        if 0 <= cx && cx < self.game_w as i128 && 0 <= cy && cy < self.game_h as i128 {
            Some([cx as u32, cy as u32])
        } else {
            None
        }
    }

    /// The pixel position of the center of the given grid cell under the
    /// camera transform, as the renderer places it: the forward transform
    /// that `cursor_game_position` inverts.
    pub fn cell_screen_position(&self, cell: [u32; 2]) -> (pos: (i64, i64))
        requires
            self.wf(),
            cell[0] < self.game_w,
            cell[1] < self.game_h,
        ensures
            pos.0 == forward_px(*self, cell[0] as int),
            pos.1 == forward_py(*self, cell[1] as int),
    {
        proof {
            lemma_forward_bounds(*self, cell[0] as int, cell[1] as int);
        }
        let cx = cell[0];
        let cy = cell[1];
        let ix: i128 = (2 * (cx as i128) + 1 - (self.game_w as i128)) * (UNIT as i128) + (
        self.game_w as i128) * (self.translation_x as i128);
        let numx: i128 = (self.screen_w as i128) * ((self.game_w as i128) * (UNIT as i128) * (
        UNIT as i128) + (self.scale as i128) * ix);
        let den: i128 = 2 * (self.game_w as i128) * (UNIT as i128) * (UNIT as i128);
        let px = div_floor(numx, den);

        let iy: i128 = (2 * (cy as i128) + 1 - (self.game_h as i128)) * (UNIT as i128) + (
        self.game_h as i128) * (self.translation_y as i128);
        let numy: i128 = (self.game_w as i128) * (self.screen_h as i128) * (UNIT as i128) * (
        UNIT as i128) + (self.scale as i128) * (self.screen_w as i128) * iy;
        let py = div_floor(numy, den);

        proof {
            lemma_forward_fits(*self, cell[0] as int, cell[1] as int);
        }
        (px as i64, py as i64)
    }
}

/// The products the pick transform computes stay within bounds the machine
/// holds: every intermediate fits well under the 128-bit limit.
proof fn lemma_pick_bounds(cam: Camera, px: int, py: int)
    requires
        cam.wf(),
        -CURSOR_BOUND <= px <= CURSOR_BOUND,
        -CURSOR_BOUND <= py <= CURSOR_BOUND,
    ensures
        1 <= cam.screen_w * cam.scale <= MAX_SCREEN_DIM as int * SCALE_LIMIT as int,
        -0x8_0000_0000_0000_0000_0000_0000 <= (2 * px - cam.screen_w) * UNIT * UNIT
            <= 0x8_0000_0000_0000_0000_0000_0000,
        -0x8_0000_0000_0000_0000_0000_0000 <= cam.screen_w * cam.scale * (UNIT - cam.translation_x)
            <= 0x8_0000_0000_0000_0000_0000_0000,
        -0x8_0000_0000_0000_0000_0000_0000 <= cam.game_w * ((2 * px - cam.screen_w) * UNIT * UNIT
            + cam.screen_w * cam.scale * (UNIT - cam.translation_x))
            <= 0x8_0000_0000_0000_0000_0000_0000,
        1 <= 2 * cam.screen_w * cam.scale * UNIT <= 0x4000_0000_0000_0000_0000_0000_0000,
        -0x8_0000_0000_0000_0000_0000_0000 <= (2 * py - cam.screen_h) * cam.game_w * UNIT * UNIT
            <= 0x8_0000_0000_0000_0000_0000_0000,
        1 <= cam.game_h * (cam.screen_w * cam.scale) <= 0x1_0000_0000_0000_0000_0000,
        -0x8_0000_0000_0000_0000_0000_0000 <= cam.game_h * (cam.screen_w * cam.scale) * (UNIT
            - cam.translation_y) <= 0x8_0000_0000_0000_0000_0000_0000,
{
    let m = UNIT as int;
    let swsl = MAX_SCREEN_DIM as int * SCALE_LIMIT as int;
    lemma_pos_mul(cam.screen_w as int, cam.scale as int, MAX_SCREEN_DIM as int, SCALE_LIMIT as int);
    lemma_abs_mul(2 * px - cam.screen_w, m, 0x500000, m);
    lemma_abs_mul((2 * px - cam.screen_w) * UNIT, m, 0x500000 * m, m);
    lemma_abs_mul(cam.screen_w * cam.scale, UNIT - cam.translation_x, swsl, 2 * m);
    lemma_abs_mul(
        cam.game_w as int,
        (2 * px - cam.screen_w) * UNIT * UNIT + cam.screen_w * cam.scale * (UNIT
            - cam.translation_x),
        MAX_GAME_DIM as int,
        0x500000 * m * m + swsl * (2 * m),
    );
    lemma_pos_mul(2 * cam.screen_w, cam.scale as int, 2 * MAX_SCREEN_DIM as int, SCALE_LIMIT as int);
    lemma_pos_mul(2 * cam.screen_w * cam.scale, m, 2 * swsl, m);
    lemma_abs_mul(2 * py - cam.screen_h, cam.game_w as int, 0x500000, MAX_GAME_DIM as int);
    lemma_abs_mul((2 * py - cam.screen_h) * cam.game_w, m, 0x500000 * MAX_GAME_DIM as int, m);
    lemma_abs_mul(
        (2 * py - cam.screen_h) * cam.game_w * UNIT,
        m,
        0x500000 * MAX_GAME_DIM as int * m,
        m,
    );
    lemma_pos_mul(cam.game_h as int, cam.screen_w * cam.scale, MAX_GAME_DIM as int, swsl);
    lemma_abs_mul(
        cam.game_h * (cam.screen_w * cam.scale),
        UNIT - cam.translation_y,
        MAX_GAME_DIM as int * swsl,
        2 * m,
    );
}

/// The products the forward transform computes stay within bounds the
/// machine holds.
proof fn lemma_forward_bounds(cam: Camera, cx: int, cy: int)
    requires
        cam.wf(),
        0 <= cx < cam.game_w,
        0 <= cy < cam.game_h,
    ensures
        -0x8_0000_0000_0000_0000_0000_0000 <= (2 * cx + 1 - cam.game_w) * UNIT + cam.game_w
            * cam.translation_x <= 0x8_0000_0000_0000_0000_0000_0000,
        -0x8_0000_0000_0000_0000_0000_0000 <= cam.scale * ((2 * cx + 1 - cam.game_w) * UNIT
            + cam.game_w * cam.translation_x) <= 0x8_0000_0000_0000_0000_0000_0000,
        1 <= cam.game_w * UNIT * UNIT <= 0x8_0000_0000_0000_0000_0000_0000,
        -0x8_0000_0000_0000_0000_0000_0000 <= cam.screen_w * (cam.game_w * UNIT * UNIT + cam.scale
            * ((2 * cx + 1 - cam.game_w) * UNIT + cam.game_w * cam.translation_x))
            <= 0x8_0000_0000_0000_0000_0000_0000,
        2_000_000_000_000 <= 2 * cam.game_w * UNIT * UNIT <= 0x4000_0000_0000_0000_0000_0000_0000,
        -0x8_0000_0000_0000_0000_0000_0000 <= (2 * cy + 1 - cam.game_h) * UNIT + cam.game_h
            * cam.translation_y <= 0x8_0000_0000_0000_0000_0000_0000,
        1 <= cam.game_w * cam.screen_h * UNIT * UNIT <= 0x8_0000_0000_0000_0000_0000_0000,
        1 <= cam.scale * cam.screen_w <= 0x1_0000_0000_0000_0000_0000,
        -0x8_0000_0000_0000_0000_0000_0000 <= cam.scale * cam.screen_w * ((2 * cy + 1 - cam.game_h)
            * UNIT + cam.game_h * cam.translation_y) <= 0x8_0000_0000_0000_0000_0000_0000,
{
    let g = MAX_GAME_DIM as int;
    let m = UNIT as int;
    let sd = MAX_SCREEN_DIM as int;
    let sl = SCALE_LIMIT as int;
    lemma_abs_mul(2 * cx + 1 - cam.game_w, m, 2 * g, m);
    lemma_abs_mul(cam.game_w as int, cam.translation_x as int, g, m);
    lemma_abs_mul(
        cam.scale as int,
        (2 * cx + 1 - cam.game_w) * UNIT + cam.game_w * cam.translation_x,
        sl,
        2 * g * m + g * m,
    );
    lemma_pos_mul(cam.game_w as int, m, g, m);
    lemma_pos_mul(cam.game_w * UNIT, m, g * m, m);
    lemma_abs_mul(
        cam.screen_w as int,
        cam.game_w * UNIT * UNIT + cam.scale * ((2 * cx + 1 - cam.game_w) * UNIT + cam.game_w
            * cam.translation_x),
        sd,
        g * m * m + sl * (2 * g * m + g * m),
    );
    lemma_pos_mul_range(2 * cam.game_w, m, 2, 2 * g, m, m);
    lemma_pos_mul_range(2 * cam.game_w * UNIT, m, 2 * m, 2 * g * m, m, m);
    lemma_abs_mul(2 * cy + 1 - cam.game_h, m, 2 * g, m);
    lemma_abs_mul(cam.game_h as int, cam.translation_y as int, g, m);
    lemma_pos_mul(cam.game_w as int, cam.screen_h as int, g, sd);
    lemma_pos_mul(cam.game_w * cam.screen_h, m, g * sd, m);
    lemma_pos_mul(cam.game_w * cam.screen_h * UNIT, m, g * sd * m, m);
    lemma_pos_mul(cam.scale as int, cam.screen_w as int, sl, sd);
    lemma_abs_mul(
        cam.scale * cam.screen_w,
        (2 * cy + 1 - cam.game_h) * UNIT + cam.game_h * cam.translation_y,
        sl * sd,
        2 * g * m + g * m,
    );
}

/// The forward transform lands within the pixel range an `i64` holds.
proof fn lemma_forward_fits(cam: Camera, cx: int, cy: int)
    requires
        cam.wf(),
        0 <= cx < cam.game_w,
        0 <= cy < cam.game_h,
    ensures
        -0x8000_0000_0000_0000 <= forward_px(cam, cx) < 0x8000_0000_0000_0000,
        -0x8000_0000_0000_0000 <= forward_py(cam, cy) < 0x8000_0000_0000_0000,
{
    lemma_forward_bounds(cam, cx, cy);
    let nx = cam.screen_w * (cam.game_w * UNIT * UNIT + cam.scale * ((2 * cx + 1 - cam.game_w)
        * UNIT + cam.game_w * cam.translation_x));
    let ny = cam.game_w * cam.screen_h * UNIT * UNIT + cam.scale * cam.screen_w * ((2 * cy + 1
        - cam.game_h) * UNIT + cam.game_h * cam.translation_y);
    let d = 2 * cam.game_w * UNIT * UNIT;
    lemma_fundamental_div_mod(nx, d);
    lemma_mod_bound(nx, d);
    assert(-0x8000_0000_0000_0000 <= nx / d < 0x8000_0000_0000_0000) by (nonlinear_arith)
        requires
            nx == d * (nx / d) + nx % d,
            0 <= nx % d < d,
            2_000_000_000_000 <= d,
            -0x10_0000_0000_0000_0000_0000_0000 <= nx <= 0x10_0000_0000_0000_0000_0000_0000,
    ;
    lemma_fundamental_div_mod(ny, d);
    lemma_mod_bound(ny, d);
    assert(-0x8000_0000_0000_0000 <= ny / d < 0x8000_0000_0000_0000) by (nonlinear_arith)
        requires
            ny == d * (ny / d) + ny % d,
            0 <= ny % d < d,
            2_000_000_000_000 <= d,
            -0x10_0000_0000_0000_0000_0000_0000 <= ny <= 0x10_0000_0000_0000_0000_0000_0000,
    ;
}

/// Law: picking the pixel where a cell's center is rendered recovers that
/// cell, on both axes, for every zoom and pan within the clamped bounds,
/// whenever each cell spans at least two device pixels on screen
/// (`screen_w * scale >= 2 * UNIT * game_w`; with the aspect correction the
/// vertical span equals the horizontal one). This is the inverse-transform
/// correctness that keeps click-to-toggle aligned with what is rendered.
pub proof fn lemma_pick_inverts_forward(cam: Camera, cx: int, cy: int)
    requires
        cam.wf(),
        0 <= cx < cam.game_w,
        0 <= cy < cam.game_h,
        cam.screen_w * cam.scale >= 2 * UNIT * cam.game_w,
    ensures
        pick_col(cam, forward_px(cam, cx)) == cx,
        pick_row(cam, forward_py(cam, cy)) == cy,
{
    let m = UNIT as int;
    let sw = cam.screen_w as int;
    let sh = cam.screen_h as int;
    let s = cam.scale as int;
    let gw = cam.game_w as int;
    let gh = cam.game_h as int;
    let tx = cam.translation_x as int;
    let ty = cam.translation_y as int;

    // Shared abbreviations: one grid cell's worth of denominator (`gk`), the
    // zoom applied to the viewport (`ps`), and half the pick denominator
    // (`u`). The span condition makes `u` at least the whole forward
    // denominator, so one pixel of forward rounding moves the picked point by
    // less than half a cell.
    let gk = gw * (m * m);
    let ps = sw * s;
    let u = ps * m;
    let dd = 2 * gw * m * m;
    let d2 = 2 * sw * s * m;
    assert(dd == 2 * gk) by (nonlinear_arith)
        requires
            dd == 2 * gw * m * m,
            gk == gw * (m * m),
    ;
    assert(d2 == 2 * u) by (nonlinear_arith)
        requires
            d2 == 2 * sw * s * m,
            ps == sw * s,
            u == ps * m,
    ;
    lemma_pos_mul(gw, m * m, MAX_GAME_DIM as int, 1_000_000_000_000);
    lemma_pos_mul(sw, s, MAX_SCREEN_DIM as int, SCALE_LIMIT as int);
    lemma_pos_mul(ps, m, MAX_SCREEN_DIM as int * SCALE_LIMIT as int, m);
    assert(u >= 2 * gk) by (nonlinear_arith)
        requires
            ps >= 2 * m * gw,
            u == ps * m,
            gk == gw * (m * m),
            m >= 1,
    ;

    // Horizontal axis.
    let gps = gw * ps;
    let b = (2 * cx + 1 - gw) * m + gw * tx;
    let nn = sw * (gw * m * m + s * ((2 * cx + 1 - gw) * m + gw * tx));
    assert(gw * m * m == gk) by (nonlinear_arith)
        requires
            gk == gw * (m * m),
    ;
    assert(nn == sw * (gk + s * b));
    assert(sw * (gk + s * b) == sw * gk + sw * (s * b)) by (nonlinear_arith);
    assert(sw * (s * b) == ps * b) by (nonlinear_arith)
        requires
            ps == sw * s,
    ;
    lemma_expand_inner(ps, m, tx, gw, b, u, gps, cx);
    assert(nn == sw * gk + u * (2 * cx + 1 - gw) + gps * tx);

    lemma_fundamental_div_mod(nn, dd);
    lemma_mod_bound(nn, dd);
    let px = nn / dd;
    let r = nn % dd;
    assert(nn == 2 * gk * px + r) by (nonlinear_arith)
        requires
            nn == dd * px + r,
            dd == 2 * gk,
    ;

    let n2 = gw * ((2 * px - sw) * m * m + sw * s * (m - tx));
    let w2 = 2 * px - sw;
    assert(w2 * m * m == w2 * (m * m)) by (nonlinear_arith);
    assert(n2 == gw * (w2 * (m * m) + ps * (m - tx)));
    assert(gw * (w2 * (m * m) + ps * (m - tx)) == gw * (w2 * (m * m)) + gw * (ps * (m - tx)))
        by (nonlinear_arith);
    assert(gw * (w2 * (m * m)) == w2 * gk) by (nonlinear_arith)
        requires
            gk == gw * (m * m),
    ;
    assert(w2 * gk == 2 * gk * px - sw * gk) by (nonlinear_arith)
        requires
            w2 == 2 * px - sw,
    ;
    assert(gw * (ps * (m - tx)) == gps * m - gps * tx) by (nonlinear_arith)
        requires
            gps == gw * ps,
    ;
    assert(gps * m == gw * u) by (nonlinear_arith)
        requires
            gps == gw * ps,
            u == ps * m,
    ;
    assert(n2 == u * (2 * cx + 1 - gw) + gw * u - r);
    assert(u * (2 * cx + 1 - gw) + gw * u == u * (2 * cx + 1)) by (nonlinear_arith);
    lemma_final_div(n2, u, cx, r, d2);

    // Vertical axis: the same cancellation, with the aspect correction
    // carried through both transforms.
    let gpsy = gh * ps;
    let by = (2 * cy + 1 - gh) * m + gh * ty;
    let nny = gw * sh * m * m + s * sw * ((2 * cy + 1 - gh) * m + gh * ty);
    assert(gw * sh * m * m == sh * gk) by (nonlinear_arith)
        requires
            gk == gw * (m * m),
    ;
    assert(s * sw == ps) by (nonlinear_arith)
        requires
            ps == sw * s,
    ;
    assert(nny == sh * gk + ps * by);
    lemma_expand_inner(ps, m, ty, gh, by, u, gpsy, cy);
    assert(nny == sh * gk + u * (2 * cy + 1 - gh) + gpsy * ty);

    lemma_fundamental_div_mod(nny, dd);
    lemma_mod_bound(nny, dd);
    let py = nny / dd;
    let ry = nny % dd;
    assert(nny == 2 * gk * py + ry) by (nonlinear_arith)
        requires
            nny == dd * py + ry,
            dd == 2 * gk,
    ;

    let n2y = (2 * py - sh) * gw * m * m + gh * (sw * s) * (m - ty);
    let wy2 = 2 * py - sh;
    assert(wy2 * gw * m * m == wy2 * gk) by (nonlinear_arith)
        requires
            gk == gw * (m * m),
    ;
    assert(wy2 * gk == 2 * gk * py - sh * gk) by (nonlinear_arith)
        requires
            wy2 == 2 * py - sh,
    ;
    assert(gh * (sw * s) == gpsy) by (nonlinear_arith)
        requires
            ps == sw * s,
            gpsy == gh * ps,
    ;
    assert(n2y == wy2 * gk + gpsy * (m - ty));
    assert(gpsy * (m - ty) == gpsy * m - gpsy * ty) by (nonlinear_arith);
    assert(gpsy * m == gh * u) by (nonlinear_arith)
        requires
            gpsy == gh * ps,
            u == ps * m,
    ;
    assert(n2y == u * (2 * cy + 1 - gh) + gh * u - ry);
    assert(u * (2 * cy + 1 - gh) + gh * u == u * (2 * cy + 1)) by (nonlinear_arith);
    lemma_final_div(n2y, u, cy, ry, d2);
}

/// Distributes the zoomed viewport factor over the inner forward term.
proof fn lemma_expand_inner(ps: int, m: int, t: int, g: int, b: int, u: int, gps: int, c: int)
    requires
        b == (2 * c + 1 - g) * m + g * t,
        u == ps * m,
        gps == g * ps,
    ensures
        ps * b == u * (2 * c + 1 - g) + gps * t,
{
    let v1 = (2 * c + 1 - g) * m;
    let v2 = g * t;
    assert(ps * b == ps * v1 + ps * v2) by (nonlinear_arith)
        requires
            b == v1 + v2,
    ;
    let w1 = 2 * c + 1 - g;
    assert(ps * v1 == u * w1) by (nonlinear_arith)
        requires
            v1 == w1 * m,
            u == ps * m,
    ;
    assert(ps * v2 == gps * t) by (nonlinear_arith)
        requires
            v2 == g * t,
            gps == g * ps,
    ;
}

/// The centered numerator divides back to the cell coordinate: the rounding
/// remainder is under half the pick denominator, so the floor lands on the
/// cell.
proof fn lemma_final_div(n2: int, u: int, c: int, r: int, d2: int)
    requires
        n2 == u * (2 * c + 1) - r,
        d2 == 2 * u,
        1 <= u,
        0 <= r,
        r <= u,
    ensures
        n2 / d2 == c,
{
    assert(n2 == c * d2 + (u - r)) by (nonlinear_arith)
        requires
            n2 == u * (2 * c + 1) - r,
            d2 == 2 * u,
    ;
    lemma_fundamental_div_mod_converse_div(n2, d2, c, u - r);
}

} // verus!
