//! The camera: a pannable, zoomable viewport that maps fixed-point
//! scene coordinates to canvas pixels and back.  The zoom level is
//! logarithmic, held in tenths of a doubling, and the cached zoom
//! factor is re-derived from it whenever it changes, so the two can
//! never drift apart.

use vstd::prelude::*;
use vstd::arithmetic::div_mod::{
    lemma_div_basics, lemma_div_by_self, lemma_div_is_ordered, lemma_div_is_ordered_by_denominator,
    lemma_div_plus_one, lemma_fundamental_div_mod, lemma_fundamental_div_mod_converse_div,
    lemma_fundamental_div_mod_converse_mod, lemma_mod_division_less_than_divisor,
};
use vstd::arithmetic::power2::{lemma2_to64, lemma_pow2_pos, lemma_pow2_strictly_increases, pow2};
use vstd::bits::{lemma_u64_shl_is_mul, lemma_u64_shr_is_div};
use crate::fixed::{clip, div_trunc, lemma_tdiv_close, sat_fx, tdiv, FX_LIMIT, SCALE};

verus! {

/// `SCALE` squared: the divisor that takes a product of two fixed-point
/// factors back to fixed point.
pub const SCALE_SQ: i64 = SCALE * SCALE;

/// Smallest zoom level kept, in tenths of a doubling; below it the
/// fixed-point zoom factor would underflow to zero.
pub const ZOOM_MIN_TENTHS: i32 = -160;

/// Largest zoom level kept, in tenths of a doubling; above it later
/// products would no longer fit the intermediate integers.
pub const ZOOM_MAX_TENTHS: i32 = 200;

/// The zoom factor at `ZOOM_MAX_TENTHS`: `2^37`.
pub const ZOOM_FACTOR_MAX: i64 = 137438953472;

/// Largest viewport side accepted, in pixels.
pub const MAX_SIDE: u32 = 32768;

/// The zoom level a fresh camera starts at: `-4.4` doublings.
pub const HOME_ZOOM_TENTHS: i32 = -44;

/// `2^(r/10) * SCALE`, rounded down, for `r` in `0 .. 10`: the
/// fractional-doubling part of the zoom factor.
pub open spec fn zoom_frac(r: int) -> int {
    if r == 0 {
        65536
    } else if r == 1 {
        70239
    } else if r == 2 {
        75281
    } else if r == 3 {
        80684
    } else if r == 4 {
        86475
    } else if r == 5 {
        92681
    } else if r == 6 {
        99334
    } else if r == 7 {
        106463
    } else if r == 8 {
        114104
    } else {
        122294
    }
}

/// The fixed-point zoom factor derived from a zoom level of `t` tenths
/// of a doubling: the fractional part from the table, the whole
/// doublings as a binary shift.
pub open spec fn zoom_factor_of(t: int) -> int {
    let q = t / 10;
    let r = t % 10;
    if q >= 0 {
        zoom_frac(r) * pow2(q as nat)
    } else {
        zoom_frac(r) / (pow2((-q) as nat) as int)
    }
}

/// Within the kept zoom range the factor is strictly positive and
/// bounded: finite zoom never degenerates to a zero or negative scale.
pub proof fn lemma_zoom_factor_bounds(t: int)
    requires
        ZOOM_MIN_TENTHS <= t <= ZOOM_MAX_TENTHS,
    ensures
        1 <= zoom_factor_of(t) <= ZOOM_FACTOR_MAX,
{
    let q = t / 10;
    let r = t % 10;
    lemma_mod_division_less_than_divisor(t, 10);
    lemma_fundamental_div_mod_converse_div(-160, 10, -16, 0);
    lemma_fundamental_div_mod_converse_div(200, 10, 20, 0);
    lemma_div_is_ordered(-160, t, 10);
    lemma_div_is_ordered(t, 200, 10);
    lemma2_to64();
    if q >= 0 {
        if q < 20 {
            lemma_pow2_strictly_increases(q as nat, 20);
        }
        lemma_pow2_pos(q as nat);
        assert(zoom_frac(r) * pow2(q as nat) >= 1) by (nonlinear_arith)
            requires
                zoom_frac(r) >= 65536,
                pow2(q as nat) >= 1;
        assert(zoom_frac(r) * pow2(q as nat) <= ZOOM_FACTOR_MAX) by (nonlinear_arith)
            requires
                0 <= zoom_frac(r) <= 122294,
                0 <= pow2(q as nat) <= 1048576,
                ZOOM_FACTOR_MAX == 137438953472;
    } else {
        let m = (-q) as nat;
        if m < 16 {
            lemma_pow2_strictly_increases(m, 16);
        }
        lemma_pow2_pos(m);
        lemma_div_is_ordered(65536, zoom_frac(r), pow2(m) as int);
        lemma_div_is_ordered_by_denominator(65536, pow2(m) as int, 65536);
        lemma_div_by_self(65536);
        lemma_div_is_ordered_by_denominator(zoom_frac(r), 1, pow2(m) as int);
        lemma_div_basics(zoom_frac(r));
    }
}

/// The viewport and its view of the scene: pixel dimensions, the scene
/// point at the viewport centre (the pan), and the logarithmic zoom
/// with its cached factor.
#[derive(Clone, Copy, PartialEq, Eq, Structural, Debug)]
pub struct Camera {
    pub width: u32,
    pub height: u32,
    pub pan_x: i64,
    pub pan_y: i64,
    pub zoom_tenths: i32,
    pub zoom_factor: i64,
}

impl Camera {
    /// Well-formed: a non-degenerate bounded viewport, a pan inside the
    /// fixed-point range, and a zoom factor that equals the one derived
    /// from the zoom level.
    pub open spec fn wf(self) -> bool {
        &&& 0 < self.width <= MAX_SIDE
        &&& 0 < self.height <= MAX_SIDE
        &&& -FX_LIMIT <= self.pan_x <= FX_LIMIT
        &&& -FX_LIMIT <= self.pan_y <= FX_LIMIT
        &&& ZOOM_MIN_TENTHS <= self.zoom_tenths <= ZOOM_MAX_TENTHS
        &&& self.zoom_factor == zoom_factor_of(self.zoom_tenths as int)
        &&& 1 <= self.zoom_factor <= ZOOM_FACTOR_MAX
    }

    /// The shorter viewport side, the side that fixes the scale.
    pub open spec fn side_len(self) -> int {
        if self.width <= self.height {
            self.width as int
        } else {
            self.height as int
        }
    }

    /// Canvas pixels per `SCALE_SQ` fixed units: shorter side times zoom
    /// factor.
    pub open spec fn zoom_scale(self) -> int {
        self.side_len() * self.zoom_factor
    }

    /// The canvas column of scene abscissa `px`, before pixel clamping.
    pub open spec fn canvas_x_raw(self, px: int) -> int {
        tdiv((px - self.pan_x) * self.zoom_scale(), SCALE_SQ as int) + self.width / 2
    }

    /// The canvas row of scene ordinate `py`, before pixel clamping;
    /// scene `+y` points up, canvas `+y` points down.
    pub open spec fn canvas_y_raw(self, py: int) -> int {
        tdiv(-((py - self.pan_y) * self.zoom_scale()), SCALE_SQ as int) + self.height / 2
    }

    /// The scene abscissa under canvas column `cx`, before saturation.
    pub open spec fn scene_x_raw(self, cx: int) -> int {
        self.pan_x + tdiv((cx - self.width / 2) * (SCALE_SQ as int), self.zoom_scale())
    }

    /// The scene ordinate under canvas row `cy`, before saturation.
    pub open spec fn scene_y_raw(self, cy: int) -> int {
        self.pan_y - tdiv((cy - self.height / 2) * (SCALE_SQ as int), self.zoom_scale())
    }

    /// The scene point under a canvas point, saturated to the
    /// fixed-point range.
    pub open spec fn scene_x_of(self, cx: int) -> int {
        clip(self.scene_x_raw(cx), -FX_LIMIT as int, FX_LIMIT as int)
    }

    /// As `scene_x_of`, for the ordinate.
    pub open spec fn scene_y_of(self, cy: int) -> int {
        clip(self.scene_y_raw(cy), -FX_LIMIT as int, FX_LIMIT as int)
    }

    /// A fresh fullscreen camera: centred on the origin, at the home
    /// zoom level.
    pub fn new(width: u32, height: u32) -> (cam: Camera)
        requires
            0 < width <= MAX_SIDE,
            0 < height <= MAX_SIDE,
        ensures
            cam.wf(),
            cam.width == width,
            cam.height == height,
            cam.pan_x == 0,
            cam.pan_y == 0,
            cam.zoom_tenths == HOME_ZOOM_TENTHS,
    {
        let mut cam = Camera {
            width,
            height,
            pan_x: 0,
            pan_y: 0,
            zoom_tenths: HOME_ZOOM_TENTHS,
            zoom_factor: 1,
        };
        cam.update_zoom();
        proof {
            lemma_zoom_factor_bounds(HOME_ZOOM_TENTHS as int);
        }
        cam
    }

    /// Re-derives the cached zoom factor from the zoom level.  Relied
    /// on after every change of `zoom_tenths`: a stale factor would
    /// break the transforms' invertibility.
    pub fn update_zoom(&mut self)
        requires
            ZOOM_MIN_TENTHS <= old(self).zoom_tenths <= ZOOM_MAX_TENTHS,
        ensures
            *final(self) == (Camera {
                zoom_factor: zoom_factor_of(old(self).zoom_tenths as int) as i64,
                ..*old(self)
            }),
            1 <= final(self).zoom_factor <= ZOOM_FACTOR_MAX,
    {
        let t = self.zoom_tenths;
        proof {
            lemma_zoom_factor_bounds(t as int);
            lemma2_to64();
        }
        if t >= 0 {
            let q: u32 = (t as u32) / 10;
            let r: u32 = (t as u32) % 10;
            let base: u64 = zoom_frac_val(r);
            proof {
                assert(q == t as int / 10 && r == t as int % 10);
                lemma_fundamental_div_mod_converse_div(200, 10, 20, 0);
                lemma_div_is_ordered(t as int, 200, 10);
                if q < 20 {
                    lemma_pow2_strictly_increases(q as nat, 20);
                }
                assert(base * pow2(q as nat) <= 137438953472) by (nonlinear_arith)
                    requires
                        0 <= base <= 122294,
                        0 <= pow2(q as nat) <= 1048576;
                lemma_u64_shl_is_mul(base, q as u64);
            }
            let z: u64 = base << (q as u64);
            self.zoom_factor = z as i64;
        } else {
            let m: u32 = (-t) as u32;
            let qm: u32 = (m + 9) / 10;
            proof {
                lemma_fundamental_div_mod(m as int + 9, 10);
                lemma_mod_division_less_than_divisor(m as int + 9, 10);
                lemma_fundamental_div_mod_converse_div(169, 10, 16, 9);
                lemma_div_is_ordered(m as int + 9, 169, 10);
            }
            let r: u32 = qm * 10 - m;
            proof {
                lemma_fundamental_div_mod_converse_div(t as int, 10, -(qm as int), r as int);
                lemma_fundamental_div_mod_converse_mod(t as int, 10, -(qm as int), r as int);
            }
            let base: u64 = zoom_frac_val(r);
            proof {
                lemma_u64_shr_is_div(base, qm as u64);
                lemma_pow2_pos(qm as nat);
                lemma_div_basics(base as int);
                lemma_div_is_ordered_by_denominator(base as int, 1, pow2(qm as nat) as int);
            }
            let z: u64 = base >> (qm as u64);
            self.zoom_factor = z as i64;
        }
    }

    /// Stores a zoom level and re-derives the factor.
    pub fn set_zoom_level(&mut self, tenths: i32)
        requires
            ZOOM_MIN_TENTHS <= tenths <= ZOOM_MAX_TENTHS,
        ensures
            *final(self) == (Camera {
                zoom_tenths: tenths,
                zoom_factor: zoom_factor_of(tenths as int) as i64,
                ..*old(self)
            }),
    {
        self.zoom_tenths = tenths;
        self.update_zoom();
    }

    /// Projects a scene point to canvas pixels, clamped to the pixel
    /// coordinate range.
    pub fn scene_to_canvas(&self, px: i64, py: i64) -> (c: (i32, i32))
        requires
            self.wf(),
            -FX_LIMIT <= px <= FX_LIMIT,
            -FX_LIMIT <= py <= FX_LIMIT,
        ensures
            c.0 == clip(self.canvas_x_raw(px as int), i32::MIN as int, i32::MAX as int),
            c.1 == clip(self.canvas_y_raw(py as int), i32::MIN as int, i32::MAX as int),
    {
        let side: u32 = if self.width <= self.height {
            self.width
        } else {
            self.height
        };
        proof {
            assert(0 <= (side as int) * (self.zoom_factor as int) <= 4503599627370496)
                by (nonlinear_arith)
                requires
                    1 <= side <= 32768,
                    1 <= self.zoom_factor <= 137438953472;
        }
        let k: i128 = (side as i128) * (self.zoom_factor as i128);
        let dx: i128 = (px as i128) - (self.pan_x as i128);
        let dy: i128 = (py as i128) - (self.pan_y as i128);
        proof {
            assert(dx * k <= i128::MAX && -i128::MAX <= dx * k && dy * k <= i128::MAX
                && -i128::MAX <= dy * k) by (nonlinear_arith)
                requires
                    -2199023255552 <= dx <= 2199023255552,
                    -2199023255552 <= dy <= 2199023255552,
                    0 <= k <= 4503599627370496;
        }
        let qx: i128 = div_trunc(dx * k, SCALE_SQ as i128);
        let qy: i128 = div_trunc(-(dy * k), SCALE_SQ as i128);
        proof {
            crate::fixed::lemma_tdiv_mag((dx as int) * (k as int), SCALE_SQ as int);
            crate::fixed::lemma_tdiv_mag(-((dy as int) * (k as int)), SCALE_SQ as int);
        }
        let vx: i128 = qx + ((self.width / 2) as i128);
        let vy: i128 = qy + ((self.height / 2) as i128);
        (clamp_px(vx), clamp_px(vy))
    }

    /// Recovers the scene point under a canvas point, saturated to the
    /// fixed-point range; the algebraic inverse of `scene_to_canvas`.
    pub fn canvas_to_scene(&self, cx: i32, cy: i32) -> (p: (i64, i64))
        requires
            self.wf(),
        ensures
            p.0 == self.scene_x_of(cx as int),
            p.1 == self.scene_y_of(cy as int),
            -FX_LIMIT <= p.0 <= FX_LIMIT,
            -FX_LIMIT <= p.1 <= FX_LIMIT,
    {
        let side: u32 = if self.width <= self.height {
            self.width
        } else {
            self.height
        };
        proof {
            assert(1 <= (side as int) * (self.zoom_factor as int) <= 4503599627370496)
                by (nonlinear_arith)
                requires
                    1 <= side <= 32768,
                    1 <= self.zoom_factor <= 137438953472;
        }
        let k: i128 = (side as i128) * (self.zoom_factor as i128);
        let off_x: i128 = (cx as i128) - ((self.width / 2) as i128);
        let off_y: i128 = (cy as i128) - ((self.height / 2) as i128);
        let tx: i128 = div_trunc(off_x * (SCALE_SQ as i128), k);
        let ty: i128 = div_trunc(off_y * (SCALE_SQ as i128), k);
        proof {
            crate::fixed::lemma_tdiv_mag((off_x as int) * (SCALE_SQ as int), k as int);
            crate::fixed::lemma_tdiv_mag((off_y as int) * (SCALE_SQ as int), k as int);
        }
        let x: i64 = sat_fx((self.pan_x as i128) + tx);
        let y: i64 = sat_fx((self.pan_y as i128) - ty);
        (x, y)
    }
}

/// The zoom level one wheel tick away from `t`: a fifth of a doubling
/// in the wheel's direction, held at the kept range's edge.
pub open spec fn wheel_tenths(t: int, zoom_in: bool) -> int {
    if zoom_in {
        if t + 2 > ZOOM_MAX_TENTHS {
            ZOOM_MAX_TENTHS as int
        } else {
            t + 2
        }
    } else {
        if t - 2 < ZOOM_MIN_TENTHS {
            ZOOM_MIN_TENTHS as int
        } else {
            t - 2
        }
    }
}

/// The camera one wheel tick after `cam`, before the pan correction.
pub open spec fn zoom_mid(cam: Camera, zoom_in: bool) -> Camera {
    let t2 = wheel_tenths(cam.zoom_tenths as int, zoom_in);
    Camera { zoom_tenths: t2 as i32, zoom_factor: zoom_factor_of(t2) as i64, ..cam }
}

/// The camera one wheel tick after `cam`, panned so that the scene
/// point under the cursor stays under it.
pub open spec fn zoomed(cam: Camera, zoom_in: bool, cx: int, cy: int) -> Camera {
    let mid = zoom_mid(cam, zoom_in);
    Camera {
        pan_x: clip(
            cam.pan_x + cam.scene_x_of(cx) - mid.scene_x_of(cx),
            -FX_LIMIT as int,
            FX_LIMIT as int,
        ) as i64,
        pan_y: clip(
            cam.pan_y + cam.scene_y_of(cy) - mid.scene_y_of(cy),
            -FX_LIMIT as int,
            FX_LIMIT as int,
        ) as i64,
        ..mid
    }
}

impl Camera {
    /// One wheel tick of zoom about the cursor: capture the scene point
    /// under the cursor, change the zoom level, and shift the pan by
    /// how far that point moved, so it stays under the cursor.
    pub fn zoom_about_pointer(&mut self, zoom_in: bool, cx: i32, cy: i32)
        requires
            old(self).wf(),
        ensures
            *final(self) == zoomed(*old(self), zoom_in, cx as int, cy as int),
            final(self).wf(),
    {
        let t = self.zoom_tenths;
        let t2: i32 = if zoom_in {
            if t + 2 > ZOOM_MAX_TENTHS {
                ZOOM_MAX_TENTHS
            } else {
                t + 2
            }
        } else {
            if t - 2 < ZOOM_MIN_TENTHS {
                ZOOM_MIN_TENTHS
            } else {
                t - 2
            }
        };
        let before = self.canvas_to_scene(cx, cy);
        self.set_zoom_level(t2);
        proof {
            lemma_zoom_factor_bounds(t2 as int);
        }
        let after = self.canvas_to_scene(cx, cy);
        let nx: i64 = sat_fx((self.pan_x as i128) + (before.0 as i128) - (after.0 as i128));
        let ny: i64 = sat_fx((self.pan_y as i128) + (before.1 as i128) - (after.1 as i128));
        self.pan_x = nx;
        self.pan_y = ny;
    }
}

/// `a <= b / k` follows from `k * a <= b` for positive `k`.
proof fn lemma_le_div(a: int, b: int, k: int)
    requires
        0 < k,
        k * a <= b,
    ensures
        a <= b / k,
{
    vstd::arithmetic::div_mod::lemma_div_multiples_vanish(a, k);
    lemma_div_is_ordered(k * a, b, k);
}

/// The core of the round trip on one axis: scaling an offset `d` to
/// pixels and back moves it by at most one pixel's worth of scene
/// units, plus one fixed-point quantum.
proof fn lemma_trip_axis(d: int, k: int)
    requires
        1 <= k,
    ensures
        -((SCALE_SQ as int) / k + 1) <= tdiv(tdiv(d * k, SCALE_SQ as int) * (SCALE_SQ as int), k)
            - d <= (SCALE_SQ as int) / k + 1,
{
    let m = SCALE_SQ as int;
    let c = tdiv(d * k, m);
    let u = tdiv(c * m, k);
    lemma_tdiv_close(d * k, m);
    lemma_tdiv_close(c * m, k);
    assert(-(m - 1) <= c * m - d * k <= m - 1);
    assert(-(k - 1) <= u * k - c * m <= k - 1);
    assert(u * k - d * k == k * (u - d)) by (nonlinear_arith);
    assert(k * (u - d) <= m + k - 2);
    assert(k * (d - u) == -(k * (u - d))) by (nonlinear_arith);
    assert(k * (d - u) <= m + k - 2);
    lemma_le_div(u - d, m + k - 2, k);
    lemma_le_div(d - u, m + k - 2, k);
    lemma_div_is_ordered(m + k - 2, m + k, k);
    lemma_div_plus_one(m, k);
}

/// The scene units spanned by one canvas pixel under `cam`, plus two
/// quanta of slack: the tolerance of the camera round trip.
pub open spec fn pixel_error(cam: Camera) -> int {
    (SCALE_SQ as int) / cam.zoom_scale() + 2
}

/// Round trip: projecting a scene point to the canvas and recovering it
/// lands within one pixel's worth of truncation error, on both axes.
/// The point must project inside the pixel range and sit far enough
/// from the fixed-point range's edge that saturation cannot interfere.
pub proof fn lemma_round_trip(cam: Camera, px: int, py: int)
    requires
        cam.wf(),
        i32::MIN <= cam.canvas_x_raw(px) <= i32::MAX,
        i32::MIN <= cam.canvas_y_raw(py) <= i32::MAX,
        -FX_LIMIT + pixel_error(cam) <= px <= FX_LIMIT - pixel_error(cam),
        -FX_LIMIT + pixel_error(cam) <= py <= FX_LIMIT - pixel_error(cam),
    ensures
        -pixel_error(cam) <= cam.scene_x_of(cam.canvas_x_raw(px)) - px <= pixel_error(cam),
        -pixel_error(cam) <= cam.scene_y_of(cam.canvas_y_raw(py)) - py <= pixel_error(cam),
{
    let m = SCALE_SQ as int;
    let k = cam.zoom_scale();
    assert(1 <= k) by (nonlinear_arith)
        requires
            1 <= cam.side_len(),
            1 <= cam.zoom_factor,
            k == cam.side_len() * cam.zoom_factor;
    let dx = px - cam.pan_x;
    let cx = cam.canvas_x_raw(px);
    assert(cx - cam.width / 2 == tdiv(dx * k, m));
    lemma_trip_axis(dx, k);
    assert(cam.scene_x_raw(cx) - px == tdiv(tdiv(dx * k, m) * m, k) - dx);

    let dy = -((py - cam.pan_y));
    let cy = cam.canvas_y_raw(py);
    assert((py - cam.pan_y) * k == -(dy * k)) by (nonlinear_arith)
        requires
            dy == -(py - cam.pan_y);
    assert(cy - cam.height / 2 == tdiv(dy * k, m));
    lemma_trip_axis(dy, k);
    assert(py - cam.scene_y_raw(cy) == tdiv(tdiv(dy * k, m) * m, k) - dy);
}

/// Zoom-to-pointer invariance: as long as neither pixel clamping nor
/// fixed-point saturation interferes, the scene point under the cursor
/// is exactly the same before and after a wheel tick of zoom.
pub proof fn lemma_zoom_keeps_cursor(cam: Camera, zoom_in: bool, cx: int, cy: int)
    requires
        cam.wf(),
        -FX_LIMIT <= cam.scene_x_raw(cx) <= FX_LIMIT,
        -FX_LIMIT <= cam.scene_y_raw(cy) <= FX_LIMIT,
        -FX_LIMIT <= zoom_mid(cam, zoom_in).scene_x_raw(cx) <= FX_LIMIT,
        -FX_LIMIT <= zoom_mid(cam, zoom_in).scene_y_raw(cy) <= FX_LIMIT,
        -FX_LIMIT <= cam.pan_x + cam.scene_x_raw(cx) - zoom_mid(cam, zoom_in).scene_x_raw(cx)
            <= FX_LIMIT,
        -FX_LIMIT <= cam.pan_y + cam.scene_y_raw(cy) - zoom_mid(cam, zoom_in).scene_y_raw(cy)
            <= FX_LIMIT,
    ensures
        zoomed(cam, zoom_in, cx, cy).scene_x_of(cx) == cam.scene_x_of(cx),
        zoomed(cam, zoom_in, cx, cy).scene_y_of(cy) == cam.scene_y_of(cy),
{
    let mid = zoom_mid(cam, zoom_in);
    let z = zoomed(cam, zoom_in, cx, cy);
    assert(z.zoom_scale() == mid.zoom_scale());
    assert(z.scene_x_raw(cx) == z.pan_x + (mid.scene_x_raw(cx) - mid.pan_x));
    assert(z.scene_y_raw(cy) == z.pan_y - (mid.pan_y - mid.scene_y_raw(cy)));
    assert(z.pan_x == cam.pan_x + cam.scene_x_raw(cx) - mid.scene_x_raw(cx));
    assert(z.pan_y == cam.pan_y + cam.scene_y_raw(cy) - mid.scene_y_raw(cy));
}

/// The table behind `zoom_frac`.
fn zoom_frac_val(r: u32) -> (b: u64)
    requires
        r < 10,
    ensures
        b == zoom_frac(r as int),
        65536 <= b <= 122294,
{
    match r {
        0 => 65536,
        1 => 70239,
        2 => 75281,
        3 => 80684,
        4 => 86475,
        5 => 92681,
        6 => 99334,
        7 => 106463,
        8 => 114104,
        _ => 122294,
    }
}

/// Clamps an intermediate canvas coordinate into the pixel range.
fn clamp_px(v: i128) -> (c: i32)
    ensures
        c == clip(v as int, i32::MIN as int, i32::MAX as int),
{
    if v < i32::MIN as i128 {
        i32::MIN
    } else if v > i32::MAX as i128 {
        i32::MAX
    } else {
        v as i32
    }
}

} // verus!
