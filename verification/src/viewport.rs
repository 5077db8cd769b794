//! The viewport: a rectangular window on the complex plane, and the mapping
//! from pixel coordinates to plane coordinates.
//!
//! A [`ViewportState`] holds a centre and a zoom factor, all in raw
//! fixed-point units (see [`crate::fixed::SCALE`]). At zoom `1.0` the window
//! spans `3.5` plane units horizontally starting `2.0` left of the centre,
//! and `2.4` units vertically starting `1.2` above the centre; both extents
//! shrink in proportion as the zoom grows.

use crate::fixed::SCALE;
use vstd::arithmetic::div_mod::{
    lemma_div_is_ordered, lemma_div_multiples_vanish, lemma_div_nonincreasing,
    lemma_div_pos_is_pos, lemma_hoist_over_denominator,
};
use vstd::arithmetic::mul::{lemma_mul_inequality, lemma_mul_nonnegative, lemma_mul_upper_bound};
use vstd::prelude::*;

verus! {

/// Horizontal extent of the window at zoom `1.0`: `3.5` plane units.
pub const EXTENT_RE_RAW: i64 = 35_000_000;

/// Vertical extent of the window at zoom `1.0`: `2.4` plane units.
pub const EXTENT_IM_RAW: i64 = 24_000_000;

/// Distance from the window's left edge to its centre at zoom `1.0`: `2.0`.
pub const OFFSET_RE_RAW: i64 = 20_000_000;

/// Distance from the window's top edge to its centre at zoom `1.0`: `1.2`.
pub const OFFSET_IM_RAW: i64 = 12_000_000;

/// Largest zoom factor a well-formed viewport may hold (raw units).
pub const ZOOM_RAW_MAX: i64 = 1_000_000_000_000_000_000;

/// Largest centre magnitude a well-formed viewport may hold (raw units).
pub const CENTER_RAW_MAX: i64 = 400_000_000_000_000_000;

/// Bound on the magnitude of any coordinate a well-formed viewport can map
/// a pixel to: `CENTER_RAW_MAX` plus one full extent of slack.
pub const COORD_RAW_MAX: i64 = 500_000_000_000_000_000;

/// Largest image width or height the engine accepts.
pub const MAX_DIM: usize = 30_000;

/// The window on the complex plane: a centre point and a zoom factor,
/// all in raw fixed-point units. `zoom == SCALE` is the unzoomed view.
#[derive(Clone, Copy, Debug, PartialEq, Eq, Structural)]
pub struct ViewportState {
    pub center_re: i64,
    pub center_im: i64,
    pub zoom: i64,
}

impl ViewportState {
    /// Well-formedness: the zoom is positive and everything stays far from
    /// the edge of the `i64` range.
    pub open spec fn wf(self) -> bool {
        &&& 1 <= self.zoom <= ZOOM_RAW_MAX
        &&& -CENTER_RAW_MAX <= self.center_re <= CENTER_RAW_MAX
        &&& -CENTER_RAW_MAX <= self.center_im <= CENTER_RAW_MAX
    }

    /// Width of the window in raw units: `3.5 / zoom`.
    pub open spec fn span_re(self) -> int {
        (EXTENT_RE_RAW * SCALE) / (self.zoom as int)
    }

    /// Height of the window in raw units: `2.4 / zoom`.
    pub open spec fn span_im(self) -> int {
        (EXTENT_IM_RAW * SCALE) / (self.zoom as int)
    }

    /// Left edge of the window: `center_re - 2.0 / zoom`.
    pub open spec fn base_re(self) -> int {
        self.center_re - (OFFSET_RE_RAW * SCALE) / (self.zoom as int)
    }

    /// Top edge of the window: `center_im - 1.2 / zoom`.
    pub open spec fn base_im(self) -> int {
        self.center_im - (OFFSET_IM_RAW * SCALE) / (self.zoom as int)
    }

    /// Real coordinate of pixel column `x` of an image `width` pixels wide:
    /// `center_re - 2.0/zoom + (x / (width-1)) * 3.5/zoom`, carried out in
    /// raw integer units.
    pub open spec fn map_re_spec(self, x: int, width: int) -> int {
        self.base_re() + (x * self.span_re()) / (width - 1)
    }

    /// Imaginary coordinate of pixel row `y` of an image `height` pixels
    /// tall: `center_im - 1.2/zoom + (y / (height-1)) * 2.4/zoom`.
    pub open spec fn map_im_spec(self, y: int, height: int) -> int {
        self.base_im() + (y * self.span_im()) / (height - 1)
    }

    /// The classic framing of the set: centre `(-0.25, 0)`, zoom `1.0`.
    pub fn initial() -> (r: ViewportState)
        ensures
            r.wf(),
            r.center_re == -2_500_000int,
            r.center_im == 0int,
            r.zoom == SCALE,
    {
        ViewportState { center_re: -2_500_000, center_im: 0, zoom: SCALE }
    }

    /// The mapped coordinate of any pixel lies within one extent of the
    /// centre, and so within `COORD_RAW_MAX` for a well-formed viewport.
    pub proof fn lemma_map_re_bounds(self, x: int, width: int)
        requires
            self.wf(),
            2 <= width,
            0 <= x < width,
        ensures
            self.center_re - EXTENT_RE_RAW * SCALE <= self.map_re_spec(x, width)
                <= self.center_re + EXTENT_RE_RAW * SCALE,
            -COORD_RAW_MAX <= self.map_re_spec(x, width) <= COORD_RAW_MAX,
    {
        lemma_affine_term_bounds(
            self.zoom as int,
            OFFSET_RE_RAW * SCALE,
            EXTENT_RE_RAW * SCALE,
            x,
            width,
        );
    }

    /// Counterpart of [`Self::lemma_map_re_bounds`] for the vertical axis.
    pub proof fn lemma_map_im_bounds(self, y: int, height: int)
        requires
            self.wf(),
            2 <= height,
            0 <= y < height,
        ensures
            self.center_im - EXTENT_IM_RAW * SCALE <= self.map_im_spec(y, height)
                <= self.center_im + EXTENT_IM_RAW * SCALE,
            -COORD_RAW_MAX <= self.map_im_spec(y, height) <= COORD_RAW_MAX,
    {
        lemma_affine_term_bounds(
            self.zoom as int,
            OFFSET_IM_RAW * SCALE,
            EXTENT_IM_RAW * SCALE,
            y,
            height,
        );
    }

    /// Increasing the column index strictly increases the mapped real
    /// coordinate, as long as the window is at least one raw unit per
    /// pixel wide (`span_re() >= width - 1`); at finer zoom the raw grid
    /// itself can no longer separate neighbouring pixels.
    pub proof fn lemma_map_re_strictly_increasing(self, x1: int, x2: int, width: int)
        requires
            self.wf(),
            2 <= width,
            0 <= x1 < x2 < width,
            width - 1 <= self.span_re(),
        ensures
            self.map_re_spec(x1, width) < self.map_re_spec(x2, width),
    {
        lemma_scaled_div_strictly_increasing(self.span_re(), width - 1, x1, x2);
    }

    /// Increasing the row index strictly increases the mapped imaginary
    /// coordinate, under the same raw-resolution proviso as
    /// [`Self::lemma_map_re_strictly_increasing`].
    pub proof fn lemma_map_im_strictly_increasing(self, y1: int, y2: int, height: int)
        requires
            self.wf(),
            2 <= height,
            0 <= y1 < y2 < height,
            height - 1 <= self.span_im(),
        ensures
            self.map_im_spec(y1, height) < self.map_im_spec(y2, height),
    {
        lemma_scaled_div_strictly_increasing(self.span_im(), height - 1, y1, y2);
    }

    /// Real coordinate of pixel column `x`, computed exactly as
    /// [`Self::map_re_spec`] states.
    pub fn map_re(&self, x: usize, width: usize) -> (r: i64)
        requires
            self.wf(),
            2 <= width <= MAX_DIM,
            x < width,
        ensures
            r == self.map_re_spec(x as int, width as int),
            -COORD_RAW_MAX <= r <= COORD_RAW_MAX,
    {
        proof {
            self.lemma_map_re_bounds(x as int, width as int);
        }
        let zoom: i128 = self.zoom as i128;
        let span: i128 = (EXTENT_RE_RAW as i128 * SCALE as i128) / zoom;
        let base: i128 = self.center_re as i128 - (OFFSET_RE_RAW as i128 * SCALE as i128) / zoom;
        proof {
            lemma_div_pos_is_pos(EXTENT_RE_RAW * SCALE, self.zoom as int);
            lemma_div_nonincreasing(EXTENT_RE_RAW * SCALE, self.zoom as int);
            lemma_mul_nonnegative(x as int, span as int);
            lemma_mul_upper_bound(x as int, MAX_DIM as int, span as int, EXTENT_RE_RAW * SCALE);
        }
        let r: i128 = base + ((x as i128) * span) / ((width - 1) as i128);
        r as i64
    }

    /// Imaginary coordinate of pixel row `y`, computed exactly as
    /// [`Self::map_im_spec`] states.
    pub fn map_im(&self, y: usize, height: usize) -> (r: i64)
        requires
            self.wf(),
            2 <= height <= MAX_DIM,
            y < height,
        ensures
            r == self.map_im_spec(y as int, height as int),
            -COORD_RAW_MAX <= r <= COORD_RAW_MAX,
    {
        proof {
            self.lemma_map_im_bounds(y as int, height as int);
        }
        let zoom: i128 = self.zoom as i128;
        let span: i128 = (EXTENT_IM_RAW as i128 * SCALE as i128) / zoom;
        let base: i128 = self.center_im as i128 - (OFFSET_IM_RAW as i128 * SCALE as i128) / zoom;
        proof {
            lemma_div_pos_is_pos(EXTENT_IM_RAW * SCALE, self.zoom as int);
            lemma_div_nonincreasing(EXTENT_IM_RAW * SCALE, self.zoom as int);
            lemma_mul_nonnegative(y as int, span as int);
            lemma_mul_upper_bound(y as int, MAX_DIM as int, span as int, EXTENT_IM_RAW * SCALE);
        }
        let r: i128 = base + ((y as i128) * span) / ((height - 1) as i128);
        r as i64
    }
}

/// Shared bound argument for both axes: for a zoom `z >= 1`, an offset term
/// `off / z <= off` and a pixel term `(x * (ext / z)) / (d - 1) <= ext`,
/// so the mapped coordinate stays within `ext` of the centre.
proof fn lemma_affine_term_bounds(z: int, off: int, ext: int, x: int, d: int)
    requires
        1 <= z,
        0 <= off <= ext,
        0 < ext,
        2 <= d,
        0 <= x < d,
    ensures
        0 <= off / z <= off,
        0 <= (x * (ext / z)) / (d - 1) <= ext,
{
    let s = ext / z;
    lemma_div_pos_is_pos(off, z);
    lemma_div_nonincreasing(off, z);
    lemma_div_pos_is_pos(ext, z);
    lemma_div_nonincreasing(ext, z);
    lemma_mul_nonnegative(x, s);
    lemma_div_pos_is_pos(x * s, d - 1);
    lemma_mul_inequality(x, d - 1, s);
    lemma_div_is_ordered(x * s, (d - 1) * s, d - 1);
    lemma_div_multiples_vanish(s, d - 1);
    assert((d - 1) * s == s * (d - 1)) by (nonlinear_arith);
}

/// For a step `s` of at least one raw unit per pixel (`s >= d`), the scaled
/// quotient `(x * s) / d` strictly increases with `x`.
proof fn lemma_scaled_div_strictly_increasing(s: int, d: int, x1: int, x2: int)
    requires
        1 <= d <= s,
        0 <= x1 < x2,
    ensures
        (x1 * s) / d < (x2 * s) / d,
{
    assert((x1 + 1) * s == x1 * s + s) by (nonlinear_arith);
    lemma_mul_inequality(x1 + 1, x2, s);
    assert(x1 * s + d <= x2 * s);
    lemma_mul_nonnegative(x1, s);
    lemma_hoist_over_denominator(x1 * s, 1, d as nat);
    assert((x1 * s) / d + 1 == (x1 * s + d) / d);
    lemma_div_is_ordered(x1 * s + d, x2 * s, d);
}

} // verus!
