//! Zoom gestures: the two state transitions of the interactive view.
//!
//! A zoom-in at a click re-centres the view on the plane point under the
//! clicked pixel (located through the *old* viewport) and tightens the zoom
//! by [`ZOOM_POWER`]; a zoom-out re-centres on the point under the
//! *mirrored* pixel and widens the zoom by the same factor. Both produce a
//! fresh [`ViewportState`]; nothing is mutated in place.

use crate::viewport::{ViewportState, CENTER_RAW_MAX, MAX_DIM, ZOOM_RAW_MAX};
use vstd::arithmetic::div_mod::{
    lemma_div_by_self, lemma_div_is_ordered, lemma_div_multiples_vanish, lemma_div_nonincreasing,
};
use vstd::prelude::*;

verus! {

/// Factor by which one gesture tightens or widens the zoom.
pub const ZOOM_POWER: i64 = 3;

/// Centre magnitude up to which a gesture is accepted: one extent below
/// [`CENTER_RAW_MAX`], so the re-centred viewport is well formed again.
pub const CENTER_SAFE_RAW: i64 = 399_000_000_000_000_000;

impl ViewportState {
    /// A zoom-in gesture is accepted when the tightened zoom and the
    /// re-centred viewport still fit the well-formed range.
    pub open spec fn can_zoom_in_spec(self) -> bool {
        &&& self.wf()
        &&& ZOOM_POWER * self.zoom <= ZOOM_RAW_MAX
        &&& -CENTER_SAFE_RAW <= self.center_re <= CENTER_SAFE_RAW
        &&& -CENTER_SAFE_RAW <= self.center_im <= CENTER_SAFE_RAW
    }

    /// A zoom-out gesture is accepted when the widened zoom stays positive
    /// and the re-centred viewport still fits the well-formed range.
    pub open spec fn can_zoom_out_spec(self) -> bool {
        &&& self.wf()
        &&& ZOOM_POWER <= self.zoom
        &&& -CENTER_SAFE_RAW <= self.center_re <= CENTER_SAFE_RAW
        &&& -CENTER_SAFE_RAW <= self.center_im <= CENTER_SAFE_RAW
    }

    /// Decides [`Self::can_zoom_in_spec`] for a caller that must test it
    /// before asking for a zoom-in.
    pub fn can_zoom_in(&self) -> (r: bool)
        ensures
            r == self.can_zoom_in_spec(),
    {
        let wf_ok = 1 <= self.zoom && self.zoom <= ZOOM_RAW_MAX
            && -CENTER_RAW_MAX <= self.center_re && self.center_re <= CENTER_RAW_MAX
            && -CENTER_RAW_MAX <= self.center_im && self.center_im <= CENTER_RAW_MAX;
        if !wf_ok {
            return false;
        }
        ZOOM_POWER * self.zoom <= ZOOM_RAW_MAX
            && -CENTER_SAFE_RAW <= self.center_re && self.center_re <= CENTER_SAFE_RAW
            && -CENTER_SAFE_RAW <= self.center_im && self.center_im <= CENTER_SAFE_RAW
    }

    /// Decides [`Self::can_zoom_out_spec`] for a caller that must test it
    /// before asking for a zoom-out.
    pub fn can_zoom_out(&self) -> (r: bool)
        ensures
            r == self.can_zoom_out_spec(),
    {
        let wf_ok = 1 <= self.zoom && self.zoom <= ZOOM_RAW_MAX
            && -CENTER_RAW_MAX <= self.center_re && self.center_re <= CENTER_RAW_MAX
            && -CENTER_RAW_MAX <= self.center_im && self.center_im <= CENTER_RAW_MAX;
        if !wf_ok {
            return false;
        }
        ZOOM_POWER <= self.zoom
            && -CENTER_SAFE_RAW <= self.center_re && self.center_re <= CENTER_SAFE_RAW
            && -CENTER_SAFE_RAW <= self.center_im && self.center_im <= CENTER_SAFE_RAW
    }

    /// Zoom in at the clicked pixel: the new centre is the plane point the
    /// old viewport maps the click to, and the zoom tightens by
    /// [`ZOOM_POWER`].
    pub fn zoom_in(&self, click_x: usize, click_y: usize, width: usize, height: usize) -> (r:
        ViewportState)
        requires
            self.can_zoom_in_spec(),
            2 <= width <= MAX_DIM,
            2 <= height <= MAX_DIM,
            click_x < width,
            click_y < height,
        ensures
            r.wf(),
            r.zoom == ZOOM_POWER * self.zoom,
            r.center_re == self.map_re_spec(click_x as int, width as int),
            r.center_im == self.map_im_spec(click_y as int, height as int),
    {
        proof {
            self.lemma_map_re_bounds(click_x as int, width as int);
            self.lemma_map_im_bounds(click_y as int, height as int);
        }
        let cre = self.map_re(click_x, width);
        let cim = self.map_im(click_y, height);
        ViewportState { center_re: cre, center_im: cim, zoom: self.zoom * ZOOM_POWER }
    }

    /// Zoom out at the clicked pixel: the new centre is the plane point the
    /// old viewport maps the *mirrored* pixel to — the view re-centres away
    /// from the click — and the zoom widens by [`ZOOM_POWER`].
    pub fn zoom_out(&self, click_x: usize, click_y: usize, width: usize, height: usize) -> (r:
        ViewportState)
        requires
            self.can_zoom_out_spec(),
            2 <= width <= MAX_DIM,
            2 <= height <= MAX_DIM,
            click_x < width,
            click_y < height,
        ensures
            r.wf(),
            r.zoom == self.zoom as int / ZOOM_POWER as int,
            r.center_re == self.map_re_spec(width - 1 - click_x, width as int),
            r.center_im == self.map_im_spec(height - 1 - click_y, height as int),
    {
        proof {
            self.lemma_map_re_bounds(width - 1 - click_x, width as int);
            self.lemma_map_im_bounds(height - 1 - click_y, height as int);
            lemma_div_is_ordered(ZOOM_POWER as int, self.zoom as int, ZOOM_POWER as int);
            lemma_div_by_self(ZOOM_POWER as int);
            lemma_div_nonincreasing(self.zoom as int, ZOOM_POWER as int);
        }
        let cre = self.map_re(width - 1 - click_x, width);
        let cim = self.map_im(height - 1 - click_y, height);
        ViewportState { center_re: cre, center_im: cim, zoom: self.zoom / ZOOM_POWER }
    }
}

/// Law: a zoom-in gesture followed by a zoom-out gesture restores the zoom
/// factor exactly. `inner` is any state a zoom-in produced from `start`
/// (`inner.zoom == ZOOM_POWER * start.zoom`) and `back` any state a
/// zoom-out then produced from `inner`; `back` carries the zoom `start`
/// had, with no rounding loss.
pub proof fn lemma_zoom_round_trip(start: ViewportState, inner: ViewportState, back: ViewportState)
    requires
        inner.zoom == ZOOM_POWER * start.zoom,
        back.zoom == inner.zoom as int / ZOOM_POWER as int,
    ensures
        back.zoom == start.zoom,
{
    lemma_div_multiples_vanish(start.zoom as int, ZOOM_POWER as int);
}

} // verus!
