//! The renderer: one pass over every pixel of the image.
//!
//! Each pixel is mapped into the plane, classified by escape time, and its
//! count written into a row-major grid; the same pass folds every written
//! value into the running minimum and maximum, starting from the sentinel
//! and zero respectively, so the statistics are complete the moment the
//! grid is. A second pass turns the grid into packed ARGB colors under
//! those statistics.
//!
//! Rows are fully independent and the min/max fold is order-independent,
//! so any schedule that writes each pixel once produces this same grid —
//! [`lemma_render_deterministic`] pins the frame to a function of the
//! parameters alone. The verified pass is the sequential schedule.

use crate::color::{color_spec, colorize};
use crate::escape::{escape_count, is_point_in_set};
use crate::viewport::{ViewportState, MAX_DIM};
use vstd::arithmetic::div_mod::{lemma_div_nonincreasing, lemma_fundamental_div_mod_converse};
use vstd::prelude::*;

verus! {

/// The lowest and highest count written into the escape grid during one
/// render, the sentinel value included where it was written.
#[derive(Clone, Copy, Debug, PartialEq, Eq, Structural)]
pub struct GridStatistics {
    pub lowest: u32,
    pub highest: u32,
}

/// Why a render is refused.
#[derive(Clone, Copy, Debug, PartialEq, Eq, Structural)]
pub enum RenderError {
    /// A dimension below two pixels: the pixel-to-plane mapping divides by
    /// `width - 1` and `height - 1`, so such an image has no well-defined
    /// geometry.
    InvalidDimension,
}

/// Smallest entry of a grid (`0` for an empty one, which no render makes).
pub open spec fn min_entry(s: Seq<u32>) -> int
    decreases s.len(),
{
    if s.len() == 0 {
        0
    } else if s.len() == 1 {
        s[0] as int
    } else {
        let rest = min_entry(s.drop_last());
        if (s.last() as int) < rest {
            s.last() as int
        } else {
            rest
        }
    }
}

/// Largest entry of a grid (`0` for an empty one, which no render makes).
pub open spec fn max_entry(s: Seq<u32>) -> int
    decreases s.len(),
{
    if s.len() == 0 {
        0
    } else if s.len() == 1 {
        s[0] as int
    } else {
        let rest = max_entry(s.drop_last());
        if (s.last() as int) > rest {
            s.last() as int
        } else {
            rest
        }
    }
}

/// Appending an entry folds it into the minimum.
proof fn lemma_min_entry_push(s: Seq<u32>, v: u32)
    ensures
        min_entry(s.push(v)) == if s.len() == 0 {
            v as int
        } else if (v as int) < min_entry(s) {
            v as int
        } else {
            min_entry(s)
        },
{
    let t = s.push(v);
    assert(t.drop_last() =~= s);
    assert(t.last() == v);
    if s.len() == 0 {
        assert(t[0] == v);
    }
}

/// Appending an entry folds it into the maximum.
proof fn lemma_max_entry_push(s: Seq<u32>, v: u32)
    ensures
        max_entry(s.push(v)) == if s.len() == 0 {
            v as int
        } else if (v as int) > max_entry(s) {
            v as int
        } else {
            max_entry(s)
        },
{
    let t = s.push(v);
    assert(t.drop_last() =~= s);
    assert(t.last() == v);
    if s.len() == 0 {
        assert(t[0] == v);
    }
}

/// Every entry lies between the minimum and the maximum.
pub proof fn lemma_entry_bounds(s: Seq<u32>, k: int)
    requires
        0 <= k < s.len(),
    ensures
        min_entry(s) <= s[k] <= max_entry(s),
    decreases s.len(),
{
    if s.len() > 1 && k < s.len() - 1 {
        lemma_entry_bounds(s.drop_last(), k);
        assert(s.drop_last()[k] == s[k]);
    }
}

/// Law: after any render of at least one pixel the statistics are ordered,
/// `lowest <= highest`.
pub proof fn lemma_statistics_ordered(s: Seq<u32>)
    requires
        s.len() > 0,
    ensures
        min_entry(s) <= max_entry(s),
{
    lemma_entry_bounds(s, 0);
}

/// The count the render writes for pixel `(x, y)`: the escape count of the
/// plane point the viewport maps the pixel to.
pub open spec fn pixel_spec(
    vp: ViewportState,
    x: int,
    y: int,
    width: int,
    height: int,
    budget: nat,
) -> nat {
    escape_count(vp.map_re_spec(x, width), vp.map_im_spec(y, height), budget)
}

/// The whole escape grid, row-major: entry `y * width + x` is pixel
/// `(x, y)`.
pub open spec fn grid_spec(vp: ViewportState, width: int, height: int, budget: nat) -> Seq<u32> {
    Seq::new(
        (width * height) as nat,
        |k: int| pixel_spec(vp, k % width, k / width, width, height, budget) as u32,
    )
}

/// The finished frame: every grid entry colored under the grid's own
/// statistics.
pub open spec fn image_spec(vp: ViewportState, width: int, height: int, budget: nat) -> Seq<u32> {
    let g = grid_spec(vp, width, height, budget);
    Seq::new(g.len() as nat, |k: int| color_spec(g[k] as int, min_entry(g), max_entry(g)) as u32)
}

/// Law: a render is deterministic. The frame is a function of the viewport,
/// the dimensions and the budget alone — two buffers rendered under
/// identical parameters are identical, byte for byte.
pub proof fn lemma_render_deterministic(
    b1: Seq<u32>,
    b2: Seq<u32>,
    vp: ViewportState,
    width: int,
    height: int,
    budget: nat,
)
    requires
        b1 == image_spec(vp, width, height, budget),
        b2 == image_spec(vp, width, height, budget),
    ensures
        b1 == b2,
{
}

/// Fills the escape grid for one viewport and folds every written count
/// into the statistics in the same pass: the minimum starts at the sentinel
/// and only decreases, the maximum starts at zero and only increases.
pub fn render_grid(width: usize, height: usize, vp: &ViewportState, budget: u32) -> (r: (
    Vec<u32>,
    GridStatistics,
))
    requires
        vp.wf(),
        2 <= width <= MAX_DIM,
        2 <= height <= MAX_DIM,
    ensures
        r.0@ == grid_spec(*vp, width as int, height as int, budget as nat),
        r.0@.len() == width * height,
        r.1.lowest == min_entry(r.0@),
        r.1.highest == max_entry(r.0@),
        r.1.lowest <= r.1.highest,
        forall|k: int| 0 <= k < r.0@.len() ==> r.1.lowest <= #[trigger] r.0@[k] <= r.1.highest,
{
    let ghost gs = grid_spec(*vp, width as int, height as int, budget as nat);
    let mut grid: Vec<u32> = Vec::new();
    let mut lowest: u32 = budget;
    let mut highest: u32 = 0;
    let mut y: usize = 0;
    while y < height
        invariant
            vp.wf(),
            2 <= width <= MAX_DIM,
            2 <= height <= MAX_DIM,
            gs == grid_spec(*vp, width as int, height as int, budget as nat),
            y <= height,
            grid@.len() == y * width,
            forall|k: int| 0 <= k < grid@.len() ==> grid@[k] == gs[k],
            grid@.len() == 0 ==> lowest == budget && highest == 0,
            grid@.len() > 0 ==> lowest == min_entry(grid@) && highest == max_entry(grid@),
        decreases height - y,
    {
        let mut x: usize = 0;
        proof {
            assert(y * width + width <= height * width) by (nonlinear_arith)
                requires y < height && 0 <= width;
        }
        while x < width
            invariant
                vp.wf(),
                2 <= width <= MAX_DIM,
                2 <= height <= MAX_DIM,
                gs == grid_spec(*vp, width as int, height as int, budget as nat),
                y < height,
                x <= width,
                grid@.len() == y * width + x,
                forall|k: int| 0 <= k < grid@.len() ==> grid@[k] == gs[k],
                grid@.len() == 0 ==> lowest == budget && highest == 0,
                grid@.len() > 0 ==> lowest == min_entry(grid@) && highest == max_entry(grid@),
            decreases width - x,
        {
            let cre = vp.map_re(x, width);
            let cim = vp.map_im(y, height);
            let count: u32 = match is_point_in_set(cre, cim, budget) {
                Some(i) => i,
                None => budget,
            };
            proof {
                let k = y * width + x;
                lemma_fundamental_div_mod_converse(k as int, width as int, y as int, x as int);
                assert(k < width * height) by (nonlinear_arith)
                    requires y < height && x < width && k == y * width + x && 0 <= x && 0 <= y;
                assert(gs[k as int] == count);
                lemma_min_entry_push(grid@, count);
                lemma_max_entry_push(grid@, count);
            }
            grid.push(count);
            if count < lowest {
                lowest = count;
            }
            if count > highest {
                highest = count;
            }
            x = x + 1;
        }
        proof {
            assert((y + 1) * width == y * width + width) by (nonlinear_arith);
        }
        y = y + 1;
    }
    proof {
        assert(grid@.len() == height * width);
        assert(height * width == width * height) by (nonlinear_arith);
        assert(grid@ =~= gs);
        assert(grid@.len() > 0) by (nonlinear_arith)
            requires 2 <= width && 2 <= height && grid@.len() == height * width;
        lemma_statistics_ordered(grid@);
        assert forall|k: int| 0 <= k < grid@.len() implies lowest <= #[trigger] grid@[k] <= highest by {
            lemma_entry_bounds(grid@, k);
        }
    }
    (grid, GridStatistics { lowest, highest })
}

/// The iteration budget of a render: the image width divided by the
/// supersampling scale, so larger renders resolve the set's boundary more
/// finely.
pub fn iteration_budget(width: usize, scale: usize) -> (r: u32)
    requires
        width <= MAX_DIM,
        1 <= scale,
    ensures
        r == width as int / scale as int,
{
    proof {
        lemma_div_nonincreasing(width as int, scale as int);
    }
    (width / scale) as u32
}

/// Default height for a width: the fixed `2.4 : 3.5` ratio of the viewport
/// extents, rounded down.
pub fn derive_height(width: usize) -> (r: usize)
    requires
        width <= MAX_DIM,
    ensures
        r == (width * 24) / 35,
{
    proof {
        lemma_div_nonincreasing(width as int * 24, 35);
    }
    ((width as u64 * 24) / 35) as usize
}

/// Renders the finished frame: the escape grid, its statistics from the
/// same pass, and the colored buffer. Succeeds exactly on images at least
/// two pixels wide and tall; anything smaller is refused as
/// [`RenderError::InvalidDimension`] before any work is done.
pub fn generate_image(width: usize, height: usize, vp: &ViewportState, scale: usize) -> (r:
    Result<(Vec<u32>, GridStatistics), RenderError>)
    requires
        vp.wf(),
        width <= MAX_DIM,
        height <= MAX_DIM,
        1 <= scale,
    ensures
        r is Ok <==> (2 <= width && 2 <= height),
        r matches Ok(p) ==> {
            let budget = (width as int / scale as int) as nat;
            let g = grid_spec(*vp, width as int, height as int, budget);
            &&& p.0@ == image_spec(*vp, width as int, height as int, budget)
            &&& p.0@.len() == width * height
            &&& p.1.lowest == min_entry(g)
            &&& p.1.highest == max_entry(g)
            &&& p.1.lowest <= p.1.highest
        },
        r matches Err(e) ==> e == RenderError::InvalidDimension && (width < 2 || height < 2),
{
    if width < 2 || height < 2 {
        return Err(RenderError::InvalidDimension);
    }
    let budget = iteration_budget(width, scale);
    let (grid, stats) = render_grid(width, height, vp, budget);
    let buffer = colorize(&grid, stats.lowest, stats.highest);
    proof {
        assert(buffer@ =~= image_spec(
            *vp,
            width as int,
            height as int,
            (width as int / scale as int) as nat,
        ));
    }
    Ok((buffer, stats))
}

} // verus!
