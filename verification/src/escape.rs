//! Escape-time classification of a point of the complex plane.
//!
//! The point `c` is iterated under `z ← z² + c` from `z = 0`, in raw
//! fixed-point units. The classifier returns the first step index at which
//! `|z|²` leaves the squared bailout radius `4.0`, or reports that the
//! budget ran out with the orbit still inside — the point is then treated
//! as belonging to the set.

use crate::fixed::{div_trunc, lemma_div_trunc_bound, SCALE};
use crate::viewport::COORD_RAW_MAX;
use vstd::prelude::*;

verus! {

/// Squared bailout radius in raw² units: `|z|² > 4.0` means escape.
pub const ESCAPE_NORM_RAW2: i64 = 4 * SCALE * SCALE;

/// Real part of one iteration step `z² + c` over raw values. The squared
/// terms carry `SCALE²` units, so the product is scaled back down with the
/// truncating division of the machine.
pub open spec fn step_re(zre: int, zim: int, cre: int) -> int {
    div_trunc(zre * zre - zim * zim, SCALE as int) + cre
}

/// Imaginary part of one iteration step `z² + c` over raw values.
pub open spec fn step_im(zre: int, zim: int, cim: int) -> int {
    div_trunc(2 * zre * zim, SCALE as int) + cim
}

/// The `n`-th iterate of `z ← z² + c` from `z = 0`, as `(re, im)`.
pub open spec fn iterate(cre: int, cim: int, n: nat) -> (int, int)
    decreases n,
{
    if n == 0 {
        (0int, 0int)
    } else {
        let prev = iterate(cre, cim, (n - 1) as nat);
        (step_re(prev.0, prev.1, cre), step_im(prev.0, prev.1, cim))
    }
}

/// Whether the orbit of `c` escapes exactly when step index `i` is tested:
/// the iterate after `i + 1` applications of the step lies outside the
/// bailout radius.
pub open spec fn escapes_at(cre: int, cim: int, i: nat) -> bool {
    let z = iterate(cre, cim, i + 1);
    z.0 * z.0 + z.1 * z.1 > ESCAPE_NORM_RAW2
}

/// First index in `[i, budget)` at which the orbit escapes, or `budget`
/// if it stays inside the bailout radius throughout.
pub open spec fn first_escape_from(cre: int, cim: int, i: nat, budget: nat) -> nat
    decreases budget - i,
{
    if i >= budget {
        budget
    } else if escapes_at(cre, cim, i) {
        i
    } else {
        first_escape_from(cre, cim, i + 1, budget)
    }
}

/// Escape count of a point: the first step index at which the orbit leaves
/// the bailout radius, or the sentinel `budget` if it never does within the
/// budget.
pub open spec fn escape_count(cre: int, cim: int, budget: nat) -> nat {
    first_escape_from(cre, cim, 0, budget)
}

/// What [`first_escape_from`] finds: an index between `i` and `budget`,
/// before which nothing escapes, and which itself escapes unless it is the
/// sentinel.
pub proof fn lemma_first_escape_characterised(cre: int, cim: int, i: nat, budget: nat)
    requires
        i <= budget,
    ensures
        i <= first_escape_from(cre, cim, i, budget) <= budget,
        forall|j: nat|
            i <= j < first_escape_from(cre, cim, i, budget) ==> !escapes_at(cre, cim, j),
        first_escape_from(cre, cim, i, budget) < budget ==> escapes_at(
            cre,
            cim,
            first_escape_from(cre, cim, i, budget),
        ),
    decreases budget - i,
{
    if i < budget && !escapes_at(cre, cim, i) {
        lemma_first_escape_characterised(cre, cim, i + 1, budget);
    }
}

/// A bounded orbit point has components within `2.0`, and both numerators
/// of the next step within `4.0 * SCALE²` in magnitude.
proof fn lemma_components_bounded(zre: int, zim: int)
    requires
        zre * zre + zim * zim <= 4 * SCALE * SCALE,
    ensures
        -2 * SCALE <= zre <= 2 * SCALE,
        -2 * SCALE <= zim <= 2 * SCALE,
        -4 * (SCALE * SCALE) <= zre * zre - zim * zim <= 4 * (SCALE * SCALE),
        -4 * (SCALE * SCALE) <= 2 * zre * zim <= 4 * (SCALE * SCALE),
{
    assert(zre * zre >= 0) by (nonlinear_arith);
    assert(zim * zim >= 0) by (nonlinear_arith);
    assert(-2 * SCALE <= zre <= 2 * SCALE) by (nonlinear_arith)
        requires zre * zre <= 4 * SCALE * SCALE && SCALE == 10_000_000;
    assert(-2 * SCALE <= zim <= 2 * SCALE) by (nonlinear_arith)
        requires zim * zim <= 4 * SCALE * SCALE && SCALE == 10_000_000;
    assert(2 * zre * zim <= zre * zre + zim * zim) by (nonlinear_arith);
    assert(-(2 * zre * zim) <= zre * zre + zim * zim) by (nonlinear_arith);
}

/// Classifies the point `(cre, cim)` of the plane, in raw units: the first
/// step index `i` with `|z|² > 4.0` as `Some(i)`, or `None` when the orbit
/// stays bounded for the whole budget — the latter is exactly the case
/// `escape_count == iterations`. A returned index is always strictly below
/// the requested budget.
///
/// The coordinate bound keeps the step arithmetic inside `i64`; every
/// coordinate a well-formed viewport maps a pixel to lies within it.
pub fn is_point_in_set(cre: i64, cim: i64, iterations: u32) -> (r: Option<u32>)
    requires
        -COORD_RAW_MAX <= cre <= COORD_RAW_MAX,
        -COORD_RAW_MAX <= cim <= COORD_RAW_MAX,
    ensures
        r matches Some(i) ==> i < iterations && i == escape_count(
            cre as int,
            cim as int,
            iterations as nat,
        ),
        r is None ==> escape_count(cre as int, cim as int, iterations as nat) == iterations,
        r is Some <==> escape_count(cre as int, cim as int, iterations as nat) < iterations,
{
    let mut zre: i64 = 0;
    let mut zim: i64 = 0;
    let mut i: u32 = 0;
    while i < iterations
        invariant
            -COORD_RAW_MAX <= cre <= COORD_RAW_MAX,
            -COORD_RAW_MAX <= cim <= COORD_RAW_MAX,
            i <= iterations,
            zre == iterate(cre as int, cim as int, i as nat).0,
            zim == iterate(cre as int, cim as int, i as nat).1,
            zre * zre + zim * zim <= ESCAPE_NORM_RAW2,
            first_escape_from(cre as int, cim as int, i as nat, iterations as nat)
                == escape_count(cre as int, cim as int, iterations as nat),
        decreases iterations - i,
    {
        let zr: i128 = zre as i128;
        let zi: i128 = zim as i128;
        proof {
            lemma_components_bounded(zre as int, zim as int);
            assert(0 <= zr * zr && zr * zr <= 400_000_000_000_000int) by (nonlinear_arith)
                requires -20_000_000 <= zr <= 20_000_000;
            assert(0 <= zi * zi && zi * zi <= 400_000_000_000_000int) by (nonlinear_arith)
                requires -20_000_000 <= zi <= 20_000_000;
            assert(-400_000_000_000_000 <= zr * zi && zr * zi <= 400_000_000_000_000int)
                by (nonlinear_arith)
                requires -20_000_000 <= zr <= 20_000_000 && -20_000_000 <= zi <= 20_000_000;
        }
        let re_num: i128 = zr * zr - zi * zi;
        let im_num: i128 = 2 * zr * zi;
        proof {
            lemma_div_trunc_bound(re_num as int, SCALE as int, 4 * SCALE);
            lemma_div_trunc_bound(im_num as int, SCALE as int, 4 * SCALE);
        }
        let new_re: i128 = re_num / (SCALE as i128) + cre as i128;
        let new_im: i128 = im_num / (SCALE as i128) + cim as i128;
        proof {
            assert(new_re == step_re(zre as int, zim as int, cre as int));
            assert(new_im == step_im(zre as int, zim as int, cim as int));
            assert(iterate(cre as int, cim as int, (i + 1) as nat).0 == new_re);
            assert(iterate(cre as int, cim as int, (i + 1) as nat).1 == new_im);
            assert(0 <= new_re * new_re <= 0x10000000000000000000000000000000int)
                by (nonlinear_arith)
                requires -600_000_000_000_000_000 <= new_re <= 600_000_000_000_000_000;
            assert(0 <= new_im * new_im <= 0x10000000000000000000000000000000int)
                by (nonlinear_arith)
                requires -600_000_000_000_000_000 <= new_im <= 600_000_000_000_000_000;
        }
        let n2: i128 = new_re * new_re + new_im * new_im;
        if n2 > ESCAPE_NORM_RAW2 as i128 {
            proof {
                assert(escapes_at(cre as int, cim as int, i as nat));
                assert(first_escape_from(cre as int, cim as int, i as nat, iterations as nat)
                    == i);
            }
            return Some(i);
        }
        proof {
            assert(!escapes_at(cre as int, cim as int, i as nat));
            assert(first_escape_from(cre as int, cim as int, i as nat, iterations as nat)
                == first_escape_from(cre as int, cim as int, (i + 1) as nat, iterations as nat));
            lemma_components_bounded(new_re as int, new_im as int);
        }
        zre = new_re as i64;
        zim = new_im as i64;
        i = i + 1;
    }
    None
}

} // verus!
