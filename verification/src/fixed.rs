//! Exact fixed-point arithmetic for the complex plane.
//!
//! A plane coordinate is stored as an `i64` holding a multiple of
//! `1 / SCALE`; the value `2.4` of the plane is the raw integer
//! `24_000_000`. Division of raw values follows Rust's signed `/`,
//! which truncates toward zero; [`div_trunc`] states that operation
//! over mathematical integers so contracts can speak of it exactly.

use vstd::arithmetic::div_mod::{
    lemma_div_is_ordered, lemma_div_multiples_vanish, lemma_div_pos_is_pos,
};
use vstd::prelude::*;

verus! {

/// Number of raw fixed-point units per one unit of the complex plane.
pub const SCALE: i64 = 10_000_000;

/// Truncating (round-toward-zero) division, the behaviour of Rust's `/` on
/// signed integers, stated over mathematical integers. In specifications
/// `/` is Euclidean division, so the two differ on negative numerators.
pub open spec fn div_trunc(a: int, b: int) -> int {
    if a >= 0 {
        a / b
    } else {
        -((-a) / b)
    }
}

/// A numerator of magnitude at most `m * b` divides (truncating) by `b`
/// into a quotient of magnitude at most `m`.
pub proof fn lemma_div_trunc_bound(a: int, b: int, m: int)
    requires
        1 <= b,
        0 <= m,
        -(m * b) <= a <= m * b,
    ensures
        -m <= div_trunc(a, b) <= m,
{
    if a >= 0 {
        lemma_div_pos_is_pos(a, b);
        lemma_div_is_ordered(a, m * b, b);
        lemma_div_multiples_vanish(m, b);
        assert(m * b == b * m) by (nonlinear_arith);
    } else {
        lemma_div_pos_is_pos(-a, b);
        lemma_div_is_ordered(-a, m * b, b);
        lemma_div_multiples_vanish(m, b);
        assert(m * b == b * m) by (nonlinear_arith);
    }
}

} // verus!
