//! Choice of the best candidate and its refinement to a fraction of a pixel.

use crate::disparity::{Disparity, SUBPIXEL_SCALE};
use vstd::arithmetic::div_mod::{
    lemma_div_by_multiple, lemma_div_is_ordered, lemma_div_multiples_vanish_quotient,
    lemma_div_pos_is_pos, lemma_fundamental_div_mod_converse_div,
};
use vstd::arithmetic::power2::{
    lemma2_to64, lemma_pow2_strictly_increases, lemma_pow2_unfold, pow2,
};
use vstd::prelude::*;

verus! {

/// Half a pixel in subpixel steps.
pub const HALF_PIXEL: u16 = 32768;

/// The costs as mathematical integers.
pub open spec fn cost_values(crits: Seq<u128>) -> Seq<int> {
    crits.map_values(|c: u128| c as int)
}

/// Index of the smallest cost, the first one among equals; zero for no cost.
pub open spec fn first_min_index(costs: Seq<int>) -> int
    decreases costs.len(),
{
    if costs.len() <= 1 {
        0
    } else {
        let before = first_min_index(costs.drop_last());
        if costs.last() < costs[before] {
            costs.len() - 1
        } else {
            before
        }
    }
}

/// The index chosen is in range, no cost is below the one it holds and
/// every cost before it is above.
pub proof fn lemma_first_min_index(costs: Seq<int>)
    ensures
        costs.len() == 0 ==> first_min_index(costs) == 0,
        costs.len() > 0 ==> 0 <= first_min_index(costs) < costs.len(),
        forall|j: int|
            0 <= j < costs.len() ==> costs[first_min_index(costs)] <= #[trigger] costs[j],
        forall|j: int|
            0 <= j < first_min_index(costs) ==> #[trigger] costs[j] > costs[first_min_index(
                costs,
            )],
    decreases costs.len(),
{
    if costs.len() > 1 {
        let shorter = costs.drop_last();
        lemma_first_min_index(shorter);
        let before = first_min_index(shorter);
        assert(forall|j: int| 0 <= j < shorter.len() ==> shorter[j] == costs[j]);
    }
}

/// Where the minimum of the parabola through three neighbouring costs lies,
/// in subpixel steps from the middle one: `(left - right) / denom` with
/// `denom` twice the larger drop towards the centre, rounded towards zero.
pub open spec fn subpixel_offset(left: int, center: int, right: int) -> int {
    if left > right {
        ((left - right) * SUBPIXEL_SCALE) / (2 * (left - center))
    } else {
        -(((right - left) * SUBPIXEL_SCALE) / (2 * (right - center)))
    }
}

/// The disparity chosen for a pixel, in subpixel steps, from the costs of
/// the candidates `lo`, `lo + 1`, ...: the cheapest candidate, moved by the
/// subpixel offset unless it is the first or the last one.
pub open spec fn interpolated_disparity(costs: Seq<int>, lo: int) -> int {
    let i = first_min_index(costs);
    if i == 0 || i == costs.len() - 1 || costs.len() < 3 {
        (lo + i) * SUBPIXEL_SCALE
    } else {
        (lo + i) * SUBPIXEL_SCALE + subpixel_offset(costs[i - 1], costs[i], costs[i + 1])
    }
}

/// `a / b` of half a pixel is at most half a pixel for `a <= b`.
proof fn lemma_half_pixel_ratio(a: int, b: int)
    requires
        0 <= a <= b,
        0 < b,
    ensures
        (a * SUBPIXEL_SCALE) / (2 * b) == (a * HALF_PIXEL) / b,
        0 <= (a * HALF_PIXEL) / b <= HALF_PIXEL,
        a < b ==> (a * HALF_PIXEL) / b < HALF_PIXEL,
{
    assert(a * SUBPIXEL_SCALE == 2 * (a * HALF_PIXEL)) by (nonlinear_arith);
    assert(0 <= a * HALF_PIXEL <= b * HALF_PIXEL) by (nonlinear_arith)
        requires
            0 <= a <= b,
    ;
    lemma_div_multiples_vanish_quotient(2, a * HALF_PIXEL, b);
    lemma_div_pos_is_pos(a * HALF_PIXEL, b);
    lemma_div_is_ordered(a * HALF_PIXEL, b * HALF_PIXEL, b);
    assert(b * HALF_PIXEL == HALF_PIXEL * b) by (nonlinear_arith);
    lemma_div_by_multiple(HALF_PIXEL as int, b);
    if a < b {
        let q = (a * HALF_PIXEL) / b;
        if q >= HALF_PIXEL {
            vstd::arithmetic::div_mod::lemma_fundamental_div_mod(a * HALF_PIXEL, b);
            vstd::arithmetic::div_mod::lemma_mod_pos_bound(a * HALF_PIXEL, b);
            assert(b * q >= b * HALF_PIXEL) by (nonlinear_arith)
                requires
                    q >= HALF_PIXEL,
                    b > 0,
            ;
            assert(a * HALF_PIXEL < b * HALF_PIXEL) by (nonlinear_arith)
                requires
                    0 <= a < b,
            ;
        }
    }
}

/// The offset moves a strict-on-the-left minimum by no more than half a
/// pixel.
pub proof fn lemma_subpixel_offset_bounds(left: int, center: int, right: int)
    requires
        center < left,
        center <= right,
    ensures
        -(HALF_PIXEL as int) <= subpixel_offset(left, center, right) <= HALF_PIXEL,
        left <= right ==> -(HALF_PIXEL as int) < subpixel_offset(left, center, right) <= 0,
        left > right ==> 0 <= subpixel_offset(left, center, right),
{
    if left > right {
        lemma_half_pixel_ratio(left - right, left - center);
    } else {
        lemma_half_pixel_ratio(right - left, right - center);
    }
}

/// The chosen disparity is within half a pixel of the cheapest candidate,
/// so it never reaches past that candidate's neighbours, and it stays
/// between the first and the last candidate.
pub proof fn lemma_interpolated_disparity_bounds(costs: Seq<int>, lo: int)
    ensures
        (lo + first_min_index(costs)) * SUBPIXEL_SCALE - HALF_PIXEL <= interpolated_disparity(
            costs,
            lo,
        ) <= (lo + first_min_index(costs)) * SUBPIXEL_SCALE + HALF_PIXEL,
        costs.len() == 0 ==> interpolated_disparity(costs, lo) == lo * SUBPIXEL_SCALE,
        costs.len() > 0 ==> lo * SUBPIXEL_SCALE <= interpolated_disparity(costs, lo) <= (lo
            + costs.len() - 1) * SUBPIXEL_SCALE,
{
    lemma_first_min_index(costs);
    let i = first_min_index(costs);
    if !(i == 0 || i == costs.len() - 1 || costs.len() < 3) {
        lemma_subpixel_offset_bounds(costs[i - 1], costs[i], costs[i + 1]);
    }
    assert((lo + i) * SUBPIXEL_SCALE == lo * SUBPIXEL_SCALE + i * SUBPIXEL_SCALE)
        by (nonlinear_arith);
    assert((lo + costs.len() - 1) * SUBPIXEL_SCALE == lo * SUBPIXEL_SCALE + (costs.len() - 1)
        * SUBPIXEL_SCALE) by (nonlinear_arith);
}

/// Index of the smallest criterion, the first one among equals.
pub fn min_index(crits: &Vec<u128>) -> (i: usize)
    ensures
        i == first_min_index(cost_values(crits@)),
        crits.len() > 0 ==> i < crits.len(),
{
    let ghost costs = cost_values(crits@);
    let mut best: usize = 0;
    let mut k: usize = 0;
    proof {
        assert(costs.take(0).len() == 0);
    }
    while k < crits.len()
        invariant
            k <= crits.len(),
            costs == cost_values(crits@),
            best == first_min_index(costs.take(k as int)),
            k > 0 ==> best < k,
            k == 0 ==> best == 0,
        decreases crits.len() - k,
    {
        proof {
            let longer = costs.take(k + 1);
            assert(longer.drop_last() =~= costs.take(k as int));
            assert(longer.last() == crits@[k as int]);
            if k > 0 {
                assert(longer[best as int] == crits@[best as int]);
            }
        }
        if k > 0 && crits[k] < crits[best] {
            best = k;
        }
        k = k + 1;
    }
    proof {
        assert(costs.take(crits.len() as int) =~= costs);
    }
    best
}

/// `a / b` in units of half a pixel, rounded down, by long division.
fn half_pixel_ratio(a: u128, b: u128) -> (q: u16)
    requires
        a <= b,
        0 < b,
    ensures
        q == (a * HALF_PIXEL) / (b as int),
{
    if a == b {
        proof {
            assert(b * HALF_PIXEL == HALF_PIXEL * b) by (nonlinear_arith);
            lemma_div_by_multiple(HALF_PIXEL as int, b as int);
        }
        return HALF_PIXEL;
    }
    let mut quotient: u16 = 0;
    let mut rest: u128 = a;
    let mut bits: u32 = 0;
    proof {
        lemma2_to64();
    }
    while bits < 15
        invariant
            bits <= 15,
            0 < b,
            rest < b,
            quotient < pow2(bits as nat) <= HALF_PIXEL,
            quotient * b + rest == a * pow2(bits as nat),
        decreases 15 - bits,
    {
        let ghost q0 = quotient as int;
        let ghost r0 = rest as int;
        proof {
            lemma2_to64();
            lemma_pow2_unfold((bits + 1) as nat);
            if bits + 1 < 15 {
                lemma_pow2_strictly_increases((bits + 1) as nat, 15);
            }
        }
        if rest >= b - rest {
            rest = rest - (b - rest);
            quotient = 2 * quotient + 1;
        } else {
            rest = 2 * rest;
            quotient = 2 * quotient;
        }
        proof {
            assert(quotient * b + rest == 2 * (q0 * b + r0)) by (nonlinear_arith)
                requires
                    (quotient == 2 * q0 + 1 && rest == 2 * r0 - b) || (quotient == 2 * q0 && rest
                        == 2 * r0),
            ;
            assert(a * (2 * pow2(bits as nat)) == 2 * (a * pow2(bits as nat)))
                by (nonlinear_arith);
        }
        bits = bits + 1;
    }
    proof {
        lemma2_to64();
        lemma_fundamental_div_mod_converse_div(
            a * HALF_PIXEL,
            b as int,
            quotient as int,
            rest as int,
        );
    }
    quotient
}

/// Picks the disparity for a pixel from the criteria of the candidates
/// `min_dyn_disp`, `min_dyn_disp + 1`, ...: the cheapest candidate, refined
/// by the parabola through its two neighbours unless it stands at either
/// end. The result is within half a pixel of the cheapest candidate. The
/// candidates must be disparities a `usize` holds.
pub fn select_disparity(crits: &Vec<u128>, min_dyn_disp: usize) -> (d: Disparity)
    requires
        min_dyn_disp + crits.len() <= usize::MAX,
    ensures
        d.scaled() == interpolated_disparity(cost_values(crits@), min_dyn_disp as int),
        (min_dyn_disp + first_min_index(cost_values(crits@))) * SUBPIXEL_SCALE - HALF_PIXEL
            <= d.scaled() <= (min_dyn_disp + first_min_index(cost_values(crits@)))
            * SUBPIXEL_SCALE + HALF_PIXEL,
{
    let ghost costs = cost_values(crits@);
    let min_index: usize = min_index(crits);
    proof {
        lemma_first_min_index(costs);
        lemma_interpolated_disparity_bounds(costs, min_dyn_disp as int);
    }
    let candidate: usize = min_dyn_disp + min_index;
    if min_index == 0 || min_index == crits.len() - 1 || crits.len() < 3 {
        return Disparity::from_whole(candidate);
    }
    let c_left: u128 = crits[min_index - 1];
    let c_center: u128 = crits[min_index];
    let c_right: u128 = crits[min_index + 1];
    proof {
        assert(costs[min_index - 1] == c_left);
        assert(costs[min_index as int] == c_center);
        assert(costs[min_index + 1] == c_right);
        lemma_subpixel_offset_bounds(c_left as int, c_center as int, c_right as int);
    }
    if c_left > c_right {
        proof {
            lemma_half_pixel_ratio(c_left - c_right, c_left - c_center);
        }
        let offset: u16 = half_pixel_ratio(c_left - c_right, c_left - c_center);
        Disparity { whole: candidate, frac: offset }
    } else {
        proof {
            lemma_half_pixel_ratio(c_right - c_left, c_right - c_center);
        }
        let offset: u16 = half_pixel_ratio(c_right - c_left, c_right - c_center);
        if offset == 0 {
            Disparity::from_whole(candidate)
        } else {
            proof {
                assert((candidate - 1) * SUBPIXEL_SCALE + (SUBPIXEL_SCALE - offset) == candidate
                    * SUBPIXEL_SCALE - offset) by (nonlinear_arith);
            }
            Disparity { whole: candidate - 1, frac: (SUBPIXEL_SCALE - offset as u32) as u16 }
        }
    }
}

} // verus!
