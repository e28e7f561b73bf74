//! What the disparity map of a frame is: the disparity of each pixel as a
//! function of the frame and the parameters, with the laws that follow.

use crate::cost::{column_sum, lemma_window_sum_bounds, window_cost, window_sum};
use crate::disparity::SUBPIXEL_SCALE;
use crate::frame::StereoFrame;
use crate::mcmanamon::Params;
use crate::range::{lemma_narrowed_contained, narrowed_max, narrowed_min};
use crate::subpixel::{
    first_min_index, interpolated_disparity, lemma_first_min_index,
    lemma_interpolated_disparity_bounds,
};
use vstd::prelude::*;

verus! {

/// Window costs at `(x, y)` of the candidates `lo`, `lo + 1`, ..., `hi - 1`.
pub open spec fn candidate_costs(
    frame: &StereoFrame,
    params: Params,
    x: int,
    y: int,
    lo: int,
    hi: int,
) -> Seq<int> {
    Seq::new(
        (if hi > lo {
            hi - lo
        } else {
            0
        }) as nat,
        |k: int| window_cost(frame, x, y, lo + k, params.half_width(), params.half_height()),
    )
}

/// Disparity of the pixel `(x, y)`, in subpixel steps, when the interval
/// from `lo` up to but not including `hi` is searched.
pub open spec fn pixel_disparity(
    frame: &StereoFrame,
    params: Params,
    x: int,
    y: int,
    lo: int,
    hi: int,
) -> int {
    interpolated_disparity(candidate_costs(frame, params, x, y, lo, hi), lo)
}

/// Smallest disparity of row `y` over the columns worked on before
/// `x_end`, in subpixel steps; the configured maximum where there is none.
pub open spec fn row_min(
    frame: &StereoFrame,
    params: Params,
    y: int,
    lo: int,
    hi: int,
    x_end: int,
) -> int
    decreases x_end - params.first_column(hi),
{
    if x_end <= params.first_column(hi) {
        params.max_disparity * SUBPIXEL_SCALE
    } else {
        let before = row_min(frame, params, y, lo, hi, x_end - 1);
        let here = pixel_disparity(frame, params, x_end - 1, y, lo, hi);
        if here < before {
            here
        } else {
            before
        }
    }
}

/// Largest disparity of row `y` over the columns worked on before `x_end`,
/// in subpixel steps; the configured minimum where there is none.
pub open spec fn row_max(
    frame: &StereoFrame,
    params: Params,
    y: int,
    lo: int,
    hi: int,
    x_end: int,
) -> int
    decreases x_end - params.first_column(hi),
{
    if x_end <= params.first_column(hi) {
        params.min_disparity * SUBPIXEL_SCALE
    } else {
        let before = row_max(frame, params, y, lo, hi, x_end - 1);
        let here = pixel_disparity(frame, params, x_end - 1, y, lo, hi);
        if here > before {
            here
        } else {
            before
        }
    }
}

/// The search interval in force once `done` rows have been worked on,
/// from the bottom row up: the configured one at first, then the one
/// narrowed around the disparities of the row just finished.
pub open spec fn search_range(frame: &StereoFrame, params: Params, done: nat) -> (int, int)
    decreases done,
{
    if done == 0 {
        (params.min_disparity as int, params.max_disparity as int)
    } else {
        let before = search_range(frame, params, (done - 1) as nat);
        let y = params.end_row(frame) - done;
        (
            narrowed_min(
                params,
                row_min(frame, params, y, before.0, before.1, params.end_column(frame)),
            ),
            narrowed_max(
                params,
                row_max(frame, params, y, before.0, before.1, params.end_column(frame)),
            ),
        )
    }
}

/// The search interval in force on row `y`.
pub open spec fn row_range(frame: &StereoFrame, params: Params, y: int) -> (int, int) {
    search_range(frame, params, (params.end_row(frame) - 1 - y) as nat)
}

/// Whether the disparity of pixel `(x, y)` is worked out: the pixel lies a
/// window height from the top and bottom edges, a window width from the
/// right edge, and a window width plus the upper end of its row's search
/// interval from the left edge.
pub open spec fn is_computed(frame: &StereoFrame, params: Params, x: int, y: int) -> bool {
    &&& params.has_interior(frame)
    &&& params.first_row() <= y < params.end_row(frame)
    &&& params.first_column(row_range(frame, params, y).1) <= x < params.end_column(frame)
}

/// The disparity the map holds for pixel `(x, y)`, in subpixel steps: zero
/// where none is worked out.
pub open spec fn expected_disparity(frame: &StereoFrame, params: Params, x: int, y: int) -> int {
    if is_computed(frame, params, x, y) {
        pixel_disparity(
            frame,
            params,
            x,
            y,
            row_range(frame, params, y).0,
            row_range(frame, params, y).1,
        )
    } else {
        0
    }
}

/// Smallest disparity of the first `done` rows worked on, in subpixel
/// steps; the configured maximum where there is none.
pub open spec fn map_min(frame: &StereoFrame, params: Params, done: nat) -> int
    decreases done,
{
    if done == 0 {
        params.max_disparity * SUBPIXEL_SCALE
    } else {
        let before = map_min(frame, params, (done - 1) as nat);
        let range = search_range(frame, params, (done - 1) as nat);
        let here = row_min(
            frame,
            params,
            params.end_row(frame) - done,
            range.0,
            range.1,
            params.end_column(frame),
        );
        if here < before {
            here
        } else {
            before
        }
    }
}

/// Largest disparity of the first `done` rows worked on, in subpixel
/// steps; the configured minimum where there is none.
pub open spec fn map_max(frame: &StereoFrame, params: Params, done: nat) -> int
    decreases done,
{
    if done == 0 {
        params.min_disparity * SUBPIXEL_SCALE
    } else {
        let before = map_max(frame, params, (done - 1) as nat);
        let range = search_range(frame, params, (done - 1) as nat);
        let here = row_max(
            frame,
            params,
            params.end_row(frame) - done,
            range.0,
            range.1,
            params.end_column(frame),
        );
        if here > before {
            here
        } else {
            before
        }
    }
}

/// Whether an interval lies inside the configured one, its lower end not
/// above its upper end and below the configured maximum.
pub open spec fn range_contained(params: Params, lo: int, hi: int) -> bool {
    &&& params.min_disparity <= lo <= hi <= params.max_disparity
    &&& lo < params.max_disparity
}

/// A pixel's disparity lies in the interval searched: from `lo` up to the
/// last candidate, or at `lo` itself where the interval is empty.
pub proof fn lemma_pixel_disparity_bounds(
    frame: &StereoFrame,
    params: Params,
    x: int,
    y: int,
    lo: int,
    hi: int,
)
    ensures
        lo < hi ==> lo * SUBPIXEL_SCALE <= pixel_disparity(frame, params, x, y, lo, hi) <= (hi
            - 1) * SUBPIXEL_SCALE,
        lo >= hi ==> pixel_disparity(frame, params, x, y, lo, hi) == lo * SUBPIXEL_SCALE,
{
    lemma_interpolated_disparity_bounds(candidate_costs(frame, params, x, y, lo, hi), lo);
}

/// Scaling keeps the order of whole disparities.
proof fn lemma_scale_ordered(a: int, b: int)
    requires
        a <= b,
    ensures
        a * SUBPIXEL_SCALE <= b * SUBPIXEL_SCALE,
        a < b ==> a * SUBPIXEL_SCALE + SUBPIXEL_SCALE <= b * SUBPIXEL_SCALE,
{
}

/// The extremes of a row lie inside the configured interval; over at
/// least one column, they lie inside the interval searched, the smallest
/// not above the largest and below the configured maximum.
pub proof fn lemma_row_extremes(
    frame: &StereoFrame,
    params: Params,
    y: int,
    lo: int,
    hi: int,
    x_end: int,
)
    requires
        range_contained(params, lo, hi),
    ensures
        params.min_disparity * SUBPIXEL_SCALE <= row_max(frame, params, y, lo, hi, x_end),
        row_min(frame, params, y, lo, hi, x_end) <= params.max_disparity * SUBPIXEL_SCALE,
        x_end > params.first_column(hi) ==> {
            &&& lo * SUBPIXEL_SCALE <= row_min(frame, params, y, lo, hi, x_end)
            &&& row_min(frame, params, y, lo, hi, x_end) <= row_max(
                frame,
                params,
                y,
                lo,
                hi,
                x_end,
            )
            &&& row_max(frame, params, y, lo, hi, x_end) <= hi * SUBPIXEL_SCALE
            &&& row_max(frame, params, y, lo, hi, x_end) < params.max_disparity * SUBPIXEL_SCALE
        },
    decreases x_end - params.first_column(hi),
{
    if x_end > params.first_column(hi) {
        lemma_row_extremes(frame, params, y, lo, hi, x_end - 1);
        lemma_pixel_disparity_bounds(frame, params, x_end - 1, y, lo, hi);
        lemma_scale_ordered(params.min_disparity as int, lo);
        lemma_scale_ordered(lo, hi);
        lemma_scale_ordered(lo, params.max_disparity as int);
        lemma_scale_ordered(hi, params.max_disparity as int);
        if lo < hi {
            lemma_scale_ordered(hi - 1, hi);
            lemma_scale_ordered(hi - 1, params.max_disparity as int);
        }
    }
}

/// On every row the search interval lies inside the configured one, its
/// lower end not above its upper end and below the configured maximum.
/// `done` counts the rows worked on before, from the bottom up.
pub proof fn lemma_search_range_contained(frame: &StereoFrame, params: Params, done: nat)
    requires
        params.valid(),
        params.has_interior(frame),
    ensures
        range_contained(
            params,
            search_range(frame, params, done).0,
            search_range(frame, params, done).1,
        ),
    decreases done,
{
    if done > 0 {
        lemma_search_range_contained(frame, params, (done - 1) as nat);
        let before = search_range(frame, params, (done - 1) as nat);
        let y = params.end_row(frame) - done;
        let x_end = params.end_column(frame);
        lemma_row_extremes(frame, params, y, before.0, before.1, x_end);
        lemma_scale_ordered(params.min_disparity as int, before.0);
        lemma_narrowed_contained(
            params,
            row_min(frame, params, y, before.0, before.1, x_end),
            row_max(frame, params, y, before.0, before.1, x_end),
        );
    }
}

/// Every disparity worked out lies in the configured interval, its upper
/// end left out.
pub proof fn lemma_output_contained(frame: &StereoFrame, params: Params, x: int, y: int)
    requires
        params.valid(),
        is_computed(frame, params, x, y),
    ensures
        params.min_disparity * SUBPIXEL_SCALE <= expected_disparity(frame, params, x, y)
            < params.max_disparity * SUBPIXEL_SCALE,
{
    let done = (params.end_row(frame) - 1 - y) as nat;
    lemma_search_range_contained(frame, params, done);
    let range = row_range(frame, params, y);
    lemma_pixel_disparity_bounds(frame, params, x, y, range.0, range.1);
    lemma_scale_ordered(params.min_disparity as int, range.0);
    lemma_scale_ordered(range.0, params.max_disparity as int);
    if range.0 < range.1 {
        lemma_scale_ordered(range.1 - 1, params.max_disparity as int);
    }
}

/// A pixel within a window height of the top or bottom edge, within a
/// window width of the right edge, or within a window width plus the
/// configured minimum disparity of the left edge keeps the zero it
/// started with.
pub proof fn lemma_border_untouched(frame: &StereoFrame, params: Params, x: int, y: int)
    requires
        params.valid(),
        y < params.first_row() || y >= params.end_row(frame) || x < params.first_column(
            params.min_disparity as int,
        ) || x >= params.end_column(frame),
    ensures
        !is_computed(frame, params, x, y),
        expected_disparity(frame, params, x, y) == 0,
{
    if params.has_interior(frame) && params.first_row() <= y < params.end_row(frame) {
        lemma_search_range_contained(frame, params, (params.end_row(frame) - 1 - y) as nat);
    }
}

/// On the bottom row worked on the whole configured interval is searched,
/// and a pixel within a window width plus the configured maximum
/// disparity of the left edge keeps the zero it started with.
pub proof fn lemma_bottom_row_border(frame: &StereoFrame, params: Params, x: int)
    requires
        x < params.first_column(params.max_disparity as int),
    ensures
        !is_computed(frame, params, x, params.end_row(frame) - 1),
        expected_disparity(frame, params, x, params.end_row(frame) - 1) == 0,
{
}

/// With the same image on both sides no cell differs, so every sum of
/// cell costs at disparity zero is zero.
proof fn lemma_identical_column_sum(frame: &StereoFrame, x: int, y_lo: int, n: nat)
    requires
        frame.identical(),
        0 <= x < frame.spec_width(),
        0 <= y_lo,
        y_lo + n <= frame.spec_height(),
    ensures
        column_sum(frame, x, y_lo, n, 0) == 0,
    decreases n,
{
    if n > 0 {
        lemma_identical_column_sum(frame, x, y_lo, (n - 1) as nat);
        assert(frame.left.contains(x, y_lo + n - 1));
        assert(frame.left.at(x, y_lo + n - 1) == frame.right.at(x, y_lo + n - 1));
    }
}

proof fn lemma_identical_window_sum(
    frame: &StereoFrame,
    x_lo: int,
    n: nat,
    y: int,
    half_height: int,
)
    requires
        frame.identical(),
        0 <= x_lo,
        x_lo + n <= frame.spec_width(),
        0 <= half_height <= y,
        y + half_height < frame.spec_height(),
    ensures
        window_sum(frame, x_lo, n, y, 0, half_height) == 0,
    decreases n,
{
    if n > 0 {
        lemma_identical_window_sum(frame, x_lo, (n - 1) as nat, y, half_height);
        lemma_identical_column_sum(
            frame,
            x_lo + n - 1,
            y - half_height,
            (2 * half_height + 1) as nat,
        );
    }
}

/// With the same image on both sides and candidates from zero on, the
/// window of candidate zero costs nothing, no candidate comes before it,
/// and the disparity of the pixel is zero.
pub proof fn lemma_identical_pixel(
    frame: &StereoFrame,
    params: Params,
    x: int,
    y: int,
    hi: int,
)
    requires
        frame.identical(),
        params.window_fits(frame, x, y, 0),
    ensures
        window_cost(frame, x, y, 0, params.half_width(), params.half_height()) == 0,
        first_min_index(candidate_costs(frame, params, x, y, 0, hi)) == 0,
        pixel_disparity(frame, params, x, y, 0, hi) == 0,
{
    let costs = candidate_costs(frame, params, x, y, 0, hi);
    lemma_first_min_index(costs);
    lemma_identical_window_sum(
        frame,
        x - params.half_width(),
        (2 * params.half_width() + 1) as nat,
        y,
        params.half_height(),
    );
    if hi > 0 {
        assert(costs[0] == 0);
        let i = first_min_index(costs);
        assert(costs[i] >= 0) by {
            lemma_window_sum_bounds(
                frame,
                x - params.half_width(),
                (2 * params.half_width() + 1) as nat,
                y,
                i,
                params.half_height(),
            );
        }
        if i > 0 {
            assert(costs[0] > costs[i]);
        }
    }
}

proof fn lemma_identical_row_min(frame: &StereoFrame, params: Params, y: int, hi: int, x_end: int)
    requires
        frame.identical(),
        params.valid(),
        0 <= hi,
        params.first_row() <= y < params.end_row(frame),
        x_end <= params.end_column(frame),
    ensures
        x_end > params.first_column(hi) ==> row_min(frame, params, y, 0, hi, x_end) == 0,
        x_end <= params.first_column(hi) ==> row_min(frame, params, y, 0, hi, x_end)
            == params.max_disparity * SUBPIXEL_SCALE,
    decreases x_end - params.first_column(hi),
{
    if x_end > params.first_column(hi) {
        lemma_identical_row_min(frame, params, y, hi, x_end - 1);
        lemma_identical_pixel(frame, params, x_end - 1, y, hi);
    }
}

proof fn lemma_identical_search_range(frame: &StereoFrame, params: Params, done: nat)
    requires
        params.valid(),
        params.has_interior(frame),
        params.min_disparity == 0,
        frame.identical(),
        done <= params.rows(frame),
    ensures
        search_range(frame, params, done).0 == 0,
    decreases done,
{
    if done > 0 {
        lemma_identical_search_range(frame, params, (done - 1) as nat);
        lemma_search_range_contained(frame, params, (done - 1) as nat);
        let before = search_range(frame, params, (done - 1) as nat);
        lemma_identical_row_min(
            frame,
            params,
            params.end_row(frame) - done,
            before.1,
            params.end_column(frame),
        );
    }
}

/// With the same image on both sides and a configured minimum of zero,
/// the disparity of every pixel is zero.
pub proof fn lemma_identical_images_zero(frame: &StereoFrame, params: Params, x: int, y: int)
    requires
        params.valid(),
        params.min_disparity == 0,
        frame.identical(),
    ensures
        expected_disparity(frame, params, x, y) == 0,
{
    if is_computed(frame, params, x, y) {
        let done = (params.end_row(frame) - 1 - y) as nat;
        lemma_identical_search_range(frame, params, done);
        lemma_search_range_contained(frame, params, done);
        lemma_identical_pixel(frame, params, x, y, row_range(frame, params, y).1);
    }
}

} // verus!
