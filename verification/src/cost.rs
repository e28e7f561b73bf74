//! The correlation cost: sums of absolute intensity differences between a
//! window of the left image and the same window of the right image moved
//! left by a candidate disparity.

use crate::frame::StereoFrame;
use vstd::prelude::*;

verus! {

/// Largest absolute difference of two intensities.
pub const MAX_CELL_COST: u128 = 65535;

/// Cost of a window's leftmost column, of its rightmost column, and of the
/// whole window, for one pixel and one candidate disparity.
#[derive(Clone, Copy, Debug)]
pub struct CorrelationCost {
    pub total: u128,
    pub left_column: u128,
    pub right_column: u128,
}

/// `|left(x, y) - right(x - d, y)|`.
pub open spec fn cell_cost(frame: &StereoFrame, x: int, y: int, d: int) -> int {
    let l = frame.left.at(x, y) as int;
    let r = frame.right.at(x - d, y) as int;
    if l >= r {
        l - r
    } else {
        r - l
    }
}

/// Sum of the cell costs of column `x` over the `n` rows from `y_lo` on.
pub open spec fn column_sum(frame: &StereoFrame, x: int, y_lo: int, n: nat, d: int) -> int
    decreases n,
{
    if n == 0 {
        0
    } else {
        column_sum(frame, x, y_lo, (n - 1) as nat, d) + cell_cost(frame, x, y_lo + n - 1, d)
    }
}

/// Cost of the window column at `x` for a window centred on row `y`.
pub open spec fn column_cost(frame: &StereoFrame, x: int, y: int, d: int, half_height: int) -> int {
    column_sum(frame, x, y - half_height, (2 * half_height + 1) as nat, d)
}

/// Sum of the column costs of the `n` columns from `x_lo` on.
pub open spec fn window_sum(
    frame: &StereoFrame,
    x_lo: int,
    n: nat,
    y: int,
    d: int,
    half_height: int,
) -> int
    decreases n,
{
    if n == 0 {
        0
    } else {
        window_sum(frame, x_lo, (n - 1) as nat, y, d, half_height) + column_cost(
            frame,
            x_lo + n - 1,
            y,
            d,
            half_height,
        )
    }
}

/// Cost of the whole window centred on `(x, y)` for candidate `d`.
pub open spec fn window_cost(
    frame: &StereoFrame,
    x: int,
    y: int,
    d: int,
    half_width: int,
    half_height: int,
) -> int {
    window_sum(frame, x - half_width, (2 * half_width + 1) as nat, y, d, half_height)
}

impl CorrelationCost {
    /// Whether the three fields are the costs of the window centred on
    /// `(x, y)` for candidate `d`.
    pub open spec fn is_cost_of(
        &self,
        frame: &StereoFrame,
        x: int,
        y: int,
        d: int,
        half_width: int,
        half_height: int,
    ) -> bool {
        &&& self.total == window_cost(frame, x, y, d, half_width, half_height)
        &&& self.left_column == column_cost(frame, x - half_width, y, d, half_height)
        &&& self.right_column == column_cost(frame, x + half_width, y, d, half_height)
    }
}

/// A cell cost is an absolute difference of two 16-bit values.
pub proof fn lemma_cell_cost_bounds(frame: &StereoFrame, x: int, y: int, d: int)
    ensures
        0 <= cell_cost(frame, x, y, d) <= MAX_CELL_COST,
{
}

/// A sum over `n` cells lies between zero and `n` times the largest cell cost.
pub proof fn lemma_column_sum_bounds(frame: &StereoFrame, x: int, y_lo: int, n: nat, d: int)
    ensures
        0 <= column_sum(frame, x, y_lo, n, d) <= MAX_CELL_COST * n,
    decreases n,
{
    if n > 0 {
        lemma_column_sum_bounds(frame, x, y_lo, (n - 1) as nat, d);
        lemma_cell_cost_bounds(frame, x, y_lo + n - 1, d);
    }
}

/// A sum over `n` columns of `rows` cells each lies between zero and
/// `n * rows` times the largest cell cost.
pub proof fn lemma_window_sum_bounds(
    frame: &StereoFrame,
    x_lo: int,
    n: nat,
    y: int,
    d: int,
    half_height: int,
)
    requires
        0 <= half_height,
    ensures
        0 <= window_sum(frame, x_lo, n, y, d, half_height) <= MAX_CELL_COST * (n * (2 * half_height
            + 1)),
    decreases n,
{
    if n > 0 {
        lemma_window_sum_bounds(frame, x_lo, (n - 1) as nat, y, d, half_height);
        lemma_column_sum_bounds(
            frame,
            x_lo + n - 1,
            y - half_height,
            (2 * half_height + 1) as nat,
            d,
        );
        assert(n * (2 * half_height + 1) == (n - 1) * (2 * half_height + 1) + (2 * half_height
            + 1)) by (nonlinear_arith);
    }
}

/// Taking one more column never lowers the sum.
pub proof fn lemma_window_sum_monotonic(
    frame: &StereoFrame,
    x_lo: int,
    m: nat,
    n: nat,
    y: int,
    d: int,
    half_height: int,
)
    requires
        m <= n,
    ensures
        window_sum(frame, x_lo, m, y, d, half_height) <= window_sum(
            frame,
            x_lo,
            n,
            y,
            d,
            half_height,
        ),
    decreases n,
{
    if m < n {
        lemma_window_sum_monotonic(frame, x_lo, m, (n - 1) as nat, y, d, half_height);
        lemma_column_sum_bounds(
            frame,
            x_lo + n - 1,
            y - half_height,
            (2 * half_height + 1) as nat,
            d,
        );
    }
}

/// Moving a column of `n` cells down by one row drops its first cell and
/// takes in the cell after its last.
pub proof fn lemma_column_sum_shift(frame: &StereoFrame, x: int, y_lo: int, n: nat, d: int)
    ensures
        column_sum(frame, x, y_lo + 1, n, d) == column_sum(frame, x, y_lo, n, d) - cell_cost(
            frame,
            x,
            y_lo,
            d,
        ) + cell_cost(frame, x, y_lo + n, d),
    decreases n,
{
    if n > 0 {
        lemma_column_sum_shift(frame, x, y_lo, (n - 1) as nat, d);
    }
}

/// Moving a run of `n` columns right by one drops its first column and takes
/// in the column after its last.
pub proof fn lemma_window_sum_shift(
    frame: &StereoFrame,
    x_lo: int,
    n: nat,
    y: int,
    d: int,
    half_height: int,
)
    ensures
        window_sum(frame, x_lo + 1, n, y, d, half_height) == window_sum(
            frame,
            x_lo,
            n,
            y,
            d,
            half_height,
        ) - column_cost(frame, x_lo, y, d, half_height) + column_cost(
            frame,
            x_lo + n,
            y,
            d,
            half_height,
        ),
    decreases n,
{
    if n > 0 {
        lemma_window_sum_shift(frame, x_lo, (n - 1) as nat, y, d, half_height);
    }
}

/// The incremental update gives the cost of the full window: the cost at
/// `(x, y)` is the cost one column to the left, less that window's leftmost
/// column, plus the rightmost column of the window one row below, corrected
/// by the one cell that column gains at its top and the one it loses at its
/// bottom.
pub proof fn lemma_incremental_cost(
    frame: &StereoFrame,
    x: int,
    y: int,
    d: int,
    half_width: int,
    half_height: int,
)
    requires
        0 <= half_width,
        0 <= half_height,
    ensures
        window_cost(frame, x, y, d, half_width, half_height) == window_cost(
            frame,
            x - 1,
            y,
            d,
            half_width,
            half_height,
        ) - column_cost(frame, x - 1 - half_width, y, d, half_height) + column_cost(
            frame,
            x + half_width,
            y + 1,
            d,
            half_height,
        ) + cell_cost(frame, x + half_width, y - half_height, d) - cell_cost(
            frame,
            x + half_width,
            y + half_height + 1,
            d,
        ),
{
    lemma_window_sum_shift(
        frame,
        x - 1 - half_width,
        (2 * half_width + 1) as nat,
        y,
        d,
        half_height,
    );
    lemma_column_sum_shift(
        frame,
        x + half_width,
        y - half_height,
        (2 * half_height + 1) as nat,
        d,
    );
}

} // verus!
