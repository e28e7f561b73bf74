//! The search range in force for a row, and how it follows the
//! disparities found in the row before.

use crate::disparity::{lemma_whole_and_frac, Disparity, SUBPIXEL_SCALE};
use crate::mcmanamon::Params;
use vstd::prelude::*;

verus! {

/// Lower end of the next row's range: the smallest disparity of the row,
/// rounded down, less the margin, but no lower than the configured minimum.
/// `min_row` is in subpixel steps.
pub open spec fn narrowed_min(params: Params, min_row: int) -> int {
    let low = min_row / (SUBPIXEL_SCALE as int) - params.dyn_disparity_threshold;
    if low < params.min_disparity {
        params.min_disparity as int
    } else {
        low
    }
}

/// Upper end of the next row's range: the largest disparity of the row,
/// rounded up, plus the margin, but no higher than the configured maximum.
/// `max_row` is in subpixel steps.
pub open spec fn narrowed_max(params: Params, max_row: int) -> int {
    let high = (max_row + SUBPIXEL_SCALE - 1) / (SUBPIXEL_SCALE as int)
        + params.dyn_disparity_threshold;
    if high > params.max_disparity {
        params.max_disparity as int
    } else {
        high
    }
}

/// Narrowing around disparities that lie between the configured limits,
/// the smallest not above the largest, gives a range inside those limits
/// whose lower end is not above its upper end. Where the smallest is
/// strictly below the configured maximum, so is the new lower end.
pub proof fn lemma_narrowed_contained(params: Params, min_row: int, max_row: int)
    requires
        params.min_disparity <= params.max_disparity,
        params.min_disparity * SUBPIXEL_SCALE <= min_row <= max_row <= params.max_disparity
            * SUBPIXEL_SCALE,
    ensures
        params.min_disparity <= narrowed_min(params, min_row) <= narrowed_max(params, max_row)
            <= params.max_disparity,
        min_row < params.max_disparity * SUBPIXEL_SCALE && params.min_disparity
            < params.max_disparity ==> narrowed_min(params, min_row) < params.max_disparity,
{
}

/// The disparity interval searched on the current row.
pub struct RangeController {
    params: Params,
    min_dyn_disp: usize,
    max_dyn_disp: usize,
}

impl RangeController {
    /// The configuration the range is held to.
    pub closed spec fn spec_params(&self) -> Params {
        self.params
    }

    /// Lower end of the interval.
    pub closed spec fn spec_min_dyn_disp(&self) -> usize {
        self.min_dyn_disp
    }

    /// Upper end of the interval, itself not searched.
    pub closed spec fn spec_max_dyn_disp(&self) -> usize {
        self.max_dyn_disp
    }

    /// Whether the interval lies inside the configured one, its lower end
    /// not above its upper end.
    pub open spec fn contained(&self) -> bool {
        self.spec_params().min_disparity <= self.spec_min_dyn_disp() <= self.spec_max_dyn_disp()
            <= self.spec_params().max_disparity
    }

    /// Starts at the whole configured interval.
    pub fn new(params: Params) -> (range: Self)
        ensures
            range.spec_params() == params,
            range.spec_min_dyn_disp() == params.min_disparity,
            range.spec_max_dyn_disp() == params.max_disparity,
            params.min_disparity <= params.max_disparity ==> range.contained(),
    {
        RangeController {
            params,
            min_dyn_disp: params.min_disparity,
            max_dyn_disp: params.max_disparity,
        }
    }

    /// Lower end of the interval.
    #[verifier::when_used_as_spec(spec_min_dyn_disp)]
    pub fn min_dyn_disp(&self) -> (d: usize)
        ensures
            d == self.spec_min_dyn_disp(),
    {
        self.min_dyn_disp
    }

    /// Upper end of the interval, itself not searched.
    #[verifier::when_used_as_spec(spec_max_dyn_disp)]
    pub fn max_dyn_disp(&self) -> (d: usize)
        ensures
            d == self.spec_max_dyn_disp(),
    {
        self.max_dyn_disp
    }

    /// Moves the interval to the disparities seen on a row, widened by the
    /// margin and cut to the configured limits.
    pub fn update(&mut self, min_disp_this_row: Disparity, max_disp_this_row: Disparity)
        ensures
            final(self).spec_params() == old(self).spec_params(),
            final(self).spec_min_dyn_disp() == narrowed_min(
                old(self).spec_params(),
                min_disp_this_row.scaled(),
            ),
            final(self).spec_max_dyn_disp() == narrowed_max(
                old(self).spec_params(),
                max_disp_this_row.scaled(),
            ),
            old(self).spec_params().min_disparity <= old(self).spec_params().max_disparity
                && old(self).spec_params().min_disparity * SUBPIXEL_SCALE
                <= min_disp_this_row.scaled() <= max_disp_this_row.scaled() <= old(
                self,
            ).spec_params().max_disparity * SUBPIXEL_SCALE ==> final(self).contained(),
    {
        proof {
            lemma_whole_and_frac(min_disp_this_row.whole as int, min_disp_this_row.frac as int);
            lemma_whole_and_frac(max_disp_this_row.whole as int, max_disp_this_row.frac as int);
        }
        let threshold: usize = self.params.dyn_disparity_threshold;
        let high: Option<usize> = match max_disp_this_row.ceil() {
            Some(c) => c.checked_add(threshold),
            None => None,
        };
        self.max_dyn_disp = match high {
            Some(h) => if h > self.params.max_disparity {
                self.params.max_disparity
            } else {
                h
            },
            None => self.params.max_disparity,
        };
        let low: usize = min_disp_this_row.floor().saturating_sub(threshold);
        self.min_dyn_disp = if low < self.params.min_disparity {
            self.params.min_disparity
        } else {
            low
        };
        proof {
            if old(self).spec_params().min_disparity <= old(self).spec_params().max_disparity
                && old(self).spec_params().min_disparity * SUBPIXEL_SCALE
                <= min_disp_this_row.scaled() <= max_disp_this_row.scaled() <= old(
                self,
            ).spec_params().max_disparity * SUBPIXEL_SCALE {
                lemma_narrowed_contained(
                    self.params,
                    min_disp_this_row.scaled(),
                    max_disp_this_row.scaled(),
                );
            }
        }
    }
}

} // verus!
