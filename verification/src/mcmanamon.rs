//! Block correlation with a search range that follows the disparities of
//! the row below, and window costs updated incrementally from the pixel to
//! the left and the row below.

use crate::cache::{holds_costs, holds_right_columns, present_on, present_within, CostCache};
use crate::cost::{
    cell_cost, column_cost, column_sum, lemma_cell_cost_bounds, lemma_column_sum_bounds,
    lemma_incremental_cost, lemma_window_sum_bounds, lemma_window_sum_monotonic, window_cost,
    window_sum, CorrelationCost,
};
use crate::disparity::{Disparity, DisparityAlgorithm, DisparityMap, SUBPIXEL_SCALE};
use crate::error::Error;
use crate::frame::StereoFrame;
use crate::model::{
    candidate_costs, expected_disparity, is_computed, lemma_output_contained,
    lemma_search_range_contained, map_max, map_min, pixel_disparity, range_contained, row_max,
    row_min, search_range,
};
use crate::range::RangeController;
use crate::subpixel::{cost_values, select_disparity};
use vstd::prelude::*;

verus! {

/// Search space and correlation window of the algorithm.
#[derive(Clone, Copy, Debug)]
pub struct Params {
    /// Smallest disparity ever searched.
    pub min_disparity: usize,
    /// One past the largest disparity ever searched.
    pub max_disparity: usize,
    /// Margin kept around the disparities seen in a row when the search
    /// range for the next row is chosen.
    pub dyn_disparity_threshold: usize,
    /// Width and height of the correlation window; both are meant to be odd.
    pub correlation_window_size: (usize, usize),
}

/// Number of columns (or rows) a window of `size` has on either side of
/// its centre.
pub open spec fn half_extent(size: int) -> int {
    if size <= 0 {
        0
    } else {
        (size - 1) / 2
    }
}

impl Params {
    /// Columns of the window on either side of its centre.
    pub open spec fn half_width(&self) -> int {
        half_extent(self.correlation_window_size.0 as int)
    }

    /// Rows of the window on either side of its centre.
    pub open spec fn half_height(&self) -> int {
        half_extent(self.correlation_window_size.1 as int)
    }

    /// Whether the parameters describe a search: a disparity interval
    /// that is not empty and a window with at least one cell.
    pub open spec fn valid(&self) -> bool {
        &&& self.min_disparity < self.max_disparity
        &&& self.correlation_window_size.0 > 0
        &&& self.correlation_window_size.1 > 0
    }

    /// The first column worked on in a row whose search interval ends at
    /// `hi`: a window width and `hi` columns in from the left edge.
    pub open spec fn first_column(&self, hi: int) -> int {
        self.correlation_window_size.0 + hi
    }

    /// One past the last column worked on: a window width in from the
    /// right edge.
    pub open spec fn end_column(&self, frame: &StereoFrame) -> int {
        frame.spec_width() - self.correlation_window_size.0
    }

    /// The topmost row worked on: a window height down from the top edge.
    pub open spec fn first_row(&self) -> int {
        self.correlation_window_size.1 as int
    }

    /// One past the bottom row worked on: a window height up from the
    /// bottom edge.
    pub open spec fn end_row(&self, frame: &StereoFrame) -> int {
        frame.spec_height() - self.correlation_window_size.1
    }

    /// Whether any pixel is left between the borders when the whole
    /// configured interval is searched.
    pub open spec fn has_interior(&self, frame: &StereoFrame) -> bool {
        &&& self.first_row() < self.end_row(frame)
        &&& self.first_column(self.max_disparity as int) < self.end_column(frame)
    }

    /// Number of rows worked on.
    pub open spec fn rows(&self, frame: &StereoFrame) -> nat {
        if self.has_interior(frame) {
            (self.end_row(frame) - self.first_row()) as nat
        } else {
            0
        }
    }

    /// Whether the window centred on `(x, y)` lies inside the left image and,
    /// moved left by `d`, inside the right image.
    pub open spec fn window_fits(&self, frame: &StereoFrame, x: int, y: int, d: int) -> bool {
        &&& frame.same_sized()
        &&& 0 <= d
        &&& self.half_width() + d <= x
        &&& x + self.half_width() < frame.spec_width()
        &&& self.half_height() <= y
        &&& y + self.half_height() < frame.spec_height()
    }

    /// What is wrong with the parameters by themselves, if anything: an
    /// empty disparity interval first, then a window without cells.
    pub open spec fn defect(&self) -> Option<Error> {
        if self.min_disparity >= self.max_disparity {
            Some(Error::EmptyDisparityRange)
        } else if self.correlation_window_size.0 == 0 || self.correlation_window_size.1 == 0 {
            Some(Error::EmptyWindow)
        } else {
            None
        }
    }

    /// Why no map can be computed for `frame`, if so: a defect of the
    /// parameters first, then images of different sizes, then a window
    /// that is wider or taller than the images.
    pub open spec fn rejection(&self, frame: &StereoFrame) -> Option<Error> {
        if self.defect() is Some {
            self.defect()
        } else if !frame.same_sized() {
            Some(Error::FrameSizeMismatch)
        } else if self.correlation_window_size.0 > frame.spec_width()
            || self.correlation_window_size.1 > frame.spec_height() {
            Some(Error::WindowExceedsImage)
        } else {
            None
        }
    }

    /// Checks the parameters by themselves.
    pub fn validate(&self) -> (result: Result<(), Error>)
        ensures
            result is Ok <==> self.valid(),
            result matches Err(e) ==> self.defect() == Some(e),
    {
        if self.min_disparity >= self.max_disparity {
            Err(Error::EmptyDisparityRange)
        } else if self.correlation_window_size.0 == 0 || self.correlation_window_size.1 == 0 {
            Err(Error::EmptyWindow)
        } else {
            Ok(())
        }
    }

    /// Checks the parameters against a frame.
    pub fn check_frame(&self, frame: &StereoFrame) -> (result: Result<(), Error>)
        ensures
            result is Ok <==> self.rejection(frame) is None,
            result matches Err(e) ==> self.rejection(frame) == Some(e),
    {
        match self.validate() {
            Err(e) => Err(e),
            Ok(()) => {
                if frame.left.width() != frame.right.width() || frame.left.height()
                    != frame.right.height() {
                    Err(Error::FrameSizeMismatch)
                } else if self.correlation_window_size.0 > frame.width()
                    || self.correlation_window_size.1 > frame.height() {
                    Err(Error::WindowExceedsImage)
                } else {
                    Ok(())
                }
            },
        }
    }
}

/// The disparity algorithm with its window half-extents worked out.
pub struct McManamon {
    params: Params,
    half_width: usize,
    half_height: usize,
}

impl McManamon {
    #[verifier::type_invariant]
    spec fn well_formed(self) -> bool {
        &&& self.half_width == self.params.half_width()
        &&& self.half_height == self.params.half_height()
    }

    /// The parameters the instance was made with.
    pub closed spec fn spec_params(&self) -> Params {
        self.params
    }

    /// Create a new instance of the algorithm with the given parameters.
    pub fn new(params: Params) -> (alg: Self)
        ensures
            alg.spec_params() == params,
    {
        let half_width: usize = if params.correlation_window_size.0 == 0 {
            0
        } else {
            (params.correlation_window_size.0 - 1) / 2
        };
        let half_height: usize = if params.correlation_window_size.1 == 0 {
            0
        } else {
            (params.correlation_window_size.1 - 1) / 2
        };
        McManamon { params, half_width, half_height }
    }

    /// The parameters the instance was made with.
    #[verifier::when_used_as_spec(spec_params)]
    pub fn params(&self) -> (p: Params)
        ensures
            p == self.spec_params(),
    {
        self.params
    }

    /// Sums the cell costs of the window column at `x`.
    fn column_criterion(&self, frame: &StereoFrame, x: usize, y: usize, d: usize) -> (c: u128)
        requires
            frame.same_sized(),
            d <= x < frame.spec_width(),
            self.spec_params().half_height() <= y,
            y + self.spec_params().half_height() < frame.spec_height(),
        ensures
            c == column_cost(frame, x as int, y as int, d as int, self.spec_params().half_height()),
    {
        proof {
            use_type_invariant(self);
        }
        let rows: usize = 2 * self.half_height + 1;
        let top: usize = y - self.half_height;
        let mut sum: u128 = 0;
        let mut j: usize = 0;
        while j < rows
            invariant
                j <= rows,
                rows == 2 * self.half_height + 1,
                top == y - self.half_height,
                top + rows <= frame.spec_height(),
                frame.same_sized(),
                d <= x < frame.spec_width(),
                sum == column_sum(frame, x as int, top as int, j as nat, d as int),
            decreases rows - j,
        {
            let diff: u128 = cell_criterion(frame, x, top + j, d);
            proof {
                lemma_column_sum_bounds(frame, x as int, top as int, j as nat, d as int);
            }
            sum = sum + diff;
            j = j + 1;
        }
        sum
    }

    /// Calculate the correlation criterion for the given position and
    /// disparity by summing over the whole window.
    pub fn get_criterion(&self, frame: &StereoFrame, x: usize, y: usize, d: usize) -> (c:
        CorrelationCost)
        requires
            self.spec_params().window_fits(frame, x as int, y as int, d as int),
        ensures
            c.is_cost_of(
                frame,
                x as int,
                y as int,
                d as int,
                self.spec_params().half_width(),
                self.spec_params().half_height(),
            ),
    {
        proof {
            use_type_invariant(self);
            use_type_invariant(&frame.left);
            frame.left.lemma_area_fits();
        }
        let columns: usize = 2 * self.half_width + 1;
        let first: usize = x - self.half_width;
        let ghost hh = self.half_height as int;
        proof {
            lemma_area_bound(
                columns as int,
                2 * hh + 1,
                frame.spec_width() as int,
                frame.spec_height() as int,
            );
        }
        let mut total: u128 = 0;
        let mut left_column: u128 = 0;
        let mut right_column: u128 = 0;
        let mut i: usize = 0;
        while i < columns
            invariant
                i <= columns,
                columns == 2 * self.half_width + 1,
                first == x - self.half_width,
                hh == self.half_height,
                hh == self.spec_params().half_height(),
                self.spec_params().window_fits(frame, x as int, y as int, d as int),
                self.half_width == self.spec_params().half_width(),
                columns * (2 * hh + 1) <= usize::MAX,
                total == window_sum(frame, first as int, i as nat, y as int, d as int, hh),
                i > 0 ==> left_column == column_cost(frame, first as int, y as int, d as int, hh),
                i > 0 ==> right_column == column_cost(
                    frame,
                    first + i - 1,
                    y as int,
                    d as int,
                    hh,
                ),
            decreases columns - i,
        {
            let column: u128 = self.column_criterion(frame, first + i, y, d);
            proof {
                lemma_window_sum_bounds(
                    frame,
                    first as int,
                    (i + 1) as nat,
                    y as int,
                    d as int,
                    hh,
                );
                assert((i + 1) * (2 * hh + 1) <= columns * (2 * hh + 1)) by (nonlinear_arith)
                    requires
                        i + 1 <= columns,
                        0 <= 2 * hh + 1,
                ;
            }
            total = total + column;
            if i == 0 {
                left_column = column;
            }
            right_column = column;
            i = i + 1;
        }
        CorrelationCost { total, left_column, right_column }
    }

    /// Calculate the correlation criterion for the given position and
    /// disparity from the criterion of the pixel to the left and the
    /// right-column criterion of the pixel below, summing two columns only.
    pub fn get_criterion_fast(
        &self,
        frame: &StereoFrame,
        x: usize,
        y: usize,
        d: usize,
        left_crit: CorrelationCost,
        below_right_col_crit: u128,
    ) -> (c: CorrelationCost)
        requires
            self.spec_params().window_fits(frame, x as int, y as int, d as int),
            y + self.spec_params().half_height() + 1 < frame.spec_height(),
            left_crit.is_cost_of(
                frame,
                x - 1,
                y as int,
                d as int,
                self.spec_params().half_width(),
                self.spec_params().half_height(),
            ),
            below_right_col_crit == column_cost(
                frame,
                x + self.spec_params().half_width(),
                y + 1,
                d as int,
                self.spec_params().half_height(),
            ),
        ensures
            c.is_cost_of(
                frame,
                x as int,
                y as int,
                d as int,
                self.spec_params().half_width(),
                self.spec_params().half_height(),
            ),
    {
        proof {
            use_type_invariant(self);
            use_type_invariant(&frame.left);
            frame.left.lemma_area_fits();
        }
        let right: usize = x + self.half_width;
        let ghost hw = self.half_width as int;
        let ghost hh = self.half_height as int;
        let old_crit: u128 = cell_criterion(frame, right, y + self.half_height + 1, d);
        let new_crit: u128 = cell_criterion(frame, right, y - self.half_height, d);
        let left_column: u128 = self.column_criterion(frame, x - self.half_width, y, d);
        let right_column: u128 = self.column_criterion(frame, right, y, d);
        proof {
            lemma_incremental_cost(frame, x as int, y as int, d as int, hw, hh);
            // The window to the left is no cheaper than its first column.
            lemma_window_sum_monotonic(
                frame,
                x - 1 - hw,
                1,
                (2 * hw + 1) as nat,
                y as int,
                d as int,
                hh,
            );
            assert(window_sum(frame, x - 1 - hw, 1, y as int, d as int, hh) == column_cost(
                frame,
                x - 1 - hw,
                y as int,
                d as int,
                hh,
            )) by {
                reveal_with_fuel(window_sum, 2);
            }
            // The column below is no cheaper than its last cell.
            lemma_column_sum_bounds(frame, right as int, y + 1 - hh, (2 * hh) as nat, d as int);
            // Every term stays far below the capacity of the accumulator.
            lemma_area_bound(
                2 * hw + 1,
                2 * hh + 1,
                frame.spec_width() as int,
                frame.spec_height() as int,
            );
            lemma_window_sum_bounds(
                frame,
                x - 1 - hw,
                (2 * hw + 1) as nat,
                y as int,
                d as int,
                hh,
            );
            lemma_column_sum_bounds(frame, right as int, y + 1 - hh, (2 * hh + 1) as nat, d as int);
            lemma_cell_cost_bounds(frame, right as int, y - hh, d as int);
        }
        let total: u128 = (left_crit.total - left_crit.left_column) + (below_right_col_crit
            - old_crit) + new_crit;
        CorrelationCost { total, left_column, right_column }
    }

    /// Calculate the correlation criterion for the given position and
    /// disparity: from the cached criteria where both are there, by summing
    /// over the whole window where either is missing.
    pub fn criterion(
        &self,
        frame: &StereoFrame,
        x: usize,
        y: usize,
        d: usize,
        left_crit: Option<CorrelationCost>,
        below_right_col_crit: Option<u128>,
    ) -> (c: CorrelationCost)
        requires
            self.spec_params().window_fits(frame, x as int, y as int, d as int),
            left_crit is Some && below_right_col_crit is Some ==> y
                + self.spec_params().half_height() + 1 < frame.spec_height(),
            left_crit matches Some(l) ==> l.is_cost_of(
                frame,
                x - 1,
                y as int,
                d as int,
                self.spec_params().half_width(),
                self.spec_params().half_height(),
            ),
            below_right_col_crit matches Some(b) ==> b == column_cost(
                frame,
                x + self.spec_params().half_width(),
                y + 1,
                d as int,
                self.spec_params().half_height(),
            ),
        ensures
            c.is_cost_of(
                frame,
                x as int,
                y as int,
                d as int,
                self.spec_params().half_width(),
                self.spec_params().half_height(),
            ),
    {
        match left_crit {
            Some(left) => match below_right_col_crit {
                Some(below) => self.get_criterion_fast(frame, x, y, d, left, below),
                None => self.get_criterion(frame, x, y, d),
            },
            None => self.get_criterion(frame, x, y, d),
        }
    }

    /// The criteria of every candidate of the interval at one pixel. The
    /// two caches come in holding the criteria of the pixel to the left and
    /// of this column on the row below, and go out holding those of this
    /// pixel.
    fn candidate_criteria(
        &self,
        frame: &StereoFrame,
        x: usize,
        y: usize,
        min_dyn_disp: usize,
        max_dyn_disp: usize,
        left_crits: &mut Vec<Option<CorrelationCost>>,
        below_crits: &mut Vec<Option<u128>>,
    ) -> (crits: Vec<u128>)
        requires
            frame.same_sized(),
            max_dyn_disp <= old(left_crits).len() == old(below_crits).len(),
            self.spec_params().half_width() + max_dyn_disp <= x,
            x + self.spec_params().half_width() < frame.spec_width(),
            self.spec_params().half_height() <= y,
            y + self.spec_params().half_height() + 1 < frame.spec_height(),
            present_within(old(left_crits)@, min_dyn_disp as int, max_dyn_disp as int),
            holds_costs(old(left_crits)@, frame, self.spec_params(), x - 1, y as int),
            holds_right_columns(old(below_crits)@, frame, self.spec_params(), x as int, y + 1),
        ensures
            cost_values(crits@) == candidate_costs(
                frame,
                self.spec_params(),
                x as int,
                y as int,
                min_dyn_disp as int,
                max_dyn_disp as int,
            ),
            final(left_crits).len() == old(left_crits).len(),
            final(below_crits).len() == old(below_crits).len(),
            present_on(final(left_crits)@, min_dyn_disp as int, max_dyn_disp as int),
            holds_costs(final(left_crits)@, frame, self.spec_params(), x as int, y as int),
            present_on(final(below_crits)@, min_dyn_disp as int, max_dyn_disp as int),
            holds_right_columns(final(below_crits)@, frame, self.spec_params(), x as int, y as int),
    {
        let ghost params = self.spec_params();
        let ghost hw = params.half_width();
        let ghost hh = params.half_height();
        let depth: usize = left_crits.len();
        let mut crits: Vec<u128> = Vec::new();
        let mut d: usize = 0;
        while d < depth
            invariant
                d <= depth,
                params == self.spec_params(),
                hw == params.half_width(),
                hh == params.half_height(),
                depth == left_crits.len() == below_crits.len(),
                depth == old(left_crits).len(),
                max_dyn_disp <= depth,
                frame.same_sized(),
                hw + max_dyn_disp <= x,
                x + hw < frame.spec_width(),
                hh <= y,
                y + hh + 1 < frame.spec_height(),
                crits.len() == (if d <= min_dyn_disp || max_dyn_disp <= min_dyn_disp {
                    0
                } else if d >= max_dyn_disp {
                    max_dyn_disp - min_dyn_disp
                } else {
                    d - min_dyn_disp
                }),
                forall|k: int|
                    0 <= k < crits.len() ==> #[trigger] crits[k] == window_cost(
                        frame,
                        x as int,
                        y as int,
                        min_dyn_disp + k,
                        hw,
                        hh,
                    ),
                forall|e: int| d <= e < depth ==> #[trigger] left_crits[e] == old(left_crits)[e],
                forall|e: int|
                    d <= e < depth ==> #[trigger] below_crits[e] == old(below_crits)[e],
                forall|e: int|
                    0 <= e < depth ==> (#[trigger] old(left_crits)[e] matches Some(c)
                        ==> min_dyn_disp <= e < max_dyn_disp && c.is_cost_of(
                        frame,
                        x - 1,
                        y as int,
                        e,
                        hw,
                        hh,
                    )),
                forall|e: int|
                    0 <= e < depth ==> (#[trigger] old(below_crits)[e] matches Some(v)
                        ==> v == column_cost(frame, x + hw, y + 1, e, hh)),
                forall|e: int|
                    0 <= e < d ==> (#[trigger] left_crits[e] is Some <==> (min_dyn_disp <= e
                        < max_dyn_disp)),
                forall|e: int|
                    0 <= e < d ==> (#[trigger] left_crits[e] matches Some(c) ==> c.is_cost_of(
                        frame,
                        x as int,
                        y as int,
                        e,
                        hw,
                        hh,
                    )),
                forall|e: int|
                    0 <= e < d ==> (#[trigger] below_crits[e] is Some <==> (min_dyn_disp
                        <= e < max_dyn_disp)),
                forall|e: int|
                    0 <= e < d ==> (#[trigger] below_crits[e] matches Some(v) ==> v
                        == column_cost(frame, x + hw, y as int, e, hh)),
            decreases depth - d,
        {
            if min_dyn_disp <= d && d < max_dyn_disp {
                let cached_left: Option<CorrelationCost> = left_crits[d];
                let cached_below: Option<u128> = below_crits[d];
                let crit: CorrelationCost = self.criterion(
                    frame,
                    x,
                    y,
                    d,
                    cached_left,
                    cached_below,
                );
                left_crits[d] = Some(crit);
                below_crits[d] = Some(crit.right_column);
                crits.push(crit.total);
            } else {
                below_crits[d] = None;
            }
            d = d + 1;
        }
        proof {
            assert(cost_values(crits@) =~= candidate_costs(
                frame,
                params,
                x as int,
                y as int,
                min_dyn_disp as int,
                max_dyn_disp as int,
            ));
        }
        crits
    }

    /// Works out the disparity of every pixel of row `y` between the
    /// borders, searching from `min_dyn_disp` up to `max_dyn_disp`, and
    /// returns the smallest and the largest disparity of the row.
    fn compute_row(
        &self,
        frame: &StereoFrame,
        y: usize,
        min_dyn_disp: usize,
        max_dyn_disp: usize,
        cache: &mut CostCache,
        disp_map: &mut DisparityMap,
    ) -> (extremes: (Disparity, Disparity))
        requires
            self.spec_params().valid(),
            frame.same_sized(),
            self.spec_params().has_interior(frame),
            self.spec_params().first_row() <= y < self.spec_params().end_row(frame),
            range_contained(self.spec_params(), min_dyn_disp as int, max_dyn_disp as int),
            old(cache).shaped(
                frame.spec_width() as int,
                self.spec_params().max_disparity as int,
            ),
            old(cache).below_holds(frame, self.spec_params(), 0, y as int),
            old(disp_map).spec_width() == frame.spec_width(),
            old(disp_map).spec_height() == frame.spec_height(),
        ensures
            final(cache).shaped(
                frame.spec_width() as int,
                self.spec_params().max_disparity as int,
            ),
            final(cache).below_holds(frame, self.spec_params(), 0, y - 1),
            final(disp_map).spec_width() == frame.spec_width(),
            final(disp_map).spec_height() == frame.spec_height(),
            final(disp_map).max_disp == old(disp_map).max_disp,
            final(disp_map).min_disp == old(disp_map).min_disp,
            forall|u: int, v: int|
                final(disp_map).contains(u, v) ==> if v == y && self.spec_params().first_column(
                    max_dyn_disp as int,
                ) <= u < self.spec_params().end_column(frame) {
                    (#[trigger] final(disp_map).at(u, v)).scaled() == pixel_disparity(
                        frame,
                        self.spec_params(),
                        u,
                        v,
                        min_dyn_disp as int,
                        max_dyn_disp as int,
                    )
                } else {
                    final(disp_map).at(u, v) == old(disp_map).at(u, v)
                },
            extremes.0.scaled() == row_min(
                frame,
                self.spec_params(),
                y as int,
                min_dyn_disp as int,
                max_dyn_disp as int,
                self.spec_params().end_column(frame),
            ),
            extremes.1.scaled() == row_max(
                frame,
                self.spec_params(),
                y as int,
                min_dyn_disp as int,
                max_dyn_disp as int,
                self.spec_params().end_column(frame),
            ),
    {
        proof {
            use_type_invariant(self);
        }
        let ghost params = self.spec_params();
        let ghost hw = params.half_width();
        let ghost hh = params.half_height();
        let first: usize = self.params.correlation_window_size.0 + max_dyn_disp;
        let end: usize = frame.width() - self.params.correlation_window_size.0;
        cache.forget_before(first);
        cache.clear_left();
        let mut min_disp_this_row: Disparity = Disparity::from_whole(self.params.max_disparity);
        let mut max_disp_this_row: Disparity = Disparity::from_whole(self.params.min_disparity);
        let mut x: usize = first;
        while x < end
            invariant
                first <= x <= end,
                params == self.spec_params(),
                hw == params.half_width(),
                hh == params.half_height(),
                params.valid(),
                frame.same_sized(),
                params.first_row() <= y < params.end_row(frame),
                range_contained(params, min_dyn_disp as int, max_dyn_disp as int),
                first == params.first_column(max_dyn_disp as int),
                end == params.end_column(frame),
                cache.shaped(frame.spec_width() as int, params.max_disparity as int),
                cache.below_from == first,
                cache.below_holds(frame, params, x as int, y as int),
                present_within(cache.left@, min_dyn_disp as int, max_dyn_disp as int),
                holds_costs(cache.left@, frame, params, x - 1, y as int),
                disp_map.spec_width() == frame.spec_width(),
                disp_map.spec_height() == frame.spec_height(),
                disp_map.max_disp == old(disp_map).max_disp,
                disp_map.min_disp == old(disp_map).min_disp,
                forall|u: int, v: int|
                    disp_map.contains(u, v) ==> if v == y && first <= u < x {
                        (#[trigger] disp_map.at(u, v)).scaled() == pixel_disparity(
                            frame,
                            params,
                            u,
                            v,
                            min_dyn_disp as int,
                            max_dyn_disp as int,
                        )
                    } else {
                        disp_map.at(u, v) == old(disp_map).at(u, v)
                    },
                min_disp_this_row.scaled() == row_min(
                    frame,
                    params,
                    y as int,
                    min_dyn_disp as int,
                    max_dyn_disp as int,
                    x as int,
                ),
                max_disp_this_row.scaled() == row_max(
                    frame,
                    params,
                    y as int,
                    min_dyn_disp as int,
                    max_dyn_disp as int,
                    x as int,
                ),
            decreases end - x,
        {
            let crits: Vec<u128> = self.candidate_criteria(
                frame,
                x,
                y,
                min_dyn_disp,
                max_dyn_disp,
                &mut cache.left,
                &mut cache.below[x],
            );
            assert(crits@.len() == cost_values(crits@).len());
            let disp_val: Disparity = select_disparity(&crits, min_dyn_disp);
            disp_map.put(x, y, disp_val);
            if max_disp_this_row.less_than(&disp_val) {
                max_disp_this_row = disp_val;
            }
            if disp_val.less_than(&min_disp_this_row) {
                min_disp_this_row = disp_val;
            }
            x = x + 1;
        }
        (min_disp_this_row, max_disp_this_row)
    }
}

impl DisparityAlgorithm for McManamon {
    /// Compute the disparity map for the given frame.
    ///
    /// Rows are worked on from the bottom up and columns from left to
    /// right. Each row is searched over the interval narrowed around the
    /// disparities of the row below it.
    fn compute(&mut self, frame: &StereoFrame) -> (result: Result<DisparityMap, Error>)
        ensures
            final(self).spec_params() == old(self).spec_params(),
            result is Err <==> old(self).spec_params().rejection(frame) is Some,
            result matches Err(e) ==> old(self).spec_params().rejection(frame) == Some(e),
            result matches Ok(map) ==> {
                &&& forall|x: int, y: int|
                    map.contains(x, y) ==> (#[trigger] map.at(x, y)).scaled() == expected_disparity(
                        frame,
                        old(self).spec_params(),
                        x,
                        y,
                    )
                &&& forall|x: int, y: int|
                    map.contains(x, y) && is_computed(frame, old(self).spec_params(), x, y) ==> old(
                        self,
                    ).spec_params().min_disparity * SUBPIXEL_SCALE <= (#[trigger] map.at(
                        x,
                        y,
                    )).scaled() < old(self).spec_params().max_disparity * SUBPIXEL_SCALE
                &&& forall|x: int, y: int|
                    map.contains(x, y) && !is_computed(frame, old(self).spec_params(), x, y) ==> (
                    #[trigger] map.at(x, y)).scaled() == 0
                &&& map.min_disp matches Some(least) && least.scaled() == map_min(
                    frame,
                    old(self).spec_params(),
                    old(self).spec_params().rows(frame),
                )
                &&& map.max_disp matches Some(most) && most.scaled() == map_max(
                    frame,
                    old(self).spec_params(),
                    old(self).spec_params().rows(frame),
                )
            },
    {
        proof {
            use_type_invariant(&*self);
        }
        let ghost params = self.spec_params();
        match self.params.check_frame(frame) {
            Err(e) => {
                return Err(e);
            },
            Ok(()) => {},
        }
        proof {
            use_type_invariant(&frame.left);
            frame.left.lemma_area_fits();
        }
        let mut disp_map: DisparityMap = DisparityMap::new(frame.width(), frame.height());

        // Extremes of the whole map, each starting at the other end of the
        // configured interval so that it does not decide the result.
        let mut min_disp: Disparity = Disparity::from_whole(self.params.max_disparity);
        let mut max_disp: Disparity = Disparity::from_whole(self.params.min_disparity);

        let first_row: usize = self.params.correlation_window_size.1;
        let end_row: usize = frame.height() - self.params.correlation_window_size.1;
        let end_column: usize = frame.width() - self.params.correlation_window_size.0;
        let has_interior: bool = first_row < end_row && match
            self.params.correlation_window_size.0.checked_add(self.params.max_disparity) {
            Some(first_column) => first_column < end_column,
            None => false,
        };
        if has_interior {
            let mut range: RangeController = RangeController::new(self.params);
            let mut cache: CostCache = CostCache::new(frame.width(), self.params.max_disparity);
            let mut y: usize = end_row;
            while y > first_row
                invariant
                    first_row <= y <= end_row,
                    params == self.spec_params(),
                    params.valid(),
                    params.has_interior(frame),
                    frame.same_sized(),
                    first_row == params.first_row(),
                    end_row == params.end_row(frame),
                    range.spec_params() == params,
                    (range.spec_min_dyn_disp() as int, range.spec_max_dyn_disp() as int)
                        == search_range(frame, params, (end_row - y) as nat),
                    cache.shaped(frame.spec_width() as int, params.max_disparity as int),
                    cache.below_holds(frame, params, 0, y - 1),
                    disp_map.spec_width() == frame.spec_width(),
                    disp_map.spec_height() == frame.spec_height(),
                    forall|u: int, v: int|
                        disp_map.contains(u, v) ==> (#[trigger] disp_map.at(u, v)).scaled() == (
                        if v >= y {
                            expected_disparity(frame, params, u, v)
                        } else {
                            0
                        }),
                    min_disp.scaled() == map_min(frame, params, (end_row - y) as nat),
                    max_disp.scaled() == map_max(frame, params, (end_row - y) as nat),
                decreases y,
            {
                y = y - 1;
                proof {
                    lemma_search_range_contained(frame, params, (end_row - 1 - y) as nat);
                }
                let min_dyn_disp: usize = range.min_dyn_disp();
                let max_dyn_disp: usize = range.max_dyn_disp();
                let extremes: (Disparity, Disparity) = self.compute_row(
                    frame,
                    y,
                    min_dyn_disp,
                    max_dyn_disp,
                    &mut cache,
                    &mut disp_map,
                );
                if max_disp.less_than(&extremes.1) {
                    max_disp = extremes.1;
                }
                if extremes.0.less_than(&min_disp) {
                    min_disp = extremes.0;
                }
                range.update(extremes.0, extremes.1);
            }
        }
        let ghost swept = disp_map;
        disp_map.min_disp = Some(min_disp);
        disp_map.max_disp = Some(max_disp);
        proof {
            assert forall|x: int, y: int| disp_map.contains(x, y) implies (#[trigger] disp_map.at(
                x,
                y,
            )).scaled() == expected_disparity(frame, params, x, y) by {
                assert(disp_map.at(x, y) == swept.at(x, y));
                assert(swept.contains(x, y));
                if !has_interior || y < first_row {
                    assert(!is_computed(frame, params, x, y));
                }
            }
            assert forall|x: int, y: int|
                disp_map.contains(x, y) && is_computed(frame, params, x, y) implies
                params.min_disparity * SUBPIXEL_SCALE <= (#[trigger] disp_map.at(x, y)).scaled()
                < params.max_disparity * SUBPIXEL_SCALE by {
                lemma_output_contained(frame, params, x, y);
            }
        }
        Ok(disp_map)
    }
}

/// `|left(x, y) - right(x - d, y)|`.
fn cell_criterion(frame: &StereoFrame, x: usize, y: usize, d: usize) -> (c: u128)
    requires
        frame.same_sized(),
        d <= x < frame.spec_width(),
        y < frame.spec_height(),
    ensures
        c == cell_cost(frame, x as int, y as int, d as int),
{
    let l: u16 = frame.left.get(x, y);
    let r: u16 = frame.right.get(x - d, y);
    if l >= r {
        (l - r) as u128
    } else {
        (r - l) as u128
    }
}

/// A window that fits in an image has no more cells than the image.
proof fn lemma_area_bound(columns: int, rows: int, width: int, height: int)
    requires
        0 <= columns <= width,
        0 <= rows <= height,
    ensures
        columns * rows <= width * height,
{
    assert(columns * rows <= width * height) by (nonlinear_arith)
        requires
            0 <= columns <= width,
            0 <= rows <= height,
    ;
}

} // verus!
