//! Costs kept from the pixel to the left and from the row below, from
//! which the cost of the next window is updated instead of summed anew.

use crate::cost::{column_cost, CorrelationCost};
use crate::frame::StereoFrame;
use crate::mcmanamon::Params;
use vstd::prelude::*;

verus! {

/// Whether the entries present are among those of the candidates from `lo`
/// up to but not including `hi`.
pub open spec fn present_within<T>(entries: Seq<Option<T>>, lo: int, hi: int) -> bool {
    forall|d: int| 0 <= d < entries.len() ==> (#[trigger] entries[d]) is Some ==> lo <= d < hi
}

/// Whether the entries present are exactly those of the candidates from
/// `lo` up to but not including `hi`.
pub open spec fn present_on<T>(entries: Seq<Option<T>>, lo: int, hi: int) -> bool {
    forall|d: int| 0 <= d < entries.len() ==> ((#[trigger] entries[d]) is Some <==> lo <= d < hi)
}

/// Whether every entry present holds the costs of the window centred on
/// `(x, y)` for the candidate it is kept under.
pub open spec fn holds_costs(
    entries: Seq<Option<CorrelationCost>>,
    frame: &StereoFrame,
    params: Params,
    x: int,
    y: int,
) -> bool {
    forall|d: int|
        0 <= d < entries.len() ==> (#[trigger] entries[d] matches Some(c) ==> c.is_cost_of(
            frame,
            x,
            y,
            d,
            params.half_width(),
            params.half_height(),
        ))
}

/// Whether every entry present holds the cost of the rightmost column of
/// the window centred on `(x, y)` for the candidate it is kept under.
pub open spec fn holds_right_columns(
    entries: Seq<Option<u128>>,
    frame: &StereoFrame,
    params: Params,
    x: int,
    y: int,
) -> bool {
    forall|d: int|
        0 <= d < entries.len() ==> (#[trigger] entries[d] matches Some(v) ==> v == column_cost(
            frame,
            x + params.half_width(),
            y,
            d,
            params.half_height(),
        ))
}

/// The two caches of the sweep. An entry that is absent makes the sweep
/// sum the whole window for that pixel and candidate.
pub struct CostCache {
    /// By candidate: the costs at the pixel to the left, on the same row.
    pub left: Vec<Option<CorrelationCost>>,
    /// By column, then by candidate: the right-column cost at that column
    /// on the row below, or on this row once the column has been worked on.
    pub below: Vec<Vec<Option<u128>>>,
    /// No column before this one holds anything.
    pub below_from: usize,
}

impl CostCache {
    /// Whether the caches have an entry for each of `depth` candidates,
    /// the one from below for each of `width` columns.
    pub open spec fn shaped(&self, width: int, depth: int) -> bool {
        &&& self.left.len() == depth
        &&& self.below.len() == width
        &&& forall|x: int| 0 <= x < width ==> (#[trigger] self.below[x]).len() == depth
    }

    /// Whether nothing is kept from the pixel to the left.
    pub open spec fn left_empty(&self) -> bool {
        forall|d: int| 0 <= d < self.left.len() ==> (#[trigger] self.left[d]) is None
    }

    /// Whether each entry kept by column is the right-column cost of the
    /// window centred on that column: on row `y` for the columns before
    /// `split`, on row `y + 1` for the others; and whether only columns
    /// from `below_from` up to the last one worked on hold any.
    pub open spec fn below_holds(
        &self,
        frame: &StereoFrame,
        params: Params,
        split: int,
        y: int,
    ) -> bool {
        forall|x: int, d: int|
            0 <= x < self.below.len() && 0 <= d < self.below[x].len() ==> (
            #[trigger] self.below[x][d] matches Some(v) ==> {
                &&& self.below_from <= x < frame.spec_width() - params.correlation_window_size.0
                &&& v == column_cost(
                    frame,
                    x + params.half_width(),
                    if x < split {
                        y
                    } else {
                        y + 1
                    },
                    d,
                    params.half_height(),
                )
            })
    }

    /// Caches for `width` columns and `depth` candidates with nothing in
    /// them.
    pub fn new(width: usize, depth: usize) -> (cache: Self)
        ensures
            cache.shaped(width as int, depth as int),
            cache.below_from == 0,
            cache.left_empty(),
            forall|x: int, d: int|
                0 <= x < width && 0 <= d < depth ==> (#[trigger] cache.below[x][d]) is None,
    {
        let mut below: Vec<Vec<Option<u128>>> = Vec::new();
        let mut x: usize = 0;
        while x < width
            invariant
                x <= width,
                below.len() == x,
                forall|u: int| 0 <= u < x ==> (#[trigger] below[u]).len() == depth,
                forall|u: int, d: int|
                    0 <= u < x && 0 <= d < depth ==> (#[trigger] below[u][d]) is None,
            decreases width - x,
        {
            let column: Vec<Option<u128>> = absent(depth);
            below.push(column);
            x = x + 1;
        }
        CostCache { left: absent(depth), below, below_from: 0 }
    }

    /// Forgets what is kept from the pixel to the left.
    pub fn clear_left(&mut self)
        ensures
            final(self).left.len() == old(self).left.len(),
            final(self).left_empty(),
            final(self).below == old(self).below,
            final(self).below_from == old(self).below_from,
    {
        clear(&mut self.left);
    }

    /// Forgets what is kept by column before column `first`, so that
    /// nothing is used that the row below did not leave there.
    pub fn forget_before(&mut self, first: usize)
        requires
            forall|x: int, d: int|
                0 <= x < old(self).below.len() && x < old(self).below_from && 0 <= d < old(
                    self,
                ).below[x].len() ==> (#[trigger] old(self).below[x][d]) is None,
        ensures
            final(self).left == old(self).left,
            final(self).below_from == first,
            final(self).below.len() == old(self).below.len(),
            forall|x: int|
                0 <= x < old(self).below.len() ==> (#[trigger] final(self).below[x]).len() == old(
                    self,
                ).below[x].len(),
            forall|x: int, d: int|
                0 <= x < old(self).below.len() && 0 <= d < old(self).below[x].len() ==> (
                #[trigger] final(self).below[x][d] matches Some(v) ==> x >= first && old(
                    self,
                ).below[x][d] == Some(v)),
            forall|x: int, d: int|
                0 <= x < old(self).below.len() && 0 <= d < old(self).below[x].len() && x >= first
                    ==> (#[trigger] final(self).below[x][d]) == old(self).below[x][d],
    {
        let stop: usize = if first < self.below.len() {
            first
        } else {
            self.below.len()
        };
        let mut x: usize = if self.below_from < stop {
            self.below_from
        } else {
            stop
        };
        while x < stop
            invariant
                x <= stop <= self.below.len(),
                stop <= first,
                self.left == old(self).left,
                self.below.len() == old(self).below.len(),
                forall|u: int|
                    0 <= u < self.below.len() ==> (#[trigger] self.below[u]).len() == old(
                        self,
                    ).below[u].len(),
                forall|u: int, d: int|
                    0 <= u < x && 0 <= d < self.below[u].len() ==> (#[trigger] self.below[u][d])
                        is None,
                forall|u: int| x <= u < self.below.len() ==> (#[trigger] self.below[u]) == old(
                    self,
                ).below[u],
            decreases stop - x,
        {
            clear(&mut self.below[x]);
            x = x + 1;
        }
        self.below_from = first;
    }
}

/// `n` cache entries, all absent.
pub fn absent<T>(n: usize) -> (cache: Vec<Option<T>>)
    ensures
        cache.len() == n,
        forall|d: int| 0 <= d < n ==> (#[trigger] cache[d]) is None,
{
    let mut cache: Vec<Option<T>> = Vec::new();
    let mut d: usize = 0;
    while d < n
        invariant
            d <= n,
            cache.len() == d,
            forall|e: int| 0 <= e < d ==> (#[trigger] cache[e]) is None,
        decreases n - d,
    {
        cache.push(None);
        d = d + 1;
    }
    cache
}

/// Marks every entry absent.
pub fn clear<T>(cache: &mut Vec<Option<T>>)
    ensures
        final(cache).len() == old(cache).len(),
        forall|d: int| 0 <= d < final(cache).len() ==> (#[trigger] final(cache)[d]) is None,
{
    let mut d: usize = 0;
    while d < cache.len()
        invariant
            d <= cache.len(),
            cache.len() == old(cache).len(),
            forall|e: int| 0 <= e < d ==> (#[trigger] cache[e]) is None,
        decreases cache.len() - d,
    {
        cache[d] = None;
        d = d + 1;
    }
}

} // verus!
