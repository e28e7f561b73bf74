//! A rectangular, row-major grid of cells addressed by `(x, y)`.

use vstd::prelude::*;

verus! {

/// A `width` by `height` grid of cells stored row by row.
pub struct Grid<T> {
    width: usize,
    height: usize,
    cells: Vec<T>,
}

/// The offset of cell `(x, y)` stays inside a `width * height` store.
proof fn lemma_cell_offset_in_bounds(x: int, y: int, width: int, height: int)
    requires
        0 <= x < width,
        0 <= y < height,
    ensures
        0 <= y * width + x < width * height,
        y * width <= (height - 1) * width,
{
    assert(y * width <= (height - 1) * width) by (nonlinear_arith)
        requires
            0 <= y <= height - 1,
            0 <= width,
    ;
    assert((height - 1) * width + width == width * height) by (nonlinear_arith);
    assert(0 <= y * width) by (nonlinear_arith)
        requires
            0 <= y,
            0 <= width,
    ;
}

/// Two in-range cells share an offset only when they are the same cell.
proof fn lemma_cell_offset_injective(x1: int, y1: int, x2: int, y2: int, width: int)
    requires
        0 <= x1 < width,
        0 <= x2 < width,
        0 <= y1,
        0 <= y2,
        y1 * width + x1 == y2 * width + x2,
    ensures
        x1 == x2,
        y1 == y2,
{
    if y1 < y2 {
        assert((y2 - y1) * width >= width) by (nonlinear_arith)
            requires
                y2 - y1 >= 1,
                width >= 0,
        ;
        assert((y2 - y1) * width == y2 * width - y1 * width) by (nonlinear_arith);
    } else if y2 < y1 {
        assert((y1 - y2) * width >= width) by (nonlinear_arith)
            requires
                y1 - y2 >= 1,
                width >= 0,
        ;
        assert((y1 - y2) * width == y1 * width - y2 * width) by (nonlinear_arith);
    }
}

impl<T> Grid<T> {
    /// Whether the grid holds one cell for each pair of a column and a row.
    /// Every grid does.
    #[verifier::type_invariant]
    pub closed spec fn well_formed(self) -> bool {
        &&& self.cells@.len() == self.width as int * self.height as int
        &&& self.cells@.len() <= usize::MAX
    }

    /// The number of cells of a grid fits a `usize`.
    pub proof fn lemma_area_fits(self)
        requires
            self.well_formed(),
        ensures
            self.spec_width() * self.spec_height() <= usize::MAX,
    {
    }

    /// Number of columns.
    pub closed spec fn spec_width(&self) -> usize {
        self.width
    }

    /// Number of rows.
    pub closed spec fn spec_height(&self) -> usize {
        self.height
    }

    /// The cell in column `x` of row `y`.
    pub closed spec fn at(&self, x: int, y: int) -> T {
        self.cells@[y * self.width as int + x]
    }

    /// Whether `(x, y)` addresses a cell of the grid.
    pub open spec fn contains(&self, x: int, y: int) -> bool {
        0 <= x < self.spec_width() && 0 <= y < self.spec_height()
    }

    /// Number of columns.
    #[verifier::when_used_as_spec(spec_width)]
    pub fn width(&self) -> (w: usize)
        ensures
            w == self.spec_width(),
    {
        self.width
    }

    /// Number of rows.
    #[verifier::when_used_as_spec(spec_height)]
    pub fn height(&self) -> (h: usize)
        ensures
            h == self.spec_height(),
    {
        self.height
    }

    /// Number of cells; the product of the two dimensions always fits.
    pub fn area(&self) -> (n: usize)
        ensures
            n == self.spec_width() * self.spec_height(),
    {
        proof {
            use_type_invariant(self);
        }
        self.cells.len()
    }
}

impl<T: Copy> Grid<T> {
    /// A grid with every cell set to `fill`.
    pub fn new(width: usize, height: usize, fill: T) -> (g: Self)
        requires
            width * height <= usize::MAX,
        ensures
            g.spec_width() == width,
            g.spec_height() == height,
            forall|x: int, y: int| g.contains(x, y) ==> g.at(x, y) == fill,
    {
        let total: usize = width * height;
        let mut cells: Vec<T> = Vec::with_capacity(total);
        let mut i: usize = 0;
        while i < total
            invariant
                i <= total,
                cells@.len() == i,
                forall|k: int| 0 <= k < i ==> cells@[k] == fill,
            decreases total - i,
        {
            cells.push(fill);
            i = i + 1;
        }
        let g = Grid { width, height, cells };
        proof {
            assert forall|x: int, y: int| g.contains(x, y) implies g.at(x, y) == fill by {
                lemma_cell_offset_in_bounds(x, y, width as int, height as int);
            }
        }
        g
    }

    /// A grid over `cells` read row by row, or `None` unless there are exactly
    /// `width * height` of them.
    pub fn from_vec(width: usize, height: usize, cells: Vec<T>) -> (r: Option<Self>)
        ensures
            r is Some <==> cells@.len() == width * height,
            r matches Some(g) ==> {
                &&& g.spec_width() == width
                &&& g.spec_height() == height
                &&& forall|x: int, y: int|
                    g.contains(x, y) ==> g.at(x, y) == cells@[y * width + x]
            },
    {
        assert(cells@.len() == cells.len());
        match width.checked_mul(height) {
            Some(total) => {
                if cells.len() == total {
                    Some(Grid { width, height, cells })
                } else {
                    None
                }
            },
            None => None,
        }
    }

    /// Reads the cell in column `x` of row `y`.
    pub fn get(&self, x: usize, y: usize) -> (v: T)
        requires
            self.contains(x as int, y as int),
        ensures
            v == self.at(x as int, y as int),
    {
        proof {
            use_type_invariant(self);
            assert(self.cells@.len() == self.cells.len());
            lemma_cell_offset_in_bounds(x as int, y as int, self.width as int, self.height as int);
        }
        self.cells[y * self.width + x]
    }

    /// Overwrites the cell in column `x` of row `y` and leaves the rest alone.
    pub fn put(&mut self, x: usize, y: usize, val: T)
        requires
            old(self).contains(x as int, y as int),
        ensures
            final(self).spec_width() == old(self).spec_width(),
            final(self).spec_height() == old(self).spec_height(),
            final(self).at(x as int, y as int) == val,
            forall|u: int, v: int|
                old(self).contains(u, v) && !(u == x && v == y) ==> final(self).at(u, v) == old(
                    self,
                ).at(u, v),
    {
        proof {
            use_type_invariant(&*self);
            assert(self.cells@.len() == self.cells.len());
            lemma_cell_offset_in_bounds(x as int, y as int, self.width as int, self.height as int);
        }
        let offset: usize = y * self.width + x;
        self.cells[offset] = val;
        proof {
            assert forall|u: int, v: int|
                old(self).contains(u, v) && !(u == x && v == y) implies self.at(u, v) == old(
                self,
            ).at(u, v) by {
                lemma_cell_offset_in_bounds(u, v, self.width as int, self.height as int);
                if v * self.width as int + u == offset as int {
                    lemma_cell_offset_injective(u, v, x as int, y as int, self.width as int);
                }
            }
        }
    }
}

} // verus!
