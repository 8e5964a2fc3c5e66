//! Rectangular cell layouts: the shape of a tile and the layout of a board.
use vstd::prelude::*;

verus! {

/// A rectangular grid of cells of which some are filled.
///
/// `cells[x][y]` tells whether the cell in column `x` and row `y` is filled.
/// A tile shape and a board layout are both given as such a grid.
#[derive(Debug)]
pub struct Shape {
    pub width: usize,
    pub height: usize,
    pub cells: Vec<Vec<bool>>,
}

impl Shape {
    /// The grid is rectangular and its dimensions are small enough to be
    /// used as cell offsets.
    pub open spec fn wf(&self) -> bool {
        &&& self.cells@.len() == self.width
        &&& forall|x: int| 0 <= x < self.width ==> #[trigger] self.cells@[x]@.len() == self.height
        &&& self.width <= i32::MAX
        &&& self.height <= i32::MAX
    }

    /// Whether the cell at `(x, y)` lies inside the grid and is filled.
    pub open spec fn filled(&self, x: int, y: int) -> bool {
        &&& 0 <= x < self.width
        &&& 0 <= y < self.height
        &&& self.cells@[x]@[y]
    }

    /// Creates a grid of the given size in which no cell is filled.
    pub fn new(width: usize, height: usize) -> (s: Shape)
        requires
            width <= i32::MAX,
            height <= i32::MAX,
        ensures
            s.wf(),
            s.width == width,
            s.height == height,
            forall|x: int, y: int| !s.filled(x, y),
    {
        let mut cells: Vec<Vec<bool>> = Vec::new();
        let mut x: usize = 0;
        while x < width
            invariant
                x <= width,
                cells@.len() == x,
                forall|i: int| 0 <= i < x ==> #[trigger] cells@[i]@.len() == height,
                forall|i: int, j: int| 0 <= i < x && 0 <= j < height ==> !cells@[i]@[j],
            decreases width - x,
        {
            let mut column: Vec<bool> = Vec::new();
            let mut y: usize = 0;
            while y < height
                invariant
                    y <= height,
                    column@.len() == y,
                    forall|j: int| 0 <= j < y ==> !column@[j],
                decreases height - y,
            {
                column.push(false);
                y = y + 1;
            }
            cells.push(column);
            x = x + 1;
        }
        Shape { width, height, cells }
    }

    /// Fills or clears the cell at `(x, y)`.
    pub fn set(&mut self, x: usize, y: usize, value: bool)
        requires
            old(self).wf(),
            x < old(self).width,
            y < old(self).height,
        ensures
            final(self).wf(),
            final(self).width == old(self).width,
            final(self).height == old(self).height,
            final(self).filled(x as int, y as int) == value,
            forall|i: int, j: int|
                (i, j) != (x as int, y as int) ==> final(self).filled(i, j) == old(self).filled(i, j),
    {
        self.cells[x][y] = value;
    }

    /// The width and the height of the grid.
    pub fn dim(&self) -> (r: (usize, usize))
        ensures
            r == (self.width, self.height),
    {
        (self.width, self.height)
    }

    /// Whether the cell at `(x, y)` is filled; `false` outside of the grid.
    pub fn get(&self, x: usize, y: usize) -> (r: bool)
        requires
            self.wf(),
        ensures
            r == self.filled(x as int, y as int),
    {
        if x < self.width && y < self.height {
            self.cells[x][y]
        } else {
            false
        }
    }

    /// Two grids have the same size and the same filled cells.
    pub open spec fn same_as(&self, other: &Shape) -> bool {
        &&& self.width == other.width
        &&& self.height == other.height
        &&& forall|x: int, y: int| self.filled(x, y) == other.filled(x, y)
    }

    /// A copy of the grid.
    pub fn duplicate(&self) -> (r: Shape)
        requires
            self.wf(),
        ensures
            r.wf(),
            r.same_as(self),
    {
        let mut cells: Vec<Vec<bool>> = Vec::new();
        let mut x: usize = 0;
        while x < self.width
            invariant
                self.wf(),
                x <= self.width,
                cells@.len() == x,
                forall|i: int| 0 <= i < x ==> #[trigger] cells@[i]@ == self.cells@[i]@,
            decreases self.width - x,
        {
            let mut column: Vec<bool> = Vec::new();
            let mut y: usize = 0;
            while y < self.height
                invariant
                    self.wf(),
                    x < self.width,
                    y <= self.height,
                    column@ == self.cells@[x as int]@.subrange(0, y as int),
                decreases self.height - y,
            {
                column.push(self.cells[x][y]);
                y = y + 1;
                assert(column@ =~= self.cells@[x as int]@.subrange(0, y as int));
            }
            assert(column@ =~= self.cells@[x as int]@);
            cells.push(column);
            x = x + 1;
        }
        Shape { width: self.width, height: self.height, cells }
    }

    /// Whether two grids have the same size and the same filled cells.
    pub fn equals(&self, other: &Shape) -> (r: bool)
        requires
            self.wf(),
            other.wf(),
        ensures
            r == self.same_as(other),
    {
        if self.width != other.width || self.height != other.height {
            return false;
        }
        let mut x: usize = 0;
        while x < self.width
            invariant
                self.wf(),
                other.wf(),
                self.width == other.width,
                self.height == other.height,
                x <= self.width,
                forall|i: int, j: int| 0 <= i < x ==> self.filled(i, j) == other.filled(i, j),
            decreases self.width - x,
        {
            let mut y: usize = 0;
            while y < self.height
                invariant
                    self.wf(),
                    other.wf(),
                    self.width == other.width,
                    self.height == other.height,
                    x < self.width,
                    y <= self.height,
                    forall|i: int, j: int| 0 <= i < x ==> self.filled(i, j) == other.filled(i, j),
                    forall|j: int| 0 <= j < y ==> self.filled(x as int, j) == other.filled(x as int, j),
                decreases self.height - y,
            {
                if self.cells[x][y] != other.cells[x][y] {
                    assert(self.filled(x as int, y as int) != other.filled(x as int, y as int));
                    return false;
                }
                y = y + 1;
            }
            x = x + 1;
        }
        true
    }
}

} // verus!
