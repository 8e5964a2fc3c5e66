//! The state of a puzzle: which tiles cover which cells of the board.
use vstd::prelude::*;
use crate::extension::{PuzzleTypeExtension, Target};
use crate::offset::CellOffset;
use crate::shape::Shape;

verus! {

/// Data associated with a cell in the puzzle grid.
#[derive(Debug, Clone, Copy, PartialEq, Eq, Structural)]
pub struct CellData {
    /// Whether the cell is part of the playable board area.
    pub is_on_board: bool,
    /// Whether placing a tile in this cell is allowed.
    pub allowed: bool,
}

/// The presence of a cell of a tile in the puzzle grid.
///
/// `tile_id` identifies the tile, `cell_position` is the position of the cell
/// inside the tile.
#[derive(Debug, Clone, Copy, PartialEq, Eq, Structural)]
pub struct TileCellPlacement {
    pub tile_id: usize,
    pub cell_position: CellOffset,
}

/// A cell in the puzzle grid: empty, covered by one tile cell, or covered by several.
///
/// A cell is not always part of the playable board area: the grid has a border of
/// one cell around the board that marks the out-of-bounds zone.
#[derive(Debug)]
pub enum Cell {
    Empty(CellData),
    One(CellData, TileCellPlacement),
    Many(CellData, Vec<TileCellPlacement>),
}

/// A tile that has no cell on the playable board area.
#[derive(Debug)]
pub struct UnusedTile {
    /// Identifies the tile when several tiles are identical.
    pub id: usize,
    pub base: Shape,
    pub name: Option<String>,
}

/// The current state of the puzzle.
///
/// `grid[x][y]` describes the grid cell at `(x, y)`; the board cell `(x, y)` is
/// the grid cell `(x + 1, y + 1)`. `unused_tiles` lists, by increasing id, the
/// tiles that do not cover any board cell.
#[derive(Debug)]
pub struct PuzzleState {
    pub grid: Vec<Vec<Cell>>,
    pub unused_tiles: Vec<UnusedTile>,
}

impl Cell {
    /// The data of the cell, whatever covers it.
    pub open spec fn data(&self) -> CellData {
        match self {
            Cell::Empty(d) => *d,
            Cell::One(d, _) => *d,
            Cell::Many(d, _) => *d,
        }
    }

    /// The tile cells covering this cell, in the order they were placed.
    pub open spec fn placements(&self) -> Seq<TileCellPlacement> {
        match self {
            Cell::Empty(_) => seq![],
            Cell::One(_, p) => seq![*p],
            Cell::Many(_, ps) => ps@,
        }
    }

    /// The cell has the given data and exactly the given coverings, and its
    /// variant matches their number.
    pub open spec fn holds(&self, d: CellData, ps: Seq<TileCellPlacement>) -> bool {
        &&& self.data() == d
        &&& self.placements() == ps
        &&& (self is Empty <==> ps.len() == 0)
        &&& (self is One <==> ps.len() == 1)
        &&& (self is Many <==> ps.len() >= 2)
    }


    /// The variant of the cell matches the number of tile cells covering it.
    pub open spec fn consistent(&self) -> bool {
        self.holds(self.data(), self.placements())
    }

    /// The data of the cell.
    pub fn cell_data(&self) -> (r: CellData)
        ensures
            r == self.data(),
    {
        match self {
            Cell::Empty(d) => *d,
            Cell::One(d, _) => *d,
            Cell::Many(d, _) => *d,
        }
    }

    /// Adds one more covering tile cell: an empty cell gets one, a cell with one
    /// gets many.
    pub fn add_placement(self, p: TileCellPlacement) -> (r: Cell)
        ensures
            r.data() == self.data(),
            r.placements() == self.placements().push(p),
            r is One <==> self is Empty,
            r is Many <==> !(self is Empty),
    {
        match self {
            Cell::Empty(data) => Cell::One(data, p),
            Cell::One(data, existing) => {
                let v = vec![existing, p];
                assert(v@ =~= seq![existing].push(p));
                Cell::Many(data, v)
            },
            Cell::Many(data, mut ps) => {
                ps.push(p);
                Cell::Many(data, ps)
            },
        }
    }
}

/// Whether the board cell `(x, y)` is filled in the layout.
pub open spec fn on_board(layout: &Shape, x: int, y: int) -> bool {
    layout.filled(x, y)
}

/// Whether the board cell `(x, y)` belongs to the selected target.
pub open spec fn is_target_cell(extension: &Option<PuzzleTypeExtension>, x: int, y: int) -> bool {
    match extension {
        Some(PuzzleTypeExtension::Area { target: Some(t) }) => exists|k: int|
            0 <= k < t.indices@.len() && (#[trigger] t.indices@[k]).0 == x && t.indices@[k].1 == y,
        _ => false,
    }
}

/// The data of the grid cell `(gx, gy)` before any tile is placed.
///
/// The cells of the layout are on the board, and allowed unless they are target cells,
/// which must stay uncovered; every other cell of the grid is a border cell, neither on
/// the board nor allowed.
pub open spec fn initial_cell_data(
    layout: &Shape,
    extension: &Option<PuzzleTypeExtension>,
    gx: int,
    gy: int,
) -> CellData {
    if on_board(layout, gx - 1, gy - 1) {
        CellData { is_on_board: true, allowed: !is_target_cell(extension, gx - 1, gy - 1) }
    } else {
        CellData { is_on_board: false, allowed: false }
    }
}

/// The target indices of an extension are small enough to be shifted into the grid.
pub open spec fn extension_fits(extension: &Option<PuzzleTypeExtension>) -> bool {
    match extension {
        Some(PuzzleTypeExtension::Area { target: Some(t) }) => forall|k: int|
            0 <= k < t.indices@.len() ==> #[trigger] t.indices@[k].0 < usize::MAX
                && t.indices@[k].1 < usize::MAX,
        _ => true,
    }
}

impl PuzzleState {
    /// The grid has `width` columns of `height` cells each.
    pub open spec fn has_dims(&self, width: int, height: int) -> bool {
        &&& self.grid@.len() == width
        &&& forall|x: int| 0 <= x < width ==> #[trigger] self.grid@[x]@.len() == height
    }

    /// The cell of the grid at `(x, y)`.
    pub open spec fn cell(&self, x: int, y: int) -> Cell {
        self.grid@[x]@[y]
    }

    /// Creates the state of an empty board: the grid is the board with a border of one
    /// cell, no cell is covered and no tile is listed as unused.
    pub fn new(layout: &Shape, extension: &Option<PuzzleTypeExtension>) -> (s: PuzzleState)
        requires
            layout.wf(),
            extension_fits(extension),
        ensures
            s.has_dims(layout.width + 2, layout.height + 2),
            s.unused_tiles@.len() == 0,
            forall|x: int, y: int|
                0 <= x < layout.width + 2 && 0 <= y < layout.height + 2 ==> (#[trigger] s.cell(x, y)).holds(
                    initial_cell_data(layout, extension, x, y),
                    seq![],
                ),
            is_initial_state(s, layout, extension),
    {
        let width = layout.width + 2;
        let height = layout.height + 2;
        let mut grid: Vec<Vec<Cell>> = Vec::new();
        let mut x: usize = 0;
        while x < width
            invariant
                layout.wf(),
                width == layout.width + 2,
                height == layout.height + 2,
                x <= width,
                grid@.len() == x,
                forall|i: int| 0 <= i < x ==> #[trigger] grid@[i]@.len() == height,
                forall|i: int, j: int|
                    0 <= i < x && 0 <= j < height ==> (#[trigger] grid@[i]@[j]).holds(
                        initial_cell_data(layout, &None, i, j),
                        seq![],
                    ),
            decreases width - x,
        {
            let mut column: Vec<Cell> = Vec::new();
            let mut y: usize = 0;
            while y < height
                invariant
                    layout.wf(),
                    width == layout.width + 2,
                    height == layout.height + 2,
                    x < width,
                    y <= height,
                    column@.len() == y,
                    forall|j: int|
                        0 <= j < y ==> (#[trigger] column@[j]).holds(
                            initial_cell_data(layout, &None, x as int, j),
                            seq![],
                        ),
                decreases height - y,
            {
                let on = grid_on_board(layout, x, y);
                column.push(Cell::Empty(CellData { is_on_board: on, allowed: on }));
                y = y + 1;
            }
            grid.push(column);
            x = x + 1;
        }
        let mut state = PuzzleState { grid, unused_tiles: Vec::new() };
        state.handle_extension(layout, extension);
        state
    }

    /// Marks the board cells that are target cells of an area extension as not allowed.
    fn handle_extension(&mut self, layout: &Shape, extension: &Option<PuzzleTypeExtension>)
        requires
            layout.wf(),
            extension_fits(extension),
            old(self).has_dims(layout.width + 2, layout.height + 2),
            forall|x: int, y: int|
                0 <= x < layout.width + 2 && 0 <= y < layout.height + 2 ==> (#[trigger] old(self).cell(x, y)).holds(
                    initial_cell_data(layout, &None, x, y),
                    seq![],
                ),
        ensures
            final(self).has_dims(layout.width + 2, layout.height + 2),
            final(self).unused_tiles == old(self).unused_tiles,
            forall|x: int, y: int|
                0 <= x < layout.width + 2 && 0 <= y < layout.height + 2 ==> (#[trigger] final(self).cell(x, y)).holds(
                    initial_cell_data(layout, extension, x, y),
                    seq![],
                ),
    {
        if let Some(PuzzleTypeExtension::Area { target: Some(target) }) = extension {
            let width = layout.width + 2;
            let height = layout.height + 2;
            let mut k: usize = 0;
            assert(forall|j: int| 0 <= j < target.indices@.len() ==> #[trigger] target.indices@[j].0 < usize::MAX
                && target.indices@[j].1 < usize::MAX);
            while k < target.indices.len()
                invariant
                    forall|j: int| 0 <= j < target.indices@.len() ==> #[trigger] target.indices@[j].0 < usize::MAX
                        && target.indices@[j].1 < usize::MAX,
                    layout.wf(),
                    extension_fits(extension),
                    *extension == Some(PuzzleTypeExtension::Area { target: Some(*target) }),
                    width == layout.width + 2,
                    height == layout.height + 2,
                    k <= target.indices@.len(),
                    self.has_dims(width as int, height as int),
                    self.unused_tiles == old(self).unused_tiles,
                    forall|x: int, y: int|
                        0 <= x < width && 0 <= y < height ==> (#[trigger] self.cell(x, y)).holds(
                            if on_board(layout, x - 1, y - 1) && (exists|j: int| 0 <= j < k && (#[trigger] target.indices@[j]).0 == x - 1 && target.indices@[j].1 == y - 1) {
                                CellData { is_on_board: true, allowed: false }
                            } else {
                                initial_cell_data(layout, &None, x, y)
                            },
                            seq![],
                        ),
                decreases target.indices@.len() - k,
            {
                let index = target.indices[k];
                assert(target.indices@[k as int] == index);
                let tx = index.0 + 1;
                let ty = index.1 + 1;
                let ghost prev = *self;
                if tx < width && ty < height && grid_on_board(layout, tx, ty) {
                    self.grid[tx][ty] = Cell::Empty(CellData { is_on_board: true, allowed: false });
                }
                assert forall|x: int, y: int|
                    0 <= x < width && 0 <= y < height implies (#[trigger] self.cell(x, y)).holds(
                        if on_board(layout, x - 1, y - 1) && (exists|j: int| 0 <= j < k + 1 && (#[trigger] target.indices@[j]).0 == x - 1 && target.indices@[j].1 == y - 1) {
                            CellData { is_on_board: true, allowed: false }
                        } else {
                            initial_cell_data(layout, &None, x, y)
                        },
                        seq![],
                    ) by {
                    if x == tx && y == ty && on_board(layout, x - 1, y - 1) {
                        assert(target.indices@[k as int].0 == x - 1 && target.indices@[k as int].1 == y - 1);
                    } else {
                        assert(self.cell(x, y) == prev.cell(x, y));
                        if on_board(layout, x - 1, y - 1) && exists|j: int| 0 <= j < k + 1 && (#[trigger] target.indices@[j]).0 == x - 1 && target.indices@[j].1 == y - 1 {
                            let j = choose|j: int| 0 <= j < k + 1 && (#[trigger] target.indices@[j]).0 == x - 1 && target.indices@[j].1 == y - 1;
                            assert(j < k);
                        }
                    }
                }
                k = k + 1;
            }
        }
    }
}

/// Whether the grid cell `(gx, gy)` shows a board cell.
fn grid_on_board(layout: &Shape, gx: usize, gy: usize) -> (r: bool)
    requires
        layout.wf(),
    ensures
        r == on_board(layout, gx - 1, gy - 1),
{
    if gx >= 1 && gy >= 1 {
        layout.get(gx - 1, gy - 1)
    } else {
        false
    }
}

/// The state of an empty board as `PuzzleState::new` builds it.
pub open spec fn is_initial_state(s: PuzzleState, layout: &Shape, extension: &Option<PuzzleTypeExtension>) -> bool {
    &&& s.has_dims(layout.width + 2, layout.height + 2)
    &&& s.unused_tiles@.len() == 0
    &&& forall|x: int, y: int|
        0 <= x < layout.width + 2 && 0 <= y < layout.height + 2 ==> (#[trigger] s.cell(x, y)).holds(
            initial_cell_data(layout, extension, x, y),
            seq![],
        )
}

/// On an empty board every index of the selected target that lies on the board blocks
/// its grid cell: the cell stays on the board, but no tile may be placed on it.
pub proof fn law_target_cells_are_blocked(s: PuzzleState, layout: &Shape, extension: &Option<PuzzleTypeExtension>, t: Target, k: int)
    requires
        is_initial_state(s, layout, extension),
        *extension == Some(PuzzleTypeExtension::Area { target: Some(t) }),
        0 <= k < t.indices@.len(),
        layout.filled(t.indices@[k].0 as int, t.indices@[k].1 as int),
    ensures
        s.cell(t.indices@[k].0 + 1, t.indices@[k].1 + 1).data() == (CellData { is_on_board: true, allowed: false }),
        s.cell(t.indices@[k].0 + 1, t.indices@[k].1 + 1) is Empty,
{
    let x = t.indices@[k].0 + 1;
    let y = t.indices@[k].1 + 1;
    assert(s.cell(x, y).holds(initial_cell_data(layout, extension, x, y), seq![]));
    match extension {
        Some(PuzzleTypeExtension::Area { target: Some(u) }) => {
            assert(u == t);
            assert(u.indices@[k].0 == x - 1 && u.indices@[k].1 == y - 1);
        },
        _ => {},
    }
    assert(is_target_cell(extension, x - 1, y - 1));
}

/// On an empty board every other cell of the board is open, and every grid cell outside
/// the board (the border around it and the holes of the layout) is blocked and off the
/// board.
pub proof fn law_other_cells_of_initial_state(s: PuzzleState, layout: &Shape, extension: &Option<PuzzleTypeExtension>, gx: int, gy: int)
    requires
        is_initial_state(s, layout, extension),
        0 <= gx < layout.width + 2,
        0 <= gy < layout.height + 2,
        forall|t: Target, k: int| *extension == Some(PuzzleTypeExtension::Area { target: Some(t) }) && 0 <= k < t.indices@.len()
            ==> !((#[trigger] t.indices@[k]).0 + 1 == gx && t.indices@[k].1 + 1 == gy),
    ensures
        layout.filled(gx - 1, gy - 1) ==> s.cell(gx, gy).data() == (CellData { is_on_board: true, allowed: true }),
        !layout.filled(gx - 1, gy - 1) ==> s.cell(gx, gy).data() == (CellData { is_on_board: false, allowed: false }),
        s.cell(gx, gy) is Empty,
{
    assert(s.cell(gx, gy).holds(initial_cell_data(layout, extension, gx, gy), seq![]));
    if let Some(PuzzleTypeExtension::Area { target: Some(t) }) = extension {
        if is_target_cell(extension, gx - 1, gy - 1) {
            let k = choose|k: int| 0 <= k < t.indices@.len() && (#[trigger] t.indices@[k]).0 == gx - 1 && t.indices@[k].1 == gy - 1;
            assert(false);
        }
    }
}

} // verus!
