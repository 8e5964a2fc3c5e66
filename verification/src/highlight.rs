//! Highlighting the tile cells that overlap or lie outside of the allowed area.
use vstd::prelude::*;
use crate::offset::CellOffset;
use crate::puzzle_state::{Cell, PuzzleState, TileCellPlacement};

verus! {

/// How a cell of a tile is drawn.
#[derive(Debug, Clone, Copy, PartialEq, Eq, Structural)]
pub enum DrawingMode {
    Normal,
    /// The cell lies on a grid cell that other tile cells cover too.
    Overlapping,
    /// The cell lies on a grid cell where no tile may be placed.
    OutOfBounds,
}

/// A drawing mode to set for one cell of one tile.
#[derive(Debug, Clone, Copy, PartialEq, Eq, Structural)]
pub struct TileHighlight {
    pub tile_id: usize,
    pub cell_position: CellOffset,
    pub mode: DrawingMode,
}

/// The highlight of a covering with the given mode.
pub open spec fn highlight_of(p: TileCellPlacement, mode: DrawingMode) -> TileHighlight {
    TileHighlight { tile_id: p.tile_id, cell_position: p.cell_position, mode }
}

/// The highlights a grid cell asks for: a single tile cell on a cell where tiles are
/// not allowed is out of bounds, several tile cells on one cell overlap.
pub open spec fn cell_highlights(c: Cell) -> Seq<TileHighlight> {
    match c {
        Cell::One(d, p) => if !d.allowed { seq![highlight_of(p, DrawingMode::OutOfBounds)] } else { seq![] },
        Cell::Many(_, ps) => ps@.map_values(|p: TileCellPlacement| highlight_of(p, DrawingMode::Overlapping)),
        Cell::Empty(_) => seq![],
    }
}

/// The highlights of the first `y` cells of a column.
pub open spec fn column_highlights(column: Seq<Cell>, y: int) -> Seq<TileHighlight>
    decreases y,
{
    if y <= 0 { seq![] } else { column_highlights(column, y - 1) + cell_highlights(column[y - 1]) }
}

/// The highlights of the first `x` columns of the grid, column by column.
pub open spec fn grid_highlights(grid: Seq<Vec<Cell>>, x: int) -> Seq<TileHighlight>
    decreases x,
{
    if x <= 0 {
        seq![]
    } else {
        grid_highlights(grid, x - 1) + column_highlights(grid[x - 1]@, grid[x - 1]@.len() as int)
    }
}

/// Appends the highlights of one grid cell.
fn push_cell_highlights(out: &mut Vec<TileHighlight>, c: &Cell)
    ensures
        final(out)@ == old(out)@ + cell_highlights(*c),
{
    match c {
        Cell::One(d, p) => {
            if !d.allowed {
                out.push(TileHighlight { tile_id: p.tile_id, cell_position: p.cell_position, mode: DrawingMode::OutOfBounds });
            }
        },
        Cell::Many(_, ps) => {
            let ghost start = out@;
            let mut k: usize = 0;
            while k < ps.len()
                invariant
                    k <= ps@.len(),
                    out@ == start + ps@.subrange(0, k as int).map_values(
                        |p: TileCellPlacement| highlight_of(p, DrawingMode::Overlapping),
                    ),
                decreases ps@.len() - k,
            {
                let p = ps[k];
                out.push(TileHighlight { tile_id: p.tile_id, cell_position: p.cell_position, mode: DrawingMode::Overlapping });
                k = k + 1;
                assert(ps@.subrange(0, k as int) =~= ps@.subrange(0, k - 1).push(p));
                assert(ps@.subrange(0, k as int).map_values(|p: TileCellPlacement| highlight_of(p, DrawingMode::Overlapping))
                    =~= ps@.subrange(0, k - 1).map_values(|p: TileCellPlacement| highlight_of(p, DrawingMode::Overlapping)).push(
                        highlight_of(p, DrawingMode::Overlapping)));
            }
            assert(ps@.subrange(0, k as int) =~= ps@);
        },
        Cell::Empty(_) => {},
    }
}

/// Lists the tile cells to highlight, walking the grid column by column.
///
/// A tile cell alone on a grid cell where tiles are not allowed is out of bounds;
/// tile cells sharing a grid cell overlap.
pub fn highlight_invalid_tile_parts(puzzle_state: &PuzzleState) -> (r: Vec<TileHighlight>)
    ensures
        r@ == grid_highlights(puzzle_state.grid@, puzzle_state.grid@.len() as int),
{
    let mut out: Vec<TileHighlight> = Vec::new();
    let mut x: usize = 0;
    while x < puzzle_state.grid.len()
        invariant
            x <= puzzle_state.grid@.len(),
            out@ == grid_highlights(puzzle_state.grid@, x as int),
        decreases puzzle_state.grid@.len() - x,
    {
        let column = &puzzle_state.grid[x];
        let mut y: usize = 0;
        while y < column.len()
            invariant
                x < puzzle_state.grid@.len(),
                column == &puzzle_state.grid@[x as int],
                y <= column@.len(),
                out@ == grid_highlights(puzzle_state.grid@, x as int) + column_highlights(column@, y as int),
            decreases column@.len() - y,
        {
            push_cell_highlights(&mut out, &column[y]);
            y = y + 1;
            assert(out@ =~= grid_highlights(puzzle_state.grid@, x as int) + column_highlights(column@, y as int));
        }
        x = x + 1;
    }
    out
}

/// Every highlight a cell asks for is among the highlights of the first `n` cells of
/// its column, for a cell among them.
proof fn lemma_column_has_cell(column: Seq<Cell>, n: int, y: int, j: int)
    requires
        0 <= y < n <= column.len(),
        0 <= j < cell_highlights(column[y]).len(),
    ensures
        column_highlights(column, n).contains(cell_highlights(column[y])[j]),
    decreases n,
{
    let prev = column_highlights(column, n - 1);
    let cur = column_highlights(column, n);
    if y == n - 1 {
        assert(cur[prev.len() + j] == cell_highlights(column[y])[j]);
    } else {
        lemma_column_has_cell(column, n - 1, y, j);
        let k = choose|k: int| 0 <= k < prev.len() && prev[k] == cell_highlights(column[y])[j];
        assert(cur[k] == prev[k]);
    }
}

/// Every highlight among those of the first `n` cells of a column is one that some of
/// these cells asks for.
proof fn lemma_column_sources(column: Seq<Cell>, n: int, k: int)
    requires
        0 <= n <= column.len(),
        0 <= k < column_highlights(column, n).len(),
    ensures
        exists|y: int, j: int| 0 <= y < n && 0 <= j < cell_highlights(column[y]).len()
            && column_highlights(column, n)[k] == #[trigger] cell_highlights(column[y])[j],
    decreases n,
{
    let prev = column_highlights(column, n - 1);
    let cur = column_highlights(column, n);
    if k < prev.len() {
        lemma_column_sources(column, n - 1, k);
        assert(cur[k] == prev[k]);
        let (y, j) = choose|y: int, j: int| 0 <= y < n - 1 && 0 <= j < cell_highlights(column[y]).len()
            && prev[k] == #[trigger] cell_highlights(column[y])[j];
        assert(0 <= y < n && cur[k] == cell_highlights(column[y])[j]);
    } else {
        let j = k - prev.len();
        assert(cur[k] == cell_highlights(column[n - 1])[j]);
    }
}

/// Every highlight a grid cell asks for is among the highlights of the first `n` columns,
/// for a cell in one of them.
proof fn lemma_grid_has_cell(grid: Seq<Vec<Cell>>, n: int, x: int, y: int, j: int)
    requires
        0 <= x < n <= grid.len(),
        0 <= y < grid[x]@.len(),
        0 <= j < cell_highlights(grid[x]@[y]).len(),
    ensures
        grid_highlights(grid, n).contains(cell_highlights(grid[x]@[y])[j]),
    decreases n,
{
    let prev = grid_highlights(grid, n - 1);
    let cur = grid_highlights(grid, n);
    if x == n - 1 {
        let col = column_highlights(grid[x]@, grid[x]@.len() as int);
        lemma_column_has_cell(grid[x]@, grid[x]@.len() as int, y, j);
        let k = choose|k: int| 0 <= k < col.len() && col[k] == cell_highlights(grid[x]@[y])[j];
        assert(cur[prev.len() + k] == col[k]);
    } else {
        lemma_grid_has_cell(grid, n - 1, x, y, j);
        let k = choose|k: int| 0 <= k < prev.len() && prev[k] == cell_highlights(grid[x]@[y])[j];
        assert(cur[k] == prev[k]);
    }
}

/// Every highlight among those of the first `n` columns is one that a cell of these
/// columns asks for.
proof fn lemma_grid_sources(grid: Seq<Vec<Cell>>, n: int, k: int)
    requires
        0 <= n <= grid.len(),
        0 <= k < grid_highlights(grid, n).len(),
    ensures
        exists|x: int, y: int, j: int| 0 <= x < n && 0 <= y < grid[x]@.len() && 0 <= j < cell_highlights(grid[x]@[y]).len()
            && grid_highlights(grid, n)[k] == #[trigger] cell_highlights(grid[x]@[y])[j],
    decreases n,
{
    let prev = grid_highlights(grid, n - 1);
    let cur = grid_highlights(grid, n);
    if k < prev.len() {
        lemma_grid_sources(grid, n - 1, k);
        assert(cur[k] == prev[k]);
        let (x, y, j) = choose|x: int, y: int, j: int| 0 <= x < n - 1 && 0 <= y < grid[x]@.len()
            && 0 <= j < cell_highlights(grid[x]@[y]).len() && prev[k] == #[trigger] cell_highlights(grid[x]@[y])[j];
        assert(0 <= x < n && cur[k] == cell_highlights(grid[x]@[y])[j]);
    } else {
        let c = k - prev.len();
        let column = grid[n - 1]@;
        assert(cur[k] == column_highlights(column, column.len() as int)[c]);
        lemma_column_sources(column, column.len() as int, c);
        let (y, j) = choose|y: int, j: int| 0 <= y < column.len() && 0 <= j < cell_highlights(column[y]).len()
            && column_highlights(column, column.len() as int)[c] == #[trigger] cell_highlights(column[y])[j];
        assert(cur[k] == cell_highlights(grid[n - 1]@[y])[j]);
    }
}

/// The highlights of a grid flag every tile cell that lies alone on a grid cell where
/// tiles are not allowed (off the board, or a target cell) as out of bounds, and every
/// tile cell that shares its grid cell with others as overlapping.
pub proof fn law_invalid_cells_are_flagged(grid: Seq<Vec<Cell>>, x: int, y: int)
    requires
        0 <= x < grid.len(),
        0 <= y < grid[x]@.len(),
    ensures
        grid[x]@[y] matches Cell::One(d, p) ==> (!d.allowed ==> grid_highlights(grid, grid.len() as int).contains(
            (TileHighlight { tile_id: p.tile_id, cell_position: p.cell_position, mode: DrawingMode::OutOfBounds }),
        )),
        grid[x]@[y] matches Cell::Many(_, ps) ==> forall|j: int| 0 <= j < ps@.len() ==> grid_highlights(grid, grid.len() as int).contains(
            (TileHighlight { tile_id: (#[trigger] ps@[j]).tile_id, cell_position: ps@[j].cell_position, mode: DrawingMode::Overlapping }),
        ),
{
    match grid[x]@[y] {
        Cell::One(d, p) => {
            if !d.allowed {
                lemma_grid_has_cell(grid, grid.len() as int, x, y, 0);
            }
        },
        Cell::Many(_, ps) => {
            assert forall|j: int| 0 <= j < ps@.len() implies grid_highlights(grid, grid.len() as int).contains(
                TileHighlight { tile_id: (#[trigger] ps@[j]).tile_id, cell_position: ps@[j].cell_position, mode: DrawingMode::Overlapping },
            ) by {
                lemma_grid_has_cell(grid, grid.len() as int, x, y, j);
            }
        },
        Cell::Empty(_) => {},
    }
}

/// Nothing else is highlighted: each highlight of a grid is a tile cell alone on a grid
/// cell where tiles are not allowed, flagged out of bounds, or a tile cell sharing its
/// grid cell with others, flagged overlapping.
pub proof fn law_only_invalid_cells_are_flagged(grid: Seq<Vec<Cell>>, k: int)
    requires
        0 <= k < grid_highlights(grid, grid.len() as int).len(),
    ensures
        exists|x: int, y: int| 0 <= x < grid.len() && 0 <= y < grid[x]@.len() && {
            let h = grid_highlights(grid, grid.len() as int)[k];
            ||| (#[trigger] grid[x]@[y]) matches Cell::One(d, p) && !d.allowed
                && h == TileHighlight { tile_id: p.tile_id, cell_position: p.cell_position, mode: DrawingMode::OutOfBounds }
            ||| grid[x]@[y] matches Cell::Many(_, ps) && exists|j: int| 0 <= j < ps@.len()
                && h == TileHighlight { tile_id: (#[trigger] ps@[j]).tile_id, cell_position: ps@[j].cell_position, mode: DrawingMode::Overlapping }
        },
{
    lemma_grid_sources(grid, grid.len() as int, k);
    let (x, y, j) = choose|x: int, y: int, j: int| 0 <= x < grid.len() && 0 <= y < grid[x]@.len()
        && 0 <= j < cell_highlights(grid[x]@[y]).len()
        && grid_highlights(grid, grid.len() as int)[k] == #[trigger] cell_highlights(grid[x]@[y])[j];
    let h = grid_highlights(grid, grid.len() as int)[k];
    match grid[x]@[y] {
        Cell::Many(_, ps) => {
            assert(h == TileHighlight { tile_id: ps@[j].tile_id, cell_position: ps@[j].cell_position, mode: DrawingMode::Overlapping });
        },
        _ => {},
    }
    assert(0 <= x < grid.len() && 0 <= y < grid[x]@.len());
}

} // verus!
