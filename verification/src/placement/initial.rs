//! The start positions of the tiles around the board.
use vstd::prelude::*;
use crate::config::{PuzzleConfig, TileConfig};
use crate::offset::{CellOffset, fits_i32, max_int};

verus! {

/// The width of tile `i` in cells.
pub open spec fn tile_width(tiles: Seq<TileConfig>, i: int) -> int {
    tiles[i].base.width as int
}

/// The height of tile `i` in cells.
pub open spec fn tile_height(tiles: Seq<TileConfig>, i: int) -> int {
    tiles[i].base.height as int
}

/// Stacks tiles from index `i` on in a column at `x`, starting at row `y`, as long as
/// the next tile starts above row `end`.
pub open spec fn column_layout(tiles: Seq<TileConfig>, i: int, x: int, y: int, end: int) -> Seq<(int, int)>
    decreases tiles.len() - i,
{
    if i < 0 || i >= tiles.len() || end <= y {
        seq![]
    } else {
        seq![(x, y)] + column_layout(tiles, i + 1, x, y + tile_height(tiles, i), end)
    }
}

/// Lines tiles from index `i` on up in a row at `y`, starting at column `x`, as long as
/// the next tile ends left of column `end`.
pub open spec fn row_layout(tiles: Seq<TileConfig>, i: int, x: int, y: int, end: int) -> Seq<(int, int)>
    decreases tiles.len() - i,
{
    if i < 0 || i >= tiles.len() || end <= x + tile_width(tiles, i) {
        seq![]
    } else {
        seq![(x, y)] + row_layout(tiles, i + 1, x + tile_width(tiles, i), y, end)
    }
}

/// The height the row started at tile `i` takes: the highest tile placed in it,
/// not counting the last tile of all.
pub open spec fn row_height(tiles: Seq<TileConfig>, i: int, x: int, end: int) -> int
    decreases tiles.len() - i,
{
    if i < 0 || i >= tiles.len() || end <= x + tile_width(tiles, i) || i + 1 == tiles.len() {
        0
    } else {
        max_int(tile_height(tiles, i), row_height(tiles, i + 1, x + tile_width(tiles, i), end))
    }
}

/// Fills rows below the board, starting at row `y`, with the tiles from index `i` on.
pub open spec fn rows_layout(tiles: Seq<TileConfig>, i: int, y: int, end: int) -> Seq<(int, int)>
    decreases tiles.len() - i,
{
    let row = row_layout(tiles, i, 1, y, end);
    if i < 0 || i >= tiles.len() || row.len() == 0 {
        seq![]
    } else {
        proof {
            lemma_row_len(tiles, i, 1, y, end);
        }
        row + rows_layout(tiles, i + row.len(), y + row_height(tiles, i, 1, end), end)
    }
}

/// Every row below the board takes at least one tile, so that placing the tiles ends.
pub open spec fn rows_progress(tiles: Seq<TileConfig>, i: int, y: int, end: int) -> bool
    decreases tiles.len() - i,
{
    let row = row_layout(tiles, i, 1, y, end);
    if i < 0 || i >= tiles.len() || row.len() == 0 {
        i >= 0 && i >= tiles.len()
    } else {
        proof {
            lemma_row_len(tiles, i, 1, y, end);
        }
        row.len() > 0 && rows_progress(tiles, i + row.len(), y + row_height(tiles, i, 1, end), end)
    }
}

/// The rows stacked by `column_layout` stay within `i32`.
pub open spec fn column_fits(tiles: Seq<TileConfig>, i: int, y: int, end: int) -> bool
    decreases tiles.len() - i,
{
    if i < 0 || i >= tiles.len() || end <= y {
        true
    } else {
        (i + 1 < tiles.len() ==> fits_i32(y + tile_height(tiles, i))) && column_fits(tiles, i + 1, y + tile_height(tiles, i), end)
    }
}

/// The columns computed by `row_layout` stay within `i32`.
pub open spec fn row_fits(tiles: Seq<TileConfig>, i: int, x: int, end: int) -> bool
    decreases tiles.len() - i,
{
    if i < 0 || i >= tiles.len() {
        true
    } else {
        fits_i32(x + tile_width(tiles, i)) && (end > x + tile_width(tiles, i) ==> row_fits(tiles, i + 1, x + tile_width(tiles, i), end))
    }
}

/// The rows and columns computed by `rows_layout` stay within `i32`.
pub open spec fn rows_fit(tiles: Seq<TileConfig>, i: int, y: int, end: int) -> bool
    decreases tiles.len() - i,
{
    let row = row_layout(tiles, i, 1, y, end);
    if i < 0 || i >= tiles.len() || row.len() == 0 {
        true
    } else {
        proof {
            lemma_row_len(tiles, i, 1, y, end);
        }
        row_fits(tiles, i, 1, end) && fits_i32(y + row_height(tiles, i, 1, end))
            && rows_fit(tiles, i + row.len(), y + row_height(tiles, i, 1, end), end)
    }
}

/// The start positions of the tiles: first a column left of the board, then a column
/// right of it, then rows below it.
pub open spec fn start_layout(tiles: Seq<TileConfig>, board_w: int, board_h: int, board_offset: CellOffset) -> Seq<(int, int)> {
    let left = column_layout(tiles, 0, 1, 1, board_h);
    let right = column_layout(tiles, left.len() as int, board_offset.0 + board_w + 1, board_offset.1 as int, board_h);
    left + right + rows_layout(tiles, (left.len() + right.len()) as int, 2 + board_h, board_offset.0 * 2 + board_w)
}

/// Placing the tiles ends and stays within `i32`.
pub open spec fn start_layout_ok(tiles: Seq<TileConfig>, board_w: int, board_h: int, board_offset: CellOffset) -> bool {
    let left = column_layout(tiles, 0, 1, 1, board_h);
    let right = column_layout(tiles, left.len() as int, board_offset.0 + board_w + 1, board_offset.1 as int, board_h);
    let first_row = (left.len() + right.len()) as int;
    let row_end = board_offset.0 * 2 + board_w;
    &&& fits_i32(board_offset.0 + board_w + 1)
    &&& fits_i32(board_offset.0 * 2)
    &&& fits_i32(row_end)
    &&& fits_i32(2 + board_h)
    &&& column_fits(tiles, 0, 1, board_h)
    &&& column_fits(tiles, left.len() as int, board_offset.1 as int, board_h)
    &&& rows_progress(tiles, first_row, 2 + board_h, row_end)
    &&& rows_fit(tiles, first_row, 2 + board_h, row_end)
}

/// A column holds at most the remaining tiles.
pub proof fn lemma_column_len(tiles: Seq<TileConfig>, i: int, x: int, y: int, end: int)
    requires
        0 <= i <= tiles.len(),
    ensures
        i + column_layout(tiles, i, x, y, end).len() <= tiles.len(),
    decreases tiles.len() - i,
{
    if i < tiles.len() && end > y {
        lemma_column_len(tiles, i + 1, x, y + tile_height(tiles, i), end);
    }
}

/// A row holds at most the remaining tiles.
pub proof fn lemma_row_len(tiles: Seq<TileConfig>, i: int, x: int, y: int, end: int)
    requires
        0 <= i <= tiles.len(),
    ensures
        i + row_layout(tiles, i, x, y, end).len() <= tiles.len(),
    decreases tiles.len() - i,
{
    if i < tiles.len() && end > x + tile_width(tiles, i) {
        lemma_row_len(tiles, i + 1, x + tile_width(tiles, i), y, end);
    }
}

/// When every row takes a tile, the rows hold exactly the remaining tiles.
pub proof fn lemma_rows_len(tiles: Seq<TileConfig>, i: int, y: int, end: int)
    requires
        0 <= i <= tiles.len(),
        rows_progress(tiles, i, y, end),
    ensures
        i + rows_layout(tiles, i, y, end).len() == tiles.len(),
    decreases tiles.len() - i,
{
    if i < tiles.len() {
        let row = row_layout(tiles, i, 1, y, end);
        lemma_row_len(tiles, i, 1, y, end);
        lemma_rows_len(tiles, i + row.len(), y + row_height(tiles, i, 1, end), end);
    }
}

/// Places tiles in a column from `start` on, while the next tile starts above row `end`.
fn place_in_column(start: CellOffset, end: i32, tiles: &Vec<TileConfig>, positions: &mut Vec<CellOffset>)
    requires
        forall|i: int| 0 <= i < tiles@.len() ==> (#[trigger] tiles@[i]).wf(),
        old(positions)@.len() <= tiles@.len(),
        column_fits(tiles@, old(positions)@.len() as int, start.1 as int, end as int),
    ensures
        final(positions)@.len() == old(positions)@.len() + column_layout(tiles@, old(positions)@.len() as int, start.0 as int, start.1 as int, end as int).len(),
        forall|k: int| 0 <= k < old(positions)@.len() ==> #[trigger] final(positions)@[k] == old(positions)@[k],
        forall|k: int| 0 <= k < final(positions)@.len() - old(positions)@.len() ==> {
            let p = #[trigger] final(positions)@[old(positions)@.len() + k];
            let q = column_layout(tiles@, old(positions)@.len() as int, start.0 as int, start.1 as int, end as int)[k];
            p.0 == q.0 && p.1 == q.1
        },
{
    let ghost first = old(positions)@.len() as int;
    let ghost start_positions = old(positions)@;
    let ghost layout = column_layout(tiles@, first, start.0 as int, start.1 as int, end as int);
    if tiles.len() != positions.len() {
        let mut next_pos = start;
        let mut next_tile_index = positions.len();
        assert(positions@.subrange(first, next_tile_index as int).map_values(|p: CellOffset| (p.0 as int, p.1 as int))
            =~= seq![]);
        assert(layout =~= positions@.subrange(first, next_tile_index as int).map_values(|p: CellOffset| (p.0 as int, p.1 as int))
            + column_layout(tiles@, next_tile_index as int, start.0 as int, next_pos.1 as int, end as int));
        while end > next_pos.1
            invariant_except_break
                next_tile_index == positions@.len(),
                first <= next_tile_index < tiles@.len(),
                next_pos.0 == start.0,
                column_fits(tiles@, next_tile_index as int, next_pos.1 as int, end as int),
                layout == positions@.subrange(first, next_tile_index as int).map_values(|p: CellOffset| (p.0 as int, p.1 as int))
                    + column_layout(tiles@, next_tile_index as int, start.0 as int, next_pos.1 as int, end as int),
                forall|k: int| 0 <= k < first ==> #[trigger] positions@[k] == start_positions[k],
            invariant
                0 <= first <= positions@.len() <= tiles@.len(),
                start_positions.len() == first,
                layout == column_layout(tiles@, first, start.0 as int, start.1 as int, end as int),
                forall|i: int| 0 <= i < tiles@.len() ==> (#[trigger] tiles@[i]).wf(),
            ensures
                positions@.len() == first + layout.len(),
                forall|k: int| 0 <= k < first ==> #[trigger] positions@[k] == start_positions[k],
                layout == positions@.subrange(first, positions@.len() as int).map_values(|p: CellOffset| (p.0 as int, p.1 as int)),
            decreases tiles@.len() - next_tile_index,
        {
            let ghost before = positions@;
            positions.push(next_pos);
            assert(positions@.subrange(first, positions@.len() as int) =~= before.subrange(first, next_tile_index as int).push(next_pos));
            assert(positions@.subrange(first, positions@.len() as int).map_values(|p: CellOffset| (p.0 as int, p.1 as int))
                =~= before.subrange(first, next_tile_index as int).map_values(|p: CellOffset| (p.0 as int, p.1 as int))
                    + seq![(next_pos.0 as int, next_pos.1 as int)]);
            if tiles.len() == positions.len() {
                assert(column_layout(tiles@, next_tile_index + 1, start.0 as int,
                    next_pos.1 + tile_height(tiles@, next_tile_index as int), end as int) =~= seq![]);
                assert(column_layout(tiles@, next_tile_index as int, start.0 as int, next_pos.1 as int, end as int)
                    =~= seq![(next_pos.0 as int, next_pos.1 as int)]);
                break;
            }
            let h = tiles[next_tile_index].base.height as i32;
            next_pos.1 = next_pos.1 + h;
            next_tile_index = next_tile_index + 1;
        }
    } else {
        assert(positions@.subrange(first, positions@.len() as int) =~= seq![]);
    }
    assert forall|k: int| 0 <= k < positions@.len() - first implies {
        let p = #[trigger] positions@[first + k];
        let q = layout[k];
        p.0 == q.0 && p.1 == q.1
    } by {
        assert(positions@.subrange(first, positions@.len() as int)[k] == positions@[first + k]);
    }
}


/// Places tiles in a row from `start` on, while the next tile ends left of column `end`.
/// Returns the row below the placed tiles.
fn place_in_row(start: CellOffset, end: i32, tiles: &Vec<TileConfig>, positions: &mut Vec<CellOffset>) -> (next_row: i32)
    requires
        forall|i: int| 0 <= i < tiles@.len() ==> (#[trigger] tiles@[i]).wf(),
        old(positions)@.len() <= tiles@.len(),
        row_fits(tiles@, old(positions)@.len() as int, start.0 as int, end as int),
        fits_i32(start.1 + row_height(tiles@, old(positions)@.len() as int, start.0 as int, end as int)),
    ensures
        next_row == start.1 + row_height(tiles@, old(positions)@.len() as int, start.0 as int, end as int),
        final(positions)@.len() == old(positions)@.len() + row_layout(tiles@, old(positions)@.len() as int, start.0 as int, start.1 as int, end as int).len(),
        forall|k: int| 0 <= k < old(positions)@.len() ==> #[trigger] final(positions)@[k] == old(positions)@[k],
        forall|k: int| 0 <= k < final(positions)@.len() - old(positions)@.len() ==> {
            let p = #[trigger] final(positions)@[old(positions)@.len() + k];
            let q = row_layout(tiles@, old(positions)@.len() as int, start.0 as int, start.1 as int, end as int)[k];
            p.0 == q.0 && p.1 == q.1
        },
{
    let ghost first = old(positions)@.len() as int;
    let ghost start_positions = old(positions)@;
    let ghost layout = row_layout(tiles@, first, start.0 as int, start.1 as int, end as int);
    let ghost height = row_height(tiles@, first, start.0 as int, end as int);
    let mut highest_tile: i32 = 0;
    if tiles.len() != positions.len() {
        let mut next_pos = start;
        let mut next_tile_index = positions.len();
        assert(positions@.subrange(first, next_tile_index as int).map_values(|p: CellOffset| (p.0 as int, p.1 as int))
            =~= seq![]);
        assert(layout =~= positions@.subrange(first, next_tile_index as int).map_values(|p: CellOffset| (p.0 as int, p.1 as int))
            + row_layout(tiles@, next_tile_index as int, start.0 as int, next_pos.1 as int, end as int));
        while end > next_pos.0 + tiles[next_tile_index].base.width as i32
            invariant_except_break
                next_tile_index == positions@.len(),
                first <= next_tile_index < tiles@.len(),
                next_pos.1 == start.1,
                row_fits(tiles@, next_tile_index as int, next_pos.0 as int, end as int),
                layout == positions@.subrange(first, next_tile_index as int).map_values(|p: CellOffset| (p.0 as int, p.1 as int))
                    + row_layout(tiles@, next_tile_index as int, next_pos.0 as int, start.1 as int, end as int),
                height == max_int(highest_tile as int, row_height(tiles@, next_tile_index as int, next_pos.0 as int, end as int)),
                forall|k: int| 0 <= k < first ==> #[trigger] positions@[k] == start_positions[k],
            invariant
                0 <= first <= positions@.len() <= tiles@.len(),
                start_positions.len() == first,
                layout == row_layout(tiles@, first, start.0 as int, start.1 as int, end as int),
                height == row_height(tiles@, first, start.0 as int, end as int),
                0 <= highest_tile,
                forall|i: int| 0 <= i < tiles@.len() ==> (#[trigger] tiles@[i]).wf(),
            ensures
                positions@.len() == first + layout.len(),
                forall|k: int| 0 <= k < first ==> #[trigger] positions@[k] == start_positions[k],
                layout == positions@.subrange(first, positions@.len() as int).map_values(|p: CellOffset| (p.0 as int, p.1 as int)),
                highest_tile == height,
            decreases tiles@.len() - next_tile_index,
        {
            let ghost before = positions@;
            positions.push(next_pos);
            assert(positions@.subrange(first, positions@.len() as int) =~= before.subrange(first, next_tile_index as int).push(next_pos));
            assert(positions@.subrange(first, positions@.len() as int).map_values(|p: CellOffset| (p.0 as int, p.1 as int))
                =~= before.subrange(first, next_tile_index as int).map_values(|p: CellOffset| (p.0 as int, p.1 as int))
                    + seq![(next_pos.0 as int, next_pos.1 as int)]);
            if tiles.len() == positions.len() {
                assert(row_layout(tiles@, next_tile_index + 1, next_pos.0 + tile_width(tiles@, next_tile_index as int),
                    start.1 as int, end as int) =~= seq![]);
                assert(row_layout(tiles@, next_tile_index as int, next_pos.0 as int, start.1 as int, end as int)
                    =~= seq![(next_pos.0 as int, next_pos.1 as int)]);
                break;
            }
            let w = tiles[next_tile_index].base.width as i32;
            let h = tiles[next_tile_index].base.height as i32;
            next_pos.0 = next_pos.0 + w;
            next_tile_index = next_tile_index + 1;
            if h > highest_tile {
                highest_tile = h;
            }
        }
    } else {
        assert(positions@.subrange(first, positions@.len() as int) =~= seq![]);
    }
    assert forall|k: int| 0 <= k < positions@.len() - first implies {
        let p = #[trigger] positions@[first + k];
        let q = layout[k];
        p.0 == q.0 && p.1 == q.1
    } by {
        assert(positions@.subrange(first, positions@.len() as int)[k] == positions@[first + k]);
    }
    start.1 + highest_tile
}


/// Maps positions to pairs of integers.
pub open spec fn as_pairs(positions: Seq<CellOffset>) -> Seq<(int, int)> {
    positions.map_values(|p: CellOffset| (p.0 as int, p.1 as int))
}

/// Calculates the start positions of the tiles: a column left of the board, a
/// column right of it, then rows below it, until every tile has a place.
pub fn calculate_tile_start_positions(
    tiles: &Vec<TileConfig>,
    puzzle_config: &PuzzleConfig,
    board_offset_cells: CellOffset,
) -> (positions: Vec<CellOffset>)
    requires
        forall|i: int| 0 <= i < tiles@.len() ==> (#[trigger] tiles@[i]).wf(),
        puzzle_config.layout().wf(),
        start_layout_ok(tiles@, puzzle_config.layout().width as int, puzzle_config.layout().height as int, board_offset_cells),
    ensures
        positions@.len() == tiles@.len(),
        as_pairs(positions@) == start_layout(tiles@, puzzle_config.layout().width as int, puzzle_config.layout().height as int, board_offset_cells),
{
    let layout = puzzle_config.board_config.layout();
    let board_w = layout.width as i32;
    let board_h = layout.height as i32;
    let ghost tiles_s = tiles@;
    let ghost left = column_layout(tiles_s, 0, 1, 1, board_h as int);
    let ghost right = column_layout(tiles_s, left.len() as int, board_offset_cells.0 + board_w + 1, board_offset_cells.1 as int, board_h as int);
    let ghost all = start_layout(tiles_s, board_w as int, board_h as int, board_offset_cells);
    let mut positions: Vec<CellOffset> = Vec::new();

    proof {
        lemma_column_len(tiles_s, 0, 1, 1, board_h as int);
    }
    place_in_column(CellOffset(1, 1), board_h, tiles, &mut positions);
    assert(as_pairs(positions@) =~= left) by {
        assert forall|k: int| 0 <= k < positions@.len() implies #[trigger] as_pairs(positions@)[k] == left[k] by {
            assert(positions@[0 + k] == positions@[k]);
        }
    }
    let ghost after_left = positions@;

    proof {
        lemma_column_len(tiles_s, left.len() as int, board_offset_cells.0 + board_w + 1, board_offset_cells.1 as int, board_h as int);
    }
    place_in_column(
        CellOffset(board_offset_cells.0 + board_w + 1, board_offset_cells.1),
        board_h,
        tiles,
        &mut positions,
    );
    assert(as_pairs(positions@) =~= left + right) by {
        assert forall|k: int| 0 <= k < positions@.len() implies #[trigger] as_pairs(positions@)[k] == (left + right)[k] by {
            if k < after_left.len() {
                assert(positions@[k] == after_left[k]);
                assert(as_pairs(after_left)[k] == left[k]);
            } else {
                assert(positions@[after_left.len() + (k - after_left.len())] == positions@[k]);
            }
        }
    }

    let row_end = board_offset_cells.0 * 2 + board_w;
    let mut start_y = 2 + board_h;
    assert(all =~= as_pairs(positions@) + rows_layout(tiles_s, positions@.len() as int, start_y as int, row_end as int));
    while tiles.len() > positions.len()
        invariant
            tiles@ == tiles_s,
            forall|i: int| 0 <= i < tiles@.len() ==> (#[trigger] tiles@[i]).wf(),
            positions@.len() <= tiles@.len(),
            rows_progress(tiles_s, positions@.len() as int, start_y as int, row_end as int),
            rows_fit(tiles_s, positions@.len() as int, start_y as int, row_end as int),
            all == as_pairs(positions@) + rows_layout(tiles_s, positions@.len() as int, start_y as int, row_end as int),
        decreases tiles@.len() - positions@.len(),
    {
        let ghost before = positions@;
        let ghost row = row_layout(tiles_s, before.len() as int, 1, start_y as int, row_end as int);
        proof {
            lemma_row_len(tiles_s, before.len() as int, 1, start_y as int, row_end as int);
        }
        let end = place_in_row(CellOffset(1, start_y), row_end, tiles, &mut positions);
        assert(as_pairs(positions@) =~= as_pairs(before) + row) by {
            assert forall|k: int| 0 <= k < positions@.len() implies #[trigger] as_pairs(positions@)[k] == (as_pairs(before) + row)[k] by {
                if k < before.len() {
                    assert(positions@[k] == before[k]);
                } else {
                    assert(positions@[before.len() + (k - before.len())] == positions@[k]);
                }
            }
        }
        start_y = end;
    }
    proof {
        lemma_rows_len(tiles_s, positions@.len() as int, start_y as int, row_end as int);
        assert(rows_layout(tiles_s, positions@.len() as int, start_y as int, row_end as int) =~= seq![]);
    }
    positions
}

/// A start column stacks the tiles from index `i` on without gaps or overlaps: the first
/// one at `(x, y)`, each next one right below the previous one (its row advanced by the
/// height of the previous tile), all in column `x`, as long as a tile starts above row
/// `end`; the column stops at the first tile that would start at or below `end`, or
/// when the tiles run out.
pub proof fn law_column_stacks_tiles(tiles: Seq<TileConfig>, i: int, x: int, y: int, end: int)
    requires
        0 <= i <= tiles.len(),
    ensures
        ({
            let c = column_layout(tiles, i, x, y, end);
            &&& i + c.len() <= tiles.len()
            &&& c.len() > 0 ==> c[0] == (x, y)
            &&& forall|k: int| 0 <= k < c.len() ==> (#[trigger] c[k]).0 == x && c[k].1 < end
            &&& forall|k: int| 0 <= k < c.len() - 1 ==> (#[trigger] c[k + 1]).1 == c[k].1 + tiles[i + k].base.height
            &&& c.len() == 0 ==> (i == tiles.len() || end <= y)
            &&& c.len() > 0 && i + c.len() < tiles.len()
                ==> c[c.len() - 1].1 + tiles[i + c.len() - 1].base.height >= end
        }),
    decreases tiles.len() - i,
{
    let c = column_layout(tiles, i, x, y, end);
    if i < tiles.len() && end > y {
        let y2 = y + tiles[i].base.height;
        law_column_stacks_tiles(tiles, i + 1, x, y2, end);
        let rest = column_layout(tiles, i + 1, x, y2, end);
        assert(c =~= seq![(x, y)] + rest);
        assert forall|k: int| 0 <= k < c.len() implies (#[trigger] c[k]).0 == x && c[k].1 < end by {
            if k > 0 {
                assert(c[k] == rest[k - 1]);
            }
        }
        assert forall|k: int| 0 <= k < c.len() - 1 implies (#[trigger] c[k + 1]).1 == c[k].1 + tiles[i + k].base.height by {
            assert(c[k + 1] == rest[k]);
            if k > 0 {
                assert(c[k] == rest[k - 1]);
                assert(rest[(k - 1) + 1].1 == rest[k - 1].1 + tiles[i + 1 + (k - 1)].base.height);
            } else if rest.len() > 0 {
                assert(rest[0] == (x, y2));
            }
        }
        if i + c.len() < tiles.len() {
            if rest.len() > 0 {
                assert(c[c.len() - 1] == rest[rest.len() - 1]);
            }
        }
    }
}

/// The tiles placed left of the board, and then those placed right of it, each stand
/// right below the previous tile of their column.
pub proof fn law_start_columns_do_not_overlap(
    tiles: Seq<TileConfig>,
    board_w: int,
    board_h: int,
    board_offset: CellOffset,
    positions: Seq<(int, int)>,
    k: int,
)
    requires
        positions == start_layout(tiles, board_w, board_h, board_offset),
        ({
            let left = column_layout(tiles, 0, 1, 1, board_h).len();
            let right = column_layout(tiles, left as int, board_offset.0 + board_w + 1, board_offset.1 as int, board_h).len();
            (0 <= k && k + 1 < left) || (left <= k && k + 1 < left + right)
        }),
    ensures
        positions[k + 1].0 == positions[k].0,
        positions[k + 1].1 == positions[k].1 + tiles[k].base.height,
{
    let left = column_layout(tiles, 0, 1, 1, board_h);
    let right = column_layout(tiles, left.len() as int, board_offset.0 + board_w + 1, board_offset.1 as int, board_h);
    law_column_stacks_tiles(tiles, 0, 1, 1, board_h);
    lemma_column_len(tiles, 0, 1, 1, board_h);
    law_column_stacks_tiles(tiles, left.len() as int, board_offset.0 + board_w + 1, board_offset.1 as int, board_h);
    let rows = rows_layout(tiles, (left.len() + right.len()) as int, 2 + board_h, board_offset.0 * 2 + board_w);
    assert(positions == left + right + rows);
    if k + 1 < left.len() {
        assert(positions[k] == left[k]);
        assert(positions[k + 1] == left[k + 1]);
    } else {
        let j = k - left.len();
        assert(positions[k] == right[j]);
        assert(positions[k + 1] == right[j + 1]);
        assert(right[j + 1].1 == right[j].1 + tiles[left.len() + j].base.height);
    }
}

} // verus!
