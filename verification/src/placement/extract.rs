//! Extracting the puzzle state from the positions of the tiles.
use vstd::prelude::*;
use crate::extension::PuzzleTypeExtension;
use crate::offset::CellOffset;
use crate::puzzle_state::{
    Cell, CellData, PuzzleState, TileCellPlacement, UnusedTile, extension_fits, initial_cell_data,
};
use crate::shape::Shape;
use super::PlacementModel;
use super::tile::PlacedTile;

verus! {

/// The grid cell covered by the top left cell of the tile: the grid has a border of
/// one cell around the board.
pub open spec fn grid_offset(t: PlacedTile, board_position: CellOffset) -> (int, int) {
    (t.position_cells.0 - board_position.0 + 1, t.position_cells.1 - board_position.1 + 1)
}

/// Whether the tile covers the grid cell `(gx, gy)`.
pub open spec fn covers(t: PlacedTile, board_position: CellOffset, gx: int, gy: int) -> bool {
    let o = grid_offset(t, board_position);
    t.current_rotation.filled(gx - o.0, gy - o.1)
}

/// The covering of the grid cell `(gx, gy)` by tile `i`.
pub open spec fn placement_of(i: int, t: PlacedTile, board_position: CellOffset, gx: int, gy: int) -> TileCellPlacement {
    let o = grid_offset(t, board_position);
    TileCellPlacement { tile_id: i as usize, cell_position: CellOffset((gx - o.0) as i32, (gy - o.1) as i32) }
}

/// The coverings of the grid cell `(gx, gy)` by the first `k` tiles, in tile order.
pub open spec fn placements_upto(
    tiles: Seq<PlacedTile>,
    board_position: CellOffset,
    k: int,
    gx: int,
    gy: int,
) -> Seq<TileCellPlacement>
    decreases k,
{
    if k <= 0 {
        seq![]
    } else {
        placements_upto(tiles, board_position, k - 1, gx, gy) + if covers(tiles[k - 1], board_position, gx, gy) {
            seq![placement_of(k - 1, tiles[k - 1], board_position, gx, gy)]
        } else {
            seq![]
        }
    }
}

/// Whether the tile covers a grid cell that is on the playable board area.
pub open spec fn uses_board(
    t: PlacedTile,
    board_position: CellOffset,
    layout: &Shape,
    extension: &Option<PuzzleTypeExtension>,
) -> bool {
    exists|gx: int, gy: int|
        0 <= gx < layout.width + 2 && 0 <= gy < layout.height + 2 && #[trigger] covers(t, board_position, gx, gy)
            && initial_cell_data(layout, extension, gx, gy).is_on_board
}

/// The indices, in increasing order, of the first `k` tiles that cover no cell of the
/// playable board area.
pub open spec fn unused_ids(
    tiles: Seq<PlacedTile>,
    board_position: CellOffset,
    layout: &Shape,
    extension: &Option<PuzzleTypeExtension>,
    k: int,
) -> Seq<usize>
    decreases k,
{
    if k <= 0 {
        seq![]
    } else {
        unused_ids(tiles, board_position, layout, extension, k - 1) + if !uses_board(tiles[k - 1], board_position, layout, extension) {
            seq![(k - 1) as usize]
        } else {
            seq![]
        }
    }
}

/// Whether the grid cell `(gx, gy)` has been visited when the cells of the tile
/// are walked column by column up to `(x, y)`.
pub open spec fn visited(t: PlacedTile, board_position: CellOffset, gx: int, gy: int, x: int, y: int) -> bool {
    let o = grid_offset(t, board_position);
    let sx = gx - o.0;
    let sy = gy - o.1;
    sx < x || (sx == x && sy < y)
}

/// Adds the cells of tile `i` to the grid. Returns whether one of them lies on the
/// playable board area.
fn place_tile(state: &mut PuzzleState, t: &PlacedTile, i: usize, board_position: CellOffset, width: usize, height: usize) -> (any_on_board: bool)
    requires
        t.wf(),
        old(state).has_dims(width as int, height as int),
        width <= i32::MAX,
        height <= i32::MAX,
        forall|gx: int, gy: int| 0 <= gx < width && 0 <= gy < height ==> (#[trigger] old(state).cell(gx, gy)).consistent(),
    ensures
        final(state).has_dims(width as int, height as int),
        final(state).unused_tiles == old(state).unused_tiles,
        forall|gx: int, gy: int| 0 <= gx < width && 0 <= gy < height ==> {
            &&& (#[trigger] final(state).cell(gx, gy)).consistent()
            &&& final(state).cell(gx, gy).data() == old(state).cell(gx, gy).data()
            &&& final(state).cell(gx, gy).placements() == old(state).cell(gx, gy).placements() + if covers(*t, board_position, gx, gy) {
                seq![placement_of(i as int, *t, board_position, gx, gy)]
            } else {
                seq![]
            }
        },
        any_on_board == exists|gx: int, gy: int|
            0 <= gx < width && 0 <= gy < height && #[trigger] covers(*t, board_position, gx, gy)
                && old(state).cell(gx, gy).data().is_on_board,
{
    let shape = &t.current_rotation;
    let ox: i64 = t.position_cells.0 as i64 - board_position.0 as i64 + 1;
    let oy: i64 = t.position_cells.1 as i64 - board_position.1 as i64 + 1;
    assert(ox == grid_offset(*t, board_position).0 && oy == grid_offset(*t, board_position).1);
    let ghost start = *state;
    let mut any_on_board = false;
    let mut x: usize = 0;
    while x < shape.width
        invariant
            t.wf(),
            shape == &t.current_rotation,
            ox == grid_offset(*t, board_position).0,
            oy == grid_offset(*t, board_position).1,
            width <= i32::MAX,
            height <= i32::MAX,
            x <= shape.width,
            state.has_dims(width as int, height as int),
            state.unused_tiles == start.unused_tiles,
            start.has_dims(width as int, height as int),
            forall|gx: int, gy: int| 0 <= gx < width && 0 <= gy < height ==> {
                &&& (#[trigger] state.cell(gx, gy)).consistent()
                &&& state.cell(gx, gy).data() == start.cell(gx, gy).data()
                &&& state.cell(gx, gy).placements() == start.cell(gx, gy).placements() + if covers(*t, board_position, gx, gy)
                    && visited(*t, board_position, gx, gy, x as int, 0) {
                    seq![placement_of(i as int, *t, board_position, gx, gy)]
                } else {
                    seq![]
                }
            },
            any_on_board == exists|gx: int, gy: int|
                0 <= gx < width && 0 <= gy < height && #[trigger] covers(*t, board_position, gx, gy)
                    && visited(*t, board_position, gx, gy, x as int, 0)
                    && start.cell(gx, gy).data().is_on_board,
        decreases shape.width - x,
    {
        let mut y: usize = 0;
        while y < shape.height
            invariant
                t.wf(),
                shape == &t.current_rotation,
                ox == grid_offset(*t, board_position).0,
                oy == grid_offset(*t, board_position).1,
                width <= i32::MAX,
                height <= i32::MAX,
                x < shape.width,
                y <= shape.height,
                state.has_dims(width as int, height as int),
                state.unused_tiles == start.unused_tiles,
                start.has_dims(width as int, height as int),
                forall|gx: int, gy: int| 0 <= gx < width && 0 <= gy < height ==> {
                    &&& (#[trigger] state.cell(gx, gy)).consistent()
                    &&& state.cell(gx, gy).data() == start.cell(gx, gy).data()
                    &&& state.cell(gx, gy).placements() == start.cell(gx, gy).placements() + if covers(*t, board_position, gx, gy)
                        && visited(*t, board_position, gx, gy, x as int, y as int) {
                        seq![placement_of(i as int, *t, board_position, gx, gy)]
                    } else {
                        seq![]
                    }
                },
                any_on_board == exists|gx: int, gy: int|
                    0 <= gx < width && 0 <= gy < height && #[trigger] covers(*t, board_position, gx, gy)
                        && visited(*t, board_position, gx, gy, x as int, y as int)
                        && start.cell(gx, gy).data().is_on_board,
            decreases shape.height - y,
        {
            let ghost before = *state;
            let ghost any_before = any_on_board;
            let cx: i64 = ox + x as i64;
            let cy: i64 = oy + y as i64;
            if shape.cells[x][y] && cx >= 0 && cy >= 0 && cx < width as i64 && cy < height as i64 {
                let ux = cx as usize;
                let uy = cy as usize;
                let p = TileCellPlacement { tile_id: i, cell_position: CellOffset(x as i32, y as i32) };
                assert(covers(*t, board_position, ux as int, uy as int));
                assert(p == placement_of(i as int, *t, board_position, ux as int, uy as int));
                let mut old_cell = Cell::Empty(CellData { is_on_board: false, allowed: false });
                std::mem::swap(&mut old_cell, &mut state.grid[ux][uy]);
                assert(old_cell == before.cell(ux as int, uy as int));
                let data = old_cell.cell_data();
                any_on_board = any_on_board || data.is_on_board;
                state.grid[ux][uy] = old_cell.add_placement(p);
                assert forall|gx: int, gy: int| 0 <= gx < width && 0 <= gy < height implies {
                    &&& (#[trigger] state.cell(gx, gy)).consistent()
                    &&& state.cell(gx, gy).data() == start.cell(gx, gy).data()
                    &&& state.cell(gx, gy).placements() == start.cell(gx, gy).placements() + if covers(*t, board_position, gx, gy)
                        && visited(*t, board_position, gx, gy, x as int, y + 1) {
                        seq![placement_of(i as int, *t, board_position, gx, gy)]
                    } else {
                        seq![]
                    }
                } by {
                    if gx == ux && gy == uy {
                    } else {
                        assert(state.cell(gx, gy) == before.cell(gx, gy));
                    }
                }
                assert(any_on_board == exists|gx: int, gy: int|
                    0 <= gx < width && 0 <= gy < height && #[trigger] covers(*t, board_position, gx, gy)
                        && visited(*t, board_position, gx, gy, x as int, y + 1)
                        && start.cell(gx, gy).data().is_on_board) by {
                    if data.is_on_board {
                        assert(covers(*t, board_position, ux as int, uy as int)
                            && visited(*t, board_position, ux as int, uy as int, x as int, y + 1));
                    }
                    if exists|gx: int, gy: int|
                        0 <= gx < width && 0 <= gy < height && #[trigger] covers(*t, board_position, gx, gy)
                            && visited(*t, board_position, gx, gy, x as int, y + 1)
                            && start.cell(gx, gy).data().is_on_board {
                        let (gx, gy) = choose|gx: int, gy: int|
                            0 <= gx < width && 0 <= gy < height && #[trigger] covers(*t, board_position, gx, gy)
                                && visited(*t, board_position, gx, gy, x as int, y + 1)
                                && start.cell(gx, gy).data().is_on_board;
                        if !(gx == ux && gy == uy) {
                            assert(visited(*t, board_position, gx, gy, x as int, y as int));
                        }
                    }
                }
            } else {
                assert forall|gx: int, gy: int|
                    0 <= gx < width && 0 <= gy < height && covers(*t, board_position, gx, gy)
                    implies visited(*t, board_position, gx, gy, x as int, y + 1)
                        == visited(*t, board_position, gx, gy, x as int, y as int) by {
                    if gx - ox == x && gy - oy == y {
                        assert(shape.cells@[x as int]@[y as int]);
                    }
                }
            }
            y = y + 1;
        }
        assert forall|gx: int, gy: int|
            0 <= gx < width && 0 <= gy < height && covers(*t, board_position, gx, gy)
            implies visited(*t, board_position, gx, gy, x as int, y as int)
                == visited(*t, board_position, gx, gy, x + 1, 0) by {
        }
        x = x + 1;
    }
    assert forall|gx: int, gy: int|
        0 <= gx < width && 0 <= gy < height && covers(*t, board_position, gx, gy)
        implies visited(*t, board_position, gx, gy, x as int, 0) by {
    }
    any_on_board
}


/// Whether some tile is being dragged and has no valid position.
pub open spec fn some_tile_dragged(tiles: Seq<PlacedTile>) -> bool {
    exists|i: int| 0 <= i < tiles.len() && (#[trigger] tiles[i]).dragged
}

/// The state is the one the tiles of the model produce: every grid cell keeps its
/// initial data and is covered by exactly the tile cells that lie on it, in tile
/// order, and the unused tiles are exactly those covering no board cell.
pub open spec fn is_extracted_state(
    s: PuzzleState,
    tiles: Seq<PlacedTile>,
    board_position: CellOffset,
    layout: &Shape,
    extension: &Option<PuzzleTypeExtension>,
) -> bool {
    let ids = unused_ids(tiles, board_position, layout, extension, tiles.len() as int);
    &&& s.has_dims(layout.width + 2, layout.height + 2)
    &&& forall|gx: int, gy: int|
        0 <= gx < layout.width + 2 && 0 <= gy < layout.height + 2 ==> (#[trigger] s.cell(gx, gy)).holds(
            initial_cell_data(layout, extension, gx, gy),
            placements_upto(tiles, board_position, tiles.len() as int, gx, gy),
        )
    &&& s.unused_tiles@.len() == ids.len()
    &&& forall|k: int| 0 <= k < ids.len() ==> {
        let u = #[trigger] s.unused_tiles@[k];
        &&& u.id == ids[k]
        &&& u.base.same_as(&tiles[ids[k] as int].base)
        &&& u.base.wf()
        &&& u.name == tiles[ids[k] as int].name
    }
}

impl PlacementModel {
    /// Extracts the state of the puzzle from the current positions of the tiles.
    ///
    /// Fails with `Tile position not set`, if a tile is being dragged.
    pub fn extract_puzzle_state(&self, extension: &Option<PuzzleTypeExtension>) -> (r: Result<PuzzleState, String>)
        requires
            self.wf(),
            extension_fits(extension),
        ensures
            r is Err <==> some_tile_dragged(self.tiles@),
            r matches Err(e) ==> e@ == "Tile position not set"@,
            r matches Ok(s) ==> is_extracted_state(s, self.tiles@, self.board.position_cells, &self.layout, extension),
    {
        let mut i: usize = 0;
        while i < self.tiles.len()
            invariant
                i <= self.tiles@.len(),
                forall|j: int| 0 <= j < i ==> !(#[trigger] self.tiles@[j]).dragged,
            decreases self.tiles@.len() - i,
        {
            if self.tiles[i].dragged {
                return Err("Tile position not set".to_string());
            }
            i = i + 1;
        }
        let mut state = PuzzleState::new(&self.layout, extension);
        let board_position = self.board.position_cells;
        let width = self.layout.width + 2;
        let height = self.layout.height + 2;
        let ghost tiles = self.tiles@;
        let ghost layout = &self.layout;
        let mut i: usize = 0;
        while i < self.tiles.len()
            invariant
                self.wf(),
                tiles == self.tiles@,
                layout == &self.layout,
                board_position == self.board.position_cells,
                width == layout.width + 2,
                height == layout.height + 2,
                i <= tiles.len(),
                state.has_dims(width as int, height as int),
                forall|gx: int, gy: int|
                    0 <= gx < width && 0 <= gy < height ==> (#[trigger] state.cell(gx, gy)).holds(
                        initial_cell_data(layout, extension, gx, gy),
                        placements_upto(tiles, board_position, i as int, gx, gy),
                    ),
                state.unused_tiles@.len() == unused_ids(tiles, board_position, layout, extension, i as int).len(),
                forall|k: int| 0 <= k < state.unused_tiles@.len() ==> {
                    let u = #[trigger] state.unused_tiles@[k];
                    let ids = unused_ids(tiles, board_position, layout, extension, i as int);
                    &&& u.id == ids[k]
                    &&& u.base.same_as(&tiles[ids[k] as int].base)
                    &&& u.base.wf()
                    &&& u.name == tiles[ids[k] as int].name
                },
                forall|k: int| 0 <= k < unused_ids(tiles, board_position, layout, extension, i as int).len()
                    ==> #[trigger] unused_ids(tiles, board_position, layout, extension, i as int)[k] < i,
            decreases tiles.len() - i,
        {
            let tile = &self.tiles[i];
            assert(tiles[i as int].wf());
            let ghost before = state;
            let any_on_board = place_tile(&mut state, tile, i, board_position, width, height);
            proof {
                assert forall|gx: int, gy: int|
                    0 <= gx < width && 0 <= gy < height implies (#[trigger] state.cell(gx, gy)).holds(
                        initial_cell_data(layout, extension, gx, gy),
                        placements_upto(tiles, board_position, i + 1, gx, gy),
                    ) by {
                    assert(before.cell(gx, gy).holds(
                        initial_cell_data(layout, extension, gx, gy),
                        placements_upto(tiles, board_position, i as int, gx, gy),
                    ));
                }
                assert(any_on_board == uses_board(tiles[i as int], board_position, layout, extension)) by {
                    if any_on_board {
                        let (gx, gy) = choose|gx: int, gy: int|
                            0 <= gx < width && 0 <= gy < height && #[trigger] covers(*tile, board_position, gx, gy)
                                && before.cell(gx, gy).data().is_on_board;
                        assert(before.cell(gx, gy).holds(
                            initial_cell_data(layout, extension, gx, gy),
                            placements_upto(tiles, board_position, i as int, gx, gy),
                        ));
                    }
                    if uses_board(tiles[i as int], board_position, layout, extension) {
                        let (gx, gy) = choose|gx: int, gy: int|
                            0 <= gx < layout.width + 2 && 0 <= gy < layout.height + 2 && #[trigger] covers(tiles[i as int], board_position, gx, gy)
                                && initial_cell_data(layout, extension, gx, gy).is_on_board;
                        assert(before.cell(gx, gy).holds(
                            initial_cell_data(layout, extension, gx, gy),
                            placements_upto(tiles, board_position, i as int, gx, gy),
                        ));
                    }
                }
            }
            let ghost placed = state;
            if !any_on_board {
                let name = match &tile.name {
                    Some(n) => Some(n.clone()),
                    None => None,
                };
                let base = tile.base.duplicate();
                state.unused_tiles.push(UnusedTile { id: i, base, name });
            }
            proof {
                assert(state.grid == placed.grid);
                assert forall|gx: int, gy: int|
                    0 <= gx < width && 0 <= gy < height implies (#[trigger] state.cell(gx, gy)).holds(
                        initial_cell_data(layout, extension, gx, gy),
                        placements_upto(tiles, board_position, i + 1, gx, gy),
                    ) by {
                    assert(state.cell(gx, gy) == placed.cell(gx, gy));
                }
                let ids = unused_ids(tiles, board_position, layout, extension, i + 1);
                let prev = unused_ids(tiles, board_position, layout, extension, i as int);
                assert(ids == prev + if !uses_board(tiles[i as int], board_position, layout, extension) {
                    seq![i]
                } else {
                    seq![]
                });
            }
            i = i + 1;
        }
        Ok(state)
    }
}

} // verus!
