//! The grid the puzzle area is divided into.
use vstd::prelude::*;
use crate::config::PuzzleConfig;
use crate::offset::{CellOffset, fits_i32, max_int, min_int, saturate_i32, saturate_u32, saturating_i32, saturating_u32};
use super::{PixelPosition, PlacementModel};
use super::tile::PlacedTile;
use super::board::PlacedBoard;

verus! {

/// Free cells left of and right of the board.
pub const MIN_CELLS_TO_THE_SIDES_OF_BOARD: i32 = 6;
/// Free cells above the board.
pub const MIN_CELLS_TO_THE_TOP_OF_BOARD: i32 = 1;
/// Free cells below the board.
pub const MIN_CELLS_TO_THE_BOTTOM_OF_BOARD: i32 = 6;

/// Configuration of the puzzle grid layout.
#[derive(Debug, Clone, Copy, PartialEq, Eq, Structural)]
pub struct GridConfig {
    /// The number of cells that fit into the area.
    pub grid_cells: CellOffset,
    /// The number of cells the area needs at least.
    pub min_grid_cells: CellOffset,
    /// The edge length of a cell in pixels.
    pub cell_size_pixel: u32,
}

impl Default for GridConfig {
    fn default() -> (r: GridConfig)
        ensures
            r == (GridConfig { grid_cells: CellOffset(1, 1), min_grid_cells: CellOffset(1, 1), cell_size_pixel: 1 }),
    {
        GridConfig { grid_cells: CellOffset(1, 1), min_grid_cells: CellOffset(1, 1), cell_size_pixel: 1 }
    }
}


/// The size and the position of a tile, as `(width, height, x, y)` in cells.
pub open spec fn tile_box(t: PlacedTile) -> (int, int, int, int) {
    (t.cell_size.0 as int, t.cell_size.1 as int, t.position_cells.0 as int, t.position_cells.1 as int)
}

/// The sizes and positions of the tiles.
pub open spec fn tile_boxes(tiles: Seq<PlacedTile>) -> Seq<(int, int, int, int)> {
    tiles.map_values(|t: PlacedTile| tile_box(t))
}

/// The largest right and bottom edge of the first `k` boxes, and at least zero.
pub open spec fn max_extent(boxes: Seq<(int, int, int, int)>, k: int) -> (int, int)
    decreases k,
{
    if k <= 0 {
        (0, 0)
    } else {
        let p = max_extent(boxes, k - 1);
        let b = boxes[k - 1];
        (max_int(p.0, b.0 + b.2), max_int(p.1, b.1 + b.3))
    }
}

/// The smallest left and top edge of the first `k` boxes, and at most zero.
pub open spec fn min_position(boxes: Seq<(int, int, int, int)>, k: int) -> (int, int)
    decreases k,
{
    if k <= 0 {
        (0, 0)
    } else {
        let p = min_position(boxes, k - 1);
        let b = boxes[k - 1];
        (min_int(p.0, b.2), min_int(p.1, b.3))
    }
}

/// The number of cells needed to show all boxes at their positions.
pub open spec fn required_cells(boxes: Seq<(int, int, int, int)>) -> (int, int) {
    let e = max_extent(boxes, boxes.len() as int);
    let m = min_position(boxes, boxes.len() as int);
    (e.0 - m.0, e.1 - m.1)
}

/// The number of cells needed to show all tiles at their positions.
pub open spec fn required_cells_of(tiles: Seq<PlacedTile>) -> (int, int) {
    required_cells(tile_boxes(tiles))
}

/// The computation of the cells needed by the boxes does not overflow.
pub open spec fn extent_fits(boxes: Seq<(int, int, int, int)>) -> bool {
    &&& forall|i: int| 0 <= i < boxes.len() ==> fits_i32((#[trigger] boxes[i]).0 + boxes[i].2) && fits_i32(boxes[i].1 + boxes[i].3)
    &&& fits_i32(required_cells(boxes).0)
    &&& fits_i32(required_cells(boxes).1)
}

/// The computation of the cells needed by the tiles does not overflow.
pub open spec fn tiles_extent_fits(tiles: Seq<PlacedTile>) -> bool {
    extent_fits(tile_boxes(tiles))
}

/// Moving the boxes by `offset` does not overflow.
pub open spec fn boxes_move_fits(boxes: Seq<(int, int, int, int)>, offset: CellOffset) -> bool {
    forall|i: int| 0 <= i < boxes.len() ==> fits_i32((#[trigger] boxes[i]).2 + offset.0) && fits_i32(boxes[i].3 + offset.1)
}

/// Moving the tiles and the hint tile by `offset` does not overflow.
pub open spec fn move_fits(tiles: Seq<PlacedTile>, hint_tile: Option<PlacedTile>, offset: CellOffset) -> bool {
    &&& boxes_move_fits(tile_boxes(tiles), offset)
    &&& (hint_tile matches Some(h) ==> fits_i32(h.position_cells.0 + offset.0) && fits_i32(h.position_cells.1 + offset.1))
}

/// Half of `v`, rounded toward zero as integer division does.
pub open spec fn half_toward_zero(v: int) -> int {
    if v >= 0 { v / 2 } else { -((-v) / 2) }
}

/// The grid configuration and the board position that fit the given area.
///
/// The cells are squares as large as possible such that the board with its margins and
/// all tiles fit into the area; the grid then fills the whole area, and the board is
/// centered horizontally with one free row above it.
pub open spec fn layout_for(
    area: PixelPosition,
    board_size: CellOffset,
    tiles_required: (int, int),
) -> (GridConfig, CellOffset) {
    let required = (
        max_int(board_size.0 + MIN_CELLS_TO_THE_SIDES_OF_BOARD * 2, tiles_required.0),
        max_int(board_size.1 + MIN_CELLS_TO_THE_TOP_OF_BOARD + MIN_CELLS_TO_THE_BOTTOM_OF_BOARD, tiles_required.1),
    );
    let cell_width = saturate_u32(area.0 as int / required.0);
    let cell_height = saturate_u32(area.1 as int / required.1);
    let cell_size = min_int(cell_width, cell_height);
    let grid_h = if cell_size == 0 { i32::MAX as int } else { saturate_i32(area.0 as int / cell_size) };
    let grid_v = if cell_size == 0 { i32::MAX as int } else { saturate_i32(area.1 as int / cell_size) };
    (
        GridConfig {
            grid_cells: CellOffset(grid_h as i32, grid_v as i32),
            min_grid_cells: CellOffset(required.0 as i32, required.1 as i32),
            cell_size_pixel: cell_size as u32,
        },
        CellOffset(half_toward_zero(grid_h - board_size.0) as i32, MIN_CELLS_TO_THE_TOP_OF_BOARD),
    )
}

/// `v` moved by `d` and kept non-negative.
pub open spec fn moved_clamped(v: int, d: int) -> int {
    if v + d < 0 { 0 } else { v + d }
}

impl PlacementModel {
    /// The grid configuration for a puzzle before the size of the area is known:
    /// exactly the board with its margins.
    pub fn initial_grid_config(puzzle_config: &PuzzleConfig) -> (r: GridConfig)
        requires
            puzzle_config.layout().wf(),
            puzzle_config.layout().width <= i32::MAX - 12,
            puzzle_config.layout().height <= i32::MAX - 7,
        ensures
            r.grid_cells == CellOffset(
                (puzzle_config.layout().width + 12) as i32,
                (puzzle_config.layout().height + 7) as i32,
            ),
            r.min_grid_cells == r.grid_cells,
            r.cell_size_pixel == 1,
    {
        let layout = puzzle_config.board_config.layout();
        let board_cell_width = layout.width as i32;
        let board_cell_height = layout.height as i32;
        let required_h_cells = board_cell_width + MIN_CELLS_TO_THE_SIDES_OF_BOARD * 2;
        let required_v_cells = board_cell_height + MIN_CELLS_TO_THE_TOP_OF_BOARD + MIN_CELLS_TO_THE_BOTTOM_OF_BOARD;
        GridConfig {
            grid_cells: CellOffset(required_h_cells, required_v_cells),
            min_grid_cells: CellOffset(required_h_cells, required_v_cells),
            cell_size_pixel: 1,
        }
    }

    /// The number of cells needed to show all tiles at their current positions.
    pub fn tiles_required_cells(&self) -> (r: CellOffset)
        requires
            tiles_extent_fits(self.tiles@),
        ensures
            r.0 == required_cells_of(self.tiles@).0,
            r.1 == required_cells_of(self.tiles@).1,
    {
        let mut required_cells = CellOffset(0, 0);
        let mut lowest_position_cells = CellOffset(0, 0);
        let mut i: usize = 0;
        while i < self.tiles.len()
            invariant
                tiles_extent_fits(self.tiles@),
                i <= self.tiles@.len(),
                required_cells.0 == max_extent(tile_boxes(self.tiles@), i as int).0,
                required_cells.1 == max_extent(tile_boxes(self.tiles@), i as int).1,
                lowest_position_cells.0 == min_position(tile_boxes(self.tiles@), i as int).0,
                lowest_position_cells.1 == min_position(tile_boxes(self.tiles@), i as int).1,
            decreases self.tiles@.len() - i,
        {
            let tile = &self.tiles[i];
            assert(tile_boxes(self.tiles@)[i as int] == tile_box(self.tiles@[i as int]));
            let extent = tile.cell_size.add_other(&tile.position_cells);
            required_cells = required_cells.max(extent);
            lowest_position_cells = lowest_position_cells.min(tile.position_cells);
            i = i + 1;
        }
        required_cells.subtract_other(&lowest_position_cells)
    }

    /// Moves all tiles and the hint tile by the given offset. An element that would end
    /// at a negative position is put at zero instead, so that all elements stay visible.
    pub fn move_all_elements_by(&mut self, offset_cells: CellOffset)
        requires
            old(self).wf(),
            move_fits(old(self).tiles@, old(self).hint_tile, offset_cells),
        ensures
            final(self).wf(),
            final(self).layout == old(self).layout,
            final(self).area_pixel_size == old(self).area_pixel_size,
            final(self).min_area_pixel_size == old(self).min_area_pixel_size,
            final(self).grid_config == old(self).grid_config,
            final(self).board == old(self).board,
            final(self).tiles@.len() == old(self).tiles@.len(),
            forall|i: int| 0 <= i < old(self).tiles@.len() ==> {
                let t = #[trigger] final(self).tiles@[i];
                let o = old(self).tiles@[i];
                &&& t.position_cells.0 == moved_clamped(o.position_cells.0 as int, offset_cells.0 as int)
                &&& t.position_cells.1 == moved_clamped(o.position_cells.1 as int, offset_cells.1 as int)
                &&& t == (PlacedTile { position_cells: t.position_cells, ..o })
            },
            match (final(self).hint_tile, old(self).hint_tile) {
                (Some(h), Some(o)) => h.position_cells.0 == moved_clamped(o.position_cells.0 as int, offset_cells.0 as int)
                    && h.position_cells.1 == moved_clamped(o.position_cells.1 as int, offset_cells.1 as int)
                    && h == (PlacedTile { position_cells: h.position_cells, ..o }),
                (None, None) => true,
                _ => false,
            },
    {
        let ghost start = *self;
        let mut i: usize = 0;
        while i < self.tiles.len()
            invariant
                start.wf(),
                move_fits(start.tiles@, start.hint_tile, offset_cells),
                i <= self.tiles@.len(),
                self.tiles@.len() == start.tiles@.len(),
                self.layout == start.layout,
                self.area_pixel_size == start.area_pixel_size,
                self.min_area_pixel_size == start.min_area_pixel_size,
                self.grid_config == start.grid_config,
                self.board == start.board,
                self.hint_tile == start.hint_tile,
                forall|j: int| i <= j < self.tiles@.len() ==> #[trigger] self.tiles@[j] == start.tiles@[j],
                forall|j: int| 0 <= j < i ==> {
                    let t = #[trigger] self.tiles@[j];
                    let o = start.tiles@[j];
                    &&& t.position_cells.0 == moved_clamped(o.position_cells.0 as int, offset_cells.0 as int)
                    &&& t.position_cells.1 == moved_clamped(o.position_cells.1 as int, offset_cells.1 as int)
                    &&& t == (PlacedTile { position_cells: t.position_cells, ..o })
                },
            decreases self.tiles@.len() - i,
        {
            assert(self.tiles@[i as int] == start.tiles@[i as int]);
            assert(tile_boxes(start.tiles@)[i as int] == tile_box(start.tiles@[i as int]));
            let position_cells = self.tiles[i].position_cells;
            let mut new_position_cells = position_cells.add_other(&offset_cells);
            if new_position_cells.0 < 0 {
                new_position_cells.0 = 0;
            }
            if new_position_cells.1 < 0 {
                new_position_cells.1 = 0;
            }
            self.tiles[i].position_cells = new_position_cells;
            i = i + 1;
        }
        if let Some(hint_tile) = &mut self.hint_tile {
            let mut new_position_cells = hint_tile.position_cells.add_other(&offset_cells);
            if new_position_cells.0 < 0 {
                new_position_cells.0 = 0;
            }
            if new_position_cells.1 < 0 {
                new_position_cells.1 = 0;
            }
            hint_tile.position_cells = new_position_cells;
        }
    }
}



/// The tile has the same shapes, size and drag state as the other one.
pub open spec fn same_tile_shape(t: PlacedTile, o: PlacedTile) -> bool {
    &&& t.name == o.name
    &&& t.base == o.base
    &&& t.current_rotation == o.current_rotation
    &&& t.cell_size == o.cell_size
    &&& t.dragged == o.dragged
}

/// The pixel sizes and positions of the board and the tiles are the same in both models.
pub open spec fn pixels_unchanged(n: &PlacementModel, o: &PlacementModel) -> bool {
    &&& n.board.pixel_size == o.board.pixel_size
    &&& n.board.position_pixel == o.board.position_pixel
    &&& n.tiles@.len() == o.tiles@.len()
    &&& forall|i: int| 0 <= i < o.tiles@.len() ==> {
        &&& (#[trigger] n.tiles@[i]).pixel_size == o.tiles@[i].pixel_size
        &&& n.tiles@[i].position_pixels == o.tiles@[i].position_pixels
    }
    &&& match (n.hint_tile, o.hint_tile) {
        (Some(h), Some(g)) => h.pixel_size == g.pixel_size && h.position_pixels == g.position_pixels,
        (None, None) => true,
        _ => false,
    }
}

/// `n` is `o` laid out for an area of the given size: it has the grid configuration
/// and board position of `layout_for`, and when the board moved horizontally, the
/// tiles and the hint tile moved with it, kept at non-negative positions.
pub open spec fn laid_out_cells(n: &PlacementModel, o: &PlacementModel, area: PixelPosition) -> bool {
    let (g, b) = layout_for(area, o.board.cell_size, required_cells_of(o.tiles@));
    let moved = b.0 != o.board.position_cells.0;
    let d = b.0 - o.board.position_cells.0;
    &&& n.grid_config == g
    &&& n.board.position_cells == b
    &&& n.board.cell_size == o.board.cell_size
    &&& n.layout == o.layout
    &&& n.tiles@.len() == o.tiles@.len()
    &&& forall|i: int| 0 <= i < o.tiles@.len() ==> {
        let t = #[trigger] n.tiles@[i];
        let u = o.tiles@[i];
        &&& same_tile_shape(t, u)
        &&& (moved ==> t.position_cells.0 == moved_clamped(u.position_cells.0 as int, d)
            && t.position_cells.1 == moved_clamped(u.position_cells.1 as int, 0))
        &&& (!moved ==> t.position_cells == u.position_cells)
    }
    &&& match (n.hint_tile, o.hint_tile) {
        (Some(h), Some(u)) => same_tile_shape(h, u)
            && (moved ==> h.position_cells.0 == moved_clamped(u.position_cells.0 as int, d)
                && h.position_cells.1 == moved_clamped(u.position_cells.1 as int, 0))
            && (!moved ==> h.position_cells == u.position_cells),
        (None, None) => true,
        _ => false,
    }
}

impl PlacementModel {
    /// Recomputing the layout for an area of the given size does not overflow.
    pub open spec fn layout_update_fits(&self, area: PixelPosition) -> bool {
        &&& tiles_extent_fits(self.tiles@)
        &&& {
            let b = layout_for(area, self.board.cell_size, required_cells_of(self.tiles@)).1;
            b.0 != self.board.position_cells.0 ==> move_fits(
                self.tiles@,
                self.hint_tile,
                CellOffset((b.0 - self.board.position_cells.0) as i32, 0),
            )
        }
    }

    /// Takes over a new grid configuration and board position. When the board moves
    /// horizontally, all tiles move with it.
    pub fn update_grid_config(&mut self, grid_config: GridConfig, board_position_cells: CellOffset)
        requires
            old(self).wf(),
            -0x3FFF_FFFF <= board_position_cells.0 <= 0x3FFF_FFFF,
            old(self).board.position_cells.0 != board_position_cells.0 ==> move_fits(
                old(self).tiles@,
                old(self).hint_tile,
                CellOffset((board_position_cells.0 - old(self).board.position_cells.0) as i32, 0),
            ),
        ensures
            final(self).wf(),
            final(self).grid_config == grid_config,
            final(self).board == (PlacedBoard { position_cells: board_position_cells, ..old(self).board }),
            final(self).layout == old(self).layout,
            final(self).area_pixel_size == old(self).area_pixel_size,
            final(self).min_area_pixel_size == old(self).min_area_pixel_size,
            final(self).tiles@.len() == old(self).tiles@.len(),
            old(self).board.position_cells.0 == board_position_cells.0 ==> {
                &&& final(self).tiles@ == old(self).tiles@
                &&& final(self).hint_tile == old(self).hint_tile
            },
            old(self).board.position_cells.0 != board_position_cells.0 ==> {
                let d = board_position_cells.0 - old(self).board.position_cells.0;
                &&& forall|i: int| 0 <= i < old(self).tiles@.len() ==> {
                    let t = #[trigger] final(self).tiles@[i];
                    let o = old(self).tiles@[i];
                    &&& t.position_cells.0 == moved_clamped(o.position_cells.0 as int, d)
                    &&& t.position_cells.1 == moved_clamped(o.position_cells.1 as int, 0)
                    &&& t == (PlacedTile { position_cells: t.position_cells, ..o })
                }
                &&& match (final(self).hint_tile, old(self).hint_tile) {
                    (Some(h), Some(o)) => h.position_cells.0 == moved_clamped(o.position_cells.0 as int, d)
                        && h.position_cells.1 == moved_clamped(o.position_cells.1 as int, 0)
                        && h == (PlacedTile { position_cells: h.position_cells, ..o }),
                    (None, None) => true,
                    _ => false,
                }
            },
    {
        let old_board_position_cells = self.board.position_cells;
        if old_board_position_cells.0 != board_position_cells.0 {
            self.move_all_elements_by(CellOffset(board_position_cells.0 - old_board_position_cells.0, 0));
        }
        self.grid_config = grid_config;
        self.board.position_cells = board_position_cells;
    }

    /// Calculates how the grid is laid out for the current area size and the current
    /// positions of the tiles, and takes the new layout over if it differs.
    ///
    /// All tiles stay visible and the board is centered.
    pub fn update_grid_layout(&mut self)
        requires
            old(self).wf(),
            old(self).area_pixel_size.0 > 0,
            old(self).area_pixel_size.1 > 0,
            old(self).layout_update_fits(old(self).area_pixel_size),
        ensures
            final(self).wf(),
            laid_out_cells(&*final(self), &*old(self), old(self).area_pixel_size),
            pixels_unchanged(&*final(self), &*old(self)),
            final(self).area_pixel_size == old(self).area_pixel_size,
            final(self).min_area_pixel_size == old(self).min_area_pixel_size,
    {
        let area = self.area_pixel_size;
        let board_size_cells = self.board.cell_size;
        let board_size_cells_with_margin = board_size_cells.add_tuple((
            MIN_CELLS_TO_THE_SIDES_OF_BOARD * 2,
            MIN_CELLS_TO_THE_TOP_OF_BOARD + MIN_CELLS_TO_THE_BOTTOM_OF_BOARD,
        ));
        let tiles_required_cells = self.tiles_required_cells();
        let required_cells = board_size_cells_with_margin.max(tiles_required_cells);

        let cell_width_pixel = saturating_u32(area.0 as i64 / required_cells.0 as i64);
        let cell_height_pixel = saturating_u32(area.1 as i64 / required_cells.1 as i64);
        let cell_size_pixel = if cell_width_pixel <= cell_height_pixel { cell_width_pixel } else { cell_height_pixel };

        let grid_h_cell_count = if cell_size_pixel == 0 {
            i32::MAX
        } else {
            saturating_i32(area.0 as i64 / cell_size_pixel as i64)
        };
        let min_grid_h_cell_count = required_cells.0;
        let grid_v_cell_count = if cell_size_pixel == 0 {
            i32::MAX
        } else {
            saturating_i32(area.1 as i64 / cell_size_pixel as i64)
        };
        let min_grid_v_cell_count = required_cells.1;

        let free_h_cells = grid_h_cell_count - board_size_cells.0;
        let board_offset_h = if free_h_cells >= 0 { free_h_cells / 2 } else { -((-free_h_cells) / 2) };
        let board_offset_cells = CellOffset(board_offset_h, MIN_CELLS_TO_THE_TOP_OF_BOARD);

        let grid_config = GridConfig {
            grid_cells: CellOffset(grid_h_cell_count, grid_v_cell_count),
            min_grid_cells: CellOffset(min_grid_h_cell_count, min_grid_v_cell_count),
            cell_size_pixel,
        };
        assert((grid_config, board_offset_cells) == layout_for(area, board_size_cells, required_cells_of(self.tiles@)));
        let old_board_position_cells = self.board.position_cells;
        if self.grid_config != grid_config || old_board_position_cells != board_offset_cells {
            self.update_grid_config(grid_config, board_offset_cells);
        }
    }
}

} // verus!
