//! Positions and sizes of the board and the tiles in the puzzle area.
use vstd::prelude::*;
use crate::offset::{CellOffset, fits_i32, round_div, rounded_div, saturate_i32, saturating_i32};
use crate::shape::Shape;

pub mod board;
pub mod extract;
pub mod initial;
pub mod grid;
pub mod tile;

use board::PlacedBoard;
use grid::GridConfig;
use tile::PlacedTile;
use grid::{
    MIN_CELLS_TO_THE_SIDES_OF_BOARD, MIN_CELLS_TO_THE_TOP_OF_BOARD, boxes_move_fits, extent_fits, laid_out_cells,
    layout_for, moved_clamped, required_cells, required_cells_of, same_tile_shape, tile_box, tile_boxes,
};
use initial::{as_pairs, calculate_tile_start_positions, start_layout, start_layout_ok};
use crate::config::PuzzleConfig;

verus! {

/// A position or a size measured in whole pixels.
#[derive(Debug, Clone, Copy, PartialEq, Eq, Structural)]
pub struct PixelPosition(pub i32, pub i32);

/// The positions and sizes of the board, the tiles and the hint tile of a puzzle.
///
/// The order of the tiles is that of the puzzle configuration; their indices
/// identify them.
#[derive(Debug)]
pub struct PlacementModel {
    /// The layout of the board of the puzzle.
    pub layout: Shape,
    pub area_pixel_size: PixelPosition,
    pub min_area_pixel_size: PixelPosition,
    pub grid_config: GridConfig,
    pub board: PlacedBoard,
    pub tiles: Vec<PlacedTile>,
    pub hint_tile: Option<PlacedTile>,
}


/// `cells` cells of `cell_size` pixels, as whole pixels clamped to the range of `i32`.
pub open spec fn cell_to_pixel(cells: int, cell_size: int) -> int {
    saturate_i32(cells * cell_size)
}

/// The pixel position of a cell position for the given cell size.
pub open spec fn cells_to_pixels(position: CellOffset, cell_size: u32) -> PixelPosition {
    PixelPosition(
        cell_to_pixel(position.0 as int, cell_size as int) as i32,
        cell_to_pixel(position.1 as int, cell_size as int) as i32,
    )
}

impl PlacementModel {
    /// The shapes are well formed, each tile is as large as its current rotation, the
    /// board has the size of its layout and lies within half the range of `i32`
    /// horizontally.
    pub open spec fn wf(&self) -> bool {
        &&& self.layout.wf()
        &&& forall|i: int| 0 <= i < self.tiles@.len() ==> (#[trigger] self.tiles@[i]).wf() && self.tiles@[i].sized_by_rotation()
        &&& (self.hint_tile matches Some(h) ==> h.wf() && h.sized_by_rotation())
        &&& self.board.cell_size == CellOffset(self.layout.width as i32, self.layout.height as i32)
        &&& self.layout.width <= i32::MAX - 12
        &&& self.layout.height <= i32::MAX - 7
        &&& -0x3FFF_FFFF <= self.board.position_cells.0 <= 0x3FFF_FFFF
    }
}


/// Multiplies a number of cells by the cell size, clamped to the range of `i32`.
fn cell_to_pixel_exec(cells: i32, cell_size: u32) -> (r: i32)
    ensures
        r == cell_to_pixel(cells as int, cell_size as int),
{
    let c = cells as i64;
    let s = cell_size as i64;
    assert(-0x8000_0000_0000_0000 <= c * s <= 0x7FFF_FFFF_FFFF_FFFF) by (nonlinear_arith)
        requires
            -0x8000_0000 <= c <= 0x7FFF_FFFF,
            0 <= s <= 0xFFFF_FFFF;
    saturating_i32(c * s)
}

/// The pixel sizes and positions of the board, the tiles and the hint tile are their
/// cell sizes and positions times the cell size.
pub open spec fn pixels_match_cells(m: &PlacementModel) -> bool {
    let s = m.grid_config.cell_size_pixel;
    &&& m.board.position_pixel == cells_to_pixels(m.board.position_cells, s)
    &&& m.board.pixel_size == cells_to_pixels(m.board.cell_size, s)
    &&& forall|i: int| 0 <= i < m.tiles@.len() ==> {
        &&& (#[trigger] m.tiles@[i]).position_pixels == cells_to_pixels(m.tiles@[i].position_cells, s)
        &&& m.tiles@[i].pixel_size == cells_to_pixels(m.tiles@[i].cell_size, s)
    }
    &&& (m.hint_tile matches Some(h) ==> h.position_pixels == cells_to_pixels(h.position_cells, s)
        && h.pixel_size == cells_to_pixels(h.cell_size, s))
}

/// Both models agree on everything but the pixel sizes and positions of the board,
/// the tiles and the hint tile.
pub open spec fn same_cells(n: &PlacementModel, o: &PlacementModel) -> bool {
    &&& n.layout == o.layout
    &&& n.area_pixel_size == o.area_pixel_size
    &&& n.min_area_pixel_size == o.min_area_pixel_size
    &&& n.grid_config == o.grid_config
    &&& n.board.cell_size == o.board.cell_size
    &&& n.board.position_cells == o.board.position_cells
    &&& n.tiles@.len() == o.tiles@.len()
    &&& forall|i: int| 0 <= i < o.tiles@.len() ==> {
        &&& same_tile_shape(#[trigger] n.tiles@[i], o.tiles@[i])
        &&& n.tiles@[i].position_cells == o.tiles@[i].position_cells
    }
    &&& match (n.hint_tile, o.hint_tile) {
        (Some(h), Some(u)) => same_tile_shape(h, u) && h.position_cells == u.position_cells,
        (None, None) => true,
        _ => false,
    }
}

/// Recomputing the pixel data of a model whose board and tiles already have pixel data
/// matching their cell data changes only the pixel data of the hint tile.
pub proof fn lemma_pixels_recomputed(n: &PlacementModel, o: &PlacementModel)
    requires
        same_cells(n, o),
        pixels_match_cells(n),
        o.board.position_pixel == cells_to_pixels(o.board.position_cells, o.grid_config.cell_size_pixel),
        o.board.pixel_size == cells_to_pixels(o.board.cell_size, o.grid_config.cell_size_pixel),
        forall|i: int| 0 <= i < o.tiles@.len() ==> {
            &&& (#[trigger] o.tiles@[i]).position_pixels == cells_to_pixels(o.tiles@[i].position_cells, o.grid_config.cell_size_pixel)
            &&& o.tiles@[i].pixel_size == cells_to_pixels(o.tiles@[i].cell_size, o.grid_config.cell_size_pixel)
        },
    ensures
        n.board == o.board,
        n.tiles@ == o.tiles@,
{
    assert(n.tiles@ =~= o.tiles@);
}

impl PlacementModel {
    /// Converts a position in cells to a position in pixels for the current grid layout.
    pub fn translate_cells_to_pixels(&self, position: CellOffset) -> (r: PixelPosition)
        ensures
            r == cells_to_pixels(position, self.grid_config.cell_size_pixel),
    {
        let cell_size = self.grid_config.cell_size_pixel;
        PixelPosition(cell_to_pixel_exec(position.0, cell_size), cell_to_pixel_exec(position.1, cell_size))
    }

    /// Converts a position in pixels to the nearest position in cells for the current
    /// grid layout.
    pub fn translate_pixels_to_cells(&self, position: PixelPosition) -> (r: CellOffset)
        ensures
            self.grid_config.cell_size_pixel > 0 ==> r.0 == round_div(position.0 as int, self.grid_config.cell_size_pixel as int)
                && r.1 == round_div(position.1 as int, self.grid_config.cell_size_pixel as int),
    {
        let cell_size = self.grid_config.cell_size_pixel;
        CellOffset(rounded_div(position.0, cell_size), rounded_div(position.1, cell_size))
    }

    /// Computes the pixel sizes and positions of the board, the tiles and the hint tile
    /// from their cell sizes and positions.
    pub fn update_pixel_from_cell_data(&mut self)
        requires
            old(self).wf(),
        ensures
            final(self).wf(),
            same_cells(&*final(self), &*old(self)),
            pixels_match_cells(&*final(self)),
    {
        let position_cells = self.board.position_cells;
        self.board.position_pixel = self.translate_cells_to_pixels(position_cells);
        let size_cells = self.board.cell_size;
        self.board.pixel_size = self.translate_cells_to_pixels(size_cells);

        let ghost start = *self;
        let mut i: usize = 0;
        while i < self.tiles.len()
            invariant
                start.wf(),
                i <= self.tiles@.len(),
                self.tiles@.len() == start.tiles@.len(),
                self.layout == start.layout,
                self.area_pixel_size == start.area_pixel_size,
                self.min_area_pixel_size == start.min_area_pixel_size,
                self.grid_config == start.grid_config,
                self.board == start.board,
                self.hint_tile == start.hint_tile,
                forall|j: int| i <= j < self.tiles@.len() ==> #[trigger] self.tiles@[j] == start.tiles@[j],
                forall|j: int| 0 <= j < i ==> {
                    let t = #[trigger] self.tiles@[j];
                    let o = start.tiles@[j];
                    &&& t == (PlacedTile { position_pixels: t.position_pixels, pixel_size: t.pixel_size, ..o })
                    &&& t.position_pixels == cells_to_pixels(t.position_cells, self.grid_config.cell_size_pixel)
                    &&& t.pixel_size == cells_to_pixels(t.cell_size, self.grid_config.cell_size_pixel)
                },
            decreases self.tiles@.len() - i,
        {
            assert(self.tiles@[i as int] == start.tiles@[i as int]);
            let position_cells = self.tiles[i].position_cells;
            let position_pixels = self.translate_cells_to_pixels(position_cells);
            let cell_size = self.tiles[i].cell_size;
            let pixel_size = self.translate_cells_to_pixels(cell_size);
            self.tiles[i].position_pixels = position_pixels;
            self.tiles[i].pixel_size = pixel_size;
            i = i + 1;
        }
        let cell_size_pixel = self.grid_config.cell_size_pixel;
        if let Some(hint_tile) = &mut self.hint_tile {
            let position_cells = hint_tile.position_cells;
            hint_tile.position_pixels = PixelPosition(
                cell_to_pixel_exec(position_cells.0, cell_size_pixel),
                cell_to_pixel_exec(position_cells.1, cell_size_pixel),
            );
            let cells_size = hint_tile.cell_size;
            hint_tile.pixel_size = PixelPosition(
                cell_to_pixel_exec(cells_size.0, cell_size_pixel),
                cell_to_pixel_exec(cells_size.1, cell_size_pixel),
            );
        }
    }
}



/// `n` is `o` after a resize of the view to `total` pixels: views smaller than 100
/// pixels in either direction change nothing; otherwise the model is laid out for the
/// new size, the minimum area is the minimum number of grid cells times the minimum cell
/// size, and all pixel data is computed from the cell data.
pub open spec fn pixel_size_updated(n: &PlacementModel, o: &PlacementModel, total: PixelPosition, min_cell_size_pixel: u32) -> bool {
    &&& total.0 < 100 || total.1 < 100 ==> *n == *o
    &&& total.0 >= 100 && total.1 >= 100 ==> {
        &&& n.area_pixel_size == total
        &&& laid_out_cells(n, o, total)
        &&& n.min_area_pixel_size == cells_to_pixels(n.grid_config.min_grid_cells, min_cell_size_pixel)
        &&& pixels_match_cells(n)
    }
}

/// The minimum area size after a resize of the view to `total` pixels.
pub open spec fn next_min_area(o: &PlacementModel, total: PixelPosition, min_cell_size_pixel: u32) -> PixelPosition {
    if total.0 < 100 || total.1 < 100 {
        o.min_area_pixel_size
    } else {
        cells_to_pixels(
            layout_for(total, o.board.cell_size, required_cells_of(o.tiles@)).0.min_grid_cells,
            min_cell_size_pixel,
        )
    }
}

impl PlacementModel {
    /// Recalculates the grid layout and the pixel positions of the board and the tiles for
    /// a view of the given size in pixels. Views smaller than 100 pixels in either direction
    /// are ignored.
    ///
    /// The minimum area size is the minimum number of grid cells times the minimum cell size.
    pub fn update_pixel_size(&mut self, total_view_size_pixel: PixelPosition, min_cell_size_pixel: u32)
        requires
            old(self).wf(),
            total_view_size_pixel.0 >= 100 && total_view_size_pixel.1 >= 100
                ==> old(self).layout_update_fits(total_view_size_pixel),
        ensures
            final(self).wf(),
            pixel_size_updated(&*final(self), &*old(self), total_view_size_pixel, min_cell_size_pixel),
    {
        if total_view_size_pixel.0 < 100 || total_view_size_pixel.1 < 100 {
            return;
        }
        self.area_pixel_size = total_view_size_pixel;
        self.update_grid_layout();
        let min_grid_cells = self.grid_config.min_grid_cells;
        self.min_area_pixel_size = PixelPosition(
            cell_to_pixel_exec(min_grid_cells.0, min_cell_size_pixel),
            cell_to_pixel_exec(min_grid_cells.1, min_cell_size_pixel),
        );
        self.update_pixel_from_cell_data();
    }

    /// The minimum size the view needs to show the board and all tiles with the
    /// minimum cell size.
    pub fn min_area_size(&self) -> (r: PixelPosition)
        ensures
            r == self.min_area_pixel_size,
    {
        self.min_area_pixel_size
    }

    /// The board position in pixels.
    pub fn board_pixel_position(&self) -> (r: PixelPosition)
        ensures
            r == self.board.position_pixel,
    {
        self.board.position_pixel
    }

    /// The board position in cells.
    pub fn board_cell_position(&self) -> (r: CellOffset)
        ensures
            r == self.board.position_cells,
    {
        self.board.position_cells
    }

    /// The board size in pixels.
    pub fn board_size(&self) -> (r: PixelPosition)
        ensures
            r == self.board.pixel_size,
    {
        self.board.pixel_size
    }

    /// The position of the tile with the given index in pixels; `None` while it is dragged.
    pub fn tile_pixel_position(&self, idx: usize) -> (r: Option<PixelPosition>)
        requires
            idx < self.tiles@.len(),
        ensures
            r == (if self.tiles@[idx as int].dragged { None } else { Some(self.tiles@[idx as int].position_pixels) }),
    {
        let tile = &self.tiles[idx];
        if tile.dragged {
            None
        } else {
            Some(tile.position_pixels)
        }
    }

    /// The position of the tile with the given index in cells; `None` while it is dragged.
    pub fn tile_cell_position(&self, idx: usize) -> (r: Option<CellOffset>)
        requires
            idx < self.tiles@.len(),
        ensures
            r == (if self.tiles@[idx as int].dragged { None } else { Some(self.tiles@[idx as int].position_cells) }),
    {
        let tile = &self.tiles[idx];
        if tile.dragged {
            None
        } else {
            Some(tile.position_cells)
        }
    }

    /// The size of the tile with the given index in pixels.
    pub fn tile_size(&self, idx: usize) -> (r: PixelPosition)
        requires
            idx < self.tiles@.len(),
        ensures
            r == self.tiles@[idx as int].pixel_size,
    {
        self.tiles[idx].pixel_size
    }

    /// Moves a tile to the cell nearest to the given pixel position and snaps its pixel
    /// position to that cell.
    pub fn update_tile_pixel_position(&mut self, idx: usize, position: PixelPosition)
        requires
            old(self).wf(),
            idx < old(self).tiles@.len(),
        ensures
            final(self).wf(),
            ({
                let cells = final(self).tiles@[idx as int].position_cells;
                let s = old(self).grid_config.cell_size_pixel;
                &&& s > 0 ==> cells.0 == round_div(position.0 as int, s as int) && cells.1 == round_div(position.1 as int, s as int)
                &&& final(self).tiles@[idx as int] == (PlacedTile {
                    position_cells: cells,
                    position_pixels: cells_to_pixels(cells, s),
                    ..old(self).tiles@[idx as int]
                })
            }),
            final(self).tiles@.len() == old(self).tiles@.len(),
            forall|i: int| 0 <= i < old(self).tiles@.len() && i != idx ==> #[trigger] final(self).tiles@[i] == old(self).tiles@[i],
            *final(self) == (PlacementModel { tiles: final(self).tiles, ..*old(self) }),
    {
        let position_cells = self.translate_pixels_to_cells(position);
        let position_pixels = self.translate_cells_to_pixels(position_cells);
        self.tiles[idx].position_pixels = position_pixels;
        self.tiles[idx].position_cells = position_cells;
    }

    /// Marks the tile as being dragged or not. The position of a dragged tile is not valid.
    pub fn update_tile_dragged(&mut self, idx: usize, dragged: bool)
        requires
            old(self).wf(),
            idx < old(self).tiles@.len(),
        ensures
            final(self).wf(),
            final(self).tiles@ == old(self).tiles@.update(idx as int, PlacedTile { dragged, ..old(self).tiles@[idx as int] }),
            *final(self) == (PlacementModel { tiles: final(self).tiles, ..*old(self) }),
    {
        self.tiles[idx].dragged = dragged;
    }

    /// Sets the current rotation of a tile, after it was rotated or flipped, and its size.
    pub fn update_tile_shape(&mut self, idx: usize, shape: Shape)
        requires
            old(self).wf(),
            idx < old(self).tiles@.len(),
            shape.wf(),
        ensures
            final(self).wf(),
            final(self).tiles@ == old(self).tiles@.update(idx as int, PlacedTile {
                cell_size: CellOffset(shape.width as i32, shape.height as i32),
                current_rotation: shape,
                ..old(self).tiles@[idx as int]
            }),
            *final(self) == (PlacementModel { tiles: final(self).tiles, ..*old(self) }),
    {
        let (w, h) = shape.dim();
        self.tiles[idx].cell_size = CellOffset(w as i32, h as i32);
        self.tiles[idx].current_rotation = shape;
    }

    /// Places a new hint tile with the given shape at the given position relative to the
    /// board, replacing the previous hint tile.
    pub fn init_hint_tile(&mut self, position_on_board: CellOffset, shape: Shape)
        requires
            old(self).wf(),
            shape.wf(),
            fits_i32(old(self).board.position_cells.0 + position_on_board.0),
            fits_i32(old(self).board.position_cells.1 + position_on_board.1),
        ensures
            final(self).wf(),
            final(self).hint_tile matches Some(h) && {
                &&& h.name is None
                &&& h.base == shape
                &&& h.current_rotation.same_as(&shape)
                &&& h.cell_size == CellOffset(shape.width as i32, shape.height as i32)
                &&& h.position_cells.0 == old(self).board.position_cells.0 + position_on_board.0
                &&& h.position_cells.1 == old(self).board.position_cells.1 + position_on_board.1
                &&& h.pixel_size == PixelPosition(0, 0)
                &&& h.position_pixels == PixelPosition(0, 0)
                &&& !h.dragged
            },
            *final(self) == (PlacementModel { hint_tile: final(self).hint_tile, ..*old(self) }),
    {
        let position = self.board.position_cells.add_other(&position_on_board);
        let (w, h) = shape.dim();
        let size = CellOffset(w as i32, h as i32);
        self.hint_tile = Some(PlacedTile::new(None, shape, size, position));
    }

    /// The position of the hint tile in pixels; `None` without a hint tile.
    pub fn hint_tile_position(&self) -> (r: Option<PixelPosition>)
        ensures
            r == (match self.hint_tile { Some(h) => Some(h.position_pixels), None => None }),
    {
        match &self.hint_tile {
            Some(h) => Some(h.position_pixels),
            None => None,
        }
    }

    /// The size of the hint tile in pixels; `None` without a hint tile.
    pub fn hint_tile_size(&self) -> (r: Option<PixelPosition>)
        ensures
            r == (match self.hint_tile { Some(h) => Some(h.pixel_size), None => None }),
    {
        match &self.hint_tile {
            Some(h) => Some(h.pixel_size),
            None => None,
        }
    }

    /// Removes the hint tile.
    pub fn remove_hint_tile(&mut self)
        requires
            old(self).wf(),
        ensures
            final(self).wf(),
            *final(self) == (PlacementModel { hint_tile: None, ..*old(self) }),
    {
        self.hint_tile = None;
    }

    /// The index of the first tile whose base shape equals the given one; `None` if
    /// there is none.
    pub fn find_tile_matching_base(&self, base: &Shape) -> (r: Option<usize>)
        requires
            self.wf(),
            base.wf(),
        ensures
            match r {
                Some(i) => i < self.tiles@.len() && self.tiles@[i as int].base.same_as(base)
                    && forall|j: int| 0 <= j < i ==> !(#[trigger] self.tiles@[j]).base.same_as(base),
                None => forall|j: int| 0 <= j < self.tiles@.len() ==> !(#[trigger] self.tiles@[j]).base.same_as(base),
            },
    {
        let mut i: usize = 0;
        while i < self.tiles.len()
            invariant
                self.wf(),
                base.wf(),
                i <= self.tiles@.len(),
                forall|j: int| 0 <= j < i ==> !(#[trigger] self.tiles@[j]).base.same_as(base),
            decreases self.tiles@.len() - i,
        {
            assert(self.tiles@[i as int].wf());
            if self.tiles[i].base.equals(base) {
                return Some(i);
            }
            i = i + 1;
        }
        None
    }
}


/// Where the board is placed before the area size is known.
pub open spec fn initial_board_position() -> CellOffset {
    CellOffset(MIN_CELLS_TO_THE_SIDES_OF_BOARD, MIN_CELLS_TO_THE_TOP_OF_BOARD)
}

/// The sizes and start positions of the tiles of a puzzle, as `(width, height, x, y)`.
pub open spec fn initial_boxes(config: &PuzzleConfig) -> Seq<(int, int, int, int)> {
    let layout = config.layout();
    let positions = start_layout(config.tiles@, layout.width as int, layout.height as int, initial_board_position());
    Seq::new(config.tiles@.len(), |i: int| (
        config.tiles@[i].base.width as int,
        config.tiles@[i].base.height as int,
        positions[i].0,
        positions[i].1,
    ))
}

/// The area the model is first laid out for.
pub open spec fn initial_area() -> PixelPosition {
    PixelPosition(100, 100)
}

/// The puzzle can be placed: the tiles fit around the board and the first layout
/// does not overflow.
pub open spec fn placement_fits(config: &PuzzleConfig) -> bool {
    let layout = config.layout();
    let boxes = initial_boxes(config);
    let b = layout_for(initial_area(), CellOffset(layout.width as i32, layout.height as i32), required_cells(boxes)).1;
    &&& config.wf()
    &&& layout.width <= i32::MAX - 12
    &&& layout.height <= i32::MAX - 7
    &&& start_layout_ok(config.tiles@, layout.width as int, layout.height as int, initial_board_position())
    &&& extent_fits(boxes)
    &&& (b.0 != initial_board_position().0 ==> boxes_move_fits(boxes, CellOffset((b.0 - initial_board_position().0) as i32, 0)))
}

impl PlacementModel {
    /// Creates the placement of a puzzle: the board right of a margin, the tiles at
    /// their start positions around it, everything laid out for a first area of
    /// 100 by 100 pixels with a minimum cell size of 10 pixels.
    ///
    /// The order of the tiles is that of the configuration.
    pub fn new(puzzle_config: &PuzzleConfig) -> (m: PlacementModel)
        requires
            placement_fits(puzzle_config),
        ensures
            m.wf(),
            m.layout.same_as(&puzzle_config.layout()),
            m.hint_tile is None,
            m.area_pixel_size == initial_area(),
            ({
                let boxes = initial_boxes(puzzle_config);
                let layout = puzzle_config.layout();
                let (g, b) = layout_for(initial_area(), CellOffset(layout.width as i32, layout.height as i32), required_cells(boxes));
                let d = b.0 - initial_board_position().0;
                &&& m.grid_config == g
                &&& m.board.position_cells == b
                &&& m.board.cell_size == CellOffset(layout.width as i32, layout.height as i32)
                &&& m.tiles@.len() == puzzle_config.tiles@.len()
                &&& forall|i: int| 0 <= i < m.tiles@.len() ==> {
                    let t = #[trigger] m.tiles@[i];
                    &&& t.name == puzzle_config.tiles@[i].name
                    &&& t.base.same_as(&puzzle_config.tiles@[i].base)
                    &&& t.current_rotation.same_as(&puzzle_config.tiles@[i].base)
                    &&& t.cell_size.0 == boxes[i].0 && t.cell_size.1 == boxes[i].1
                    &&& !t.dragged
                    &&& (d != 0 ==> t.position_cells.0 == moved_clamped(boxes[i].2, d)
                        && t.position_cells.1 == moved_clamped(boxes[i].3, 0))
                    &&& (d == 0 ==> t.position_cells.0 == boxes[i].2 && t.position_cells.1 == boxes[i].3)
                }
                &&& m.min_area_pixel_size == cells_to_pixels(g.min_grid_cells, 10)
                &&& pixels_match_cells(&m)
            }),
    {
        let layout = puzzle_config.board_config.layout();
        let grid_config = Self::initial_grid_config(puzzle_config);
        let board = PlacedBoard::new(
            CellOffset(layout.width as i32, layout.height as i32),
            PixelPosition(0, 0),
            CellOffset(MIN_CELLS_TO_THE_SIDES_OF_BOARD, MIN_CELLS_TO_THE_TOP_OF_BOARD),
        );
        let tiles_config = &puzzle_config.tiles;
        let start_positions = calculate_tile_start_positions(
            tiles_config,
            puzzle_config,
            CellOffset(MIN_CELLS_TO_THE_SIDES_OF_BOARD, MIN_CELLS_TO_THE_TOP_OF_BOARD),
        );
        let ghost boxes = initial_boxes(puzzle_config);
        let mut tiles: Vec<PlacedTile> = Vec::new();
        let mut i: usize = 0;
        while i < tiles_config.len()
            invariant
                puzzle_config.wf(),
                tiles_config == &puzzle_config.tiles,
                start_positions@.len() == tiles_config@.len(),
                boxes == initial_boxes(puzzle_config),
                as_pairs(start_positions@) == start_layout(tiles_config@, layout.width as int, layout.height as int, initial_board_position()),
                layout == &puzzle_config.layout(),
                i <= tiles_config@.len(),
                tiles@.len() == i,
                forall|j: int| 0 <= j < i ==> {
                    let t = #[trigger] tiles@[j];
                    &&& t.wf()
                    &&& t.name == puzzle_config.tiles@[j].name
                    &&& t.base.same_as(&puzzle_config.tiles@[j].base)
                    &&& t.current_rotation.same_as(&puzzle_config.tiles@[j].base)
                    &&& tile_box(t) == boxes[j]
                    &&& !t.dragged
                    &&& t.pixel_size == PixelPosition(0, 0)
                    &&& t.position_pixels == PixelPosition(0, 0)
                },
            decreases tiles_config@.len() - i,
        {
            let config = &tiles_config[i];
            assert(config.wf());
            let name = match &config.name {
                Some(n) => Some(n.clone()),
                None => None,
            };
            let shape = config.base.duplicate();
            let (w, h) = shape.dim();
            let cell_size = CellOffset(w as i32, h as i32);
            assert(as_pairs(start_positions@)[i as int] == (start_positions@[i as int].0 as int, start_positions@[i as int].1 as int));
            tiles.push(PlacedTile::new(name, shape, cell_size, start_positions[i]));
            i = i + 1;
        }
        let mut model = PlacementModel {
            layout: layout.duplicate(),
            area_pixel_size: PixelPosition(0, 0),
            min_area_pixel_size: PixelPosition(0, 0),
            grid_config,
            board,
            tiles,
            hint_tile: None,
        };
        assert(tile_boxes(model.tiles@) =~= boxes);
        model.update_pixel_size(PixelPosition(100, 100), 10);
        model
    }
}

} // verus!
