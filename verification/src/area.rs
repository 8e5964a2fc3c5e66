//! The puzzle area: the decisions behind the view that shows the board, the tiles and
//! the hint tile.
use vstd::prelude::*;
use crate::extension::PuzzleTypeExtension;
use crate::highlight::{TileHighlight, grid_highlights, highlight_invalid_tile_parts};
use crate::shape::Shape;
use crate::offset::{CellOffset, fits_i32, max_int, round_div, rounded_div};
use crate::placement::cells_to_pixels;
use crate::placement::tile::PlacedTile;
use crate::placement::grid::GridConfig;
use crate::placement::{PixelPosition, PlacementModel, next_min_area, pixel_size_updated, pixels_match_cells};
use crate::placement::extract::is_extracted_state;
use crate::placement::extract::some_tile_dragged;
use crate::puzzle_state::{PuzzleState, extension_fits};

verus! {

/// The size of the window the puzzle area is shown in.
#[derive(Debug, Clone, Copy, PartialEq, Eq, Structural)]
pub struct WindowState {
    /// Whether the window shows the puzzle area.
    pub shows_content: bool,
    pub width: i32,
    pub height: i32,
    pub header_bar_height: i32,
    /// The smallest size the window may have.
    pub min_width: i32,
    pub min_height: i32,
}

/// The size and position of one tile in pixels; no position while it is dragged.
#[derive(Debug, Clone, Copy, PartialEq, Eq, Structural)]
pub struct TileLayout {
    pub size: PixelPosition,
    pub position: Option<PixelPosition>,
}

/// Where the elements of the puzzle area go, and the size the window requests.
#[derive(Debug)]
pub struct AreaLayout {
    pub width_request: i32,
    pub height_request: i32,
    pub board_position: PixelPosition,
    pub board_size: PixelPosition,
    pub tiles: Vec<TileLayout>,
    pub hint_tile: Option<TileLayout>,
}

/// The state of the puzzle area behind its widgets.
#[derive(Debug)]
pub struct PuzzleArea {
    pub placement_model: Option<PlacementModel>,
    /// The smallest size a cell of the board view needs, while a board is shown.
    pub board_min_element_size: Option<u32>,
    /// Whether a hint tile is shown.
    pub hint_tile_shown: bool,
    pub puzzle_type_extension: Option<PuzzleTypeExtension>,
}

/// The size in pixels of a shape: its dimensions times the cell size.
pub open spec fn shape_pixels(shape: Shape, cell_size: u32) -> PixelPosition {
    cells_to_pixels(CellOffset(shape.width as i32, shape.height as i32), cell_size)
}

/// The layouts of the tiles of a placement model, in tile order: the pixel size and
/// pixel position of each tile; a dragged tile keeps its place.
pub open spec fn tile_layouts(m: &PlacementModel) -> Seq<TileLayout> {
    Seq::new(m.tiles@.len(), |i: int| TileLayout {
        size: m.tiles@[i].pixel_size,
        position: if m.tiles@[i].dragged { None } else { Some(m.tiles@[i].position_pixels) },
    })
}

/// The layout of the hint tile of a placement model, if it has one and it is shown.
pub open spec fn hint_layout(m: &PlacementModel, shown: bool) -> Option<TileLayout> {
    match m.hint_tile {
        Some(h) => if shown { Some(TileLayout { size: h.pixel_size, position: Some(h.position_pixels) }) } else { None },
        None => None,
    }
}

/// Each tile of the layouts is as large as its current rotation and lies at its cell
/// position, both times the cell size.
pub open spec fn layouts_follow_cells(m: &PlacementModel, layouts: Seq<TileLayout>) -> bool {
    forall|i: int| 0 <= i < layouts.len() ==> {
        &&& (#[trigger] layouts[i]).size == shape_pixels(m.tiles@[i].current_rotation, m.grid_config.cell_size_pixel)
        &&& (layouts[i].position matches Some(p) ==> p == cells_to_pixels(m.tiles@[i].position_cells, m.grid_config.cell_size_pixel))
    }
}

/// `v` limited to the range from `lo` to `hi`.
pub open spec fn clamp_int(v: int, lo: int, hi: int) -> int {
    if v < lo { lo } else if v > hi { hi } else { v }
}

/// Limits `v` to the range from `lo` to `hi`.
fn clamp_i64(v: i64, lo: i64, hi: i64) -> (r: i64)
    requires
        lo <= hi,
    ensures
        r == clamp_int(v as int, lo as int, hi as int),
{
    if v < lo {
        lo
    } else if v > hi {
        hi
    } else {
        v
    }
}

/// The position of a tile while it is dragged: the position where the drag started,
/// moved by the offset of the drag and kept between zero and `max`, the area size
/// less the tile size, so that the whole tile stays inside the area.
pub fn drag_update_position(start: PixelPosition, offset: PixelPosition, max: PixelPosition) -> (r: PixelPosition)
    requires
        max.0 >= 0,
        max.1 >= 0,
    ensures
        r.0 == clamp_int(start.0 + offset.0, 0, max.0 as int),
        r.1 == clamp_int(start.1 + offset.1, 0, max.1 as int),
{
    let x = clamp_i64(start.0 as i64 + offset.0 as i64, 0, max.0 as i64);
    let y = clamp_i64(start.1 as i64 + offset.1 as i64, 0, max.1 as i64);
    PixelPosition(x as i32, y as i32)
}

/// The cell a dragged tile snaps to when it is dropped: the cell nearest to its pixel
/// position, kept inside the grid so that the whole tile of `dims` cells stays in it.
/// Without a cell size there is no nearest cell, and the tile goes to the first cell.
pub fn snapped_cells(position: PixelPosition, grid_config: &GridConfig, dims: (usize, usize)) -> (r: CellOffset)
    requires
        dims.0 <= grid_config.grid_cells.0,
        dims.1 <= grid_config.grid_cells.1,
    ensures
        grid_config.cell_size_pixel > 0 ==> {
            &&& r.0 == clamp_int(round_div(position.0 as int, grid_config.cell_size_pixel as int), 0, grid_config.grid_cells.0 - dims.0)
            &&& r.1 == clamp_int(round_div(position.1 as int, grid_config.cell_size_pixel as int), 0, grid_config.grid_cells.1 - dims.1)
        },
        grid_config.cell_size_pixel == 0 ==> r == CellOffset(0, 0),
{
    if grid_config.cell_size_pixel == 0 {
        return CellOffset(0, 0);
    }
    let cx = rounded_div(position.0, grid_config.cell_size_pixel);
    let cy = rounded_div(position.1, grid_config.cell_size_pixel);
    let max_x = grid_config.grid_cells.0 as i64 - dims.0 as i64;
    let max_y = grid_config.grid_cells.1 as i64 - dims.1 as i64;
    let x = clamp_i64(cx as i64, 0, max_x);
    let y = clamp_i64(cy as i64, 0, max_y);
    CellOffset(x as i32, y as i32)
}

impl PuzzleArea {
    /// The placement model is well formed with its pixel data computed from its cell data,
    /// and the extension selects target cells that can be shifted into the grid.
    pub open spec fn wf(&self) -> bool {
        &&& (self.placement_model matches Some(m) ==> m.wf() && pixels_match_cells(&m))
        &&& extension_fits(&self.puzzle_type_extension)
    }

    /// The minimum cell size of the board, or zero without a board.
    pub open spec fn min_element_width(&self) -> u32 {
        match self.board_min_element_size {
            Some(s) => s,
            None => 0,
        }
    }

    /// The minimum cell size of the board, or zero without a board.
    pub fn get_min_element_width(&self) -> (r: u32)
        ensures
            r == self.min_element_width(),
    {
        match self.board_min_element_size {
            Some(s) => s,
            None => 0,
        }
    }

    /// The view size of the puzzle area for a window: the window without its header bar.
    pub open spec fn view_size(window: WindowState) -> PixelPosition {
        PixelPosition(window.width, (window.height - window.header_bar_height) as i32)
    }

    /// Laying the area out for the window does not overflow.
    pub open spec fn layout_fits(&self, window: WindowState) -> bool {
        window.shows_content ==> {
            &&& fits_i32(window.height - window.header_bar_height)
            &&& (self.placement_model matches Some(m) ==> {
                let size = Self::view_size(window);
                &&& (size.0 >= 100 && size.1 >= 100 ==> m.layout_update_fits(size))
                &&& fits_i32(next_min_area(&m, size, self.min_element_width()).1 + window.header_bar_height)
            })
        }
    }

    /// Lays the puzzle area out for the current window size: computes the placement of
    /// the board and the tiles and the size the window requests, at least its minimum size.
    ///
    /// Nothing is laid out while the window does not show the puzzle area, or without a
    /// placement model.
    pub fn update_layout(&mut self, window: WindowState) -> (r: Option<AreaLayout>)
        requires
            old(self).wf(),
            old(self).layout_fits(window),
        ensures
            final(self).wf(),
            final(self).board_min_element_size == old(self).board_min_element_size,
            final(self).hint_tile_shown == old(self).hint_tile_shown,
            final(self).puzzle_type_extension == old(self).puzzle_type_extension,
            !window.shows_content || old(self).placement_model is None ==> r is None && *final(self) == *old(self),
            window.shows_content && old(self).placement_model is Some ==> {
                let o = old(self).placement_model->0;
                let n = final(self).placement_model->0;
                &&& final(self).placement_model is Some
                &&& pixel_size_updated(&n, &o, Self::view_size(window), old(self).min_element_width())
                &&& (r matches Some(l) && {
                    &&& l.width_request == max_int(n.min_area_pixel_size.0 as int, window.min_width as int)
                    &&& l.height_request == max_int(n.min_area_pixel_size.1 + window.header_bar_height, window.min_height as int)
                    &&& l.board_position == n.board.position_pixel
                    &&& l.board_size == n.board.pixel_size
                    &&& l.tiles@ == tile_layouts(&n)
                    &&& layouts_follow_cells(&n, l.tiles@)
                    &&& l.hint_tile == hint_layout(&n, final(self).hint_tile_shown)
                })
            },
    {
        if !window.shows_content {
            return None;
        }
        let size = PixelPosition(window.width, window.height - window.header_bar_height);
        let min_cell_size = self.get_min_element_width();
        let hint_shown = self.hint_tile_shown;
        match &mut self.placement_model {
            None => None,
            Some(placement_model) => {
                placement_model.update_pixel_size(size, min_cell_size);
                let fixed_min = placement_model.min_area_size();
                let width_request = if fixed_min.0 >= window.min_width { fixed_min.0 } else { window.min_width };
                let height = fixed_min.1 + window.header_bar_height;
                let height_request = if height >= window.min_height { height } else { window.min_height };
                let tiles = Self::tile_layout(placement_model);
                let hint_tile = Self::hint_tile_layout(placement_model, hint_shown);
                Some(AreaLayout {
                    width_request,
                    height_request,
                    board_position: placement_model.board_pixel_position(),
                    board_size: placement_model.board_size(),
                    tiles,
                    hint_tile,
                })
            },
        }
    }

    /// The sizes and positions of the tiles of a placement model.
    fn tile_layout(placement_model: &PlacementModel) -> (r: Vec<TileLayout>)
        ensures
            r@ == tile_layouts(placement_model),
    {
        let mut out: Vec<TileLayout> = Vec::new();
        let mut i: usize = 0;
        while i < placement_model.tiles.len()
            invariant
                i <= placement_model.tiles@.len(),
                out@ == tile_layouts(placement_model).subrange(0, i as int),
            decreases placement_model.tiles@.len() - i,
        {
            let size = placement_model.tile_size(i);
            let position = placement_model.tile_pixel_position(i);
            out.push(TileLayout { size, position });
            i = i + 1;
            assert(out@ =~= tile_layouts(placement_model).subrange(0, i as int));
        }
        assert(out@ =~= tile_layouts(placement_model));
        out
    }

    /// The size and position of the hint tile, while one is shown.
    fn hint_tile_layout(placement_model: &PlacementModel, shown: bool) -> (r: Option<TileLayout>)
        ensures
            r == hint_layout(placement_model, shown),
    {
        if !shown {
            return None;
        }
        match (placement_model.hint_tile_size(), placement_model.hint_tile_position()) {
            (Some(size), Some(position)) => Some(TileLayout { size, position: Some(position) }),
            _ => None,
        }
    }

    /// The sizes and positions of the tiles; empty without a placement model.
    pub fn update_tile_layout(&self) -> (r: Vec<TileLayout>)
        requires
            self.wf(),
        ensures
            r@ == match self.placement_model {
                Some(m) => tile_layouts(&m),
                None => seq![],
            },
            self.placement_model matches Some(m) ==> layouts_follow_cells(&m, r@),
    {
        match &self.placement_model {
            Some(m) => Self::tile_layout(m),
            None => Vec::new(),
        }
    }

    /// The size and position of the hint tile, while one is shown.
    pub fn update_hint_tile_layout(&self) -> (r: Option<TileLayout>)
        requires
            self.wf(),
        ensures
            r == match self.placement_model {
                Some(m) => hint_layout(&m, self.hint_tile_shown),
                None => None,
            },
            self.placement_model matches Some(m) ==> (r matches Some(l) ==> {
                let h = m.hint_tile->0;
                &&& l.size == shape_pixels(h.current_rotation, m.grid_config.cell_size_pixel)
                &&& l.position == Some(cells_to_pixels(h.position_cells, m.grid_config.cell_size_pixel))
            }),
    {
        match &self.placement_model {
            Some(m) => Self::hint_tile_layout(m, self.hint_tile_shown),
            None => None,
        }
    }

    /// Removes the hint tile, if one is shown. Returns whether one was removed.
    pub fn remove_hint_tile(&mut self) -> (removed: bool)
        requires
            old(self).wf(),
        ensures
            final(self).wf(),
            removed == old(self).hint_tile_shown,
            !final(self).hint_tile_shown,
            final(self).board_min_element_size == old(self).board_min_element_size,
            final(self).puzzle_type_extension == old(self).puzzle_type_extension,
            removed ==> match (final(self).placement_model, old(self).placement_model) {
                (Some(n), Some(o)) => n == (PlacementModel { hint_tile: None, ..o }),
                (None, None) => true,
                _ => false,
            },
            !removed ==> final(self).placement_model == old(self).placement_model,
    {
        if self.hint_tile_shown {
            self.hint_tile_shown = false;
            if let Some(m) = &mut self.placement_model {
                m.remove_hint_tile();
            }
            true
        } else {
            false
        }
    }

    /// Ends the drag of tile `idx` at a pixel position: the tile snaps to the nearest
    /// cell. Nothing changes for an index without a tile.
    pub fn end_drag(&mut self, idx: usize, position: PixelPosition)
        requires
            old(self).wf(),
            old(self).placement_model is Some,
        ensures
            final(self).wf(),
            final(self).board_min_element_size == old(self).board_min_element_size,
            final(self).hint_tile_shown == old(self).hint_tile_shown,
            final(self).puzzle_type_extension == old(self).puzzle_type_extension,
            ({
                let o = old(self).placement_model->0;
                let n = final(self).placement_model->0;
                let s = o.grid_config.cell_size_pixel as int;
                &&& final(self).placement_model is Some
                &&& idx >= o.tiles@.len() ==> n == o
                &&& idx < o.tiles@.len() ==> {
                    let cells = n.tiles@[idx as int].position_cells;
                    &&& s > 0 ==> cells.0 == round_div(position.0 as int, s) && cells.1 == round_div(position.1 as int, s)
                    &&& n.tiles@[idx as int] == (PlacedTile {
                        position_cells: cells,
                        position_pixels: cells_to_pixels(cells, o.grid_config.cell_size_pixel),
                        ..o.tiles@[idx as int]
                    })
                    &&& n.tiles@ == o.tiles@.update(idx as int, n.tiles@[idx as int])
                    &&& n == (PlacementModel { tiles: n.tiles, ..o })
                }
            }),
    {
        if let Some(m) = &mut self.placement_model {
            if idx < m.tiles.len() {
                m.update_tile_pixel_position(idx, position);
                assert(m.tiles@ =~= old(self).placement_model->0.tiles@.update(idx as int, m.tiles@[idx as int]));
            }
        }
    }

    /// Extracts the state of the puzzle from the positions of the tiles.
    pub fn extract_puzzle_state(&self) -> (r: Result<PuzzleState, String>)
        requires
            self.wf(),
        ensures
            self.placement_model is None ==> (r matches Err(e) && e@ == "No placement model set up"@),
            self.placement_model matches Some(m) ==> {
                &&& (r is Err <==> some_tile_dragged(m.tiles@))
                &&& (r matches Err(e) ==> e@ == "Tile position not set"@)
                &&& (r matches Ok(s) ==> is_extracted_state(s, m.tiles@, m.board.position_cells, &m.layout, &self.puzzle_type_extension))
            },
    {
        match &self.placement_model {
            Some(m) => m.extract_puzzle_state(&self.puzzle_type_extension),
            None => Err("No placement model set up".to_string()),
        }
    }

    /// The tile cells to highlight for the current positions of the tiles: none when the
    /// puzzle state cannot be extracted.
    pub fn update_highlights(&self) -> (r: Vec<TileHighlight>)
        requires
            self.wf(),
        ensures
            match self.placement_model {
                Some(m) => if some_tile_dragged(m.tiles@) {
                    r@.len() == 0
                } else {
                    exists|s: PuzzleState| #[trigger] is_extracted_state(s, m.tiles@, m.board.position_cells, &m.layout, &self.puzzle_type_extension)
                        && r@ == grid_highlights(s.grid@, s.grid@.len() as int)
                },
                None => r@.len() == 0,
            },
    {
        match self.extract_puzzle_state() {
            Ok(state) => highlight_invalid_tile_parts(&state),
            Err(_) => Vec::new(),
        }
    }
}

} // verus!
