//! A tile as it is placed in the puzzle area.
use vstd::prelude::*;
use crate::offset::CellOffset;
use crate::shape::Shape;
use super::PixelPosition;

verus! {

/// A tile of the puzzle with its current rotation, size and position.
#[derive(Debug)]
pub struct PlacedTile {
    pub name: Option<String>,
    /// The shape of the tile as configured.
    pub base: Shape,
    /// The shape after the rotations and flips done by the player.
    pub current_rotation: Shape,
    /// The size of the current rotation in cells.
    pub cell_size: CellOffset,
    pub pixel_size: PixelPosition,
    /// The position of the top left corner in cells.
    pub position_cells: CellOffset,
    pub position_pixels: PixelPosition,
    /// Whether the tile is being dragged; its position is then not valid.
    pub dragged: bool,
}

impl PlacedTile {
    /// Both shapes of the tile are well formed.
    pub open spec fn wf(&self) -> bool {
        &&& self.base.wf()
        &&& self.current_rotation.wf()
    }

    /// The size of the tile in cells is that of its current rotation.
    pub open spec fn sized_by_rotation(&self) -> bool {
        self.cell_size == CellOffset(self.current_rotation.width as i32, self.current_rotation.height as i32)
    }

    /// Creates a tile that is not rotated, not dragged and has no pixel size or position yet.
    pub fn new(name: Option<String>, base: Shape, cell_size: CellOffset, position_cells: CellOffset) -> (t: PlacedTile)
        requires
            base.wf(),
        ensures
            t.wf(),
            t.name == name,
            t.base == base,
            t.current_rotation.same_as(&base),
            t.cell_size == cell_size,
            t.position_cells == position_cells,
            t.pixel_size == PixelPosition(0, 0),
            t.position_pixels == PixelPosition(0, 0),
            !t.dragged,
    {
        let current_rotation = base.duplicate();
        PlacedTile {
            name,
            base,
            current_rotation,
            cell_size,
            pixel_size: PixelPosition(0, 0),
            position_cells,
            position_pixels: PixelPosition(0, 0),
            dragged: false,
        }
    }

    pub fn name(&self) -> (r: &Option<String>)
        ensures
            r == &self.name,
    {
        &self.name
    }

    pub fn base(&self) -> (r: &Shape)
        ensures
            r == &self.base,
    {
        &self.base
    }

    pub fn current_rotation(&self) -> (r: &Shape)
        ensures
            r == &self.current_rotation,
    {
        &self.current_rotation
    }

    pub fn cell_size(&self) -> (r: CellOffset)
        ensures
            r == self.cell_size,
    {
        self.cell_size
    }

    pub fn pixel_size(&self) -> (r: PixelPosition)
        ensures
            r == self.pixel_size,
    {
        self.pixel_size
    }

    pub fn position_cells(&self) -> (r: CellOffset)
        ensures
            r == self.position_cells,
    {
        self.position_cells
    }

    pub fn position_pixels(&self) -> (r: PixelPosition)
        ensures
            r == self.position_pixels,
    {
        self.position_pixels
    }

    pub fn dragged(&self) -> (r: bool)
        ensures
            r == self.dragged,
    {
        self.dragged
    }
}

} // verus!
