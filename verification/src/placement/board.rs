//! The board as it is placed in the puzzle area.
use vstd::prelude::*;
use crate::offset::CellOffset;
use super::PixelPosition;

verus! {

/// The board with its size and position, in cells and in pixels.
#[derive(Debug, Clone, Copy, PartialEq, Eq, Structural)]
pub struct PlacedBoard {
    pub cell_size: CellOffset,
    pub pixel_size: PixelPosition,
    pub position_cells: CellOffset,
    pub position_pixel: PixelPosition,
}

impl PlacedBoard {
    /// Creates a board of the given size in cells that has no pixel size yet.
    pub fn new(size: CellOffset, position_pixel: PixelPosition, position_cells: CellOffset) -> (b: PlacedBoard)
        ensures
            b.cell_size == size,
            b.pixel_size == PixelPosition(0, 0),
            b.position_pixel == position_pixel,
            b.position_cells == position_cells,
    {
        PlacedBoard { cell_size: size, pixel_size: PixelPosition(0, 0), position_pixel, position_cells }
    }

    pub fn cell_size(&self) -> (r: CellOffset)
        ensures
            r == self.cell_size,
    {
        self.cell_size
    }

    pub fn pixel_size(&self) -> (r: PixelPosition)
        ensures
            r == self.pixel_size,
    {
        self.pixel_size
    }

    pub fn position_cells(&self) -> (r: CellOffset)
        ensures
            r == self.position_cells,
    {
        self.position_cells
    }

    pub fn position_pixel(&self) -> (r: PixelPosition)
        ensures
            r == self.position_pixel,
    {
        self.position_pixel
    }
}

} // verus!
