//! The configuration of puzzles and collections as loaded from their JSON description.
use vstd::prelude::*;
use crate::extension::BoardConfig;
use crate::shape::Shape;

verus! {

/// A tile of a puzzle: its shape before any rotation, and an optional name.
#[derive(Debug)]
pub struct TileConfig {
    pub name: Option<String>,
    pub base: Shape,
}

/// A puzzle: a board and the tiles that have to be placed on it.
#[derive(Debug)]
pub struct PuzzleConfig {
    pub id: String,
    pub name: String,
    /// The position of the puzzle in its collection.
    pub index: usize,
    pub board_config: BoardConfig,
    pub tiles: Vec<TileConfig>,
    /// Whether the puzzle is known to have no solution.
    pub unsolvable: bool,
    pub description: Option<String>,
    /// The name of the difficulty of the puzzle, as shown to the player.
    pub difficulty: Option<String>,
}

/// Whether the puzzles of a collection can be solved in any order or only one after another.
#[derive(Debug, Clone, Copy, PartialEq, Eq, Structural)]
pub enum ProgressionConfig {
    Any,
    Sequential,
}

/// What the puzzle selection shows of a puzzle that is still locked.
#[derive(Debug, Clone, Copy, PartialEq, Eq, Structural)]
pub struct PreviewConfig {
    pub show_board: bool,
    pub show_board_size: bool,
    pub show_tile_count: bool,
    pub show_tiles: bool,
}

/// A collection of puzzles.
#[derive(Debug)]
pub struct PuzzleConfigCollection {
    pub id: String,
    pub name: String,
    pub progression: ProgressionConfig,
    pub preview: PreviewConfig,
    pub puzzles: Vec<PuzzleConfig>,
}

impl TileConfig {
    pub open spec fn wf(&self) -> bool {
        self.base.wf()
    }
}

impl PuzzleConfig {
    /// The board layout and all tile shapes are well formed.
    pub open spec fn wf(&self) -> bool {
        &&& self.board_config.spec_layout().wf()
        &&& forall|i: int| 0 <= i < self.tiles@.len() ==> (#[trigger] self.tiles@[i]).wf()
    }

    /// The layout of the board of this puzzle.
    pub open spec fn layout(&self) -> Shape {
        self.board_config.spec_layout()
    }
}

impl BoardConfig {
    /// The layout of the board.
    pub open spec fn spec_layout(&self) -> Shape {
        match self {
            BoardConfig::Simple { layout } => *layout,
            BoardConfig::Area { layout, .. } => *layout,
        }
    }
}

} // verus!
