//! The game logic of the Puzzled polyomino puzzle application: cell offsets,
//! grid layout, tile placement, the puzzle state extracted from the tile
//! positions and the progress bookkeeping of puzzles and collections.
use vstd::prelude::*;

pub mod offset;
pub mod placement;
pub mod shape;
pub mod text;
pub mod extension;
pub mod highlight;
pub mod config;
pub mod puzzle_state;
pub mod puzzle_meta;
pub mod model;
pub mod collection;
pub mod area;
pub mod page;
pub mod settings;
pub mod laws;
pub mod store;
pub mod selection;
pub mod target_select;
pub mod collection_id;
pub mod color;
pub mod info;
pub mod board_view;
pub mod random_puzzle;

verus! {
} // verus!
