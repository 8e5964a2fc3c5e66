//! The general information shown about a puzzle.
use vstd::prelude::*;
use crate::config::PuzzleConfig;
use crate::selection::{board_size_label, size_label};
use crate::text::{decimal, decimal_string};

verus! {

/// One row of the information about a puzzle: a title and its value.
#[derive(Debug)]
pub struct InfoRow {
    pub title: String,
    pub value: String,
}

/// The rows of general information about a puzzle: its name, the dimensions of its
/// board as `width x height` and the number of its tiles.
pub fn general_info_rows(puzzle: &PuzzleConfig) -> (r: Vec<InfoRow>)
    ensures
        r@.len() == 3,
        r@[0].title@ == "Puzzle Name"@,
        r@[0].value@ == puzzle.name@,
        r@[1].title@ == "Board Dimensions"@,
        r@[1].value@ == size_label(puzzle.layout().width as nat, puzzle.layout().height as nat),
        r@[2].title@ == "Number of Tiles"@,
        r@[2].value@ == decimal(puzzle.tiles@.len()),
{
    let mut rows: Vec<InfoRow> = Vec::new();
    rows.push(InfoRow { title: "Puzzle Name".to_string(), value: puzzle.name.clone() });
    rows.push(InfoRow {
        title: "Board Dimensions".to_string(),
        value: board_size_label(puzzle.board_config.layout()),
    });
    rows.push(InfoRow { title: "Number of Tiles".to_string(), value: decimal_string(puzzle.tiles.len() as u64) });
    rows
}

} // verus!
