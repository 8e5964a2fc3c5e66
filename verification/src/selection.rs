//! What the puzzle selection shows of each puzzle of a collection.
use vstd::prelude::*;
use vstd::string::StringExecFns;
use crate::collection::{CollectionModel, PuzzleModState, spec_mod_state};
use crate::config::{PreviewConfig, ProgressionConfig, PuzzleConfig, TileConfig};
use crate::model::default_key;
use crate::offset::max_int;
use crate::shape::Shape;
use crate::text::{decimal, decimal_string, push_decimal};

verus! {

/// The number of filled cells among the first `n` cells of a column.
pub open spec fn column_filled(column: Seq<bool>, n: int) -> nat
    decreases n,
{
    if n <= 0 {
        0
    } else {
        column_filled(column, n - 1) + if column[n - 1] { 1nat } else { 0nat }
    }
}

/// The number of filled cells in the first `n` columns of a shape.
pub open spec fn filled_upto(shape: &Shape, n: int) -> nat
    decreases n,
{
    if n <= 0 {
        0
    } else {
        filled_upto(shape, n - 1) + column_filled(shape.cells@[n - 1]@, shape.height as int)
    }
}

/// The number of filled cells of a shape.
pub open spec fn filled_count(shape: &Shape) -> nat {
    filled_upto(shape, shape.width as int)
}

proof fn lemma_column_filled_bound(column: Seq<bool>, n: int)
    requires
        n >= 0,
    ensures
        column_filled(column, n) <= n,
    decreases n,
{
    if n > 0 {
        lemma_column_filled_bound(column, n - 1);
    }
}

proof fn lemma_filled_upto_bound(shape: &Shape, n: int)
    requires
        0 <= n,
    ensures
        filled_upto(shape, n) <= n * shape.height,
    decreases n,
{
    if n > 0 {
        lemma_filled_upto_bound(shape, n - 1);
        lemma_column_filled_bound(shape.cells@[n - 1]@, shape.height as int);
        assert((n - 1) * shape.height + shape.height == n * shape.height) by (nonlinear_arith);
    }
}

/// Counts the filled cells of a shape.
pub fn count_filled(shape: &Shape) -> (r: u64)
    requires
        shape.wf(),
    ensures
        r == filled_count(shape),
{
    let mut count: u64 = 0;
    let mut x: usize = 0;
    while x < shape.width
        invariant
            shape.wf(),
            x <= shape.width,
            count == filled_upto(shape, x as int),
        decreases shape.width - x,
    {
        let column = &shape.cells[x];
        proof {
            lemma_filled_upto_bound(shape, x as int);
            assert(x * shape.height <= i32::MAX * i32::MAX) by (nonlinear_arith)
                requires x <= i32::MAX, shape.height <= i32::MAX;
        }
        let mut y: usize = 0;
        while y < shape.height
            invariant
                shape.wf(),
                x < shape.width,
                column == &shape.cells@[x as int],
                y <= shape.height,
                filled_upto(shape, x as int) <= i32::MAX * i32::MAX,
                count == filled_upto(shape, x as int) + column_filled(column@, y as int),
            decreases shape.height - y,
        {
            proof { lemma_column_filled_bound(column@, y as int); }
            if column[y] {
                count = count + 1;
            }
            y = y + 1;
        }
        x = x + 1;
    }
    count
}

/// The size of a board as shown to the player: its width, ` x ` and its height.
pub open spec fn size_label(width: nat, height: nat) -> Seq<char> {
    decimal(width) + " x "@ + decimal(height)
}

/// The size of a shape as `width x height`.
pub fn board_size_label(shape: &Shape) -> (r: String)
    ensures
        r@ == size_label(shape.width as nat, shape.height as nat),
{
    let mut label = String::new();
    push_decimal(&mut label, shape.width as u64);
    proof { reveal_strlit(" x "); }
    label.append(" x ");
    push_decimal(&mut label, shape.height as u64);
    assert(label@ =~= size_label(shape.width as nat, shape.height as nat));
    label
}

/// The information the puzzle selection shows of one puzzle. A piece of information
/// that is `None` or `false` is hidden.
#[derive(Debug)]
pub struct PuzzleItemData {
    /// The label of the board size, `width x height`.
    pub board_size: Option<String>,
    /// The number of cells of the board.
    pub cell_count: Option<String>,
    /// The number of tiles.
    pub tile_count: Option<String>,
    pub show_tile_preview: bool,
    pub show_board_preview: bool,
    /// The description of the puzzle.
    pub description: Option<String>,
    /// The difficulty of the puzzle.
    pub difficulty: Option<String>,
}

/// Both texts are missing, or both are there and equal.
pub open spec fn same_text(a: Option<String>, b: Option<String>) -> bool {
    match (a, b) {
        (Some(x), Some(y)) => x@ == y@,
        (None, None) => true,
        _ => false,
    }
}

/// A copy of an optional text.
fn copy_text(t: &Option<String>) -> (r: Option<String>)
    ensures
        same_text(r, *t),
{
    match t {
        Some(x) => Some(x.clone()),
        None => None,
    }
}

/// The information shown of a puzzle: all of it while the puzzle is unlocked, and of a
/// locked puzzle what the preview configuration of its collection allows; the
/// description and the difficulty are shown when the puzzle has them.
pub fn item_data(locked: bool, preview: &PreviewConfig, puzzle: &PuzzleConfig) -> (r: PuzzleItemData)
    requires
        puzzle.layout().wf(),
    ensures
        (!locked || preview.show_board_size) ==> {
            &&& r.board_size matches Some(l) && l@ == size_label(puzzle.layout().width as nat, puzzle.layout().height as nat)
            &&& r.cell_count matches Some(c) && c@ == decimal(filled_count(&puzzle.layout()))
        },
        !(!locked || preview.show_board_size) ==> r.board_size is None && r.cell_count is None,
        (!locked || preview.show_tile_count) ==> (r.tile_count matches Some(t) && t@ == decimal(puzzle.tiles@.len())),
        !(!locked || preview.show_tile_count) ==> r.tile_count is None,
        r.show_tile_preview == (!locked || preview.show_tiles),
        r.show_board_preview == (!locked || preview.show_board),
        same_text(r.description, puzzle.description),
        same_text(r.difficulty, puzzle.difficulty),
{
    let layout = puzzle.board_config.layout();
    let (board_size, cell_count) = if !locked || preview.show_board_size {
        let cells = count_filled(layout);
        (Some(board_size_label(layout)), Some(decimal_string(cells)))
    } else {
        (None, None)
    };
    let tile_count = if !locked || preview.show_tile_count {
        Some(decimal_string(puzzle.tiles.len() as u64))
    } else {
        None
    };
    PuzzleItemData {
        board_size,
        cell_count,
        tile_count,
        show_tile_preview: !locked || preview.show_tiles,
        show_board_preview: !locked || preview.show_board,
        description: copy_text(&puzzle.description),
        difficulty: copy_text(&puzzle.difficulty),
    }
}

impl CollectionModel {
    /// The state and the information the puzzle selection shows of the puzzle at `index`:
    /// everything while it is not locked, and what the preview configuration of the
    /// collection allows while it is locked.
    pub fn selection_item_data(&self, index: usize) -> (r: (PuzzleModState, PuzzleItemData))
        requires
            self.wf(),
            index < self.puzzles@.len(),
            self.config.puzzles@[index as int].layout().wf(),
        ensures
            r.0 == spec_mod_state(
                self.config.progression,
                self.puzzles@[index as int].is_solved_spec(&default_key(&self.puzzles@[index as int])),
                if index == 0 { None } else { Some(self.puzzles@[index - 1].is_solved_spec(&default_key(&self.puzzles@[index - 1]))) },
                self.config.puzzles@[index as int].unsolvable,
                self.puzzles@[index as int].best_hint_count_spec(&default_key(&self.puzzles@[index as int])),
            ),
            ({
                let locked = r.0 == PuzzleModState::Locked;
                let puzzle = self.config.puzzles@[index as int];
                let preview = self.config.preview;
                &&& (!locked || preview.show_board_size) ==> {
                    &&& r.1.board_size matches Some(l) && l@ == size_label(puzzle.layout().width as nat, puzzle.layout().height as nat)
                    &&& r.1.cell_count matches Some(c) && c@ == decimal(filled_count(&puzzle.layout()))
                }
                &&& !(!locked || preview.show_board_size) ==> r.1.board_size is None && r.1.cell_count is None
                &&& (!locked || preview.show_tile_count) ==> (r.1.tile_count matches Some(t) && t@ == decimal(puzzle.tiles@.len()))
                &&& !(!locked || preview.show_tile_count) ==> r.1.tile_count is None
                &&& r.1.show_tile_preview == (!locked || preview.show_tiles)
                &&& r.1.show_board_preview == (!locked || preview.show_board)
                &&& same_text(r.1.description, puzzle.description)
                &&& same_text(r.1.difficulty, puzzle.difficulty)
            }),
    {
        let state = self.puzzle_mod_state(index);
        let locked = state == PuzzleModState::Locked;
        let data = item_data(locked, &self.config.preview, &self.config.puzzles[index]);
        (state, data)
    }
}

/// The number of pixels of a cell in the previews of tiles and boards.
pub const PREVIEW_CELL_SIZE: u64 = 20;

/// The place of a tile in the preview of the tiles of a puzzle, in pixels.
#[derive(Debug, Clone, Copy, PartialEq, Eq, Structural)]
pub struct PreviewTile {
    pub x: u64,
    pub y: u64,
    pub width: u64,
    pub height: u64,
}

/// The column, in cells, at which the tile `i` starts in the preview: the tiles are
/// placed in a row with one free column between two tiles.
pub open spec fn preview_column(tiles: Seq<TileConfig>, i: int) -> int
    decreases i,
{
    if i <= 0 {
        0
    } else {
        preview_column(tiles, i - 1) + tiles[i - 1].base.width + 1
    }
}

/// The height of the highest of the first `n` tiles, in cells.
pub open spec fn highest_tile(tiles: Seq<TileConfig>, n: int) -> int
    decreases n,
{
    if n <= 0 {
        0
    } else {
        let h = highest_tile(tiles, n - 1);
        if tiles[n - 1].base.height > h { tiles[n - 1].base.height as int } else { h }
    }
}

/// The height of the preview row in cells: that of the highest tile, one without tiles.
pub open spec fn preview_row_height(tiles: Seq<TileConfig>) -> int {
    if tiles.len() == 0 { 1 } else { highest_tile(tiles, tiles.len() as int) }
}

/// The place of tile `i` in the preview: tiles are vertically centered in the row.
pub open spec fn preview_tile(tiles: Seq<TileConfig>, i: int) -> PreviewTile {
    let t = tiles[i].base;
    PreviewTile {
        x: (PREVIEW_CELL_SIZE * preview_column(tiles, i)) as u64,
        y: ((preview_row_height(tiles) - t.height) * PREVIEW_CELL_SIZE / 2) as u64,
        width: (PREVIEW_CELL_SIZE * t.width) as u64,
        height: (PREVIEW_CELL_SIZE * t.height) as u64,
    }
}

proof fn lemma_preview_column_nonnegative(tiles: Seq<TileConfig>, i: int)
    ensures
        preview_column(tiles, i) >= 0,
    decreases i,
{
    if i > 0 {
        lemma_preview_column_nonnegative(tiles, i - 1);
    }
}

proof fn lemma_preview_column_grows(tiles: Seq<TileConfig>, i: int, j: int)
    requires
        0 <= i <= j <= tiles.len(),
    ensures
        preview_column(tiles, i) + (j - i) <= preview_column(tiles, j),
    decreases j,
{
    if j > i {
        lemma_preview_column_grows(tiles, i, j - 1);
    }
}

/// The places of the tiles of a puzzle in its preview, in tile order.
pub fn tiles_preview_layout(tiles: &Vec<TileConfig>) -> (r: Vec<PreviewTile>)
    requires
        PREVIEW_CELL_SIZE * preview_column(tiles@, tiles@.len() as int) <= u64::MAX,
        forall|i: int| 0 <= i < tiles@.len() ==> (#[trigger] tiles@[i]).wf(),
    ensures
        r@.len() == tiles@.len(),
        forall|i: int| 0 <= i < tiles@.len() ==> #[trigger] r@[i] == preview_tile(tiles@, i),
{
    let mut highest: usize = 0;
    let mut i: usize = 0;
    while i < tiles.len()
        invariant
            i <= tiles@.len(),
            highest == highest_tile(tiles@, i as int),
            highest <= i32::MAX,
            forall|j: int| 0 <= j < tiles@.len() ==> (#[trigger] tiles@[j]).wf(),
            forall|j: int| 0 <= j < i ==> (#[trigger] tiles@[j]).base.height <= highest,
        decreases tiles@.len() - i,
    {
        if tiles[i].base.height > highest {
            highest = tiles[i].base.height;
        }
        i = i + 1;
    }
    let row_height: u64 = if tiles.len() == 0 { 1 } else { highest as u64 };
    let mut r: Vec<PreviewTile> = Vec::new();
    let mut column: u64 = 0;
    let mut i: usize = 0;
    while i < tiles.len()
        invariant
            i <= tiles@.len(),
            PREVIEW_CELL_SIZE * preview_column(tiles@, tiles@.len() as int) <= u64::MAX,
            forall|j: int| 0 <= j < tiles@.len() ==> (#[trigger] tiles@[j]).wf(),
            tiles@.len() > 0 ==> row_height == highest_tile(tiles@, tiles@.len() as int),
            row_height == preview_row_height(tiles@),
            row_height <= i32::MAX,
            forall|j: int| 0 <= j < tiles@.len() ==> (#[trigger] tiles@[j]).base.height <= row_height,
            column == preview_column(tiles@, i as int),
            r@.len() == i,
            forall|j: int| 0 <= j < i ==> #[trigger] r@[j] == preview_tile(tiles@, j),
        decreases tiles@.len() - i,
    {
        proof {
            lemma_preview_column_grows(tiles@, i as int + 1, tiles@.len() as int);
            lemma_preview_column_nonnegative(tiles@, i as int);
        }
        let t = &tiles[i].base;
        let h = t.height as u64;
        let y = (row_height - h) * PREVIEW_CELL_SIZE / 2;
        let entry = PreviewTile { x: PREVIEW_CELL_SIZE * column, y, width: PREVIEW_CELL_SIZE * t.width as u64, height: PREVIEW_CELL_SIZE * h };
        r.push(entry);
        column = column + t.width as u64 + 1;
        i = i + 1;
    }
    r
}

/// The size requested for the preview of a board of `width` by `height` cells: each cell
/// gets the preview cell size, or more if the values written on the board need more.
pub fn board_preview_size(min_element_size: i32, width: usize, height: usize) -> (r: (i32, i32))
    requires
        max_int(PREVIEW_CELL_SIZE as int, min_element_size as int) * width <= i32::MAX,
        max_int(PREVIEW_CELL_SIZE as int, min_element_size as int) * height <= i32::MAX,
    ensures
        r.0 == max_int(PREVIEW_CELL_SIZE as int, min_element_size as int) * width,
        r.1 == max_int(PREVIEW_CELL_SIZE as int, min_element_size as int) * height,
{
    let size_per_cell: i32 = if min_element_size > 20 { min_element_size } else { 20 };
    proof {
        assert(width <= i32::MAX) by (nonlinear_arith)
            requires size_per_cell * width <= i32::MAX, size_per_cell >= 20;
        assert(height <= i32::MAX) by (nonlinear_arith)
            requires size_per_cell * height <= i32::MAX, size_per_cell >= 20;
    }
    (size_per_cell * width as i32, size_per_cell * height as i32)
}

/// The label of the stars reached in a collection, `reached / total`, and whether it is
/// highlighted: when all stars are reached.
pub fn star_counts_label(reached: u64, total: u64) -> (r: (String, bool))
    ensures
        r.0@ == decimal(reached as nat) + " / "@ + decimal(total as nat),
        r.1 == (reached == total),
{
    let mut label = String::new();
    push_decimal(&mut label, reached);
    label.append(" / ");
    push_decimal(&mut label, total);
    (label, reached == total)
}

/// The state of a puzzle in the list of the puzzles of a collection.
#[derive(Debug, Clone, Copy, PartialEq, Eq, Structural)]
pub enum PuzzleRowState {
    Solved,
    Unlocked,
    /// The previous puzzle of a sequential collection has to be solved first.
    Locked,
}

/// The state of a puzzle in the list from the progression of its collection, whether
/// it is solved and whether the previous one is solved (`true` for the first puzzle).
pub open spec fn spec_row_state(progression: ProgressionConfig, solved: bool, previous_solved: bool) -> PuzzleRowState {
    if solved {
        PuzzleRowState::Solved
    } else if progression == ProgressionConfig::Any || previous_solved {
        PuzzleRowState::Unlocked
    } else {
        PuzzleRowState::Locked
    }
}

/// Decides the state of a puzzle in the list: a solved puzzle is solved, an unsolved one
/// is locked only in a sequential collection while the previous puzzle is unsolved.
pub fn row_state(progression: ProgressionConfig, solved: bool, previous_solved: bool) -> (r: PuzzleRowState)
    ensures
        r == spec_row_state(progression, solved, previous_solved),
{
    match progression {
        ProgressionConfig::Any => {
            if solved {
                PuzzleRowState::Solved
            } else {
                PuzzleRowState::Unlocked
            }
        },
        ProgressionConfig::Sequential => {
            if solved {
                PuzzleRowState::Solved
            } else if previous_solved {
                PuzzleRowState::Unlocked
            } else {
                PuzzleRowState::Locked
            }
        },
    }
}

} // verus!
