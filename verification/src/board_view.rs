//! What the view of a board shows in each of its cells.
use vstd::prelude::*;
use crate::extension::BoardConfig;
use crate::text::{decimal, push_decimal};

verus! {

/// The look of one cell of a board: its style classes and the value written on it.
#[derive(Debug)]
pub struct BoardCell {
    pub css_classes: Vec<String>,
    pub label: Option<String>,
}

/// The style class of a cell of the area with the given index.
pub open spec fn area_class(area: usize) -> Seq<char> {
    "board-cell-"@ + decimal(area as nat)
}

/// The area board describes every cell of its layout: an area and a value for each.
pub open spec fn describes_cells(board: &BoardConfig) -> bool {
    match board {
        BoardConfig::Simple { .. } => true,
        BoardConfig::Area { layout, area_indices, display_values, .. } => {
            &&& area_indices@.len() >= layout.width
            &&& display_values@.len() >= layout.width
            &&& forall|x: int| 0 <= x < layout.width ==> (#[trigger] area_indices@[x])@.len() >= layout.height
            &&& forall|x: int| 0 <= x < layout.width ==> (#[trigger] display_values@[x])@.len() >= layout.height
        },
    }
}

/// The look of the cell at `(x, y)`: every cell is a `board-cell`; a cell off the board
/// is `board-cell-outside`, a cell of a simple board `board-cell-simple`, and a cell of an
/// area board is styled by its area and shows its value.
pub open spec fn cell_look(board: &BoardConfig, c: &BoardCell, x: int, y: int) -> bool {
    let layout = board.spec_layout();
    &&& c.css_classes@.len() == 2
    &&& c.css_classes@[0]@ == "board-cell"@
    &&& if !layout.cells@[x]@[y] {
        c.css_classes@[1]@ == "board-cell-outside"@ && c.label is None
    } else {
        match board {
            BoardConfig::Simple { .. } => c.css_classes@[1]@ == "board-cell-simple"@ && c.label is None,
            BoardConfig::Area { area_indices, display_values, .. } => {
                &&& c.css_classes@[1]@ == area_class(area_indices@[x]@[y])
                &&& c.label matches Some(l) && l@ == display_values@[x]@[y]@
            },
        }
    }
}

/// The look of the cell at `(x, y)` of the board.
fn board_cell(board: &BoardConfig, x: usize, y: usize) -> (r: BoardCell)
    requires
        board.spec_layout().wf(),
        describes_cells(board),
        x < board.spec_layout().width,
        y < board.spec_layout().height,
    ensures
        cell_look(board, &r, x as int, y as int),
{
    let layout = board.layout();
    let mut classes: Vec<String> = Vec::new();
    classes.push("board-cell".to_string());
    if !layout.cells[x][y] {
        classes.push("board-cell-outside".to_string());
        return BoardCell { css_classes: classes, label: None };
    }
    match board {
        BoardConfig::Simple { .. } => {
            classes.push("board-cell-simple".to_string());
            BoardCell { css_classes: classes, label: None }
        },
        BoardConfig::Area { area_indices, display_values, .. } => {
            let mut class = "board-cell-".to_string();
            push_decimal(&mut class, area_indices[x][y] as u64);
            classes.push(class);
            BoardCell { css_classes: classes, label: Some(display_values[x][y].clone()) }
        },
    }
}

/// The looks of all cells of a board, `r[x][y]` for the cell in column `x` and row `y`.
pub fn board_cells(board: &BoardConfig) -> (r: Vec<Vec<BoardCell>>)
    requires
        board.spec_layout().wf(),
        describes_cells(board),
    ensures
        r@.len() == board.spec_layout().width,
        forall|x: int| 0 <= x < r@.len() ==> (#[trigger] r@[x])@.len() == board.spec_layout().height,
        forall|x: int, y: int| 0 <= x < board.spec_layout().width && 0 <= y < board.spec_layout().height
            ==> cell_look(board, &#[trigger] r@[x]@[y], x, y),
{
    let layout = board.layout();
    let mut columns: Vec<Vec<BoardCell>> = Vec::new();
    let mut x: usize = 0;
    while x < layout.width
        invariant
            board.spec_layout().wf(),
            describes_cells(board),
            layout == board.spec_layout(),
            x <= layout.width,
            columns@.len() == x,
            forall|i: int| 0 <= i < x ==> (#[trigger] columns@[i])@.len() == layout.height,
            forall|i: int, j: int| 0 <= i < x && 0 <= j < layout.height ==> cell_look(board, &#[trigger] columns@[i]@[j], i, j),
        decreases layout.width - x,
    {
        let mut column: Vec<BoardCell> = Vec::new();
        let mut y: usize = 0;
        while y < layout.height
            invariant
                board.spec_layout().wf(),
                describes_cells(board),
                layout == board.spec_layout(),
                x < layout.width,
                y <= layout.height,
                column@.len() == y,
                forall|j: int| 0 <= j < y ==> cell_look(board, &#[trigger] column@[j], x as int, j),
            decreases layout.height - y,
        {
            column.push(board_cell(board, x, y));
            y = y + 1;
        }
        columns.push(column);
        x = x + 1;
    }
    columns
}

} // verus!
