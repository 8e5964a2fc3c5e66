//! The puzzle page: the decisions behind requesting hints, showing the variant of the
//! puzzle and recording a solved puzzle.
use vstd::prelude::*;
use crate::area::PuzzleArea;
use crate::collection::CollectionModel;
use crate::config::PuzzleConfigCollection;
use crate::extension::{PuzzleTypeExtension, TargetIndex, calculates_solvability, spec_calculates_solvability, same_key};
use crate::offset::{CellOffset, fits_i32, min_int};
use crate::placement::{PlacementModel, cells_to_pixels};
use crate::placement::extract::{is_extracted_state, some_tile_dragged};
use crate::puzzle_meta::{PuzzleMeta, written};
use crate::puzzle_state::PuzzleState;
use crate::shape::Shape;

verus! {

/// The look of the hint button.
#[derive(Debug, Clone, Copy, PartialEq, Eq, Structural)]
pub enum HintButtonState {
    /// Ready to give a hint.
    Bulb,
    /// The solver is running.
    Calculating,
}

/// The tooltip and the icon name of the hint button in a state.
pub fn hint_button_look(status: HintButtonState) -> (r: (&'static str, &'static str))
    ensures
        status == HintButtonState::Bulb ==> r.0@ == "Hint"@ && r.1@ == "lightbulb-symbolic"@,
        status == HintButtonState::Calculating ==> r.0@ == "Hint: Calculating..."@ && r.1@ == "timer-sand-symbolic"@,
{
    match status {
        HintButtonState::Bulb => ("Hint", "lightbulb-symbolic"),
        HintButtonState::Calculating => ("Hint: Calculating...", "timer-sand-symbolic"),
    }
}

/// Why the solver found no solution.
#[derive(Debug, Clone, Copy, PartialEq, Eq, Structural)]
pub enum UnsolvableReason {
    NoFit,
    BoardTooLarge,
    TileCannotBePlaced,
    PlausibilityCheckFailed,
    Cancelled,
}

/// The message shown to the player for a reason; none for a cancelled solver call.
pub fn unsolvable_message(reason: UnsolvableReason) -> (r: Option<&'static str>)
    ensures
        reason == UnsolvableReason::NoFit ==> (r matches Some(m) && m@ == "The remaining tiles do not fit on the board!"@),
        reason == UnsolvableReason::BoardTooLarge ==> (r matches Some(m) && m@ == "The board of this puzzle is too large for the solver!"@),
        reason == UnsolvableReason::TileCannotBePlaced ==> (r matches Some(m)
            && m@ == "At least one of the remaining tiles does not fit in the remaining space!"@),
        reason == UnsolvableReason::PlausibilityCheckFailed ==> (r matches Some(m)
            && m@ == "Some tiles are overlapping or are out of bounds!"@),
        reason == UnsolvableReason::Cancelled ==> r is None,
{
    match reason {
        UnsolvableReason::NoFit => Some("The remaining tiles do not fit on the board!"),
        UnsolvableReason::BoardTooLarge => Some("The board of this puzzle is too large for the solver!"),
        UnsolvableReason::TileCannotBePlaced => Some("At least one of the remaining tiles does not fit in the remaining space!"),
        UnsolvableReason::PlausibilityCheckFailed => Some("Some tiles are overlapping or are out of bounds!"),
        UnsolvableReason::Cancelled => None,
    }
}

/// A tile placement proposed by the solver: the base shape of the tile, its rotation
/// and the position of the rotation in the puzzle state grid.
#[derive(Debug)]
pub struct TilePlacement {
    pub base: Shape,
    pub rotation: Shape,
    pub position: CellOffset,
}

/// What to do when a hint is requested.
#[derive(Debug)]
pub enum HintAction {
    /// Nothing: the puzzle state cannot be extracted.
    Nothing,
    /// Show the button as ready; no solver is called.
    Idle,
    /// Show the button as calculating and hand the state to the solver.
    Solve(PuzzleState),
}

/// What to show when the solver has answered.
#[derive(Debug, Clone, Copy, PartialEq, Eq, Structural)]
pub enum HintOutcome {
    /// A hint tile has been placed; lay the area out again.
    HintShown,
    /// No tile matches the proposed placement, or the solution is empty.
    NoHint,
    /// The puzzle cannot be solved from here; show the message.
    Unsolvable(UnsolvableReason),
    /// The solver call was cancelled.
    Cancelled,
}

/// A call to one of the solvers.
#[derive(Debug)]
pub enum SolverCall {
    /// Interrupt the running solver call, if there is one.
    InterruptSolver,
    /// Calculate the combinations of tiles that can still solve the puzzle from this state.
    CalculateCombinations(PuzzleState),
}

/// How the controls for selecting a target are shown.
#[derive(Debug)]
pub enum TargetButtonLabel {
    /// The label is not changed.
    Unchanged,
    /// The selected target, to be formatted for the board.
    Target(Vec<TargetIndex>),
    /// No target is selected yet.
    SelectTarget,
}

/// The visibility and the label of the target selection controls.
#[derive(Debug)]
pub struct ExtensionControls {
    pub separator_visible: bool,
    pub target_selection_visible: bool,
    pub label: TargetButtonLabel,
}

/// `n` is the area `o` with the hint tile shown for the solver's placement: the hint
/// tile has the placement's rotation as shape, its size, and lies at the placement's
/// position in the puzzle state grid moved one cell up and left, relative to the board.
/// Nothing else changes.
pub open spec fn hint_tile_placed(n: &PuzzleArea, o: &PuzzleArea, placement: &TilePlacement) -> bool {
    &&& n.hint_tile_shown
    &&& n.board_min_element_size == o.board_min_element_size
    &&& n.puzzle_type_extension == o.puzzle_type_extension
    &&& n.placement_model matches Some(m) && {
        let om = o.placement_model->0;
        &&& o.placement_model is Some
        &&& m.layout == om.layout
        &&& m.area_pixel_size == om.area_pixel_size
        &&& m.min_area_pixel_size == om.min_area_pixel_size
        &&& m.grid_config == om.grid_config
        &&& m.board == om.board
        &&& m.tiles@ == om.tiles@
        &&& m.hint_tile matches Some(h) && {
            &&& h.name is None
            &&& h.base == placement.rotation
            &&& h.current_rotation.same_as(&placement.rotation)
            &&& h.position_cells.0 == om.board.position_cells.0 + placement.position.0 - 1
            &&& h.position_cells.1 == om.board.position_cells.1 + placement.position.1 - 1
            &&& h.cell_size == CellOffset(placement.rotation.width as i32, placement.rotation.height as i32)
            &&& h.pixel_size == cells_to_pixels(h.cell_size, om.grid_config.cell_size_pixel)
            &&& h.position_pixels == cells_to_pixels(h.position_cells, om.grid_config.cell_size_pixel)
            &&& !h.dragged
        }
    }
}

impl PuzzleArea {
    /// Shows a hint tile for the solver's placement, if a tile with its base shape exists:
    /// the hint tile is placed at the position relative to the board, which is one cell
    /// up and left of the position in the puzzle state grid.
    pub fn show_hint_tile(&mut self, placement: TilePlacement) -> (shown: bool)
        requires
            old(self).wf(),
            placement.base.wf(),
            placement.rotation.wf(),
            old(self).placement_model matches Some(m) ==> {
                &&& fits_i32(m.board.position_cells.0 + placement.position.0 - 1)
                &&& fits_i32(m.board.position_cells.1 + placement.position.1 - 1)
            },
            fits_i32(placement.position.0 - 1),
            fits_i32(placement.position.1 - 1),
        ensures
            final(self).wf(),
            final(self).board_min_element_size == old(self).board_min_element_size,
            final(self).puzzle_type_extension == old(self).puzzle_type_extension,
            shown == (old(self).placement_model matches Some(m) && exists|i: int|
                0 <= i < m.tiles@.len() && (#[trigger] m.tiles@[i]).base.same_as(&placement.base)),
            !shown ==> *final(self) == *old(self),
            shown ==> hint_tile_placed(&*final(self), &*old(self), &placement),
    {
        let found = match &self.placement_model {
            Some(m) => m.find_tile_matching_base(&placement.base),
            None => None,
        };
        if found.is_none() {
            return false;
        }
        let position_on_board = CellOffset(placement.position.0 - 1, placement.position.1 - 1);
        match &mut self.placement_model {
            Some(m) => {
                m.init_hint_tile(position_on_board, placement.rotation);
                let ghost placed = *m;
                m.update_pixel_from_cell_data();
                proof {
                    crate::placement::lemma_pixels_recomputed(&*m, &placed);
                }
            },
            None => {},
        }
        self.hint_tile_shown = true;
        true
    }
}

/// The page that shows a puzzle: its area, the variant it is played in and the hints
/// used so far.
#[derive(Debug)]
pub struct PuzzlePage {
    /// The index of the shown puzzle in its collection.
    pub puzzle: Option<usize>,
    pub extension: Option<PuzzleTypeExtension>,
    pub hint_count: u32,
    pub grid: PuzzleArea,
}

impl PuzzlePage {
    /// Requests a hint: if the puzzle state can be extracted, the shown hint tile is
    /// removed and the state goes to the solver, unless an area puzzle has no target
    /// selected, in which case the button is shown as ready.
    pub fn on_hint_requested(&mut self) -> (r: HintAction)
        requires
            old(self).grid.wf(),
        ensures
            final(self).grid.wf(),
            final(self).puzzle == old(self).puzzle,
            final(self).extension == old(self).extension,
            final(self).hint_count == old(self).hint_count,
            ({
                let extracted = match old(self).grid.placement_model {
                    Some(m) => !some_tile_dragged(m.tiles@),
                    None => false,
                };
                &&& !extracted ==> r is Nothing && *final(self) == *old(self)
                &&& extracted ==> !final(self).grid.hint_tile_shown
                &&& extracted ==> final(self).grid.board_min_element_size == old(self).grid.board_min_element_size
                &&& extracted ==> final(self).grid.puzzle_type_extension == old(self).grid.puzzle_type_extension
                &&& extracted ==> final(self).grid.placement_model == (if old(self).grid.hint_tile_shown {
                    Some(PlacementModel { hint_tile: None, ..old(self).grid.placement_model->0 })
                } else {
                    old(self).grid.placement_model
                })
                &&& extracted && !spec_calculates_solvability(match old(self).extension { None => None, Some(e) => Some(&e) }) ==> r is Idle
                &&& extracted && spec_calculates_solvability(match old(self).extension { None => None, Some(e) => Some(&e) }) ==> (r matches HintAction::Solve(s)
                    && is_extracted_state(s, old(self).grid.placement_model->0.tiles@, old(self).grid.placement_model->0.board.position_cells,
                        &old(self).grid.placement_model->0.layout, &old(self).grid.puzzle_type_extension))
            }),
    {
        let puzzle_state = self.grid.extract_puzzle_state();
        match puzzle_state {
            Ok(state) => {
                self.grid.remove_hint_tile();
                if calculates_solvability(&self.extension) {
                    HintAction::Solve(state)
                } else {
                    HintAction::Idle
                }
            },
            Err(_) => HintAction::Nothing,
        }
    }

    /// Handles the answer of the solver to a hint request: counts the hint, shows the
    /// last placement of a solution as hint tile, or reports why there is none.
    pub fn on_hint_result(&mut self, result: Result<Vec<TilePlacement>, UnsolvableReason>) -> (r: HintOutcome)
        requires
            old(self).grid.wf(),
            old(self).hint_count < u32::MAX,
            result matches Ok(v) ==> v@.len() > 0 ==> {
                let p = v@.last();
                &&& p.base.wf()
                &&& p.rotation.wf()
                &&& fits_i32(p.position.0 - 1)
                &&& fits_i32(p.position.1 - 1)
                &&& (old(self).grid.placement_model matches Some(m) ==> {
                    &&& fits_i32(m.board.position_cells.0 + p.position.0 - 1)
                    &&& fits_i32(m.board.position_cells.1 + p.position.1 - 1)
                })
            },
        ensures
            final(self).grid.wf(),
            final(self).hint_count == old(self).hint_count + 1,
            final(self).puzzle == old(self).puzzle,
            final(self).extension == old(self).extension,
            result matches Err(reason) ==> final(self).grid == old(self).grid && r == (
                if reason == UnsolvableReason::Cancelled { HintOutcome::Cancelled } else { HintOutcome::Unsolvable(reason) }),
            result matches Ok(v) ==> v@.len() == 0 ==> r == HintOutcome::NoHint && final(self).grid == old(self).grid,
            result matches Ok(v) ==> v@.len() > 0 ==> (r == HintOutcome::HintShown || r == HintOutcome::NoHint)
                && (r == HintOutcome::HintShown <==> (old(self).grid.placement_model matches Some(m) && exists|i: int|
                    0 <= i < m.tiles@.len() && (#[trigger] m.tiles@[i]).base.same_as(&v@.last().base)))
                && (r == HintOutcome::HintShown ==> hint_tile_placed(&final(self).grid, &old(self).grid, &v@.last()))
                && (r == HintOutcome::NoHint ==> final(self).grid == old(self).grid),
    {
        self.hint_count = self.hint_count + 1;
        match result {
            Ok(mut solution) => {
                match solution.pop() {
                    Some(placement) => {
                        if self.grid.show_hint_tile(placement) {
                            HintOutcome::HintShown
                        } else {
                            HintOutcome::NoHint
                        }
                    },
                    None => HintOutcome::NoHint,
                }
            },
            Err(reason) => {
                if reason == UnsolvableReason::Cancelled {
                    HintOutcome::Cancelled
                } else {
                    HintOutcome::Unsolvable(reason)
                }
            },
        }
    }

    /// The tooltip and the icon of the hint button.
    pub fn display_state(&self, status: &HintButtonState) -> (r: (&'static str, &'static str))
        ensures
            *status == HintButtonState::Bulb ==> r.0@ == "Hint"@ && r.1@ == "lightbulb-symbolic"@,
            *status == HintButtonState::Calculating ==> r.0@ == "Hint: Calculating..."@ && r.1@ == "timer-sand-symbolic"@,
    {
        hint_button_look(*status)
    }

    /// The calls to the solvers, in order, when the tile combinations are to be
    /// calculated: a running solver call is interrupted first; then, if the puzzle state
    /// can be extracted, the state goes to the solver of tile combinations.
    pub fn calculate_tile_combinations_to_solve(&self) -> (r: Vec<SolverCall>)
        requires
            self.grid.wf(),
        ensures
            r@.len() >= 1,
            r@[0] is InterruptSolver,
            match self.grid.placement_model {
                Some(m) => if some_tile_dragged(m.tiles@) {
                    r@.len() == 1
                } else {
                    r@.len() == 2 && (r@[1] matches SolverCall::CalculateCombinations(s)
                        && is_extracted_state(s, m.tiles@, m.board.position_cells, &m.layout, &self.grid.puzzle_type_extension))
                },
                None => r@.len() == 1,
            },
    {
        let mut calls: Vec<SolverCall> = Vec::new();
        calls.push(SolverCall::InterruptSolver);
        match self.grid.extract_puzzle_state() {
            Ok(state) => {
                calls.push(SolverCall::CalculateCombinations(state));
            },
            Err(_) => {},
        }
        calls
    }

    /// How the target selection controls are shown for the variant of the puzzle: only
    /// area puzzles have them; the label shows the selected target, or asks to select one.
    pub fn show_puzzle_extension(&self) -> (r: ExtensionControls)
        ensures
            r.separator_visible == (self.extension matches Some(PuzzleTypeExtension::Area { .. })),
            r.target_selection_visible == (self.extension matches Some(PuzzleTypeExtension::Area { .. })),
            self.puzzle is None ==> r.label is Unchanged,
            self.puzzle is Some ==> match self.extension {
                None => r.label is Unchanged,
                Some(PuzzleTypeExtension::Simple) => r.label is Unchanged,
                Some(PuzzleTypeExtension::Area { target: None }) => r.label is SelectTarget,
                Some(PuzzleTypeExtension::Area { target: Some(t) }) => r.label matches TargetButtonLabel::Target(v) && v@ == t.indices@,
            },
    {
        let visible = match &self.extension {
            Some(PuzzleTypeExtension::Area { .. }) => true,
            _ => false,
        };
        let label = if self.puzzle.is_none() {
            TargetButtonLabel::Unchanged
        } else {
            match &self.extension {
                None => TargetButtonLabel::Unchanged,
                Some(PuzzleTypeExtension::Simple) => TargetButtonLabel::Unchanged,
                Some(PuzzleTypeExtension::Area { target }) => match target {
                    Some(t) => TargetButtonLabel::Target(t.duplicate().indices),
                    None => TargetButtonLabel::SelectTarget,
                },
            }
        };
        ExtensionControls { separator_visible: visible, target_selection_visible: visible, label }
    }

    /// Records the shown puzzle as solved in the current variant, keeping the fewest
    /// hints it has been solved with.
    pub fn handle_solved(&self, collection: &mut CollectionModel, puzzle_meta: &mut PuzzleMeta)
        requires
            old(collection).wf(),
            self.puzzle matches Some(i) ==> i < old(collection).puzzles@.len(),
        ensures
            final(collection).wf(),
            final(collection).config == old(collection).config,
            self.puzzle is None ==> *final(collection) == *old(collection) && *final(puzzle_meta) == *old(puzzle_meta),
            self.puzzle matches Some(i) ==> {
                let p = final(collection).puzzles@[i as int];
                let o = old(collection).puzzles@[i as int];
                let best = match o.best_hint_count_spec(&self.extension) {
                    Some(h) => min_int(self.hint_count as int, h as int),
                    None => self.hint_count as int,
                };
                &&& final(collection).puzzles@.len() == old(collection).puzzles@.len()
                &&& forall|j: int| 0 <= j < old(collection).puzzles@.len() && j != i ==> #[trigger] final(collection).puzzles@[j] == old(collection).puzzles@[j]
                &&& p.is_solved_spec(&self.extension)
                &&& p.best_hint_count_spec(&self.extension) == Some(best as u32)
                &&& (o.best_hint_count_spec(&self.extension) matches Some(h) ==> best <= h)
                &&& written(final(puzzle_meta).solved@, old(puzzle_meta).solved@, true, &old(collection).config, i, &self.extension)
                &&& written(final(puzzle_meta).hints@, old(puzzle_meta).hints@, best as u32, &old(collection).config, i, &self.extension)
                &&& forall|k: Option<PuzzleTypeExtension>| !same_key(&k, &self.extension) ==> {
                    &&& #[trigger] p.is_solved_spec(&k) == o.is_solved_spec(&k)
                    &&& p.best_hint_count_spec(&k) == o.best_hint_count_spec(&k)
                }
            },
    {
        if let Some(index) = self.puzzle {
            let previous_hint_count = collection.puzzles[index].best_hint_count(&self.extension);
            let previous = match previous_hint_count {
                Some(h) => h,
                None => u32::MAX,
            };
            let best_hint_count = if self.hint_count <= previous { self.hint_count } else { previous };
            let ghost before = collection.puzzles@;
            let mut puzzle = collection.puzzles.remove(index);
            puzzle.set_solved(best_hint_count, &self.extension, puzzle_meta, &collection.config);
            collection.puzzles.insert(index, puzzle);
            assert forall|j: int| 0 <= j < before.len() && j != index implies #[trigger] collection.puzzles@[j] == before[j] by {
            }
            proof {
                crate::model::lemma_same_key_reflexive(&self.extension);
            }
        }
    }
}

/// The presenter of a puzzle: the puzzle shown, the variant it is played in and the
/// hints used so far.
#[derive(Debug)]
pub struct PuzzlePresenter {
    /// The index of the shown puzzle in its collection.
    pub puzzle: Option<usize>,
    pub extension: Option<PuzzleTypeExtension>,
    pub hint_count: u32,
}

impl PuzzlePresenter {
    /// Records the shown puzzle of the collection as solved in the current variant in the
    /// stored progress, and its hint count when it is fewer than the stored one. Nothing
    /// is recorded without a collection or a puzzle.
    pub fn handle_solved(&self, collection: Option<&PuzzleConfigCollection>, puzzle_meta: &mut PuzzleMeta)
        ensures
            match (collection, self.puzzle) {
                (Some(c), Some(i)) => {
                    let previous = match old(puzzle_meta).hint_count(c, i, &self.extension) {
                        Some(h) => h as int,
                        None => u32::MAX as int,
                    };
                    &&& written(final(puzzle_meta).solved@, old(puzzle_meta).solved@, true, c, i, &self.extension)
                    &&& self.hint_count < previous ==> written(
                        final(puzzle_meta).hints@, old(puzzle_meta).hints@, self.hint_count, c, i, &self.extension)
                    &&& self.hint_count >= previous ==> final(puzzle_meta).hints@ == old(puzzle_meta).hints@
                },
                _ => *final(puzzle_meta) == *old(puzzle_meta),
            },
    {
        if let (Some(c), Some(i)) = (collection, self.puzzle) {
            puzzle_meta.set_solved(true, c, i, &self.extension);
            let previous_hint_count = match puzzle_meta.hints(c, i, &self.extension) {
                Some(h) => h,
                None => u32::MAX,
            };
            if self.hint_count < previous_hint_count {
                puzzle_meta.set_hints(self.hint_count, c, i, &self.extension);
            }
        }
    }
}

/// The page that shows a puzzle area with its hint button.
#[derive(Debug)]
pub struct PuzzleAreaPage {
    pub extension: Option<PuzzleTypeExtension>,
}

impl PuzzleAreaPage {
    /// Decides whether a hint is calculated for the given state: always, except for an
    /// area puzzle without a selected target, where the button is shown as ready.
    pub fn calculate_hint(&self, puzzle_state: PuzzleState) -> (r: HintAction)
        ensures
            spec_calculates_solvability(match self.extension { None => None, Some(e) => Some(&e) }) ==> r == HintAction::Solve(puzzle_state),
            !spec_calculates_solvability(match self.extension { None => None, Some(e) => Some(&e) }) ==> r is Idle,
    {
        if calculates_solvability(&self.extension) {
            HintAction::Solve(puzzle_state)
        } else {
            HintAction::Idle
        }
    }

    /// The tooltip and the icon of the hint button.
    pub fn display_state(&self, status: &HintButtonState) -> (r: (&'static str, &'static str))
        ensures
            *status == HintButtonState::Bulb ==> r.0@ == "Hint"@ && r.1@ == "lightbulb-symbolic"@,
            *status == HintButtonState::Calculating ==> r.0@ == "Hint: Calculating..."@ && r.1@ == "timer-sand-symbolic"@,
    {
        hint_button_look(*status)
    }
}

} // verus!
