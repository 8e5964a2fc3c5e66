use puzzled::area::PuzzleArea;
use puzzled::extension::{PuzzleTypeExtension, Target, TargetIndex};
use puzzled::offset::CellOffset;
use puzzled::page::{
    hint_button_look, unsolvable_message, HintAction, HintButtonState, HintOutcome, PuzzleAreaPage, PuzzlePage,
    SolverCall, TargetButtonLabel, TilePlacement, UnsolvableReason,
};
use puzzled::placement::board::PlacedBoard;
use puzzled::placement::grid::GridConfig;
use puzzled::placement::tile::PlacedTile;
use puzzled::placement::{PixelPosition, PlacementModel};
use puzzled::puzzle_state::PuzzleState;
use puzzled::shape::Shape;

fn full_shape(width: usize, height: usize) -> Shape {
    let mut s = Shape::new(width, height);
    for x in 0..width {
        for y in 0..height {
            s.set(x, y, true);
        }
    }
    s
}

fn model() -> PlacementModel {
    let mut m = PlacementModel {
        layout: full_shape(2, 2),
        area_pixel_size: PixelPosition(140, 90),
        min_area_pixel_size: PixelPosition(140, 90),
        grid_config: GridConfig { grid_cells: CellOffset(14, 9), min_grid_cells: CellOffset(14, 9), cell_size_pixel: 10 },
        board: PlacedBoard::new(CellOffset(2, 2), PixelPosition(60, 10), CellOffset(6, 1)),
        tiles: vec![
            PlacedTile::new(None, full_shape(1, 1), CellOffset(1, 1), CellOffset(6, 1)),
            PlacedTile::new(None, full_shape(2, 1), CellOffset(2, 1), CellOffset(1, 1)),
        ],
        hint_tile: None,
    };
    m.update_pixel_from_cell_data();
    m
}

fn page(extension: Option<PuzzleTypeExtension>) -> PuzzlePage {
    PuzzlePage {
        puzzle: Some(0),
        extension,
        hint_count: 0,
        grid: PuzzleArea { placement_model: Some(model()), board_min_element_size: None, hint_tile_shown: false, puzzle_type_extension: None },
    }
}

fn empty_state() -> PuzzleState {
    PuzzleState { grid: vec![], unused_tiles: vec![] }
}

#[test]
fn unsolvable_messages() {
    assert_eq!(unsolvable_message(UnsolvableReason::NoFit), Some("The remaining tiles do not fit on the board!"));
    assert_eq!(unsolvable_message(UnsolvableReason::BoardTooLarge), Some("The board of this puzzle is too large for the solver!"));
    assert_eq!(
        unsolvable_message(UnsolvableReason::TileCannotBePlaced),
        Some("At least one of the remaining tiles does not fit in the remaining space!")
    );
    assert_eq!(unsolvable_message(UnsolvableReason::PlausibilityCheckFailed), Some("Some tiles are overlapping or are out of bounds!"));
    assert_eq!(unsolvable_message(UnsolvableReason::Cancelled), None);
}

#[test]
fn hint_button_looks() {
    assert_eq!(hint_button_look(HintButtonState::Bulb), ("Hint", "lightbulb-symbolic"));
    assert_eq!(hint_button_look(HintButtonState::Calculating), ("Hint: Calculating...", "timer-sand-symbolic"));
    assert_eq!(page(None).display_state(&HintButtonState::Calculating), ("Hint: Calculating...", "timer-sand-symbolic"));
}

#[test]
fn requesting_a_hint_hands_the_state_to_the_solver() {
    let mut p = page(None);
    match p.on_hint_requested() {
        HintAction::Solve(state) => {
            assert_eq!(state.grid.len(), 4);
            assert_eq!(state.unused_tiles.len(), 1);
            assert_eq!(state.unused_tiles[0].id, 1);
        }
        other => panic!("expected a solver call, got {:?}", other),
    }
}

#[test]
fn no_hint_without_a_target() {
    let mut p = page(Some(PuzzleTypeExtension::Area { target: None }));
    assert!(matches!(p.on_hint_requested(), HintAction::Idle));
    let mut p = page(Some(PuzzleTypeExtension::Area { target: Some(Target { indices: vec![TargetIndex(0, 0)] }) }));
    assert!(matches!(p.on_hint_requested(), HintAction::Solve(_)));
}

#[test]
fn no_hint_while_a_tile_is_dragged() {
    let mut p = page(None);
    p.grid.placement_model.as_mut().unwrap().update_tile_dragged(0, true);
    assert!(matches!(p.on_hint_requested(), HintAction::Nothing));
}

#[test]
fn solver_answers() {
    let mut p = page(None);
    assert_eq!(p.on_hint_result(Err(UnsolvableReason::NoFit)), HintOutcome::Unsolvable(UnsolvableReason::NoFit));
    assert_eq!(p.hint_count, 1);
    assert_eq!(p.on_hint_result(Err(UnsolvableReason::Cancelled)), HintOutcome::Cancelled);
    assert_eq!(p.on_hint_result(Ok(vec![])), HintOutcome::NoHint);
    assert_eq!(p.hint_count, 3);
    assert!(!p.grid.hint_tile_shown);
}

#[test]
fn a_solution_shows_its_last_placement_as_hint() {
    let mut p = page(None);
    let unknown = TilePlacement { base: full_shape(3, 3), rotation: full_shape(3, 3), position: CellOffset(1, 1) };
    assert_eq!(p.on_hint_result(Ok(vec![unknown])), HintOutcome::NoHint);
    assert!(!p.grid.hint_tile_shown);
    let first = TilePlacement { base: full_shape(1, 1), rotation: full_shape(1, 1), position: CellOffset(1, 1) };
    let last = TilePlacement { base: full_shape(2, 1), rotation: full_shape(1, 2), position: CellOffset(2, 1) };
    assert_eq!(p.on_hint_result(Ok(vec![first, last])), HintOutcome::HintShown);
    assert!(p.grid.hint_tile_shown);
    let m = p.grid.placement_model.as_ref().unwrap();
    let hint = m.hint_tile.as_ref().unwrap();
    assert_eq!(hint.position_cells, CellOffset(7, 1));
    assert_eq!(hint.cell_size, CellOffset(1, 2));
    assert!(hint.base.equals(&full_shape(1, 2)));
    let layout = p.grid.update_hint_tile_layout().unwrap();
    assert_eq!(layout.size, PixelPosition(10, 20));
    assert_eq!(layout.position, Some(PixelPosition(70, 10)));
    assert!(p.grid.remove_hint_tile());
    assert!(!p.grid.remove_hint_tile());
    assert!(p.grid.placement_model.as_ref().unwrap().hint_tile.is_none());
}

#[test]
fn target_controls_follow_the_extension() {
    let controls = page(None).show_puzzle_extension();
    assert!(!controls.separator_visible);
    assert!(matches!(controls.label, TargetButtonLabel::Unchanged));
    let controls = page(Some(PuzzleTypeExtension::Area { target: None })).show_puzzle_extension();
    assert!(controls.separator_visible && controls.target_selection_visible);
    assert!(matches!(controls.label, TargetButtonLabel::SelectTarget));
    let controls = page(Some(PuzzleTypeExtension::Area { target: Some(Target { indices: vec![TargetIndex(2, 3)] }) })).show_puzzle_extension();
    match controls.label {
        TargetButtonLabel::Target(indices) => assert_eq!(indices, vec![TargetIndex(2, 3)]),
        other => panic!("unexpected label {:?}", other),
    }
}

#[test]
fn combinations_need_an_extracted_state() {
    let calls = page(None).calculate_tile_combinations_to_solve();
    assert_eq!(calls.len(), 2);
    assert!(matches!(calls[0], SolverCall::InterruptSolver));
    match &calls[1] {
        SolverCall::CalculateCombinations(state) => assert_eq!(state.unused_tiles.len(), 1),
        other => panic!("unexpected call {:?}", other),
    }
    let mut p = page(None);
    p.grid.placement_model = None;
    let calls = p.calculate_tile_combinations_to_solve();
    assert_eq!(calls.len(), 1);
    assert!(matches!(calls[0], SolverCall::InterruptSolver));
}

#[test]
fn area_page_hints() {
    let page = PuzzleAreaPage { extension: Some(PuzzleTypeExtension::Area { target: None }) };
    assert!(matches!(page.calculate_hint(empty_state()), HintAction::Idle));
    let page = PuzzleAreaPage { extension: Some(PuzzleTypeExtension::Simple) };
    assert!(matches!(page.calculate_hint(empty_state()), HintAction::Solve(_)));
    assert_eq!(page.display_state(&HintButtonState::Bulb), ("Hint", "lightbulb-symbolic"));
}

#[test]
fn requesting_a_hint_removes_the_shown_hint_tile() {
    let mut p = page(None);
    let placement = TilePlacement { base: full_shape(1, 1), rotation: full_shape(1, 1), position: CellOffset(1, 1) };
    assert_eq!(p.on_hint_result(Ok(vec![placement])), HintOutcome::HintShown);
    assert!(p.grid.placement_model.as_ref().unwrap().hint_tile.is_some());
    assert!(matches!(p.on_hint_requested(), HintAction::Solve(_)));
    assert!(!p.grid.hint_tile_shown);
    assert!(p.grid.placement_model.as_ref().unwrap().hint_tile.is_none());
    assert_eq!(p.grid.placement_model.as_ref().unwrap().tiles.len(), 2);
}
