use puzzled::board_view::board_cells;
use puzzled::collection::{CollectionModel, PuzzleModState, StarsProgress};
use puzzled::config::{PreviewConfig, ProgressionConfig, PuzzleConfig, PuzzleConfigCollection, TileConfig};
use puzzled::extension::{BoardConfig, Target, TargetIndex};
use puzzled::info::general_info_rows;
use puzzled::puzzle_meta::PuzzleMeta;
use puzzled::selection::{
    board_preview_size, board_size_label, star_counts_label, count_filled, item_data, row_state, tiles_preview_layout, PreviewTile, PuzzleRowState,
};
use puzzled::shape::Shape;
use puzzled::target_select::{create_dropdown_for_area, selected_target, sort_order, TargetIndexListItem};

fn shape(width: usize, height: usize, filled: &[(usize, usize)]) -> Shape {
    let mut s = Shape::new(width, height);
    for (x, y) in filled {
        s.set(*x, *y, true);
    }
    s
}

fn full(width: usize, height: usize) -> Shape {
    let mut cells = Vec::new();
    for x in 0..width {
        for y in 0..height {
            cells.push((x, y));
        }
    }
    shape(width, height, &cells)
}

fn puzzle(index: usize, layout: Shape, tiles: Vec<TileConfig>) -> PuzzleConfig {
    PuzzleConfig {
        id: format!("p{}", index),
        name: format!("Puzzle {}", index),
        index,
        board_config: BoardConfig::Simple { layout },
        tiles,
        unsolvable: false,
        description: None,
        difficulty: None,
    }
}

fn tile(width: usize, height: usize) -> TileConfig {
    TileConfig { name: None, base: full(width, height) }
}

fn hidden() -> PreviewConfig {
    PreviewConfig { show_board: false, show_board_size: false, show_tile_count: false, show_tiles: false }
}

fn item(value: &str, a: usize, b: usize) -> TargetIndexListItem {
    TargetIndexListItem { display_value: value.to_string(), target_index: TargetIndex(a, b) }
}

fn area_board() -> BoardConfig {
    BoardConfig::Area {
        layout: shape(2, 2, &[(0, 0), (0, 1), (1, 0)]),
        default_target: None,
        area_indices: vec![vec![0, 1], vec![7, 2]],
        display_values: vec![vec!["Jan".to_string(), "1".to_string()], vec!["Feb".to_string(), "2".to_string()]],
        value_order: vec![vec![0, 1], vec![2, 3]],
    }
}

#[test]
fn counting_filled_cells() {
    assert_eq!(count_filled(&shape(3, 2, &[(0, 0), (1, 1), (2, 0), (2, 1)])), 4);
    assert_eq!(count_filled(&Shape::new(4, 4)), 0);
    assert_eq!(count_filled(&full(5, 3)), 15);
    assert_eq!(count_filled(&Shape::new(0, 0)), 0);
}

#[test]
fn board_size_labels() {
    assert_eq!(board_size_label(&Shape::new(3, 2)), "3 x 2");
    assert_eq!(board_size_label(&Shape::new(12, 10)), "12 x 10");
}

#[test]
fn unlocked_puzzles_show_everything() {
    let p = puzzle(0, shape(3, 2, &[(0, 0), (1, 1), (2, 0), (2, 1)]), vec![tile(1, 1), tile(2, 1)]);
    let data = item_data(false, &hidden(), &p);
    assert_eq!(data.board_size, Some("3 x 2".to_string()));
    assert_eq!(data.cell_count, Some("4".to_string()));
    assert_eq!(data.tile_count, Some("2".to_string()));
    assert!(data.show_tile_preview);
    assert!(data.show_board_preview);
    assert_eq!(data.description, None);
    assert_eq!(data.difficulty, None);
}

#[test]
fn items_show_description_and_difficulty() {
    let mut p = puzzle(0, full(2, 2), vec![tile(1, 1)]);
    p.description = Some("A small one".to_string());
    p.difficulty = Some("Easy".to_string());
    let data = item_data(true, &hidden(), &p);
    assert_eq!(data.description, Some("A small one".to_string()));
    assert_eq!(data.difficulty, Some("Easy".to_string()));
}

#[test]
fn locked_puzzles_show_what_the_preview_allows() {
    let p = puzzle(0, full(3, 3), vec![tile(1, 1)]);
    let data = item_data(true, &hidden(), &p);
    assert_eq!(data.board_size, None);
    assert_eq!(data.cell_count, None);
    assert_eq!(data.tile_count, None);
    assert!(!data.show_tile_preview);
    assert!(!data.show_board_preview);
    let some = PreviewConfig { show_board: true, show_board_size: false, show_tile_count: true, show_tiles: false };
    let data = item_data(true, &some, &p);
    assert_eq!(data.board_size, None);
    assert_eq!(data.tile_count, Some("1".to_string()));
    assert!(!data.show_tile_preview);
    assert!(data.show_board_preview);
}

#[test]
fn selection_item_of_a_locked_puzzle() {
    let collection = PuzzleConfigCollection {
        id: "c".to_string(),
        name: "c".to_string(),
        progression: ProgressionConfig::Sequential,
        preview: PreviewConfig { show_board: false, show_board_size: true, show_tile_count: false, show_tiles: false },
        puzzles: vec![puzzle(0, full(2, 2), vec![tile(1, 1)]), puzzle(1, full(4, 1), vec![tile(1, 1)])],
    };
    let model = CollectionModel::new(collection, &PuzzleMeta::new());
    let (state, data) = model.selection_item_data(1);
    assert_eq!(state, PuzzleModState::Locked);
    assert_eq!(data.board_size, Some("4 x 1".to_string()));
    assert_eq!(data.cell_count, Some("4".to_string()));
    assert_eq!(data.tile_count, None);
    let (state, data) = model.selection_item_data(0);
    assert_eq!(state, PuzzleModState::Stars(StarsProgress { solved: false, best_hint_count: None }));
    assert_eq!(data.tile_count, Some("1".to_string()));
}

#[test]
fn tile_previews_are_lined_up() {
    let layout = tiles_preview_layout(&vec![tile(2, 1), tile(1, 3), tile(3, 2)]);
    assert_eq!(
        layout,
        vec![
            PreviewTile { x: 0, y: 20, width: 40, height: 20 },
            PreviewTile { x: 60, y: 0, width: 20, height: 60 },
            PreviewTile { x: 100, y: 10, width: 60, height: 40 },
        ]
    );
    assert!(tiles_preview_layout(&vec![]).is_empty());
}

#[test]
fn row_states() {
    assert_eq!(row_state(ProgressionConfig::Any, false, false), PuzzleRowState::Unlocked);
    assert_eq!(row_state(ProgressionConfig::Any, true, false), PuzzleRowState::Solved);
    assert_eq!(row_state(ProgressionConfig::Sequential, false, false), PuzzleRowState::Locked);
    assert_eq!(row_state(ProgressionConfig::Sequential, false, true), PuzzleRowState::Unlocked);
    assert_eq!(row_state(ProgressionConfig::Sequential, true, false), PuzzleRowState::Solved);
}

#[test]
fn sorting_is_stable() {
    assert_eq!(sort_order(&vec![3, 1, 3, 0]), vec![3, 1, 0, 2]);
    assert_eq!(sort_order(&vec![]), Vec::<usize>::new());
    assert_eq!(sort_order(&vec![5, 5, 5]), vec![0, 1, 2]);
    assert_eq!(sort_order(&vec![i32::MAX, i32::MIN]), vec![1, 0]);
}

#[test]
fn dropdown_values_follow_the_value_order() {
    let items = vec![item("d", 1, 1), item("a", 0, 0), item("x", 5, 5), item("b", 0, 1)];
    let current = Some(Target { indices: vec![TargetIndex(9, 9), TargetIndex(1, 1)] });
    let (sorted, selected) = create_dropdown_for_area(&area_board(), &items, &current, 1);
    let values: Vec<String> = sorted.iter().map(|i| i.display_value.clone()).collect();
    assert_eq!(values, vec!["a", "b", "d", "x"]);
    assert_eq!(selected, Some(2));
    let (_, selected) = create_dropdown_for_area(&area_board(), &items, &current, 0);
    assert_eq!(selected, None);
    let (_, selected) = create_dropdown_for_area(&area_board(), &items, &current, 2);
    assert_eq!(selected, None);
    let (_, selected) = create_dropdown_for_area(&area_board(), &items, &None, 1);
    assert_eq!(selected, None);
    let simple = BoardConfig::Simple { layout: full(1, 1) };
    let (sorted, selected) = create_dropdown_for_area(&simple, &items, &current, 1);
    assert!(sorted.is_empty());
    assert_eq!(selected, None);
}

#[test]
fn chosen_target_skips_areas_without_selection() {
    let areas = vec![vec![item("a", 0, 0), item("b", 0, 1)], vec![item("c", 1, 0)], vec![item("d", 1, 1)]];
    let target = selected_target(&areas, &vec![1, u32::MAX, 0]);
    assert_eq!(target.indices, vec![TargetIndex(0, 1), TargetIndex(1, 1)]);
    assert!(selected_target(&areas, &vec![]).indices.is_empty());
}

#[test]
fn board_view_cells() {
    let cells = board_cells(&area_board());
    assert_eq!(cells.len(), 2);
    assert_eq!(cells[0][0].css_classes, vec!["board-cell", "board-cell-0"]);
    assert_eq!(cells[0][0].label, Some("Jan".to_string()));
    assert_eq!(cells[1][0].css_classes, vec!["board-cell", "board-cell-7"]);
    assert_eq!(cells[1][0].label, Some("Feb".to_string()));
    assert_eq!(cells[1][1].css_classes, vec!["board-cell", "board-cell-outside"]);
    assert_eq!(cells[1][1].label, None);
    let simple = board_cells(&BoardConfig::Simple { layout: shape(1, 2, &[(0, 1)]) });
    assert_eq!(simple[0][0].css_classes, vec!["board-cell", "board-cell-outside"]);
    assert_eq!(simple[0][1].css_classes, vec!["board-cell", "board-cell-simple"]);
    assert_eq!(simple[0][1].label, None);
}

#[test]
fn general_puzzle_information() {
    let rows = general_info_rows(&puzzle(3, full(5, 4), vec![tile(1, 1), tile(1, 2), tile(2, 2)]));
    let pairs: Vec<(String, String)> = rows.into_iter().map(|r| (r.title, r.value)).collect();
    assert_eq!(
        pairs,
        vec![
            ("Puzzle Name".to_string(), "Puzzle 3".to_string()),
            ("Board Dimensions".to_string(), "5 x 4".to_string()),
            ("Number of Tiles".to_string(), "3".to_string()),
        ]
    );
}

#[test]
fn board_previews_grow_with_their_labels() {
    assert_eq!(board_preview_size(0, 3, 2), (60, 40));
    assert_eq!(board_preview_size(20, 3, 2), (60, 40));
    assert_eq!(board_preview_size(35, 3, 2), (105, 70));
}

#[test]
fn star_count_labels() {
    assert_eq!(star_counts_label(3, 12), ("3 / 12".to_string(), false));
    assert_eq!(star_counts_label(12, 12), ("12 / 12".to_string(), true));
    assert_eq!(star_counts_label(0, 0), ("0 / 0".to_string(), true));
}
