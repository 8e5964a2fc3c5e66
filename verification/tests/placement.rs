use puzzled::area::{drag_update_position, snapped_cells, PuzzleArea};
use puzzled::config::{PuzzleConfig, TileConfig};
use puzzled::extension::BoardConfig;
use puzzled::highlight::{highlight_invalid_tile_parts, DrawingMode, TileHighlight};
use puzzled::offset::CellOffset;
use puzzled::placement::board::PlacedBoard;
use puzzled::placement::grid::GridConfig;
use puzzled::placement::initial::calculate_tile_start_positions;
use puzzled::placement::tile::PlacedTile;
use puzzled::placement::{PixelPosition, PlacementModel};
use puzzled::puzzle_state::{Cell, CellData, PuzzleState, TileCellPlacement};
use puzzled::extension::{PuzzleTypeExtension, Target, TargetIndex};
use puzzled::shape::Shape;

fn full_shape(width: usize, height: usize) -> Shape {
    let mut s = Shape::new(width, height);
    for x in 0..width {
        for y in 0..height {
            s.set(x, y, true);
        }
    }
    s
}

fn grid() -> GridConfig {
    GridConfig { grid_cells: CellOffset(14, 9), min_grid_cells: CellOffset(14, 9), cell_size_pixel: 10 }
}

/// A 2 x 2 board at cell (6, 1) with four tiles: one on the board cell (0, 0), one far
/// off the board, a domino half on the board and half on the border, and one more on
/// the board cell (0, 0).
fn model() -> PlacementModel {
    let mut m = PlacementModel {
        layout: full_shape(2, 2),
        area_pixel_size: PixelPosition(140, 90),
        min_area_pixel_size: PixelPosition(140, 90),
        grid_config: grid(),
        board: PlacedBoard::new(CellOffset(2, 2), PixelPosition(60, 10), CellOffset(6, 1)),
        tiles: vec![
            PlacedTile::new(None, full_shape(1, 1), CellOffset(1, 1), CellOffset(6, 1)),
            PlacedTile::new(Some("far".to_string()), full_shape(1, 1), CellOffset(1, 1), CellOffset(1, 1)),
            PlacedTile::new(None, full_shape(2, 1), CellOffset(2, 1), CellOffset(7, 1)),
            PlacedTile::new(None, full_shape(1, 1), CellOffset(1, 1), CellOffset(6, 1)),
        ],
        hint_tile: None,
    };
    m.update_pixel_from_cell_data();
    m
}

fn one(cell: &Cell) -> Option<(CellData, TileCellPlacement)> {
    match cell {
        Cell::One(d, p) => Some((*d, *p)),
        _ => None,
    }
}

#[test]
fn extraction_records_the_tile_cells() {
    let m = model();
    let state = m.extract_puzzle_state(&None).unwrap();
    assert_eq!(state.grid.len(), 4);
    assert!(state.grid.iter().all(|column| column.len() == 4));
    match &state.grid[1][1] {
        Cell::Many(d, ps) => {
            assert_eq!(*d, CellData { is_on_board: true, allowed: true });
            assert_eq!(
                *ps,
                vec![
                    TileCellPlacement { tile_id: 0, cell_position: CellOffset(0, 0) },
                    TileCellPlacement { tile_id: 3, cell_position: CellOffset(0, 0) },
                ]
            );
        }
        other => panic!("unexpected cell {:?}", other),
    }
    assert_eq!(
        one(&state.grid[2][1]),
        Some((CellData { is_on_board: true, allowed: true }, TileCellPlacement { tile_id: 2, cell_position: CellOffset(0, 0) }))
    );
    assert_eq!(
        one(&state.grid[3][1]),
        Some((CellData { is_on_board: false, allowed: false }, TileCellPlacement { tile_id: 2, cell_position: CellOffset(1, 0) }))
    );
    assert!(matches!(state.grid[0][0], Cell::Empty(CellData { is_on_board: false, allowed: false })));
    assert!(matches!(state.grid[1][2], Cell::Empty(CellData { is_on_board: true, allowed: true })));
    assert_eq!(state.unused_tiles.len(), 1);
    assert_eq!(state.unused_tiles[0].id, 1);
    assert_eq!(state.unused_tiles[0].name, Some("far".to_string()));
    assert!(state.unused_tiles[0].base.equals(&full_shape(1, 1)));
}

#[test]
fn extraction_fails_while_a_tile_is_dragged() {
    let mut m = model();
    m.update_tile_dragged(1, true);
    match m.extract_puzzle_state(&None) {
        Err(e) => assert_eq!(e, "Tile position not set"),
        Ok(_) => panic!("a dragged tile has no position"),
    }
    m.update_tile_dragged(1, false);
    assert!(m.extract_puzzle_state(&None).is_ok());
}

#[test]
fn highlights_of_overlapping_and_outside_cells() {
    let state = model().extract_puzzle_state(&None).unwrap();
    let highlights = highlight_invalid_tile_parts(&state);
    assert_eq!(
        highlights,
        vec![
            TileHighlight { tile_id: 0, cell_position: CellOffset(0, 0), mode: DrawingMode::Overlapping },
            TileHighlight { tile_id: 3, cell_position: CellOffset(0, 0), mode: DrawingMode::Overlapping },
            TileHighlight { tile_id: 2, cell_position: CellOffset(1, 0), mode: DrawingMode::OutOfBounds },
        ]
    );
}

#[test]
fn area_without_model_cannot_extract() {
    let area = PuzzleArea { placement_model: None, board_min_element_size: None, hint_tile_shown: false, puzzle_type_extension: None };
    match area.extract_puzzle_state() {
        Err(e) => assert_eq!(e, "No placement model set up"),
        Ok(_) => panic!("no model, no state"),
    }
    assert!(area.update_highlights().is_empty());
    assert!(area.update_tile_layout().is_empty());
    assert_eq!(area.get_min_element_width(), 0);
}

#[test]
fn area_highlights_follow_the_model() {
    let area = PuzzleArea { placement_model: Some(model()), board_min_element_size: Some(17), hint_tile_shown: false, puzzle_type_extension: None };
    assert_eq!(area.update_highlights().len(), 3);
    assert_eq!(area.get_min_element_width(), 17);
}

#[test]
fn tiles_snap_to_the_nearest_cell() {
    let mut m = model();
    assert_eq!(m.translate_pixels_to_cells(PixelPosition(74, 15)), CellOffset(7, 2));
    assert_eq!(m.translate_cells_to_pixels(CellOffset(7, 2)), PixelPosition(70, 20));
    m.update_tile_pixel_position(2, PixelPosition(74, 15));
    assert_eq!(m.tile_cell_position(2), Some(CellOffset(7, 2)));
    assert_eq!(m.tile_pixel_position(2), Some(PixelPosition(70, 20)));
    assert_eq!(m.tile_cell_position(0), Some(CellOffset(6, 1)));
}

#[test]
fn ending_a_drag_snaps_the_tile() {
    let mut area = PuzzleArea { placement_model: Some(model()), board_min_element_size: None, hint_tile_shown: false, puzzle_type_extension: None };
    area.end_drag(0, PixelPosition(36, 44));
    let m = area.placement_model.as_ref().unwrap();
    assert_eq!(m.tile_cell_position(0), Some(CellOffset(4, 4)));
    assert_eq!(m.tile_pixel_position(0), Some(PixelPosition(40, 40)));
    area.end_drag(99, PixelPosition(0, 0));
    assert_eq!(area.placement_model.as_ref().unwrap().tiles.len(), 4);
}

#[test]
fn dragged_tiles_stay_in_the_area() {
    assert_eq!(drag_update_position(PixelPosition(10, 10), PixelPosition(-30, 5), PixelPosition(100, 12)), PixelPosition(0, 12));
    assert_eq!(drag_update_position(PixelPosition(10, 10), PixelPosition(5, 1), PixelPosition(100, 12)), PixelPosition(15, 11));
    assert_eq!(drag_update_position(PixelPosition(0, 0), PixelPosition(500, 0), PixelPosition(100, 0)), PixelPosition(100, 0));
}

#[test]
fn dropped_tiles_snap_inside_the_grid() {
    assert_eq!(snapped_cells(PixelPosition(74, 15), &grid(), (2, 1)), CellOffset(7, 2));
    assert_eq!(snapped_cells(PixelPosition(500, -20), &grid(), (2, 1)), CellOffset(12, 0));
    assert_eq!(snapped_cells(PixelPosition(0, 95), &grid(), (1, 3)), CellOffset(0, 6));
    let no_size = GridConfig { cell_size_pixel: 0, ..grid() };
    assert_eq!(snapped_cells(PixelPosition(74, 15), &no_size, (2, 1)), CellOffset(0, 0));
}

#[test]
fn matching_tiles_are_found_by_base() {
    let m = model();
    assert_eq!(m.find_tile_matching_base(&full_shape(2, 1)), Some(2));
    assert_eq!(m.find_tile_matching_base(&full_shape(1, 1)), Some(0));
    assert_eq!(m.find_tile_matching_base(&full_shape(3, 1)), None);
}

#[test]
fn start_positions_go_around_the_board() {
    let tiles = vec![
        TileConfig { name: None, base: full_shape(1, 1) },
        TileConfig { name: None, base: full_shape(1, 1) },
        TileConfig { name: None, base: full_shape(1, 1) },
    ];
    let config = PuzzleConfig {
        id: "p".to_string(),
        name: "p".to_string(),
        index: 0,
        board_config: BoardConfig::Simple { layout: full_shape(2, 2) },
        tiles: vec![],
        unsolvable: false,
        description: None,
        difficulty: None,
    };
    let positions = calculate_tile_start_positions(&tiles, &config, CellOffset(6, 1));
    assert_eq!(positions, vec![CellOffset(1, 1), CellOffset(9, 1), CellOffset(1, 4)]);
}

#[test]
fn initial_grid_has_room_for_the_margins() {
    let config = PuzzleConfig {
        id: "p".to_string(),
        name: "p".to_string(),
        index: 0,
        board_config: BoardConfig::Simple { layout: full_shape(5, 3) },
        tiles: vec![],
        unsolvable: false,
        description: None,
        difficulty: None,
    };
    let g = PlacementModel::initial_grid_config(&config);
    assert_eq!(g.grid_cells, CellOffset(17, 10));
    assert_eq!(g.min_grid_cells, CellOffset(17, 10));
    assert_eq!(g.cell_size_pixel, 1);
    assert_eq!(GridConfig::default().cell_size_pixel, 1);
}

#[test]
fn tiles_required_cells_spans_all_tiles() {
    let m = model();
    assert_eq!(m.tiles_required_cells(), CellOffset(9, 2));
}

#[test]
fn new_model_lays_out_board_and_tiles() {
    let config = PuzzleConfig {
        id: "p".to_string(),
        name: "p".to_string(),
        index: 0,
        board_config: BoardConfig::Simple { layout: full_shape(2, 2) },
        tiles: vec![
            TileConfig { name: Some("a".to_string()), base: full_shape(1, 1) },
            TileConfig { name: None, base: full_shape(1, 1) },
            TileConfig { name: None, base: full_shape(1, 1) },
        ],
        unsolvable: false,
        description: None,
        difficulty: None,
    };
    let m = PlacementModel::new(&config);
    assert_eq!(m.grid_config, GridConfig { grid_cells: CellOffset(14, 14), min_grid_cells: CellOffset(14, 9), cell_size_pixel: 7 });
    assert_eq!(m.board_cell_position(), CellOffset(6, 1));
    assert_eq!(m.board_pixel_position(), PixelPosition(42, 7));
    assert_eq!(m.board_size(), PixelPosition(14, 14));
    assert_eq!(m.min_area_size(), PixelPosition(140, 90));
    let cells: Vec<Option<CellOffset>> = (0..3).map(|i| m.tile_cell_position(i)).collect();
    assert_eq!(cells, vec![Some(CellOffset(1, 1)), Some(CellOffset(9, 1)), Some(CellOffset(1, 4))]);
    let pixels: Vec<Option<PixelPosition>> = (0..3).map(|i| m.tile_pixel_position(i)).collect();
    assert_eq!(pixels, vec![Some(PixelPosition(7, 7)), Some(PixelPosition(63, 7)), Some(PixelPosition(7, 28))]);
    assert_eq!(m.tile_size(0), PixelPosition(7, 7));
    assert_eq!(m.tiles[0].name, Some("a".to_string()));
    assert!(m.hint_tile.is_none());
}

#[test]
fn wider_area_centers_the_board_and_moves_the_tiles() {
    let mut m = model();
    m.area_pixel_size = PixelPosition(300, 90);
    m.update_grid_layout();
    assert_eq!(m.grid_config, GridConfig { grid_cells: CellOffset(30, 9), min_grid_cells: CellOffset(14, 9), cell_size_pixel: 10 });
    assert_eq!(m.board_cell_position(), CellOffset(14, 1));
    let cells: Vec<Option<CellOffset>> = (0..4).map(|i| m.tile_cell_position(i)).collect();
    assert_eq!(
        cells,
        vec![Some(CellOffset(14, 1)), Some(CellOffset(9, 1)), Some(CellOffset(15, 1)), Some(CellOffset(14, 1))]
    );
    m.update_pixel_from_cell_data();
    assert_eq!(m.board_pixel_position(), PixelPosition(140, 10));
    assert_eq!(m.tile_pixel_position(1), Some(PixelPosition(90, 10)));
    assert_eq!(m.tile_size(2), PixelPosition(20, 10));
}

#[test]
fn same_area_keeps_the_layout() {
    let mut m = model();
    m.update_grid_layout();
    assert_eq!(m.grid_config, grid());
    assert_eq!(m.board_cell_position(), CellOffset(6, 1));
    assert_eq!(m.tile_cell_position(1), Some(CellOffset(1, 1)));
}

fn inside_grid(m: &PlacementModel, i: usize) -> bool {
    let p = m.tile_cell_position(i).unwrap();
    let t = &m.tiles[i];
    p.0 >= 0 && p.1 >= 0 && p.0 + t.cell_size.0 <= m.grid_config.grid_cells.0 && p.1 + t.cell_size.1 <= m.grid_config.grid_cells.1
}

#[test]
fn tiles_stay_inside_the_grid() {
    let mut m = model();
    m.area_pixel_size = PixelPosition(200, 300);
    m.update_grid_layout();
    assert_eq!(m.grid_config.grid_cells, CellOffset(14, 21));
    assert_eq!(m.board_cell_position(), CellOffset(6, 1));
    for i in 0..4 {
        assert!(inside_grid(&m, i));
    }
}

#[test]
fn a_tile_far_right_leaves_the_grid_when_the_board_moves_right() {
    let mut m = model();
    m.tiles = vec![PlacedTile::new(None, full_shape(1, 1), CellOffset(1, 1), CellOffset(100, 1))];
    m.area_pixel_size = PixelPosition(1010, 90);
    m.update_grid_layout();
    assert_eq!(m.grid_config.grid_cells, CellOffset(101, 9));
    assert_eq!(m.board_cell_position(), CellOffset(49, 1));
    assert_eq!(m.tile_cell_position(0), Some(CellOffset(143, 1)));
    assert!(!inside_grid(&m, 0));
}

#[test]
fn moved_elements_stay_at_non_negative_positions() {
    let mut m = model();
    m.hint_tile = Some(PlacedTile::new(None, full_shape(1, 1), CellOffset(1, 1), CellOffset(2, 3)));
    m.move_all_elements_by(CellOffset(-4, 1));
    assert_eq!(m.tile_cell_position(0), Some(CellOffset(2, 2)));
    assert_eq!(m.tile_cell_position(1), Some(CellOffset(0, 2)));
    assert_eq!(m.hint_tile.as_ref().unwrap().position_cells, CellOffset(0, 4));
    m.move_all_elements_by(CellOffset(0, -9));
    assert_eq!(m.tile_cell_position(2), Some(CellOffset(3, 0)));
    assert_eq!(m.hint_tile.as_ref().unwrap().position_cells, CellOffset(0, 0));
}

#[test]
fn tile_layout_follows_rotation_and_cells() {
    let mut m = model();
    m.update_tile_dragged(1, true);
    let area = PuzzleArea { placement_model: Some(m), board_min_element_size: None, hint_tile_shown: false, puzzle_type_extension: None };
    let layouts = area.update_tile_layout();
    assert_eq!(layouts.len(), 4);
    assert_eq!(layouts[0].size, PixelPosition(10, 10));
    assert_eq!(layouts[0].position, Some(PixelPosition(60, 10)));
    assert_eq!(layouts[1].position, None);
    assert_eq!(layouts[2].size, PixelPosition(20, 10));
    assert_eq!(layouts[2].position, Some(PixelPosition(70, 10)));
    assert!(area.update_hint_tile_layout().is_none());
}

#[test]
fn target_cells_stay_on_the_board_but_are_not_allowed() {
    let mut layout = full_shape(2, 2);
    layout.set(1, 1, false);
    let extension = Some(PuzzleTypeExtension::Area { target: Some(Target { indices: vec![TargetIndex(1, 0), TargetIndex(1, 1)] }) });
    let state = PuzzleState::new(&layout, &extension);
    assert_eq!(state.grid.len(), 4);
    assert!(matches!(state.grid[2][1], Cell::Empty(CellData { is_on_board: true, allowed: false })));
    assert!(matches!(state.grid[1][1], Cell::Empty(CellData { is_on_board: true, allowed: true })));
    assert!(matches!(state.grid[2][2], Cell::Empty(CellData { is_on_board: false, allowed: false })));
    assert!(matches!(state.grid[0][0], Cell::Empty(CellData { is_on_board: false, allowed: false })));
    assert!(matches!(state.grid[3][3], Cell::Empty(CellData { is_on_board: false, allowed: false })));
    assert!(state.unused_tiles.is_empty());
}
