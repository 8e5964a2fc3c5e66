use puzzled::collection::{mod_state, CollectionModel, PuzzleModState, StarsProgress};
use puzzled::collection_id::CollectionId;
use puzzled::config::{PreviewConfig, ProgressionConfig, PuzzleConfig, PuzzleConfigCollection, TileConfig};
use puzzled::extension::{BoardConfig, PuzzleTypeExtension, Target, TargetIndex};
use puzzled::model::PuzzleModel;
use puzzled::page::{PuzzlePage, PuzzlePresenter};
use puzzled::area::PuzzleArea;
use puzzled::puzzle_meta::{extension_key, puzzle_key, target_key, PuzzleMeta};
use puzzled::shape::Shape;
use puzzled::store::{collection_text, load_error_message, CollectionFileAction, PuzzleCollectionStore, ReadError};

fn full_shape(width: usize, height: usize) -> Shape {
    let mut s = Shape::new(width, height);
    for x in 0..width {
        for y in 0..height {
            s.set(x, y, true);
        }
    }
    s
}

fn simple_puzzle(id: &str, index: usize) -> PuzzleConfig {
    PuzzleConfig {
        id: id.to_string(),
        name: format!("Puzzle {}", index),
        index,
        board_config: BoardConfig::Simple { layout: full_shape(2, 2) },
        tiles: vec![TileConfig { name: None, base: full_shape(1, 1) }],
        unsolvable: false,
        description: None,
        difficulty: None,
    }
}

fn area_puzzle(id: &str, index: usize, default_target: Option<Target>) -> PuzzleConfig {
    PuzzleConfig {
        id: id.to_string(),
        name: format!("Area {}", index),
        index,
        board_config: BoardConfig::Area {
            layout: full_shape(2, 2),
            default_target,
            area_indices: vec![vec![0, 0], vec![1, 1]],
            display_values: vec![vec!["a".to_string(), "b".to_string()], vec!["c".to_string(), "d".to_string()]],
            value_order: vec![vec![0, 1], vec![2, 3]],
        },
        tiles: vec![TileConfig { name: None, base: full_shape(1, 1) }],
        unsolvable: false,
        description: None,
        difficulty: None,
    }
}

fn preview() -> PreviewConfig {
    PreviewConfig { show_board: false, show_board_size: false, show_tile_count: false, show_tiles: false }
}

fn collection(id: &str, progression: ProgressionConfig, count: usize) -> PuzzleConfigCollection {
    let mut puzzles = Vec::new();
    for i in 0..count {
        puzzles.push(simple_puzzle(&format!("p{}", i), i));
    }
    PuzzleConfigCollection { id: id.to_string(), name: id.to_string(), progression, preview: preview(), puzzles }
}

fn target(indices: &[(usize, usize)]) -> Target {
    Target { indices: indices.iter().map(|(a, b)| TargetIndex(*a, *b)).collect() }
}

#[test]
fn target_keys_list_the_indices() {
    assert_eq!(target_key(&target(&[(3, 4)])), "x3-4");
    assert_eq!(target_key(&target(&[(3, 4), (10, 0)])), "x3-4x10-0");
    assert_eq!(target_key(&target(&[])), "");
}

#[test]
fn extension_keys_of_boards() {
    let simple = BoardConfig::Simple { layout: full_shape(1, 1) };
    assert_eq!(extension_key(&simple, &None), Some("simple".to_string()));
    let area = area_puzzle("a", 0, None).board_config;
    assert_eq!(extension_key(&area, &None), None);
    assert_eq!(extension_key(&area, &Some(PuzzleTypeExtension::Area { target: None })), None);
    let selected = Some(PuzzleTypeExtension::Area { target: Some(target(&[(1, 2)])) });
    assert_eq!(extension_key(&area, &selected), Some("x1-2".to_string()));
    let with_default = area_puzzle("a", 0, Some(target(&[(0, 1)]))).board_config;
    assert_eq!(extension_key(&with_default, &None), Some("x0-1".to_string()));
    assert_eq!(extension_key(&with_default, &selected), Some("x1-2".to_string()));
}

#[test]
fn puzzle_keys_join_id_and_extension() {
    let c = collection("c", ProgressionConfig::Any, 2);
    assert_eq!(puzzle_key(&c, 1, &None), Some("p1/simple".to_string()));
    assert_eq!(puzzle_key(&c, 2, &None), None);
}

#[test]
fn meta_reads_back_what_was_written() {
    let c = collection("c", ProgressionConfig::Any, 2);
    let other = collection("other", ProgressionConfig::Any, 2);
    let mut meta = PuzzleMeta::new();
    assert!(!meta.is_solved(&c, 0, &None));
    assert_eq!(meta.hints(&c, 0, &None), None);
    meta.set_solved(true, &c, 0, &None);
    meta.set_hints(3, &c, 0, &None);
    assert!(meta.is_solved(&c, 0, &None));
    assert_eq!(meta.hints(&c, 0, &None), Some(3));
    assert!(!meta.is_solved(&c, 1, &None));
    assert!(!meta.is_solved(&other, 0, &None));
    meta.set_hints(1, &c, 0, &None);
    assert_eq!(meta.hints(&c, 0, &None), Some(1));
    meta.set_solved(false, &c, 0, &None);
    assert!(!meta.is_solved(&c, 0, &None));
    meta.set_solved(true, &c, 0, &None);
    meta.reset_solved();
    assert!(!meta.is_solved(&c, 0, &None));
    assert_eq!(meta.hints(&c, 0, &None), Some(1));
    meta.reset();
    assert_eq!(meta.hints(&c, 0, &None), None);
}

#[test]
fn meta_ignores_variants_without_key() {
    let area = PuzzleConfigCollection {
        id: "a".to_string(),
        name: "a".to_string(),
        progression: ProgressionConfig::Any,
        preview: preview(),
        puzzles: vec![area_puzzle("p", 0, None)],
    };
    let mut meta = PuzzleMeta::new();
    meta.set_solved(true, &area, 0, &None);
    assert!(!meta.is_solved(&area, 0, &None));
    let selected = Some(PuzzleTypeExtension::Area { target: Some(target(&[(1, 1)])) });
    meta.set_solved(true, &area, 0, &selected);
    assert!(meta.is_solved(&area, 0, &selected));
}

#[test]
fn puzzle_model_records_progress() {
    let c = collection("c", ProgressionConfig::Any, 2);
    let mut meta = PuzzleMeta::new();
    meta.set_solved(true, &c, 1, &Some(PuzzleTypeExtension::Simple));
    meta.set_hints(4, &c, 1, &Some(PuzzleTypeExtension::Simple));
    let first = PuzzleModel::new(&c, 0, &meta);
    assert!(!first.is_solved_default());
    assert_eq!(first.best_hint_count_default(), None);
    let mut second = PuzzleModel::new(&c, 1, &meta);
    assert!(second.is_solved_default());
    assert_eq!(second.best_hint_count_default(), Some(4));
    let simple = Some(PuzzleTypeExtension::Simple);
    second.set_solved(2, &simple, &mut meta, &c);
    assert!(second.is_solved(&simple));
    assert_eq!(second.best_hint_count(&simple), Some(2));
    assert_eq!(meta.hints(&c, 1, &simple), Some(2));
    second.mark_as_unsolved();
    assert!(!second.is_solved(&simple));
    assert_eq!(second.best_hint_count(&simple), None);
}

#[test]
fn mod_states() {
    let stars = |solved: bool, best: Option<u32>| PuzzleModState::Stars(StarsProgress { solved, best_hint_count: best });
    assert_eq!(mod_state(ProgressionConfig::Any, false, Some(false), false, None), stars(false, None));
    assert_eq!(mod_state(ProgressionConfig::Any, false, Some(false), true, None), PuzzleModState::Unsolvable);
    assert_eq!(mod_state(ProgressionConfig::Sequential, false, Some(false), false, None), PuzzleModState::Locked);
    assert_eq!(mod_state(ProgressionConfig::Sequential, false, Some(false), true, None), PuzzleModState::Locked);
    assert_eq!(mod_state(ProgressionConfig::Sequential, true, Some(false), false, Some(2)), stars(true, Some(2)));
    assert_eq!(mod_state(ProgressionConfig::Sequential, false, Some(true), false, None), stars(false, None));
    assert_eq!(mod_state(ProgressionConfig::Sequential, false, None, false, None), stars(false, None));
}

#[test]
fn sequential_collection_unlocks_one_after_another() {
    let c = collection("seq", ProgressionConfig::Sequential, 3);
    let mut meta = PuzzleMeta::new();
    meta.set_solved(true, &c, 0, &Some(PuzzleTypeExtension::Simple));
    meta.set_hints(4, &c, 0, &Some(PuzzleTypeExtension::Simple));
    let model = CollectionModel::new(c, &meta);
    assert_eq!(model.puzzles().len(), 3);
    assert_eq!(model.puzzle_mod_state(0), PuzzleModState::Stars(StarsProgress { solved: true, best_hint_count: Some(4) }));
    assert_eq!(model.puzzle_mod_state(1), PuzzleModState::Stars(StarsProgress { solved: false, best_hint_count: None }));
    assert_eq!(model.puzzle_mod_state(2), PuzzleModState::Locked);
    assert_eq!(model.is_previous_solved_default(0), None);
    assert_eq!(model.is_previous_solved_default(1), Some(true));
    assert_eq!(model.is_previous_solved_default(2), Some(false));
    assert!(model.has_next_puzzle(1));
    assert!(!model.has_next_puzzle(2));
    assert_eq!(model.next_puzzle(0), Some(1));
    assert_eq!(model.next_puzzle(2), None);
}

#[test]
fn marking_all_unsolved_locks_again() {
    let c = collection("seq", ProgressionConfig::Sequential, 2);
    let mut meta = PuzzleMeta::new();
    meta.set_solved(true, &c, 0, &Some(PuzzleTypeExtension::Simple));
    let mut model = CollectionModel::new(c, &meta);
    assert!(matches!(model.puzzle_mod_state(1), PuzzleModState::Stars(_)));
    model.mark_all_as_unsolved();
    assert_eq!(model.puzzle_mod_state(1), PuzzleModState::Locked);
    assert!(!model.puzzles()[0].is_solved_default());
}

#[test]
fn solving_keeps_the_fewest_hints() {
    let c = collection("c", ProgressionConfig::Any, 1);
    let mut meta = PuzzleMeta::new();
    let mut model = CollectionModel::new(c, &meta);
    let mut page = PuzzlePage {
        puzzle: Some(0),
        extension: Some(PuzzleTypeExtension::Simple),
        hint_count: 3,
        grid: PuzzleArea { placement_model: None, board_min_element_size: None, hint_tile_shown: false, puzzle_type_extension: None },
    };
    page.handle_solved(&mut model, &mut meta);
    let simple = Some(PuzzleTypeExtension::Simple);
    assert!(model.puzzles()[0].is_solved(&simple));
    assert_eq!(model.puzzles()[0].best_hint_count(&simple), Some(3));
    page.hint_count = 5;
    page.handle_solved(&mut model, &mut meta);
    assert_eq!(model.puzzles()[0].best_hint_count(&simple), Some(3));
    page.hint_count = 1;
    page.handle_solved(&mut model, &mut meta);
    assert_eq!(model.puzzles()[0].best_hint_count(&simple), Some(1));
    assert_eq!(meta.hints(model.config(), 0, &simple), Some(1));
    assert!(meta.is_solved(model.config(), 0, &simple));
}

#[test]
fn store_keeps_one_community_collection_per_id() {
    let meta = PuzzleMeta::new();
    let mut store = PuzzleCollectionStore::new();
    assert!(store.add_community_collection_from_string("{}", Ok(collection("x", ProgressionConfig::Any, 1)), &meta).is_ok());
    assert!(store.add_community_collection_from_string("{}", Ok(collection("y", ProgressionConfig::Any, 2)), &meta).is_ok());
    assert!(store.add_community_collection_from_string("{}", Ok(collection("x", ProgressionConfig::Any, 3)), &meta).is_ok());
    let ids: Vec<String> = store.community_puzzle_collections().iter().map(|c| c.config().id.clone()).collect();
    assert_eq!(ids, vec!["y".to_string(), "x".to_string()]);
    assert_eq!(store.community_puzzle_collections()[1].puzzles().len(), 3);
    let err = store.add_community_collection_from_string("{", Err(ReadError::JsonError("bad json".to_string())), &meta);
    match err {
        Err(ReadError::JsonError(m)) => assert_eq!(m, "bad json"),
        other => panic!("unexpected result {:?}", other),
    }
    assert_eq!(store.community_puzzle_collections().len(), 2);
    match store.remove_community_collection(&"y".to_string()) {
        CollectionFileAction::Delete { collection_id } => assert_eq!(collection_id, "y"),
        other => panic!("unexpected action {:?}", other),
    }
    assert_eq!(store.community_puzzle_collections().len(), 1);
    assert_eq!(store.community_puzzle_collections()[0].config().id, "x");
    assert_eq!(store.core_puzzle_collections().len(), 0);
}

#[test]
fn store_selects_community_or_core_collection() {
    let meta = PuzzleMeta::new();
    let mut store = PuzzleCollectionStore::new();
    assert_eq!(store.community_or_core_collection(), CollectionId::Core(0));
    assert!(store.collection(CollectionId::Core(0)).is_none());
    store.add_community_collection_from_string("{}", Ok(collection("x", ProgressionConfig::Any, 1)), &meta).unwrap();
    store.add_community_collection_from_string("{}", Ok(collection("y", ProgressionConfig::Any, 1)), &meta).unwrap();
    assert_eq!(store.community_or_core_collection(), CollectionId::Community(1));
    assert_eq!(store.collection(CollectionId::Community(0)).map(|c| c.config().id.clone()), Some("x".to_string()));
    assert!(store.collection(CollectionId::Community(2)).is_none());
}

#[test]
fn marking_the_store_unsolved_clears_progress() {
    let c = collection("x", ProgressionConfig::Any, 1);
    let mut meta = PuzzleMeta::new();
    meta.set_solved(true, &c, 0, &Some(PuzzleTypeExtension::Simple));
    let mut store = PuzzleCollectionStore::new();
    store.add_community_collection_from_string("{}", Ok(c), &meta).unwrap();
    assert!(store.community_puzzle_collections()[0].puzzles()[0].is_solved_default());
    store.mark_all_as_unsolved(&mut meta);
    assert!(!store.community_puzzle_collections()[0].puzzles()[0].is_solved_default());
    assert_eq!(store.community_puzzle_collections()[0].puzzles()[0].best_hint_count_default(), None);
    assert_eq!(store.community_puzzle_collections()[0].config().id, "x");
    assert!(!meta.is_solved(store.community_puzzle_collections()[0].config(), 0, &Some(PuzzleTypeExtension::Simple)));
}

#[test]
fn init_loads_core_and_readable_community_collections() {
    let meta = PuzzleMeta::new();
    let mut store = PuzzleCollectionStore::new();
    puzzled::store::init(
        &mut store,
        vec![collection("core1", ProgressionConfig::Sequential, 2), collection("core2", ProgressionConfig::Any, 1)],
        vec![
            Ok(collection("com1", ProgressionConfig::Any, 1)),
            Err(ReadError::MissingVersion),
            Ok(collection("com2", ProgressionConfig::Any, 1)),
        ],
        &meta,
    );
    let core: Vec<String> = store.core_puzzle_collections().iter().map(|c| c.config().id.clone()).collect();
    assert_eq!(core, vec!["core1".to_string(), "core2".to_string()]);
    let community: Vec<String> = store.community_puzzle_collections().iter().map(|c| c.config().id.clone()).collect();
    assert_eq!(community, vec!["com1".to_string(), "com2".to_string()]);
}

#[test]
fn different_targets_have_different_keys() {
    assert_ne!(target_key(&target(&[(1, 23)])), target_key(&target(&[(12, 3)])));
    assert_ne!(target_key(&target(&[(1, 2), (3, 4)])), target_key(&target(&[(3, 4), (1, 2)])));
    let board = area_puzzle("a", 0, None).board_config;
    let a = Some(PuzzleTypeExtension::Area { target: Some(target(&[(1, 23)])) });
    let b = Some(PuzzleTypeExtension::Area { target: Some(target(&[(12, 3)])) });
    assert_ne!(extension_key(&board, &a), extension_key(&board, &b));
}

#[test]
fn progress_of_targets_is_kept_apart() {
    let c = PuzzleConfigCollection {
        id: "a".to_string(),
        name: "a".to_string(),
        progression: ProgressionConfig::Any,
        preview: preview(),
        puzzles: vec![area_puzzle("p", 0, None)],
    };
    let a = Some(PuzzleTypeExtension::Area { target: Some(target(&[(1, 23)])) });
    let b = Some(PuzzleTypeExtension::Area { target: Some(target(&[(12, 3)])) });
    let mut meta = PuzzleMeta::new();
    meta.set_solved(true, &c, 0, &a);
    meta.set_hints(2, &c, 0, &a);
    assert!(meta.is_solved(&c, 0, &a));
    assert!(!meta.is_solved(&c, 0, &b));
    assert_eq!(meta.hints(&c, 0, &b), None);
}

#[test]
fn load_error_messages() {
    let m = |e: ReadError| load_error_message(&e, "1.2.0");
    assert_eq!(m(ReadError::FileReadError("No such file".to_string())), "No such file");
    assert_eq!(m(ReadError::MissingVersion), "The `puzzled` field is missing.");
    assert_eq!(m(ReadError::MalformedVersion), "The `puzzled` field is malformed.");
    assert_eq!(
        m(ReadError::UnsupportedVersion),
        "The collection is requiring a higher version of Puzzled. Only version 1.2.0 or lower is supported."
    );
    assert_eq!(
        m(ReadError::JsonError("expected value at line 1".to_string())),
        "The collection file could not be parsed correctly: expected value at line 1"
    );
    assert_eq!(
        m(ReadError::UnknownPredefinedTile { name: "Corner".to_string() }),
        "The collection file contains an unknown predefined tile in puzzle 'Corner'."
    );
    assert_eq!(
        m(ReadError::UnknownCustomBoard { puzzle_name: "P".to_string(), board_name: "B".to_string() }),
        "The collection file contains an unknown custom board 'B' in puzzle 'P'."
    );
    assert_eq!(m(ReadError::TileWidthOrHeightCannotBeZero), "The collection file contains a tile with zero width or height.");
    assert_eq!(m(ReadError::BoardWidthOrHeightCannotBeZero), "The collection file contains a board with zero width or height.");
    assert_eq!(m(ReadError::InvalidVersion("x".to_string())), "The version in the `puzzled` field is invalid.");
    assert_eq!(m(ReadError::InvalidCollectionId("x".to_string())), "The collection file contains an invalid collection ID.");
    assert_eq!(
        m(ReadError::InvalidColor { message: "#12".to_string() }),
        "The collection file contains an invalid color: #12"
    );
}

#[test]
fn collection_files_must_be_utf8() {
    match collection_text("h\u{e9}llo".as_bytes()) {
        Ok(text) => assert_eq!(text, "h\u{e9}llo"),
        Err(e) => panic!("valid text was refused: {:?}", e),
    }
    match collection_text(&[0x61, 0xff, 0x62]) {
        Err(ReadError::FileReadError(m)) => assert_eq!(m, "invalid utf-8 sequence of 1 bytes from index 1"),
        other => panic!("invalid text was accepted: {:?}", other),
    }
}

#[test]
fn adding_a_collection_replaces_and_saves_its_file() {
    let meta = PuzzleMeta::new();
    let mut store = PuzzleCollectionStore::new();
    let actions = store
        .add_community_collection_from_string("{\"id\": \"x\"}", Ok(collection("x", ProgressionConfig::Any, 1)), &meta)
        .unwrap();
    assert_eq!(actions.len(), 2);
    match &actions[0] {
        CollectionFileAction::Delete { collection_id } => assert_eq!(collection_id, "x"),
        other => panic!("unexpected action {:?}", other),
    }
    match &actions[1] {
        CollectionFileAction::Save { collection_id, json } => {
            assert_eq!(collection_id, "x");
            assert_eq!(json, "{\"id\": \"x\"}");
        }
        other => panic!("unexpected action {:?}", other),
    }
}

#[test]
fn new_models_know_only_the_default_variant() {
    let c = collection("c", ProgressionConfig::Any, 1);
    let mut meta = PuzzleMeta::new();
    meta.set_solved(true, &c, 0, &None);
    let model = PuzzleModel::new(&c, 0, &meta);
    assert!(model.is_solved_default());
    assert!(!model.is_solved(&None));
    assert_eq!(model.best_hint_count(&None), None);
}

#[test]
fn presenter_keeps_the_fewest_stored_hints() {
    let c = collection("c", ProgressionConfig::Any, 1);
    let simple = Some(PuzzleTypeExtension::Simple);
    let mut meta = PuzzleMeta::new();
    let mut presenter = PuzzlePresenter { puzzle: Some(0), extension: Some(PuzzleTypeExtension::Simple), hint_count: 3 };
    presenter.handle_solved(Some(&c), &mut meta);
    assert!(meta.is_solved(&c, 0, &simple));
    assert_eq!(meta.hints(&c, 0, &simple), Some(3));
    presenter.hint_count = 5;
    presenter.handle_solved(Some(&c), &mut meta);
    assert_eq!(meta.hints(&c, 0, &simple), Some(3));
    presenter.hint_count = 1;
    presenter.handle_solved(Some(&c), &mut meta);
    assert_eq!(meta.hints(&c, 0, &simple), Some(1));
    let mut untouched = PuzzleMeta::new();
    presenter.handle_solved(None, &mut untouched);
    assert!(!untouched.is_solved(&c, 0, &simple));
}
