//! Properties that span several functions of the library.
use vstd::prelude::*;
use crate::offset::{CellOffset, max_int, min_int, saturate_i32, saturate_u32};
use crate::extension::PuzzleTypeExtension;
use crate::placement::PixelPosition;
use crate::placement::extract::{
    covers, grid_offset, is_extracted_state, placement_of, placements_upto, unused_ids, uses_board,
};
use crate::placement::tile::PlacedTile;
use crate::puzzle_state::{PuzzleState, TileCellPlacement};
use crate::shape::Shape;
use crate::collection::{PuzzleModState, StarsProgress, spec_mod_state};
use crate::config::{ProgressionConfig, PuzzleConfigCollection};
use crate::puzzle_meta::{PuzzleMeta, spec_extension_key, spec_puzzle_key, spec_target_key, target_index_key, target_key_upto, written};
use crate::extension::{BoardConfig, Target};
use crate::text::{decimal, is_digit, lemma_decimal_digits, lemma_decimal_injective};
use crate::placement::grid::{
    MIN_CELLS_TO_THE_SIDES_OF_BOARD, MIN_CELLS_TO_THE_TOP_OF_BOARD, laid_out_cells, layout_for,
    max_extent, min_position, required_cells_of, tile_boxes, tiles_extent_fits,
};
use crate::placement::PlacementModel;

verus! {

proof fn lemma_div_bounds(a: int, c: int, r: int)
    by (nonlinear_arith)
    requires
        a > 0,
        r > 0,
        c > 0,
        c <= a / r,
    ensures
        a / c >= r,
        (a / c) * c <= a,
        a / c <= a,
{
}

proof fn lemma_div_max(a: int, r: int)
    by (nonlinear_arith)
    requires
        a > 0,
        r > 0,
    ensures
        (a / r + 1) * r > a,
        a / r <= a,
        a / r >= 0,
{
}

/// The grid layout shows the board with its margins and all tiles, and stays inside the
/// area: for an area of positive size in which a cell of at least one pixel fits, the
/// grid has at least the required number of cells in each direction, the grid fits into
/// the area, the cells are as large as possible, and the board is centered horizontally
/// with at least six free columns on each side and one free row above it.
pub proof fn law_layout_shows_everything(area: PixelPosition, board_size: CellOffset, tiles_required: (int, int))
    requires
        area.0 > 0,
        area.1 > 0,
        board_size.0 >= 0,
        board_size.1 >= 0,
        board_size.0 <= i32::MAX - 12,
        board_size.1 <= i32::MAX - 7,
        layout_for(area, board_size, tiles_required).0.cell_size_pixel > 0,
    ensures
        ({
            let (g, b) = layout_for(area, board_size, tiles_required);
            let s = g.cell_size_pixel as int;
            &&& g.grid_cells.0 >= g.min_grid_cells.0
            &&& g.grid_cells.1 >= g.min_grid_cells.1
            &&& g.min_grid_cells.0 >= board_size.0 + 2 * MIN_CELLS_TO_THE_SIDES_OF_BOARD
            &&& g.min_grid_cells.0 >= tiles_required.0
            &&& g.min_grid_cells.1 >= tiles_required.1
            &&& g.grid_cells.0 * s <= area.0
            &&& g.grid_cells.1 * s <= area.1
            &&& ((s + 1) * g.min_grid_cells.0 > area.0 || (s + 1) * g.min_grid_cells.1 > area.1)
            &&& b.1 == MIN_CELLS_TO_THE_TOP_OF_BOARD
            &&& b.0 >= MIN_CELLS_TO_THE_SIDES_OF_BOARD
            &&& g.grid_cells.0 - (b.0 + board_size.0) >= b.0
            &&& g.grid_cells.0 - (b.0 + board_size.0) <= b.0 + 1
        }),
{
    let required = (
        max_int(board_size.0 + MIN_CELLS_TO_THE_SIDES_OF_BOARD * 2, tiles_required.0),
        max_int(board_size.1 + MIN_CELLS_TO_THE_TOP_OF_BOARD + 6, tiles_required.1),
    );
    let a = area.0 as int;
    let c = area.1 as int;
    lemma_div_max(a, required.0);
    lemma_div_max(c, required.1);
    let cw = saturate_u32(a / required.0);
    let ch = saturate_u32(c / required.1);
    assert(cw == a / required.0);
    assert(ch == c / required.1);
    let s = min_int(cw, ch);
    lemma_div_bounds(a, s, required.0);
    lemma_div_bounds(c, s, required.1);
    assert(saturate_i32(a / s) == a / s);
    assert(saturate_i32(c / s) == c / s);
}


/// A covering is among the first `n` coverings of a grid cell exactly when one of the
/// first `n` tiles covers the cell with it; the coverings come in tile order.
pub proof fn lemma_placements_upto_members(
    tiles: Seq<PlacedTile>,
    board_position: CellOffset,
    n: int,
    gx: int,
    gy: int,
)
    requires
        0 <= n <= tiles.len(),
        tiles.len() <= usize::MAX,
    ensures
        forall|k: int| 0 <= k < placements_upto(tiles, board_position, n, gx, gy).len() ==> {
            let p = #[trigger] placements_upto(tiles, board_position, n, gx, gy)[k];
            &&& 0 <= p.tile_id < n
            &&& covers(tiles[p.tile_id as int], board_position, gx, gy)
            &&& p == placement_of(p.tile_id as int, tiles[p.tile_id as int], board_position, gx, gy)
        },
        forall|i: int| 0 <= i < n && #[trigger] covers(tiles[i], board_position, gx, gy)
            ==> placements_upto(tiles, board_position, n, gx, gy).contains(placement_of(i, tiles[i], board_position, gx, gy)),
        forall|k1: int, k2: int| 0 <= k1 < k2 < placements_upto(tiles, board_position, n, gx, gy).len()
            ==> (#[trigger] placements_upto(tiles, board_position, n, gx, gy)[k1]).tile_id
                < (#[trigger] placements_upto(tiles, board_position, n, gx, gy)[k2]).tile_id,
    decreases n,
{
    if n > 0 {
        lemma_placements_upto_members(tiles, board_position, n - 1, gx, gy);
        let prev = placements_upto(tiles, board_position, n - 1, gx, gy);
        let cur = placements_upto(tiles, board_position, n, gx, gy);
        if covers(tiles[n - 1], board_position, gx, gy) {
            let p = placement_of(n - 1, tiles[n - 1], board_position, gx, gy);
            assert(cur =~= prev.push(p));
            assert(p.tile_id == n - 1);
            assert forall|k: int| 0 <= k < cur.len() implies {
                let q = #[trigger] cur[k];
                &&& 0 <= q.tile_id < n
                &&& covers(tiles[q.tile_id as int], board_position, gx, gy)
                &&& q == placement_of(q.tile_id as int, tiles[q.tile_id as int], board_position, gx, gy)
            } by {
                if k < prev.len() {
                    assert(cur[k] == prev[k]);
                }
            }
            assert forall|k1: int, k2: int| 0 <= k1 < k2 < cur.len()
                implies (#[trigger] cur[k1]).tile_id < (#[trigger] cur[k2]).tile_id by {
                assert(cur[k1] == prev[k1]);
                if k2 < prev.len() {
                    assert(cur[k2] == prev[k2]);
                }
            }
            assert forall|i: int| 0 <= i < n && #[trigger] covers(tiles[i], board_position, gx, gy)
                implies cur.contains(placement_of(i, tiles[i], board_position, gx, gy)) by {
                if i < n - 1 {
                    let k = choose|k: int| 0 <= k < prev.len() && prev[k] == placement_of(i, tiles[i], board_position, gx, gy);
                    assert(cur[k] == prev[k]);
                } else {
                    assert(cur[prev.len() as int] == p);
                }
            }
        } else {
            assert(cur =~= prev);
        }
    }
}

/// Every cell of a tile that lies inside the grid is recorded in the grid cell it covers,
/// with the index of the tile and the position of the cell in the tile.
pub proof fn law_tile_cells_are_recorded(
    s: PuzzleState,
    tiles: Seq<PlacedTile>,
    board_position: CellOffset,
    layout: &Shape,
    extension: &Option<PuzzleTypeExtension>,
    i: int,
    x: int,
    y: int,
)
    requires
        is_extracted_state(s, tiles, board_position, layout, extension),
        tiles.len() <= usize::MAX,
        0 <= i < tiles.len(),
        tiles[i].current_rotation.filled(x, y),
        0 <= grid_offset(tiles[i], board_position).0 + x < layout.width + 2,
        0 <= grid_offset(tiles[i], board_position).1 + y < layout.height + 2,
    ensures
        s.cell(grid_offset(tiles[i], board_position).0 + x, grid_offset(tiles[i], board_position).1 + y).placements().contains(
            TileCellPlacement { tile_id: i as usize, cell_position: CellOffset(x as i32, y as i32) },
        ),
{
    let gx = grid_offset(tiles[i], board_position).0 + x;
    let gy = grid_offset(tiles[i], board_position).1 + y;
    assert(covers(tiles[i], board_position, gx, gy));
    lemma_placements_upto_members(tiles, board_position, tiles.len() as int, gx, gy);
    assert(s.cell(gx, gy).holds(
        crate::puzzle_state::initial_cell_data(layout, extension, gx, gy),
        placements_upto(tiles, board_position, tiles.len() as int, gx, gy),
    ));
}

/// A grid cell records only cells of tiles that cover it, at most one per tile, in the
/// order of the tiles.
pub proof fn law_recorded_cells_are_covered(
    s: PuzzleState,
    tiles: Seq<PlacedTile>,
    board_position: CellOffset,
    layout: &Shape,
    extension: &Option<PuzzleTypeExtension>,
    gx: int,
    gy: int,
    k: int,
)
    requires
        is_extracted_state(s, tiles, board_position, layout, extension),
        tiles.len() <= usize::MAX,
        0 <= gx < layout.width + 2,
        0 <= gy < layout.height + 2,
        0 <= k < s.cell(gx, gy).placements().len(),
    ensures
        ({
            let p = s.cell(gx, gy).placements()[k];
            &&& p.tile_id < tiles.len()
            &&& covers(tiles[p.tile_id as int], board_position, gx, gy)
            &&& p == placement_of(p.tile_id as int, tiles[p.tile_id as int], board_position, gx, gy)
            &&& forall|k2: int| k < k2 < s.cell(gx, gy).placements().len() ==> p.tile_id < (#[trigger] s.cell(gx, gy).placements()[k2]).tile_id
        }),
{
    lemma_placements_upto_members(tiles, board_position, tiles.len() as int, gx, gy);
    assert(s.cell(gx, gy).holds(
        crate::puzzle_state::initial_cell_data(layout, extension, gx, gy),
        placements_upto(tiles, board_position, tiles.len() as int, gx, gy),
    ));
}

/// The unused tiles among the first `n` are listed by increasing index, and a tile is
/// listed exactly when it covers no cell of the playable board area.
pub proof fn lemma_unused_ids_members(
    tiles: Seq<PlacedTile>,
    board_position: CellOffset,
    layout: &Shape,
    extension: &Option<PuzzleTypeExtension>,
    n: int,
)
    requires
        0 <= n <= tiles.len(),
        tiles.len() <= usize::MAX,
    ensures
        forall|i: int| 0 <= i < n ==> (unused_ids(tiles, board_position, layout, extension, n).contains(i as usize)
            <==> !#[trigger] uses_board(tiles[i], board_position, layout, extension)),
        forall|k: int| 0 <= k < unused_ids(tiles, board_position, layout, extension, n).len()
            ==> #[trigger] unused_ids(tiles, board_position, layout, extension, n)[k] < n,
        forall|k1: int, k2: int| 0 <= k1 < k2 < unused_ids(tiles, board_position, layout, extension, n).len()
            ==> #[trigger] unused_ids(tiles, board_position, layout, extension, n)[k1]
                < #[trigger] unused_ids(tiles, board_position, layout, extension, n)[k2],
    decreases n,
{
    if n > 0 {
        lemma_unused_ids_members(tiles, board_position, layout, extension, n - 1);
        let prev = unused_ids(tiles, board_position, layout, extension, n - 1);
        let cur = unused_ids(tiles, board_position, layout, extension, n);
        if !uses_board(tiles[n - 1], board_position, layout, extension) {
            let last = (n - 1) as usize;
            assert(cur =~= prev.push(last));
            assert(cur[prev.len() as int] == last);
            assert forall|i: int| 0 <= i < n implies (cur.contains(i as usize)
                <==> !#[trigger] uses_board(tiles[i], board_position, layout, extension)) by {
                if cur.contains(i as usize) && i < n - 1 {
                    let k = choose|k: int| 0 <= k < cur.len() && cur[k] == i as usize;
                    if k < prev.len() {
                        assert(prev[k] == cur[k]);
                    }
                }
                if prev.contains(i as usize) {
                    let k = choose|k: int| 0 <= k < prev.len() && prev[k] == i as usize;
                    assert(cur[k] == prev[k]);
                }
                if i == n - 1 {
                    assert(cur[prev.len() as int] == i as usize);
                }
            }
            assert forall|k: int| 0 <= k < cur.len() implies #[trigger] cur[k] < n by {
                if k < prev.len() {
                    assert(cur[k] == prev[k]);
                }
            }
            assert forall|k1: int, k2: int| 0 <= k1 < k2 < cur.len() implies #[trigger] cur[k1] < #[trigger] cur[k2] by {
                assert(cur[k1] == prev[k1]);
                if k2 < prev.len() {
                    assert(cur[k2] == prev[k2]);
                }
            }
        } else {
            assert(cur =~= prev);
        }
    }
}

/// The unused tiles of an extracted state are listed by increasing index, each once, and
/// a tile is listed exactly when none of its cells lies on the playable board area.
pub proof fn law_unused_tiles(
    s: PuzzleState,
    tiles: Seq<PlacedTile>,
    board_position: CellOffset,
    layout: &Shape,
    extension: &Option<PuzzleTypeExtension>,
    i: int,
)
    requires
        is_extracted_state(s, tiles, board_position, layout, extension),
        tiles.len() <= usize::MAX,
        0 <= i < tiles.len(),
    ensures
        (exists|k: int| 0 <= k < s.unused_tiles@.len() && #[trigger] s.unused_tiles@[k].id == i as usize)
            <==> !uses_board(tiles[i], board_position, layout, extension),
        forall|k1: int, k2: int| 0 <= k1 < k2 < s.unused_tiles@.len()
            ==> (#[trigger] s.unused_tiles@[k1]).id < (#[trigger] s.unused_tiles@[k2]).id,
{
    let n = tiles.len() as int;
    lemma_unused_ids_members(tiles, board_position, layout, extension, n);
    let ids = unused_ids(tiles, board_position, layout, extension, n);
    assert forall|k1: int, k2: int| 0 <= k1 < k2 < s.unused_tiles@.len()
        implies (#[trigger] s.unused_tiles@[k1]).id < (#[trigger] s.unused_tiles@[k2]).id by {
        assert(s.unused_tiles@[k1].id == ids[k1]);
        assert(s.unused_tiles@[k2].id == ids[k2]);
    }
    if exists|k: int| 0 <= k < s.unused_tiles@.len() && #[trigger] s.unused_tiles@[k].id == i as usize {
        let k = choose|k: int| 0 <= k < s.unused_tiles@.len() && #[trigger] s.unused_tiles@[k].id == i as usize;
        assert(ids[k] == i as usize);
        assert(ids.contains(i as usize));
    }
    if !uses_board(tiles[i], board_position, layout, extension) {
        assert(ids.contains(i as usize));
        let k = choose|k: int| 0 <= k < ids.len() && ids[k] == i as usize;
        assert(s.unused_tiles@[k].id == ids[k]);
    }
}

/// Reading back the progress of a puzzle variant gives what was last written for it, and
/// writing the progress of one variant leaves that of every other variant as it was.
pub proof fn law_progress_read_after_write(
    before: PuzzleMeta,
    after: PuzzleMeta,
    solved: bool,
    hints: u32,
    collection: &PuzzleConfigCollection,
    index: usize,
    extension: &Option<PuzzleTypeExtension>,
    other_collection: &PuzzleConfigCollection,
    other_index: usize,
    other_extension: &Option<PuzzleTypeExtension>,
)
    requires
        written(after.solved@, before.solved@, solved, collection, index, extension),
        written(after.hints@, before.hints@, hints, collection, index, extension),
    ensures
        spec_puzzle_key(collection, index, extension) is Some ==> {
            &&& after.solved_flag(collection, index, extension) == solved
            &&& after.hint_count(collection, index, extension) == Some(hints)
        },
        !(other_collection.id@ == collection.id@
            && spec_puzzle_key(other_collection, other_index, other_extension) == spec_puzzle_key(collection, index, extension)) ==> {
            &&& after.solved_flag(other_collection, other_index, other_extension)
                == before.solved_flag(other_collection, other_index, other_extension)
            &&& after.hint_count(other_collection, other_index, other_extension)
                == before.hint_count(other_collection, other_index, other_extension)
        },
{
    if let Some(k) = spec_puzzle_key(collection, index, extension) {
        assert(crate::puzzle_meta::stored(after.solved@, collection.id@, k) == Some(solved));
        assert(crate::puzzle_meta::stored(after.hints@, collection.id@, k) == Some(hints));
    }
    if let Some(k) = spec_puzzle_key(other_collection, other_index, other_extension) {
        if !(other_collection.id@ == collection.id@ && Some(k) == spec_puzzle_key(collection, index, extension)) {
            assert(crate::puzzle_meta::stored(after.solved@, other_collection.id@, k)
                == crate::puzzle_meta::stored(before.solved@, other_collection.id@, k));
            assert(crate::puzzle_meta::stored(after.hints@, other_collection.id@, k)
                == crate::puzzle_meta::stored(before.hints@, other_collection.id@, k));
        }
    }
}

/// A puzzle is locked only in a sequential collection, only while it is unsolved, and
/// never the first one; a puzzle that is not locked shows its stars unless it is known
/// to be unsolvable.
pub proof fn law_locking(progression: ProgressionConfig, solved: bool, previous_solved: Option<bool>, unsolvable: bool, best: Option<u32>)
    ensures
        progression == ProgressionConfig::Any ==> spec_mod_state(progression, solved, previous_solved, unsolvable, best) != PuzzleModState::Locked,
        solved ==> spec_mod_state(progression, solved, previous_solved, unsolvable, best) != PuzzleModState::Locked,
        previous_solved is None ==> spec_mod_state(progression, solved, previous_solved, unsolvable, best) != PuzzleModState::Locked,
        progression == ProgressionConfig::Sequential && !solved && previous_solved == Some(false)
            ==> spec_mod_state(progression, solved, previous_solved, unsolvable, best) == PuzzleModState::Locked,
        spec_mod_state(progression, solved, previous_solved, unsolvable, best) != PuzzleModState::Locked ==>
            (spec_mod_state(progression, solved, previous_solved, unsolvable, best) == PuzzleModState::Unsolvable <==> unsolvable),
        spec_mod_state(progression, solved, previous_solved, unsolvable, best) != PuzzleModState::Locked && !unsolvable ==>
            spec_mod_state(progression, solved, previous_solved, unsolvable, best)
                == PuzzleModState::Stars(StarsProgress { solved, best_hint_count: best }),
{
}

/// Every box among the first `k` lies within the extent of the first `k` boxes, whose
/// smallest position is at most zero.
pub proof fn lemma_boxes_within_extent(boxes: Seq<(int, int, int, int)>, k: int, i: int)
    requires
        0 <= i < k <= boxes.len(),
    ensures
        boxes[i].0 + boxes[i].2 <= max_extent(boxes, k).0,
        boxes[i].1 + boxes[i].3 <= max_extent(boxes, k).1,
        min_position(boxes, k).0 <= 0,
        min_position(boxes, k).1 <= 0,
    decreases k,
{
    if i < k - 1 {
        lemma_boxes_within_extent(boxes, k - 1, i);
    } else if k > 1 {
        lemma_boxes_within_extent(boxes, k - 1, 0);
    }
}

/// Laying the grid out keeps the tiles visible: a tile at a non-negative position ends
/// up inside the grid vertically, and horizontally too unless the board moved right.
/// (When the board moves right, the tiles move right with it and may leave the grid.)
pub proof fn law_tiles_stay_visible(n: PlacementModel, o: PlacementModel, area: PixelPosition, i: int)
    requires
        o.wf(),
        tiles_extent_fits(o.tiles@),
        forall|j: int| 0 <= j < o.tiles@.len() ==> 0 <= (#[trigger] o.tiles@[j]).position_cells.0 && 0 <= o.tiles@[j].position_cells.1,
        area.0 > 0,
        area.1 > 0,
        laid_out_cells(&n, &o, area),
        n.grid_config.cell_size_pixel > 0,
        0 <= i < o.tiles@.len(),
    ensures
        0 <= n.tiles@[i].position_cells.1,
        n.tiles@[i].position_cells.1 + n.tiles@[i].cell_size.1 <= n.grid_config.grid_cells.1,
        0 <= n.tiles@[i].position_cells.0,
        n.board.position_cells.0 <= o.board.position_cells.0
            ==> n.tiles@[i].position_cells.0 + n.tiles@[i].cell_size.0 <= n.grid_config.grid_cells.0,
{
    let boxes = tile_boxes(o.tiles@);
    let k = boxes.len() as int;
    assert(boxes[i] == crate::placement::grid::tile_box(o.tiles@[i]));
    lemma_boxes_within_extent(boxes, k, i);
    let tr = required_cells_of(o.tiles@);
    let bs = o.board.cell_size;
    let required = (
        max_int(bs.0 + MIN_CELLS_TO_THE_SIDES_OF_BOARD * 2, tr.0),
        max_int(bs.1 + MIN_CELLS_TO_THE_TOP_OF_BOARD + 6, tr.1),
    );
    let a = area.0 as int;
    let c = area.1 as int;
    lemma_div_max(a, required.0);
    lemma_div_max(c, required.1);
    let cw = saturate_u32(a / required.0);
    let ch = saturate_u32(c / required.1);
    assert(cw == a / required.0);
    assert(ch == c / required.1);
    let sz = min_int(cw, ch);
    assert(sz == n.grid_config.cell_size_pixel);
    lemma_div_bounds(a, sz, required.0);
    lemma_div_bounds(c, sz, required.1);
    assert(saturate_i32(a / sz) == a / sz);
    assert(saturate_i32(c / sz) == c / sz);
}

/// Two texts that end in a separator followed by a part without that separator are
/// equal only if the parts and what comes before the separators are equal.
pub proof fn lemma_split_at_last(s1: Seq<char>, d1: Seq<char>, s2: Seq<char>, d2: Seq<char>, sep: char)
    requires
        s1 + seq![sep] + d1 == s2 + seq![sep] + d2,
        forall|i: int| 0 <= i < d1.len() ==> d1[i] != sep,
        forall|i: int| 0 <= i < d2.len() ==> d2[i] != sep,
    ensures
        s1 == s2,
        d1 == d2,
{
    let x = s1 + seq![sep] + d1;
    let y = s2 + seq![sep] + d2;
    let hx = s1 + seq![sep];
    let hy = s2 + seq![sep];
    assert(hx.len() == s1.len() + 1 && hx[s1.len() as int] == sep);
    assert(hy.len() == s2.len() + 1 && hy[s2.len() as int] == sep);
    assert(x.len() == y.len());
    if d1.len() < d2.len() {
        let p = s1.len() as int;
        assert(x[p] == hx[p]);
        assert(p >= hy.len());
        assert(y[p] == d2[p - hy.len()]);
    } else if d2.len() < d1.len() {
        let p = s2.len() as int;
        assert(y[p] == hy[p]);
        assert(p >= hx.len());
        assert(x[p] == d1[p - hx.len()]);
    }
    assert(s1 =~= x.subrange(0, s1.len() as int));
    assert(s2 =~= y.subrange(0, s2.len() as int));
    assert(d1 =~= x.subrange(s1.len() as int + 1, x.len() as int));
    assert(d2 =~= y.subrange(s2.len() as int + 1, y.len() as int));
}

proof fn lemma_decimal_has_no(n: nat, c: char)
    requires
        !is_digit(c),
    ensures
        forall|i: int| 0 <= i < decimal(n).len() ==> decimal(n)[i] != c,
{
    lemma_decimal_digits(n);
    assert forall|i: int| 0 <= i < decimal(n).len() implies decimal(n)[i] != c by {
        assert(is_digit(decimal(n)[i]));
    }
}

/// The keys of the first indices of two targets are equal only for the same indices.
pub proof fn lemma_target_key_upto_injective(a: &Target, b: &Target, ka: int, kb: int)
    requires
        0 <= ka <= a.indices@.len(),
        0 <= kb <= b.indices@.len(),
        target_key_upto(a, ka) == target_key_upto(b, kb),
    ensures
        ka == kb,
        a.indices@.subrange(0, ka) == b.indices@.subrange(0, kb),
    decreases ka + kb,
{
    if ka == 0 && kb == 0 {
        assert(a.indices@.subrange(0, 0) =~= b.indices@.subrange(0, 0));
    } else if ka == 0 {
        let t = b.indices@[kb - 1];
        assert(target_key_upto(b, kb).len() >= target_index_key(t.0, t.1).len());
        assert(target_index_key(t.0, t.1).len() > 0);
    } else if kb == 0 {
        let t = a.indices@[ka - 1];
        assert(target_key_upto(a, ka).len() >= target_index_key(t.0, t.1).len());
        assert(target_index_key(t.0, t.1).len() > 0);
    } else {
        let ta = a.indices@[ka - 1];
        let tb = b.indices@[kb - 1];
        let pa = target_key_upto(a, ka - 1);
        let pb = target_key_upto(b, kb - 1);
        let xa = decimal(ta.0 as nat);
        let ya = decimal(ta.1 as nat);
        let xb = decimal(tb.0 as nat);
        let yb = decimal(tb.1 as nat);
        assert(target_key_upto(a, ka) =~= (pa + seq!['x'] + xa) + seq!['-'] + ya);
        assert(target_key_upto(b, kb) =~= (pb + seq!['x'] + xb) + seq!['-'] + yb);
        lemma_decimal_has_no(ta.1 as nat, '-');
        lemma_decimal_has_no(tb.1 as nat, '-');
        lemma_split_at_last(pa + seq!['x'] + xa, ya, pb + seq!['x'] + xb, yb, '-');
        lemma_decimal_has_no(ta.0 as nat, 'x');
        lemma_decimal_has_no(tb.0 as nat, 'x');
        lemma_split_at_last(pa, xa, pb, xb, 'x');
        lemma_decimal_injective(ta.0 as nat, tb.0 as nat);
        lemma_decimal_injective(ta.1 as nat, tb.1 as nat);
        lemma_target_key_upto_injective(a, b, ka - 1, kb - 1);
        assert(a.indices@.subrange(0, ka) =~= a.indices@.subrange(0, ka - 1).push(ta));
        assert(b.indices@.subrange(0, kb) =~= b.indices@.subrange(0, kb - 1).push(tb));
    }
}

/// Different targets give different keys, so the progress of a puzzle is kept apart for
/// each target: two variants of an area puzzle with selected targets have the same key
/// only if the targets select the same cells.
pub proof fn law_target_keys_differ(board: &BoardConfig, a: &Target, b: &Target)
    requires
        board is Area,
    ensures
        (spec_target_key(a) == spec_target_key(b)) <==> (a.indices@ == b.indices@),
        spec_extension_key(board, &Some(PuzzleTypeExtension::Area { target: Some(*a) }))
            == spec_extension_key(board, &Some(PuzzleTypeExtension::Area { target: Some(*b) }))
            <==> a.indices@ == b.indices@,
{
    if spec_target_key(a) == spec_target_key(b) {
        lemma_target_key_upto_injective(a, b, a.indices@.len() as int, b.indices@.len() as int);
        assert(a.indices@ =~= a.indices@.subrange(0, a.indices@.len() as int));
        assert(b.indices@ =~= b.indices@.subrange(0, b.indices@.len() as int));
    }
    if a.indices@ == b.indices@ {
        crate::puzzle_meta::lemma_target_key_indices(a, b, a.indices@.len() as int);
    }
}

} // verus!
