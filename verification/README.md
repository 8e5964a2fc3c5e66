# puzzled

The game logic of Puzzled, a polyomino puzzle game, as a library with machine-checked
contracts.

- `src/` is the verified library. Every function states its result in `requires` /
  `ensures` over spec functions and views, and Verus proves the bodies against them.
  - `offset`, `shape`, `text`, `color`: cell offsets, rectangular cell grids, decimal
    labels and color channels.
  - `extension`, `config`: targets, puzzle variants and the configuration of puzzles and
    collections.
  - `placement`: where the board and the tiles lie in the puzzle area, in cells and in
    pixels, the grid layout for an area size, the start positions of the tiles, and the
    extraction of the puzzle state from the tile positions.
  - `puzzle_state`, `highlight`: the state handed to the solver and the tile cells that
    overlap or lie outside the allowed area.
  - `puzzle_meta`, `model`, `collection`, `store`, `collection_id`: the stored progress of
    each puzzle variant, the progress of puzzles and collections, and the store of the core
    and community collections.
  - `area`, `page`, `selection`, `target_select`, `board_view`, `info`, `random_puzzle`,
    `settings`: the decisions behind the views: layout requests, dragging, hints, the puzzle
    list, the choice of a target, the look of board cells and the puzzle information.
  - `laws`: properties that span several functions, stated and proved as proof functions.
- `tests/` runs the library on concrete values.
- `app/` is a small command line program for what the library does not do: the files of
  the community collections, and colors and positions as floating point numbers.
