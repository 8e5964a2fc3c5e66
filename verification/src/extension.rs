//! Targets and puzzle type extensions.
use vstd::prelude::*;
use crate::shape::Shape;

verus! {

/// The position of one target cell on the board.
#[derive(Debug, Clone, Copy, PartialEq, Eq, Structural)]
pub struct TargetIndex(pub usize, pub usize);

/// A selection of board cells that must stay uncovered, for example the cells of a date.
#[derive(Debug)]
pub struct Target {
    pub indices: Vec<TargetIndex>,
}

/// Extra data needed while a puzzle is solved.
///
/// A puzzle has a solved state for each different extension.
#[derive(Debug)]
pub enum PuzzleTypeExtension {
    Simple,
    Area { target: Option<Target> },
}

/// The board of a puzzle.
///
/// `Area` boards are divided into areas of which one cell each is selected as target.
#[derive(Debug)]
pub enum BoardConfig {
    Simple { layout: Shape },
    Area {
        layout: Shape,
        default_target: Option<Target>,
        /// The area each cell belongs to, `area_indices[x][y]` for the cell in column
        /// `x` and row `y`.
        area_indices: Vec<Vec<usize>>,
        /// The value shown on each cell, indexed as `area_indices`.
        display_values: Vec<Vec<String>>,
        /// The order in which the values of the cells are offered as targets:
        /// `value_order[a][b]` for the cell of `TargetIndex(a, b)`.
        value_order: Vec<Vec<i32>>,
    },
}

/// The spec value of a target: its indices as pairs.
pub open spec fn target_cells(t: &Target) -> Seq<TargetIndex> {
    t.indices@
}

impl Target {
    /// A copy of the target with the same indices.
    pub fn duplicate(&self) -> (r: Target)
        ensures
            r.indices@ == self.indices@,
    {
        let mut indices: Vec<TargetIndex> = Vec::new();
        let mut i: usize = 0;
        while i < self.indices.len()
            invariant
                i <= self.indices@.len(),
                indices@ == self.indices@.subrange(0, i as int),
            decreases self.indices@.len() - i,
        {
            indices.push(self.indices[i]);
            i = i + 1;
            assert(indices@ =~= self.indices@.subrange(0, i as int));
        }
        assert(indices@ =~= self.indices@);
        Target { indices }
    }
}

/// Two extensions describe the same puzzle variant.
pub open spec fn same_extension(a: &PuzzleTypeExtension, b: &PuzzleTypeExtension) -> bool {
    match (a, b) {
        (PuzzleTypeExtension::Simple, PuzzleTypeExtension::Simple) => true,
        (PuzzleTypeExtension::Area { target: ta }, PuzzleTypeExtension::Area { target: tb }) => {
            match (ta, tb) {
                (None, None) => true,
                (Some(x), Some(y)) => x.indices@ == y.indices@,
                _ => false,
            }
        },
        _ => false,
    }
}

impl PuzzleTypeExtension {
    /// A copy of the extension.
    pub fn duplicate(&self) -> (r: PuzzleTypeExtension)
        ensures
            same_extension(&r, self),
    {
        match self {
            PuzzleTypeExtension::Simple => PuzzleTypeExtension::Simple,
            PuzzleTypeExtension::Area { target } => match target {
                None => PuzzleTypeExtension::Area { target: None },
                Some(t) => PuzzleTypeExtension::Area { target: Some(t.duplicate()) },
            },
        }
    }

    /// Creates the default extension for a puzzle with the given board.
    ///
    /// This is the extension used to display the solved state in the puzzle and
    /// collection overviews.
    pub fn default_for_puzzle(board_config: &BoardConfig) -> (r: PuzzleTypeExtension)
        ensures
            match board_config {
                BoardConfig::Simple { .. } => r is Simple,
                BoardConfig::Area { default_target, .. } => match (r, default_target) {
                    (PuzzleTypeExtension::Area { target: None }, None) => true,
                    (PuzzleTypeExtension::Area { target: Some(t) }, Some(d)) => t.indices@ == d.indices@,
                    _ => false,
                },
            },
    {
        match board_config {
            BoardConfig::Simple { .. } => PuzzleTypeExtension::Simple,
            BoardConfig::Area { default_target, .. } => match default_target {
                None => PuzzleTypeExtension::Area { target: None },
                Some(t) => PuzzleTypeExtension::Area { target: Some(t.duplicate()) },
            },
        }
    }
}

/// Whether the solver is asked for a hint with the given extension: always, except for
/// an area board on which no target has been selected.
pub open spec fn spec_calculates_solvability(extension: Option<&PuzzleTypeExtension>) -> bool {
    match extension {
        None => true,
        Some(PuzzleTypeExtension::Simple) => true,
        Some(PuzzleTypeExtension::Area { target }) => target is Some,
    }
}

/// Decides whether the solver is called when a hint is requested.
pub fn calculates_solvability(extension: &Option<PuzzleTypeExtension>) -> (r: bool)
    ensures
        r == spec_calculates_solvability(match extension { None => None, Some(e) => Some(e) }),
{
    match extension {
        None => true,
        Some(PuzzleTypeExtension::Simple) => true,
        Some(PuzzleTypeExtension::Area { target }) => target.is_some(),
    }
}

impl BoardConfig {
    /// The layout of the board: which cells belong to it.
    pub fn layout(&self) -> (r: &Shape)
        ensures
            match self {
                BoardConfig::Simple { layout } => r == layout,
                BoardConfig::Area { layout, .. } => r == layout,
            },
    {
        match self {
            BoardConfig::Simple { layout } => layout,
            BoardConfig::Area { layout, .. } => layout,
        }
    }
}


/// Two optional extensions describe the same puzzle variant.
pub open spec fn same_key(a: &Option<PuzzleTypeExtension>, b: &Option<PuzzleTypeExtension>) -> bool {
    match (a, b) {
        (None, None) => true,
        (Some(x), Some(y)) => same_extension(x, y),
        _ => false,
    }
}

/// Whether two targets select the same cells in the same order.
pub fn same_target(a: &Target, b: &Target) -> (r: bool)
    ensures
        r == (a.indices@ == b.indices@),
{
    if a.indices.len() != b.indices.len() {
        return false;
    }
    let mut i: usize = 0;
    while i < a.indices.len()
        invariant
            a.indices@.len() == b.indices@.len(),
            i <= a.indices@.len(),
            forall|j: int| 0 <= j < i ==> a.indices@[j] == b.indices@[j],
        decreases a.indices@.len() - i,
    {
        if a.indices[i] != b.indices[i] {
            return false;
        }
        i = i + 1;
    }
    assert(a.indices@ =~= b.indices@);
    true
}

/// Whether two optional extensions describe the same puzzle variant.
pub fn same_variant(a: &Option<PuzzleTypeExtension>, b: &Option<PuzzleTypeExtension>) -> (r: bool)
    ensures
        r == same_key(a, b),
{
    match (a, b) {
        (None, None) => true,
        (Some(PuzzleTypeExtension::Simple), Some(PuzzleTypeExtension::Simple)) => true,
        (Some(PuzzleTypeExtension::Area { target: ta }), Some(PuzzleTypeExtension::Area { target: tb })) => {
            match (ta, tb) {
                (None, None) => true,
                (Some(x), Some(y)) => same_target(x, y),
                _ => false,
            }
        },
        _ => false,
    }
}

/// A copy of an optional extension.
pub fn duplicate_key(e: &Option<PuzzleTypeExtension>) -> (r: Option<PuzzleTypeExtension>)
    ensures
        same_key(&r, e),
{
    match e {
        None => None,
        Some(x) => Some(x.duplicate()),
    }
}


/// The extension is the default one for a puzzle with the given board.
pub open spec fn default_extension_of(e: &PuzzleTypeExtension, board_config: &BoardConfig) -> bool {
    match board_config {
        BoardConfig::Simple { .. } => *e is Simple,
        BoardConfig::Area { default_target, .. } => match (e, default_target) {
            (PuzzleTypeExtension::Area { target: None }, None) => true,
            (PuzzleTypeExtension::Area { target: Some(t) }, Some(d)) => t.indices@ == d.indices@,
            _ => false,
        },
    }
}

} // verus!
