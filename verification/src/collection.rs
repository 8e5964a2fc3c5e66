//! A collection of puzzles with the progress of each puzzle.
use vstd::prelude::*;
use crate::config::{ProgressionConfig, PuzzleConfigCollection};
use crate::extension::PuzzleTypeExtension;
use crate::model::{PuzzleModel, default_key};
use crate::puzzle_meta::PuzzleMeta;

verus! {

/// The progress of a puzzle in its default variant that its stars are reckoned from:
/// whether it is solved and the fewest hints it was solved with. Together with the
/// difficulty of the puzzle's configuration it fixes the stars the overview shows.
#[derive(Debug, Clone, Copy, PartialEq, Eq, Structural)]
pub struct StarsProgress {
    pub solved: bool,
    pub best_hint_count: Option<u32>,
}

/// What the overview shows for a puzzle.
#[derive(Debug, Clone, Copy, PartialEq, Eq, Structural)]
pub enum PuzzleModState {
    /// The stars reached, from the progress in the default variant.
    Stars(StarsProgress),
    /// A lock: the previous puzzle has to be solved first.
    Locked,
    /// A cross: the puzzle cannot be solved.
    Unsolvable,
}

/// A collection of puzzles and the progress of each of them.
#[derive(Debug)]
pub struct CollectionModel {
    pub config: PuzzleConfigCollection,
    pub puzzles: Vec<PuzzleModel>,
}

impl CollectionModel {
    /// There is one puzzle model per configured puzzle, at its own index.
    pub open spec fn wf(&self) -> bool {
        &&& self.puzzles@.len() == self.config.puzzles@.len()
        &&& forall|i: int| 0 <= i < self.puzzles@.len() ==> (#[trigger] self.puzzles@[i]).index == i
    }

    /// Creates the models of all puzzles of the collection from the stored progress.
    pub fn new(config: PuzzleConfigCollection, puzzle_meta: &PuzzleMeta) -> (c: CollectionModel)
        ensures
            c.wf(),
            c.config == config,
            forall|i: int| 0 <= i < c.puzzles@.len() ==> {
                let p = #[trigger] c.puzzles@[i];
                &&& crate::extension::default_extension_of(&p.default_extension, &config.puzzles@[i].board_config)
                &&& p.is_solved_spec(&default_key(&p)) == match crate::puzzle_meta::spec_puzzle_key(&config, i as usize, &default_key(&p)) {
                    Some(k) => crate::puzzle_meta::stored(puzzle_meta.solved@, config.id@, k) == Some(true),
                    None => false,
                }
                &&& p.best_hint_count_spec(&default_key(&p)) == match crate::puzzle_meta::spec_puzzle_key(&config, i as usize, &default_key(&p)) {
                    Some(k) => crate::puzzle_meta::stored(puzzle_meta.hints@, config.id@, k),
                    None => None,
                }
                &&& p.only_default_known()
            },
    {
        let mut puzzles: Vec<PuzzleModel> = Vec::new();
        let mut i: usize = 0;
        while i < config.puzzles.len()
            invariant
                i <= config.puzzles@.len(),
                puzzles@.len() == i,
                forall|j: int| 0 <= j < i ==> {
                    let p = #[trigger] puzzles@[j];
                    &&& p.index == j
                    &&& crate::extension::default_extension_of(&p.default_extension, &config.puzzles@[j].board_config)
                    &&& p.is_solved_spec(&default_key(&p)) == match crate::puzzle_meta::spec_puzzle_key(&config, j as usize, &default_key(&p)) {
                        Some(k) => crate::puzzle_meta::stored(puzzle_meta.solved@, config.id@, k) == Some(true),
                        None => false,
                    }
                    &&& p.best_hint_count_spec(&default_key(&p)) == match crate::puzzle_meta::spec_puzzle_key(&config, j as usize, &default_key(&p)) {
                        Some(k) => crate::puzzle_meta::stored(puzzle_meta.hints@, config.id@, k),
                        None => None,
                    }
                    &&& p.only_default_known()
                },
            decreases config.puzzles@.len() - i,
        {
            puzzles.push(PuzzleModel::new(&config, i, puzzle_meta));
            i = i + 1;
        }
        CollectionModel { config, puzzles }
    }

    /// The configuration of the collection.
    pub fn config(&self) -> (r: &PuzzleConfigCollection)
        ensures
            r == &self.config,
    {
        &self.config
    }

    /// The puzzle models of the collection.
    pub fn puzzles(&self) -> (r: &Vec<PuzzleModel>)
        ensures
            r == &self.puzzles,
    {
        &self.puzzles
    }

    /// `self` is the collection `o` with every puzzle unsolved in every variant: the same
    /// configuration, and the same puzzles in the same default variants, without any
    /// solved flag or hint count.
    pub open spec fn marked_unsolved(&self, o: &CollectionModel) -> bool {
        &&& self.wf()
        &&& self.config == o.config
        &&& self.puzzles@.len() == o.puzzles@.len()
        &&& forall|i: int, k: Option<PuzzleTypeExtension>| 0 <= i < self.puzzles@.len()
            ==> !#[trigger] self.puzzles@[i].is_solved_spec(&k)
        &&& forall|i: int, k: Option<PuzzleTypeExtension>| 0 <= i < self.puzzles@.len()
            ==> #[trigger] self.puzzles@[i].best_hint_count_spec(&k) is None
        &&& forall|i: int| 0 <= i < self.puzzles@.len()
            ==> (#[trigger] self.puzzles@[i]).default_extension == o.puzzles@[i].default_extension
    }

    /// Marks every puzzle of the collection as unsolved in every variant.
    pub fn mark_all_as_unsolved(&mut self)
        requires
            old(self).wf(),
        ensures
            final(self).marked_unsolved(&*old(self)),
    {
        let ghost start = self.puzzles@;
        let mut i: usize = 0;
        while i < self.puzzles.len()
            invariant
                i <= self.puzzles@.len(),
                self.puzzles@.len() == start.len(),
                self.puzzles@.len() == self.config.puzzles@.len(),
                self.config == old(self).config,
                start == old(self).puzzles@,
                forall|j: int| 0 <= j < self.puzzles@.len() ==> (#[trigger] self.puzzles@[j]).index == j,
                forall|j: int| i <= j < self.puzzles@.len() ==> #[trigger] self.puzzles@[j] == start[j],
                forall|j: int, k: Option<PuzzleTypeExtension>| 0 <= j < i
                    ==> !#[trigger] self.puzzles@[j].is_solved_spec(&k),
                forall|j: int, k: Option<PuzzleTypeExtension>| 0 <= j < i
                    ==> #[trigger] self.puzzles@[j].best_hint_count_spec(&k) is None,
                forall|j: int| 0 <= j < self.puzzles@.len() ==> (#[trigger] self.puzzles@[j]).default_extension == start[j].default_extension,
            decreases self.puzzles@.len() - i,
        {
            self.puzzles[i].mark_as_unsolved();
            i = i + 1;
        }
    }

    /// Whether there is a puzzle after the one at `index`.
    pub fn has_next_puzzle(&self, index: usize) -> (r: bool)
        requires
            index < self.puzzles@.len(),
        ensures
            r == (index + 1 < self.puzzles@.len()),
    {
        index < self.puzzles.len() - 1
    }

    /// The index of the puzzle after the one at `index`, if there is one.
    pub fn next_puzzle(&self, index: usize) -> (r: Option<usize>)
        requires
            index < self.puzzles@.len(),
        ensures
            r == (if index + 1 < self.puzzles@.len() { Some((index + 1) as usize) } else { None }),
    {
        if index < self.puzzles.len() - 1 {
            Some(index + 1)
        } else {
            None
        }
    }

    /// Whether the puzzle before the one at `index` has been solved in its default
    /// variant; `None` for the first puzzle.
    pub fn is_previous_solved_default(&self, index: usize) -> (r: Option<bool>)
        requires
            index < self.puzzles@.len(),
        ensures
            index == 0 ==> r is None,
            index > 0 ==> r == Some(self.puzzles@[index - 1].is_solved_spec(&default_key(&self.puzzles@[index - 1]))),
    {
        if index == 0 {
            return None;
        }
        Some(self.puzzles[index - 1].is_solved_default())
    }

    /// What the overview shows for the puzzle at `index`: in a sequential collection a
    /// puzzle is locked until it or the previous puzzle is solved; an unlocked puzzle
    /// known to have no solution is shown as unsolvable; otherwise its stars, from its
    /// progress in its default variant.
    pub fn puzzle_mod_state(&self, index: usize) -> (r: PuzzleModState)
        requires
            self.wf(),
            index < self.puzzles@.len(),
        ensures
            r == spec_mod_state(
                self.config.progression,
                self.puzzles@[index as int].is_solved_spec(&default_key(&self.puzzles@[index as int])),
                if index == 0 { None } else { Some(self.puzzles@[index - 1].is_solved_spec(&default_key(&self.puzzles@[index - 1]))) },
                self.config.puzzles@[index as int].unsolvable,
                self.puzzles@[index as int].best_hint_count_spec(&default_key(&self.puzzles@[index as int])),
            ),
    {
        let solved = self.puzzles[index].is_solved_default();
        let best_hint_count = self.puzzles[index].best_hint_count_default();
        let previous_solved = self.is_previous_solved_default(index);
        mod_state(self.config.progression, solved, previous_solved, self.config.puzzles[index].unsolvable, best_hint_count)
    }
}

/// The overview state of a puzzle from the progression of its collection, whether it
/// is solved, whether the previous one is solved (`None` for the first puzzle) and
/// whether it is known to be unsolvable; the stars come from whether it is solved and
/// its best hint count.
pub open spec fn spec_mod_state(
    progression: ProgressionConfig,
    solved: bool,
    previous_solved: Option<bool>,
    unsolvable: bool,
    best_hint_count: Option<u32>,
) -> PuzzleModState {
    let unlocked = match progression {
        ProgressionConfig::Any => true,
        ProgressionConfig::Sequential => solved || match previous_solved { Some(p) => p, None => true },
    };
    if !unlocked {
        PuzzleModState::Locked
    } else if unsolvable {
        PuzzleModState::Unsolvable
    } else {
        PuzzleModState::Stars(StarsProgress { solved, best_hint_count })
    }
}

/// Decides what the overview shows for a puzzle.
pub fn mod_state(
    progression: ProgressionConfig,
    solved: bool,
    previous_solved: Option<bool>,
    unsolvable: bool,
    best_hint_count: Option<u32>,
) -> (r: PuzzleModState)
    ensures
        r == spec_mod_state(progression, solved, previous_solved, unsolvable, best_hint_count),
{
    let stars = PuzzleModState::Stars(StarsProgress { solved, best_hint_count });
    let state = match progression {
        ProgressionConfig::Any => stars,
        ProgressionConfig::Sequential => {
            let previous = match previous_solved {
                Some(p) => p,
                None => true,
            };
            if solved || previous {
                stars
            } else {
                PuzzleModState::Locked
            }
        },
    };
    if state != PuzzleModState::Locked && unsolvable {
        PuzzleModState::Unsolvable
    } else {
        state
    }
}

} // verus!
