//! Progress of the player: which puzzles are solved and with how many hints.
//!
//! The values are stored per collection id and per puzzle key; the key of a puzzle
//! combines its id with the variant it was played in.
use vstd::prelude::*;
use vstd::string::StringExecFns;
use crate::config::PuzzleConfigCollection;
use crate::extension::{BoardConfig, PuzzleTypeExtension, Target};
use crate::text::{decimal, push_decimal};

verus! {

/// A value stored for one puzzle variant of one collection.
#[derive(Debug)]
pub struct MetaEntry<V> {
    pub collection_id: String,
    pub puzzle_key: String,
    pub value: V,
}

/// The progress store: the solved flags and the hint counts.
///
/// A later entry for the same collection and key replaces an earlier one.
#[derive(Debug)]
pub struct PuzzleMeta {
    pub solved: Vec<MetaEntry<bool>>,
    pub hints: Vec<MetaEntry<u32>>,
}

/// The key part of one target index: `x`, the column, `-`, the row.
pub open spec fn target_index_key(a: usize, b: usize) -> Seq<char> {
    seq!['x'] + decimal(a as nat) + seq!['-'] + decimal(b as nat)
}

/// The key of the first `k` indices of a target.
pub open spec fn target_key_upto(t: &Target, k: int) -> Seq<char>
    decreases k,
{
    if k <= 0 {
        seq![]
    } else {
        target_key_upto(t, k - 1) + target_index_key(t.indices@[k - 1].0, t.indices@[k - 1].1)
    }
}

/// The key of a target: the keys of its indices one after another.
pub open spec fn spec_target_key(t: &Target) -> Seq<char> {
    target_key_upto(t, t.indices@.len() as int)
}

/// The key of the variant a puzzle is played in: `simple` for a simple board; for an
/// area board the key of the selected target, or else of the default target, and none
/// without either.
pub open spec fn spec_extension_key(board: &BoardConfig, extension: &Option<PuzzleTypeExtension>) -> Option<Seq<char>> {
    match board {
        BoardConfig::Simple { .. } => Some(seq!['s', 'i', 'm', 'p', 'l', 'e']),
        BoardConfig::Area { default_target, .. } => match extension {
            Some(PuzzleTypeExtension::Area { target: Some(t) }) => Some(spec_target_key(t)),
            _ => match default_target {
                Some(t) => Some(spec_target_key(t)),
                None => None,
            },
        },
    }
}

/// The key of a puzzle variant: the puzzle id, `/`, the extension key. None if the
/// collection has no puzzle at that index or the variant has no key.
pub open spec fn spec_puzzle_key(
    collection: &PuzzleConfigCollection,
    puzzle_index: usize,
    extension: &Option<PuzzleTypeExtension>,
) -> Option<Seq<char>> {
    if puzzle_index >= collection.puzzles@.len() {
        None
    } else {
        let puzzle = collection.puzzles@[puzzle_index as int];
        match spec_extension_key(&puzzle.board_config, extension) {
            Some(k) => Some(puzzle.id@ + seq!['/'] + k),
            None => None,
        }
    }
}

/// The value stored for a collection and a key among the first `n` entries: the
/// latest one.
pub open spec fn lookup<V>(entries: Seq<MetaEntry<V>>, collection_id: Seq<char>, key: Seq<char>, n: int) -> Option<V>
    decreases n,
{
    if n <= 0 {
        None
    } else if entries[n - 1].collection_id@ == collection_id && entries[n - 1].puzzle_key@ == key {
        Some(entries[n - 1].value)
    } else {
        lookup(entries, collection_id, key, n - 1)
    }
}

/// The value stored for a collection and a key.
pub open spec fn stored<V>(entries: Seq<MetaEntry<V>>, collection_id: Seq<char>, key: Seq<char>) -> Option<V> {
    lookup(entries, collection_id, key, entries.len() as int)
}

/// Appends the key of a target.
pub fn target_key(target: &Target) -> (r: String)
    ensures
        r@ == spec_target_key(target),
{
    let mut key = String::new();
    let mut i: usize = 0;
    while i < target.indices.len()
        invariant
            i <= target.indices@.len(),
            key@ == target_key_upto(target, i as int),
        decreases target.indices@.len() - i,
    {
        let index = target.indices[i];
        proof { reveal_strlit("x"); reveal_strlit("-"); }
        key.append("x");
        push_decimal(&mut key, index.0 as u64);
        key.append("-");
        push_decimal(&mut key, index.1 as u64);
        i = i + 1;
        assert(key@ =~= target_key_upto(target, i as int));
    }
    key
}

/// The key of the variant of a puzzle with the given board.
pub fn extension_key(board: &BoardConfig, extension: &Option<PuzzleTypeExtension>) -> (r: Option<String>)
    ensures
        match (r, spec_extension_key(board, extension)) {
            (Some(s), Some(k)) => s@ == k,
            (None, None) => true,
            _ => false,
        },
{
    match board {
        BoardConfig::Simple { .. } => {
            proof { reveal_strlit("simple"); }
            let s = "simple".to_string();
            assert(s@ =~= seq!['s', 'i', 'm', 'p', 'l', 'e']);
            Some(s)
        },
        BoardConfig::Area { default_target, .. } => {
            let selected: Option<&Target> = match extension {
                Some(PuzzleTypeExtension::Area { target: Some(t) }) => Some(t),
                _ => None,
            };
            if let Some(target) = selected {
                Some(target_key(target))
            } else if let Some(target) = default_target {
                Some(target_key(target))
            } else {
                None
            }
        },
    }
}

/// The key of a puzzle variant: the puzzle id, `/`, the extension key.
pub fn puzzle_key(
    collection: &PuzzleConfigCollection,
    puzzle_index: usize,
    extension: &Option<PuzzleTypeExtension>,
) -> (r: Option<String>)
    ensures
        match (r, spec_puzzle_key(collection, puzzle_index, extension)) {
            (Some(s), Some(k)) => s@ == k,
            (None, None) => true,
            _ => false,
        },
{
    if puzzle_index >= collection.puzzles.len() {
        return None;
    }
    let puzzle = &collection.puzzles[puzzle_index];
    match extension_key(&puzzle.board_config, extension) {
        Some(k) => {
            let mut key = puzzle.id.clone();
            proof { reveal_strlit("/"); }
            key.append("/");
            key.append(k.as_str());
            Some(key)
        },
        None => None,
    }
}


/// Finds the latest value stored for a collection and a key.
fn find_value<V: Copy>(entries: &Vec<MetaEntry<V>>, collection_id: &String, key: &String) -> (r: Option<V>)
    ensures
        r == stored(entries@, collection_id@, key@),
{
    let mut i: usize = entries.len();
    while i > 0
        invariant
            i <= entries@.len(),
            stored(entries@, collection_id@, key@) == lookup(entries@, collection_id@, key@, i as int),
        decreases i,
    {
        let e = &entries[i - 1];
        if e.collection_id == *collection_id && e.puzzle_key == *key {
            return Some(e.value);
        }
        i = i - 1;
    }
    None
}

/// The entries `after` hold the value `v` for the variant of the puzzle at `puzzle_index`,
/// if the variant has a key, and what `before` holds for every other puzzle variant.
pub open spec fn written<V>(
    after: Seq<MetaEntry<V>>,
    before: Seq<MetaEntry<V>>,
    v: V,
    collection: &PuzzleConfigCollection,
    puzzle_index: usize,
    extension: &Option<PuzzleTypeExtension>,
) -> bool {
    forall|c: Seq<char>, k: Seq<char>| #[trigger] stored(after, c, k) == (
        if spec_puzzle_key(collection, puzzle_index, extension) == Some(k) && c == collection.id@ {
            Some(v)
        } else {
            stored(before, c, k)
        })
}

impl PuzzleMeta {
    /// Whether the variant of the puzzle at `puzzle_index` is stored as solved.
    pub open spec fn solved_flag(
        &self,
        collection: &PuzzleConfigCollection,
        puzzle_index: usize,
        extension: &Option<PuzzleTypeExtension>,
    ) -> bool {
        match spec_puzzle_key(collection, puzzle_index, extension) {
            Some(k) => stored(self.solved@, collection.id@, k) == Some(true),
            None => false,
        }
    }

    /// The number of hints stored for the variant of the puzzle at `puzzle_index`.
    pub open spec fn hint_count(
        &self,
        collection: &PuzzleConfigCollection,
        puzzle_index: usize,
        extension: &Option<PuzzleTypeExtension>,
    ) -> Option<u32> {
        match spec_puzzle_key(collection, puzzle_index, extension) {
            Some(k) => stored(self.hints@, collection.id@, k),
            None => None,
        }
    }

    /// An empty store.
    pub fn new() -> (m: PuzzleMeta)
        ensures
            m.solved@.len() == 0,
            m.hints@.len() == 0,
    {
        PuzzleMeta { solved: Vec::new(), hints: Vec::new() }
    }

    /// Forgets all solved flags.
    pub fn reset_solved(&mut self)
        ensures
            final(self).solved@.len() == 0,
            final(self).hints@ == old(self).hints@,
    {
        self.solved.clear();
    }

    /// Forgets all solved flags and hint counts.
    pub fn reset(&mut self)
        ensures
            final(self).solved@.len() == 0,
            final(self).hints@.len() == 0,
    {
        self.solved.clear();
        self.hints.clear();
    }

    /// Whether the puzzle variant has been solved; false if nothing is stored for it.
    pub fn is_solved(
        &self,
        collection: &PuzzleConfigCollection,
        puzzle_index: usize,
        extension: &Option<PuzzleTypeExtension>,
    ) -> (r: bool)
        ensures
            r == self.solved_flag(collection, puzzle_index, extension),
    {
        match puzzle_key(collection, puzzle_index, extension) {
            Some(key) => match find_value(&self.solved, &collection.id, &key) {
                Some(v) => v,
                None => false,
            },
            None => false,
        }
    }

    /// Stores whether the puzzle variant has been solved. Nothing is stored if the
    /// variant has no key.
    pub fn set_solved(
        &mut self,
        solved: bool,
        collection: &PuzzleConfigCollection,
        puzzle_index: usize,
        extension: &Option<PuzzleTypeExtension>,
    )
        ensures
            final(self).hints@ == old(self).hints@,
            written(final(self).solved@, old(self).solved@, solved, collection, puzzle_index, extension),
    {
        if let Some(key) = puzzle_key(collection, puzzle_index, extension) {
            let ghost before = self.solved@;
            self.solved.push(MetaEntry { collection_id: collection.id.clone(), puzzle_key: key, value: solved });
            assert forall|c: Seq<char>, k: Seq<char>| #[trigger] stored(self.solved@, c, k) == (
                if spec_puzzle_key(collection, puzzle_index, extension) == Some(k) && c == collection.id@ {
                    Some(solved)
                } else {
                    stored(before, c, k)
                }) by {
                assert(self.solved@.subrange(0, before.len() as int) =~= before);
                lemma_lookup_prefix(self.solved@, before, c, k, before.len() as int);
            }
        }
    }

    /// The number of hints used to solve the puzzle variant, if any is stored.
    pub fn hints(
        &self,
        collection: &PuzzleConfigCollection,
        puzzle_index: usize,
        extension: &Option<PuzzleTypeExtension>,
    ) -> (r: Option<u32>)
        ensures
            r == self.hint_count(collection, puzzle_index, extension),
    {
        match puzzle_key(collection, puzzle_index, extension) {
            Some(key) => find_value(&self.hints, &collection.id, &key),
            None => None,
        }
    }

    /// Stores the number of hints used to solve the puzzle variant. Nothing is stored if
    /// the variant has no key.
    pub fn set_hints(
        &mut self,
        hints: u32,
        collection: &PuzzleConfigCollection,
        puzzle_index: usize,
        extension: &Option<PuzzleTypeExtension>,
    )
        ensures
            final(self).solved@ == old(self).solved@,
            written(final(self).hints@, old(self).hints@, hints, collection, puzzle_index, extension),
    {
        if let Some(key) = puzzle_key(collection, puzzle_index, extension) {
            let ghost before = self.hints@;
            self.hints.push(MetaEntry { collection_id: collection.id.clone(), puzzle_key: key, value: hints });
            assert forall|c: Seq<char>, k: Seq<char>| #[trigger] stored(self.hints@, c, k) == (
                if spec_puzzle_key(collection, puzzle_index, extension) == Some(k) && c == collection.id@ {
                    Some(hints)
                } else {
                    stored(before, c, k)
                }) by {
                assert(self.hints@.subrange(0, before.len() as int) =~= before);
                lemma_lookup_prefix(self.hints@, before, c, k, before.len() as int);
            }
        }
    }
}

/// Looking up among the first `n` entries only reads those entries.
pub proof fn lemma_lookup_prefix<V>(longer: Seq<MetaEntry<V>>, shorter: Seq<MetaEntry<V>>, c: Seq<char>, k: Seq<char>, n: int)
    requires
        0 <= n <= shorter.len(),
        n <= longer.len(),
        forall|i: int| 0 <= i < n ==> longer[i] == shorter[i],
    ensures
        lookup(longer, c, k, n) == lookup(shorter, c, k, n),
    decreases n,
{
    if n > 0 {
        lemma_lookup_prefix(longer, shorter, c, k, n - 1);
    }
}


/// The key of a target depends on its indices only.
pub proof fn lemma_target_key_indices(a: &Target, b: &Target, k: int)
    requires
        a.indices@ == b.indices@,
    ensures
        target_key_upto(a, k) == target_key_upto(b, k),
    decreases k,
{
    if k > 0 {
        lemma_target_key_indices(a, b, k - 1);
    }
}

} // verus!
