//! The progress of the puzzles of a collection, cached per puzzle variant.
use vstd::prelude::*;
use crate::config::PuzzleConfigCollection;
use crate::extension::{PuzzleTypeExtension, duplicate_key, same_key, same_variant};
use crate::puzzle_meta::{PuzzleMeta, spec_puzzle_key, stored};

verus! {

/// A cached value for one puzzle variant.
#[derive(Debug)]
pub struct CacheEntry<V> {
    pub extension: Option<PuzzleTypeExtension>,
    pub value: V,
}

/// The value cached for a variant among the first `n` entries: the latest one.
pub open spec fn cache_lookup<V>(entries: Seq<CacheEntry<V>>, key: &Option<PuzzleTypeExtension>, n: int) -> Option<V>
    decreases n,
{
    if n <= 0 {
        None
    } else if same_key(&entries[n - 1].extension, key) {
        Some(entries[n - 1].value)
    } else {
        cache_lookup(entries, key, n - 1)
    }
}

/// The value cached for a variant.
pub open spec fn cached<V>(entries: Seq<CacheEntry<V>>, key: &Option<PuzzleTypeExtension>) -> Option<V> {
    cache_lookup(entries, key, entries.len() as int)
}

/// Looking up among the first `n` entries only reads those entries.
pub proof fn lemma_cache_prefix<V>(longer: Seq<CacheEntry<V>>, shorter: Seq<CacheEntry<V>>, key: &Option<PuzzleTypeExtension>, n: int)
    requires
        0 <= n <= shorter.len(),
        n <= longer.len(),
        forall|i: int| 0 <= i < n ==> longer[i] == shorter[i],
    ensures
        cache_lookup(longer, key, n) == cache_lookup(shorter, key, n),
    decreases n,
{
    if n > 0 {
        lemma_cache_prefix(longer, shorter, key, n - 1);
    }
}

/// The variants described by the same key are looked up alike.
pub proof fn lemma_cache_same_key<V>(entries: Seq<CacheEntry<V>>, a: &Option<PuzzleTypeExtension>, b: &Option<PuzzleTypeExtension>, n: int)
    requires
        same_key(a, b),
    ensures
        cache_lookup(entries, a, n) == cache_lookup(entries, b, n),
    decreases n,
{
    if n > 0 {
        lemma_cache_same_key(entries, a, b, n - 1);
    }
}

/// Finds the latest value cached for a variant.
fn find_cached<V: Copy>(entries: &Vec<CacheEntry<V>>, key: &Option<PuzzleTypeExtension>) -> (r: Option<V>)
    ensures
        r == cached(entries@, key),
{
    let mut i: usize = entries.len();
    while i > 0
        invariant
            i <= entries@.len(),
            cached(entries@, key) == cache_lookup(entries@, key, i as int),
        decreases i,
    {
        if same_variant(&entries[i - 1].extension, key) {
            return Some(entries[i - 1].value);
        }
        i = i - 1;
    }
    None
}

/// Caches a value for a variant.
fn insert_cached<V: Copy>(entries: &mut Vec<CacheEntry<V>>, key: &Option<PuzzleTypeExtension>, value: V)
    ensures
        forall|k: Option<PuzzleTypeExtension>| #[trigger] cached(final(entries)@, &k) == (
            if same_key(&k, key) { Some(value) } else { cached(old(entries)@, &k) }),
{
    let ghost before = entries@;
    let extension = duplicate_key(key);
    entries.push(CacheEntry { extension, value });
    assert forall|k: Option<PuzzleTypeExtension>| #[trigger] cached(entries@, &k) == (
        if same_key(&k, key) { Some(value) } else { cached(before, &k) }) by {
        lemma_cache_prefix(entries@, before, &k, before.len() as int);
        lemma_same_key_symmetric(&k, key);
        lemma_same_key_transitive(&extension, key, &k);
    }
}

/// Describing the same variant is symmetric.
pub proof fn lemma_same_key_symmetric(a: &Option<PuzzleTypeExtension>, b: &Option<PuzzleTypeExtension>)
    ensures
        same_key(a, b) == same_key(b, a),
{
}

/// Describing the same variant is transitive.
pub proof fn lemma_same_key_transitive(a: &Option<PuzzleTypeExtension>, b: &Option<PuzzleTypeExtension>, c: &Option<PuzzleTypeExtension>)
    ensures
        same_key(a, b) ==> (same_key(b, c) <==> same_key(a, c)),
{
}

/// The progress of one puzzle: whether it has been solved and with how many hints,
/// cached per variant.
#[derive(Debug)]
pub struct PuzzleModel {
    /// The position of the puzzle in its collection.
    pub index: usize,
    /// The variant used to show the progress in overviews.
    pub default_extension: PuzzleTypeExtension,
    pub solved: Vec<CacheEntry<bool>>,
    pub hints_used: Vec<CacheEntry<Option<u32>>>,
}

/// The default variant as an optional extension.
pub open spec fn default_key(m: &PuzzleModel) -> Option<PuzzleTypeExtension> {
    Some(m.default_extension)
}

impl PuzzleModel {
    /// Creates the model of the puzzle at `index` of the collection, caching the progress
    /// stored for its default variant.
    pub fn new(collection: &PuzzleConfigCollection, index: usize, puzzle_meta: &PuzzleMeta) -> (m: PuzzleModel)
        requires
            index < collection.puzzles@.len(),
        ensures
            m.index == index,
            crate::extension::default_extension_of(&m.default_extension, &collection.puzzles@[index as int].board_config),
            m.is_solved_spec(&default_key(&m)) == match spec_puzzle_key(collection, index, &default_key(&m)) {
                Some(k) => stored(puzzle_meta.solved@, collection.id@, k) == Some(true),
                None => false,
            },
            m.best_hint_count_spec(&default_key(&m)) == match spec_puzzle_key(collection, index, &default_key(&m)) {
                Some(k) => stored(puzzle_meta.hints@, collection.id@, k),
                None => None,
            },
            m.only_default_known(),
    {
        let default_extension = PuzzleTypeExtension::default_for_puzzle(&collection.puzzles[index].board_config);
        let key = Some(default_extension.duplicate());
        let solved = puzzle_meta.is_solved(collection, index, &key);
        let hints = puzzle_meta.hints(collection, index, &key);
        let mut m = PuzzleModel { index, default_extension, solved: Vec::new(), hints_used: Vec::new() };
        insert_cached(&mut m.solved, &key, solved);
        insert_cached(&mut m.hints_used, &key, hints);
        proof {
            assert(same_key(&key, &default_key(&m)));
            lemma_same_key_symmetric(&key, &default_key(&m));
            lemma_puzzle_key_same(collection, index, &key, &default_key(&m));
            assert forall|k: Option<PuzzleTypeExtension>| !same_key(&k, &default_key(&m)) implies !#[trigger] m.is_solved_spec(&k)
                && m.best_hint_count_spec(&k) is None by {
                lemma_same_key_transitive(&k, &default_key(&m), &key);
                lemma_same_key_symmetric(&key, &default_key(&m));
                lemma_same_key_symmetric(&k, &key);
            }
        }
        m
    }

    /// No variant but the default one is known as solved or with a hint count.
    pub open spec fn only_default_known(&self) -> bool {
        &&& forall|k: Option<PuzzleTypeExtension>| !same_key(&k, &default_key(self)) ==> !#[trigger] self.is_solved_spec(&k)
        &&& forall|k: Option<PuzzleTypeExtension>| !same_key(&k, &default_key(self)) ==> #[trigger] self.best_hint_count_spec(&k) is None
    }

    /// Whether the puzzle has been solved in the given variant.
    pub open spec fn is_solved_spec(&self, extension: &Option<PuzzleTypeExtension>) -> bool {
        cached(self.solved@, extension) == Some(true)
    }

    /// The fewest hints the puzzle has been solved with in the given variant.
    pub open spec fn best_hint_count_spec(&self, extension: &Option<PuzzleTypeExtension>) -> Option<u32> {
        match cached(self.hints_used@, extension) {
            Some(h) => h,
            None => None,
        }
    }

    /// Whether the puzzle has been solved in the given variant.
    pub fn is_solved(&self, extension: &Option<PuzzleTypeExtension>) -> (r: bool)
        ensures
            r == self.is_solved_spec(extension),
    {
        match find_cached(&self.solved, extension) {
            Some(v) => v,
            None => false,
        }
    }

    /// Whether the puzzle has been solved in its default variant.
    pub fn is_solved_default(&self) -> (r: bool)
        ensures
            r == self.is_solved_spec(&default_key(self)),
    {
        let key = Some(self.default_extension.duplicate());
        proof {
            lemma_cache_same_key(self.solved@, &key, &default_key(self), self.solved@.len() as int);
        }
        self.is_solved(&key)
    }

    /// The number of hints the puzzle has been solved with in the given variant.
    pub fn best_hint_count(&self, extension: &Option<PuzzleTypeExtension>) -> (r: Option<u32>)
        ensures
            r == self.best_hint_count_spec(extension),
    {
        match find_cached(&self.hints_used, extension) {
            Some(h) => h,
            None => None,
        }
    }

    /// The number of hints the puzzle has been solved with in its default variant.
    pub fn best_hint_count_default(&self) -> (r: Option<u32>)
        ensures
            r == self.best_hint_count_spec(&default_key(self)),
    {
        let key = Some(self.default_extension.duplicate());
        proof {
            lemma_cache_same_key(self.hints_used@, &key, &default_key(self), self.hints_used@.len() as int);
        }
        self.best_hint_count(&key)
    }

    /// Marks the puzzle as solved in the given variant with the given number of hints,
    /// in the cache and in the progress store.
    pub fn set_solved(
        &mut self,
        hints: u32,
        extension: &Option<PuzzleTypeExtension>,
        puzzle_meta: &mut PuzzleMeta,
        collection: &PuzzleConfigCollection,
    )
        ensures
            final(self).index == old(self).index,
            final(self).default_extension == old(self).default_extension,
            forall|k: Option<PuzzleTypeExtension>| #[trigger] final(self).is_solved_spec(&k) == (
                same_key(&k, extension) || old(self).is_solved_spec(&k)),
            forall|k: Option<PuzzleTypeExtension>| #[trigger] final(self).best_hint_count_spec(&k) == (
                if same_key(&k, extension) { Some(hints) } else { old(self).best_hint_count_spec(&k) }),
            forall|c: Seq<char>, k: Seq<char>| #[trigger] stored(final(puzzle_meta).solved@, c, k) == (
                if spec_puzzle_key(collection, old(self).index, extension) == Some(k) && c == collection.id@ {
                    Some(true)
                } else {
                    stored(old(puzzle_meta).solved@, c, k)
                }),
            forall|c: Seq<char>, k: Seq<char>| #[trigger] stored(final(puzzle_meta).hints@, c, k) == (
                if spec_puzzle_key(collection, old(self).index, extension) == Some(k) && c == collection.id@ {
                    Some(hints)
                } else {
                    stored(old(puzzle_meta).hints@, c, k)
                }),
    {
        insert_cached(&mut self.solved, extension, true);
        insert_cached(&mut self.hints_used, extension, Some(hints));
        puzzle_meta.set_solved(true, collection, self.index, extension);
        puzzle_meta.set_hints(hints, collection, self.index, extension);
    }

    /// Marks the puzzle as unsolved in every variant by clearing the caches.
    pub fn mark_as_unsolved(&mut self)
        ensures
            final(self).index == old(self).index,
            final(self).default_extension == old(self).default_extension,
            forall|k: Option<PuzzleTypeExtension>| !#[trigger] final(self).is_solved_spec(&k),
            forall|k: Option<PuzzleTypeExtension>| #[trigger] final(self).best_hint_count_spec(&k) is None,
    {
        self.solved.clear();
        self.hints_used.clear();
    }
}

/// The puzzle keys of two variants that describe the same puzzle variant are equal.
pub proof fn lemma_puzzle_key_same(
    collection: &PuzzleConfigCollection,
    index: usize,
    a: &Option<PuzzleTypeExtension>,
    b: &Option<PuzzleTypeExtension>,
)
    requires
        same_key(a, b),
    ensures
        spec_puzzle_key(collection, index, a) == spec_puzzle_key(collection, index, b),
{
    match (a, b) {
        (Some(PuzzleTypeExtension::Area { target: Some(x) }), Some(PuzzleTypeExtension::Area { target: Some(y) })) => {
            crate::puzzle_meta::lemma_target_key_indices(x, y, x.indices@.len() as int);
        },
        _ => {},
    }
}


/// Every variant describes the same variant as itself.
pub proof fn lemma_same_key_reflexive(a: &Option<PuzzleTypeExtension>)
    ensures
        same_key(a, a),
{
}

} // verus!
