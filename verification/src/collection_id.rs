//! The identification of a collection in the collection selection: a core or a community
//! collection by its position in the store, encoded as a single number for the actions
//! of the user interface.
use vstd::prelude::*;
use crate::collection::CollectionModel;
use crate::store::PuzzleCollectionStore;

verus! {

/// A collection of the store, by its position among the core or the community collections.
#[derive(Debug, Clone, Copy, PartialEq, Eq, Structural)]
pub enum CollectionId {
    Core(usize),
    Community(usize),
}

/// The number that stands for a collection: a core collection by its position, a
/// community collection by its position, negated and less one.
pub open spec fn encoded(id: CollectionId) -> int {
    match id {
        CollectionId::Core(i) => i as int,
        CollectionId::Community(i) => -(i as int) - 1,
    }
}

/// The collection a number stands for.
pub open spec fn decoded(v: int) -> CollectionId {
    if v >= 0 { CollectionId::Core(v as usize) } else { CollectionId::Community((-v - 1) as usize) }
}

impl CollectionId {
    /// Whether the position of the collection can be encoded in an `i32`.
    pub open spec fn encodable(&self) -> bool {
        match *self {
            CollectionId::Core(i) => i <= i32::MAX,
            CollectionId::Community(i) => i <= i32::MAX,
        }
    }

    /// The number that stands for the collection.
    pub fn to_value(&self) -> (r: i32)
        requires
            self.encodable(),
        ensures
            r == encoded(*self),
    {
        match *self {
            CollectionId::Core(i) => i as i32,
            CollectionId::Community(i) => -(i as i32) - 1,
        }
    }

    /// The collection a number stands for.
    pub fn from_value(v: i32) -> (r: CollectionId)
        ensures
            r == decoded(v as int),
            r.encodable(),
    {
        if v >= 0 {
            CollectionId::Core(v as usize)
        } else {
            let i: i64 = -(v as i64) - 1;
            CollectionId::Community(i as usize)
        }
    }
}

/// Decoding the number of a collection gives back the collection, and encoding the
/// collection a number stands for gives back the number.
pub proof fn law_collection_id_round_trip(id: CollectionId, v: i32)
    requires
        id.encodable(),
    ensures
        decoded(encoded(id)) == id,
        encoded(decoded(v as int)) == v,
{
}

impl PuzzleCollectionStore {
    /// The collection with the given id, if the store has one at that position.
    pub fn collection(&self, id: CollectionId) -> (r: Option<&CollectionModel>)
        ensures
            match id {
                CollectionId::Core(i) => if i < self.core_puzzle_collections@.len() {
                    r == Some(&self.core_puzzle_collections@[i as int])
                } else {
                    r is None
                },
                CollectionId::Community(i) => if i < self.community_puzzle_collections@.len() {
                    r == Some(&self.community_puzzle_collections@[i as int])
                } else {
                    r is None
                },
            },
    {
        match id {
            CollectionId::Core(i) => {
                if i < self.core_puzzle_collections.len() {
                    Some(&self.core_puzzle_collections[i])
                } else {
                    None
                }
            },
            CollectionId::Community(i) => {
                if i < self.community_puzzle_collections.len() {
                    Some(&self.community_puzzle_collections[i])
                } else {
                    None
                }
            },
        }
    }

    /// The collection selected when the selection is shown: the last community
    /// collection if there is one, otherwise the first core collection.
    pub fn community_or_core_collection(&self) -> (r: CollectionId)
        ensures
            self.community_puzzle_collections@.len() > 0 ==> r == CollectionId::Community((self.community_puzzle_collections@.len() - 1) as usize),
            self.community_puzzle_collections@.len() == 0 ==> r == CollectionId::Core(0),
    {
        let community_count = self.community_puzzle_collections.len();
        if community_count > 0 {
            CollectionId::Community(community_count - 1)
        } else {
            CollectionId::Core(0)
        }
    }
}

} // verus!
