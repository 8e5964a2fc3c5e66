//! The store of the core and the community puzzle collections.
use vstd::prelude::*;
use vstd::string::StringExecFns;
use crate::collection::CollectionModel;
use crate::config::PuzzleConfigCollection;
use crate::extension::PuzzleTypeExtension;
use crate::puzzle_meta::PuzzleMeta;

verus! {

/// Why a collection description could not be loaded.
#[derive(Debug)]
pub enum ReadError {
    /// The file could not be read; the reason.
    FileReadError(String),
    MissingVersion,
    MalformedVersion,
    UnsupportedVersion,
    /// The text is no valid description; the message of the parser.
    JsonError(String),
    UnknownPredefinedTile { name: String },
    UnknownCustomBoard { puzzle_name: String, board_name: String },
    TileWidthOrHeightCannotBeZero,
    BoardWidthOrHeightCannotBeZero,
    InvalidVersion(String),
    InvalidCollectionId(String),
    InvalidColor { message: String },
}

/// The message shown to the player when a collection could not be loaded; `version` is
/// the version of the application.
pub open spec fn spec_load_error_message(e: &ReadError, version: Seq<char>) -> Seq<char> {
    match e {
        ReadError::FileReadError(m) => m@,
        ReadError::MissingVersion => "The `puzzled` field is missing."@,
        ReadError::MalformedVersion => "The `puzzled` field is malformed."@,
        ReadError::UnsupportedVersion => "The collection is requiring a higher version of Puzzled. Only version "@
            + version + " or lower is supported."@,
        ReadError::JsonError(m) => "The collection file could not be parsed correctly: "@ + m@,
        ReadError::UnknownPredefinedTile { name } => "The collection file contains an unknown predefined tile in puzzle '"@
            + name@ + "'."@,
        ReadError::UnknownCustomBoard { puzzle_name, board_name } => "The collection file contains an unknown custom board '"@
            + board_name@ + "' in puzzle '"@ + puzzle_name@ + "'."@,
        ReadError::TileWidthOrHeightCannotBeZero => "The collection file contains a tile with zero width or height."@,
        ReadError::BoardWidthOrHeightCannotBeZero => "The collection file contains a board with zero width or height."@,
        ReadError::InvalidVersion(_) => "The version in the `puzzled` field is invalid."@,
        ReadError::InvalidCollectionId(_) => "The collection file contains an invalid collection ID."@,
        ReadError::InvalidColor { message } => "The collection file contains an invalid color: "@ + message@,
    }
}

/// The message shown to the player when a collection could not be loaded; `version` is
/// the version of the application.
pub fn load_error_message(e: &ReadError, version: &str) -> (r: String)
    ensures
        r@ == spec_load_error_message(e, version@),
{
    match e {
        ReadError::FileReadError(m) => m.clone(),
        ReadError::MissingVersion => "The `puzzled` field is missing.".to_string(),
        ReadError::MalformedVersion => "The `puzzled` field is malformed.".to_string(),
        ReadError::UnsupportedVersion => {
            let mut r = "The collection is requiring a higher version of Puzzled. Only version ".to_string();
            r.append(version);
            r.append(" or lower is supported.");
            r
        },
        ReadError::JsonError(m) => {
            let mut r = "The collection file could not be parsed correctly: ".to_string();
            r.append(m.as_str());
            r
        },
        ReadError::UnknownPredefinedTile { name } => {
            let mut r = "The collection file contains an unknown predefined tile in puzzle '".to_string();
            r.append(name.as_str());
            r.append("'.");
            r
        },
        ReadError::UnknownCustomBoard { puzzle_name, board_name } => {
            let mut r = "The collection file contains an unknown custom board '".to_string();
            r.append(board_name.as_str());
            r.append("' in puzzle '");
            r.append(puzzle_name.as_str());
            r.append("'.");
            r
        },
        ReadError::TileWidthOrHeightCannotBeZero => "The collection file contains a tile with zero width or height.".to_string(),
        ReadError::BoardWidthOrHeightCannotBeZero => "The collection file contains a board with zero width or height.".to_string(),
        ReadError::InvalidVersion(_) => "The version in the `puzzled` field is invalid.".to_string(),
        ReadError::InvalidCollectionId(_) => "The collection file contains an invalid collection ID.".to_string(),
        ReadError::InvalidColor { message } => {
            let mut r = "The collection file contains an invalid color: ".to_string();
            r.append(message.as_str());
            r
        },
    }
}

/// What `std::str::from_utf8` gives for the bytes: the decoded text, or the message of
/// its error formatted with `{}`.
pub uninterp spec fn utf8_decoded(bytes: Seq<u8>) -> Result<Seq<char>, Seq<char>>;

/// Calls `std::str::from_utf8` on the bytes and formats its error with `{}`. The
/// contract claims only that the result is the one `utf8_decoded` names: UTF-8 decoding
/// and the wording of std's error messages are not spelled out here.
#[verifier::external_body]
fn decode_utf8(bytes: &[u8]) -> (r: Result<String, String>)
    ensures
        match r {
            Ok(text) => utf8_decoded(bytes@) == Ok::<Seq<char>, Seq<char>>(text@),
            Err(message) => utf8_decoded(bytes@) == Err::<Seq<char>, Seq<char>>(message@),
        },
{
    match std::str::from_utf8(bytes) {
        Ok(text) => Ok(text.to_owned()),
        Err(e) => Err(format!("{}", e)),
    }
}

/// The text of a collection file from its decoding: the decoding error is a file read error.
pub fn collection_text_from_decoded(decoded: Result<String, String>) -> (r: Result<String, ReadError>)
    ensures
        match decoded {
            Ok(text) => r matches Ok(t) && t@ == text@,
            Err(message) => r matches Err(ReadError::FileReadError(m)) && m@ == message@,
        },
{
    match decoded {
        Ok(text) => Ok(text),
        Err(message) => Err(ReadError::FileReadError(message)),
    }
}

/// The text of a collection file from its bytes, which must be UTF-8; otherwise a file
/// read error with the message of the decoder.
pub fn collection_text(bytes: &[u8]) -> (r: Result<String, ReadError>)
    ensures
        match utf8_decoded(bytes@) {
            Ok(text) => r matches Ok(t) && t@ == text,
            Err(message) => r matches Err(ReadError::FileReadError(m)) && m@ == message,
        },
{
    collection_text_from_decoded(decode_utf8(bytes))
}

/// What has to be done with the stored file of a community collection.
#[derive(Debug)]
pub enum CollectionFileAction {
    /// Store the description of the collection under its id.
    Save { collection_id: String, json: String },
    /// Delete the stored description of the collection with the id.
    Delete { collection_id: String },
}

/// The action deletes the file of the collection with the id.
pub open spec fn deletes(action: CollectionFileAction, id: Seq<char>) -> bool {
    action matches CollectionFileAction::Delete { collection_id } && collection_id@ == id
}

/// The action stores the description under the id.
pub open spec fn saves(action: CollectionFileAction, id: Seq<char>, json: Seq<char>) -> bool {
    action matches CollectionFileAction::Save { collection_id, json: j } && collection_id@ == id && j@ == json
}

/// The core puzzle collections shipped with the application and the community
/// collections added by the player.
#[derive(Debug)]
pub struct PuzzleCollectionStore {
    pub core_puzzle_collections: Vec<CollectionModel>,
    pub community_puzzle_collections: Vec<CollectionModel>,
}

/// The first `n` collections of `s` whose id differs from `id`, in their order.
pub open spec fn without_id(s: Seq<CollectionModel>, id: Seq<char>, n: int) -> Seq<CollectionModel>
    decreases n,
{
    if n <= 0 {
        seq![]
    } else if s[n - 1].config.id@ == id {
        without_id(s, id, n - 1)
    } else {
        without_id(s, id, n - 1).push(s[n - 1])
    }
}

/// No collection of the list has the id `id`.
pub proof fn lemma_without_id_has_none(s: Seq<CollectionModel>, id: Seq<char>, n: int)
    requires
        0 <= n <= s.len(),
    ensures
        forall|k: int| 0 <= k < without_id(s, id, n).len() ==> (#[trigger] without_id(s, id, n)[k]).config.id@ != id,
    decreases n,
{
    if n > 0 {
        lemma_without_id_has_none(s, id, n - 1);
    }
}

impl PuzzleCollectionStore {
    /// The store is empty.
    pub fn new() -> (s: PuzzleCollectionStore)
        ensures
            s.core_puzzle_collections@.len() == 0,
            s.community_puzzle_collections@.len() == 0,
    {
        PuzzleCollectionStore { core_puzzle_collections: Vec::new(), community_puzzle_collections: Vec::new() }
    }

    /// Every collection of the store is well formed.
    pub open spec fn wf(&self) -> bool {
        &&& forall|i: int| 0 <= i < self.core_puzzle_collections@.len() ==> (#[trigger] self.core_puzzle_collections@[i]).wf()
        &&& forall|i: int| 0 <= i < self.community_puzzle_collections@.len() ==> (#[trigger] self.community_puzzle_collections@[i]).wf()
    }

    /// The core collections.
    pub fn core_puzzle_collections(&self) -> (r: &[CollectionModel])
        ensures
            r@ == self.core_puzzle_collections@,
    {
        self.core_puzzle_collections.as_slice()
    }

    /// The community collections.
    pub fn community_puzzle_collections(&self) -> (r: &[CollectionModel])
        ensures
            r@ == self.community_puzzle_collections@,
    {
        self.community_puzzle_collections.as_slice()
    }

    /// Removes every community collection with the given id. Returns the file action that
    /// goes with it: deleting the stored file of the collection.
    pub fn remove_community_collection(&mut self, collection_id: &String) -> (action: CollectionFileAction)
        requires
            old(self).wf(),
        ensures
            deletes(action, collection_id@),
            final(self).wf(),
            final(self).core_puzzle_collections == old(self).core_puzzle_collections,
            final(self).community_puzzle_collections@ == without_id(
                old(self).community_puzzle_collections@,
                collection_id@,
                old(self).community_puzzle_collections@.len() as int,
            ),
            forall|k: int| 0 <= k < final(self).community_puzzle_collections@.len()
                ==> (#[trigger] final(self).community_puzzle_collections@[k]).config.id@ != collection_id@,
            final(self).community_puzzle_collections@
                == old(self).community_puzzle_collections@.filter(|c: CollectionModel| c.config.id@ != collection_id@),
    {
        let ghost orig = self.community_puzzle_collections@;
        let mut remaining: Vec<CollectionModel> = Vec::new();
        std::mem::swap(&mut remaining, &mut self.community_puzzle_collections);
        let mut kept: Vec<CollectionModel> = Vec::new();
        let ghost mut i: int = 0;
        while remaining.len() > 0
            invariant
                0 <= i <= orig.len(),
                remaining@ == orig.subrange(i, orig.len() as int),
                kept@ == without_id(orig, collection_id@, i),
                forall|k: int| 0 <= k < orig.len() ==> (#[trigger] orig[k]).wf(),
            decreases remaining@.len(),
        {
            let c = remaining.remove(0);
            assert(c == orig[i]);
            if c.config.id != *collection_id {
                kept.push(c);
            }
            proof {
                i = i + 1;
            }
            assert(remaining@ =~= orig.subrange(i, orig.len() as int));
        }
        proof {
            lemma_without_id_wf(orig, collection_id@, i);
            lemma_without_id_has_none(orig, collection_id@, i);
            law_removal_keeps_the_others(orig, collection_id@, i);
            assert(orig.take(i) =~= orig);
            let id = collection_id@;
            assert((|c: CollectionModel| c.config.id@ != id) =~= (|c: CollectionModel| c.config.id@ != collection_id@));
        }
        self.community_puzzle_collections = kept;
        CollectionFileAction::Delete { collection_id: collection_id.clone() }
    }

    /// Adds a community collection that was loaded from its description `json_str`,
    /// replacing the community collections with the same id. Returns the file actions that
    /// go with it: deleting the stored file of the replaced collections, then storing the
    /// description under the id. A collection that could not be loaded is not added and
    /// its error is returned.
    pub fn add_community_collection_from_string(
        &mut self,
        json_str: &str,
        loaded: Result<PuzzleConfigCollection, ReadError>,
        puzzle_meta: &PuzzleMeta,
    ) -> (r: Result<Vec<CollectionFileAction>, ReadError>)
        requires
            old(self).wf(),
        ensures
            final(self).wf(),
            final(self).core_puzzle_collections == old(self).core_puzzle_collections,
            loaded is Err ==> *final(self) == *old(self),
            loaded matches Err(e) ==> (r matches Err(f) && f == e),
            loaded matches Ok(c) ==> (r matches Ok(actions) && {
                &&& actions@.len() == 2
                &&& deletes(actions@[0], c.id@)
                &&& saves(actions@[1], c.id@, json_str@)
            }),
            loaded matches Ok(c) ==> {
                let before = without_id(old(self).community_puzzle_collections@, c.id@, old(self).community_puzzle_collections@.len() as int);
                &&& final(self).community_puzzle_collections@.len() == before.len() + 1
                &&& final(self).community_puzzle_collections@.subrange(0, before.len() as int) == before
                &&& final(self).community_puzzle_collections@.last().config == c
                &&& forall|k: int| 0 <= k < final(self).community_puzzle_collections@.len() - 1
                    ==> (#[trigger] final(self).community_puzzle_collections@[k]).config.id@ != c.id@
            },
    {
        match loaded {
            Err(e) => Err(e),
            Ok(collection) => {
                let id = collection.id.clone();
                let delete = self.remove_community_collection(&id);
                let save = CollectionFileAction::Save { collection_id: id, json: json_str.to_string() };
                let model = CollectionModel::new(collection, puzzle_meta);
                let ghost before = self.community_puzzle_collections@;
                self.community_puzzle_collections.push(model);
                assert(self.community_puzzle_collections@.subrange(0, before.len() as int) =~= before);
                let mut actions: Vec<CollectionFileAction> = Vec::new();
                actions.push(delete);
                actions.push(save);
                Ok(actions)
            },
        }
    }

    /// Marks every puzzle of every collection as unsolved and clears the stored progress.
    pub fn mark_all_as_unsolved(&mut self, puzzle_meta: &mut PuzzleMeta)
        requires
            old(self).wf(),
        ensures
            final(self).wf(),
            final(puzzle_meta).solved@.len() == 0,
            final(puzzle_meta).hints@.len() == 0,
            all_marked_unsolved(final(self).core_puzzle_collections@, old(self).core_puzzle_collections@),
            all_marked_unsolved(final(self).community_puzzle_collections@, old(self).community_puzzle_collections@),
    {
        puzzle_meta.reset();
        mark_all(&mut self.core_puzzle_collections);
        mark_all(&mut self.community_puzzle_collections);
    }
}

/// Keeping collections keeps them well formed.
/// Removing the collections with an id keeps exactly the other collections, in their
/// order: the list that is left is the old list filtered by a different id.
pub proof fn law_removal_keeps_the_others(s: Seq<CollectionModel>, id: Seq<char>, n: int)
    requires
        0 <= n <= s.len(),
    ensures
        without_id(s, id, n) == s.take(n).filter(|c: CollectionModel| c.config.id@ != id),
    decreases n,
{
    reveal(Seq::filter);
    let pred = |c: CollectionModel| c.config.id@ != id;
    if n > 0 {
        law_removal_keeps_the_others(s, id, n - 1);
        assert(s.take(n).drop_last() =~= s.take(n - 1));
        assert(s.take(n).last() == s[n - 1]);
    } else {
        assert(s.take(n) =~= Seq::<CollectionModel>::empty());
    }
}

pub proof fn lemma_without_id_wf(s: Seq<CollectionModel>, id: Seq<char>, n: int)
    requires
        0 <= n <= s.len(),
        forall|k: int| 0 <= k < s.len() ==> (#[trigger] s[k]).wf(),
    ensures
        forall|k: int| 0 <= k < without_id(s, id, n).len() ==> (#[trigger] without_id(s, id, n)[k]).wf(),
    decreases n,
{
    if n > 0 {
        lemma_without_id_wf(s, id, n - 1);
        assert(s[n - 1].wf());
        let prev = without_id(s, id, n - 1);
        assert forall|k: int| 0 <= k < without_id(s, id, n).len() implies (#[trigger] without_id(s, id, n)[k]).wf() by {
            if s[n - 1].config.id@ != id && k == prev.len() {
                assert(without_id(s, id, n)[k] == s[n - 1]);
            } else {
                assert(without_id(s, id, n)[k] == prev[k]);
            }
        }
    }
}

/// The collections `n` are the collections `o`, in the same order, each with every
/// puzzle unsolved in every variant.
pub open spec fn all_marked_unsolved(n: Seq<CollectionModel>, o: Seq<CollectionModel>) -> bool {
    &&& n.len() == o.len()
    &&& forall|c: int| 0 <= c < n.len() ==> (#[trigger] n[c]).marked_unsolved(&o[c])
}

/// Marks every puzzle of the collections as unsolved.
fn mark_all(collections: &mut Vec<CollectionModel>)
    requires
        forall|i: int| 0 <= i < old(collections)@.len() ==> (#[trigger] old(collections)@[i]).wf(),
    ensures
        all_marked_unsolved(final(collections)@, old(collections)@),
{
    let ghost start = collections@;
    let mut j: usize = 0;
    while j < collections.len()
        invariant
            j <= collections@.len(),
            collections@.len() == start.len(),
            start == old(collections)@,
            forall|i: int| j <= i < collections@.len() ==> (#[trigger] collections@[i]) == start[i],
            forall|i: int| 0 <= i < start.len() ==> (#[trigger] start[i]).wf(),
            forall|c: int| 0 <= c < j ==> (#[trigger] collections@[c]).marked_unsolved(&start[c]),
        decreases collections@.len() - j,
    {
        collections[j].mark_all_as_unsolved();
        j = j + 1;
    }
}

/// Fills the store with the core collections and the community collections that could
/// be loaded; community collections that could not be loaded are skipped.
pub fn init(
    store: &mut PuzzleCollectionStore,
    core: Vec<PuzzleConfigCollection>,
    community: Vec<Result<PuzzleConfigCollection, ReadError>>,
    puzzle_meta: &PuzzleMeta,
)
    requires
        old(store).wf(),
    ensures
        final(store).wf(),
        final(store).core_puzzle_collections@.len() == old(store).core_puzzle_collections@.len() + core@.len(),
        forall|i: int| 0 <= i < core@.len() ==>
            (#[trigger] final(store).core_puzzle_collections@[old(store).core_puzzle_collections@.len() + i]).config == core@[i],
        final(store).core_puzzle_collections@.subrange(0, old(store).core_puzzle_collections@.len() as int)
            == old(store).core_puzzle_collections@,
        final(store).community_puzzle_collections@.len() == old(store).community_puzzle_collections@.len()
            + loaded_configs(community@, community@.len() as int).len(),
        final(store).community_puzzle_collections@.subrange(0, old(store).community_puzzle_collections@.len() as int)
            == old(store).community_puzzle_collections@,
        forall|i: int| 0 <= i < loaded_configs(community@, community@.len() as int).len() ==>
            (#[trigger] final(store).community_puzzle_collections@[old(store).community_puzzle_collections@.len() + i]).config
                == loaded_configs(community@, community@.len() as int)[i],
{
    let ghost core_s = core@;
    let ghost community_s = community@;
    let mut core = core;
    let mut community = community;
    let ghost base = store.core_puzzle_collections@.len();
    let ghost mut i: int = 0;
    while core.len() > 0
        invariant
            0 <= i <= core_s.len(),
            core@ == core_s.subrange(i, core_s.len() as int),
            store.wf(),
            store.core_puzzle_collections@.len() == base + i,
            store.community_puzzle_collections@ == old(store).community_puzzle_collections@,
            store.core_puzzle_collections@.subrange(0, base as int) == old(store).core_puzzle_collections@,
            base == old(store).core_puzzle_collections@.len(),
            forall|k: int| 0 <= k < i ==> (#[trigger] store.core_puzzle_collections@[base + k]).config == core_s[k],
        decreases core@.len(),
    {
        let collection = core.remove(0);
        assert(collection == core_s[i]);
        let ghost before = store.core_puzzle_collections@;
        store.core_puzzle_collections.push(CollectionModel::new(collection, puzzle_meta));
        assert(store.core_puzzle_collections@.subrange(0, base as int) =~= before.subrange(0, base as int));
        proof {
            i = i + 1;
        }
        assert(core@ =~= core_s.subrange(i, core_s.len() as int));
    }
    let ghost community_base = store.community_puzzle_collections@.len();
    let ghost mut j: int = 0;
    while community.len() > 0
        invariant
            0 <= j <= community_s.len(),
            community@ == community_s.subrange(j, community_s.len() as int),
            store.wf(),
            store.core_puzzle_collections@.len() == base + core_s.len(),
            forall|k: int| 0 <= k < core_s.len() ==> (#[trigger] store.core_puzzle_collections@[base + k]).config == core_s[k],
            store.core_puzzle_collections@.subrange(0, base as int) == old(store).core_puzzle_collections@,
            base == old(store).core_puzzle_collections@.len(),
            community_base == old(store).community_puzzle_collections@.len(),
            store.community_puzzle_collections@.len() == community_base + loaded_configs(community_s, j).len(),
            store.community_puzzle_collections@.subrange(0, community_base as int) == old(store).community_puzzle_collections@,
            forall|k: int| 0 <= k < loaded_configs(community_s, j).len() ==>
                (#[trigger] store.community_puzzle_collections@[community_base + k]).config == loaded_configs(community_s, j)[k],
        decreases community@.len(),
    {
        let loaded = community.remove(0);
        assert(loaded == community_s[j]);
        let ghost before = store.community_puzzle_collections@;
        match loaded {
            Ok(collection) => {
                store.community_puzzle_collections.push(CollectionModel::new(collection, puzzle_meta));
                assert(store.community_puzzle_collections@.subrange(0, community_base as int)
                    =~= before.subrange(0, community_base as int));
            },
            Err(_) => {},
        }
        proof {
            j = j + 1;
        }
        assert(community@ =~= community_s.subrange(j, community_s.len() as int));
    }
}

/// The collections among the first `n` results that were loaded, in their order.
pub open spec fn loaded_configs(results: Seq<Result<PuzzleConfigCollection, ReadError>>, n: int) -> Seq<PuzzleConfigCollection>
    decreases n,
{
    if n <= 0 {
        seq![]
    } else {
        match results[n - 1] {
            Ok(c) => loaded_configs(results, n - 1).push(c),
            Err(_) => loaded_configs(results, n - 1),
        }
    }
}

/// Forgets the stored progress of all puzzles.
pub fn reset_metadata(puzzle_meta: &mut PuzzleMeta)
    ensures
        final(puzzle_meta).solved@.len() == 0,
        final(puzzle_meta).hints@.len() == 0,
{
    puzzle_meta.reset();
}

} // verus!
