//! Collections in the store: creating, changing and reading them.
//!
//! A collection lies in the store as a blob, and the tag with the collection's name names that
//! blob. A change reads the blob, stores a changed one, and moves the tag.

use vstd::prelude::*;
use crate::buffer::{bytes_contents, bytes_from_vec};
use crate::cbor::{cbor_collection, writes_collection};
use crate::collection::{lists_paths, texts, Collection};
use crate::error::{BlobsError, ErrorView};
use crate::hash::{hash_of, BlobHash};
use crate::tags::{
    collection_tag, find_tag, listing_view, make_tag, search_tags, Listed, ListedTag, ListedView,
    TagAssignment,
};

verus! {

/// What is done with a collection that is found. Paths are of type `S`.
pub enum CatalogTask<S> {
    /// Tell the hash of the file at a path.
    GetFile { path: S },
    /// Tell the paths of all files.
    ListFiles,
    /// Put a file at a path.
    SetFile { path: S, hash: BlobHash },
    /// Take the file at a path away.
    DeleteFile { path: S },
}

/// How far an operation on a collection has come. Names and paths are of type `S`.
pub enum CatalogState<S> {
    /// A file is being brought into the store, to be put at a path of the collection.
    Upload { name: S, path: S },
    /// The tags are being listed, to tell the hash of the collection.
    Locate { name: S },
    /// The tags are being listed, to find the collection that a task is to be done with.
    ListTags { name: S, task: CatalogTask<S> },
    /// The blob of the collection is being read.
    ReadBlob { name: S, task: CatalogTask<S> },
    /// The changed collection is being brought into the store.
    Import { name: S },
    /// The tag of the collection is being moved.
    StoreTag { hash: BlobHash },
    /// Nothing is left to do.
    Done,
}

/// What happened since the last action was handed out. Listings of tags are of type `L`, and
/// contents of blobs of type `D`.
pub enum CatalogEvent<L, D> {
    /// The tags were listed.
    TagsListed(L),
    /// The tags could not be listed.
    ListTagsFailed,
    /// The blob was read.
    BlobRead(D),
    /// The blob could not be read.
    ReadBlobFailed,
    /// The store took in a blob with this hash.
    Imported(BlobHash),
    /// The store could not take in the blob.
    ImportFailed,
    /// The tag was stored, or, for `false`, could not be stored.
    TagStored(bool),
}

/// What an operation reports. Lists of paths are of type `F`.
pub enum CatalogReply<F> {
    /// A hash: of the file that was asked for, or else of the collection as it now is.
    Hash(BlobHash),
    /// The paths of all files.
    Files(F),
}

/// What to do next. Contents of blobs are of type `D`, names of tags of type `N`, lists of paths of
/// type `F`, and texts of type `S`.
pub enum CatalogAction<D, N, F, S> {
    /// Bring the file that is being uploaded into the store.
    ImportFile,
    /// List the tags of the store.
    ListTags,
    /// Read a blob to its end.
    ReadBlob(BlobHash),
    /// Bring a blob with this content into the store.
    Import(D),
    /// Store a tag.
    StoreTag(TagAssignment<N>),
    /// Report how the operation ended.
    Finish(Result<CatalogReply<F>, BlobsError<S>>),
}

/// The actions as they are handed out.
pub type Action = CatalogAction<bytes::Bytes, Vec<u8>, Vec<String>, String>;

/// The actions as contracts speak of them.
pub type ActionView = CatalogAction<Seq<u8>, Seq<u8>, Seq<Seq<char>>, Seq<char>>;

/// The events as they are handed in.
pub type Event = CatalogEvent<Vec<Listed>, Vec<u8>>;

/// The events as contracts speak of them.
pub type EventView = CatalogEvent<Seq<ListedView>, Seq<u8>>;

impl View for CatalogTask<String> {
    type V = CatalogTask<Seq<char>>;

    open spec fn view(&self) -> CatalogTask<Seq<char>> {
        match *self {
            CatalogTask::GetFile { path } => CatalogTask::GetFile { path: path@ },
            CatalogTask::ListFiles => CatalogTask::ListFiles,
            CatalogTask::SetFile { path, hash } => CatalogTask::SetFile { path: path@, hash },
            CatalogTask::DeleteFile { path } => CatalogTask::DeleteFile { path: path@ },
        }
    }
}

impl View for CatalogState<String> {
    type V = CatalogState<Seq<char>>;

    open spec fn view(&self) -> CatalogState<Seq<char>> {
        match *self {
            CatalogState::Upload { name, path } => CatalogState::Upload { name: name@, path: path@ },
            CatalogState::Locate { name } => CatalogState::Locate { name: name@ },
            CatalogState::ListTags { name, task } => CatalogState::ListTags {
                name: name@,
                task: task@,
            },
            CatalogState::ReadBlob { name, task } => CatalogState::ReadBlob {
                name: name@,
                task: task@,
            },
            CatalogState::Import { name } => CatalogState::Import { name: name@ },
            CatalogState::StoreTag { hash } => CatalogState::StoreTag { hash },
            CatalogState::Done => CatalogState::Done,
        }
    }
}

impl View for CatalogEvent<Vec<ListedTag<Vec<u8>, String>>, Vec<u8>> {
    type V = EventView;

    open spec fn view(&self) -> EventView {
        match *self {
            CatalogEvent::TagsListed(tags) => CatalogEvent::TagsListed(listing_view(tags@)),
            CatalogEvent::ListTagsFailed => CatalogEvent::ListTagsFailed,
            CatalogEvent::BlobRead(data) => CatalogEvent::BlobRead(data@),
            CatalogEvent::ReadBlobFailed => CatalogEvent::ReadBlobFailed,
            CatalogEvent::Imported(hash) => CatalogEvent::Imported(hash),
            CatalogEvent::ImportFailed => CatalogEvent::ImportFailed,
            CatalogEvent::TagStored(ok) => CatalogEvent::TagStored(ok),
        }
    }
}

impl View for CatalogAction<bytes::Bytes, Vec<u8>, Vec<String>, String> {
    type V = ActionView;

    open spec fn view(&self) -> ActionView {
        match *self {
            CatalogAction::ImportFile => CatalogAction::ImportFile,
            CatalogAction::ListTags => CatalogAction::ListTags,
            CatalogAction::ReadBlob(hash) => CatalogAction::ReadBlob(hash),
            CatalogAction::Import(data) => CatalogAction::Import(bytes_contents(data)),
            CatalogAction::StoreTag(tag) => CatalogAction::StoreTag(tag@),
            CatalogAction::Finish(Ok(CatalogReply::Hash(hash))) => CatalogAction::Finish(
                Ok(CatalogReply::Hash(hash)),
            ),
            CatalogAction::Finish(Ok(CatalogReply::Files(files))) => CatalogAction::Finish(
                Ok(CatalogReply::Files(texts(files@))),
            ),
            CatalogAction::Finish(Err(error)) => CatalogAction::Finish(Err(error@)),
        }
    }
}

/// Whether an event can happen in a state: it answers the action that led to the state.
pub open spec fn catalog_accepts(state: CatalogState<Seq<char>>, event: EventView) -> bool {
    match state {
        CatalogState::Upload { .. } => event is Imported || event is ImportFailed,
        CatalogState::Locate { .. } => event is TagsListed || event is ListTagsFailed,
        CatalogState::ListTags { .. } => event is TagsListed || event is ListTagsFailed,
        CatalogState::ReadBlob { .. } => event is BlobRead || event is ReadBlobFailed,
        CatalogState::Import { .. } => event is Imported || event is ImportFailed,
        CatalogState::StoreTag { .. } => event is TagStored,
        CatalogState::Done => false,
    }
}

/// Ends the operation with a result.
pub open spec fn catalog_ends(
    result: Result<CatalogReply<Seq<Seq<char>>>, ErrorView>,
    next: (CatalogState<Seq<char>>, ActionView),
) -> bool {
    next == (CatalogState::<Seq<char>>::Done, ActionView::Finish(result))
}

/// Goes on to bring a collection into the store, under a name: the blob that is to be imported is
/// the collection, written down.
pub open spec fn catalog_imports(
    name: Seq<char>,
    collection: Map<Seq<char>, Seq<u8>>,
    next: (CatalogState<Seq<char>>, ActionView),
) -> bool {
    &&& next.0 == CatalogState::Import { name }
    &&& next.1 matches CatalogAction::Import(data) && writes_collection(data, collection)
}

/// What a task does with a collection: it reports something of it, or goes on to store a changed
/// one.
pub open spec fn task_performed(
    name: Seq<char>,
    task: CatalogTask<Seq<char>>,
    collection: Map<Seq<char>, Seq<u8>>,
    next: (CatalogState<Seq<char>>, ActionView),
) -> bool {
    match task {
        CatalogTask::GetFile { path } => catalog_ends(
            if collection.contains_key(path) {
                Ok(CatalogReply::Hash(hash_of(collection[path])))
            } else {
                Err(BlobsError::FileNotFound)
            },
            next,
        ),
        CatalogTask::ListFiles => {
            &&& next.0 is Done
            &&& next.1 matches CatalogAction::Finish(Ok(CatalogReply::Files(files)))
                && lists_paths(files, collection)
        },
        CatalogTask::SetFile { path, hash } => catalog_imports(
            name,
            collection.insert(path, hash@),
            next,
        ),
        CatalogTask::DeleteFile { path } => catalog_imports(name, collection.remove(path), next),
    }
}

/// Whether `next` may follow when an event happens in a state that accepts it. What follows is
/// fixed but for the order in which a list of paths comes out or a collection is written down.
pub open spec fn catalog_follows(
    state: CatalogState<Seq<char>>,
    event: EventView,
    next: (CatalogState<Seq<char>>, ActionView),
) -> bool {
    match (state, event) {
        (CatalogState::Upload { name, path }, CatalogEvent::Imported(hash)) => next == (
            CatalogState::ListTags { name, task: CatalogTask::SetFile { path, hash } },
            ActionView::ListTags,
        ),
        (CatalogState::Upload { .. }, _) => catalog_ends(Err(BlobsError::Import), next),
        (CatalogState::Locate { name }, CatalogEvent::TagsListed(tags)) => match find_tag(
            tags,
            name,
        ) {
            Ok(hash) => catalog_ends(Ok(CatalogReply::Hash(hash)), next),
            Err(error) => catalog_ends(Err(error), next),
        },
        (CatalogState::Locate { .. }, _) => catalog_ends(Err(BlobsError::ListTags), next),
        (CatalogState::ListTags { name, task }, CatalogEvent::TagsListed(tags)) => match find_tag(
            tags,
            name,
        ) {
            Ok(hash) => next == (
                CatalogState::ReadBlob { name, task },
                ActionView::ReadBlob(hash),
            ),
            Err(error) => catalog_ends(Err(error), next),
        },
        (CatalogState::ListTags { .. }, _) => catalog_ends(Err(BlobsError::ListTags), next),
        (CatalogState::ReadBlob { name, task }, CatalogEvent::BlobRead(data)) => match cbor_collection(
            data,
        ) {
            Ok(collection) => task_performed(name, task, collection, next),
            Err(cause) => catalog_ends(Err(BlobsError::DecodeCollection(cause)), next),
        },
        (CatalogState::ReadBlob { .. }, _) => catalog_ends(Err(BlobsError::ReadBlob), next),
        (CatalogState::Import { name }, CatalogEvent::Imported(hash)) => next == (
            CatalogState::<Seq<char>>::StoreTag { hash },
            ActionView::StoreTag(collection_tag(name, hash)),
        ),
        (CatalogState::Import { .. }, _) => catalog_ends(Err(BlobsError::Import), next),
        (CatalogState::StoreTag { hash }, CatalogEvent::TagStored(true)) => catalog_ends(
            Ok(CatalogReply::Hash(hash)),
            next,
        ),
        (CatalogState::StoreTag { .. }, _) => catalog_ends(Err(BlobsError::StoreTag), next),
        (CatalogState::Done, _) => false,
    }
}

impl CatalogState<String> {
    /// Whether an event can happen in this state.
    pub fn accepts(&self, event: &Event) -> (res: bool)
        ensures
            res == catalog_accepts(self@, event@),
    {
        match (self, event) {
            (CatalogState::Upload { .. }, CatalogEvent::Imported(_)) => true,
            (CatalogState::Upload { .. }, CatalogEvent::ImportFailed) => true,
            (CatalogState::Locate { .. }, CatalogEvent::TagsListed(_)) => true,
            (CatalogState::Locate { .. }, CatalogEvent::ListTagsFailed) => true,
            (CatalogState::ListTags { .. }, CatalogEvent::TagsListed(_)) => true,
            (CatalogState::ListTags { .. }, CatalogEvent::ListTagsFailed) => true,
            (CatalogState::ReadBlob { .. }, CatalogEvent::BlobRead(_)) => true,
            (CatalogState::ReadBlob { .. }, CatalogEvent::ReadBlobFailed) => true,
            (CatalogState::Import { .. }, CatalogEvent::Imported(_)) => true,
            (CatalogState::Import { .. }, CatalogEvent::ImportFailed) => true,
            (CatalogState::StoreTag { .. }, CatalogEvent::TagStored(_)) => true,
            _ => false,
        }
    }

    /// Ends the operation with an error.
    fn fail(error: BlobsError) -> (res: (CatalogState<String>, Action))
        ensures
            catalog_ends(Err(error@), (res.0@, res.1@)),
    {
        (CatalogState::Done, CatalogAction::Finish(Err(error)))
    }

    /// Starts storing a collection under a name, in place of the one that has the name.
    pub fn update(name: String, collection: &Collection) -> (res: (CatalogState<String>, Action))
        ensures
            catalog_imports(name@, collection@, (res.0@, res.1@)),
    {
        match collection.encode() {
            Ok(data) => (CatalogState::Import { name }, CatalogAction::Import(bytes_from_vec(data))),
            Err(error) => Self::fail(error),
        }
    }

    /// Performs a task on a collection that was read.
    fn perform(name: String, task: CatalogTask<String>, collection: Collection) -> (res: (
        CatalogState<String>,
        Action,
    ))
        ensures
            task_performed(name@, task@, collection@, (res.0@, res.1@)),
    {
        match task {
            CatalogTask::GetFile { path } => match collection.get(&path) {
                Some(hash) => (
                    CatalogState::Done,
                    CatalogAction::Finish(Ok(CatalogReply::Hash(hash))),
                ),
                None => Self::fail(BlobsError::FileNotFound),
            },
            CatalogTask::ListFiles => (
                CatalogState::Done,
                CatalogAction::Finish(Ok(CatalogReply::Files(collection.paths()))),
            ),
            CatalogTask::SetFile { path, hash } => {
                let mut changed = collection;
                changed.insert(path, hash);
                Self::update(name, &changed)
            },
            CatalogTask::DeleteFile { path } => {
                let mut changed = collection;
                changed.remove(&path);
                Self::update(name, &changed)
            },
        }
    }

    /// Takes in what happened, and says what to do next.
    pub fn step(self, event: Event) -> (res: (CatalogState<String>, Action))
        requires
            catalog_accepts(self@, event@),
        ensures
            catalog_follows(self@, event@, (res.0@, res.1@)),
    {
        match (self, event) {
            (CatalogState::Upload { name, path }, CatalogEvent::Imported(hash)) => (
                CatalogState::ListTags { name, task: CatalogTask::SetFile { path, hash } },
                CatalogAction::ListTags,
            ),
            (CatalogState::Upload { .. }, _) => Self::fail(BlobsError::Import),
            (CatalogState::Locate { name }, CatalogEvent::TagsListed(tags)) => {
                match search_tags(&tags, name.as_str()) {
                    Ok(hash) => (
                        CatalogState::Done,
                        CatalogAction::Finish(Ok(CatalogReply::Hash(hash))),
                    ),
                    Err(error) => Self::fail(error),
                }
            },
            (CatalogState::Locate { .. }, _) => Self::fail(BlobsError::ListTags),
            (CatalogState::ListTags { name, task }, CatalogEvent::TagsListed(tags)) => {
                match search_tags(&tags, name.as_str()) {
                    Ok(hash) => (
                        CatalogState::ReadBlob { name, task },
                        CatalogAction::ReadBlob(hash),
                    ),
                    Err(error) => Self::fail(error),
                }
            },
            (CatalogState::ListTags { .. }, _) => Self::fail(BlobsError::ListTags),
            (CatalogState::ReadBlob { name, task }, CatalogEvent::BlobRead(data)) => {
                match Collection::decode(data.as_slice()) {
                    Ok(collection) => Self::perform(name, task, collection),
                    Err(error) => Self::fail(error),
                }
            },
            (CatalogState::ReadBlob { .. }, _) => Self::fail(BlobsError::ReadBlob),
            (CatalogState::Import { name }, CatalogEvent::Imported(hash)) => {
                let tag = make_tag(name.as_str(), &hash);
                (CatalogState::StoreTag { hash }, CatalogAction::StoreTag(tag))
            },
            (CatalogState::Import { .. }, _) => Self::fail(BlobsError::Import),
            (CatalogState::StoreTag { hash }, CatalogEvent::TagStored(true)) => (
                CatalogState::Done,
                CatalogAction::Finish(Ok(CatalogReply::Hash(hash))),
            ),
            _ => Self::fail(BlobsError::StoreTag),
        }
    }
}

} // verus!
