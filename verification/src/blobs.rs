//! The operations of a node, each started by a function of `VeilidIrohBlobs`.

use vstd::prelude::*;
use crate::ask::{AskAction, AskState};
use crate::catalog::{
    catalog_imports, Action, ActionView, CatalogAction, CatalogState, CatalogTask,
};
use crate::chunks::{OpenAction, OpenState};
use crate::collection::Collection;
use crate::download::{DownloadAction, DownloadState, PumpAction, PumpState};
use crate::hash::BlobHash;
use crate::serve::{ServeAction, ServeState};
use crate::store::{file_import, stream_format, BlobFormat, FileImport, ImportMode, Lookup};
use crate::tags::{collection_tag, make_tag, TagAssignment};

verus! {

/// A node that keeps blobs, serves them to peers, and fetches them from peers.
///
/// Each function starts an operation: it gives the operation's first state, and the first thing to
/// do for it.
pub struct VeilidIrohBlobs {}

impl VeilidIrohBlobs {
    /// Starts answering a peer that has opened a tunnel.
    pub fn handle_tunnel() -> (res: (ServeState, ServeAction<Vec<u8>>))
        ensures
            (res.0, res.1@) == (ServeState::AwaitRequest, ServeAction::<Seq<u8>>::Receive),
    {
        (ServeState::AwaitRequest, ServeAction::Receive)
    }

    /// Whether the store holds a blob, by what came of looking it up. A store that cannot be read
    /// holds nothing.
    pub fn has_hash(lookup: &Lookup) -> (res: bool)
        ensures
            res == (*lookup is Found),
    {
        match lookup {
            Lookup::Found => true,
            _ => false,
        }
    }

    /// Starts asking the peer at a route whether it holds a blob.
    pub fn ask_hash(route_id_blob: Vec<u8>, hash: BlobHash) -> (res: (AskState, AskAction<Vec<u8>>))
        ensures
            (res.0, res.1@) == (AskState::Open { hash }, AskAction::Open(route_id_blob@)),
    {
        (AskState::Open { hash }, AskAction::Open(route_id_blob))
    }

    /// Starts fetching a blob from the peer at a route.
    pub fn download_file_from(route_id_blob: Vec<u8>, hash: &BlobHash) -> (res: (
        DownloadState,
        DownloadAction<Vec<u8>>,
    ))
        ensures
            (res.0, res.1@) == (
                DownloadState::Open { hash: *hash },
                DownloadAction::Open(route_id_blob@),
            ),
    {
        (DownloadState::Open { hash: *hash }, DownloadAction::Open(route_id_blob))
    }

    /// Starts taking the pieces of a blob out of a peer's messages.
    pub fn pump() -> (res: (PumpState, PumpAction<bytes::Bytes>))
        ensures
            (res.0, res.1@) == (PumpState::AwaitMessage, PumpAction::<Seq<u8>>::Receive),
    {
        (PumpState::AwaitMessage, PumpAction::Receive)
    }

    /// How a file on disk is brought into the store: copied, as plain bytes.
    pub fn upload_from_path() -> (res: FileImport)
        ensures
            res == file_import(),
    {
        FileImport { mode: ImportMode::Copy, format: BlobFormat::Raw }
    }

    /// How a stream of chunks is brought into the store: as plain bytes.
    pub fn upload_from_stream() -> (res: BlobFormat)
        ensures
            res == stream_format(),
    {
        BlobFormat::Raw
    }

    /// Starts opening a blob for reading.
    pub fn read_file(hash: BlobHash) -> (res: (OpenState, OpenAction))
        ensures
            res == (OpenState::LookUp, OpenAction::LookUp(hash)),
    {
        (OpenState::LookUp, OpenAction::LookUp(hash))
    }

    /// Starts storing a collection without files under a name.
    pub fn create_collection(collection_name: &String) -> (res: (CatalogState<String>, Action))
        ensures
            catalog_imports(collection_name@, Map::empty(), (res.0@, res.1@)),
    {
        let collection = Collection::new();
        Self::update_collection(collection_name, &collection)
    }

    /// Starts putting a file at a path of a collection.
    pub fn set_file(collection_name: &String, path: &String, file_hash: &BlobHash) -> (res: (
        CatalogState<String>,
        Action,
    ))
        ensures
            (res.0@, res.1@) == (
                CatalogState::ListTags {
                    name: collection_name@,
                    task: CatalogTask::SetFile { path: path@, hash: *file_hash },
                },
                ActionView::ListTags,
            ),
    {
        let task = CatalogTask::SetFile { path: path.clone(), hash: *file_hash };
        (CatalogState::ListTags { name: collection_name.clone(), task }, CatalogAction::ListTags)
    }

    /// Starts finding the hash of the file at a path of a collection.
    pub fn get_file(collection_name: &String, path: &String) -> (res: (
        CatalogState<String>,
        Action,
    ))
        ensures
            (res.0@, res.1@) == (
                CatalogState::ListTags {
                    name: collection_name@,
                    task: CatalogTask::GetFile { path: path@ },
                },
                ActionView::ListTags,
            ),
    {
        let task = CatalogTask::GetFile { path: path.clone() };
        (CatalogState::ListTags { name: collection_name.clone(), task }, CatalogAction::ListTags)
    }

    /// Starts taking the file at a path of a collection away.
    pub fn delete_file(collection_name: &String, path: &String) -> (res: (
        CatalogState<String>,
        Action,
    ))
        ensures
            (res.0@, res.1@) == (
                CatalogState::ListTags {
                    name: collection_name@,
                    task: CatalogTask::DeleteFile { path: path@ },
                },
                ActionView::ListTags,
            ),
    {
        let task = CatalogTask::DeleteFile { path: path.clone() };
        (CatalogState::ListTags { name: collection_name.clone(), task }, CatalogAction::ListTags)
    }

    /// Starts listing the paths of a collection.
    pub fn list_files(collection_name: &String) -> (res: (CatalogState<String>, Action))
        ensures
            (res.0@, res.1@) == (
                CatalogState::ListTags {
                    name: collection_name@,
                    task: CatalogTask::<Seq<char>>::ListFiles,
                },
                ActionView::ListTags,
            ),
    {
        (
            CatalogState::ListTags { name: collection_name.clone(), task: CatalogTask::ListFiles },
            CatalogAction::ListTags,
        )
    }

    /// Starts bringing a file into the store and putting it at a path of a collection.
    pub fn upload_to(collection_name: &String, path: &String) -> (res: (
        CatalogState<String>,
        Action,
    ))
        ensures
            (res.0@, res.1@) == (
                CatalogState::Upload { name: collection_name@, path: path@ },
                ActionView::ImportFile,
            ),
    {
        (
            CatalogState::Upload { name: collection_name.clone(), path: path.clone() },
            CatalogAction::ImportFile,
        )
    }

    /// Starts finding the hash of a collection.
    pub fn collection_hash(collection_name: &str) -> (res: (CatalogState<String>, Action))
        ensures
            (res.0@, res.1@) == (
                CatalogState::Locate { name: collection_name@ },
                ActionView::ListTags,
            ),
    {
        Self::get_tag(collection_name)
    }

    /// Makes the tag by which a collection is found.
    pub fn store_tag(collection_name: &str, collection_hash: &BlobHash) -> (res: TagAssignment<
        Vec<u8>,
    >)
        ensures
            res@ == collection_tag(collection_name@, *collection_hash),
    {
        make_tag(collection_name, collection_hash)
    }

    /// Starts finding the blob that the tag of a collection names.
    pub fn get_tag(collection_name: &str) -> (res: (CatalogState<String>, Action))
        ensures
            (res.0@, res.1@) == (
                CatalogState::Locate { name: collection_name@ },
                ActionView::ListTags,
            ),
    {
        (CatalogState::Locate { name: collection_name.to_owned() }, CatalogAction::ListTags)
    }

    /// Starts storing a collection under a name, in place of the one that has the name.
    pub fn update_collection(collection_name: &String, collection: &Collection) -> (res: (
        CatalogState<String>,
        Action,
    ))
        ensures
            catalog_imports(collection_name@, collection@, (res.0@, res.1@)),
    {
        CatalogState::update(collection_name.clone(), collection)
    }
}

} // verus!
