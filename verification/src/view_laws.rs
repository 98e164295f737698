//! What contracts see of the values that are handed in and out: all of them, and as they are.

use vstd::prelude::*;
use crate::ask::{AskAction, AskEvent};
use crate::buffer::bytes_contents;
use crate::catalog::{
    Action, ActionView, CatalogReply, CatalogState, CatalogTask, Event, EventView,
};
use crate::cbor::entries_map;
use crate::chunks::{JoinAction, JoinEvent};
use crate::collection::texts;
use crate::download::{DownloadAction, DownloadEvent, PumpAction, PumpError, PumpEvent};
use crate::error::{result_view, BlobsError, ErrorView};
use crate::hash::BlobHash;
use crate::serve::{ServeAction, ServeEvent};
use crate::store::{BlobFormat, Lookup};
use crate::tags::{listing_view, Listed, ListedView, TagAssignment};

verus! {

/// A hash is seen as its bytes.
pub proof fn law_hash_seen(hash: BlobHash, i: int)
    requires
        0 <= i < 32,
    ensures
        hash@.len() == 32,
        hash@[i] == hash.bytes[i],
{
}

/// What happens while a peer is answered is seen as it is.
pub proof fn law_serve_events_seen(
    message: Vec<u8>,
    chunk: bytes::Bytes,
    lookup: Lookup,
    ok: bool,
)
    ensures
        ServeEvent::<Vec<u8>, bytes::Bytes>::Received(message)@ == ServeEvent::<
            Seq<u8>,
            Seq<u8>,
        >::Received(message@),
        ServeEvent::<Vec<u8>, bytes::Bytes>::ReceiveTimedOut@ is ReceiveTimedOut,
        ServeEvent::<Vec<u8>, bytes::Bytes>::TunnelClosed@ is TunnelClosed,
        ServeEvent::<Vec<u8>, bytes::Bytes>::LookedUp(lookup)@ == ServeEvent::<
            Seq<u8>,
            Seq<u8>,
        >::LookedUp(lookup),
        ServeEvent::<Vec<u8>, bytes::Bytes>::Sent(ok)@ == ServeEvent::<Seq<u8>, Seq<u8>>::Sent(ok),
        ServeEvent::<Vec<u8>, bytes::Bytes>::FileOpened(ok)@ == ServeEvent::<
            Seq<u8>,
            Seq<u8>,
        >::FileOpened(ok),
        ServeEvent::<Vec<u8>, bytes::Bytes>::ChunkRead(chunk)@ == ServeEvent::<
            Seq<u8>,
            Seq<u8>,
        >::ChunkRead(bytes_contents(chunk)),
        ServeEvent::<Vec<u8>, bytes::Bytes>::ChunkFailed@ is ChunkFailed,
        ServeEvent::<Vec<u8>, bytes::Bytes>::ChunkTimedOut@ is ChunkTimedOut,
        ServeEvent::<Vec<u8>, bytes::Bytes>::FileEnded@ is FileEnded,
{
}

/// What an answer asks for is seen as it is.
pub proof fn law_serve_actions_seen(message: Vec<u8>, hash: BlobHash)
    ensures
        ServeAction::<Vec<u8>>::Receive@ is Receive,
        ServeAction::<Vec<u8>>::LookUp(hash)@ == ServeAction::<Seq<u8>>::LookUp(hash),
        ServeAction::<Vec<u8>>::Send(message)@ == ServeAction::Send(message@),
        ServeAction::<Vec<u8>>::OpenFile(hash)@ == ServeAction::<Seq<u8>>::OpenFile(hash),
        ServeAction::<Vec<u8>>::ReadChunk@ is ReadChunk,
        ServeAction::<Vec<u8>>::Finish@ is Finish,
{
}

/// What happens in a question to a peer, and what it asks for, is seen as it is.
pub proof fn law_ask_seen(message: Vec<u8>, ok: bool, result: Result<bool, BlobsError>)
    ensures
        AskEvent::<Vec<u8>>::Opened(ok)@ == AskEvent::<Seq<u8>>::Opened(ok),
        AskEvent::<Vec<u8>>::Sent(ok)@ == AskEvent::<Seq<u8>>::Sent(ok),
        AskEvent::<Vec<u8>>::Received(message)@ == AskEvent::Received(message@),
        AskEvent::<Vec<u8>>::TimedOut@ is TimedOut,
        AskEvent::<Vec<u8>>::Closed@ is Closed,
        AskAction::<Vec<u8>>::Open(message)@ == AskAction::Open(message@),
        AskAction::<Vec<u8>>::Send(message)@ == AskAction::Send(message@),
        AskAction::<Vec<u8>>::Receive@ is Receive,
        AskAction::<Vec<u8>>::Finish(result)@ == AskAction::<Seq<u8>>::Finish(result),
{
}

/// What happens in a download, and what it asks for, is seen as it is.
pub proof fn law_download_seen(
    message: Vec<u8>,
    hash: BlobHash,
    ok: bool,
    result: Result<(), BlobsError>,
)
    ensures
        DownloadEvent::<Vec<u8>>::Opened(ok)@ == DownloadEvent::<Seq<u8>>::Opened(ok),
        DownloadEvent::<Vec<u8>>::Sent(ok)@ == DownloadEvent::<Seq<u8>>::Sent(ok),
        DownloadEvent::<Vec<u8>>::Received(message)@ == DownloadEvent::Received(message@),
        DownloadEvent::<Vec<u8>>::TimedOut@ is TimedOut,
        DownloadEvent::<Vec<u8>>::Closed@ is Closed,
        DownloadEvent::<Vec<u8>>::Imported(hash)@ == DownloadEvent::<Seq<u8>>::Imported(hash),
        DownloadEvent::<Vec<u8>>::ImportFailed@ is ImportFailed,
        DownloadEvent::<Vec<u8>>::Deleted(ok)@ == DownloadEvent::<Seq<u8>>::Deleted(ok),
        DownloadAction::<Vec<u8>>::Open(message)@ == DownloadAction::Open(message@),
        DownloadAction::<Vec<u8>>::Send(message)@ == DownloadAction::Send(message@),
        DownloadAction::<Vec<u8>>::Receive@ is Receive,
        DownloadAction::<Vec<u8>>::PumpAndImport@ is PumpAndImport,
        DownloadAction::<Vec<u8>>::Delete(hash)@ == DownloadAction::<Seq<u8>>::Delete(hash),
        DownloadAction::<Vec<u8>>::Finish(result)@ == DownloadAction::<Seq<u8>>::Finish(result),
{
}

/// What happens to the pump, and what it asks for, is seen as it is.
pub proof fn law_pump_seen(message: Vec<u8>, chunk: bytes::Bytes, error: PumpError, ok: bool)
    ensures
        PumpEvent::<Vec<u8>>::Received(message)@ == PumpEvent::Received(message@),
        PumpEvent::<Vec<u8>>::TimedOut@ is TimedOut,
        PumpEvent::<Vec<u8>>::Closed@ is Closed,
        PumpEvent::<Vec<u8>>::Forwarded(ok)@ == PumpEvent::<Seq<u8>>::Forwarded(ok),
        PumpAction::<bytes::Bytes>::Receive@ is Receive,
        PumpAction::<bytes::Bytes>::Forward(Ok(chunk))@ == PumpAction::Forward(
            Ok(bytes_contents(chunk)),
        ),
        PumpAction::<bytes::Bytes>::Forward(Err(error))@ == PumpAction::<Seq<u8>>::Forward(
            Err(error),
        ),
        PumpAction::<bytes::Bytes>::Finish@ is Finish,
{
}

/// What joining sees, and what it asks for, is seen as it is.
pub proof fn law_join_seen(chunk: bytes::Bytes, data: Vec<u8>, error: BlobsError)
    ensures
        JoinEvent::<bytes::Bytes>::Chunk(chunk)@ == JoinEvent::Chunk(bytes_contents(chunk)),
        JoinEvent::<bytes::Bytes>::ChunkFailed@ is ChunkFailed,
        JoinEvent::<bytes::Bytes>::Ended@ is Ended,
        JoinAction::<Vec<u8>>::Receive(data)@ == JoinAction::Receive(data@),
        JoinAction::<Vec<u8>>::Finish(Ok(data))@ == JoinAction::Finish(Ok(data@)),
        JoinAction::<Vec<u8>>::Finish(Err(error))@ == JoinAction::<Seq<u8>>::Finish(Err(error)),
{
}

/// An item of a listing, and a whole listing, is seen as it is, and so is a tag that is to be stored.
pub proof fn law_tags_seen(
    name: Vec<u8>,
    hash: BlobHash,
    format: BlobFormat,
    cause: String,
    tags: Seq<Listed>,
)
    ensures
        (Listed::Tag { name, hash })@ == (ListedView::Tag { name: name@, hash }),
        Listed::Unreadable(cause)@ == ListedView::Unreadable(cause@),
        listing_view(tags).len() == tags.len(),
        forall|i: int| 0 <= i < tags.len() ==> #[trigger] listing_view(tags)[i] == tags[i]@,
        (TagAssignment { name, hash, format })@ == (TagAssignment { name: name@, hash, format }),
{
}

/// A list of strings is seen as their texts, in order.
pub proof fn law_texts_seen(strings: Seq<String>)
    ensures
        texts(strings).len() == strings.len(),
        forall|i: int| 0 <= i < strings.len() ==> #[trigger] texts(strings)[i] == strings[i]@,
{
}

/// What happens in an operation on a collection is seen as it is.
pub proof fn law_catalog_events_seen(tags: Vec<Listed>, data: Vec<u8>, hash: BlobHash, ok: bool)
    ensures
        Event::TagsListed(tags)@ == EventView::TagsListed(listing_view(tags@)),
        Event::ListTagsFailed@ is ListTagsFailed,
        Event::BlobRead(data)@ == EventView::BlobRead(data@),
        Event::ReadBlobFailed@ is ReadBlobFailed,
        Event::Imported(hash)@ == EventView::Imported(hash),
        Event::ImportFailed@ is ImportFailed,
        Event::TagStored(ok)@ == EventView::TagStored(ok),
{
}

/// What an operation on a collection asks for is seen as it is.
pub proof fn law_catalog_actions_seen(
    data: bytes::Bytes,
    hash: BlobHash,
    tag: TagAssignment<Vec<u8>>,
    files: Vec<String>,
    error: BlobsError,
)
    ensures
        Action::ImportFile@ is ImportFile,
        Action::ListTags@ is ListTags,
        Action::ReadBlob(hash)@ == ActionView::ReadBlob(hash),
        Action::Import(data)@ == ActionView::Import(bytes_contents(data)),
        Action::StoreTag(tag)@ == ActionView::StoreTag(tag@),
        Action::Finish(Ok(CatalogReply::Hash(hash)))@ == ActionView::Finish(
            Ok(CatalogReply::Hash(hash)),
        ),
        Action::Finish(Ok(CatalogReply::Files(files)))@ == ActionView::Finish(
            Ok(CatalogReply::Files(texts(files@))),
        ),
        Action::Finish(Err(error))@ == ActionView::Finish(Err(error@)),
{
}

/// How far an operation on a collection has come, and what it is to do, is seen as it is.
pub proof fn law_catalog_states_seen(
    name: String,
    path: String,
    hash: BlobHash,
    task: CatalogTask<String>,
)
    ensures
        (CatalogState::Upload { name, path })@ == (CatalogState::Upload { name: name@, path: path@ }),
        (CatalogState::Locate { name })@ == (CatalogState::Locate { name: name@ }),
        (CatalogState::ListTags { name, task })@ == (CatalogState::ListTags {
            name: name@,
            task: task@,
        }),
        (CatalogState::ReadBlob { name, task })@ == (CatalogState::ReadBlob {
            name: name@,
            task: task@,
        }),
        (CatalogState::Import { name })@ == (CatalogState::Import { name: name@ }),
        (CatalogState::<String>::StoreTag { hash })@ == (CatalogState::<Seq<char>>::StoreTag {
            hash,
        }),
        CatalogState::<String>::Done@ is Done,
        (CatalogTask::GetFile { path })@ == (CatalogTask::GetFile { path: path@ }),
        CatalogTask::<String>::ListFiles@ is ListFiles,
        (CatalogTask::SetFile { path, hash })@ == (CatalogTask::SetFile { path: path@, hash }),
        (CatalogTask::DeleteFile { path })@ == (CatalogTask::DeleteFile { path: path@ }),
{
}

/// An error is seen as it is.
pub proof fn law_errors_seen(text: String, length: usize, code: u8, hash: BlobHash)
    ensures
        BlobsError::<String>::OpenTunnel@ is OpenTunnel,
        BlobsError::<String>::SendRequest@ is SendRequest,
        BlobsError::<String>::InvalidResponseLength(length)@ == ErrorView::InvalidResponseLength(
            length,
        ),
        BlobsError::<String>::InvalidResponseCode(code)@ == ErrorView::InvalidResponseCode(code),
        BlobsError::<String>::UnableToAsk@ is UnableToAsk,
        BlobsError::<String>::PeerLacksHash@ is PeerLacksHash,
        BlobsError::<String>::InvalidHash(hash)@ == ErrorView::InvalidHash(hash),
        BlobsError::<String>::Import@ is Import,
        BlobsError::<String>::Delete@ is Delete,
        BlobsError::<String>::LookUp@ is LookUp,
        BlobsError::<String>::HashNotFound@ is HashNotFound,
        BlobsError::<String>::BlobSize@ is BlobSize,
        BlobsError::<String>::ReadBlob@ is ReadBlob,
        BlobsError::<String>::ListTags@ is ListTags,
        BlobsError::ReadTag(text)@ == ErrorView::ReadTag(text@),
        BlobsError::TagNotFound(text)@ == ErrorView::TagNotFound(text@),
        BlobsError::<String>::StoreTag@ is StoreTag,
        BlobsError::<String>::EncodeCollection@ is EncodeCollection,
        BlobsError::DecodeCollection(text)@ == ErrorView::DecodeCollection(text@),
        BlobsError::<String>::FileNotFound@ is FileNotFound,
{
}

/// A list of paths and hashes says of the path in its last entry what stands there, and of every other
/// path what the entries before it say.
pub proof fn law_entries_seen(entries: Seq<(String, BlobHash)>, path: String, hash: BlobHash)
    ensures
        entries_map(Seq::empty()) == Map::<Seq<char>, Seq<u8>>::empty(),
        entries_map(entries.push((path, hash))) == entries_map(entries).insert(path@, hash@),
{
    assert(entries.push((path, hash)).drop_last() =~= entries);
}

/// A result is seen as its value, or as its error is.
pub proof fn law_results_seen<T>(value: T, error: BlobsError)
    ensures
        result_view(Ok::<T, BlobsError>(value)) == Ok::<T, ErrorView>(value),
        result_view(Err::<T, BlobsError>(error)) == Err::<T, ErrorView>(error@),
{
}

} // verus!
