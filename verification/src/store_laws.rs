//! What downloads and uploads do to a store, taken as wholes.

use vstd::prelude::*;
use crate::chunks::JoinAction;
use crate::download::{
    download_accepts, download_step, DownloadAction, DownloadEvent, DownloadState, PumpState,
};
use crate::error::BlobsError;
use crate::hash::BlobHash;
use crate::serve::ServeState;
use crate::store::{file_import, stream_format, BlobFormat, FileImport};
use crate::store_model::{takes_in, with_blob, without_blob, StoreModel};
use crate::transfer_laws::{
    all_ok, blob_events, join_all, joined, law_blob_transfer, law_pieces_make_blob, law_read_bytes,
    law_transfer, pieces_of, pump_forwards, serve_messages, serve_possible, size_fits, Forwarded,
};

verus! {

/// What a download is asked to do, as the laws speak of it.
pub type Asked = DownloadAction<Seq<u8>>;

/// What happens in a download, as the laws speak of it.
pub type Happened = DownloadEvent<Seq<u8>>;

/// A moment of a download: what happened, and what the store then held.
pub struct DownloadMoment {
    pub event: Happened,
    pub store: StoreModel,
}

/// Whether a peer's messages are pieces of a blob and nothing that is refused, and the blob is
/// `data`.
pub open spec fn messages_carry(messages: Seq<Seq<u8>>, data: Seq<u8>) -> bool {
    exists|chunks: Seq<Seq<u8>>|
        pump_forwards(PumpState::AwaitMessage, messages) == #[trigger] all_ok(chunks) && data
            == joined(chunks)
}

/// Whether a store takes in the blob that a peer's messages carry, under a hash, and then holds
/// `after`.
pub open spec fn carried_in(
    store: StoreModel,
    messages: Seq<Seq<u8>>,
    hash: BlobHash,
    after: StoreModel,
) -> bool {
    exists|data: Seq<u8>| #[trigger]
        takes_in(store, hash, data) && messages_carry(messages, data) && after == with_blob(
            store,
            hash,
            data,
        )
}

/// Whether an event can answer an action of a download, with a store that may fail at any moment and
/// then holds `after`. The messages are those that the peer sends after its reply.
pub open spec fn download_answers(
    store: StoreModel,
    messages: Seq<Seq<u8>>,
    action: Asked,
    event: Happened,
    after: StoreModel,
) -> bool {
    match (action, event) {
        (DownloadAction::PumpAndImport, DownloadEvent::Imported(got)) => carried_in(
            store,
            messages,
            got,
            after,
        ),
        (DownloadAction::Delete(got), DownloadEvent::Deleted(true)) => after == without_blob(
            store,
            got,
        ),
        (DownloadAction::Finish(_), _) => false,
        _ => after == store,
    }
}

/// Whether a download goes from a state and an action through moments to its end.
pub open spec fn download_passes(
    next: (DownloadState, Asked),
    store: StoreModel,
    messages: Seq<Seq<u8>>,
    moments: Seq<DownloadMoment>,
    outcome: Result<(), BlobsError>,
    after: StoreModel,
) -> bool
    decreases moments.len(),
{
    if moments.len() == 0 {
        next.1 == Asked::Finish(outcome) && after == store
    } else {
        let moment = moments[0];
        &&& download_accepts(next.0, moment.event)
        &&& download_answers(store, messages, next.1, moment.event, moment.store)
        &&& download_passes(
            download_step(next.0, moment.event),
            moment.store,
            messages,
            moments.skip(1),
            outcome,
            after,
        )
    }
}

/// What becomes of a store by a download that ends with an outcome.
pub open spec fn download_report(
    hash: BlobHash,
    messages: Seq<Seq<u8>>,
    store: StoreModel,
    outcome: Result<(), BlobsError>,
    after: StoreModel,
) -> bool {
    match outcome {
        Ok(()) => carried_in(store, messages, hash, after),
        Err(BlobsError::InvalidHash(got)) => {
            &&& got != hash
            &&& exists|data: Seq<u8>| #[trigger]
                takes_in(store, got, data) && messages_carry(messages, data)
            &&& after == without_blob(store, got)
        },
        Err(BlobsError::Delete) => exists|got: BlobHash|
            got != hash && #[trigger] carried_in(store, messages, got, after),
        Err(_) => after == store,
    }
}

/// A download that succeeds brings into the store the blob that the peer sent, under the hash that
/// was asked for, and changes nothing else. One that was sent another blob deletes that blob, also
/// where the store held it before, and changes nothing else; only where the deletion fails does
/// the other blob stay. One that fails otherwise leaves the store as it was. No tag changes.
pub proof fn law_download_store(
    hash: BlobHash,
    route: Seq<u8>,
    messages: Seq<Seq<u8>>,
    store: StoreModel,
    moments: Seq<DownloadMoment>,
    outcome: Result<(), BlobsError>,
    after: StoreModel,
)
    requires
        download_passes(
            (DownloadState::Open { hash }, Asked::Open(route)),
            store,
            messages,
            moments,
            outcome,
            after,
        ),
    ensures
        download_report(hash, messages, store, outcome, after),
        after.tags == store.tags,
{
    let start = (DownloadState::Open { hash }, Asked::Open(route));
    lemma_download(hash, start, messages, store, moments, outcome, after);
}

/// Whether a state of a download comes before anything was imported.
pub open spec fn before_import(hash: BlobHash, next: (DownloadState, Asked)) -> bool {
    match next.0 {
        DownloadState::Open { hash: wanted } => wanted == hash && next.1 is Open,
        DownloadState::SendRequest { hash: wanted } => wanted == hash && next.1 is Send,
        DownloadState::AwaitReply { hash: wanted } => wanted == hash && next.1 is Receive,
        DownloadState::Import { hash: wanted } => wanted == hash && next.1 is PumpAndImport,
        _ => false,
    }
}

/// A download that has imported nothing yet ends as it should.
proof fn lemma_download(
    hash: BlobHash,
    next: (DownloadState, Asked),
    messages: Seq<Seq<u8>>,
    store: StoreModel,
    moments: Seq<DownloadMoment>,
    outcome: Result<(), BlobsError>,
    after: StoreModel,
)
    requires
        before_import(hash, next),
        download_passes(next, store, messages, moments, outcome, after),
    ensures
        download_report(hash, messages, store, outcome, after),
        after.tags == store.tags,
    decreases moments.len(),
{
    reveal_with_fuel(download_passes, 4);
    let moment = moments[0];
    let then = download_step(next.0, moment.event);
    let rest = moments.skip(1);
    if before_import(hash, then) {
        lemma_download(hash, then, messages, moment.store, rest, outcome, after);
    } else if moment.event is Imported {
        let got = moment.event->Imported_0;
        let data = choose|data: Seq<u8>| #[trigger]
            takes_in(store, got, data) && messages_carry(messages, data) && moment.store
                == with_blob(store, got, data);
        assert(takes_in(store, got, data));
        if got != hash {
            assert(rest.len() > 0);
            assert(store.blobs.insert(got, data).remove(got) =~= store.blobs.remove(got));
            assert(without_blob(moment.store, got) == without_blob(store, got));
        }
    }
}

/// Messages carry one blob at most.
proof fn lemma_carried_once(messages: Seq<Seq<u8>>, left: Seq<u8>, right: Seq<u8>)
    requires
        messages_carry(messages, left),
        messages_carry(messages, right),
    ensures
        left == right,
{
    let a = choose|chunks: Seq<Seq<u8>>|
        pump_forwards(PumpState::AwaitMessage, messages) == #[trigger] all_ok(chunks) && left
            == joined(chunks);
    let b = choose|chunks: Seq<Seq<u8>>|
        pump_forwards(PumpState::AwaitMessage, messages) == #[trigger] all_ok(chunks) && right
            == joined(chunks);
    assert(a.len() == all_ok(a).len() && b.len() == all_ok(b).len());
    assert forall|i: int| 0 <= i < a.len() implies a[i] == b[i] by {
        assert(all_ok(a)[i] == Forwarded::Ok(a[i]));
        assert(all_ok(b)[i] == Forwarded::Ok(b[i]));
    }
    assert(a =~= b);
}

/// What a node that holds a blob sends to a peer that asks for it, every message being sent.
pub open spec fn blob_served(hash: BlobHash, blob: Seq<u8>) -> Seq<Seq<u8>> {
    serve_messages(ServeState::AwaitRequest, blob_events(hash, pieces_of(blob), true))
}

/// The moments of a download at which nothing goes wrong.
pub open spec fn good_moments(
    hash: BlobHash,
    blob: Seq<u8>,
    store: StoreModel,
) -> Seq<DownloadMoment> {
    seq![
        DownloadMoment { event: Happened::Opened(true), store },
        DownloadMoment { event: Happened::Sent(true), store },
        DownloadMoment { event: Happened::Received(blob_served(hash, blob)[0]), store },
        DownloadMoment { event: Happened::Imported(hash), store: with_blob(store, hash, blob) },
    ]
}

/// A blob that one node holds and serves, another node fetches: the messages carry the blob, the
/// download succeeds and brings the blob into the other node's store, and reading it there gives the
/// blob back.
pub proof fn law_fetch(hash: BlobHash, route: Seq<u8>, blob: Seq<u8>, store: StoreModel)
    requires
        size_fits(blob.len()),
        takes_in(store, hash, blob),
    ensures
        serve_possible(ServeState::AwaitRequest, blob_events(hash, pieces_of(blob), true)),
        messages_carry(blob_served(hash, blob).skip(1), blob),
        download_passes(
            (DownloadState::Open { hash }, Asked::Open(route)),
            store,
            blob_served(hash, blob).skip(1),
            good_moments(hash, blob, store),
            Ok(()),
            with_blob(store, hash, blob),
        ),
        join_all(Seq::empty(), pieces_of(with_blob(store, hash, blob).blobs[hash]))
            == JoinAction::<Seq<u8>>::Finish(Ok(blob)),
{
    let messages = blob_served(hash, blob).skip(1);
    law_blob_transfer(hash, blob, true);
    law_pieces_make_blob(blob);
    law_transfer(hash, pieces_of(blob), true);
    law_read_bytes(blob);
    assert(messages_carry(messages, blob)) by {
        assert(pump_forwards(PumpState::AwaitMessage, messages) == all_ok(pieces_of(blob)));
    }
    let moments = good_moments(hash, blob, store);
    let after = with_blob(store, hash, blob);
    let rest1 = moments.skip(1);
    let rest2 = rest1.skip(1);
    let rest3 = rest2.skip(1);
    assert(rest1[0] == moments[1] && rest2[0] == moments[2] && rest3[0] == moments[3]);
    assert(carried_in(store, messages, hash, after)) by {
        assert(takes_in(store, hash, blob) && messages_carry(messages, blob));
    }
    assert(download_passes(
        (DownloadState::Done, Asked::Finish(Ok(()))),
        after,
        messages,
        rest3.skip(1),
        Ok(()),
        after,
    ));
    assert(download_passes(
        (DownloadState::Import { hash }, Asked::PumpAndImport),
        store,
        messages,
        rest3,
        Ok(()),
        after,
    ));
    assert(download_passes(
        (DownloadState::AwaitReply { hash }, Asked::Receive),
        store,
        messages,
        rest2,
        Ok(()),
        after,
    ));
    assert(download_passes(
        download_step(DownloadState::Open { hash }, Happened::Opened(true)),
        store,
        messages,
        rest1,
        Ok(()),
        after,
    ));
}

/// A download from a node that holds the wanted blob and sends all of it never ends with another
/// blob: it succeeds with that blob in the store, or it fails and leaves the store as it was.
pub proof fn law_fetch_never_wrong(
    hash: BlobHash,
    route: Seq<u8>,
    blob: Seq<u8>,
    store: StoreModel,
    moments: Seq<DownloadMoment>,
    outcome: Result<(), BlobsError>,
    after: StoreModel,
)
    requires
        size_fits(blob.len()),
        takes_in(store, hash, blob),
        download_passes(
            (DownloadState::Open { hash }, Asked::Open(route)),
            store,
            blob_served(hash, blob).skip(1),
            moments,
            outcome,
            after,
        ),
    ensures
        match outcome {
            Ok(()) => after == with_blob(store, hash, blob),
            Err(error) => !(error is InvalidHash) && !(error is Delete) && after == store,
        },
{
    let messages = blob_served(hash, blob).skip(1);
    law_fetch(hash, route, blob, store);
    law_download_store(hash, route, messages, store, moments, outcome, after);
    assert forall|data: Seq<u8>| messages_carry(messages, data) implies data == blob by {
        lemma_carried_once(messages, data, blob);
    }
}

/// Whether a store that works brings a file on disk in, and then holds `after`. A file that is
/// copied is left as it is.
pub open spec fn file_imported(
    files: Map<Seq<char>, Seq<u8>>,
    path: Seq<char>,
    import: FileImport,
    store: StoreModel,
    hash: BlobHash,
    files_after: Map<Seq<char>, Seq<u8>>,
    after: StoreModel,
) -> bool {
    &&& files.contains_key(path)
    &&& stream_imported(files[path], import.format, store, hash, after)
    &&& import.mode is Copy ==> files_after == files
}

/// Whether a store that works brings a stream of bytes in, and then holds `after`. Nothing is said of
/// bytes that are not to be read as plain bytes.
pub open spec fn stream_imported(
    data: Seq<u8>,
    format: BlobFormat,
    store: StoreModel,
    hash: BlobHash,
    after: StoreModel,
) -> bool {
    format is Raw ==> takes_in(store, hash, data) && after == with_blob(store, hash, data)
}

/// Uploading a file on disk gives the hash of its content, which is also the hash that uploading the
/// content as a stream gives. Reading the blob then gives the content back. The file stays as it
/// was, and so does every tag.
pub proof fn law_upload(
    files: Map<Seq<char>, Seq<u8>>,
    path: Seq<char>,
    store: StoreModel,
    hash: BlobHash,
    files_after: Map<Seq<char>, Seq<u8>>,
    after: StoreModel,
    streamed: BlobHash,
    streamed_after: StoreModel,
)
    requires
        file_imported(files, path, file_import(), store, hash, files_after, after),
        stream_imported(files[path], stream_format(), store, streamed, streamed_after),
        size_fits(files[path].len()),
    ensures
        hash == (store.names)(files[path]),
        streamed == hash,
        streamed_after == after,
        after.blobs == store.blobs.insert(hash, files[path]),
        after.tags == store.tags,
        files_after == files,
        join_all(Seq::empty(), pieces_of(after.blobs[hash])) == JoinAction::<Seq<u8>>::Finish(
            Ok(files[path]),
        ),
{
    law_read_bytes(files[path]);
}

} // verus!
