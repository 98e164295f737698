//! What the operations on collections do to a store, taken as wholes.

use vstd::prelude::*;
use vstd::utf8::{encode_utf8, encode_utf8_decode_utf8};
use crate::catalog::{
    catalog_accepts, catalog_follows, catalog_imports, task_performed, ActionView,
    CatalogAction, CatalogEvent, CatalogReply, CatalogState, CatalogTask, EventView,
};
use crate::cbor::{cbor_collection, empty_collection, writes_collection};
use crate::collection::lists_paths;
use crate::error::{BlobsError, ErrorView};
use crate::hash::{hash_of, lemma_hash_of_view, BlobHash};
use crate::store::{file_import, stream_format, BlobFormat};
use crate::store_model::{shows_tags, takes_in, with_blob, with_tag, StoreModel};
use crate::tags::{collection_tag, ends_search, find_tag, ListedTag, ListedView};

verus! {

/// A moment of an operation: what happened, what followed, and what the store then held.
pub struct CatalogMoment {
    pub event: EventView,
    pub state: CatalogState<Seq<char>>,
    pub action: ActionView,
    pub store: StoreModel,
}

/// What an operation reports in the end.
pub type Outcome = Result<CatalogReply<Seq<Seq<char>>>, ErrorView>;

/// Whether a store that works answers an action with an event, and then holds `after`.
pub open spec fn store_answers(
    store: StoreModel,
    action: ActionView,
    event: EventView,
    after: StoreModel,
) -> bool {
    match action {
        CatalogAction::ImportFile => {
            &&& event matches CatalogEvent::Imported(hash)
            &&& exists|data: Seq<u8>| #[trigger]
                takes_in(store, hash, data) && after == with_blob(store, hash, data)
        },
        CatalogAction::ListTags => {
            &&& event matches CatalogEvent::TagsListed(listing) && shows_tags(listing, store.tags)
            &&& after == store
        },
        CatalogAction::ReadBlob(hash) => {
            &&& event == if store.blobs.contains_key(hash) {
                EventView::BlobRead(store.blobs[hash])
            } else {
                EventView::ReadBlobFailed
            }
            &&& after == store
        },
        CatalogAction::Import(data) => {
            &&& event matches CatalogEvent::Imported(hash) && takes_in(store, hash, data) && after
                == with_blob(store, hash, data)
        },
        CatalogAction::StoreTag(tag) => {
            &&& event == EventView::TagStored(true)
            &&& after == with_tag(store, tag.name, tag.hash, tag.format)
        },
        CatalogAction::Finish(_) => false,
    }
}

/// Whether an operation goes from a state and an action through moments to its end, on a store
/// that works.
pub open spec fn catalog_passes(
    next: (CatalogState<Seq<char>>, ActionView),
    store: StoreModel,
    moments: Seq<CatalogMoment>,
    outcome: Outcome,
    after: StoreModel,
) -> bool
    decreases moments.len(),
{
    if moments.len() == 0 {
        next.1 == ActionView::Finish(outcome) && after == store
    } else {
        let moment = moments[0];
        &&& catalog_accepts(next.0, moment.event)
        &&& store_answers(store, next.1, moment.event, moment.store)
        &&& catalog_follows(next.0, moment.event, (moment.state, moment.action))
        &&& catalog_passes(
            (moment.state, moment.action),
            moment.store,
            moments.skip(1),
            outcome,
            after,
        )
    }
}

/// Whether an operation that starts with a state and an action, on a store that works, can end with
/// an outcome and leave the store holding `after`.
pub open spec fn catalog_run(
    next: (CatalogState<Seq<char>>, ActionView),
    store: StoreModel,
    outcome: Outcome,
    after: StoreModel,
) -> bool {
    exists|moments: Seq<CatalogMoment>| #[trigger]
        catalog_passes(next, store, moments, outcome, after)
}

/// The collection that a store holds under a name, or why there is none.
pub open spec fn collection_at(store: StoreModel, name: Seq<char>) -> Result<
    Map<Seq<char>, Seq<u8>>,
    ErrorView,
> {
    let tag = encode_utf8(name);
    if !store.tags.contains_key(tag) {
        Err(BlobsError::TagNotFound(name))
    } else if !store.blobs.contains_key(store.tags[tag]) {
        Err(BlobsError::ReadBlob)
    } else {
        match cbor_collection(store.blobs[store.tags[tag]]) {
            Ok(collection) => Ok(collection),
            Err(cause) => Err(BlobsError::DecodeCollection(cause)),
        }
    }
}

/// The beginning of a task on the collection with a name.
pub open spec fn task_start(name: Seq<char>, task: CatalogTask<Seq<char>>) -> (
    CatalogState<Seq<char>>,
    ActionView,
) {
    (CatalogState::ListTags { name, task }, ActionView::ListTags)
}

/// Whether an action is the one that a state waits for the answer to.
pub open spec fn catalog_asks(next: (CatalogState<Seq<char>>, ActionView)) -> bool {
    match next.0 {
        CatalogState::Upload { .. } => next.1 is ImportFile,
        CatalogState::Locate { .. } => next.1 is ListTags,
        CatalogState::ListTags { .. } => next.1 is ListTags,
        CatalogState::ReadBlob { .. } => next.1 is ReadBlob,
        CatalogState::Import { .. } => next.1 is Import,
        CatalogState::StoreTag { .. } => next.1 is StoreTag,
        CatalogState::Done => next.1 is Finish,
    }
}

/// How many events an operation takes in at most, from a state on.
pub open spec fn catalog_steps_left(state: CatalogState<Seq<char>>) -> nat {
    match state {
        CatalogState::Upload { .. } => 5,
        CatalogState::Locate { .. } => 1,
        CatalogState::ListTags { .. } => 4,
        CatalogState::ReadBlob { .. } => 3,
        CatalogState::Import { .. } => 2,
        CatalogState::StoreTag { .. } => 1,
        CatalogState::Done => 0,
    }
}

/// Whether an event answers an action, be it well or badly.
pub open spec fn catalog_answerable(action: ActionView, event: EventView) -> bool {
    match action {
        CatalogAction::ImportFile => event is Imported || event is ImportFailed,
        CatalogAction::ListTags => event is TagsListed || event is ListTagsFailed,
        CatalogAction::ReadBlob(_) => event is BlobRead || event is ReadBlobFailed,
        CatalogAction::Import(_) => event is Imported || event is ImportFailed,
        CatalogAction::StoreTag(_) => event is TagStored,
        CatalogAction::Finish(_) => false,
    }
}

/// An operation accepts whatever answers its action, and nothing else.
pub proof fn law_catalog_accepts(next: (CatalogState<Seq<char>>, ActionView), event: EventView)
    requires
        catalog_asks(next),
    ensures
        catalog_accepts(next.0, event) == catalog_answerable(next.1, event),
{
}

/// What it is reported as when the store does not do what an action asks for.
pub open spec fn failure_of(action: ActionView) -> Outcome {
    match action {
        CatalogAction::ImportFile => Err(BlobsError::Import),
        CatalogAction::ListTags => Err(BlobsError::ListTags),
        CatalogAction::ReadBlob(_) => Err(BlobsError::ReadBlob),
        CatalogAction::Import(_) => Err(BlobsError::Import),
        CatalogAction::StoreTag(_) => Err(BlobsError::StoreTag),
        CatalogAction::Finish(outcome) => outcome,
    }
}

/// Where the store does not do what an operation asks for, the operation is at its end, and reports
/// what it was that failed.
pub proof fn law_store_failure(
    next: (CatalogState<Seq<char>>, ActionView),
    event: EventView,
    then: (CatalogState<Seq<char>>, ActionView),
)
    requires
        catalog_asks(next),
        catalog_answerable(next.1, event),
        event is ListTagsFailed || event is ReadBlobFailed || event is ImportFailed || event
            == EventView::TagStored(false),
        catalog_follows(next.0, event, then),
    ensures
        then.0 is Done,
        then.1 == ActionView::Finish(failure_of(next.1)),
{
}

/// A search for a collection's name runs past tags with other names and ends at the first item that
/// has the name or cannot be read, whatever comes behind it.
pub proof fn law_search_order(
    before: Seq<ListedView>,
    item: ListedView,
    behind: Seq<ListedView>,
    name: Seq<char>,
)
    requires
        forall|i: int|
            0 <= i < before.len() ==> (#[trigger] before[i] matches ListedTag::Tag {
                name: other,
                ..
            } && other != encode_utf8(name)),
    ensures
        find_tag(before, name) == Err::<BlobHash, ErrorView>(BlobsError::TagNotFound(name)),
        match item {
            ListedTag::Tag { name: found, hash } => found == encode_utf8(name) ==> find_tag(
                before + seq![item] + behind,
                name,
            ) == Ok::<BlobHash, ErrorView>(hash),
            ListedTag::Unreadable(cause) => find_tag(before + seq![item] + behind, name) == Err::<
                BlobHash,
                ErrorView,
            >(BlobsError::ReadTag(cause)),
        },
    decreases before.len(),
{
    let all = before + seq![item] + behind;
    if before.len() == 0 {
        assert(all[0] == item);
    } else {
        let rest = before.skip(1);
        assert(before[0] matches ListedTag::Tag { .. });
        assert(all[0] == before[0]);
        assert forall|i: int| 0 <= i < rest.len() implies (
        #[trigger] rest[i] matches ListedTag::Tag { name: other, .. } && other != encode_utf8(
            name,
        )) by {
            assert(rest[i] == before[i + 1]);
        }
        law_search_order(rest, item, behind, name);
        assert(all.skip(1) =~= rest + seq![item] + behind);
    }
}

/// An operation that finds its collection by the tags goes on with the blob that the first tag with
/// the name has, and ends with the cause where a tag before it cannot be read.
pub proof fn law_tags_decide(
    before: Seq<ListedView>,
    item: ListedView,
    behind: Seq<ListedView>,
    name: Seq<char>,
    task: CatalogTask<Seq<char>>,
    then: (CatalogState<Seq<char>>, ActionView),
    located: (CatalogState<Seq<char>>, ActionView),
)
    requires
        forall|i: int|
            0 <= i < before.len() ==> (#[trigger] before[i] matches ListedTag::Tag {
                name: other,
                ..
            } && other != encode_utf8(name)),
        item matches ListedTag::Tag { name: found, .. } ==> found == encode_utf8(name),
        catalog_follows(
            CatalogState::ListTags { name, task },
            EventView::TagsListed(before + seq![item] + behind),
            then,
        ),
        catalog_follows(
            CatalogState::Locate { name },
            EventView::TagsListed(before + seq![item] + behind),
            located,
        ),
    ensures
        match item {
            ListedTag::Tag { hash, .. } => then.1 == ActionView::ReadBlob(hash) && located.1
                == ActionView::Finish(reports(hash)),
            ListedTag::Unreadable(cause) => then.1 == ActionView::Finish(
                Err(BlobsError::ReadTag(cause)),
            ) && located.1 == ActionView::Finish(Err(BlobsError::ReadTag(cause))),
        },
{
    law_search_order(before, item, behind, name);
}

/// A list of the paths of a collection has each path of the collection at exactly one place, and
/// nothing else.
pub proof fn law_lists_paths(files: Seq<Seq<char>>, collection: Map<Seq<char>, Seq<u8>>)
    requires
        lists_paths(files, collection),
    ensures
        forall|path: Seq<char>| #[trigger] files.contains(path) <==> collection.contains_key(path),
        forall|i: int, j: int|
            0 <= i < files.len() && 0 <= j < files.len() && i != j ==> files[i] != files[j],
{
    assert forall|path: Seq<char>| #[trigger] files.contains(path) <==> collection.contains_key(
        path,
    ) by {
        assert(files.to_set().contains(path) == files.contains(path));
        assert(collection.dom().contains(path) == collection.contains_key(path));
    }
}

/// An operation accepts whatever a store that works answers to its action.
pub proof fn law_answers_are_accepted(
    next: (CatalogState<Seq<char>>, ActionView),
    store: StoreModel,
    event: EventView,
    after: StoreModel,
)
    requires
        catalog_asks(next),
        store_answers(store, next.1, event, after),
    ensures
        catalog_accepts(next.0, event),
{
}

/// Every event brings an operation nearer to its end, at which it reports its outcome.
pub proof fn law_operation_ends(
    state: CatalogState<Seq<char>>,
    event: EventView,
    next: (CatalogState<Seq<char>>, ActionView),
)
    requires
        catalog_accepts(state, event),
        catalog_follows(state, event, next),
    ensures
        catalog_asks(next),
        catalog_steps_left(next.0) < catalog_steps_left(state),
{
}

/// A listing that shows the tags of a store says of each collection's name what the store does.
pub proof fn law_listing_finds_tag(
    listing: Seq<ListedView>,
    tags: Map<Seq<u8>, BlobHash>,
    name: Seq<char>,
)
    requires
        shows_tags(listing, tags),
    ensures
        find_tag(listing, name) == if tags.contains_key(encode_utf8(name)) {
            Ok::<BlobHash, ErrorView>(tags[encode_utf8(name)])
        } else {
            Err(BlobsError::TagNotFound(name))
        },
{
    lemma_find_among(listing, tags, name);
    let tag = encode_utf8(name);
    if tags.contains_key(tag) {
        let item = ListedView::Tag { name: tag, hash: tags[tag] };
        assert(listing.contains(item));
        let i = choose|i: int| 0 <= i < listing.len() && listing[i] == item;
        lemma_find_ends(listing, name, i);
    }
}

/// In a listing of nothing but tags of a store, a search finds the right blob or none.
proof fn lemma_find_among(
    listing: Seq<ListedView>,
    tags: Map<Seq<u8>, BlobHash>,
    name: Seq<char>,
)
    requires
        forall|i: int|
            0 <= i < listing.len() ==> (#[trigger] listing[i] matches ListedTag::Tag { name, hash }
                && tags.contains_key(name) && tags[name] == hash),
    ensures
        find_tag(listing, name) matches Ok(hash) ==> tags.contains_key(encode_utf8(name))
            && tags[encode_utf8(name)] == hash,
        find_tag(listing, name) matches Err(error) ==> error == ErrorView::TagNotFound(name),
    decreases listing.len(),
{
    if listing.len() > 0 {
        assert(listing[0] matches ListedTag::Tag { .. });
        let rest = listing.skip(1);
        assert forall|i: int| 0 <= i < rest.len() implies (
        #[trigger] rest[i] matches ListedTag::Tag { name, hash } && tags.contains_key(name)
            && tags[name] == hash) by {
            assert(rest[i] == listing[i + 1]);
        }
        lemma_find_among(rest, tags, name);
    }
}

/// A search does not run past an item at which it ends.
proof fn lemma_find_ends(listing: Seq<ListedView>, name: Seq<char>, i: int)
    requires
        0 <= i < listing.len(),
        ends_search(listing[i], name),
    ensures
        find_tag(listing, name) != Err::<BlobHash, ErrorView>(BlobsError::TagNotFound(name)),
    decreases i,
{
    if !ends_search(listing[0], name) {
        assert(listing.skip(1)[i - 1] == listing[i]);
        lemma_find_ends(listing.skip(1), name, i - 1);
    }
}

/// The report of a hash.
pub open spec fn reports(hash: BlobHash) -> Outcome {
    Ok(CatalogReply::Hash(hash))
}

/// What finding the file at a path reports of a collection, or of the lack of one.
pub open spec fn file_report(
    found: Result<Map<Seq<char>, Seq<u8>>, ErrorView>,
    path: Seq<char>,
) -> Outcome {
    match found {
        Ok(collection) => if collection.contains_key(path) {
            reports(hash_of(collection[path]))
        } else {
            Err(BlobsError::FileNotFound)
        },
        Err(error) => Err(error),
    }
}

/// What the hash of a collection is reported to be.
pub open spec fn locate_report(store: StoreModel, name: Seq<char>) -> Outcome {
    if store.tags.contains_key(encode_utf8(name)) {
        reports(store.tags[encode_utf8(name)])
    } else {
        Err(BlobsError::TagNotFound(name))
    }
}

/// Whether a store has come to hold a collection under a name, written down as the blob with a hash,
/// which the tag says is plain bytes, with all its other tags and all its blobs kept.
pub open spec fn holds_now(
    store: StoreModel,
    name: Seq<char>,
    collection: Map<Seq<char>, Seq<u8>>,
    hash: BlobHash,
    after: StoreModel,
) -> bool {
    &&& collection_at(after, name) == Ok::<Map<Seq<char>, Seq<u8>>, ErrorView>(collection)
    &&& writes_collection(after.blobs[hash], collection)
    &&& hash == (store.names)(after.blobs[hash])
    &&& after.names == store.names
    &&& after.tags == store.tags.insert(encode_utf8(name), hash)
    &&& after.formats == store.formats.insert(encode_utf8(name), BlobFormat::Raw)
    &&& store.blobs.submap_of(after.blobs)
}

/// What becomes of a store by a change that, where there is a collection under the name, makes it
/// `changed`: the outcome is the hash of the changed collection. Where there is no collection, the
/// outcome says why, and the store stays as it was.
pub open spec fn change_report(
    store: StoreModel,
    name: Seq<char>,
    changed: spec_fn(Map<Seq<char>, Seq<u8>>) -> Map<Seq<char>, Seq<u8>>,
    outcome: Outcome,
    after: StoreModel,
) -> bool {
    match collection_at(store, name) {
        Ok(collection) => {
            &&& outcome matches Ok(CatalogReply::Hash(hash))
            &&& holds_now(store, name, changed(collection), hash, after)
        },
        Err(error) => outcome == Err::<CatalogReply<Seq<Seq<char>>>, ErrorView>(error) && after
            == store,
    }
}

/// Telling the hash of a collection reports the blob that its tag names, if it has one. It leaves
/// the store as it was.
pub proof fn law_collection_hash(
    name: Seq<char>,
    store: StoreModel,
    outcome: Outcome,
    after: StoreModel,
)
    requires
        catalog_run(
            (CatalogState::Locate { name }, ActionView::ListTags),
            store,
            outcome,
            after,
        ),
    ensures
        after == store,
        outcome == locate_report(store, name),
{
    let start = (CatalogState::Locate { name }, ActionView::ListTags);
    let moments = choose|moments: Seq<CatalogMoment>| #[trigger]
        catalog_passes(start, store, moments, outcome, after);
    reveal_with_fuel(catalog_passes, 3);
    let listed = moments[0];
    law_listing_finds_tag(listed.event->TagsListed_0, store.tags, name);
    lemma_finished(
        (listed.state, listed.action),
        listed.store,
        moments.skip(1),
        outcome,
        after,
    );
}

/// An operation that has reported its outcome is at its end.
proof fn lemma_finished(
    next: (CatalogState<Seq<char>>, ActionView),
    store: StoreModel,
    moments: Seq<CatalogMoment>,
    outcome: Outcome,
    after: StoreModel,
)
    requires
        catalog_passes(next, store, moments, outcome, after),
        next.1 is Finish,
    ensures
        next.1 == ActionView::Finish(outcome),
        after == store,
{
}

/// An operation that is about to bring a collection into the store ends with the collection there.
proof fn lemma_imports(
    name: Seq<char>,
    collection: Map<Seq<char>, Seq<u8>>,
    next: (CatalogState<Seq<char>>, ActionView),
    store: StoreModel,
    moments: Seq<CatalogMoment>,
    outcome: Outcome,
    after: StoreModel,
)
    requires
        catalog_imports(name, collection, next),
        catalog_passes(next, store, moments, outcome, after),
    ensures
        outcome matches Ok(CatalogReply::Hash(hash)) && holds_now(
            store,
            name,
            collection,
            hash,
            after,
        ),
{
    reveal_with_fuel(catalog_passes, 4);
    let imported = moments[0];
    let rest = moments.skip(1);
    let stored = rest[0];
    let hash = imported.event->Imported_0;
    assert(stored.event == EventView::TagStored(true));
    lemma_finished((stored.state, stored.action), stored.store, rest.skip(1), outcome, after);
    assert(store.blobs.submap_of(after.blobs));
}

/// A task ends as its part after the reading of the collection does, or with the reason why there
/// is no collection.
proof fn lemma_task(
    name: Seq<char>,
    task: CatalogTask<Seq<char>>,
    store: StoreModel,
    moments: Seq<CatalogMoment>,
    outcome: Outcome,
    after: StoreModel,
)
    requires
        catalog_passes(task_start(name, task), store, moments, outcome, after),
    ensures
        match collection_at(store, name) {
            Ok(collection) => {
                let moment = moments[1];
                &&& moments.len() >= 2
                &&& task_performed(name, task, collection, (moment.state, moment.action))
                &&& catalog_passes(
                    (moment.state, moment.action),
                    store,
                    moments.skip(1).skip(1),
                    outcome,
                    after,
                )
            },
            Err(error) => outcome == Err::<CatalogReply<Seq<Seq<char>>>, ErrorView>(error)
                && after == store,
        },
{
    reveal_with_fuel(catalog_passes, 4);
    let listed = moments[0];
    law_listing_finds_tag(listed.event->TagsListed_0, store.tags, name);
    let rest = moments.skip(1);
    if !store.tags.contains_key(encode_utf8(name)) {
        lemma_finished((listed.state, listed.action), listed.store, rest, outcome, after);
    } else {
        let read = rest[0];
        assert(rest.len() > 0);
        assert(read == moments[1]);
        if collection_at(store, name) is Err {
            lemma_finished((read.state, read.action), read.store, rest.skip(1), outcome, after);
        }
    }
}

/// Finding a file reports its hash, or that there is none at the path, or why there is no such
/// collection. It leaves the store as it was.
pub proof fn law_get_file(
    name: Seq<char>,
    path: Seq<char>,
    store: StoreModel,
    outcome: Outcome,
    after: StoreModel,
)
    requires
        catalog_run(task_start(name, CatalogTask::GetFile { path }), store, outcome, after),
    ensures
        after == store,
        outcome == file_report(collection_at(store, name), path),
{
    let task = CatalogTask::GetFile { path };
    let moments = choose|moments: Seq<CatalogMoment>| #[trigger]
        catalog_passes(task_start(name, task), store, moments, outcome, after);
    lemma_task(name, task, store, moments, outcome, after);
    if collection_at(store, name) is Ok {
        lemma_finished(
            (moments[1].state, moments[1].action),
            store,
            moments.skip(1).skip(1),
            outcome,
            after,
        );
    }
}

/// Listing the files of a collection reports every path in it, each once, or why there is no such
/// collection. It leaves the store as it was.
pub proof fn law_list_files(
    name: Seq<char>,
    store: StoreModel,
    outcome: Outcome,
    after: StoreModel,
)
    requires
        catalog_run(
            task_start(name, CatalogTask::<Seq<char>>::ListFiles),
            store,
            outcome,
            after,
        ),
    ensures
        after == store,
        match collection_at(store, name) {
            Ok(collection) => outcome matches Ok(CatalogReply::Files(files)) && lists_paths(
                files,
                collection,
            ),
            Err(error) => outcome == Err::<CatalogReply<Seq<Seq<char>>>, ErrorView>(error),
        },
{
    let task = CatalogTask::<Seq<char>>::ListFiles;
    let moments = choose|moments: Seq<CatalogMoment>| #[trigger]
        catalog_passes(task_start(name, task), store, moments, outcome, after);
    lemma_task(name, task, store, moments, outcome, after);
    if collection_at(store, name) is Ok {
        lemma_finished(
            (moments[1].state, moments[1].action),
            store,
            moments.skip(1).skip(1),
            outcome,
            after,
        );
    }
}

/// Putting a file at a path makes the collection the one with that file at that path, and changes
/// no other path.
pub proof fn law_set_file(
    name: Seq<char>,
    path: Seq<char>,
    hash: BlobHash,
    store: StoreModel,
    outcome: Outcome,
    after: StoreModel,
)
    requires
        catalog_run(task_start(name, CatalogTask::SetFile { path, hash }), store, outcome, after),
    ensures
        change_report(
            store,
            name,
            |collection: Map<Seq<char>, Seq<u8>>| collection.insert(path, hash@),
            outcome,
            after,
        ),
{
    let task = CatalogTask::SetFile { path, hash };
    let moments = choose|moments: Seq<CatalogMoment>| #[trigger]
        catalog_passes(task_start(name, task), store, moments, outcome, after);
    lemma_task(name, task, store, moments, outcome, after);
    if collection_at(store, name) is Ok {
        lemma_imports(
            name,
            collection_at(store, name)->Ok_0.insert(path, hash@),
            (moments[1].state, moments[1].action),
            store,
            moments.skip(1).skip(1),
            outcome,
            after,
        );
    }
}

/// Taking the file at a path away makes the collection the one without a file at that path, and
/// changes no other path.
pub proof fn law_delete_file(
    name: Seq<char>,
    path: Seq<char>,
    store: StoreModel,
    outcome: Outcome,
    after: StoreModel,
)
    requires
        catalog_run(task_start(name, CatalogTask::DeleteFile { path }), store, outcome, after),
    ensures
        change_report(
            store,
            name,
            |collection: Map<Seq<char>, Seq<u8>>| collection.remove(path),
            outcome,
            after,
        ),
{
    let task = CatalogTask::DeleteFile { path };
    let moments = choose|moments: Seq<CatalogMoment>| #[trigger]
        catalog_passes(task_start(name, task), store, moments, outcome, after);
    lemma_task(name, task, store, moments, outcome, after);
    if collection_at(store, name) is Ok {
        lemma_imports(
            name,
            collection_at(store, name)->Ok_0.remove(path),
            (moments[1].state, moments[1].action),
            store,
            moments.skip(1).skip(1),
            outcome,
            after,
        );
    }
}

/// Storing a collection under a name makes it the one that the store holds there, whatever was
/// there before.
pub proof fn law_update_collection(
    name: Seq<char>,
    collection: Map<Seq<char>, Seq<u8>>,
    start: (CatalogState<Seq<char>>, ActionView),
    store: StoreModel,
    outcome: Outcome,
    after: StoreModel,
)
    requires
        catalog_imports(name, collection, start),
        catalog_run(start, store, outcome, after),
    ensures
        outcome matches Ok(CatalogReply::Hash(hash)) && holds_now(
            store,
            name,
            collection,
            hash,
            after,
        ),
{
    let moments = choose|moments: Seq<CatalogMoment>| #[trigger]
        catalog_passes(start, store, moments, outcome, after);
    lemma_imports(name, collection, start, store, moments, outcome, after);
}

/// Uploading a file to a path of a collection brings a blob into the store, and puts the hash that
/// the store reports for it at the path. Where there is no such collection, the blob stays in the
/// store, and nothing else changes.
pub proof fn law_upload_to(
    name: Seq<char>,
    path: Seq<char>,
    data: Seq<u8>,
    hash: BlobHash,
    store: StoreModel,
    moments: Seq<CatalogMoment>,
    outcome: Outcome,
    after: StoreModel,
)
    requires
        catalog_passes(
            (CatalogState::Upload { name, path }, ActionView::ImportFile),
            store,
            moments,
            outcome,
            after,
        ),
        moments[0].event == EventView::Imported(hash),
        moments[0].store == with_blob(store, hash, data),
    ensures
        hash == (store.names)(data),
        after.blobs.contains_key(hash) && after.blobs[hash] == data,
        change_report(
            with_blob(store, hash, data),
            name,
            |collection: Map<Seq<char>, Seq<u8>>| collection.insert(path, hash@),
            outcome,
            after,
        ),
{
    let middle = with_blob(store, hash, data);
    let task = CatalogTask::SetFile { path, hash };
    let taken = choose|taken: Seq<u8>| #[trigger]
        takes_in(store, hash, taken) && middle == with_blob(store, hash, taken);
    assert(middle.blobs[hash] == taken);
    assert(catalog_passes(task_start(name, task), middle, moments.skip(1), outcome, after));
    law_set_file(name, path, hash, middle, outcome, after);
    assert(middle.blobs.dom().contains(hash));
}

/// A change of one collection leaves the collections under other names as they are.
///
/// Left out is a name whose tag names a blob that the store lacks: the change may bring that very
/// blob in.
pub proof fn law_other_collections_stay(
    name: Seq<char>,
    other: Seq<char>,
    collection: Map<Seq<char>, Seq<u8>>,
    hash: BlobHash,
    store: StoreModel,
    after: StoreModel,
)
    requires
        holds_now(store, name, collection, hash, after),
        other != name,
        collection_at(store, other) != Err::<Map<Seq<char>, Seq<u8>>, ErrorView>(
            BlobsError::ReadBlob,
        ),
    ensures
        collection_at(after, other) == collection_at(store, other),
{
    encode_utf8_decode_utf8(name);
    encode_utf8_decode_utf8(other);
    assert(encode_utf8(name) != encode_utf8(other));
}

/// A file that was put at a path of a collection is found there afterwards, and what is found at
/// another path is what was found there before.
pub proof fn law_get_after_set(
    name: Seq<char>,
    path: Seq<char>,
    hash: BlobHash,
    store: StoreModel,
    set_outcome: Outcome,
    middle: StoreModel,
    sought: Seq<char>,
    get_outcome: Outcome,
    after: StoreModel,
)
    requires
        collection_at(store, name) is Ok,
        catalog_run(
            task_start(name, CatalogTask::SetFile { path, hash }),
            store,
            set_outcome,
            middle,
        ),
        catalog_run(
            task_start(name, CatalogTask::GetFile { path: sought }),
            middle,
            get_outcome,
            after,
        ),
    ensures
        sought == path ==> get_outcome == reports(hash),
        sought != path ==> get_outcome == file_report(collection_at(store, name), sought),
{
    law_set_file(name, path, hash, store, set_outcome, middle);
    law_get_file(name, sought, middle, get_outcome, after);
    lemma_hash_of_view(hash);
}

/// No file is found at a path after the file there was taken away, and what is found at another
/// path is what was found there before.
pub proof fn law_get_after_delete(
    name: Seq<char>,
    path: Seq<char>,
    store: StoreModel,
    delete_outcome: Outcome,
    middle: StoreModel,
    sought: Seq<char>,
    get_outcome: Outcome,
    after: StoreModel,
)
    requires
        collection_at(store, name) is Ok,
        catalog_run(
            task_start(name, CatalogTask::DeleteFile { path }),
            store,
            delete_outcome,
            middle,
        ),
        catalog_run(
            task_start(name, CatalogTask::GetFile { path: sought }),
            middle,
            get_outcome,
            after,
        ),
    ensures
        sought == path ==> get_outcome == Err::<CatalogReply<Seq<Seq<char>>>, ErrorView>(
            BlobsError::FileNotFound,
        ),
        sought != path ==> get_outcome == file_report(collection_at(store, name), sought),
{
    law_delete_file(name, path, store, delete_outcome, middle);
    law_get_file(name, sought, middle, get_outcome, after);
}

/// A collection that was just created has no files.
pub proof fn law_list_after_create(
    name: Seq<char>,
    start: (CatalogState<Seq<char>>, ActionView),
    store: StoreModel,
    create_outcome: Outcome,
    middle: StoreModel,
    list_outcome: Outcome,
    after: StoreModel,
)
    requires
        catalog_imports(name, Map::empty(), start),
        catalog_run(start, store, create_outcome, middle),
        catalog_run(
            task_start(name, CatalogTask::<Seq<char>>::ListFiles),
            middle,
            list_outcome,
            after,
        ),
    ensures
        list_outcome matches Ok(CatalogReply::Files(files)) && files.len() == 0,
{
    law_update_collection(name, Map::empty(), start, store, create_outcome, middle);
    law_list_files(name, middle, list_outcome, after);
    let files = list_outcome->Ok_0->Files_0;
    if files.len() > 0 {
        assert(files.to_set().contains(files[0]));
        assert(Map::<Seq<char>, Seq<u8>>::empty().dom().contains(files[0]));
    }
}

/// After a file was put at a path of a collection, the paths listed are those from before and that
/// path.
pub proof fn law_list_after_set(
    name: Seq<char>,
    path: Seq<char>,
    hash: BlobHash,
    store: StoreModel,
    set_outcome: Outcome,
    middle: StoreModel,
    list_outcome: Outcome,
    after: StoreModel,
)
    requires
        collection_at(store, name) is Ok,
        catalog_run(
            task_start(name, CatalogTask::SetFile { path, hash }),
            store,
            set_outcome,
            middle,
        ),
        catalog_run(
            task_start(name, CatalogTask::<Seq<char>>::ListFiles),
            middle,
            list_outcome,
            after,
        ),
    ensures
        list_outcome matches Ok(CatalogReply::Files(files)) && files.no_duplicates()
            && files.to_set() == collection_at(store, name)->Ok_0.dom().insert(path),
{
    law_set_file(name, path, hash, store, set_outcome, middle);
    law_list_files(name, middle, list_outcome, after);
    let before = collection_at(store, name)->Ok_0;
    assert(before.insert(path, hash@).dom() =~= before.dom().insert(path));
}

/// After the file at a path of a collection was taken away, the paths listed are those from before
/// but that path.
pub proof fn law_list_after_delete(
    name: Seq<char>,
    path: Seq<char>,
    store: StoreModel,
    delete_outcome: Outcome,
    middle: StoreModel,
    list_outcome: Outcome,
    after: StoreModel,
)
    requires
        collection_at(store, name) is Ok,
        catalog_run(
            task_start(name, CatalogTask::DeleteFile { path }),
            store,
            delete_outcome,
            middle,
        ),
        catalog_run(
            task_start(name, CatalogTask::<Seq<char>>::ListFiles),
            middle,
            list_outcome,
            after,
        ),
    ensures
        list_outcome matches Ok(CatalogReply::Files(files)) && files.no_duplicates()
            && files.to_set() == collection_at(store, name)->Ok_0.dom().remove(path),
{
    law_delete_file(name, path, store, delete_outcome, middle);
    law_list_files(name, middle, list_outcome, after);
    let before = collection_at(store, name)->Ok_0;
    assert(before.remove(path).dom() =~= before.dom().remove(path));
}

/// Whether an event says that the store did not do what it was asked to, or shows a tag that cannot
/// be read.
pub open spec fn is_failure(event: EventView) -> bool {
    match event {
        CatalogEvent::TagsListed(listing) => exists|i: int|
            0 <= i < listing.len() && #[trigger] listing[i] is Unreadable,
        CatalogEvent::ListTagsFailed => true,
        CatalogEvent::ReadBlobFailed => true,
        CatalogEvent::ImportFailed => true,
        CatalogEvent::TagStored(ok) => !ok,
        _ => false,
    }
}

/// Whether an operation goes from a state and an action through moments to its end, on a store
/// that may fail at any moment, and that holds what it held before where it fails.
pub open spec fn catalog_tries(
    next: (CatalogState<Seq<char>>, ActionView),
    store: StoreModel,
    moments: Seq<CatalogMoment>,
    outcome: Outcome,
    after: StoreModel,
) -> bool
    decreases moments.len(),
{
    if moments.len() == 0 {
        next.1 == ActionView::Finish(outcome) && after == store
    } else {
        let moment = moments[0];
        &&& catalog_accepts(next.0, moment.event)
        &&& {
            ||| store_answers(store, next.1, moment.event, moment.store)
            ||| !(next.1 is Finish) && is_failure(moment.event) && moment.store == store
        }
        &&& catalog_follows(next.0, moment.event, (moment.state, moment.action))
        &&& catalog_tries(
            (moment.state, moment.action),
            moment.store,
            moments.skip(1),
            outcome,
            after,
        )
    }
}

/// An operation that ends with an error, whatever went wrong, leaves every tag and every blob as it
/// was. What it brought into the store before the error stays there.
pub proof fn law_error_keeps_tags(
    start: (CatalogState<Seq<char>>, ActionView),
    store: StoreModel,
    moments: Seq<CatalogMoment>,
    outcome: Outcome,
    after: StoreModel,
)
    requires
        catalog_tries(start, store, moments, outcome, after),
        outcome is Err,
    ensures
        after.tags == store.tags,
        after.formats == store.formats,
        store.blobs.submap_of(after.blobs),
    decreases moments.len(),
{
    if moments.len() > 0 {
        let moment = moments[0];
        let next = (moment.state, moment.action);
        assert(catalog_tries(next, moment.store, moments.skip(1), outcome, after));
        law_error_keeps_tags(next, moment.store, moments.skip(1), outcome, after);
        assert(store.blobs.submap_of(moment.store.blobs));
    }
    assert forall|hash: BlobHash| #[trigger]
        store.blobs.dom().contains(hash) implies after.blobs.dom().contains(hash)
        && store.blobs[hash] == after.blobs[hash] by {
        if moments.len() > 0 {
            assert(moments[0].store.blobs.dom().contains(hash));
        }
    }
}

/// A collection without files lies in the store as one and the same blob, whatever its name and
/// however it came to be empty.
pub proof fn law_empty_collection_blob(
    name: Seq<char>,
    hash: BlobHash,
    store: StoreModel,
    after: StoreModel,
)
    requires
        holds_now(store, name, Map::empty(), hash, after),
    ensures
        after.blobs[hash] == empty_collection(),
        hash == (store.names)(empty_collection()),
{
}

/// Creating a collection reports the hash of the one blob that every collection without files has.
pub proof fn law_create_hash(
    name: Seq<char>,
    start: (CatalogState<Seq<char>>, ActionView),
    store: StoreModel,
    outcome: Outcome,
    after: StoreModel,
)
    requires
        catalog_imports(name, Map::empty(), start),
        catalog_run(start, store, outcome, after),
    ensures
        outcome == reports((store.names)(empty_collection())),
{
    law_update_collection(name, Map::empty(), start, store, outcome, after);
}

/// Taking the only file of a collection away brings back the blob that the collection had when it
/// was created.
pub proof fn law_delete_only_file(
    name: Seq<char>,
    path: Seq<char>,
    store: StoreModel,
    outcome: Outcome,
    after: StoreModel,
)
    requires
        collection_at(store, name) matches Ok(collection) && collection.dom() == set![path],
        catalog_run(task_start(name, CatalogTask::DeleteFile { path }), store, outcome, after),
    ensures
        outcome == reports((store.names)(empty_collection())),
{
    law_delete_file(name, path, store, outcome, after);
    let before = collection_at(store, name)->Ok_0;
    assert(before.remove(path) =~= Map::<Seq<char>, Seq<u8>>::empty());
}

/// A tag that is made for a collection, whatever its name, names the blob it was made for, and says
/// of it that it is plain bytes, as it was brought into the store.
pub proof fn law_tag_is_raw(name: Seq<char>, hash: BlobHash)
    ensures
        collection_tag(name, hash).name == encode_utf8(name),
        collection_tag(name, hash).hash == hash,
        collection_tag(name, hash).format is Raw,
        collection_tag(name, hash).format == stream_format(),
        collection_tag(name, hash).format == file_import().format,
{
}

/// After a collection was created, updated or changed, its tag says that its blob is plain bytes, and
/// every other tag names and says what it did before.
pub proof fn law_changed_tag_is_raw(
    name: Seq<char>,
    collection: Map<Seq<char>, Seq<u8>>,
    hash: BlobHash,
    store: StoreModel,
    after: StoreModel,
    tag: Seq<u8>,
)
    requires
        holds_now(store, name, collection, hash, after),
    ensures
        after.tags[encode_utf8(name)] == hash,
        after.formats[encode_utf8(name)] is Raw,
        tag != encode_utf8(name) ==> {
            &&& after.tags.contains_key(tag) == store.tags.contains_key(tag)
            &&& after.tags[tag] == store.tags[tag]
            &&& after.formats.contains_key(tag) == store.formats.contains_key(tag)
            &&& after.formats[tag] == store.formats[tag]
        },
{
}

/// The tag that is made for a collection is what is found under the collection's name once it is
/// stored, and what is found under another name stays what it was.
pub proof fn law_get_after_store_tag(
    name: Seq<char>,
    hash: BlobHash,
    store: StoreModel,
    sought: Seq<char>,
    outcome: Outcome,
    after: StoreModel,
)
    requires
        ({
            let tag = collection_tag(name, hash);
            catalog_run(
                (CatalogState::Locate { name: sought }, ActionView::ListTags),
                with_tag(store, tag.name, tag.hash, tag.format),
                outcome,
                after,
            )
        }),
    ensures
        sought == name ==> outcome == reports(hash),
        sought != name ==> outcome == locate_report(store, sought),
{
    let tag = collection_tag(name, hash);
    let middle = with_tag(store, tag.name, tag.hash, tag.format);
    law_collection_hash(sought, middle, outcome, after);
    law_tag_report(name, hash, tag.format, store, sought);
}

/// A store whose tag for a collection was set reports that tag for the collection's name, and for
/// another name what it reported before.
pub proof fn law_tag_report(
    name: Seq<char>,
    hash: BlobHash,
    format: BlobFormat,
    store: StoreModel,
    other: Seq<char>,
)
    ensures
        locate_report(with_tag(store, encode_utf8(name), hash, format), name) == reports(hash),
        other != name ==> locate_report(with_tag(store, encode_utf8(name), hash, format), other)
            == locate_report(store, other),
{
    encode_utf8_decode_utf8(name);
    encode_utf8_decode_utf8(other);
}

/// The hash that a change of a collection reports is the hash that the collection then has.
pub proof fn law_hash_after_change(
    name: Seq<char>,
    collection: Map<Seq<char>, Seq<u8>>,
    hash: BlobHash,
    store: StoreModel,
    middle: StoreModel,
    outcome: Outcome,
    after: StoreModel,
)
    requires
        holds_now(store, name, collection, hash, middle),
        catalog_run(
            (CatalogState::Locate { name }, ActionView::ListTags),
            middle,
            outcome,
            after,
        ),
    ensures
        outcome == reports(hash),
{
    law_collection_hash(name, middle, outcome, after);
}

} // verus!
