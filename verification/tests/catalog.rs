use std::collections::BTreeMap;

use veilid_iroh_blobs::blobs::VeilidIrohBlobs;
use veilid_iroh_blobs::catalog::{
    Action, CatalogAction, CatalogEvent, CatalogReply, CatalogState, Event,
};
use veilid_iroh_blobs::collection::Collection;
use veilid_iroh_blobs::error::BlobsError;
use veilid_iroh_blobs::hash::BlobHash;
use veilid_iroh_blobs::store::BlobFormat;
use veilid_iroh_blobs::tags::ListedTag;

/// A store in memory.
#[derive(Default)]
struct Memory {
    blobs: BTreeMap<[u8; 32], Vec<u8>>,
    tags: BTreeMap<Vec<u8>, BlobHash>,
    upload: Vec<u8>,
}

impl Memory {
    fn import(&mut self, data: &[u8]) -> BlobHash {
        let hash = BlobHash { bytes: *iroh_base::hash::Hash::new(data).as_bytes() };
        self.blobs.insert(hash.bytes, data.to_vec());
        hash
    }

    fn answer(&mut self, action: &Action) -> Option<Event> {
        match action {
            CatalogAction::ImportFile => {
                let data = self.upload.clone();
                Some(CatalogEvent::Imported(self.import(&data)))
            }
            CatalogAction::ListTags => Some(CatalogEvent::TagsListed(
                self.tags
                    .iter()
                    .map(|(name, hash)| ListedTag::Tag { name: name.clone(), hash: *hash })
                    .collect(),
            )),
            CatalogAction::ReadBlob(hash) => Some(match self.blobs.get(&hash.bytes) {
                Some(data) => CatalogEvent::BlobRead(data.clone()),
                None => CatalogEvent::ReadBlobFailed,
            }),
            CatalogAction::Import(data) => Some(CatalogEvent::Imported(self.import(data))),
            CatalogAction::StoreTag(tag) => {
                assert_eq!(tag.format, BlobFormat::Raw);
                self.tags.insert(tag.name.clone(), tag.hash);
                Some(CatalogEvent::TagStored(true))
            }
            CatalogAction::Finish(_) => None,
        }
    }

    fn run(
        &mut self,
        start: (CatalogState<String>, Action),
    ) -> Result<CatalogReply<Vec<String>>, BlobsError> {
        let (mut state, mut action) = start;
        while let Some(event) = self.answer(&action) {
            assert!(state.accepts(&event));
            (state, action) = state.step(event);
        }
        match action {
            CatalogAction::Finish(result) => result,
            _ => unreachable!("only the end has no answer"),
        }
    }

    fn hash(&mut self, start: (CatalogState<String>, Action)) -> Result<BlobHash, BlobsError> {
        match self.run(start)? {
            CatalogReply::Hash(hash) => Ok(hash),
            CatalogReply::Files(_) => panic!("a hash was asked for"),
        }
    }

    fn files(&mut self, name: &str) -> Result<Vec<String>, BlobsError> {
        match self.run(VeilidIrohBlobs::list_files(&text(name)))? {
            CatalogReply::Files(mut files) => {
                files.sort();
                Ok(files)
            }
            CatalogReply::Hash(_) => panic!("files were asked for"),
        }
    }

    fn create(&mut self, name: &str) -> BlobHash {
        self.hash(VeilidIrohBlobs::create_collection(&text(name))).unwrap()
    }

    fn set(&mut self, name: &str, path: &str, byte: u8) -> Result<BlobHash, BlobsError> {
        self.hash(VeilidIrohBlobs::set_file(&text(name), &text(path), &plain(byte)))
    }

    fn get(&mut self, name: &str, path: &str) -> Result<BlobHash, BlobsError> {
        self.hash(VeilidIrohBlobs::get_file(&text(name), &text(path)))
    }

    fn delete(&mut self, name: &str, path: &str) -> Result<BlobHash, BlobsError> {
        self.hash(VeilidIrohBlobs::delete_file(&text(name), &text(path)))
    }

    fn locate(&mut self, name: &str) -> Result<BlobHash, BlobsError> {
        self.hash(VeilidIrohBlobs::collection_hash(name))
    }
}

fn text(text: &str) -> String {
    text.to_string()
}

fn plain(byte: u8) -> BlobHash {
    BlobHash { bytes: [byte; 32] }
}

fn error_of(start: (CatalogState<String>, Action), events: Vec<Event>) -> Option<BlobsError> {
    let (mut state, mut action) = start;
    for event in events {
        assert!(state.accepts(&event));
        (state, action) = state.step(event);
    }
    match action {
        CatalogAction::Finish(Err(error)) => Some(error),
        _ => None,
    }
}

fn listed(name: &str, byte: u8) -> Event {
    let name = name.as_bytes().to_vec();
    CatalogEvent::TagsListed(vec![ListedTag::Tag { name, hash: plain(byte) }])
}

#[test]
fn created_collection_has_no_files() {
    let mut store = Memory::default();
    let hash = store.create("c");
    assert_eq!(store.blobs[&hash.bytes], vec![0xa0]);
    assert_eq!(store.files("c"), Ok(vec![]));
    assert_eq!(store.locate("c"), Ok(hash));
}

#[test]
fn creating_a_collection_again_empties_it() {
    let mut store = Memory::default();
    store.create("c");
    store.set("c", "a", 1).unwrap();
    store.create("c");
    assert_eq!(store.files("c"), Ok(vec![]));
}

#[test]
fn set_file_is_gotten_back() {
    let mut store = Memory::default();
    store.create("c");
    store.set("c", "a", 1).unwrap();
    store.set("c", "b", 2).unwrap();
    assert_eq!(store.get("c", "a"), Ok(plain(1)));
    assert_eq!(store.get("c", "b"), Ok(plain(2)));
    store.set("c", "a", 3).unwrap();
    assert_eq!(store.get("c", "a"), Ok(plain(3)));
    assert_eq!(store.files("c"), Ok(vec![text("a"), text("b")]));
}

#[test]
fn deleted_file_is_not_found() {
    let mut store = Memory::default();
    store.create("c");
    store.set("c", "a", 1).unwrap();
    store.set("c", "b", 2).unwrap();
    store.delete("c", "a").unwrap();
    assert_eq!(store.get("c", "a"), Err(BlobsError::FileNotFound));
    assert_eq!(store.get("c", "b"), Ok(plain(2)));
    assert_eq!(store.files("c"), Ok(vec![text("b")]));
}

#[test]
fn deleting_a_file_that_is_not_there_changes_nothing() {
    let mut store = Memory::default();
    store.create("c");
    let before = store.set("c", "a", 1).unwrap();
    assert_eq!(store.delete("c", "x"), Ok(before));
    assert_eq!(store.files("c"), Ok(vec![text("a")]));
}

#[test]
fn every_change_reports_the_hash_of_the_collection() {
    let mut store = Memory::default();
    let created = store.create("c");
    assert_eq!(store.locate("c"), Ok(created));
    let set = store.set("c", "a", 1).unwrap();
    assert_ne!(set, created);
    assert_eq!(store.locate("c"), Ok(set));
    assert_eq!(store.hash(VeilidIrohBlobs::get_tag("c")), Ok(set));
    let deleted = store.delete("c", "a").unwrap();
    assert_eq!(deleted, created);
    assert_eq!(store.locate("c"), Ok(deleted));
}

#[test]
fn uploaded_file_lies_in_the_store_and_the_collection() {
    let mut store = Memory::default();
    store.create("c");
    store.upload = b"hello".to_vec();
    let changed = store.hash(VeilidIrohBlobs::upload_to(&text("c"), &text("f"))).unwrap();
    assert_eq!(store.locate("c"), Ok(changed));
    let file = store.get("c", "f").unwrap();
    assert_eq!(store.blobs[&file.bytes], b"hello".to_vec());
}

#[test]
fn updated_collection_holds_what_it_was_given() {
    let mut store = Memory::default();
    let mut collection = Collection::new();
    collection.insert(text("p"), plain(4));
    collection.insert(text("q"), plain(5));
    let start = VeilidIrohBlobs::update_collection(&text("c"), &collection);
    let hash = store.hash(start).unwrap();
    assert_eq!(store.locate("c"), Ok(hash));
    assert_eq!(store.get("c", "q"), Ok(plain(5)));
    assert_eq!(store.files("c"), Ok(vec![text("p"), text("q")]));
}

#[test]
fn change_of_one_collection_leaves_the_others() {
    let mut store = Memory::default();
    store.create("c");
    store.create("d");
    let other = store.set("d", "x", 7).unwrap();
    store.set("c", "x", 8).unwrap();
    store.delete("c", "x").unwrap();
    assert_eq!(store.locate("d"), Ok(other));
    assert_eq!(store.get("d", "x"), Ok(plain(7)));
}

#[test]
fn unknown_collection_is_not_found() {
    let mut store = Memory::default();
    store.create("c");
    let missing = || BlobsError::TagNotFound(text("x"));
    assert_eq!(store.get("x", "a"), Err(missing()));
    assert_eq!(store.set("x", "a", 1), Err(missing()));
    assert_eq!(store.delete("x", "a"), Err(missing()));
    assert_eq!(store.files("x"), Err(missing()));
    assert_eq!(store.locate("x"), Err(missing()));
    store.upload = vec![1];
    let upload = store.hash(VeilidIrohBlobs::upload_to(&text("x"), &text("f")));
    assert_eq!(upload, Err(missing()));
    assert_eq!(store.blobs.len(), 2);
}

#[test]
fn collection_whose_blob_is_gone_cannot_be_read() {
    let mut store = Memory::default();
    store.tags.insert(b"c".to_vec(), plain(1));
    assert_eq!(store.locate("c"), Ok(plain(1)));
    assert_eq!(store.get("c", "a"), Err(BlobsError::ReadBlob));
}

#[test]
fn blob_that_is_no_collection_cannot_be_read_as_one() {
    let mut store = Memory::default();
    let hash = store.import(b"not a collection");
    store.tags.insert(b"c".to_vec(), hash);
    assert!(matches!(store.files("c"), Err(BlobsError::DecodeCollection(cause)) if cause != ""));
    let change = store.set("c", "a", 1);
    assert!(matches!(change, Err(BlobsError::DecodeCollection(cause)) if cause != ""));
}

#[test]
fn failing_store_fails_the_operation() {
    let get = || VeilidIrohBlobs::get_file(&text("c"), &text("a"));
    let create = || VeilidIrohBlobs::create_collection(&text("c"));
    let upload = || VeilidIrohBlobs::upload_to(&text("c"), &text("a"));
    assert_eq!(error_of(get(), vec![Event::ListTagsFailed]), Some(BlobsError::ListTags));
    assert_eq!(
        error_of(VeilidIrohBlobs::get_tag("c"), vec![Event::ListTagsFailed]),
        Some(BlobsError::ListTags)
    );
    let unreadable = Event::TagsListed(vec![ListedTag::Unreadable(text("bad"))]);
    assert_eq!(error_of(get(), vec![unreadable]), Some(BlobsError::ReadTag(text("bad"))));
    let events = vec![listed("c", 1), Event::ReadBlobFailed];
    assert_eq!(error_of(get(), events), Some(BlobsError::ReadBlob));
    assert_eq!(error_of(create(), vec![Event::ImportFailed]), Some(BlobsError::Import));
    assert_eq!(error_of(upload(), vec![Event::ImportFailed]), Some(BlobsError::Import));
    let events = vec![Event::Imported(plain(1)), Event::TagStored(false)];
    assert_eq!(error_of(create(), events), Some(BlobsError::StoreTag));
}

#[test]
fn operation_accepts_only_what_answers_its_action() {
    let (state, _) = VeilidIrohBlobs::get_file(&text("c"), &text("a"));
    assert!(!state.accepts(&Event::TagStored(true)));
    assert!(!state.accepts(&Event::Imported(plain(1))));
    let (state, _) = VeilidIrohBlobs::create_collection(&text("c"));
    assert!(!state.accepts(&listed("c", 1)));
    assert!(!CatalogState::Done.accepts(&Event::ImportFailed));
}

#[test]
fn failed_change_keeps_the_tag() {
    let mut store = Memory::default();
    store.create("c");
    let before = store.set("c", "a", 1).unwrap();
    let (state, action) = VeilidIrohBlobs::set_file(&text("c"), &text("a"), &plain(2));
    let (state, action) = state.step(store.answer(&action).unwrap());
    let (state, action) = state.step(store.answer(&action).unwrap());
    assert!(matches!(action, CatalogAction::Import(_)));
    let (_, action) = state.step(Event::ImportFailed);
    assert!(matches!(action, CatalogAction::Finish(Err(BlobsError::Import))));
    assert_eq!(store.locate("c"), Ok(before));
    assert_eq!(store.get("c", "a"), Ok(plain(1)));
}

#[test]
fn upload_takes_five_events_at_most() {
    let mut store = Memory::default();
    store.create("c");
    store.upload = vec![1, 2, 3];
    let (mut state, mut action) = VeilidIrohBlobs::upload_to(&text("c"), &text("f"));
    let mut events = 0;
    while let Some(event) = store.answer(&action) {
        (state, action) = state.step(event);
        events += 1;
    }
    assert!(matches!(state, CatalogState::Done));
    assert_eq!(events, 5);
}

#[test]
fn every_collection_without_files_is_the_same_blob() {
    let mut store = Memory::default();
    let created = store.create("c");
    assert_eq!(store.create("d"), created);
    store.set("c", "a", 1).unwrap();
    assert_eq!(store.delete("c", "a"), Ok(created));
    assert_eq!(store.blobs[&created.bytes], vec![0xa0]);
}

#[test]
fn upload_to_an_unknown_collection_leaves_the_blob() {
    let mut store = Memory::default();
    store.upload = b"left".to_vec();
    let upload = store.hash(VeilidIrohBlobs::upload_to(&text("x"), &text("f")));
    assert_eq!(upload, Err(BlobsError::TagNotFound(text("x"))));
    let hash = iroh_base::hash::Hash::new(b"left");
    assert_eq!(store.blobs[hash.as_bytes()], b"left".to_vec());
    assert!(store.tags.is_empty());
}

#[test]
fn stored_tag_is_found_again() {
    let mut store = Memory::default();
    let other = store.create("d");
    assert_eq!(store.locate("c"), Err(BlobsError::TagNotFound(text("c"))));
    let tag = VeilidIrohBlobs::store_tag("c", &plain(6));
    store.tags.insert(tag.name, tag.hash);
    assert_eq!(store.hash(VeilidIrohBlobs::get_tag("c")), Ok(plain(6)));
    assert_eq!(store.hash(VeilidIrohBlobs::get_tag("d")), Ok(other));
}
