use std::collections::HashMap;

use veilid_iroh_blobs::collection::Collection;
use veilid_iroh_blobs::error::BlobsError;
use veilid_iroh_blobs::hash::BlobHash;

fn hash(byte: u8) -> BlobHash {
    BlobHash { bytes: [byte; 32] }
}

fn path(text: &str) -> String {
    text.to_string()
}

fn sorted_paths(collection: &Collection) -> Vec<String> {
    let mut paths = collection.paths();
    paths.sort();
    paths
}

#[test]
fn new_collection_has_no_files() {
    let collection = Collection::new();
    assert_eq!(collection.get(&path("a")), None);
    assert_eq!(collection.paths(), Vec::<String>::new());
}

#[test]
fn file_is_found_where_it_was_put() {
    let mut collection = Collection::new();
    collection.insert(path("a"), hash(1));
    collection.insert(path("b"), hash(2));
    collection.insert(path("a"), hash(3));
    assert_eq!(collection.get(&path("a")), Some(hash(3)));
    assert_eq!(collection.get(&path("b")), Some(hash(2)));
    assert_eq!(sorted_paths(&collection), vec!["a", "b"]);
}

#[test]
fn removed_file_is_gone_and_the_others_stay() {
    let mut collection = Collection::new();
    for (i, name) in ["a", "b", "c"].iter().enumerate() {
        collection.insert(path(name), hash(i as u8));
    }
    collection.remove(&path("b"));
    collection.remove(&path("x"));
    assert_eq!(collection.get(&path("b")), None);
    assert_eq!(collection.get(&path("a")), Some(hash(0)));
    assert_eq!(collection.get(&path("c")), Some(hash(2)));
    assert_eq!(sorted_paths(&collection), vec!["a", "c"]);
}

#[test]
fn empty_collection_is_an_empty_cbor_map() {
    assert_eq!(Collection::new().encode(), Ok(vec![0xa0]));
}

#[test]
fn file_is_written_as_text_and_an_array_of_bytes() {
    let mut collection = Collection::new();
    collection.insert(path("ab"), hash(1));
    let mut expected = vec![0xa1, 0x62, b'a', b'b', 0x98, 0x20];
    expected.extend_from_slice(&[1u8; 32]);
    assert_eq!(collection.encode(), Ok(expected.clone()));
    let read = Collection::decode(&expected).unwrap();
    assert_eq!(read.get(&path("ab")), Some(hash(1)));
}

#[test]
fn written_collection_reads_as_a_map_of_hashes() {
    let mut collection = Collection::new();
    collection.insert(path("one"), hash(0xff));
    collection.insert(path("zwölf"), hash(12));
    let data = collection.encode().unwrap();
    let map: HashMap<String, iroh_base::hash::Hash> = serde_cbor::from_slice(&data).unwrap();
    assert_eq!(map.len(), 2);
    assert_eq!(map["one"].as_bytes(), &[0xff; 32]);
    assert_eq!(map["zwölf"].as_bytes(), &[12; 32]);
}

#[test]
fn map_of_hashes_reads_as_a_collection() {
    let mut map = HashMap::new();
    for i in 0..50u8 {
        map.insert(format!("dir/file{}", i), iroh_base::hash::Hash::from_bytes([i; 32]));
    }
    let collection = Collection::decode(&serde_cbor::to_vec(&map).unwrap()).unwrap();
    assert_eq!(collection.paths().len(), 50);
    for i in 0..50u8 {
        assert_eq!(collection.get(&format!("dir/file{}", i)), Some(hash(i)));
    }
}

#[test]
fn collection_survives_writing_and_reading() {
    let mut collection = Collection::new();
    for i in 0..30u8 {
        collection.insert(format!("{}", i), hash(i));
    }
    let read = Collection::decode(&collection.encode().unwrap()).unwrap();
    assert_eq!(sorted_paths(&read), sorted_paths(&collection));
    for name in collection.paths() {
        assert_eq!(read.get(&name), collection.get(&name));
    }
}

#[test]
fn bytes_that_are_no_collection_are_refused() {
    let mut short = vec![0xa1, 0x61, b'a', 0x98, 0x1f];
    short.extend_from_slice(&[1u8; 31]);
    let numbers_as_paths = vec![0xa1, 0x01, 0x02];
    for data in [vec![], vec![0x00], vec![0xa0, 0x00], vec![0xa1], short, numbers_as_paths] {
        let cause = serde_cbor::from_slice::<HashMap<String, iroh_base::hash::Hash>>(&data)
            .map_err(|error| format!("{:?}", error))
            .unwrap_err();
        assert_eq!(Collection::decode(&data).unwrap_err(), BlobsError::DecodeCollection(cause));
    }
}

#[test]
fn refused_bytes_come_with_the_cause() {
    let error = Collection::decode(&[0xa0, 0x00]).unwrap_err();
    let cause = "ErrorImpl { code: TrailingData, offset: 2 }".to_string();
    assert_eq!(error, BlobsError::DecodeCollection(cause));
}

#[test]
fn collection_that_lost_its_only_file_is_written_as_a_new_one() {
    let mut collection = Collection::new();
    collection.insert(path("a"), hash(1));
    assert_ne!(collection.encode(), Ok(vec![0xa0]));
    collection.remove(&path("a"));
    assert_eq!(collection.encode(), Collection::new().encode());
}
