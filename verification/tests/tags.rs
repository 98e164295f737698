use veilid_iroh_blobs::blobs::VeilidIrohBlobs;
use veilid_iroh_blobs::error::BlobsError;
use veilid_iroh_blobs::hash::BlobHash;
use veilid_iroh_blobs::store::BlobFormat;
use veilid_iroh_blobs::tags::{make_tag, search_tags, Listed, ListedTag};

fn hash(byte: u8) -> BlobHash {
    BlobHash { bytes: [byte; 32] }
}

fn tag(name: &str, byte: u8) -> Listed {
    ListedTag::Tag { name: name.as_bytes().to_vec(), hash: hash(byte) }
}

#[test]
fn tag_is_found_by_its_name() {
    let tags = vec![tag("a", 1), tag("ab", 2), tag("b", 3)];
    assert_eq!(search_tags(&tags, "ab"), Ok(hash(2)));
    assert_eq!(search_tags(&tags, "b"), Ok(hash(3)));
}

#[test]
fn first_tag_with_the_name_counts() {
    let tags = vec![tag("x", 1), tag("y", 2), tag("y", 3)];
    assert_eq!(search_tags(&tags, "y"), Ok(hash(2)));
}

#[test]
fn name_without_a_tag_is_not_found() {
    assert_eq!(search_tags(&vec![], "a"), Err(BlobsError::TagNotFound("a".to_string())));
    let tags = vec![tag("a", 1), tag("abc", 2)];
    assert_eq!(search_tags(&tags, "ab"), Err(BlobsError::TagNotFound("ab".to_string())));
}

#[test]
fn unreadable_tag_fails_a_search_that_reaches_it() {
    let tags = vec![tag("a", 1), ListedTag::Unreadable("torn page".to_string()), tag("b", 2)];
    assert_eq!(search_tags(&tags, "a"), Ok(hash(1)));
    assert_eq!(search_tags(&tags, "b"), Err(BlobsError::ReadTag("torn page".to_string())));
}

#[test]
fn names_are_compared_by_their_utf8() {
    let name = "größe";
    let tags = vec![tag("grosse", 1), tag(name, 2)];
    assert_eq!(search_tags(&tags, name), Ok(hash(2)));
    assert_eq!(make_tag(name, &hash(2)).name, vec![b'g', b'r', 0xc3, 0xb6, 0xc3, 0x9f, b'e']);
}

#[test]
fn stored_tag_names_a_raw_blob() {
    let stored = VeilidIrohBlobs::store_tag("photos", &hash(9));
    assert_eq!(stored.name, b"photos".to_vec());
    assert_eq!(stored.hash, hash(9));
    assert_eq!(stored.format, BlobFormat::Raw);
}
