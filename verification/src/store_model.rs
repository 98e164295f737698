//! What a blob store holds, as the laws of this crate speak of it.

use vstd::prelude::*;
use crate::hash::BlobHash;
use crate::store::BlobFormat;
use crate::tags::{ListedTag, ListedView};

verus! {

/// What a store holds: blobs by their hashes, the blobs that tags name, and how each tag says that its
/// blob is to be read. A blob has the hash that `names` gives it.
pub struct StoreModel {
    pub names: spec_fn(Seq<u8>) -> BlobHash,
    pub blobs: Map<BlobHash, Seq<u8>>,
    pub tags: Map<Seq<u8>, BlobHash>,
    pub formats: Map<Seq<u8>, BlobFormat>,
}

/// Whether a listing shows the tags of a store: all of them, and nothing else.
pub open spec fn shows_tags(listing: Seq<ListedView>, tags: Map<Seq<u8>, BlobHash>) -> bool {
    &&& forall|i: int|
        0 <= i < listing.len() ==> (#[trigger] listing[i] matches ListedTag::Tag { name, hash }
            && tags.contains_key(name) && tags[name] == hash)
    &&& forall|name: Seq<u8>| #[trigger]
        tags.contains_key(name) ==> listing.contains(ListedTag::Tag { name, hash: tags[name] })
}

/// Whether a store may take in a blob under a hash: the blob has that hash, and the store holds no
/// other blob under it.
pub open spec fn takes_in(store: StoreModel, hash: BlobHash, data: Seq<u8>) -> bool {
    &&& hash == (store.names)(data)
    &&& store.blobs.contains_key(hash) ==> store.blobs[hash] == data
}

/// What a store holds once it has taken in a blob.
pub open spec fn with_blob(store: StoreModel, hash: BlobHash, data: Seq<u8>) -> StoreModel {
    StoreModel { blobs: store.blobs.insert(hash, data), ..store }
}

/// What a store holds once it has deleted a blob.
pub open spec fn without_blob(store: StoreModel, hash: BlobHash) -> StoreModel {
    StoreModel { blobs: store.blobs.remove(hash), ..store }
}

/// What a store holds once a tag names a blob, to be read in a format.
pub open spec fn with_tag(
    store: StoreModel,
    name: Seq<u8>,
    hash: BlobHash,
    format: BlobFormat,
) -> StoreModel {
    StoreModel {
        tags: store.tags.insert(name, hash),
        formats: store.formats.insert(name, format),
        ..store
    }
}

} // verus!
