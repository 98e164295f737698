//! Tags: the names that the store keeps for blobs.
//!
//! A collection is found by the tag that has its name. The name of a tag is a run of bytes, for a
//! collection the UTF-8 of its name.

use vstd::prelude::*;
use vstd::utf8::encode_utf8;
use crate::error::{result_view, BlobsError, ErrorView};
use crate::hash::BlobHash;
use crate::store::BlobFormat;

verus! {

/// One item of a listing of tags. Names are of type `N`, and texts of type `S`.
#[derive(Debug)]
pub enum ListedTag<N, S> {
    /// A tag, and the blob that it names.
    Tag { name: N, hash: BlobHash },
    /// A tag that could not be read; the cause.
    Unreadable(S),
}

/// A tag to be stored. Names are of type `N`.
#[derive(Debug)]
pub struct TagAssignment<N> {
    /// The name of the tag.
    pub name: N,
    /// The blob that it is to name.
    pub hash: BlobHash,
    /// How the content of the blob is to be read.
    pub format: BlobFormat,
}

/// The items of a listing as they are handed in.
pub type Listed = ListedTag<Vec<u8>, String>;

/// The items of a listing as contracts speak of them.
pub type ListedView = ListedTag<Seq<u8>, Seq<char>>;

impl View for ListedTag<Vec<u8>, String> {
    type V = ListedView;

    open spec fn view(&self) -> ListedView {
        match *self {
            ListedTag::Tag { name, hash } => ListedTag::Tag { name: name@, hash },
            ListedTag::Unreadable(cause) => ListedTag::Unreadable(cause@),
        }
    }
}

impl View for TagAssignment<Vec<u8>> {
    type V = TagAssignment<Seq<u8>>;

    open spec fn view(&self) -> TagAssignment<Seq<u8>> {
        TagAssignment { name: self.name@, hash: self.hash, format: self.format }
    }
}

/// What a listing of tags holds.
pub open spec fn listing_view(tags: Seq<Listed>) -> Seq<ListedView> {
    tags.map_values(|tag: Listed| tag@)
}

/// Whether the search for a collection's name ends at an item: it has the name, or cannot be read.
pub open spec fn ends_search(tag: ListedView, name: Seq<char>) -> bool {
    match tag {
        ListedTag::Tag { name: found, .. } => found == encode_utf8(name),
        ListedTag::Unreadable(_) => true,
    }
}

/// What a listing of tags says of a collection's name. The first item at which the search ends
/// decides.
pub open spec fn find_tag(tags: Seq<ListedView>, name: Seq<char>) -> Result<BlobHash, ErrorView>
    decreases tags.len(),
{
    if tags.len() == 0 {
        Err(BlobsError::TagNotFound(name))
    } else if ends_search(tags[0], name) {
        match tags[0] {
            ListedTag::Tag { hash, .. } => Ok(hash),
            ListedTag::Unreadable(cause) => Err(BlobsError::ReadTag(cause)),
        }
    } else {
        find_tag(tags.skip(1), name)
    }
}

/// The tag by which a collection is found.
pub open spec fn collection_tag(collection_name: Seq<char>, hash: BlobHash) -> TagAssignment<
    Seq<u8>,
> {
    TagAssignment { name: encode_utf8(collection_name), hash, format: BlobFormat::Raw }
}

/// Whether two runs of bytes are the same.
fn same_bytes(left: &[u8], right: &[u8]) -> (res: bool)
    ensures
        res == (left@ == right@),
{
    if left.len() != right.len() {
        return false;
    }
    let mut i: usize = 0;
    while i < left.len()
        invariant
            i <= left@.len(),
            left@.len() == right@.len(),
            forall|j: int| 0 <= j < i ==> left@[j] == right@[j],
        decreases left@.len() - i,
    {
        if left[i] != right[i] {
            return false;
        }
        i += 1;
    }
    assert(left@ =~= right@);
    true
}

/// Finds the blob that a listing of tags names for a collection.
pub fn search_tags(tags: &Vec<Listed>, collection_name: &str) -> (res: Result<
    BlobHash,
    BlobsError,
>)
    ensures
        result_view(res) == find_tag(listing_view(tags@), collection_name@),
{
    let name = collection_name.as_bytes();
    let ghost listing = listing_view(tags@);
    let mut i: usize = 0;
    assert(listing.skip(0) =~= listing);
    while i < tags.len()
        invariant
            i <= tags@.len(),
            listing == listing_view(tags@),
            name@ == encode_utf8(collection_name@),
            find_tag(listing, collection_name@) == find_tag(
                listing.skip(i as int),
                collection_name@,
            ),
        decreases tags@.len() - i,
    {
        assert(listing.skip(i as int)[0] == tags@[i as int]@);
        assert(listing.skip(i as int).skip(1) =~= listing.skip(i + 1));
        match &tags[i] {
            ListedTag::Tag { name: found, hash } => {
                if same_bytes(found.as_slice(), name) {
                    return Ok(*hash);
                }
            },
            ListedTag::Unreadable(cause) => {
                return Err(BlobsError::ReadTag(cause.clone()));
            },
        }
        i += 1;
    }
    Err(BlobsError::TagNotFound(collection_name.to_owned()))
}

/// Makes the tag by which a collection is found.
pub fn make_tag(collection_name: &str, collection_hash: &BlobHash) -> (res: TagAssignment<Vec<u8>>)
    ensures
        res@ == collection_tag(collection_name@, *collection_hash),
{
    TagAssignment {
        name: vstd::slice::slice_to_vec(collection_name.as_bytes()),
        hash: *collection_hash,
        format: BlobFormat::Raw,
    }
}

} // verus!
