//! How a collection is written down: as a CBOR map from paths to hashes.

use vstd::prelude::*;
use std::collections::HashMap;
use crate::hash::BlobHash;

verus! {

/// `serde_cbor::Error`: why a value could not be written as CBOR.
#[verifier::external_type_specification]
#[verifier::external_body]
pub struct ExCborError(serde_cbor::Error);

/// What a list of paths and hashes says of each path: the bytes of its hash. Of two hashes for one
/// path the later counts.
pub open spec fn entries_map(entries: Seq<(String, BlobHash)>) -> Map<Seq<char>, Seq<u8>>
    decreases entries.len(),
{
    if entries.len() == 0 {
        Map::empty()
    } else {
        entries_map(entries.drop_last()).insert(entries.last().0@, entries.last().1@)
    }
}

/// Whether no path occurs twice in a list of paths and hashes.
pub open spec fn paths_distinct(entries: Seq<(String, BlobHash)>) -> bool {
    forall|i: int, j: int|
        0 <= i < j < entries.len() ==> (#[trigger] entries[i]).0@ != (#[trigger] entries[j]).0@
}

/// The map from paths to the bytes of hashes that `serde_cbor` reads from bytes, or the text of the
/// reason why it reads none.
pub uninterp spec fn cbor_collection(data: Seq<u8>) -> Result<Map<Seq<char>, Seq<u8>>, Seq<char>>;

/// How a collection without files is written down: as the one byte of an empty CBOR map.
pub open spec fn empty_collection() -> Seq<u8> {
    seq![0xA0u8]
}

/// Whether bytes are a collection, written down: they read as the collection, and for a collection
/// without files they are the one byte of an empty map.
pub open spec fn writes_collection(data: Seq<u8>, collection: Map<Seq<char>, Seq<u8>>) -> bool {
    &&& cbor_collection(data) == Ok::<Map<Seq<char>, Seq<u8>>, Seq<char>>(collection)
    &&& collection == Map::<Seq<char>, Seq<u8>>::empty() ==> data == empty_collection()
}

/// `serde_cbor::to_vec` on a `HashMap<String, Hash>`: writing to a vector cannot fail,
/// `serde_cbor::from_slice` reads the same map from what was written, and an empty map is written
/// as one byte.
///
/// In which order the entries are written is left unsaid, since it is the order in which the
/// `HashMap` is walked.
#[verifier::external_body]
pub(crate) fn cbor_to_vec(entries: &Vec<(String, BlobHash)>) -> (res: Result<
    Vec<u8>,
    serde_cbor::Error,
>)
    requires
        paths_distinct(entries@),
    ensures
        match res {
            Ok(data) => {
                &&& cbor_collection(data@) == Ok::<Map<Seq<char>, Seq<u8>>, Seq<char>>(
                    entries_map(entries@),
                )
                &&& entries@.len() == 0 ==> data@ == empty_collection()
            },
            Err(_) => false,
        },
{
    let map: HashMap<String, iroh_base::hash::Hash> = entries
        .iter()
        .map(|entry| (entry.0.clone(), iroh_base::hash::Hash::from_bytes(entry.1.bytes)))
        .collect();
    serde_cbor::to_vec(&map)
}

/// `serde_cbor::from_slice` into a `HashMap<String, Hash>`: the entries of the map, each once, in
/// no particular order, or, where the bytes are not the CBOR of such a map, the `Debug` text of the
/// error.
#[verifier::external_body]
pub(crate) fn cbor_from_slice(data: &[u8]) -> (res: Result<Vec<(String, BlobHash)>, String>)
    ensures
        match res {
            Ok(entries) => paths_distinct(entries@) && cbor_collection(data@) == Ok::<
                Map<Seq<char>, Seq<u8>>,
                Seq<char>,
            >(entries_map(entries@)),
            Err(cause) => cbor_collection(data@) == Err::<Map<Seq<char>, Seq<u8>>, Seq<char>>(
                cause@,
            ),
        },
{
    let map: HashMap<String, iroh_base::hash::Hash> = match serde_cbor::from_slice(data) {
        Ok(map) => map,
        Err(error) => return Err(format!("{:?}", error)),
    };
    Ok(map.into_iter().map(|entry| (entry.0, BlobHash { bytes: *entry.1.as_bytes() })).collect())
}

/// Where a path stands in a list in which no path occurs twice, its hash is what counts.
pub proof fn lemma_entries_map_at(entries: Seq<(String, BlobHash)>, i: int)
    requires
        paths_distinct(entries),
        0 <= i < entries.len(),
    ensures
        entries_map(entries).contains_key(entries[i].0@),
        entries_map(entries)[entries[i].0@] == entries[i].1@,
    decreases entries.len(),
{
    if i < entries.len() - 1 {
        let shorter = entries.drop_last();
        assert(shorter[i] == entries[i]);
        assert(paths_distinct(shorter)) by {
            assert forall|a: int, b: int| 0 <= a < b < shorter.len() implies (
            #[trigger] shorter[a]).0@ != (#[trigger] shorter[b]).0@ by {
                assert(shorter[a] == entries[a] && shorter[b] == entries[b]);
            }
        }
        lemma_entries_map_at(shorter, i);
        assert(entries[i].0@ != entries[entries.len() - 1].0@);
    }
}

/// A path that a list says something of occurs in it.
pub proof fn lemma_entries_map_has(entries: Seq<(String, BlobHash)>, path: Seq<char>)
    requires
        entries_map(entries).contains_key(path),
    ensures
        exists|i: int| 0 <= i < entries.len() && (#[trigger] entries[i]).0@ == path,
    decreases entries.len(),
{
    if entries.len() > 0 {
        if entries.last().0@ == path {
            assert(entries[entries.len() - 1].0@ == path);
        } else {
            let shorter = entries.drop_last();
            lemma_entries_map_has(shorter, path);
            let i = choose|i: int| 0 <= i < shorter.len() && (#[trigger] shorter[i]).0@ == path;
            assert(entries[i].0@ == path);
        }
    }
}

/// A list in which no path occurs twice says what a map says, if it agrees with the map on every
/// path in the list and every path of the map is in the list.
pub proof fn lemma_entries_map_is(
    entries: Seq<(String, BlobHash)>,
    map: Map<Seq<char>, Seq<u8>>,
)
    requires
        paths_distinct(entries),
        forall|i: int|
            0 <= i < entries.len() ==> map.contains_key((#[trigger] entries[i]).0@)
                && map[entries[i].0@] == entries[i].1@,
        forall|path: Seq<char>| #[trigger]
            map.contains_key(path) ==> exists|i: int|
                0 <= i < entries.len() && (#[trigger] entries[i]).0@ == path,
    ensures
        entries_map(entries) == map,
{
    let read = entries_map(entries);
    assert forall|path: Seq<char>| #[trigger]
        read.contains_key(path) == map.contains_key(path) && (read.contains_key(path)
            ==> read[path] == map[path]) by {
        if read.contains_key(path) {
            lemma_entries_map_has(entries, path);
        }
        if read.contains_key(path) || map.contains_key(path) {
            let i = choose|i: int| 0 <= i < entries.len() && (#[trigger] entries[i]).0@ == path;
            lemma_entries_map_at(entries, i);
        }
    }
    assert(read =~= map);
}

} // verus!
