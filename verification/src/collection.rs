//! A collection of files: paths, each with the hash of the file that lies there.

use vstd::prelude::*;
use crate::cbor::{
    cbor_collection, cbor_from_slice, cbor_to_vec, entries_map, lemma_entries_map_at,
    lemma_entries_map_has, lemma_entries_map_is, paths_distinct, writes_collection,
};
use crate::error::{BlobsError, ErrorView};
use crate::hash::{hash_of, lemma_hash_of_view, BlobHash};

verus! {

/// A collection of files. No two files lie at one path.
#[derive(Debug)]
pub struct Collection {
    entries: Vec<(String, BlobHash)>,
}

impl View for Collection {
    type V = Map<Seq<char>, Seq<u8>>;

    /// The bytes of the hash at each path.
    closed spec fn view(&self) -> Map<Seq<char>, Seq<u8>> {
        entries_map(self.entries@)
    }
}

/// Whether a list names every path of a collection, each once.
pub open spec fn lists_paths(files: Seq<Seq<char>>, collection: Map<Seq<char>, Seq<u8>>) -> bool {
    &&& files.no_duplicates()
    &&& files.to_set() == collection.dom()
}

/// The texts of a list of strings.
pub open spec fn texts(strings: Seq<String>) -> Seq<Seq<char>> {
    strings.map_values(|string: String| string@)
}

impl Collection {
    #[verifier::type_invariant]
    spec fn well_formed(self) -> bool {
        paths_distinct(self.entries@)
    }

    /// A collection without files.
    pub fn new() -> (res: Collection)
        ensures
            res@ == Map::<Seq<char>, Seq<u8>>::empty(),
    {
        Collection { entries: Vec::new() }
    }

    /// The position of the file at a path, if there is one.
    fn position(entries: &Vec<(String, BlobHash)>, path: &String) -> (res: Option<usize>)
        ensures
            match res {
                Some(i) => i < entries@.len() && entries@[i as int].0@ == path@,
                None => forall|j: int| 0 <= j < entries@.len() ==> entries@[j].0@ != path@,
            },
    {
        let mut i: usize = 0;
        while i < entries.len()
            invariant
                i <= entries@.len(),
                forall|j: int| 0 <= j < i ==> entries@[j].0@ != path@,
            decreases entries@.len() - i,
        {
            if entries[i].0 == *path {
                return Some(i);
            }
            i += 1;
        }
        None
    }

    /// The hash of the file at a path, if there is one.
    pub fn get(&self, path: &String) -> (res: Option<BlobHash>)
        ensures
            res is Some <==> self@.contains_key(path@),
            res matches Some(hash) ==> hash@ == self@[path@] && hash == hash_of(self@[path@]),
    {
        proof {
            use_type_invariant(self);
        }
        match Self::position(&self.entries, path) {
            Some(i) => {
                let hash = self.entries[i].1;
                proof {
                    lemma_entries_map_at(self.entries@, i as int);
                    lemma_hash_of_view(hash);
                }
                Some(hash)
            },
            None => {
                proof {
                    if self@.contains_key(path@) {
                        lemma_entries_map_has(self.entries@, path@);
                    }
                }
                None
            },
        }
    }

    /// Puts a file at a path, in place of what was there.
    pub fn insert(&mut self, path: String, hash: BlobHash)
        ensures
            final(self)@ == old(self)@.insert(path@, hash@),
    {
        proof {
            use_type_invariant(&*self);
        }
        let ghost before = self.entries@;
        let mut entries: Vec<(String, BlobHash)> = Vec::new();
        std::mem::swap(&mut entries, &mut self.entries);
        match Self::position(&entries, &path) {
            Some(i) => {
                entries[i] = (path, hash);
                proof {
                    let after = entries@;
                    let map = entries_map(before).insert(path@, hash@);
                    assert forall|j: int| 0 <= j < after.len() implies map.contains_key(
                        (#[trigger] after[j]).0@,
                    ) && map[after[j].0@] == after[j].1@ by {
                        lemma_entries_map_at(before, j);
                        assert(j != i ==> before[j].0@ != before[i as int].0@);
                    }
                    assert forall|key: Seq<char>| #[trigger]
                        map.contains_key(key) implies exists|j: int|
                        0 <= j < after.len() && (#[trigger] after[j]).0@ == key by {
                        if key == path@ {
                            assert(after[i as int].0@ == key);
                        } else {
                            lemma_entries_map_has(before, key);
                            let j = choose|j: int|
                                0 <= j < before.len() && (#[trigger] before[j]).0@ == key;
                            assert(after[j].0@ == key);
                        }
                    }
                    assert forall|a: int, b: int| 0 <= a < b < after.len() implies (
                    #[trigger] after[a]).0@ != (#[trigger] after[b]).0@ by {
                        assert(before[a].0@ != before[b].0@);
                    }
                    lemma_entries_map_is(after, map);
                }
            },
            None => {
                entries.push((path, hash));
                proof {
                    assert(entries@.drop_last() =~= before);
                    assert forall|a: int, b: int| 0 <= a < b < entries@.len() implies (
                    #[trigger] entries@[a]).0@ != (#[trigger] entries@[b]).0@ by {
                        assert(entries@[a] == before[a]);
                        if b < before.len() {
                            assert(entries@[b] == before[b]);
                        }
                    }
                }
            },
        }
        self.entries = entries;
    }

    /// Takes the file at a path away, if there is one.
    pub fn remove(&mut self, path: &String)
        ensures
            final(self)@ == old(self)@.remove(path@),
    {
        proof {
            use_type_invariant(&*self);
        }
        let ghost before = self.entries@;
        let mut entries: Vec<(String, BlobHash)> = Vec::new();
        std::mem::swap(&mut entries, &mut self.entries);
        match Self::position(&entries, path) {
            Some(i) => {
                entries.remove(i);
                proof {
                    let after = entries@;
                    let map = entries_map(before).remove(path@);
                    let origin = |j: int| if j < i { j } else { j + 1 };
                    assert forall|j: int| 0 <= j < after.len() implies (#[trigger] after[j])
                        == before[origin(j)] && origin(j) != i && 0 <= origin(j)
                        < before.len() by {}
                    assert forall|a: int, b: int| 0 <= a < b < after.len() implies (
                    #[trigger] after[a]).0@ != (#[trigger] after[b]).0@ by {
                        assert(before[origin(a)].0@ != before[origin(b)].0@);
                    }
                    assert forall|j: int| 0 <= j < after.len() implies map.contains_key(
                        (#[trigger] after[j]).0@,
                    ) && map[after[j].0@] == after[j].1@ by {
                        lemma_entries_map_at(before, origin(j));
                        assert(after[j] == before[origin(j)]);
                        if origin(j) < i {
                            assert(before[origin(j)].0@ != before[i as int].0@);
                        } else {
                            assert(before[i as int].0@ != before[origin(j)].0@);
                        }
                    }
                    assert forall|key: Seq<char>| #[trigger]
                        map.contains_key(key) implies exists|j: int|
                        0 <= j < after.len() && (#[trigger] after[j]).0@ == key by {
                        lemma_entries_map_has(before, key);
                        let j = choose|j: int|
                            0 <= j < before.len() && (#[trigger] before[j]).0@ == key;
                        assert(j != i);
                        if j < i {
                            assert(after[j] == before[j]);
                        } else {
                            assert(after[j - 1] == before[j]);
                        }
                    }
                    lemma_entries_map_is(after, map);
                }
            },
            None => {
                proof {
                    if entries_map(before).contains_key(path@) {
                        lemma_entries_map_has(before, path@);
                    }
                    assert(entries_map(before).remove(path@) =~= entries_map(before));
                }
            },
        }
        self.entries = entries;
    }

    /// The paths of the files, in no particular order.
    pub fn paths(&self) -> (res: Vec<String>)
        ensures
            lists_paths(texts(res@), self@),
    {
        proof {
            use_type_invariant(self);
        }
        let mut paths: Vec<String> = Vec::new();
        let mut i: usize = 0;
        while i < self.entries.len()
            invariant
                i <= self.entries@.len(),
                paths@.len() == i,
                forall|j: int| 0 <= j < i ==> (#[trigger] paths@[j])@ == self.entries@[j].0@,
            decreases self.entries@.len() - i,
        {
            paths.push(self.entries[i].0.clone());
            i += 1;
        }
        proof {
            let files = texts(paths@);
            let entries = self.entries@;
            assert forall|a: int, b: int|
                0 <= a < files.len() && 0 <= b < files.len() && a != b implies files[a]
                != files[b] by {
                if a < b {
                    assert(entries[a].0@ != entries[b].0@);
                } else {
                    assert(entries[b].0@ != entries[a].0@);
                }
            }
            assert forall|path: Seq<char>| #[trigger]
                files.to_set().contains(path) == self@.dom().contains(path) by {
                if files.contains(path) {
                    let j = choose|j: int| 0 <= j < files.len() && files[j] == path;
                    assert(paths@[j]@ == path);
                    lemma_entries_map_at(entries, j);
                }
                if self@.contains_key(path) {
                    lemma_entries_map_has(entries, path);
                    let j = choose|j: int|
                        0 <= j < entries.len() && (#[trigger] entries[j]).0@ == path;
                    assert(paths@[j]@ == path);
                    assert(files[j] == path);
                }
            }
            assert(files.to_set() =~= self@.dom());
        }
        paths
    }

    /// Writes the collection down.
    pub fn encode(&self) -> (res: Result<Vec<u8>, BlobsError>)
        ensures
            res matches Ok(data) && writes_collection(data@, self@),
    {
        proof {
            use_type_invariant(self);
            if self.entries@.len() > 0 {
                lemma_entries_map_at(self.entries@, 0);
            }
        }
        match cbor_to_vec(&self.entries) {
            Ok(data) => Ok(data),
            Err(_) => Err(BlobsError::EncodeCollection),
        }
    }

    /// Reads a collection that was written down.
    pub fn decode(data: &[u8]) -> (res: Result<Collection, BlobsError>)
        ensures
            match cbor_collection(data@) {
                Ok(map) => res matches Ok(collection) && collection@ == map,
                Err(cause) => res matches Err(error) && error@ == ErrorView::DecodeCollection(
                    cause,
                ),
            },
    {
        match cbor_from_slice(data) {
            Ok(entries) => Ok(Collection { entries }),
            Err(cause) => Err(BlobsError::DecodeCollection(cause)),
        }
    }
}

} // verus!
