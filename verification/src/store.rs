//! What the blob store answers, as the operations of this crate see it.

use vstd::prelude::*;

verus! {

/// What came of looking up a blob in the store.
#[derive(Clone, Copy, Debug, PartialEq, Eq)]
pub enum Lookup {
    /// The store holds the blob.
    Found,
    /// The store does not hold the blob.
    Missing,
    /// The store could not be read.
    Failed,
}

/// How the content of a blob is to be read.
#[derive(Clone, Copy, Debug, PartialEq, Eq)]
pub enum BlobFormat {
    /// Plain bytes.
    Raw,
    /// A sequence of hashes of other blobs.
    HashSeq,
}

/// What becomes of a file that is brought into the store.
#[derive(Clone, Copy, Debug, PartialEq, Eq)]
pub enum ImportMode {
    /// The store copies the file.
    Copy,
    /// The store refers to the file where it lies, if it can.
    TryReference,
}

/// How a file is to be brought into the store.
#[derive(Clone, Copy, Debug, PartialEq, Eq)]
pub struct FileImport {
    /// What becomes of the file.
    pub mode: ImportMode,
    /// How the content of the blob is to be read.
    pub format: BlobFormat,
}

/// How a file on disk is brought into the store: copied, as plain bytes.
pub open spec fn file_import() -> FileImport {
    FileImport { mode: ImportMode::Copy, format: BlobFormat::Raw }
}

/// How a stream of chunks is brought into the store: as plain bytes.
pub open spec fn stream_format() -> BlobFormat {
    BlobFormat::Raw
}

} // verus!
