//! The ways in which an operation fails, and their texts.

use vstd::prelude::*;
use vstd::string::StringExecFns;
use crate::hash::{hash_text, hash_to_text, BlobHash};
use crate::text::{decimal, decimal_text};

verus! {

/// Why an operation failed. Texts are of type `S`.
#[derive(Debug, PartialEq, Eq)]
pub enum BlobsError<S = String> {
    /// No tunnel to the peer could be opened.
    OpenTunnel,
    /// The request could not be sent to the peer.
    SendRequest,
    /// The peer's reply is not one byte long; its length.
    InvalidResponseLength(usize),
    /// The peer's reply is neither yes nor no; the reply.
    InvalidResponseCode(u8),
    /// The peer did not reply.
    UnableToAsk,
    /// The peer does not hold the blob.
    PeerLacksHash,
    /// The peer sent another blob; the hash of what it sent.
    InvalidHash(BlobHash),
    /// A blob could not be brought into the store.
    Import,
    /// A blob could not be deleted from the store.
    Delete,
    /// The store could not be asked for the blob.
    LookUp,
    /// The store does not hold the blob.
    HashNotFound,
    /// The store could not tell the size of the blob.
    BlobSize,
    /// The blob could not be read to its end.
    ReadBlob,
    /// The tags could not be listed.
    ListTags,
    /// A tag could not be read; the cause.
    ReadTag(S),
    /// No tag has the name of the collection; the name.
    TagNotFound(S),
    /// The tag of the collection could not be stored.
    StoreTag,
    /// The collection could not be written down.
    EncodeCollection,
    /// What is stored under the name of the collection is not a collection; the cause.
    DecodeCollection(S),
    /// The collection has no file at the path.
    FileNotFound,
}

/// The errors as contracts speak of them.
pub type ErrorView = BlobsError<Seq<char>>;

impl View for BlobsError<String> {
    type V = ErrorView;

    open spec fn view(&self) -> ErrorView {
        match *self {
            BlobsError::OpenTunnel => BlobsError::OpenTunnel,
            BlobsError::SendRequest => BlobsError::SendRequest,
            BlobsError::InvalidResponseLength(length) => BlobsError::InvalidResponseLength(length),
            BlobsError::InvalidResponseCode(code) => BlobsError::InvalidResponseCode(code),
            BlobsError::UnableToAsk => BlobsError::UnableToAsk,
            BlobsError::PeerLacksHash => BlobsError::PeerLacksHash,
            BlobsError::InvalidHash(hash) => BlobsError::InvalidHash(hash),
            BlobsError::Import => BlobsError::Import,
            BlobsError::Delete => BlobsError::Delete,
            BlobsError::LookUp => BlobsError::LookUp,
            BlobsError::HashNotFound => BlobsError::HashNotFound,
            BlobsError::BlobSize => BlobsError::BlobSize,
            BlobsError::ReadBlob => BlobsError::ReadBlob,
            BlobsError::ListTags => BlobsError::ListTags,
            BlobsError::ReadTag(cause) => BlobsError::ReadTag(cause@),
            BlobsError::TagNotFound(name) => BlobsError::TagNotFound(name@),
            BlobsError::StoreTag => BlobsError::StoreTag,
            BlobsError::EncodeCollection => BlobsError::EncodeCollection,
            BlobsError::DecodeCollection(cause) => BlobsError::DecodeCollection(cause@),
            BlobsError::FileNotFound => BlobsError::FileNotFound,
        }
    }
}

/// A result as contracts speak of it.
pub open spec fn result_view<T>(result: Result<T, BlobsError<String>>) -> Result<T, ErrorView> {
    match result {
        Ok(value) => Ok(value),
        Err(error) => Err(error@),
    }
}

/// The text of an error. Where it was the network or the store that failed, the error that it gave
/// is reported as it is, and there is no text.
pub open spec fn error_text(error: ErrorView) -> Option<Seq<char>> {
    match error {
        BlobsError::InvalidResponseLength(length) => Some(
            "Invalid response length from peer "@ + decimal(length as nat),
        ),
        BlobsError::InvalidResponseCode(code) => Some(
            "Invalid response code from peer "@ + decimal(code as nat),
        ),
        BlobsError::UnableToAsk => Some("Unable to ask peer"@),
        BlobsError::PeerLacksHash => Some("Peer does not have hash"@),
        BlobsError::InvalidHash(hash) => Some("Peer returned invalid hash "@ + hash_text(hash@)),
        BlobsError::HashNotFound => Some("Unable to find hash"@),
        BlobsError::ReadTag(cause) => Some("Error reading tags: "@ + cause),
        BlobsError::TagNotFound(name) => Some("Tag not found for collection: "@ + name),
        BlobsError::DecodeCollection(cause) => Some("Failed to deserialize collection: "@ + cause),
        BlobsError::FileNotFound => Some("File not found"@),
        _ => None,
    }
}

impl BlobsError<String> {
    /// The text of the error, unless the error of the network or the store is to be reported.
    pub fn message(&self) -> (res: Option<String>)
        ensures
            match res {
                Some(text) => error_text(self@) == Some(text@),
                None => error_text(self@) is None,
            },
    {
        match self {
            BlobsError::InvalidResponseLength(length) => Some(
                "Invalid response length from peer ".to_owned().concat(
                    decimal_text(*length).as_str(),
                ),
            ),
            BlobsError::InvalidResponseCode(code) => Some(
                "Invalid response code from peer ".to_owned().concat(
                    decimal_text(*code as usize).as_str(),
                ),
            ),
            BlobsError::UnableToAsk => Some("Unable to ask peer".to_owned()),
            BlobsError::PeerLacksHash => Some("Peer does not have hash".to_owned()),
            BlobsError::InvalidHash(hash) => Some(
                "Peer returned invalid hash ".to_owned().concat(hash_to_text(hash).as_str()),
            ),
            BlobsError::HashNotFound => Some("Unable to find hash".to_owned()),
            BlobsError::ReadTag(cause) => Some(
                "Error reading tags: ".to_owned().concat(cause.as_str()),
            ),
            BlobsError::TagNotFound(name) => Some(
                "Tag not found for collection: ".to_owned().concat(name.as_str()),
            ),
            BlobsError::DecodeCollection(cause) => Some(
                "Failed to deserialize collection: ".to_owned().concat(cause.as_str()),
            ),
            BlobsError::FileNotFound => Some("File not found".to_owned()),
            _ => None,
        }
    }
}

} // verus!
