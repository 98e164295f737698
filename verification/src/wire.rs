//! The messages that two nodes exchange over a tunnel.
//!
//! The first byte of a message is its command. A request carries the hash of a blob behind its
//! command, a `DATA` message carries a piece of the blob, and every other message is its command
//! alone.

use vstd::prelude::*;
use crate::buffer::{
    bytes_as_slice, bytes_contents, buffer_put, buffer_put_u8, buffer_to_vec, buffer_with_capacity,
};
use crate::hash::BlobHash;

verus! {

/// Reply: the blob is not held here.
pub const NO: u8 = 0x00;

/// Reply: the blob is held here.
pub const YES: u8 = 0x01;

/// Request: is the blob held there?
pub const HAS: u8 = 0x10;

/// Request: send the blob, if it is held there.
pub const ASK: u8 = 0x11;

/// A piece of the blob.
pub const DATA: u8 = 0x20;

/// The end of the blob.
pub const DONE: u8 = 0x22;

/// The request was not understood, or the blob could not be read.
pub const ERR: u8 = 0xF0;

/// How long to wait for the next message or the next chunk, in milliseconds.
pub const DEFAULT_TIMEOUT_MILLIS: u64 = 4000;

/// A message that is its command alone.
pub open spec fn status_message(command: u8) -> Seq<u8> {
    seq![command]
}

/// A request for the blob with the given hash.
pub open spec fn request_message(command: u8, hash: Seq<u8>) -> Seq<u8> {
    seq![command] + hash
}

/// A message with a piece of a blob.
pub open spec fn data_message(chunk: Seq<u8>) -> Seq<u8> {
    seq![DATA] + chunk
}

/// Makes a message that is its command alone.
pub fn encode_status(command: u8) -> (res: Vec<u8>)
    ensures
        res@ == status_message(command),
{
    let mut message: Vec<u8> = Vec::new();
    message.push(command);
    message
}

/// Makes a request for the blob with the given hash.
pub fn encode_request(command: u8, hash: &BlobHash) -> (res: Vec<u8>)
    ensures
        res@ == request_message(command, hash@),
{
    let bytes = hash.as_slice();
    let mut message = buffer_with_capacity(bytes.len() + 1);
    buffer_put_u8(&mut message, command);
    buffer_put(&mut message, bytes);
    let res = buffer_to_vec(&message);
    assert(res@ =~= request_message(command, hash@));
    res
}

/// Makes a message with a piece of a blob.
pub fn encode_data(chunk: &bytes::Bytes) -> (res: Vec<u8>)
    requires
        bytes_contents(*chunk).len() < isize::MAX,
    ensures
        res@ == data_message(bytes_contents(*chunk)),
{
    let bytes = bytes_as_slice(chunk);
    let mut message = buffer_with_capacity(bytes.len() + 1);
    buffer_put_u8(&mut message, DATA);
    buffer_put(&mut message, bytes);
    let res = buffer_to_vec(&message);
    assert(res@ =~= data_message(bytes_contents(*chunk)));
    res
}

} // verus!
