//! Answering a peer: what a node does with a tunnel that a peer has opened to it.

use vstd::prelude::*;
use crate::blobs::VeilidIrohBlobs;
use crate::buffer::{bytes_as_slice, bytes_contents};
use crate::hash::{hash_of, BlobHash, HASH_LEN};
use crate::store::Lookup;
use crate::wire::{
    data_message, encode_data, encode_status, status_message, ASK, DONE, ERR, HAS, NO, YES,
};

verus! {

/// How far the answer to a peer has come.
#[derive(Clone, Copy, Debug)]
pub enum ServeState {
    /// The peer's request is awaited.
    AwaitRequest,
    /// The blob that the peer named is being looked up.
    LookUp { command: u8, hash: BlobHash },
    /// The peer is being told that the blob is held.
    ConfirmFound { command: u8, hash: BlobHash },
    /// The blob is being opened for reading.
    OpenFile,
    /// The next chunk of the blob is awaited.
    AwaitChunk,
    /// A chunk of the blob is being sent.
    SendChunk,
    /// The last message is being sent.
    SendLast,
    /// Nothing is left to do.
    Done,
}

/// What happened since the last action was handed out. Messages are of type `M`, and chunks of a
/// blob of type `C`.
pub enum ServeEvent<M, C> {
    /// The peer sent a message.
    Received(M),
    /// The peer sent no message in time.
    ReceiveTimedOut,
    /// The peer closed the tunnel.
    TunnelClosed,
    /// The store was asked for the blob.
    LookedUp(Lookup),
    /// A message was sent, or, for `false`, could not be sent.
    Sent(bool),
    /// The blob was opened for reading, or, for `false`, could not be opened.
    FileOpened(bool),
    /// A chunk of the blob was read.
    ChunkRead(C),
    /// A chunk of the blob could not be read.
    ChunkFailed,
    /// No chunk was read in time.
    ChunkTimedOut,
    /// There are no more chunks.
    FileEnded,
}

/// What to do next. Messages are of type `M`.
pub enum ServeAction<M> {
    /// Wait for the peer's request, for no longer than the timeout.
    Receive,
    /// Ask the store whether it holds the blob.
    LookUp(BlobHash),
    /// Send a message to the peer.
    Send(M),
    /// Open the blob for reading.
    OpenFile(BlobHash),
    /// Wait for the next chunk of the blob, for no longer than the timeout.
    ReadChunk,
    /// Let go of the tunnel.
    Finish,
}

impl View for ServeEvent<Vec<u8>, bytes::Bytes> {
    type V = ServeEvent<Seq<u8>, Seq<u8>>;

    open spec fn view(&self) -> ServeEvent<Seq<u8>, Seq<u8>> {
        match *self {
            ServeEvent::Received(message) => ServeEvent::Received(message@),
            ServeEvent::ReceiveTimedOut => ServeEvent::ReceiveTimedOut,
            ServeEvent::TunnelClosed => ServeEvent::TunnelClosed,
            ServeEvent::LookedUp(lookup) => ServeEvent::LookedUp(lookup),
            ServeEvent::Sent(ok) => ServeEvent::Sent(ok),
            ServeEvent::FileOpened(ok) => ServeEvent::FileOpened(ok),
            ServeEvent::ChunkRead(chunk) => ServeEvent::ChunkRead(bytes_contents(chunk)),
            ServeEvent::ChunkFailed => ServeEvent::ChunkFailed,
            ServeEvent::ChunkTimedOut => ServeEvent::ChunkTimedOut,
            ServeEvent::FileEnded => ServeEvent::FileEnded,
        }
    }
}

impl View for ServeAction<Vec<u8>> {
    type V = ServeAction<Seq<u8>>;

    open spec fn view(&self) -> ServeAction<Seq<u8>> {
        match *self {
            ServeAction::Receive => ServeAction::Receive,
            ServeAction::LookUp(hash) => ServeAction::LookUp(hash),
            ServeAction::Send(message) => ServeAction::Send(message@),
            ServeAction::OpenFile(hash) => ServeAction::OpenFile(hash),
            ServeAction::ReadChunk => ServeAction::ReadChunk,
            ServeAction::Finish => ServeAction::Finish,
        }
    }
}

/// Whether an event can happen in a state: it answers the action that led to the state.
///
/// A request has at least its command. A chunk leaves room for a command in front of it.
pub open spec fn serve_accepts(state: ServeState, event: ServeEvent<Seq<u8>, Seq<u8>>) -> bool {
    match state {
        ServeState::AwaitRequest => match event {
            ServeEvent::Received(message) => message.len() > 0,
            ServeEvent::ReceiveTimedOut | ServeEvent::TunnelClosed => true,
            _ => false,
        },
        ServeState::LookUp { .. } => event is LookedUp,
        ServeState::ConfirmFound { .. } => event is Sent,
        ServeState::OpenFile => event is FileOpened,
        ServeState::AwaitChunk => match event {
            ServeEvent::ChunkRead(chunk) => chunk.len() < isize::MAX,
            ServeEvent::ChunkFailed | ServeEvent::ChunkTimedOut | ServeEvent::FileEnded => true,
            _ => false,
        },
        ServeState::SendChunk => event is Sent,
        ServeState::SendLast => event is Sent,
        ServeState::Done => false,
    }
}

/// Whether a message asks for a blob in a way that is understood.
pub open spec fn is_request(message: Seq<u8>) -> bool {
    &&& message.len() == HASH_LEN + 1
    &&& message[0] == ASK || message[0] == HAS
}

/// How many bytes follow the command of a request, where they are not as many as a hash has.
pub open spec fn wrong_hash_length(message: Seq<u8>) -> Option<usize> {
    if (message[0] == ASK || message[0] == HAS) && message.len() != HASH_LEN + 1 {
        Some((message.len() - 1) as usize)
    } else {
        None
    }
}

/// Tells how many bytes follow the command of a request, where they are not as many as a hash has.
pub fn refused_hash_length(message: &Vec<u8>) -> (res: Option<usize>)
    requires
        message@.len() > 0,
    ensures
        res == wrong_hash_length(message@),
{
    let command: u8 = message[0];
    if (command == ASK || command == HAS) && message.len() - 1 != HASH_LEN {
        Some(message.len() - 1)
    } else {
        None
    }
}

/// Ends the answer with one more message.
pub open spec fn serve_last(command: u8) -> (ServeState, ServeAction<Seq<u8>>) {
    (ServeState::SendLast, ServeAction::Send(status_message(command)))
}

/// What follows when an event happens in a state that accepts it.
pub open spec fn serve_step(state: ServeState, event: ServeEvent<Seq<u8>, Seq<u8>>) -> (
    ServeState,
    ServeAction<Seq<u8>>,
) {
    match (state, event) {
        (ServeState::AwaitRequest, ServeEvent::Received(message)) => if is_request(message) {
            let hash = hash_of(message.skip(1));
            (ServeState::LookUp { command: message[0], hash }, ServeAction::LookUp(hash))
        } else {
            serve_last(ERR)
        },
        (ServeState::LookUp { command, hash }, ServeEvent::LookedUp(lookup)) => if lookup is Found {
            (
                ServeState::ConfirmFound { command, hash },
                ServeAction::Send(status_message(YES)),
            )
        } else {
            serve_last(NO)
        },
        (ServeState::ConfirmFound { command, hash }, ServeEvent::Sent(_)) => if command == ASK {
            (ServeState::OpenFile, ServeAction::OpenFile(hash))
        } else {
            (ServeState::Done, ServeAction::Finish)
        },
        (ServeState::OpenFile, ServeEvent::FileOpened(ok)) => if ok {
            (ServeState::AwaitChunk, ServeAction::ReadChunk)
        } else {
            serve_last(ERR)
        },
        (ServeState::AwaitChunk, ServeEvent::ChunkRead(chunk)) => (
            ServeState::SendChunk,
            ServeAction::Send(data_message(chunk)),
        ),
        (ServeState::AwaitChunk, ServeEvent::ChunkFailed) => serve_last(ERR),
        (ServeState::AwaitChunk, _) => serve_last(DONE),
        (ServeState::SendChunk, ServeEvent::Sent(ok)) => if ok {
            (ServeState::AwaitChunk, ServeAction::ReadChunk)
        } else {
            (ServeState::Done, ServeAction::Finish)
        },
        _ => (ServeState::Done, ServeAction::Finish),
    }
}

impl ServeState {
    /// Whether an event can happen in this state.
    pub fn accepts(&self, event: &ServeEvent<Vec<u8>, bytes::Bytes>) -> (res: bool)
        ensures
            res == serve_accepts(*self, event@),
    {
        match (self, event) {
            (ServeState::AwaitRequest, ServeEvent::Received(message)) => message.len() > 0,
            (ServeState::AwaitRequest, ServeEvent::ReceiveTimedOut) => true,
            (ServeState::AwaitRequest, ServeEvent::TunnelClosed) => true,
            (ServeState::LookUp { .. }, ServeEvent::LookedUp(_)) => true,
            (ServeState::ConfirmFound { .. }, ServeEvent::Sent(_)) => true,
            (ServeState::OpenFile, ServeEvent::FileOpened(_)) => true,
            (ServeState::AwaitChunk, ServeEvent::ChunkRead(chunk)) => {
                let bytes = bytes_as_slice(chunk);
                bytes.len() < isize::MAX as usize
            },
            (ServeState::AwaitChunk, ServeEvent::ChunkFailed) => true,
            (ServeState::AwaitChunk, ServeEvent::ChunkTimedOut) => true,
            (ServeState::AwaitChunk, ServeEvent::FileEnded) => true,
            (ServeState::SendChunk, ServeEvent::Sent(_)) => true,
            (ServeState::SendLast, ServeEvent::Sent(_)) => true,
            _ => false,
        }
    }

    /// Takes in what happened, and says what to do next.
    pub fn step(self, event: ServeEvent<Vec<u8>, bytes::Bytes>) -> (res: (
        ServeState,
        ServeAction<Vec<u8>>,
    ))
        requires
            serve_accepts(self, event@),
        ensures
            (res.0, res.1@) == serve_step(self, event@),
    {
        match (self, event) {
            (ServeState::AwaitRequest, ServeEvent::Received(message)) => {
                let command: u8 = message[0];
                let hash_bytes = vstd::slice::slice_subrange(message.as_slice(), 1, message.len());
                assert(hash_bytes@ == message@.skip(1));
                if command == ASK || command == HAS {
                    match BlobHash::from_slice(hash_bytes) {
                        Some(hash) => (
                            ServeState::LookUp { command, hash },
                            ServeAction::LookUp(hash),
                        ),
                        None => (ServeState::SendLast, ServeAction::Send(encode_status(ERR))),
                    }
                } else {
                    (ServeState::SendLast, ServeAction::Send(encode_status(ERR)))
                }
            },
            (ServeState::LookUp { command, hash }, ServeEvent::LookedUp(lookup)) => {
                if VeilidIrohBlobs::has_hash(&lookup) {
                    (
                        ServeState::ConfirmFound { command, hash },
                        ServeAction::Send(encode_status(YES)),
                    )
                } else {
                    (ServeState::SendLast, ServeAction::Send(encode_status(NO)))
                }
            },
            (ServeState::ConfirmFound { command, hash }, ServeEvent::Sent(_)) => {
                if command == ASK {
                    (ServeState::OpenFile, ServeAction::OpenFile(hash))
                } else {
                    (ServeState::Done, ServeAction::Finish)
                }
            },
            (ServeState::OpenFile, ServeEvent::FileOpened(ok)) => {
                if ok {
                    (ServeState::AwaitChunk, ServeAction::ReadChunk)
                } else {
                    (ServeState::SendLast, ServeAction::Send(encode_status(ERR)))
                }
            },
            (ServeState::AwaitChunk, ServeEvent::ChunkRead(chunk)) => (
                ServeState::SendChunk,
                ServeAction::Send(encode_data(&chunk)),
            ),
            (ServeState::AwaitChunk, ServeEvent::ChunkFailed) => (
                ServeState::SendLast,
                ServeAction::Send(encode_status(ERR)),
            ),
            (ServeState::AwaitChunk, _) => (
                ServeState::SendLast,
                ServeAction::Send(encode_status(DONE)),
            ),
            (ServeState::SendChunk, ServeEvent::Sent(ok)) => {
                if ok {
                    (ServeState::AwaitChunk, ServeAction::ReadChunk)
                } else {
                    (ServeState::Done, ServeAction::Finish)
                }
            },
            _ => (ServeState::Done, ServeAction::Finish),
        }
    }
}

} // verus!
