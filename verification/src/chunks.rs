//! Reading a blob out of the store: opening it, cutting it into chunks, and joining chunks again.

use vstd::prelude::*;
use crate::buffer::{bytes_as_slice, bytes_contents};
use crate::error::BlobsError;
use crate::hash::BlobHash;
use crate::store::Lookup;

verus! {

/// The number of bytes in every chunk of a blob but the last.
pub const CHUNK_SIZE: usize = 1024;

/// How far opening a blob has come.
#[derive(Clone, Copy, Debug)]
pub enum OpenState {
    /// The blob is being looked up.
    LookUp,
    /// The blob's size is being asked for.
    GetSize,
    /// Nothing is left to do.
    Done,
}

/// What happened since the last action was handed out.
#[derive(Clone, Copy, Debug)]
pub enum OpenEvent {
    /// The store was asked for the blob.
    LookedUp(Lookup),
    /// The size of the blob is known.
    Sized(u64),
    /// The size of the blob could not be told.
    SizeFailed,
}

/// What to do next.
#[derive(Debug)]
pub enum OpenAction {
    /// Ask the store for the blob.
    LookUp(BlobHash),
    /// Ask for the size of the blob.
    GetSize,
    /// Report that the blob is open, with its size, or that it could not be opened. An open blob is
    /// read chunk by chunk from then on.
    Finish(Result<usize, BlobsError>),
}

/// Whether an event can happen in a state: it answers the action that led to the state.
pub open spec fn open_accepts(state: OpenState, event: OpenEvent) -> bool {
    match state {
        OpenState::LookUp => event is LookedUp,
        OpenState::GetSize => event is Sized || event is SizeFailed,
        OpenState::Done => false,
    }
}

/// What follows when an event happens in a state that accepts it.
pub open spec fn open_step(state: OpenState, event: OpenEvent) -> (OpenState, OpenAction) {
    match (state, event) {
        (OpenState::LookUp, OpenEvent::LookedUp(Lookup::Found)) => (
            OpenState::GetSize,
            OpenAction::GetSize,
        ),
        (OpenState::LookUp, OpenEvent::LookedUp(Lookup::Missing)) => (
            OpenState::Done,
            OpenAction::Finish(Err(BlobsError::HashNotFound)),
        ),
        (OpenState::LookUp, _) => (OpenState::Done, OpenAction::Finish(Err(BlobsError::LookUp))),
        (OpenState::GetSize, OpenEvent::Sized(size)) => (
            OpenState::Done,
            OpenAction::Finish(Ok(size as usize)),
        ),
        _ => (OpenState::Done, OpenAction::Finish(Err(BlobsError::BlobSize))),
    }
}

impl OpenState {
    /// Whether an event can happen in this state.
    pub fn accepts(&self, event: &OpenEvent) -> (res: bool)
        ensures
            res == open_accepts(*self, *event),
    {
        match (self, event) {
            (OpenState::LookUp, OpenEvent::LookedUp(_)) => true,
            (OpenState::GetSize, OpenEvent::Sized(_)) => true,
            (OpenState::GetSize, OpenEvent::SizeFailed) => true,
            _ => false,
        }
    }

    /// Takes in what happened, and says what to do next.
    pub fn step(self, event: OpenEvent) -> (res: (OpenState, OpenAction))
        requires
            open_accepts(self, event),
        ensures
            res == open_step(self, event),
    {
        match (self, event) {
            (OpenState::LookUp, OpenEvent::LookedUp(Lookup::Found)) => (
                OpenState::GetSize,
                OpenAction::GetSize,
            ),
            (OpenState::LookUp, OpenEvent::LookedUp(Lookup::Missing)) => (
                OpenState::Done,
                OpenAction::Finish(Err(BlobsError::HashNotFound)),
            ),
            (OpenState::LookUp, _) => (
                OpenState::Done,
                OpenAction::Finish(Err(BlobsError::LookUp)),
            ),
            (OpenState::GetSize, OpenEvent::Sized(size)) => (
                OpenState::Done,
                OpenAction::Finish(Ok(size as usize)),
            ),
            _ => (OpenState::Done, OpenAction::Finish(Err(BlobsError::BlobSize))),
        }
    }
}

/// How far reading an open blob has come. The chunk at hand starts at `index`.
#[derive(Clone, Copy, Debug)]
pub enum ReadState {
    /// A chunk is being read.
    ReadChunk { index: usize, size: usize },
    /// What came of reading the chunk is being handed on.
    Forward { index: usize, size: usize },
    /// Nothing is left to do.
    Done,
}

/// What happened since the last action was handed out.
#[derive(Clone, Copy, Debug)]
pub enum ReadEvent {
    /// The chunk was read, or could not be read.
    ChunkRead,
    /// What came of reading was taken, or, for `false`, nobody wants it any more.
    Forwarded(bool),
}

/// What to do next.
#[derive(Clone, Copy, Debug)]
pub enum ReadAction {
    /// Read up to `len` bytes of the blob, from `offset` on.
    ReadAt { offset: u64, len: usize },
    /// Hand on what came of reading the chunk, be it bytes or an error.
    Forward,
    /// Tell the receiver that there are no more chunks.
    Finish,
}

/// Whether an event can happen in a state: it answers the action that led to the state.
///
/// Where reading goes on, the start of the next chunk can be counted without overflow.
pub open spec fn read_accepts(state: ReadState, event: ReadEvent) -> bool {
    match state {
        ReadState::ReadChunk { .. } => event is ChunkRead,
        ReadState::Forward { index, .. } => match event {
            ReadEvent::Forwarded(ok) => ok ==> index + CHUNK_SIZE <= usize::MAX,
            _ => false,
        },
        ReadState::Done => false,
    }
}

/// Goes on to the chunk that starts at `index`, if the blob reaches that far.
pub open spec fn read_from(index: int, size: usize) -> (ReadState, ReadAction) {
    if index < size {
        (
            ReadState::ReadChunk { index: index as usize, size },
            ReadAction::ReadAt { offset: index as u64, len: CHUNK_SIZE },
        )
    } else {
        (ReadState::Done, ReadAction::Finish)
    }
}

/// What follows when an event happens in a state that accepts it.
pub open spec fn read_step(state: ReadState, event: ReadEvent) -> (ReadState, ReadAction) {
    match (state, event) {
        (ReadState::ReadChunk { index, size }, ReadEvent::ChunkRead) => (
            ReadState::Forward { index, size },
            ReadAction::Forward,
        ),
        (ReadState::Forward { index, size }, ReadEvent::Forwarded(true)) => read_from(
            index + CHUNK_SIZE,
            size,
        ),
        _ => (ReadState::Done, ReadAction::Finish),
    }
}

impl ReadState {
    /// Starts reading a blob of the given size.
    pub fn start(size: usize) -> (res: (ReadState, ReadAction))
        ensures
            res == read_from(0, size),
    {
        Self::go_to(0, size)
    }

    /// Goes on to the chunk that starts at `index`, if the blob reaches that far.
    fn go_to(index: usize, size: usize) -> (res: (ReadState, ReadAction))
        ensures
            res == read_from(index as int, size),
    {
        if index < size {
            (
                ReadState::ReadChunk { index, size },
                ReadAction::ReadAt { offset: index as u64, len: CHUNK_SIZE },
            )
        } else {
            (ReadState::Done, ReadAction::Finish)
        }
    }

    /// Whether an event can happen in this state.
    pub fn accepts(&self, event: &ReadEvent) -> (res: bool)
        ensures
            res == read_accepts(*self, *event),
    {
        match (self, event) {
            (ReadState::ReadChunk { .. }, ReadEvent::ChunkRead) => true,
            (ReadState::Forward { index, .. }, ReadEvent::Forwarded(ok)) => !*ok || *index
                <= usize::MAX - CHUNK_SIZE,
            _ => false,
        }
    }

    /// Takes in what happened, and says what to do next.
    pub fn step(self, event: ReadEvent) -> (res: (ReadState, ReadAction))
        requires
            read_accepts(self, event),
        ensures
            res == read_step(self, event),
    {
        match (self, event) {
            (ReadState::ReadChunk { index, size }, ReadEvent::ChunkRead) => (
                ReadState::Forward { index, size },
                ReadAction::Forward,
            ),
            (ReadState::Forward { index, size }, ReadEvent::Forwarded(true)) => Self::go_to(
                index + CHUNK_SIZE,
                size,
            ),
            _ => (ReadState::Done, ReadAction::Finish),
        }
    }
}

/// What the receiver of a blob's chunks sees next. Chunks are of type `C`.
pub enum JoinEvent<C> {
    /// A chunk.
    Chunk(C),
    /// A chunk that could not be read.
    ChunkFailed,
    /// There are no more chunks.
    Ended,
}

/// What to do next. The bytes of the blob are of type `D`.
pub enum JoinAction<D> {
    /// Wait for the next chunk, keeping the bytes so far.
    Receive(D),
    /// Report the bytes of the blob.
    Finish(Result<D, BlobsError>),
}

impl View for JoinEvent<bytes::Bytes> {
    type V = JoinEvent<Seq<u8>>;

    open spec fn view(&self) -> JoinEvent<Seq<u8>> {
        match *self {
            JoinEvent::Chunk(chunk) => JoinEvent::Chunk(bytes_contents(chunk)),
            JoinEvent::ChunkFailed => JoinEvent::ChunkFailed,
            JoinEvent::Ended => JoinEvent::Ended,
        }
    }
}

impl View for JoinAction<Vec<u8>> {
    type V = JoinAction<Seq<u8>>;

    open spec fn view(&self) -> JoinAction<Seq<u8>> {
        match *self {
            JoinAction::Receive(data) => JoinAction::Receive(data@),
            JoinAction::Finish(Ok(data)) => JoinAction::Finish(Ok(data@)),
            JoinAction::Finish(Err(error)) => JoinAction::Finish(Err(error)),
        }
    }
}

/// What follows when the receiver, having joined `data` so far, sees an event.
pub open spec fn join_step(data: Seq<u8>, event: JoinEvent<Seq<u8>>) -> JoinAction<Seq<u8>> {
    match event {
        JoinEvent::Chunk(chunk) => JoinAction::Receive(data + chunk),
        JoinEvent::ChunkFailed => JoinAction::Finish(Err(BlobsError::ReadBlob)),
        JoinEvent::Ended => JoinAction::Finish(Ok(data)),
    }
}

/// Joins the chunks of a blob: takes in the next one, and says what to do next.
pub fn join_chunk(data: Vec<u8>, event: JoinEvent<bytes::Bytes>) -> (res: JoinAction<Vec<u8>>)
    ensures
        res@ == join_step(data@, event@),
{
    match event {
        JoinEvent::Chunk(chunk) => {
            let mut joined = data;
            joined.extend_from_slice(bytes_as_slice(&chunk));
            assert(joined@ =~= data@ + bytes_contents(chunk));
            JoinAction::Receive(joined)
        },
        JoinEvent::ChunkFailed => JoinAction::Finish(Err(BlobsError::ReadBlob)),
        JoinEvent::Ended => JoinAction::Finish(Ok(data)),
    }
}

} // verus!
