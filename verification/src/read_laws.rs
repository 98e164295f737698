//! What reading a blob out of the store comes to, as a whole: from its hash to all its bytes.

use vstd::prelude::*;
use crate::chunks::{
    join_step, open_accepts, open_step, read_accepts, read_from, read_step, JoinAction, JoinEvent,
    OpenAction, OpenEvent, OpenState, ReadAction, ReadEvent, ReadState,
};
use crate::error::BlobsError;
use crate::hash::BlobHash;
use crate::store::Lookup;
use crate::transfer_laws::{join_all, joined, law_join, read_at, size_fits};

verus! {

/// What opening a blob comes to when each action is done in turn: the blobs that were looked up, and
/// the result. It comes to nothing where it does not end within so many rounds, does not accept what
/// happens, or reports too early.
pub open spec fn open_run(
    holds: spec_fn(BlobHash) -> Lookup,
    size: Option<u64>,
    next: (OpenState, OpenAction),
    rounds: nat,
) -> Option<(Seq<BlobHash>, Result<usize, BlobsError>)>
    decreases rounds,
{
    if let OpenAction::Finish(result) = next.1 {
        if next.0 is Done {
            Some((Seq::empty(), result))
        } else {
            None
        }
    } else if rounds == 0 {
        None
    } else {
        let event = match next.1 {
            OpenAction::LookUp(hash) => OpenEvent::LookedUp(holds(hash)),
            _ => match size {
                Some(bytes) => OpenEvent::Sized(bytes),
                None => OpenEvent::SizeFailed,
            },
        };
        if !open_accepts(next.0, event) {
            None
        } else {
            match open_run(holds, size, open_step(next.0, event), (rounds - 1) as nat) {
                Some(later) => Some(
                    match next.1 {
                        OpenAction::LookUp(hash) => (seq![hash] + later.0, later.1),
                        _ => later,
                    },
                ),
                None => None,
            }
        }
    }
}

/// Opening a blob looks up that blob alone. A blob that is found and whose size is told opens with
/// exactly that size. One that is not there is reported as not found, and a store that fails is
/// reported as failing.
pub proof fn law_open_outcome(
    holds: spec_fn(BlobHash) -> Lookup,
    size: Option<u64>,
    hash: BlobHash,
    rounds: nat,
)
    requires
        rounds >= 2,
        size matches Some(bytes) ==> bytes <= usize::MAX,
    ensures
        open_run(holds, size, (OpenState::LookUp, OpenAction::LookUp(hash)), rounds) matches Some(
            trace,
        ) && {
            &&& trace.0 == seq![hash]
            &&& match (holds(hash), size) {
                (Lookup::Found, Some(bytes)) => trace.1 matches Ok(opened) && opened == bytes,
                (Lookup::Found, None) => trace.1 == Err::<usize, BlobsError>(BlobsError::BlobSize),
                (Lookup::Missing, _) => trace.1 == Err::<usize, BlobsError>(
                    BlobsError::HashNotFound,
                ),
                (Lookup::Failed, _) => trace.1 == Err::<usize, BlobsError>(BlobsError::LookUp),
            }
        },
{
    reveal_with_fuel(open_run, 3);
    assert(seq![hash] + Seq::<BlobHash>::empty() =~= seq![hash]);
}

/// Whether an action is the one that a state waits for the answer to.
pub open spec fn open_asks(next: (OpenState, OpenAction)) -> bool {
    match next.0 {
        OpenState::LookUp => next.1 is LookUp,
        OpenState::GetSize => next.1 is GetSize,
        OpenState::Done => next.1 is Finish,
    }
}

/// Opening accepts whatever answers its action, and nothing else.
pub proof fn law_open_accepts(next: (OpenState, OpenAction), event: OpenEvent)
    requires
        open_asks(next),
    ensures
        open_accepts(next.0, event) <==> match next.1 {
            OpenAction::LookUp(_) => event is LookedUp,
            OpenAction::GetSize => event is Sized || event is SizeFailed,
            OpenAction::Finish(_) => false,
        },
        open_accepts(next.0, event) ==> open_asks(open_step(next.0, event)),
{
}

/// What reading a blob hands on when each action is done in turn, with the chunk that was read last,
/// after so many chunks were handed on. There is nothing where reading does not end within so many
/// rounds, does not accept what happens, or ends too early.
pub open spec fn read_run(
    blob: Seq<u8>,
    takes: spec_fn(nat) -> bool,
    next: (ReadState, ReadAction),
    chunk: Seq<u8>,
    handed: nat,
    rounds: nat,
) -> Option<Seq<Seq<u8>>>
    decreases rounds,
{
    if next.1 is Finish {
        if next.0 is Done {
            Some(Seq::empty())
        } else {
            None
        }
    } else if rounds == 0 {
        None
    } else {
        let event = match next.1 {
            ReadAction::Forward => ReadEvent::Forwarded(takes(handed)),
            _ => ReadEvent::ChunkRead,
        };
        if !read_accepts(next.0, event) {
            None
        } else {
            let then = read_step(next.0, event);
            let fewer = (rounds - 1) as nat;
            match next.1 {
                ReadAction::ReadAt { offset, len } => read_run(
                    blob,
                    takes,
                    then,
                    read_at(blob, offset as int, len as int),
                    handed,
                    fewer,
                ),
                _ => match read_run(blob, takes, then, chunk, handed + 1, fewer) {
                    Some(later) => Some(seq![chunk] + later),
                    None => None,
                },
            }
        }
    }
}

/// What is to be handed on of a blob from an index on: 1024 bytes at a time, and in the end what is
/// left, up to the first chunk that nobody takes.
pub open spec fn blob_chunks(
    blob: Seq<u8>,
    takes: spec_fn(nat) -> bool,
    index: int,
    handed: nat,
) -> Seq<Seq<u8>>
    decreases blob.len() - index,
{
    if index >= blob.len() {
        Seq::empty()
    } else if index + 1024 >= blob.len() {
        seq![blob.subrange(index, blob.len() as int)]
    } else {
        seq![blob.subrange(index, index + 1024)] + if takes(handed) {
            blob_chunks(blob, takes, index + 1024, handed + 1)
        } else {
            Seq::empty()
        }
    }
}

/// However many chunks are taken, reading hands on the bytes of the blob in order, 1024 at a time and
/// in the end what is left, and stops when a chunk is not taken.
pub proof fn law_read_outcome(
    blob: Seq<u8>,
    takes: spec_fn(nat) -> bool,
    index: int,
    chunk: Seq<u8>,
    handed: nat,
    rounds: nat,
)
    requires
        size_fits(blob.len()),
        0 <= index <= usize::MAX,
        rounds >= 2 * (blob.len() - index),
    ensures
        read_run(
            blob,
            takes,
            read_from(index, blob.len() as usize),
            chunk,
            handed,
            rounds,
        ) == Some(blob_chunks(blob, takes, index, handed)),
    decreases blob.len() - index,
{
    let size = blob.len() as usize;
    let start = read_from(index, size);
    if index < blob.len() {
        let last = index + 1024 >= blob.len();
        let piece = if last {
            blob.subrange(index, blob.len() as int)
        } else {
            blob.subrange(index, index + 1024)
        };
        let fewer1 = (rounds - 1) as nat;
        let fewer2 = (rounds - 2) as nat;
        let read = read_step(start.0, ReadEvent::ChunkRead);
        let then = read_step(read.0, ReadEvent::Forwarded(takes(handed)));
        assert(start.1 matches ReadAction::ReadAt { offset, len } && offset == index && len == 1024);
        assert(read_at(blob, index, 1024) =~= piece);
        assert(read_run(blob, takes, start, chunk, handed, rounds) == read_run(
            blob,
            takes,
            read,
            piece,
            handed,
            fewer1,
        ));
        let later = read_run(blob, takes, then, piece, handed + 1, fewer2);
        assert(read_run(blob, takes, read, piece, handed, fewer1) == match later {
            Some(chunks) => Some(seq![piece] + chunks),
            None => None,
        });
        assert(seq![piece] + Seq::<Seq<u8>>::empty() =~= seq![piece]);
        if takes(handed) && !last {
            law_read_outcome(blob, takes, index + 1024, piece, handed + 1, fewer2);
        } else {
            assert(later == Some(Seq::<Seq<u8>>::empty()));
        }
    }
}

/// The chunks of a blob, all of them taken, are the blob.
proof fn lemma_chunks_joined(blob: Seq<u8>, index: int, handed: nat)
    requires
        0 <= index,
    ensures
        joined(blob_chunks(blob, |n: nat| true, index, handed)) == if index < blob.len() {
            blob.skip(index)
        } else {
            Seq::empty()
        },
    decreases blob.len() - index,
{
    let chunks = blob_chunks(blob, |n: nat| true, index, handed);
    if index < blob.len() {
        if index + 1024 >= blob.len() {
            reveal_with_fuel(joined, 2);
            assert(chunks.skip(1) =~= Seq::empty());
            assert(joined(chunks) =~= blob.skip(index));
        } else {
            lemma_chunks_joined(blob, index + 1024, handed + 1);
            let later = blob_chunks(blob, |n: nat| true, index + 1024, handed + 1);
            assert(chunks.skip(1) =~= later);
            assert(joined(chunks) =~= blob.skip(index));
        }
    }
}

/// Opening a blob that the store holds and reading it, from the size that opening reports, hands out
/// all its bytes: the chunks, joined, are the blob.
pub proof fn law_read_held_blob(
    holds: spec_fn(BlobHash) -> Lookup,
    hash: BlobHash,
    blob: Seq<u8>,
    rounds: nat,
)
    requires
        holds(hash) is Found,
        size_fits(blob.len()),
        blob.len() <= u64::MAX,
        rounds >= 2 * blob.len(),
    ensures
        open_run(
            holds,
            Some(blob.len() as u64),
            (OpenState::LookUp, OpenAction::LookUp(hash)),
            2,
        ) matches Some(opened) && opened.1 matches Ok(size) && {
            &&& read_run(
                blob,
                |n: nat| true,
                read_from(0, size),
                Seq::empty(),
                0,
                rounds,
            ) matches Some(chunks) && {
                &&& joined(chunks) == blob
                &&& join_all(Seq::empty(), chunks) == JoinAction::<Seq<u8>>::Finish(Ok(blob))
            }
        },
{
    law_open_outcome(holds, Some(blob.len() as u64), hash, 2);
    law_read_outcome(blob, |n: nat| true, 0, Seq::empty(), 0, rounds);
    lemma_chunks_joined(blob, 0, 0);
    let chunks = blob_chunks(blob, |n: nat| true, 0, 0);
    assert(blob.skip(0) =~= blob);
    assert(joined(chunks) =~= blob);
    law_join(Seq::empty(), chunks);
    assert(Seq::<u8>::empty() + blob =~= blob);
}

/// A read asks for 1024 bytes, whatever the size of the blob, and the next one starts 1024 bytes
/// further on.
pub proof fn law_read_strides(index: usize, size: usize)
    requires
        index < size,
        index + 1024 <= usize::MAX,
    ensures
        ({
            let start = read_from(index as int, size);
            let read = read_step(start.0, ReadEvent::ChunkRead);
            let then = read_step(read.0, ReadEvent::Forwarded(true));
            &&& start.1 == ReadAction::ReadAt { offset: index as u64, len: 1024 }
            &&& read.1 is Forward
            &&& if index + 1024 < size {
                then.1 == ReadAction::ReadAt { offset: (index + 1024) as u64, len: 1024 }
            } else {
                then.0 is Done && then.1 is Finish
            }
            &&& read_step(read.0, ReadEvent::Forwarded(false)).0 is Done
            &&& read_step(read.0, ReadEvent::Forwarded(false)).1 is Finish
        }),
{
}

/// Whether an action is the one that a state waits for the answer to.
pub open spec fn read_asks(next: (ReadState, ReadAction)) -> bool {
    match next.0 {
        ReadState::ReadChunk { index, .. } => next.1 matches ReadAction::ReadAt { offset, len }
            && offset == index && len == 1024,
        ReadState::Forward { .. } => next.1 is Forward,
        ReadState::Done => next.1 is Finish,
    }
}

/// Reading accepts whatever answers its action, and nothing else, unless the next chunk would start
/// past what can be counted.
pub proof fn law_read_accepts(next: (ReadState, ReadAction), event: ReadEvent)
    requires
        read_asks(next),
    ensures
        read_accepts(next.0, event) <==> match next.1 {
            ReadAction::ReadAt { .. } => event is ChunkRead,
            ReadAction::Forward => event matches ReadEvent::Forwarded(ok) && (ok ==> next.0->Forward_index
                + 1024 <= usize::MAX),
            ReadAction::Finish => false,
        },
        read_accepts(next.0, event) ==> read_asks(read_step(next.0, event)),
{
}

/// What joining reports when it has `data` so far, and sees chunks and then one that could not be
/// read.
pub open spec fn join_failing(data: Seq<u8>, chunks: Seq<Seq<u8>>) -> JoinAction<Seq<u8>>
    decreases chunks.len(),
{
    if chunks.len() == 0 {
        join_step(data, JoinEvent::ChunkFailed)
    } else {
        match join_step(data, JoinEvent::Chunk(chunks[0])) {
            JoinAction::Receive(longer) => join_failing(longer, chunks.skip(1)),
            finish => finish,
        }
    }
}

/// A chunk that cannot be read fails the blob, whatever was read before it.
pub proof fn law_join_fails(data: Seq<u8>, chunks: Seq<Seq<u8>>)
    ensures
        join_failing(data, chunks) == JoinAction::<Seq<u8>>::Finish(Err(BlobsError::ReadBlob)),
    decreases chunks.len(),
{
    if chunks.len() > 0 {
        law_join_fails(data + chunks[0], chunks.skip(1));
    }
}

} // verus!
