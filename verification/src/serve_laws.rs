//! What a peer is answered, as a whole: the messages that a node sends when it does, one after the
//! other, what the answer asks it to do.

use vstd::prelude::*;
use crate::hash::{hash_of, lemma_hash_of_view, BlobHash};
use crate::serve::{serve_accepts, serve_step, wrong_hash_length, ServeAction, ServeState};
use crate::store::Lookup;
use crate::transfer_laws::Served;

verus! {

/// What a peer does on a tunnel that it has opened.
pub enum PeerRequest {
    /// It sends a message.
    Message(Seq<u8>),
    /// It sends nothing in time.
    TimedOut,
    /// It closes the tunnel.
    Closed,
}

/// What comes of reading one chunk of a blob.
pub enum ChunkResult {
    /// The bytes of the chunk.
    Chunk(Seq<u8>),
    /// The chunk could not be read.
    Failed,
    /// The chunk was not read in time.
    TimedOut,
}

/// Everything outside the node that an answer depends on.
pub struct ServeWorld {
    /// What the peer does.
    pub request: PeerRequest,
    /// What comes of looking a blob up.
    pub holds: spec_fn(BlobHash) -> Lookup,
    /// What reading a blob gives, chunk by chunk, or that it cannot be opened.
    pub opens: spec_fn(BlobHash) -> Option<Seq<ChunkResult>>,
    /// Whether the message that comes after so many others can be sent.
    pub sends: spec_fn(nat) -> bool,
}

/// What happens when an action is done, with chunks that are still to be read, after so many
/// messages.
pub open spec fn serve_happens(
    world: ServeWorld,
    action: ServeAction<Seq<u8>>,
    chunks: Seq<ChunkResult>,
    sent: nat,
) -> Served {
    match action {
        ServeAction::Receive => match world.request {
            PeerRequest::Message(message) => Served::Received(message),
            PeerRequest::TimedOut => Served::ReceiveTimedOut,
            PeerRequest::Closed => Served::TunnelClosed,
        },
        ServeAction::LookUp(hash) => Served::LookedUp((world.holds)(hash)),
        ServeAction::Send(_) => Served::Sent((world.sends)(sent)),
        ServeAction::OpenFile(hash) => Served::FileOpened((world.opens)(hash) is Some),
        ServeAction::ReadChunk => if chunks.len() == 0 {
            Served::FileEnded
        } else {
            match chunks[0] {
                ChunkResult::Chunk(chunk) => Served::ChunkRead(chunk),
                ChunkResult::Failed => Served::ChunkFailed,
                ChunkResult::TimedOut => Served::ChunkTimedOut,
            }
        },
        ServeAction::Finish => Served::TunnelClosed,
    }
}

/// The chunks that are still to be read once an action is done.
pub open spec fn serve_chunks(
    world: ServeWorld,
    action: ServeAction<Seq<u8>>,
    chunks: Seq<ChunkResult>,
) -> Seq<ChunkResult> {
    match action {
        ServeAction::OpenFile(hash) => match (world.opens)(hash) {
            Some(opened) => opened,
            None => Seq::empty(),
        },
        ServeAction::ReadChunk => if chunks.len() == 0 {
            chunks
        } else {
            chunks.skip(1)
        },
        _ => chunks,
    }
}

/// The messages that are sent when each action is done in turn, until there is nothing left to do.
/// There are none where an answer does not end within so many rounds, does not accept what happens,
/// or lets go of the tunnel too early.
pub open spec fn serve_run(
    world: ServeWorld,
    next: (ServeState, ServeAction<Seq<u8>>),
    chunks: Seq<ChunkResult>,
    sent: nat,
    rounds: nat,
) -> Option<Seq<Seq<u8>>>
    decreases rounds,
{
    if next.1 is Finish {
        if next.0 is Done {
            Some(Seq::empty())
        } else {
            None
        }
    } else if rounds == 0 {
        None
    } else {
        let event = serve_happens(world, next.1, chunks, sent);
        if !serve_accepts(next.0, event) {
            None
        } else {
            let sends = next.1 is Send;
            let later = serve_run(
                world,
                serve_step(next.0, event),
                serve_chunks(world, next.1, chunks),
                if sends {
                    sent + 1
                } else {
                    sent
                },
                (rounds - 1) as nat,
            );
            match later {
                Some(messages) => Some(
                    if sends {
                        seq![next.1->Send_0] + messages
                    } else {
                        messages
                    },
                ),
                None => None,
            }
        }
    }
}

/// What is sent of a blob that was opened: a message for every chunk, then that this is the end. A
/// chunk that cannot be read ends the answer with an error, one that is late ends it as if there
/// were no more, and one that cannot be sent ends it without a word.
pub open spec fn blob_answer(
    chunks: Seq<ChunkResult>,
    sends: spec_fn(nat) -> bool,
    sent: nat,
) -> Seq<Seq<u8>>
    decreases chunks.len(),
{
    if chunks.len() == 0 {
        seq![seq![0x22u8]]
    } else {
        match chunks[0] {
            ChunkResult::Chunk(chunk) => seq![seq![0x20u8] + chunk] + if sends(sent) {
                blob_answer(chunks.skip(1), sends, sent + 1)
            } else {
                Seq::empty()
            },
            ChunkResult::Failed => seq![seq![0xF0u8]],
            ChunkResult::TimedOut => seq![seq![0x22u8]],
        }
    }
}

/// What a peer is to be sent.
pub open spec fn tunnel_answer(world: ServeWorld) -> Seq<Seq<u8>> {
    match world.request {
        PeerRequest::Message(message) => {
            let hash = hash_of(message.skip(1));
            if message.len() != 33 || (message[0] != 0x10 && message[0] != 0x11) {
                seq![seq![0xF0u8]]
            } else if !((world.holds)(hash) is Found) {
                seq![seq![0x00u8]]
            } else if message[0] == 0x10 {
                seq![seq![0x01u8]]
            } else {
                seq![seq![0x01u8]] + match (world.opens)(hash) {
                    Some(chunks) => blob_answer(chunks, world.sends, 1),
                    None => seq![seq![0xF0u8]],
                }
            }
        },
        _ => Seq::empty(),
    }
}

/// How many chunks an answer may have to read.
pub open spec fn chunks_to_read(world: ServeWorld) -> nat {
    match world.request {
        PeerRequest::Message(message) => match (world.opens)(hash_of(message.skip(1))) {
            Some(chunks) => chunks.len(),
            None => 0,
        },
        _ => 0,
    }
}

/// Whether a world is one that an answer copes with: a request has at least a command, and chunks
/// leave room for a command in front of them.
pub open spec fn world_fits(world: ServeWorld) -> bool {
    &&& world.request matches PeerRequest::Message(message) ==> message.len() > 0
    &&& forall|hash: BlobHash, i: int| #![trigger (world.opens)(hash)->0[i]]
        ((world.opens)(hash) matches Some(chunks) && 0 <= i < chunks.len()) ==> ((
        world.opens)(hash)->0[i] matches ChunkResult::Chunk(chunk) ==> chunk.len() < isize::MAX)
}

/// Whether chunks leave room for a command in front of them.
pub open spec fn results_fit(chunks: Seq<ChunkResult>) -> bool {
    forall|i: int|
        0 <= i < chunks.len() ==> (#[trigger] chunks[i] matches ChunkResult::Chunk(chunk)
            ==> chunk.len() < isize::MAX)
}

/// An answer whose last message is being sent ends there.
proof fn lemma_last(
    world: ServeWorld,
    message: Seq<u8>,
    chunks: Seq<ChunkResult>,
    sent: nat,
    rounds: nat,
)
    requires
        rounds >= 1,
    ensures
        serve_run(
            world,
            (ServeState::SendLast, ServeAction::Send(message)),
            chunks,
            sent,
            rounds,
        ) == Some(seq![message]),
{
    reveal_with_fuel(serve_run, 2);
    assert(seq![message] + Seq::<Seq<u8>>::empty() =~= seq![message]);
}

/// The chunks of a blob that was opened are sent as they should be.
proof fn lemma_blob_run(world: ServeWorld, chunks: Seq<ChunkResult>, sent: nat, rounds: nat)
    requires
        results_fit(chunks),
        rounds >= 2 * chunks.len() + 2,
    ensures
        serve_run(
            world,
            (ServeState::AwaitChunk, ServeAction::<Seq<u8>>::ReadChunk),
            chunks,
            sent,
            rounds,
        ) == Some(blob_answer(chunks, world.sends, sent)),
    decreases chunks.len(),
{
    let next = (ServeState::AwaitChunk, ServeAction::<Seq<u8>>::ReadChunk);
    let event = serve_happens(world, next.1, chunks, sent);
    let then = serve_step(next.0, event);
    let rest = serve_chunks(world, next.1, chunks);
    let fewer = (rounds - 1) as nat;
    assert(chunks.len() > 0 ==> (chunks[0] matches ChunkResult::Chunk(chunk) ==> chunk.len()
        < isize::MAX));
    assert(serve_accepts(next.0, event));
    if chunks.len() > 0 && chunks[0] is Chunk {
        let message = seq![0x20u8] + chunks[0]->Chunk_0;
        assert(then.1->Send_0 =~= message);
        let ok = (world.sends)(sent);
        let after = serve_step(then.0, Served::Sent(ok));
        assert(serve_run(world, then, rest, sent, fewer) == match serve_run(
            world,
            after,
            rest,
            sent + 1,
            (fewer - 1) as nat,
        ) {
            Some(messages) => Some(seq![message] + messages),
            None => None,
        });
        if ok {
            assert forall|i: int| 0 <= i < rest.len() implies (
            #[trigger] rest[i] matches ChunkResult::Chunk(chunk) ==> chunk.len() < isize::MAX) by {
                assert(rest[i] == chunks[i + 1]);
            }
            lemma_blob_run(world, rest, sent + 1, (fewer - 1) as nat);
        } else {
            assert(serve_run(world, after, rest, sent + 1, (fewer - 1) as nat) == Some(
                Seq::<Seq<u8>>::empty(),
            ));
        }
    } else {
        let last = blob_answer(chunks, world.sends, sent)[0];
        assert(then.1->Send_0 =~= last);
        lemma_last(world, last, rest, sent, fewer);
    }
}

/// Whatever the peer does and whatever comes of looking up, reading and sending, a node that does
/// what its answer asks for sends exactly this: nothing to a peer that falls silent, an error for
/// what is no request, a no for a blob that is not held, a yes for one that is, and after a yes to
/// a peer that asks for the blob, its chunks in order and their end. Only then does it let go of
/// the tunnel.
pub proof fn law_tunnel_answer(world: ServeWorld, rounds: nat)
    requires
        world_fits(world),
        rounds >= 2 * chunks_to_read(world) + 6,
    ensures
        serve_run(
            world,
            (ServeState::AwaitRequest, ServeAction::<Seq<u8>>::Receive),
            Seq::empty(),
            0,
            rounds,
        ) == Some(tunnel_answer(world)),
{
    let start = (ServeState::AwaitRequest, ServeAction::<Seq<u8>>::Receive);
    let none = Seq::<ChunkResult>::empty();
    let event = serve_happens(world, start.1, none, 0);
    let first = serve_step(start.0, event);
    let fewer1 = (rounds - 1) as nat;
    assert(serve_accepts(start.0, event));
    assert(serve_run(world, start, none, 0, rounds) == serve_run(world, first, none, 0, fewer1));
    if let PeerRequest::Message(message) = world.request {
        let hash = hash_of(message.skip(1));
        if message.len() != 33 || (message[0] != 0x10 && message[0] != 0x11) {
            assert(first.1->Send_0 =~= seq![0xF0u8]);
            lemma_last(world, seq![0xF0u8], none, 0, fewer1);
        } else {
            let found = (world.holds)(hash);
            let second = serve_step(first.0, Served::LookedUp(found));
            let fewer2 = (fewer1 - 1) as nat;
            assert(first.1 == ServeAction::<Seq<u8>>::LookUp(hash));
            assert(serve_run(world, first, none, 0, fewer1) == serve_run(
                world,
                second,
                none,
                0,
                fewer2,
            ));
            if !(found is Found) {
                assert(second.1->Send_0 =~= seq![0x00u8]);
                lemma_last(world, seq![0x00u8], none, 0, fewer2);
            } else {
                let ok = (world.sends)(0);
                let third = serve_step(second.0, Served::Sent(ok));
                let fewer3 = (fewer2 - 1) as nat;
                let yes = seq![0x01u8];
                assert(second.1->Send_0 =~= yes);
                assert(serve_run(world, second, none, 0, fewer2) == match serve_run(
                    world,
                    third,
                    none,
                    1,
                    fewer3,
                ) {
                    Some(messages) => Some(seq![yes] + messages),
                    None => None,
                });
                if message[0] == 0x10 {
                    assert(serve_run(world, third, none, 1, fewer3) == Some(
                        Seq::<Seq<u8>>::empty(),
                    ));
                    assert(seq![yes] + Seq::<Seq<u8>>::empty() =~= seq![yes]);
                } else {
                    let opened = (world.opens)(hash);
                    let chunks = serve_chunks(world, third.1, none);
                    let fourth = serve_step(third.0, Served::FileOpened(opened is Some));
                    let fewer4 = (fewer3 - 1) as nat;
                    assert(third.1 == ServeAction::<Seq<u8>>::OpenFile(hash));
                    assert(serve_run(world, third, none, 1, fewer3) == serve_run(
                        world,
                        fourth,
                        chunks,
                        1,
                        fewer4,
                    ));
                    if opened is Some {
                        assert forall|i: int| 0 <= i < chunks.len() implies (
                        #[trigger] chunks[i] matches ChunkResult::Chunk(chunk) ==> chunk.len()
                            < isize::MAX) by {
                            assert((world.opens)(hash)->0[i] == chunks[i]);
                        }
                        lemma_blob_run(world, chunks, 1, fewer4);
                    } else {
                        assert(fourth.1->Send_0 =~= seq![0xF0u8]);
                        lemma_last(world, seq![0xF0u8], chunks, 1, fewer4);
                    }
                }
            }
        }
    }
}

/// The world of a node that holds a blob and of a peer that asks for it, in which nothing goes wrong.
pub open spec fn holding_world(
    command: u8,
    hash: BlobHash,
    chunks: Seq<Seq<u8>>,
    holds: spec_fn(BlobHash) -> Lookup,
) -> ServeWorld {
    ServeWorld {
        request: PeerRequest::Message(seq![command] + hash@),
        holds,
        opens: |opened: BlobHash|
            if opened == hash {
                Some(chunks.map_values(|chunk: Seq<u8>| ChunkResult::Chunk(chunk)))
            } else {
                None
            },
        sends: |sent: nat| true,
    }
}

/// Every chunk of a blob is sent as one message, in its place, and then that this is the end.
proof fn lemma_all_chunks(chunks: Seq<Seq<u8>>, sent: nat)
    ensures
        ({
            let results = chunks.map_values(|chunk: Seq<u8>| ChunkResult::Chunk(chunk));
            let messages = blob_answer(results, |n: nat| true, sent);
            &&& messages.len() == chunks.len() + 1
            &&& messages.last() == seq![0x22u8]
            &&& forall|i: int|
                0 <= i < chunks.len() ==> #[trigger] messages[i] == seq![0x20u8] + chunks[i]
        }),
    decreases chunks.len(),
{
    let results = chunks.map_values(|chunk: Seq<u8>| ChunkResult::Chunk(chunk));
    let messages = blob_answer(results, |n: nat| true, sent);
    if chunks.len() > 0 {
        let rest = chunks.skip(1);
        lemma_all_chunks(rest, sent + 1);
        let later_results = rest.map_values(|chunk: Seq<u8>| ChunkResult::Chunk(chunk));
        assert(results.skip(1) =~= later_results);
        let later = blob_answer(later_results, |n: nat| true, sent + 1);
        assert(messages =~= seq![seq![0x20u8] + chunks[0]] + later);
        assert forall|i: int| 0 <= i < chunks.len() implies #[trigger] messages[i] == seq![0x20u8]
            + chunks[i] by {
            if i > 0 {
                assert(messages[i] == later[i - 1]);
                assert(rest[i - 1] == chunks[i]);
            }
        }
    }
}

/// A peer that asks for a blob, whatever its hash, is sent all of it by a node that holds it: a yes,
/// every chunk as one message, in its place, and then that this is the end. One that only asks
/// whether the blob is held is sent the yes alone. A node that does not hold the blob says no.
pub proof fn law_held_blob_is_sent(
    hash: BlobHash,
    chunks: Seq<Seq<u8>>,
    holds: spec_fn(BlobHash) -> Lookup,
    rounds: nat,
)
    requires
        forall|i: int| 0 <= i < chunks.len() ==> (#[trigger] chunks[i]).len() < isize::MAX,
        rounds >= 2 * chunks.len() + 6,
    ensures
        ({
            let start = (ServeState::AwaitRequest, ServeAction::<Seq<u8>>::Receive);
            let asked = serve_run(
                holding_world(0x11, hash, chunks, holds),
                start,
                Seq::empty(),
                0,
                rounds,
            );
            let has = serve_run(
                holding_world(0x10, hash, chunks, holds),
                start,
                Seq::empty(),
                0,
                rounds,
            );
            if holds(hash) is Found {
                &&& has == Some(seq![seq![0x01u8]])
                &&& asked matches Some(messages) && {
                    &&& messages.len() == chunks.len() + 2
                    &&& messages[0] == seq![0x01u8]
                    &&& messages.last() == seq![0x22u8]
                    &&& forall|i: int|
                        0 <= i < chunks.len() ==> messages[i + 1] == seq![0x20u8]
                            + #[trigger] chunks[i]
                }
            } else {
                has == Some(seq![seq![0x00u8]]) && asked == Some(seq![seq![0x00u8]])
            }
        }),
{
    let results = chunks.map_values(|chunk: Seq<u8>| ChunkResult::Chunk(chunk));
    let ask = holding_world(0x11, hash, chunks, holds);
    let has = holding_world(0x10, hash, chunks, holds);
    lemma_hash_of_view(hash);
    assert((seq![0x11u8] + hash@).skip(1) =~= hash@);
    assert((seq![0x10u8] + hash@).skip(1) =~= hash@);
    assert forall|other: BlobHash, i: int| #![trigger (ask.opens)(other)->0[i]]
        ((ask.opens)(other) matches Some(opened) && 0 <= i < opened.len()) implies ((
    ask.opens)(other)->0[i] matches ChunkResult::Chunk(chunk) ==> chunk.len() < isize::MAX) by {
        assert(results[i] == ChunkResult::Chunk(chunks[i]));
    }
    assert forall|other: BlobHash, i: int| #![trigger (has.opens)(other)->0[i]]
        ((has.opens)(other) matches Some(opened) && 0 <= i < opened.len()) implies ((
    has.opens)(other)->0[i] matches ChunkResult::Chunk(chunk) ==> chunk.len() < isize::MAX) by {
        assert(results[i] == ChunkResult::Chunk(chunks[i]));
    }
    law_tunnel_answer(ask, rounds);
    law_tunnel_answer(has, rounds);
    if holds(hash) is Found {
        lemma_all_chunks(chunks, 1);
        let tail = blob_answer(results, |n: nat| true, 1);
        assert(ask.sends =~= (|n: nat| true));
        let messages = seq![seq![0x01u8]] + tail;
        assert(tunnel_answer(ask) == messages);
        assert(messages.last() == tail.last());
        assert forall|i: int| 0 <= i < chunks.len() implies messages[i + 1] == seq![0x20u8]
            + #[trigger] chunks[i] by {
            assert(messages[i + 1] == tail[i]);
        }
    }
}

/// Whether an action is the one that a state waits for the answer to. The tunnel is let go of when
/// nothing is left to do, and only then.
pub open spec fn serve_asks(next: (ServeState, ServeAction<Seq<u8>>)) -> bool {
    match next.0 {
        ServeState::AwaitRequest => next.1 is Receive,
        ServeState::LookUp { hash, .. } => next.1 == ServeAction::<Seq<u8>>::LookUp(hash),
        ServeState::ConfirmFound { .. } => next.1 == ServeAction::Send(seq![0x01u8]),
        ServeState::OpenFile => next.1 is OpenFile,
        ServeState::AwaitChunk => next.1 is ReadChunk,
        ServeState::SendChunk => next.1 matches ServeAction::Send(message) && message.len() > 0
            && message[0] == 0x20,
        ServeState::SendLast => {
            ||| next.1 == ServeAction::Send(seq![0x00u8])
            ||| next.1 == ServeAction::Send(seq![0x22u8])
            ||| next.1 == ServeAction::Send(seq![0xF0u8])
        },
        ServeState::Done => next.1 is Finish,
    }
}

/// Whether an event is an answer to an action.
pub open spec fn serve_answerable(action: ServeAction<Seq<u8>>, event: Served) -> bool {
    match action {
        ServeAction::Receive => {
            ||| event matches Served::Received(message) && message.len() > 0
            ||| event is ReceiveTimedOut
            ||| event is TunnelClosed
        },
        ServeAction::LookUp(_) => event is LookedUp,
        ServeAction::Send(_) => event is Sent,
        ServeAction::OpenFile(_) => event is FileOpened,
        ServeAction::ReadChunk => {
            ||| event matches Served::ChunkRead(chunk) && chunk.len() < isize::MAX
            ||| event is ChunkFailed
            ||| event is ChunkTimedOut
            ||| event is FileEnded
        },
        ServeAction::Finish => false,
    }
}

/// What an answer asks for next is always what its state waits for.
pub proof fn law_serve_asks(state: ServeState, event: Served)
    requires
        serve_accepts(state, event),
    ensures
        serve_asks(serve_step(state, event)),
{
    let next = serve_step(state, event);
    if next.1 is Send {
        let message = next.1->Send_0;
        assert(message.len() == 1 ==> message =~= seq![message[0]]);
    }
}

/// An answer accepts whatever answers its action, and nothing else.
pub proof fn law_serve_accepts(next: (ServeState, ServeAction<Seq<u8>>), event: Served)
    requires
        serve_asks(next),
    ensures
        serve_accepts(next.0, event) == serve_answerable(next.1, event),
{
}

/// The length that is told of a refused hash is the number of bytes behind the command, and it is
/// told of a request with any number of them but that of a hash.
pub proof fn law_wrong_hash_length(command: u8, rest: Seq<u8>)
    requires
        rest.len() < usize::MAX,
    ensures
        match wrong_hash_length(seq![command] + rest) {
            Some(length) => length == rest.len() && rest.len() != 32 && (command == 0x10 || command
                == 0x11),
            None => rest.len() == 32 || (command != 0x10 && command != 0x11),
        },
{
}

} // verus!
