//! What two nodes do together: answers, transfers, and what a blob is cut into and joined from.

use vstd::prelude::*;
use crate::ask::{ask_accepts, ask_step, AskAction, AskEvent, AskState};
use crate::chunks::{
    join_step, read_accepts, read_from, read_step, JoinAction, JoinEvent, ReadAction, ReadEvent,
    ReadState, CHUNK_SIZE,
};
use crate::download::{
    download_accepts, download_step, pump_step, DownloadAction, DownloadEvent, DownloadState,
    PumpAction, PumpError, PumpEvent, PumpState,
};
use crate::error::BlobsError;
use crate::hash::{lemma_hash_of_view, BlobHash};
use crate::serve::{
    is_request, serve_accepts, serve_step, ServeAction, ServeEvent, ServeState,
};
use crate::store::Lookup;
use crate::wire::{
    data_message, request_message, status_message, ASK, DATA, DONE, ERR, HAS, NO, YES,
};

verus! {

/// What happens while a peer is answered.
pub type Served = ServeEvent<Seq<u8>, Seq<u8>>;

/// The message that an action sends, if it sends one.
pub open spec fn sent_by(action: ServeAction<Seq<u8>>) -> Seq<Seq<u8>> {
    match action {
        ServeAction::Send(message) => seq![message],
        _ => Seq::empty(),
    }
}

/// Whether events can happen one after the other, from a state on.
pub open spec fn serve_possible(state: ServeState, events: Seq<Served>) -> bool
    decreases events.len(),
{
    events.len() == 0 || {
        &&& serve_accepts(state, events[0])
        &&& serve_possible(serve_step(state, events[0]).0, events.skip(1))
    }
}

/// The messages that are sent as events happen, from a state on.
pub open spec fn serve_messages(state: ServeState, events: Seq<Served>) -> Seq<Seq<u8>>
    decreases events.len(),
{
    if events.len() == 0 {
        Seq::empty()
    } else {
        let next = serve_step(state, events[0]);
        sent_by(next.1) + serve_messages(next.0, events.skip(1))
    }
}

/// The state that events lead to, from a state on.
pub open spec fn serve_state(state: ServeState, events: Seq<Served>) -> ServeState
    decreases events.len(),
{
    if events.len() == 0 {
        state
    } else {
        serve_state(serve_step(state, events[0]).0, events.skip(1))
    }
}

/// Whether a message is a piece of a blob.
pub open spec fn is_data(message: Seq<u8>) -> bool {
    message.len() > 0 && message[0] == DATA
}

/// Whether messages are pieces of a blob, of which the last may be followed by the end or by an
/// error.
pub open spec fn is_tail(messages: Seq<Seq<u8>>) -> bool {
    &&& forall|i: int| 0 <= i < messages.len() - 1 ==> is_data(#[trigger] messages[i])
    &&& messages.len() > 0 ==> {
        ||| is_data(messages.last())
        ||| messages.last() == status_message(DONE)
        ||| messages.last() == status_message(ERR)
    }
}

/// Whether messages are an answer to a peer, or the beginning of one: nothing yet, an error, a no,
/// or a yes that may be followed by the blob.
pub open spec fn is_answer(messages: Seq<Seq<u8>>) -> bool {
    ||| messages.len() == 0
    ||| messages == seq![status_message(ERR)]
    ||| messages == seq![status_message(NO)]
    ||| messages[0] == status_message(YES) && is_tail(messages.skip(1))
}

/// Whether every message that was to be sent could be sent.
pub open spec fn all_sent(events: Seq<Served>) -> bool {
    forall|i: int| 0 <= i < events.len() ==> #[trigger] events[i] != Served::Sent(false)
}

/// Whether no chunk is larger than those that a blob is read in.
pub open spec fn chunks_small(events: Seq<Served>) -> bool {
    forall|i: int|
        0 <= i < events.len() ==> (#[trigger] events[i] matches Served::ChunkRead(chunk)
            ==> chunk.len() <= CHUNK_SIZE)
}

/// Whether a message closes an answer.
pub open spec fn is_end(message: Seq<u8>) -> bool {
    message == status_message(DONE) || message == status_message(ERR)
}

/// Whether every message has a command, and room for no more than a chunk behind it.
pub open spec fn messages_small(messages: Seq<Seq<u8>>) -> bool {
    forall|i: int|
        0 <= i < messages.len() ==> 1 <= (#[trigger] messages[i]).len() <= CHUNK_SIZE + 1
}

/// Whether a peer asks for a blob, and not only whether it is held.
pub open spec fn asks_for_blob(event: Served) -> bool {
    event matches Served::Received(message) && is_request(message) && message[0] == ASK
}

/// Whatever happens, what a peer is sent is an answer: one reply, and pieces of a blob only after a
/// yes, closed by at most one end or error, after which nothing is sent.
///
/// More than the reply is sent only to a peer that asks for the blob. An answer of yes to such a
/// peer that has come to its end, every message having been sent, is closed by an end or an error.
/// No message is longer than a chunk and its command.
pub proof fn law_answer_shape(events: Seq<Served>)
    requires
        serve_possible(ServeState::AwaitRequest, events),
    ensures
        ({
            let messages = serve_messages(ServeState::AwaitRequest, events);
            let done = serve_state(ServeState::AwaitRequest, events) is Done;
            &&& is_answer(messages)
            &&& messages.len() > 1 ==> asks_for_blob(events[0])
            &&& done && all_sent(events) && messages.len() > 0 && messages[0] == status_message(YES)
                && asks_for_blob(events[0]) ==> messages.len() > 1 && is_end(messages.last())
            &&& chunks_small(events) ==> messages_small(messages)
        }),
{
    if events.len() > 0 {
        let next = serve_step(ServeState::AwaitRequest, events[0]);
        let rest = events.skip(1);
        let later = serve_messages(next.0, rest);
        let all = serve_messages(ServeState::AwaitRequest, events);
        assert(serve_possible(next.0, rest));
        lemma_events_rest(events);
        reveal_with_fuel(serve_state, 3);
        assert(status_message(NO)[0] == NO && status_message(YES)[0] == YES);
        if next.0 is LookUp {
            assert(all =~= later);
            if rest.len() > 0 {
                let then = serve_step(next.0, rest[0]);
                lemma_events_rest(rest);
                lemma_tail(then.0, rest.skip(1));
                let tail = serve_messages(then.0, rest.skip(1));
                if then.0 is SendLast {
                    assert(tail =~= Seq::empty());
                    assert(later =~= seq![status_message(NO)]);
                } else {
                    assert(later =~= seq![status_message(YES)] + tail);
                    assert(later.skip(1) =~= tail);
                    if tail.len() > 0 {
                        assert(all.last() == tail.last());
                    }
                    if chunks_small(events) {
                        assert forall|i: int| 0 <= i < all.len() implies 1 <= (
                        #[trigger] all[i]).len() <= CHUNK_SIZE + 1 by {
                            if i > 0 {
                                assert(all[i] == tail[i - 1]);
                            }
                        }
                    }
                }
            }
        } else {
            lemma_tail(next.0, rest);
            if next.0 is SendLast {
                assert(all =~= seq![status_message(ERR)]);
            } else {
                assert(all =~= Seq::empty());
            }
        }
    }
}

/// What holds of all events holds of those after the first.
proof fn lemma_events_rest(events: Seq<Served>)
    requires
        events.len() > 0,
    ensures
        all_sent(events) ==> all_sent(events.skip(1)),
        chunks_small(events) ==> chunks_small(events.skip(1)),
{
    let rest = events.skip(1);
    assert forall|i: int| 0 <= i < rest.len() implies #[trigger] rest[i] == events[i + 1] by {}
}

/// Past the reply, what is sent is pieces of a blob and their end, and past the last message nothing
/// is sent.
proof fn lemma_tail(state: ServeState, events: Seq<Served>)
    requires
        serve_possible(state, events),
        !(state is AwaitRequest),
        !(state is LookUp),
    ensures
        is_tail(serve_messages(state, events)),
        match state {
            ServeState::SendLast | ServeState::Done => serve_messages(state, events).len() == 0,
            ServeState::ConfirmFound { command, .. } if command != ASK => serve_messages(
                state,
                events,
            ).len() == 0,
            _ => serve_state(state, events) is Done && all_sent(events) ==> {
                &&& serve_messages(state, events).len() > 0
                &&& is_end(serve_messages(state, events).last())
            },
        },
        chunks_small(events) ==> messages_small(serve_messages(state, events)),
    decreases events.len(),
{
    if events.len() > 0 {
        let next = serve_step(state, events[0]);
        let rest = events.skip(1);
        lemma_tail(next.0, rest);
        lemma_events_rest(events);
        let later = serve_messages(next.0, rest);
        let all = serve_messages(state, events);
        assert(all_sent(events) ==> events[0] != Served::Sent(false));
        if next.1 is Send {
            let message = next.1->Send_0;
            assert(all =~= seq![message] + later);
            if state is AwaitChunk && events[0] is ChunkRead {
                assert(is_data(message));
            }
            assert forall|i: int| 0 <= i < all.len() - 1 implies is_data(#[trigger] all[i]) by {
                if i > 0 {
                    assert(all[i] == later[i - 1]);
                }
            }
            if later.len() > 0 {
                assert(all.last() == later.last());
            }
            if chunks_small(events) {
                assert forall|i: int| 0 <= i < all.len() implies 1 <= (#[trigger] all[i]).len()
                    <= CHUNK_SIZE + 1 by {
                    if i > 0 {
                        assert(all[i] == later[i - 1]);
                    } else {
                        assert(events[0] matches Served::ChunkRead(chunk) ==> chunk.len()
                            <= CHUNK_SIZE);
                    }
                }
            }
        } else {
            assert(all =~= later);
        }
    }
}

/// A peer whose message is not understood is sent an error, and nothing else.
pub proof fn law_refused_request(message: Seq<u8>, sent: bool)
    requires
        message.len() > 0,
        !is_request(message),
    ensures
        ({
            let events = seq![Served::Received(message), Served::Sent(sent)];
            &&& serve_possible(ServeState::AwaitRequest, events)
            &&& serve_messages(ServeState::AwaitRequest, events) == seq![status_message(ERR)]
            &&& serve_state(ServeState::AwaitRequest, events) is Done
        }),
{
    let events = seq![Served::Received(message), Served::Sent(sent)];
    reveal_with_fuel(serve_possible, 3);
    reveal_with_fuel(serve_messages, 3);
    reveal_with_fuel(serve_state, 3);
    assert(events.skip(1)[0] == events[1]);
    assert(serve_messages(ServeState::AwaitRequest, events) =~= seq![status_message(ERR)]);
}

/// A request is understood, and names the blob that it was made for.
pub proof fn law_request_read_back(command: u8, hash: BlobHash)
    requires
        command == ASK || command == HAS,
    ensures
        is_request(request_message(command, hash@)),
        serve_step(
            ServeState::AwaitRequest,
            Served::Received(request_message(command, hash@)),
        ) == (ServeState::LookUp { command, hash }, ServeAction::<Seq<u8>>::LookUp(hash)),
{
    let message = request_message(command, hash@);
    assert(message.skip(1) =~= hash@);
    lemma_hash_of_view(hash);
}

/// A peer that is asked whether it holds a blob says so exactly if its store finds the blob, and
/// the node that asked reports just that.
pub proof fn law_ask_hash(hash: BlobHash, lookup: Lookup, sent: bool)
    ensures
        ({
            let request = request_message(HAS, hash@);
            let events = seq![
                Served::Received(request),
                Served::LookedUp(lookup),
                Served::Sent(sent),
            ];
            let messages = serve_messages(ServeState::AwaitRequest, events);
            &&& ask_step(AskState::Open { hash }, AskEvent::Opened(true)) == (
                AskState::SendRequest,
                AskAction::Send(request),
            )
            &&& serve_possible(ServeState::AwaitRequest, events)
            &&& serve_state(ServeState::AwaitRequest, events) is Done
            &&& messages.len() == 1
            &&& ask_step(AskState::AwaitReply, AskEvent::Received(messages[0])) == (
                AskState::Done,
                AskAction::<Seq<u8>>::Finish(Ok(lookup is Found)),
            )
        }),
{
    let request = request_message(HAS, hash@);
    let events = seq![Served::Received(request), Served::LookedUp(lookup), Served::Sent(sent)];
    law_request_read_back(HAS, hash);
    reveal_with_fuel(serve_possible, 4);
    reveal_with_fuel(serve_messages, 4);
    reveal_with_fuel(serve_state, 4);
    assert(events.skip(1)[0] == events[1]);
    assert(events.skip(1).skip(1)[0] == events[2]);
    let reply = status_message(if lookup is Found { YES } else { NO });
    assert(serve_messages(ServeState::AwaitRequest, events) =~= seq![reply]);
}

/// What happens while a peer is sent a blob: for every chunk, that it is read and sent, and at the
/// end that there are no more.
pub open spec fn chunk_events(chunks: Seq<Seq<u8>>, sent: bool) -> Seq<Served>
    decreases chunks.len(),
{
    if chunks.len() == 0 {
        seq![Served::FileEnded, Served::Sent(sent)]
    } else {
        seq![Served::ChunkRead(chunks[0]), Served::Sent(true)] + chunk_events(chunks.skip(1), sent)
    }
}

/// What happens while a peer that asks for a blob is sent it.
pub open spec fn blob_events(hash: BlobHash, chunks: Seq<Seq<u8>>, sent: bool) -> Seq<Served> {
    seq![
        Served::Received(request_message(ASK, hash@)),
        Served::LookedUp(Lookup::Found),
        Served::Sent(sent),
        Served::FileOpened(true),
    ] + chunk_events(chunks, sent)
}

/// The messages that carry a blob.
pub open spec fn blob_messages(chunks: Seq<Seq<u8>>) -> Seq<Seq<u8>>
    decreases chunks.len(),
{
    if chunks.len() == 0 {
        seq![status_message(DONE)]
    } else {
        seq![data_message(chunks[0])] + blob_messages(chunks.skip(1))
    }
}

/// Whether every chunk leaves room for a command in front of it.
pub open spec fn chunks_fit(chunks: Seq<Seq<u8>>) -> bool {
    forall|i: int| 0 <= i < chunks.len() ==> (#[trigger] chunks[i]).len() < isize::MAX
}

/// The chunks of a blob are sent in order, each as one message, and then their end.
proof fn lemma_chunks_sent(chunks: Seq<Seq<u8>>, sent: bool)
    requires
        chunks_fit(chunks),
    ensures
        serve_possible(ServeState::AwaitChunk, chunk_events(chunks, sent)),
        serve_messages(ServeState::AwaitChunk, chunk_events(chunks, sent)) == blob_messages(chunks),
        serve_state(ServeState::AwaitChunk, chunk_events(chunks, sent)) is Done,
    decreases chunks.len(),
{
    let events = chunk_events(chunks, sent);
    reveal_with_fuel(serve_possible, 3);
    reveal_with_fuel(serve_messages, 3);
    reveal_with_fuel(serve_state, 3);
    assert(events.skip(1)[0] == events[1]);
    if chunks.len() > 0 {
        let rest = chunks.skip(1);
        assert forall|i: int| 0 <= i < rest.len() implies (#[trigger] rest[i]).len()
            < isize::MAX by {
            assert(rest[i] == chunks[i + 1]);
        }
        lemma_chunks_sent(rest, sent);
        assert(events.skip(1).skip(1) =~= chunk_events(rest, sent));
        assert(chunks[0].len() < isize::MAX);
    }
    assert(serve_messages(ServeState::AwaitChunk, events) =~= blob_messages(chunks));
}

/// A peer that asks for a blob that is held and can be read is sent a yes, then the chunks of the
/// blob in order, then their end.
pub proof fn law_blob_sent(hash: BlobHash, chunks: Seq<Seq<u8>>, sent: bool)
    requires
        chunks_fit(chunks),
    ensures
        ({
            let events = blob_events(hash, chunks, sent);
            &&& serve_possible(ServeState::AwaitRequest, events)
            &&& serve_messages(ServeState::AwaitRequest, events) == seq![status_message(YES)]
                + blob_messages(chunks)
            &&& serve_state(ServeState::AwaitRequest, events) is Done
        }),
{
    let events = blob_events(hash, chunks, sent);
    law_request_read_back(ASK, hash);
    lemma_chunks_sent(chunks, sent);
    reveal_with_fuel(serve_possible, 5);
    reveal_with_fuel(serve_messages, 5);
    reveal_with_fuel(serve_state, 5);
    let after1 = events.skip(1);
    let after2 = after1.skip(1);
    let after3 = after2.skip(1);
    assert(after1[0] == events[1]);
    assert(after2[0] == events[2]);
    assert(after3[0] == events[3]);
    assert(after3.skip(1) =~= chunk_events(chunks, sent));
    assert(serve_messages(ServeState::AwaitRequest, events) =~= seq![status_message(YES)]
        + blob_messages(chunks));
}

/// What the pump hands to the store.
pub type Forwarded = Result<Seq<u8>, PumpError>;

/// What the pump hands to the store of a peer's messages, the store taking everything: the pieces
/// of the blob up to the first message that is not one, and an error if that message is not the
/// end either.
pub open spec fn pumped(messages: Seq<Seq<u8>>) -> Seq<Forwarded>
    decreases messages.len(),
{
    if messages.len() == 0 {
        Seq::empty()
    } else if is_data(messages[0]) {
        seq![Forwarded::Ok(messages[0].skip(1))] + pumped(messages.skip(1))
    } else if messages[0].len() == 0 {
        seq![Forwarded::Err(PumpError::EmptyMessage)]
    } else if messages[0][0] == DONE {
        Seq::empty()
    } else {
        seq![Forwarded::Err(PumpError::UnexpectedCommand(messages[0][0]))]
    }
}

/// What the pump hands to the store as it goes on from a state, with messages still to come, the
/// store taking everything.
pub open spec fn pump_forwards(state: PumpState, messages: Seq<Seq<u8>>) -> Seq<Forwarded>
    decreases messages.len(),
{
    if messages.len() == 0 || !(state is AwaitMessage) {
        Seq::empty()
    } else {
        let next = pump_step(state, PumpEvent::Received(messages[0]));
        match next.1 {
            PumpAction::Forward(forwarded) => seq![forwarded] + pump_forwards(
                pump_step(next.0, PumpEvent::Forwarded(true)).0,
                messages.skip(1),
            ),
            _ => Seq::empty(),
        }
    }
}

/// Whatever a peer sends, the pump hands on just the pieces of a blob at its beginning, and an error
/// for what follows them unless it is the end.
pub proof fn law_pump(messages: Seq<Seq<u8>>)
    ensures
        pump_forwards(PumpState::AwaitMessage, messages) == pumped(messages),
    decreases messages.len(),
{
    if messages.len() > 0 {
        if is_data(messages[0]) {
            law_pump(messages.skip(1));
        } else {
            reveal_with_fuel(pump_forwards, 2);
        }
        assert(pump_forwards(PumpState::AwaitMessage, messages) =~= pumped(messages));
    }
}

/// Chunks, each handed on without an error.
pub open spec fn all_ok(chunks: Seq<Seq<u8>>) -> Seq<Forwarded> {
    chunks.map_values(|chunk: Seq<u8>| Forwarded::Ok(chunk))
}

/// The chunks of a blob, sent by one node, are what the pump of another takes out of the messages.
proof fn lemma_messages_pumped(chunks: Seq<Seq<u8>>)
    ensures
        pumped(blob_messages(chunks)) == all_ok(chunks),
    decreases chunks.len(),
{
    let messages = blob_messages(chunks);
    if chunks.len() == 0 {
        assert(pumped(messages) =~= all_ok(chunks));
    } else {
        let rest = chunks.skip(1);
        lemma_messages_pumped(rest);
        assert(messages[0] == data_message(chunks[0]));
        assert(messages.skip(1) =~= blob_messages(rest));
        assert(messages[0].skip(1) =~= chunks[0]);
        assert(all_ok(chunks) =~= seq![Forwarded::Ok(chunks[0])] + all_ok(rest));
    }
}

/// What one node sends of a blob arrives at another: the request that a download makes is answered
/// by a yes, and the pump then hands on the very chunks that were read, in order and without an
/// error.
pub proof fn law_transfer(hash: BlobHash, chunks: Seq<Seq<u8>>, sent: bool)
    requires
        chunks_fit(chunks),
    ensures
        ({
            let events = blob_events(hash, chunks, sent);
            let messages = serve_messages(ServeState::AwaitRequest, events);
            &&& download_step(DownloadState::Open { hash }, DownloadEvent::Opened(true)) == (
                DownloadState::SendRequest { hash },
                DownloadAction::Send(request_message(ASK, hash@)),
            )
            &&& events[0] == Served::Received(request_message(ASK, hash@))
            &&& serve_possible(ServeState::AwaitRequest, events)
            &&& messages.len() > 0
            &&& download_step(
                DownloadState::AwaitReply { hash },
                DownloadEvent::Received(messages[0]),
            ) == (DownloadState::Import { hash }, DownloadAction::<Seq<u8>>::PumpAndImport)
            &&& pump_forwards(PumpState::AwaitMessage, messages.skip(1)) == all_ok(chunks)
        }),
{
    law_blob_sent(hash, chunks, sent);
    let messages = serve_messages(ServeState::AwaitRequest, blob_events(hash, chunks, sent));
    assert(messages.skip(1) =~= blob_messages(chunks));
    law_pump(blob_messages(chunks));
    lemma_messages_pumped(chunks);
}

/// Whether the chunks of a blob of this size can be counted without overflow.
pub open spec fn size_fits(size: nat) -> bool {
    size + CHUNK_SIZE - 1 <= usize::MAX
}

/// The piece of a blob that is read from an offset on.
pub open spec fn piece(blob: Seq<u8>, offset: int) -> Seq<u8> {
    blob.subrange(
        offset,
        if offset + CHUNK_SIZE <= blob.len() {
            offset + CHUNK_SIZE
        } else {
            blob.len() as int
        },
    )
}

/// What reading so many bytes of a blob from an offset on gives: the bytes asked for, or as many as
/// there are.
pub open spec fn read_at(blob: Seq<u8>, offset: int, len: int) -> Seq<u8> {
    if offset >= blob.len() {
        Seq::empty()
    } else if offset + len <= blob.len() {
        blob.subrange(offset, offset + len)
    } else {
        blob.subrange(offset, blob.len() as int)
    }
}

/// The pieces of a blob that are read from here on, every piece being taken.
pub open spec fn pieces_read(
    blob: Seq<u8>,
    next: (ReadState, ReadAction),
    rounds: nat,
) -> Seq<Seq<u8>>
    decreases rounds,
{
    match next.1 {
        ReadAction::ReadAt { offset, len } if rounds > 0 => seq![
            read_at(blob, offset as int, len as int),
        ] + pieces_read(
            blob,
            read_step(read_step(next.0, ReadEvent::ChunkRead).0, ReadEvent::Forwarded(true)),
            (rounds - 1) as nat,
        ),
        _ => Seq::empty(),
    }
}

/// The bytes of chunks, one chunk behind the other.
pub open spec fn joined(chunks: Seq<Seq<u8>>) -> Seq<u8>
    decreases chunks.len(),
{
    if chunks.len() == 0 {
        Seq::empty()
    } else {
        chunks[0] + joined(chunks.skip(1))
    }
}

/// How many chunks a blob of this size is cut into.
pub open spec fn chunk_count(size: int) -> int {
    (size + CHUNK_SIZE - 1) / (CHUNK_SIZE as int)
}

/// What is read from an index on is the rest of the blob, in pieces that fit in a chunk.
proof fn lemma_pieces(blob: Seq<u8>, index: int, rounds: nat)
    requires
        size_fits(blob.len()),
        0 <= index,
        rounds * CHUNK_SIZE >= blob.len() - index,
    ensures
        ({
            let pieces = pieces_read(blob, read_from(index, blob.len() as usize), rounds);
            &&& joined(pieces) == if index < blob.len() {
                blob.skip(index)
            } else {
                Seq::empty()
            }
            &&& pieces.len() == if index < blob.len() {
                chunk_count(blob.len() - index)
            } else {
                0
            }
            &&& forall|i: int|
                0 <= i < pieces.len() ==> 0 < (#[trigger] pieces[i]).len() <= CHUNK_SIZE
            &&& forall|i: int|
                0 <= i < pieces.len() ==> #[trigger] pieces[i] == piece(
                    blob,
                    index + CHUNK_SIZE * i,
                )
        }),
    decreases rounds,
{
    let size = blob.len() as usize;
    let next = read_from(index, size);
    let pieces = pieces_read(blob, next, rounds);
    if index < blob.len() {
        assert(rounds > 0) by (nonlinear_arith)
            requires
                rounds * CHUNK_SIZE >= blob.len() - index,
                index < blob.len(),
                rounds >= 0,
        ;
        assert((rounds - 1) * CHUNK_SIZE == rounds * CHUNK_SIZE - CHUNK_SIZE)
            by (nonlinear_arith);
        let fewer = (rounds - 1) as nat;
        lemma_pieces(blob, index + CHUNK_SIZE, fewer);
        let later = pieces_read(blob, read_from(index + CHUNK_SIZE, size), fewer);
        assert(pieces == seq![piece(blob, index)] + later);
        assert(pieces.skip(1) =~= later);
        assert(joined(pieces) =~= blob.skip(index));
        assert forall|i: int| 0 <= i < pieces.len() implies 0 < (#[trigger] pieces[i]).len()
            <= CHUNK_SIZE by {
            if i > 0 {
                assert(pieces[i] == later[i - 1]);
            }
        }
        assert forall|i: int| 0 <= i < pieces.len() implies #[trigger] pieces[i] == piece(
            blob,
            index + CHUNK_SIZE * i,
        ) by {
            if i > 0 {
                assert(pieces[i] == later[i - 1]);
            }
        }
    }
}

/// Whether every chunk that is read is the piece of a blob that lies at some offset.
pub open spec fn chunks_of_blob(blob: Seq<u8>, events: Seq<Served>) -> bool {
    forall|i: int|
        0 <= i < events.len() ==> (#[trigger] events[i] matches Served::ChunkRead(chunk)
            ==> exists|offset: int|
            0 <= offset <= blob.len() && chunk == #[trigger] piece(blob, offset))
}

/// Whether messages are a yes, then pieces of a blob, each of them a command and no more than a
/// chunk, then one end or error.
pub open spec fn is_whole_blob_answer(messages: Seq<Seq<u8>>) -> bool {
    &&& messages.len() >= 2
    &&& messages[0] == status_message(YES)
    &&& forall|i: int|
        1 <= i < messages.len() - 1 ==> is_data(#[trigger] messages[i]) && messages[i].len()
            <= CHUNK_SIZE + 1
    &&& is_end(messages.last())
}

/// An answer that has come to its end, every message having been sent and every chunk being a piece
/// of the blob, is one of these: nothing, an error, a no, a yes to a peer that asks only whether the
/// blob is held, or, to a peer that asks for the blob, a yes, pieces of the blob, and one end or
/// error.
pub proof fn law_finished_answer(blob: Seq<u8>, events: Seq<Served>)
    requires
        serve_possible(ServeState::AwaitRequest, events),
        serve_state(ServeState::AwaitRequest, events) is Done,
        all_sent(events),
        chunks_of_blob(blob, events),
    ensures
        ({
            let messages = serve_messages(ServeState::AwaitRequest, events);
            ||| messages.len() == 0
            ||| messages == seq![status_message(ERR)]
            ||| messages == seq![status_message(NO)]
            ||| messages == seq![status_message(YES)] && !asks_for_blob(events[0])
            ||| is_whole_blob_answer(messages) && asks_for_blob(events[0])
        }),
{
    let messages = serve_messages(ServeState::AwaitRequest, events);
    law_answer_shape(events);
    assert(chunks_small(events)) by {
        assert forall|i: int| 0 <= i < events.len() implies (
        #[trigger] events[i] matches Served::ChunkRead(chunk) ==> chunk.len() <= CHUNK_SIZE) by {}
    }
    if messages.len() > 0 && messages[0] == status_message(YES) {
        if messages.len() == 1 {
            assert(messages =~= seq![status_message(YES)]);
        } else {
            let tail = messages.skip(1);
            assert(status_message(NO)[0] == NO && status_message(YES)[0] == YES);
            assert forall|i: int| 1 <= i < messages.len() - 1 implies is_data(
                #[trigger] messages[i],
            ) && messages[i].len() <= CHUNK_SIZE + 1 by {
                assert(tail[i - 1] == messages[i]);
            }
        }
    }
}

/// Reading a blob from one chunk to the next goes on without overflow.
pub proof fn law_reading_goes_on(blob: Seq<u8>, index: usize)
    requires
        size_fits(blob.len()),
        index < blob.len(),
    ensures
        ({
            let state = ReadState::ReadChunk { index, size: blob.len() as usize };
            let read = read_step(state, ReadEvent::ChunkRead);
            &&& read_accepts(state, ReadEvent::ChunkRead)
            &&& read.1 is Forward
            &&& read_accepts(read.0, ReadEvent::Forwarded(true))
            &&& read_step(read.0, ReadEvent::Forwarded(true)) == read_from(
                index + CHUNK_SIZE,
                blob.len() as usize,
            )
        }),
{
}

/// The pieces in which a blob is read.
pub open spec fn pieces_of(blob: Seq<u8>) -> Seq<Seq<u8>> {
    pieces_read(blob, read_from(0, blob.len() as usize), chunk_count(blob.len() as int) as nat)
}

/// A blob is read in pieces that fit in a chunk, as few as may be, and that make up the blob. Each
/// piece starts where as many whole chunks end as there are pieces before it.
pub proof fn law_pieces_make_blob(blob: Seq<u8>)
    requires
        size_fits(blob.len()),
    ensures
        joined(pieces_of(blob)) == blob,
        pieces_of(blob).len() == chunk_count(blob.len() as int),
        forall|i: int|
            0 <= i < pieces_of(blob).len() ==> 0 < (#[trigger] pieces_of(blob)[i]).len()
                <= CHUNK_SIZE,
        forall|i: int|
            0 <= i < pieces_of(blob).len() ==> #[trigger] pieces_of(blob)[i] == piece(
                blob,
                CHUNK_SIZE * i,
            ),
{
    let rounds = chunk_count(blob.len() as int) as nat;
    assert(rounds * CHUNK_SIZE >= blob.len()) by (nonlinear_arith)
        requires
            rounds == (blob.len() + CHUNK_SIZE - 1) / (CHUNK_SIZE as int),
            CHUNK_SIZE == 1024,
    ;
    lemma_pieces(blob, 0, rounds);
    assert(blob.skip(0) =~= blob);
}

/// What joining reports when it has `data` so far and sees chunks and then their end.
pub open spec fn join_all(data: Seq<u8>, chunks: Seq<Seq<u8>>) -> JoinAction<Seq<u8>>
    decreases chunks.len(),
{
    if chunks.len() == 0 {
        join_step(data, JoinEvent::Ended)
    } else {
        match join_step(data, JoinEvent::Chunk(chunks[0])) {
            JoinAction::Receive(longer) => join_all(longer, chunks.skip(1)),
            finish => finish,
        }
    }
}

/// Joining chunks reports their bytes, one chunk behind the other.
pub proof fn law_join(data: Seq<u8>, chunks: Seq<Seq<u8>>)
    ensures
        join_all(data, chunks) == JoinAction::<Seq<u8>>::Finish(Ok(data + joined(chunks))),
    decreases chunks.len(),
{
    if chunks.len() == 0 {
        assert(data + joined(chunks) =~= data);
    } else {
        law_join(data + chunks[0], chunks.skip(1));
        assert(data + chunks[0] + joined(chunks.skip(1)) =~= data + joined(chunks));
    }
}

/// Reading a blob chunk by chunk and joining the chunks gives the blob back.
pub proof fn law_read_bytes(blob: Seq<u8>)
    requires
        size_fits(blob.len()),
    ensures
        join_all(Seq::empty(), pieces_of(blob)) == JoinAction::<Seq<u8>>::Finish(Ok(blob)),
{
    law_pieces_make_blob(blob);
    law_join(Seq::empty(), pieces_of(blob));
    assert(Seq::<u8>::empty() + blob =~= blob);
}

/// A blob that one node reads and serves is the blob that another hands to its store.
pub proof fn law_blob_transfer(hash: BlobHash, blob: Seq<u8>, sent: bool)
    requires
        size_fits(blob.len()),
    ensures
        ({
            let events = blob_events(hash, pieces_of(blob), sent);
            let messages = serve_messages(ServeState::AwaitRequest, events);
            &&& serve_possible(ServeState::AwaitRequest, events)
            &&& pump_forwards(PumpState::AwaitMessage, messages.skip(1)) == all_ok(pieces_of(blob))
            &&& joined(pieces_of(blob)) == blob
        }),
{
    let chunks = pieces_of(blob);
    law_pieces_make_blob(blob);
    assert(chunks_fit(chunks));
    law_transfer(hash, chunks, sent);
}

/// Whether events can happen one after the other in a download, from a state on.
pub open spec fn download_possible(
    state: DownloadState,
    events: Seq<DownloadEvent<Seq<u8>>>,
) -> bool
    decreases events.len(),
{
    events.len() == 0 || {
        &&& download_accepts(state, events[0])
        &&& download_possible(download_step(state, events[0]).0, events.skip(1))
    }
}

/// What a download is asked to do as events happen, from a state on.
pub open spec fn download_actions(
    state: DownloadState,
    events: Seq<DownloadEvent<Seq<u8>>>,
) -> Seq<DownloadAction<Seq<u8>>>
    decreases events.len(),
{
    if events.len() == 0 {
        Seq::empty()
    } else {
        let next = download_step(state, events[0]);
        seq![next.1] + download_actions(next.0, events.skip(1))
    }
}

/// How many events a question to a peer takes in at most, from a state on.
pub open spec fn ask_steps_left(state: AskState) -> nat {
    match state {
        AskState::Open { .. } => 3,
        AskState::SendRequest => 2,
        AskState::AwaitReply => 1,
        AskState::Done => 0,
    }
}

/// Every event brings a question to a peer nearer to its end, at which its result is reported.
pub proof fn law_ask_ends(state: AskState, event: AskEvent<Seq<u8>>)
    requires
        ask_accepts(state, event),
    ensures
        ask_steps_left(ask_step(state, event).0) < ask_steps_left(state),
        ask_step(state, event).0 is Done <==> ask_step(state, event).1 is Finish,
{
}

/// How many events a download takes in at most, from a state on.
pub open spec fn download_steps_left(state: DownloadState) -> nat {
    match state {
        DownloadState::Open { .. } => 5,
        DownloadState::SendRequest { .. } => 4,
        DownloadState::AwaitReply { .. } => 3,
        DownloadState::Import { .. } => 2,
        DownloadState::Delete { .. } => 1,
        DownloadState::Done => 0,
    }
}

/// Every event brings a download nearer to its end, at which its result is reported.
pub proof fn law_download_ends(state: DownloadState, event: DownloadEvent<Seq<u8>>)
    requires
        download_accepts(state, event),
    ensures
        download_steps_left(download_step(state, event).0) < download_steps_left(state),
        download_step(state, event).0 is Done <==> download_step(state, event).1 is Finish,
{
}

/// The hash that a download is after, while it may still succeed.
pub open spec fn wanted(state: DownloadState) -> Option<BlobHash> {
    match state {
        DownloadState::Open { hash } => Some(hash),
        DownloadState::SendRequest { hash } => Some(hash),
        DownloadState::AwaitReply { hash } => Some(hash),
        DownloadState::Import { hash } => Some(hash),
        _ => None,
    }
}

/// A download succeeds only when the store took in a blob with the hash that was asked for.
pub proof fn law_download_success(state: DownloadState, events: Seq<DownloadEvent<Seq<u8>>>)
    requires
        download_possible(state, events),
        download_actions(state, events).contains(DownloadAction::<Seq<u8>>::Finish(Ok(()))),
    ensures
        wanted(state) matches Some(hash) && events.last() == DownloadEvent::<Seq<u8>>::Imported(
            hash,
        ),
    decreases events.len(),
{
    let success = DownloadAction::<Seq<u8>>::Finish(Ok(()));
    let actions = download_actions(state, events);
    let next = download_step(state, events[0]);
    let rest = events.skip(1);
    let k = choose|k: int| 0 <= k < actions.len() && actions[k] == success;
    if k == 0 {
        assert(next.0 is Done);
        if rest.len() > 0 {
            assert(download_possible(next.0, rest));
        }
    } else {
        assert(download_actions(next.0, rest)[k - 1] == success);
        law_download_success(next.0, rest);
        assert(events.last() == rest.last());
    }
}

/// A download succeeds when the peer says yes and the store then takes in a blob with the hash that
/// was asked for.
pub proof fn law_download_succeeds(hash: BlobHash)
    ensures
        ({
            let events = seq![
                DownloadEvent::Opened(true),
                DownloadEvent::Sent(true),
                DownloadEvent::Received(status_message(YES)),
                DownloadEvent::Imported(hash),
            ];
            &&& download_possible(DownloadState::Open { hash }, events)
            &&& download_actions(DownloadState::Open { hash }, events) == seq![
                DownloadAction::Send(request_message(ASK, hash@)),
                DownloadAction::Receive,
                DownloadAction::PumpAndImport,
                DownloadAction::Finish(Ok(())),
            ]
        }),
{
    let events = seq![
        DownloadEvent::Opened(true),
        DownloadEvent::Sent(true),
        DownloadEvent::Received(status_message(YES)),
        DownloadEvent::Imported(hash),
    ];
    reveal_with_fuel(download_possible, 5);
    reveal_with_fuel(download_actions, 5);
    assert(events.skip(1)[0] == events[1]);
    assert(events.skip(1).skip(1)[0] == events[2]);
    assert(events.skip(1).skip(1).skip(1)[0] == events[3]);
    assert(download_actions(DownloadState::Open { hash }, events) =~= seq![
        DownloadAction::Send(request_message(ASK, hash@)),
        DownloadAction::Receive,
        DownloadAction::PumpAndImport,
        DownloadAction::Finish(Ok(())),
    ]);
}

/// A download that was sent another blob than it asked for deletes what it was sent before it
/// reports so.
pub proof fn law_download_deletes(hash: BlobHash, got: BlobHash, deleted: bool)
    requires
        got != hash,
    ensures
        ({
            let events = seq![
                DownloadEvent::<Seq<u8>>::Imported(got),
                DownloadEvent::Deleted(deleted),
            ];
            &&& download_possible(DownloadState::Import { hash }, events)
            &&& download_actions(DownloadState::Import { hash }, events) == seq![
                DownloadAction::<Seq<u8>>::Delete(got),
                DownloadAction::Finish(
                    Err(
                        if deleted {
                            BlobsError::InvalidHash(got)
                        } else {
                            BlobsError::Delete
                        },
                    ),
                ),
            ]
        }),
{
    let events = seq![DownloadEvent::<Seq<u8>>::Imported(got), DownloadEvent::Deleted(deleted)];
    reveal_with_fuel(download_possible, 3);
    reveal_with_fuel(download_actions, 3);
    assert(events.skip(1)[0] == events[1]);
    assert(download_actions(DownloadState::Import { hash }, events) =~= seq![
        DownloadAction::<Seq<u8>>::Delete(got),
        DownloadAction::Finish(
            Err(
                if deleted {
                    BlobsError::InvalidHash(got)
                } else {
                    BlobsError::Delete
                },
            ),
        ),
    ]);
}

} // verus!
