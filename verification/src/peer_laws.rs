//! What asking a peer and fetching from it come to, as wholes: what is sent, imported, deleted and
//! reported when a node does, one after the other, what the operation asks it to do.

use vstd::prelude::*;
use crate::ask::{ask_accepts, ask_step, AskAction, AskEvent, AskState};
use crate::download::{
    download_accepts, download_step, pump_accepts, pump_step, DownloadAction, DownloadState,
    PumpAction, PumpError, PumpEvent, PumpState,
};
use crate::error::BlobsError;
use crate::hash::BlobHash;
use crate::serve::{ServeAction, ServeState};
use crate::serve_laws::{holding_world, law_held_blob_is_sent, serve_run};
use crate::store::Lookup;
use crate::store_laws::{download_passes, Asked, DownloadMoment, Happened};
use crate::store_model::StoreModel;
use crate::transfer_laws::Forwarded;

verus! {

/// What a peer replies.
pub enum PeerReply {
    /// It sends a message.
    Message(Seq<u8>),
    /// It sends nothing in time.
    TimedOut,
    /// It closes the tunnel.
    Closed,
}

/// What a reply of one byte says: `1` is yes, `0` is no, and any other reply is refused with its
/// length or its code.
pub open spec fn reply_says(reply: PeerReply) -> Result<bool, BlobsError> {
    match reply {
        PeerReply::Message(message) => if message.len() != 1 {
            Err(BlobsError::InvalidResponseLength(message.len() as usize))
        } else if message[0] == 0x01 {
            Ok(true)
        } else if message[0] == 0x00 {
            Ok(false)
        } else {
            Err(BlobsError::InvalidResponseCode(message[0]))
        },
        _ => Err(BlobsError::UnableToAsk),
    }
}

/// Everything outside the node that a question to a peer depends on.
pub struct AskWorld {
    /// Whether the tunnel can be opened.
    pub opens: bool,
    /// Whether the request can be sent.
    pub sends: bool,
    /// What the peer replies.
    pub reply: PeerReply,
}

/// What a question to a peer comes to: the routes that were opened, the messages that were sent, and
/// the result.
pub struct AskTrace {
    pub routes: Seq<Seq<u8>>,
    pub sent: Seq<Seq<u8>>,
    pub result: Result<bool, BlobsError>,
}

/// What a question comes to when each action is done in turn, from a state and an action on. It comes
/// to nothing where it does not end within so many rounds, does not accept what happens, or reports
/// too early.
pub open spec fn ask_run(
    world: AskWorld,
    next: (AskState, AskAction<Seq<u8>>),
    rounds: nat,
) -> Option<AskTrace>
    decreases rounds,
{
    if let AskAction::Finish(result) = next.1 {
        if next.0 is Done {
            Some(AskTrace { routes: Seq::empty(), sent: Seq::empty(), result })
        } else {
            None
        }
    } else if rounds == 0 {
        None
    } else {
        let event = match next.1 {
            AskAction::Open(_) => AskEvent::Opened(world.opens),
            AskAction::Send(_) => AskEvent::Sent(world.sends),
            _ => match world.reply {
                PeerReply::Message(message) => AskEvent::Received(message),
                PeerReply::TimedOut => AskEvent::TimedOut,
                PeerReply::Closed => AskEvent::Closed,
            },
        };
        if !ask_accepts(next.0, event) {
            None
        } else {
            match ask_run(world, ask_step(next.0, event), (rounds - 1) as nat) {
                Some(later) => Some(
                    match next.1 {
                        AskAction::Open(route) => AskTrace {
                            routes: seq![route] + later.routes,
                            ..later
                        },
                        AskAction::Send(message) => AskTrace {
                            sent: seq![message] + later.sent,
                            ..later
                        },
                        _ => later,
                    },
                ),
                None => None,
            }
        }
    }
}

/// Whatever the network and the peer do, a question opens the one route, sends the one request if
/// the tunnel opens, and reports what the reply says, or what kept it from getting one.
pub proof fn law_ask_outcome(world: AskWorld, route: Seq<u8>, hash: BlobHash, rounds: nat)
    requires
        rounds >= 3,
    ensures
        ask_run(world, (AskState::Open { hash }, AskAction::Open(route)), rounds) matches Some(
            trace,
        ) && {
            &&& trace.routes == seq![route]
            &&& trace.sent == if world.opens {
                seq![seq![0x10u8] + hash@]
            } else {
                Seq::empty()
            }
            &&& trace.result == if !world.opens {
                Err(BlobsError::OpenTunnel)
            } else if !world.sends {
                Err(BlobsError::SendRequest)
            } else {
                reply_says(world.reply)
            }
        },
{
    reveal_with_fuel(ask_run, 4);
    let start = (AskState::Open { hash }, AskAction::Open(route));
    let second = ask_step(start.0, AskEvent::Opened(world.opens));
    if world.opens {
        assert(second.1->Send_0 =~= seq![0x10u8] + hash@);
        let third = ask_step(second.0, AskEvent::Sent(world.sends));
        let rest = ask_run(world, third, (rounds - 2) as nat);
        assert(rest is Some && rest->0.sent == Seq::<Seq<u8>>::empty() && rest->0.routes == Seq::<
            Seq<u8>,
        >::empty());
    }
    let trace = ask_run(world, start, rounds)->0;
    assert(trace.routes =~= seq![route]);
    assert(trace.sent =~= if world.opens {
        seq![seq![0x10u8] + hash@]
    } else {
        Seq::empty()
    });
}

/// A node that asks a peer is told whether the peer's store finds the blob, whatever the hash.
pub proof fn law_ask_serving_peer(
    route: Seq<u8>,
    hash: BlobHash,
    holds: spec_fn(BlobHash) -> Lookup,
)
    ensures
        ({
            let start = (ServeState::AwaitRequest, ServeAction::<Seq<u8>>::Receive);
            let world = holding_world(0x10, hash, Seq::empty(), holds);
            serve_run(world, start, Seq::empty(), 0, 6) matches Some(messages) && {
                &&& messages.len() == 1
                &&& ask_run(
                    AskWorld { opens: true, sends: true, reply: PeerReply::Message(messages[0]) },
                    (AskState::Open { hash }, AskAction::Open(route)),
                    3,
                ) matches Some(trace) && {
                    &&& world.request->Message_0 == trace.sent[0]
                    &&& trace.result == Ok::<bool, BlobsError>(holds(hash) is Found)
                }
            }
        }),
{
    law_held_blob_is_sent(hash, Seq::empty(), holds, 6);
    let code: u8 = if holds(hash) is Found {
        0x01
    } else {
        0x00
    };
    let world = AskWorld {
        opens: true,
        sends: true,
        reply: PeerReply::Message(seq![code]),
    };
    law_ask_outcome(world, route, hash, 3);
}

/// Whether an action is the one that a state waits for the answer to.
pub open spec fn ask_asks(next: (AskState, AskAction<Seq<u8>>)) -> bool {
    match next.0 {
        AskState::Open { .. } => next.1 is Open,
        AskState::SendRequest => next.1 is Send,
        AskState::AwaitReply => next.1 is Receive,
        AskState::Done => next.1 is Finish,
    }
}

/// A question accepts whatever answers its action, and nothing else.
pub proof fn law_ask_accepts(next: (AskState, AskAction<Seq<u8>>), event: AskEvent<Seq<u8>>)
    requires
        ask_asks(next),
    ensures
        ask_accepts(next.0, event) <==> match next.1 {
            AskAction::Open(_) => event is Opened,
            AskAction::Send(_) => event is Sent,
            AskAction::Receive => event is Received || event is TimedOut || event is Closed,
            AskAction::Finish(_) => false,
        },
        ask_accepts(next.0, event) ==> ask_asks(ask_step(next.0, event)),
{
}

/// Everything outside the node that a download depends on.
pub struct DownloadWorld {
    /// Whether the tunnel can be opened.
    pub opens: bool,
    /// Whether the request can be sent.
    pub sends: bool,
    /// What the peer replies.
    pub reply: PeerReply,
    /// The hash of what the store takes in, or that it cannot.
    pub imports: Option<BlobHash>,
    /// Whether the store can delete.
    pub deletes: bool,
}

/// What a download comes to: the routes that were opened, the messages that were sent, how often
/// something was imported, what was deleted, and the result.
pub struct DownloadTrace {
    pub routes: Seq<Seq<u8>>,
    pub sent: Seq<Seq<u8>>,
    pub imported: nat,
    pub deleted: Seq<BlobHash>,
    pub result: Result<(), BlobsError>,
}

/// What a download comes to when each action is done in turn, from a state and an action on. It comes
/// to nothing where it does not end within so many rounds, does not accept what happens, or reports
/// too early.
pub open spec fn download_run(
    world: DownloadWorld,
    next: (DownloadState, Asked),
    rounds: nat,
) -> Option<DownloadTrace>
    decreases rounds,
{
    if let DownloadAction::Finish(result) = next.1 {
        if next.0 is Done {
            Some(
                DownloadTrace {
                    routes: Seq::empty(),
                    sent: Seq::empty(),
                    imported: 0,
                    deleted: Seq::empty(),
                    result,
                },
            )
        } else {
            None
        }
    } else if rounds == 0 {
        None
    } else {
        let event = match next.1 {
            DownloadAction::Open(_) => Happened::Opened(world.opens),
            DownloadAction::Send(_) => Happened::Sent(world.sends),
            DownloadAction::PumpAndImport => match world.imports {
                Some(got) => Happened::Imported(got),
                None => Happened::ImportFailed,
            },
            DownloadAction::Delete(_) => Happened::Deleted(world.deletes),
            _ => match world.reply {
                PeerReply::Message(message) => Happened::Received(message),
                PeerReply::TimedOut => Happened::TimedOut,
                PeerReply::Closed => Happened::Closed,
            },
        };
        if !download_accepts(next.0, event) {
            None
        } else {
            match download_run(world, download_step(next.0, event), (rounds - 1) as nat) {
                Some(later) => Some(
                    match next.1 {
                        DownloadAction::Open(route) => DownloadTrace {
                            routes: seq![route] + later.routes,
                            ..later
                        },
                        DownloadAction::Send(message) => DownloadTrace {
                            sent: seq![message] + later.sent,
                            ..later
                        },
                        DownloadAction::PumpAndImport => DownloadTrace {
                            imported: later.imported + 1,
                            ..later
                        },
                        DownloadAction::Delete(got) => DownloadTrace {
                            deleted: seq![got] + later.deleted,
                            ..later
                        },
                        _ => later,
                    },
                ),
                None => None,
            }
        }
    }
}

/// Whether a download gets as far as an import: only where the peer was asked and said yes.
pub open spec fn said_yes(world: DownloadWorld) -> bool {
    world.opens && world.sends && reply_says(world.reply) == Ok::<bool, BlobsError>(true)
}

/// How a download ends that has got as far as an import.
pub open spec fn import_result(world: DownloadWorld, hash: BlobHash) -> Result<(), BlobsError> {
    match world.imports {
        Some(got) => if got == hash {
            Ok(())
        } else if world.deletes {
            Err(BlobsError::InvalidHash(got))
        } else {
            Err(BlobsError::Delete)
        },
        None => Err(BlobsError::Import),
    }
}

/// How a download ends.
pub open spec fn download_result(world: DownloadWorld, hash: BlobHash) -> Result<(), BlobsError> {
    if !world.opens {
        Err(BlobsError::OpenTunnel)
    } else if !world.sends {
        Err(BlobsError::SendRequest)
    } else {
        match reply_says(world.reply) {
            Ok(true) => import_result(world, hash),
            Ok(false) => Err(BlobsError::PeerLacksHash),
            Err(error) => Err(error),
        }
    }
}

/// What follows an import that a download has asked for.
proof fn lemma_import_run(world: DownloadWorld, hash: BlobHash, rounds: nat)
    requires
        rounds >= 2,
    ensures
        download_run(
            world,
            (DownloadState::Import { hash }, Asked::PumpAndImport),
            rounds,
        ) matches Some(trace) && {
            &&& trace.routes.len() == 0
            &&& trace.sent.len() == 0
            &&& trace.imported == 1
            &&& trace.deleted == match world.imports {
                Some(got) if got != hash => seq![got],
                _ => Seq::empty(),
            }
            &&& trace.result == import_result(world, hash)
        },
{
    reveal_with_fuel(download_run, 3);
    if let Some(got) = world.imports {
        assert(seq![got] + Seq::<BlobHash>::empty() =~= seq![got]);
    }
}

/// Whatever the network, the peer and the store do, a download opens the one route and sends the one
/// request if the tunnel opens. Only a peer's yes leads to an import, and to no more than one. Only
/// what was imported under another hash than the wanted one is deleted. The download succeeds where
/// what was imported has the wanted hash, and otherwise reports what went wrong first.
pub proof fn law_download_outcome(
    world: DownloadWorld,
    route: Seq<u8>,
    hash: BlobHash,
    rounds: nat,
)
    requires
        rounds >= 5,
    ensures
        download_run(
            world,
            (DownloadState::Open { hash }, Asked::Open(route)),
            rounds,
        ) matches Some(trace) && {
            &&& trace.routes == seq![route]
            &&& trace.sent == if world.opens {
                seq![seq![0x11u8] + hash@]
            } else {
                Seq::empty()
            }
            &&& trace.imported == if said_yes(world) {
                1nat
            } else {
                0
            }
            &&& trace.deleted == match world.imports {
                Some(got) if said_yes(world) && got != hash => seq![got],
                _ => Seq::empty(),
            }
            &&& trace.result == download_result(world, hash)
        },
{
    let start = (DownloadState::Open { hash }, Asked::Open(route));
    let second = download_step(start.0, Happened::Opened(world.opens));
    let none = Seq::<Seq<u8>>::empty();
    let nothing = Seq::<BlobHash>::empty();
    if world.opens {
        let request = seq![0x11u8] + hash@;
        assert(second.1->Send_0 =~= request);
        let third = download_step(second.0, Happened::Sent(world.sends));
        let run3 = download_run(world, third, (rounds - 2) as nat);
        if world.sends {
            let event = match world.reply {
                PeerReply::Message(message) => Happened::Received(message),
                PeerReply::TimedOut => Happened::TimedOut,
                PeerReply::Closed => Happened::Closed,
            };
            let fourth = download_step(third.0, event);
            let run4 = download_run(world, fourth, (rounds - 3) as nat);
            assert(download_accepts(third.0, event));
            if said_yes(world) {
                lemma_import_run(world, hash, (rounds - 3) as nat);
            }
            assert(run4 is Some && run4->0.routes =~= none && run4->0.sent =~= none);
            assert(!said_yes(world) ==> run4->0.deleted =~= nothing);
            assert(run3 == run4);
        }
        assert(run3 is Some && run3->0.routes =~= none && run3->0.sent =~= none);
        let run2 = download_run(world, second, (rounds - 1) as nat);
        assert(run2 is Some && run2->0.sent =~= seq![request] && run2->0.routes =~= none);
    }
    let run2 = download_run(world, second, (rounds - 1) as nat);
    assert(run2 is Some);
    let trace = download_run(world, start, rounds)->0;
    assert(trace.routes =~= seq![route]);
}

/// A download from a peer that does not hold the blob, whatever the hash, reports just that: the
/// peer's no, and only that, is what it was sent, and nothing is imported or deleted.
pub proof fn law_lacking_peer(
    route: Seq<u8>,
    hash: BlobHash,
    holds: spec_fn(BlobHash) -> Lookup,
    imports: Option<BlobHash>,
    deletes: bool,
)
    requires
        !(holds(hash) is Found),
    ensures
        ({
            let world = holding_world(0x11, hash, Seq::empty(), holds);
            let start = (ServeState::AwaitRequest, ServeAction::<Seq<u8>>::Receive);
            serve_run(world, start, Seq::empty(), 0, 6) matches Some(messages) && {
                &&& messages.len() == 1
                &&& download_run(
                    DownloadWorld {
                        opens: true,
                        sends: true,
                        reply: PeerReply::Message(messages[0]),
                        imports,
                        deletes,
                    },
                    (DownloadState::Open { hash }, Asked::Open(route)),
                    5,
                ) matches Some(trace) && {
                    &&& world.request->Message_0 == trace.sent[0]
                    &&& trace.result == Err::<(), BlobsError>(BlobsError::PeerLacksHash)
                    &&& trace.imported == 0
                    &&& trace.deleted.len() == 0
                }
            }
        }),
{
    law_held_blob_is_sent(hash, Seq::empty(), holds, 6);
    let world = DownloadWorld {
        opens: true,
        sends: true,
        reply: PeerReply::Message(seq![0x00u8]),
        imports,
        deletes,
    };
    law_download_outcome(world, route, hash, 5);
}

/// A download whose peer says no ends with that, and leaves the store as it was.
pub proof fn law_no_keeps_store(
    hash: BlobHash,
    route: Seq<u8>,
    messages: Seq<Seq<u8>>,
    store: StoreModel,
    moments: Seq<DownloadMoment>,
    outcome: Result<(), BlobsError>,
    after: StoreModel,
)
    requires
        download_passes(
            (DownloadState::Open { hash }, Asked::Open(route)),
            store,
            messages,
            moments,
            outcome,
            after,
        ),
        moments.len() >= 3,
        moments[2].event == Happened::Received(seq![0x00u8]),
    ensures
        outcome == Err::<(), BlobsError>(BlobsError::PeerLacksHash),
        after == store,
{
    reveal_with_fuel(download_passes, 4);
    let rest1 = moments.skip(1);
    let rest2 = rest1.skip(1);
    assert(rest1[0] == moments[1] && rest2[0] == moments[2]);
}

/// Whether an action is the one that a state waits for the answer to.
pub open spec fn download_asks(next: (DownloadState, Asked)) -> bool {
    match next.0 {
        DownloadState::Open { .. } => next.1 is Open,
        DownloadState::SendRequest { .. } => next.1 is Send,
        DownloadState::AwaitReply { .. } => next.1 is Receive,
        DownloadState::Import { .. } => next.1 is PumpAndImport,
        DownloadState::Delete { got } => next.1 == Asked::Delete(got),
        DownloadState::Done => next.1 is Finish,
    }
}

/// A download accepts whatever answers its action, and nothing else.
pub proof fn law_download_accepts(next: (DownloadState, Asked), event: Happened)
    requires
        download_asks(next),
    ensures
        download_accepts(next.0, event) <==> match next.1 {
            DownloadAction::Open(_) => event is Opened,
            DownloadAction::Send(_) => event is Sent,
            DownloadAction::Receive => event is Received || event is TimedOut || event is Closed,
            DownloadAction::PumpAndImport => event is Imported || event is ImportFailed,
            DownloadAction::Delete(_) => event is Deleted,
            DownloadAction::Finish(_) => false,
        },
        download_accepts(next.0, event) ==> download_asks(download_step(next.0, event)),
{
}

/// What the pump hands to the store when each action is done in turn, with messages still to come,
/// the peer then falling silent or closing the tunnel, and the store having been handed so much.
/// There is nothing where the pump does not end within so many rounds, does not accept what happens,
/// or ends too early.
pub open spec fn pump_run(
    messages: Seq<Seq<u8>>,
    closes: bool,
    takes: spec_fn(nat) -> bool,
    next: (PumpState, PumpAction<Seq<u8>>),
    handed: nat,
    rounds: nat,
) -> Option<Seq<Forwarded>>
    decreases rounds,
{
    if next.1 is Finish {
        if next.0 is Done {
            Some(Seq::empty())
        } else {
            None
        }
    } else if rounds == 0 {
        None
    } else {
        let event = match next.1 {
            PumpAction::Forward(_) => PumpEvent::Forwarded(takes(handed)),
            _ => if messages.len() > 0 {
                PumpEvent::Received(messages[0])
            } else if closes {
                PumpEvent::Closed
            } else {
                PumpEvent::TimedOut
            },
        };
        if !pump_accepts(next.0, event) {
            None
        } else {
            let then = pump_step(next.0, event);
            let fewer = (rounds - 1) as nat;
            match next.1 {
                PumpAction::Forward(forwarded) => match pump_run(
                    messages,
                    closes,
                    takes,
                    then,
                    handed + 1,
                    fewer,
                ) {
                    Some(later) => Some(seq![forwarded] + later),
                    None => None,
                },
                _ => pump_run(
                    if messages.len() > 0 {
                        messages.skip(1)
                    } else {
                        messages
                    },
                    closes,
                    takes,
                    then,
                    handed,
                    fewer,
                ),
            }
        }
    }
}

/// What the store is to be handed of a peer's messages: what lies behind the command of each piece,
/// up to the end, an error for a message that is neither, and nothing after one that the store did
/// not take.
pub open spec fn handed_on(
    messages: Seq<Seq<u8>>,
    takes: spec_fn(nat) -> bool,
    handed: nat,
) -> Seq<Forwarded>
    decreases messages.len(),
{
    if messages.len() == 0 || (messages[0].len() > 0 && messages[0][0] == 0x22) {
        Seq::empty()
    } else if messages[0].len() == 0 {
        seq![Forwarded::Err(PumpError::EmptyMessage)]
    } else if messages[0][0] != 0x20 {
        seq![Forwarded::Err(PumpError::UnexpectedCommand(messages[0][0]))]
    } else {
        seq![Forwarded::Ok(messages[0].subrange(1, messages[0].len() as int))] + if takes(handed) {
            handed_on(messages.skip(1), takes, handed + 1)
        } else {
            Seq::empty()
        }
    }
}

/// Whatever a peer sends and however much of it the store takes, the pump hands on exactly the pieces
/// that come first, an error for what is neither a piece nor the end, and nothing more.
pub proof fn law_pump_outcome(
    messages: Seq<Seq<u8>>,
    closes: bool,
    takes: spec_fn(nat) -> bool,
    handed: nat,
    rounds: nat,
)
    requires
        rounds >= 2 * messages.len() + 1,
    ensures
        pump_run(
            messages,
            closes,
            takes,
            (PumpState::AwaitMessage, PumpAction::<Seq<u8>>::Receive),
            handed,
            rounds,
        ) == Some(handed_on(messages, takes, handed)),
    decreases messages.len(),
{
    reveal_with_fuel(pump_run, 4);
    if messages.len() > 0 {
        let message = messages[0];
        let rest = messages.skip(1);
        if message.len() > 0 && message[0] == 0x20 {
            assert(message.skip(1) =~= message.subrange(1, message.len() as int));
            if takes(handed) {
                law_pump_outcome(rest, closes, takes, handed + 1, (rounds - 2) as nat);
            }
        }
        assert(forall|forwarded: Forwarded| #[trigger]
            seq![forwarded] + Seq::<Forwarded>::empty() =~= seq![forwarded]);
    }
}

/// Whether an action is the one that a state waits for the answer to.
pub open spec fn pump_asks(next: (PumpState, PumpAction<Seq<u8>>)) -> bool {
    match next.0 {
        PumpState::AwaitMessage => next.1 is Receive,
        PumpState::Forward => next.1 matches PumpAction::Forward(Ok(_)),
        PumpState::ForwardLast => next.1 matches PumpAction::Forward(Err(_)),
        PumpState::Done => next.1 is Finish,
    }
}

/// The pump accepts whatever answers its action, and nothing else.
pub proof fn law_pump_accepts(next: (PumpState, PumpAction<Seq<u8>>), event: PumpEvent<Seq<u8>>)
    requires
        pump_asks(next),
    ensures
        pump_accepts(next.0, event) <==> match next.1 {
            PumpAction::Receive => event is Received || event is TimedOut || event is Closed,
            PumpAction::Forward(_) => event is Forwarded,
            PumpAction::Finish => false,
        },
        pump_accepts(next.0, event) ==> pump_asks(pump_step(next.0, event)),
{
}

} // verus!
