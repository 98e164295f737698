//! Asking a peer whether it holds a blob.

use vstd::prelude::*;
use crate::error::BlobsError;
use crate::hash::BlobHash;
use crate::wire::{encode_request, request_message, HAS, NO, YES};

verus! {

/// How far the question to a peer has come.
#[derive(Clone, Copy, Debug)]
pub enum AskState {
    /// A tunnel to the peer is being opened.
    Open { hash: BlobHash },
    /// The request is being sent.
    SendRequest,
    /// The reply is awaited.
    AwaitReply,
    /// Nothing is left to do.
    Done,
}

/// What happened since the last action was handed out. Messages are of type `M`.
pub enum AskEvent<M> {
    /// The tunnel was opened, or, for `false`, could not be opened.
    Opened(bool),
    /// The request was sent, or, for `false`, could not be sent.
    Sent(bool),
    /// The peer sent a message.
    Received(M),
    /// The peer sent no message in time.
    TimedOut,
    /// The peer closed the tunnel.
    Closed,
}

/// What to do next. Messages and routes are of type `M`.
pub enum AskAction<M> {
    /// Open a tunnel to the peer at the route.
    Open(M),
    /// Send a message to the peer.
    Send(M),
    /// Wait for the peer's reply, for no longer than the timeout.
    Receive,
    /// Report whether the peer holds the blob.
    Finish(Result<bool, BlobsError>),
}

impl View for AskEvent<Vec<u8>> {
    type V = AskEvent<Seq<u8>>;

    open spec fn view(&self) -> AskEvent<Seq<u8>> {
        match *self {
            AskEvent::Opened(ok) => AskEvent::Opened(ok),
            AskEvent::Sent(ok) => AskEvent::Sent(ok),
            AskEvent::Received(message) => AskEvent::Received(message@),
            AskEvent::TimedOut => AskEvent::TimedOut,
            AskEvent::Closed => AskEvent::Closed,
        }
    }
}

impl View for AskAction<Vec<u8>> {
    type V = AskAction<Seq<u8>>;

    open spec fn view(&self) -> AskAction<Seq<u8>> {
        match *self {
            AskAction::Open(route) => AskAction::Open(route@),
            AskAction::Send(message) => AskAction::Send(message@),
            AskAction::Receive => AskAction::Receive,
            AskAction::Finish(result) => AskAction::Finish(result),
        }
    }
}

/// What a peer's reply says: `true` where it holds the blob, `false` where it does not.
pub open spec fn reply_meaning(message: Seq<u8>) -> Result<bool, BlobsError> {
    if message.len() != 1 {
        Err(BlobsError::InvalidResponseLength(message.len() as usize))
    } else if message[0] == YES {
        Ok(true)
    } else if message[0] == NO {
        Ok(false)
    } else {
        Err(BlobsError::InvalidResponseCode(message[0]))
    }
}

/// Whether an event can happen in a state: it answers the action that led to the state.
pub open spec fn ask_accepts(state: AskState, event: AskEvent<Seq<u8>>) -> bool {
    match state {
        AskState::Open { .. } => event is Opened,
        AskState::SendRequest => event is Sent,
        AskState::AwaitReply => event is Received || event is TimedOut || event is Closed,
        AskState::Done => false,
    }
}

/// What follows when an event happens in a state that accepts it.
pub open spec fn ask_step(state: AskState, event: AskEvent<Seq<u8>>) -> (
    AskState,
    AskAction<Seq<u8>>,
) {
    match (state, event) {
        (AskState::Open { hash }, AskEvent::Opened(true)) => (
            AskState::SendRequest,
            AskAction::Send(request_message(HAS, hash@)),
        ),
        (AskState::Open { .. }, _) => (
            AskState::Done,
            AskAction::Finish(Err(BlobsError::OpenTunnel)),
        ),
        (AskState::SendRequest, AskEvent::Sent(true)) => (AskState::AwaitReply, AskAction::Receive),
        (AskState::SendRequest, _) => (
            AskState::Done,
            AskAction::Finish(Err(BlobsError::SendRequest)),
        ),
        (AskState::AwaitReply, AskEvent::Received(message)) => (
            AskState::Done,
            AskAction::Finish(reply_meaning(message)),
        ),
        _ => (AskState::Done, AskAction::Finish(Err(BlobsError::UnableToAsk))),
    }
}

/// Reads a peer's reply.
pub fn read_reply(message: &Vec<u8>) -> (res: Result<bool, BlobsError>)
    ensures
        res == reply_meaning(message@),
{
    if message.len() != 1 {
        return Err(BlobsError::InvalidResponseLength(message.len()));
    }
    let command: u8 = message[0];
    if command == YES {
        Ok(true)
    } else if command == NO {
        Ok(false)
    } else {
        Err(BlobsError::InvalidResponseCode(command))
    }
}

impl AskState {
    /// Whether an event can happen in this state.
    pub fn accepts(&self, event: &AskEvent<Vec<u8>>) -> (res: bool)
        ensures
            res == ask_accepts(*self, event@),
    {
        match (self, event) {
            (AskState::Open { .. }, AskEvent::Opened(_)) => true,
            (AskState::SendRequest, AskEvent::Sent(_)) => true,
            (AskState::AwaitReply, AskEvent::Received(_)) => true,
            (AskState::AwaitReply, AskEvent::TimedOut) => true,
            (AskState::AwaitReply, AskEvent::Closed) => true,
            _ => false,
        }
    }

    /// Takes in what happened, and says what to do next.
    pub fn step(self, event: AskEvent<Vec<u8>>) -> (res: (AskState, AskAction<Vec<u8>>))
        requires
            ask_accepts(self, event@),
        ensures
            (res.0, res.1@) == ask_step(self, event@),
    {
        match (self, event) {
            (AskState::Open { hash }, AskEvent::Opened(true)) => (
                AskState::SendRequest,
                AskAction::Send(encode_request(HAS, &hash)),
            ),
            (AskState::Open { .. }, _) => (
                AskState::Done,
                AskAction::Finish(Err(BlobsError::OpenTunnel)),
            ),
            (AskState::SendRequest, AskEvent::Sent(true)) => (
                AskState::AwaitReply,
                AskAction::Receive,
            ),
            (AskState::SendRequest, _) => (
                AskState::Done,
                AskAction::Finish(Err(BlobsError::SendRequest)),
            ),
            (AskState::AwaitReply, AskEvent::Received(message)) => (
                AskState::Done,
                AskAction::Finish(read_reply(&message)),
            ),
            _ => (AskState::Done, AskAction::Finish(Err(BlobsError::UnableToAsk))),
        }
    }
}

} // verus!
