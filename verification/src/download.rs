//! Fetching a blob from a peer.
//!
//! Two machines share the work. `DownloadState` asks the peer for the blob, has what the peer sends
//! brought into the store, and compares hashes. `PumpState` runs beside it once the peer has said
//! yes: it takes the pieces of the blob out of the peer's messages and hands them to the store.

use vstd::prelude::*;
use vstd::string::StringExecFns;
use crate::ask::{read_reply, reply_meaning};
use crate::buffer::{bytes_contents, bytes_from_vec};
use crate::error::BlobsError;
use crate::hash::BlobHash;
use crate::text::{decimal, decimal_text};
use crate::wire::{encode_request, request_message, ASK, DATA, DONE};

verus! {

/// How far the download has come.
#[derive(Clone, Copy, Debug)]
pub enum DownloadState {
    /// A tunnel to the peer is being opened.
    Open { hash: BlobHash },
    /// The request is being sent.
    SendRequest { hash: BlobHash },
    /// The reply is awaited.
    AwaitReply { hash: BlobHash },
    /// What the peer sends is being brought into the store.
    Import { hash: BlobHash },
    /// The blob that the peer sent in place of the wanted one is being deleted.
    Delete { got: BlobHash },
    /// Nothing is left to do.
    Done,
}

/// What happened since the last action was handed out. Messages are of type `M`.
pub enum DownloadEvent<M> {
    /// The tunnel was opened, or, for `false`, could not be opened.
    Opened(bool),
    /// The request was sent, or, for `false`, could not be sent.
    Sent(bool),
    /// The peer sent a message.
    Received(M),
    /// The peer sent no message in time.
    TimedOut,
    /// The peer closed the tunnel.
    Closed,
    /// The store took in a blob with this hash.
    Imported(BlobHash),
    /// The store could not take in what was sent.
    ImportFailed,
    /// The blob was deleted, or, for `false`, could not be deleted.
    Deleted(bool),
}

/// What to do next. Messages and routes are of type `M`.
pub enum DownloadAction<M> {
    /// Open a tunnel to the peer at the route.
    Open(M),
    /// Send a message to the peer.
    Send(M),
    /// Wait for the peer's reply, for no longer than the timeout.
    Receive,
    /// Start the pump, and have what it forwards brought into the store.
    PumpAndImport,
    /// Delete a blob from the store.
    Delete(BlobHash),
    /// Report how the download ended.
    Finish(Result<(), BlobsError>),
}

impl View for DownloadEvent<Vec<u8>> {
    type V = DownloadEvent<Seq<u8>>;

    open spec fn view(&self) -> DownloadEvent<Seq<u8>> {
        match *self {
            DownloadEvent::Opened(ok) => DownloadEvent::Opened(ok),
            DownloadEvent::Sent(ok) => DownloadEvent::Sent(ok),
            DownloadEvent::Received(message) => DownloadEvent::Received(message@),
            DownloadEvent::TimedOut => DownloadEvent::TimedOut,
            DownloadEvent::Closed => DownloadEvent::Closed,
            DownloadEvent::Imported(hash) => DownloadEvent::Imported(hash),
            DownloadEvent::ImportFailed => DownloadEvent::ImportFailed,
            DownloadEvent::Deleted(ok) => DownloadEvent::Deleted(ok),
        }
    }
}

impl View for DownloadAction<Vec<u8>> {
    type V = DownloadAction<Seq<u8>>;

    open spec fn view(&self) -> DownloadAction<Seq<u8>> {
        match *self {
            DownloadAction::Open(route) => DownloadAction::Open(route@),
            DownloadAction::Send(message) => DownloadAction::Send(message@),
            DownloadAction::Receive => DownloadAction::Receive,
            DownloadAction::PumpAndImport => DownloadAction::PumpAndImport,
            DownloadAction::Delete(hash) => DownloadAction::Delete(hash),
            DownloadAction::Finish(result) => DownloadAction::Finish(result),
        }
    }
}

/// Whether an event can happen in a state: it answers the action that led to the state.
pub open spec fn download_accepts(state: DownloadState, event: DownloadEvent<Seq<u8>>) -> bool {
    match state {
        DownloadState::Open { .. } => event is Opened,
        DownloadState::SendRequest { .. } => event is Sent,
        DownloadState::AwaitReply { .. } => event is Received || event is TimedOut
            || event is Closed,
        DownloadState::Import { .. } => event is Imported || event is ImportFailed,
        DownloadState::Delete { .. } => event is Deleted,
        DownloadState::Done => false,
    }
}

/// Ends the download with an error.
pub open spec fn download_fails(error: BlobsError) -> (DownloadState, DownloadAction<Seq<u8>>) {
    (DownloadState::Done, DownloadAction::Finish(Err(error)))
}

/// What follows when an event happens in a state that accepts it.
pub open spec fn download_step(state: DownloadState, event: DownloadEvent<Seq<u8>>) -> (
    DownloadState,
    DownloadAction<Seq<u8>>,
) {
    match (state, event) {
        (DownloadState::Open { hash }, DownloadEvent::Opened(true)) => (
            DownloadState::SendRequest { hash },
            DownloadAction::Send(request_message(ASK, hash@)),
        ),
        (DownloadState::Open { .. }, _) => download_fails(BlobsError::OpenTunnel),
        (DownloadState::SendRequest { hash }, DownloadEvent::Sent(true)) => (
            DownloadState::AwaitReply { hash },
            DownloadAction::Receive,
        ),
        (DownloadState::SendRequest { .. }, _) => download_fails(BlobsError::SendRequest),
        (DownloadState::AwaitReply { hash }, DownloadEvent::Received(message)) => match reply_meaning(
            message,
        ) {
            Ok(true) => (DownloadState::Import { hash }, DownloadAction::PumpAndImport),
            Ok(false) => download_fails(BlobsError::PeerLacksHash),
            Err(error) => download_fails(error),
        },
        (DownloadState::AwaitReply { .. }, _) => download_fails(BlobsError::UnableToAsk),
        (DownloadState::Import { hash }, DownloadEvent::Imported(got)) => if got == hash {
            (DownloadState::Done, DownloadAction::Finish(Ok(())))
        } else {
            (DownloadState::Delete { got }, DownloadAction::Delete(got))
        },
        (DownloadState::Import { .. }, _) => download_fails(BlobsError::Import),
        (DownloadState::Delete { got }, DownloadEvent::Deleted(true)) => download_fails(
            BlobsError::InvalidHash(got),
        ),
        _ => download_fails(BlobsError::Delete),
    }
}

impl DownloadState {
    /// Whether an event can happen in this state.
    pub fn accepts(&self, event: &DownloadEvent<Vec<u8>>) -> (res: bool)
        ensures
            res == download_accepts(*self, event@),
    {
        match (self, event) {
            (DownloadState::Open { .. }, DownloadEvent::Opened(_)) => true,
            (DownloadState::SendRequest { .. }, DownloadEvent::Sent(_)) => true,
            (DownloadState::AwaitReply { .. }, DownloadEvent::Received(_)) => true,
            (DownloadState::AwaitReply { .. }, DownloadEvent::TimedOut) => true,
            (DownloadState::AwaitReply { .. }, DownloadEvent::Closed) => true,
            (DownloadState::Import { .. }, DownloadEvent::Imported(_)) => true,
            (DownloadState::Import { .. }, DownloadEvent::ImportFailed) => true,
            (DownloadState::Delete { .. }, DownloadEvent::Deleted(_)) => true,
            _ => false,
        }
    }

    /// Takes in what happened, and says what to do next.
    pub fn step(self, event: DownloadEvent<Vec<u8>>) -> (res: (
        DownloadState,
        DownloadAction<Vec<u8>>,
    ))
        requires
            download_accepts(self, event@),
        ensures
            (res.0, res.1@) == download_step(self, event@),
    {
        match (self, event) {
            (DownloadState::Open { hash }, DownloadEvent::Opened(true)) => (
                DownloadState::SendRequest { hash },
                DownloadAction::Send(encode_request(ASK, &hash)),
            ),
            (DownloadState::Open { .. }, _) => (
                DownloadState::Done,
                DownloadAction::Finish(Err(BlobsError::OpenTunnel)),
            ),
            (DownloadState::SendRequest { hash }, DownloadEvent::Sent(true)) => (
                DownloadState::AwaitReply { hash },
                DownloadAction::Receive,
            ),
            (DownloadState::SendRequest { .. }, _) => (
                DownloadState::Done,
                DownloadAction::Finish(Err(BlobsError::SendRequest)),
            ),
            (DownloadState::AwaitReply { hash }, DownloadEvent::Received(message)) => {
                match read_reply(&message) {
                    Ok(true) => (DownloadState::Import { hash }, DownloadAction::PumpAndImport),
                    Ok(false) => (
                        DownloadState::Done,
                        DownloadAction::Finish(Err(BlobsError::PeerLacksHash)),
                    ),
                    Err(error) => (DownloadState::Done, DownloadAction::Finish(Err(error))),
                }
            },
            (DownloadState::AwaitReply { .. }, _) => (
                DownloadState::Done,
                DownloadAction::Finish(Err(BlobsError::UnableToAsk)),
            ),
            (DownloadState::Import { hash }, DownloadEvent::Imported(got)) => {
                if got.same(&hash) {
                    (DownloadState::Done, DownloadAction::Finish(Ok(())))
                } else {
                    (DownloadState::Delete { got }, DownloadAction::Delete(got))
                }
            },
            (DownloadState::Import { .. }, _) => (
                DownloadState::Done,
                DownloadAction::Finish(Err(BlobsError::Import)),
            ),
            (DownloadState::Delete { got }, DownloadEvent::Deleted(true)) => (
                DownloadState::Done,
                DownloadAction::Finish(Err(BlobsError::InvalidHash(got))),
            ),
            _ => (DownloadState::Done, DownloadAction::Finish(Err(BlobsError::Delete))),
        }
    }
}

/// Why the pump refuses a message of the peer.
#[derive(Clone, Copy, Debug, PartialEq, Eq)]
pub enum PumpError {
    /// The message is empty.
    EmptyMessage,
    /// The message is neither a piece of the blob nor its end; its command.
    UnexpectedCommand(u8),
}

/// The text with which a message of the peer is refused.
pub open spec fn pump_error_text(error: PumpError) -> Seq<char> {
    match error {
        PumpError::EmptyMessage => "Peer sent empty message"@,
        PumpError::UnexpectedCommand(command) => "Peer sent unexpected command "@ + decimal(
            command as nat,
        ),
    }
}

impl PumpError {
    /// The text of the error.
    pub fn message(&self) -> (res: String)
        ensures
            res@ == pump_error_text(*self),
    {
        match self {
            PumpError::EmptyMessage => "Peer sent empty message".to_owned(),
            PumpError::UnexpectedCommand(command) => {
                "Peer sent unexpected command ".to_owned().concat(
                    decimal_text(*command as usize).as_str(),
                )
            },
        }
    }
}

/// How far the pump has come.
#[derive(Clone, Copy, Debug)]
pub enum PumpState {
    /// The peer's next message is awaited.
    AwaitMessage,
    /// A piece of the blob is being handed to the store.
    Forward,
    /// An error is being handed to the store, and is the last thing that is.
    ForwardLast,
    /// Nothing is left to do.
    Done,
}

/// What happened since the last action was handed out. Messages are of type `M`.
pub enum PumpEvent<M> {
    /// The peer sent a message.
    Received(M),
    /// The peer sent no message in time.
    TimedOut,
    /// The peer closed the tunnel.
    Closed,
    /// The store took what was handed to it, or, for `false`, no longer wants anything.
    Forwarded(bool),
}

/// What to do next. Pieces of the blob are of type `C`.
pub enum PumpAction<C> {
    /// Wait for the peer's next message, for no longer than the timeout.
    Receive,
    /// Hand a piece of the blob, or an error, to the store.
    Forward(Result<C, PumpError>),
    /// Tell the store that nothing more comes.
    Finish,
}

impl View for PumpEvent<Vec<u8>> {
    type V = PumpEvent<Seq<u8>>;

    open spec fn view(&self) -> PumpEvent<Seq<u8>> {
        match *self {
            PumpEvent::Received(message) => PumpEvent::Received(message@),
            PumpEvent::TimedOut => PumpEvent::TimedOut,
            PumpEvent::Closed => PumpEvent::Closed,
            PumpEvent::Forwarded(ok) => PumpEvent::Forwarded(ok),
        }
    }
}

impl View for PumpAction<bytes::Bytes> {
    type V = PumpAction<Seq<u8>>;

    open spec fn view(&self) -> PumpAction<Seq<u8>> {
        match *self {
            PumpAction::Receive => PumpAction::Receive,
            PumpAction::Forward(Ok(chunk)) => PumpAction::Forward(Ok(bytes_contents(chunk))),
            PumpAction::Forward(Err(error)) => PumpAction::Forward(Err(error)),
            PumpAction::Finish => PumpAction::Finish,
        }
    }
}

/// Whether an event can happen in a state: it answers the action that led to the state.
pub open spec fn pump_accepts(state: PumpState, event: PumpEvent<Seq<u8>>) -> bool {
    match state {
        PumpState::AwaitMessage => event is Received || event is TimedOut || event is Closed,
        PumpState::Forward => event is Forwarded,
        PumpState::ForwardLast => event is Forwarded,
        PumpState::Done => false,
    }
}

/// What follows when an event happens in a state that accepts it.
pub open spec fn pump_step(state: PumpState, event: PumpEvent<Seq<u8>>) -> (
    PumpState,
    PumpAction<Seq<u8>>,
) {
    match (state, event) {
        (PumpState::AwaitMessage, PumpEvent::Received(message)) => if message.len() == 0 {
            (PumpState::ForwardLast, PumpAction::Forward(Err(PumpError::EmptyMessage)))
        } else if message[0] == DONE {
            (PumpState::Done, PumpAction::Finish)
        } else if message[0] == DATA {
            (PumpState::Forward, PumpAction::Forward(Ok(message.skip(1))))
        } else {
            (
                PumpState::ForwardLast,
                PumpAction::Forward(Err(PumpError::UnexpectedCommand(message[0]))),
            )
        },
        (PumpState::Forward, PumpEvent::Forwarded(true)) => (
            PumpState::AwaitMessage,
            PumpAction::Receive,
        ),
        _ => (PumpState::Done, PumpAction::Finish),
    }
}

impl PumpState {
    /// Whether an event can happen in this state.
    pub fn accepts(&self, event: &PumpEvent<Vec<u8>>) -> (res: bool)
        ensures
            res == pump_accepts(*self, event@),
    {
        match (self, event) {
            (PumpState::AwaitMessage, PumpEvent::Received(_)) => true,
            (PumpState::AwaitMessage, PumpEvent::TimedOut) => true,
            (PumpState::AwaitMessage, PumpEvent::Closed) => true,
            (PumpState::Forward, PumpEvent::Forwarded(_)) => true,
            (PumpState::ForwardLast, PumpEvent::Forwarded(_)) => true,
            _ => false,
        }
    }

    /// Takes in what happened, and says what to do next.
    pub fn step(self, event: PumpEvent<Vec<u8>>) -> (res: (PumpState, PumpAction<bytes::Bytes>))
        requires
            pump_accepts(self, event@),
        ensures
            (res.0, res.1@) == pump_step(self, event@),
    {
        match (self, event) {
            (PumpState::AwaitMessage, PumpEvent::Received(message)) => {
                if message.len() < 1 {
                    return (
                        PumpState::ForwardLast,
                        PumpAction::Forward(Err(PumpError::EmptyMessage)),
                    );
                }
                let command: u8 = message[0];
                if command == DONE {
                    return (PumpState::Done, PumpAction::Finish);
                }
                if command != DATA {
                    return (
                        PumpState::ForwardLast,
                        PumpAction::Forward(Err(PumpError::UnexpectedCommand(command))),
                    );
                }
                let rest = vstd::slice::slice_subrange(message.as_slice(), 1, message.len());
                assert(rest@ == message@.skip(1));
                let chunk = bytes_from_vec(vstd::slice::slice_to_vec(rest));
                (PumpState::Forward, PumpAction::Forward(Ok(chunk)))
            },
            (PumpState::Forward, PumpEvent::Forwarded(true)) => (
                PumpState::AwaitMessage,
                PumpAction::Receive,
            ),
            _ => (PumpState::Done, PumpAction::Finish),
        }
    }
}

} // verus!
