use veilid_iroh_blobs::blobs::VeilidIrohBlobs;
use veilid_iroh_blobs::download::{
    DownloadAction, DownloadEvent, DownloadState, PumpAction, PumpError, PumpEvent, PumpState,
};
use veilid_iroh_blobs::error::BlobsError;
use veilid_iroh_blobs::hash::BlobHash;
use veilid_iroh_blobs::store::{BlobFormat, FileImport, ImportMode};

type Event = DownloadEvent<Vec<u8>>;
type Message = PumpEvent<Vec<u8>>;

fn wanted() -> BlobHash {
    BlobHash { bytes: [3u8; 32] }
}

fn download(events: Vec<Event>) -> (DownloadState, DownloadAction<Vec<u8>>) {
    let (mut state, mut action) = VeilidIrohBlobs::download_file_from(vec![4, 2], &wanted());
    for event in events {
        assert!(state.accepts(&event));
        (state, action) = state.step(event);
    }
    (state, action)
}

fn outcome(events: Vec<Event>) -> Option<Result<(), BlobsError>> {
    match download(events).1 {
        DownloadAction::Finish(result) => Some(result),
        _ => None,
    }
}

fn replied(message: Vec<u8>) -> Vec<Event> {
    vec![Event::Opened(true), Event::Sent(true), Event::Received(message)]
}

#[test]
fn download_sends_an_ask_request() {
    let (_, action) = download(vec![]);
    assert!(matches!(action, DownloadAction::Open(route) if route == vec![4, 2]));
    let (_, action) = download(vec![Event::Opened(true)]);
    let mut expected = vec![0x11u8];
    expected.extend_from_slice(&[3u8; 32]);
    assert!(matches!(action, DownloadAction::Send(message) if message == expected));
    let (_, action) = download(vec![Event::Opened(true), Event::Sent(true)]);
    assert!(matches!(action, DownloadAction::Receive));
}

#[test]
fn peer_that_says_yes_has_its_blob_imported() {
    let (_, action) = download(replied(vec![0x01]));
    assert!(matches!(action, DownloadAction::PumpAndImport));
}

#[test]
fn blob_with_the_wanted_hash_ends_the_download_well() {
    let mut events = replied(vec![0x01]);
    events.push(Event::Imported(wanted()));
    assert_eq!(outcome(events), Some(Ok(())));
}

#[test]
fn blob_with_another_hash_is_deleted_and_refused() {
    let other = BlobHash { bytes: [4u8; 32] };
    let mut events = replied(vec![0x01]);
    events.push(Event::Imported(other));
    let (state, action) = download(events);
    assert!(matches!(action, DownloadAction::Delete(hash) if hash == other));
    let (_, action) = state.step(Event::Deleted(true));
    assert!(matches!(
        action,
        DownloadAction::Finish(Err(BlobsError::InvalidHash(hash))) if hash == other
    ));
    let (_, action) = state.step(Event::Deleted(false));
    assert!(matches!(action, DownloadAction::Finish(Err(BlobsError::Delete))));
}

#[test]
fn download_fails_with_what_went_wrong() {
    let opened = || vec![Event::Opened(true), Event::Sent(true)];
    let after = |event: Event| {
        let mut events = opened();
        events.push(event);
        outcome(events)
    };
    assert_eq!(outcome(vec![Event::Opened(false)]), Some(Err(BlobsError::OpenTunnel)));
    let unsent = vec![Event::Opened(true), Event::Sent(false)];
    assert_eq!(outcome(unsent), Some(Err(BlobsError::SendRequest)));
    assert_eq!(after(Event::TimedOut), Some(Err(BlobsError::UnableToAsk)));
    assert_eq!(after(Event::Closed), Some(Err(BlobsError::UnableToAsk)));
    assert_eq!(after(Event::Received(vec![0])), Some(Err(BlobsError::PeerLacksHash)));
    assert_eq!(
        after(Event::Received(vec![0xF0])),
        Some(Err(BlobsError::InvalidResponseCode(0xF0)))
    );
    assert_eq!(
        after(Event::Received(vec![1, 0])),
        Some(Err(BlobsError::InvalidResponseLength(2)))
    );
    let mut unimported = replied(vec![1]);
    unimported.push(Event::ImportFailed);
    assert_eq!(outcome(unimported), Some(Err(BlobsError::Import)));
}

#[test]
fn download_accepts_only_what_answers_its_action() {
    let (state, _) = download(vec![]);
    assert!(!state.accepts(&Event::Imported(wanted())));
    assert!(!DownloadState::Done.accepts(&Event::Deleted(true)));
}

/// Runs the pump on messages, each of which the store takes, and gives what the store was handed.
fn pump(events: Vec<Message>) -> (Vec<Result<Vec<u8>, PumpError>>, bool) {
    let (mut state, mut action) = VeilidIrohBlobs::pump();
    let mut handed = Vec::new();
    for event in events {
        assert!(state.accepts(&event));
        (state, action) = state.step(event);
        if let PumpAction::Forward(chunk) = action {
            handed.push(chunk.map(|bytes| bytes.to_vec()));
            assert!(state.accepts(&Message::Forwarded(true)));
            (state, action) = state.step(Message::Forwarded(true));
        }
    }
    (handed, matches!(action, PumpAction::Finish))
}

#[test]
fn pump_hands_on_pieces_until_done() {
    let events = vec![
        Message::Received(vec![0x20, 1, 2, 3]),
        Message::Received(vec![0x20]),
        Message::Received(vec![0x20, 4]),
        Message::Received(vec![0x22]),
    ];
    assert_eq!(pump(events), (vec![Ok(vec![1, 2, 3]), Ok(vec![]), Ok(vec![4])], true));
}

#[test]
fn pump_ends_when_the_peer_falls_silent() {
    assert_eq!(pump(vec![Message::TimedOut]), (vec![], true));
    assert_eq!(pump(vec![Message::Closed]), (vec![], true));
}

#[test]
fn pump_refuses_an_empty_message() {
    let events = vec![Message::Received(vec![0x20, 1]), Message::Received(vec![])];
    assert_eq!(pump(events), (vec![Ok(vec![1]), Err(PumpError::EmptyMessage)], true));
}

#[test]
fn pump_refuses_an_unexpected_command() {
    let events = vec![Message::Received(vec![0xF0])];
    assert_eq!(pump(events), (vec![Err(PumpError::UnexpectedCommand(0xF0))], true));
}

#[test]
fn pump_stops_when_the_store_wants_nothing_more() {
    let (state, _) = VeilidIrohBlobs::pump();
    let (state, _) = state.step(Message::Received(vec![0x20, 1]));
    let (state, action) = state.step(Message::Forwarded(false));
    assert!(matches!(state, PumpState::Done));
    assert!(matches!(action, PumpAction::Finish));
    assert!(!state.accepts(&Message::Closed));
}

#[test]
fn uploads_are_raw_and_files_are_copied() {
    let expected = FileImport { mode: ImportMode::Copy, format: BlobFormat::Raw };
    assert_eq!(VeilidIrohBlobs::upload_from_path(), expected);
    assert_eq!(VeilidIrohBlobs::upload_from_stream(), BlobFormat::Raw);
}

#[test]
fn download_takes_five_events_at_most() {
    let mut events = replied(vec![0x01]);
    events.push(Event::Imported(BlobHash { bytes: [4u8; 32] }));
    events.push(Event::Deleted(true));
    assert_eq!(events.len(), 5);
    assert!(matches!(download(events).0, DownloadState::Done));
}
