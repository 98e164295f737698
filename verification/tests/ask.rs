use veilid_iroh_blobs::ask::{read_reply, AskAction, AskEvent, AskState};
use veilid_iroh_blobs::blobs::VeilidIrohBlobs;
use veilid_iroh_blobs::error::BlobsError;
use veilid_iroh_blobs::hash::BlobHash;

type Event = AskEvent<Vec<u8>>;

fn ask(events: Vec<Event>) -> Option<Result<bool, BlobsError>> {
    let (mut state, mut action) =
        VeilidIrohBlobs::ask_hash(vec![9, 9], BlobHash { bytes: [5u8; 32] });
    for event in events {
        assert!(state.accepts(&event));
        (state, action) = state.step(event);
    }
    match action {
        AskAction::Finish(result) => Some(result),
        _ => None,
    }
}

fn reply(message: Vec<u8>) -> Option<Result<bool, BlobsError>> {
    ask(vec![Event::Opened(true), Event::Sent(true), Event::Received(message)])
}

#[test]
fn asking_opens_the_route_and_sends_a_has_request() {
    let hash = BlobHash { bytes: [5u8; 32] };
    let (state, action) = VeilidIrohBlobs::ask_hash(vec![1, 2, 3], hash);
    assert!(matches!(action, AskAction::Open(route) if route == vec![1, 2, 3]));
    let (state, action) = state.step(Event::Opened(true));
    let mut expected = vec![0x10u8];
    expected.extend_from_slice(&[5u8; 32]);
    assert!(matches!(action, AskAction::Send(message) if message == expected));
    let (_, action) = state.step(Event::Sent(true));
    assert!(matches!(action, AskAction::Receive));
}

#[test]
fn reply_of_one_byte_is_yes_or_no() {
    assert_eq!(reply(vec![0x01]), Some(Ok(true)));
    assert_eq!(reply(vec![0x00]), Some(Ok(false)));
}

#[test]
fn reply_with_another_code_is_refused() {
    assert_eq!(reply(vec![0xF0]), Some(Err(BlobsError::InvalidResponseCode(0xF0))));
    assert_eq!(reply(vec![0x02]), Some(Err(BlobsError::InvalidResponseCode(2))));
}

#[test]
fn reply_of_another_length_is_refused() {
    assert_eq!(reply(vec![]), Some(Err(BlobsError::InvalidResponseLength(0))));
    assert_eq!(reply(vec![1, 1]), Some(Err(BlobsError::InvalidResponseLength(2))));
}

#[test]
fn silent_peer_cannot_be_asked() {
    for event in [Event::TimedOut, Event::Closed] {
        let result = ask(vec![Event::Opened(true), Event::Sent(true), event]);
        assert_eq!(result, Some(Err(BlobsError::UnableToAsk)));
    }
}

#[test]
fn tunnel_that_cannot_be_opened_or_used_fails_the_question() {
    assert_eq!(ask(vec![Event::Opened(false)]), Some(Err(BlobsError::OpenTunnel)));
    let events = vec![Event::Opened(true), Event::Sent(false)];
    assert_eq!(ask(events), Some(Err(BlobsError::SendRequest)));
}

#[test]
fn question_accepts_only_what_answers_its_action() {
    let state = AskState::Open { hash: BlobHash { bytes: [0u8; 32] } };
    assert!(!state.accepts(&Event::Sent(true)));
    assert!(!AskState::AwaitReply.accepts(&Event::Opened(true)));
    assert!(!AskState::Done.accepts(&Event::Closed));
}

#[test]
fn reply_is_read_on_its_own() {
    assert_eq!(read_reply(&vec![1]), Ok(true));
    assert_eq!(read_reply(&vec![0]), Ok(false));
    assert_eq!(read_reply(&vec![1, 2, 3]), Err(BlobsError::InvalidResponseLength(3)));
    assert_eq!(read_reply(&vec![0x22]), Err(BlobsError::InvalidResponseCode(0x22)));
}

#[test]
fn question_takes_three_events_at_most() {
    let hash = BlobHash { bytes: [5u8; 32] };
    let (state, _) = VeilidIrohBlobs::ask_hash(vec![], hash);
    let (state, _) = state.step(Event::Opened(true));
    let (state, _) = state.step(Event::Sent(true));
    let (state, action) = state.step(Event::Received(vec![0]));
    assert!(matches!(state, AskState::Done));
    assert!(matches!(action, AskAction::Finish(Ok(false))));
}
