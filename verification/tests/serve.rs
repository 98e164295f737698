use bytes::Bytes;
use veilid_iroh_blobs::blobs::VeilidIrohBlobs;
use veilid_iroh_blobs::hash::BlobHash;
use veilid_iroh_blobs::serve::{refused_hash_length, ServeAction, ServeEvent, ServeState};
use veilid_iroh_blobs::store::Lookup;
use veilid_iroh_blobs::wire::{
    encode_data, encode_request, encode_status, ASK, DATA, DEFAULT_TIMEOUT_MILLIS, DONE, ERR, HAS,
    NO, YES,
};

type Event = ServeEvent<Vec<u8>, Bytes>;

fn numbered_hash() -> BlobHash {
    let mut bytes = [0u8; 32];
    for (i, byte) in bytes.iter_mut().enumerate() {
        *byte = i as u8 + 100;
    }
    BlobHash { bytes }
}

fn request(command: u8) -> Vec<u8> {
    let mut message = vec![command];
    message.extend_from_slice(&numbered_hash().bytes);
    message
}

/// Runs the events, and gives the messages that were sent and whether the answer came to its end.
fn run(events: Vec<Event>) -> (Vec<Vec<u8>>, bool) {
    let (mut state, mut action) = VeilidIrohBlobs::handle_tunnel();
    let mut sent = Vec::new();
    for event in events {
        assert!(state.accepts(&event));
        (state, action) = state.step(event);
        if let ServeAction::Send(message) = &action {
            sent.push(message.clone());
        }
    }
    (sent, matches!(action, ServeAction::Finish))
}

#[test]
fn commands_and_timeout_are_fixed() {
    assert_eq!([NO, YES, HAS, ASK, DATA, DONE, ERR], [0x00, 0x01, 0x10, 0x11, 0x20, 0x22, 0xF0]);
    assert_eq!(DEFAULT_TIMEOUT_MILLIS, 4000);
}

#[test]
fn messages_are_command_then_payload() {
    assert_eq!(encode_status(ERR), vec![0xF0]);
    let message = encode_request(ASK, &numbered_hash());
    assert_eq!(message.len(), 33);
    assert_eq!(message, request(0x11));
    assert_eq!(encode_data(&Bytes::from(vec![7u8, 8, 9])), vec![0x20, 7, 8, 9]);
    assert_eq!(encode_data(&Bytes::new()), vec![0x20]);
}

#[test]
fn first_action_is_to_receive() {
    let (state, action) = VeilidIrohBlobs::handle_tunnel();
    assert!(matches!(state, ServeState::AwaitRequest));
    assert!(matches!(action, ServeAction::Receive));
}

#[test]
fn empty_request_is_not_accepted() {
    let (state, _) = VeilidIrohBlobs::handle_tunnel();
    assert!(!state.accepts(&Event::Received(vec![])));
    assert!(state.accepts(&Event::Received(vec![1])));
}

#[test]
fn event_that_answers_another_action_is_not_accepted() {
    let (state, _) = VeilidIrohBlobs::handle_tunnel();
    assert!(!state.accepts(&Event::Sent(true)));
    assert!(!state.accepts(&Event::LookedUp(Lookup::Found)));
    assert!(!ServeState::Done.accepts(&Event::TunnelClosed));
    assert!(!ServeState::AwaitChunk.accepts(&Event::Received(vec![1])));
}

#[test]
fn silence_is_answered_with_nothing() {
    assert_eq!(run(vec![Event::ReceiveTimedOut]), (vec![], true));
    assert_eq!(run(vec![Event::TunnelClosed]), (vec![], true));
}

#[test]
fn unknown_command_is_answered_with_err() {
    let events = vec![Event::Received(request(0x12)), Event::Sent(true)];
    assert_eq!(run(events), (vec![vec![ERR]], true));
}

#[test]
fn request_of_wrong_length_is_answered_with_err() {
    let mut long = request(ASK);
    long.push(0);
    let mut short = request(HAS);
    short.pop();
    for message in [long, short, vec![ASK], vec![HAS]] {
        let events = vec![Event::Received(message), Event::Sent(true)];
        assert_eq!(run(events), (vec![vec![ERR]], true));
    }
}

#[test]
fn request_names_the_blob_that_is_looked_up() {
    let (state, _) = VeilidIrohBlobs::handle_tunnel();
    let (_, action) = state.step(Event::Received(request(HAS)));
    assert!(matches!(action, ServeAction::LookUp(hash) if hash == numbered_hash()));
}

#[test]
fn missing_blob_is_answered_with_no() {
    for command in [ASK, HAS] {
        for lookup in [Lookup::Missing, Lookup::Failed] {
            let events = vec![
                Event::Received(request(command)),
                Event::LookedUp(lookup),
                Event::Sent(true),
            ];
            assert_eq!(run(events), (vec![vec![NO]], true));
        }
    }
}

#[test]
fn has_request_is_answered_with_yes_alone() {
    for sent in [true, false] {
        let events = vec![
            Event::Received(request(HAS)),
            Event::LookedUp(Lookup::Found),
            Event::Sent(sent),
        ];
        assert_eq!(run(events), (vec![vec![YES]], true));
    }
}

/// The events up to the moment when the blob is open.
fn opened() -> Vec<Event> {
    vec![
        Event::Received(request(ASK)),
        Event::LookedUp(Lookup::Found),
        Event::Sent(true),
        Event::FileOpened(true),
    ]
}

#[test]
fn ask_request_is_answered_with_the_blob() {
    let mut events = opened();
    events.push(Event::ChunkRead(Bytes::from(vec![1u8, 2])));
    events.push(Event::Sent(true));
    events.push(Event::ChunkRead(Bytes::from(vec![3u8])));
    events.push(Event::Sent(true));
    events.push(Event::FileEnded);
    events.push(Event::Sent(true));
    let expected = vec![vec![YES], vec![DATA, 1, 2], vec![DATA, 3], vec![DONE]];
    assert_eq!(run(events), (expected, true));
}

#[test]
fn ask_request_opens_the_blob_though_yes_was_not_sent() {
    let (state, _) = VeilidIrohBlobs::handle_tunnel();
    let (state, _) = state.step(Event::Received(request(ASK)));
    let (state, _) = state.step(Event::LookedUp(Lookup::Found));
    let (_, action) = state.step(Event::Sent(false));
    assert!(matches!(action, ServeAction::OpenFile(hash) if hash == numbered_hash()));
}

#[test]
fn blob_that_cannot_be_opened_is_answered_with_err() {
    let events = vec![
        Event::Received(request(ASK)),
        Event::LookedUp(Lookup::Found),
        Event::Sent(true),
        Event::FileOpened(false),
        Event::Sent(true),
    ];
    assert_eq!(run(events), (vec![vec![YES], vec![ERR]], true));
}

#[test]
fn chunk_that_cannot_be_read_ends_the_answer_with_err() {
    let mut events = opened();
    events.push(Event::ChunkFailed);
    events.push(Event::Sent(true));
    assert_eq!(run(events), (vec![vec![YES], vec![ERR]], true));
}

#[test]
fn late_chunk_ends_the_answer_with_done() {
    let mut events = opened();
    events.push(Event::ChunkTimedOut);
    events.push(Event::Sent(true));
    assert_eq!(run(events), (vec![vec![YES], vec![DONE]], true));
}

#[test]
fn chunk_that_cannot_be_sent_ends_the_answer() {
    let mut events = opened();
    events.push(Event::ChunkRead(Bytes::from(vec![1u8])));
    events.push(Event::Sent(false));
    assert_eq!(run(events), (vec![vec![YES], vec![DATA, 1]], true));
}

#[test]
fn has_hash_is_true_of_a_found_blob_alone() {
    assert!(VeilidIrohBlobs::has_hash(&Lookup::Found));
    assert!(!VeilidIrohBlobs::has_hash(&Lookup::Missing));
    assert!(!VeilidIrohBlobs::has_hash(&Lookup::Failed));
}

#[test]
fn hash_is_read_from_thirty_two_bytes() {
    let hash = numbered_hash();
    assert_eq!(BlobHash::from_slice(hash.as_slice()), Some(hash));
    assert_eq!(BlobHash::from_slice(&[0u8; 31]), None);
    assert_eq!(BlobHash::from_slice(&[0u8; 33]), None);
    assert!(hash.same(&numbered_hash()));
    let mut other = hash;
    other.bytes[31] ^= 1;
    assert!(!hash.same(&other));
}

#[test]
fn wrong_length_of_a_hash_is_told() {
    assert_eq!(refused_hash_length(&request(ASK)), None);
    assert_eq!(refused_hash_length(&vec![ASK]), Some(0));
    assert_eq!(refused_hash_length(&vec![HAS, 1, 2]), Some(2));
    assert_eq!(refused_hash_length(&vec![YES, 1, 2]), None);
}
