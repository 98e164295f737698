use bytes::Bytes;
use veilid_iroh_blobs::ask::{AskAction, AskEvent};
use veilid_iroh_blobs::blobs::VeilidIrohBlobs;
use veilid_iroh_blobs::chunks::{
    join_chunk, JoinAction, JoinEvent, ReadAction, ReadEvent, ReadState,
};
use veilid_iroh_blobs::download::{DownloadAction, DownloadEvent, PumpAction, PumpEvent};
use veilid_iroh_blobs::error::BlobsError;
use veilid_iroh_blobs::hash::BlobHash;
use veilid_iroh_blobs::serve::{ServeAction, ServeEvent};
use veilid_iroh_blobs::store::Lookup;

fn name_of(blob: &[u8]) -> BlobHash {
    BlobHash { bytes: *iroh_base::hash::Hash::new(blob).as_bytes() }
}

/// The chunks that a blob is read in.
fn chunks(blob: &[u8]) -> Vec<Bytes> {
    let (mut state, mut action) = ReadState::start(blob.len());
    let mut chunks = Vec::new();
    loop {
        let event = match action {
            ReadAction::ReadAt { offset, len } => {
                let start = offset as usize;
                let end = usize::min(start + len, blob.len());
                chunks.push(Bytes::copy_from_slice(&blob[start..end]));
                ReadEvent::ChunkRead
            }
            ReadAction::Forward => ReadEvent::Forwarded(true),
            ReadAction::Finish => return chunks,
        };
        (state, action) = state.step(event);
    }
}

/// What a node that holds one blob answers to a request.
fn answers(held: &[u8], request: Vec<u8>) -> Vec<Vec<u8>> {
    let mut request = Some(request);
    let mut file = Vec::new().into_iter();
    let mut sent = Vec::new();
    let (mut state, mut action) = VeilidIrohBlobs::handle_tunnel();
    loop {
        let event = match action {
            ServeAction::Receive => ServeEvent::Received(request.take().unwrap()),
            ServeAction::LookUp(hash) => ServeEvent::LookedUp(if hash == name_of(held) {
                Lookup::Found
            } else {
                Lookup::Missing
            }),
            ServeAction::Send(message) => {
                sent.push(message);
                ServeEvent::Sent(true)
            }
            ServeAction::OpenFile(hash) => {
                assert_eq!(hash, name_of(held));
                file = chunks(held).into_iter();
                ServeEvent::FileOpened(true)
            }
            ServeAction::ReadChunk => match file.next() {
                Some(chunk) => ServeEvent::ChunkRead(chunk),
                None => ServeEvent::FileEnded,
            },
            ServeAction::Finish => return sent,
        };
        assert!(state.accepts(&event));
        (state, action) = state.step(event);
    }
}

/// Fetches a blob from a node that holds one blob, and gives what was imported.
fn fetch(held: &[u8], wanted: &BlobHash) -> (Result<(), BlobsError>, Option<Vec<u8>>) {
    let mut replies = Vec::new().into_iter();
    let mut imported = None;
    let (mut state, mut action) = VeilidIrohBlobs::download_file_from(vec![1], wanted);
    loop {
        let event = match action {
            DownloadAction::Open(_) => DownloadEvent::Opened(true),
            DownloadAction::Send(message) => {
                replies = answers(held, message).into_iter();
                DownloadEvent::Sent(true)
            }
            DownloadAction::Receive => DownloadEvent::Received(replies.next().unwrap()),
            DownloadAction::PumpAndImport => {
                let mut data = Vec::new();
                let (mut pump, mut next) = VeilidIrohBlobs::pump();
                loop {
                    let event = match next {
                        PumpAction::Receive => match replies.next() {
                            Some(message) => PumpEvent::Received(message),
                            None => PumpEvent::Closed,
                        },
                        PumpAction::Forward(chunk) => {
                            let chunk = JoinEvent::Chunk(chunk.unwrap());
                            data = match join_chunk(data, chunk) {
                                JoinAction::Receive(data) => data,
                                JoinAction::Finish(_) => panic!("more chunks may come"),
                            };
                            PumpEvent::Forwarded(true)
                        }
                        PumpAction::Finish => break,
                    };
                    (pump, next) = pump.step(event);
                }
                let got = name_of(&data);
                imported = Some(data);
                DownloadEvent::Imported(got)
            }
            DownloadAction::Delete(_) => {
                imported = None;
                DownloadEvent::Deleted(true)
            }
            DownloadAction::Finish(result) => return (result, imported),
        };
        assert!(state.accepts(&event));
        (state, action) = state.step(event);
    }
}

/// Asks a node that holds one blob whether it holds a blob.
fn ask(held: &[u8], wanted: BlobHash) -> Result<bool, BlobsError> {
    let mut replies = Vec::new().into_iter();
    let (mut state, mut action) = VeilidIrohBlobs::ask_hash(vec![1], wanted);
    loop {
        let event = match action {
            AskAction::Open(_) => AskEvent::Opened(true),
            AskAction::Send(message) => {
                replies = answers(held, message).into_iter();
                AskEvent::Sent(true)
            }
            AskAction::Receive => AskEvent::Received(replies.next().unwrap()),
            AskAction::Finish(result) => return result,
        };
        (state, action) = state.step(event);
    }
}

fn blob(size: usize) -> Vec<u8> {
    (0..size).map(|i| (i % 253) as u8).collect()
}

#[test]
fn blob_arrives_as_it_was_held() {
    for size in [0, 1, 1024, 1025, 3000] {
        let held = blob(size);
        assert_eq!(fetch(&held, &name_of(&held)), (Ok(()), Some(held)));
    }
}

#[test]
fn blob_of_2000_bytes_is_sent_in_two_pieces() {
    let held = blob(2000);
    let mut request = vec![0x11];
    request.extend_from_slice(&name_of(&held).bytes);
    let sent = answers(&held, request);
    let lengths: Vec<usize> = sent.iter().map(|message| message.len()).collect();
    assert_eq!(lengths, vec![1, 1025, 977, 1]);
    assert_eq!(sent[0], vec![0x01]);
    assert_eq!(sent[1][0], 0x20);
    assert_eq!(sent[2][1..], held[1024..]);
    assert_eq!(sent[3], vec![0x22]);
}

#[test]
fn blob_that_the_peer_lacks_is_not_fetched() {
    let result = fetch(&blob(10), &name_of(&blob(11)));
    assert_eq!(result, (Err(BlobsError::PeerLacksHash), None));
}

#[test]
fn asking_tells_what_the_peer_holds() {
    let held = blob(10);
    assert_eq!(ask(&held, name_of(&held)), Ok(true));
    assert_eq!(ask(&held, name_of(&blob(11))), Ok(false));
}

/// Fetches a blob from a peer that says yes to everything and sends another blob, into a store that
/// holds some blobs already, and gives what the store holds then.
fn fetch_wrong(store: &mut Vec<BlobHash>, sent: &[u8], wanted: &BlobHash) -> BlobsError {
    let (mut state, mut action) = VeilidIrohBlobs::download_file_from(vec![1], wanted);
    loop {
        let event = match action {
            DownloadAction::Open(_) => DownloadEvent::Opened(true),
            DownloadAction::Send(_) => DownloadEvent::Sent(true),
            DownloadAction::Receive => DownloadEvent::Received(vec![0x01]),
            DownloadAction::PumpAndImport => {
                let got = name_of(sent);
                if !store.contains(&got) {
                    store.push(got);
                }
                DownloadEvent::Imported(got)
            }
            DownloadAction::Delete(got) => {
                store.retain(|held| *held != got);
                DownloadEvent::Deleted(true)
            }
            DownloadAction::Finish(result) => return result.unwrap_err(),
        };
        (state, action) = state.step(event);
    }
}

#[test]
fn wrong_blob_does_not_stay_in_the_store() {
    let kept = name_of(&blob(1));
    let mut store = vec![kept];
    let error = fetch_wrong(&mut store, &blob(5), &name_of(&blob(6)));
    assert_eq!(error, BlobsError::InvalidHash(name_of(&blob(5))));
    assert_eq!(store, vec![kept]);
}

#[test]
fn wrong_blob_is_deleted_though_it_was_held_before() {
    let mut store = vec![name_of(&blob(1)), name_of(&blob(5))];
    fetch_wrong(&mut store, &blob(5), &name_of(&blob(6)));
    assert_eq!(store, vec![name_of(&blob(1))]);
}

#[test]
fn every_message_of_an_answer_has_its_place() {
    let held = blob(2049);
    let mut request = vec![0x11];
    request.extend_from_slice(&name_of(&held).bytes);
    let sent = answers(&held, request.clone());
    assert_eq!(sent.first(), Some(&vec![0x01]));
    assert_eq!(sent.last(), Some(&vec![0x22]));
    assert_eq!(sent.len(), 5);
    for message in &sent[1..sent.len() - 1] {
        assert_eq!(message[0], 0x20);
        assert!(message.len() <= 1025);
    }
    request[0] = 0x10;
    assert_eq!(answers(&held, request.clone()), vec![vec![0x01]]);
    request.pop();
    assert_eq!(answers(&held, request), vec![vec![0xF0]]);
}
