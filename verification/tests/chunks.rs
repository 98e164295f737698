use bytes::Bytes;
use veilid_iroh_blobs::blobs::VeilidIrohBlobs;
use veilid_iroh_blobs::chunks::{
    join_chunk, JoinAction, JoinEvent, OpenAction, OpenEvent, ReadAction, ReadEvent, ReadState,
    CHUNK_SIZE,
};
use veilid_iroh_blobs::error::BlobsError;
use veilid_iroh_blobs::hash::BlobHash;
use veilid_iroh_blobs::store::Lookup;

/// The reads that a blob of the given size is cut into.
fn reads(size: usize) -> Vec<(u64, usize)> {
    let (mut state, mut action) = ReadState::start(size);
    let mut reads = Vec::new();
    loop {
        let event = match action {
            ReadAction::ReadAt { offset, len } => {
                reads.push((offset, len));
                ReadEvent::ChunkRead
            }
            ReadAction::Forward => ReadEvent::Forwarded(true),
            ReadAction::Finish => return reads,
        };
        assert!(state.accepts(&event));
        (state, action) = state.step(event);
    }
}

#[test]
fn blob_is_read_in_chunks_of_1024_bytes() {
    assert_eq!(CHUNK_SIZE, 1024);
    assert_eq!(reads(0), vec![]);
    assert_eq!(reads(1), vec![(0, 1024)]);
    assert_eq!(reads(1024), vec![(0, 1024)]);
    assert_eq!(reads(1025), vec![(0, 1024), (1024, 1024)]);
    assert_eq!(reads(2000), vec![(0, 1024), (1024, 1024)]);
    assert_eq!(reads(3073), vec![(0, 1024), (1024, 1024), (2048, 1024), (3072, 1024)]);
}

#[test]
fn reading_stops_when_nobody_listens() {
    let (state, _) = ReadState::start(5000);
    let (state, action) = state.step(ReadEvent::ChunkRead);
    assert!(matches!(action, ReadAction::Forward));
    let (state, action) = state.step(ReadEvent::Forwarded(false));
    assert!(matches!(state, ReadState::Done));
    assert!(matches!(action, ReadAction::Finish));
    assert!(!state.accepts(&ReadEvent::ChunkRead));
}

#[test]
fn chunk_past_the_largest_size_cannot_be_counted() {
    let last = ReadState::Forward { index: usize::MAX - 1023, size: usize::MAX };
    assert!(!last.accepts(&ReadEvent::Forwarded(true)));
    assert!(last.accepts(&ReadEvent::Forwarded(false)));
    let earlier = ReadState::Forward { index: usize::MAX - 1024, size: usize::MAX };
    assert!(earlier.accepts(&ReadEvent::Forwarded(true)));
    let (state, action) = earlier.step(ReadEvent::Forwarded(true));
    assert!(matches!(state, ReadState::Done));
    assert!(matches!(action, ReadAction::Finish));
}

#[test]
fn blob_is_opened_by_looking_it_up_and_asking_its_size() {
    let hash = BlobHash { bytes: [8u8; 32] };
    let (state, action) = VeilidIrohBlobs::read_file(hash);
    assert!(matches!(action, OpenAction::LookUp(asked) if asked == hash));
    let (state, action) = state.step(OpenEvent::LookedUp(Lookup::Found));
    assert!(matches!(action, OpenAction::GetSize));
    let (_, action) = state.step(OpenEvent::Sized(77));
    assert!(matches!(action, OpenAction::Finish(Ok(77))));
    let (_, action) = state.step(OpenEvent::SizeFailed);
    assert!(matches!(action, OpenAction::Finish(Err(BlobsError::BlobSize))));
}

#[test]
fn blob_that_is_not_there_cannot_be_opened() {
    let (state, _) = VeilidIrohBlobs::read_file(BlobHash { bytes: [8u8; 32] });
    let (_, action) = state.step(OpenEvent::LookedUp(Lookup::Missing));
    assert!(matches!(action, OpenAction::Finish(Err(BlobsError::HashNotFound))));
    let (state, action) = state.step(OpenEvent::LookedUp(Lookup::Failed));
    assert!(matches!(action, OpenAction::Finish(Err(BlobsError::LookUp))));
    assert!(!state.accepts(&OpenEvent::Sized(1)));
}

#[test]
fn chunks_are_joined_in_order() {
    let data = match join_chunk(vec![1, 2], JoinEvent::Chunk(Bytes::from(vec![3u8, 4, 5]))) {
        JoinAction::Receive(data) => data,
        JoinAction::Finish(_) => panic!("more chunks may come"),
    };
    assert_eq!(data, vec![1, 2, 3, 4, 5]);
    let end = join_chunk(data, JoinEvent::Ended);
    assert!(matches!(end, JoinAction::Finish(Ok(data)) if data == vec![1, 2, 3, 4, 5]));
}

#[test]
fn failed_chunk_fails_the_blob() {
    let end = join_chunk(vec![1], JoinEvent::ChunkFailed);
    assert!(matches!(end, JoinAction::Finish(Err(BlobsError::ReadBlob))));
}

#[test]
fn chunks_of_a_blob_join_to_the_blob() {
    for size in [0usize, 1, 1023, 1024, 1025, 4096, 5000] {
        let blob: Vec<u8> = (0..size).map(|i| (i * 7 % 251) as u8).collect();
        let mut data = vec![];
        for (offset, len) in reads(size) {
            let start = offset as usize;
            let end = usize::min(start + len, size);
            let chunk = Bytes::copy_from_slice(&blob[start..end]);
            data = match join_chunk(data, JoinEvent::Chunk(chunk)) {
                JoinAction::Receive(data) => data,
                JoinAction::Finish(_) => panic!("more chunks may come"),
            };
        }
        let end = join_chunk(data, JoinEvent::Ended);
        assert!(matches!(end, JoinAction::Finish(Ok(data)) if data == blob));
    }
}
