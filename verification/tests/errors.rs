use veilid_iroh_blobs::download::PumpError;
use veilid_iroh_blobs::error::BlobsError;
use veilid_iroh_blobs::hash::BlobHash;
use veilid_iroh_blobs::text::decimal_text;

fn message(error: BlobsError) -> Option<String> {
    error.message()
}

fn some(text: &str) -> Option<String> {
    Some(text.to_string())
}

#[test]
fn numbers_are_written_in_decimal() {
    for value in [0usize, 7, 10, 99, 100, 1024, 240, usize::MAX] {
        assert_eq!(decimal_text(value), format!("{}", value));
    }
}

#[test]
fn errors_of_replies_have_texts() {
    let length = BlobsError::InvalidResponseLength(33);
    assert_eq!(message(length), some("Invalid response length from peer 33"));
    let code = BlobsError::InvalidResponseCode(0xF0);
    assert_eq!(message(code), some("Invalid response code from peer 240"));
    assert_eq!(message(BlobsError::UnableToAsk), some("Unable to ask peer"));
    assert_eq!(message(BlobsError::PeerLacksHash), some("Peer does not have hash"));
}

#[test]
fn errors_of_collections_have_texts() {
    assert_eq!(message(BlobsError::HashNotFound), some("Unable to find hash"));
    assert_eq!(message(BlobsError::FileNotFound), some("File not found"));
    let tag = BlobsError::TagNotFound("photos".to_string());
    assert_eq!(message(tag), some("Tag not found for collection: photos"));
    let read = BlobsError::ReadTag("Kind(NotFound)".to_string());
    assert_eq!(message(read), some("Error reading tags: Kind(NotFound)"));
    let decode = BlobsError::DecodeCollection("why".to_string());
    assert_eq!(message(decode), some("Failed to deserialize collection: why"));
}

#[test]
fn wrong_hash_is_named_in_base_32() {
    let zeros = BlobsError::InvalidHash(BlobHash { bytes: [0u8; 32] });
    let expected = format!("Peer returned invalid hash {}", "a".repeat(52));
    assert_eq!(message(zeros), Some(expected));
    let ones = BlobsError::InvalidHash(BlobHash { bytes: [0xffu8; 32] });
    let expected = format!("Peer returned invalid hash {}q", "7".repeat(51));
    assert_eq!(message(ones), Some(expected));
    let mut bytes = [0u8; 32];
    bytes[0] = 0x08;
    bytes[1] = 0x46;
    let counted = BlobsError::InvalidHash(BlobHash { bytes });
    let expected = format!("Peer returned invalid hash bbda{}", "a".repeat(48));
    assert_eq!(message(counted), Some(expected));
}

#[test]
fn errors_of_network_and_store_have_no_text() {
    assert_eq!(message(BlobsError::OpenTunnel), None);
    assert_eq!(message(BlobsError::SendRequest), None);
    assert_eq!(message(BlobsError::Import), None);
    assert_eq!(message(BlobsError::Delete), None);
    assert_eq!(message(BlobsError::LookUp), None);
    assert_eq!(message(BlobsError::BlobSize), None);
    assert_eq!(message(BlobsError::ReadBlob), None);
    assert_eq!(message(BlobsError::ListTags), None);
    assert_eq!(message(BlobsError::StoreTag), None);
    assert_eq!(message(BlobsError::EncodeCollection), None);
}

#[test]
fn refused_messages_have_texts() {
    assert_eq!(PumpError::EmptyMessage.message(), "Peer sent empty message");
    assert_eq!(
        PumpError::UnexpectedCommand(0x21).message(),
        "Peer sent unexpected command 33"
    );
}
