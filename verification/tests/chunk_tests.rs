use chunkstore::Chunk;
use chunkstore::StoreError;

#[test]
fn chunk_keeps_payload() {
    let chunk = Chunk::new(b"test".to_vec());
    assert_eq!(chunk.value().as_slice(), b"test");
}

#[test]
fn equal_payloads_share_an_address() {
    let c1 = Chunk::new(b"test_concurrent".to_vec());
    let c2 = Chunk::new(b"test_concurrent".to_vec());
    assert_eq!(c1.address().name(), c2.address().name());
}

#[test]
fn distinct_payloads_get_distinct_addresses() {
    let c1 = Chunk::new(b"test1".to_vec());
    let c2 = Chunk::new(b"test2".to_vec());
    assert_ne!(c1.address().name(), c2.address().name());
}

#[test]
fn hashing_depends_on_content_not_length_alone() {
    // The address is a digest of the bytes: it is not the payload itself,
    // nor a function of its length.
    let c1 = Chunk::new(b"aaaa".to_vec());
    let c2 = Chunk::new(b"aaab".to_vec());
    assert_ne!(c1.address().name(), c2.address().name());
    assert_ne!(c1.address().name().as_slice(), b"aaaa");
}

#[test]
fn chunk_from_parts_round_trips() {
    // A read reconstructs the chunk from the requested address and the
    // loaded bytes: both come back exactly as given.
    let written = Chunk::new(b"hello world!".to_vec());
    let addr = *written.address();
    let loaded = Chunk::from_parts(addr, written.value().clone());
    assert_eq!(loaded.value(), written.value());
    assert_eq!(loaded.address().name(), written.address().name());
}

#[test]
fn not_found_is_distinguished() {
    let chunk = Chunk::new(b"test".to_vec());
    let missing = StoreError::NotFound { address: *chunk.address() };
    let io = StoreError::Io { path: "/tmp/chunks".to_string(), cause: "denied".to_string() };
    assert!(missing.is_not_found());
    assert!(!io.is_not_found());
    assert!(!StoreError::Listing.is_not_found());
}
