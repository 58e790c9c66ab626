use chunkstore::ChunkAddress;
use chunkstore::StoreConfig;
use chunkstore::address_to_filepath;
use chunkstore::paths::list_pattern;

fn config(depth: usize) -> StoreConfig {
    StoreConfig::new("/tmp/chunks".to_string(), depth, ".chunk".to_string())
        .expect("depth fits the address width")
}

#[test]
fn path_is_deterministic() {
    let cfg = config(20);
    let addr = ChunkAddress::new([0xab; 32]);
    let first = address_to_filepath(&cfg, &addr);
    let second = address_to_filepath(&cfg, &addr);
    assert_eq!(first, second);
}

#[test]
fn path_of_zero_address_exact() {
    let cfg = config(4);
    let addr = ChunkAddress::new([0u8; 32]);
    let path = address_to_filepath(&cfg, &addr);
    let mut expected = String::from("/tmp/chunks/0/0/0/0/");
    for _ in 0..64 {
        expected.push('0');
    }
    expected.push_str(".chunk");
    assert_eq!(path, expected);
}

#[test]
fn path_of_known_leading_byte_exact() {
    // 0xb4 is 1011_0100 in binary: the directory chain follows the bits,
    // most significant first, and the filename is the full lowercase hex.
    let mut bytes = [0u8; 32];
    bytes[0] = 0xb4;
    let cfg = config(8);
    let addr = ChunkAddress::new(bytes);
    let path = address_to_filepath(&cfg, &addr);
    let mut expected = String::from("/tmp/chunks/1/0/1/1/0/1/0/0/b4");
    for _ in 0..62 {
        expected.push('0');
    }
    expected.push_str(".chunk");
    assert_eq!(path, expected);
}

#[test]
fn distinct_addresses_get_distinct_paths() {
    let cfg = config(20);
    let a1 = ChunkAddress::new([0u8; 32]);
    let mut bytes = [0u8; 32];
    bytes[31] = 1;
    let a2 = ChunkAddress::new(bytes);
    assert_ne!(address_to_filepath(&cfg, &a1), address_to_filepath(&cfg, &a2));
}

#[test]
fn config_rejects_excessive_depth() {
    assert!(StoreConfig::new("/tmp/chunks".to_string(), 257, ".chunk".to_string()).is_none());
    assert!(StoreConfig::new("/tmp/chunks".to_string(), 256, ".chunk".to_string()).is_some());
}

#[test]
fn list_pattern_matches_root_and_extension() {
    let cfg = config(20);
    assert_eq!(list_pattern(&cfg), "/tmp/chunks/**/*.chunk");
}

#[test]
fn address_bits_follow_bytes() {
    let mut bytes = [0u8; 32];
    bytes[0] = 0b1000_0001;
    bytes[1] = 0b0100_0000;
    let addr = ChunkAddress::new(bytes);
    assert!(addr.bit(0));
    assert!(!addr.bit(1));
    assert!(addr.bit(7));
    assert!(!addr.bit(8));
    assert!(addr.bit(9));
}
