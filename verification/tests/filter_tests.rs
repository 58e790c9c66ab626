use chunkstore::Chunk;
use chunkstore::ChunkAddress;
use chunkstore::Prefix;
use chunkstore::StoreConfig;
use chunkstore::address_to_filepath;
use chunkstore::filter::string_starts_with;
use chunkstore::list_files_without_prefix;

fn config(depth: usize) -> StoreConfig {
    StoreConfig::new("/tmp/chunks".to_string(), depth, ".chunk".to_string())
        .expect("depth fits the address width")
}

#[test]
fn starts_with_agrees_with_prefixes() {
    assert!(string_starts_with("/tmp/chunks/0/1/x.chunk", "/tmp/chunks/0/"));
    assert!(string_starts_with("abc", "abc"));
    assert!(string_starts_with("abc", ""));
    assert!(!string_starts_with("abc", "abd"));
    assert!(!string_starts_with("ab", "abc"));
}

#[test]
fn outside_excludes_paths_under_the_prefix() {
    let cfg = config(4);
    let inside = ChunkAddress::new([0u8; 32]);
    let mut high = [0u8; 32];
    high[0] = 0x80;
    let outside_addr = ChunkAddress::new(high);
    let f_in = address_to_filepath(&cfg, &inside);
    let f_out = address_to_filepath(&cfg, &outside_addr);
    let files = vec![f_in.clone(), f_out.clone()];
    let prefix = Prefix::new(2, [0u8; 32]).expect("short prefix");
    let result = list_files_without_prefix(&cfg, &files, &prefix);
    assert_eq!(result, vec![f_out]);
}

#[test]
fn outside_empty_prefix_returns_nothing() {
    let cfg = config(4);
    let mut files = Vec::new();
    for b in [0u8, 0x40, 0x80, 0xff] {
        let mut bytes = [0u8; 32];
        bytes[0] = b;
        files.push(address_to_filepath(&cfg, &ChunkAddress::new(bytes)));
    }
    let prefix = Prefix::new(0, [0xaa; 32]).expect("empty prefix");
    let result = list_files_without_prefix(&cfg, &files, &prefix);
    assert!(result.is_empty());
}

#[test]
fn outside_full_depth_prefix_keeps_near_matches() {
    // At maximal specificity only a chunk whose whole directory chain
    // matches is excluded; an address differing in the last covered bit
    // is kept.
    let cfg = config(4);
    let exact = ChunkAddress::new([0u8; 32]);
    let mut near = [0u8; 32];
    near[0] = 0x10; // 0001...: differs from the prefix in its fourth bit
    let near_addr = ChunkAddress::new(near);
    let mut far = [0u8; 32];
    far[0] = 0x08; // 0000 1...: all four covered bits still match
    let far_addr = ChunkAddress::new(far);
    let f_exact = address_to_filepath(&cfg, &exact);
    let f_near = address_to_filepath(&cfg, &near_addr);
    let f_far = address_to_filepath(&cfg, &far_addr);
    let files = vec![f_exact, f_near.clone(), f_far];
    let prefix = Prefix::new(4, [0u8; 32]).expect("full-depth prefix");
    let result = list_files_without_prefix(&cfg, &files, &prefix);
    assert_eq!(result, vec![f_near]);
}

#[test]
fn filter_keeps_the_original_order() {
    let cfg = config(4);
    let mut files = Vec::new();
    for b in [0xff, 0x80, 0xc0] {
        let mut bytes = [0u8; 32];
        bytes[0] = b;
        files.push(address_to_filepath(&cfg, &ChunkAddress::new(bytes)));
    }
    let prefix = Prefix::new(4, [0u8; 32]).expect("prefix");
    let result = list_files_without_prefix(&cfg, &files, &prefix);
    assert_eq!(result, files);
}

#[test]
fn scenario_hello_world_chunks() {
    let cfg = config(20);
    let c0 = Chunk::new(b"hello world!".to_vec());
    let c1 = Chunk::new(b"hello world!1".to_vec());
    let c2 = Chunk::new(b"hello world!2".to_vec());
    let a0 = *c0.address();
    let f0 = address_to_filepath(&cfg, c0.address());
    let f1 = address_to_filepath(&cfg, c1.address());
    let f2 = address_to_filepath(&cfg, c2.address());
    let files = vec![f0.clone(), f1.clone(), f2.clone()];
    let prefix = Prefix::new(4, *a0.name()).expect("four-bit prefix");
    let result = list_files_without_prefix(&cfg, &files, &prefix);

    // The chunk whose address the prefix was taken from is never returned;
    // each other chunk is returned exactly when its first four address bits
    // differ from the prefix's.
    assert!(!result.contains(&f0));
    let mut expected = Vec::new();
    for (chunk, file) in [(&c1, &f1), (&c2, &f2)] {
        let differs = (0..4).any(|i| chunk.address().bit(i) != a0.bit(i));
        if differs {
            expected.push(file.clone());
        }
    }
    assert_eq!(result, expected);
}
