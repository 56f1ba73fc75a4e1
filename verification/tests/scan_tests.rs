use blockdedup::scan::{scan_bytes, BlockHasher};

fn scan_of(content: &[u8], block_size: usize) -> blockdedup::scan::ScanResult {
    scan_bytes(String::from("/f"), content, block_size, 0, 1)
}

#[test]
fn empty_file_yields_no_blocks() {
    let scan = scan_of(&[], 4096);
    assert_eq!(scan.block_hashes.len(), 0);
    assert_eq!(scan.last_block_size, 0);
}

#[test]
fn exact_multiple_has_full_last_block() {
    let content = vec![7u8; 3 * 4096];
    let scan = scan_of(&content, 4096);
    assert_eq!(scan.block_hashes.len(), 3);
    assert_eq!(scan.last_block_size, 4096);
}

#[test]
fn remainder_becomes_short_last_block() {
    let content = vec![9u8; 10000];
    let scan = scan_of(&content, 4096);
    assert_eq!(scan.block_hashes.len(), 3);
    assert_eq!(scan.last_block_size, 10000 % 4096);
}

#[test]
fn single_short_file_is_one_block() {
    let content = vec![1u8, 2, 3];
    let scan = scan_of(&content, 4096);
    assert_eq!(scan.block_hashes.len(), 1);
    assert_eq!(scan.last_block_size, 3);
}

#[test]
fn block_count_is_ceiling_of_size_over_block_size() {
    for size in [0usize, 1, 15, 16, 17, 31, 32, 33, 64] {
        let content = vec![5u8; size];
        let scan = scan_of(&content, 16);
        assert_eq!(scan.block_hashes.len(), (size + 15) / 16);
    }
}

#[test]
fn same_content_hashes_identically() {
    let content: Vec<u8> = (0..10000u32).map(|i| (i % 251) as u8).collect();
    let a = scan_bytes(String::from("/a"), &content, 4096, 10, 2);
    let b = scan_bytes(String::from("/b"), &content, 4096, 20, 3);
    assert_eq!(a.block_hashes, b.block_hashes);
}

#[test]
fn different_content_differs_somewhere() {
    let a = scan_of(&vec![0u8; 4096], 4096);
    let b = scan_of(&vec![1u8; 4096], 4096);
    assert_ne!(a.block_hashes, b.block_hashes);
}

#[test]
fn hash_matches_streaming_crc64() {
    let content = vec![0xABu8; 100];
    let scan = scan_of(&content, 4096);
    let mut digest = crc64fast::Digest::new();
    digest.write(&content);
    assert_eq!(scan.block_hashes, vec![digest.sum64()]);
}

#[test]
fn hash_is_not_the_bytes_handed_back() {
    let content = vec![0u8; 8];
    let scan = scan_of(&content, 8);
    assert_ne!(scan.block_hashes[0], 0u64);
}

#[test]
fn hasher_streams_chunk_by_chunk() {
    let content: Vec<u8> = (0..9000u32).map(|i| (i % 13) as u8).collect();
    let mut hasher = BlockHasher::new(4096);
    hasher.push_chunk(&content[0..4096]);
    hasher.push_chunk(&content[4096..8192]);
    hasher.push_chunk(&content[8192..9000]);
    let streamed = hasher.finish(String::from("/s"), 5, 9);
    let whole = scan_bytes(String::from("/s"), &content, 4096, 5, 9);
    assert_eq!(streamed.block_hashes, whole.block_hashes);
    assert_eq!(streamed.last_block_size, 9000 - 8192);
}

#[test]
fn block_locations_cover_the_file() {
    let content = vec![3u8; 10000];
    let scan = scan_of(&content, 4096);
    let loc0 = scan.get_block_location(0);
    let loc1 = scan.get_block_location(1);
    let loc2 = scan.get_block_location(2);
    assert_eq!(loc0.offset, 0);
    assert_eq!(loc0.length, 4096);
    assert_eq!(loc1.offset, 4096);
    assert_eq!(loc1.length, 4096);
    assert_eq!(loc2.offset, 8192);
    assert_eq!(loc2.length, 10000 - 8192);
    assert_eq!(loc0.path, String::from("/f"));
}

#[test]
fn scan_records_identity_metadata() {
    let scan = scan_bytes(String::from("/meta"), &[1u8], 16, 1234, 42);
    assert_eq!(scan.path, String::from("/meta"));
    assert_eq!(scan.mtime, 1234);
    assert_eq!(scan.ino, 42);
    assert_eq!(scan.block_size, 16);
}
