use kosmos_downloader::engine::chunks::{calculate_chunks, ChunkRange};

#[test]
fn test_chunk_splitting_empty() {
    let chunks = calculate_chunks(0, 4);
    assert!(chunks.is_empty());
}

#[test]
fn test_chunk_splitting_single_byte() {
    let chunks = calculate_chunks(1, 4);
    assert_eq!(chunks.len(), 1);
    assert_eq!(chunks[0], ChunkRange { id: 0, start: 0, end: 0 });
    assert_eq!(chunks[0].size(), 1);
}

#[test]
fn test_chunk_splitting_fewer_bytes_than_chunks() {
    let chunks = calculate_chunks(3, 8);
    assert_eq!(chunks.len(), 3);
    assert_eq!(chunks[0], ChunkRange { id: 0, start: 0, end: 0 });
    assert_eq!(chunks[1], ChunkRange { id: 1, start: 1, end: 1 });
    assert_eq!(chunks[2], ChunkRange { id: 2, start: 2, end: 2 });
}

#[test]
fn test_chunk_splitting_exact_multiple() {
    let chunks = calculate_chunks(1000, 4);
    assert_eq!(chunks.len(), 4);
    assert_eq!(chunks[0], ChunkRange { id: 0, start: 0, end: 249 });
    assert_eq!(chunks[1], ChunkRange { id: 1, start: 250, end: 499 });
    assert_eq!(chunks[2], ChunkRange { id: 2, start: 500, end: 749 });
    assert_eq!(chunks[3], ChunkRange { id: 3, start: 750, end: 999 });
    for chunk in &chunks {
        assert_eq!(chunk.size(), 250);
    }
}

#[test]
fn test_chunk_splitting_with_remainder() {
    let chunks = calculate_chunks(10, 3);
    assert_eq!(chunks.len(), 3);
    assert_eq!(chunks[0], ChunkRange { id: 0, start: 0, end: 3 });
    assert_eq!(chunks[1], ChunkRange { id: 1, start: 4, end: 6 });
    assert_eq!(chunks[2], ChunkRange { id: 2, start: 7, end: 9 });

    assert_eq!(chunks[0].size(), 4);
    assert_eq!(chunks[1].size(), 3);
    assert_eq!(chunks[2].size(), 3);
    assert_eq!(chunks.iter().map(|c| c.size()).sum::<u64>(), 10);
}

#[test]
fn test_chunk_splitting_invariants() {
    for total_size in [1, 2, 7, 15, 64, 100, 1024, 1_000_007] {
        for num_chunks in [1, 2, 3, 4, 5, 8, 16, 32] {
            let chunks = calculate_chunks(total_size, num_chunks);
            assert!(!chunks.is_empty());
            assert_eq!(chunks[0].start, 0);
            assert_eq!(chunks.last().unwrap().end, total_size - 1);

            for i in 0..chunks.len() - 1 {
                assert_eq!(chunks[i].end + 1, chunks[i + 1].start);
            }

            let sum: u64 = chunks.iter().map(|c| c.size()).sum();
            assert_eq!(sum, total_size);

            let min_size = chunks.iter().map(|c| c.size()).min().unwrap();
            let max_size = chunks.iter().map(|c| c.size()).max().unwrap();
            assert!(max_size - min_size <= 1);
        }
    }
}

#[test]
fn the_largest_file_is_split_without_overflow() {
    let chunks = calculate_chunks(u64::MAX, 16);
    assert_eq!(chunks.len(), 16);
    assert_eq!(chunks[15].end, u64::MAX - 1);
    assert_eq!(chunks.iter().map(|c| c.size() as u128).sum::<u128>(), u64::MAX as u128);
}
