use redisql::codec::{decode_blocks, encode_blocks, DEFAULT_BLOCK_SIZE};

fn file_of(len: usize) -> Vec<u8> {
    (0..len).map(|i| (i % 251) as u8).collect()
}

#[test]
fn round_trip_empty_file() {
    let file = file_of(0);
    let (count, blocks) = encode_blocks(&file, DEFAULT_BLOCK_SIZE);
    assert_eq!(count, 0);
    assert!(blocks.is_empty());
    assert_eq!(decode_blocks(count, &blocks), file);
}

#[test]
fn round_trip_exactly_one_block() {
    let file = file_of(DEFAULT_BLOCK_SIZE);
    let (count, blocks) = encode_blocks(&file, DEFAULT_BLOCK_SIZE);
    assert_eq!(count, 1);
    assert_eq!(blocks[0].len(), DEFAULT_BLOCK_SIZE);
    assert_eq!(decode_blocks(count, &blocks), file);
}

#[test]
fn round_trip_several_blocks_and_remainder() {
    let file = file_of(3 * DEFAULT_BLOCK_SIZE + 17);
    let (count, blocks) = encode_blocks(&file, DEFAULT_BLOCK_SIZE);
    assert_eq!(count, 4);
    assert_eq!(blocks[3].len(), 17);
    assert_eq!(decode_blocks(count, &blocks), file);
}

#[test]
fn small_block_size_cuts_exactly() {
    let file = vec![1u8, 2, 3, 4, 5, 6, 7];
    let (count, blocks) = encode_blocks(&file, 3);
    assert_eq!(count, 3);
    assert_eq!(blocks, vec![vec![1u8, 2, 3], vec![4, 5, 6], vec![7]]);
}

#[test]
fn decode_stops_at_empty_record() {
    let records = vec![vec![1u8, 2], vec![], vec![3u8]];
    assert_eq!(decode_blocks(3, &records), vec![1u8, 2]);
}

#[test]
fn decode_reads_no_more_than_count() {
    let records = vec![vec![1u8, 2], vec![3u8], vec![4u8]];
    assert_eq!(decode_blocks(2, &records), vec![1u8, 2, 3]);
    assert_eq!(decode_blocks(0, &records), Vec::<u8>::new());
    assert_eq!(decode_blocks(-1, &records), Vec::<u8>::new());
}
