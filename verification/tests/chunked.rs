//! Tests of the start-code scanner and the incremental access-unit
//! splitter.

use vvdec::find_next_start_code;
use vvdec::FaultySource;
use vvdec::ChunkedError;
use vvdec::ChunkedReader;
use vvdec::MemSource;

fn all_chunks(mut reader: ChunkedReader<MemSource>) -> Vec<Vec<u8>> {
    let mut chunks = Vec::new();
    loop {
        match reader.next_chunk() {
            Ok(Some(chunk)) => chunks.push(chunk),
            Ok(None) => return chunks,
            Err(e) => panic!("unexpected splitter error: {:?}", e),
        }
    }
}

#[test]
fn test_find_next_start_code() {
    assert_eq!(find_next_start_code(&[0, 0, 0, 1]), Some(0));
    assert_eq!(find_next_start_code(&[0, 0, 1]), Some(0));
    assert_eq!(find_next_start_code(&[1, 0, 0, 0, 1]), Some(1));
    assert_eq!(find_next_start_code(&[1, 0, 0, 1]), Some(1));
    assert_eq!(find_next_start_code(&[0, 0, 2]), None);
    assert_eq!(find_next_start_code(&[0, 0, 0, 2]), None);
}

#[test]
fn chunked_reader_basic() {
    const INPUT_BUFFER: &[u8] = &[0, 0, 0, 1, 1, 2, 3, 4, 0, 0, 0, 1, 5, 6, 7, 8, 0, 0, 1];
    let mut chunked_reader = ChunkedReader::custom(MemSource::new(INPUT_BUFFER.to_vec()), 16, 32);

    assert_eq!(
        chunked_reader.next_chunk().unwrap().unwrap(),
        &[0, 0, 0, 1, 1, 2, 3, 4]
    );
    assert_eq!(
        chunked_reader.next_chunk().unwrap().unwrap(),
        &[0, 0, 0, 1, 5, 6, 7, 8]
    );
    assert_eq!(chunked_reader.next_chunk().unwrap().unwrap(), &[0, 0, 1]);
    assert_eq!(chunked_reader.next_chunk().unwrap(), None);
}

#[test]
fn splits_n_units_exactly() {
    // Four gapless access units; splitting returns exactly these four, each
    // starting with a start code, and their concatenation is the input.
    let units: Vec<Vec<u8>> = vec![
        vec![0, 0, 0, 1, 10, 11],
        vec![0, 0, 0, 1, 12],
        vec![0, 0, 1, 13, 14, 15],
        vec![0, 0, 0, 1, 16, 17, 18, 19],
    ];
    let mut input = Vec::new();
    for u in &units {
        input.extend_from_slice(u);
    }
    let reader = ChunkedReader::custom(MemSource::new(input.clone()), 16, 64);
    let chunks = all_chunks(reader);
    assert_eq!(chunks.len(), units.len());
    for (chunk, unit) in chunks.iter().zip(units.iter()) {
        assert_eq!(chunk, unit);
        assert!(chunk.starts_with(&[0, 0, 1]) || chunk.starts_with(&[0, 0, 0, 1]));
    }
    let rejoined: Vec<u8> = chunks.concat();
    assert_eq!(rejoined, input);
}

#[test]
fn test_split_delivery_independent() {
    // The same byte stream split through one-byte reads and through one
    // single read yields byte-identical chunk sequences.
    let input: Vec<u8> = vec![
        0, 0, 0, 1, 9, 8, 7, 0, 0, 1, 6, 5, 0, 0, 0, 1, 4, 3, 2, 1, 0, 0, 1, 42,
    ];
    let byte_by_byte = ChunkedReader::custom(MemSource::with_max_read(input.clone(), 1), 8, 64);
    let all_at_once = ChunkedReader::custom(MemSource::new(input), 64, 64);
    assert_eq!(all_chunks(byte_by_byte), all_chunks(all_at_once));
}

#[test]
fn final_unit_emitted_at_end_of_stream() {
    // A final access unit lacking a subsequent start code is still emitted
    // once the source reports end of stream.
    let input: Vec<u8> = vec![0, 0, 0, 1, 1, 2, 0, 0, 1, 3, 4, 5, 6, 7];
    let chunks = all_chunks(ChunkedReader::custom(MemSource::new(input), 8, 32));
    assert_eq!(chunks.len(), 2);
    assert_eq!(chunks[1], vec![0, 0, 1, 3, 4, 5, 6, 7]);
}

#[test]
fn buffer_limit_exceeded() {
    // A single access unit that cannot fit in the maximum buffer size is a
    // clean error, not a crash or a silently truncated chunk.
    let mut input: Vec<u8> = vec![0, 0, 0, 1];
    input.extend_from_slice(&[7u8; 60]);
    let mut reader = ChunkedReader::custom(MemSource::new(input), 16, 32);
    assert_eq!(reader.next_chunk(), Err(ChunkedError::MaxBufferSize(32)));
}

#[test]
fn buffer_limit_boundary() {
    // A unit whose next start code is discovered within the maximum buffer
    // still splits, even when it needs growth beyond the initial page.
    let mut input: Vec<u8> = vec![0, 0, 0, 1];
    input.extend_from_slice(&[7u8; 20]);
    input.extend_from_slice(&[0, 0, 0, 1, 9]);
    let chunks = all_chunks(ChunkedReader::custom(MemSource::new(input), 16, 32));
    assert_eq!(chunks.len(), 2);
    assert_eq!(chunks[0].len(), 24);
    assert_eq!(chunks[1], vec![0, 0, 0, 1, 9]);
}

#[test]
fn missing_start_code() {
    let mut reader = ChunkedReader::custom(MemSource::new(vec![1, 2, 3, 4]), 16, 32);
    assert_eq!(reader.next_chunk(), Err(ChunkedError::NoAnnexBStartCode));
}

#[test]
fn missing_start_code_truncated_prefix() {
    // The stream ends while the buffered bytes are still a proper prefix of
    // a start code: malformed.
    let mut reader = ChunkedReader::custom(MemSource::new(vec![0, 0]), 16, 32);
    assert_eq!(reader.next_chunk(), Err(ChunkedError::NoAnnexBStartCode));
}

#[test]
fn empty_stream_has_no_chunks() {
    let mut reader = ChunkedReader::custom(MemSource::new(Vec::new()), 16, 32);
    assert_eq!(reader.next_chunk(), Ok(None));
    assert_eq!(reader.next_chunk(), Ok(None));
}

#[test]
fn default_sizes_split() {
    let input: Vec<u8> = vec![0, 0, 0, 1, 5, 5, 0, 0, 1, 6];
    let mut reader = ChunkedReader::new(MemSource::with_max_read(input, 3));
    assert_eq!(reader.next_chunk().unwrap().unwrap(), vec![0, 0, 0, 1, 5, 5]);
    assert_eq!(reader.next_chunk().unwrap().unwrap(), vec![0, 0, 1, 6]);
    assert_eq!(reader.next_chunk().unwrap(), None);
}

#[test]
fn source_failure_leaves_stream_intact() {
    // A failing read surfaces as an input error; the unconsumed stream is
    // untouched, so a retry yields exactly the chunks an undisturbed run
    // would have yielded.
    let input: Vec<u8> = vec![0, 0, 0, 1, 1, 2, 3, 4, 0, 0, 1, 5];
    let mut reader = ChunkedReader::custom(FaultySource::new(input.clone(), 2), 16, 32);
    assert_eq!(reader.next_chunk(), Err(ChunkedError::Io));
    assert_eq!(reader.next_chunk(), Err(ChunkedError::Io));
    assert_eq!(reader.next_chunk().unwrap().unwrap(), vec![0, 0, 0, 1, 1, 2, 3, 4]);
    assert_eq!(reader.next_chunk().unwrap().unwrap(), vec![0, 0, 1, 5]);
    assert_eq!(reader.next_chunk().unwrap(), None);
}
