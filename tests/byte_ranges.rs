use file_cloud::range::{content_range, parse_range, range_len, RangeChunk, RangeStream};

fn drain(size: u64, chunks: Vec<Vec<u8>>) -> Vec<u8> {
    let mut s = RangeStream::new(size);
    let mut out = Vec::new();
    for c in chunks {
        match s.poll_chunk(c) {
            RangeChunk::Skip => {}
            RangeChunk::Emit(v) => out.extend(v),
            RangeChunk::End => break,
        }
    }
    out
}

#[test]
fn range_header_with_both_ends() {
    let r = parse_range(Some("bytes=100-199"), 1000);
    assert_eq!(r, (100, 199, true));
    assert_eq!(range_len((r.0, r.1)), 100);
}

#[test]
fn range_header_without_end_reaches_last_byte() {
    let r = parse_range(Some("bytes=900-"), 1000);
    assert_eq!(r, (900, 999, true));
    assert_eq!(range_len((r.0, r.1)), 100);
}

#[test]
fn missing_range_header_serves_whole_body() {
    let r = parse_range(None, 1000);
    assert_eq!(r, (0, 999, false));
    assert_eq!(range_len((r.0, r.1)), 1000);
}

#[test]
fn malformed_range_header_serves_whole_body() {
    assert_eq!(parse_range(Some("bytes=abc"), 1000), (0, 999, false));
    assert_eq!(parse_range(Some("items=1-2"), 1000), (0, 999, false));
    assert_eq!(parse_range(Some(""), 1000), (0, 999, false));
    assert_eq!(parse_range(Some("bytes=1-2x"), 1000), (0, 999, false));
    assert_eq!(parse_range(Some("bytes=99999999999999999999-"), 1000), (0, 999, false));
}

#[test]
fn first_range_of_several_counts() {
    assert_eq!(parse_range(Some("bytes=0-1,5-6"), 10), (0, 1, true));
    assert_eq!(parse_range(Some("bytes=-5"), 10), (0, 5, true));
    assert_eq!(parse_range(Some("x bytes=1-2x, bytes=3-4 "), 10), (3, 4, true));
}

#[test]
fn empty_body_has_empty_range() {
    let r = parse_range(None, 0);
    assert_eq!(r, (0, u64::MAX, false));
    assert_eq!(range_len((r.0, r.1)), 0);
}

#[test]
fn range_stream_cuts_last_chunk() {
    let out = drain(5, vec![vec![1, 2, 3], vec![], vec![4, 5, 6, 7], vec![8]]);
    assert_eq!(out, vec![1, 2, 3, 4, 5]);
}

#[test]
fn range_stream_ends_after_size() {
    let mut s = RangeStream::new(2);
    assert_eq!(s.poll_chunk(vec![9, 8]), RangeChunk::Emit(vec![9, 8]));
    assert_eq!(s.poll_chunk(vec![7]), RangeChunk::End);
    assert_eq!(s.poll_chunk(vec![]), RangeChunk::End);
}

#[test]
fn range_stream_skips_empty_chunks() {
    let mut s = RangeStream::new(2);
    assert_eq!(s.poll_chunk(vec![]), RangeChunk::Skip);
}

#[test]
fn uploaded_bytes_read_back_whole() {
    let data: Vec<u8> = (0..250u32).map(|i| (i % 256) as u8).collect();
    let n = data.len() as u64;
    let size = range_len((0, n - 1));
    let chunks: Vec<Vec<u8>> = data.chunks(64).map(|c| c.to_vec()).collect();
    assert_eq!(drain(size, chunks), data);
}

#[test]
fn partial_read_of_thousand_bytes() {
    let data: Vec<u8> = (0..1000u32).map(|i| (i % 251) as u8).collect();
    let (first, last, partial) = parse_range(Some("bytes=100-199"), 1000);
    assert!(partial);
    let chunks: Vec<Vec<u8>> = data[first as usize..].chunks(64).map(|c| c.to_vec()).collect();
    let out = drain(range_len((first, last)), chunks);
    assert_eq!(out, data[100..200].to_vec());
}

#[test]
fn content_range_of_partial_answer() {
    assert_eq!(content_range(100, 199, 1000), "bytes 100-199/1000");
    assert_eq!(content_range(900, 999, 1000), "bytes 900-999/1000");
    assert_eq!(content_range(0, 0, 1), "bytes 0-0/1");
}
