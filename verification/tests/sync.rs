use std::collections::VecDeque;
use std::io::{self, Cursor, Read};

use osauth::sync::{ReadStep, StreamEvent, SyncBody, SyncStream, CHUNK_SIZE};
use osauth::ErrorKind;

struct ChunkReader {
    reader: SyncStream,
    chunks: VecDeque<Vec<u8>>,
}

impl ChunkReader {
    fn new(data: Vec<Vec<u8>>) -> ChunkReader {
        ChunkReader {
            reader: SyncStream::new(),
            chunks: data.into_iter().collect(),
        }
    }
}

impl Read for ChunkReader {
    fn read(&mut self, buf: &mut [u8]) -> io::Result<usize> {
        loop {
            match self.reader.read(buf) {
                ReadStep::Done(count) => return Ok(count),
                ReadStep::NeedChunk => {
                    let event = match self.chunks.pop_front() {
                        Some(chunk) => StreamEvent::Chunk(chunk),
                        None => StreamEvent::End,
                    };
                    self.reader.feed(event).unwrap();
                }
            }
        }
    }
}

struct BodyReader<R> {
    reader: SyncStream,
    body: SyncBody<R>,
}

impl<R: Read> Read for BodyReader<R> {
    fn read(&mut self, buf: &mut [u8]) -> io::Result<usize> {
        loop {
            match self.reader.read(buf) {
                ReadStep::Done(count) => return Ok(count),
                ReadStep::NeedChunk => {
                    let mut buffer = self.body.buffer();
                    let size = self.body.reader_mut().read(&mut buffer)?;
                    let event = match self.body.chunk(buffer, size) {
                        Some(chunk) => StreamEvent::Chunk(chunk),
                        None => StreamEvent::End,
                    };
                    self.reader.feed(event).unwrap();
                }
            }
        }
    }
}

#[test]
fn test_stream_empty() {
    let mut st = ChunkReader::new(Vec::new());
    let mut buffer = Vec::new();
    assert_eq!(0, st.read_to_end(&mut buffer).unwrap());
}

#[test]
fn test_stream_all() {
    let data = vec![vec![1u8, 2, 3], vec![4u8], vec![5u8, 6]];
    let mut st = ChunkReader::new(data);
    let mut buffer = Vec::new();
    assert_eq!(6, st.read_to_end(&mut buffer).unwrap());
    assert_eq!(vec![1, 2, 3, 4, 5, 6], buffer);
}

#[test]
fn test_stream_parts() {
    let data = vec![vec![1u8, 2u8, 3u8], vec![4u8], vec![5u8, 6u8, 7u8, 8u8]];
    let mut st = ChunkReader::new(data);
    let mut buffer = [0; 3];
    assert_eq!(3, st.read(&mut buffer).unwrap());
    assert_eq!([1, 2, 3], buffer);
    assert_eq!(1, st.read(&mut buffer).unwrap());
    assert_eq!([4, 2, 3], buffer);
    assert_eq!(3, st.read(&mut buffer).unwrap());
    assert_eq!([5, 6, 7], buffer);
    assert_eq!(1, st.read(&mut buffer).unwrap());
    assert_eq!([8, 6, 7], buffer);
    assert_eq!(0, st.read(&mut buffer).unwrap());
}

#[test]
fn test_body() {
    let data = vec![42; 16_777_000]; // a bit short of 16 MiB
    let mut st = BodyReader {
        reader: SyncStream::new(),
        body: SyncBody::new(Cursor::new(data)),
    };
    let mut buffer = Vec::new();
    assert_eq!(16_777_000, st.read_to_end(&mut buffer).unwrap());
}

#[test]
fn a_reader_at_the_end_gives_nothing_more() {
    let mut st = SyncStream::new();
    let mut buffer = [9u8; 2];
    assert_eq!(st.read(&mut buffer), ReadStep::NeedChunk);
    st.feed(StreamEvent::Chunk(vec![1, 2, 3])).unwrap();
    assert_eq!(st.read(&mut buffer), ReadStep::Done(2));
    assert_eq!(st.read(&mut buffer), ReadStep::Done(1));
    assert_eq!(buffer, [3, 2]);
    assert!(!st.is_at_end());
    assert_eq!(st.read(&mut buffer), ReadStep::NeedChunk);
    st.feed(StreamEvent::End).unwrap();
    assert!(st.is_at_end());
    assert_eq!(st.read(&mut buffer), ReadStep::Done(0));
    st.feed(StreamEvent::Chunk(vec![7, 7])).unwrap();
    assert_eq!(st.read(&mut buffer), ReadStep::Done(0));
    assert_eq!(st.read(&mut buffer), ReadStep::Done(0));
    assert_eq!(buffer, [3, 2]);
    assert!(st.is_at_end());
}

#[test]
fn an_empty_chunk_is_skipped() {
    let mut st = ChunkReader::new(vec![vec![], vec![1u8], vec![], vec![2u8]]);
    let mut buffer = Vec::new();
    assert_eq!(2, st.read_to_end(&mut buffer).unwrap());
    assert_eq!(vec![1, 2], buffer);
}

#[test]
fn a_buffer_without_room_reads_nothing_and_loses_nothing() {
    let mut st = SyncStream::new();
    let mut none: [u8; 0] = [];
    assert_eq!(st.read(&mut none), ReadStep::NeedChunk);
    st.feed(StreamEvent::Chunk(vec![1, 2])).unwrap();
    assert_eq!(st.read(&mut none), ReadStep::Done(0));
    assert_eq!(st.read(&mut none), ReadStep::Done(0));
    let mut buffer = [0u8; 4];
    assert_eq!(st.read(&mut buffer), ReadStep::Done(2));
    assert_eq!(buffer, [1, 2, 0, 0]);
    assert_eq!(st.read(&mut none), ReadStep::NeedChunk);
    st.feed(StreamEvent::End).unwrap();
    assert_eq!(st.read(&mut none), ReadStep::Done(0));
}

#[test]
fn a_first_read_without_room_loses_no_byte() {
    let mut st = ChunkReader::new(vec![vec![1u8, 2], vec![3u8]]);
    let mut none: [u8; 0] = [];
    assert_eq!(0, st.read(&mut none).unwrap());
    let mut buffer = [0u8; 3];
    assert_eq!(2, st.read(&mut buffer).unwrap());
    assert_eq!([1, 2], buffer[..2]);
    assert_eq!(1, st.read(&mut buffer).unwrap());
    assert_eq!(3, buffer[0]);
    assert_eq!(0, st.read(&mut buffer).unwrap());
    assert_eq!(0, st.read(&mut buffer).unwrap());
}

#[test]
fn a_chunk_fed_early_comes_behind_what_is_unread() {
    let mut st = SyncStream::new();
    st.feed(StreamEvent::Chunk(vec![1, 2])).unwrap();
    let mut one = [0u8; 1];
    assert_eq!(st.read(&mut one), ReadStep::Done(1));
    st.feed(StreamEvent::Chunk(vec![3])).unwrap();
    st.feed(StreamEvent::End).unwrap();
    assert!(!st.is_at_end());
    let mut buffer = [0u8; 4];
    assert_eq!(st.read(&mut buffer), ReadStep::Done(2));
    assert_eq!(buffer, [2, 3, 0, 0]);
    assert_eq!(st.read(&mut buffer), ReadStep::Done(0));
    assert!(st.is_at_end());
}

#[test]
fn every_byte_comes_out_once_and_in_order() {
    let chunks = vec![
        vec![],
        vec![1u8, 2, 3, 4, 5],
        vec![],
        vec![6u8],
        vec![7u8, 8, 9],
        vec![],
    ];
    for room in 1..7 {
        let mut st = ChunkReader::new(chunks.clone());
        let mut all = Vec::new();
        let mut buffer = vec![0u8; room];
        loop {
            let count = st.read(&mut buffer).unwrap();
            assert!(count <= room);
            if count == 0 {
                break;
            }
            all.extend_from_slice(&buffer[..count]);
        }
        assert_eq!(all, vec![1, 2, 3, 4, 5, 6, 7, 8, 9]);
        assert_eq!(0, st.read(&mut buffer).unwrap());
    }
}

#[test]
fn a_failed_stream_gives_an_io_error_and_ends() {
    let mut st = SyncStream::new();
    let error = st
        .feed(StreamEvent::Failed(String::from("connection reset")))
        .err()
        .unwrap();
    assert_eq!(error.kind(), ErrorKind::Io);
    assert_eq!(error.message(), "connection reset");
    let mut buffer = [0u8; 4];
    assert_eq!(st.read(&mut buffer), ReadStep::Done(0));
    assert!(st.is_at_end());
}

#[test]
fn a_body_cuts_chunks_of_16_kib() {
    assert_eq!(CHUNK_SIZE, 16384);
    let body = SyncBody::new(Cursor::new(vec![7u8; 20000]));
    let buffer = body.buffer();
    assert_eq!(buffer, vec![0u8; 16384]);
    assert_eq!(body.chunk(vec![1, 2, 3, 4], 2), Some(vec![1, 2]));
    assert_eq!(body.chunk(vec![1, 2, 3, 4], 4), Some(vec![1, 2, 3, 4]));
    assert_eq!(body.chunk(vec![1, 2, 3, 4], 9), Some(vec![1, 2, 3, 4]));
    assert_eq!(body.chunk(vec![1, 2, 3, 4], 0), None);
    assert_eq!(body.into_inner().into_inner().len(), 20000);
}

#[test]
fn a_body_emits_its_source_in_order() {
    let data: Vec<u8> = (0..40000u32).map(|value| (value % 251) as u8).collect();
    let mut body = SyncBody::new(Cursor::new(data.clone()));
    let mut sizes = Vec::new();
    let mut all = Vec::new();
    loop {
        let mut buffer = body.buffer();
        let size = body.reader_mut().read(&mut buffer).unwrap();
        match body.chunk(buffer, size) {
            Some(chunk) => {
                sizes.push(chunk.len());
                all.extend(chunk);
            }
            None => break,
        }
    }
    assert_eq!(sizes, vec![16384, 16384, 7232]);
    assert_eq!(all, data);
}
