use dingoflow_native::frame::{
    absorb_chunk, decode_header, read_frame, response_frame, write_response, FrameError, ReadFault,
    ReadStep,
};
use dingoflow_native::{read_exact_allow_eof, read_exact_required};
use std::io::Read;

struct OneByteReader {
    data: Vec<u8>,
    pos: usize,
}

impl Read for OneByteReader {
    fn read(&mut self, buf: &mut [u8]) -> std::io::Result<usize> {
        if self.pos >= self.data.len() || buf.is_empty() {
            return Ok(0);
        }
        buf[0] = self.data[self.pos];
        self.pos += 1;
        Ok(1)
    }
}

fn header(json_len: u32, audio_len: u32) -> Vec<u8> {
    let mut h = json_len.to_le_bytes().to_vec();
    h.extend_from_slice(&audio_len.to_le_bytes());
    h
}

#[test]
fn json_len_zero_aborts() {
    let bytes = header(0, 0);
    let mut r = &bytes[..];
    match read_frame(&mut r) {
        Err(FrameError::InvalidJsonSize(0)) => {}
        _ => panic!("expected invalid json size"),
    }
}

#[test]
fn oversized_json_aborts() {
    let bytes = header(8 * 1024 * 1024 + 1, 0);
    let mut r = &bytes[..];
    match read_frame(&mut r) {
        Err(e) => assert_eq!(e.message(), "invalid json frame size: 8388609"),
        Ok(_) => panic!("expected failure"),
    }
}

#[test]
fn oversized_audio_aborts() {
    let bytes = header(2, 128 * 1024 * 1024 + 1);
    let mut r = &bytes[..];
    match read_frame(&mut r) {
        Err(e) => {
            assert!(matches!(e, FrameError::AudioTooLarge(134217729)));
            assert_eq!(e.message(), "audio frame too large: 134217729");
        }
        Ok(_) => panic!("expected failure"),
    }
}

#[test]
fn largest_sizes_are_accepted_by_header() {
    let h = decode_header(&header(8 * 1024 * 1024, 128 * 1024 * 1024)).ok().unwrap();
    assert_eq!(h.json_len, 8 * 1024 * 1024);
    assert_eq!(h.audio_len, 128 * 1024 * 1024);
}

#[test]
fn eof_before_header_is_clean() {
    let bytes: Vec<u8> = Vec::new();
    let mut r = &bytes[..];
    assert!(matches!(read_frame(&mut r), Ok(None)));
}

#[test]
fn eof_after_one_header_byte_aborts() {
    let bytes = vec![1u8];
    let mut r = &bytes[..];
    match read_frame(&mut r) {
        Err(e) => {
            assert!(matches!(e, FrameError::Header(ReadFault::UnexpectedEof)));
            assert_eq!(e.message(), "failed to read frame header: incomplete frame");
        }
        Ok(_) => panic!("expected failure"),
    }
}

#[test]
fn eof_inside_json_aborts() {
    let mut bytes = header(4, 0);
    bytes.extend_from_slice(b"{}");
    let mut r = &bytes[..];
    match read_frame(&mut r) {
        Err(e) => assert_eq!(e.message(), "frame json read failed: incomplete frame body"),
        Ok(_) => panic!("expected failure"),
    }
}

#[test]
fn frame_split_into_single_bytes_is_read_whole() {
    let mut data = header(2, 4);
    data.extend_from_slice(b"{}");
    data.extend_from_slice(&[1, 0, 255, 255]);
    data.extend_from_slice(&header(3, 0));
    data.extend_from_slice(b"{ }");
    let mut r = OneByteReader { data, pos: 0 };
    let f = read_frame(&mut r).ok().unwrap().unwrap();
    assert_eq!(f.json, b"{}".to_vec());
    assert_eq!(f.audio, vec![1, 0, 255, 255]);
    let g = read_frame(&mut r).ok().unwrap().unwrap();
    assert_eq!(g.json, b"{ }".to_vec());
    assert!(g.audio.is_empty());
    assert!(matches!(read_frame(&mut r), Ok(None)));
}

#[test]
fn read_exact_helpers() {
    let data = vec![1u8, 2, 3];
    let mut r = &data[..];
    assert_eq!(read_exact_allow_eof(&mut r, 2).ok().unwrap(), Some(vec![1, 2]));
    assert!(matches!(read_exact_allow_eof(&mut r, 2), Err(ReadFault::UnexpectedEof)));
    let empty: Vec<u8> = Vec::new();
    let mut e = &empty[..];
    assert!(matches!(read_exact_allow_eof(&mut e, 2), Ok(None)));
    let mut e2 = &empty[..];
    assert!(matches!(read_exact_required(&mut e2, 1), Err(ReadFault::UnexpectedEof)));
    let mut r2 = OneByteReader { data: vec![9, 8, 7], pos: 0 };
    assert_eq!(read_exact_required(&mut r2, 3).ok().unwrap(), vec![9, 8, 7]);
}

#[test]
fn reply_frame_has_four_byte_prefix() {
    let body = b"{\"ok\":true}".to_vec();
    let frame = response_frame(&body);
    assert_eq!(&frame[..4], &[11, 0, 0, 0]);
    assert_eq!(&frame[4..], &body[..]);
    let mut out: Vec<u8> = Vec::new();
    assert!(write_response(&mut out, &body).is_ok());
    assert_eq!(out, frame);
    let big = vec![0u8; 300];
    assert_eq!(&response_frame(&big)[..4], &[44, 1, 0, 0]);
}

#[test]
fn absorb_chunk_decides_each_read() {
    let mut buf: Vec<u8> = Vec::new();
    assert_eq!(absorb_chunk(&mut buf, &[], true), ReadStep::CleanEnd);
    assert!(buf.is_empty());
    assert_eq!(absorb_chunk(&mut buf, &[], false), ReadStep::Truncated);
    assert_eq!(absorb_chunk(&mut buf, &[1, 2], true), ReadStep::Continue);
    assert_eq!(absorb_chunk(&mut buf, &[3], false), ReadStep::Continue);
    assert_eq!(buf, vec![1, 2, 3]);
    assert_eq!(absorb_chunk(&mut buf, &[], true), ReadStep::Truncated);
    assert_eq!(buf, vec![1, 2, 3]);
}

#[test]
fn zero_size_reads_nothing() {
    let data = vec![5u8];
    let mut r = &data[..];
    assert_eq!(read_exact_allow_eof(&mut r, 0).ok().unwrap(), Some(Vec::new()));
    assert_eq!(read_exact_required(&mut r, 0).ok().unwrap(), Vec::<u8>::new());
    assert_eq!(read_exact_required(&mut r, 1).ok().unwrap(), vec![5]);
}
