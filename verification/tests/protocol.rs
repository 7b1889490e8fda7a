//! Tests for the wire codec: framing, round trips, and short-read and
//! length-mismatch errors.

use converse::error::Error;
use converse::protocol::IPCBuffer;
use converse::protocol::IPCRequest;

#[test]
fn buffer_round_trip_nonempty() {
    let buf = IPCBuffer::new(vec![1u8, 2, 3]);
    let bytes = buf.write().unwrap();
    assert_eq!(bytes, vec![3u8, 0, 0, 0, 1, 2, 3]);
    let (back, used) = IPCBuffer::read(&bytes, 0).unwrap();
    assert_eq!(used, bytes.len());
    assert_eq!(back.len, 3);
    assert_eq!(back.data, vec![1u8, 2, 3]);
}

#[test]
fn buffer_round_trip_empty() {
    let buf = IPCBuffer::new(Vec::new());
    let bytes = buf.write().unwrap();
    assert_eq!(bytes, vec![0u8, 0, 0, 0]);
    let (back, used) = IPCBuffer::read(&bytes, 0).unwrap();
    assert_eq!(used, 4);
    assert_eq!(back.len, 0);
    assert!(back.data.is_empty());
}

#[test]
fn buffer_read_at_offset() {
    let mut bytes = vec![0xffu8, 0xff];
    bytes.extend_from_slice(&[2, 0, 0, 0, 7, 8]);
    let (back, used) = IPCBuffer::read(&bytes, 2).unwrap();
    assert_eq!(used, 8);
    assert_eq!(back.data, vec![7u8, 8]);
}

#[test]
fn buffer_write_length_mismatch_is_server_error() {
    let buf = IPCBuffer { len: 5, data: vec![1u8] };
    let e = buf.write().unwrap_err();
    assert!(matches!(e, Error::Server(_)));
}

#[test]
fn buffer_read_short_header_is_io_error() {
    let e = IPCBuffer::read(&vec![1u8, 2], 0).unwrap_err();
    assert!(matches!(e, Error::Io(_)));
}

#[test]
fn buffer_read_short_payload_is_io_error() {
    // Claims 4 payload bytes but carries only 1.
    let e = IPCBuffer::read(&vec![4u8, 0, 0, 0, 9], 0).unwrap_err();
    assert!(matches!(e, Error::Io(_)));
}

#[test]
fn request_new_frames_arguments() {
    let req = IPCRequest::new(7, vec![vec![1u8, 2], Vec::new(), vec![9u8]]);
    assert_eq!(req.key, 7);
    assert_eq!(req.argc, 3);
    assert_eq!(req.argv.len(), 3);
    assert_eq!(req.argv[0].len, 2);
    assert_eq!(req.argv[0].data, vec![1u8, 2]);
    assert_eq!(req.argv[1].len, 0);
    assert_eq!(req.argv[2].data, vec![9u8]);
}

#[test]
fn request_round_trip() {
    let req = IPCRequest::new(7, vec![vec![1u8, 2], Vec::new(), vec![9u8]]);
    let bytes = req.write().unwrap();
    let expected = vec![
        7u8, 0, 0, 0, // key
        3, 0, 0, 0, // argc
        2, 0, 0, 0, 1, 2, // first buffer
        0, 0, 0, 0, // second buffer, empty
        1, 0, 0, 0, 9, // third buffer
    ];
    assert_eq!(bytes, expected);
    let (back, used) = IPCRequest::read(&bytes, 0).unwrap();
    assert_eq!(used, bytes.len());
    assert_eq!(back.key, 7);
    assert_eq!(back.argc, 3);
    assert_eq!(back.argv.len(), 3);
    assert_eq!(back.argv[0].data, vec![1u8, 2]);
    assert!(back.argv[1].data.is_empty());
    assert_eq!(back.argv[2].data, vec![9u8]);
}

#[test]
fn request_round_trip_no_arguments() {
    let req = IPCRequest::new(0, Vec::new());
    let bytes = req.write().unwrap();
    assert_eq!(bytes, vec![0u8, 0, 0, 0, 0, 0, 0, 0]);
    let (back, used) = IPCRequest::read(&bytes, 0).unwrap();
    assert_eq!(used, 8);
    assert_eq!(back.key, 0);
    assert_eq!(back.argc, 0);
    assert!(back.argv.is_empty());
}

#[test]
fn request_read_missing_buffer_is_io_error() {
    // Claims two argument buffers but carries only one.
    let bytes = vec![
        1u8, 0, 0, 0, // key
        2, 0, 0, 0, // argc
        1, 0, 0, 0, 5, // first buffer only
    ];
    let e = IPCRequest::read(&bytes, 0).unwrap_err();
    assert!(matches!(e, Error::Io(_)));
}

#[test]
fn request_write_bad_buffer_is_server_error() {
    let req = IPCRequest {
        key: 1,
        argc: 1,
        argv: vec![IPCBuffer { len: 9, data: vec![1u8] }],
    };
    let e = req.write().unwrap_err();
    assert!(matches!(e, Error::Server(_)));
}
