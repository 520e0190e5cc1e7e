use opensovd::codec::{MAX_FRAME_LEN, decode_frame, encode_frame, frame_payload_len, read_prefix};
use opensovd::error::SovdError;

#[test]
fn frame_roundtrip_in_memory() {
    let payload: Vec<u8> = (0u8..=200).collect();
    let bytes = encode_frame(&payload).expect("encode");
    let back = decode_frame(&bytes).expect("read").expect("some");
    assert_eq!(back, payload);
}

#[test]
fn empty_reader_returns_none() {
    let out = decode_frame(&[]).expect("read");
    assert!(out.is_none());
}

#[test]
fn frame_prefix_is_little_endian_length() {
    let payload = vec![7u8; 300];
    let bytes = encode_frame(&payload).unwrap();
    assert_eq!(&bytes[..4], &[44, 1, 0, 0]);
    assert_eq!(bytes.len(), 304);
}

#[test]
fn largest_payload_is_framed() {
    let payload = vec![1u8; MAX_FRAME_LEN];
    let bytes = encode_frame(&payload).unwrap();
    assert_eq!(&bytes[..4], &[0, 0, 1, 0]);
    assert_eq!(decode_frame(&bytes).unwrap().unwrap().len(), MAX_FRAME_LEN);
}

#[test]
fn oversized_payload_is_refused() {
    let payload = vec![0u8; MAX_FRAME_LEN + 1];
    match encode_frame(&payload) {
        Err(SovdError::Internal(m)) => {
            assert_eq!(m, "encoded fault record exceeds 65536 bytes (65537 actual)")
        }
        other => panic!("unexpected {other:?}"),
    }
}

#[test]
fn oversized_prefix_is_refused() {
    match decode_frame(&[1, 0, 1, 0, 9]) {
        Err(SovdError::InvalidRequest(m)) => {
            assert_eq!(m, "frame length 65537 exceeds MAX_FRAME_LEN=65536")
        }
        other => panic!("unexpected {other:?}"),
    }
    assert!(matches!(frame_payload_len([0, 0, 0, 1]), Err(SovdError::InvalidRequest(_))));
    assert_eq!(frame_payload_len([5, 0, 0, 0]).unwrap(), 5);
}

#[test]
fn truncated_payload_is_a_transport_error() {
    match decode_frame(&[3, 0, 0, 0, 1, 2]) {
        Err(SovdError::Transport(m)) => assert_eq!(m, "fault-sink read payload: early eof"),
        other => panic!("unexpected {other:?}"),
    }
}

#[test]
fn cut_off_header_is_a_transport_error() {
    for bytes in [&[1u8][..], &[1, 2][..], &[1, 2, 3][..]] {
        match decode_frame(bytes) {
            Err(SovdError::Transport(m)) => assert_eq!(m, "fault-sink read len: early eof"),
            other => panic!("unexpected {other:?}"),
        }
    }
    assert!(matches!(read_prefix(&[9, 9]), Err(SovdError::Transport(_))));
    assert!(read_prefix(&[]).unwrap().is_none());
    assert_eq!(read_prefix(&[2, 1, 0, 0]).unwrap(), Some(258));
}

#[test]
fn bytes_after_the_first_frame_are_left_alone() {
    let mut bytes = encode_frame(b"abc").unwrap();
    bytes.extend_from_slice(&encode_frame(b"xy").unwrap());
    assert_eq!(decode_frame(&bytes).unwrap().unwrap(), b"abc".to_vec());
    assert_eq!(decode_frame(&bytes[7..]).unwrap().unwrap(), b"xy".to_vec());
}
