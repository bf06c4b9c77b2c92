use server_fisiere::frame::{decode_frame, encode_frame, read_frame, Fed, Pending, MAX_PAYLOAD};
use server_fisiere::response::Response;

#[test]
fn response_bytes_are_stable() {
    assert_eq!(Response::Success.to_byte(), 0);
    assert_eq!(Response::PathInvalid.to_byte(), 1);
    assert_eq!(Response::FileAlreadyExists.to_byte(), 2);
    assert_eq!(Response::OperationAborted.to_byte(), 3);
}

#[test]
fn response_bytes_decode_back() {
    let all = [
        Response::Success,
        Response::PathInvalid,
        Response::FileAlreadyExists,
        Response::OperationAborted,
    ];
    for code in all {
        assert_eq!(Response::from_byte(code.to_byte()), Some(code));
    }
}

#[test]
fn bytes_that_are_no_response_do_not_decode() {
    assert_eq!(Response::from_byte(4), None);
    assert_eq!(Response::from_byte(255), None);
    let mut known = 0;
    for byte in 0..=255u8 {
        if Response::from_byte(byte).is_some() {
            known += 1;
        }
    }
    assert_eq!(known, 4);
}

#[test]
fn frame_of_hello() {
    assert_eq!(encode_frame(b"hello"), Some(vec![5, b'h', b'e', b'l', b'l', b'o']));
}

#[test]
fn frame_of_nothing_is_the_zero_byte() {
    assert_eq!(encode_frame(&[]), Some(vec![0]));
}

#[test]
fn the_longest_frame_carries_255_bytes() {
    assert_eq!(MAX_PAYLOAD, 255);
    let payload = vec![7u8; 255];
    let frame = encode_frame(&payload).unwrap();
    assert_eq!(frame.len(), 256);
    assert_eq!(frame[0], 255);
    assert_eq!(&frame[1..], &payload[..]);
}

#[test]
fn a_payload_of_256_bytes_has_no_frame() {
    assert_eq!(encode_frame(&vec![0u8; 256]), None);
    assert_eq!(encode_frame(&vec![0u8; 1000]), None);
}

#[test]
fn framing_round_trip_for_every_length() {
    for len in 0..=255usize {
        let payload: Vec<u8> = (0..len).map(|i| (i * 31 + len) as u8).collect();
        let frame = encode_frame(&payload).unwrap();
        assert_eq!(decode_frame(&frame), Some((payload, len + 1)));
    }
}

#[test]
fn decoding_leaves_what_follows_the_frame() {
    let input = [2u8, 10, 20, 3, 1, 2, 3];
    let (first, used) = decode_frame(&input).unwrap();
    assert_eq!(first, vec![10, 20]);
    assert_eq!(used, 3);
    let (second, used) = decode_frame(&input[used..]).unwrap();
    assert_eq!(second, vec![1, 2, 3]);
    assert_eq!(used, 4);
}

#[test]
fn an_unfinished_frame_does_not_decode() {
    assert_eq!(decode_frame(&[]), None);
    assert_eq!(decode_frame(&[1]), None);
    assert_eq!(decode_frame(&[3, 1, 2]), None);
    assert_eq!(decode_frame(&[0]), Some((vec![], 1)));
}

#[test]
fn the_reader_asks_for_the_length_byte_first() {
    assert_eq!(Pending::Length.wanted(), 1);
    assert_eq!(Pending::Payload { len: 9 }.wanted(), 9);
}

#[test]
fn reading_a_frame_in_two_steps() {
    let frame = encode_frame(b"hello").unwrap();
    let fed = read_frame(Pending::Length, frame[..1].to_vec());
    assert_eq!(fed, Fed::Incomplete { pending: Pending::Payload { len: 5 } });
    let fed = read_frame(Pending::Payload { len: 5 }, frame[1..].to_vec());
    assert_eq!(fed, Fed::Complete { payload: b"hello".to_vec() });
}

#[test]
fn a_length_of_zero_completes_the_frame_at_once() {
    let fed = read_frame(Pending::Length, vec![0]);
    assert_eq!(fed, Fed::Complete { payload: vec![] });
}

#[test]
fn bytes_of_the_wrong_number_break_the_frame() {
    assert_eq!(read_frame(Pending::Length, vec![]), Fed::Broken);
    assert_eq!(read_frame(Pending::Length, vec![1, 2]), Fed::Broken);
    assert_eq!(read_frame(Pending::Payload { len: 3 }, vec![1, 2]), Fed::Broken);
    assert_eq!(read_frame(Pending::Payload { len: 3 }, vec![1, 2, 3, 4]), Fed::Broken);
}

#[test]
fn reading_round_trip_for_every_length() {
    for len in 1..=255usize {
        let payload: Vec<u8> = (0..len).map(|i| (i + 3) as u8).collect();
        let frame = encode_frame(&payload).unwrap();
        let pending = match read_frame(Pending::Length, vec![frame[0]]) {
            Fed::Incomplete { pending } => pending,
            other => panic!("unexpected {:?}", other),
        };
        assert_eq!(pending.wanted() as usize, len);
        assert_eq!(read_frame(pending, frame[1..].to_vec()), Fed::Complete { payload });
    }
}
