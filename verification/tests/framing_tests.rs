use myde_wrap::{decimal_string, encode_frame, frame_header, frame_length, FrameError, MAX_MESSAGE_LEN};

#[test]
fn header_is_big_endian_length() {
    assert_eq!(frame_header(0), vec![0, 0, 0, 0]);
    assert_eq!(frame_header(0x0102_0304), vec![1, 2, 3, 4]);
    assert_eq!(frame_header(300), vec![0, 0, 1, 44]);
}

#[test]
fn header_truncates_to_32_bits() {
    if usize::BITS >= 64 {
        let len = (1usize << 32) + 5;
        assert_eq!(frame_header(len), vec![0, 0, 0, 5]);
    }
}

#[test]
fn frame_length_reads_big_endian() {
    assert_eq!(frame_length([0, 0, 0, 0]), Ok(0));
    assert_eq!(frame_length([0, 0, 1, 44]), Ok(300));
    assert_eq!(frame_length([0, 0xA0, 0, 0]), Ok(MAX_MESSAGE_LEN));
}

#[test]
fn oversized_frame_refused() {
    assert_eq!(frame_length([0, 0xA0, 0, 1]), Err(FrameError::TooLarge(10485761)));
    assert_eq!(frame_length([0xFF, 0xFF, 0xFF, 0xFF]), Err(FrameError::TooLarge(4294967295)));
    assert_eq!(FrameError::TooLarge(10485761).message(), "Message too large: 10485761 bytes");
}

#[test]
fn encode_then_read_back() {
    let body = br#"{"type":"Ping"}"#.to_vec();
    let frame = encode_frame(&body);
    assert_eq!(frame.len(), 4 + body.len());
    let header = [frame[0], frame[1], frame[2], frame[3]];
    assert_eq!(frame_length(header), Ok(body.len()));
    assert_eq!(&frame[4..], body.as_slice());
}

#[test]
fn decimal_strings() {
    assert_eq!(decimal_string(0), "0");
    assert_eq!(decimal_string(7), "7");
    assert_eq!(decimal_string(10), "10");
    assert_eq!(decimal_string(1920), "1920");
    assert_eq!(decimal_string(usize::MAX), usize::MAX.to_string());
}
