use rk_nku_sync::frame::{FrameError, MUFrame, CONSOLE_OPCODE};
use rk_nku_sync::session::{decode_response, encode_request, recv_proto_message, SessionError};

#[test]
fn test_check_crc_calculation() {
    let mut frame = MUFrame::new();
    frame
        .set_data(b"#STM:L16:R16:A0:S0:M0:E#\r\n\0".to_vec())
        .unwrap();
    assert!(frame.is_crc_valid(0x2D52));
}

#[test]
fn test_serialize() {
    let mut frame = MUFrame::new();

    frame
        .set_data(b"#STM:L0:R16:A1:S0:M0:E#\r\n\0".to_vec())
        .unwrap();

    let serialized_vec = frame.serialize();
    assert_eq!(serialized_vec.len(), 6 + frame.length() as usize);

    assert_eq!(
        serialized_vec,
        vec![
            0xAA, 0x1A, 0xC0, 0x23, 0x53, 0x54, 0x4D, 0x3A, 0x4C, 0x30, 0x3A, 0x52, 0x31, 0x36,
            0x3A, 0x41, 0x31, 0x3A, 0x53, 0x30, 0x3A, 0x4D, 0x30, 0x3A, 0x45, 0x23, 0x0D, 0x0A,
            0x00, 0x80, 0x77, 0xBB
        ]
    );
}

#[test]
fn test_deserialize() {
    let serialized_vec = vec![
        0xAA, 0x1A, 0xC0, 0x23, 0x53, 0x54, 0x4D, 0x3A, 0x4C, 0x30, 0x3A, 0x52, 0x31, 0x36,
        0x3A, 0x41, 0x31, 0x3A, 0x53, 0x30, 0x3A, 0x4D, 0x30, 0x3A, 0x45, 0x23, 0x0D, 0x0A,
        0x00, 0x80, 0x77, 0xBB,
    ];
    let frame = MUFrame::deserialize(&serialized_vec).unwrap();
    assert!(frame.is_prefix_correct());
    assert!(frame.is_postfix_correct());
    assert!(frame.is_crc_valid(0x7780));
    assert_eq!(frame.opcode(), CONSOLE_OPCODE);
    assert_eq!(frame.get_data(), b"#STM:L0:R16:A1:S0:M0:E#\r\n\0");
}

#[test]
fn test_frame_invalidation() {
    let serialized_vec = vec![
        0xAA, 0x1B, 0xC0, 0x23, 0x53, 0x54, 0x4D, 0x3A, 0x4C, 0x31, 0x36, 0x3A, 0x52, 0x31,
        0x36, 0x3A, 0x41, 0x31, 0x3A, 0x53, 0x32, 0x3A, 0x4D, 0x30, 0x3A, 0x45, 0x23, 0x0D,
        0x0A, 0x00, 0xBB, 0xB6, 0xBB,
    ];
    let frame = MUFrame::deserialize(&serialized_vec).unwrap();
    assert!(frame.is_prefix_correct());
    assert!(frame.is_postfix_correct());
    assert!(frame.is_crc_valid(0xB6BB));
    assert_eq!(frame.opcode(), CONSOLE_OPCODE);
    assert_eq!(frame.get_data(), b"#STM:L16:R16:A1:S2:M0:E#\r\n\0");
    frame.invalidate_frame().unwrap();
}

#[test]
fn test_send_and_recv() {
    let mut frame_to_send = MUFrame::new();
    frame_to_send
        .set_data(b"get server_info\n".to_vec())
        .unwrap();

    // What sending writes to the link.
    let buf = frame_to_send.clone().serialize();

    let received_frame = recv_proto_message(&buf[..]).unwrap();
    assert_eq!(received_frame.get_data(), frame_to_send.get_data());
    assert_eq!(received_frame, frame_to_send);
}

fn framed(payload: &[u8]) -> Vec<u8> {
    let mut frame = MUFrame::new();
    frame.set_data(payload.to_vec()).unwrap();
    frame.serialize()
}

#[test]
fn round_trip_keeps_payload() {
    for payload in [&b"a"[..], &b"hello\n"[..], &[0x7Fu8; 255][..]] {
        let bytes = framed(payload);
        let frame = MUFrame::deserialize(&bytes).unwrap();
        assert_eq!(frame.get_data().as_slice(), payload);
        assert_eq!(frame.length() as usize, payload.len());
        assert!(frame.invalidate_frame().is_ok());
    }
}

#[test]
fn checksum_vector_and_bit_flip() {
    let mut frame = MUFrame::new();
    frame
        .set_data(b"#STM:L16:R16:A0:S0:M0:E#\r\n\0".to_vec())
        .unwrap();
    assert_eq!(frame.calculate_src(), 0x2D52);
    assert!(!frame.is_crc_valid(0x2D53));
    let vector = b"#STM:L16:R16:A0:S0:M0:E#\r\n\0".to_vec();
    for i in 0..vector.len() {
        for bit in 0..7 {
            let mut flipped = vector.clone();
            flipped[i] ^= 1 << bit;
            let mut other = MUFrame::new();
            other.set_data(flipped).unwrap();
            assert_ne!(other.calculate_src(), 0x2D52);
        }
    }
    let mut again = MUFrame::new();
    again.set_data(vector).unwrap();
    assert_eq!(again.calculate_src(), 0x2D52);
}

#[test]
fn set_data_rejects_bad_payloads() {
    let mut frame = MUFrame::new();
    assert_eq!(frame.set_data(Vec::new()), Err(FrameError::EmptyPayload));
    assert_eq!(frame.set_data(vec![b'a'; 256]), Err(FrameError::PayloadTooLarge));
    assert_eq!(frame.set_data(vec![b'a', 0x80]), Err(FrameError::NonAsciiPayload));
    assert_eq!(frame.length(), 0);
    assert!(frame.get_data().is_empty());
    assert!(frame.set_data(vec![b'a'; 255]).is_ok());
    assert_eq!(frame.length(), 255);
}

#[test]
fn decode_rejects_bad_frames() {
    let good = framed(b"get x\n");
    let mut bad_prefix = good.clone();
    bad_prefix[0] = 0xAB;
    assert_eq!(MUFrame::deserialize(&bad_prefix), Err(FrameError::BadPrefix));

    let mut bad_suffix = good.clone();
    let last = bad_suffix.len() - 1;
    bad_suffix[last] = 0x00;
    assert_eq!(MUFrame::deserialize(&bad_suffix), Err(FrameError::BadSuffix));

    for pos in [good.len() - 3, good.len() - 2] {
        let mut bad_crc = good.clone();
        bad_crc[pos] ^= 0x01;
        assert_eq!(MUFrame::deserialize(&bad_crc), Err(FrameError::BadChecksum));
    }

    assert_eq!(MUFrame::deserialize(&good[..good.len() - 1]), Err(FrameError::Truncated));
    assert_eq!(MUFrame::deserialize(&[0xAA]), Err(FrameError::Truncated));
}

#[test]
fn decode_rejects_non_ascii_payload() {
    // A frame whose checksum is right but whose payload is not ASCII.
    let mut frame = MUFrame::new();
    frame.set_data(vec![b'a']).unwrap();
    let mut bytes = frame.serialize();
    bytes[3] = 0xE9;
    // Search a checksum for the altered payload by trying every pair.
    let mut found = false;
    'outer: for low in 0..=255u8 {
        for high in 0..=255u8 {
            bytes[4] = low;
            bytes[5] = high;
            match MUFrame::deserialize(&bytes) {
                Err(FrameError::BadChecksum) => {}
                Err(FrameError::BadEncoding) => {
                    found = true;
                    break 'outer;
                }
                other => panic!("unexpected {:?}", other),
            }
        }
    }
    assert!(found);
}

#[test]
fn decode_ignores_trailing_bytes() {
    let mut buffer = framed(b"Hi!\r\n");
    buffer.resize(256, 0);
    let frame = recv_proto_message(&buffer).unwrap();
    assert_eq!(frame.get_data().as_slice(), b"Hi!\r\n");
}

#[test]
fn request_is_framed_with_newline() {
    let bytes = encode_request("get groupnumber").unwrap();
    assert_eq!(bytes, framed(b"get groupnumber\n"));
    assert_eq!(bytes[1] as usize, "get groupnumber\n".len());
    assert_eq!(
        encode_request("caf\u{e9}"),
        Err(SessionError::ProtocolError(FrameError::NonAsciiPayload))
    );
    let long = "x".repeat(255);
    assert_eq!(
        encode_request(&long),
        Err(SessionError::ProtocolError(FrameError::PayloadTooLarge))
    );
}

#[test]
fn response_text_comes_from_payload() {
    let mut buffer = framed(b"groupnumber: 2\r\n");
    buffer.resize(256, 0);
    assert_eq!(decode_response(&buffer).unwrap(), "groupnumber: 2\r\n");
    buffer[0] = 0;
    assert_eq!(
        decode_response(&buffer),
        Err(SessionError::ProtocolError(FrameError::BadPrefix))
    );
}
