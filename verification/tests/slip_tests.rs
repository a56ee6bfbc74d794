use arduino_mcp_adapter::slip::{
    slip_encode, SlipDecodeState, SlipDecoder, SlipError, SLIP_CLEAR, SLIP_END, SLIP_ESC,
    SLIP_ESC_END, SLIP_ESC_ESC, SLIP_MAX_FRAME,
};

fn decode_all(decoder: &mut SlipDecoder, input: &[u8]) -> Vec<Vec<u8>> {
    let mut frames = Vec::new();
    for &byte in input {
        if let Some(frame) = decoder.process_byte(byte).unwrap() {
            frames.push(frame);
        }
    }
    frames
}

#[test]
fn test_slip_encode_simple() {
    let data = vec![0x01, 0x02, 0x03];
    let encoded = slip_encode(&data);
    assert_eq!(encoded, vec![SLIP_END, 0x01, 0x02, 0x03, SLIP_END]);
}

#[test]
fn test_slip_encode_with_escaping() {
    let data = vec![0x01, SLIP_END, 0x03, SLIP_ESC, 0x05];
    let encoded = slip_encode(&data);
    let expected = vec![
        SLIP_END,
        0x01,
        SLIP_ESC,
        SLIP_ESC_END,
        0x03,
        SLIP_ESC,
        SLIP_ESC_ESC,
        0x05,
        SLIP_END,
    ];
    assert_eq!(encoded, expected);
}

#[test]
fn test_slip_decode_simple() {
    let mut decoder = SlipDecoder::new();
    let input = vec![SLIP_END, 0x01, 0x02, 0x03, SLIP_END];

    let mut frames = Vec::new();
    for &byte in &input {
        if let Some(frame) = decoder.process_byte(byte).unwrap() {
            frames.push(frame);
        }
    }
    assert_eq!(frames.len(), 1);
    assert_eq!(frames[0], vec![0x01, 0x02, 0x03]);
}

#[test]
fn test_slip_decode_with_escaping() {
    let mut decoder = SlipDecoder::new();
    let input = vec![
        SLIP_END,
        0x01,
        SLIP_ESC,
        SLIP_ESC_END,
        0x03,
        SLIP_ESC,
        SLIP_ESC_ESC,
        0x05,
        SLIP_END,
    ];

    let mut frames = Vec::new();
    for &byte in &input {
        if let Some(frame) = decoder.process_byte(byte).unwrap() {
            frames.push(frame);
        }
    }
    assert_eq!(frames.len(), 1);
    assert_eq!(frames[0], vec![0x01, SLIP_END, 0x03, SLIP_ESC, 0x05]);
}

#[test]
fn test_slip_roundtrip() {
    let original = vec![0x01, SLIP_END, 0x03, SLIP_ESC, 0x05, 0x42];
    let encoded = slip_encode(&original);

    let mut decoder = SlipDecoder::new();
    let mut frames = Vec::new();
    for &byte in &encoded {
        if let Some(frame) = decoder.process_byte(byte).unwrap() {
            frames.push(frame);
        }
    }

    assert_eq!(frames.len(), 1);
    assert_eq!(frames[0], original);
}

#[test]
fn slip_constants_have_their_wire_values() {
    assert_eq!(SLIP_END, 0xC0);
    assert_eq!(SLIP_ESC, 0xDB);
    assert_eq!(SLIP_ESC_END, 0xDC);
    assert_eq!(SLIP_ESC_ESC, 0xDD);
    assert_eq!(SLIP_CLEAR, 0xDE);
    assert_eq!(SLIP_MAX_FRAME, 1024);
}

#[test]
fn slip_encode_escapes_end_and_esc() {
    let encoded = slip_encode(&[0x01, 0xC0, 0x03, 0xDB, 0x05]);
    assert_eq!(encoded, vec![0xC0, 0x01, 0xDB, 0xDC, 0x03, 0xDB, 0xDD, 0x05, 0xC0]);
}

#[test]
fn slip_encode_of_nothing_is_two_delimiters() {
    assert_eq!(slip_encode(&[]), vec![0xC0, 0xC0]);
}

#[test]
fn slip_encoded_frame_has_end_only_at_its_ends() {
    let data: Vec<u8> = (0..=255u8).collect();
    let encoded = slip_encode(&data);
    assert_eq!(encoded[0], SLIP_END);
    assert_eq!(encoded[encoded.len() - 1], SLIP_END);
    for &byte in &encoded[1..encoded.len() - 1] {
        assert_ne!(byte, SLIP_END);
    }
}

#[test]
fn slip_roundtrip_of_every_byte_value_ends_idle() {
    let data: Vec<u8> = (0..=255u8).collect();
    let mut decoder = SlipDecoder::new();
    let frames = decode_all(&mut decoder, &slip_encode(&data));
    assert_eq!(frames, vec![data]);
    assert_eq!(decoder.state(), SlipDecodeState::Idle);
}

#[test]
fn slip_roundtrip_at_the_cap() {
    let data = vec![0xC0u8; 1024];
    let mut decoder = SlipDecoder::new();
    let frames = decode_all(&mut decoder, &slip_encode(&data));
    assert_eq!(frames, vec![data]);
    assert_eq!(decoder.state(), SlipDecodeState::Idle);
}

#[test]
fn slip_keepalive_completes_no_frame() {
    let mut decoder = SlipDecoder::new();
    let frames = decode_all(&mut decoder, &[SLIP_END, SLIP_END, SLIP_END]);
    assert!(frames.is_empty());
    assert_eq!(decoder.state(), SlipDecodeState::Receiving);
}

#[test]
fn slip_idle_discards_noise() {
    let mut decoder = SlipDecoder::new();
    let frames = decode_all(&mut decoder, &[0x11, 0x22, SLIP_END, 0x07, SLIP_END]);
    assert_eq!(frames, vec![vec![0x07]]);
}

#[test]
fn slip_frame_over_the_cap_is_rejected_and_decoder_resets() {
    let mut decoder = SlipDecoder::new();
    assert_eq!(decoder.process_byte(SLIP_END), Ok(None));
    for _ in 0..1024 {
        assert_eq!(decoder.process_byte(0x55), Ok(None));
    }
    assert_eq!(decoder.process_byte(0x55), Err(SlipError::FrameTooLarge));
    assert_eq!(decoder.state(), SlipDecodeState::Idle);
    let frames = decode_all(&mut decoder, &[SLIP_END, 0x01, SLIP_END]);
    assert_eq!(frames, vec![vec![0x01]]);
}

#[test]
fn slip_escaped_byte_over_the_cap_is_rejected() {
    let mut decoder = SlipDecoder::new();
    assert_eq!(decoder.process_byte(SLIP_END), Ok(None));
    for _ in 0..1024 {
        assert_eq!(decoder.process_byte(0x55), Ok(None));
    }
    assert_eq!(decoder.process_byte(SLIP_ESC), Ok(None));
    assert_eq!(decoder.process_byte(SLIP_ESC_END), Err(SlipError::FrameTooLarge));
    assert_eq!(decoder.state(), SlipDecodeState::Idle);
}

#[test]
fn slip_invalid_escape_is_rejected_and_decoder_resets() {
    let mut decoder = SlipDecoder::new();
    assert_eq!(decoder.process_byte(SLIP_END), Ok(None));
    assert_eq!(decoder.process_byte(0x01), Ok(None));
    assert_eq!(decoder.process_byte(SLIP_ESC), Ok(None));
    assert_eq!(decoder.state(), SlipDecodeState::Escaped);
    assert_eq!(decoder.process_byte(0x41), Err(SlipError::InvalidEscape(0x41)));
    assert_eq!(decoder.state(), SlipDecodeState::Idle);
    assert_eq!(SlipError::InvalidEscape(0x41).message(), "Invalid SLIP escape sequence: 0x41");
    assert_eq!(SlipError::InvalidEscape(0x0A).message(), "Invalid SLIP escape sequence: 0x0A");
    assert_eq!(SlipError::FrameTooLarge.message(), "SLIP frame too large");
}

#[test]
fn slip_clear_aborts_the_frame_and_keeps_receiving() {
    let mut decoder = SlipDecoder::new();
    let frames = decode_all(
        &mut decoder,
        &[SLIP_END, 0x01, 0x02, SLIP_ESC, SLIP_CLEAR, 0x09, SLIP_END],
    );
    assert_eq!(frames, vec![vec![0x09]]);
    assert_eq!(decoder.state(), SlipDecodeState::Idle);
}

#[test]
fn slip_clear_from_idle_resynchronises() {
    let mut decoder = SlipDecoder::new();
    assert_eq!(decoder.process_byte(SLIP_ESC), Ok(None));
    assert_eq!(decoder.state(), SlipDecodeState::Escaped);
    assert_eq!(decoder.process_byte(SLIP_CLEAR), Ok(None));
    assert_eq!(decoder.state(), SlipDecodeState::Receiving);
}

#[test]
fn slip_reset_drops_the_frame_in_progress() {
    let mut decoder = SlipDecoder::new();
    assert_eq!(decoder.process_byte(SLIP_END), Ok(None));
    assert_eq!(decoder.process_byte(0x01), Ok(None));
    decoder.reset();
    assert_eq!(decoder.state(), SlipDecodeState::Idle);
    let frames = decode_all(&mut decoder, &[0x02, SLIP_END, 0x03, SLIP_END]);
    assert_eq!(frames, vec![vec![0x03]]);
}

#[test]
fn slip_back_to_back_frames_share_no_byte() {
    let mut decoder = SlipDecoder::new();
    let mut wire = slip_encode(&[0x01, 0x02]);
    wire.extend_from_slice(&slip_encode(&[0x03]));
    let frames = decode_all(&mut decoder, &wire);
    assert_eq!(frames, vec![vec![0x01, 0x02], vec![0x03]]);
}

#[test]
fn slip_frames_that_share_one_end_lose_the_second() {
    let mut decoder = SlipDecoder::new();
    let frames = decode_all(&mut decoder, &[SLIP_END, 0x01, SLIP_END, 0x03, SLIP_END]);
    assert_eq!(frames, vec![vec![0x01]]);
    assert_eq!(decoder.state(), SlipDecodeState::Receiving);
}

#[test]
fn slip_roundtrip_of_many_payloads() {
    let mut seed: u32 = 0x1234_5678;
    for round in 0..200 {
        let len = 1 + (round * 37) % 1024;
        let mut payload = Vec::with_capacity(len);
        for _ in 0..len {
            seed = seed.wrapping_mul(1_664_525).wrapping_add(1_013_904_223);
            let byte = (seed >> 24) as u8;
            payload.push(match byte % 5 {
                0 => SLIP_END,
                1 => SLIP_ESC,
                2 => SLIP_ESC_END,
                3 => SLIP_CLEAR,
                _ => byte,
            });
        }
        let encoded = slip_encode(&payload);
        assert!(encoded[1..encoded.len() - 1].iter().all(|&b| b != SLIP_END));
        let mut decoder = SlipDecoder::new();
        assert_eq!(decode_all(&mut decoder, &encoded), vec![payload]);
        assert_eq!(decoder.state(), SlipDecodeState::Idle);
    }
}
