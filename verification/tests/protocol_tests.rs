use arduino_mcp_adapter::crc::crc8;
use arduino_mcp_adapter::protocol::{
    decode_command, decode_response_by_type, encode_command, encode_response, CommandEncoder,
    FrameError, ResponseData, ResponseDecoder, WireError,
};

#[test]
fn test_crc8() {
    // Test with known values
    let data = vec![0x01, 0x02, 0x03];
    let crc = crc8(&data);
    assert_eq!(crc, 0x48);
}

#[test]
fn test_encode_void() {
    let response = encode_response(&ResponseData::Void).unwrap();
    assert_eq!(response.len(), 1); // Just CRC
}

#[test]
fn test_encode_i16() {
    let response = encode_response(&ResponseData::I16(42)).unwrap();
    assert_eq!(response.len(), 3); // 2 bytes + CRC
    assert_eq!(response[0], 42); // Little-endian low byte
    assert_eq!(response[1], 0); // Little-endian high byte
}

#[test]
fn test_encode_i32() {
    let response = encode_response(&ResponseData::I32(1000)).unwrap();
    assert_eq!(response.len(), 5); // 4 bytes + CRC
    assert_eq!(response[0], 0xE8); // Little-endian: 1000 = 0x03E8
    assert_eq!(response[1], 0x03);
    assert_eq!(response[2], 0x00);
    assert_eq!(response[3], 0x00);
}

#[test]
fn test_encode_cstr() {
    let response = encode_response(&ResponseData::CStr("hello".to_string())).unwrap();
    assert_eq!(response.len(), 7); // "hello" + null + CRC
    assert_eq!(&response[0..5], b"hello");
    assert_eq!(response[5], 0); // Null terminator
}

#[test]
fn test_decode_command() {
    // Command with tag 5, no args
    let crc = crc8(&[5]);
    let frame = vec![5, crc];
    let (tag, args) = decode_command(&frame).unwrap();
    assert_eq!(tag, 5);
    assert_eq!(args.len(), 0);
}

#[test]
fn test_decode_command_with_args() {
    // Command with tag 1, i16 arg = 100
    let data = vec![1, 100, 0]; // tag + little-endian i16
    let crc = crc8(&data);
    let mut frame = data;
    frame.push(crc);

    let (tag, args) = decode_command(&frame).unwrap();
    assert_eq!(tag, 1);
    assert_eq!(args, &[100, 0]);
}

#[test]
fn test_decode_command_bad_crc() {
    let frame = vec![5, 0xFF]; // Wrong CRC
    let result = decode_command(&frame);
    assert!(result.is_err());
    assert!(result.unwrap_err().message().contains("CRC"));
}

#[test]
fn crc8_of_nothing_is_zero() {
    assert_eq!(crc8(&[]), 0x00);
}

#[test]
fn crc8_known_values() {
    assert_eq!(crc8(&[0x00]), 0x00);
    assert_eq!(crc8(&[0x01]), 0x07);
    assert_eq!(crc8(b"123456789"), 0xF4);
}

#[test]
fn crc8_of_payload_with_its_crc_is_zero() {
    let payloads: Vec<Vec<u8>> = vec![vec![], vec![0x01, 0x02, 0x03], vec![0xFF; 40], b"deviceId".to_vec()];
    for payload in payloads {
        let mut framed = payload.clone();
        framed.push(crc8(&payload));
        assert_eq!(crc8(&framed), 0);
    }
}

#[test]
fn decode_command_rejects_empty_and_short_frames() {
    assert_eq!(decode_command(&[]), Err(FrameError::Empty));
    assert_eq!(decode_command(&[5]), Err(FrameError::TooShort));
    assert_eq!(FrameError::Empty.message(), "Empty command frame");
    assert_eq!(
        FrameError::TooShort.message(),
        "Command frame too short (need at least tag + CRC)"
    );
    assert_eq!(FrameError::CrcMismatch.message(), "CRC mismatch");
}

#[test]
fn decode_command_undoes_encode_command() {
    let payload = encode_command(3, &[0x96, 0x00]);
    assert_eq!(payload, vec![0x03, 0x96, 0x00, crc8(&[0x03, 0x96, 0x00])]);
    let (tag, args) = decode_command(&payload).unwrap();
    assert_eq!(tag, 3);
    assert_eq!(args, &[0x96, 0x00]);
}

#[test]
fn identity_query_is_tag_zero_and_its_crc() {
    assert_eq!(encode_command(0, &[]), vec![0x00, crc8(&[0x00])]);
    assert_eq!(encode_command(0, &[]), vec![0x00, 0x00]);
}

#[test]
fn encode_response_appends_the_crc_of_the_result() {
    let frame = encode_response(&ResponseData::I32(1000)).unwrap();
    assert_eq!(frame, vec![0xE8, 0x03, 0x00, 0x00, crc8(&[0xE8, 0x03, 0x00, 0x00])]);
    let frame = encode_response(&ResponseData::Void).unwrap();
    assert_eq!(frame, vec![0x00]);
    let frame = encode_response(&ResponseData::I16(-2)).unwrap();
    assert_eq!(&frame[..2], &[0xFE, 0xFF]);
    let frame = encode_response(&ResponseData::CStr("é".to_string())).unwrap();
    assert_eq!(&frame[..3], &[0xC3, 0xA9, 0x00]);
    assert_eq!(encode_response(&ResponseData::Bool(true)).unwrap(), vec![0x01, crc8(&[0x01])]);
    assert_eq!(encode_response(&ResponseData::Bool(false)).unwrap(), vec![0x00, 0x00]);
}

#[test]
fn command_encoder_writes_little_endian_fields_in_order() {
    let mut encoder = CommandEncoder::new();
    encoder.write_i16(150);
    encoder.write_i32(-1);
    encoder.write_cstring("ab");
    encoder.write_bool(true);
    encoder.write_bool(false);
    encoder.write_i16(i16::MIN);
    encoder.write_i32(i32::MIN);
    encoder.write_i32(i32::MAX);
    assert_eq!(
        encoder.finish(),
        vec![
            0x96, 0x00, 0xFF, 0xFF, 0xFF, 0xFF, b'a', b'b', 0x00, 0x01, 0x00, 0x00, 0x80, 0x00,
            0x00, 0x00, 0x80, 0xFF, 0xFF, 0xFF, 0x7F,
        ]
    );
}

#[test]
fn command_encoder_agrees_with_to_le_bytes() {
    for value in [0i16, 1, -1, 255, 256, -256, 12345, -12345, i16::MAX, i16::MIN] {
        let mut encoder = CommandEncoder::new();
        encoder.write_i16(value);
        assert_eq!(encoder.finish(), value.to_le_bytes().to_vec());
    }
    for value in [0i32, 1, -1, 65535, 65536, -65536, 1_000_000_007, i32::MAX, i32::MIN] {
        let mut encoder = CommandEncoder::new();
        encoder.write_i32(value);
        assert_eq!(encoder.finish(), value.to_le_bytes().to_vec());
    }
}

#[test]
fn response_decoder_reads_fields_by_position() {
    let data = [0x96, 0x00, 0xE8, 0x03, 0x00, 0x00, b'h', b'i', 0x00, 0xFE, 0xFF];
    let mut decoder = ResponseDecoder::new(&data);
    assert_eq!(decoder.remaining(), 11);
    assert_eq!(decoder.read_i16(), Ok(150));
    assert_eq!(decoder.read_i32(), Ok(1000));
    assert_eq!(decoder.read_cstring(), Ok("hi".to_string()));
    assert_eq!(decoder.remaining(), 2);
    assert_eq!(decoder.read_i32(), Err(WireError::ShortI32));
    assert_eq!(decoder.remaining(), 2);
    assert_eq!(decoder.read_i16(), Ok(-2));
    assert_eq!(decoder.read_i16(), Err(WireError::ShortI16));
    assert_eq!(decoder.read_cstring(), Ok(String::new()));
    assert_eq!(decoder.remaining(), 0);
    assert_eq!(decoder.read_bool(), Err(WireError::ShortBool));
    let flags = [0x00, 0x01, 0x7F];
    let mut decoder = ResponseDecoder::new(&flags);
    assert_eq!(decoder.read_bool(), Ok(false));
    assert_eq!(decoder.read_bool(), Ok(true));
    assert_eq!(decoder.read_bool(), Ok(true));
    assert_eq!(decoder.remaining(), 0);
}

#[test]
fn response_decoder_agrees_with_from_le_bytes() {
    for value in [0i16, 1, -1, 255, 256, -256, 12345, -12345, i16::MAX, i16::MIN] {
        let bytes = value.to_le_bytes();
        assert_eq!(ResponseDecoder::new(&bytes).read_i16(), Ok(value));
    }
    for value in [0i32, 1, -1, 65535, 65536, -65536, 1_000_000_007, i32::MAX, i32::MIN] {
        let bytes = value.to_le_bytes();
        assert_eq!(ResponseDecoder::new(&bytes).read_i32(), Ok(value));
    }
}

#[test]
fn read_cstring_stops_at_the_terminator_or_the_end() {
    let data = [b'a', 0x00, b'b', b'c'];
    let mut decoder = ResponseDecoder::new(&data);
    assert_eq!(decoder.read_cstring(), Ok("a".to_string()));
    assert_eq!(decoder.remaining(), 2);
    assert_eq!(decoder.read_cstring(), Ok("bc".to_string()));
    assert_eq!(decoder.remaining(), 0);

    let data = [0x00, b'x'];
    let mut decoder = ResponseDecoder::new(&data);
    assert_eq!(decoder.read_cstring(), Ok(String::new()));
    assert_eq!(decoder.remaining(), 1);
}

#[test]
fn read_cstring_replaces_malformed_utf8() {
    let data = [b'a', 0xFF, b'b', 0x00];
    let mut decoder = ResponseDecoder::new(&data);
    assert_eq!(decoder.read_cstring(), Ok("a\u{FFFD}b".to_string()));
}

#[test]
fn decode_response_of_i32_position() {
    assert_eq!(
        decode_response_by_type(&[0xE8, 0x03, 0x00, 0x00], "i32"),
        Ok("1000".to_string())
    );
}

#[test]
fn decode_response_by_declared_type() {
    assert_eq!(
        decode_response_by_type(&[], "i32"),
        Ok("Command executed successfully".to_string())
    );
    assert_eq!(decode_response_by_type(&[0x96, 0x00], "i16"), Ok("150".to_string()));
    assert_eq!(decode_response_by_type(&[0x00, 0x80], "i16"), Ok("-32768".to_string()));
    assert_eq!(decode_response_by_type(&[0x00, 0x00], "i16"), Ok("0".to_string()));
    assert_eq!(
        decode_response_by_type(&[0x00, 0x00, 0x00, 0x80], "i32"),
        Ok("-2147483648".to_string())
    );
    assert_eq!(decode_response_by_type(&[0x01], "i16"), Err(WireError::ShortI16));
    assert_eq!(decode_response_by_type(&[0x01, 0x02, 0x03], "i32"), Err(WireError::ShortI32));
    assert_eq!(decode_response_by_type(b"uno\0", "CStr"), Ok("uno".to_string()));
    assert_eq!(decode_response_by_type(b"uno", "CStr"), Ok("uno".to_string()));
    assert_eq!(decode_response_by_type(b"uno\0", "f32"), Ok("uno".to_string()));
    assert_eq!(decode_response_by_type(&[0x01], "bool"), Ok("true".to_string()));
    assert_eq!(decode_response_by_type(&[0x00], "bool"), Ok("false".to_string()));
    assert_eq!(decode_response_by_type(&[0x02, 0x00], "bool"), Ok("true".to_string()));
    assert_eq!(WireError::ShortI16.message(), "Not enough data for i16");
    assert_eq!(WireError::ShortI32.message(), "Not enough data for i32");
    assert_eq!(WireError::ShortBool.message(), "Not enough data for bool");
}

#[test]
fn crc8_agrees_with_division_by_the_polynomial() {
    fn reference(data: &[u8]) -> u8 {
        let mut register: u16 = 0;
        for &byte in data {
            for bit in (0..8).rev() {
                register = (register << 1) | ((byte >> bit) & 1) as u16;
                if register & 0x100 != 0 {
                    register ^= 0x107;
                }
            }
        }
        for _ in 0..8 {
            register <<= 1;
            if register & 0x100 != 0 {
                register ^= 0x107;
            }
        }
        register as u8
    }
    let mut seed: u32 = 7;
    for len in 0..64 {
        let mut data = Vec::new();
        for _ in 0..len {
            seed = seed.wrapping_mul(1_664_525).wrapping_add(1_013_904_223);
            data.push((seed >> 24) as u8);
        }
        assert_eq!(crc8(&data), reference(&data));
        let mut framed = data.clone();
        framed.push(crc8(&data));
        assert_eq!(crc8(&framed), 0);
    }
}

#[test]
fn read_cstring_reads_field_after_field() {
    let data = [0x68, 0x69, 0x00, 0x41];
    let mut decoder = ResponseDecoder::new(&data);
    assert_eq!(decoder.read_cstring(), Ok("hi".to_string()));
    assert_eq!(decoder.remaining(), 1);
    assert_eq!(decoder.read_cstring(), Ok("A".to_string()));
    assert_eq!(decoder.remaining(), 0);
    assert_eq!(decoder.read_cstring(), Ok(String::new()));
}

#[test]
fn a_string_that_was_written_is_read_back() {
    for text in ["", "hi", "grüße", "日本語", "a b\tc\n"] {
        let mut encoder = CommandEncoder::new();
        encoder.write_cstring(text);
        encoder.write_i16(7);
        let bytes = encoder.finish();
        let mut decoder = ResponseDecoder::new(&bytes);
        assert_eq!(decoder.read_cstring(), Ok(text.to_string()));
        assert_eq!(decoder.read_i16(), Ok(7));
    }
}
