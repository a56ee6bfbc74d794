use arduino_mcp_adapter::connection::{check_response, ConnectionManager, LinkError};
use arduino_mcp_adapter::crc::crc8;
use arduino_mcp_adapter::json::Json;
use arduino_mcp_adapter::manifest::{Function, Manifest, Parameter};
use arduino_mcp_adapter::protocol::{encode_command, FrameError};
use arduino_mcp_adapter::simulator::{
    error_frame, find_tag, handle_command, parse_arguments, DeviceError, ERROR_CODE_CRC,
    ERROR_CODE_UNKNOWN_TAG,
};
use arduino_mcp_adapter::slip::{slip_encode, SlipDecoder};

fn param(name: &str, param_type: &str) -> Parameter {
    Parameter { name: name.to_string(), param_type: param_type.to_string() }
}

fn function(tag: u8, name: &str, ret: Option<&str>, params: Vec<Parameter>) -> Function {
    Function {
        tag,
        name: name.to_string(),
        desc: String::new(),
        return_type: ret.map(|t| t.to_string()),
        params,
    }
}

fn manifest() -> Manifest {
    Manifest {
        name: "Test robot".to_string(),
        description: String::new(),
        version: "1.0.0".to_string(),
        functions: vec![
            function(3, "setSpeed", None, vec![param("value", "i16")]),
            function(7, "getPosition", Some("i32"), vec![]),
            function(8, "getLevel", Some("i16"), vec![]),
            function(9, "say", Some("CStr"), vec![param("n", "i16"), param("p", "i32"), param("text", "CStr"), param("on", "i16")]),
            function(10, "blink", Some("bool"), vec![param("on", "bool")]),
            function(11, "tune", None, vec![param("gain", "f32")]),
            function(3, "shadowed", Some("i32"), vec![]),
        ],
    }
}

fn with_crc(mut body: Vec<u8>) -> Vec<u8> {
    let crc = crc8(&body);
    body.push(crc);
    body
}

#[test]
fn device_answers_the_identity_query() {
    let response = handle_command(&manifest(), "uno-r3", &[0x00, 0x00]).unwrap();
    assert_eq!(response, with_crc(b"uno-r3\0".to_vec()));
    assert_eq!(response[response.len() - 1], 0xB2);
    assert_eq!(
        ConnectionManager::read_response(&check_response(&response).unwrap()),
        "uno-r3"
    );
}

#[test]
fn device_answers_with_a_stub_of_the_return_type() {
    let m = manifest();
    assert_eq!(handle_command(&m, "uno", &encode_command(3, &[0x96, 0x00])), Ok(vec![0x00]));
    assert_eq!(handle_command(&m, "uno", &encode_command(7, &[])), Ok(with_crc(vec![0, 0, 0, 0])));
    assert_eq!(handle_command(&m, "uno", &encode_command(8, &[])), Ok(with_crc(vec![0, 0])));
    assert_eq!(
        handle_command(&m, "uno", &encode_command(9, &[1, 0, 2, 0, 0, 0, b'x', 0, 3, 0])),
        Ok(with_crc(vec![0]))
    );
}

#[test]
fn device_rejects_what_it_cannot_carry_out() {
    let m = manifest();
    assert_eq!(handle_command(&m, "uno", &[]), Err(DeviceError::Frame(FrameError::Empty)));
    assert_eq!(handle_command(&m, "uno", &[3]), Err(DeviceError::Frame(FrameError::TooShort)));
    assert_eq!(
        handle_command(&m, "uno", &[3, 0x96, 0x00, 0x23]),
        Err(DeviceError::Frame(FrameError::CrcMismatch))
    );
    assert_eq!(
        handle_command(&m, "uno", &encode_command(42, &[])),
        Err(DeviceError::UnknownTag(42))
    );
    assert_eq!(
        handle_command(&m, "uno", &encode_command(3, &[0x96])),
        Err(DeviceError::ShortArgument { parameter: 0 })
    );
    assert_eq!(handle_command(&m, "uno", &encode_command(10, &[1])), Ok(vec![0x00, 0x00]));
    assert_eq!(
        handle_command(&m, "uno", &encode_command(10, &[])),
        Err(DeviceError::ShortArgument { parameter: 0 })
    );
    assert_eq!(
        handle_command(&m, "uno", &encode_command(11, &[1, 2, 3, 4])),
        Err(DeviceError::UnknownParameterType { parameter: 0 })
    );
    assert_eq!(find_tag(&m.functions, 3), 0);
    assert_eq!(find_tag(&m.functions, 10), 4);
    assert_eq!(find_tag(&m.functions, 11), 5);
    assert_eq!(find_tag(&m.functions, 12), 7);
}

#[test]
fn device_errors_have_codes_and_words() {
    assert_eq!(ERROR_CODE_CRC, 0x01);
    assert_eq!(ERROR_CODE_UNKNOWN_TAG, 0x02);
    assert_eq!(DeviceError::UnknownTag(42).code(), 0x02);
    assert_eq!(DeviceError::Frame(FrameError::CrcMismatch).code(), 0x01);
    assert_eq!(DeviceError::ShortArgument { parameter: 1 }.code(), 0x01);
    assert_eq!(DeviceError::UnknownParameterType { parameter: 1 }.code(), 0x01);
    assert_eq!(DeviceError::UnknownTag(42).message(), "Unknown function tag: 42");
    assert_eq!(DeviceError::Frame(FrameError::CrcMismatch).message(), "CRC mismatch");
    assert_eq!(
        DeviceError::ShortArgument { parameter: 2 }.message(),
        "Not enough data for parameter 2"
    );
    assert_eq!(
        DeviceError::UnknownParameterType { parameter: 0 }.message(),
        "Unknown type of parameter 0"
    );
}

#[test]
fn error_frames_are_recognised_by_the_adapter() {
    assert_eq!(error_frame(0x01), vec![0xC0, 0xFF, 0x01, 0xD0, 0xC0]);
    assert_eq!(error_frame(0x02), vec![0xC0, 0xFF, 0x02, 0xD9, 0xC0]);
    for code in [0x01u8, 0x02, 0x7F] {
        let mut decoder = SlipDecoder::new();
        assert_eq!(
            ConnectionManager::read_response_raw(&mut decoder, &error_frame(code)),
            Err(LinkError::Device(code))
        );
    }
}

#[test]
fn arguments_are_read_by_position_and_shown() {
    let m = manifest();
    assert_eq!(
        parse_arguments(&m.functions[3].params, &[0x96, 0x00, 0xE8, 0x03, 0x00, 0x00, b'h', b'i', 0x00, 0xFE, 0xFF]),
        Ok(vec!["150".to_string(), "1000".to_string(), "\"hi\"".to_string(), "-2".to_string()])
    );
    assert_eq!(parse_arguments(&m.functions[1].params, &[1, 2, 3]), Ok(vec![]));
    assert_eq!(
        parse_arguments(&m.functions[3].params, &[0x96, 0x00, 0xE8, 0x03]),
        Err(DeviceError::ShortArgument { parameter: 1 })
    );
    assert_eq!(
        parse_arguments(&m.functions[3].params, &[0x96, 0x00, 0xE8, 0x03, 0x00, 0x00, b'h', b'i']),
        Err(DeviceError::ShortArgument { parameter: 3 })
    );
    assert_eq!(
        parse_arguments(&vec![param("a", "CStr"), param("b", "CStr")], b"one"),
        Ok(vec!["\"one\"".to_string(), "\"\"".to_string()])
    );
    assert_eq!(
        parse_arguments(&vec![param("a", "i16"), param("b", "f32")], &[1, 0]),
        Err(DeviceError::UnknownParameterType { parameter: 1 })
    );
    assert_eq!(
        parse_arguments(&vec![param("a", "bool"), param("b", "bool"), param("c", "bool")], &[0, 5]),
        Err(DeviceError::ShortArgument { parameter: 2 })
    );
    assert_eq!(
        parse_arguments(&vec![param("a", "bool"), param("b", "bool")], &[0, 5]),
        Ok(vec!["false".to_string(), "true".to_string()])
    );
}

#[test]
fn a_call_goes_from_the_adapter_to_the_device_and_back() {
    let m = manifest();
    let mut link = ConnectionManager::new("/dev/ttyUSB0".to_string(), 115200);
    link.check_and_update_connection(true);
    link.handle_event(arduino_mcp_adapter::connection::LinkEvent::OpenSucceeded);
    link.handle_event(arduino_mcp_adapter::connection::LinkEvent::InitializationStarted);
    link.handle_event(arduino_mcp_adapter::connection::LinkEvent::IdentityReceived(
        "uno".to_string(),
    ));
    let args = Json::Object(vec![("value".to_string(), Json::integer(150))]);
    let wire = link.execute_function(&m.functions[0], &args).unwrap();

    let mut device_decoder = SlipDecoder::new();
    let mut frames = Vec::new();
    for &byte in &wire {
        if let Some(frame) = device_decoder.process_byte(byte).unwrap() {
            frames.push(frame);
        }
    }
    assert_eq!(frames, vec![vec![0x03, 0x96, 0x00, 0x22]]);
    let answer = slip_encode(&handle_command(&m, "uno", &frames[0]).unwrap());

    let mut decoder = SlipDecoder::new();
    let payload = ConnectionManager::read_response_raw(&mut decoder, &answer).unwrap().unwrap();
    assert_eq!(
        ConnectionManager::decode_result(&m.functions[0], &payload),
        Ok("Command executed successfully".to_string())
    );
}
