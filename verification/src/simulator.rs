//! The device side of the link, as a stand-in for a real board: it takes a
//! command frame apart, reads the arguments as the manifest declares them,
//! and answers with the identity or with a stub result of the declared
//! return type.

use vstd::prelude::*;
use crate::crc::crc8;
use crate::manifest::{
    functions_view, parameters_view, wire_type, wire_type_of, Function, FunctionView, Manifest,
    ManifestView, Parameter, ParameterView, WireType,
};
use crate::protocol::{
    command_of, cstring_bytes, decode_command, encode_response, i16_from_le, i16_le_bytes,
    i32_from_le, i32_le_bytes, response_payload, FrameError, ReaderView, ResponseData,
    ResponseDecoder,
};
use crate::slip::{slip_encode, slip_encode_spec};
use crate::text::{decimal, decimal_text, str_eq, utf8_lossy};

verus! {

/// Why the device did not carry out a command.
#[derive(Debug, Clone, Copy, PartialEq, Eq, Structural)]
pub enum DeviceError {
    /// The command frame was not accepted.
    Frame(FrameError),
    /// No function of the manifest has this tag.
    UnknownTag(u8),
    /// The argument bytes end before the parameter at this position.
    ShortArgument { parameter: usize },
    /// The parameter at this position has a type that the device cannot
    /// read.
    UnknownParameterType { parameter: usize },
}

/// The code of the error frame by which the device reports a command with a
/// wrong CRC, or one that it could not read.
pub const ERROR_CODE_CRC: u8 = 0x01;

/// The code of the error frame by which the device reports a tag that it
/// does not know.
pub const ERROR_CODE_UNKNOWN_TAG: u8 = 0x02;

impl DeviceError {
    /// The code that the device reports the error by.
    pub open spec fn code_spec(self) -> u8 {
        match self {
            DeviceError::UnknownTag(_) => ERROR_CODE_UNKNOWN_TAG,
            _ => ERROR_CODE_CRC,
        }
    }

    /// The code that the device reports the error by.
    pub fn code(&self) -> (code: u8)
        ensures
            code == self.code_spec(),
    {
        match self {
            DeviceError::UnknownTag(_) => ERROR_CODE_UNKNOWN_TAG,
            _ => ERROR_CODE_CRC,
        }
    }

    /// The error in words.
    pub open spec fn message_spec(self) -> Seq<char> {
        match self {
            DeviceError::Frame(e) => e.message_spec(),
            DeviceError::UnknownTag(tag) => "Unknown function tag: "@ + decimal_text(tag as int),
            DeviceError::ShortArgument { parameter } => "Not enough data for parameter "@
                + decimal_text(parameter as int),
            DeviceError::UnknownParameterType { parameter } => "Unknown type of parameter "@
                + decimal_text(parameter as int),
        }
    }

    /// The error in words.
    pub fn message(&self) -> (text: String)
        ensures
            text@ == self.message_spec(),
    {
        match self {
            DeviceError::Frame(e) => e.message(),
            DeviceError::UnknownTag(tag) => {
                let mut text = String::from_str("Unknown function tag: ");
                let number = decimal(*tag as i64);
                text.append(number.as_str());
                text
            },
            DeviceError::ShortArgument { parameter } => {
                let mut text = String::from_str("Not enough data for parameter ");
                crate::text::push_decimal(&mut text, *parameter as u64);
                text
            },
            DeviceError::UnknownParameterType { parameter } => {
                let mut text = String::from_str("Unknown type of parameter ");
                crate::text::push_decimal(&mut text, *parameter as u64);
                text
            },
        }
    }
}

/// The error frame for a code, as it is written to the wire: the mark
/// `0xFF`, the code and their CRC, framed.
pub open spec fn error_frame_spec(code: u8) -> Seq<u8> {
    slip_encode_spec(response_payload(seq![0xFFu8, code]))
}

/// Builds the error frame for a code.
pub fn error_frame(code: u8) -> (frame: Vec<u8>)
    ensures
        frame@ == error_frame_spec(code),
{
    let mut payload: Vec<u8> = Vec::new();
    payload.push(0xFF);
    payload.push(code);
    proof {
        assert(payload@ =~= seq![0xFFu8, code]);
    }
    let crc = crc8(payload.as_slice());
    payload.push(crc);
    slip_encode(payload.as_slice())
}

/// How far the reading of arguments has come: the arguments read so far, as
/// they are shown, and the position in the argument bytes.
pub struct Progress {
    pub shown: Seq<Seq<char>>,
    pub pos: int,
}

/// Reads the argument for parameter `p`, which is at position `index`, from
/// position `pos` of `data`: an integer is shown in decimal, a boolean as
/// `true` or `false`, a string in double quotes.
pub open spec fn read_argument(p: ParameterView, index: usize, data: Seq<u8>, pos: int)
    -> Result<(Seq<char>, int), DeviceError> {
    let reader = ReaderView { data, pos };
    let rest = reader.remaining();
    match wire_type_of(p.param_type) {
        WireType::I16 => {
            if rest.len() < 2 {
                Err(DeviceError::ShortArgument { parameter: index })
            } else {
                Ok((decimal_text(i16_from_le(rest[0], rest[1])), pos + 2))
            }
        },
        WireType::I32 => {
            if rest.len() < 4 {
                Err(DeviceError::ShortArgument { parameter: index })
            } else {
                Ok((decimal_text(i32_from_le(rest[0], rest[1], rest[2], rest[3])), pos + 4))
            }
        },
        WireType::CStr => Ok(
            (
                "\""@ + utf8_lossy(reader.cstring_field()) + "\""@,
                pos + reader.cstring_width(),
            ),
        ),
        WireType::Bool => {
            if rest.len() < 1 {
                Err(DeviceError::ShortArgument { parameter: index })
            } else if rest[0] != 0 {
                Ok(("true"@, pos + 1))
            } else {
                Ok(("false"@, pos + 1))
            }
        },
        WireType::Other => Err(DeviceError::UnknownParameterType { parameter: index }),
    }
}

/// Reads the arguments for the first `n` parameters from `data`, in order.
pub open spec fn read_arguments(params: Seq<ParameterView>, data: Seq<u8>, n: int) -> Result<
    Progress,
    DeviceError,
>
    decreases n,
{
    if n <= 0 {
        Ok(Progress { shown: Seq::empty(), pos: 0 })
    } else {
        match read_arguments(params, data, n - 1) {
            Err(e) => Err(e),
            Ok(progress) => match read_argument(
                params[n - 1],
                (n - 1) as usize,
                data,
                progress.pos,
            ) {
                Err(e) => Err(e),
                Ok((text, pos)) => Ok(Progress { shown: progress.shown.push(text), pos }),
            },
        }
    }
}

/// Once the reading of arguments has failed, it has failed for good.
pub proof fn lemma_read_failure_stays(
    params: Seq<ParameterView>,
    data: Seq<u8>,
    n: int,
    m: int,
)
    requires
        0 <= n <= m,
        read_arguments(params, data, n) is Err,
    ensures
        read_arguments(params, data, m) == read_arguments(params, data, n),
    decreases m - n,
{
    if n < m {
        lemma_read_failure_stays(params, data, n, m - 1);
    }
}

/// What `parse_arguments` returned, as a value.
pub open spec fn shown_view(result: Result<Vec<String>, DeviceError>) -> Result<
    Seq<Seq<char>>,
    DeviceError,
> {
    match result {
        Ok(texts) => Ok(crate::text::strings_view(texts@)),
        Err(e) => Err(e),
    }
}

/// The arguments that were read, or why they could not be.
pub open spec fn shown_arguments(params: Seq<ParameterView>, data: Seq<u8>) -> Result<
    Seq<Seq<char>>,
    DeviceError,
> {
    match read_arguments(params, data, params.len() as int) {
        Ok(progress) => Ok(progress.shown),
        Err(e) => Err(e),
    }
}

/// Reads the argument bytes of a command as the parameters declare them,
/// and returns each argument as it is shown in the log.
pub fn parse_arguments(params: &Vec<Parameter>, args: &[u8]) -> (result: Result<
    Vec<String>,
    DeviceError,
>)
    ensures
        shown_view(result) == shown_arguments(parameters_view(params@), args@),
{
    let ghost views = parameters_view(params@);
    let mut shown: Vec<String> = Vec::new();
    let mut decoder = ResponseDecoder::new(args);
    let mut i: usize = 0;
    proof {
        assert(crate::text::strings_view(shown@) =~= Seq::<Seq<char>>::empty());
    }
    while i < params.len()
        invariant
            i <= params.len(),
            views == parameters_view(params@),
            decoder@.data == args@,
            shown.len() == i,
            read_arguments(views, args@, i as int) == Ok::<Progress, DeviceError>(
                Progress { shown: crate::text::strings_view(shown@), pos: decoder@.pos },
            ),
        decreases params.len() - i,
    {
        let ghost before = crate::text::strings_view(shown@);
        proof {
            assert(views[i as int] == params@[i as int]@);
        }
        match wire_type(params[i].param_type.as_str()) {
            WireType::I16 => {
                match decoder.read_i16() {
                    Ok(value) => {
                        shown.push(decimal(value as i64));
                    },
                    Err(_) => {
                        proof {
                            lemma_read_failure_stays(views, args@, i + 1, views.len() as int);
                        }
                        return Err(DeviceError::ShortArgument { parameter: i });
                    },
                }
            },
            WireType::I32 => {
                match decoder.read_i32() {
                    Ok(value) => {
                        shown.push(decimal(value as i64));
                    },
                    Err(_) => {
                        proof {
                            lemma_read_failure_stays(views, args@, i + 1, views.len() as int);
                        }
                        return Err(DeviceError::ShortArgument { parameter: i });
                    },
                }
            },
            WireType::CStr => {
                match decoder.read_cstring() {
                    Ok(value) => {
                        let mut text = String::from_str("\"");
                        text.append(value.as_str());
                        text.append("\"");
                        shown.push(text);
                    },
                    Err(_) => {
                        proof {
                            lemma_read_failure_stays(views, args@, i + 1, views.len() as int);
                        }
                        return Err(DeviceError::ShortArgument { parameter: i });
                    },
                }
            },
            WireType::Bool => {
                match decoder.read_bool() {
                    Ok(value) => {
                        shown.push(
                            if value {
                                String::from_str("true")
                            } else {
                                String::from_str("false")
                            },
                        );
                    },
                    Err(_) => {
                        proof {
                            lemma_read_failure_stays(views, args@, i + 1, views.len() as int);
                        }
                        return Err(DeviceError::ShortArgument { parameter: i });
                    },
                }
            },
            WireType::Other => {
                proof {
                    lemma_read_failure_stays(views, args@, i + 1, views.len() as int);
                }
                return Err(DeviceError::UnknownParameterType { parameter: i });
            },
        }
        proof {
            assert(crate::text::strings_view(shown@) =~= before.push(shown@[i as int]@));
        }
        i = i + 1;
    }
    Ok(shown)
}

/// The position of the first function with tag `tag`, or the number of
/// functions if there is none.
pub open spec fn tag_index(functions: Seq<FunctionView>, tag: u8) -> int
    decreases functions.len(),
{
    if functions.len() == 0 {
        0
    } else if functions[0].tag == tag {
        0
    } else {
        1 + tag_index(functions.drop_first(), tag)
    }
}

/// The first function with that tag is within the functions where there is
/// one, and no function before it has the tag.
pub proof fn lemma_tag_index(functions: Seq<FunctionView>, tag: u8)
    ensures
        0 <= tag_index(functions, tag) <= functions.len(),
        forall|i: int| 0 <= i < tag_index(functions, tag) ==> (#[trigger] functions[i]).tag != tag,
        tag_index(functions, tag) < functions.len() ==> functions[tag_index(functions, tag)].tag
            == tag,
    decreases functions.len(),
{
    if functions.len() > 0 && functions[0].tag != tag {
        let rest = functions.drop_first();
        lemma_tag_index(rest, tag);
        let at = tag_index(functions, tag);
        assert forall|i: int| 0 <= i < at implies (#[trigger] functions[i]).tag != tag by {
            if i > 0 {
                assert(functions[i] == rest[i - 1]);
            }
        }
        if at < functions.len() {
            assert(functions[at] == rest[at - 1]);
        }
    }
}

/// The position of the first function with tag `tag`, or the number of
/// functions if there is none.
pub fn find_tag(functions: &Vec<Function>, tag: u8) -> (at: usize)
    ensures
        at == tag_index(functions_view(functions@), tag),
        at <= functions.len(),
{
    let ghost views = functions_view(functions@);
    let mut i: usize = 0;
    while i < functions.len()
        invariant
            i <= functions.len(),
            views == functions_view(functions@),
            forall|k: int| 0 <= k < i ==> (#[trigger] views[k]).tag != tag,
        decreases functions.len() - i,
    {
        if functions[i].tag == tag {
            proof {
                assert(views[i as int].tag == tag);
                lemma_tag_index(views, tag);
            }
            return i;
        }
        proof {
            assert(views[i as int].tag != tag);
        }
        i = i + 1;
    }
    proof {
        lemma_tag_index(views, tag);
    }
    i
}

/// The result bytes of the stub answer for a declared return type: zero
/// for an integer, false for a boolean, the empty string for anything else,
/// nothing for a function that returns nothing.
pub open spec fn stub_result(return_type: Option<Seq<char>>) -> Seq<u8> {
    match return_type {
        None => Seq::empty(),
        Some(t) => {
            if t == "i16"@ {
                i16_le_bytes(0)
            } else if t == "i32"@ {
                i32_le_bytes(0)
            } else if t == "bool"@ {
                seq![0u8]
            } else {
                cstring_bytes(Seq::empty())
            }
        },
    }
}

/// The payload of the response frame that the device answers a command
/// frame with: the identity for tag 0, and a stub result for a function of
/// the manifest whose arguments can be read.
pub open spec fn command_response(m: ManifestView, device_id: Seq<char>, frame: Seq<u8>)
    -> Result<Seq<u8>, DeviceError> {
    match command_of(frame) {
        Err(e) => Err(DeviceError::Frame(e)),
        Ok((tag, args)) => {
            if tag == 0 {
                Ok(response_payload(cstring_bytes(device_id)))
            } else {
                let at = tag_index(m.functions, tag);
                if at >= m.functions.len() {
                    Err(DeviceError::UnknownTag(tag))
                } else {
                    match shown_arguments(m.functions[at].params, args) {
                        Err(e) => Err(e),
                        Ok(_) => Ok(response_payload(stub_result(m.functions[at].return_type))),
                    }
                }
            }
        },
    }
}

/// What `handle_command` returned, as a value.
pub open spec fn response_view(result: Result<Vec<u8>, DeviceError>) -> Result<
    Seq<u8>,
    DeviceError,
> {
    match result {
        Ok(payload) => Ok(payload@),
        Err(e) => Err(e),
    }
}

/// Answers a command frame as a device with this manifest and identity.
pub fn handle_command(manifest: &Manifest, device_id: &str, frame: &[u8]) -> (result: Result<
    Vec<u8>,
    DeviceError,
>)
    ensures
        response_view(result) == command_response(manifest@, device_id@, frame@),
{
    proof {
        assert(manifest@.functions =~= functions_view(manifest.functions@));
    }
    let (tag, args) = match decode_command(frame) {
        Ok(command) => command,
        Err(e) => {
            return Err(DeviceError::Frame(e));
        },
    };
    if tag == 0 {
        return match encode_response(&ResponseData::CStr(String::from_str(device_id))) {
            Ok(payload) => Ok(payload),
            Err(e) => Err(DeviceError::Frame(e)),
        };
    }
    let at = find_tag(&manifest.functions, tag);
    if at >= manifest.functions.len() {
        return Err(DeviceError::UnknownTag(tag));
    }
    let func = &manifest.functions[at];
    proof {
        assert(manifest@.functions[at as int].params =~= parameters_view(func.params@));
    }
    match parse_arguments(&func.params, args) {
        Ok(_) => {},
        Err(e) => {
            return Err(e);
        },
    }
    let response_data = match &func.return_type {
        None => ResponseData::Void,
        Some(t) => {
            if str_eq(t.as_str(), "i16") {
                ResponseData::I16(0)
            } else if str_eq(t.as_str(), "i32") {
                ResponseData::I32(0)
            } else if str_eq(t.as_str(), "bool") {
                ResponseData::Bool(false)
            } else {
                ResponseData::CStr(String::new())
            }
        },
    };
    match encode_response(&response_data) {
        Ok(payload) => Ok(payload),
        Err(e) => Err(DeviceError::Frame(e)),
    }
}

} // verus!
