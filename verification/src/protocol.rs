//! The wire codec: typed fields in a frame payload, and the payload layouts
//! of command and response frames. Integers are little-endian and of fixed
//! width, strings are UTF-8 with a zero terminator, and nothing carries a
//! length: a reader goes by position and declared type.

use vstd::prelude::*;
use vstd::slice::slice_subrange;
use vstd::utf8::*;
use crate::crc::{crc8, crc8_spec};
use crate::text::{decimal, decimal_text, lossy_text, utf8_lossy};

verus! {

/// The 16-bit signed integer whose little-endian bytes are `b0`, `b1`.
pub open spec fn i16_from_le(b0: u8, b1: u8) -> int {
    let unsigned = b0 as int + 256 * (b1 as int);
    if unsigned >= 32768 {
        unsigned - 65536
    } else {
        unsigned
    }
}

/// The 32-bit signed integer whose little-endian bytes are `b0` to `b3`.
pub open spec fn i32_from_le(b0: u8, b1: u8, b2: u8, b3: u8) -> int {
    let unsigned = b0 as int + 256 * (b1 as int) + 65536 * (b2 as int) + 16777216 * (b3 as int);
    if unsigned >= 2147483648 {
        unsigned - 4294967296
    } else {
        unsigned
    }
}

/// The little-endian bytes of a 16-bit signed integer.
pub open spec fn i16_le_bytes(v: i16) -> Seq<u8> {
    let unsigned = if v < 0 {
        v as int + 65536
    } else {
        v as int
    };
    seq![(unsigned % 256) as u8, (unsigned / 256) as u8]
}

/// The little-endian bytes of a 32-bit signed integer.
pub open spec fn i32_le_bytes(v: i32) -> Seq<u8> {
    let unsigned = if v < 0 {
        v as int + 4294967296
    } else {
        v as int
    };
    seq![
        (unsigned % 256) as u8,
        (unsigned / 256 % 256) as u8,
        (unsigned / 65536 % 256) as u8,
        (unsigned / 16777216) as u8,
    ]
}

/// The bytes of a string field: its UTF-8 bytes and a zero terminator.
pub open spec fn cstring_bytes(text: Seq<char>) -> Seq<u8> {
    encode_utf8(text).push(0u8)
}

/// The index of the first zero byte of `bytes`, or its length if it has none.
pub open spec fn cstring_end(bytes: Seq<u8>) -> int
    decreases bytes.len(),
{
    if bytes.len() == 0 {
        0
    } else if bytes[0] == 0 {
        0
    } else {
        1 + cstring_end(bytes.drop_first())
    }
}

/// Reading the bytes of a 16-bit integer gives the integer back.
pub proof fn lemma_i16_le_roundtrip(v: i16)
    ensures
        i16_le_bytes(v).len() == 2,
        i16_from_le(i16_le_bytes(v)[0], i16_le_bytes(v)[1]) == v,
{
}

/// Reading the bytes of a 32-bit integer gives the integer back.
pub proof fn lemma_i32_le_roundtrip(v: i32)
    ensures
        i32_le_bytes(v).len() == 4,
        i32_from_le(
            i32_le_bytes(v)[0],
            i32_le_bytes(v)[1],
            i32_le_bytes(v)[2],
            i32_le_bytes(v)[3],
        ) == v,
{
}

/// The first zero byte is within the bytes, and nothing before it is zero.
pub proof fn lemma_cstring_end(bytes: Seq<u8>)
    ensures
        0 <= cstring_end(bytes) <= bytes.len(),
        forall|i: int| 0 <= i < cstring_end(bytes) ==> bytes[i] != 0,
        cstring_end(bytes) < bytes.len() ==> bytes[cstring_end(bytes)] == 0,
    decreases bytes.len(),
{
    if bytes.len() > 0 && bytes[0] != 0 {
        let rest = bytes.drop_first();
        lemma_cstring_end(rest);
        assert forall|i: int| 0 <= i < cstring_end(bytes) implies bytes[i] != 0 by {
            if i > 0 {
                assert(bytes[i] == rest[i - 1]);
            }
        }
    }
}

/// Why a typed field could not be read.
#[derive(Debug, Clone, Copy, PartialEq, Eq, Structural)]
pub enum WireError {
    /// Fewer than two bytes were left for a 16-bit integer.
    ShortI16,
    /// Fewer than four bytes were left for a 32-bit integer.
    ShortI32,
    /// No byte was left for a boolean.
    ShortBool,
}

impl WireError {
    /// The error in words.
    pub open spec fn message_spec(self) -> Seq<char> {
        match self {
            WireError::ShortI16 => "Not enough data for i16"@,
            WireError::ShortI32 => "Not enough data for i32"@,
            WireError::ShortBool => "Not enough data for bool"@,
        }
    }

    /// The error in words.
    pub fn message(&self) -> (text: String)
        ensures
            text@ == self.message_spec(),
    {
        match self {
            WireError::ShortI16 => String::from_str("Not enough data for i16"),
            WireError::ShortI32 => String::from_str("Not enough data for i32"),
            WireError::ShortBool => String::from_str("Not enough data for bool"),
        }
    }
}

/// A reader at a position in a payload.
pub struct ReaderView {
    pub data: Seq<u8>,
    pub pos: int,
}

impl ReaderView {
    /// The bytes not yet read.
    pub open spec fn remaining(self) -> Seq<u8> {
        self.data.subrange(self.pos, self.data.len() as int)
    }

    /// The reader `n` bytes further on.
    pub open spec fn advance(self, n: int) -> ReaderView {
        ReaderView { data: self.data, pos: self.pos + n }
    }

    /// The bytes of the string field at the position, without terminator.
    pub open spec fn cstring_field(self) -> Seq<u8> {
        self.remaining().take(cstring_end(self.remaining()))
    }

    /// How many bytes the string field at the position takes: its bytes, and
    /// the terminator where there is one.
    pub open spec fn cstring_width(self) -> int {
        let end = cstring_end(self.remaining());
        if end < self.remaining().len() {
            end + 1
        } else {
            end
        }
    }
}

/// A reader of typed fields from a payload, one after another.
pub struct ResponseDecoder<'a> {
    data: &'a [u8],
    pos: usize,
}

impl<'a> View for ResponseDecoder<'a> {
    type V = ReaderView;

    closed spec fn view(&self) -> ReaderView {
        ReaderView { data: self.data@, pos: self.pos as int }
    }
}

impl<'a> ResponseDecoder<'a> {
    #[verifier::type_invariant]
    spec fn in_bounds(&self) -> bool {
        self.pos <= self.data@.len()
    }

    /// A reader at the beginning of `data`.
    pub fn new(data: &'a [u8]) -> (decoder: Self)
        ensures
            decoder@ == (ReaderView { data: data@, pos: 0 }),
    {
        ResponseDecoder { data, pos: 0 }
    }

    /// The number of bytes not yet read.
    pub fn remaining(&self) -> (n: usize)
        ensures
            0 <= self@.pos <= self@.data.len(),
            n == self@.data.len() - self@.pos,
    {
        proof {
            use_type_invariant(self);
        }
        self.data.len() - self.pos
    }

    /// Reads a 16-bit integer: two bytes, low byte first.
    pub fn read_i16(&mut self) -> (result: Result<i16, WireError>)
        ensures
            0 <= old(self)@.pos <= old(self)@.data.len(),
            match result {
                Ok(value) => {
                    &&& old(self)@.remaining().len() >= 2
                    &&& value == i16_from_le(old(self)@.remaining()[0], old(self)@.remaining()[1])
                    &&& final(self)@ == old(self)@.advance(2)
                },
                Err(e) => {
                    &&& old(self)@.remaining().len() < 2
                    &&& e == WireError::ShortI16
                    &&& final(self)@ == old(self)@
                },
            },
    {
        proof {
            use_type_invariant(&*self);
        }
        if self.data.len() - self.pos < 2 {
            return Err(WireError::ShortI16);
        }
        let b0 = self.data[self.pos];
        let b1 = self.data[self.pos + 1];
        let unsigned: u32 = b0 as u32 + 256 * (b1 as u32);
        let value: i16 = if unsigned >= 32768 {
            (unsigned as i32 - 65536) as i16
        } else {
            unsigned as i16
        };
        self.pos = self.pos + 2;
        Ok(value)
    }

    /// Reads a 32-bit integer: four bytes, low byte first.
    pub fn read_i32(&mut self) -> (result: Result<i32, WireError>)
        ensures
            0 <= old(self)@.pos <= old(self)@.data.len(),
            match result {
                Ok(value) => {
                    &&& old(self)@.remaining().len() >= 4
                    &&& value == i32_from_le(
                        old(self)@.remaining()[0],
                        old(self)@.remaining()[1],
                        old(self)@.remaining()[2],
                        old(self)@.remaining()[3],
                    )
                    &&& final(self)@ == old(self)@.advance(4)
                },
                Err(e) => {
                    &&& old(self)@.remaining().len() < 4
                    &&& e == WireError::ShortI32
                    &&& final(self)@ == old(self)@
                },
            },
    {
        proof {
            use_type_invariant(&*self);
        }
        if self.data.len() - self.pos < 4 {
            return Err(WireError::ShortI32);
        }
        let b0 = self.data[self.pos];
        let b1 = self.data[self.pos + 1];
        let b2 = self.data[self.pos + 2];
        let b3 = self.data[self.pos + 3];
        let unsigned: u64 = b0 as u64 + 256 * (b1 as u64) + 65536 * (b2 as u64) + 16777216 * (
        b3 as u64);
        let value: i32 = if unsigned >= 2147483648 {
            (unsigned as i64 - 4294967296) as i32
        } else {
            unsigned as i32
        };
        self.pos = self.pos + 4;
        Ok(value)
    }

    /// Reads a boolean: one byte, which is false if it is zero.
    pub fn read_bool(&mut self) -> (result: Result<bool, WireError>)
        ensures
            0 <= old(self)@.pos <= old(self)@.data.len(),
            match result {
                Ok(value) => {
                    &&& old(self)@.remaining().len() >= 1
                    &&& value == (old(self)@.remaining()[0] != 0)
                    &&& final(self)@ == old(self)@.advance(1)
                },
                Err(e) => {
                    &&& old(self)@.remaining().len() < 1
                    &&& e == WireError::ShortBool
                    &&& final(self)@ == old(self)@
                },
            },
    {
        proof {
            use_type_invariant(&*self);
        }
        if self.data.len() - self.pos < 1 {
            return Err(WireError::ShortBool);
        }
        let value = self.data[self.pos] != 0;
        self.pos = self.pos + 1;
        Ok(value)
    }

    /// Reads a string field: the bytes up to the first zero byte, or to the
    /// end of the payload where there is none, decoded leniently: bytes
    /// that are well-formed UTF-8 give their text. The terminator is
    /// skipped.
    pub fn read_cstring(&mut self) -> (result: Result<String, WireError>)
        ensures
            0 <= old(self)@.pos <= old(self)@.data.len(),
            result matches Ok(text) && text@ == utf8_lossy(old(self)@.cstring_field()),
            valid_utf8(old(self)@.cstring_field()) ==> text_result_view(result) == Ok::<
                Seq<char>,
                WireError,
            >(decode_utf8(old(self)@.cstring_field())),
            final(self)@ == old(self)@.advance(old(self)@.cstring_width()),
    {
        proof {
            use_type_invariant(&*self);
            lemma_cstring_end(self@.remaining());
        }
        let start = self.pos;
        let mut end = self.pos;
        while end < self.data.len() && self.data[end] != 0
            invariant
                start <= end <= self.data@.len(),
                forall|i: int| start <= i < end ==> self.data@[i] != 0,
            decreases self.data@.len() - end,
        {
            end = end + 1;
        }
        proof {
            lemma_first_zero(self.data@.subrange(start as int, self.data@.len() as int), end - start);
        }
        let field = slice_subrange(self.data, start, end);
        proof {
            assert(field@ =~= self@.cstring_field());
        }
        let text = lossy_text(field);
        if end < self.data.len() {
            self.pos = end + 1;
        } else {
            self.pos = end;
        }
        Ok(text)
    }
}

/// A string that was written is read back: where the UTF-8 bytes of a text
/// hold no zero byte, the field that a reader finds at the beginning of the
/// written bytes is those bytes, terminator and all are taken, and the
/// bytes decode to the text.
pub proof fn lemma_cstring_roundtrip(text: Seq<char>, after: Seq<u8>)
    requires
        forall|i: int| 0 <= i < encode_utf8(text).len() ==> encode_utf8(text)[i] != 0,
    ensures
        (ReaderView { data: cstring_bytes(text) + after, pos: 0 }).cstring_field() == encode_utf8(
            text,
        ),
        (ReaderView { data: cstring_bytes(text) + after, pos: 0 }).cstring_width() == encode_utf8(
            text,
        ).len() + 1,
        valid_utf8(encode_utf8(text)),
        decode_utf8(encode_utf8(text)) == text,
{
    let bytes = encode_utf8(text);
    let data = cstring_bytes(text) + after;
    let reader = ReaderView { data, pos: 0 };
    assert(reader.remaining() =~= data);
    assert forall|i: int| 0 <= i < bytes.len() implies data[i] != 0 by {
        assert(data[i] == bytes[i]);
    }
    assert(data[bytes.len() as int] == 0);
    lemma_first_zero(data, bytes.len() as int);
    assert(data.take(bytes.len() as int) =~= bytes);
    encode_utf8_valid_utf8(text);
    encode_utf8_decode_utf8(text);
}

/// An index with no zero byte before it, which is the end of the bytes or
/// holds a zero byte, is the first zero byte.
pub proof fn lemma_first_zero(bytes: Seq<u8>, end: int)
    requires
        0 <= end <= bytes.len(),
        forall|i: int| 0 <= i < end ==> bytes[i] != 0,
        end < bytes.len() ==> bytes[end] == 0,
    ensures
        cstring_end(bytes) == end,
    decreases bytes.len(),
{
    if bytes.len() > 0 && bytes[0] != 0 {
        let rest = bytes.drop_first();
        assert forall|i: int| 0 <= i < end - 1 implies rest[i] != 0 by {
            assert(rest[i] == bytes[i + 1]);
        }
        lemma_first_zero(rest, end - 1);
    }
}

/// A writer of typed fields, one after another.
pub struct CommandEncoder {
    data: Vec<u8>,
}

impl View for CommandEncoder {
    type V = Seq<u8>;

    closed spec fn view(&self) -> Seq<u8> {
        self.data@
    }
}

impl CommandEncoder {
    /// A writer that has written nothing.
    pub fn new() -> (encoder: Self)
        ensures
            encoder@ == Seq::<u8>::empty(),
    {
        CommandEncoder { data: Vec::new() }
    }

    /// Writes a 16-bit integer: two bytes, low byte first.
    pub fn write_i16(&mut self, value: i16)
        ensures
            final(self)@ == old(self)@ + i16_le_bytes(value),
    {
        let unsigned: u32 = if value < 0 {
            (value as i32 + 65536) as u32
        } else {
            value as u32
        };
        self.data.push((unsigned % 256) as u8);
        self.data.push((unsigned / 256) as u8);
        proof {
            assert(self.data@ =~= old(self).data@ + i16_le_bytes(value));
        }
    }

    /// Writes a 32-bit integer: four bytes, low byte first.
    pub fn write_i32(&mut self, value: i32)
        ensures
            final(self)@ == old(self)@ + i32_le_bytes(value),
    {
        let unsigned: u64 = if value < 0 {
            (value as i64 + 4294967296) as u64
        } else {
            value as u64
        };
        self.data.push((unsigned % 256) as u8);
        self.data.push((unsigned / 256 % 256) as u8);
        self.data.push((unsigned / 65536 % 256) as u8);
        self.data.push((unsigned / 16777216) as u8);
        proof {
            assert(self.data@ =~= old(self).data@ + i32_le_bytes(value));
        }
    }

    /// Writes a string: its UTF-8 bytes and a zero byte.
    pub fn write_cstring(&mut self, value: &str)
        ensures
            final(self)@ == old(self)@ + cstring_bytes(value@),
    {
        self.data.extend_from_slice(value.as_bytes());
        self.data.push(0);
        proof {
            assert(self.data@ =~= old(self).data@ + cstring_bytes(value@));
        }
    }

    /// One byte: `1` for true and `0` for false.
    pub fn write_bool(&mut self, value: bool)
        ensures
            final(self)@ == old(self)@.push(
                if value {
                    1u8
                } else {
                    0u8
                },
            ),
    {
        self.data.push(
            if value {
                1
            } else {
                0
            },
        );
    }

    /// The bytes that were written.
    pub fn finish(self) -> (data: Vec<u8>)
        ensures
            data@ == self@,
    {
        self.data
    }
}

/// Whether a return type is read as a string field: every type but `i16`,
/// `i32` and `bool`.
pub open spec fn reads_as_string(return_type: Seq<char>) -> bool {
    return_type != "i16"@ && return_type != "i32"@ && return_type != "bool"@
}

/// What a response payload says, read as the declared return type: a
/// 16-bit or 32-bit integer in decimal, a boolean as `true` or `false`, or
/// else a string field. An empty payload is the answer of a call that
/// returns nothing.
pub open spec fn response_text(data: Seq<u8>, return_type: Seq<char>) -> Result<
    Seq<char>,
    WireError,
> {
    let reader = ReaderView { data, pos: 0 };
    if data.len() == 0 {
        Ok("Command executed successfully"@)
    } else if return_type == "i16"@ {
        if data.len() < 2 {
            Err(WireError::ShortI16)
        } else {
            Ok(decimal_text(i16_from_le(data[0], data[1])))
        }
    } else if return_type == "i32"@ {
        if data.len() < 4 {
            Err(WireError::ShortI32)
        } else {
            Ok(decimal_text(i32_from_le(data[0], data[1], data[2], data[3])))
        }
    } else if return_type == "bool"@ {
        if data[0] != 0 {
            Ok("true"@)
        } else {
            Ok("false"@)
        }
    } else {
        Ok(utf8_lossy(reader.cstring_field()))
    }
}

/// What a result of text means as a value.
pub open spec fn text_result_view(result: Result<String, WireError>) -> Result<
    Seq<char>,
    WireError,
> {
    match result {
        Ok(text) => Ok(text@),
        Err(e) => Err(e),
    }
}

/// Decodes a response payload by the declared return type. A string
/// result that is well-formed UTF-8 is its text.
pub fn decode_response_by_type(data: &[u8], return_type: &str) -> (result: Result<
    String,
    WireError,
>)
    ensures
        text_result_view(result) == response_text(data@, return_type@),
        data@.len() > 0 && reads_as_string(return_type@) && valid_utf8(
            (ReaderView { data: data@, pos: 0 }).cstring_field(),
        ) ==> text_result_view(result) == Ok::<Seq<char>, WireError>(
            decode_utf8((ReaderView { data: data@, pos: 0 }).cstring_field()),
        ),
{
    if data.len() == 0 {
        return Ok(String::from_str("Command executed successfully"));
    }
    let mut decoder = ResponseDecoder::new(data);
    proof {
        assert(decoder@.remaining() =~= data@);
    }
    if crate::text::str_eq(return_type, "i16") {
        match decoder.read_i16() {
            Ok(value) => Ok(decimal(value as i64)),
            Err(e) => Err(e),
        }
    } else if crate::text::str_eq(return_type, "i32") {
        match decoder.read_i32() {
            Ok(value) => Ok(decimal(value as i64)),
            Err(e) => Err(e),
        }
    } else if crate::text::str_eq(return_type, "bool") {
        match decoder.read_bool() {
            Ok(value) => Ok(
                if value {
                    String::from_str("true")
                } else {
                    String::from_str("false")
                },
            ),
            Err(e) => Err(e),
        }
    } else {
        decoder.read_cstring()
    }
}

/// Why a frame payload was not accepted.
#[derive(Debug, Clone, Copy, PartialEq, Eq, Structural)]
pub enum FrameError {
    /// The payload has no byte at all.
    Empty,
    /// The payload is too short to hold what it must besides the CRC.
    TooShort,
    /// The last byte is not the CRC of the bytes before it.
    CrcMismatch,
}

impl FrameError {
    /// The error in words.
    pub open spec fn message_spec(self) -> Seq<char> {
        match self {
            FrameError::Empty => "Empty command frame"@,
            FrameError::TooShort => "Command frame too short (need at least tag + CRC)"@,
            FrameError::CrcMismatch => "CRC mismatch"@,
        }
    }

    /// The error in words.
    pub fn message(&self) -> (text: String)
        ensures
            text@ == self.message_spec(),
    {
        match self {
            FrameError::Empty => String::from_str("Empty command frame"),
            FrameError::TooShort => String::from_str(
                "Command frame too short (need at least tag + CRC)",
            ),
            FrameError::CrcMismatch => String::from_str("CRC mismatch"),
        }
    }
}

/// The payload of a command frame: the tag, the argument bytes, and the CRC
/// of both.
pub open spec fn command_payload(tag: u8, args: Seq<u8>) -> Seq<u8> {
    (seq![tag] + args).push(crc8_spec(seq![tag] + args))
}

/// The tag and the argument bytes of a command payload, if it is one.
pub open spec fn command_of(frame: Seq<u8>) -> Result<(u8, Seq<u8>), FrameError> {
    if frame.len() == 0 {
        Err(FrameError::Empty)
    } else if frame.len() < 2 {
        Err(FrameError::TooShort)
    } else if crc8_spec(frame.drop_last()) != frame.last() {
        Err(FrameError::CrcMismatch)
    } else {
        Ok((frame[0], frame.subrange(1, frame.len() - 1)))
    }
}

/// What `decode_command` returned, as a value.
pub open spec fn command_view(result: Result<(u8, &[u8]), FrameError>) -> Result<
    (u8, Seq<u8>),
    FrameError,
> {
    match result {
        Ok((tag, args)) => Ok((tag, args@)),
        Err(e) => Err(e),
    }
}

/// Builds the payload of a command frame.
pub fn encode_command(tag: u8, args: &[u8]) -> (payload: Vec<u8>)
    ensures
        payload@ == command_payload(tag, args@),
{
    let mut payload: Vec<u8> = Vec::new();
    payload.push(tag);
    payload.extend_from_slice(args);
    proof {
        assert(payload@ =~= seq![tag] + args@);
    }
    let crc = crc8(payload.as_slice());
    payload.push(crc);
    payload
}

/// Checks the CRC of a command payload and takes it apart into the tag and
/// the argument bytes.
pub fn decode_command(frame: &[u8]) -> (result: Result<(u8, &[u8]), FrameError>)
    ensures
        command_view(result) == command_of(frame@),
{
    if frame.len() == 0 {
        return Err(FrameError::Empty);
    }
    if frame.len() < 2 {
        return Err(FrameError::TooShort);
    }
    let body_len: usize = frame.len() - 1;
    let body = slice_subrange(frame, 0, body_len);
    proof {
        assert(body@ =~= frame@.drop_last());
    }
    if crc8(body) != frame[body_len] {
        return Err(FrameError::CrcMismatch);
    }
    let args = slice_subrange(frame, 1, body_len);
    Ok((frame[0], args))
}

/// A command payload that was built from a tag and arguments is taken
/// apart into the same tag and arguments.
pub proof fn lemma_command_roundtrip(tag: u8, args: Seq<u8>)
    ensures
        command_of(command_payload(tag, args)) == Ok::<(u8, Seq<u8>), FrameError>((tag, args)),
{
    let body = seq![tag] + args;
    let frame = command_payload(tag, args);
    assert(frame.drop_last() =~= body);
    assert(frame.subrange(1, frame.len() - 1) =~= args);
}

/// What a device answers.
#[derive(Debug, Clone, PartialEq, Eq)]
pub enum ResponseData {
    Void,
    I16(i16),
    I32(i32),
    CStr(String),
    Bool(bool),
}

impl ResponseData {
    /// The bytes of the answer, before the CRC.
    pub open spec fn payload(&self) -> Seq<u8> {
        match self {
            ResponseData::Void => Seq::empty(),
            ResponseData::I16(v) => i16_le_bytes(*v),
            ResponseData::I32(v) => i32_le_bytes(*v),
            ResponseData::CStr(text) => cstring_bytes(text@),
            ResponseData::Bool(b) => seq![
                if *b {
                    1u8
                } else {
                    0u8
                },
            ],
        }
    }
}

/// The payload of a response frame: the result bytes and their CRC.
pub open spec fn response_payload(result: Seq<u8>) -> Seq<u8> {
    result.push(crc8_spec(result))
}

/// Builds the payload of a response frame. It never fails.
pub fn encode_response(response_data: &ResponseData) -> (result: Result<Vec<u8>, FrameError>)
    ensures
        result matches Ok(frame) && frame@ == response_payload(response_data.payload()),
{
    let mut encoder = CommandEncoder::new();
    match response_data {
        ResponseData::Void => {},
        ResponseData::I16(value) => {
            encoder.write_i16(*value);
        },
        ResponseData::I32(value) => {
            encoder.write_i32(*value);
        },
        ResponseData::CStr(text) => {
            encoder.write_cstring(text.as_str());
        },
        ResponseData::Bool(b) => {
            encoder.write_bool(*b);
        },
    }
    let mut frame = encoder.finish();
    proof {
        assert(frame@ =~= response_data.payload());
    }
    let crc = crc8(frame.as_slice());
    frame.push(crc);
    Ok(frame)
}

} // verus!
