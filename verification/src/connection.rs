//! The serial link: the states of the connection to the device, the
//! supervisor's decisions (what each event makes of the state, and what has
//! to be done next), and the one exchange that a call is on the wire, a
//! command frame out and a response frame in.

use vstd::prelude::*;
use vstd::utf8::{decode_utf8, encode_utf8, valid_utf8};
use crate::arguments::{arguments_bytes, encode_arguments};
use crate::crc::{crc8, crc8_spec};
use crate::json::{Json, JsonView};
use crate::manifest::{Function, FunctionView};
use crate::protocol::{
    command_payload, decode_response_by_type, encode_command, reads_as_string, response_text,
    text_result_view, ReaderView, ResponseDecoder, WireError,
};
use crate::slip::{
    slip_encode, slip_encode_spec, DecoderView, SlipDecoder, SlipError, SlipEvent,
};
use crate::text::{
    contains, contains_bytes, debug_quoted, hex_byte_text, push_hex_byte, quote_debug,
    utf8_lossy,
};

verus! {

/// The state of the link to the device.
#[derive(Debug, Clone, PartialEq, Eq)]
pub enum RobotState {
    /// No serial device is there.
    Disconnected,
    /// The device is there and is being opened.
    Connecting,
    /// The device is open and its identity is not known.
    Connected,
    /// The identity query is under way.
    Initializing,
    /// The device answered with this identity and takes calls.
    Ready(String),
    /// The link failed in this way; it is opened again at the next tick.
    Error(String),
}

/// The state of the link as a mathematical value.
pub enum StateView {
    Disconnected,
    Connecting,
    Connected,
    Initializing,
    Ready(Seq<char>),
    Error(Seq<char>),
}

impl View for RobotState {
    type V = StateView;

    open spec fn view(&self) -> StateView {
        match self {
            RobotState::Disconnected => StateView::Disconnected,
            RobotState::Connecting => StateView::Connecting,
            RobotState::Connected => StateView::Connected,
            RobotState::Initializing => StateView::Initializing,
            RobotState::Ready(id) => StateView::Ready(id@),
            RobotState::Error(msg) => StateView::Error(msg@),
        }
    }
}

impl StateView {
    /// The identity of the device, if the link is ready.
    pub open spec fn device_id(self) -> Option<Seq<char>> {
        match self {
            StateView::Ready(id) => Some(id),
            _ => None,
        }
    }

    /// The state in words, for a client.
    pub open spec fn message(self) -> Seq<char> {
        match self {
            StateView::Disconnected => "Robot not connected - check USB connection"@,
            StateView::Connecting => "Robot is connecting - please wait"@,
            StateView::Connected => "Robot connected but not initialized"@,
            StateView::Initializing => "Robot is initializing - please wait"@,
            StateView::Ready(_) => "Robot is ready"@,
            StateView::Error(msg) => "Robot error: "@ + msg,
        }
    }

    /// The state as it is shown in status answers: the name of the case,
    /// with the identity or the failure quoted in brackets behind it.
    pub open spec fn label(self) -> Seq<char> {
        match self {
            StateView::Disconnected => "Disconnected"@,
            StateView::Connecting => "Connecting"@,
            StateView::Connected => "Connected"@,
            StateView::Initializing => "Initializing"@,
            StateView::Ready(id) => "Ready("@ + debug_quoted(id) + ")"@,
            StateView::Error(msg) => "Error("@ + debug_quoted(msg) + ")"@,
        }
    }
}

impl RobotState {
    /// Whether the device takes calls.
    pub fn is_ready(&self) -> (ready: bool)
        ensures
            ready == (self@ is Ready),
    {
        match self {
            RobotState::Ready(_) => true,
            _ => false,
        }
    }

    /// The identity of the device, if the link is ready.
    pub fn device_id(&self) -> (id: Option<&str>)
        ensures
            crate::json::opt_str_view(id) == self@.device_id(),
    {
        match self {
            RobotState::Ready(id) => Some(id.as_str()),
            _ => None,
        }
    }

    /// The state in words, for a client.
    pub fn error_message(&self) -> (text: String)
        ensures
            text@ == self@.message(),
    {
        match self {
            RobotState::Disconnected => String::from_str(
                "Robot not connected - check USB connection",
            ),
            RobotState::Connecting => String::from_str("Robot is connecting - please wait"),
            RobotState::Connected => String::from_str("Robot connected but not initialized"),
            RobotState::Initializing => String::from_str("Robot is initializing - please wait"),
            RobotState::Ready(_) => String::from_str("Robot is ready"),
            RobotState::Error(msg) => {
                let mut text = String::from_str("Robot error: ");
                text.append(msg.as_str());
                text
            },
        }
    }

    /// The state as it is shown in status answers.
    pub fn label(&self) -> (text: String)
        ensures
            text@ == self@.label(),
    {
        match self {
            RobotState::Disconnected => String::from_str("Disconnected"),
            RobotState::Connecting => String::from_str("Connecting"),
            RobotState::Connected => String::from_str("Connected"),
            RobotState::Initializing => String::from_str("Initializing"),
            RobotState::Ready(id) => {
                let mut text = String::from_str("Ready(");
                let quoted = quote_debug(id.as_str());
                text.append(quoted.as_str());
                text.append(")");
                text
            },
            RobotState::Error(msg) => {
                let mut text = String::from_str("Error(");
                let quoted = quote_debug(msg.as_str());
                text.append(quoted.as_str());
                text.append(")");
                text
            },
        }
    }

    /// A copy of the state.
    pub fn duplicate(&self) -> (copy: RobotState)
        ensures
            copy@ == self@,
    {
        match self {
            RobotState::Disconnected => RobotState::Disconnected,
            RobotState::Connecting => RobotState::Connecting,
            RobotState::Connected => RobotState::Connected,
            RobotState::Initializing => RobotState::Initializing,
            RobotState::Ready(id) => RobotState::Ready(id.clone()),
            RobotState::Error(msg) => RobotState::Error(msg.clone()),
        }
    }
}

/// What happened on the link, as the supervisor is told.
#[derive(Debug, Clone, PartialEq, Eq)]
pub enum LinkEvent {
    /// The periodic check found the device node there, or not.
    Tick { device_present: bool },
    /// The device was opened.
    OpenSucceeded,
    /// The device could not be opened, for this reason.
    OpenFailed(String),
    /// The identity query is about to be made.
    InitializationStarted,
    /// The device answered the identity query.
    IdentityReceived(String),
    /// The identity query failed, for this reason.
    IdentityFailed(String),
    /// The liveness probe on the open handle failed.
    ProbeFailed,
    /// A write or a read failed during a call, for this reason.
    TransportFailed(String),
}

/// An event as a mathematical value.
pub enum EventView {
    Tick { device_present: bool },
    OpenSucceeded,
    OpenFailed(Seq<char>),
    InitializationStarted,
    IdentityReceived(Seq<char>),
    IdentityFailed(Seq<char>),
    ProbeFailed,
    TransportFailed(Seq<char>),
}

impl View for LinkEvent {
    type V = EventView;

    open spec fn view(&self) -> EventView {
        match self {
            LinkEvent::Tick { device_present } => EventView::Tick {
                device_present: *device_present,
            },
            LinkEvent::OpenSucceeded => EventView::OpenSucceeded,
            LinkEvent::OpenFailed(msg) => EventView::OpenFailed(msg@),
            LinkEvent::InitializationStarted => EventView::InitializationStarted,
            LinkEvent::IdentityReceived(id) => EventView::IdentityReceived(id@),
            LinkEvent::IdentityFailed(msg) => EventView::IdentityFailed(msg@),
            LinkEvent::ProbeFailed => EventView::ProbeFailed,
            LinkEvent::TransportFailed(msg) => EventView::TransportFailed(msg@),
        }
    }
}

/// What the supervisor has to do after an event.
#[derive(Debug, Clone, Copy, PartialEq, Eq, Structural)]
pub enum LinkAction {
    /// Nothing.
    Nothing,
    /// Open the device, and report `OpenSucceeded` or `OpenFailed`.
    OpenPort,
    /// Report `InitializationStarted`.
    BeginInitialization,
    /// Wait three seconds for the device to boot, send the identity query,
    /// and report `IdentityReceived` or `IdentityFailed`.
    QueryIdentity,
    /// If a handle is open, write zero bytes to it, and report `ProbeFailed`
    /// if that fails.
    Probe,
    /// Close the handle.
    CloseHandle,
}

/// The seconds to wait after opening the device before the identity query.
pub const BOOT_DELAY_SECS: u64 = 3;

/// The seconds between two periodic checks.
pub const TICK_SECS: u64 = 5;

/// The milliseconds after which a read on the device gives up.
pub const READ_TIMEOUT_MILLIS: u64 = 1000;

/// The seconds after which a call stops waiting for the response frame.
pub const RESPONSE_TIMEOUT_SECS: u64 = 10;

/// The transition function of the link: the state after `event`, and what
/// has to be done. An event that has no meaning in a state leaves it.
pub open spec fn transition(state: StateView, event: EventView) -> (StateView, LinkAction) {
    match event {
        EventView::Tick { device_present } => {
            if !device_present {
                if state is Disconnected {
                    (state, LinkAction::Nothing)
                } else {
                    (StateView::Disconnected, LinkAction::CloseHandle)
                }
            } else if state is Disconnected || state is Error {
                (StateView::Connecting, LinkAction::OpenPort)
            } else {
                (state, LinkAction::Probe)
            }
        },
        EventView::OpenSucceeded => {
            if state is Connecting {
                (StateView::Connected, LinkAction::BeginInitialization)
            } else {
                (state, LinkAction::Nothing)
            }
        },
        EventView::OpenFailed(msg) => {
            if state is Connecting {
                (StateView::Error(msg), LinkAction::Nothing)
            } else {
                (state, LinkAction::Nothing)
            }
        },
        EventView::InitializationStarted => {
            if state is Connected {
                (StateView::Initializing, LinkAction::QueryIdentity)
            } else {
                (state, LinkAction::Nothing)
            }
        },
        EventView::IdentityReceived(id) => {
            if state is Initializing {
                (StateView::Ready(id), LinkAction::Nothing)
            } else {
                (state, LinkAction::Nothing)
            }
        },
        EventView::IdentityFailed(msg) => {
            if state is Initializing {
                (StateView::Error("Failed to get device ID: "@ + msg), LinkAction::CloseHandle)
            } else {
                (state, LinkAction::Nothing)
            }
        },
        EventView::ProbeFailed => {
            if state is Disconnected {
                (state, LinkAction::Nothing)
            } else {
                (StateView::Disconnected, LinkAction::CloseHandle)
            }
        },
        EventView::TransportFailed(msg) => {
            if state is Ready {
                (StateView::Error(msg), LinkAction::CloseHandle)
            } else {
                (state, LinkAction::Nothing)
            }
        },
    }
}

/// The state after the first `n` of `events`, from `start`.
pub open spec fn state_after(start: StateView, events: Seq<EventView>, n: int) -> StateView
    decreases n,
{
    if n <= 0 {
        start
    } else {
        transition(state_after(start, events, n - 1), events[n - 1]).0
    }
}

/// Why the device could not be opened, as the serial driver classifies it.
#[derive(Debug, Clone, Copy, PartialEq, Eq, Structural)]
pub enum OpenErrorKind {
    NoDevice,
    InvalidInput,
    Unknown,
    Io,
}

/// The message for a failure to open the device. A failure of unknown kind
/// whose description speaks of a port that is busy or in use is reported as
/// a busy port.
pub open spec fn open_error_text(kind: OpenErrorKind, description: Seq<char>) -> Seq<char> {
    match kind {
        OpenErrorKind::NoDevice => "Device not found"@,
        OpenErrorKind::InvalidInput => "Invalid device path"@,
        OpenErrorKind::Unknown => {
            if contains_bytes(encode_utf8(description), encode_utf8("busy"@)) || contains_bytes(
                encode_utf8(description),
                encode_utf8("in use"@),
            ) {
                "Serial port is busy - close other applications using this port"@
            } else {
                "Connection failed: "@ + description
            }
        },
        OpenErrorKind::Io => "Serial port error: "@ + description,
    }
}

/// The message for a failure to open the device.
pub fn open_error_message(kind: OpenErrorKind, description: &str) -> (text: String)
    ensures
        text@ == open_error_text(kind, description@),
{
    match kind {
        OpenErrorKind::NoDevice => String::from_str("Device not found"),
        OpenErrorKind::InvalidInput => String::from_str("Invalid device path"),
        OpenErrorKind::Unknown => {
            if contains(description.as_bytes(), "busy".as_bytes()) || contains(
                description.as_bytes(),
                "in use".as_bytes(),
            ) {
                String::from_str("Serial port is busy - close other applications using this port")
            } else {
                let mut text = String::from_str("Connection failed: ");
                text.append(description);
                text
            }
        },
        OpenErrorKind::Io => {
            let mut text = String::from_str("Serial port error: ");
            text.append(description);
            text
        },
    }
}

/// Why an exchange on the link failed after the command was written.
#[derive(Debug, Clone, Copy, PartialEq, Eq, Structural)]
pub enum LinkError {
    /// The decoder rejected a byte.
    Framing(SlipError),
    /// The frame has no byte, so not even a CRC.
    FrameTooShort,
    /// The last byte of the frame is not the CRC of the bytes before it.
    CrcMismatch,
    /// The device answered with an error frame that holds this code.
    Device(u8),
}

/// The first byte of an error frame of the device.
pub const DEVICE_ERROR_MARK: u8 = 0xFF;

/// The code by which the device reports a command with a wrong CRC.
pub const DEVICE_ERROR_CRC: u8 = 0x01;

/// The code by which the device reports a tag that it does not know.
pub const DEVICE_ERROR_UNKNOWN_TAG: u8 = 0x02;

/// What a response frame holds: its result bytes, when its last byte is the
/// CRC of the bytes before it and it is no error frame of the device. An
/// error frame is the mark `0xFF` and a code, before the CRC. Nothing else
/// tells an error frame from a result of two bytes: a 16-bit result whose
/// low byte is `0xFF`, such as -1, 255 or 511, is read as an error frame
/// whose code is its high byte.
pub open spec fn response_of(frame: Seq<u8>) -> Result<Seq<u8>, LinkError> {
    if frame.len() < 1 {
        Err(LinkError::FrameTooShort)
    } else if crc8_spec(frame.drop_last()) != frame.last() {
        Err(LinkError::CrcMismatch)
    } else if frame.len() == 3 && frame[0] == DEVICE_ERROR_MARK {
        Err(LinkError::Device(frame[1]))
    } else {
        Ok(frame.drop_last())
    }
}

/// What an exchange gave, as a value.
pub open spec fn payload_view(result: Result<Vec<u8>, LinkError>) -> Result<Seq<u8>, LinkError> {
    match result {
        Ok(payload) => Ok(payload@),
        Err(e) => Err(e),
    }
}

/// Checks the CRC of a response frame and strips it.
pub fn check_response(frame: &[u8]) -> (result: Result<Vec<u8>, LinkError>)
    ensures
        payload_view(result) == response_of(frame@),
{
    if frame.len() < 1 {
        return Err(LinkError::FrameTooShort);
    }
    let body_len: usize = frame.len() - 1;
    let body = vstd::slice::slice_subrange(frame, 0, body_len);
    proof {
        assert(body@ =~= frame@.drop_last());
    }
    if crc8(body) != frame[body_len] {
        return Err(LinkError::CrcMismatch);
    }
    if frame.len() == 3 && frame[0] == DEVICE_ERROR_MARK {
        return Err(LinkError::Device(frame[1]));
    }
    Ok(vstd::slice::slice_to_vec(body))
}

/// What feeding `bytes` to a decoder gives when the feeding stops at the
/// first byte that completes a frame or is rejected: the decoder then, and
/// what the frame held or why the exchange failed. Bytes after that one are
/// not fed. Where no byte completes a frame or is rejected, all are fed and
/// nothing is reported yet.
pub open spec fn await_response(d: DecoderView, bytes: Seq<u8>) -> (
    DecoderView,
    Option<Result<Seq<u8>, LinkError>>,
)
    decreases bytes.len(),
{
    if bytes.len() == 0 {
        (d, None)
    } else {
        let (next, event) = d.step(bytes[0]);
        match event {
            SlipEvent::Nothing => await_response(next, bytes.drop_first()),
            SlipEvent::Frame(frame) => (next, Some(response_of(frame))),
            SlipEvent::Failed(e) => (next, Some(Err(LinkError::Framing(e)))),
        }
    }
}

/// What a chunk of bytes gave, as a value.
pub open spec fn chunk_view(result: Result<Option<Vec<u8>>, LinkError>) -> Option<
    Result<Seq<u8>, LinkError>,
> {
    match result {
        Ok(None) => None,
        Ok(Some(payload)) => Some(Ok(payload@)),
        Err(e) => Some(Err(e)),
    }
}

/// Feeding `bytes` from position `i` on gives what feeding all of them
/// gives, when the bytes before `i` led to decoder `mid` and reported
/// nothing.
proof fn lemma_await_skip(d: DecoderView, bytes: Seq<u8>, i: int)
    requires
        0 <= i <= bytes.len(),
        forall|k: int| 0 <= k < i ==> (#[trigger] d.feed(bytes.take(k)).step(bytes[k])).1
            is Nothing,
    ensures
        await_response(d, bytes) == await_response(d.feed(bytes.take(i)), bytes.skip(i)),
    decreases i,
{
    if i == 0 {
        assert(bytes.take(0) =~= Seq::<u8>::empty());
        assert(bytes.skip(0) =~= bytes);
    } else {
        lemma_await_skip(d, bytes, i - 1);
        let mid = d.feed(bytes.take(i - 1));
        let rest = bytes.skip(i - 1);
        assert(rest[0] == bytes[i - 1]);
        assert(rest.drop_first() =~= bytes.skip(i));
        assert(bytes.take(i).drop_last() =~= bytes.take(i - 1));
        assert(bytes.take(i).last() == bytes[i - 1]);
        assert(d.feed(bytes.take(i)) == mid.step(bytes[i - 1]).0);
    }
}

/// What came of the exchange on the link.
#[derive(Debug, Clone, PartialEq, Eq)]
pub enum Exchange {
    /// The response frame was good and held these result bytes.
    Payload(Vec<u8>),
    /// The response was not accepted.
    Rejected(LinkError),
    /// Writing or reading failed, for this reason.
    TransportFailed(String),
}

/// What came of an exchange, as a mathematical value.
pub enum ExchangeView {
    Payload(Seq<u8>),
    Rejected(LinkError),
    TransportFailed(Seq<char>),
}

impl View for Exchange {
    type V = ExchangeView;

    open spec fn view(&self) -> ExchangeView {
        match self {
            Exchange::Payload(payload) => ExchangeView::Payload(payload@),
            Exchange::Rejected(e) => ExchangeView::Rejected(*e),
            Exchange::TransportFailed(msg) => ExchangeView::TransportFailed(msg@),
        }
    }
}

/// What a read on the device gave.
#[derive(Debug, Clone, PartialEq, Eq)]
pub enum ReadOutcome {
    /// These bytes were read.
    Data(Vec<u8>),
    /// The read returned without bytes.
    Nothing,
    /// The read gave up after its timeout.
    TimedOut,
    /// The read failed, for this reason.
    Failed(String),
}

/// What a read gave, as a mathematical value.
pub enum ReadView {
    Data(Seq<u8>),
    Nothing,
    TimedOut,
    Failed(Seq<char>),
}

impl View for ReadOutcome {
    type V = ReadView;

    open spec fn view(&self) -> ReadView {
        match self {
            ReadOutcome::Data(bytes) => ReadView::Data(bytes@),
            ReadOutcome::Nothing => ReadView::Nothing,
            ReadOutcome::TimedOut => ReadView::TimedOut,
            ReadOutcome::Failed(detail) => ReadView::Failed(detail@),
        }
    }
}

/// What follows a read during an exchange.
#[derive(Debug, Clone, PartialEq, Eq)]
pub enum ExchangeStep {
    /// Read again.
    ReadAgain,
    /// The exchange is over, with this outcome.
    Done(Exchange),
}

/// What follows a read, as a mathematical value.
pub enum StepView {
    ReadAgain,
    Done(ExchangeView),
}

impl View for ExchangeStep {
    type V = StepView;

    open spec fn view(&self) -> StepView {
        match self {
            ExchangeStep::ReadAgain => StepView::ReadAgain,
            ExchangeStep::Done(exchange) => StepView::Done(exchange@),
        }
    }
}

/// The message for a write that failed.
pub open spec fn write_failure_text(detail: Seq<char>) -> Seq<char> {
    "Serial write error: "@ + detail
}

/// The message for a read that failed.
pub open spec fn read_failure_text(detail: Seq<char>) -> Seq<char> {
    "Serial read error: "@ + detail
}

/// The message for a device that did not answer in time.
pub open spec fn response_timeout_text() -> Seq<char> {
    "No response from the device within "@ + crate::text::decimal_digits(
        RESPONSE_TIMEOUT_SECS as nat,
    ) + " seconds"@
}

/// What follows when a read completed no frame, after `waited_secs` seconds
/// of waiting for the response: another read, until the time is up.
pub open spec fn keep_waiting(waited_secs: u64) -> StepView {
    if waited_secs >= RESPONSE_TIMEOUT_SECS {
        StepView::Done(ExchangeView::TransportFailed(response_timeout_text()))
    } else {
        StepView::ReadAgain
    }
}

/// What follows a read during an exchange, and the decoder after it. Bytes
/// that were read are fed to the decoder up to the first frame, which ends
/// the exchange with its result bytes or with the reason why it is not
/// accepted. A read that timed out or gave no bytes is made again, as is
/// one whose bytes completed no frame, until the time is up. A read that
/// failed ends the exchange.
pub open spec fn exchange_step_of(d: DecoderView, waited_secs: u64, outcome: ReadView) -> (
    DecoderView,
    StepView,
) {
    match outcome {
        ReadView::Data(bytes) => {
            let (next, found) = await_response(d, bytes);
            match found {
                Some(Ok(payload)) => (next, StepView::Done(ExchangeView::Payload(payload))),
                Some(Err(e)) => (next, StepView::Done(ExchangeView::Rejected(e))),
                None => (next, keep_waiting(waited_secs)),
            }
        },
        ReadView::Nothing => (d, keep_waiting(waited_secs)),
        ReadView::TimedOut => (d, keep_waiting(waited_secs)),
        ReadView::Failed(detail) => (
            d,
            StepView::Done(ExchangeView::TransportFailed(read_failure_text(detail))),
        ),
    }
}

/// The event that the outcome of the identity query is for the supervisor.
pub open spec fn identity_event_of(exchange: ExchangeView) -> EventView {
    match exchange {
        ExchangeView::Payload(payload) => EventView::IdentityReceived(identity_of(payload)),
        ExchangeView::Rejected(e) => EventView::IdentityFailed(e.message_spec()),
        ExchangeView::TransportFailed(message) => EventView::IdentityFailed(message),
    }
}

/// The link to the device as the supervisor keeps it: the path and the
/// speed of the serial device, and the state of the link.
pub struct ConnectionManager {
    line_path: String,
    baud_rate: u32,
    state: RobotState,
}

impl ConnectionManager {
    /// The state of the link.
    pub closed spec fn state(&self) -> StateView {
        self.state@
    }

    /// The path of the serial device.
    pub closed spec fn path(&self) -> Seq<char> {
        self.line_path@
    }

    /// The speed of the serial device.
    pub closed spec fn baud(&self) -> u32 {
        self.baud_rate
    }

    /// A link to the serial device at `line_path`, disconnected.
    pub fn new(line_path: String, baud_rate: u32) -> (manager: Self)
        ensures
            manager.state() == StateView::Disconnected,
            manager.path() == line_path@,
            manager.baud() == baud_rate,
    {
        ConnectionManager { line_path, baud_rate, state: RobotState::Disconnected }
    }

    /// The path of the serial device.
    pub fn line_path(&self) -> (path: &str)
        ensures
            path@ == self.path(),
    {
        self.line_path.as_str()
    }

    /// The speed of the serial device.
    pub fn baud_rate(&self) -> (baud: u32)
        ensures
            baud == self.baud(),
    {
        self.baud_rate
    }

    /// A snapshot of the state of the link.
    pub fn get_state(&self) -> (state: RobotState)
        ensures
            state@ == self.state(),
    {
        self.state.duplicate()
    }

    /// Takes an event in: the state changes as the transition function
    /// says, and what has to be done next is returned.
    pub fn handle_event(&mut self, event: LinkEvent) -> (action: LinkAction)
        ensures
            final(self).state() == transition(old(self).state(), event@).0,
            action == transition(old(self).state(), event@).1,
            final(self).path() == old(self).path(),
            final(self).baud() == old(self).baud(),
    {
        match event {
            LinkEvent::Tick { device_present } => {
                if !device_present {
                    match self.state {
                        RobotState::Disconnected => LinkAction::Nothing,
                        _ => {
                            self.state = RobotState::Disconnected;
                            LinkAction::CloseHandle
                        },
                    }
                } else {
                    match self.state {
                        RobotState::Disconnected => {
                            self.state = RobotState::Connecting;
                            LinkAction::OpenPort
                        },
                        RobotState::Error(_) => {
                            self.state = RobotState::Connecting;
                            LinkAction::OpenPort
                        },
                        _ => LinkAction::Probe,
                    }
                }
            },
            LinkEvent::OpenSucceeded => {
                match self.state {
                    RobotState::Connecting => {
                        self.state = RobotState::Connected;
                        LinkAction::BeginInitialization
                    },
                    _ => LinkAction::Nothing,
                }
            },
            LinkEvent::OpenFailed(msg) => {
                match self.state {
                    RobotState::Connecting => {
                        self.state = RobotState::Error(msg);
                        LinkAction::Nothing
                    },
                    _ => LinkAction::Nothing,
                }
            },
            LinkEvent::InitializationStarted => {
                match self.state {
                    RobotState::Connected => {
                        self.state = RobotState::Initializing;
                        LinkAction::QueryIdentity
                    },
                    _ => LinkAction::Nothing,
                }
            },
            LinkEvent::IdentityReceived(id) => {
                match self.state {
                    RobotState::Initializing => {
                        self.state = RobotState::Ready(id);
                        LinkAction::Nothing
                    },
                    _ => LinkAction::Nothing,
                }
            },
            LinkEvent::IdentityFailed(msg) => {
                match self.state {
                    RobotState::Initializing => {
                        let mut text = String::from_str("Failed to get device ID: ");
                        text.append(msg.as_str());
                        self.state = RobotState::Error(text);
                        LinkAction::CloseHandle
                    },
                    _ => LinkAction::Nothing,
                }
            },
            LinkEvent::ProbeFailed => {
                match self.state {
                    RobotState::Disconnected => LinkAction::Nothing,
                    _ => {
                        self.state = RobotState::Disconnected;
                        LinkAction::CloseHandle
                    },
                }
            },
            LinkEvent::TransportFailed(msg) => {
                match self.state {
                    RobotState::Ready(_) => {
                        self.state = RobotState::Error(msg);
                        LinkAction::CloseHandle
                    },
                    _ => LinkAction::Nothing,
                }
            },
        }
    }

    /// The periodic check: reconciles the state with whether the device
    /// node is there, and says what has to be done next.
    pub fn check_and_update_connection(&mut self, device_present: bool) -> (action: LinkAction)
        ensures
            final(self).state() == transition(
                old(self).state(),
                EventView::Tick { device_present },
            ).0,
            action == transition(old(self).state(), EventView::Tick { device_present }).1,
            final(self).path() == old(self).path(),
            final(self).baud() == old(self).baud(),
    {
        self.handle_event(LinkEvent::Tick { device_present })
    }

    /// Feeds a chunk of bytes that was read from the device to the decoder,
    /// up to the first frame. Returns the result bytes of the frame, or
    /// `None` when the chunk completed no frame and more has to be read.
    pub fn read_response_raw(decoder: &mut SlipDecoder, chunk: &[u8]) -> (result: Result<
        Option<Vec<u8>>,
        LinkError,
    >)
        ensures
            final(decoder)@ == await_response(old(decoder)@, chunk@).0,
            chunk_view(result) == await_response(old(decoder)@, chunk@).1,
    {
        let mut i: usize = 0;
        while i < chunk.len()
            invariant
                i <= chunk.len(),
                decoder@ == old(decoder)@.feed(chunk@.take(i as int)),
                forall|k: int|
                    0 <= k < i ==> (#[trigger] old(decoder)@.feed(chunk@.take(k)).step(
                        chunk@[k],
                    )).1 is Nothing,
            decreases chunk.len() - i,
        {
            proof {
                lemma_await_skip(old(decoder)@, chunk@, i as int);
                assert(chunk@.skip(i as int)[0] == chunk@[i as int]);
                assert(chunk@.take(i + 1).drop_last() =~= chunk@.take(i as int));
            }
            match decoder.process_byte(chunk[i]) {
                Ok(None) => {},
                Ok(Some(frame)) => {
                    return match check_response(frame.as_slice()) {
                        Ok(payload) => Ok(Some(payload)),
                        Err(e) => Err(e),
                    };
                },
                Err(e) => {
                    return Err(LinkError::Framing(e));
                },
            }
            i = i + 1;
        }
        proof {
            lemma_await_skip(old(decoder)@, chunk@, i as int);
            assert(chunk@.skip(i as int) =~= Seq::<u8>::empty());
        }
        Ok(None)
    }
}

impl LinkError {
    /// The error in words.
    pub open spec fn message_spec(self) -> Seq<char> {
        match self {
            LinkError::Framing(e) => e.message_spec(),
            LinkError::FrameTooShort => "Frame too short"@,
            LinkError::CrcMismatch => "CRC mismatch in response"@,
            LinkError::Device(code) => {
                if code == DEVICE_ERROR_CRC {
                    "Device reported error 0x01 (CRC mismatch)"@
                } else if code == DEVICE_ERROR_UNKNOWN_TAG {
                    "Device reported error 0x02 (unknown tag)"@
                } else {
                    "Device reported error 0x"@ + hex_byte_text(code)
                }
            },
        }
    }

    /// The error in words.
    pub fn message(&self) -> (text: String)
        ensures
            text@ == self.message_spec(),
    {
        match self {
            LinkError::Framing(e) => e.message(),
            LinkError::FrameTooShort => String::from_str("Frame too short"),
            LinkError::CrcMismatch => String::from_str("CRC mismatch in response"),
            LinkError::Device(code) => {
                if *code == DEVICE_ERROR_CRC {
                    String::from_str("Device reported error 0x01 (CRC mismatch)")
                } else if *code == DEVICE_ERROR_UNKNOWN_TAG {
                    String::from_str("Device reported error 0x02 (unknown tag)")
                } else {
                    let mut text = String::from_str("Device reported error 0x");
                    push_hex_byte(&mut text, *code);
                    text
                }
            },
        }
    }
}

/// The frame that is written for a command: the tag, the argument bytes and
/// their CRC, framed for the wire.
pub open spec fn command_frame(tag: u8, args: Seq<u8>) -> Seq<u8> {
    slip_encode_spec(command_payload(tag, args))
}

/// The frame that is written for a call of `func` with `args`.
pub open spec fn call_frame(func: FunctionView, args: JsonView) -> Seq<u8> {
    command_frame(func.tag, arguments_bytes(func.params, args, func.params.len() as int))
}

/// The frame of the identity query: tag 0, no arguments.
pub open spec fn identity_query_frame() -> Seq<u8> {
    command_frame(0, Seq::empty())
}

/// The text that the result bytes of a call of `func` stand for: they are
/// read as the declared return type, and a function that declares none
/// answers with the words for success.
pub open spec fn result_text(func: FunctionView, payload: Seq<u8>) -> Result<
    Seq<char>,
    WireError,
> {
    match func.return_type {
        Some(t) => response_text(payload, t),
        None => Ok("Command executed successfully"@),
    }
}

/// The identity that the result bytes of the identity query stand for.
pub open spec fn identity_of(payload: Seq<u8>) -> Seq<char> {
    utf8_lossy((ReaderView { data: payload, pos: 0 }).cstring_field())
}

/// What `execute_function` returned, as a value.
pub open spec fn frame_view(result: Result<Vec<u8>, String>) -> Result<Seq<u8>, Seq<char>> {
    match result {
        Ok(frame) => Ok(frame@),
        Err(msg) => Err(msg@),
    }
}

impl ConnectionManager {
    /// What follows when a read completed no frame.
    fn keep_waiting(waited_secs: u64) -> (step: ExchangeStep)
        ensures
            step@ == keep_waiting(waited_secs),
    {
        if waited_secs >= RESPONSE_TIMEOUT_SECS {
            let mut text = String::from_str("No response from the device within ");
            crate::text::push_decimal(&mut text, RESPONSE_TIMEOUT_SECS);
            text.append(" seconds");
            ExchangeStep::Done(Exchange::TransportFailed(text))
        } else {
            ExchangeStep::ReadAgain
        }
    }

    /// Decides what follows a read during an exchange; `waited_secs` is the
    /// time since the command was written.
    pub fn exchange_step(decoder: &mut SlipDecoder, waited_secs: u64, outcome: &ReadOutcome) -> (step:
        ExchangeStep)
        ensures
            final(decoder)@ == exchange_step_of(old(decoder)@, waited_secs, outcome@).0,
            step@ == exchange_step_of(old(decoder)@, waited_secs, outcome@).1,
    {
        match outcome {
            ReadOutcome::Data(bytes) => {
                match ConnectionManager::read_response_raw(decoder, bytes.as_slice()) {
                    Ok(Some(payload)) => ExchangeStep::Done(Exchange::Payload(payload)),
                    Ok(None) => ConnectionManager::keep_waiting(waited_secs),
                    Err(e) => ExchangeStep::Done(Exchange::Rejected(e)),
                }
            },
            ReadOutcome::Nothing => ConnectionManager::keep_waiting(waited_secs),
            ReadOutcome::TimedOut => ConnectionManager::keep_waiting(waited_secs),
            ReadOutcome::Failed(detail) => {
                let mut text = String::from_str("Serial read error: ");
                text.append(detail.as_str());
                ExchangeStep::Done(Exchange::TransportFailed(text))
            },
        }
    }

    /// The outcome of an exchange whose command could not be written.
    pub fn write_failed(detail: &str) -> (exchange: Exchange)
        ensures
            exchange@ == ExchangeView::TransportFailed(write_failure_text(detail@)),
    {
        let mut text = String::from_str("Serial write error: ");
        text.append(detail);
        Exchange::TransportFailed(text)
    }

    /// The outcome of an exchange for which no port is open.
    pub fn no_port() -> (exchange: Exchange)
        ensures
            exchange@ == ExchangeView::TransportFailed("No serial port available"@),
    {
        Exchange::TransportFailed(String::from_str("No serial port available"))
    }

    /// The event that the outcome of the identity query is for the
    /// supervisor.
    pub fn identity_event(exchange: Exchange) -> (event: LinkEvent)
        ensures
            event@ == identity_event_of(exchange@),
    {
        match exchange {
            Exchange::Payload(payload) => LinkEvent::IdentityReceived(
                ConnectionManager::read_response(payload.as_slice()),
            ),
            Exchange::Rejected(e) => LinkEvent::IdentityFailed(e.message()),
            Exchange::TransportFailed(message) => LinkEvent::IdentityFailed(message),
        }
    }

    /// Builds the frame to write for a command with arguments.
    pub fn send_command_with_args(tag: u8, args_data: &[u8]) -> (frame: Vec<u8>)
        ensures
            frame@ == command_frame(tag, args_data@),
    {
        let payload = encode_command(tag, args_data);
        slip_encode(payload.as_slice())
    }

    /// Builds the frame to write for a command without arguments.
    pub fn send_command(tag: u8) -> (frame: Vec<u8>)
        ensures
            frame@ == command_frame(tag, Seq::empty()),
    {
        let none: Vec<u8> = Vec::new();
        ConnectionManager::send_command_with_args(tag, none.as_slice())
    }

    /// Reads the result bytes of the identity query as the identity: the
    /// string at their beginning. Bytes that are well-formed UTF-8 give
    /// their text.
    pub fn read_response(payload: &[u8]) -> (identity: String)
        ensures
            identity@ == identity_of(payload@),
            valid_utf8((ReaderView { data: payload@, pos: 0 }).cstring_field()) ==> identity@
                == decode_utf8((ReaderView { data: payload@, pos: 0 }).cstring_field()),
    {
        let mut decoder = ResponseDecoder::new(payload);
        match decoder.read_cstring() {
            Ok(text) => text,
            Err(_) => String::new(),
        }
    }

    /// Begins a call of `func`: when the link is ready, returns the frame to
    /// write; otherwise says that the link is not ready, and in which state
    /// it is.
    pub fn execute_function(&self, func: &Function, arguments: &Json) -> (result: Result<
        Vec<u8>,
        String,
    >)
        ensures
            frame_view(result) == if self.state() is Ready {
                Ok::<Seq<u8>, Seq<char>>(call_frame(func@, arguments@))
            } else {
                Err::<Seq<u8>, Seq<char>>("Robot not ready: "@ + self.state().message())
            },
    {
        if !self.state.is_ready() {
            let mut text = String::from_str("Robot not ready: ");
            let state_text = self.state.error_message();
            text.append(state_text.as_str());
            return Err(text);
        }
        let args = encode_arguments(func, arguments);
        Ok(ConnectionManager::send_command_with_args(func.tag, args.as_slice()))
    }

    /// Ends a call of `func`: reads the result bytes of the response as the
    /// declared return type. A string result that is well-formed UTF-8 is
    /// its text.
    pub fn decode_result(func: &Function, payload: &[u8]) -> (result: Result<String, WireError>)
        ensures
            text_result_view(result) == result_text(func@, payload@),
            func@.return_type is Some && reads_as_string(func@.return_type->0) && payload@.len()
                > 0 && valid_utf8((ReaderView { data: payload@, pos: 0 }).cstring_field())
                ==> text_result_view(result) == Ok::<Seq<char>, WireError>(
                decode_utf8((ReaderView { data: payload@, pos: 0 }).cstring_field()),
            ),
    {
        match &func.return_type {
            Some(t) => decode_response_by_type(payload, t.as_str()),
            None => Ok(String::from_str("Command executed successfully")),
        }
    }
}

/// The link becomes ready in one way only: from Initializing, when the
/// identity is received.
pub proof fn lemma_ready_only_from_initializing(state: StateView, event: EventView)
    requires
        transition(state, event).0 is Ready,
        !(state is Ready),
    ensures
        state is Initializing,
        event is IdentityReceived,
{
}

/// The states before Ready are entered in order: Connected only from
/// Connecting, and Initializing only from Connected.
pub proof fn lemma_stages_in_order(state: StateView, event: EventView)
    ensures
        transition(state, event).0 is Connected && !(state is Connected) ==> state is Connecting,
        transition(state, event).0 is Initializing && !(state is Initializing) ==> state
            is Connected,
        transition(state, event).0 is Connecting && !(state is Connecting) ==> state
            is Disconnected || state is Error,
{
}

/// Where the link stands at step `k` of a run: the steps at which it was
/// last seen connecting, connected and initializing on the way there.
pub struct Passage {
    pub connecting: int,
    pub connected: int,
    pub initializing: int,
}

/// Whether the run from `start` over `events` passed through the stages in
/// order before step `k`, as far as the state at step `k` asks for it.
pub open spec fn passed_in_order(
    start: StateView,
    events: Seq<EventView>,
    k: int,
    p: Passage,
) -> bool {
    let state = state_after(start, events, k);
    &&& (state is Connected || state is Initializing || state is Ready) ==> {
        &&& 0 <= p.connecting < k
        &&& state_after(start, events, p.connecting) is Connecting
    }
    &&& (state is Initializing || state is Ready) ==> {
        &&& p.connecting < p.connected < k
        &&& state_after(start, events, p.connected) is Connected
    }
    &&& state is Ready ==> {
        &&& p.connected < p.initializing < k
        &&& state_after(start, events, p.initializing) is Initializing
    }
}

/// A link that starts disconnected is not ready before it has been
/// connecting, then connected, then initializing, in this order: for every
/// run of events and every step at which the link is ready, there are
/// earlier steps at which it was in these states.
pub proof fn lemma_no_shortcut_to_ready(events: Seq<EventView>, k: int) -> (p: Passage)
    requires
        0 <= k <= events.len(),
    ensures
        passed_in_order(StateView::Disconnected, events, k, p),
    decreases k,
{
    let start = StateView::Disconnected;
    if k == 0 {
        Passage { connecting: 0, connected: 0, initializing: 0 }
    } else {
        let before = lemma_no_shortcut_to_ready(events, k - 1);
        let prev = state_after(start, events, k - 1);
        let now = state_after(start, events, k);
        assert(now == transition(prev, events[k - 1]).0);
        if now is Connected && !(prev is Connected) {
            Passage { connecting: k - 1, connected: 0, initializing: 0 }
        } else if now is Initializing && !(prev is Initializing) {
            Passage { connecting: before.connecting, connected: k - 1, initializing: 0 }
        } else if now is Ready && !(prev is Ready) {
            Passage {
                connecting: before.connecting,
                connected: before.connected,
                initializing: k - 1,
            }
        } else {
            before
        }
    }
}

/// A link that starts disconnected and is ready at step `k` was connecting
/// and initializing at earlier steps.
pub proof fn lemma_ready_passed_connecting_and_initializing(events: Seq<EventView>, k: int)
    requires
        0 <= k <= events.len(),
        state_after(StateView::Disconnected, events, k) is Ready,
    ensures
        exists|i: int, j: int|
            0 <= i < j < k && (#[trigger] state_after(StateView::Disconnected, events, i))
                is Connecting && (#[trigger] state_after(StateView::Disconnected, events, j))
                is Initializing,
{
    let p = lemma_no_shortcut_to_ready(events, k);
    assert(state_after(StateView::Disconnected, events, p.connecting) is Connecting);
    assert(state_after(StateView::Disconnected, events, p.initializing) is Initializing);
}

/// A response frame that carries result bytes and their CRC is accepted,
/// and gives the result bytes back, unless the result bytes are those of an
/// error frame.
pub proof fn lemma_response_roundtrip(result: Seq<u8>)
    requires
        !(result.len() == 2 && result[0] == DEVICE_ERROR_MARK),
    ensures
        response_of(crate::protocol::response_payload(result)) == Ok::<Seq<u8>, LinkError>(
            result,
        ),
{
    let frame = crate::protocol::response_payload(result);
    assert(frame.drop_last() =~= result);
    assert(frame.last() == crc8_spec(result));
    if frame.len() == 3 {
        assert(frame[0] == result[0]);
    }
}

} // verus!
