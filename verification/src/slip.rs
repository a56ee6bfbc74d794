//! SLIP framing: frames are delimited by END bytes, and END and ESC bytes
//! inside a frame are written as two-byte escape sequences. The decoder is a
//! byte-at-a-time state machine that can be resumed across reads.

use vstd::prelude::*;
use crate::text::{hex_byte_text, push_hex_byte};

verus! {

/// Frame delimiter.
pub const SLIP_END: u8 = 0xC0;

/// Escape introducer.
pub const SLIP_ESC: u8 = 0xDB;

/// After ESC: stands for an END byte in the payload.
pub const SLIP_ESC_END: u8 = 0xDC;

/// After ESC: stands for an ESC byte in the payload.
pub const SLIP_ESC_ESC: u8 = 0xDD;

/// After ESC: aborts the frame in progress.
pub const SLIP_CLEAR: u8 = 0xDE;

/// The largest payload the decoder accumulates.
pub const SLIP_MAX_FRAME: usize = 1024;

/// Where the decoder is: between frames, within a frame, or behind an ESC.
#[derive(Debug, Clone, Copy, PartialEq, Eq, Structural)]
pub enum SlipDecodeState {
    Idle,
    Receiving,
    Escaped,
}

/// Why the decoder rejected a byte.
#[derive(Debug, Clone, Copy, PartialEq, Eq, Structural)]
pub enum SlipError {
    /// The payload would have grown past `SLIP_MAX_FRAME` bytes.
    FrameTooLarge,
    /// ESC was followed by this byte, which is none of ESC_END, ESC_ESC, CLEAR.
    InvalidEscape(u8),
}

impl SlipError {
    /// The error in words.
    pub open spec fn message_spec(self) -> Seq<char> {
        match self {
            SlipError::FrameTooLarge => "SLIP frame too large"@,
            SlipError::InvalidEscape(byte) => "Invalid SLIP escape sequence: 0x"@ + hex_byte_text(
                byte,
            ),
        }
    }

    /// The error in words.
    pub fn message(&self) -> (text: String)
        ensures
            text@ == self.message_spec(),
    {
        match self {
            SlipError::FrameTooLarge => String::from_str("SLIP frame too large"),
            SlipError::InvalidEscape(byte) => {
                let mut text = String::from_str("Invalid SLIP escape sequence: 0x");
                push_hex_byte(&mut text, *byte);
                text
            },
        }
    }
}

/// The decoder as a mathematical value.
pub struct DecoderView {
    pub state: SlipDecodeState,
    pub buffer: Seq<u8>,
}

/// What one byte made the decoder do, besides changing its state.
pub enum SlipEvent {
    /// The byte was consumed and nothing is reported.
    Nothing,
    /// The byte completed this payload.
    Frame(Seq<u8>),
    /// The byte was rejected.
    Failed(SlipError),
}

impl DecoderView {
    /// A decoder that has seen nothing, or has just been reset.
    pub open spec fn idle() -> DecoderView {
        DecoderView { state: SlipDecodeState::Idle, buffer: Seq::empty() }
    }

    /// The payload in progress is within the cap.
    pub open spec fn wf(self) -> bool {
        self.buffer.len() <= SLIP_MAX_FRAME
    }

    /// The decoder in state `state` with unchanged payload.
    pub open spec fn with_state(self, state: SlipDecodeState) -> DecoderView {
        DecoderView { state, buffer: self.buffer }
    }

    /// Appends `byte` to the payload and goes to Receiving, or fails and
    /// resets when the payload is already at the cap.
    pub open spec fn append(self, byte: u8) -> (DecoderView, SlipEvent) {
        if self.buffer.len() < SLIP_MAX_FRAME {
            (
                DecoderView { state: SlipDecodeState::Receiving, buffer: self.buffer.push(byte) },
                SlipEvent::Nothing,
            )
        } else {
            (DecoderView::idle(), SlipEvent::Failed(SlipError::FrameTooLarge))
        }
    }

    /// The transition function of the decoder: the next decoder and what is
    /// reported for `byte`.
    pub open spec fn step(self, byte: u8) -> (DecoderView, SlipEvent) {
        match self.state {
            SlipDecodeState::Idle => {
                if byte == SLIP_END {
                    (
                        DecoderView { state: SlipDecodeState::Receiving, buffer: Seq::empty() },
                        SlipEvent::Nothing,
                    )
                } else if byte == SLIP_ESC {
                    (self.with_state(SlipDecodeState::Escaped), SlipEvent::Nothing)
                } else {
                    (self, SlipEvent::Nothing)
                }
            },
            SlipDecodeState::Receiving => {
                if byte == SLIP_END {
                    if self.buffer.len() > 0 {
                        (DecoderView::idle(), SlipEvent::Frame(self.buffer))
                    } else {
                        (self, SlipEvent::Nothing)
                    }
                } else if byte == SLIP_ESC {
                    (self.with_state(SlipDecodeState::Escaped), SlipEvent::Nothing)
                } else {
                    self.append(byte)
                }
            },
            SlipDecodeState::Escaped => {
                if byte == SLIP_CLEAR {
                    (
                        DecoderView { state: SlipDecodeState::Receiving, buffer: Seq::empty() },
                        SlipEvent::Nothing,
                    )
                } else if byte == SLIP_ESC_END {
                    self.append(SLIP_END)
                } else if byte == SLIP_ESC_ESC {
                    self.append(SLIP_ESC)
                } else {
                    (DecoderView::idle(), SlipEvent::Failed(SlipError::InvalidEscape(byte)))
                }
            },
        }
    }

    /// The decoder after all of `bytes`, fed in order. A rejected byte resets
    /// the decoder and the bytes after it are fed as usual.
    pub open spec fn feed(self, bytes: Seq<u8>) -> DecoderView
        decreases bytes.len(),
    {
        if bytes.len() == 0 {
            self
        } else {
            self.feed(bytes.drop_last()).step(bytes.last()).0
        }
    }

    /// What is reported for each of `bytes`, fed in order.
    pub open spec fn events(self, bytes: Seq<u8>) -> Seq<SlipEvent>
        decreases bytes.len(),
    {
        if bytes.len() == 0 {
            Seq::empty()
        } else {
            self.events(bytes.drop_last()).push(
                self.feed(bytes.drop_last()).step(bytes.last()).1,
            )
        }
    }

    /// The payloads completed while `bytes` are fed, in order.
    pub open spec fn frames(self, bytes: Seq<u8>) -> Seq<Seq<u8>>
        decreases bytes.len(),
    {
        if bytes.len() == 0 {
            Seq::empty()
        } else {
            let before = self.frames(bytes.drop_last());
            match self.feed(bytes.drop_last()).step(bytes.last()).1 {
                SlipEvent::Frame(payload) => before.push(payload),
                _ => before,
            }
        }
    }

    /// No byte of `bytes` is rejected.
    pub open spec fn accepts(self, bytes: Seq<u8>) -> bool {
        forall|i: int|
            0 <= i < bytes.len() ==> !(#[trigger] self.events(bytes)[i] is Failed)
    }
}

/// The payloads that a fresh decoder completes on `bytes`.
pub open spec fn slip_decode(bytes: Seq<u8>) -> Seq<Seq<u8>> {
    DecoderView::idle().frames(bytes)
}

/// A decoder of SLIP frames from a stream of bytes. The payload that it
/// holds is never longer than `SLIP_MAX_FRAME` bytes.
pub struct SlipDecoder {
    state: SlipDecodeState,
    buffer: Vec<u8>,
}

impl View for SlipDecoder {
    type V = DecoderView;

    closed spec fn view(&self) -> DecoderView {
        DecoderView { state: self.state, buffer: self.buffer@ }
    }
}

/// What `process_byte` returned, as an event.
pub open spec fn event_of(result: Result<Option<Vec<u8>>, SlipError>) -> SlipEvent {
    match result {
        Ok(None) => SlipEvent::Nothing,
        Ok(Some(frame)) => SlipEvent::Frame(frame@),
        Err(e) => SlipEvent::Failed(e),
    }
}

impl SlipDecoder {
    #[verifier::type_invariant]
    spec fn within_cap(&self) -> bool {
        self.buffer@.len() <= SLIP_MAX_FRAME
    }

    /// A decoder that has seen nothing.
    pub fn new() -> (decoder: Self)
        ensures
            decoder@ == DecoderView::idle(),
            decoder@.wf(),
    {
        SlipDecoder { state: SlipDecodeState::Idle, buffer: Vec::new() }
    }

    /// Drops the payload in progress and waits for the next END.
    pub fn reset(&mut self)
        ensures
            final(self)@ == DecoderView::idle(),
            final(self)@.wf(),
    {
        self.buffer = Vec::new();
        self.state = SlipDecodeState::Idle;
    }

    /// The state the decoder is in. The payload in progress is always
    /// within the cap.
    pub fn state(&self) -> (state: SlipDecodeState)
        ensures
            state == self@.state,
            self@.wf(),
    {
        proof {
            use_type_invariant(self);
        }
        self.state
    }

    fn append(&mut self, byte: u8) -> (result: Result<Option<Vec<u8>>, SlipError>)
        ensures
            final(self)@ == old(self)@.append(byte).0,
            event_of(result) == old(self)@.append(byte).1,
    {
        if self.buffer.len() < SLIP_MAX_FRAME {
            let mut buffer: Vec<u8> = Vec::new();
            std::mem::swap(&mut buffer, &mut self.buffer);
            buffer.push(byte);
            std::mem::swap(&mut buffer, &mut self.buffer);
            self.state = SlipDecodeState::Receiving;
            Ok(None)
        } else {
            self.reset();
            Err(SlipError::FrameTooLarge)
        }
    }

    /// Feeds one byte. Returns the payload when the byte completes a frame,
    /// and an error when the byte is rejected; after an error the decoder is
    /// reset. The payload in progress is within the cap before and after,
    /// so that a frame has from 1 to `SLIP_MAX_FRAME` bytes.
    pub fn process_byte(&mut self, byte: u8) -> (result: Result<Option<Vec<u8>>, SlipError>)
        ensures
            final(self)@ == old(self)@.step(byte).0,
            event_of(result) == old(self)@.step(byte).1,
            old(self)@.wf(),
            final(self)@.wf(),
            result matches Ok(Some(frame)) ==> 1 <= frame@.len() <= SLIP_MAX_FRAME,
    {
        proof {
            use_type_invariant(&*self);
        }
        let result = match self.state {
            SlipDecodeState::Idle => {
                if byte == SLIP_END {
                    self.buffer = Vec::new();
                    self.state = SlipDecodeState::Receiving;
                } else if byte == SLIP_ESC {
                    self.state = SlipDecodeState::Escaped;
                }
                Ok(None)
            },
            SlipDecodeState::Receiving => {
                if byte == SLIP_END {
                    if self.buffer.len() > 0 {
                        let mut frame: Vec<u8> = Vec::new();
                        std::mem::swap(&mut frame, &mut self.buffer);
                        self.state = SlipDecodeState::Idle;
                        Ok(Some(frame))
                    } else {
                        Ok(None)
                    }
                } else if byte == SLIP_ESC {
                    self.state = SlipDecodeState::Escaped;
                    Ok(None)
                } else {
                    self.append(byte)
                }
            },
            SlipDecodeState::Escaped => {
                if byte == SLIP_CLEAR {
                    self.buffer = Vec::new();
                    self.state = SlipDecodeState::Receiving;
                    Ok(None)
                } else if byte == SLIP_ESC_END {
                    self.append(SLIP_END)
                } else if byte == SLIP_ESC_ESC {
                    self.append(SLIP_ESC)
                } else {
                    self.reset();
                    Err(SlipError::InvalidEscape(byte))
                }
            },
        };
        proof {
            use_type_invariant(&*self);
        }
        result
    }
}

/// What stands on the wire for one payload byte.
pub open spec fn slip_escape_byte(byte: u8) -> Seq<u8> {
    if byte == SLIP_END {
        seq![SLIP_ESC, SLIP_ESC_END]
    } else if byte == SLIP_ESC {
        seq![SLIP_ESC, SLIP_ESC_ESC]
    } else {
        seq![byte]
    }
}

/// What stands on the wire for a payload, without the delimiters.
pub open spec fn slip_escape(data: Seq<u8>) -> Seq<u8>
    decreases data.len(),
{
    if data.len() == 0 {
        Seq::empty()
    } else {
        slip_escape(data.drop_last()) + slip_escape_byte(data.last())
    }
}

/// A whole frame: END, the escaped payload, END.
pub open spec fn slip_encode_spec(data: Seq<u8>) -> Seq<u8> {
    seq![SLIP_END] + slip_escape(data) + seq![SLIP_END]
}

/// Frames `data` for the wire.
pub fn slip_encode(data: &[u8]) -> (encoded: Vec<u8>)
    ensures
        encoded@ == slip_encode_spec(data@),
{
    let mut encoded: Vec<u8> = Vec::new();
    encoded.push(SLIP_END);
    let mut i: usize = 0;
    while i < data.len()
        invariant
            i <= data.len(),
            encoded@ == seq![SLIP_END] + slip_escape(data@.take(i as int)),
        decreases data.len() - i,
    {
        let byte = data[i];
        proof {
            assert(data@.take(i + 1).drop_last() =~= data@.take(i as int));
        }
        if byte == SLIP_END {
            encoded.push(SLIP_ESC);
            encoded.push(SLIP_ESC_END);
        } else if byte == SLIP_ESC {
            encoded.push(SLIP_ESC);
            encoded.push(SLIP_ESC_ESC);
        } else {
            encoded.push(byte);
        }
        i = i + 1;
    }
    proof {
        assert(data@.take(i as int) =~= data@);
    }
    encoded.push(SLIP_END);
    encoded
}

/// Feeding `a` and then `b` is feeding `a + b`.
pub proof fn lemma_feed_concat(d: DecoderView, a: Seq<u8>, b: Seq<u8>)
    ensures
        d.feed(a + b) == d.feed(a).feed(b),
        d.events(a + b) == d.events(a) + d.feed(a).events(b),
        d.frames(a + b) == d.frames(a) + d.feed(a).frames(b),
    decreases b.len(),
{
    if b.len() == 0 {
        assert(a + b =~= a);
        assert(d.events(a) + d.feed(a).events(b) =~= d.events(a));
        assert(d.frames(a) + d.feed(a).frames(b) =~= d.frames(a));
    } else {
        lemma_feed_concat(d, a, b.drop_last());
        assert((a + b).drop_last() =~= a + b.drop_last());
        assert((a + b).last() == b.last());
        let mid = d.feed(a);
        let ev = mid.feed(b.drop_last()).step(b.last()).1;
        assert(d.events(a + b) =~= d.events(a) + mid.events(b));
        match ev {
            SlipEvent::Frame(payload) => {
                assert(d.frames(a + b) =~= d.frames(a) + mid.frames(b));
            },
            _ => {},
        }
    }
}

/// Feeding a single byte is one step.
pub proof fn lemma_feed_one(d: DecoderView, byte: u8)
    ensures
        d.feed(seq![byte]) == d.step(byte).0,
        d.events(seq![byte]) == seq![d.step(byte).1],
        d.frames(seq![byte]) == match d.step(byte).1 {
            SlipEvent::Frame(payload) => seq![payload],
            _ => Seq::<Seq<u8>>::empty(),
        },
{
    let one = seq![byte];
    assert(one.drop_last() =~= Seq::<u8>::empty());
    assert(one.last() == byte);
    assert(d.feed(one.drop_last()) == d);
    assert(d.events(one.drop_last()) =~= Seq::<SlipEvent>::empty());
    assert(d.frames(one.drop_last()) =~= Seq::<Seq<u8>>::empty());
    assert(d.events(one) =~= seq![d.step(byte).1]);
    match d.step(byte).1 {
        SlipEvent::Frame(payload) => {
            assert(d.frames(one) =~= seq![payload]);
        },
        _ => {},
    }
}

/// The cap on the payload survives every byte.
pub proof fn lemma_step_keeps_cap(d: DecoderView, byte: u8)
    requires
        d.wf(),
    ensures
        d.step(byte).0.wf(),
        d.step(byte).1 matches SlipEvent::Frame(payload) ==> 1 <= payload.len()
            <= SLIP_MAX_FRAME,
{
}

/// After a rejected byte the decoder is idle again, with nothing buffered.
pub proof fn lemma_failure_resets(d: DecoderView, byte: u8)
    requires
        d.step(byte).1 is Failed,
    ensures
        d.step(byte).0 == DecoderView::idle(),
{
}

/// After a completed frame the decoder is idle, so that no byte is part of
/// two frames.
pub proof fn lemma_frame_resets(d: DecoderView, byte: u8)
    requires
        d.step(byte).1 is Frame,
    ensures
        d.step(byte).0 == DecoderView::idle(),
        byte == SLIP_END,
{
}

/// An escaped payload holds no END byte.
pub proof fn lemma_escape_has_no_end(data: Seq<u8>)
    ensures
        forall|i: int| 0 <= i < slip_escape(data).len() ==> slip_escape(data)[i] != SLIP_END,
        data.len() <= slip_escape(data).len() <= 2 * data.len(),
    decreases data.len(),
{
    if data.len() > 0 {
        lemma_escape_has_no_end(data.drop_last());
    }
}

/// An encoded frame begins and ends with END and holds no END in between.
pub proof fn lemma_encode_end_only_at_ends(data: Seq<u8>)
    ensures
        slip_encode_spec(data).len() == slip_escape(data).len() + 2,
        slip_encode_spec(data)[0] == SLIP_END,
        slip_encode_spec(data)[slip_encode_spec(data).len() - 1] == SLIP_END,
        forall|i: int|
            0 < i < slip_encode_spec(data).len() - 1 ==> slip_encode_spec(data)[i] != SLIP_END,
{
    lemma_escape_has_no_end(data);
    let e = slip_encode_spec(data);
    assert forall|i: int| 0 < i < e.len() - 1 implies e[i] != SLIP_END by {
        assert(e[i] == slip_escape(data)[i - 1]);
    }
}

/// A receiving decoder that is fed an escaped payload appends the payload to
/// what it holds, reports nothing and rejects nothing, as long as the cap
/// is kept.
pub proof fn lemma_feed_escaped(d: DecoderView, data: Seq<u8>)
    requires
        d.state == SlipDecodeState::Receiving,
        d.buffer.len() + data.len() <= SLIP_MAX_FRAME,
    ensures
        d.feed(slip_escape(data)) == (DecoderView {
            state: SlipDecodeState::Receiving,
            buffer: d.buffer + data,
        }),
        d.frames(slip_escape(data)) == Seq::<Seq<u8>>::empty(),
        d.accepts(slip_escape(data)),
    decreases data.len(),
{
    if data.len() == 0 {
        assert(d.buffer + data =~= d.buffer);
    } else {
        let init = data.drop_last();
        let byte = data.last();
        lemma_feed_escaped(d, init);
        let tail = slip_escape_byte(byte);
        lemma_feed_concat(d, slip_escape(init), tail);
        let mid = d.feed(slip_escape(init));
        assert((d.buffer + init).push(byte) =~= d.buffer + data);
        if byte == SLIP_END || byte == SLIP_ESC {
            let second = if byte == SLIP_END {
                SLIP_ESC_END
            } else {
                SLIP_ESC_ESC
            };
            let escaped = mid.with_state(SlipDecodeState::Escaped);
            assert(tail =~= seq![SLIP_ESC] + seq![second]);
            lemma_feed_one(mid, SLIP_ESC);
            lemma_feed_one(escaped, second);
            lemma_feed_concat(mid, seq![SLIP_ESC], seq![second]);
            assert(mid.events(tail) =~= seq![SlipEvent::Nothing, SlipEvent::Nothing]);
        } else {
            lemma_feed_one(mid, byte);
        }
        let all = d.events(slip_escape(data));
        assert(all == d.events(slip_escape(init)) + mid.events(tail));
        lemma_events_len(d, slip_escape(init));
        lemma_events_len(mid, tail);
        assert forall|i: int| 0 <= i < slip_escape(data).len() implies !(#[trigger] all[i]
            is Failed) by {
            if i < slip_escape(init).len() {
                assert(all[i] == d.events(slip_escape(init))[i]);
            } else {
                assert(all[i] == mid.events(tail)[i - slip_escape(init).len()]);
            }
        }
    }
}

/// The events of a byte sequence are as many as its bytes.
pub proof fn lemma_events_len(d: DecoderView, bytes: Seq<u8>)
    ensures
        d.events(bytes).len() == bytes.len(),
    decreases bytes.len(),
{
    if bytes.len() > 0 {
        lemma_events_len(d, bytes.drop_last());
    }
}

/// Decoding undoes encoding: a fresh decoder that is fed the encoding of a
/// payload of 1 to `SLIP_MAX_FRAME` bytes completes exactly that payload,
/// rejects no byte, and is idle afterwards.
pub proof fn lemma_decode_encode(data: Seq<u8>)
    requires
        1 <= data.len() <= SLIP_MAX_FRAME,
    ensures
        slip_decode(slip_encode_spec(data)) == seq![data],
        DecoderView::idle().feed(slip_encode_spec(data)) == DecoderView::idle(),
        DecoderView::idle().accepts(slip_encode_spec(data)),
{
    let idle = DecoderView::idle();
    let open = seq![SLIP_END];
    let body = slip_escape(data);
    let receiving = DecoderView { state: SlipDecodeState::Receiving, buffer: Seq::empty() };
    let full = DecoderView { state: SlipDecodeState::Receiving, buffer: data };

    lemma_feed_one(idle, SLIP_END);

    lemma_feed_escaped(receiving, data);
    assert(receiving.buffer + data =~= data);
    assert(receiving.feed(body) == full);

    lemma_feed_one(full, SLIP_END);

    lemma_feed_concat(idle, open, body);
    lemma_feed_concat(idle, open + body, open);
    assert(idle.frames(open + body + open) =~= seq![data]);

    let all = idle.events(open + body + open);
    lemma_events_len(receiving, body);
    assert forall|i: int| 0 <= i < (open + body + open).len() implies !(#[trigger] all[i]
        is Failed) by {
        if i == 0 {
            assert(all[i] == idle.events(open)[0]);
        } else if i <= body.len() {
            assert(all[i] == receiving.events(body)[i - 1]);
        } else {
            assert(all[i] == full.events(open)[0]);
        }
    }
}

/// The encoding of the empty payload is two END bytes: a keepalive, which
/// completes no frame and leaves a fresh decoder receiving.
pub proof fn lemma_decode_encode_empty()
    ensures
        slip_encode_spec(Seq::empty()) == seq![SLIP_END, SLIP_END],
        slip_decode(slip_encode_spec(Seq::empty())) == Seq::<Seq<u8>>::empty(),
        DecoderView::idle().feed(slip_encode_spec(Seq::empty())).state
            == SlipDecodeState::Receiving,
{
    let idle = DecoderView::idle();
    let two = seq![SLIP_END, SLIP_END];
    assert(slip_encode_spec(Seq::empty()) =~= two);
    assert(two =~= seq![SLIP_END] + seq![SLIP_END]);
    lemma_feed_one(idle, SLIP_END);
    lemma_feed_one(idle.feed(seq![SLIP_END]), SLIP_END);
    lemma_feed_concat(idle, seq![SLIP_END], seq![SLIP_END]);
}

} // verus!
