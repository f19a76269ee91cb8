//! Mixed legacy-line and protocol-v2 input framing from PaperPad.
//!
//! A message starting with the first magic byte is a protocol-v2 message;
//! anything else is one legacy action line of at most
//! [`MAX_INBOUND_LINE_BYTES`] bytes, newline included. Pointer messages are
//! read with [`read_inbound_message`]; a whole session, which also carries
//! Hello and ViewportChanged, with [`read_session_message`].
use crate::line_reader::{lemma_newline_index, newline_index};
use crate::text::{chars_to_string, str_to_chars, utf8_decode};
use crate::v2::{decode_v2_message, decode_v2_spec, encoded_message, lemma_encode_decode_roundtrip, magic_bytes, V2_HEADER_LEN, V2DecodeError, V2DecodeFailure, V2DecodeResult, V2Decoded, V2MessageType};
use crate::v2_payload::{decode_payload_spec, decode_v2_payload, V2Hello, V2Viewport, lemma_payload_roundtrip, payload_encoding, pointer_payload, V2_POINTER_PAYLOAD_LEN, V2Payload, V2PayloadError, V2PayloadView, V2Pointer, V2PointerPhase};
use vstd::prelude::*;
use vstd::slice::slice_subrange;
use vstd::utf8::{decode_utf8, valid_utf8};

verus! {

/// Maximum complete legacy action line, including its newline when present.
pub const MAX_INBOUND_LINE_BYTES: usize = 8192;

/// One message from PaperPad.
#[derive(Clone, Debug, PartialEq, Eq)]
pub enum InboundMessage {
    Line(String),
    Pointer(V2Pointer),
}

/// The content of an inbound message.
pub enum InboundView {
    Line(Seq<char>),
    Pointer { phase: V2PointerPhase, x: u16, y: u16 },
}

impl View for InboundMessage {
    type V = InboundView;

    open spec fn view(&self) -> InboundView {
        match self {
            InboundMessage::Line(text) => InboundView::Line(text@),
            InboundMessage::Pointer(pointer) => InboundView::Pointer {
                phase: pointer.spec_phase(),
                x: pointer.spec_x(),
                y: pointer.spec_y(),
            },
        }
    }
}

/// Why no message could be read from PaperPad.
#[derive(Clone, Debug, PartialEq, Eq)]
pub enum InboundError {
    /// The stream ended inside a protocol-v2 message.
    Truncated,
    /// The protocol-v2 header is invalid.
    Malformed(V2DecodeError),
    /// The protocol-v2 payload is invalid.
    Payload(V2PayloadError),
    /// A valid protocol-v2 message that is not a Pointer message.
    UnexpectedMessage(V2MessageType),
    /// No newline within the line limit.
    LineTooLong,
    /// The line is not UTF-8.
    InvalidUtf8,
}

/// The content of an inbound read failure.
pub enum InboundFailure {
    Truncated,
    Malformed(V2DecodeFailure),
    Payload(V2PayloadError),
    UnexpectedMessage(V2MessageType),
    LineTooLong,
    InvalidUtf8,
}

impl View for InboundError {
    type V = InboundFailure;

    open spec fn view(&self) -> InboundFailure {
        match self {
            InboundError::Truncated => InboundFailure::Truncated,
            InboundError::Malformed(error) => InboundFailure::Malformed(error@),
            InboundError::Payload(error) => InboundFailure::Payload(*error),
            InboundError::UnexpectedMessage(message_type) => InboundFailure::UnexpectedMessage(
                *message_type,
            ),
            InboundError::LineTooLong => InboundFailure::LineTooLong,
            InboundError::InvalidUtf8 => InboundFailure::InvalidUtf8,
        }
    }
}

/// How a read failure is reported on the stream: an early end, or bad data.
#[derive(Clone, Copy, Debug, PartialEq, Eq, Structural)]
pub enum InboundErrorKind {
    UnexpectedEof,
    InvalidData,
}

impl InboundError {
    pub fn kind(&self) -> (kind: InboundErrorKind)
        ensures
            kind == (if *self is Truncated {
                InboundErrorKind::UnexpectedEof
            } else {
                InboundErrorKind::InvalidData
            }),
    {
        match self {
            InboundError::Truncated => InboundErrorKind::UnexpectedEof,
            _ => InboundErrorKind::InvalidData,
        }
    }
}

/// Reading one Pointer message from the start of `rest`: the payload is
/// decoded before its kind is checked.
pub open spec fn pointer_read_spec(rest: Seq<u8>) -> Result<(InboundView, nat), InboundFailure> {
    match decode_v2_spec(rest) {
        Err(error) => Err(InboundFailure::Malformed(error)),
        Ok(V2Decoded::Incomplete { .. }) => Err(InboundFailure::Truncated),
        Ok(V2Decoded::Complete { message_type, payload, consumed }) => {
            match decode_payload_spec(message_type, payload) {
                Err(error) => Err(InboundFailure::Payload(error)),
                Ok(V2PayloadView::Pointer { phase, x, y }) => Ok(
                    (InboundView::Pointer { phase, x, y }, consumed),
                ),
                Ok(_) => Err(InboundFailure::UnexpectedMessage(message_type)),
            }
        },
    }
}

/// The bytes a legacy line occupies: up to and including the first newline
/// within one byte more than the limit, or that window when it has none.
pub open spec fn line_chunk(rest: Seq<u8>) -> Seq<u8> {
    let window = rest.take(
        if rest.len() <= MAX_INBOUND_LINE_BYTES {
            rest.len() as int
        } else {
            MAX_INBOUND_LINE_BYTES + 1
        },
    );
    match newline_index(window) {
        Some(index) => window.take(index + 1int),
        None => window,
    }
}

/// The text bytes of a chunk: without its newline, and without a CR before
/// that newline.
pub open spec fn line_content(chunk: Seq<u8>) -> Seq<u8> {
    if chunk.len() > 0 && chunk.last() == 10 {
        let line = chunk.drop_last();
        if line.len() > 0 && line.last() == 13 {
            line.drop_last()
        } else {
            line
        }
    } else {
        chunk
    }
}

/// Reading one legacy line from the start of `rest`.
pub open spec fn line_read_spec(rest: Seq<u8>) -> Result<(InboundView, nat), InboundFailure> {
    let chunk = line_chunk(rest);
    if chunk.len() > MAX_INBOUND_LINE_BYTES {
        Err(InboundFailure::LineTooLong)
    } else if valid_utf8(line_content(chunk)) {
        Ok((InboundView::Line(decode_utf8(line_content(chunk))), chunk.len()))
    } else {
        Err(InboundFailure::InvalidUtf8)
    }
}

/// Reading one message from the start of a nonempty `rest`.
pub open spec fn message_read_spec(rest: Seq<u8>) -> Result<(InboundView, nat), InboundFailure> {
    if rest[0] == 0x50 {
        pointer_read_spec(rest)
    } else {
        line_read_spec(rest)
    }
}

fn read_v2_pointer(rest: &[u8]) -> (result: Result<(V2Pointer, usize), InboundError>)
    ensures
        match pointer_read_spec(rest@) {
            Ok((message, consumed)) => result matches Ok((pointer, used)) && InboundMessage::Pointer(
                pointer,
            )@ == message && used == consumed,
            Err(failure) => result matches Err(error) && error@ == failure,
        },
        result matches Ok((_, used)) ==> used <= rest@.len(),
{
    match decode_v2_message(rest) {
        Err(error) => Err(InboundError::Malformed(error)),
        Ok(V2DecodeResult::Incomplete { .. }) => Err(InboundError::Truncated),
        Ok(V2DecodeResult::Complete { message, consumed }) => {
            let message_type = message.message_type();
            match decode_v2_payload(message) {
                Err(error) => Err(InboundError::Payload(error)),
                Ok(V2Payload::Pointer(pointer)) => Ok((pointer, consumed)),
                Ok(_) => Err(InboundError::UnexpectedMessage(message_type)),
            }
        },
    }
}

fn read_legacy_line(rest: &[u8]) -> (result: Result<(String, usize), InboundError>)
    ensures
        match line_read_spec(rest@) {
            Ok((message, consumed)) => result matches Ok((text, used)) && InboundMessage::Line(
                text,
            )@ == message && used == consumed,
            Err(failure) => result matches Err(error) && error@ == failure,
        },
        result matches Ok((_, used)) ==> used <= rest@.len(),
{
    let window_len: usize = if rest.len() <= MAX_INBOUND_LINE_BYTES {
        rest.len()
    } else {
        MAX_INBOUND_LINE_BYTES + 1
    };
    let window = slice_subrange(rest, 0, window_len);
    let mut index: usize = 0;
    while index < window_len && window[index] != 10
        invariant
            index <= window_len == window@.len(),
            forall|j: int| 0 <= j < index ==> window@[j] != 10,
        decreases window_len - index,
    {
        index = index + 1;
    }
    proof {
        assert(window@ =~= rest@.take(window_len as int));
        lemma_newline_index(window@);
        if index < window_len {
            if let Some(found) = newline_index(window@) {
                assert(found == index) by {
                    if found < index {
                        assert(window@[found as int] != 10);
                    }
                    if found > index {
                        assert(window@[index as int] == 10);
                    }
                }
            }
        } else {
            if let Some(found) = newline_index(window@) {
                assert(window@[found as int] != 10);
            }
        }
    }
    let chunk_len: usize = if index < window_len {
        index + 1
    } else {
        window_len
    };
    if chunk_len > MAX_INBOUND_LINE_BYTES {
        return Err(InboundError::LineTooLong);
    }
    let content_len: usize = if index < window_len {
        if index > 0 && window[index - 1] == 13 {
            index - 1
        } else {
            index
        }
    } else {
        window_len
    };
    let content = slice_subrange(window, 0, content_len);
    proof {
        let chunk = line_chunk(rest@);
        assert(chunk =~= window@.take(chunk_len as int));
        if index < window_len {
            assert(chunk.drop_last() =~= window@.take(index as int));
            if index > 0 && window@[index - 1] == 13 {
                assert(chunk.drop_last().drop_last() =~= content@);
            }
        }
        assert(line_content(chunk) =~= content@);
    }
    match utf8_decode(content) {
        Some(text) => {
            let chars = str_to_chars(text);
            Ok((chars_to_string(chars.as_slice()), chunk_len))
        },
        None => Err(InboundError::InvalidUtf8),
    }
}

/// A Pointer message this library encodes is read back as the same pointer,
/// consuming exactly its own bytes, whatever follows it on the stream.
pub proof fn lemma_encoded_pointer_reads_back(phase: V2PointerPhase, x: u16, y: u16, rest: Seq<u8>)
    ensures
        message_read_spec(encoded_message(phase.spec_message_type(), pointer_payload(x, y)) + rest)
            == Ok::<(InboundView, nat), InboundFailure>(
            (InboundView::Pointer { phase, x, y }, (V2_HEADER_LEN + V2_POINTER_PAYLOAD_LEN) as nat),
        ),
{
    let message_type = phase.spec_message_type();
    let payload = pointer_payload(x, y);
    let view = V2PayloadView::Pointer { phase, x, y };
    lemma_payload_roundtrip(view);
    assert(payload_encoding(view) == (message_type, payload));
    assert(decode_payload_spec(message_type, payload) == Ok::<V2PayloadView, V2PayloadError>(view));
    lemma_encode_decode_roundtrip(message_type, payload, rest);
    let input = encoded_message(message_type, payload) + rest;
    assert(input[0] == magic_bytes()[0]);
    assert(pointer_read_spec(input) == Ok::<(InboundView, nat), InboundFailure>(
        (InboundView::Pointer { phase, x, y }, 12 + payload.len()),
    ));
}

/// A UTF-8 line without a newline or a trailing CR, sent with its newline
/// within the limit, is read back as the same text, consuming exactly its
/// bytes, whatever follows it on the stream.
pub proof fn lemma_sent_line_reads_back(text: Seq<u8>, rest: Seq<u8>)
    requires
        valid_utf8(text),
        text.len() < MAX_INBOUND_LINE_BYTES,
        forall|i: int| 0 <= i < text.len() ==> text[i] != 10,
        text.len() > 0 ==> text[0] != 0x50 && text.last() != 13,
    ensures
        message_read_spec(text + seq![10u8] + rest) == Ok::<(InboundView, nat), InboundFailure>(
            (InboundView::Line(decode_utf8(text)), text.len() + 1),
        ),
{
    let input = text + seq![10u8] + rest;
    let window = input.take(
        if input.len() <= MAX_INBOUND_LINE_BYTES {
            input.len() as int
        } else {
            MAX_INBOUND_LINE_BYTES + 1
        },
    );
    assert(window[text.len() as int] == 10);
    lemma_newline_index(window);
    match newline_index(window) {
        Some(found) => {
            if found < text.len() {
                assert(window[found as int] == text[found as int]);
            }
            if found > text.len() {
                assert(window[text.len() as int] != 10);
            }
            assert(found == text.len());
        },
        None => {
            assert(window[text.len() as int] != 10);
        },
    }
    let chunk = line_chunk(input);
    assert(chunk =~= text + seq![10u8]);
    assert(chunk.drop_last() =~= text);
    assert(line_content(chunk) =~= text);
    if text.len() == 0 {
        assert(input[0] == 10);
    } else {
        assert(input[0] == text[0]);
    }
}

/// Read the next message from `input` at `position`: `None` at the end of
/// the stream; otherwise the message, with `position` moved past it, or the
/// reason it cannot be read, with `position` unchanged.
pub fn read_inbound_message(input: &[u8], position: &mut usize) -> (result: Result<
    Option<InboundMessage>,
    InboundError,
>)
    requires
        *old(position) <= input@.len(),
    ensures
        *old(position) == input@.len() ==> (result matches Ok(None) && *final(position)
            == *old(position)),
        *old(position) < input@.len() ==> match message_read_spec(
            input@.subrange(*old(position) as int, input@.len() as int),
        ) {
            Ok((message, consumed)) => result matches Ok(Some(read)) && read@ == message
                && *final(position) == *old(position) + consumed,
            Err(failure) => result matches Err(error) && error@ == failure && *final(position)
                == *old(position),
        },
{
    if *position >= input.len() {
        return Ok(None);
    }
    let rest = slice_subrange(input, *position, input.len());
    if rest[0] == 0x50 {
        match read_v2_pointer(rest) {
            Ok((pointer, consumed)) => {
                *position = *position + consumed;
                Ok(Some(InboundMessage::Pointer(pointer)))
            },
            Err(error) => Err(error),
        }
    } else {
        match read_legacy_line(rest) {
            Ok((text, consumed)) => {
                *position = *position + consumed;
                Ok(Some(InboundMessage::Line(text)))
            },
            Err(error) => Err(error),
        }
    }
}


/// One message of a PaperPad session, as the host reads it.
#[derive(Clone, Debug, PartialEq, Eq)]
pub enum SessionMessage {
    Hello(V2Hello),
    ViewportChanged(V2Viewport),
    Pointer(V2Pointer),
    Line(String),
}

/// The content of a session message.
pub enum SessionView {
    Hello { width: u16, height: u16 },
    ViewportChanged { width: u16, height: u16 },
    Pointer { phase: V2PointerPhase, x: u16, y: u16 },
    Line(Seq<char>),
}

impl View for SessionMessage {
    type V = SessionView;

    open spec fn view(&self) -> SessionView {
        match self {
            SessionMessage::Hello(hello) => SessionView::Hello {
                width: hello.spec_viewport_width(),
                height: hello.spec_viewport_height(),
            },
            SessionMessage::ViewportChanged(viewport) => SessionView::ViewportChanged {
                width: viewport.spec_width(),
                height: viewport.spec_height(),
            },
            SessionMessage::Pointer(pointer) => SessionView::Pointer {
                phase: pointer.spec_phase(),
                x: pointer.spec_x(),
                y: pointer.spec_y(),
            },
            SessionMessage::Line(text) => SessionView::Line(text@),
        }
    }
}

/// Reading one protocol-v2 session message from the start of `rest`: Hello,
/// ViewportChanged and Pointer are accepted; a Frame only travels to the
/// Kindle, so it is unexpected here.
pub open spec fn session_v2_read_spec(rest: Seq<u8>) -> Result<(SessionView, nat), InboundFailure> {
    match decode_v2_spec(rest) {
        Err(error) => Err(InboundFailure::Malformed(error)),
        Ok(V2Decoded::Incomplete { .. }) => Err(InboundFailure::Truncated),
        Ok(V2Decoded::Complete { message_type, payload, consumed }) => {
            match decode_payload_spec(message_type, payload) {
                Err(error) => Err(InboundFailure::Payload(error)),
                Ok(V2PayloadView::Hello { width, height }) => Ok(
                    (SessionView::Hello { width, height }, consumed),
                ),
                Ok(V2PayloadView::ViewportChanged { width, height }) => Ok(
                    (SessionView::ViewportChanged { width, height }, consumed),
                ),
                Ok(V2PayloadView::Pointer { phase, x, y }) => Ok(
                    (SessionView::Pointer { phase, x, y }, consumed),
                ),
                Ok(V2PayloadView::Frame { .. }) => Err(InboundFailure::UnexpectedMessage(message_type)),
            }
        },
    }
}

/// Reading one session message from the start of a nonempty `rest`.
pub open spec fn session_read_spec(rest: Seq<u8>) -> Result<(SessionView, nat), InboundFailure> {
    if rest[0] == 0x50 {
        session_v2_read_spec(rest)
    } else {
        match line_read_spec(rest) {
            Ok((InboundView::Line(text), consumed)) => Ok((SessionView::Line(text), consumed)),
            Ok((InboundView::Pointer { phase, x, y }, consumed)) => Ok(
                (SessionView::Pointer { phase, x, y }, consumed),
            ),
            Err(failure) => Err(failure),
        }
    }
}

fn read_session_v2(rest: &[u8]) -> (result: Result<(SessionMessage, usize), InboundError>)
    ensures
        match session_v2_read_spec(rest@) {
            Ok((message, consumed)) => result matches Ok((read, used)) && read@ == message && used
                == consumed,
            Err(failure) => result matches Err(error) && error@ == failure,
        },
        result matches Ok((_, used)) ==> used <= rest@.len(),
{
    match decode_v2_message(rest) {
        Err(error) => Err(InboundError::Malformed(error)),
        Ok(V2DecodeResult::Incomplete { .. }) => Err(InboundError::Truncated),
        Ok(V2DecodeResult::Complete { message, consumed }) => {
            let message_type = message.message_type();
            match decode_v2_payload(message) {
                Err(error) => Err(InboundError::Payload(error)),
                Ok(V2Payload::Hello(hello)) => Ok((SessionMessage::Hello(hello), consumed)),
                Ok(V2Payload::ViewportChanged(viewport)) => Ok(
                    (SessionMessage::ViewportChanged(viewport), consumed),
                ),
                Ok(V2Payload::Pointer(pointer)) => Ok((SessionMessage::Pointer(pointer), consumed)),
                Ok(V2Payload::Frame(_)) => Err(InboundError::UnexpectedMessage(message_type)),
            }
        },
    }
}

/// Read the next session message from `input` at `position`: `None` at the
/// end of the stream; otherwise the message, with `position` moved past it,
/// or the reason it cannot be read, with `position` unchanged.
pub fn read_session_message(input: &[u8], position: &mut usize) -> (result: Result<
    Option<SessionMessage>,
    InboundError,
>)
    requires
        *old(position) <= input@.len(),
    ensures
        *old(position) == input@.len() ==> (result matches Ok(None) && *final(position)
            == *old(position)),
        *old(position) < input@.len() ==> match session_read_spec(
            input@.subrange(*old(position) as int, input@.len() as int),
        ) {
            Ok((message, consumed)) => result matches Ok(Some(read)) && read@ == message
                && *final(position) == *old(position) + consumed,
            Err(failure) => result matches Err(error) && error@ == failure && *final(position)
                == *old(position),
        },
{
    if *position >= input.len() {
        return Ok(None);
    }
    let rest = slice_subrange(input, *position, input.len());
    if rest[0] == 0x50 {
        match read_session_v2(rest) {
            Ok((message, consumed)) => {
                *position = *position + consumed;
                Ok(Some(message))
            },
            Err(error) => Err(error),
        }
    } else {
        match read_legacy_line(rest) {
            Ok((text, consumed)) => {
                *position = *position + consumed;
                Ok(Some(SessionMessage::Line(text)))
            },
            Err(error) => Err(error),
        }
    }
}

/// The session message a Kindle-to-host payload is read as.
pub open spec fn session_of(payload: V2PayloadView) -> SessionView {
    match payload {
        V2PayloadView::Hello { width, height } => SessionView::Hello { width, height },
        V2PayloadView::ViewportChanged { width, height } => SessionView::ViewportChanged {
            width,
            height,
        },
        V2PayloadView::Pointer { phase, x, y } => SessionView::Pointer { phase, x, y },
        V2PayloadView::Frame { .. } => SessionView::Line(Seq::empty()),
    }
}

/// Every Hello, ViewportChanged or Pointer message the Kindle sends is read
/// back by the host as that same message, consuming exactly its own bytes,
/// whatever follows it on the stream.
pub proof fn lemma_sent_session_message_reads_back(payload: V2PayloadView, rest: Seq<u8>)
    requires
        !(payload is Frame),
    ensures
        ({
            let (message_type, bytes) = payload_encoding(payload);
            session_read_spec(encoded_message(message_type, bytes) + rest) == Ok::<
                (SessionView, nat),
                InboundFailure,
            >((session_of(payload), (V2_HEADER_LEN + bytes.len()) as nat))
        }),
{
    let (message_type, bytes) = payload_encoding(payload);
    lemma_payload_roundtrip(payload);
    lemma_encode_decode_roundtrip(message_type, bytes, rest);
    let input = encoded_message(message_type, bytes) + rest;
    assert(input[0] == magic_bytes()[0]);
}

} // verus!
