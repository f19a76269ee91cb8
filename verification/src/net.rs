//! Inbound PaperSpoon frames on the Kindle side of the persistent transport.
//!
//! The stream from PaperSpoon carries only protocol-v2 Frame messages. Each
//! one is read and validated whole; the latest frame whose dimensions match
//! the current remote viewport waits in a mailbox that the event loop drains.
use crate::framebuffer::{stride_of, valid_mono1};
use crate::text::{chars_to_string, decimal, push_decimal, push_str};
use crate::v2::{
    decode_v2_message, decode_v2_spec, encoded_message, lemma_encode_decode_roundtrip,
    V2_MAX_PAYLOAD_LEN, V2DecodeError, V2DecodeFailure, V2DecodeResult, V2Decoded,
    V2MessageType,
};
use crate::v2_payload::{
    decode_payload_spec, decode_v2_payload, frame_payload, lemma_payload_roundtrip, V2Payload,
    V2PayloadError, V2PayloadView, V2_FRAME_PREFIX_LEN,
};
use vstd::prelude::*;
use vstd::slice::{slice_subrange, slice_to_vec};

verus! {

/// Offset of the pixel bytes in an encoded Frame message: the twelve-byte
/// header followed by the sixteen-byte frame prefix.
pub const FRAME_PIXELS_OFFSET: usize = 28;

/// A validated Frame message received from PaperSpoon, kept in its encoded
/// form.
#[derive(Debug, PartialEq, Eq)]
pub struct ReceivedFrame {
    frame_id: u64,
    width: u16,
    height: u16,
    stride: usize,
    encoded: Vec<u8>,
}

/// The content of a received frame.
pub struct ReceivedFrameView {
    pub frame_id: u64,
    pub width: u16,
    pub height: u16,
    pub pixels: Seq<u8>,
}

impl View for ReceivedFrame {
    type V = ReceivedFrameView;

    closed spec fn view(&self) -> ReceivedFrameView {
        ReceivedFrameView {
            frame_id: self.frame_id,
            width: self.width,
            height: self.height,
            pixels: self.encoded@.subrange(FRAME_PIXELS_OFFSET as int, self.encoded@.len() as int),
        }
    }
}

impl ReceivedFrame {
    #[verifier::type_invariant]
    spec fn frame_valid(self) -> bool {
        &&& self.encoded@.len() >= FRAME_PIXELS_OFFSET
        &&& self.stride == stride_of(self.width)
        &&& valid_mono1(
            self.width,
            self.height,
            self.encoded@.subrange(FRAME_PIXELS_OFFSET as int, self.encoded@.len() as int),
        )
    }

    pub fn frame_id(&self) -> (frame_id: u64)
        ensures
            frame_id == self@.frame_id,
    {
        self.frame_id
    }

    pub fn width(&self) -> (width: u16)
        ensures
            width == self@.width,
    {
        self.width
    }

    pub fn height(&self) -> (height: u16)
        ensures
            height == self@.height,
    {
        self.height
    }

    pub fn stride(&self) -> (stride: usize)
        ensures
            stride == stride_of(self@.width),
    {
        proof {
            use_type_invariant(self);
        }
        self.stride
    }

    /// The Mono1 pixel bytes, which always form a valid frame of the stated
    /// dimensions.
    pub fn pixels(&self) -> (pixels: &[u8])
        ensures
            pixels@ == self@.pixels,
            valid_mono1(self@.width, self@.height, pixels@),
    {
        proof {
            use_type_invariant(self);
        }
        slice_subrange(self.encoded.as_slice(), FRAME_PIXELS_OFFSET, self.encoded.len())
    }
}

/// Why no frame could be read from the inbound stream.
#[derive(Clone, Debug, PartialEq, Eq)]
pub enum InboundError {
    /// The stream ended before the message did.
    Truncated,
    /// The header is not a valid protocol-v2 header.
    Malformed(V2DecodeError),
    /// A valid message of a type other than Frame.
    UnexpectedMessage(V2MessageType),
    /// The Frame payload is invalid.
    Payload(V2PayloadError),
}

/// The content of an inbound read failure.
pub enum InboundFailure {
    Truncated,
    Malformed(V2DecodeFailure),
    UnexpectedMessage(V2MessageType),
    Payload(V2PayloadError),
}

impl View for InboundError {
    type V = InboundFailure;

    open spec fn view(&self) -> InboundFailure {
        match self {
            InboundError::Truncated => InboundFailure::Truncated,
            InboundError::Malformed(error) => InboundFailure::Malformed(error@),
            InboundError::UnexpectedMessage(message_type) => InboundFailure::UnexpectedMessage(
                *message_type,
            ),
            InboundError::Payload(error) => InboundFailure::Payload(*error),
        }
    }
}

/// How a read failure is reported on the stream: an early end, or bad data.
#[derive(Clone, Copy, Debug, PartialEq, Eq, Structural)]
pub enum InboundErrorKind {
    UnexpectedEof,
    InvalidData,
}

impl InboundError {
    pub fn kind(&self) -> (kind: InboundErrorKind)
        ensures
            kind == (if *self is Truncated {
                InboundErrorKind::UnexpectedEof
            } else {
                InboundErrorKind::InvalidData
            }),
    {
        match self {
            InboundError::Truncated => InboundErrorKind::UnexpectedEof,
            _ => InboundErrorKind::InvalidData,
        }
    }
}

/// Reading one Frame message from the start of `rest`: the frame and the
/// bytes it occupies, or why it cannot be read. The message type is checked
/// before the payload.
pub open spec fn frame_read_spec(rest: Seq<u8>) -> Result<(ReceivedFrameView, nat), InboundFailure> {
    match decode_v2_spec(rest) {
        Err(error) => Err(InboundFailure::Malformed(error)),
        Ok(V2Decoded::Incomplete { .. }) => Err(InboundFailure::Truncated),
        Ok(V2Decoded::Complete { message_type, payload, consumed }) => {
            if message_type != V2MessageType::Frame {
                Err(InboundFailure::UnexpectedMessage(message_type))
            } else {
                match decode_payload_spec(message_type, payload) {
                    Err(error) => Err(InboundFailure::Payload(error)),
                    Ok(V2PayloadView::Frame { frame_id, width, height, pixels }) => Ok(
                        (ReceivedFrameView { frame_id, width, height, pixels }, consumed),
                    ),
                    Ok(_) => Err(InboundFailure::UnexpectedMessage(message_type)),
                }
            }
        },
    }
}

/// A Frame message this library encodes is read back as the same frame,
/// consuming exactly its own bytes, whatever follows it on the stream.
pub proof fn lemma_encoded_frame_reads_back(
    frame_id: u64,
    width: u16,
    height: u16,
    pixels: Seq<u8>,
    rest: Seq<u8>,
)
    requires
        valid_mono1(width, height, pixels),
        V2_FRAME_PREFIX_LEN + pixels.len() <= V2_MAX_PAYLOAD_LEN,
    ensures
        frame_read_spec(
            encoded_message(V2MessageType::Frame, frame_payload(frame_id, width, height, pixels))
                + rest,
        ) == Ok::<(ReceivedFrameView, nat), InboundFailure>(
            (
                ReceivedFrameView { frame_id, width, height, pixels },
                (FRAME_PIXELS_OFFSET + pixels.len()) as nat,
            ),
        ),
{
    let payload = frame_payload(frame_id, width, height, pixels);
    lemma_payload_roundtrip(V2PayloadView::Frame { frame_id, width, height, pixels });
    assert(payload.len() == V2_FRAME_PREFIX_LEN + pixels.len());
    lemma_encode_decode_roundtrip(V2MessageType::Frame, payload, rest);
}

/// Read one Frame message from `input` at `position`, advancing `position`
/// past it on success and leaving it unchanged on failure.
pub fn read_v2_frame(input: &[u8], position: &mut usize) -> (result: Result<ReceivedFrame, InboundError>)
    requires
        *old(position) <= input@.len(),
    ensures
        match frame_read_spec(input@.subrange(*old(position) as int, input@.len() as int)) {
            Ok((frame, consumed)) => result matches Ok(received) && received@ == frame
                && *final(position) == *old(position) + consumed,
            Err(failure) => result matches Err(error) && error@ == failure && *final(position)
                == *old(position),
        },
{
    let rest = slice_subrange(input, *position, input.len());
    match decode_v2_message(rest) {
        Err(error) => Err(InboundError::Malformed(error)),
        Ok(V2DecodeResult::Incomplete { .. }) => Err(InboundError::Truncated),
        Ok(V2DecodeResult::Complete { message, consumed }) => {
            let message_type = message.message_type();
            if message_type != V2MessageType::Frame {
                return Err(InboundError::UnexpectedMessage(message_type));
            }
            match decode_v2_payload(message) {
                Err(error) => Err(InboundError::Payload(error)),
                Ok(V2Payload::Frame(frame)) => {
                    let encoded = slice_to_vec(slice_subrange(rest, 0, consumed));
                    let pixels = frame.pixels();
                    proof {
                        assert(encoded@.subrange(FRAME_PIXELS_OFFSET as int, encoded@.len() as int)
                            =~= pixels@);
                    }
                    let received = ReceivedFrame {
                        frame_id: frame.frame_id(),
                        width: frame.width(),
                        height: frame.height(),
                        stride: frame.stride(),
                        encoded,
                    };
                    *position = *position + consumed;
                    Ok(received)
                },
                Ok(_) => Err(InboundError::UnexpectedMessage(message_type)),
            }
        },
    }
}

/// Read the next frame, or `None` at the end of the stream.
pub fn read_inbound_frame(input: &[u8], position: &mut usize) -> (result: Result<
    Option<ReceivedFrame>,
    InboundError,
>)
    requires
        *old(position) <= input@.len(),
    ensures
        *old(position) == input@.len() ==> (result matches Ok(None) && *final(position)
            == *old(position)),
        *old(position) < input@.len() ==> match frame_read_spec(
            input@.subrange(*old(position) as int, input@.len() as int),
        ) {
            Ok((frame, consumed)) => result matches Ok(Some(received)) && received@ == frame
                && *final(position) == *old(position) + consumed,
            Err(failure) => result matches Err(error) && error@ == failure && *final(position)
                == *old(position),
        },
{
    if *position >= input.len() {
        return Ok(None);
    }
    match read_v2_frame(input, position) {
        Ok(frame) => Ok(Some(frame)),
        Err(error) => Err(error),
    }
}

/// A frame whose dimensions differ from the current remote viewport.
#[derive(Clone, Copy, Debug, PartialEq, Eq)]
pub struct FrameDimensionMismatch {
    pub expected: (u16, u16),
    pub actual: (u16, u16),
}

impl FrameDimensionMismatch {
    /// A description naming both sizes.
    pub fn message(&self) -> (text: String)
        ensures
            text@ == "frame dimensions "@ + decimal(self.actual.0 as nat) + "x"@ + decimal(
                self.actual.1 as nat,
            ) + " do not match remote viewport "@ + decimal(self.expected.0 as nat) + "x"@
                + decimal(self.expected.1 as nat),
    {
        let mut out: Vec<char> = Vec::new();
        push_str(&mut out, "frame dimensions ");
        push_decimal(&mut out, self.actual.0 as u64);
        push_str(&mut out, "x");
        push_decimal(&mut out, self.actual.1 as u64);
        push_str(&mut out, " do not match remote viewport ");
        push_decimal(&mut out, self.expected.0 as u64);
        push_str(&mut out, "x");
        push_decimal(&mut out, self.expected.1 as u64);
        assert(out@ =~= "frame dimensions "@ + decimal(self.actual.0 as nat) + "x"@ + decimal(
            self.actual.1 as nat,
        ) + " do not match remote viewport "@ + decimal(self.expected.0 as nat) + "x"@ + decimal(
            self.expected.1 as nat,
        ));
        chars_to_string(out.as_slice())
    }
}

/// The latest frame that matches the remote viewport, waiting to be drawn.
pub struct FrameMailbox {
    viewport: (u16, u16),
    pending: Option<ReceivedFrame>,
}

/// The dimensions of a frame.
pub open spec fn frame_size(frame: ReceivedFrameView) -> (u16, u16) {
    (frame.width, frame.height)
}

impl FrameMailbox {
    pub closed spec fn spec_viewport(&self) -> (u16, u16) {
        self.viewport
    }

    pub closed spec fn spec_pending(&self) -> Option<ReceivedFrameView> {
        match &self.pending {
            Some(frame) => Some(frame@),
            None => None,
        }
    }

    /// The mailbox holds no frame of other dimensions than the viewport.
    pub open spec fn holds_only_matching(&self) -> bool {
        self.spec_pending() matches Some(frame) ==> frame_size(frame) == self.spec_viewport()
    }

    /// An empty mailbox for an empty viewport.
    pub fn new() -> (mailbox: Self)
        ensures
            mailbox.spec_viewport() == (0u16, 0u16),
            mailbox.spec_pending() is None,
            mailbox.holds_only_matching(),
    {
        FrameMailbox { viewport: (0, 0), pending: None }
    }

    /// Adopt a new viewport, dropping a pending frame that no longer fits it.
    pub fn set_viewport(&mut self, viewport: (u16, u16))
        ensures
            final(self).spec_viewport() == viewport,
            final(self).spec_pending() == (match old(self).spec_pending() {
                Some(frame) => if frame_size(frame) == viewport {
                    Some(frame)
                } else {
                    None
                },
                None => None,
            }),
            final(self).holds_only_matching(),
    {
        self.viewport = viewport;
        let stale = match &self.pending {
            Some(frame) => frame.width() != viewport.0 || frame.height() != viewport.1,
            None => false,
        };
        if stale {
            self.pending = None;
        }
    }

    /// Make `frame` the pending frame if it matches the viewport; otherwise
    /// reject it and keep what was pending.
    pub fn publish(&mut self, frame: ReceivedFrame) -> (result: Result<(), FrameDimensionMismatch>)
        ensures
            frame_size(frame@) == old(self).spec_viewport() ==> (result is Ok
                && final(self).spec_pending() == Some(frame@) && final(self).spec_viewport()
                == old(self).spec_viewport()),
            frame_size(frame@) != old(self).spec_viewport() ==> (result == Err::<
                (),
                FrameDimensionMismatch,
            >(FrameDimensionMismatch {
                expected: old(self).spec_viewport(),
                actual: frame_size(frame@),
            }) && final(self).spec_pending() == old(self).spec_pending()
                && final(self).spec_viewport() == old(self).spec_viewport()),
            old(self).holds_only_matching() ==> final(self).holds_only_matching(),
    {
        let actual = (frame.width(), frame.height());
        if actual.0 != self.viewport.0 || actual.1 != self.viewport.1 {
            return Err(FrameDimensionMismatch { expected: self.viewport, actual });
        }
        self.pending = Some(frame);
        Ok(())
    }

    /// Remove and return the pending frame.
    pub fn take(&mut self) -> (taken: Option<ReceivedFrame>)
        ensures
            match taken {
                Some(frame) => old(self).spec_pending() == Some(frame@),
                None => old(self).spec_pending() is None,
            },
            final(self).spec_pending() is None,
            final(self).spec_viewport() == old(self).spec_viewport(),
            final(self).holds_only_matching(),
    {
        self.pending.take()
    }
}

impl Default for FrameMailbox {
    fn default() -> (mailbox: Self)
        ensures
            mailbox.spec_viewport() == (0u16, 0u16),
            mailbox.spec_pending() is None,
    {
        FrameMailbox::new()
    }
}

} // verus!
