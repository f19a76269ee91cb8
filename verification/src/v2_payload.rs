//! Typed payloads carried by protocol-v2 message framing.
//!
//! All payloads are big-endian. Reserved bytes must be zero. Frame payloads are
//! validated as borrowed Mono1 bytes without copying; pointer bounds and frame
//! dimensions remain the receiving endpoint's responsibility.
use crate::framebuffer::{
    mono1_error, mono1_error_text, stride_of, valid_mono1, validate_mono1_pixels, Mono1Frame,
    Mono1FrameError,
};
use crate::v2::{
    append_bytes, encode_v2_message, encoded_message, message_type_name, V2EncodeError, V2Header,
    V2Message,
    V2MessageType, V2_HEADER_LEN, V2_MAX_PAYLOAD_LEN, V2_VERSION,
};
use crate::wire::{
    be_u16, be_u64, lemma_be_u16_canonical, lemma_be_u16_roundtrip, lemma_be_u64_canonical,
    lemma_be_u64_roundtrip, push_be_u16, push_be_u64, read_be_u16, read_be_u64, u16_from_be,
    u64_from_be,
};
use crate::text::{chars_to_string, decimal, hex, push_decimal, push_hex, push_str, zero_padded};
use vstd::prelude::*;

verus! {

pub const V2_HELLO_PAYLOAD_LEN: usize = 8;

pub const V2_POINTER_PAYLOAD_LEN: usize = 4;

pub const V2_VIEWPORT_PAYLOAD_LEN: usize = 4;

pub const V2_FRAME_PREFIX_LEN: usize = 16;

/// Wire value of the Mono1 pixel format in a Frame, and its bit in a Hello mask.
pub const MONO1_FORMAT_VALUE: u8 = 1;

pub const MONO1_FORMAT_MASK: u8 = 1;

#[derive(Clone, Copy, Debug, PartialEq, Eq, Structural)]
pub enum V2PixelFormat {
    Mono1,
}

/// Hello payload: version, supported pixel-format mask, two reserved bytes and
/// the remote viewport.
pub open spec fn hello_payload(width: u16, height: u16) -> Seq<u8> {
    seq![2u8, 1u8, 0u8, 0u8] + be_u16(width) + be_u16(height)
}

/// ViewportChanged payload.
pub open spec fn viewport_payload(width: u16, height: u16) -> Seq<u8> {
    be_u16(width) + be_u16(height)
}

/// PointerDown and PointerUp payload.
pub open spec fn pointer_payload(x: u16, y: u16) -> Seq<u8> {
    be_u16(x) + be_u16(y)
}

/// Frame payload: frame ID, extent, Mono1 format, three reserved bytes, pixels.
pub open spec fn frame_payload(frame_id: u64, width: u16, height: u16, pixels: Seq<u8>) -> Seq<u8> {
    be_u64(frame_id) + be_u16(width) + be_u16(height) + seq![1u8, 0u8, 0u8, 0u8] + pixels
}

#[derive(Clone, Copy, Debug, PartialEq, Eq, Structural)]
pub struct V2Hello {
    viewport_width: u16,
    viewport_height: u16,
}

impl V2Hello {
    pub closed spec fn spec_viewport_width(self) -> u16 {
        self.viewport_width
    }

    pub closed spec fn spec_viewport_height(self) -> u16 {
        self.viewport_height
    }

    pub fn new(viewport_width: u16, viewport_height: u16) -> (hello: Self)
        ensures
            hello.spec_viewport_width() == viewport_width,
            hello.spec_viewport_height() == viewport_height,
    {
        Self { viewport_width, viewport_height }
    }

    pub fn protocol_version(self) -> (version: u8)
        ensures
            version == V2_VERSION,
    {
        V2_VERSION
    }

    pub fn viewport_width(self) -> (width: u16)
        ensures
            width == self.spec_viewport_width(),
    {
        self.viewport_width
    }

    pub fn viewport_height(self) -> (height: u16)
        ensures
            height == self.spec_viewport_height(),
    {
        self.viewport_height
    }

    /// Whether the sender of this Hello accepts frames in `pixel_format`.
    pub fn supports(self, pixel_format: V2PixelFormat) -> (supported: bool)
        ensures
            supported == (pixel_format == V2PixelFormat::Mono1),
    {
        match pixel_format {
            V2PixelFormat::Mono1 => true,
        }
    }

    pub fn encode_message(self) -> (result: Result<Vec<u8>, V2EncodeError>)
        ensures
            result matches Ok(encoded) && encoded@ == encoded_message(
                V2MessageType::Hello,
                hello_payload(self.spec_viewport_width(), self.spec_viewport_height()),
            ),
    {
        let mut payload: Vec<u8> = Vec::with_capacity(V2_HELLO_PAYLOAD_LEN);
        payload.push(V2_VERSION);
        payload.push(MONO1_FORMAT_MASK);
        payload.push(0);
        payload.push(0);
        push_be_u16(&mut payload, self.viewport_width);
        push_be_u16(&mut payload, self.viewport_height);
        assert(payload@ =~= hello_payload(self.viewport_width, self.viewport_height));
        encode_v2_message(V2MessageType::Hello, payload.as_slice())
    }
}

#[derive(Clone, Copy, Debug, PartialEq, Eq, Structural)]
pub struct V2Viewport {
    width: u16,
    height: u16,
}

impl V2Viewport {
    pub closed spec fn spec_width(self) -> u16 {
        self.width
    }

    pub closed spec fn spec_height(self) -> u16 {
        self.height
    }

    pub fn new(width: u16, height: u16) -> (viewport: Self)
        ensures
            viewport.spec_width() == width,
            viewport.spec_height() == height,
    {
        Self { width, height }
    }

    pub fn width(self) -> (width: u16)
        ensures
            width == self.spec_width(),
    {
        self.width
    }

    pub fn height(self) -> (height: u16)
        ensures
            height == self.spec_height(),
    {
        self.height
    }

    pub fn encode_message(self) -> (result: Result<Vec<u8>, V2EncodeError>)
        ensures
            result matches Ok(encoded) && encoded@ == encoded_message(
                V2MessageType::ViewportChanged,
                viewport_payload(self.spec_width(), self.spec_height()),
            ),
    {
        let mut payload: Vec<u8> = Vec::with_capacity(V2_VIEWPORT_PAYLOAD_LEN);
        push_be_u16(&mut payload, self.width);
        push_be_u16(&mut payload, self.height);
        assert(payload@ =~= viewport_payload(self.width, self.height));
        encode_v2_message(V2MessageType::ViewportChanged, payload.as_slice())
    }
}

#[derive(Clone, Copy, Debug, PartialEq, Eq, Structural)]
pub enum V2PointerPhase {
    Down,
    Up,
}

impl V2PointerPhase {
    pub open spec fn spec_message_type(self) -> V2MessageType {
        match self {
            V2PointerPhase::Down => V2MessageType::PointerDown,
            V2PointerPhase::Up => V2MessageType::PointerUp,
        }
    }

    pub fn message_type(self) -> (message_type: V2MessageType)
        ensures
            message_type == self.spec_message_type(),
    {
        match self {
            V2PointerPhase::Down => V2MessageType::PointerDown,
            V2PointerPhase::Up => V2MessageType::PointerUp,
        }
    }
}

#[derive(Clone, Copy, Debug, PartialEq, Eq, Structural)]
pub struct V2Pointer {
    phase: V2PointerPhase,
    x: u16,
    y: u16,
}

impl V2Pointer {
    pub closed spec fn spec_phase(self) -> V2PointerPhase {
        self.phase
    }

    pub closed spec fn spec_x(self) -> u16 {
        self.x
    }

    pub closed spec fn spec_y(self) -> u16 {
        self.y
    }

    pub fn new(phase: V2PointerPhase, x: u16, y: u16) -> (pointer: Self)
        ensures
            pointer.spec_phase() == phase,
            pointer.spec_x() == x,
            pointer.spec_y() == y,
    {
        Self { phase, x, y }
    }

    pub fn phase(self) -> (phase: V2PointerPhase)
        ensures
            phase == self.spec_phase(),
    {
        self.phase
    }

    pub fn x(self) -> (x: u16)
        ensures
            x == self.spec_x(),
    {
        self.x
    }

    pub fn y(self) -> (y: u16)
        ensures
            y == self.spec_y(),
    {
        self.y
    }

    pub fn encode_message(self) -> (result: Result<Vec<u8>, V2EncodeError>)
        ensures
            result matches Ok(encoded) && encoded@ == encoded_message(
                self.spec_phase().spec_message_type(),
                pointer_payload(self.spec_x(), self.spec_y()),
            ),
    {
        let mut payload: Vec<u8> = Vec::with_capacity(V2_POINTER_PAYLOAD_LEN);
        push_be_u16(&mut payload, self.x);
        push_be_u16(&mut payload, self.y);
        assert(payload@ =~= pointer_payload(self.x, self.y));
        encode_v2_message(self.phase.message_type(), payload.as_slice())
    }
}

/// A validated, borrowed Frame payload.
#[derive(Clone, Copy, Debug, PartialEq, Eq)]
pub struct V2FramePayload<'a> {
    frame_id: u64,
    width: u16,
    height: u16,
    stride: usize,
    pixels: &'a [u8],
}

impl<'a> V2FramePayload<'a> {
    #[verifier::type_invariant]
    spec fn frame_valid(self) -> bool {
        &&& valid_mono1(self.width, self.height, self.pixels@)
        &&& self.stride == stride_of(self.width)
    }

    pub closed spec fn spec_frame_id(self) -> u64 {
        self.frame_id
    }

    pub closed spec fn spec_width(self) -> u16 {
        self.width
    }

    pub closed spec fn spec_height(self) -> u16 {
        self.height
    }

    pub closed spec fn spec_pixels(self) -> Seq<u8> {
        self.pixels@
    }

    pub fn frame_id(self) -> (frame_id: u64)
        ensures
            frame_id == self.spec_frame_id(),
    {
        self.frame_id
    }

    pub fn width(self) -> (width: u16)
        ensures
            width == self.spec_width(),
    {
        self.width
    }

    pub fn height(self) -> (height: u16)
        ensures
            height == self.spec_height(),
    {
        self.height
    }

    pub fn stride(self) -> (stride: usize)
        ensures
            stride == stride_of(self.spec_width()),
    {
        proof {
            use_type_invariant(self);
        }
        self.stride
    }

    pub fn pixel_format(self) -> (pixel_format: V2PixelFormat)
        ensures
            pixel_format == V2PixelFormat::Mono1,
    {
        V2PixelFormat::Mono1
    }

    /// The pixel bytes, which always form a valid Mono1 payload.
    pub fn pixels(self) -> (pixels: &'a [u8])
        ensures
            pixels@ == self.spec_pixels(),
            valid_mono1(self.spec_width(), self.spec_height(), pixels@),
    {
        proof {
            use_type_invariant(self);
        }
        self.pixels
    }

    /// Copy the borrowed pixels into an owned frame.
    pub fn to_owned_frame(self) -> (result: Result<Mono1Frame, Mono1FrameError>)
        ensures
            result matches Ok(frame) && frame.spec_width() == self.spec_width()
                && frame.spec_height() == self.spec_height() && frame.spec_pixels()
                == self.spec_pixels(),
    {
        proof {
            use_type_invariant(self);
        }
        let mut pixels: Vec<u8> = Vec::new();
        append_bytes(&mut pixels, self.pixels);
        assert(pixels@ =~= self.pixels@);
        Mono1Frame::new(self.width, self.height, pixels)
    }
}

#[derive(Clone, Copy, Debug, PartialEq, Eq)]
pub enum V2Payload<'a> {
    Hello(V2Hello),
    Pointer(V2Pointer),
    ViewportChanged(V2Viewport),
    Frame(V2FramePayload<'a>),
}

/// The mathematical content of a typed payload.
pub enum V2PayloadView {
    Hello { width: u16, height: u16 },
    Pointer { phase: V2PointerPhase, x: u16, y: u16 },
    ViewportChanged { width: u16, height: u16 },
    Frame { frame_id: u64, width: u16, height: u16, pixels: Seq<u8> },
}

impl<'a> View for V2Payload<'a> {
    type V = V2PayloadView;

    open spec fn view(&self) -> V2PayloadView {
        match *self {
            V2Payload::Hello(hello) => V2PayloadView::Hello {
                width: hello.spec_viewport_width(),
                height: hello.spec_viewport_height(),
            },
            V2Payload::Pointer(pointer) => V2PayloadView::Pointer {
                phase: pointer.spec_phase(),
                x: pointer.spec_x(),
                y: pointer.spec_y(),
            },
            V2Payload::ViewportChanged(viewport) => V2PayloadView::ViewportChanged {
                width: viewport.spec_width(),
                height: viewport.spec_height(),
            },
            V2Payload::Frame(frame) => V2PayloadView::Frame {
                frame_id: frame.spec_frame_id(),
                width: frame.spec_width(),
                height: frame.spec_height(),
                pixels: frame.spec_pixels(),
            },
        }
    }
}

#[derive(Clone, Debug, PartialEq, Eq, Structural)]
pub enum V2PayloadError {
    InvalidLength { message_type: V2MessageType, expected: usize, actual: usize },
    TruncatedFrameMetadata { minimum: usize, actual: usize },
    HelloVersion(u8),
    UnsupportedPixelFormatMask(u8),
    UnsupportedPixelFormat(u8),
    NonZeroReserved { message_type: V2MessageType, value: u32 },
    Mono1(Mono1FrameError),
}

impl From<Mono1FrameError> for V2PayloadError {
    fn from(error: Mono1FrameError) -> (converted: Self) {
        V2PayloadError::Mono1(error)
    }
}

impl vstd::std_specs::convert::FromSpecImpl<Mono1FrameError> for V2PayloadError {
    open spec fn obeys_from_spec() -> bool {
        true
    }

    open spec fn from_spec(error: Mono1FrameError) -> Self {
        V2PayloadError::Mono1(error)
    }
}

/// The fixed payload length of a message type other than Frame.
pub open spec fn fixed_payload_len(message_type: V2MessageType) -> nat {
    match message_type {
        V2MessageType::Hello => 8,
        V2MessageType::PointerDown => 4,
        V2MessageType::PointerUp => 4,
        V2MessageType::ViewportChanged => 4,
        V2MessageType::Frame => 16,
    }
}

/// What decoding a payload of a message type yields.
pub open spec fn decode_payload_spec(message_type: V2MessageType, payload: Seq<u8>) -> Result<
    V2PayloadView,
    V2PayloadError,
> {
    match message_type {
        V2MessageType::Frame => {
            if payload.len() < 16 {
                Err(
                    V2PayloadError::TruncatedFrameMetadata {
                        minimum: V2_FRAME_PREFIX_LEN,
                        actual: payload.len() as usize,
                    },
                )
            } else if payload[12] != 1 {
                Err(V2PayloadError::UnsupportedPixelFormat(payload[12]))
            } else if payload[13] != 0 || payload[14] != 0 || payload[15] != 0 {
                Err(
                    V2PayloadError::NonZeroReserved {
                        message_type: V2MessageType::Frame,
                        value: (payload[13] as int * 0x10000 + payload[14] as int * 0x100
                            + payload[15] as int) as u32,
                    },
                )
            } else {
                let width = u16_from_be(payload.subrange(8, 10));
                let height = u16_from_be(payload.subrange(10, 12));
                let pixels = payload.subrange(16, payload.len() as int);
                match mono1_error(width, height, pixels) {
                    Some(error) => Err(V2PayloadError::Mono1(error)),
                    None => Ok(
                        V2PayloadView::Frame {
                            frame_id: u64_from_be(payload.subrange(0, 8)),
                            width,
                            height,
                            pixels,
                        },
                    ),
                }
            }
        },
        _ => {
            if payload.len() != fixed_payload_len(message_type) {
                Err(
                    V2PayloadError::InvalidLength {
                        message_type,
                        expected: fixed_payload_len(message_type) as usize,
                        actual: payload.len() as usize,
                    },
                )
            } else {
                match message_type {
                    V2MessageType::Hello => {
                        if payload[0] != 2 {
                            Err(V2PayloadError::HelloVersion(payload[0]))
                        } else if payload[1] != 1 {
                            Err(V2PayloadError::UnsupportedPixelFormatMask(payload[1]))
                        } else if u16_from_be(payload.subrange(2, 4)) != 0 {
                            Err(
                                V2PayloadError::NonZeroReserved {
                                    message_type: V2MessageType::Hello,
                                    value: u16_from_be(payload.subrange(2, 4)) as u32,
                                },
                            )
                        } else {
                            Ok(
                                V2PayloadView::Hello {
                                    width: u16_from_be(payload.subrange(4, 6)),
                                    height: u16_from_be(payload.subrange(6, 8)),
                                },
                            )
                        }
                    },
                    V2MessageType::ViewportChanged => Ok(
                        V2PayloadView::ViewportChanged {
                            width: u16_from_be(payload.subrange(0, 2)),
                            height: u16_from_be(payload.subrange(2, 4)),
                        },
                    ),
                    _ => Ok(
                        V2PayloadView::Pointer {
                            phase: if message_type == V2MessageType::PointerDown {
                                V2PointerPhase::Down
                            } else {
                                V2PointerPhase::Up
                            },
                            x: u16_from_be(payload.subrange(0, 2)),
                            y: u16_from_be(payload.subrange(2, 4)),
                        },
                    ),
                }
            }
        },
    }
}

/// The encoded bytes of the mathematical payload, with its message type.
pub open spec fn payload_encoding(payload: V2PayloadView) -> (V2MessageType, Seq<u8>) {
    match payload {
        V2PayloadView::Hello { width, height } => (V2MessageType::Hello, hello_payload(width, height)),
        V2PayloadView::Pointer { phase, x, y } => (phase.spec_message_type(), pointer_payload(x, y)),
        V2PayloadView::ViewportChanged { width, height } => (
            V2MessageType::ViewportChanged,
            viewport_payload(width, height),
        ),
        V2PayloadView::Frame { frame_id, width, height, pixels } => (
            V2MessageType::Frame,
            frame_payload(frame_id, width, height, pixels),
        ),
    }
}

/// Append the fixed sixteen-byte metadata prefix of a Frame payload.
fn push_frame_prefix(out: &mut Vec<u8>, frame_id: u64, width: u16, height: u16)
    ensures
        final(out)@ == old(out)@ + (be_u64(frame_id) + be_u16(width) + be_u16(height) + seq![
            1u8,
            0u8,
            0u8,
            0u8,
        ]),
{
    let ghost start = out@;
    push_be_u64(out, frame_id);
    push_be_u16(out, width);
    push_be_u16(out, height);
    out.push(MONO1_FORMAT_VALUE);
    out.push(0);
    out.push(0);
    out.push(0);
    assert(out@ =~= start + (be_u64(frame_id) + be_u16(width) + be_u16(height) + seq![
        1u8,
        0u8,
        0u8,
        0u8,
    ]));
}

/// Encode a validated Mono1 framebuffer as one complete v2 Frame message.
pub fn encode_v2_frame(frame_id: u64, frame: &Mono1Frame) -> (result: Result<
    Vec<u8>,
    V2EncodeError,
>)
    ensures
        16 + frame.spec_pixels().len() <= V2_MAX_PAYLOAD_LEN ==> (result matches Ok(encoded)
            && encoded@ == encoded_message(
            V2MessageType::Frame,
            frame_payload(frame_id, frame.spec_width(), frame.spec_height(), frame.spec_pixels()),
        )),
        16 + frame.spec_pixels().len() > V2_MAX_PAYLOAD_LEN ==> result == Err::<
            Vec<u8>,
            V2EncodeError,
        >(
            V2EncodeError::PayloadTooLarge {
                length: (16 + frame.spec_pixels().len()) as usize,
                maximum: V2_MAX_PAYLOAD_LEN,
            },
        ),
{
    let pixels = frame.pixels();
    proof {
        let stride = stride_of(frame.spec_width());
        assert(stride <= 8192);
        assert(stride * (frame.spec_height() as nat) <= 8192 * 65535) by (nonlinear_arith)
            requires
                stride <= 8192,
                frame.spec_height() <= 65535,
        ;
    }
    let payload_len = V2_FRAME_PREFIX_LEN + pixels.len();
    let header = match V2Header::new(V2MessageType::Frame, payload_len) {
        Ok(header) => header,
        Err(error) => return Err(error),
    };
    let mut encoded: Vec<u8> = Vec::with_capacity(V2_HEADER_LEN + payload_len);
    let header_bytes = header.encode();
    append_bytes(&mut encoded, header_bytes.as_slice());
    let ghost header_part = encoded@;
    push_frame_prefix(&mut encoded, frame_id, frame.width(), frame.height());
    let ghost prefix_part = encoded@;
    append_bytes(&mut encoded, pixels);
    assert(header_part =~= crate::v2::header_bytes(V2MessageType::Frame, payload_len as u32));
    assert(encoded@ =~= encoded_message(
        V2MessageType::Frame,
        frame_payload(frame_id, frame.spec_width(), frame.spec_height(), frame.spec_pixels()),
    ));
    Ok(encoded)
}

fn require_exact_length(message_type: V2MessageType, payload: &[u8], expected: usize) -> (result:
    Result<(), V2PayloadError>)
    ensures
        payload@.len() == expected ==> result is Ok,
        payload@.len() != expected ==> result == Err::<(), V2PayloadError>(
            V2PayloadError::InvalidLength { message_type, expected, actual: payload@.len() as usize },
        ),
{
    if payload.len() == expected {
        Ok(())
    } else {
        Err(V2PayloadError::InvalidLength { message_type, expected, actual: payload.len() })
    }
}

fn decode_hello(payload: &[u8]) -> (result: Result<V2Hello, V2PayloadError>)
    ensures
        match result {
            Ok(hello) => decode_payload_spec(V2MessageType::Hello, payload@) == Ok::<
                V2PayloadView,
                V2PayloadError,
            >(V2Payload::Hello(hello)@),
            Err(error) => decode_payload_spec(V2MessageType::Hello, payload@) == Err::<
                V2PayloadView,
                V2PayloadError,
            >(error),
        },
{
    match require_exact_length(V2MessageType::Hello, payload, V2_HELLO_PAYLOAD_LEN) {
        Ok(()) => {},
        Err(error) => return Err(error),
    }
    if payload[0] != V2_VERSION {
        return Err(V2PayloadError::HelloVersion(payload[0]));
    }
    if payload[1] != MONO1_FORMAT_MASK {
        return Err(V2PayloadError::UnsupportedPixelFormatMask(payload[1]));
    }
    let reserved = read_be_u16(payload, 2);
    if reserved != 0 {
        return Err(
            V2PayloadError::NonZeroReserved {
                message_type: V2MessageType::Hello,
                value: reserved as u32,
            },
        );
    }
    Ok(V2Hello::new(read_be_u16(payload, 4), read_be_u16(payload, 6)))
}

fn decode_pointer(phase: V2PointerPhase, payload: &[u8]) -> (result: Result<
    V2Pointer,
    V2PayloadError,
>)
    ensures
        match result {
            Ok(pointer) => decode_payload_spec(phase.spec_message_type(), payload@) == Ok::<
                V2PayloadView,
                V2PayloadError,
            >(V2Payload::Pointer(pointer)@),
            Err(error) => decode_payload_spec(phase.spec_message_type(), payload@) == Err::<
                V2PayloadView,
                V2PayloadError,
            >(error),
        },
{
    match require_exact_length(phase.message_type(), payload, V2_POINTER_PAYLOAD_LEN) {
        Ok(()) => {},
        Err(error) => return Err(error),
    }
    Ok(V2Pointer::new(phase, read_be_u16(payload, 0), read_be_u16(payload, 2)))
}

fn decode_viewport(payload: &[u8]) -> (result: Result<V2Viewport, V2PayloadError>)
    ensures
        match result {
            Ok(viewport) => decode_payload_spec(V2MessageType::ViewportChanged, payload@) == Ok::<
                V2PayloadView,
                V2PayloadError,
            >(V2Payload::ViewportChanged(viewport)@),
            Err(error) => decode_payload_spec(V2MessageType::ViewportChanged, payload@) == Err::<
                V2PayloadView,
                V2PayloadError,
            >(error),
        },
{
    match require_exact_length(V2MessageType::ViewportChanged, payload, V2_VIEWPORT_PAYLOAD_LEN) {
        Ok(()) => {},
        Err(error) => return Err(error),
    }
    Ok(V2Viewport::new(read_be_u16(payload, 0), read_be_u16(payload, 2)))
}

fn decode_frame(payload: &[u8]) -> (result: Result<V2FramePayload<'_>, V2PayloadError>)
    ensures
        match result {
            Ok(frame) => decode_payload_spec(V2MessageType::Frame, payload@) == Ok::<
                V2PayloadView,
                V2PayloadError,
            >(V2Payload::Frame(frame)@),
            Err(error) => decode_payload_spec(V2MessageType::Frame, payload@) == Err::<
                V2PayloadView,
                V2PayloadError,
            >(error),
        },
{
    if payload.len() < V2_FRAME_PREFIX_LEN {
        return Err(
            V2PayloadError::TruncatedFrameMetadata {
                minimum: V2_FRAME_PREFIX_LEN,
                actual: payload.len(),
            },
        );
    }
    let frame_id = read_be_u64(payload, 0);
    let width = read_be_u16(payload, 8);
    let height = read_be_u16(payload, 10);
    if payload[12] != MONO1_FORMAT_VALUE {
        return Err(V2PayloadError::UnsupportedPixelFormat(payload[12]));
    }
    if payload[13] != 0 || payload[14] != 0 || payload[15] != 0 {
        let value = (payload[13] as u32) * 0x10000 + (payload[14] as u32) * 0x100
            + (payload[15] as u32);
        return Err(V2PayloadError::NonZeroReserved { message_type: V2MessageType::Frame, value });
    }
    let pixels = &payload[V2_FRAME_PREFIX_LEN..payload.len()];
    let stride = match validate_mono1_pixels(width, height, pixels) {
        Ok(stride) => stride,
        Err(error) => return Err(V2PayloadError::Mono1(error)),
    };
    Ok(V2FramePayload { frame_id, width, height, stride, pixels })
}

/// Decode and validate the typed payload of one complete v2 message.
pub fn decode_v2_payload(message: V2Message<'_>) -> (result: Result<V2Payload<'_>, V2PayloadError>)
    ensures
        match result {
            Ok(payload) => decode_payload_spec(message.spec_message_type(), message.spec_payload())
                == Ok::<V2PayloadView, V2PayloadError>(payload@),
            Err(error) => decode_payload_spec(message.spec_message_type(), message.spec_payload())
                == Err::<V2PayloadView, V2PayloadError>(error),
        },
{
    let message_type = message.message_type();
    let payload = message.payload();
    match message_type {
        V2MessageType::Hello => match decode_hello(payload) {
            Ok(hello) => Ok(V2Payload::Hello(hello)),
            Err(error) => Err(error),
        },
        V2MessageType::PointerDown => match decode_pointer(V2PointerPhase::Down, payload) {
            Ok(pointer) => Ok(V2Payload::Pointer(pointer)),
            Err(error) => Err(error),
        },
        V2MessageType::PointerUp => match decode_pointer(V2PointerPhase::Up, payload) {
            Ok(pointer) => Ok(V2Payload::Pointer(pointer)),
            Err(error) => Err(error),
        },
        V2MessageType::ViewportChanged => match decode_viewport(payload) {
            Ok(viewport) => Ok(V2Payload::ViewportChanged(viewport)),
            Err(error) => Err(error),
        },
        V2MessageType::Frame => match decode_frame(payload) {
            Ok(frame) => Ok(V2Payload::Frame(frame)),
            Err(error) => Err(error),
        },
    }
}

/// A payload view that this library can encode: a Frame must carry a valid
/// Mono1 payload.
pub open spec fn encodable(payload: V2PayloadView) -> bool {
    payload matches V2PayloadView::Frame { width, height, pixels, .. } ==> valid_mono1(
        width,
        height,
        pixels,
    )
}

/// Every encodable payload decodes back to itself from its own message type
/// and bytes.
pub proof fn lemma_payload_roundtrip(payload: V2PayloadView)
    requires
        encodable(payload),
    ensures
        decode_payload_spec(payload_encoding(payload).0, payload_encoding(payload).1) == Ok::<
            V2PayloadView,
            V2PayloadError,
        >(payload),
{
    match payload {
        V2PayloadView::Hello { width, height } => {
            let bytes = hello_payload(width, height);
            lemma_be_u16_roundtrip(width);
            lemma_be_u16_roundtrip(height);
            assert(bytes.subrange(2, 4) =~= seq![0u8, 0u8]);
            assert(bytes.subrange(4, 6) =~= be_u16(width));
            assert(bytes.subrange(6, 8) =~= be_u16(height));
        },
        V2PayloadView::Pointer { phase, x, y } => {
            let bytes = pointer_payload(x, y);
            lemma_be_u16_roundtrip(x);
            lemma_be_u16_roundtrip(y);
            assert(bytes.subrange(0, 2) =~= be_u16(x));
            assert(bytes.subrange(2, 4) =~= be_u16(y));
        },
        V2PayloadView::ViewportChanged { width, height } => {
            let bytes = viewport_payload(width, height);
            lemma_be_u16_roundtrip(width);
            lemma_be_u16_roundtrip(height);
            assert(bytes.subrange(0, 2) =~= be_u16(width));
            assert(bytes.subrange(2, 4) =~= be_u16(height));
        },
        V2PayloadView::Frame { frame_id, width, height, pixels } => {
            let bytes = frame_payload(frame_id, width, height, pixels);
            lemma_be_u64_roundtrip(frame_id);
            lemma_be_u16_roundtrip(width);
            lemma_be_u16_roundtrip(height);
            assert(bytes.subrange(0, 8) =~= be_u64(frame_id));
            assert(bytes.subrange(8, 10) =~= be_u16(width));
            assert(bytes.subrange(10, 12) =~= be_u16(height));
            assert(bytes.subrange(16, bytes.len() as int) =~= pixels);
        },
    }
}

/// A payload that decodes is exactly the encoding of what it decodes to: the
/// decoder accepts only canonical payloads, and what it yields is encodable.
pub proof fn lemma_payload_canonical(message_type: V2MessageType, bytes: Seq<u8>)
    ensures
        decode_payload_spec(message_type, bytes) matches Ok(payload) ==> encodable(payload)
            && payload_encoding(payload) == (message_type, bytes),
{
    if let Ok(payload) = decode_payload_spec(message_type, bytes) {
        match payload {
            V2PayloadView::Hello { width, height } => {
                lemma_be_u16_canonical(bytes.subrange(2, 4));
                lemma_be_u16_canonical(bytes.subrange(4, 6));
                lemma_be_u16_canonical(bytes.subrange(6, 8));
                assert(bytes.subrange(2, 4) =~= seq![0u8, 0u8]) by {
                    assert(bytes.subrange(2, 4)[0] == 0 && bytes.subrange(2, 4)[1] == 0);
                }
                assert(hello_payload(width, height) =~= bytes);
            },
            V2PayloadView::Pointer { phase, x, y } => {
                lemma_be_u16_canonical(bytes.subrange(0, 2));
                lemma_be_u16_canonical(bytes.subrange(2, 4));
                assert(pointer_payload(x, y) =~= bytes);
            },
            V2PayloadView::ViewportChanged { width, height } => {
                lemma_be_u16_canonical(bytes.subrange(0, 2));
                lemma_be_u16_canonical(bytes.subrange(2, 4));
                assert(viewport_payload(width, height) =~= bytes);
            },
            V2PayloadView::Frame { frame_id, width, height, pixels } => {
                lemma_be_u64_canonical(bytes.subrange(0, 8));
                lemma_be_u16_canonical(bytes.subrange(8, 10));
                lemma_be_u16_canonical(bytes.subrange(10, 12));
                assert(frame_payload(frame_id, width, height, pixels) =~= bytes);
            },
        }
    }
}

/// The description of a payload failure.
pub open spec fn payload_error_text(error: V2PayloadError) -> Seq<char> {
    match error {
        V2PayloadError::InvalidLength { message_type, expected, actual } => message_type_name(
            message_type,
        ) + " payload must be "@ + decimal(expected as nat) + " bytes, got "@ + decimal(
            actual as nat,
        ),
        V2PayloadError::TruncatedFrameMetadata { minimum, actual } =>
            "Frame payload needs at least "@ + decimal(minimum as nat) + " metadata bytes, got "@
            + decimal(actual as nat),
        V2PayloadError::HelloVersion(version) => "Hello advertises unsupported version "@ + decimal(
            version as nat,
        ),
        V2PayloadError::UnsupportedPixelFormatMask(mask) =>
            "Hello has unsupported pixel-format mask 0x"@ + zero_padded(hex(mask as nat), 2),
        V2PayloadError::UnsupportedPixelFormat(format) => "Frame has unsupported pixel format "@
            + decimal(format as nat),
        V2PayloadError::NonZeroReserved { message_type, value } => message_type_name(message_type)
            + " reserved payload bytes must be zero, got 0x"@ + hex(value as nat),
        V2PayloadError::Mono1(error) => "invalid Mono1 frame payload: "@ + mono1_error_text(error),
    }
}

impl V2PayloadError {
    /// A description of the failure.
    pub fn message(&self) -> (text: String)
        ensures
            text@ == payload_error_text(*self),
    {
        let mut out: Vec<char> = Vec::new();
        match self {
            V2PayloadError::InvalidLength { message_type, expected, actual } => {
                push_str(&mut out, message_type.name());
                push_str(&mut out, " payload must be ");
                push_decimal(&mut out, *expected as u64);
                push_str(&mut out, " bytes, got ");
                push_decimal(&mut out, *actual as u64);
            },
            V2PayloadError::TruncatedFrameMetadata { minimum, actual } => {
                push_str(&mut out, "Frame payload needs at least ");
                push_decimal(&mut out, *minimum as u64);
                push_str(&mut out, " metadata bytes, got ");
                push_decimal(&mut out, *actual as u64);
            },
            V2PayloadError::HelloVersion(version) => {
                push_str(&mut out, "Hello advertises unsupported version ");
                push_decimal(&mut out, *version as u64);
            },
            V2PayloadError::UnsupportedPixelFormatMask(mask) => {
                push_str(&mut out, "Hello has unsupported pixel-format mask 0x");
                push_hex(&mut out, *mask as u64, 2);
            },
            V2PayloadError::UnsupportedPixelFormat(format) => {
                push_str(&mut out, "Frame has unsupported pixel format ");
                push_decimal(&mut out, *format as u64);
            },
            V2PayloadError::NonZeroReserved { message_type, value } => {
                push_str(&mut out, message_type.name());
                push_str(&mut out, " reserved payload bytes must be zero, got 0x");
                push_hex(&mut out, *value as u64, 0);
                assert(zero_padded(hex(*value as nat), 0) == hex(*value as nat));
            },
            V2PayloadError::Mono1(error) => {
                push_str(&mut out, "invalid Mono1 frame payload: ");
                let inner = error.message();
                push_str(&mut out, inner.as_str());
            },
        }
        assert(out@ =~= payload_error_text(*self));
        chars_to_string(out.as_slice())
    }
}

} // verus!
