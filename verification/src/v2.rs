//! Protocol-v2 binary message framing.
//!
//! Every message starts with a 12-byte big-endian header: the `PPFB` magic,
//! the protocol version, the message type, a zero-reserved `u16` of flags and
//! a `u32` payload length. Payloads are capped at 16 MiB, checked from the
//! header before any payload byte is needed.
use crate::wire::{
    be_u32, lemma_be_u16_canonical, lemma_be_u32_canonical, lemma_be_u32_roundtrip, read_be_u16,
    read_be_u32, u16_from_be, u32_from_be,
};
use crate::text::{chars_to_string, decimal, hex, push_decimal, push_hex, push_str, zero_padded};
use vstd::prelude::*;

verus! {

/// Binary protocol marker at the start of every v2 message.
pub const V2_MAGIC: [u8; 4] = [0x50u8, 0x50u8, 0x46u8, 0x42u8];

/// Current binary protocol version.
pub const V2_VERSION: u8 = 2;

/// Fixed header length: magic, version, type, flags, and payload length.
pub const V2_HEADER_LEN: usize = 12;

/// Hard upper bound checked from the header before reading a payload.
pub const V2_MAX_PAYLOAD_LEN: usize = 16 * 1024 * 1024;

/// The magic as a sequence of bytes.
pub open spec fn magic_bytes() -> Seq<u8> {
    seq![0x50u8, 0x50u8, 0x46u8, 0x42u8]
}

/// Initial protocol-v2 message types.
#[derive(Clone, Copy, Debug, PartialEq, Eq, Structural)]
pub enum V2MessageType {
    Hello,
    PointerDown,
    PointerUp,
    ViewportChanged,
    Frame,
}

impl V2MessageType {
    /// Wire value of the message type.
    pub open spec fn spec_code(self) -> u8 {
        match self {
            V2MessageType::Hello => 1,
            V2MessageType::PointerDown => 2,
            V2MessageType::PointerUp => 3,
            V2MessageType::ViewportChanged => 4,
            V2MessageType::Frame => 5,
        }
    }

    /// Message type carried by a wire value, if any.
    pub open spec fn spec_from_code(code: u8) -> Option<V2MessageType> {
        if code == 1 {
            Some(V2MessageType::Hello)
        } else if code == 2 {
            Some(V2MessageType::PointerDown)
        } else if code == 3 {
            Some(V2MessageType::PointerUp)
        } else if code == 4 {
            Some(V2MessageType::ViewportChanged)
        } else if code == 5 {
            Some(V2MessageType::Frame)
        } else {
            None
        }
    }

    /// Wire value of the message type.
    pub fn code(self) -> (code: u8)
        ensures
            code == self.spec_code(),
            V2MessageType::spec_from_code(code) == Some(self),
    {
        match self {
            V2MessageType::Hello => 1,
            V2MessageType::PointerDown => 2,
            V2MessageType::PointerUp => 3,
            V2MessageType::ViewportChanged => 4,
            V2MessageType::Frame => 5,
        }
    }

    /// Decode a wire value, rejecting values that name no message type.
    pub fn from_code(code: u8) -> (result: Result<V2MessageType, V2DecodeError>)
        ensures
            match V2MessageType::spec_from_code(code) {
                Some(message_type) => result == Ok::<V2MessageType, V2DecodeError>(message_type)
                    && message_type.spec_code() == code,
                None => result == Err::<V2MessageType, V2DecodeError>(
                    V2DecodeError::UnknownMessageType(code),
                ),
            },
    {
        match code {
            1 => Ok(V2MessageType::Hello),
            2 => Ok(V2MessageType::PointerDown),
            3 => Ok(V2MessageType::PointerUp),
            4 => Ok(V2MessageType::ViewportChanged),
            5 => Ok(V2MessageType::Frame),
            _ => Err(V2DecodeError::UnknownMessageType(code)),
        }
    }
}

/// The twelve header bytes of a message of `message_type` with a payload of
/// `payload_len` bytes.
pub open spec fn header_bytes(message_type: V2MessageType, payload_len: u32) -> Seq<u8> {
    magic_bytes() + seq![2u8, message_type.spec_code(), 0u8, 0u8] + be_u32(payload_len)
}

/// The complete encoding of one message.
pub open spec fn encoded_message(message_type: V2MessageType, payload: Seq<u8>) -> Seq<u8> {
    header_bytes(message_type, payload.len() as u32) + payload
}

/// Validated metadata for one protocol-v2 message.
#[derive(Clone, Copy, Debug, PartialEq, Eq, Structural)]
pub struct V2Header {
    message_type: V2MessageType,
    payload_len: u32,
}

impl V2Header {
    pub closed spec fn spec_message_type(self) -> V2MessageType {
        self.message_type
    }

    pub closed spec fn spec_payload_len(self) -> nat {
        self.payload_len as nat
    }

    /// A header for a payload of `payload_len` bytes, refused above the cap.
    pub fn new(message_type: V2MessageType, payload_len: usize) -> (result: Result<
        Self,
        V2EncodeError,
    >)
        ensures
            payload_len <= V2_MAX_PAYLOAD_LEN ==> (result matches Ok(header)
                && header.spec_message_type() == message_type && header.spec_payload_len()
                == payload_len),
            payload_len > V2_MAX_PAYLOAD_LEN ==> result == Err::<Self, V2EncodeError>(
                V2EncodeError::PayloadTooLarge { length: payload_len, maximum: V2_MAX_PAYLOAD_LEN },
            ),
    {
        if payload_len > V2_MAX_PAYLOAD_LEN {
            return Err(
                V2EncodeError::PayloadTooLarge { length: payload_len, maximum: V2_MAX_PAYLOAD_LEN },
            );
        }
        Ok(Self { message_type, payload_len: payload_len as u32 })
    }

    pub fn message_type(self) -> (message_type: V2MessageType)
        ensures
            message_type == self.spec_message_type(),
    {
        self.message_type
    }

    pub fn payload_len(self) -> (payload_len: usize)
        ensures
            payload_len == self.spec_payload_len(),
    {
        self.payload_len as usize
    }

    /// Encode the fixed-width header in network byte order.
    pub fn encode(self) -> (encoded: [u8; 12])
        ensures
            encoded@ == header_bytes(self.spec_message_type(), self.spec_payload_len() as u32),
    {
        let length = self.payload_len;
        let encoded = [
            0x50u8,
            0x50u8,
            0x46u8,
            0x42u8,
            V2_VERSION,
            self.message_type.code(),
            0u8,
            0u8,
            (length / 0x1000000) as u8,
            ((length / 0x10000) % 0x100) as u8,
            ((length / 0x100) % 0x100) as u8,
            (length % 0x100) as u8,
        ];
        assert(encoded@ =~= header_bytes(self.message_type, self.payload_len));
        encoded
    }
}

/// One complete borrowed protocol-v2 message.
#[derive(Clone, Copy, Debug, PartialEq, Eq)]
pub struct V2Message<'a> {
    header: V2Header,
    payload: &'a [u8],
}

impl<'a> V2Message<'a> {
    #[verifier::type_invariant]
    spec fn length_matches(self) -> bool {
        self.header.payload_len as nat == self.payload@.len()
    }

    pub closed spec fn spec_message_type(self) -> V2MessageType {
        self.header.message_type
    }

    pub closed spec fn spec_payload(self) -> Seq<u8> {
        self.payload@
    }

    pub closed spec fn spec_header(self) -> V2Header {
        self.header
    }

    pub fn header(self) -> (header: V2Header)
        ensures
            header == self.spec_header(),
            header.spec_message_type() == self.spec_message_type(),
            header.spec_payload_len() == self.spec_payload().len(),
    {
        proof {
            use_type_invariant(self);
        }
        self.header
    }

    pub fn message_type(self) -> (message_type: V2MessageType)
        ensures
            message_type == self.spec_message_type(),
    {
        self.header.message_type()
    }

    pub fn payload(self) -> (payload: &'a [u8])
        ensures
            payload@ == self.spec_payload(),
    {
        self.payload
    }
}

/// Result of attempting to decode one message from a stream buffer.
#[derive(Clone, Copy, Debug, PartialEq, Eq)]
pub enum V2DecodeResult<'a> {
    Incomplete {
        /// Minimum additional bytes needed to decode this message.
        additional: usize,
    },
    Complete {
        message: V2Message<'a>,
        /// Bytes consumed, leaving any following message in the caller's buffer.
        consumed: usize,
    },
}

/// The mathematical content of a decoding attempt.
pub enum V2Decoded {
    Incomplete { additional: nat },
    Complete { message_type: V2MessageType, payload: Seq<u8>, consumed: nat },
}

impl<'a> View for V2DecodeResult<'a> {
    type V = V2Decoded;

    open spec fn view(&self) -> V2Decoded {
        match *self {
            V2DecodeResult::Incomplete { additional } => V2Decoded::Incomplete {
                additional: additional as nat,
            },
            V2DecodeResult::Complete { message, consumed } => V2Decoded::Complete {
                message_type: message.spec_message_type(),
                payload: message.spec_payload(),
                consumed: consumed as nat,
            },
        }
    }
}

#[derive(Clone, Debug, PartialEq, Eq, Structural)]
pub enum V2EncodeError {
    PayloadTooLarge { length: usize, maximum: usize },
}

#[derive(Clone, Debug, PartialEq, Eq)]
pub enum V2DecodeError {
    InvalidMagic([u8; 4]),
    UnsupportedVersion(u8),
    UnknownMessageType(u8),
    NonZeroFlags(u16),
    PayloadTooLarge { length: usize, maximum: usize },
}

/// The mathematical content of a decoding failure.
pub enum V2DecodeFailure {
    InvalidMagic(Seq<u8>),
    UnsupportedVersion(u8),
    UnknownMessageType(u8),
    NonZeroFlags(u16),
    PayloadTooLarge { length: nat, maximum: nat },
}

impl View for V2DecodeError {
    type V = V2DecodeFailure;

    open spec fn view(&self) -> V2DecodeFailure {
        match *self {
            V2DecodeError::InvalidMagic(magic) => V2DecodeFailure::InvalidMagic(magic@),
            V2DecodeError::UnsupportedVersion(version) => V2DecodeFailure::UnsupportedVersion(
                version,
            ),
            V2DecodeError::UnknownMessageType(code) => V2DecodeFailure::UnknownMessageType(code),
            V2DecodeError::NonZeroFlags(flags) => V2DecodeFailure::NonZeroFlags(flags),
            V2DecodeError::PayloadTooLarge { length, maximum } => V2DecodeFailure::PayloadTooLarge {
                length: length as nat,
                maximum: maximum as nat,
            },
        }
    }
}

/// What decoding the start of `input` yields.
pub open spec fn decode_v2_spec(input: Seq<u8>) -> Result<V2Decoded, V2DecodeFailure> {
    if input.len() < 12 {
        Ok(V2Decoded::Incomplete { additional: (12 - input.len()) as nat })
    } else if input.subrange(0, 4) != magic_bytes() {
        Err(V2DecodeFailure::InvalidMagic(input.subrange(0, 4)))
    } else if input[4] != 2 {
        Err(V2DecodeFailure::UnsupportedVersion(input[4]))
    } else if V2MessageType::spec_from_code(input[5]) is None {
        Err(V2DecodeFailure::UnknownMessageType(input[5]))
    } else if u16_from_be(input.subrange(6, 8)) != 0 {
        Err(V2DecodeFailure::NonZeroFlags(u16_from_be(input.subrange(6, 8))))
    } else {
        let length = u32_from_be(input.subrange(8, 12)) as nat;
        if length > V2_MAX_PAYLOAD_LEN {
            Err(V2DecodeFailure::PayloadTooLarge { length, maximum: V2_MAX_PAYLOAD_LEN as nat })
        } else if input.len() < 12 + length {
            Ok(V2Decoded::Incomplete { additional: (12 + length - input.len()) as nat })
        } else {
            Ok(
                V2Decoded::Complete {
                    message_type: V2MessageType::spec_from_code(input[5]).unwrap(),
                    payload: input.subrange(12, 12 + length as int),
                    consumed: 12 + length,
                },
            )
        }
    }
}

/// Append every byte of `bytes`.
pub fn append_bytes(out: &mut Vec<u8>, bytes: &[u8])
    ensures
        final(out)@ == old(out)@ + bytes@,
{
    let mut index: usize = 0;
    let ghost start = out@;
    while index < bytes.len()
        invariant
            index <= bytes@.len(),
            out@ == start + bytes@.subrange(0, index as int),
        decreases bytes@.len() - index,
    {
        out.push(bytes[index]);
        index = index + 1;
        assert(out@ =~= start + bytes@.subrange(0, index as int));
    }
    assert(bytes@.subrange(0, bytes@.len() as int) =~= bytes@);
}

/// Encode one complete protocol-v2 message.
pub fn encode_v2_message(message_type: V2MessageType, payload: &[u8]) -> (result: Result<
    Vec<u8>,
    V2EncodeError,
>)
    ensures
        payload@.len() <= V2_MAX_PAYLOAD_LEN ==> (result matches Ok(encoded) && encoded@
            == encoded_message(message_type, payload@)),
        payload@.len() > V2_MAX_PAYLOAD_LEN ==> result == Err::<Vec<u8>, V2EncodeError>(
            V2EncodeError::PayloadTooLarge { length: payload@.len() as usize, maximum: V2_MAX_PAYLOAD_LEN },
        ),
{
    let header = match V2Header::new(message_type, payload.len()) {
        Ok(header) => header,
        Err(error) => return Err(error),
    };
    let mut encoded: Vec<u8> = Vec::with_capacity(V2_HEADER_LEN + payload.len());
    let header_bytes = header.encode();
    append_bytes(&mut encoded, header_bytes.as_slice());
    append_bytes(&mut encoded, payload);
    Ok(encoded)
}

/// Decode one message from the start of `input` without allocating.
///
/// Call again with `&input[consumed..]` to decode consecutive messages. Retain
/// the current bytes and append at least `additional` bytes after an incomplete
/// result.
pub fn decode_v2_message(input: &[u8]) -> (result: Result<V2DecodeResult<'_>, V2DecodeError>)
    ensures
        match result {
            Ok(decoded) => decode_v2_spec(input@) == Ok::<V2Decoded, V2DecodeFailure>(decoded@),
            Err(error) => decode_v2_spec(input@) == Err::<V2Decoded, V2DecodeFailure>(error@),
        },
        result matches Ok(V2DecodeResult::Complete { message, consumed }) ==> consumed
            <= input@.len(),
{
    let available = input.len();
    if available < V2_HEADER_LEN {
        return Ok(V2DecodeResult::Incomplete { additional: V2_HEADER_LEN - available });
    }
    let magic: [u8; 4] = [input[0], input[1], input[2], input[3]];
    assert(magic@ =~= input@.subrange(0, 4));
    if input[0] != 0x50u8 || input[1] != 0x50u8 || input[2] != 0x46u8 || input[3] != 0x42u8 {
        return Err(V2DecodeError::InvalidMagic(magic));
    }
    assert(input@.subrange(0, 4) =~= magic_bytes());
    if input[4] != V2_VERSION {
        return Err(V2DecodeError::UnsupportedVersion(input[4]));
    }
    let message_type = match V2MessageType::from_code(input[5]) {
        Ok(message_type) => message_type,
        Err(error) => return Err(error),
    };
    let flags = read_be_u16(input, 6);
    if flags != 0 {
        return Err(V2DecodeError::NonZeroFlags(flags));
    }
    let payload_len = read_be_u32(input, 8) as usize;
    if payload_len > V2_MAX_PAYLOAD_LEN {
        return Err(
            V2DecodeError::PayloadTooLarge { length: payload_len, maximum: V2_MAX_PAYLOAD_LEN },
        );
    }
    let consumed = V2_HEADER_LEN + payload_len;
    if available < consumed {
        return Ok(V2DecodeResult::Incomplete { additional: consumed - available });
    }
    let message = V2Message {
        header: V2Header { message_type, payload_len: payload_len as u32 },
        payload: &input[V2_HEADER_LEN..consumed],
    };
    Ok(V2DecodeResult::Complete { message, consumed })
}

/// A message encoded by this library decodes to the same type and payload,
/// consuming exactly its own bytes whatever follows it in the buffer.
pub proof fn lemma_encode_decode_roundtrip(
    message_type: V2MessageType,
    payload: Seq<u8>,
    rest: Seq<u8>,
)
    requires
        payload.len() <= V2_MAX_PAYLOAD_LEN,
    ensures
        decode_v2_spec(encoded_message(message_type, payload) + rest) == Ok::<
            V2Decoded,
            V2DecodeFailure,
        >(
            V2Decoded::Complete {
                message_type,
                payload,
                consumed: 12 + payload.len(),
            },
        ),
{
    let length = payload.len() as u32;
    let input = encoded_message(message_type, payload) + rest;
    lemma_be_u32_roundtrip(length);
    assert(input.subrange(0, 4) =~= magic_bytes());
    assert(input.subrange(6, 8) =~= seq![0u8, 0u8]);
    assert(input.subrange(8, 12) =~= be_u32(length));
    assert(input.subrange(12, 12 + payload.len() as int) =~= payload);
}

/// A message that decodes completely is exactly the encoding of its type and
/// payload: the decoder accepts only canonical encodings.
pub proof fn lemma_decode_canonical(input: Seq<u8>)
    ensures
        decode_v2_spec(input) matches Ok(V2Decoded::Complete { message_type, payload, consumed })
            ==> consumed <= input.len() && input.subrange(0, consumed as int) == encoded_message(
            message_type,
            payload,
        ),
{
    if let Ok(V2Decoded::Complete { message_type, payload, consumed }) = decode_v2_spec(input) {
        let length_bytes = input.subrange(8, 12);
        lemma_be_u32_canonical(length_bytes);
        lemma_be_u16_canonical(input.subrange(6, 8));
        assert(input.subrange(6, 8) =~= seq![0u8, 0u8]) by {
            assert(input.subrange(6, 8)[0] == 0 && input.subrange(6, 8)[1] == 0);
        }
        assert(input.subrange(0, consumed as int) =~= encoded_message(message_type, payload));
    }
}

/// Every strict prefix of an encoded message is incomplete, and the decoder
/// reports exactly how many more bytes the header or the payload needs.
pub proof fn lemma_prefix_incomplete(message_type: V2MessageType, payload: Seq<u8>, available: nat)
    requires
        payload.len() <= V2_MAX_PAYLOAD_LEN,
        available < 12 + payload.len(),
    ensures
        decode_v2_spec(encoded_message(message_type, payload).subrange(0, available as int))
            == Ok::<V2Decoded, V2DecodeFailure>(
            V2Decoded::Incomplete {
                additional: if available < 12 {
                    (12 - available) as nat
                } else {
                    (12 + payload.len() - available) as nat
                },
            },
        ),
{
    let length = payload.len() as u32;
    let input = encoded_message(message_type, payload).subrange(0, available as int);
    lemma_be_u32_roundtrip(length);
    if available >= 12 {
        assert(input.subrange(0, 4) =~= magic_bytes());
        assert(input.subrange(6, 8) =~= seq![0u8, 0u8]);
        assert(input.subrange(8, 12) =~= be_u32(length));
    }
}

/// The name of a message type, as `Debug` prints it.
pub open spec fn message_type_name(message_type: V2MessageType) -> Seq<char> {
    match message_type {
        V2MessageType::Hello => "Hello"@,
        V2MessageType::PointerDown => "PointerDown"@,
        V2MessageType::PointerUp => "PointerUp"@,
        V2MessageType::ViewportChanged => "ViewportChanged"@,
        V2MessageType::Frame => "Frame"@,
    }
}

impl V2MessageType {
    /// The name of the message type.
    pub fn name(self) -> (name: &'static str)
        ensures
            name@ == message_type_name(self),
    {
        match self {
            V2MessageType::Hello => "Hello",
            V2MessageType::PointerDown => "PointerDown",
            V2MessageType::PointerUp => "PointerUp",
            V2MessageType::ViewportChanged => "ViewportChanged",
            V2MessageType::Frame => "Frame",
        }
    }
}

/// The description of an oversized payload.
pub open spec fn too_large_text(length: nat, maximum: nat) -> Seq<char> {
    "protocol-v2 payload is "@ + decimal(length) + " bytes, maximum is "@ + decimal(maximum)
}

impl V2EncodeError {
    /// A description of the failure.
    pub fn message(&self) -> (text: String)
        ensures
            text@ == match *self {
                V2EncodeError::PayloadTooLarge { length, maximum } => too_large_text(
                    length as nat,
                    maximum as nat,
                ),
            },
    {
        let mut out: Vec<char> = Vec::new();
        match self {
            V2EncodeError::PayloadTooLarge { length, maximum } => {
                push_str(&mut out, "protocol-v2 payload is ");
                push_decimal(&mut out, *length as u64);
                push_str(&mut out, " bytes, maximum is ");
                push_decimal(&mut out, *maximum as u64);
                assert(out@ =~= too_large_text(*length as nat, *maximum as nat));
            },
        }
        chars_to_string(out.as_slice())
    }
}

/// Bytes as `Debug` prints them in two-digit hexadecimal: `[50, 50, 46, 42]`.
pub open spec fn hex_list(bytes: Seq<u8>) -> Seq<char>
    decreases bytes.len(),
{
    if bytes.len() == 0 {
        Seq::empty()
    } else if bytes.len() == 1 {
        zero_padded(hex(bytes[0] as nat), 2)
    } else {
        hex_list(bytes.drop_last()) + ", "@ + zero_padded(hex(bytes.last() as nat), 2)
    }
}

/// The description of a decoding failure.
pub open spec fn decode_error_text(error: V2DecodeFailure) -> Seq<char> {
    match error {
        V2DecodeFailure::InvalidMagic(magic) => "invalid protocol-v2 magic ["@ + hex_list(magic)
            + "]"@,
        V2DecodeFailure::UnsupportedVersion(version) => "unsupported protocol version "@ + decimal(
            version as nat,
        ),
        V2DecodeFailure::UnknownMessageType(code) => "unknown protocol-v2 message type "@
            + decimal(code as nat),
        V2DecodeFailure::NonZeroFlags(flags) => "protocol-v2 reserved flags must be zero, got 0x"@
            + zero_padded(hex(flags as nat), 4),
        V2DecodeFailure::PayloadTooLarge { length, maximum } => too_large_text(length, maximum),
    }
}

impl V2DecodeError {
    /// A description of the failure.
    pub fn message(&self) -> (text: String)
        ensures
            text@ == decode_error_text(self@),
    {
        let mut out: Vec<char> = Vec::new();
        match self {
            V2DecodeError::InvalidMagic(magic) => {
                push_str(&mut out, "invalid protocol-v2 magic [");
                let ghost start = out@;
                let mut index: usize = 0;
                while index < 4
                    invariant
                        index <= 4,
                        out@ == start + hex_list(magic@.subrange(0, index as int)),
                    decreases 4 - index,
                {
                    if index > 0 {
                        push_str(&mut out, ", ");
                    }
                    push_hex(&mut out, magic[index] as u64, 2);
                    proof {
                        let taken = magic@.subrange(0, index + 1);
                        assert(taken.drop_last() =~= magic@.subrange(0, index as int));
                        assert(taken.last() == magic@[index as int]);
                    }
                    index = index + 1;
                }
                push_str(&mut out, "]");
                assert(magic@.subrange(0, 4) =~= magic@);
            },
            V2DecodeError::UnsupportedVersion(version) => {
                push_str(&mut out, "unsupported protocol version ");
                push_decimal(&mut out, *version as u64);
            },
            V2DecodeError::UnknownMessageType(code) => {
                push_str(&mut out, "unknown protocol-v2 message type ");
                push_decimal(&mut out, *code as u64);
            },
            V2DecodeError::NonZeroFlags(flags) => {
                push_str(&mut out, "protocol-v2 reserved flags must be zero, got 0x");
                push_hex(&mut out, *flags as u64, 4);
            },
            V2DecodeError::PayloadTooLarge { length, maximum } => {
                push_str(&mut out, "protocol-v2 payload is ");
                push_decimal(&mut out, *length as u64);
                push_str(&mut out, " bytes, maximum is ");
                push_decimal(&mut out, *maximum as u64);
            },
        }
        assert(out@ =~= decode_error_text(self@));
        chars_to_string(out.as_slice())
    }
}

} // verus!
