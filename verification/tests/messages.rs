use paperpad::framebuffer::Mono1FrameError;
use paperpad::transport::ProtocolError;
use paperpad::v2::{V2DecodeError, V2EncodeError, V2MessageType};
use paperpad::v2_payload::V2PayloadError;

#[test]
fn mono1_errors_describe_the_offending_values() {
    assert_eq!(
        Mono1FrameError::ZeroDimension {
            width: 0,
            height: 7
        }
        .message(),
        "Mono1 frame dimensions must be nonzero, got 0x7"
    );
    assert_eq!(
        Mono1FrameError::PayloadLength {
            expected: 4,
            actual: 3
        }
        .message(),
        "Mono1 payload length mismatch: expected 4 bytes, got 3"
    );
    assert_eq!(
        Mono1FrameError::NonWhitePadding { row: 2, byte: 0x0a }.message(),
        "Mono1 row 2 has non-white trailing bits in byte 0x0a"
    );
    assert_eq!(
        Mono1FrameError::PayloadSizeOverflow {
            width: 65535,
            height: 65535
        }
        .message(),
        "Mono1 payload size overflows usize for 65535x65535"
    );
}

#[test]
fn v2_errors_describe_the_offending_values() {
    assert_eq!(
        V2EncodeError::PayloadTooLarge {
            length: 20,
            maximum: 16
        }
        .message(),
        "protocol-v2 payload is 20 bytes, maximum is 16"
    );
    assert_eq!(
        V2DecodeError::InvalidMagic([0x50, 0x0f, 0xab, 0x00]).message(),
        "invalid protocol-v2 magic [50, 0f, ab, 00]"
    );
    assert_eq!(
        V2DecodeError::NonZeroFlags(0x1f).message(),
        "protocol-v2 reserved flags must be zero, got 0x001f"
    );
    assert_eq!(
        V2DecodeError::UnknownMessageType(9).message(),
        "unknown protocol-v2 message type 9"
    );
    assert_eq!(
        V2PayloadError::InvalidLength {
            message_type: V2MessageType::PointerDown,
            expected: 4,
            actual: 3
        }
        .message(),
        "PointerDown payload must be 4 bytes, got 3"
    );
    assert_eq!(
        V2PayloadError::NonZeroReserved {
            message_type: V2MessageType::Frame,
            value: 0x10203
        }
        .message(),
        "Frame reserved payload bytes must be zero, got 0x10203"
    );
    assert_eq!(
        V2PayloadError::UnsupportedPixelFormatMask(3).message(),
        "Hello has unsupported pixel-format mask 0x03"
    );
    assert_eq!(
        V2PayloadError::Mono1(Mono1FrameError::ZeroDimension {
            width: 1,
            height: 0
        })
        .message(),
        "invalid Mono1 frame payload: Mono1 frame dimensions must be nonzero, got 1x0"
    );
}

#[test]
fn protocol_errors_name_the_field_and_value() {
    assert_eq!(
        ProtocolError::InvalidValue {
            field: "port",
            value: "0".to_string()
        }
        .message(),
        "invalid value '0' for field 'port'"
    );
    assert_eq!(
        ProtocolError::TooLong {
            limit: 1024,
            actual: 1025
        }
        .message(),
        "protocol message is 1025 bytes; limit is 1024"
    );
    assert_eq!(
        ProtocolError::WrongChannel("UDP discovery").message(),
        "message is not valid on UDP discovery"
    );
    assert_eq!(
        ProtocolError::MissingTerminator.message(),
        "versioned protocol message lacks ';' terminator"
    );
}
