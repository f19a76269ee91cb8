use paperpad::datagram::{
    format_discover, format_here, parse_discover, parse_here, DEFAULT_TCP_PORT,
};
use paperpad::framebuffer::{mono1_payload_len, mono1_stride, Mono1Frame, Mono1FrameError, Mono1Pixel};
use paperpad::v2::{
    decode_v2_message, encode_v2_message, V2DecodeError, V2DecodeResult, V2EncodeError, V2Header,
    V2MessageType, V2_HEADER_LEN, V2_MAX_PAYLOAD_LEN,
};
use paperpad::v2_payload::{
    decode_v2_payload, encode_v2_frame, V2Hello, V2Payload, V2PayloadError, V2PixelFormat,
    V2Pointer, V2PointerPhase, V2Viewport, MONO1_FORMAT_VALUE, V2_FRAME_PREFIX_LEN,
    V2_HELLO_PAYLOAD_LEN, V2_POINTER_PAYLOAD_LEN, V2_VIEWPORT_PAYLOAD_LEN,
};

// ---------------------------------------------------------------------------
// Mono1 frames
// ---------------------------------------------------------------------------

#[test]
fn stride_rounds_odd_widths_up_to_the_next_byte() {
    for (width, expected) in [
        (0, 0),
        (1, 1),
        (7, 1),
        (8, 1),
        (9, 2),
        (15, 2),
        (16, 2),
        (u16::MAX, 8192),
    ] {
        assert_eq!(mono1_stride(width), expected, "width={width}");
    }
    assert_eq!(mono1_payload_len(9, 3), Some(6));
    assert_eq!(mono1_payload_len(u16::MAX, u16::MAX), Some(536_862_720));
}

#[test]
fn exact_payload_length_is_required() {
    assert_eq!(
        Mono1Frame::new(9, 2, vec![0; 3]),
        Err(Mono1FrameError::PayloadLength {
            expected: 4,
            actual: 3,
        })
    );
    assert_eq!(
        Mono1Frame::new(9, 2, vec![0; 5]),
        Err(Mono1FrameError::PayloadLength {
            expected: 4,
            actual: 5,
        })
    );
    assert!(Mono1Frame::new(9, 2, vec![0; 4]).is_ok());
}

#[test]
fn zero_dimensions_do_not_form_remote_frames() {
    for (width, height) in [(0, 1), (1, 0), (0, 0)] {
        assert_eq!(
            Mono1Frame::new(width, height, Vec::new()),
            Err(Mono1FrameError::ZeroDimension { width, height })
        );
    }
}

#[test]
fn pixels_are_msb_first_across_bytes_and_rows() {
    let frame = Mono1Frame::new(
        9,
        2,
        vec![0b1000_0001, 0b1000_0000, 0b0100_0000, 0b0000_0000],
    )
    .expect("valid frame");

    assert_eq!(frame.stride(), 2);
    assert_eq!(frame.pixel(0, 0), Some(Mono1Pixel::Black));
    assert_eq!(frame.pixel(1, 0), Some(Mono1Pixel::White));
    assert_eq!(frame.pixel(7, 0), Some(Mono1Pixel::Black));
    assert_eq!(frame.pixel(8, 0), Some(Mono1Pixel::Black));
    assert_eq!(frame.pixel(0, 1), Some(Mono1Pixel::White));
    assert_eq!(frame.pixel(1, 1), Some(Mono1Pixel::Black));
    assert_eq!(frame.pixel(8, 1), Some(Mono1Pixel::White));
    assert_eq!(frame.pixel(9, 0), None);
    assert_eq!(frame.pixel(0, 2), None);
}

#[test]
fn all_white_and_all_black_frames_preserve_exact_bytes() {
    let white = Mono1Frame::new(10, 2, vec![0x00, 0x00, 0x00, 0x00]).expect("all-white frame");
    assert_eq!(white.width(), 10);
    assert_eq!(white.height(), 2);
    assert!((0..white.height())
        .all(|y| (0..white.width()).all(|x| white.pixel(x, y) == Some(Mono1Pixel::White))));

    let black = Mono1Frame::new(10, 2, vec![0xff, 0xc0, 0xff, 0xc0]).expect("all-black frame");
    assert!((0..black.height())
        .all(|y| (0..black.width()).all(|x| black.pixel(x, y) == Some(Mono1Pixel::Black))));
    assert_eq!(black.pixels(), &[0xff, 0xc0, 0xff, 0xc0]);
    assert_eq!(black.clone().into_pixels(), black.pixels());
}

#[test]
fn checkerboard_pattern_crosses_byte_boundary() {
    let frame = Mono1Frame::new(10, 2, vec![0xaa, 0x80, 0x55, 0x40]).expect("checkerboard frame");

    for y in 0..frame.height() {
        for x in 0..frame.width() {
            let expected = if (x + y) % 2 == 0 {
                Mono1Pixel::Black
            } else {
                Mono1Pixel::White
            };
            assert_eq!(frame.pixel(x, y), Some(expected), "({x}, {y})");
        }
    }
}

#[test]
fn nonwhite_unused_row_bits_are_rejected() {
    assert_eq!(
        Mono1Frame::new(9, 2, vec![0x00, 0x80, 0x00, 0x01]),
        Err(Mono1FrameError::NonWhitePadding { row: 1, byte: 1 })
    );
}

// ---------------------------------------------------------------------------
// Discovery datagrams
// ---------------------------------------------------------------------------

#[test]
fn discovery_request_roundtrip_preserves_nonce() {
    let request = format_discover("deadbeef");
    assert_eq!(request, "PAPERPAD DISCOVER deadbeef\n");
    assert_eq!(parse_discover(request.as_bytes()), Some("deadbeef".into()));
}

#[test]
fn discovery_request_parser_preserves_permissive_nonce_behavior() {
    assert_eq!(parse_discover(b"PAPERPAD DISCOVER "), None);
    assert_eq!(
        parse_discover(b"PAPERPAD DISCOVER nonce with spaces\n"),
        Some("nonce with spaces".into())
    );
    assert_eq!(parse_discover(b"BOGUS deadbeef"), None);
    assert_eq!(parse_discover(&[0xff]), None);
}

#[test]
fn discovery_response_roundtrip_preserves_nonce_and_port() {
    let response = format_here("deadbeef", DEFAULT_TCP_PORT);
    assert_eq!(response, "PAPERSPOON HERE deadbeef 5581\n");
    assert_eq!(
        parse_here(response.as_bytes()),
        Some(("deadbeef".into(), DEFAULT_TCP_PORT))
    );
}

#[test]
fn malformed_discovery_responses_are_rejected() {
    assert_eq!(parse_here(b""), None);
    assert_eq!(parse_here(b"PAPERSPOON HERE deadbeef"), None);
    assert_eq!(parse_here(b"PAPERSPOON HERE deadbeef 0"), None);
    assert_eq!(parse_here(b"PAPERSPOON HERE deadbeef 5581 extra"), None);
    assert_eq!(parse_here(b"PAPERSPOON HERE deadbeef notaport"), None);
    assert_eq!(parse_here(b"PAPERSPOON HERE deadbeef 65536"), None);
}

#[test]
fn discovery_parsers_accept_trailing_whitespace_and_a_plus_sign() {
    assert_eq!(
        parse_here(b"PAPERSPOON HERE abc +7 \r\n"),
        Some(("abc".into(), 7))
    );
    assert_eq!(
        parse_discover("PAPERPAD DISCOVER x\u{3000}".as_bytes()),
        Some("x".into())
    );
    assert_eq!(parse_here(b"PAPERSPOON HERE abc \xff"), None);
}

// ---------------------------------------------------------------------------
// Protocol-v2 framing
// ---------------------------------------------------------------------------

#[test]
fn header_encoding_is_fixed_width_and_big_endian() {
    let header = V2Header::new(V2MessageType::Frame, 0x01_02_03).expect("valid header");
    assert_eq!(
        header.encode(),
        [b'P', b'P', b'F', b'B', 2, 5, 0, 0, 0, 1, 2, 3]
    );
    assert_eq!(header.message_type(), V2MessageType::Frame);
    assert_eq!(header.payload_len(), 0x01_02_03);
}

#[test]
fn every_initial_message_type_roundtrips() {
    for message_type in [
        V2MessageType::Hello,
        V2MessageType::PointerDown,
        V2MessageType::PointerUp,
        V2MessageType::ViewportChanged,
        V2MessageType::Frame,
    ] {
        let encoded = encode_v2_message(message_type, b"payload").expect("encode");
        let V2DecodeResult::Complete { message, consumed } =
            decode_v2_message(&encoded).expect("decode")
        else {
            panic!("complete message expected");
        };
        assert_eq!(message.message_type(), message_type);
        assert_eq!(message.header().payload_len(), 7);
        assert_eq!(message.payload(), b"payload");
        assert_eq!(consumed, encoded.len());
    }
}

#[test]
fn partial_header_and_payload_report_additional_bytes() {
    let encoded = encode_v2_message(V2MessageType::Hello, b"hello").expect("encode");
    for available in 0..encoded.len() {
        let additional = if available < V2_HEADER_LEN {
            V2_HEADER_LEN - available
        } else {
            encoded.len() - available
        };
        assert_eq!(
            decode_v2_message(&encoded[..available]),
            Ok(V2DecodeResult::Incomplete { additional }),
            "available={available}"
        );
    }
}

#[test]
fn consecutive_messages_leave_precise_consumed_boundary() {
    let first = encode_v2_message(V2MessageType::Hello, b"one").expect("encode first");
    let second = encode_v2_message(V2MessageType::ViewportChanged, b"two").expect("encode second");
    let mut stream = first.clone();
    stream.extend_from_slice(&second);

    let V2DecodeResult::Complete { message, consumed } =
        decode_v2_message(&stream).expect("decode first")
    else {
        panic!("first message expected");
    };
    assert_eq!(message.payload(), b"one");
    assert_eq!(consumed, first.len());

    let V2DecodeResult::Complete { message, consumed } =
        decode_v2_message(&stream[consumed..]).expect("decode second")
    else {
        panic!("second message expected");
    };
    assert_eq!(message.message_type(), V2MessageType::ViewportChanged);
    assert_eq!(message.payload(), b"two");
    assert_eq!(consumed, second.len());
}

#[test]
fn invalid_header_fields_are_rejected() {
    let valid = V2Header::new(V2MessageType::Hello, 0)
        .expect("valid header")
        .encode();

    for (index, value, expected) in [
        (0, b'X', V2DecodeError::InvalidMagic(*b"XPFB")),
        (4, 3, V2DecodeError::UnsupportedVersion(3)),
        (5, 0xff, V2DecodeError::UnknownMessageType(0xff)),
    ] {
        let mut header = valid;
        header[index] = value;
        assert_eq!(decode_v2_message(&header), Err(expected));
    }

    let mut nonzero_flags = valid;
    nonzero_flags[6..8].copy_from_slice(&0x1234_u16.to_be_bytes());
    assert_eq!(
        decode_v2_message(&nonzero_flags),
        Err(V2DecodeError::NonZeroFlags(0x1234))
    );
}

#[test]
fn oversized_payload_is_rejected_from_header_alone() {
    assert_eq!(
        V2Header::new(V2MessageType::Frame, V2_MAX_PAYLOAD_LEN + 1),
        Err(V2EncodeError::PayloadTooLarge {
            length: V2_MAX_PAYLOAD_LEN + 1,
            maximum: V2_MAX_PAYLOAD_LEN,
        })
    );

    let mut header = V2Header::new(V2MessageType::Frame, 0)
        .expect("valid header")
        .encode();
    header[8..12].copy_from_slice(&((V2_MAX_PAYLOAD_LEN as u32) + 1).to_be_bytes());
    assert_eq!(
        decode_v2_message(&header),
        Err(V2DecodeError::PayloadTooLarge {
            length: V2_MAX_PAYLOAD_LEN + 1,
            maximum: V2_MAX_PAYLOAD_LEN,
        })
    );
}

#[test]
fn message_type_codes_are_stable() {
    let codes: Vec<u8> = [
        V2MessageType::Hello,
        V2MessageType::PointerDown,
        V2MessageType::PointerUp,
        V2MessageType::ViewportChanged,
        V2MessageType::Frame,
    ]
    .iter()
    .map(|message_type| message_type.code())
    .collect();
    assert_eq!(codes, vec![1, 2, 3, 4, 5]);
    assert_eq!(V2MessageType::from_code(4), Ok(V2MessageType::ViewportChanged));
    assert_eq!(
        V2MessageType::from_code(0),
        Err(V2DecodeError::UnknownMessageType(0))
    );
}

// ---------------------------------------------------------------------------
// Protocol-v2 payloads
// ---------------------------------------------------------------------------

fn typed_payload(encoded: &[u8]) -> Result<V2Payload<'_>, V2PayloadError> {
    let V2DecodeResult::Complete { message, consumed } =
        decode_v2_message(encoded).expect("valid framing")
    else {
        panic!("complete message expected");
    };
    assert_eq!(consumed, encoded.len());
    decode_v2_payload(message)
}

#[test]
fn hello_roundtrip_advertises_version_format_and_viewport() {
    let hello = V2Hello::new(1272, 1624);
    let encoded = hello.encode_message().expect("encode Hello");
    assert_eq!(&encoded[V2_HEADER_LEN..], &[2, 1, 0, 0, 0x04, 0xf8, 0x06, 0x58]);
    assert_eq!(typed_payload(&encoded), Ok(V2Payload::Hello(hello)));
    assert_eq!(hello.protocol_version(), 2);
    assert!(hello.supports(V2PixelFormat::Mono1));
}

#[test]
fn pointer_phase_comes_from_message_type_and_coordinates_are_big_endian() {
    for pointer in [
        V2Pointer::new(V2PointerPhase::Down, 0x1234, 0xabcd),
        V2Pointer::new(V2PointerPhase::Up, u16::MAX, 0),
    ] {
        let encoded = pointer.encode_message().expect("encode pointer");
        assert_eq!(
            &encoded[V2_HEADER_LEN..],
            &[
                (pointer.x() >> 8) as u8,
                pointer.x() as u8,
                (pointer.y() >> 8) as u8,
                pointer.y() as u8,
            ]
        );
        assert_eq!(typed_payload(&encoded), Ok(V2Payload::Pointer(pointer)));
    }
}

#[test]
fn viewport_roundtrip_allows_local_only_and_maximum_dimensions() {
    for viewport in [V2Viewport::new(1272, 0), V2Viewport::new(u16::MAX, u16::MAX)] {
        let encoded = viewport.encode_message().expect("encode viewport");
        assert_eq!(
            typed_payload(&encoded),
            Ok(V2Payload::ViewportChanged(viewport))
        );
    }
}

#[test]
fn mono1_frame_roundtrip_borrows_validated_pixels() {
    let frame = Mono1Frame::new(9, 2, vec![0xaa, 0x80, 0x55, 0x00]).expect("Mono1 frame");
    let encoded = encode_v2_frame(0x0102_0304_0506_0708, &frame).expect("encode Frame");
    assert_eq!(
        &encoded[V2_HEADER_LEN..V2_HEADER_LEN + V2_FRAME_PREFIX_LEN],
        &[1, 2, 3, 4, 5, 6, 7, 8, 0, 9, 0, 2, 1, 0, 0, 0,]
    );

    let Ok(V2Payload::Frame(decoded)) = typed_payload(&encoded) else {
        panic!("decoded Frame expected");
    };
    assert_eq!(decoded.frame_id(), 0x0102_0304_0506_0708);
    assert_eq!((decoded.width(), decoded.height()), (9, 2));
    assert_eq!(decoded.stride(), 2);
    assert_eq!(decoded.pixel_format(), V2PixelFormat::Mono1);
    assert_eq!(decoded.pixels(), frame.pixels());
    assert_eq!(decoded.to_owned_frame(), Ok(frame));
}

#[test]
fn fixed_payloads_require_exact_lengths() {
    for (message_type, payload, expected) in [
        (V2MessageType::Hello, &[][..], V2_HELLO_PAYLOAD_LEN),
        (V2MessageType::PointerDown, &[0, 1, 0][..], V2_POINTER_PAYLOAD_LEN),
        (V2MessageType::PointerUp, &[0; 5][..], V2_POINTER_PAYLOAD_LEN),
        (V2MessageType::ViewportChanged, &[0; 5][..], V2_VIEWPORT_PAYLOAD_LEN),
    ] {
        let encoded = encode_v2_message(message_type, payload).expect("encode malformed body");
        assert_eq!(
            typed_payload(&encoded),
            Err(V2PayloadError::InvalidLength {
                message_type,
                expected,
                actual: payload.len(),
            })
        );
    }
}

#[test]
fn hello_rejects_version_format_and_reserved_mismatches() {
    for (index, value, expected) in [
        (0, 3, V2PayloadError::HelloVersion(3)),
        (1, 0, V2PayloadError::UnsupportedPixelFormatMask(0)),
        (
            2,
            1,
            V2PayloadError::NonZeroReserved {
                message_type: V2MessageType::Hello,
                value: 0x0100,
            },
        ),
    ] {
        let mut payload = [2, 1, 0, 0, 0, 1, 0, 1];
        payload[index] = value;
        let encoded = encode_v2_message(V2MessageType::Hello, &payload).expect("encode");
        assert_eq!(typed_payload(&encoded), Err(expected));
    }
}

#[test]
fn frame_rejects_bad_metadata_and_mono1_payload() {
    let truncated = encode_v2_message(V2MessageType::Frame, &[0; 15]).expect("encode");
    assert_eq!(
        typed_payload(&truncated),
        Err(V2PayloadError::TruncatedFrameMetadata {
            minimum: V2_FRAME_PREFIX_LEN,
            actual: 15,
        })
    );

    let mut payload = [0; V2_FRAME_PREFIX_LEN + 1];
    payload[8..10].copy_from_slice(&1_u16.to_be_bytes());
    payload[10..12].copy_from_slice(&1_u16.to_be_bytes());
    payload[12] = MONO1_FORMAT_VALUE;

    payload[12] = 2;
    let encoded = encode_v2_message(V2MessageType::Frame, &payload).expect("encode");
    assert_eq!(
        typed_payload(&encoded),
        Err(V2PayloadError::UnsupportedPixelFormat(2))
    );

    payload[12] = MONO1_FORMAT_VALUE;
    payload[15] = 1;
    let encoded = encode_v2_message(V2MessageType::Frame, &payload).expect("encode");
    assert_eq!(
        typed_payload(&encoded),
        Err(V2PayloadError::NonZeroReserved {
            message_type: V2MessageType::Frame,
            value: 1,
        })
    );

    payload[15] = 0;
    payload[8..10].copy_from_slice(&9_u16.to_be_bytes());
    let encoded = encode_v2_message(V2MessageType::Frame, &payload).expect("encode");
    assert_eq!(
        typed_payload(&encoded),
        Err(V2PayloadError::Mono1(Mono1FrameError::PayloadLength {
            expected: 2,
            actual: 1,
        }))
    );

    payload[8..10].copy_from_slice(&1_u16.to_be_bytes());
    payload[V2_FRAME_PREFIX_LEN] = 1;
    let encoded = encode_v2_message(V2MessageType::Frame, &payload).expect("encode");
    assert_eq!(
        typed_payload(&encoded),
        Err(V2PayloadError::Mono1(Mono1FrameError::NonWhitePadding {
            row: 0,
            byte: 1,
        }))
    );
}
