use paperpad::framebuffer::Mono1Frame;
use paperpad::paperspoon::inbound::{
    read_inbound_message, read_session_message, InboundError, InboundErrorKind, InboundMessage,
    SessionMessage, MAX_INBOUND_LINE_BYTES,
};
use paperpad::v2::{encode_v2_message, V2MessageType};
use paperpad::v2_payload::{
    encode_v2_frame, V2Hello, V2PayloadError, V2Pointer, V2PointerPhase, V2Viewport,
};

fn read_one(input: &[u8]) -> Result<Option<InboundMessage>, InboundError> {
    let mut position = 0;
    read_inbound_message(input, &mut position)
}

#[test]
fn mixed_lines_and_pointer_messages_keep_exact_boundaries() {
    let down = V2Pointer::new(V2PointerPhase::Down, 0x1234, 0xabcd);
    let up = V2Pointer::new(V2PointerPhase::Up, u16::MAX, 0);
    let mut encoded = b"event action=media.play_pause;\r\n".to_vec();
    encoded.extend_from_slice(&down.encode_message().expect("encode down"));
    encoded.extend_from_slice(&up.encode_message().expect("encode up"));
    encoded.extend_from_slice(b"event action=tmux.work;\n");
    let mut position = 0;

    assert_eq!(
        read_inbound_message(&encoded, &mut position).expect("read action"),
        Some(InboundMessage::Line(
            "event action=media.play_pause;".to_string()
        ))
    );
    assert_eq!(
        read_inbound_message(&encoded, &mut position).expect("read down"),
        Some(InboundMessage::Pointer(down))
    );
    assert_eq!(
        read_inbound_message(&encoded, &mut position).expect("read up"),
        Some(InboundMessage::Pointer(up))
    );
    assert_eq!(
        read_inbound_message(&encoded, &mut position).expect("read second action"),
        Some(InboundMessage::Line("event action=tmux.work;".to_string()))
    );
    assert_eq!(
        read_inbound_message(&encoded, &mut position).expect("EOF"),
        None
    );
    assert_eq!(position, encoded.len());
}

#[test]
fn malformed_or_unexpected_v2_messages_are_rejected() {
    let malformed =
        encode_v2_message(V2MessageType::PointerDown, &[0; 3]).expect("encode malformed pointer");
    let error = read_one(&malformed).expect_err("invalid pointer length");
    assert_eq!(error.kind(), InboundErrorKind::InvalidData);
    assert_eq!(
        error,
        InboundError::Payload(V2PayloadError::InvalidLength {
            message_type: V2MessageType::PointerDown,
            expected: 4,
            actual: 3,
        })
    );

    let unexpected = V2Viewport::new(1272, 1624)
        .encode_message()
        .expect("encode viewport");
    let error = read_one(&unexpected).expect_err("unexpected viewport");
    assert_eq!(error.kind(), InboundErrorKind::InvalidData);
    assert_eq!(
        error,
        InboundError::UnexpectedMessage(V2MessageType::ViewportChanged)
    );
}

#[test]
fn legacy_lines_are_bounded_and_utf8_validated() {
    let mut exact = vec![b'x'; MAX_INBOUND_LINE_BYTES - 1];
    exact.push(b'\n');
    assert_eq!(
        read_one(&exact).expect("exact-limit line").expect("line"),
        InboundMessage::Line("x".repeat(MAX_INBOUND_LINE_BYTES - 1))
    );

    let oversized = vec![b'x'; MAX_INBOUND_LINE_BYTES + 1];
    assert_eq!(
        read_one(&oversized).expect_err("oversized line").kind(),
        InboundErrorKind::InvalidData
    );
    assert_eq!(
        read_one(&[0xff, b'\n']).expect_err("invalid UTF-8").kind(),
        InboundErrorKind::InvalidData
    );
}

#[test]
fn line_without_newline_ends_at_stream_end_and_keeps_its_cr() {
    let mut position = 0;
    let input = b"abc\r";
    assert_eq!(
        read_inbound_message(input, &mut position).unwrap(),
        Some(InboundMessage::Line("abc\r".to_string()))
    );
    assert_eq!(position, 4);
}

#[test]
fn newline_just_past_the_limit_is_too_long() {
    let mut input = vec![b'y'; MAX_INBOUND_LINE_BYTES];
    input.push(b'\n');
    let mut position = 0;
    assert_eq!(
        read_inbound_message(&input, &mut position),
        Err(InboundError::LineTooLong)
    );
    assert_eq!(position, 0);
}

#[test]
fn truncated_pointer_is_an_early_end() {
    let down = V2Pointer::new(V2PointerPhase::Down, 1, 2)
        .encode_message()
        .unwrap();
    let error = read_one(&down[..down.len() - 1]).expect_err("truncated pointer");
    assert_eq!(error, InboundError::Truncated);
    assert_eq!(error.kind(), InboundErrorKind::UnexpectedEof);
}

#[test]
fn session_reader_accepts_hello_viewport_pointer_and_lines_in_order() {
    let hello = V2Hello::new(1272, 1624);
    let viewport = V2Viewport::new(636, 740);
    let down = V2Pointer::new(V2PointerPhase::Down, 10, 20);
    let mut encoded = hello.encode_message().expect("encode hello");
    encoded.extend_from_slice(&viewport.encode_message().expect("encode viewport"));
    encoded.extend_from_slice(&down.encode_message().expect("encode pointer"));
    encoded.extend_from_slice(b"event action=tmux.work;\r\n");

    let mut position = 0;
    assert_eq!(read_session_message(&encoded, &mut position), Ok(Some(SessionMessage::Hello(hello))));
    assert_eq!(position, 20);
    assert_eq!(
        read_session_message(&encoded, &mut position),
        Ok(Some(SessionMessage::ViewportChanged(viewport)))
    );
    assert_eq!(position, 36);
    assert_eq!(read_session_message(&encoded, &mut position), Ok(Some(SessionMessage::Pointer(down))));
    assert_eq!(
        read_session_message(&encoded, &mut position),
        Ok(Some(SessionMessage::Line("event action=tmux.work;".to_string())))
    );
    assert_eq!(position, encoded.len());
    assert_eq!(read_session_message(&encoded, &mut position), Ok(None));
}

#[test]
fn session_reader_rejects_frames_and_truncation_without_moving() {
    let frame = Mono1Frame::new(8, 1, vec![0]).expect("frame");
    let encoded = encode_v2_frame(7, &frame).expect("encode frame");
    let mut position = 0;
    assert_eq!(
        read_session_message(&encoded, &mut position),
        Err(InboundError::UnexpectedMessage(V2MessageType::Frame))
    );
    assert_eq!(position, 0);
    assert_eq!(
        read_session_message(&encoded[..13], &mut position),
        Err(InboundError::Truncated)
    );
    assert_eq!(position, 0);
}
