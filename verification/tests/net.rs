use paperpad::framebuffer::Mono1Frame;
use paperpad::net::{
    read_inbound_frame, read_v2_frame, FrameDimensionMismatch, FrameMailbox, InboundError,
    InboundErrorKind, ReceivedFrame,
};
use paperpad::v2::{V2MessageType, V2_HEADER_LEN, V2_MAGIC, V2_MAX_PAYLOAD_LEN, V2_VERSION};
use paperpad::v2_payload::{encode_v2_frame, V2Hello};

fn received_frame(frame_id: u64, width: u16, height: u16, pixels: Vec<u8>) -> ReceivedFrame {
    let frame = Mono1Frame::new(width, height, pixels).expect("valid Mono1");
    let encoded = encode_v2_frame(frame_id, &frame).expect("encode Frame");
    let mut position = 0;
    let received = read_v2_frame(&encoded, &mut position).expect("decode Frame");
    assert_eq!(position, encoded.len());
    received
}

#[test]
fn frame_mailbox_accepts_matching_frame_and_coalesces_latest() {
    let mut mailbox = FrameMailbox::default();
    mailbox.set_viewport((9, 2));
    mailbox
        .publish(received_frame(1, 9, 2, vec![0xaa, 0x80, 0x55, 0x00]))
        .expect("matching frame");
    mailbox
        .publish(received_frame(2, 9, 2, vec![0x00; 4]))
        .expect("replacement frame");

    let frame = mailbox.take().expect("pending frame");
    assert_eq!(frame.frame_id(), 2);
    assert_eq!((frame.width(), frame.height()), (9, 2));
    assert_eq!(frame.stride(), 2);
    assert_eq!(frame.pixels(), &[0x00; 4]);
    assert_eq!(mailbox.take(), None);
}

#[test]
fn mismatched_frame_does_not_replace_valid_pending_frame() {
    let mut mailbox = FrameMailbox::default();
    mailbox.set_viewport((8, 2));
    mailbox
        .publish(received_frame(3, 8, 2, vec![0xff; 2]))
        .expect("matching frame");

    assert_eq!(
        mailbox
            .publish(received_frame(4, 8, 1, vec![0x00]))
            .expect_err("mismatched frame"),
        FrameDimensionMismatch {
            expected: (8, 2),
            actual: (8, 1),
        }
    );
    assert_eq!(mailbox.take().expect("original frame").frame_id(), 3);
}

#[test]
fn viewport_change_discards_only_incompatible_pending_frame() {
    let mut mailbox = FrameMailbox::default();
    mailbox.set_viewport((8, 2));
    mailbox
        .publish(received_frame(5, 8, 2, vec![0x00; 2]))
        .expect("matching frame");
    mailbox.set_viewport((8, 2));
    assert_eq!(mailbox.take().expect("compatible frame").frame_id(), 5);

    mailbox
        .publish(received_frame(6, 8, 2, vec![0xff; 2]))
        .expect("matching frame");
    mailbox.set_viewport((9, 2));
    assert_eq!(mailbox.take(), None);
}

#[test]
fn empty_mailbox_rejects_frames_until_a_viewport_is_set() {
    let mut mailbox = FrameMailbox::new();
    assert_eq!(
        mailbox.publish(received_frame(1, 8, 1, vec![0x00])),
        Err(FrameDimensionMismatch {
            expected: (0, 0),
            actual: (8, 1),
        })
    );
    assert_eq!(mailbox.take(), None);
}

#[test]
fn mismatch_message_names_both_sizes() {
    let mismatch = FrameDimensionMismatch {
        expected: (1272, 1624),
        actual: (8, 1),
    };
    assert_eq!(
        mismatch.message(),
        "frame dimensions 8x1 do not match remote viewport 1272x1624"
    );
}

#[test]
fn inbound_reader_accepts_consecutive_binary_frames() {
    let first = Mono1Frame::new(9, 2, vec![0xaa, 0x80, 0x55, 0x00]).expect("valid first Mono1");
    let second = Mono1Frame::new(8, 1, vec![0xff]).expect("valid second Mono1");
    let mut stream = encode_v2_frame(7, &first).expect("encode first Frame");
    stream.extend_from_slice(&encode_v2_frame(8, &second).expect("encode second Frame"));
    let mut position = 0;

    let frame = read_inbound_frame(&stream, &mut position)
        .expect("read first frame")
        .expect("first frame");
    assert_eq!(frame.frame_id(), 7);
    assert_eq!((frame.width(), frame.height(), frame.stride()), (9, 2, 2));
    assert_eq!(frame.pixels(), &[0xaa, 0x80, 0x55, 0x00]);

    let frame = read_inbound_frame(&stream, &mut position)
        .expect("read second frame")
        .expect("second frame");
    assert_eq!(frame.frame_id(), 8);
    assert_eq!((frame.width(), frame.height(), frame.stride()), (8, 1, 1));
    assert_eq!(frame.pixels(), &[0xff]);
    assert!(read_inbound_frame(&stream, &mut position)
        .expect("read EOF")
        .is_none());
}

#[test]
fn inbound_reader_rejects_malformed_or_unexpected_v2_messages() {
    let frame = Mono1Frame::new(8, 1, vec![0x00]).expect("valid Mono1");
    let mut malformed = encode_v2_frame(8, &frame).expect("encode Frame");
    malformed[V2_HEADER_LEN + 13] = 1;
    assert_eq!(
        read_inbound_frame(&malformed, &mut 0)
            .expect_err("nonzero Frame reserved byte")
            .kind(),
        InboundErrorKind::InvalidData
    );

    let hello = V2Hello::new(8, 1).encode_message().expect("encode Hello");
    let error = read_inbound_frame(&hello, &mut 0).expect_err("unexpected inbound Hello");
    assert_eq!(error.kind(), InboundErrorKind::InvalidData);
    assert_eq!(error, InboundError::UnexpectedMessage(V2MessageType::Hello));
}

#[test]
fn inbound_reader_rejects_oversized_v2_header_before_payload() {
    let mut header = [0_u8; V2_HEADER_LEN];
    header[0..4].copy_from_slice(&V2_MAGIC);
    header[4] = V2_VERSION;
    header[5] = V2MessageType::Frame.code();
    header[8..12].copy_from_slice(&((V2_MAX_PAYLOAD_LEN + 1) as u32).to_be_bytes());

    assert_eq!(
        read_inbound_frame(&header, &mut 0)
            .expect_err("oversized payload header")
            .kind(),
        InboundErrorKind::InvalidData
    );
}

#[test]
fn truncated_frame_is_an_early_end_and_leaves_the_position() {
    let frame = Mono1Frame::new(8, 1, vec![0x00]).expect("valid Mono1");
    let encoded = encode_v2_frame(9, &frame).expect("encode Frame");
    let truncated = &encoded[..encoded.len() - 1];
    let mut position = 0;
    let error = read_inbound_frame(truncated, &mut position).expect_err("truncated frame");
    assert_eq!(error, InboundError::Truncated);
    assert_eq!(error.kind(), InboundErrorKind::UnexpectedEof);
    assert_eq!(position, 0);
}
