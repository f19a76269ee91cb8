use paperpad::line_reader::{read_bounded_line, LineAssembler, ReadFrameError};
use paperpad::transport::{
    format_discovery_message, format_stream_message, AckStatus, DiscoveryMessage, ProtocolError,
    StreamMessage, MAX_DISCOVERY_DATAGRAM_BYTES, MAX_DISPLAY_TEXT_BYTES,
};
use paperpad::transport_parse::{parse_discovery_message, parse_stream_message};

const ID_A: &str = "0123456789abcdef0123456789abcdef";
const ID_B: &str = "fedcba9876543210fedcba9876543210";

#[test]
fn discovery_round_trips() {
    let messages = [
        DiscoveryMessage::Discover {
            nonce: ID_A.to_string(),
        },
        DiscoveryMessage::Offer {
            nonce: ID_A.to_string(),
            companion: ID_B.to_string(),
            port: 5581,
        },
    ];
    for expected in messages {
        let encoded = format_discovery_message(&expected).expect("format discovery");
        assert_eq!(
            parse_discovery_message(encoded.as_bytes()).expect("parse discovery"),
            expected
        );
    }
}

#[test]
fn stream_messages_round_trip() {
    let messages = [
        StreamMessage::Hello {
            session: ID_A.to_string(),
        },
        StreamMessage::Welcome {
            companion: ID_B.to_string(),
        },
        StreamMessage::Event {
            session: ID_A.to_string(),
            seq: u64::MAX,
            action: "media.play_pause".to_string(),
        },
        StreamMessage::Ack {
            session: ID_A.to_string(),
            seq: 42,
            status: AckStatus::Logged,
        },
        StreamMessage::Display {
            text: "hello world".to_string(),
        },
        StreamMessage::LegacyEvent {
            action: "tmux.work".to_string(),
        },
    ];
    for expected in messages {
        let encoded = format_stream_message(&expected).expect("format stream");
        assert_eq!(parse_stream_message(&encoded).expect("parse stream"), expected);
    }
}

#[test]
fn parser_rejects_versions_fields_overflow_and_controls() {
    assert!(matches!(
        parse_stream_message(&format!("hello v=2 session={ID_A};")),
        Err(ProtocolError::UnsupportedVersion(_))
    ));
    assert!(matches!(
        parse_stream_message(&format!("hello v=1 v=1 session={ID_A};")),
        Err(ProtocolError::DuplicateField(_))
    ));
    assert!(matches!(
        parse_stream_message(&format!("hello v=1 session={ID_A} surprise=yes;")),
        Err(ProtocolError::UnknownField(_))
    ));
    assert!(parse_stream_message(&format!("hello v=1 session={ID_A} x-future=yes;")).is_ok());
    assert!(matches!(
        parse_stream_message(&format!(
            "event v=1 session={ID_A} seq=18446744073709551616 action=tmux.work;"
        )),
        Err(ProtocolError::InvalidValue { field: "seq", .. })
    ));
    assert!(matches!(
        parse_stream_message("display bad\ttext"),
        Err(ProtocolError::ControlCharacter)
    ));
}

#[test]
fn malformed_versioned_event_never_falls_back_to_legacy() {
    assert!(matches!(
        parse_stream_message("event v=1 action=media.next;"),
        Err(ProtocolError::MissingField("session"))
    ));
    assert!(matches!(
        parse_stream_message("event action=media.next"),
        Err(ProtocolError::MissingTerminator)
    ));
}

#[test]
fn channel_and_size_boundaries_are_enforced() {
    let discovery = format!("discover v=1 nonce={ID_A};");
    assert!(matches!(
        parse_stream_message(&discovery),
        Err(ProtocolError::WrongChannel("TCP stream"))
    ));
    let hello = format!("hello v=1 session={ID_A};");
    assert!(matches!(
        parse_discovery_message(hello.as_bytes()),
        Err(ProtocolError::WrongChannel("UDP discovery"))
    ));
    let oversized = vec![b'x'; MAX_DISCOVERY_DATAGRAM_BYTES + 1];
    assert!(matches!(
        parse_discovery_message(&oversized),
        Err(ProtocolError::TooLong { .. })
    ));
    assert!(matches!(
        parse_discovery_message(format!("discover\tv=1 nonce={ID_A};").as_bytes()),
        Err(ProtocolError::ControlCharacter)
    ));
    assert!(format_stream_message(&StreamMessage::Display {
        text: "x".repeat(MAX_DISPLAY_TEXT_BYTES),
    })
    .is_ok());
    assert!(matches!(
        format_stream_message(&StreamMessage::Display {
            text: "x".repeat(MAX_DISPLAY_TEXT_BYTES + 1),
        }),
        Err(ProtocolError::TooLong { .. })
    ));
}

#[test]
fn bounded_reader_drains_oversized_line_and_recovers() {
    let input = format!("{}\nhello\r\n", "x".repeat(9)).into_bytes();
    let mut position = 0;
    assert!(matches!(
        read_bounded_line(&input, &mut position, 8),
        Err(ReadFrameError::TooLong { limit: 8 })
    ));
    assert_eq!(
        read_bounded_line(&input, &mut position, 8).expect("read next frame"),
        Some("hello".to_string())
    );
    assert_eq!(read_bounded_line(&input, &mut position, 8).expect("read eof"), None);
}

#[test]
fn bounded_reader_rejects_invalid_utf8_without_poisoning_next_line() {
    let input = vec![0xff, b'\n', b'o', b'k', b'\n'];
    let mut position = 0;
    assert!(matches!(
        read_bounded_line(&input, &mut position, 8),
        Err(ReadFrameError::InvalidUtf8)
    ));
    assert_eq!(
        read_bounded_line(&input, &mut position, 8).expect("read next frame"),
        Some("ok".to_string())
    );
}

#[test]
fn formatted_lines_have_the_documented_wire_form() {
    assert_eq!(
        format_discovery_message(&DiscoveryMessage::Offer {
            nonce: ID_A.to_string(),
            companion: ID_B.to_string(),
            port: 5581,
        })
        .unwrap(),
        format!("offer v=1 nonce={ID_A} companion={ID_B} port=5581;")
    );
    assert_eq!(
        format_stream_message(&StreamMessage::Ack {
            session: ID_A.to_string(),
            seq: 42,
            status: AckStatus::Logged,
        })
        .unwrap(),
        format!("ack v=1 session={ID_A} seq=42 status=logged;\n")
    );
    assert_eq!(AckStatus::Logged.as_str(), "logged");
}

#[test]
fn invalid_fields_are_refused_when_formatting() {
    assert_eq!(
        format_discovery_message(&DiscoveryMessage::Discover {
            nonce: "short".to_string(),
        }),
        Err(ProtocolError::InvalidValue {
            field: "nonce",
            value: "short".to_string(),
        })
    );
    assert_eq!(
        format_discovery_message(&DiscoveryMessage::Offer {
            nonce: ID_A.to_string(),
            companion: ID_B.to_string(),
            port: 0,
        }),
        Err(ProtocolError::InvalidValue {
            field: "port",
            value: "0".to_string(),
        })
    );
    assert_eq!(
        format_stream_message(&StreamMessage::LegacyEvent {
            action: "Bad".to_string(),
        }),
        Err(ProtocolError::InvalidValue {
            field: "action",
            value: "Bad".to_string(),
        })
    );
    assert_eq!(
        format_stream_message(&StreamMessage::Display {
            text: String::new(),
        }),
        Err(ProtocolError::MissingField("text"))
    );
}

#[test]
fn parse_errors_name_the_offending_part() {
    assert_eq!(parse_stream_message("\n"), Err(ProtocolError::Empty));
    assert_eq!(
        parse_stream_message("display"),
        Err(ProtocolError::MissingField("text"))
    );
    assert_eq!(
        parse_stream_message("display: a note\r\n"),
        Ok(StreamMessage::Display {
            text: "a note".to_string()
        })
    );
    assert_eq!(
        parse_stream_message("bogus;"),
        Err(ProtocolError::UnknownMessage("bogus".to_string()))
    );
    assert_eq!(
        parse_stream_message("nope v=1;"),
        Err(ProtocolError::UnknownMessage("nope".to_string()))
    );
    assert_eq!(
        parse_stream_message(&format!("hello v=1 session={ID_A} ;")),
        Err(ProtocolError::MalformedField(format!("hello v=1 session={ID_A} ")))
    );
    assert_eq!(
        parse_stream_message("hello v=1 token;"),
        Err(ProtocolError::MalformedField("token".to_string()))
    );
    assert_eq!(
        parse_stream_message("hello session=a=b;"),
        Err(ProtocolError::MalformedField("session=a=b".to_string()))
    );
    assert_eq!(
        parse_stream_message(&format!("offer v=1 nonce={ID_A} companion={ID_B} port=5;")),
        Err(ProtocolError::WrongChannel("TCP stream"))
    );
    assert_eq!(
        parse_discovery_message(format!("offer v=1 nonce={ID_A} companion={ID_B} port=0;").as_bytes()),
        Err(ProtocolError::InvalidValue {
            field: "port",
            value: "0".to_string()
        })
    );
    assert_eq!(parse_discovery_message(&[0xc3]), Err(ProtocolError::InvalidUtf8));
    assert_eq!(
        parse_stream_message(&format!("ack v=1 session={ID_A} seq=1 status=done;")),
        Err(ProtocolError::InvalidValue {
            field: "status",
            value: "done".to_string()
        })
    );
}

#[test]
fn assembler_gives_the_same_line_whatever_the_chunking() {
    let mut assembler = LineAssembler::new(16);
    assert_eq!(assembler.feed(b"he"), 2);
    assert!(!assembler.is_complete());
    assert_eq!(assembler.feed(b"llo\r\nnext"), 5);
    assert!(assembler.is_complete());
    assert_eq!(assembler.finish().unwrap(), Some("hello".to_string()));

    let mut assembler = LineAssembler::new(3);
    assert_eq!(assembler.feed(b"ab"), 2);
    assert_eq!(assembler.feed(b"cd\n"), 3);
    assert!(matches!(
        assembler.finish(),
        Err(ReadFrameError::TooLong { limit: 3 })
    ));

    let assembler = LineAssembler::new(3);
    assert_eq!(assembler.finish().unwrap(), None);
}

#[test]
fn hex_id_gives_two_lowercase_digits_per_byte() {
    assert_eq!(paperpad::text::hex_id(&[0x00, 0xab, 0x7f, 0x10]), "00ab7f10");
    assert_eq!(paperpad::text::hex_id(&[0xff; 16]), "ffffffffffffffffffffffffffffffff");
    assert_eq!(paperpad::text::hex_id(&[]), "");
}

#[test]
fn generated_id_has_the_protocol_shape() {
    for random in [[0u8; 16], [0xff; 16], [0x0f, 0xa0, 0x3c, 0x99, 1, 2, 3, 4, 5, 6, 7, 8, 9, 10, 11, 200]] {
        let id = paperpad::text::hex_id(&random);
        assert_eq!(id.len(), paperpad::transport::HEX_ID_BYTES);
        assert!(id.bytes().all(|byte| byte.is_ascii_hexdigit()));
        assert!(format_stream_message(&StreamMessage::Hello { session: id }).is_ok());
    }
}

#[test]
fn display_text_at_the_limit_formats_and_one_byte_more_is_refused() {
    let at_limit = StreamMessage::Display { text: "x".repeat(MAX_DISPLAY_TEXT_BYTES) };
    let line = format_stream_message(&at_limit).expect("256-byte display text");
    assert!(line.ends_with('\n'));
    assert_eq!(parse_stream_message(&line), Ok(at_limit));
    assert_eq!(
        format_stream_message(&StreamMessage::Display { text: "x".repeat(257) }),
        Err(ProtocolError::TooLong { limit: 256, actual: 257 })
    );
    let event = StreamMessage::Event {
        session: ID_A.to_string(),
        seq: u64::MAX,
        action: "a".repeat(64),
    };
    let line = format_stream_message(&event).expect("largest event");
    assert_eq!(parse_stream_message(&line), Ok(event));
}
