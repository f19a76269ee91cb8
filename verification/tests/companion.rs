use paperpad::companion::{
    discovery_reply, operator_input, validate_identity, CliError, CompanionSession, Config,
    DedupCache, DiscoveryReply, LineAction, OperatorInput, DEDUP_CAPACITY, DEFAULT_IDENTITY_FILE,
    DEFAULT_LOG_FILE, USAGE,
};
use paperpad::transport::{
    format_discovery_message, format_stream_message, AckStatus, DiscoveryMessage, ProtocolError,
    StreamMessage, DEFAULT_DISCOVERY_PORT, DEFAULT_TCP_PORT,
};
use paperpad::transport_parse::parse_discovery_message;

const SESSION: &str = "0123456789abcdef0123456789abcdef";
const COMPANION: &str = "fedcba9876543210fedcba9876543210";

fn args(values: &[&str]) -> Vec<String> {
    values.iter().map(|value| value.to_string()).collect()
}

#[test]
fn cli_is_backward_compatible_but_rejects_invalid_configuration() {
    let config = Config::from_args(&args(&["companion"]), None).expect("default config");
    assert_eq!(
        config,
        Config {
            port: DEFAULT_TCP_PORT,
            discovery_port: DEFAULT_DISCOVERY_PORT,
            log_path: DEFAULT_LOG_FILE.to_string(),
            identity_path: DEFAULT_IDENTITY_FILE.to_string(),
        }
    );
    let configured = Config::from_args(
        &args(&["companion", "6000", "/tmp/log", "/tmp/id", "6001"]),
        None,
    )
    .expect("configured CLI");
    assert_eq!(configured.port, 6000);
    assert_eq!(configured.discovery_port, 6001);
    assert_eq!(configured.log_path, "/tmp/log");
    assert_eq!(configured.identity_path, "/tmp/id");
    assert!(Config::from_args(&args(&["companion", "0"]), None).is_err());
    assert!(Config::from_args(&args(&["companion", "not-a-port"]), None).is_err());
    assert!(Config::from_args(&args(&["companion", "5581", "log", "id", "0"]), None).is_err());
    assert!(Config::from_args(
        &args(&["companion", "5581", "log", "id", "5580", "extra"]),
        None
    )
    .is_err());
}

#[test]
fn identity_file_falls_back_to_the_environment_and_errors_name_the_value() {
    let config = Config::from_args(&args(&["companion", "6000", "log"]), Some("/env/id"))
        .expect("environment identity");
    assert_eq!(config.identity_path, "/env/id");
    let config = Config::from_args(&args(&["companion", "6000", "log", "/arg/id"]), Some("/env/id"))
        .expect("argument identity");
    assert_eq!(config.identity_path, "/arg/id");

    let error = Config::from_args(&args(&["companion", "x"]), None).unwrap_err();
    assert_eq!(error, CliError::InvalidTcpPort("x".to_string()));
    assert_eq!(error.message(), "invalid TCP port 'x'");
    let error = Config::from_args(&args(&["companion", "1", "l", "i", "65536"]), None).unwrap_err();
    assert_eq!(error.message(), "invalid discovery port '65536'");
    let error = Config::from_args(&args(&["a", "b", "c", "d", "e", "f"]), None).unwrap_err();
    assert_eq!(error, CliError::Usage);
    assert_eq!(error.message(), USAGE);
}

#[test]
fn dedup_cache_is_bounded() {
    let mut cache = DedupCache::new(2);
    cache.insert(SESSION.to_string(), 1);
    cache.insert(SESSION.to_string(), 2);
    cache.insert(SESSION.to_string(), 3);
    assert!(!cache.contains(SESSION, 1));
    assert!(cache.contains(SESSION, 2));
    assert!(cache.contains(SESSION, 3));
}

#[test]
fn dedup_cache_ignores_repeats_and_zero_capacity() {
    let mut cache = DedupCache::new(2);
    cache.insert(SESSION.to_string(), 1);
    cache.insert(SESSION.to_string(), 1);
    cache.insert(COMPANION.to_string(), 1);
    assert!(cache.contains(SESSION, 1));
    assert!(cache.contains(COMPANION, 1));

    let mut empty = DedupCache::new(0);
    empty.insert(SESSION.to_string(), 1);
    assert!(!empty.contains(SESSION, 1));
}

fn line(message: &StreamMessage) -> String {
    let text = format_stream_message(message).expect("format");
    text.trim_end_matches('\n').to_string()
}

#[test]
fn connection_negotiates_once_logs_events_once_and_acknowledges_each() {
    let mut dedup = DedupCache::new(DEDUP_CAPACITY);
    let mut session = CompanionSession::new();

    assert_eq!(session.on_line("", COMPANION, &dedup), LineAction::Skip);
    assert!(matches!(
        session.on_line("hello v=2 session=abc;", COMPANION, &dedup),
        LineAction::Rejected(_)
    ));

    let event = StreamMessage::Event {
        session: SESSION.to_string(),
        seq: 7,
        action: "media.next".to_string(),
    };
    assert_eq!(
        session.on_line(&line(&event), COMPANION, &dedup),
        LineAction::UnnegotiatedEvent
    );

    let hello = StreamMessage::Hello {
        session: SESSION.to_string(),
    };
    assert_eq!(
        session.on_line(&line(&hello), COMPANION, &dedup),
        LineAction::Reply(StreamMessage::Welcome {
            companion: COMPANION.to_string()
        })
    );
    assert_eq!(
        session.on_line(&line(&hello), COMPANION, &dedup),
        LineAction::RepeatedHello
    );

    let wrong_session = StreamMessage::Event {
        session: COMPANION.to_string(),
        seq: 99,
        action: "media.next".to_string(),
    };
    assert_eq!(
        session.on_line(&line(&wrong_session), COMPANION, &dedup),
        LineAction::UnnegotiatedEvent
    );

    let ack = StreamMessage::Ack {
        session: SESSION.to_string(),
        seq: 7,
        status: AckStatus::Logged,
    };
    let first = session.on_line(&line(&event), COMPANION, &dedup);
    assert_eq!(
        first,
        LineAction::LogEvent {
            record: line(&event),
            session: SESSION.to_string(),
            seq: 7,
            ack: ack.clone(),
        }
    );
    dedup.insert(SESSION.to_string(), 7);
    assert_eq!(
        session.on_line(&line(&event), COMPANION, &dedup),
        LineAction::Duplicate {
            session: SESSION.to_string(),
            seq: 7,
            ack,
        }
    );

    let legacy = StreamMessage::LegacyEvent {
        action: "tmux.work".to_string(),
    };
    assert_eq!(
        session.on_line(&line(&legacy), COMPANION, &dedup),
        LineAction::LogLegacy {
            record: "event action=tmux.work;".to_string()
        }
    );
    let display = StreamMessage::Display {
        text: "hello".to_string(),
    };
    assert_eq!(
        session.on_line(&line(&display), COMPANION, &dedup),
        LineAction::WrongDirection
    );
}

#[test]
fn discovery_echoes_nonce_and_names_the_companion() {
    let discover = format_discovery_message(&DiscoveryMessage::Discover {
        nonce: SESSION.to_string(),
    })
    .expect("format discover");
    let DiscoveryReply::Offer(offer) = discovery_reply(discover.as_bytes(), COMPANION, 6000) else {
        panic!("offer expected");
    };
    assert_eq!(
        parse_discovery_message(offer.as_bytes()).expect("parse offer"),
        DiscoveryMessage::Offer {
            nonce: SESSION.to_string(),
            companion: COMPANION.to_string(),
            port: 6000,
        }
    );
    assert_eq!(
        discovery_reply(offer.as_bytes(), COMPANION, 6000),
        DiscoveryReply::IgnoredOffer
    );
    assert!(matches!(
        discovery_reply(b"nonsense", COMPANION, 6000),
        DiscoveryReply::Rejected(_)
    ));
    assert!(matches!(
        discovery_reply(discover.as_bytes(), COMPANION, 0),
        DiscoveryReply::Failed(_)
    ));
}

#[test]
fn operator_lines_send_only_display_messages() {
    assert_eq!(operator_input("   "), OperatorInput::Blank);
    assert_eq!(
        operator_input("display hello world"),
        OperatorInput::Display(StreamMessage::Display {
            text: "hello world".to_string()
        })
    );
    assert_eq!(
        operator_input("event action=media.next;"),
        OperatorInput::NotDisplay
    );
    assert!(matches!(
        operator_input("bogus"),
        OperatorInput::Rejected(_)
    ));
}

#[test]
fn identities_must_be_hex_ids() {
    assert_eq!(validate_identity(COMPANION), Ok(COMPANION.to_string()));
    assert!(matches!(
        validate_identity("not-an-id"),
        Err(ProtocolError::InvalidValue { .. })
    ));
}
