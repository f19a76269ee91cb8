use paperpad::action_line::format_action_line;
use paperpad::config::{
    ConfigError, PaperpadConfig, COMPANION_HOST_ENV, COMPANION_PORT_ENV, DEFAULT_COMPANION_PORT,
};
use paperpad::transport::StreamMessage;
use paperpad::transport_parse::parse_stream_message;
use paperpad::ui::action::{action_for_button, SemanticAction, EXIT_BUTTON_ID};

// ---------------------------------------------------------------------------
// Semantic actions
// ---------------------------------------------------------------------------

#[test]
fn every_grid_button_maps_to_a_documented_semantic_action() {
    let expected = [
        (1, SemanticAction::MediaPlayPause, "media.play_pause"),
        (2, SemanticAction::MediaNext, "media.next"),
        (3, SemanticAction::MediaPrevious, "media.previous"),
        (4, SemanticAction::TerminalNewWindow, "terminal.new_window"),
        (5, SemanticAction::TmuxWork, "tmux.work"),
        (6, SemanticAction::ZoomToggleMute, "zoom.toggle_mute"),
        (7, SemanticAction::StubButton7, "stub.button_7"),
        (8, SemanticAction::StubButton8, "stub.button_8"),
        (9, SemanticAction::StubButton9, "stub.button_9"),
        (EXIT_BUTTON_ID, SemanticAction::Exit, "app.exit"),
    ];

    for (button_id, action, id) in expected {
        assert_eq!(action_for_button(button_id), Some(action));
        assert_eq!(action.id(), id);
    }
}

#[test]
fn out_of_range_button_ids_have_no_semantic_action() {
    assert_eq!(action_for_button(0), None);
    assert_eq!(action_for_button(u8::MAX), None);
}

#[test]
fn action_ids_are_stable_and_unique() {
    let mut ids = vec![
        SemanticAction::MediaPlayPause.id(),
        SemanticAction::MediaNext.id(),
        SemanticAction::MediaPrevious.id(),
        SemanticAction::TerminalNewWindow.id(),
        SemanticAction::TmuxWork.id(),
        SemanticAction::ZoomToggleMute.id(),
        SemanticAction::StubButton7.id(),
        SemanticAction::StubButton8.id(),
        SemanticAction::StubButton9.id(),
        SemanticAction::Exit.id(),
    ];
    ids.sort_unstable();
    ids.dedup();
    assert_eq!(ids.len(), 10);
}

#[test]
fn buttons_between_grid_and_exit_have_no_action() {
    assert_eq!(action_for_button(11), None);
    assert_eq!(action_for_button(EXIT_BUTTON_ID + 1), None);
}

// ---------------------------------------------------------------------------
// Activation wire line
// ---------------------------------------------------------------------------

#[test]
fn action_line_matches_documented_wire_format() {
    assert_eq!(
        format_action_line("media.play_pause"),
        "event action=media.play_pause;\n"
    );
}

#[test]
fn every_action_line_parses_back_as_a_legacy_event() {
    for button in 1..=EXIT_BUTTON_ID {
        let action = action_for_button(button).unwrap();
        let line = format_action_line(action.id());
        let body = line.strip_suffix('\n').unwrap();
        assert_eq!(
            parse_stream_message(body),
            Ok(StreamMessage::LegacyEvent {
                action: action.id().to_string()
            })
        );
    }
}

// ---------------------------------------------------------------------------
// Configuration
// ---------------------------------------------------------------------------

#[test]
fn discovery_uses_protocol_default_as_inactive_port() {
    let config = PaperpadConfig::from_values(None, None).unwrap();
    assert_eq!(config.host(), None);
    assert_eq!(config.port(), DEFAULT_COMPANION_PORT);
}

#[test]
fn explicit_host_uses_default_or_valid_nonzero_port() {
    assert_eq!(
        PaperpadConfig::from_values(Some("paperspoon.local"), None)
            .unwrap()
            .port(),
        DEFAULT_COMPANION_PORT
    );
    for port in [1, 6000, u16::MAX] {
        assert_eq!(
            PaperpadConfig::from_values(Some("paperspoon.local"), Some(&port.to_string()))
                .unwrap()
                .port(),
            port
        );
    }
}

#[test]
fn explicit_host_is_trimmed_and_blank_host_selects_discovery() {
    assert_eq!(
        PaperpadConfig::from_values(Some(" 192.0.2.1 "), None)
            .unwrap()
            .host(),
        Some("192.0.2.1")
    );
    assert_eq!(
        PaperpadConfig::from_values(Some("  "), None)
            .unwrap()
            .host(),
        None
    );
}

#[test]
fn invalid_explicit_ports_are_rejected() {
    for port in ["", "0", " 5581", "not-a-port", "65536"] {
        let error = PaperpadConfig::from_values(Some("paperspoon.local"), Some(port))
            .expect_err("invalid port should fail configuration");
        assert!(error.message().contains(COMPANION_PORT_ENV));
    }
}

#[test]
fn port_without_explicit_host_is_rejected() {
    for host in [None, Some("  ")] {
        let error = PaperpadConfig::from_values(host, Some("5581"))
            .expect_err("discovery must use its advertised port");
        assert!(error.message().contains("requires an explicit"));
    }
}

#[test]
fn config_error_messages_name_the_offending_value() {
    assert_eq!(
        PaperpadConfig::from_values(Some("h"), Some("0")),
        Err(ConfigError::InvalidPort("0".to_string()))
    );
    assert_eq!(
        ConfigError::InvalidPort("x".to_string()).message(),
        format!("{COMPANION_PORT_ENV} must be a decimal TCP port in 1..=65535, got \"x\"")
    );
    assert_eq!(
        ConfigError::PortWithoutHost.message(),
        format!("{COMPANION_PORT_ENV} requires an explicit {COMPANION_HOST_ENV}")
    );
    assert_eq!(
        ConfigError::InvalidPort("5\"8\n".to_string()).message(),
        format!("{COMPANION_PORT_ENV} must be a decimal TCP port in 1..=65535, got \"5\\\"8\\n\"")
    );
}
