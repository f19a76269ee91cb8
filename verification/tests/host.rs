use paperpad::paperspoon::application_input::ApplicationInput;
use paperpad::paperspoon::diagnostic::{parse_stdin_command, DiagnosticFrame, StdinCommand};
use paperpad::paperspoon::host::{
    forward_url_target, log_line, matching_application_viewport, parse_options,
    show_application_viewport, AuthoritativeFrame, FrameIdExhausted, FrameSenderState,
    DEFAULT_LOG_FILE, DEFAULT_PORT,
};

fn diagnostic(command: &str) -> DiagnosticFrame {
    let StdinCommand::Frame(frame) = parse_stdin_command(command).expect("diagnostic command")
    else {
        panic!("diagnostic frame expected");
    };
    frame
}

#[test]
fn application_input_activates_only_for_frame_matching_reported_viewport() {
    assert_eq!(
        matching_application_viewport((1272, 1624), Some((1272, 1624))),
        Some((1272, 1624))
    );
    assert_eq!(
        matching_application_viewport((800, 600), Some((1272, 1624))),
        None
    );
    assert_eq!(matching_application_viewport((800, 600), None), None);
}

#[test]
fn parse_options_keeps_backward_compatible_positional_args() {
    let opts = parse_options(&[
        "paperspoon".to_string(),
        "5581".to_string(),
        "/tmp/paperspoon.log".to_string(),
    ]);
    assert_eq!(opts.port, 5581);
    assert_eq!(opts.log_path, "/tmp/paperspoon.log");
    assert!(opts.forward_url);
}

#[test]
fn parse_options_forward_url_default_on() {
    let opts = parse_options(&["paperspoon".to_string()]);
    assert!(opts.forward_url);
}

#[test]
fn parse_options_without_forward_url_disables() {
    let opts = parse_options(&["paperspoon".to_string(), "--no-forward-url".to_string()]);
    assert!(!opts.forward_url);
}

#[test]
fn parse_options_positional_and_forward_url_coexist() {
    let opts = parse_options(&[
        "paperspoon".to_string(),
        "5582".to_string(),
        "/tmp/x.log".to_string(),
        "--no-forward-url".to_string(),
    ]);
    assert_eq!(opts.port, 5582);
    assert_eq!(opts.log_path, "/tmp/x.log");
    assert!(!opts.forward_url);
}

#[test]
fn parse_options_defaults_and_ignores_extra_positionals() {
    let opts = parse_options(&[]);
    assert_eq!(opts.port, DEFAULT_PORT);
    assert_eq!(opts.log_path, DEFAULT_LOG_FILE);
    assert!(opts.forward_url);

    let opts = parse_options(&[
        "paperspoon".to_string(),
        "a.log".to_string(),
        "6000".to_string(),
        "b.log".to_string(),
    ]);
    assert_eq!(opts.port, 6000);
    assert_eq!(opts.log_path, "a.log");
}

#[test]
fn forward_url_and_log_line_formats() {
    assert_eq!(
        forward_url_target("media.next"),
        "hammerspoon://paperpad?action=media.next"
    );
    assert_eq!(log_line(42, "host", "sent"), "42 host sent\n");
}

#[test]
fn frame_ids_start_at_one_and_advance_on_send() {
    let mut state = FrameSenderState::new();
    assert_eq!(state.reserve_frame_id(), Ok(1));
    let mut id = state.reserve_frame_id().unwrap();
    assert_eq!(state.record_sent(id, None), None);
    id = state.reserve_frame_id().unwrap();
    assert_eq!(id, 2);
    assert_eq!(FrameIdExhausted.message(), "frame ID exhausted");
}

#[test]
fn only_sent_frames_advance_ids_and_replace_the_authoritative_frame() {
    let mut state = FrameSenderState::default();
    let id = state.reserve_frame_id().unwrap();
    // An unsent frame leaves the state as it was.
    assert_eq!(state.reserve_frame_id(), Ok(id));
    assert_eq!(state.authoritative(), None);

    let application = AuthoritativeFrame::Application {
        viewport: (128, 128),
    };
    assert_eq!(state.record_sent(id, Some(application)), Some((128, 128)));
    assert_eq!(state.next_frame_id(), 2);
    assert_eq!(state.authoritative(), Some(application));

    let frame = diagnostic("frame checkerboard 64x32");
    let id = state.reserve_frame_id().unwrap();
    assert_eq!(
        state.record_sent(id, Some(AuthoritativeFrame::Diagnostic(frame))),
        None
    );
    assert_eq!(state.authoritative(), Some(AuthoritativeFrame::Diagnostic(frame)));
}

#[test]
fn hello_resends_only_a_matching_retained_frame() {
    let mut state = FrameSenderState::new();
    assert_eq!(
        state.hello_frame((100, 50)),
        (AuthoritativeFrame::Application { viewport: (100, 50) }, false)
    );
    let frame = diagnostic("frame border 100x50");
    let id = state.reserve_frame_id().unwrap();
    state.record_sent(id, Some(AuthoritativeFrame::Diagnostic(frame)));
    assert_eq!(
        state.hello_frame((100, 50)),
        (AuthoritativeFrame::Diagnostic(frame), true)
    );
    assert_eq!(
        state.hello_frame((128, 128)),
        (AuthoritativeFrame::Application { viewport: (128, 128) }, false)
    );
    assert_eq!(AuthoritativeFrame::Diagnostic(frame).dimensions(), (100, 50));
    assert_eq!(AuthoritativeFrame::Diagnostic(frame).application_viewport(), None);
}

#[test]
fn viewport_is_shown_only_after_a_sent_application_frame() {
    let mut input = ApplicationInput::default();
    let mut rendered = None;
    show_application_viewport(&mut input, &mut rendered, Some((128, 128)));
    assert!(input.is_active());
    assert_eq!(rendered, Some((128, 128)));

    show_application_viewport(&mut input, &mut rendered, None);
    assert!(!input.is_active());
    assert_eq!(rendered, None);
}
