use paperpad::framebuffer::{Mono1Frame, Mono1FrameError, Mono1Pixel};
use paperpad::paperspoon::application_input::{ApplicationActivation, ApplicationInput};
use paperpad::paperspoon::application_ui::{
    grid_cell_side, ApplicationUi, Rect, TextRun, TITLE_TEXT,
};
use paperpad::paperspoon::diagnostic::{
    corner_marker, parse_stdin_command, CommandError, DiagnosticFrame, DiagnosticPattern,
    StdinCommand,
};
use paperpad::paperspoon::mono_renderer::MonoCanvas;
use paperpad::v2::{decode_v2_message, V2DecodeResult};
use paperpad::v2_payload::{decode_v2_payload, V2Payload, V2Pointer, V2PointerPhase};

const BUTTON_LABELS: [&str; 9] = ["1", "2", "3", "4", "5", "6", "7", "8", "9"];
const PORTRAIT_WIDTH: u16 = 1272;
const PORTRAIT_HEIGHT: u16 = 1624;

// ---------------------------------------------------------------------------
// Application layout
// ---------------------------------------------------------------------------

#[test]
fn portrait_layout_matches_existing_application_geometry_without_exit() {
    let ui = ApplicationUi::default();
    let layout = ui
        .layout(PORTRAIT_WIDTH, PORTRAIT_HEIGHT)
        .expect("portrait layout");

    assert_eq!(
        layout.title,
        TextRun {
            x: 20,
            baseline_y: 40,
            text: TITLE_TEXT,
        }
    );
    assert_eq!(layout.buttons.len(), 9);
    for (index, button) in layout.buttons.iter().enumerate() {
        assert_eq!(button.id, index as u8 + 1);
        assert_eq!(
            button.bounds,
            Rect {
                x: [20, 444, 868][index % 3],
                y: [60, 484, 908][index / 3],
                width: 384,
                height: 384,
            }
        );
        assert_eq!(button.label.text, BUTTON_LABELS[index]);
        assert_eq!(button.label.x, button.bounds.x + 192 - 3);
        assert_eq!(button.label.baseline_y, button.bounds.y + 192 + 5);
    }
    assert_eq!(
        layout.status_region,
        Rect {
            x: 0,
            y: 1584,
            width: PORTRAIT_WIDTH,
            height: 40,
        }
    );
    assert_eq!(layout.status, None);
}

#[test]
fn status_state_is_replaceable_clearable_and_borrowed_by_layout() {
    let mut ui = ApplicationUi::default();
    ui.set_status("first");
    ui.set_status("PaperSpoon: ready");

    let layout = ui
        .layout(PORTRAIT_WIDTH, PORTRAIT_HEIGHT)
        .expect("portrait layout");
    assert_eq!(
        layout.status,
        Some(TextRun {
            x: 20,
            baseline_y: 1614,
            text: "PaperSpoon: ready",
        })
    );

    ui.clear_status();
    assert_eq!(
        ui.layout(PORTRAIT_WIDTH, PORTRAIT_HEIGHT)
            .expect("portrait layout")
            .status,
        None
    );
}

#[test]
fn resized_and_small_layouts_stay_inside_remote_viewport() {
    let ui = ApplicationUi::default();
    assert!(ui.layout(0, PORTRAIT_HEIGHT).is_none());
    assert!(ui.layout(PORTRAIT_WIDTH, 0).is_none());

    for (width, height) in [(636, 776), (1273, 1624), (1696, 1200), (123, 263), (1, 1)] {
        let layout = ui.layout(width, height).expect("nonzero layout");
        for button in &layout.buttons {
            assert!(u32::from(button.bounds.x) + u32::from(button.bounds.width) <= width.into());
            assert!(
                u32::from(button.bounds.y) + u32::from(button.bounds.height)
                    <= u32::from(layout.status_region.y)
            );
        }
        assert!(layout.title.x < width);
        assert!(layout.title.baseline_y < height);
    }
}

#[test]
fn grid_side_is_bounded_by_width_and_height() {
    assert_eq!(grid_cell_side(1272, 1624), Some(384));
    assert_eq!(grid_cell_side(1696, 1200), Some(340));
    assert_eq!(grid_cell_side(122, 1624), None);
    assert_eq!(grid_cell_side(1272, 182), None);
    assert_eq!(grid_cell_side(0, 1624), None);
    assert!(ApplicationUi::default().layout(122, 1624).unwrap().buttons.is_empty());
}

// ---------------------------------------------------------------------------
// Application input
// ---------------------------------------------------------------------------

const VIEWPORT: (u16, u16) = (1272, 1624);

fn pointer(phase: V2PointerPhase, x: u16, y: u16) -> V2Pointer {
    V2Pointer::new(phase, x, y)
}

fn tracker() -> ApplicationInput {
    let mut input = ApplicationInput::default();
    input.set_viewport(Some(VIEWPORT));
    input
}

#[test]
fn every_button_resolves_to_its_host_owned_action() {
    let ui = ApplicationUi::default();
    let layout = ui.layout(VIEWPORT.0, VIEWPORT.1).expect("application layout");
    let expected = [
        "media.play_pause",
        "media.next",
        "media.previous",
        "terminal.new_window",
        "tmux.work",
        "zoom.toggle_mute",
        "stub.button_7",
        "stub.button_8",
        "stub.button_9",
    ];

    for (button, action_id) in layout.buttons.into_iter().zip(expected) {
        let x = button.bounds.x + button.bounds.width / 2;
        let y = button.bounds.y + button.bounds.height / 2;
        let mut input = tracker();
        assert_eq!(
            input.handle_pointer(&ui, pointer(V2PointerPhase::Down, x, y)),
            None
        );
        assert_eq!(
            input.handle_pointer(&ui, pointer(V2PointerPhase::Up, x, y)),
            Some(ApplicationActivation {
                button_id: button.id,
                action_id,
            })
        );
    }
}

#[test]
fn gaps_cross_button_releases_and_out_of_bounds_cancel_without_activation() {
    let ui = ApplicationUi::default();
    let mut input = tracker();

    assert_eq!(
        input.handle_pointer(&ui, pointer(V2PointerPhase::Down, 10, 10)),
        None
    );
    assert_eq!(
        input.handle_pointer(&ui, pointer(V2PointerPhase::Up, 10, 10)),
        None
    );

    assert_eq!(
        input.handle_pointer(&ui, pointer(V2PointerPhase::Down, 100, 100)),
        None
    );
    assert_eq!(
        input.handle_pointer(&ui, pointer(V2PointerPhase::Up, 500, 500)),
        None
    );

    assert_eq!(
        input.handle_pointer(&ui, pointer(V2PointerPhase::Down, 100, 100)),
        None
    );
    assert_eq!(
        input.handle_pointer(&ui, pointer(V2PointerPhase::Up, VIEWPORT.0, VIEWPORT.1)),
        None
    );
}

#[test]
fn unmatched_repeated_and_viewport_changes_reset_contact() {
    let ui = ApplicationUi::default();
    let mut input = ApplicationInput::default();

    assert!(!input.is_active());

    assert_eq!(
        input.handle_pointer(&ui, pointer(V2PointerPhase::Up, 100, 100)),
        None
    );
    input.set_viewport(Some(VIEWPORT));
    assert!(input.is_active());
    assert_eq!(
        input.handle_pointer(&ui, pointer(V2PointerPhase::Down, 100, 100)),
        None
    );
    assert_eq!(
        input.handle_pointer(&ui, pointer(V2PointerPhase::Down, 100, 100)),
        None
    );
    assert_eq!(
        input.handle_pointer(&ui, pointer(V2PointerPhase::Up, 100, 100)),
        None
    );

    assert_eq!(
        input.handle_pointer(&ui, pointer(V2PointerPhase::Down, 100, 100)),
        None
    );
    input.set_viewport(Some((636, 776)));
    assert_eq!(
        input.handle_pointer(&ui, pointer(V2PointerPhase::Up, 100, 100)),
        None
    );
    input.set_viewport(None);
    assert!(!input.is_active());
    assert_eq!(
        input.handle_pointer(&ui, pointer(V2PointerPhase::Down, 100, 100)),
        None
    );
}

// ---------------------------------------------------------------------------
// Mono1 canvas
// ---------------------------------------------------------------------------

#[test]
fn constructor_rejects_zero_dimensions() {
    assert_eq!(
        MonoCanvas::new(0, 8),
        Err(Mono1FrameError::ZeroDimension {
            width: 0,
            height: 8,
        })
    );
    assert_eq!(
        MonoCanvas::new(8, 0),
        Err(Mono1FrameError::ZeroDimension {
            width: 8,
            height: 0,
        })
    );
}

#[test]
fn clear_preserves_white_padding_for_odd_widths() {
    let mut canvas = MonoCanvas::new(10, 2).expect("canvas");
    canvas.clear(Mono1Pixel::Black);
    assert_eq!(canvas.pixels(), &[0xff, 0xc0, 0xff, 0xc0]);

    canvas.clear(Mono1Pixel::White);
    assert_eq!(canvas.pixels(), &[0, 0, 0, 0]);
    canvas.into_frame().expect("valid frame");
}

#[test]
fn pixels_and_filled_rectangles_clip_at_every_edge() {
    let mut canvas = MonoCanvas::new(9, 4).expect("canvas");
    assert!(canvas.set_pixel(8, 0, Mono1Pixel::Black));
    assert!(!canvas.set_pixel(9, 0, Mono1Pixel::Black));
    canvas.fill_rect(7, 2, 5, 5, Mono1Pixel::Black);

    let frame = canvas.into_frame().expect("valid frame");
    assert_eq!(frame.pixel(8, 0), Some(Mono1Pixel::Black));
    assert_eq!(frame.pixel(7, 1), Some(Mono1Pixel::White));
    for y in 2..4 {
        assert_eq!(frame.pixel(6, y), Some(Mono1Pixel::White));
        assert_eq!(frame.pixel(7, y), Some(Mono1Pixel::Black));
        assert_eq!(frame.pixel(8, y), Some(Mono1Pixel::Black));
    }
}

#[test]
fn outlines_have_black_edges_and_white_interiors() {
    let mut canvas = MonoCanvas::new(8, 7).expect("canvas");
    canvas.outline_rect(1, 1, 5, 4, Mono1Pixel::Black);
    canvas.outline_rect(7, 6, 1, 1, Mono1Pixel::Black);

    let frame = canvas.into_frame().expect("valid frame");
    for x in 1..6 {
        assert_eq!(frame.pixel(x, 1), Some(Mono1Pixel::Black));
        assert_eq!(frame.pixel(x, 4), Some(Mono1Pixel::Black));
    }
    for y in 2..4 {
        assert_eq!(frame.pixel(1, y), Some(Mono1Pixel::Black));
        assert_eq!(frame.pixel(5, y), Some(Mono1Pixel::Black));
    }
    assert_eq!(frame.pixel(3, 2), Some(Mono1Pixel::White));
    assert_eq!(frame.pixel(7, 6), Some(Mono1Pixel::Black));
}

#[test]
fn white_pixels_can_be_restored_inside_black_areas() {
    let mut canvas = MonoCanvas::new(3, 1).expect("canvas");
    canvas.clear(Mono1Pixel::Black);
    assert!(canvas.set_pixel(1, 0, Mono1Pixel::White));
    assert_eq!(canvas.pixels(), &[0xa0]);
    assert_eq!(canvas.dimensions(), (3, 1));
}

// ---------------------------------------------------------------------------
// Diagnostic commands and frames
// ---------------------------------------------------------------------------

fn decoded_frame(spec: DiagnosticFrame) -> (u64, Mono1Frame) {
    let encoded = spec.encode(42).expect("encode diagnostic frame");
    let V2DecodeResult::Complete { message, consumed } =
        decode_v2_message(&encoded).expect("decode message")
    else {
        panic!("complete message expected");
    };
    assert_eq!(consumed, encoded.len());
    let V2Payload::Frame(frame) = decode_v2_payload(message).expect("decode payload") else {
        panic!("Frame expected");
    };
    (frame.frame_id(), frame.to_owned_frame().expect("owned frame"))
}

#[test]
fn commands_are_v2_frames_and_syntax_is_strict() {
    assert!(parse_stdin_command("unknown hello").is_err());
    assert_eq!(
        parse_stdin_command("ui 1272x1624"),
        Ok(StdinCommand::ApplicationFrame {
            width: 1272,
            height: 1624,
        })
    );
    assert!(parse_stdin_command("ui").is_err());
    assert!(parse_stdin_command("ui 1272").is_err());
    assert!(parse_stdin_command("ui 0x1624").is_err());
    assert!(parse_stdin_command("ui 1272x1624 extra").is_err());
    assert!(parse_stdin_command("frame").is_err());
    assert!(parse_stdin_command("frame unknown 8x8").is_err());
    assert!(parse_stdin_command("frame white 8").is_err());
    assert!(parse_stdin_command("frame white 0x8").is_err());
    assert!(parse_stdin_command("frame white 8x8 extra").is_err());

    let StdinCommand::Frame(frame) = parse_stdin_command("frame border 9x2").expect("frame command")
    else {
        panic!("Frame command expected");
    };
    assert_eq!(frame.pattern_name(), "border");
    assert_eq!(frame.dimensions(), (9, 2));
}

#[test]
fn command_errors_name_the_problem() {
    assert_eq!(parse_stdin_command("  "), Err(CommandError::Empty));
    assert_eq!(
        parse_stdin_command("unknown hello"),
        Err(CommandError::UnknownCommand("unknown".to_string()))
    );
    assert_eq!(parse_stdin_command("ui"), Err(CommandError::UiUsage));
    assert_eq!(parse_stdin_command("frame white"), Err(CommandError::FrameUsage));
    assert_eq!(
        parse_stdin_command("frame unknown 8x8"),
        Err(CommandError::UnknownPattern("unknown".to_string()))
    );
    assert_eq!(
        parse_stdin_command("ui 1272"),
        Err(CommandError::DimensionsFormat)
    );
    assert_eq!(
        parse_stdin_command("ui axb"),
        Err(CommandError::InvalidWidth("a".to_string()))
    );
    assert_eq!(
        parse_stdin_command("ui 8x70000"),
        Err(CommandError::InvalidHeight("70000".to_string()))
    );
    assert_eq!(
        parse_stdin_command("frame corners 0x8"),
        Err(CommandError::ZeroDimensions)
    );
}

#[test]
fn white_black_stripes_and_checkerboard_have_expected_pixels() {
    for (pattern, expected) in [
        (DiagnosticPattern::White, Mono1Pixel::White),
        (DiagnosticPattern::Black, Mono1Pixel::Black),
    ] {
        let (frame_id, frame) = decoded_frame(DiagnosticFrame {
            pattern,
            width: 9,
            height: 2,
        });
        assert_eq!(frame_id, 42);
        assert!((0..2).all(|y| (0..9).all(|x| frame.pixel(x, y) == Some(expected))));
    }

    let (_, horizontal) = decoded_frame(DiagnosticFrame {
        pattern: DiagnosticPattern::Horizontal,
        width: 9,
        height: 2,
    });
    assert_eq!(horizontal.pixel(8, 0), Some(Mono1Pixel::Black));
    assert_eq!(horizontal.pixel(8, 1), Some(Mono1Pixel::White));

    let (_, checkerboard) = decoded_frame(DiagnosticFrame {
        pattern: DiagnosticPattern::Checkerboard,
        width: 9,
        height: 2,
    });
    assert_eq!(checkerboard.pixel(0, 0), Some(Mono1Pixel::Black));
    assert_eq!(checkerboard.pixel(1, 0), Some(Mono1Pixel::White));
    assert_eq!(checkerboard.pixel(0, 1), Some(Mono1Pixel::White));
    assert_eq!(checkerboard.pixel(8, 1), Some(Mono1Pixel::White));
}

#[test]
fn border_and_asymmetric_corners_cover_exact_edges() {
    let (_, border) = decoded_frame(DiagnosticFrame {
        pattern: DiagnosticPattern::Border,
        width: 17,
        height: 9,
    });
    assert_eq!(border.pixel(0, 4), Some(Mono1Pixel::Black));
    assert_eq!(border.pixel(16, 4), Some(Mono1Pixel::Black));
    assert_eq!(border.pixel(8, 0), Some(Mono1Pixel::Black));
    assert_eq!(border.pixel(8, 8), Some(Mono1Pixel::Black));
    assert_eq!(border.pixel(8, 4), Some(Mono1Pixel::White));

    let (_, corners) = decoded_frame(DiagnosticFrame {
        pattern: DiagnosticPattern::Corners,
        width: 512,
        height: 512,
    });
    assert_eq!(corners.pixel(200, 200), Some(Mono1Pixel::Black));
    assert_eq!(corners.pixel(300, 200), Some(Mono1Pixel::White));
    assert_eq!(corners.pixel(511, 191), Some(Mono1Pixel::Black));
    assert_eq!(corners.pixel(511, 192), Some(Mono1Pixel::White));
    assert_eq!(corners.pixel(127, 511), Some(Mono1Pixel::Black));
    assert_eq!(corners.pixel(128, 511), Some(Mono1Pixel::White));
    assert_eq!(corners.pixel(511, 511), Some(Mono1Pixel::Black));
    assert!(corner_marker(0, 0, 1, 1));
}

#[test]
fn oversized_frame_is_rejected_before_pixel_allocation() {
    let frame = DiagnosticFrame {
        pattern: DiagnosticPattern::White,
        width: u16::MAX,
        height: u16::MAX,
    };
    assert!(frame
        .encode(1)
        .expect_err("oversized")
        .message()
        .contains("maximum"));
}

#[test]
fn command_errors_describe_the_refused_input() {
    assert_eq!(CommandError::Empty.message(), "stdin command is empty");
    assert_eq!(
        CommandError::UnknownCommand("unknown".to_string()).message(),
        "unknown stdin command \"unknown\""
    );
    assert_eq!(CommandError::UiUsage.message(), "usage: ui <width>x<height>");
    assert_eq!(
        CommandError::FrameUsage.message(),
        "usage: frame <pattern> <width>x<height>"
    );
    assert_eq!(
        CommandError::UnknownPattern("dots".to_string()).message(),
        "unknown frame pattern 'dots'; expected white, black, horizontal, checkerboard, border, or corners"
    );
    assert_eq!(
        CommandError::DimensionsFormat.message(),
        "dimensions must use <width>x<height>"
    );
    assert_eq!(
        CommandError::InvalidWidth("a".to_string()).message(),
        "invalid frame width 'a'"
    );
    assert_eq!(
        CommandError::InvalidHeight("70000".to_string()).message(),
        "invalid frame height '70000'"
    );
    assert_eq!(
        CommandError::ZeroDimensions.message(),
        "frame dimensions must be nonzero"
    );
}

#[test]
fn hit_test_follows_half_open_layout_bounds_at_every_corner() {
    let ui = ApplicationUi::default();
    for (width, height) in [(PORTRAIT_WIDTH, PORTRAIT_HEIGHT), (636, 740), (1273, 900)] {
        let layout = ui.layout(width, height).expect("application layout");
        for button in &layout.buttons {
            let b = button.bounds;
            let first = (b.x, b.y);
            let last = (b.x + b.width - 1, b.y + b.height - 1);

            let mut input = ApplicationInput::new();
            input.set_viewport(Some((width, height)));
            assert_eq!(
                input.handle_pointer(&ui, V2Pointer::new(V2PointerPhase::Down, first.0, first.1)),
                None
            );
            let activation = input
                .handle_pointer(&ui, V2Pointer::new(V2PointerPhase::Up, last.0, last.1))
                .expect("activation inside the bounds");
            assert_eq!(activation.button_id, button.id);

            let mut input = ApplicationInput::new();
            input.set_viewport(Some((width, height)));
            input.handle_pointer(&ui, V2Pointer::new(V2PointerPhase::Down, first.0, first.1));
            assert_eq!(
                input.handle_pointer(&ui, V2Pointer::new(V2PointerPhase::Up, b.x + b.width, last.1)),
                None
            );

            let mut input = ApplicationInput::new();
            input.set_viewport(Some((width, height)));
            input.handle_pointer(&ui, V2Pointer::new(V2PointerPhase::Down, first.0, first.1));
            assert_eq!(
                input.handle_pointer(&ui, V2Pointer::new(V2PointerPhase::Up, last.0, b.y + b.height)),
                None
            );
        }
    }
}
