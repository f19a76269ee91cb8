use paperpad::app_state::{activation_for_button, Activation, AppState, GeometryUpdate};
use paperpad::screen::{PhysicalPoint, ScreenLayout};
use paperpad::ui::action::SemanticAction;
use paperpad::ui::button::{
    handle_pointer_event, ContactTracker, PointerEvent, PointerEventKind, PRIMARY_BUTTON_DETAIL,
};
use paperpad::ui::geometry::{
    button_grid, grid_dimensions, LayoutRect, LogicalRect, Point, EXIT_BAR_GAP, EXIT_BAR_HEIGHT,
    WINDOW_HEIGHT, WINDOW_WIDTH,
};
use paperpad::ui::system::{
    draw_layout, exit_bounds, SystemAction, SystemDrawLayout, SystemUi,
};
use paperpad::v2_payload::{V2Pointer, V2PointerPhase};
use paperpad::x11::{format_pointer_event, remote_viewport_origin, remote_viewport_size, PointerEventRecord};

fn pointer(kind: PointerEventKind, point: Point) -> PointerEvent {
    PointerEvent {
        kind,
        detail: PRIMARY_BUTTON_DETAIL,
        point,
    }
}

fn exit_center() -> Point {
    let bounds = exit_bounds(WINDOW_WIDTH, WINDOW_HEIGHT).expect("Exit bounds");
    Point {
        x: (bounds.x + bounds.width / 2) as i16,
        y: (bounds.y + bounds.height / 2) as i16,
    }
}

// ---------------------------------------------------------------------------
// System UI
// ---------------------------------------------------------------------------

#[test]
fn portrait_exit_geometry_and_drawing_are_unchanged() {
    assert_eq!(
        exit_bounds(WINDOW_WIDTH, WINDOW_HEIGHT),
        Some(LogicalRect {
            x: 20,
            y: 1624,
            width: 1232,
            height: 72,
        })
    );
    let layout: SystemDrawLayout = draw_layout(WINDOW_WIDTH, WINDOW_HEIGHT).expect("layout");
    assert_eq!(
        layout.rectangle,
        LayoutRect {
            x: 20,
            y: 1624,
            width: 1232,
            height: 72,
        }
    );
    assert_eq!((layout.text.x, layout.text.y), (618, 1665));
    assert_eq!(layout.text.text, b"EXIT");
}

#[test]
fn exit_stays_aligned_below_application_grid_for_supported_extents() {
    for (width, height) in [
        (636, 848),
        (1273, 1696),
        (1274, 1696),
        (1696, 1272),
        (760, 528),
        (123, 263),
        (u16::MAX, u16::MAX),
    ] {
        let capped = (width.min(32767), height.min(32767));
        let buttons = button_grid(width, height);
        let exit = exit_bounds(width, height).expect("Exit bounds");
        let strip = ScreenLayout::new(width, height).expect("layout").system_ui_region();

        assert_eq!(buttons.len(), 9, "{width}x{height}");
        assert_eq!(exit.x, 20);
        assert_eq!(exit.width, capped.0 - 40);
        assert_eq!(exit.height, EXIT_BAR_HEIGHT);
        assert_eq!(exit.y, capped.1 - 72);
        assert_eq!((exit.y, exit.height), (strip.y, strip.height));
        if (width, height) == capped {
            assert!(
                u32::from(buttons[8].bounds.y) + u32::from(buttons[8].bounds.height)
                    + u32::from(EXIT_BAR_GAP)
                    <= u32::from(exit.y),
                "{width}x{height}"
            );
        }
        assert!(u32::from(exit.y) + u32::from(exit.height) <= u32::from(capped.1));
    }
}

#[test]
fn exit_is_absent_when_layout_cannot_fit_controls() {
    for (width, height) in [
        (0, 1696),
        (1272, 0),
        (1, 1),
        (3, 3),
        (40, 1696),
        (1272, 71),
    ] {
        assert_eq!(exit_bounds(width, height), None);
        assert_eq!(draw_layout(width, height), None);
        assert!(button_grid(width, height).is_empty());
        assert_eq!(grid_dimensions(width, height), None);
    }
}

#[test]
fn exit_stays_available_in_windows_too_small_for_the_grid() {
    for (width, height, expected) in [
        (41, 72, LogicalRect { x: 20, y: 0, width: 1, height: 72 }),
        (122, 1696, LogicalRect { x: 20, y: 1624, width: 82, height: 72 }),
        (1272, 262, LogicalRect { x: 20, y: 190, width: 1232, height: 72 }),
    ] {
        assert!(button_grid(width, height).is_empty());
        assert_eq!(exit_bounds(width, height), Some(expected));
        assert!(draw_layout(width, height).is_some());
    }
}

#[test]
fn exit_requires_primary_down_and_up_inside() {
    let inside = exit_center();
    let outside = Point { x: 5, y: 5 };
    let mut ui = SystemUi::default();

    assert_eq!(
        ui.handle_pointer(pointer(PointerEventKind::Release, inside), WINDOW_WIDTH, WINDOW_HEIGHT),
        None
    );
    assert_eq!(
        ui.handle_pointer(pointer(PointerEventKind::Press, outside), WINDOW_WIDTH, WINDOW_HEIGHT),
        None
    );
    assert_eq!(
        ui.handle_pointer(pointer(PointerEventKind::Release, inside), WINDOW_WIDTH, WINDOW_HEIGHT),
        None
    );
    assert_eq!(
        ui.handle_pointer(pointer(PointerEventKind::Press, inside), WINDOW_WIDTH, WINDOW_HEIGHT),
        None
    );
    assert_eq!(
        ui.handle_pointer(pointer(PointerEventKind::Release, outside), WINDOW_WIDTH, WINDOW_HEIGHT),
        None
    );
    assert_eq!(
        ui.handle_pointer(pointer(PointerEventKind::Press, inside), WINDOW_WIDTH, WINDOW_HEIGHT),
        None
    );
    assert_eq!(
        ui.handle_pointer(pointer(PointerEventKind::Release, inside), WINDOW_WIDTH, WINDOW_HEIGHT),
        Some(SystemAction::Exit)
    );
}

#[test]
fn repeated_primary_press_and_cancellation_disarm_exit() {
    let inside = exit_center();
    let mut ui = SystemUi::default();

    ui.handle_pointer(pointer(PointerEventKind::Press, inside), WINDOW_WIDTH, WINDOW_HEIGHT);
    ui.handle_pointer(pointer(PointerEventKind::Press, inside), WINDOW_WIDTH, WINDOW_HEIGHT);
    assert_eq!(
        ui.handle_pointer(pointer(PointerEventKind::Release, inside), WINDOW_WIDTH, WINDOW_HEIGHT),
        None
    );

    ui.handle_pointer(pointer(PointerEventKind::Press, inside), WINDOW_WIDTH, WINDOW_HEIGHT);
    ui.cancel_contact();
    assert_eq!(
        ui.handle_pointer(pointer(PointerEventKind::Release, inside), WINDOW_WIDTH, WINDOW_HEIGHT),
        None
    );
}

#[test]
fn auxiliary_details_do_not_change_exit_contact() {
    let inside = exit_center();
    let mut ui = SystemUi::default();

    ui.handle_pointer(pointer(PointerEventKind::Press, inside), WINDOW_WIDTH, WINDOW_HEIGHT);
    assert_eq!(
        ui.handle_pointer(
            PointerEvent {
                kind: PointerEventKind::Press,
                detail: 6,
                point: inside,
            },
            WINDOW_WIDTH,
            WINDOW_HEIGHT,
        ),
        None
    );
    assert_eq!(
        ui.handle_pointer(pointer(PointerEventKind::Release, inside), WINDOW_WIDTH, WINDOW_HEIGHT),
        Some(SystemAction::Exit)
    );
}

// ---------------------------------------------------------------------------
// Grid contact tracking
// ---------------------------------------------------------------------------

#[test]
fn grid_buttons_activate_on_press_and_release_of_one_primary_contact() {
    let mut tracker = ContactTracker::default();
    let buttons = button_grid(1272, 1624);
    let center = |index: usize| {
        let bounds = buttons[index].bounds;
        Some(paperpad::screen::RemotePoint {
            x: bounds.x + bounds.width / 2,
            y: bounds.y + bounds.height / 2,
        })
    };
    assert_eq!(
        handle_pointer_event(&mut tracker, PointerEventKind::Press, 1, center(4), 1272, 1624),
        None
    );
    assert_eq!(
        handle_pointer_event(&mut tracker, PointerEventKind::Release, 3, center(4), 1272, 1624),
        None
    );
    assert_eq!(
        handle_pointer_event(&mut tracker, PointerEventKind::Release, 1, center(4), 1272, 1624),
        Some(5)
    );
    handle_pointer_event(&mut tracker, PointerEventKind::Press, 1, center(0), 1272, 1624);
    assert_eq!(
        handle_pointer_event(&mut tracker, PointerEventKind::Release, 1, center(1), 1272, 1624),
        None
    );
    handle_pointer_event(&mut tracker, PointerEventKind::Press, 1, center(0), 1272, 1624);
    tracker.cancel();
    assert_eq!(
        handle_pointer_event(&mut tracker, PointerEventKind::Release, 1, center(0), 1272, 1624),
        None
    );
}

// ---------------------------------------------------------------------------
// Window state
// ---------------------------------------------------------------------------

const SIZE: (u16, u16) = (1272, 1696);

fn center_of(button_id: u8, size: (u16, u16)) -> PhysicalPoint {
    let screen = ScreenLayout::new(size.0, size.1).expect("screen layout");
    let viewport = screen.remote_viewport();
    let button = button_grid(viewport.width, viewport.height)
        .into_iter()
        .find(|button| button.id == button_id)
        .expect("button exists");
    PhysicalPoint {
        x: (viewport.x + button.bounds.x + button.bounds.width / 2) as i16,
        y: (viewport.y + button.bounds.y + button.bounds.height / 2) as i16,
    }
}

fn exit_point() -> PhysicalPoint {
    let exit = exit_bounds(SIZE.0, SIZE.1).expect("Exit bounds");
    PhysicalPoint {
        x: (exit.x + exit.width / 2) as i16,
        y: (exit.y + exit.height / 2) as i16,
    }
}

fn activate(state: &mut AppState, button_id: u8) -> Option<Activation> {
    let point = center_of(button_id, state.size());
    assert_eq!(
        state.handle_pointer(pointer(PointerEventKind::Press, point)),
        None
    );
    state.handle_pointer(pointer(PointerEventKind::Release, point))
}

#[test]
fn pointer_activation_distinguishes_send_exit_and_unknown() {
    let mut state = AppState::new(SIZE);
    assert_eq!(
        activate(&mut state, 1),
        Some(Activation::Send {
            button_id: 1,
            action: SemanticAction::MediaPlayPause,
        })
    );
    let exit_point = exit_point();
    assert_eq!(
        state.handle_pointer(pointer(PointerEventKind::Press, exit_point)),
        None
    );
    assert_eq!(
        state.handle_pointer(pointer(PointerEventKind::Release, exit_point)),
        Some(Activation::Exit)
    );
    assert_eq!(
        activation_for_button(u8::MAX),
        Activation::Unknown { button_id: u8::MAX }
    );
}

#[test]
fn application_and_exit_contacts_cannot_cross_activate() {
    let application_point = center_of(1, SIZE);
    let exit_point = exit_point();
    let mut state = AppState::new(SIZE);

    assert_eq!(
        state.handle_pointer(pointer(PointerEventKind::Press, application_point)),
        None
    );
    assert_eq!(
        state.handle_pointer(pointer(PointerEventKind::Release, exit_point)),
        None
    );
    assert_eq!(
        state.handle_pointer(pointer(PointerEventKind::Press, exit_point)),
        None
    );
    assert_eq!(
        state.handle_pointer(pointer(PointerEventKind::Release, application_point)),
        None
    );
}

#[test]
fn geometry_updates_ignore_zero_and_cancel_contact_on_change() {
    let mut state = AppState::new(SIZE);
    let point = center_of(1, SIZE);
    assert_eq!(
        state.handle_pointer(pointer(PointerEventKind::Press, point)),
        None
    );
    assert_eq!(
        state.update_geometry((0, SIZE.1)),
        GeometryUpdate::IgnoredZero
    );
    assert_eq!(state.size(), SIZE);
    assert_eq!(state.update_geometry(SIZE), GeometryUpdate::Unchanged);
    let _ = state.set_status_text("connected".into());

    let resized = (SIZE.0 / 2, SIZE.1 / 2);
    match state.update_geometry(resized) {
        GeometryUpdate::Redraw(redraw) => {
            assert_eq!(redraw.size(), resized);
            assert_eq!(redraw.status_text(), Some("connected"));
        }
        other => panic!("redraw expected, got {other:?}"),
    }
    assert_eq!(state.size(), resized);
    assert_eq!(
        state.handle_pointer(pointer(PointerEventKind::Release, point)),
        None
    );
}

#[test]
fn status_update_requests_redraw_and_replaces_text_without_transport_knowledge() {
    let mut state = AppState::new(SIZE);
    let redraw = state.redraw();
    assert_eq!((redraw.size(), redraw.status_text()), (SIZE, None));
    let redraw = state.set_status_text("first".into());
    assert_eq!((redraw.size(), redraw.status_text()), (SIZE, Some("first")));
    let redraw = state.set_status_text("second".into());
    assert_eq!((redraw.size(), redraw.status_text()), (SIZE, Some("second")));
}

#[test]
fn unmapped_window_cancels_both_contacts() {
    let mut state = AppState::new(SIZE);
    let point = center_of(2, SIZE);
    state.handle_pointer(pointer(PointerEventKind::Press, point));
    state.cancel_contact();
    assert_eq!(
        state.handle_pointer(pointer(PointerEventKind::Release, point)),
        None
    );
}

// ---------------------------------------------------------------------------
// Remote geometry
// ---------------------------------------------------------------------------

#[test]
fn remote_geometry_excludes_local_system_ui() {
    assert_eq!(remote_viewport_size((1272, 1696)), (1272, 1624));
    assert_eq!(remote_viewport_size((100, 40)), (100, 0));
    assert_eq!(remote_viewport_size((0, 40)), (0, 0));
    assert_eq!(remote_viewport_origin((1272, 1696)), (0, 0));
}

#[test]
fn remote_viewport_size_excludes_local_system_ui() {
    assert_eq!(remote_viewport_size((1272, 1696)), (1272, 1624));
    assert_eq!(remote_viewport_size((100, 40)), (100, 0));
    assert_eq!(remote_viewport_size((0, 40)), (0, 0));
}

#[test]
fn pointer_diagnostic_preserves_raw_non_primary_and_outside_coordinates() {
    // Shift together with the first button: the server's key-button mask 0x0101.
    let event = PointerEventRecord {
        detail: 3,
        event_x: -1,
        event_y: 360,
        root_x: 79,
        root_y: 480,
        time: 123_456,
        event: 0x2600001,
        root: 0x50d,
        child: 0,
        state: 0x0001 | 0x0100,
        same_screen: true,
    };

    assert_eq!(
        format_pointer_event("ButtonRelease", &event),
        "input type=ButtonRelease detail=3 event_x=-1 event_y=360 root_x=79 root_y=480 time=123456 window=0x2600001 root=0x50d child=0x0 state=0x0101 same_screen=true"
    );
}

#[test]
fn pointer_diagnostic_prints_extreme_coordinates_and_unpadded_ids() {
    let event = PointerEventRecord {
        detail: 1,
        event_x: i16::MIN,
        event_y: i16::MAX,
        root_x: 0,
        root_y: -12,
        time: u32::MAX,
        event: 0xabc,
        root: u32::MAX,
        child: 0x10,
        state: 0x4,
        same_screen: false,
    };
    assert_eq!(
        format_pointer_event("ButtonPress", &event),
        "input type=ButtonPress detail=1 event_x=-32768 event_y=32767 root_x=0 root_y=-12 time=4294967295 window=0xabc root=0xffffffff child=0x10 state=0x0004 same_screen=false"
    );
}

#[test]
fn remote_contact_is_forwarded_and_dropped_locally_on_geometry_change_and_unmap() {
    let size = (1272, 1696);
    let inside = PhysicalPoint { x: 100, y: 200 };
    let mut state = AppState::new(size);
    assert_eq!(
        state.forward_pointer(pointer(PointerEventKind::Press, inside)),
        Some(V2Pointer::new(V2PointerPhase::Down, 100, 200))
    );
    let _ = state.update_geometry((636, 848));
    assert_eq!(state.forward_pointer(pointer(PointerEventKind::Release, inside)), None);

    assert!(state.forward_pointer(pointer(PointerEventKind::Press, inside)).is_some());
    let _ = state.update_geometry((636, 848));
    assert_eq!(
        state.forward_pointer(pointer(PointerEventKind::Release, PhysicalPoint { x: 5, y: 800 })),
        Some(V2Pointer::new(V2PointerPhase::Up, 65535, 65535))
    );

    assert!(state.forward_pointer(pointer(PointerEventKind::Press, inside)).is_some());
    state.cancel_contact();
    assert_eq!(state.forward_pointer(pointer(PointerEventKind::Release, inside)), None);
}
