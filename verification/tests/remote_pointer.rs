use paperpad::remote_pointer::{RemoteContact, OUT_OF_BOUNDS};
use paperpad::screen::PhysicalPoint;
use paperpad::ui::button::{PointerEvent, PointerEventKind, PRIMARY_BUTTON_DETAIL};
use paperpad::v2_payload::{V2Pointer, V2PointerPhase};

const WIDTH: u16 = 1272;
const HEIGHT: u16 = 1696;

fn event(kind: PointerEventKind, detail: u8, x: i16, y: i16) -> PointerEvent {
    PointerEvent { kind, detail, point: PhysicalPoint { x, y } }
}

fn press(x: i16, y: i16) -> PointerEvent {
    event(PointerEventKind::Press, PRIMARY_BUTTON_DETAIL, x, y)
}

fn release(x: i16, y: i16) -> PointerEvent {
    event(PointerEventKind::Release, PRIMARY_BUTTON_DETAIL, x, y)
}

#[test]
fn contact_inside_viewport_forwards_down_and_up_at_viewport_points() {
    let mut contact = RemoteContact::new();
    assert_eq!(
        contact.forward(press(100, 200), WIDTH, HEIGHT),
        Some(V2Pointer::new(V2PointerPhase::Down, 100, 200))
    );
    assert_eq!(
        contact.forward(release(1271, 1623), WIDTH, HEIGHT),
        Some(V2Pointer::new(V2PointerPhase::Up, 1271, 1623))
    );
    assert_eq!(contact.forward(release(100, 200), WIDTH, HEIGHT), None);
}

#[test]
fn contact_ending_outside_viewport_sends_out_of_bounds_up() {
    let mut contact = RemoteContact::new();
    assert!(contact.forward(press(10, 10), WIDTH, HEIGHT).is_some());
    // The system strip starts at row 1624.
    assert_eq!(
        contact.forward(release(10, 1624), WIDTH, HEIGHT),
        Some(V2Pointer::new(V2PointerPhase::Up, OUT_OF_BOUNDS, OUT_OF_BOUNDS))
    );
    assert!(contact.forward(press(5, 5), WIDTH, HEIGHT).is_some());
    assert_eq!(
        contact.forward(release(-1, 5), WIDTH, HEIGHT),
        Some(V2Pointer::new(V2PointerPhase::Up, OUT_OF_BOUNDS, OUT_OF_BOUNDS))
    );
}

#[test]
fn presses_outside_viewport_and_unmatched_releases_send_nothing() {
    let mut contact = RemoteContact::new();
    assert_eq!(contact.forward(press(10, 1650), WIDTH, HEIGHT), None);
    assert_eq!(contact.forward(release(10, 1650), WIDTH, HEIGHT), None);
    assert_eq!(contact.forward(release(10, 10), WIDTH, HEIGHT), None);
    assert_eq!(contact.forward(press(10, 10), 0, HEIGHT), None);
}

#[test]
fn auxiliary_details_neither_forward_nor_end_a_contact() {
    let mut contact = RemoteContact::new();
    assert!(contact.forward(press(10, 10), WIDTH, HEIGHT).is_some());
    assert_eq!(contact.forward(event(PointerEventKind::Press, 6, 20, 20), WIDTH, HEIGHT), None);
    assert_eq!(contact.forward(event(PointerEventKind::Release, 9, 20, 20), WIDTH, HEIGHT), None);
    assert_eq!(
        contact.forward(release(20, 20), WIDTH, HEIGHT),
        Some(V2Pointer::new(V2PointerPhase::Up, 20, 20))
    );
}

#[test]
fn local_cancellation_sends_nothing_and_drops_the_contact() {
    let mut contact = RemoteContact::new();
    assert!(contact.forward(press(10, 10), WIDTH, HEIGHT).is_some());
    contact.cancel();
    assert_eq!(contact.forward(release(10, 10), WIDTH, HEIGHT), None);
}
