use paperpad::framebuffer::{Mono1FrameError, Mono1Pixel};
use paperpad::paperspoon::application_renderer::render_application;
use paperpad::paperspoon::application_ui::ApplicationUi;

const WIDTH: u16 = 1272;
const HEIGHT: u16 = 1624;

#[test]
fn zero_viewports_are_rejected_before_rendering() {
    assert_eq!(
        render_application(&ApplicationUi::default(), 0, HEIGHT),
        Err(Mono1FrameError::ZeroDimension {
            width: 0,
            height: HEIGHT,
        })
    );
}

#[test]
fn odd_width_render_remains_a_valid_protocol_frame() {
    let frame = render_application(&ApplicationUi::default(), 1273, HEIGHT)
        .expect("odd-width application frame");
    assert_eq!(frame.stride(), 160);
    assert_eq!(frame.pixels().len(), 160 * usize::from(HEIGHT));
}

#[test]
fn portrait_frame_has_black_button_outlines_on_white() {
    let frame = render_application(&ApplicationUi::default(), WIDTH, HEIGHT)
        .expect("application frame");
    assert_eq!((frame.width(), frame.height()), (WIDTH, HEIGHT));
    assert_eq!(frame.pixel(20, 60), Some(Mono1Pixel::Black));
    assert_eq!(frame.pixel(403, 60), Some(Mono1Pixel::Black));
    assert_eq!(frame.pixel(20, 443), Some(Mono1Pixel::Black));
    assert_eq!(frame.pixel(403, 443), Some(Mono1Pixel::Black));
    assert_eq!(frame.pixel(21, 61), Some(Mono1Pixel::White));
    assert_eq!(frame.pixel(19, 60), Some(Mono1Pixel::White));
    assert_eq!(frame.pixel(404, 60), Some(Mono1Pixel::White));
    assert!((1584..HEIGHT).all(|y| (0..WIDTH).all(|x| frame.pixel(x, y) == Some(Mono1Pixel::White))));
}

#[test]
fn viewports_without_buttons_render_all_white() {
    let frame = render_application(&ApplicationUi::default(), 100, 100).expect("small frame");
    assert!(frame.pixels().iter().all(|byte| *byte == 0));
}
