use paperpad::framebuffer::Mono1FrameError;
use paperpad::x11::{
    destination_y, BitmapSetupError, ImageOrder, PrepareError, X11BitmapAdapter,
    PUT_IMAGE_REQUEST_HEADER_BYTES,
};

const LSB_FIRST: u8 = 0;
const MSB_FIRST: u8 = 1;

fn adapter(
    image_byte_order: u8,
    bitmap_bit_order: u8,
    unit: u8,
    pad: u8,
    maximum_request_bytes: usize,
) -> X11BitmapAdapter {
    X11BitmapAdapter::new(image_byte_order, bitmap_bit_order, unit, pad, maximum_request_bytes)
        .expect("supported bitmap setup")
}

#[test]
fn matching_msb_eight_bit_format_preserves_wire_bytes() {
    let adapter = adapter(MSB_FIRST, MSB_FIRST, 8, 8, 4096);
    let bitmap = adapter
        .prepare(9, 2, &[0xaa, 0x80, 0x55, 0x00])
        .expect("prepare");
    assert_eq!(bitmap.stride(), 2);
    assert_eq!(bitmap.bytes(), &[0xaa, 0x80, 0x55, 0x00]);
}

#[test]
fn lsb_bit_order_reverses_bits_within_eight_bit_units() {
    let adapter = adapter(LSB_FIRST, LSB_FIRST, 8, 8, 4096);
    let bitmap = adapter.prepare(9, 1, &[0xaa, 0x80]).expect("prepare");
    assert_eq!(bitmap.bytes(), &[0x55, 0x01]);
}

#[test]
fn sixteen_bit_units_apply_bit_and_byte_order_independently() {
    let cases = [
        (MSB_FIRST, MSB_FIRST, [0x40, 0x00]),
        (LSB_FIRST, MSB_FIRST, [0x00, 0x40]),
        (MSB_FIRST, LSB_FIRST, [0x00, 0x02]),
        (LSB_FIRST, LSB_FIRST, [0x02, 0x00]),
    ];
    for (image_order, bit_order, expected) in cases {
        let adapter = adapter(image_order, bit_order, 16, 16, 4096);
        let bitmap = adapter.prepare(16, 1, &[0x40, 0x00]).expect("prepare");
        assert_eq!(bitmap.bytes(), &expected);
    }
}

#[test]
fn thirty_two_bit_units_place_pixels_across_all_bytes() {
    let adapter = adapter(LSB_FIRST, MSB_FIRST, 32, 32, 4096);
    let bitmap = adapter
        .prepare(25, 1, &[0x80, 0x01, 0x80, 0x80])
        .expect("prepare");
    assert_eq!(bitmap.bytes(), &[0x80, 0x80, 0x01, 0x80]);
}

#[test]
fn rows_are_zero_padded_to_server_scanline_boundary() {
    let adapter = adapter(MSB_FIRST, MSB_FIRST, 16, 32, 4096);
    let bitmap = adapter
        .prepare(9, 2, &[0xaa, 0x80, 0x55, 0x00])
        .expect("prepare");
    assert_eq!(bitmap.stride(), 4);
    assert_eq!(
        bitmap.bytes(),
        &[0xaa, 0x80, 0x00, 0x00, 0x55, 0x00, 0x00, 0x00]
    );
}

#[test]
fn chunks_are_whole_rows_bounded_by_maximum_request_size() {
    let adapter = adapter(
        MSB_FIRST,
        MSB_FIRST,
        8,
        8,
        PUT_IMAGE_REQUEST_HEADER_BYTES + 8,
    );
    let bitmap = adapter.prepare(17, 5, &[0x00; 15]).expect("prepare");
    let chunks: Vec<_> = bitmap
        .chunks()
        .iter()
        .map(|(y, rows, bytes)| (*y, *rows, bytes.len()))
        .collect();
    assert_eq!(chunks, vec![(0, 2, 6), (2, 2, 6), (4, 1, 3)]);
    assert!(chunks.iter().all(|(_, _, bytes)| {
        PUT_IMAGE_REQUEST_HEADER_BYTES + (*bytes).div_ceil(4) * 4
            <= PUT_IMAGE_REQUEST_HEADER_BYTES + 8
    }));
}

#[test]
fn invalid_setup_frame_and_request_limits_are_rejected() {
    for (unit, pad) in [(0, 8), (64, 64), (16, 8)] {
        assert!(X11BitmapAdapter::new(MSB_FIRST, MSB_FIRST, unit, pad, 4096).is_err());
    }
    for order in [2, u8::MAX] {
        assert!(X11BitmapAdapter::new(order, MSB_FIRST, 8, 8, 4096).is_err());
        assert!(X11BitmapAdapter::new(MSB_FIRST, order, 8, 8, 4096).is_err());
    }
    assert!(X11BitmapAdapter::new(
        MSB_FIRST,
        MSB_FIRST,
        8,
        8,
        PUT_IMAGE_REQUEST_HEADER_BYTES,
    )
    .is_err());

    let narrow_adapter = adapter(
        MSB_FIRST,
        MSB_FIRST,
        8,
        32,
        PUT_IMAGE_REQUEST_HEADER_BYTES + 3,
    );
    assert!(narrow_adapter.prepare(9, 1, &[0x00; 2]).is_err());
    assert!(narrow_adapter.prepare(9, 2, &[0x00; 3]).is_err());
    assert!(narrow_adapter.prepare(9, 1, &[0x00, 0x01]).is_err());

    let unaligned_limit = adapter(
        MSB_FIRST,
        MSB_FIRST,
        8,
        8,
        PUT_IMAGE_REQUEST_HEADER_BYTES + 7,
    );
    let bitmap = unaligned_limit
        .prepare(17, 2, &[0x00; 6])
        .expect("one padded row fits");
    assert_eq!(bitmap.chunks().len(), 2);
}

#[test]
fn setup_and_prepare_errors_say_why() {
    assert_eq!(
        X11BitmapAdapter::new(2, MSB_FIRST, 8, 8, 4096),
        Err(BitmapSetupError::UnsupportedByteOrder(2))
    );
    assert_eq!(
        X11BitmapAdapter::new(MSB_FIRST, 7, 8, 8, 4096),
        Err(BitmapSetupError::UnsupportedBitOrder(7))
    );
    assert_eq!(
        X11BitmapAdapter::new(MSB_FIRST, MSB_FIRST, 16, 8, 4096),
        Err(BitmapSetupError::UnitExceedsPad { unit: 16, pad: 8 })
    );
    assert_eq!(
        X11BitmapAdapter::new(MSB_FIRST, MSB_FIRST, 8, 8, 10),
        Err(BitmapSetupError::RequestTooSmall(10))
    );
    let narrow = adapter(MSB_FIRST, MSB_FIRST, 8, 32, PUT_IMAGE_REQUEST_HEADER_BYTES + 3);
    assert_eq!(
        narrow.prepare(9, 1, &[0x00; 2]).unwrap_err(),
        PrepareError::RowTooLarge {
            maximum_data_bytes: 0,
            stride: 4
        }
    );
    assert_eq!(
        narrow.prepare(9, 1, &[0x00, 0x01]).unwrap_err(),
        PrepareError::Mono1(Mono1FrameError::NonWhitePadding { row: 0, byte: 0x01 })
    );
    assert_eq!(ImageOrder::from_code(0), Some(ImageOrder::LsbFirst));
    assert_eq!(ImageOrder::MsbFirst.code(), 1);
}

#[test]
fn chunk_destination_y_is_checked_instead_of_wrapping() {
    assert_eq!(destination_y(0, 0).expect("origin"), 0);
    assert_eq!(destination_y(-10, 10).expect("offset"), 0);
    assert_eq!(
        destination_y(i16::MAX - 1, 1).expect("maximum coordinate"),
        i16::MAX
    );
    assert!(destination_y(i16::MAX, 1).is_err());
}
