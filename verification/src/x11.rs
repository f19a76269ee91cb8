//! The verified part of the X11 integration: where remote frames go in the
//! window, how the event loop ends, and the conversion of wire Mono1 pixels
//! to the X server's native XYBitmap layout.
//!
//! X11 describes bitmap rows with three independent setup values: bit order
//! inside each scanline unit, byte order for serializing that unit, and row
//! padding. Keeping this conversion separate keeps the stable wire format
//! from depending on one X server's representation.
use crate::app_state::window_remote_viewport;
use crate::framebuffer::{
    mono1_error, pixel_is_black, stride_of, valid_mono1, validate_mono1_pixels, Mono1FrameError,
};
use crate::screen::ScreenLayout;
use crate::text::{chars_to_string, decimal, hex, push_decimal, push_hex, push_str, zero_padded};
use vstd::prelude::*;
use vstd::slice::slice_subrange;

verus! {

/// The raw fields of one X11 button press or release event.
#[derive(Clone, Copy, Debug, PartialEq, Eq, Structural)]
pub struct PointerEventRecord {
    pub detail: u8,
    pub event_x: i16,
    pub event_y: i16,
    pub root_x: i16,
    pub root_y: i16,
    pub time: u32,
    /// The window the event was reported to.
    pub event: u32,
    pub root: u32,
    pub child: u32,
    pub state: u16,
    pub same_screen: bool,
}

/// The decimal text of a signed value.
pub open spec fn signed_decimal(value: int) -> Seq<char> {
    if value < 0 {
        "-"@ + decimal((-value) as nat)
    } else {
        decimal(value as nat)
    }
}

/// The one-line raw diagnostic of a press or release event.
pub open spec fn pointer_event_text(event_type: Seq<char>, event: PointerEventRecord) -> Seq<char> {
    "input type="@ + event_type + " detail="@ + decimal(event.detail as nat) + " event_x="@
        + signed_decimal(event.event_x as int) + " event_y="@ + signed_decimal(event.event_y as int)
        + " root_x="@ + signed_decimal(event.root_x as int) + " root_y="@ + signed_decimal(
        event.root_y as int,
    ) + " time="@ + decimal(event.time as nat) + " window=0x"@ + hex(event.event as nat)
        + " root=0x"@ + hex(event.root as nat) + " child=0x"@ + hex(event.child as nat)
        + " state=0x"@ + zero_padded(hex(event.state as nat), 4) + " same_screen="@ + (if event.same_screen {
        "true"@
    } else {
        "false"@
    })
}

fn push_signed(out: &mut Vec<char>, value: i16)
    ensures
        final(out)@ == old(out)@ + signed_decimal(value as int),
{
    if value < 0 {
        let magnitude: i32 = -(value as i32);
        push_str(out, "-");
        push_decimal(out, magnitude as u64);
    } else {
        push_decimal(out, value as u64);
    }
}

/// One-line raw diagnostic for a press or release event: every field as
/// reported, coordinates outside the window and other buttons included.
pub fn format_pointer_event(event_type: &str, event: &PointerEventRecord) -> (text: String)
    ensures
        text@ == pointer_event_text(event_type@, *event),
{
    let mut out: Vec<char> = Vec::new();
    push_str(&mut out, "input type=");
    push_str(&mut out, event_type);
    push_str(&mut out, " detail=");
    push_decimal(&mut out, event.detail as u64);
    push_str(&mut out, " event_x=");
    push_signed(&mut out, event.event_x);
    push_str(&mut out, " event_y=");
    push_signed(&mut out, event.event_y);
    push_str(&mut out, " root_x=");
    push_signed(&mut out, event.root_x);
    push_str(&mut out, " root_y=");
    push_signed(&mut out, event.root_y);
    push_str(&mut out, " time=");
    push_decimal(&mut out, event.time as u64);
    push_str(&mut out, " window=0x");
    push_hex(&mut out, event.event as u64, 0);
    push_str(&mut out, " root=0x");
    push_hex(&mut out, event.root as u64, 0);
    push_str(&mut out, " child=0x");
    push_hex(&mut out, event.child as u64, 0);
    push_str(&mut out, " state=0x");
    push_hex(&mut out, event.state as u64, 4);
    push_str(&mut out, " same_screen=");
    if event.same_screen {
        push_str(&mut out, "true");
    } else {
        push_str(&mut out, "false");
    }
    assert(out@ =~= pointer_event_text(event_type@, *event));
    chars_to_string(out.as_slice())
}

/// Why the event loop returned.
#[derive(Clone, Copy, Debug, PartialEq, Eq, Structural)]
pub enum EventLoopExit {
    WindowDestroyed,
}

/// The size of the remote viewport of a window; empty for an empty window.
pub fn remote_viewport_size(physical_size: (u16, u16)) -> (size: (u16, u16))
    ensures
        size == (
            window_remote_viewport(physical_size.0, physical_size.1).width,
            window_remote_viewport(physical_size.0, physical_size.1).height,
        ),
{
    match ScreenLayout::new(physical_size.0, physical_size.1) {
        Some(layout) => {
            let viewport = layout.remote_viewport();
            (viewport.width, viewport.height)
        },
        None => (0, 0),
    }
}

/// Where the remote viewport starts in the window.
pub fn remote_viewport_origin(physical_size: (u16, u16)) -> (origin: (i16, i16))
    ensures
        origin == (
            window_remote_viewport(physical_size.0, physical_size.1).x as i16,
            window_remote_viewport(physical_size.0, physical_size.1).y as i16,
        ),
{
    match ScreenLayout::new(physical_size.0, physical_size.1) {
        Some(layout) => {
            let viewport = layout.remote_viewport();
            (viewport.x as i16, viewport.y as i16)
        },
        None => (0, 0),
    }
}

// ---------------------------------------------------------------------------
// Bitmap format
// ---------------------------------------------------------------------------
/// Bytes preceding image data in a core X11 `PutImage` request.
pub const PUT_IMAGE_REQUEST_HEADER_BYTES: usize = 24;

/// An X11 image or bitmap order, as the setup block codes it: 0 for least
/// significant first, 1 for most significant first.
#[derive(Clone, Copy, Debug, PartialEq, Eq, Structural)]
pub enum ImageOrder {
    LsbFirst,
    MsbFirst,
}

/// The order a setup code names, if any.
pub open spec fn order_of_code(code: u8) -> Option<ImageOrder> {
    if code == 0 {
        Some(ImageOrder::LsbFirst)
    } else if code == 1 {
        Some(ImageOrder::MsbFirst)
    } else {
        None
    }
}

impl ImageOrder {
    pub fn from_code(code: u8) -> (order: Option<ImageOrder>)
        ensures
            order == order_of_code(code),
    {
        if code == 0 {
            Some(ImageOrder::LsbFirst)
        } else if code == 1 {
            Some(ImageOrder::MsbFirst)
        } else {
            None
        }
    }

    pub fn code(self) -> (code: u8)
        ensures
            order_of_code(code) == Some(self),
    {
        match self {
            ImageOrder::LsbFirst => 0,
            ImageOrder::MsbFirst => 1,
        }
    }
}

/// Why an X server's bitmap setup is not supported.
#[derive(Clone, Copy, Debug, PartialEq, Eq, Structural)]
pub enum BitmapSetupError {
    UnsupportedByteOrder(u8),
    UnsupportedBitOrder(u8),
    UnsupportedScanlineUnit(u8),
    UnsupportedScanlinePad(u8),
    UnitExceedsPad { unit: u8, pad: u8 },
    /// The maximum request cannot hold even the `PutImage` header.
    RequestTooSmall(usize),
}

/// A scanline unit or pad the conversion supports: 8, 16 or 32 bits.
pub open spec fn supported_bits(bits: u8) -> bool {
    bits == 8 || bits == 16 || bits == 32
}

/// The setup error of a bitmap format, checked in order, if any.
pub open spec fn format_error(byte_order: u8, bit_order: u8, unit: u8, pad: u8) -> Option<
    BitmapSetupError,
> {
    if order_of_code(byte_order) is None {
        Some(BitmapSetupError::UnsupportedByteOrder(byte_order))
    } else if order_of_code(bit_order) is None {
        Some(BitmapSetupError::UnsupportedBitOrder(bit_order))
    } else if !supported_bits(unit) {
        Some(BitmapSetupError::UnsupportedScanlineUnit(unit))
    } else if !supported_bits(pad) {
        Some(BitmapSetupError::UnsupportedScanlinePad(pad))
    } else if unit > pad {
        Some(BitmapSetupError::UnitExceedsPad { unit, pad })
    } else {
        None
    }
}

/// The server's XYBitmap layout.
#[derive(Clone, Copy, Debug, PartialEq, Eq, Structural)]
pub struct BitmapFormat {
    image_byte_order: ImageOrder,
    bitmap_bit_order: ImageOrder,
    scanline_unit_bits: usize,
    scanline_pad_bits: usize,
}

/// Bytes per X11 bitmap row: the width rounded up to whole pads.
pub open spec fn row_stride_of(pad_bits: nat, width: u16) -> nat {
    (((width + pad_bits - 1) as nat / pad_bits) * pad_bits / 8) as nat
}

impl BitmapFormat {
    /// Units are serialized least significant byte first.
    pub closed spec fn lsb_bytes(self) -> bool {
        self.image_byte_order == ImageOrder::LsbFirst
    }

    /// Pixels fill each unit from its least significant bit.
    pub closed spec fn lsb_bits(self) -> bool {
        self.bitmap_bit_order == ImageOrder::LsbFirst
    }

    pub closed spec fn unit_bits(self) -> nat {
        self.scanline_unit_bits as nat
    }

    pub closed spec fn pad_bits(self) -> nat {
        self.scanline_pad_bits as nat
    }

    /// Supported unit and pad, the unit no wider than the pad.
    pub open spec fn supported(self) -> bool {
        &&& self.unit_bits() == 8 || self.unit_bits() == 16 || self.unit_bits() == 32
        &&& self.pad_bits() == 8 || self.pad_bits() == 16 || self.pad_bits() == 32
        &&& self.unit_bits() <= self.pad_bits()
    }

    /// The format a server's setup values describe.
    pub fn new(byte_order: u8, bit_order: u8, unit: u8, pad: u8) -> (result: Result<
        BitmapFormat,
        BitmapSetupError,
    >)
        ensures
            match format_error(byte_order, bit_order, unit, pad) {
                Some(error) => result == Err::<BitmapFormat, BitmapSetupError>(error),
                None => result matches Ok(format) && format.supported() && format.lsb_bytes() == (
                byte_order == 0) && format.lsb_bits() == (bit_order == 0) && format.unit_bits()
                    == unit && format.pad_bits() == pad,
            },
    {
        let image_byte_order = match ImageOrder::from_code(byte_order) {
            Some(order) => order,
            None => return Err(BitmapSetupError::UnsupportedByteOrder(byte_order)),
        };
        let bitmap_bit_order = match ImageOrder::from_code(bit_order) {
            Some(order) => order,
            None => return Err(BitmapSetupError::UnsupportedBitOrder(bit_order)),
        };
        if !(unit == 8 || unit == 16 || unit == 32) {
            return Err(BitmapSetupError::UnsupportedScanlineUnit(unit));
        }
        if !(pad == 8 || pad == 16 || pad == 32) {
            return Err(BitmapSetupError::UnsupportedScanlinePad(pad));
        }
        if unit > pad {
            return Err(BitmapSetupError::UnitExceedsPad { unit, pad });
        }
        Ok(
            BitmapFormat {
                image_byte_order,
                bitmap_bit_order,
                scanline_unit_bits: unit as usize,
                scanline_pad_bits: pad as usize,
            },
        )
    }

    /// Bytes per X11 bitmap row of `width` pixels.
    pub fn row_stride(self, width: u16) -> (stride: usize)
        requires
            self.supported(),
        ensures
            stride == row_stride_of(self.pad_bits(), width),
    {
        let pad = self.scanline_pad_bits;
        let padded = width as usize + pad - 1;
        assert(padded / pad * pad <= padded) by (nonlinear_arith)
            requires
                pad > 0,
        ;
        padded / pad * pad / 8
    }
}

// ---------------------------------------------------------------------------
// Pixel conversion
// ---------------------------------------------------------------------------
/// Whether bit `p` of a scanline unit is set.
pub open spec fn unit_bit(unit: u32, p: int) -> bool {
    (unit >> (p as u32)) & 1u32 == 1u32
}

/// Whether bit `b` of a byte is set.
pub open spec fn byte_bit(value: u8, b: int) -> bool {
    (value >> (b as u8)) & 1u8 == 1u8
}

/// The pixel offset, within its unit, of unit bit `p`: the bit itself when
/// pixels fill units from the least significant bit, else mirrored.
pub open spec fn unit_offset(unit_bits: nat, lsb_bits: bool, p: int) -> int {
    if lsb_bits {
        p
    } else {
        unit_bits - 1 - p
    }
}

/// The significance of byte `i` of a unit of `unit_bytes` bytes.
pub open spec fn significance(unit_bytes: nat, lsb_bytes: bool, i: int) -> int {
    if lsb_bytes {
        i
    } else {
        unit_bytes - 1 - i
    }
}

/// Byte `i` of a serialized unit.
pub open spec fn unit_byte(unit: u32, unit_bytes: nat, lsb_bytes: bool, i: int) -> u8 {
    (unit >> ((8 * significance(unit_bytes, lsb_bytes, i)) as u32)) as u8
}

/// Whether column `x` of `row` is black in a wire frame; columns outside the
/// width are white.
pub open spec fn wire_black(pixels: Seq<u8>, width: u16, stride: nat, row: int, x: int) -> bool {
    0 <= x < width && pixel_is_black(pixels, stride, x as u16, row as u16)
}

/// Whether bit `b` of byte `k` of X11 row `row` is set: the wire pixel the
/// server reads there, given the unit's byte order and bit order.
pub open spec fn bitmap_bit(
    format: BitmapFormat,
    pixels: Seq<u8>,
    width: u16,
    source_stride: nat,
    row: int,
    k: int,
    b: int,
) -> bool {
    let unit_bytes = format.unit_bits() / 8;
    let p = 8 * significance(unit_bytes, format.lsb_bytes(), k % (unit_bytes as int)) + b;
    wire_black(
        pixels,
        width,
        source_stride,
        row,
        (k / (unit_bytes as int)) * format.unit_bits() + unit_offset(
            format.unit_bits(),
            format.lsb_bits(),
            p,
        ),
    )
}

/// Byte `j` of a converted bitmap with `stride` bytes per row shows its
/// eight wire pixels.
pub open spec fn byte_converted(
    format: BitmapFormat,
    pixels: Seq<u8>,
    width: u16,
    source_stride: nat,
    stride: nat,
    bytes: Seq<u8>,
    j: int,
) -> bool {
    forall|b: int|
        0 <= b < 8 ==> #[trigger] byte_bit(bytes[j], b) == bitmap_bit(
            format,
            pixels,
            width,
            source_stride,
            j / (stride as int),
            j % (stride as int),
            b,
        )
}

/// `bytes` is the X11 bitmap of a wire frame: `height` rows of `stride`
/// bytes, every bit the wire pixel it stands for, padding white.
pub open spec fn converted(
    format: BitmapFormat,
    pixels: Seq<u8>,
    width: u16,
    height: u16,
    stride: nat,
    bytes: Seq<u8>,
) -> bool {
    &&& bytes.len() == stride * height
    &&& forall|j: int|
        0 <= j < bytes.len() ==> #[trigger] byte_converted(
            format,
            pixels,
            width,
            stride_of(width),
            stride,
            bytes,
            j,
        )
}

proof fn lemma_or_bit(unit: u32, d: u32, q: u32)
    by (bit_vector)
    requires
        d < 32,
        q < 32,
    ensures
        ((unit | (1u32 << d)) >> q) & 1u32 == (if q == d {
            1u32
        } else {
            (unit >> q) & 1u32
        }),
{
}

proof fn lemma_zero_bit(q: u32)
    by (bit_vector)
    requires
        q < 32,
    ensures
        (0u32 >> q) & 1u32 == 0u32,
{
}

proof fn lemma_byte_of_unit(unit: u32, s: u32, b: u32)
    by (bit_vector)
    requires
        s < 4,
        b < 8,
    ensures
        (((unit >> (8u32 * s)) as u8) >> (b as u8)) & 1u8 == 1u8 <==> (unit >> (8u32 * s + b))
            & 1u32 == 1u32,
{
}

/// Encode the pixels of one scanline unit starting at `first_pixel` of row
/// `row`, whose bytes start at `row_start`.
fn encode_unit(
    pixels: &[u8],
    width: u16,
    row: usize,
    row_start: usize,
    first_pixel: usize,
    unit_bits: usize,
    lsb_bits: bool,
) -> (unit: u32)
    requires
        unit_bits == 8 || unit_bits == 16 || unit_bits == 32,
        row < 65536,
        row_start == row * stride_of(width),
        row_start + stride_of(width) <= pixels@.len(),
        first_pixel + unit_bits <= usize::MAX,
    ensures
        forall|p: int|
            0 <= p < 32 ==> #[trigger] unit_bit(unit, p) == (p < unit_bits && wire_black(
                pixels@,
                width,
                stride_of(width),
                row as int,
                first_pixel + unit_offset(unit_bits as nat, lsb_bits, p),
            )),
{
    let mut encoded: u32 = 0;
    let mut offset: usize = 0;
    let length = pixels.len();
    assert forall|q: int| 0 <= q < 32 implies !#[trigger] unit_bit(encoded, q) by {
        lemma_zero_bit(q as u32);
    }
    while offset < unit_bits
        invariant
            unit_bits == 8 || unit_bits == 16 || unit_bits == 32,
            offset <= unit_bits,
            row < 65536,
            row_start == row * stride_of(width),
            row_start + stride_of(width) <= pixels@.len(),
            length == pixels@.len(),
            first_pixel + unit_bits <= usize::MAX,
            forall|q: int|
                0 <= q < 32 ==> #[trigger] unit_bit(encoded, q) == (q < unit_bits && unit_offset(
                    unit_bits as nat,
                    lsb_bits,
                    q,
                ) < offset && wire_black(
                    pixels@,
                    width,
                    stride_of(width),
                    row as int,
                    first_pixel + unit_offset(unit_bits as nat, lsb_bits, q),
                )),
        decreases unit_bits - offset,
    {
        let x = first_pixel + offset;
        let destination = if lsb_bits {
            offset
        } else {
            unit_bits - 1 - offset
        };
        let mut black = false;
        if x < width as usize {
            assert(x / 8 < stride_of(width));
            let index = row_start + x / 8;
            let byte = pixels[index];
            black = byte & (0x80u8 >> ((x % 8) as u8)) != 0;
            assert(black == pixel_is_black(pixels@, stride_of(width), x as u16, row as u16));
        }
        assert(unit_offset(unit_bits as nat, lsb_bits, destination as int) == offset);
        if black {
            let ghost before = encoded;
            encoded = encoded | (1u32 << (destination as u32));
            assert forall|q: int| 0 <= q < 32 implies #[trigger] unit_bit(encoded, q) == (
            q < unit_bits && unit_offset(unit_bits as nat, lsb_bits, q) < offset + 1
                && wire_black(
                pixels@,
                width,
                stride_of(width),
                row as int,
                first_pixel + unit_offset(unit_bits as nat, lsb_bits, q),
            )) by {
                lemma_or_bit(before, destination as u32, q as u32);
                assert(unit_bit(before, q) == ((before >> (q as u32)) & 1u32 == 1u32));
            }
        }
        offset = offset + 1;
    }
    encoded
}

/// Append the bytes of one unit in the server's byte order.
fn push_unit(out: &mut Vec<u8>, unit: u32, unit_bytes: usize, lsb_bytes: bool)
    requires
        unit_bytes == 1 || unit_bytes == 2 || unit_bytes == 4,
    ensures
        final(out)@.len() == old(out)@.len() + unit_bytes,
        forall|j: int| 0 <= j < old(out)@.len() ==> #[trigger] final(out)@[j] == old(out)@[j],
        forall|i: int|
            0 <= i < unit_bytes ==> #[trigger] final(out)@[old(out)@.len() + i] == unit_byte(
                unit,
                unit_bytes as nat,
                lsb_bytes,
                i,
            ),
{
    let ghost start = out@;
    let mut index: usize = 0;
    while index < unit_bytes
        invariant
            unit_bytes == 1 || unit_bytes == 2 || unit_bytes == 4,
            index <= unit_bytes,
            out@.len() == start.len() + index,
            forall|j: int| 0 <= j < start.len() ==> #[trigger] out@[j] == start[j],
            forall|i: int|
                0 <= i < index ==> #[trigger] out@[start.len() + i] == unit_byte(
                    unit,
                    unit_bytes as nat,
                    lsb_bytes,
                    i,
                ),
        decreases unit_bytes - index,
    {
        let significance_index = if lsb_bytes {
            index
        } else {
            unit_bytes - 1 - index
        };
        out.push((unit >> ((significance_index * 8) as u32)) as u8);
        index = index + 1;
    }
}

// ---------------------------------------------------------------------------
// Adapter
// ---------------------------------------------------------------------------
/// Converts complete Mono1 frames to the server's bitmap layout and splits
/// them into `PutImage` requests that fit the server's request limit.
#[derive(Clone, Copy, Debug, PartialEq, Eq)]
pub struct X11BitmapAdapter {
    format: BitmapFormat,
    maximum_request_bytes: usize,
}

/// Why a frame cannot be prepared for the server.
#[derive(Clone, Debug, PartialEq, Eq)]
pub enum PrepareError {
    /// The pixels are not a valid Mono1 frame.
    Mono1(Mono1FrameError),
    /// Not even one bitmap row fits one request.
    RowTooLarge { maximum_data_bytes: usize, stride: usize },
}

/// Image bytes one request can carry: what the request limit leaves after
/// the header, in whole four-byte units.
pub open spec fn maximum_data_bytes(maximum_request_bytes: nat) -> nat {
    ((maximum_request_bytes - PUT_IMAGE_REQUEST_HEADER_BYTES) / 4 * 4) as nat
}

/// Rows per request: as many whole rows as fit, at most `u16::MAX`.
pub open spec fn rows_per_request(maximum_request_bytes: nat, stride: nat) -> nat {
    let rows = maximum_data_bytes(maximum_request_bytes) / stride;
    if rows <= 65535 {
        rows
    } else {
        65535
    }
}

/// A frame in the server's layout, with its request split.
#[derive(Debug)]
pub struct PreparedBitmap {
    width: u16,
    height: u16,
    stride: usize,
    rows_per_chunk: usize,
    encoded: Vec<u8>,
}

proof fn lemma_row_position(row: int, stride: int, k: int)
    requires
        0 <= k < stride,
        0 <= row,
    ensures
        (row * stride + k) / stride == row,
        (row * stride + k) % stride == k,
{
    vstd::arithmetic::div_mod::lemma_fundamental_div_mod_converse(row * stride + k, stride, row, k);
}

proof fn lemma_row_fits(row: int, height: int, stride: int)
    requires
        0 <= row < height,
        0 <= stride,
    ensures
        row * stride + stride <= stride * height,
{
    assert(row * stride + stride <= stride * height) by (nonlinear_arith)
        requires
            0 <= row < height,
            0 <= stride,
    ;
}

impl X11BitmapAdapter {
    #[verifier::type_invariant]
    spec fn adapter_valid(self) -> bool {
        &&& self.format.supported()
        &&& self.maximum_request_bytes > PUT_IMAGE_REQUEST_HEADER_BYTES
    }

    pub closed spec fn spec_format(self) -> BitmapFormat {
        self.format
    }

    pub closed spec fn spec_maximum_request_bytes(self) -> nat {
        self.maximum_request_bytes as nat
    }

    /// The adapter for a server's bitmap setup and request limit.
    pub fn new(
        byte_order: u8,
        bit_order: u8,
        unit: u8,
        pad: u8,
        maximum_request_bytes: usize,
    ) -> (result: Result<X11BitmapAdapter, BitmapSetupError>)
        ensures
            match format_error(byte_order, bit_order, unit, pad) {
                Some(error) => result == Err::<X11BitmapAdapter, BitmapSetupError>(error),
                None => if maximum_request_bytes <= PUT_IMAGE_REQUEST_HEADER_BYTES {
                    result == Err::<X11BitmapAdapter, BitmapSetupError>(
                        BitmapSetupError::RequestTooSmall(maximum_request_bytes),
                    )
                } else {
                    result matches Ok(adapter) && adapter.spec_format().lsb_bytes() == (byte_order
                        == 0) && adapter.spec_format().lsb_bits() == (bit_order == 0)
                        && adapter.spec_format().unit_bits() == unit
                        && adapter.spec_format().pad_bits() == pad
                        && adapter.spec_maximum_request_bytes() == maximum_request_bytes
                },
            },
    {
        let format = match BitmapFormat::new(byte_order, bit_order, unit, pad) {
            Ok(format) => format,
            Err(error) => return Err(error),
        };
        if maximum_request_bytes <= PUT_IMAGE_REQUEST_HEADER_BYTES {
            return Err(BitmapSetupError::RequestTooSmall(maximum_request_bytes));
        }
        Ok(X11BitmapAdapter { format, maximum_request_bytes })
    }

    /// Convert a wire frame to the server's layout: every row padded to the
    /// server's scanline pad, each unit's pixels in the server's bit order
    /// and its bytes in the server's byte order.
    pub fn prepare(&self, width: u16, height: u16, pixels: &[u8]) -> (result: Result<
        PreparedBitmap,
        PrepareError,
    >)
        ensures
            match mono1_error(width, height, pixels@) {
                Some(error) => result == Err::<PreparedBitmap, PrepareError>(
                    PrepareError::Mono1(error),
                ),
                None => {
                    let stride = row_stride_of(self.spec_format().pad_bits(), width);
                    let maximum = maximum_data_bytes(self.spec_maximum_request_bytes());
                    if maximum / stride == 0 {
                        result == Err::<PreparedBitmap, PrepareError>(
                            PrepareError::RowTooLarge {
                                maximum_data_bytes: maximum as usize,
                                stride: stride as usize,
                            },
                        )
                    } else {
                        result matches Ok(bitmap) && bitmap.spec_width() == width
                            && bitmap.spec_height() == height && bitmap.spec_stride() == stride
                            && bitmap.spec_rows_per_chunk() == rows_per_request(
                            self.spec_maximum_request_bytes(),
                            stride,
                        ) && converted(
                            self.spec_format(),
                            pixels@,
                            width,
                            height,
                            stride,
                            bitmap.spec_bytes(),
                        )
                    }
                },
            },
    {
        proof {
            use_type_invariant(self);
        }
        let source_stride = match validate_mono1_pixels(width, height, pixels) {
            Ok(stride) => stride,
            Err(error) => return Err(PrepareError::Mono1(error)),
        };
        let format = self.format;
        let stride = format.row_stride(width);
        let unit_bits = format.scanline_unit_bits;
        let pad_bits = format.scanline_pad_bits;
        proof {
            let n = (width + pad_bits - 1) as nat / (pad_bits as nat);
            assert(width > 0);
            assert(pad_bits == 8 || pad_bits == 16 || pad_bits == 32);
            assert(n >= 1) by {
                if pad_bits == 8 {
                    assert(n == (width + 7) as nat / 8);
                } else if pad_bits == 16 {
                    assert(n == (width + 15) as nat / 16);
                } else {
                    assert(n == (width + 31) as nat / 32);
                }
            }
            assert(n * (pad_bits as nat) <= width + pad_bits - 1) by (nonlinear_arith)
                requires
                    pad_bits > 0,
                    n == (width + pad_bits - 1) as nat / (pad_bits as nat),
            ;
            assert(n * (pad_bits as nat) >= 8) by (nonlinear_arith)
                requires
                    n >= 1,
                    pad_bits >= 8,
            ;
        }
        let maximum_data_bytes = (self.maximum_request_bytes - PUT_IMAGE_REQUEST_HEADER_BYTES) / 4
            * 4;
        let rows_per_chunk = maximum_data_bytes / stride;
        if rows_per_chunk == 0 {
            return Err(PrepareError::RowTooLarge { maximum_data_bytes, stride });
        }
        let rows_per_chunk = if rows_per_chunk <= 65535 {
            rows_per_chunk
        } else {
            65535
        };
        let unit_bytes = unit_bits / 8;
        let units_per_row = stride / unit_bytes;
        let lsb_bits = match format.bitmap_bit_order {
            ImageOrder::LsbFirst => true,
            ImageOrder::MsbFirst => false,
        };
        let lsb_bytes = match format.image_byte_order {
            ImageOrder::LsbFirst => true,
            ImageOrder::MsbFirst => false,
        };
        proof {
            let n = (width + pad_bits - 1) as nat / (pad_bits as nat);
            assert(stride == units_per_row * unit_bytes) by {
                assert(stride == n * (pad_bits as nat) / 8);
                assert(unit_bytes <= pad_bits / 8);
                if pad_bits == 8 {
                    assert(stride == n) by (nonlinear_arith)
                        requires
                            stride == n * 8 / 8,
                    ;
                    assert(unit_bytes == 1);
                } else if pad_bits == 16 {
                    assert(stride == 2 * n) by (nonlinear_arith)
                        requires
                            stride == n * 16 / 8,
                    ;
                    assert(stride / unit_bytes * unit_bytes == stride) by (nonlinear_arith)
                        requires
                            stride == 2 * n,
                            unit_bytes == 1 || unit_bytes == 2,
                    ;
                } else {
                    assert(stride == 4 * n) by (nonlinear_arith)
                        requires
                            stride == n * 32 / 8,
                    ;
                    assert(stride / unit_bytes * unit_bytes == stride) by (nonlinear_arith)
                        requires
                            stride == 4 * n,
                            unit_bytes == 1 || unit_bytes == 2 || unit_bytes == 4,
                    ;
                }
            }
            assert(stride * (height as nat) <= 8200 * 65535) by (nonlinear_arith)
                requires
                    stride <= 8200,
                    height <= 65535,
            ;
        }
        let ghost spec_pixels = pixels@;
        let mut encoded: Vec<u8> = Vec::new();
        let mut row: usize = 0;
        let mut row_start: usize = 0;
        while row < height as usize
            invariant
                format == self.format,
                format.supported(),
                valid_mono1(width, height, spec_pixels),
                spec_pixels == pixels@,
                pixels@.len() == source_stride * height,
                source_stride == stride_of(width),
                stride == row_stride_of(format.pad_bits(), width),
                0 < stride <= 8200,
                unit_bits == format.unit_bits(),
                unit_bytes == unit_bits / 8,
                unit_bytes == 1 || unit_bytes == 2 || unit_bytes == 4,
                stride == units_per_row * unit_bytes,
                lsb_bits == format.lsb_bits(),
                lsb_bytes == format.lsb_bytes(),
                row <= height,
                row_start == row * source_stride,
                encoded@.len() == row * stride,
                forall|j: int|
                    0 <= j < encoded@.len() ==> #[trigger] byte_converted(
                        format,
                        spec_pixels,
                        width,
                        stride_of(width),
                        stride as nat,
                        encoded@,
                        j,
                    ),
            decreases height - row,
        {
            proof {
                lemma_row_fits(row as int, height as int, source_stride as int);
                lemma_row_fits(row as int, height as int, stride as int);
            }
            let mut unit_index: usize = 0;
            let mut first_pixel: usize = 0;
            while unit_index < units_per_row
                invariant
                    format == self.format,
                    format.supported(),
                    valid_mono1(width, height, spec_pixels),
                    spec_pixels == pixels@,
                    pixels@.len() == source_stride * height,
                    source_stride == stride_of(width),
                    stride == row_stride_of(format.pad_bits(), width),
                    0 < stride <= 8200,
                    unit_bits == format.unit_bits(),
                    unit_bytes == unit_bits / 8,
                    unit_bytes == 1 || unit_bytes == 2 || unit_bytes == 4,
                    stride == units_per_row * unit_bytes,
                    lsb_bits == format.lsb_bits(),
                    lsb_bytes == format.lsb_bytes(),
                    row < height,
                    row_start == row * source_stride,
                    row_start + source_stride <= pixels@.len(),
                    row * stride + stride <= stride * height,
                    unit_index <= units_per_row,
                    first_pixel == unit_index * unit_bits,
                    encoded@.len() == row * stride + unit_index * unit_bytes,
                    forall|j: int|
                        0 <= j < encoded@.len() ==> #[trigger] byte_converted(
                            format,
                            spec_pixels,
                            width,
                            stride_of(width),
                            stride as nat,
                            encoded@,
                            j,
                        ),
                decreases units_per_row - unit_index,
            {
                proof {
                    assert(unit_index * unit_bytes + unit_bytes <= stride) by (nonlinear_arith)
                        requires
                            unit_index < units_per_row,
                            stride == units_per_row * unit_bytes,
                            unit_bytes > 0,
                    ;
                    assert(first_pixel + unit_bits <= 8 * stride) by (nonlinear_arith)
                        requires
                            first_pixel == unit_index * unit_bits,
                            unit_bits == 8 * unit_bytes,
                            unit_index * unit_bytes + unit_bytes <= stride,
                    ;
                }
                let unit = encode_unit(
                    pixels,
                    width,
                    row,
                    row_start,
                    first_pixel,
                    unit_bits,
                    lsb_bits,
                );
                let ghost before = encoded@;
                push_unit(&mut encoded, unit, unit_bytes, lsb_bytes);
                proof {
                    let base = before.len() as int;
                    assert forall|j: int| 0 <= j < base implies #[trigger] byte_converted(
                        format,
                        spec_pixels,
                        width,
                        stride_of(width),
                        stride as nat,
                        encoded@,
                        j,
                    ) by {
                        assert(byte_converted(
                            format,
                            spec_pixels,
                            width,
                            stride_of(width),
                            stride as nat,
                            before,
                            j,
                        ));
                        assert(encoded@[j] == before[j]);
                    }
                    assert forall|i: int| 0 <= i < unit_bytes implies #[trigger] byte_converted(
                        format,
                        spec_pixels,
                        width,
                        stride_of(width),
                        stride as nat,
                        encoded@,
                        base + i,
                    ) by {
                        let k = unit_index * unit_bytes + i;
                        lemma_row_position(row as int, stride as int, k);
                        vstd::arithmetic::div_mod::lemma_fundamental_div_mod_converse(
                            k,
                            unit_bytes as int,
                            unit_index as int,
                            i,
                        );
                        assert(base + i == row * stride + k);
                        let sig = significance(unit_bytes as nat, lsb_bytes, i);
                        assert forall|b: int| 0 <= b < 8 implies #[trigger] byte_bit(
                            encoded@[base + i],
                            b,
                        ) == bitmap_bit(
                            format,
                            spec_pixels,
                            width,
                            stride_of(width),
                            (base + i) / (stride as int),
                            (base + i) % (stride as int),
                            b,
                        ) by {
                            lemma_byte_of_unit(unit, sig as u32, b as u32);
                            assert(encoded@[base + i] == unit_byte(
                                unit,
                                unit_bytes as nat,
                                lsb_bytes,
                                i,
                            ));
                            assert(unit_bit(unit, 8 * sig + b) == (8 * sig + b < unit_bits
                                && wire_black(
                                spec_pixels,
                                width,
                                stride_of(width),
                                row as int,
                                first_pixel + unit_offset(unit_bits as nat, lsb_bits, 8 * sig + b),
                            )));
                        }
                    }
                    assert forall|j: int| 0 <= j < encoded@.len() implies #[trigger] byte_converted(
                        format,
                        spec_pixels,
                        width,
                        stride_of(width),
                        stride as nat,
                        encoded@,
                        j,
                    ) by {
                        if j >= base {
                            assert(byte_converted(
                                format,
                                spec_pixels,
                                width,
                                stride_of(width),
                                stride as nat,
                                encoded@,
                                base + (j - base),
                            ));
                        }
                    }
                    assert((unit_index + 1) * unit_bytes == unit_index * unit_bytes + unit_bytes)
                        by (nonlinear_arith);
                    assert((unit_index + 1) * unit_bits == unit_index * unit_bits + unit_bits)
                        by (nonlinear_arith);
                }
                unit_index = unit_index + 1;
                first_pixel = first_pixel + unit_bits;
            }
            proof {
                assert((row + 1) * stride == row * stride + stride) by (nonlinear_arith);
                assert((row + 1) * source_stride == row * source_stride + source_stride)
                    by (nonlinear_arith);
            }
            row = row + 1;
            row_start = row_start + source_stride;
        }
        proof {
            assert(encoded@.len() == stride * height) by (nonlinear_arith)
                requires
                    encoded@.len() == row * stride,
                    row == height,
            ;
        }
        Ok(PreparedBitmap { width, height, stride, rows_per_chunk, encoded })
    }
}

impl PreparedBitmap {
    #[verifier::type_invariant]
    spec fn bitmap_valid(self) -> bool {
        &&& 0 < self.rows_per_chunk <= 65535
        &&& self.encoded@.len() == self.stride * self.height
    }

    pub closed spec fn spec_width(&self) -> u16 {
        self.width
    }

    pub closed spec fn spec_height(&self) -> u16 {
        self.height
    }

    pub closed spec fn spec_stride(&self) -> nat {
        self.stride as nat
    }

    pub closed spec fn spec_rows_per_chunk(&self) -> nat {
        self.rows_per_chunk as nat
    }

    pub closed spec fn spec_bytes(&self) -> Seq<u8> {
        self.encoded@
    }

    pub fn width(&self) -> (width: u16)
        ensures
            width == self.spec_width(),
    {
        self.width
    }

    pub fn height(&self) -> (height: u16)
        ensures
            height == self.spec_height(),
    {
        self.height
    }

    /// Bytes per row in the server's layout.
    pub fn stride(&self) -> (stride: usize)
        ensures
            stride == self.spec_stride(),
    {
        self.stride
    }

    /// The converted rows, one after another.
    pub fn bytes(&self) -> (bytes: &[u8])
        ensures
            bytes@ == self.spec_bytes(),
    {
        self.encoded.as_slice()
    }
}

/// The first row of request `index`.
pub open spec fn chunk_first(rows_per_chunk: nat, index: int) -> int {
    index * rows_per_chunk
}

/// The row count of request `index`: a full request, or the rows left.
pub open spec fn chunk_row_count(height: nat, rows_per_chunk: nat, index: int) -> int {
    let first = chunk_first(rows_per_chunk, index);
    if rows_per_chunk <= height - first {
        rows_per_chunk as int
    } else {
        height - first
    }
}

/// Request `index` of a bitmap: its first row, its row count and the bytes
/// of those rows.
pub open spec fn is_chunk(
    chunk: (u16, u16, &[u8]),
    bytes: Seq<u8>,
    height: nat,
    stride: nat,
    rows_per_chunk: nat,
    index: int,
) -> bool {
    let first = chunk_first(rows_per_chunk, index);
    let rows = chunk_row_count(height, rows_per_chunk, index);
    &&& first < height
    &&& chunk.0 == first
    &&& chunk.1 == rows
    &&& chunk.2@ == bytes.subrange(first * stride, (first + rows) * stride)
}

impl PreparedBitmap {
    /// The `PutImage` requests of the bitmap, top to bottom: each its first
    /// row, its row count and its bytes, whole rows that fit one request.
    pub fn chunks(&self) -> (chunks: Vec<(u16, u16, &[u8])>)
        ensures
            chunks@.len() * self.spec_rows_per_chunk() >= self.spec_height(),
            forall|c: int|
                0 <= c < chunks@.len() ==> is_chunk(
                    #[trigger] chunks@[c],
                    self.spec_bytes(),
                    self.spec_height() as nat,
                    self.spec_stride(),
                    self.spec_rows_per_chunk(),
                    c,
                ),
    {
        proof {
            use_type_invariant(self);
        }
        let height = self.height as usize;
        let rows_per_chunk = self.rows_per_chunk;
        let stride = self.stride;
        let bytes = self.encoded.as_slice();
        let length = bytes.len();
        let mut chunks: Vec<(u16, u16, &[u8])> = Vec::new();
        let mut first_row: usize = 0;
        assert(chunks@.len() * rows_per_chunk == 0) by (nonlinear_arith)
            requires
                chunks@.len() == 0,
        ;
        while first_row < height
            invariant
                0 < rows_per_chunk <= 65535,
                rows_per_chunk == self.spec_rows_per_chunk(),
                height == self.spec_height(),
                stride == self.spec_stride(),
                bytes@ == self.spec_bytes(),
                bytes@.len() == stride * height,
                length == bytes@.len(),
                first_row == chunks@.len() * rows_per_chunk,
                first_row <= height + rows_per_chunk,
                forall|c: int|
                    0 <= c < chunks@.len() ==> is_chunk(
                        #[trigger] chunks@[c],
                        bytes@,
                        height as nat,
                        stride as nat,
                        rows_per_chunk as nat,
                        c,
                    ),
            decreases height + rows_per_chunk - first_row,
        {
            let rows = if rows_per_chunk <= height - first_row {
                rows_per_chunk
            } else {
                height - first_row
            };
            proof {
                assert((first_row + rows) * stride <= height * stride) by (nonlinear_arith)
                    requires
                        first_row + rows <= height,
                ;
                assert(first_row * stride <= (first_row + rows) * stride) by (nonlinear_arith);
                assert(height * stride == stride * height) by (nonlinear_arith);
            }
            let start = first_row * stride;
            let end = (first_row + rows) * stride;
            let ghost count = chunks@.len();
            chunks.push((first_row as u16, rows as u16, slice_subrange(bytes, start, end)));
            proof {
                assert(is_chunk(
                    chunks@[count as int],
                    bytes@,
                    height as nat,
                    stride as nat,
                    rows_per_chunk as nat,
                    count as int,
                ));
                assert((count + 1) * rows_per_chunk == count * rows_per_chunk + rows_per_chunk)
                    by (nonlinear_arith);
            }
            first_row = first_row + rows_per_chunk;
        }
        chunks
    }
}

/// A chunk destination beyond the signed 16-bit coordinate range.
#[derive(Clone, Copy, Debug, PartialEq, Eq, Structural)]
pub struct DestinationOutOfRange {
    pub origin: i16,
    pub row_offset: u16,
}

/// The window row of a chunk that starts `row_offset` rows below `origin`,
/// checked instead of wrapping.
pub fn destination_y(origin: i16, row_offset: u16) -> (result: Result<i16, DestinationOutOfRange>)
    ensures
        origin + row_offset <= i16::MAX ==> result == Ok::<i16, DestinationOutOfRange>(
            (origin + row_offset) as i16,
        ),
        origin + row_offset > i16::MAX ==> result == Err::<i16, DestinationOutOfRange>(
            DestinationOutOfRange { origin, row_offset },
        ),
{
    let y = origin as i32 + row_offset as i32;
    if y <= i16::MAX as i32 {
        Ok(y as i16)
    } else {
        Err(DestinationOutOfRange { origin, row_offset })
    }
}

} // verus!
