//! Deterministic software drawing on protocol-native Mono1 frames.
//!
//! The canvas always holds a valid Mono1 payload: drawing only ever touches
//! visible pixels, so the unused bits of each row stay white.
use crate::framebuffer::{
    last_byte_index, lemma_first_nonwhite_none, mono1_error, mono1_payload_len, mono1_stride,
    padding_mask, pixel_is_black, row_padding_white, stride_of, valid_mono1, Mono1Frame,
    Mono1FrameError, Mono1Pixel,
};
use vstd::prelude::*;

verus! {

/// Mutable one-bit canvas using the protocol's MSB-first row representation.
#[derive(Debug, PartialEq, Eq)]
pub struct MonoCanvas {
    width: u16,
    height: u16,
    stride: usize,
    pixels: Vec<u8>,
}

/// The bit of column `x` within its byte.
pub open spec fn bit_mask(x: u16) -> u8 {
    0x80u8 >> ((x % 8) as u8)
}

/// Whether `(x, y)` lies in the half-open rectangle at `(left, top)`.
pub open spec fn in_rect(x: u16, y: u16, left: u16, top: u16, width: u16, height: u16) -> bool {
    left <= x && x < left + width && top <= y && y < top + height
}

/// `a + b`, capped at `u16::MAX`.
pub open spec fn saturating_add_u16(a: u16, b: u16) -> u16 {
    if a + b > u16::MAX {
        u16::MAX
    } else {
        (a + b) as u16
    }
}

/// Whether `(x, y)` is on the one-pixel outline of the rectangle at
/// `(left, top)`: its top and bottom rows and its left and right columns.
pub open spec fn on_outline(x: u16, y: u16, left: u16, top: u16, width: u16, height: u16) -> bool {
    if width == 0 || height == 0 {
        false
    } else {
        ||| in_rect(x, y, left, top, width, 1)
        ||| (height > 1 && in_rect(x, y, left, saturating_add_u16(top, (height - 1) as u16), width, 1))
        ||| (height > 2 && in_rect(x, y, left, saturating_add_u16(top, 1), 1, (height - 2) as u16))
        ||| (height > 2 && width > 1 && in_rect(
            x,
            y,
            saturating_add_u16(left, (width - 1) as u16),
            saturating_add_u16(top, 1),
            1,
            (height - 2) as u16,
        ))
    }
}

/// The last byte of a row of a black canvas `width` wide: its visible bits
/// set, its padding bits clear.
pub open spec fn last_row_byte(width: u16) -> u8 {
    if width % 8 != 0 {
        0xffu8 << ((8 - width % 8) as u8)
    } else {
        0xffu8
    }
}

// ---------------------------------------------------------------------------
// Bit facts
// ---------------------------------------------------------------------------
proof fn lemma_set_bit(byte: u8, set: u8, other: u8)
    requires
        set < 8,
        other < 8,
    ensures
        (byte | (0x80u8 >> set)) & (0x80u8 >> other) != 0 <==> (set == other || byte & (0x80u8
            >> other) != 0),
        (byte & !(0x80u8 >> set)) & (0x80u8 >> other) != 0 <==> (set != other && byte & (0x80u8
            >> other) != 0),
{
    assert((byte | (0x80u8 >> set)) & (0x80u8 >> other) != 0 <==> (set == other || byte & (0x80u8
        >> other) != 0)) by (bit_vector)
        requires
            set < 8,
            other < 8,
    ;
    assert((byte & !(0x80u8 >> set)) & (0x80u8 >> other) != 0 <==> (set != other && byte & (0x80u8
        >> other) != 0)) by (bit_vector)
        requires
            set < 8,
            other < 8,
    ;
}

proof fn lemma_padding_untouched(byte: u8, set: u8, used: u8)
    requires
        0 < used < 8,
        set < used,
    ensures
        (byte | (0x80u8 >> set)) & (0xffu8 >> used) == byte & (0xffu8 >> used),
        (byte & !(0x80u8 >> set)) & (0xffu8 >> used) == byte & (0xffu8 >> used),
{
    assert((byte | (0x80u8 >> set)) & (0xffu8 >> used) == byte & (0xffu8 >> used)) by (bit_vector)
        requires
            set < used,
            used < 8,
    ;
    assert((byte & !(0x80u8 >> set)) & (0xffu8 >> used) == byte & (0xffu8 >> used))
        by (bit_vector)
        requires
            set < used,
            used < 8,
    ;
}

proof fn lemma_full_bytes(bit: u8, used: u8)
    requires
        bit < 8,
        used < 8,
    ensures
        0xffu8 & (0x80u8 >> bit) != 0,
        0u8 & (0x80u8 >> bit) == 0,
        0u8 & (0xffu8 >> used) == 0,
        0 < used && bit < used ==> (0xffu8 << ((8 - used) as u8)) & (0x80u8 >> bit) != 0,
        0 < used ==> (0xffu8 << ((8 - used) as u8)) & (0xffu8 >> used) == 0,
{
    assert(0xffu8 & (0x80u8 >> bit) != 0) by (bit_vector)
        requires
            bit < 8,
    ;
    assert(0u8 & (0x80u8 >> bit) == 0) by (bit_vector);
    assert(0u8 & (0xffu8 >> used) == 0) by (bit_vector);
    let shift = (8 - used) as u8;
    assert(0 < used && bit < used ==> (0xffu8 << shift) & (0x80u8 >> bit) != 0) by (bit_vector)
        requires
            bit < 8,
            used < 8,
            shift + used == 8,
    ;
    assert(0 < used ==> (0xffu8 << shift) & (0xffu8 >> used) == 0) by (bit_vector)
        requires
            used < 8,
            shift + used == 8,
    ;
}

/// Distinct pixels in one byte differ in their bit; pixels in distinct bytes
/// are in distinct bytes.
proof fn lemma_pixel_byte(x: u16, y: u16, other_x: u16, other_y: u16, stride: nat, height: u16)
    requires
        (x as nat) < stride * 8,
        (other_x as nat) < stride * 8,
        y < height,
        other_y < height,
    ensures
        (y as int) * (stride as int) + ((x / 8) as int) == (other_y as int) * (stride as int) + (other_x
            / 8) as int ==> y == other_y && x / 8 == other_x / 8,
        (y as int) * (stride as int) + ((x / 8) as int) < (height as int) * (stride as int),
        (y as int) * (stride as int) + ((x / 8) as int) < (stride as int) * (height as int),
        (x / 8) < stride,
{
    let a = x / 8;
    let b = other_x / 8;
    assert((y as int) * (stride as int) + a == (other_y as int) * (stride as int) + b ==> y
        == other_y && a == b) by (nonlinear_arith)
        requires
            a < stride,
            b < stride,
    ;
    assert((y as int) * (stride as int) + a < (height as int) * (stride as int)) by (nonlinear_arith)
        requires
            a < stride,
            y < height,
    ;
    assert((height as int) * (stride as int) == (stride as int) * (height as int))
        by (nonlinear_arith);
}

/// The last byte of a row lies in the payload.
proof fn lemma_last_byte(width: u16, row: int, height: u16)
    requires
        width > 0,
        0 <= row < height,
    ensures
        0 <= last_byte_index(width, row) < stride_of(width) * (height as nat),
{
    let stride = stride_of(width);
    assert(stride >= 1);
    assert(0 <= (row + 1) * (stride as int) - 1 < (stride as int) * (height as int)) by (
    nonlinear_arith)
        requires
            stride >= 1,
            0 <= row < height,
    ;
}

impl MonoCanvas {
    /// The canvas is a valid Mono1 payload of its extent.
    pub closed spec fn well_formed(&self) -> bool {
        &&& self.width > 0 && self.height > 0
        &&& self.stride == stride_of(self.width)
        &&& self.pixels@.len() == self.stride * (self.height as nat)
        &&& self.pixels@.len() <= usize::MAX
        &&& forall|row: int|
            0 <= row < self.height ==> row_padding_white(self.width, self.pixels@, row)
    }

    pub closed spec fn spec_width(&self) -> u16 {
        self.width
    }

    pub closed spec fn spec_height(&self) -> u16 {
        self.height
    }

    pub closed spec fn spec_pixels(&self) -> Seq<u8> {
        self.pixels@
    }

    /// Whether the pixel at `(x, y)` is black.
    pub open spec fn is_black(&self, x: u16, y: u16) -> bool {
        pixel_is_black(self.spec_pixels(), stride_of(self.spec_width()), x, y)
    }

    /// A well-formed canvas is a valid Mono1 payload.
    pub proof fn lemma_valid(&self)
        requires
            self.well_formed(),
        ensures
            valid_mono1(self.spec_width(), self.spec_height(), self.spec_pixels()),
    {
        lemma_first_nonwhite_none(self.width, self.pixels@, self.height as nat, 0);
    }

    /// Create an all-white, nonempty canvas.
    pub fn new(width: u16, height: u16) -> (result: Result<Self, Mono1FrameError>)
        ensures
            match result {
                Ok(canvas) => {
                    &&& canvas.well_formed()
                    &&& canvas.spec_width() == width && canvas.spec_height() == height
                    &&& forall|x: u16, y: u16| x < width && y < height ==> !canvas.is_black(x, y)
                },
                Err(error) => if width == 0 || height == 0 {
                    error == Mono1FrameError::ZeroDimension { width, height }
                } else {
                    error == Mono1FrameError::PayloadSizeOverflow { width, height } && stride_of(
                        width,
                    ) * (height as nat) > usize::MAX
                },
            },
    {
        if width == 0 || height == 0 {
            return Err(Mono1FrameError::ZeroDimension { width, height });
        }
        let pixel_len = match mono1_payload_len(width, height) {
            Some(len) => len,
            None => return Err(Mono1FrameError::PayloadSizeOverflow { width, height }),
        };
        let pixels = filled(pixel_len, 0);
        let canvas = MonoCanvas { width, height, stride: mono1_stride(width), pixels };
        proof {
            assert forall|x: u16, y: u16| x < width && y < height implies !canvas.is_black(x, y) by {
                lemma_pixel_byte(x, y, x, y, stride_of(width), height);
                lemma_full_bytes((x % 8) as u8, 0);
            }
            assert forall|row: int| 0 <= row < height implies row_padding_white(
                width,
                canvas.pixels@,
                row,
            ) by {
                if width % 8 != 0 {
                    lemma_last_byte(width, row, height);
                    assert(canvas.pixels@[last_byte_index(width, row)] == 0);
                    lemma_full_bytes(0, (width % 8) as u8);
                }
            }
        }
        Ok(canvas)
    }

    /// Canvas width and height in remote-viewport pixels.
    pub fn dimensions(&self) -> (dimensions: (u16, u16))
        ensures
            dimensions == (self.spec_width(), self.spec_height()),
    {
        (self.width, self.height)
    }

    /// Borrow the protocol-native pixel bytes.
    pub fn pixels(&self) -> (pixels: &[u8])
        ensures
            pixels@ == self.spec_pixels(),
    {
        self.pixels.as_slice()
    }

    /// Replace every visible pixel with one color; the unused bits of each
    /// row stay white.
    pub fn clear(&mut self, color: Mono1Pixel)
        requires
            old(self).well_formed(),
        ensures
            final(self).well_formed(),
            final(self).spec_width() == old(self).spec_width(),
            final(self).spec_height() == old(self).spec_height(),
            forall|x: u16, y: u16|
                x < old(self).spec_width() && y < old(self).spec_height() ==> #[trigger] final(self).is_black(x, y)
                    == (color == Mono1Pixel::Black),
            color == Mono1Pixel::White ==> final(self).spec_pixels() == Seq::new(
                old(self).spec_pixels().len(),
                |i: int| 0u8,
            ),
            color == Mono1Pixel::Black ==> forall|row: int, column: int|
                0 <= row < old(self).spec_height() && 0 <= column < stride_of(old(self).spec_width())
                    ==> #[trigger] final(self).spec_pixels()[row * stride_of(old(self).spec_width())
                    + column] == if column == stride_of(old(self).spec_width()) - 1 {
                    last_row_byte(old(self).spec_width())
                } else {
                    0xffu8
                },
    {
        let len = self.pixels.len();
        let stride = self.stride;
        let width = self.width;
        let height = self.height;
        let used_bits = width % 8;
        let pixels = match color {
            Mono1Pixel::White => filled(len, 0),
            Mono1Pixel::Black => {
                let last = if used_bits != 0 {
                    0xffu8 << ((8 - used_bits) as u8)
                } else {
                    0xff
                };
                black_rows(height, stride, last)
            },
        };
        self.pixels = pixels;
        proof {
            assert(stride >= 1);
            assert forall|x: u16, y: u16| x < width && y < height implies #[trigger] self.is_black(x, y)
                == (color == Mono1Pixel::Black) by {
                lemma_pixel_byte(x, y, x, y, stride as nat, height);
                let column = (x / 8) as int;
                let index = (y as int) * (stride as int) + column;
                lemma_full_bytes((x % 8) as u8, used_bits as u8);
                if color == Mono1Pixel::Black {
                    assert(self.pixels@[(y as int) * (stride as int) + column] == if column == stride
                        - 1 {
                        if used_bits != 0 {
                            0xffu8 << ((8 - used_bits) as u8)
                        } else {
                            0xffu8
                        }
                    } else {
                        0xffu8
                    });
                    if column == stride - 1 && used_bits != 0 {
                        assert(x % 8 < used_bits);
                    }
                }
            }
            assert forall|row: int| 0 <= row < height implies row_padding_white(
                width,
                self.pixels@,
                row,
            ) by {
                if width % 8 != 0 {
                    lemma_last_byte(width, row, height);
                    lemma_full_bytes(0, used_bits as u8);
                    if color == Mono1Pixel::Black {
                        assert(last_byte_index(width, row) == row * (stride as int) + (stride - 1))
                            by (nonlinear_arith)
                            requires
                                last_byte_index(width, row) == (row + 1) * (stride as int) - 1,
                        ;
                    }
                }
            }
        }
    }

    /// Set one pixel, returning `false` when the point is outside the canvas.
    pub fn set_pixel(&mut self, x: u16, y: u16, color: Mono1Pixel) -> (inside: bool)
        requires
            old(self).well_formed(),
        ensures
            final(self).well_formed(),
            final(self).spec_width() == old(self).spec_width(),
            final(self).spec_height() == old(self).spec_height(),
            inside == (x < old(self).spec_width() && y < old(self).spec_height()),
            forall|px: u16, py: u16|
                px < old(self).spec_width() && py < old(self).spec_height() ==> #[trigger] final(self).is_black(px, py) == if inside && px == x && py == y {
                    color == Mono1Pixel::Black
                } else {
                    old(self).is_black(px, py)
                },
    {
        if x >= self.width || y >= self.height {
            return false;
        }
        let ghost before = self.pixels@;
        let ghost stride = stride_of(self.width);
        assert(before.len() == stride * (self.height as nat));
        proof {
            lemma_pixel_byte(x, y, x, y, stride, self.height);
        }
        let byte = y as usize * self.stride + (x / 8) as usize;
        let mask: u8 = 0x80u8 >> ((x % 8) as u8);
        let current = self.pixels[byte];
        let updated = match color {
            Mono1Pixel::White => current & !mask,
            Mono1Pixel::Black => current | mask,
        };
        self.pixels.set(byte, updated);
        proof {
            assert(self.pixels@ == before.update(byte as int, updated));
            assert forall|px: u16, py: u16|
                px < self.width && py < self.height implies #[trigger] self.is_black(px, py) == if px
                == x && py == y {
                color == Mono1Pixel::Black
            } else {
                pixel_is_black(before, stride, px, py)
            } by {
                lemma_pixel_byte(x, y, px, py, stride, self.height);
                lemma_pixel_byte(px, py, x, y, stride, self.height);
                let other = (py as int) * (stride as int) + ((px / 8) as int);
                assert(0 <= other < before.len());
                if other == byte as int {
                    assert(py == y && px / 8 == x / 8);
                    assert(self.pixels@[other] == updated);
                    assert(before[other] == current);
                    lemma_set_bit(current, (x % 8) as u8, (px % 8) as u8);
                    if px != x {
                        assert(px % 8 != x % 8);
                    }
                } else {
                    assert(self.pixels@[other] == before[other]);
                }
            }
            assert forall|row: int| 0 <= row < self.height implies row_padding_white(
                self.width,
                self.pixels@,
                row,
            ) by {
                if self.width % 8 != 0 {
                    assert(row_padding_white(self.width, before, row));
                    let last = last_byte_index(self.width, row);
                    lemma_last_byte(self.width, row, self.height);
                    if last != byte as int {
                        assert(self.pixels@[last] == before[last]);
                    } else {
                        assert(last == (row + 1) * (stride as int) - 1);
                        assert(row == y as int && ((x / 8) as int) == (stride as int) - 1) by (
                        nonlinear_arith)
                            requires
                                last == (row + 1) * (stride as int) - 1,
                                last == (y as int) * (stride as int) + ((x / 8) as int),
                                (x / 8) < stride,
                                0 <= row,
                        ;
                        assert(x % 8 < self.width % 8);
                        lemma_padding_untouched(current, (x % 8) as u8, (self.width % 8) as u8);
                    }
                }
            }
        }
        true
    }

    /// Fill a half-open rectangle, clipping it to the canvas.
    pub fn fill_rect(&mut self, x: u16, y: u16, width: u16, height: u16, color: Mono1Pixel)
        requires
            old(self).well_formed(),
        ensures
            final(self).well_formed(),
            final(self).spec_width() == old(self).spec_width(),
            final(self).spec_height() == old(self).spec_height(),
            forall|px: u16, py: u16|
                px < old(self).spec_width() && py < old(self).spec_height() ==> #[trigger] final(self).is_black(px, py) == if in_rect(px, py, x, y, width, height) {
                    color == Mono1Pixel::Black
                } else {
                    old(self).is_black(px, py)
                },
    {
        let ghost original = *self;
        let canvas_width = self.width as u32;
        let canvas_height = self.height as u32;
        let right = if x as u32 + width as u32 <= canvas_width {
            x as u32 + width as u32
        } else {
            canvas_width
        };
        let bottom = if y as u32 + height as u32 <= canvas_height {
            y as u32 + height as u32
        } else {
            canvas_height
        };
        let mut row: u32 = if (y as u32) < bottom {
            y as u32
        } else {
            bottom
        };
        while row < bottom
            invariant
                self.well_formed(),
                self.width == original.width,
                self.height == original.height,
                canvas_width == self.width,
                canvas_height == self.height,
                right <= canvas_width,
                bottom <= canvas_height,
                right == (if x + width <= canvas_width {
                    x + width
                } else {
                    canvas_width as int
                }),
                bottom == (if y + height <= canvas_height {
                    y + height
                } else {
                    canvas_height as int
                }),
                row <= bottom,
                row >= y || row == bottom,
                forall|px: u16, py: u16|
                    px < self.width && py < self.height ==> #[trigger] self.is_black(px, py) == if in_rect(
                        px,
                        py,
                        x,
                        y,
                        width,
                        height,
                    ) && py < row {
                        color == Mono1Pixel::Black
                    } else {
                        original.is_black(px, py)
                    },
            decreases bottom - row,
        {
            let mut column: u32 = if (x as u32) < right {
                x as u32
            } else {
                right
            };
            while column < right
                invariant
                    self.well_formed(),
                    self.width == original.width,
                    self.height == original.height,
                    canvas_width == self.width,
                    canvas_height == self.height,
                    right <= canvas_width,
                    right == (if x + width <= canvas_width {
                        x + width
                    } else {
                        canvas_width as int
                    }),
                    bottom == (if y + height <= canvas_height {
                        y + height
                    } else {
                        canvas_height as int
                    }),
                    y <= row < bottom,
                    bottom <= canvas_height,
                    column <= right,
                    column >= x || column == right,
                    forall|px: u16, py: u16|
                        px < self.width && py < self.height ==> #[trigger] self.is_black(px, py)
                            == if in_rect(px, py, x, y, width, height) && (py < row || (py == row
                            && px < column)) {
                            color == Mono1Pixel::Black
                        } else {
                            original.is_black(px, py)
                        },
                decreases right - column,
            {
                self.set_pixel(column as u16, row as u16, color);
                column = column + 1;
            }
            row = row + 1;
        }
    }

    /// Draw a one-pixel rectangle outline, clipping it to the canvas.
    pub fn outline_rect(&mut self, x: u16, y: u16, width: u16, height: u16, color: Mono1Pixel)
        requires
            old(self).well_formed(),
        ensures
            final(self).well_formed(),
            final(self).spec_width() == old(self).spec_width(),
            final(self).spec_height() == old(self).spec_height(),
            forall|px: u16, py: u16|
                px < old(self).spec_width() && py < old(self).spec_height() ==> #[trigger] final(self).is_black(px, py) == if on_outline(px, py, x, y, width, height) {
                    color == Mono1Pixel::Black
                } else {
                    old(self).is_black(px, py)
                },
    {
        if width == 0 || height == 0 {
            return;
        }
        self.fill_rect(x, y, width, 1, color);
        if height > 1 {
            self.fill_rect(x, y.saturating_add(height - 1), width, 1, color);
        }
        if height > 2 {
            self.fill_rect(x, y.saturating_add(1), 1, height - 2, color);
            if width > 1 {
                self.fill_rect(x.saturating_add(width - 1), y.saturating_add(1), 1, height - 2, color);
            }
        }
    }

    /// Freeze this canvas as a transport-native frame; a canvas always forms
    /// a valid one.
    pub fn into_frame(self) -> (result: Result<Mono1Frame, Mono1FrameError>)
        requires
            self.well_formed(),
        ensures
            result matches Ok(frame) && frame.spec_width() == self.spec_width()
                && frame.spec_height() == self.spec_height() && frame.spec_pixels()
                == self.spec_pixels(),
    {
        proof {
            self.lemma_valid();
        }
        Mono1Frame::new(self.width, self.height, self.pixels)
    }
}

/// `height` rows of `stride` bytes, each `0xff` but the last, which is
/// `last`.
fn black_rows(height: u16, stride: usize, last: u8) -> (bytes: Vec<u8>)
    requires
        stride >= 1,
        (stride as nat) * (height as nat) <= usize::MAX,
    ensures
        bytes@.len() == (stride as nat) * (height as nat),
        forall|row: int, column: int|
            0 <= row < height && 0 <= column < stride ==> #[trigger] bytes@[row * (stride as int)
                + column] == if column == stride - 1 {
                last
            } else {
                0xffu8
            },
{
    let mut bytes: Vec<u8> = Vec::new();
    let mut row: u16 = 0;
    while row < height
        invariant
            stride >= 1,
            (stride as nat) * (height as nat) <= usize::MAX,
            row <= height,
            bytes@.len() == (row as nat) * (stride as nat),
            forall|r: int, column: int|
                0 <= r < row && 0 <= column < stride ==> #[trigger] bytes@[r * (stride as int)
                    + column] == if column == stride - 1 {
                    last
                } else {
                    0xffu8
                },
        decreases height - row,
    {
        let ghost start = bytes@;
        proof {
            assert((row as int) * (stride as int) + (stride as int) <= (height as int) * (
            stride as int)) by (nonlinear_arith)
                requires
                    row < height,
            ;
            assert((height as int) * (stride as int) == (stride as int) * (height as int))
                by (nonlinear_arith);
        }
        let mut column: usize = 0;
        while column < stride
            invariant
                stride >= 1,
                row < height,
                column <= stride,
                start.len() == (row as nat) * (stride as nat),
                (row as int) * (stride as int) + (stride as int) <= usize::MAX,
                bytes@.len() == start.len() + column,
                forall|i: int| 0 <= i < start.len() ==> bytes@[i] == start[i],
                forall|c: int|
                    0 <= c < column ==> #[trigger] bytes@[start.len() + c] == if c == stride - 1 {
                        last
                    } else {
                        0xffu8
                    },
            decreases stride - column,
        {
            if column + 1 == stride {
                bytes.push(last);
            } else {
                bytes.push(0xff);
            }
            column = column + 1;
        }
        proof {
            assert forall|r: int, c: int|
                0 <= r < row + 1 && 0 <= c < stride implies #[trigger] bytes@[r * (stride as int)
                + c] == if c == stride - 1 {
                last
            } else {
                0xffu8
            } by {
                assert(r * (stride as int) + c < (row as int) * (stride as int) <==> r < row)
                    by (nonlinear_arith)
                    requires
                        0 <= r <= row,
                        0 <= c < stride,
                ;
                if r < row {
                    assert(bytes@[r * (stride as int) + c] == start[r * (stride as int) + c]);
                } else {
                    assert(r * (stride as int) + c == start.len() + c);
                }
            }
            assert((row as int + 1) * (stride as int) == (row as int) * (stride as int) + (
            stride as int)) by (nonlinear_arith);
        }
        row = row + 1;
    }
    assert((height as nat) * (stride as nat) == (stride as nat) * (height as nat))
        by (nonlinear_arith);
    bytes
}

/// `len` copies of `value`.
fn filled(len: usize, value: u8) -> (bytes: Vec<u8>)
    ensures
        bytes@ == Seq::new(len as nat, |i: int| value),
{
    let mut bytes: Vec<u8> = Vec::new();
    let mut index: usize = 0;
    while index < len
        invariant
            index <= len,
            bytes@ == Seq::new(index as nat, |i: int| value),
        decreases len - index,
    {
        bytes.push(value);
        index = index + 1;
        assert(bytes@ =~= Seq::new(index as nat, |i: int| value));
    }
    bytes
}

} // verus!
