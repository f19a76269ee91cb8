//! Transport-independent monochrome framebuffer representation.
//!
//! A Mono1 frame is row-major and MSB-first within each byte: `0` is white and
//! `1` is black. Each row occupies `ceil(width / 8)` bytes with no bytes in
//! between rows, and unused low bits in the final byte of a row must be white.
use crate::text::{chars_to_string, decimal, hex, push_decimal, push_hex, push_str, zero_padded};
use vstd::prelude::*;

verus! {

/// A decoded one-bit pixel.
#[derive(Clone, Copy, Debug, PartialEq, Eq, Structural)]
pub enum Mono1Pixel {
    White,
    Black,
}

/// Validation failure for a [`Mono1Frame`].
#[derive(Clone, Debug, PartialEq, Eq, Structural)]
pub enum Mono1FrameError {
    ZeroDimension { width: u16, height: u16 },
    PayloadSizeOverflow { width: u16, height: u16 },
    PayloadLength { expected: usize, actual: usize },
    NonWhitePadding { row: u16, byte: u8 },
}

/// Bytes per Mono1 row: `ceil(width / 8)`.
pub open spec fn stride_of(width: u16) -> nat {
    ((width as nat) + 7) / 8
}

/// Mask of the unused low bits in the final byte of a row whose width is not a
/// multiple of eight.
pub open spec fn padding_mask(width: u16) -> u8 {
    0xffu8 >> ((width % 8) as u8)
}

/// Index of the final byte of `row`.
pub open spec fn last_byte_index(width: u16, row: int) -> int {
    (row + 1) * (stride_of(width) as int) - 1
}

/// The unused bits of `row` are all white.
pub open spec fn row_padding_white(width: u16, pixels: Seq<u8>, row: int) -> bool {
    width % 8 == 0 || pixels[last_byte_index(width, row)] & padding_mask(width) == 0
}

/// The first row at or after `row` whose unused bits are not white.
pub open spec fn first_nonwhite_row(width: u16, pixels: Seq<u8>, height: nat, row: nat) -> Option<
    nat,
>
    decreases height - row,
{
    if row >= height {
        None
    } else if !row_padding_white(width, pixels, row as int) {
        Some(row)
    } else {
        first_nonwhite_row(width, pixels, height, row + 1)
    }
}

/// The validation failure of a candidate Mono1 payload, or `None` when the
/// payload is a valid frame.
pub open spec fn mono1_error(width: u16, height: u16, pixels: Seq<u8>) -> Option<Mono1FrameError> {
    let expected = stride_of(width) * (height as nat);
    if width == 0 || height == 0 {
        Some(Mono1FrameError::ZeroDimension { width, height })
    } else if expected > usize::MAX {
        Some(Mono1FrameError::PayloadSizeOverflow { width, height })
    } else if pixels.len() != expected {
        Some(
            Mono1FrameError::PayloadLength {
                expected: expected as usize,
                actual: pixels.len() as usize,
            },
        )
    } else {
        match first_nonwhite_row(width, pixels, height as nat, 0) {
            Some(row) => Some(
                Mono1FrameError::NonWhitePadding {
                    row: row as u16,
                    byte: pixels[last_byte_index(width, row as int)],
                },
            ),
            None => None,
        }
    }
}

/// A valid Mono1 payload for the given extent.
pub open spec fn valid_mono1(width: u16, height: u16, pixels: Seq<u8>) -> bool {
    mono1_error(width, height, pixels) is None
}

/// Whether the pixel at `(x, y)` is black in a payload of the given stride.
pub open spec fn pixel_is_black(pixels: Seq<u8>, stride: nat, x: u16, y: u16) -> bool {
    pixels[(y as int) * (stride as int) + (x / 8) as int] & (0x80u8 >> ((x % 8) as u8)) != 0
}

/// No row reports non-white padding from `row` onwards exactly when every such
/// row is white.
pub proof fn lemma_first_nonwhite_none(width: u16, pixels: Seq<u8>, height: nat, row: nat)
    ensures
        first_nonwhite_row(width, pixels, height, row) is None <==> (forall|r: int|
            row <= r < height ==> row_padding_white(width, pixels, r)),
        first_nonwhite_row(width, pixels, height, row) matches Some(found) ==> row <= found < height
            && !row_padding_white(width, pixels, found as int) && (forall|r: int|
            row <= r < found ==> row_padding_white(width, pixels, r)),
    decreases height - row,
{
    if row < height {
        lemma_first_nonwhite_none(width, pixels, height, row + 1);
    }
}

/// Validate a candidate Mono1 payload and return its row stride.
pub fn validate_mono1_pixels(width: u16, height: u16, pixels: &[u8]) -> (result: Result<
    usize,
    Mono1FrameError,
>)
    ensures
        match result {
            Ok(stride) => valid_mono1(width, height, pixels@) && stride == stride_of(width),
            Err(error) => mono1_error(width, height, pixels@) == Some(error),
        },
{
    if width == 0 || height == 0 {
        return Err(Mono1FrameError::ZeroDimension { width, height });
    }
    let stride = mono1_stride(width);
    let expected = match mono1_payload_len(width, height) {
        Some(expected) => expected,
        None => return Err(Mono1FrameError::PayloadSizeOverflow { width, height }),
    };
    if pixels.len() != expected {
        return Err(Mono1FrameError::PayloadLength { expected, actual: pixels.len() });
    }
    let used_bits = width % 8;
    if used_bits != 0 {
        let mask: u8 = 0xffu8 >> (used_bits as u8);
        assert(mask == padding_mask(width));
        let mut row: u16 = 0;
        while row < height
            invariant
                0 <= row <= height,
                width % 8 != 0,
                mask == padding_mask(width),
                stride == stride_of(width),
                stride >= 1,
                pixels@.len() == stride * (height as nat),
                pixels@.len() == expected,
                first_nonwhite_row(width, pixels@, height as nat, 0) == first_nonwhite_row(
                    width,
                    pixels@,
                    height as nat,
                    row as nat,
                ),
            decreases height - row,
        {
            assert((row as int + 1) * (stride as int) <= (height as int) * (stride as int))
                by (nonlinear_arith)
                requires
                    row < height,
                    stride >= 1,
            ;
            assert((row as int + 1) * (stride as int) >= 1) by (nonlinear_arith)
                requires
                    stride >= 1,
                    row >= 0,
            ;
            let index = (row as usize + 1) * stride - 1;
            let final_byte = pixels[index];
            if final_byte & mask != 0 {
                return Err(Mono1FrameError::NonWhitePadding { row, byte: final_byte });
            }
            row = row + 1;
        }
        proof {
            assert(first_nonwhite_row(width, pixels@, height as nat, row as nat) is None);
        }
    } else {
        proof {
            lemma_first_nonwhite_none(width, pixels@, height as nat, 0);
        }
    }
    Ok(stride)
}

/// Row-major monochrome pixels for a remote content viewport.
///
/// Each row occupies [`mono1_stride`] bytes. Pixels are MSB-first within each
/// byte (`0 = white`, `1 = black`). For widths that are not divisible by eight,
/// unused low bits in the row's final byte must be zero.
#[derive(Debug, PartialEq, Eq)]
pub struct Mono1Frame {
    width: u16,
    height: u16,
    stride: usize,
    pixels: Vec<u8>,
}

impl Mono1Frame {
    #[verifier::type_invariant]
    spec fn frame_invariant(self) -> bool {
        &&& valid_mono1(self.width, self.height, self.pixels@)
        &&& self.stride == stride_of(self.width)
    }

    pub closed spec fn spec_width(self) -> u16 {
        self.width
    }

    pub closed spec fn spec_height(self) -> u16 {
        self.height
    }

    pub closed spec fn spec_pixels(self) -> Seq<u8> {
        self.pixels@
    }

    /// Validate and construct a non-empty Mono1 frame.
    pub fn new(width: u16, height: u16, pixels: Vec<u8>) -> (result: Result<Self, Mono1FrameError>)
        ensures
            match result {
                Ok(frame) => {
                    &&& valid_mono1(width, height, pixels@)
                    &&& frame.spec_width() == width
                    &&& frame.spec_height() == height
                    &&& frame.spec_pixels() == pixels@
                },
                Err(error) => mono1_error(width, height, pixels@) == Some(error),
            },
    {
        match validate_mono1_pixels(width, height, pixels.as_slice()) {
            Ok(stride) => Ok(Self { width, height, stride, pixels }),
            Err(error) => Err(error),
        }
    }

    pub fn width(&self) -> (width: u16)
        ensures
            width == self.spec_width(),
    {
        self.width
    }

    pub fn height(&self) -> (height: u16)
        ensures
            height == self.spec_height(),
    {
        self.height
    }

    pub fn stride(&self) -> (stride: usize)
        ensures
            stride == stride_of(self.spec_width()),
    {
        proof {
            use_type_invariant(self);
        }
        self.stride
    }

    /// The payload bytes, which always form a valid Mono1 payload.
    pub fn pixels(&self) -> (pixels: &[u8])
        ensures
            pixels@ == self.spec_pixels(),
            valid_mono1(self.spec_width(), self.spec_height(), pixels@),
    {
        proof {
            use_type_invariant(self);
        }
        self.pixels.as_slice()
    }

    pub fn into_pixels(self) -> (pixels: Vec<u8>)
        ensures
            pixels@ == self.spec_pixels(),
    {
        self.pixels
    }

    /// Return one in-bounds pixel, or `None` for coordinates outside the frame.
    pub fn pixel(&self, x: u16, y: u16) -> (pixel: Option<Mono1Pixel>)
        ensures
            pixel == (if x < self.spec_width() && y < self.spec_height() {
                Some(
                    if pixel_is_black(self.spec_pixels(), stride_of(self.spec_width()), x, y) {
                        Mono1Pixel::Black
                    } else {
                        Mono1Pixel::White
                    },
                )
            } else {
                None
            }),
    {
        proof {
            use_type_invariant(self);
        }
        if x >= self.width || y >= self.height {
            return None;
        }
        let stride = self.stride;
        proof {
            assert((y as int) * (stride as int) + ((x / 8) as int) < (self.height as int) * (
            stride as int)) by (nonlinear_arith)
                requires
                    y < self.height,
                    x / 8 < stride,
            ;
        }
        let byte = self.pixels[y as usize * stride + (x / 8) as usize];
        let mask: u8 = 0x80u8 >> ((x % 8) as u8);
        Some(
            if byte & mask == 0 {
                Mono1Pixel::White
            } else {
                Mono1Pixel::Black
            },
        )
    }
}

impl Clone for Mono1Frame {
    fn clone(&self) -> (copy: Self)
        ensures
            copy.spec_width() == self.spec_width(),
            copy.spec_height() == self.spec_height(),
            copy.spec_pixels() == self.spec_pixels(),
    {
        proof {
            use_type_invariant(self);
        }
        let pixels = self.pixels.clone();
        assert(pixels@ =~= self.pixels@);
        Mono1Frame { width: self.width, height: self.height, stride: self.stride, pixels }
    }
}

/// Number of bytes occupied by one Mono1 row.
pub fn mono1_stride(width: u16) -> (stride: usize)
    ensures
        stride == stride_of(width),
{
    (width as usize + 7) / 8
}

/// Exact payload length for a Mono1 frame, if representable by this platform.
pub fn mono1_payload_len(width: u16, height: u16) -> (len: Option<usize>)
    ensures
        len == (if stride_of(width) * (height as nat) <= usize::MAX {
            Some((stride_of(width) * (height as nat)) as usize)
        } else {
            None
        }),
{
    mono1_stride(width).checked_mul(height as usize)
}

/// The description of a validation failure.
pub open spec fn mono1_error_text(error: Mono1FrameError) -> Seq<char> {
    match error {
        Mono1FrameError::ZeroDimension { width, height } => "Mono1 frame dimensions must be nonzero, got "@
            + decimal(width as nat) + "x"@ + decimal(height as nat),
        Mono1FrameError::PayloadSizeOverflow { width, height } => "Mono1 payload size overflows usize for "@
            + decimal(width as nat) + "x"@ + decimal(height as nat),
        Mono1FrameError::PayloadLength { expected, actual } => "Mono1 payload length mismatch: expected "@
            + decimal(expected as nat) + " bytes, got "@ + decimal(actual as nat),
        Mono1FrameError::NonWhitePadding { row, byte } => "Mono1 row "@ + decimal(row as nat)
            + " has non-white trailing bits in byte 0x"@ + zero_padded(hex(byte as nat), 2),
    }
}

impl Mono1FrameError {
    /// A description of the failure.
    pub fn message(&self) -> (text: String)
        ensures
            text@ == mono1_error_text(*self),
    {
        let mut out: Vec<char> = Vec::new();
        match self {
            Mono1FrameError::ZeroDimension { width, height } => {
                push_str(&mut out, "Mono1 frame dimensions must be nonzero, got ");
                push_decimal(&mut out, *width as u64);
                push_str(&mut out, "x");
                push_decimal(&mut out, *height as u64);
            },
            Mono1FrameError::PayloadSizeOverflow { width, height } => {
                push_str(&mut out, "Mono1 payload size overflows usize for ");
                push_decimal(&mut out, *width as u64);
                push_str(&mut out, "x");
                push_decimal(&mut out, *height as u64);
            },
            Mono1FrameError::PayloadLength { expected, actual } => {
                push_str(&mut out, "Mono1 payload length mismatch: expected ");
                push_decimal(&mut out, *expected as u64);
                push_str(&mut out, " bytes, got ");
                push_decimal(&mut out, *actual as u64);
            },
            Mono1FrameError::NonWhitePadding { row, byte } => {
                push_str(&mut out, "Mono1 row ");
                push_decimal(&mut out, *row as u64);
                push_str(&mut out, " has non-white trailing bits in byte 0x");
                push_hex(&mut out, *byte as u64, 2);
            },
        }
        assert(out@ =~= mono1_error_text(*self));
        chars_to_string(out.as_slice())
    }
}

} // verus!
