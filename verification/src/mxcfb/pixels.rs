//! Mono1 to the 8-bit grayscale framebuffer layout (`0x00` black, `0xff`
//! white, the standard `FB_VISUAL_MONO10` polarity). No device access: the
//! framebuffer is a byte slice.
use crate::display::RemoteFrame;
use crate::framebuffer::{pixel_is_black, stride_of, valid_mono1};
use crate::screen::{ScreenLayout, ScreenRect};
use vstd::prelude::*;

verus! {

pub const FB_TYPE_PACKED_PIXELS: u32 = 0;

pub const FB_VISUAL_MONO10: u32 = 1;

/// The framebuffer as the kernel describes it.
#[derive(Clone, Copy, Debug, PartialEq, Eq, Structural)]
pub struct FramebufferSpec {
    pub visible_width: u32,
    pub visible_height: u32,
    pub virtual_width: u32,
    pub virtual_height: u32,
    pub xoffset: u32,
    pub yoffset: u32,
    pub line_length: usize,
    pub memory_len: usize,
    pub kind: u32,
    pub visual: u32,
    pub bits_per_pixel: u32,
    pub grayscale: u32,
    pub nonstd: u32,
}

/// Why a frame is not written.
#[derive(Clone, Copy, Debug, PartialEq, Eq, Structural)]
pub enum BlitError {
    /// Not packed 8-bit MONO10 grayscale.
    UnsupportedFormat,
    /// The visible extent is not the PaperPad screen's.
    ScreenMismatch,
    /// The frame's extent is not the remote viewport's.
    FrameMismatch,
    /// The remote viewport reaches into the system strip.
    OverlapsSystemUi,
    /// The visible page's edges overflow.
    BoundsOverflow,
    /// The visible page lies outside the virtual one.
    OutsideVirtual,
    /// A line is shorter than a virtual row.
    RowTooShort,
    /// The virtual framebuffer's byte count overflows.
    MemorySizeOverflow,
    /// The virtual framebuffer exceeds the reported memory.
    ExceedsMemory,
    /// A framebuffer offset overflows.
    OffsetOverflow,
    /// The remote viewport is empty.
    EmptyViewport,
    /// The frame would reach past the mapped memory.
    ExceedsMapping,
}

/// Where a remote frame lands: its first column and row in the virtual
/// framebuffer, its extent, and the bytes per framebuffer line.
pub struct BlitPlacement {
    pub first_x: nat,
    pub first_y: nat,
    pub width: nat,
    pub height: nat,
    pub line_length: nat,
}

/// Where a frame of the given extent lands in `memory_len` mapped bytes, or
/// why it is not written. Every check completes before any byte changes.
pub open spec fn blit_plan(
    frame_width: u16,
    frame_height: u16,
    screen: ScreenLayout,
    spec: FramebufferSpec,
    memory_len: nat,
) -> Result<BlitPlacement, BlitError> {
    let (screen_width, screen_height) = screen.spec_physical_size();
    let region = screen.spec_remote_viewport();
    let right = spec.xoffset + spec.visible_width;
    let bottom = spec.yoffset + spec.visible_height;
    let virtual_bytes = (spec.line_length as nat) * (spec.virtual_height as nat);
    let first_x = spec.xoffset + region.x;
    let first_y = spec.yoffset + region.y;
    let last_row = first_y + region.height - 1;
    let row_offset = last_row * (spec.line_length as int);
    let end = row_offset + first_x + region.width;
    if !(spec.kind == FB_TYPE_PACKED_PIXELS && spec.visual == FB_VISUAL_MONO10
        && spec.bits_per_pixel == 8 && spec.grayscale == 1 && spec.nonstd == 0) {
        Err(BlitError::UnsupportedFormat)
    } else if spec.visible_width != screen_width || spec.visible_height != screen_height {
        Err(BlitError::ScreenMismatch)
    } else if frame_width != region.width || frame_height != region.height {
        Err(BlitError::FrameMismatch)
    } else if region.y + region.height > screen.spec_system_ui_region().y {
        Err(BlitError::OverlapsSystemUi)
    } else if right > u32::MAX || bottom > u32::MAX {
        Err(BlitError::BoundsOverflow)
    } else if right > spec.virtual_width || bottom > spec.virtual_height {
        Err(BlitError::OutsideVirtual)
    } else if spec.line_length < spec.virtual_width {
        Err(BlitError::RowTooShort)
    } else if virtual_bytes > usize::MAX {
        Err(BlitError::MemorySizeOverflow)
    } else if virtual_bytes > spec.memory_len {
        Err(BlitError::ExceedsMemory)
    } else if first_x > usize::MAX || first_y > usize::MAX {
        Err(BlitError::OffsetOverflow)
    } else if region.width == 0 || region.height == 0 {
        Err(BlitError::EmptyViewport)
    } else if last_row > usize::MAX || row_offset > usize::MAX || row_offset + first_x > usize::MAX
        || end > usize::MAX {
        Err(BlitError::OffsetOverflow)
    } else if end > spec.memory_len || end > memory_len {
        Err(BlitError::ExceedsMapping)
    } else {
        Ok(
            BlitPlacement {
                first_x: first_x as nat,
                first_y: first_y as nat,
                width: region.width as nat,
                height: region.height as nat,
                line_length: spec.line_length as nat,
            },
        )
    }
}

/// The framebuffer byte for the Mono1 pixel at `column`, `row`.
pub open spec fn blit_value(pixels: Seq<u8>, stride: nat, column: int, row: int) -> u8 {
    if pixel_is_black(pixels, stride, column as u16, row as u16) {
        0x00
    } else {
        0xff
    }
}

/// Index of the first byte of `row` of the frame in framebuffer memory.
pub open spec fn row_start(plan: BlitPlacement, row: int) -> int {
    (plan.first_y + row) * plan.line_length + plan.first_x
}

/// `memory` with `row` of the frame written.
pub open spec fn blit_row(memory: Seq<u8>, plan: BlitPlacement, pixels: Seq<u8>, stride: nat, row: int) -> Seq<
    u8,
> {
    let start = row_start(plan, row);
    Seq::new(
        memory.len(),
        |i: int|
            if start <= i < start + plan.width {
                blit_value(pixels, stride, i - start, row)
            } else {
                memory[i]
            },
    )
}

/// `memory` with the first `rows` rows of the frame written, in order.
pub open spec fn blit_rows(
    memory: Seq<u8>,
    plan: BlitPlacement,
    pixels: Seq<u8>,
    stride: nat,
    rows: nat,
) -> Seq<u8>
    decreases rows,
{
    if rows == 0 {
        memory
    } else {
        blit_row(blit_rows(memory, plan, pixels, stride, (rows - 1) as nat), plan, pixels, stride, rows - 1)
    }
}

proof fn lemma_blit_rows_len(memory: Seq<u8>, plan: BlitPlacement, pixels: Seq<u8>, stride: nat, rows: nat)
    ensures
        blit_rows(memory, plan, pixels, stride, rows).len() == memory.len(),
    decreases rows,
{
    if rows > 0 {
        lemma_blit_rows_len(memory, plan, pixels, stride, (rows - 1) as nat);
    }
}

/// Write one validated remote frame into `memory`, the mapped framebuffer,
/// and return the visible-screen rectangle it covers. All layout and range
/// checks complete before any byte changes; on error nothing changes.
pub fn blit_remote(frame: RemoteFrame<'_>, screen: ScreenLayout, spec: FramebufferSpec, memory: &mut [u8]) -> (result:
    Result<ScreenRect, BlitError>)
    ensures
        match result {
            Ok(region) => {
                &&& region == screen.spec_remote_viewport()
                &&& blit_plan(
                    frame.spec_width(),
                    frame.spec_height(),
                    screen,
                    spec,
                    old(memory)@.len(),
                ) matches Ok(plan)
                &&& final(memory)@ == blit_rows(
                    old(memory)@,
                    plan,
                    frame.spec_pixels(),
                    stride_of(frame.spec_width()),
                    plan.height,
                )
            },
            Err(error) => {
                &&& blit_plan(frame.spec_width(), frame.spec_height(), screen, spec, old(memory)@.len())
                    == Err::<BlitPlacement, BlitError>(error)
                &&& final(memory)@ == old(memory)@
            },
        },
{
    if !(spec.kind == FB_TYPE_PACKED_PIXELS && spec.visual == FB_VISUAL_MONO10 && spec.bits_per_pixel
        == 8 && spec.grayscale == 1 && spec.nonstd == 0) {
        return Err(BlitError::UnsupportedFormat);
    }
    let (screen_width, screen_height) = screen.physical_size();
    if spec.visible_width != screen_width as u32 || spec.visible_height != screen_height as u32 {
        return Err(BlitError::ScreenMismatch);
    }
    let region = screen.remote_viewport();
    if frame.width() != region.width || frame.height() != region.height {
        return Err(BlitError::FrameMismatch);
    }
    if region.y as u32 + region.height as u32 > screen.system_ui_region().y as u32 {
        return Err(BlitError::OverlapsSystemUi);
    }
    let visible_right = match spec.xoffset.checked_add(spec.visible_width) {
        Some(right) => right,
        None => return Err(BlitError::BoundsOverflow),
    };
    let visible_bottom = match spec.yoffset.checked_add(spec.visible_height) {
        Some(bottom) => bottom,
        None => return Err(BlitError::BoundsOverflow),
    };
    if visible_right > spec.virtual_width || visible_bottom > spec.virtual_height {
        return Err(BlitError::OutsideVirtual);
    }
    let virtual_width = spec.virtual_width as usize;
    let virtual_height = spec.virtual_height as usize;
    if spec.line_length < virtual_width {
        return Err(BlitError::RowTooShort);
    }
    let virtual_bytes = match spec.line_length.checked_mul(virtual_height) {
        Some(bytes) => bytes,
        None => return Err(BlitError::MemorySizeOverflow),
    };
    if virtual_bytes > spec.memory_len {
        return Err(BlitError::ExceedsMemory);
    }
    let first_x = match (spec.xoffset as usize).checked_add(region.x as usize) {
        Some(first_x) => first_x,
        None => return Err(BlitError::OffsetOverflow),
    };
    let first_y = match (spec.yoffset as usize).checked_add(region.y as usize) {
        Some(first_y) => first_y,
        None => return Err(BlitError::OffsetOverflow),
    };
    let width = region.width as usize;
    let height = region.height as usize;
    if width == 0 || height == 0 {
        return Err(BlitError::EmptyViewport);
    }
    let last_row = match first_y.checked_add(height - 1) {
        Some(last_row) => last_row,
        None => return Err(BlitError::OffsetOverflow),
    };
    let row_offset = match last_row.checked_mul(spec.line_length) {
        Some(offset) => offset,
        None => return Err(BlitError::OffsetOverflow),
    };
    let row_end = match row_offset.checked_add(first_x) {
        Some(offset) => offset,
        None => return Err(BlitError::OffsetOverflow),
    };
    let end = match row_end.checked_add(width) {
        Some(end) => end,
        None => return Err(BlitError::OffsetOverflow),
    };
    if end > spec.memory_len || end > memory.len() {
        return Err(BlitError::ExceedsMapping);
    }
    let ghost plan = BlitPlacement {
        first_x: first_x as nat,
        first_y: first_y as nat,
        width: width as nat,
        height: height as nat,
        line_length: spec.line_length as nat,
    };
    let pixels = frame.pixels();
    let stride = frame.stride();
    let line_length = spec.line_length;
    let pixel_len = pixels.len();
    let ghost original = memory@;
    proof {
        assert(blit_plan(frame.spec_width(), frame.spec_height(), screen, spec, original.len())
            == Ok::<BlitPlacement, BlitError>(plan));
        assert(pixels@.len() == stride * height);
    }
    let mut row: usize = 0;
    while row < height
        invariant
            row <= height,
            height <= 0xffff,
            pixel_len == pixels@.len(),
            height == plan.height,
            width == plan.width,
            first_x == plan.first_x,
            first_y == plan.first_y,
            line_length == plan.line_length,
            width > 0,
            width == frame.spec_width(),
            stride == stride_of(frame.spec_width()),
            pixels@ == frame.spec_pixels(),
            pixels@.len() == stride * height,
            last_row == first_y + height - 1,
            last_row * line_length + first_x + width == end,
            end <= original.len(),
            memory@.len() == original.len(),
            memory@ == blit_rows(original, plan, pixels@, stride as nat, row as nat),
        decreases height - row,
    {
        proof {
            assert((row as int) * (stride as int) + (stride as int) <= (height as int) * (stride as int))
                by (nonlinear_arith)
                requires
                    row < height,
            ;
            assert((height as int) * (stride as int) == (stride as int) * (height as int))
                by (nonlinear_arith);
            assert((first_y + row) * (line_length as int) <= (last_row as int) * (line_length as int))
                by (nonlinear_arith)
                requires
                    first_y + row <= last_row,
            ;
        }
        let source_start = row * stride;
        let destination_start = (first_y + row) * line_length + first_x;
        let ghost before = memory@;
        let mut column: usize = 0;
        while column < width
            invariant
                column <= width,
                row < height,
                height <= 0xffff,
                width == plan.width,
                width == frame.spec_width(),
                stride == stride_of(frame.spec_width()),
                source_start == row * stride,
                source_start + stride <= pixels@.len(),
                pixel_len == pixels@.len(),
                destination_start == row_start(plan, row as int),
                destination_start + width <= end,
                end <= original.len(),
                before.len() == original.len(),
                memory@.len() == original.len(),
                forall|i: int|
                    0 <= i < memory@.len() ==> #[trigger] memory@[i] == (if destination_start <= i
                        < destination_start + column {
                        blit_value(pixels@, stride as nat, i - destination_start, row as int)
                    } else {
                        before[i]
                    }),
            decreases width - column,
        {
            proof {
                assert(column / 8 < stride);
            }
            let byte = pixels[source_start + column / 8];
            let black = byte & (0x80u8 >> ((column % 8) as u8)) != 0;
            proof {
                assert(pixel_is_black(pixels@, stride as nat, column as u16, row as u16) == black) by {
                    assert(((column as u16) / 8) as int == (column / 8) as int);
                    assert(((column as u16) % 8) as u8 == (column % 8) as u8);
                    assert((row as u16) as int == row as int);
                }
            }
            memory[destination_start + column] = if black {
                0x00
            } else {
                0xff
            };
            column = column + 1;
        }
        proof {
            assert(memory@ =~= blit_row(before, plan, pixels@, stride as nat, row as int));
        }
        row = row + 1;
    }
    Ok(region)
}

/// When the frame's rows do not wrap past a framebuffer line, each frame
/// pixel's byte holds its value and every byte outside the frame's rows is
/// unchanged.
pub proof fn lemma_blit_cells(memory: Seq<u8>, plan: BlitPlacement, pixels: Seq<u8>, stride: nat, rows: nat)
    requires
        plan.first_x + plan.width <= plan.line_length,
    ensures
        blit_rows(memory, plan, pixels, stride, rows).len() == memory.len(),
        forall|row: int, column: int|
            0 <= row < rows && 0 <= column < plan.width && 0 <= row_start(plan, row) + column
                < memory.len() ==> #[trigger] blit_rows(memory, plan, pixels, stride, rows)[row_start(
                plan,
                row,
            ) + column] == blit_value(pixels, stride, column, row),
        forall|i: int|
            0 <= i < memory.len() && (forall|row: int|
                0 <= row < rows ==> !(#[trigger] row_start(plan, row) <= i < row_start(plan, row)
                    + plan.width)) ==> #[trigger] blit_rows(memory, plan, pixels, stride, rows)[i]
                == memory[i],
    decreases rows,
{
    lemma_blit_rows_len(memory, plan, pixels, stride, rows);
    if rows > 0 {
        let last = rows - 1;
        lemma_blit_cells(memory, plan, pixels, stride, last as nat);
        let previous = blit_rows(memory, plan, pixels, stride, last as nat);
        let current = blit_rows(memory, plan, pixels, stride, rows);
        assert(current == blit_row(previous, plan, pixels, stride, last));
        assert forall|row: int, column: int|
            0 <= row < rows && 0 <= column < plan.width && 0 <= row_start(plan, row) + column
                < memory.len() implies #[trigger] current[row_start(plan, row) + column]
            == blit_value(pixels, stride, column, row) by {
            if row < last {
                assert(row_start(plan, row) + plan.width <= row_start(plan, last)) by (nonlinear_arith)
                    requires
                        row < last,
                        plan.first_x + plan.width <= plan.line_length,
                        row_start(plan, row) == (plan.first_y + row) * plan.line_length
                            + plan.first_x,
                        row_start(plan, last) == (plan.first_y + last) * plan.line_length
                            + plan.first_x,
                ;
            }
        }
    }
}

/// On a screen laid out by [`ScreenLayout::new`], a successful plan never
/// wraps a row past a framebuffer line.
pub proof fn lemma_layout_rows_fit(
    width: u16,
    height: u16,
    screen: ScreenLayout,
    frame_width: u16,
    frame_height: u16,
    spec: FramebufferSpec,
    memory_len: nat,
)
    requires
        crate::screen::is_layout_of(width, height, screen),
        blit_plan(frame_width, frame_height, screen, spec, memory_len) is Ok,
    ensures
        blit_plan(frame_width, frame_height, screen, spec, memory_len) matches Ok(plan)
            && plan.first_x + plan.width <= plan.line_length,
{
}

} // verus!
