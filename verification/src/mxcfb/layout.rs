//! Bounds checks for a read-only mapping of the visible framebuffer page.
use vstd::prelude::*;

verus! {

/// Framebuffer geometry as the kernel reports it.
#[derive(Clone, Copy, Debug, PartialEq, Eq, Structural)]
pub struct FramebufferGeometry {
    pub xres: u32,
    pub yres: u32,
    pub xres_virtual: u32,
    pub yres_virtual: u32,
    pub xoffset: u32,
    pub yoffset: u32,
    pub bits_per_pixel: u32,
    pub line_length: u32,
    pub smem_len: u32,
}

/// Why a geometry cannot be mapped.
#[derive(Clone, Copy, Debug, PartialEq, Eq, Structural)]
pub enum MappingError {
    /// Zero resolution or zero bits per pixel.
    EmptyResolution,
    /// The horizontal offset plus the visible width overflows.
    HorizontalOverflow,
    /// The vertical offset plus the visible height overflows.
    VerticalOverflow,
    /// The visible page lies outside the virtual dimensions.
    ExceedsVirtual,
    /// A line is shorter than a virtual row of pixels.
    LineTooShort,
    /// The virtual framebuffer's byte count overflows.
    VirtualSizeOverflow,
    /// The virtual framebuffer exceeds the reported memory length.
    ExceedsMemory,
    /// The visible mapping's byte count overflows.
    VisibleSizeOverflow,
    /// The visible mapping is empty.
    EmptyMapping,
}

/// Bytes in one virtual row of pixels, rounded up.
pub open spec fn virtual_row_bytes(geometry: FramebufferGeometry) -> nat {
    ((geometry.xres_virtual as nat) * (geometry.bits_per_pixel as nat) + 7) / 8
}

/// The length of the mapping that covers the visible page, or why there is
/// none: the visible page must lie in the virtual one, lines must hold a
/// virtual row, and the virtual framebuffer must fit the reported memory.
pub open spec fn mapping_len_spec(geometry: FramebufferGeometry) -> Result<nat, MappingError> {
    let right = geometry.xoffset + geometry.xres;
    let bottom = geometry.yoffset + geometry.yres;
    let virtual_bytes = (geometry.line_length as nat) * (geometry.yres_virtual as nat);
    let visible_bytes = (geometry.line_length as nat) * (bottom as nat);
    if geometry.xres == 0 || geometry.yres == 0 || geometry.bits_per_pixel == 0 {
        Err(MappingError::EmptyResolution)
    } else if right > u32::MAX {
        Err(MappingError::HorizontalOverflow)
    } else if bottom > u32::MAX {
        Err(MappingError::VerticalOverflow)
    } else if right > geometry.xres_virtual || bottom > geometry.yres_virtual {
        Err(MappingError::ExceedsVirtual)
    } else if (geometry.line_length as nat) < virtual_row_bytes(geometry) {
        Err(MappingError::LineTooShort)
    } else if virtual_bytes > usize::MAX {
        Err(MappingError::VirtualSizeOverflow)
    } else if virtual_bytes > geometry.smem_len {
        Err(MappingError::ExceedsMemory)
    } else if visible_bytes > usize::MAX {
        Err(MappingError::VisibleSizeOverflow)
    } else if visible_bytes == 0 {
        Err(MappingError::EmptyMapping)
    } else {
        Ok(visible_bytes)
    }
}

/// The number of bytes to map so the whole visible page is covered.
pub fn visible_mapping_len(geometry: FramebufferGeometry) -> (result: Result<usize, MappingError>)
    ensures
        match result {
            Ok(len) => mapping_len_spec(geometry) == Ok::<nat, MappingError>(len as nat),
            Err(error) => mapping_len_spec(geometry) == Err::<nat, MappingError>(error),
        },
{
    if geometry.xres == 0 || geometry.yres == 0 || geometry.bits_per_pixel == 0 {
        return Err(MappingError::EmptyResolution);
    }
    let visible_right = match geometry.xoffset.checked_add(geometry.xres) {
        Some(right) => right,
        None => return Err(MappingError::HorizontalOverflow),
    };
    let visible_bottom = match geometry.yoffset.checked_add(geometry.yres) {
        Some(bottom) => bottom,
        None => return Err(MappingError::VerticalOverflow),
    };
    if visible_right > geometry.xres_virtual || visible_bottom > geometry.yres_virtual {
        return Err(MappingError::ExceedsVirtual);
    }
    proof {
        let virtual_width = geometry.xres_virtual;
        let depth = geometry.bits_per_pixel;
        assert((virtual_width as nat) * (depth as nat) <= 0xffff_ffffnat * 0xffff_ffffnat)
            by (nonlinear_arith)
            requires
                virtual_width <= 0xffff_ffffu32,
                depth <= 0xffff_ffffu32,
        ;
    }
    let row_bits = (geometry.xres_virtual as u64) * (geometry.bits_per_pixel as u64);
    let row_bytes = (row_bits + 7) / 8;
    if (geometry.line_length as u64) < row_bytes {
        return Err(MappingError::LineTooShort);
    }
    let line_length = geometry.line_length as usize;
    let virtual_bytes = match line_length.checked_mul(geometry.yres_virtual as usize) {
        Some(bytes) => bytes,
        None => return Err(MappingError::VirtualSizeOverflow),
    };
    if virtual_bytes > geometry.smem_len as usize {
        return Err(MappingError::ExceedsMemory);
    }
    let visible_bytes = match line_length.checked_mul(visible_bottom as usize) {
        Some(bytes) => bytes,
        None => return Err(MappingError::VisibleSizeOverflow),
    };
    if visible_bytes == 0 {
        return Err(MappingError::EmptyMapping);
    }
    Ok(visible_bytes)
}

} // verus!
