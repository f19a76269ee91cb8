//! Visible-screen update-region validation for HWTCON updates.
use crate::screen::{ScreenLayout, ScreenRect};
use vstd::prelude::*;

verus! {

/// `mxcfb_rect`: an update rectangle in visible-screen coordinates.
#[derive(Clone, Copy, Debug, PartialEq, Eq, Structural)]
pub struct UpdateRegion {
    pub top: u32,
    pub left: u32,
    pub width: u32,
    pub height: u32,
}

/// Why an update region is refused.
#[derive(Clone, Copy, Debug, PartialEq, Eq, Structural)]
pub enum RegionError {
    /// The visible screen has no pixels.
    EmptyScreen,
    /// The region has no pixels.
    EmptyRegion,
    /// The region's right edge overflows.
    HorizontalOverflow,
    /// The region's bottom edge overflows.
    VerticalOverflow,
    /// The region extends past the visible screen.
    OutsideScreen,
    /// The framebuffer's visible extent is not the PaperPad screen's.
    ScreenMismatch,
    /// The remote viewport reaches into the system strip.
    OverlapsSystemUi,
}

/// The region, when it is non-empty and lies inside a non-empty visible
/// screen.
pub open spec fn visible_region_spec(
    left: u32,
    top: u32,
    width: u32,
    height: u32,
    visible_width: u32,
    visible_height: u32,
) -> Result<UpdateRegion, RegionError> {
    if visible_width == 0 || visible_height == 0 {
        Err(RegionError::EmptyScreen)
    } else if width == 0 || height == 0 {
        Err(RegionError::EmptyRegion)
    } else if left + width > u32::MAX {
        Err(RegionError::HorizontalOverflow)
    } else if top + height > u32::MAX {
        Err(RegionError::VerticalOverflow)
    } else if left + width > visible_width || top + height > visible_height {
        Err(RegionError::OutsideScreen)
    } else {
        Ok(UpdateRegion { top, left, width, height })
    }
}

/// The update region covering the remote viewport of `screen`, on a
/// framebuffer whose visible extent must be the screen's; the viewport must
/// end where the system strip begins or above it.
pub open spec fn remote_region_spec(
    screen: ScreenLayout,
    visible_width: u32,
    visible_height: u32,
) -> Result<UpdateRegion, RegionError> {
    let (screen_width, screen_height) = screen.spec_physical_size();
    let remote = screen.spec_remote_viewport();
    if screen_width != visible_width || screen_height != visible_height {
        Err(RegionError::ScreenMismatch)
    } else if remote.y + remote.height > screen.spec_system_ui_region().y {
        Err(RegionError::OverlapsSystemUi)
    } else {
        visible_region_spec(
            remote.x as u32,
            remote.y as u32,
            remote.width as u32,
            remote.height as u32,
            visible_width,
            visible_height,
        )
    }
}

pub fn checked_visible_region(
    left: u32,
    top: u32,
    width: u32,
    height: u32,
    visible_width: u32,
    visible_height: u32,
) -> (result: Result<UpdateRegion, RegionError>)
    ensures
        result == visible_region_spec(left, top, width, height, visible_width, visible_height),
{
    if visible_width == 0 || visible_height == 0 {
        return Err(RegionError::EmptyScreen);
    }
    if width == 0 || height == 0 {
        return Err(RegionError::EmptyRegion);
    }
    let right = match left.checked_add(width) {
        Some(right) => right,
        None => return Err(RegionError::HorizontalOverflow),
    };
    let bottom = match top.checked_add(height) {
        Some(bottom) => bottom,
        None => return Err(RegionError::VerticalOverflow),
    };
    if right > visible_width || bottom > visible_height {
        return Err(RegionError::OutsideScreen);
    }
    Ok(UpdateRegion { top, left, width, height })
}

/// The first update policy refreshes the whole remote viewport, never the
/// PaperPad-owned Exit strip. `visible_*` come from framebuffer metadata.
pub fn remote_update_region(screen: ScreenLayout, visible_width: u32, visible_height: u32) -> (result:
    Result<UpdateRegion, RegionError>)
    ensures
        result == remote_region_spec(screen, visible_width, visible_height),
{
    let (screen_width, screen_height) = screen.physical_size();
    if screen_width as u32 != visible_width || screen_height as u32 != visible_height {
        return Err(RegionError::ScreenMismatch);
    }
    let remote: ScreenRect = screen.remote_viewport();
    let remote_bottom = remote.y as u32 + remote.height as u32;
    if remote_bottom > screen.system_ui_region().y as u32 {
        return Err(RegionError::OverlapsSystemUi);
    }
    checked_visible_region(
        remote.x as u32,
        remote.y as u32,
        remote.width as u32,
        remote.height as u32,
        visible_width,
        visible_height,
    )
}

} // verus!
