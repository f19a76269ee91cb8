//! PaperPad screen ownership: the remote viewport above the local system
//! strip at the bottom of the window.
use vstd::prelude::*;

verus! {

/// Height reserved for PaperPad-owned system UI at the bottom of the screen.
pub const SYSTEM_UI_HEIGHT: u16 = 72;

/// Largest extent X11's signed 16-bit coordinates can address.
pub const MAX_EXTENT: u16 = 32767;

#[derive(Clone, Copy, Debug, PartialEq, Eq, Structural)]
pub struct ScreenRect {
    pub x: u16,
    pub y: u16,
    pub width: u16,
    pub height: u16,
}

/// A point in window-relative physical coordinates, as X11 reports it.
#[derive(Clone, Copy, Debug, PartialEq, Eq, Structural)]
pub struct PhysicalPoint {
    pub x: i16,
    pub y: i16,
}

/// A point in remote-viewport coordinates.
#[derive(Clone, Copy, Debug, PartialEq, Eq, Structural)]
pub struct RemotePoint {
    pub x: u16,
    pub y: u16,
}

/// The remote-viewport point of a physical point inside `viewport`.
pub open spec fn to_remote(viewport: ScreenRect, point: PhysicalPoint) -> Option<RemotePoint> {
    let x = point.x - viewport.x;
    let y = point.y - viewport.y;
    if 0 <= x < viewport.width && 0 <= y < viewport.height {
        Some(RemotePoint { x: x as u16, y: y as u16 })
    } else {
        None
    }
}

#[derive(Clone, Copy, Debug, PartialEq, Eq, Structural)]
pub struct ScreenLayout {
    physical_width: u16,
    physical_height: u16,
    pub remote_viewport: ScreenRect,
    pub system_ui_region: ScreenRect,
}

/// The smaller of two extents.
pub open spec fn min_u16(a: u16, b: u16) -> u16 {
    if a <= b {
        a
    } else {
        b
    }
}

/// `layout` is the layout of a non-empty `width` by `height` window: both
/// capped at [`MAX_EXTENT`], the bottom `min(height, 72)` rows local and the
/// rest remote.
pub open spec fn is_layout_of(width: u16, height: u16, layout: ScreenLayout) -> bool {
    let width = min_u16(width, MAX_EXTENT);
    let height = min_u16(height, MAX_EXTENT);
    let system_height = min_u16(height, SYSTEM_UI_HEIGHT);
    let remote_height = (height - system_height) as u16;
    &&& layout.spec_physical_size() == (width, height)
    &&& layout.spec_remote_viewport() == ScreenRect { x: 0, y: 0, width, height: remote_height }
    &&& layout.spec_system_ui_region() == ScreenRect {
        x: 0,
        y: remote_height,
        width,
        height: system_height,
    }
}

impl ScreenLayout {
    /// The window extent the layout partitions.
    pub closed spec fn spec_physical_size(self) -> (u16, u16) {
        (self.physical_width, self.physical_height)
    }

    /// The remote viewport, the region PaperSpoon draws into.
    pub closed spec fn spec_remote_viewport(self) -> ScreenRect {
        self.remote_viewport
    }

    /// The PaperPad-owned strip below the remote viewport.
    pub closed spec fn spec_system_ui_region(self) -> ScreenRect {
        self.system_ui_region
    }

    /// Partition a non-empty window into remote and local ownership. A window
    /// shorter than the system strip is all local, with an empty remote
    /// viewport.
    pub fn new(width: u16, height: u16) -> (layout: Option<Self>)
        ensures
            match layout {
                Some(layout) => width != 0 && height != 0 && is_layout_of(width, height, layout),
                None => width == 0 || height == 0,
            },
    {
        if width == 0 || height == 0 {
            return None;
        }
        let width = if width <= MAX_EXTENT {
            width
        } else {
            MAX_EXTENT
        };
        let height = if height <= MAX_EXTENT {
            height
        } else {
            MAX_EXTENT
        };
        let system_height = if height <= SYSTEM_UI_HEIGHT {
            height
        } else {
            SYSTEM_UI_HEIGHT
        };
        let remote_height = height - system_height;
        Some(
            ScreenLayout {
                physical_width: width,
                physical_height: height,
                remote_viewport: ScreenRect { x: 0, y: 0, width, height: remote_height },
                system_ui_region: ScreenRect { x: 0, y: remote_height, width, height: system_height },
            },
        )
    }

    pub fn remote_viewport(self) -> (region: ScreenRect)
        ensures
            region == self.spec_remote_viewport(),
    {
        self.remote_viewport
    }

    pub fn system_ui_region(self) -> (region: ScreenRect)
        ensures
            region == self.spec_system_ui_region(),
    {
        self.system_ui_region
    }

    /// Map a physical point to the remote viewport; `None` outside it.
    pub fn physical_to_remote(self, point: PhysicalPoint) -> (remote: Option<RemotePoint>)
        ensures
            remote == to_remote(self.spec_remote_viewport(), point),
    {
        let viewport = self.remote_viewport;
        let x = point.x as i32 - viewport.x as i32;
        let y = point.y as i32 - viewport.y as i32;
        if 0 <= x && x < viewport.width as i32 && 0 <= y && y < viewport.height as i32 {
            Some(RemotePoint { x: x as u16, y: y as u16 })
        } else {
            None
        }
    }

    pub fn physical_size(self) -> (size: (u16, u16))
        ensures
            size == self.spec_physical_size(),
    {
        (self.physical_width, self.physical_height)
    }
}

/// The two regions of a layout cover the window exactly: the remote viewport
/// on top, the system strip below it, both the full width, with no gap or
/// overlap.
pub proof fn lemma_layout_partitions(width: u16, height: u16, layout: ScreenLayout)
    requires
        is_layout_of(width, height, layout),
    ensures
        ({
            let (physical_width, physical_height) = layout.spec_physical_size();
            &&& layout.spec_remote_viewport().x == 0 && layout.spec_remote_viewport().y == 0
            &&& layout.spec_system_ui_region().x == 0
            &&& layout.spec_remote_viewport().width == physical_width
            &&& layout.spec_system_ui_region().width == physical_width
            &&& layout.spec_system_ui_region().y == layout.spec_remote_viewport().height
            &&& layout.spec_remote_viewport().height + layout.spec_system_ui_region().height == physical_height
            &&& layout.spec_system_ui_region().height <= SYSTEM_UI_HEIGHT
        }),
{
}

} // verus!
