//! The first conservative HWTCON remote update request: a full GC16 refresh
//! of the remote viewport. No framebuffer memory or ioctl is touched here.
use crate::mxcfb::region::{remote_region_spec, remote_update_region, RegionError, UpdateRegion};
use crate::screen::ScreenLayout;
use vstd::prelude::*;

verus! {

/// GC16 waveform: sixteen gray levels, full flashing update.
pub const WAVEFORM_GC16: u32 = 2;

/// DU waveform: direct black/white update.
pub const WAVEFORM_DU: u32 = 1;

/// Full (flashing) update mode.
pub const UPDATE_MODE_FULL: u32 = 1;

/// Use the ambient temperature.
pub const TEMP_USE_AMBIENT: i32 = 0x1000;

/// `mxcfb_alt_buffer_data`.
#[derive(Clone, Copy, Debug, PartialEq, Eq, Structural)]
pub struct AltBufferData {
    pub phys_addr: u32,
    pub width: u32,
    pub height: u32,
    pub alt_update_region: UpdateRegion,
}

impl Default for AltBufferData {
    fn default() -> (data: Self)
        ensures
            data == (AltBufferData {
                phys_addr: 0,
                width: 0,
                height: 0,
                alt_update_region: UpdateRegion { top: 0, left: 0, width: 0, height: 0 },
            }),
    {
        AltBufferData {
            phys_addr: 0,
            width: 0,
            height: 0,
            alt_update_region: UpdateRegion { top: 0, left: 0, width: 0, height: 0 },
        }
    }
}

/// `mxcfb_swipe_data`.
#[derive(Clone, Copy, Debug, PartialEq, Eq, Structural)]
pub struct SwipeData {
    pub direction: u32,
    pub steps: u32,
}

impl Default for SwipeData {
    fn default() -> (data: Self)
        ensures
            data == (SwipeData { direction: 0, steps: 0 }),
    {
        SwipeData { direction: 0, steps: 0 }
    }
}

/// `mxcfb_update_data_mtk`, field for field.
#[derive(Clone, Copy, Debug, PartialEq, Eq, Structural)]
pub struct UpdateDataMtk {
    pub update_region: UpdateRegion,
    pub waveform_mode: u32,
    pub update_mode: u32,
    pub update_marker: u32,
    pub temp: i32,
    pub flags: u32,
    pub dither_mode: i32,
    pub quant_bit: i32,
    pub alt_buffer_data: AltBufferData,
    pub swipe_data: SwipeData,
    pub hist_bw_waveform_mode: u32,
    pub hist_gray_waveform_mode: u32,
    pub ts_pxp: u32,
    pub ts_epdc: u32,
}

/// Why no update request is built.
#[derive(Clone, Copy, Debug, PartialEq, Eq, Structural)]
pub enum RequestError {
    /// Update markers must be nonzero.
    ZeroMarker,
    /// The remote viewport cannot be refreshed.
    Region(RegionError),
}

/// The full GC16 refresh of the remote viewport with `marker`; every other
/// field is zero.
pub open spec fn gc16_request(update_region: UpdateRegion, marker: u32) -> UpdateDataMtk {
    UpdateDataMtk {
        update_region,
        waveform_mode: WAVEFORM_GC16,
        update_mode: UPDATE_MODE_FULL,
        update_marker: marker,
        temp: TEMP_USE_AMBIENT,
        flags: 0,
        dither_mode: 0,
        quant_bit: 0,
        alt_buffer_data: AltBufferData {
            phys_addr: 0,
            width: 0,
            height: 0,
            alt_update_region: UpdateRegion { top: 0, left: 0, width: 0, height: 0 },
        },
        swipe_data: SwipeData { direction: 0, steps: 0 },
        hist_bw_waveform_mode: WAVEFORM_DU,
        hist_gray_waveform_mode: WAVEFORM_GC16,
        ts_pxp: 0,
        ts_epdc: 0,
    }
}

/// Build the full GC16 update of the remote viewport.
pub fn full_gc16_remote_request(
    screen: ScreenLayout,
    visible_width: u32,
    visible_height: u32,
    marker: u32,
) -> (result: Result<UpdateDataMtk, RequestError>)
    ensures
        result == (if marker == 0 {
            Err(RequestError::ZeroMarker)
        } else {
            match remote_region_spec(screen, visible_width, visible_height) {
                Ok(region) => Ok(gc16_request(region, marker)),
                Err(error) => Err(RequestError::Region(error)),
            }
        }),
{
    if marker == 0 {
        return Err(RequestError::ZeroMarker);
    }
    let update_region = match remote_update_region(screen, visible_width, visible_height) {
        Ok(region) => region,
        Err(error) => return Err(RequestError::Region(error)),
    };
    Ok(
        UpdateDataMtk {
            update_region,
            waveform_mode: WAVEFORM_GC16,
            update_mode: UPDATE_MODE_FULL,
            update_marker: marker,
            temp: TEMP_USE_AMBIENT,
            flags: 0,
            dither_mode: 0,
            quant_bit: 0,
            alt_buffer_data: AltBufferData::default(),
            swipe_data: SwipeData::default(),
            hist_bw_waveform_mode: WAVEFORM_DU,
            hist_gray_waveform_mode: WAVEFORM_GC16,
            ts_pxp: 0,
            ts_epdc: 0,
        },
    )
}

} // verus!
