//! Direct-framebuffer geometry, pixel conversion and update requests for
//! the Kindle MXCFB/HWTCON display. Nothing here touches a device.
pub mod layout;
pub mod pixels;
pub mod region;
pub mod update_marker;
pub mod update_request;
