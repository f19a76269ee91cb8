//! PaperPad: verified protocol, geometry and rendering logic for a remote
//! monochrome framebuffer client and its host companion.
pub mod framebuffer;
pub mod wire;
pub mod v2;
pub mod v2_payload;
pub mod text;
pub mod datagram;
pub mod transport;
pub mod transport_parse;
pub mod transport_laws;
pub mod line_reader;
pub mod net;
pub mod screen;
pub mod display;
pub mod mxcfb;
pub mod ui;
pub mod action_line;
pub mod config;
pub mod paperspoon;
pub mod app_state;
pub mod remote_pointer;
pub mod x11;
pub mod companion;
pub mod discovery;
pub mod bonjour;
pub mod connection;
