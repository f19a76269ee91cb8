//! The PaperSpoon host: the application it renders for PaperPad, the input
//! it resolves, its diagnostic frames and its inbound framing.
pub mod application_input;
pub mod application_renderer;
pub mod application_ui;
pub mod diagnostic;
pub mod host;
pub mod inbound;
pub mod mono_renderer;
