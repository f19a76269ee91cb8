//! Logical UI concepts: semantic actions, geometry, hit testing and contact
//! tracking, independent of X11 and of the wire.
pub mod action;
pub mod button;
pub mod geometry;
pub mod system;
