//! Automatic gain control: settings, the window that the level is measured over, and the pace of
//! gain changes.
pub mod config;
pub mod rms;
pub mod slowdown;
