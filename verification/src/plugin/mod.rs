//! Capturing what coding CLIs say, and serving memory to them.

pub mod autostart;
pub mod buffer;
pub mod capture;
pub mod config;
pub mod net;
pub mod offset;
pub mod platform;
pub mod proxy;
pub mod setup;
