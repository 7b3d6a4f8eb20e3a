//! Verified core of a keyboard-driven SDR spectrum viewer: value formatting,
//! time stamps, script parsing helpers, settings navigation, source
//! numerology and frame accounting.

pub mod config;
pub mod decode;
pub mod replay;
pub mod settings;
pub mod source;
pub mod text;
pub mod utils;
pub mod viewport;
