//! Parsing and state tracking for a status-bar block that shows one display
//! output at a time and lets the pointer change its brightness.

pub mod block;
pub mod config;
pub mod matcher;
pub mod metrics;
pub mod monitor;
pub mod render;
pub mod text;

pub use block::{Press, Theme, Xrandr};
pub use config::XrandrConfig;
pub use metrics::XrandrError;
pub use monitor::{BrightnessRequest, Monitor};
