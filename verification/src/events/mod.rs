//! Input events.

pub mod keyboard;
