//! The terminal emulator's model.

pub mod buffer;
pub mod clipboard;
pub mod config;
pub mod commands;
pub mod parser;
pub mod backend;
pub mod state;
pub mod manager;
