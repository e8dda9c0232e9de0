//! The user's configuration: colours, programs and key bindings.

pub mod config;
pub mod keybinds;
