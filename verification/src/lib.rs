//! The engine of a tiling window manager: which windows exist, which workspace
//! and layout slot each one occupies, which one holds the input focus, and the
//! commands that bring the display server in line with that state.
//!
//! Nothing here talks to a display server. Every operation takes plain values
//! and answers with the new state and, where the server has to be told, with
//! the list of [`commands::Command`]s to send, in order.

pub mod alerts;
pub mod atoms;
pub mod banish;
pub mod clients;
pub mod commands;
pub mod config;
pub mod geometry;
pub mod keybindings;
pub mod keyboard;
pub mod layout;
pub mod utils;
pub mod wm;
pub mod workspaces;

