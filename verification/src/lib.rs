//! Core logic of a daemon that keeps a rotating store of Bing wallpapers and
//! hands one of them to hyprpaper at a fixed interval.
//!
//! The crate holds the decisions of the daemon; the I/O (HTTP, the file system,
//! spawning `hyprctl`, timers) is left to the caller.

pub mod download;
pub mod model;
pub mod order;
pub mod store;
pub mod schedule;
pub mod args;
pub mod hyprpaper;
pub mod app;
pub mod paths;
