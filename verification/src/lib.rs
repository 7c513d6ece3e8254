//! The logic of the beewm Wayland compositor: window placement, workspaces and
//! outputs, input grabs, animations, power management, IPC and the settings
//! menu, over plain values.
pub mod animation;
pub mod backend;
pub mod commands;
pub mod config;
pub mod config_watcher;
pub mod diagnostics;
pub mod feedback;
pub mod geometry;
pub mod input;
pub mod ipc;
pub mod layering;
pub mod overview;
pub mod power;
pub mod region;
pub mod render;
pub mod runtime_flags;
pub mod screencopy;
pub mod state;
pub mod surface_map;
pub mod text;
pub mod tray;
pub mod types;
