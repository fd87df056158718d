//! Decision and geometry logic of a window mirroring tool: it crops a game
//! window's capture to a chosen aspect ratio, keeps the settings file, tracks
//! the process tree whose audio is shared, and steers the capture, audio relay
//! and web player workers.

pub mod capture_control;
pub mod crash_report;
pub mod crop_edit;
pub mod geometry;
pub mod preview;
pub mod process_tree;
pub mod relay_control;
pub mod settings;
pub mod text;
pub mod tidal_control;
pub mod window_list;
