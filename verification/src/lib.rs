//! Verified core of a game-data mod workbench.

pub mod byte_patch;
pub mod digits;
pub mod edit_path;
pub mod hexdump;
pub mod json;
pub mod json_text;
pub mod laws;
pub mod navigation;
pub mod paz_file;
pub mod rows;
pub mod sizes;
pub mod sorting;
pub mod state;
pub mod text;
pub mod ui;
