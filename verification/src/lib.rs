//! The core of an editor that places doodads over an animated sprite sheet:
//! geometry, per-frame placement state, the scene document and its text form.

pub mod codec;
pub mod config;
pub mod decimal;
pub mod file_utils;
pub mod fragment;
pub mod mymath;
pub mod number;
pub mod resource_manager;
pub mod scene;
pub mod ui_stuff;
