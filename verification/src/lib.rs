//! Core of a kiosk application launcher.
//!
//! - `catalog`, `models`, `loader`: the app catalog, an insertion-ordered
//!   map from identifier to record with its featured, installed and store
//!   lists, and how it is built from a directory scan and the builtin apps.
//! - `actions`: the launch dispatcher, which routes an identifier to a
//!   builtin handler or to a sandboxed process.
//! - `navigation`: the state machine of tabs and focus indices.
//! - `icons`, `display`, `text`: where icons are looked for, how the screen
//!   size is read, and comparisons on texts.
//!
//! The library decides; the host program around it reads the disk, draws
//! the window and spawns processes.

pub mod actions;
pub mod catalog;
pub mod display;
pub mod icons;
pub mod loader;
pub mod models;
pub mod navigation;
pub mod text;
