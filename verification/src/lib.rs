//! Control library for Lamzu gaming mice: the HID packet protocol, the device
//! database, device selection, and the presentation logic shared by the
//! command-line tool, the Stream Deck plugin and the desktop window.

pub mod text;
pub mod types;
pub mod protocol;
pub mod device;
pub mod device_db;
pub mod image;
pub mod action;
pub mod gui;
pub mod cli;
pub mod plugin;
