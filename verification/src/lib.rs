//! The core of anvi, which edits any text field in Neovim.
//!
//! Everything in here decides and computes. What waits, draws or speaks to the system is done by the
//! program around it, which tells the library what came of it.

pub mod autostart;
pub mod bundle;
pub mod clipboard;
pub mod controller;
pub mod event;
pub mod focus;
pub mod gui;
pub mod keys;
pub mod neovide;
pub mod notification;
pub mod server;
pub mod session;
pub mod strings;
pub mod text;
pub mod tray;
pub mod ui;
pub mod uia;
pub mod utf16;
pub mod value;
