//! The decisions behind a replacement taskbar: the registry of tray icons, the encoding of
//! clicks, the window switcher, window thumbnails and the cached-memory purge.
//!
//! Each module takes plain values that its caller obtained from the system and says what
//! follows from them; the system calls themselves stay with the caller.

pub mod autostart;
pub mod capture;
pub mod counter;
pub mod icon;
pub mod notify;
pub mod ram_clear;
pub mod registry;
pub mod scale;
pub mod switcher;
pub mod text;
pub mod tray_host;
pub mod tray_mirror;
pub mod wire;
