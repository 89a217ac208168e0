//! Device bridge logic for mirroring and file transfer between a PC and an
//! Android phone.

pub mod paths;
pub mod stream;
pub mod text;
pub mod ui;
pub mod watcher;
pub mod wifi;
pub mod adb;
pub mod app;
pub mod device;
pub mod files;
pub mod laws;
