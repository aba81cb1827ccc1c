//! Videos as wallpapers of the macOS lock screen.
pub mod install;
pub mod manifest;
pub mod steps;
pub mod transcode;
