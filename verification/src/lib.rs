//! phonto plays videos as wallpapers.
pub mod backend;
pub mod cache;
pub mod cli;
pub mod config;
pub mod decoder;
pub mod displays;
pub mod injector;
pub mod json;
pub mod macos_live_lockscreen;
pub mod paths;
pub mod phonto;
pub mod plan;
pub mod scale;
pub mod screensaver;
pub mod seqs;
pub mod text;
pub mod wallpaper;
pub mod wayland;
