//! The Wayland backend.
pub mod battery_observer;
pub mod decoder;
pub mod displays;
pub mod gl_renderer;
pub mod layout;
pub mod outputs;
pub mod session;

use vstd::prelude::*;

use crate::backend::PauseMode;
use crate::text;

verus! {

/// The layer of the layer shell that the wallpaper lies on.
#[derive(Debug, Clone, Copy, PartialEq, Eq, Structural)]
pub enum LayerMode {
    Background,
    Bottom,
    Top,
    Overlay,
}

impl Default for LayerMode {
    fn default() -> (r: LayerMode)
        ensures
            r == LayerMode::Background,
    {
        LayerMode::Background
    }
}

/// What the log says of a pause that begins or ends.
pub open spec fn pause_line(paused: bool, mode: PauseMode) -> Option<Seq<char>> {
    if paused {
        Some("pausing wallpaper (battery pause active)"@)
    } else if mode != PauseMode::Never {
        Some("playing wallpaper (battery pause inactive, on_battery=None)"@)
    } else {
        None
    }
}

/// What the log says of a pause that begins or ends.
pub fn log_pause_state(paused: bool, mode: &PauseMode) -> (r: Option<&'static str>)
    ensures
        text::str_view(r) == pause_line(paused, *mode),
{
    if paused {
        Some("pausing wallpaper (battery pause active)")
    } else if matches!(mode, PauseMode::Never) {
        None
    } else {
        Some("playing wallpaper (battery pause inactive, on_battery=None)")
    }
}

/// The log tells of every pause that begins, and of every one that ends unless playback
/// never pauses.
pub proof fn pause_line_law(mode: PauseMode)
    ensures
        pause_line(true, mode) == Some("pausing wallpaper (battery pause active)"@),
        pause_line(false, PauseMode::Never) is None,
        mode != PauseMode::Never ==> pause_line(false, mode) == Some(
            "playing wallpaper (battery pause inactive, on_battery=None)"@,
        ),
{
}

} // verus!
