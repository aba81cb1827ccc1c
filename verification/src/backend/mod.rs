//! What every backend is asked to do.
pub mod macos;
pub mod wayland;

use vstd::prelude::*;

use crate::displays::DisplayInfo;
use crate::plan::Playback;
use crate::scale::ScaleMode;

verus! {

/// How the wallpaper is to be played.
#[derive(Debug, Clone, Copy)]
pub struct RunOptions {
    pub pause: PauseMode,
    pub scale: ScaleMode,
}

/// When playback pauses.
#[derive(Debug, Clone, Copy, PartialEq, Eq, Structural)]
pub enum PauseMode {
    Never,
    OnBattery,
    BelowPercent(u8),
}

impl Default for PauseMode {
    fn default() -> (r: PauseMode)
        ensures
            r == PauseMode::Never,
    {
        PauseMode::Never
    }
}

/// Playback pauses: never, on battery, or on battery with a known charge below the
/// threshold.
pub open spec fn pauses(mode: PauseMode, on_battery: bool, percent: Option<u8>) -> bool {
    match mode {
        PauseMode::Never => false,
        PauseMode::OnBattery => on_battery,
        PauseMode::BelowPercent(threshold) => on_battery && percent is Some && percent->0
            < threshold,
    }
}

/// Whether playback pauses, given the power source and the charge of the battery.
pub fn pause_now(mode: &PauseMode, on_battery: bool, percent: Option<u8>) -> (r: bool)
    ensures
        r == pauses(*mode, on_battery, percent),
{
    match mode {
        PauseMode::Never => false,
        PauseMode::OnBattery => on_battery,
        PauseMode::BelowPercent(threshold) => match percent {
            Some(p) => on_battery && p < *threshold,
            None => false,
        },
    }
}

/// What a system offers to play on.
pub trait Backend: Sized {
    type Error;

    /// The displays of the system.
    fn list_displays() -> Result<Vec<DisplayInfo>, Self::Error>;

    /// Take ownership of the runtime. Blocks for the lifetime of the wallpaper:
    /// returns only on error or graceful shutdown.
    fn run(self, playback: Playback, options: RunOptions) -> Result<(), Self::Error>;
}

/// A pause only ever starts on battery, and a lower charge never ends it.
pub proof fn pause_law(mode: PauseMode, on_battery: bool, charge: u8, lower: u8)
    requires
        lower <= charge,
    ensures
        pauses(mode, on_battery, Some(charge)) ==> on_battery,
        pauses(mode, on_battery, Some(charge)) ==> pauses(mode, on_battery, Some(lower)),
{
}

/// When playback pauses, mode by mode: never; on battery; or on battery with a known charge
/// that lies below the threshold.
pub proof fn pause_mode_law(on_battery: bool, percent: Option<u8>, threshold: u8)
    ensures
        !pauses(PauseMode::Never, on_battery, percent),
        pauses(PauseMode::OnBattery, on_battery, percent) <==> on_battery,
        !pauses(PauseMode::BelowPercent(threshold), on_battery, None),
        percent matches Some(charge) ==> (pauses(
            PauseMode::BelowPercent(threshold),
            on_battery,
            percent,
        ) <==> on_battery && charge < threshold),
{
}

} // verus!
