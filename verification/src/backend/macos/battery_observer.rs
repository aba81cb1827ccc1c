//! Pauses playback by the power sources that IOKit reports.
use vstd::prelude::*;

use crate::backend;
use crate::backend::PauseMode;
use crate::text;

verus! {

/// What the providing power source is called while the battery is in use.
pub const BATTERY_POWER: &'static str = "Battery Power";

/// The key under which a power source tells its charge.
pub const CURRENT_CAPACITY: &'static str = "Current Capacity";

/// The key under which a power source tells its charge when full.
pub const MAX_CAPACITY: &'static str = "Max Capacity";

/// What a power source tells of itself.
#[derive(Debug, Clone, Copy, PartialEq, Eq, Structural)]
pub struct PowerSource {
    pub current: Option<i32>,
    pub max: Option<i32>,
}

/// What is to be done with the players.
#[derive(Debug, Clone, Copy, PartialEq, Eq, Structural)]
pub enum Command {
    Play,
    Pause,
}

/// Whether the battery is in use: the providing power source says so.
pub fn on_battery(kind: Option<&str>) -> (r: bool)
    ensures
        r == (text::str_view(kind) == Some(BATTERY_POWER@)),
{
    match kind {
        Some(kind) => text::same_text(kind, BATTERY_POWER),
        None => false,
    }
}

/// The charge in percent of the full one, between 0 and 100.
pub open spec fn percent(current: int, max: int) -> int {
    if current <= 0 {
        0
    } else if current * 100 / max > 100 {
        100
    } else {
        current * 100 / max
    }
}

/// The power source tells of a charge.
pub open spec fn is_charged(s: PowerSource) -> bool {
    s.current is Some && s.max is Some && s.max->0 > 0
}

/// The charge of the first power source that tells of one.
pub open spec fn charge(sources: Seq<PowerSource>) -> Option<u8>
    decreases sources.len(),
{
    if sources.len() == 0 {
        None
    } else if is_charged(sources[0]) {
        Some(percent(sources[0].current->0 as int, sources[0].max->0 as int) as u8)
    } else {
        charge(sources.skip(1))
    }
}

/// The charge of the battery in percent, where a power source tells of one.
pub fn battery_percent(sources: &Vec<PowerSource>) -> (r: Option<u8>)
    ensures
        r == charge(sources@),
{
    let mut i: usize = 0;
    assert(sources@.skip(0) =~= sources@);
    while i < sources.len()
        invariant
            i <= sources@.len(),
            charge(sources@) == charge(sources@.skip(i as int)),
        decreases sources@.len() - i,
    {
        assert(sources@.skip(i as int).skip(1) =~= sources@.skip(i + 1));
        match (sources[i].current, sources[i].max) {
            (Some(current), Some(max)) => {
                if max > 0 {
                    return Some(percent_of(current, max));
                }
            },
            _ => {},
        }
        i = i + 1;
    }
    None
}

/// The charge in percent of the full one, between 0 and 100.
fn percent_of(current: i32, max: i32) -> (r: u8)
    requires
        max > 0,
    ensures
        r == percent(current as int, max as int),
{
    if current <= 0 {
        return 0;
    }
    let share: u64 = current as u64 * 100 / max as u64;
    if share > 100 {
        100
    } else {
        share as u8
    }
}

/// What is to be done with the players.
pub fn apply_state(mode: &PauseMode, on_battery: bool, percent: Option<u8>) -> (r: Command)
    ensures
        r == (if backend::pauses(*mode, on_battery, percent) {
            Command::Pause
        } else {
            Command::Play
        }),
{
    if backend::pause_now(mode, on_battery, percent) {
        Command::Pause
    } else {
        Command::Play
    }
}

/// A truth value as text.
pub open spec fn flag_text(b: bool) -> Seq<char> {
    if b {
        "true"@
    } else {
        "false"@
    }
}

/// A charge as text.
pub open spec fn charge_text(percent: Option<u8>) -> Seq<char> {
    match percent {
        Some(p) => "Some("@ + text::decimal(p as nat) + ")"@,
        None => "None"@,
    }
}

/// What the log says of a command.
pub fn log_line(command: Command, on_battery: bool, percent: Option<u8>) -> (r: String)
    ensures
        r@ == (match command {
            Command::Pause => "pausing"@,
            Command::Play => "playing"@,
        }) + " wallpaper (on_battery="@ + flag_text(on_battery) + ", charge="@ + charge_text(
            percent,
        ) + "%)"@,
{
    let verb = match command {
        Command::Pause => "pausing",
        Command::Play => "playing",
    };
    let flag = if on_battery {
        "true"
    } else {
        "false"
    };
    let charge = match percent {
        Some(p) => {
            let digits = text::decimal_text(p as u64);
            text::join3("Some(", digits.as_str(), ")")
        },
        None => "None".to_owned(),
    };
    let mut r = text::join3(verb, " wallpaper (on_battery=", flag);
    r.append(", charge=");
    r.append(charge.as_str());
    r.append("%)");
    r
}

/// The charge never leaves 0 to 100, and grows with what the source tells.
pub proof fn percent_law(current: int, more: int, max: int)
    requires
        max > 0,
        current <= more,
    ensures
        0 <= percent(current, max) <= percent(more, max) <= 100,
        current >= max ==> percent(current, max) == 100,
{
    assert(current * 100 / max <= more * 100 / max) by (nonlinear_arith)
        requires
            max > 0,
            current <= more,
    ;
    assert(current >= max ==> current * 100 / max >= 100) by (nonlinear_arith)
        requires
            max > 0,
    ;
    assert(current > 0 ==> current * 100 / max >= 0) by (nonlinear_arith)
        requires
            max > 0,
    ;
}

/// The charge is the share of the full one in whole percent, rounded down.
pub proof fn percent_share_law(current: int, max: int)
    requires
        0 < current < max,
    ensures
        percent(current, max) * max <= current * 100 < (percent(current, max) + 1) * max,
        forall|none: int| none <= 0 ==> #[trigger] percent(none, max) == 0,
{
    let share = current * 100 / max;
    assert(share * max <= current * 100 < (share + 1) * max && share <= 100) by (nonlinear_arith)
        requires
            0 < current < max,
            share == current * 100 / max,
    ;
}

/// Which power source counts: the first that tells both its charge and a full charge above 0.
pub proof fn charge_law(sources: Seq<PowerSource>, i: int)
    ensures
        (forall|k: int|
            0 <= k < sources.len() ==> (#[trigger] sources[k]).current is None
                || sources[k].max is None || sources[k].max->0 <= 0) <==> charge(sources) is None,
        0 <= i < sources.len() && sources[i].current is Some && sources[i].max is Some
            && sources[i].max->0 > 0 && (forall|k: int|
            0 <= k < i ==> (#[trigger] sources[k]).current is None || sources[k].max is None
                || sources[k].max->0 <= 0) ==> charge(sources) == Some(
            percent(sources[i].current->0 as int, sources[i].max->0 as int) as u8,
        ),
    decreases sources.len(),
{
    if sources.len() > 0 {
        let rest = sources.skip(1);
        assert(forall|k: int| 0 < k < sources.len() ==> #[trigger] sources[k] == rest[k - 1]);
        assert(forall|k: int| 0 <= k < rest.len() ==> #[trigger] rest[k] == sources[k + 1]);
        charge_law(rest, i - 1);
        if is_charged(sources[0]) {
            assert(sources[0].current is Some);
        }
    }
}

/// What the log calls a truth value and a charge.
pub proof fn log_text_law(percent: u8)
    ensures
        flag_text(true) == "true"@,
        flag_text(false) == "false"@,
        charge_text(None) == "None"@,
        charge_text(Some(percent)) == "Some("@ + text::decimal(percent as nat) + ")"@,
{
}

/// The players pause exactly when the mode asks for it, and play else.
pub proof fn apply_law(mode: PauseMode, on_battery: bool, percent: Option<u8>, r: Command)
    requires
        call_ensures(apply_state, (&mode, on_battery, percent), r),
    ensures
        mode == PauseMode::Never || !on_battery ==> r == Command::Play,
        mode == PauseMode::OnBattery && on_battery ==> r == Command::Pause,
        mode matches PauseMode::BelowPercent(threshold) ==> on_battery ==> (r == Command::Pause
            <==> percent is Some && percent->0 < threshold),
{
}

/// The battery is in use exactly where the providing power source goes by its name.
pub proof fn battery_power_law(kind: Option<&str>, r: bool)
    requires
        call_ensures(on_battery, (kind,), r),
    ensures
        kind is None ==> !r,
        kind matches Some(name) ==> (r <==> name@ == "Battery Power"@),
{
}

/// A line of the log begins with what is done, and tells the power source and the charge.
pub proof fn log_law(command: Command, on_battery: bool, percent: Option<u8>, r: String)
    requires
        call_ensures(log_line, (command, on_battery, percent), r),
    ensures
        command == Command::Pause ==> r@ == "pausing wallpaper (on_battery="@ + flag_text(
            on_battery,
        ) + ", charge="@ + charge_text(percent) + "%)"@,
        command == Command::Play ==> r@ == "playing wallpaper (on_battery="@ + flag_text(on_battery)
            + ", charge="@ + charge_text(percent) + "%)"@,
{
    reveal_strlit("pausing");
    reveal_strlit("playing");
    reveal_strlit(" wallpaper (on_battery=");
    reveal_strlit("pausing wallpaper (on_battery=");
    reveal_strlit("playing wallpaper (on_battery=");
    assert("pausing"@ + " wallpaper (on_battery="@ =~= "pausing wallpaper (on_battery="@);
    assert("playing"@ + " wallpaper (on_battery="@ =~= "playing wallpaper (on_battery="@);
}

} // verus!
