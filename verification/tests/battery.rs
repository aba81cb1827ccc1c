use phonto::backend::wayland::battery_observer::{
    battery_percent, on_battery, read_sysfs_u8, should_pause, PowerSupply,
};
use phonto::backend::wayland::log_pause_state;
use phonto::backend::{pause_now, PauseMode};

fn supply(name: &str, online: Option<&str>, capacity: Option<&str>) -> PowerSupply {
    PowerSupply {
        name: name.to_string(),
        online: online.map(str::to_owned),
        capacity: capacity.map(str::to_owned),
    }
}

#[test]
fn numbers_of_sysfs() {
    assert_eq!(read_sysfs_u8("1\n"), Some(1));
    assert_eq!(read_sysfs_u8(" +100 "), Some(100));
    assert_eq!(read_sysfs_u8("255"), Some(255));
    assert_eq!(read_sysfs_u8("000012"), Some(12));
    for bad in ["", "256", "-1", "1.5", "x", "+", "99999999999999999999"] {
        assert_eq!(read_sysfs_u8(bad), None, "{bad:?}");
        assert_eq!(bad.trim().parse::<u8>().ok(), None);
    }
}

#[test]
fn mains_that_are_off_mean_battery() {
    assert!(on_battery(&vec![supply("AC0", Some("0\n"), None)]));
    assert!(!on_battery(&vec![supply("AC0", Some("0"), None), supply("ADP1", Some("1"), None)]));
    assert!(!on_battery(&vec![supply("BAT0", None, Some("40"))]));
    assert!(!on_battery(&vec![]));
}

#[test]
fn the_charge_is_that_of_the_battery() {
    let supplies = vec![supply("AC", Some("0"), Some("3")), supply("BAT1", None, Some("41\n"))];
    assert_eq!(battery_percent(&supplies), Some(41));
    assert_eq!(battery_percent(&vec![supply("BAT0", None, None)]), None);
}

#[test]
fn pauses_by_mode() {
    let low = vec![supply("AC", Some("0"), None), supply("BAT0", None, Some("10"))];
    assert!(!should_pause(&PauseMode::Never, &low));
    assert!(should_pause(&PauseMode::OnBattery, &low));
    assert!(should_pause(&PauseMode::BelowPercent(11), &low));
    assert!(!should_pause(&PauseMode::BelowPercent(10), &low));
    let plugged = vec![supply("AC", Some("1"), None), supply("BAT0", None, Some("10"))];
    assert!(!should_pause(&PauseMode::OnBattery, &plugged));
    assert!(!should_pause(&PauseMode::BelowPercent(100), &plugged));
}

#[test]
fn an_unknown_charge_is_not_low() {
    assert!(!pause_now(&PauseMode::BelowPercent(100), true, None));
    assert!(pause_now(&PauseMode::BelowPercent(100), true, Some(99)));
    assert_eq!(PauseMode::default(), PauseMode::Never);
}

#[test]
fn the_log_tells_of_pauses() {
    assert_eq!(
        log_pause_state(true, &PauseMode::OnBattery),
        Some("pausing wallpaper (battery pause active)")
    );
    assert_eq!(
        log_pause_state(false, &PauseMode::BelowPercent(5)),
        Some("playing wallpaper (battery pause inactive, on_battery=None)")
    );
    assert_eq!(log_pause_state(false, &PauseMode::Never), None);
}
