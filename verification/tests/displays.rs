use phonto::backend::wayland::displays::DisplaysState;
use phonto::backend::wayland::outputs::OutputEvent;
use phonto::backend::{Backend, RunOptions};
use phonto::config::Platform;
use phonto::displays::{list, print, sort_by_id, DisplayInfo};
use phonto::plan::Playback;

fn info(id: &str, description: &str, width: u32, height: u32) -> DisplayInfo {
    DisplayInfo { id: id.to_string(), description: description.to_string(), width, height }
}

fn ids(displays: &[DisplayInfo]) -> Vec<&str> {
    displays.iter().map(|d| d.id.as_str()).collect()
}

struct Fixed;

impl Backend for Fixed {
    type Error = String;

    fn list_displays() -> Result<Vec<DisplayInfo>, String> {
        Ok(vec![info("DP-1", "one", 1, 2)])
    }

    fn run(self, _: Playback, _: RunOptions) -> Result<(), String> {
        Err("not run".to_string())
    }
}

#[test]
fn the_list_is_that_of_the_backend() {
    assert_eq!(ids(&list::<Fixed>().unwrap()), vec!["DP-1"]);
}

#[test]
fn a_table_of_displays() {
    let lines = print(
        &vec![info("DP-1", "Dell", 2560, 1440), info("eDP-1", "A long description", 1920, 1200)],
        Platform::Wayland,
    );
    assert_eq!(
        lines,
        vec![
            "ID     DESCRIPTION         RESOLUTION",
            "DP-1   Dell                2560x1440",
            "eDP-1  A long description  1920x1200",
            "",
            "Use an ID as `wayland = \"…\"` in an [[alias]] entry, or directly as `id` in a [[display]] block.",
        ]
    );
}

#[test]
fn the_hint_names_the_system() {
    let lines = print(&vec![info("x", "y", 1, 1)], Platform::Macos);
    assert!(lines[3].starts_with("Use an ID as `macos = "));
    assert_eq!(lines[0], "ID  DESCRIPTION  RESOLUTION");
}

#[test]
fn no_displays() {
    assert_eq!(print(&vec![], Platform::Wayland), vec!["no displays detected"]);
}

#[test]
fn columns_line_up_beyond_ascii() {
    let lines = print(&vec![info("é", "日本", 1, 2), info("abc", "x", 3, 4)], Platform::Wayland);
    let at = |l: &str, needle: &str| l.chars().collect::<Vec<_>>().len() - needle.chars().count();
    assert_eq!(at(&lines[0], "RESOLUTION"), at(&lines[1], "1x2"));
    assert_eq!(at(&lines[1], "1x2"), at(&lines[2], "3x4"));
}

#[test]
fn displays_are_sorted_by_id() {
    let sorted = sort_by_id(&vec![info("b", "", 0, 0), info("a", "", 0, 0), info("ab", "", 0, 0)]);
    assert_eq!(ids(&sorted), vec!["a", "ab", "b"]);
}

#[test]
fn a_display_begins_blank() {
    let d = DisplayInfo::default();
    assert_eq!((d.id.as_str(), d.description.as_str(), d.width, d.height), ("", "", 0, 0));
}

#[test]
fn the_compositor_tells_of_displays() {
    let mut state = DisplaysState::default();
    assert_eq!(state.global(7, "wl_output", 9), Some(4));
    assert_eq!(state.global(8, "wl_output", 2), Some(2));
    assert_eq!(state.global(9, "wl_seat", 2), None);
    state.event(7, OutputEvent::Name("DP-2".to_string()));
    state.event(
        7,
        OutputEvent::Geometry { make: " Dell".to_string(), model: "U27 ".to_string() },
    );
    state.event(7, OutputEvent::Mode { current: false, width: 9, height: 9 });
    state.event(7, OutputEvent::Mode { current: true, width: 640, height: -1 });
    state.event(7, OutputEvent::Done);
    state.event(7, OutputEvent::Other);
    state.event(8, OutputEvent::Name("DP-1".to_string()));
    state.event(8, OutputEvent::Description("left".to_string()));
    state.event(8, OutputEvent::Geometry { make: "A".to_string(), model: "B".to_string() });
    state.event(99, OutputEvent::Name("ghost".to_string()));
    let displays = state.list_displays();
    assert_eq!(ids(&displays), vec!["DP-1", "DP-2"]);
    assert_eq!(displays[0].description, "left");
    assert_eq!(displays[1].description, "Dell U27");
    assert_eq!((displays[1].width, displays[1].height), (640, 0));
}
