use phonto::backend::macos::battery_observer::{
    apply_state, battery_percent, log_line, on_battery, Command, PowerSource,
};
use phonto::backend::macos::screen_observer::reapply;
use phonto::backend::macos::shuffle_observer::{
    next_index, CrossfadeState, Fade, Shuffle, Skip, Tick,
};
use phonto::backend::macos::{
    layer_frame, make_player, native_frame, video_gravity_for, watches_battery, LayerFrame,
    PlayerUrl, Players, Surface, VideoGravity, WALLPAPER_LEVEL,
};
use phonto::backend::PauseMode;
use phonto::plan::{Playback, ResolvedAssignment};
use phonto::scale::{Dims, ScaleMode};
use phonto::screensaver::{wallpaper_path, SaverView, TearDown};

fn names(list: &[&str]) -> Vec<String> {
    list.iter().map(|s| s.to_string()).collect()
}

#[test]
fn gravity_by_scale() {
    assert_eq!(video_gravity_for(ScaleMode::Stretch), VideoGravity::Resize);
    assert_eq!(video_gravity_for(ScaleMode::Fit), VideoGravity::ResizeAspect);
    assert_eq!(video_gravity_for(ScaleMode::Fill), VideoGravity::ResizeAspectFill);
    assert_eq!(video_gravity_for(ScaleMode::Center), VideoGravity::Native);
    assert_eq!(WALLPAPER_LEVEL, -2147483624);
}

fn dims(width: u32, height: u32) -> Dims {
    Dims { width, height }
}

#[test]
fn a_centered_video_keeps_its_size() {
    assert_eq!(
        native_frame(dims(1920, 1080), dims(640, 481)),
        LayerFrame { left: 640, bottom: 299, width: 640, height: 481 },
    );
    assert_eq!(
        native_frame(dims(1920, 1080), dims(3840, 1083)),
        LayerFrame { left: -960, bottom: -2, width: 3840, height: 1083 },
    );
    assert_eq!(
        native_frame(dims(0, 0), dims(u32::MAX, 1)),
        LayerFrame { left: -2147483648, bottom: -1, width: u32::MAX, height: 1 },
    );
}

#[test]
fn other_videos_take_the_whole_screen() {
    let whole = LayerFrame { left: 0, bottom: 0, width: 1920, height: 1080 };
    for gravity in
        [VideoGravity::Resize, VideoGravity::ResizeAspect, VideoGravity::ResizeAspectFill]
    {
        assert_eq!(layer_frame(gravity, dims(1920, 1080), dims(640, 480)), whole);
    }
    assert_eq!(layer_frame(VideoGravity::Native, dims(1920, 1080), dims(0, 480)), whole);
    assert_eq!(
        layer_frame(VideoGravity::Native, dims(1920, 1080), dims(640, 480)),
        LayerFrame { left: 640, bottom: 300, width: 640, height: 480 },
    );
}

#[test]
fn players_open_urls_and_files() {
    assert!(matches!(make_player("https://x", None), PlayerUrl::Remote(u) if u == "https://x"));
    assert!(matches!(make_player("v", Some("/cwd/v")), PlayerUrl::File(p) if p == "/cwd/v"));
    assert!(matches!(make_player("v", None), PlayerUrl::File(p) if p == "v"));
}

#[test]
fn screens_that_appear_are_attached() {
    let all = Players::new(Playback::Mirror("/v".to_string()));
    assert_eq!(
        all.attach(&names(&["a"]), &names(&["a", "b", "c"])),
        vec![Surface { screen: 1, player: 0 }, Surface { screen: 2, player: 0 }],
    );
    assert_eq!(all.attach(&names(&["a", "b"]), &names(&["b", "a"])), vec![]);
    let pinned = Players::new(Playback::PerDisplay(vec![
        ResolvedAssignment { native_id: "a".to_string(), path: "/1".to_string() },
        ResolvedAssignment { native_id: "b".to_string(), path: "/2".to_string() },
    ]));
    assert_eq!(
        pinned.attach(&[].to_vec(), &names(&["c", "b"])),
        vec![Surface { screen: 1, player: 1 }],
    );
    assert_eq!(pinned.attach(&names(&["b"]), &names(&["c", "b"])), vec![]);
}

#[test]
fn one_video_for_all_screens() {
    let players = Players::new(Playback::Mirror("/v".to_string()));
    assert_eq!(players.paths, vec!["/v"]);
    let surfaces = players.surfaces(&names(&["A", "B"])).unwrap();
    assert_eq!(
        surfaces,
        vec![Surface { screen: 0, player: 0 }, Surface { screen: 1, player: 0 }]
    );
    assert_eq!(players.surfaces(&vec![]).unwrap_err().message(), "no screens detected");
}

#[test]
fn screens_without_an_assignment_are_left_alone() {
    let assignment = |id: &str, path: &str| ResolvedAssignment {
        native_id: id.to_string(),
        path: path.to_string(),
    };
    let players = Players::new(Playback::PerDisplay(vec![
        assignment("A", "/a"),
        assignment("B", "/b"),
        assignment("A", "/c"),
    ]));
    assert_eq!(players.paths, vec!["/a", "/b", "/c"]);
    let surfaces = players.surfaces(&names(&["X", "B", "A"])).unwrap();
    assert_eq!(
        surfaces,
        vec![Surface { screen: 1, player: 1 }, Surface { screen: 2, player: 2 }]
    );
    assert_eq!(players.surfaces(&vec![]).unwrap(), vec![]);
    assert_eq!(players.player("X"), None);
}

#[test]
fn surfaces_follow_their_screens() {
    let places = reapply(&names(&["B", "X", "A"]), &names(&["A", "B", "A"]));
    assert_eq!(places, vec![Some(1), None, Some(0)]);
}

#[test]
fn power_by_iokit() {
    assert!(on_battery(Some("Battery Power")));
    assert!(!on_battery(Some("AC Power")));
    assert!(!on_battery(None));
    let source = |current, max| PowerSource { current, max };
    let sources = vec![source(None, Some(9)), source(Some(1), Some(0)), source(Some(45), Some(90))];
    assert_eq!(battery_percent(&sources), Some(50));
    assert_eq!(battery_percent(&vec![source(Some(-3), Some(10))]), Some(0));
    assert_eq!(battery_percent(&vec![source(Some(i32::MAX), Some(1))]), Some(100));
    assert_eq!(battery_percent(&vec![source(Some(2), Some(3))]), Some(66));
    assert_eq!(battery_percent(&vec![]), None);
}

#[test]
fn players_play_or_pause() {
    assert_eq!(apply_state(&PauseMode::OnBattery, true, None), Command::Pause);
    assert_eq!(apply_state(&PauseMode::BelowPercent(20), true, Some(20)), Command::Play);
    assert_eq!(apply_state(&PauseMode::Never, true, Some(1)), Command::Play);
    assert_eq!(
        log_line(Command::Pause, true, Some(12)),
        "pausing wallpaper (on_battery=true, charge=Some(12)%)"
    );
    assert_eq!(
        log_line(Command::Play, false, None),
        "playing wallpaper (on_battery=false, charge=None%)"
    );
    assert!(!watches_battery(PauseMode::Never));
    assert!(watches_battery(PauseMode::OnBattery));
}

#[test]
fn the_next_video_is_another_one() {
    assert_eq!(next_index(1, 0, 0), 0);
    assert_eq!(next_index(2, 0, 0), 1);
    assert_eq!(next_index(2, 1, 0), 0);
    let all: Vec<usize> = (0..4).map(|drawn| next_index(5, 2, drawn)).collect();
    assert_eq!(all, vec![0, 1, 3, 4]);
}

#[test]
fn a_shuffle_never_repeats() {
    let mut shuffle = Shuffle::new(5, 3, CrossfadeState::default());
    let mut last = 3;
    for _ in 0..200 {
        match shuffle.tick() {
            Tick::Load { index, player } => {
                assert!(index < 5 && index != last);
                assert_eq!(player, 1 - shuffle.state.active);
                last = index;
            }
            other => panic!("{other:?}"),
        }
        shuffle.animate();
    }
}

#[test]
fn a_tick_may_change_nothing() {
    let mut shuffle = Shuffle::new(3, 0, CrossfadeState::default());
    assert!(matches!(shuffle.tick_with(1), Tick::Load { index: 2, player: 1 }));
    assert_eq!(shuffle.tick_with(0), Tick::Skipped(Skip::TransitionPending));
    shuffle.state.pause_gate = true;
    assert_eq!(shuffle.tick_with(0), Tick::Skipped(Skip::Paused));
    assert_eq!(shuffle.animate(), Fade { outgoing: 0, incoming: 1, pause_all: true });
    assert_eq!(shuffle.state.active, 1);
    let mut empty = Shuffle::new(0, 0, CrossfadeState::default());
    assert_eq!(empty.tick(), Tick::Skipped(Skip::EmptyPool));
}

#[test]
fn the_screen_saver_finds_its_video() {
    assert_eq!(
        wallpaper_path("/L/Phonto.saver/Contents/MacOS/PhontoScreenSaver").as_deref(),
        Some("/L/Phonto.saver/Contents/Resources/wallpaper.mp4")
    );
    assert_eq!(wallpaper_path("/lib"), None);
}

#[test]
fn the_screen_saver_sets_one_player_up() {
    let mut view = SaverView::new();
    assert!(!view.install_player(false));
    assert!(view.install_player(true));
    assert!(!view.install_player(true));
    assert_eq!(view.tear_down_player(), TearDown { layer: true, player: true });
    assert_eq!(view.tear_down_player(), TearDown { layer: false, player: false });
    assert!(view.install_player(true));
}
