use phonto::backend::{Backend, PauseMode, RunOptions};
use phonto::cache::{cache_dir, current_file, current_json, CACHE_PATH};
use phonto::cli::{current_path, per_display, run_options, shader_context};
use phonto::displays::DisplayInfo;
use phonto::phonto::run;
use phonto::plan::Playback;
use phonto::scale::ScaleMode;

fn strings(list: &[&str]) -> Vec<String> {
    list.iter().map(|s| s.to_string()).collect()
}

#[test]
fn pauses_by_flag() {
    let pause = |on, below| run_options(on, below, ScaleMode::Fit).pause;
    assert_eq!(pause(true, Some(5)), PauseMode::OnBattery);
    assert_eq!(pause(true, None), PauseMode::OnBattery);
    assert_eq!(pause(false, Some(5)), PauseMode::BelowPercent(5));
    assert_eq!(pause(false, None), PauseMode::Never);
    assert_eq!(run_options(false, None, ScaleMode::Fit).scale, ScaleMode::Fit);
}

#[test]
fn displays_come_in_pairs() {
    let cli = per_display(&strings(&["DP-1", "/a", "DP-2", "/b"]), strings(&["eDP-1"]));
    assert_eq!(
        cli.pinned,
        vec![("DP-1".to_string(), "/a".to_string()), ("DP-2".to_string(), "/b".to_string())]
    );
    assert_eq!(cli.random, vec!["eDP-1"]);
    assert!(!cli.is_empty());
    assert!(per_display(&vec![], vec![]).is_empty());
}

#[test]
fn other_tools_are_told_of_one_video() {
    assert_eq!(current_path(&Playback::Mirror("/v".to_string())), Some("/v"));
    assert_eq!(current_path(&Playback::PerDisplay(vec![])), None);
}

#[test]
fn files_of_the_cache() {
    assert_eq!(CACHE_PATH, ".cache/phonto");
    assert_eq!(cache_dir("/home/u"), "/home/u/.cache/phonto");
    assert_eq!(current_file("/home/u"), "/home/u/.cache/phonto/current");
    assert_eq!(current_json("/home/u/"), "/home/u/.cache/phonto/current.json");
    assert_eq!(shader_context("x.glsl"), "failed to read shader file: x.glsl");
}

struct Told;

impl Backend for Told {
    type Error = String;

    fn list_displays() -> Result<Vec<DisplayInfo>, String> {
        Ok(vec![])
    }

    fn run(self, playback: Playback, _: RunOptions) -> Result<(), String> {
        match playback {
            Playback::Mirror(path) => Err(format!("played {path}")),
            Playback::PerDisplay(_) => Ok(()),
        }
    }
}

#[test]
fn a_run_is_that_of_the_backend() {
    let options = || run_options(false, None, ScaleMode::Fill);
    let mirror = || Playback::Mirror("/v".to_string());
    assert_eq!(run(Ok(Told), mirror(), options()), Err("played /v".to_string()));
    assert_eq!(run(Ok(Told), Playback::PerDisplay(vec![]), options()), Ok(()));
    let missing: Result<Told, String> = Err("no display".to_string());
    assert_eq!(run(missing, mirror(), options()), Err("no display".to_string()));
}
