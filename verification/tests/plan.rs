use phonto::config::{Alias, Config, Display, Platform, SearchPath};
use phonto::plan::{
    build, dedupe, per_display_from_cli, per_display_from_config, random_answer, resolve,
    resolve_id, resolve_source, resolve_with_ytdlp, source_at, ytdlp_answer, CliPerDisplay,
    DisplayAssignment, Plan, PlanError, Playback, ResolveError, Source, SourceStep, YtDlpOpts,
};

fn alias(name: &str, wayland: Option<&str>, macos: Option<&str>) -> Alias {
    Alias {
        name: name.to_string(),
        wayland: wayland.map(str::to_owned),
        macos: macos.map(str::to_owned),
    }
}

fn display(id: &str, path: Option<&str>, random: bool) -> Display {
    Display { id: id.to_string(), path: path.map(str::to_owned), random }
}

fn config(display: Vec<Display>, alias: Vec<Alias>) -> Config {
    Config {
        search_paths: vec![SearchPath { path: "/w".to_string(), depth: 1 }],
        alias,
        display,
    }
}

fn no_displays() -> CliPerDisplay {
    CliPerDisplay { pinned: vec![], random: vec![] }
}

fn shown(plan: &Plan) -> Vec<String> {
    let one = |s: &Source| match s {
        Source::Path(p) => format!("path {p}"),
        Source::Random => "random".to_string(),
    };
    match plan {
        Plan::Mirror(s) => vec![format!("all: {}", one(s))],
        Plan::PerDisplay(v) => {
            v.iter().map(|a| format!("{}: {}", a.native_id, one(&a.source))).collect()
        }
    }
}

#[test]
fn a_path_for_all_displays() {
    let plan = build(
        Some("/v.mp4".to_string()),
        false,
        no_displays(),
        &config(vec![display("main", None, true)], vec![]),
        Platform::Wayland,
    );
    assert_eq!(shown(&plan.unwrap()), vec!["all: path /v.mp4"]);
}

#[test]
fn a_random_video_for_all_displays() {
    let plan = build(None, true, no_displays(), &config(vec![], vec![]), Platform::Wayland);
    assert_eq!(shown(&plan.unwrap()), vec!["all: random"]);
}

#[test]
fn displays_of_the_command_line_come_first() {
    let cli = CliPerDisplay {
        pinned: vec![("DP-1".to_string(), "/a.mp4".to_string())],
        random: vec!["laptop".to_string()],
    };
    let plan = build(
        Some("/v.mp4".to_string()),
        true,
        cli,
        &config(
            vec![display("DP-9", Some("/z.mp4"), false)],
            vec![alias("laptop", Some("eDP-1"), None)],
        ),
        Platform::Wayland,
    );
    assert_eq!(shown(&plan.unwrap()), vec!["DP-1: path /a.mp4", "eDP-1: random"]);
}

#[test]
fn displays_of_the_configuration_come_last() {
    let plan = build(
        None,
        false,
        no_displays(),
        &config(
            vec![display("main", Some("/a.mp4"), false), display("DP-2", None, true)],
            vec![alias("main", Some("DP-1"), Some("DELL"))],
        ),
        Platform::Macos,
    );
    assert_eq!(shown(&plan.unwrap()), vec!["DELL: path /a.mp4", "DP-2: random"]);
}

#[test]
fn no_source_at_all() {
    let e = build(None, false, no_displays(), &config(vec![], vec![]), Platform::Wayland)
        .unwrap_err();
    assert!(matches!(e, PlanError::NoSource));
    assert_eq!(
        e.message(),
        "no video source: pass a path, --rand, --display ID PATH, or configure [[display]] entries"
    );
}

#[test]
fn an_alias_without_an_id_here() {
    let aliases = vec![alias("main", None, Some("DELL"))];
    let e = resolve_id("main", &aliases, Platform::Wayland).unwrap_err();
    assert_eq!(e.message(), "alias `main` has no `wayland = \"...\"` entry");
    assert_eq!(resolve_id("main", &aliases, Platform::Macos).unwrap(), "DELL");
    assert_eq!(resolve_id("other", &aliases, Platform::Wayland).unwrap(), "other");
    let e = resolve_id("x", &vec![alias("x", Some("DP-1"), None)], Platform::Macos).unwrap_err();
    assert_eq!(e.message(), "alias `x` has no `macos = \"...\"` entry");
}

#[test]
fn the_first_alias_of_a_name_counts() {
    let aliases = vec![alias("a", Some("DP-1"), None), alias("a", Some("DP-2"), None)];
    assert_eq!(resolve_id("a", &aliases, Platform::Wayland).unwrap(), "DP-1");
}

#[test]
fn a_display_needs_one_source() {
    let both = vec![display("main", Some("/a.mp4"), true)];
    let e = per_display_from_config(&both, &vec![], Platform::Wayland).unwrap_err();
    assert_eq!(e.message(), "[[display]] `main`: set exactly one of `path` or `random`");
    let neither = vec![display("main", None, false)];
    let e = per_display_from_config(&neither, &vec![], Platform::Wayland).unwrap_err();
    assert_eq!(e.message(), "[[display]] `main`: needs either `path` or `random = true`");
}

#[test]
fn a_display_is_assigned_once() {
    let cli = CliPerDisplay {
        pinned: vec![
            ("DP-1".to_string(), "/a.mp4".to_string()),
            ("DP-2".to_string(), "/b.mp4".to_string()),
        ],
        random: vec!["main".to_string()],
    };
    let aliases = vec![alias("main", Some("DP-1"), None)];
    let e = per_display_from_cli(cli, &aliases, Platform::Wayland).unwrap_err();
    assert_eq!(e.message(), "display `DP-1` assigned twice (entries 0 and 2)");
}

#[test]
fn assignments_without_a_repeat_pass() {
    let entries: Vec<DisplayAssignment> = ["a", "b", "c"]
        .iter()
        .map(|id| DisplayAssignment { native_id: id.to_string(), source: Source::Random })
        .collect();
    assert!(dedupe(&entries).is_ok());
    assert!(dedupe(&vec![]).is_ok());
}

#[test]
fn a_path_is_taken_as_it_is_but_for_the_tilde() {
    let step = resolve_source(&Source::Path("~/v.mp4".to_string()), None, Some("/home/u"));
    assert!(matches!(step, SourceStep::Ready(p) if p == "/home/u/v.mp4"));
    let step = resolve_source(&Source::Path("https://x/v.mp4 ".to_string()), None, Some("/home/u"));
    assert!(matches!(step, SourceStep::Ready(p) if p == "https://x/v.mp4"));
    let step = resolve_source(&Source::Random, None, Some("/home/u"));
    assert!(matches!(step, SourceStep::PickRandom));
}

#[test]
fn a_video_page_is_asked_of_yt_dlp() {
    let page = Some("https://youtu.be/x".to_string());
    let step = resolve_source(&Source::Path("yt:x".to_string()), page, None);
    assert!(matches!(step, SourceStep::AskYtDlp(u) if u == "https://youtu.be/x"));
}

#[test]
fn yt_dlp_is_called_with_its_options() {
    let opts = YtDlpOpts {
        format: Some("best".to_string()),
        cookies_from_browser: Some("firefox".to_string()),
        extra_args: vec!["--no-check".to_string()],
    };
    let args = resolve_with_ytdlp("https://youtu.be/x", &opts);
    assert_eq!(
        args,
        vec![
            "-f",
            "best",
            "--cookies-from-browser",
            "firefox",
            "--no-check",
            "-g",
            "https://youtu.be/x"
        ]
    );
}

#[test]
fn yt_dlp_answers_with_its_first_line() {
    let ok = ytdlp_answer(true, &b"https://cdn/v\nhttps://cdn/a\n".to_vec(), &vec![]);
    assert_eq!(ok.unwrap(), "https://cdn/v");
    let e = ytdlp_answer(false, &vec![], &b"no such video".to_vec()).unwrap_err();
    assert_eq!(e.message(), "yt-dlp failed:\nno such video");
    let e = ytdlp_answer(true, &vec![0xff], &vec![]).unwrap_err();
    assert_eq!(e.message(), "yt-dlp output is not valid UTF-8");
    let e = ytdlp_answer(true, &vec![], &vec![]).unwrap_err();
    assert_eq!(e.message(), "yt-dlp produced no output");
    assert_eq!(ResolveError::YtDlpNotRun.message(), "failed to run yt-dlp (is it installed?)");
}

#[test]
fn bytes_that_are_no_text_are_read_with_replacements() {
    let e = ytdlp_answer(false, &vec![], &vec![b'a', 0xff]).unwrap_err();
    assert_eq!(e.message(), "yt-dlp failed:\na\u{fffd}");
    assert_eq!(random_answer(Some(vec![b'/', 0xff])).unwrap(), "/\u{fffd}");
}

#[test]
fn a_random_pick_may_find_nothing() {
    assert_eq!(random_answer(Some(b"/w/a.mp4".to_vec())).unwrap(), "/w/a.mp4");
    let e = random_answer(None).unwrap_err();
    assert_eq!(e.message(), "no wallpapers found in configured search paths");
}

#[test]
fn playback_keeps_the_displays_of_the_plan() {
    let plan = Plan::PerDisplay(vec![
        DisplayAssignment { native_id: "DP-1".to_string(), source: Source::Random },
        DisplayAssignment { native_id: "DP-2".to_string(), source: Source::Random },
    ]);
    assert!(source_at(&plan, 1).is_some());
    assert!(source_at(&plan, 2).is_none());
    let playback = resolve(plan, vec![Ok("/a".to_string()), Ok("/b".to_string())]).unwrap();
    match playback {
        Playback::PerDisplay(v) => {
            let pairs: Vec<(String, String)> =
                v.into_iter().map(|a| (a.native_id, a.path)).collect();
            assert_eq!(
                pairs,
                vec![
                    ("DP-1".to_string(), "/a".to_string()),
                    ("DP-2".to_string(), "/b".to_string())
                ]
            );
        }
        Playback::Mirror(_) => panic!("not one video for all"),
    }
}

#[test]
fn the_first_source_that_fails_ends_the_resolution() {
    let plan = Plan::PerDisplay(vec![
        DisplayAssignment { native_id: "DP-1".to_string(), source: Source::Random },
        DisplayAssignment { native_id: "DP-2".to_string(), source: Source::Random },
    ]);
    let e = resolve(plan, vec![Err(ResolveError::NoWallpapers)]).unwrap_err();
    assert!(matches!(e, ResolveError::NoWallpapers));
    let playback = resolve(Plan::Mirror(Source::Random), vec![Ok("/v".to_string())]).unwrap();
    assert!(matches!(playback, Playback::Mirror(p) if p == "/v"));
}
