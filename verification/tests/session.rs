use phonto::backend::wayland::layout::{thread_name, Layout};
use phonto::backend::wayland::outputs::{Event, OutputEvent, State};
use phonto::backend::wayland::session::{Action, Attachment, Phase, Reply, RunError, Session};
use phonto::backend::wayland::battery_observer::PowerSupply;
use phonto::backend::{PauseMode, RunOptions};
use phonto::plan::{Playback, ResolvedAssignment};
use phonto::scale::ScaleMode;

fn global(name: u32, interface: &str) -> Event {
    Event::Global { name, interface: interface.to_string(), version: 4 }
}

fn described(state: &mut State, name: u32, id: &str) {
    state.event(global(name, "wl_output"));
    state.event(Event::Output { name, event: OutputEvent::Name(id.to_string()) });
    state.event(Event::Output { name, event: OutputEvent::Done });
}

fn ready(outputs: &[(u32, &str)]) -> State {
    let mut state = State::new();
    state.event(global(1, "wl_compositor"));
    state.event(global(2, "zwlr_layer_shell_v1"));
    for (name, id) in outputs {
        described(&mut state, *name, id);
    }
    state
}

fn options(pause: PauseMode) -> RunOptions {
    RunOptions { pause, scale: ScaleMode::Fill }
}

fn mirror() -> Playback {
    Playback::Mirror("/v.mp4".to_string())
}

fn per_display(pairs: &[(&str, &str)]) -> Playback {
    Playback::PerDisplay(
        pairs
            .iter()
            .map(|(id, path)| ResolvedAssignment {
                native_id: id.to_string(),
                path: path.to_string(),
            })
            .collect(),
    )
}

fn done(session: &mut Session) -> Action {
    let reply = Reply::Done;
    assert!(session.accepts(&reply));
    session.step(reply)
}

/// Takes a session up to its first round, with surfaces 0, 1, 2, ... in order.
fn started(mut session: Session) -> Session {
    let names = match done(&mut session) {
        Action::CreateSurfaces(names) => names,
        other => panic!("{other:?}"),
    };
    assert!(matches!(done(&mut session), Action::Dispatch));
    for &name in &names {
        session.event(Event::Configure { name, width: 800, height: 600 });
    }
    let attached = match done(&mut session) {
        Action::Attach(list) => list,
        other => panic!("{other:?}"),
    };
    assert_eq!(attached[0], Attachment { name: names[0], width: 800, height: 600 });
    let rest = Reply::Surfaces((1..attached.len()).collect());
    assert!(session.accepts(&rest));
    assert!(matches!(session.step(rest), Action::StartDecoders));
    assert!(matches!(done(&mut session), Action::ReadPower));
    assert!(matches!(session.step(Reply::Power(vec![])), Action::ReadClock));
    session
}

/// Runs a round without new outputs, up to the drawing.
fn drawn(session: &mut Session) -> Vec<(u32, usize, usize)> {
    match session.step(Reply::Elapsed(0)) {
        Action::CreateSurfaces(names) => assert!(names.is_empty()),
        other => panic!("{other:?}"),
    }
    match done(session) {
        Action::Attach(list) => assert!(list.is_empty()),
        other => panic!("{other:?}"),
    }
    assert!(matches!(session.step(Reply::Surfaces(vec![])), Action::RemoveSurfaces(_)));
    assert!(matches!(done(session), Action::RemoveSurfaces(_)));
    assert!(matches!(done(session), Action::Receive(_)));
    let commands = match done(session) {
        Action::Draw(commands) => commands,
        other => panic!("{other:?}"),
    };
    assert!(matches!(done(session), Action::DispatchPending));
    for c in &commands {
        session.event(Event::FrameDone { name: c.name });
    }
    assert!(matches!(done(session), Action::RemoveSurfaces(_)));
    assert!(matches!(done(session), Action::Flush));
    assert!(matches!(done(session), Action::ReadClock));
    commands.iter().map(|c| (c.name, c.surface_idx, c.decoder_idx)).collect()
}

#[test]
fn a_session_needs_the_compositor() {
    let mut session = Session::new(State::new(), mirror(), options(PauseMode::Never));
    match done(&mut session) {
        Action::Fail(e) => assert_eq!(e.message(), "wl_compositor missing"),
        other => panic!("{other:?}"),
    }
    assert_eq!(session.phase, Phase::Over);
    assert!(!session.accepts(&Reply::Done));
}

#[test]
fn a_session_needs_the_layer_shell() {
    let mut state = State::new();
    state.event(global(1, "wl_compositor"));
    let mut session = Session::new(state, mirror(), options(PauseMode::Never));
    match done(&mut session) {
        Action::Fail(e) => assert_eq!(e.message(), "zwlr_layer_shell_v1 missing"),
        other => panic!("{other:?}"),
    }
}

#[test]
fn a_session_needs_an_output() {
    let playback = per_display(&[("DP-9", "/a")]);
    let state = ready(&[(10, "DP-1")]);
    let mut session = Session::new(state, playback, options(PauseMode::Never));
    match done(&mut session) {
        Action::Fail(e) => {
            assert_eq!(e, RunError::NoMatchingOutputs);
            assert_eq!(e.message(), "no matching wl_outputs to render on");
        }
        other => panic!("{other:?}"),
    }
}

#[test]
fn outputs_may_disappear_before_they_are_configured() {
    let mut session =
        Session::new(ready(&[(10, "DP-1")]), mirror(), options(PauseMode::Never));
    assert!(matches!(done(&mut session), Action::CreateSurfaces(_)));
    assert!(matches!(done(&mut session), Action::Dispatch));
    assert_eq!(session.context(), Some("waiting for layer surface configure"));
    session.event(Event::GlobalRemove { name: 10 });
    match done(&mut session) {
        Action::Fail(e) => {
            assert_eq!(e.message(), "all matching wl_outputs disappeared before configuring")
        }
        other => panic!("{other:?}"),
    }
}

#[test]
fn outputs_are_taken_in_the_order_of_their_names() {
    let mut session = Session::new(
        ready(&[(10, "HDMI-1"), (11, "DP-1"), (12, "DP-2")]),
        mirror(),
        options(PauseMode::Never),
    );
    match done(&mut session) {
        Action::CreateSurfaces(names) => assert_eq!(names, vec![11, 12, 10]),
        other => panic!("{other:?}"),
    }
}

#[test]
fn one_video_for_all_comes_from_one_decoder() {
    let session =
        Session::new(ready(&[(10, "DP-1"), (11, "DP-2")]), mirror(), options(PauseMode::Never));
    let mut session = started(session);
    assert_eq!(drawn(&mut session), vec![(10, 0, 0), (11, 1, 0)]);
    assert_eq!(drawn(&mut session), vec![(10, 0, 0), (11, 1, 0)]);
}

#[test]
fn each_display_is_fed_by_its_own_decoder() {
    let session = Session::new(
        ready(&[(10, "DP-1"), (11, "DP-2"), (12, "DP-3")]),
        per_display(&[("DP-2", "/b"), ("DP-1", "/a")]),
        options(PauseMode::Never),
    );
    let mut session = started(session);
    assert_eq!(drawn(&mut session), vec![(10, 0, 1), (11, 1, 0)]);
}

#[test]
fn a_frame_waits_for_the_callback_of_the_last() {
    let session = Session::new(ready(&[(10, "DP-1")]), mirror(), options(PauseMode::Never));
    let mut session = started(session);
    assert!(matches!(session.step(Reply::Elapsed(0)), Action::CreateSurfaces(_)));
    assert!(matches!(done(&mut session), Action::Attach(_)));
    assert!(matches!(session.step(Reply::Surfaces(vec![])), Action::RemoveSurfaces(_)));
    assert!(matches!(done(&mut session), Action::RemoveSurfaces(_)));
    assert!(matches!(done(&mut session), Action::Receive(_)));
    assert!(matches!(done(&mut session), Action::Draw(_)));
    assert!(matches!(done(&mut session), Action::DispatchPending));
    assert!(matches!(done(&mut session), Action::RemoveSurfaces(_)));
    assert!(matches!(done(&mut session), Action::Flush));
    assert!(matches!(done(&mut session), Action::ReadClock));
    // The callback has not come: the next round waits for it.
    assert!(matches!(session.step(Reply::Elapsed(0)), Action::CreateSurfaces(_)));
    assert!(matches!(done(&mut session), Action::Attach(_)));
    assert!(matches!(session.step(Reply::Surfaces(vec![])), Action::RemoveSurfaces(_)));
    assert!(matches!(done(&mut session), Action::Dispatch));
    assert_eq!(session.context(), Some("waiting for frame callback"));
    assert!(matches!(done(&mut session), Action::Dispatch));
    session.event(Event::FrameDone { name: 10 });
    assert!(matches!(done(&mut session), Action::RemoveSurfaces(_)));
}

#[test]
fn a_new_output_is_taken_on() {
    let session = Session::new(ready(&[(10, "DP-1")]), mirror(), options(PauseMode::Never));
    let mut session = started(session);
    described(&mut session.state, 20, "DP-2");
    match session.step(Reply::Elapsed(0)) {
        Action::CreateSurfaces(names) => assert_eq!(names, vec![20]),
        other => panic!("{other:?}"),
    }
    assert!(matches!(done(&mut session), Action::Dispatch));
    assert_eq!(session.context(), Some("waiting for hotplug configure"));
    session.event(Event::Configure { name: 20, width: 0, height: 0 });
    match done(&mut session) {
        Action::Attach(list) => {
            assert_eq!(list, vec![Attachment { name: 20, width: 1, height: 1 }])
        }
        other => panic!("{other:?}"),
    }
    assert!(!session.accepts(&Reply::Surfaces(vec![])));
    assert!(matches!(session.step(Reply::Surfaces(vec![7])), Action::RemoveSurfaces(_)));
    assert!(matches!(done(&mut session), Action::RemoveSurfaces(_)));
    match done(&mut session) {
        Action::Receive(decoders) => assert_eq!(decoders, vec![0]),
        other => panic!("{other:?}"),
    }
    match done(&mut session) {
        Action::Draw(commands) => {
            let at: Vec<(u32, usize)> = commands.iter().map(|c| (c.name, c.surface_idx)).collect();
            assert_eq!(at, vec![(10, 0), (20, 7)]);
        }
        other => panic!("{other:?}"),
    }
}

#[test]
fn a_lost_output_is_no_longer_drawn_on() {
    let session =
        Session::new(ready(&[(10, "DP-1"), (11, "DP-2")]), mirror(), options(PauseMode::Never));
    let mut session = started(session);
    assert!(matches!(session.step(Reply::Elapsed(0)), Action::CreateSurfaces(_)));
    assert!(session.listening());
    session.event(Event::Closed { name: 11 });
    assert!(matches!(done(&mut session), Action::Attach(_)));
    match session.step(Reply::Surfaces(vec![])) {
        Action::RemoveSurfaces(idxs) => assert_eq!(idxs, vec![1]),
        other => panic!("{other:?}"),
    }
    assert!(matches!(done(&mut session), Action::RemoveSurfaces(_)));
    assert!(matches!(done(&mut session), Action::Receive(_)));
    match done(&mut session) {
        Action::Draw(commands) => assert_eq!(commands.len(), 1),
        other => panic!("{other:?}"),
    }
    assert!(!session.listening());
}

#[test]
fn a_pause_only_waits() {
    let session = Session::new(ready(&[(10, "DP-1")]), mirror(), options(PauseMode::OnBattery));
    let mut session = started(session);
    assert!(matches!(session.step(Reply::Elapsed(10_000)), Action::ReadPower));
    let off = || PowerSupply {
        name: "AC".to_string(),
        online: Some("0\n".to_string()),
        capacity: None,
    };
    assert!(matches!(session.step(Reply::Power(vec![off()])), Action::Dispatch));
    assert!(session.paused);
    assert_eq!(session.context(), Some("dispatch while paused"));
    assert!(matches!(done(&mut session), Action::ReadClock));
    assert!(matches!(session.step(Reply::Elapsed(9_999)), Action::Dispatch));
    assert!(matches!(done(&mut session), Action::ReadClock));
    assert!(matches!(session.step(Reply::Elapsed(10_001)), Action::ReadPower));
    assert!(matches!(session.step(Reply::Power(vec![])), Action::CreateSurfaces(_)));
    assert!(!session.paused);
}

#[test]
fn replies_must_fit() {
    let session = Session::new(ready(&[(10, "DP-1")]), mirror(), options(PauseMode::Never));
    let session = started(session);
    assert!(session.accepts(&Reply::Elapsed(3)));
    assert!(!session.accepts(&Reply::Done));
    assert!(!session.accepts(&Reply::Power(vec![])));
}

#[test]
fn the_last_assignment_of_a_display_counts() {
    let layout = Layout::new(per_display(&[("A", "/1"), ("B", "/2"), ("A", "/3")]));
    assert_eq!(layout.paths, vec!["/1", "/2", "/3"]);
    assert_eq!(layout.decoder("A"), Some(2));
    assert_eq!(layout.decoder("B"), Some(1));
    assert_eq!(layout.decoder("C"), None);
    assert!(layout.wants("A") && !layout.wants("C"));
    let all = Layout::new(mirror());
    assert!(all.wants("anything"));
    assert_eq!(all.decoder("anything"), Some(0));
}

#[test]
fn decoder_threads_go_by_their_video() {
    assert_eq!(thread_name("/videos/clip.mp4"), "decoder:clip.mp4");
    assert_eq!(thread_name("https://x/y/live.m3u8"), "decoder:live.m3u8");
    assert_eq!(thread_name(".."), "decoder:..");
}
