use phonto::backend::wayland::outputs::{Answer, Event, OutputEvent, State};

fn global(name: u32, interface: &str, version: u32) -> Event {
    Event::Global { name, interface: interface.to_string(), version }
}

fn named(name: u32, id: &str) -> Event {
    Event::Output { name, event: OutputEvent::Name(id.to_string()) }
}

#[test]
fn globals_are_bound_at_version_four_at_most() {
    let mut state = State::new();
    assert!(matches!(
        state.event(global(1, "wl_compositor", 6)),
        Answer::BindCompositor { version: 4 }
    ));
    assert!(matches!(
        state.event(global(2, "zwlr_layer_shell_v1", 3)),
        Answer::BindLayerShell { version: 3 }
    ));
    assert!(matches!(state.event(global(3, "wl_output", 4)), Answer::BindOutput { version: 4 }));
    assert!(matches!(state.event(global(4, "wl_seat", 4)), Answer::Nothing));
    assert!(state.has_compositor && state.has_layer_shell);
    assert_eq!(state.names(), vec![3]);
}

#[test]
fn outputs_are_described() {
    let mut state = State::new();
    state.event(global(3, "wl_output", 4));
    state.event(Event::Output {
        name: 3,
        event: OutputEvent::Geometry { make: "A".to_string(), model: "".to_string() },
    });
    state.event(named(3, "DP-1"));
    state.event(Event::Output {
        name: 3,
        event: OutputEvent::Mode { current: true, width: -5, height: 1080 },
    });
    state.event(Event::Output { name: 3, event: OutputEvent::Done });
    let o = &state.outputs[&3];
    assert_eq!((o.name.as_str(), o.description.as_str()), ("DP-1", "A"));
    assert_eq!((o.width, o.height, o.output_done), (0, 1080, true));
    state.event(Event::Configure { name: 3, width: 0, height: 7 });
    assert_eq!((state.outputs[&3].width, state.outputs[&3].configured), (0, true));
    state.event(Event::Configure { name: 3, width: 6, height: 7 });
    assert_eq!((state.outputs[&3].width, state.outputs[&3].height), (6, 7));
}

#[test]
fn a_lost_output_detaches_its_surface() {
    let mut state = State::new();
    state.event(global(3, "wl_output", 4));
    let mut o = state.take(3).unwrap();
    o.surface_idx = Some(5);
    state.put(3, o);
    match state.event(Event::Closed { name: 3 }) {
        Answer::Removed { message } => assert_eq!(message, "layer surface closed: wl_output#3"),
        other => panic!("{other:?}"),
    }
    assert_eq!(state.detached_surface_idxs, vec![5]);
    assert!(matches!(state.event(Event::GlobalRemove { name: 3 }), Answer::Nothing));
    assert_eq!(state.remove_detached_surfaces(), vec![5]);
    assert_eq!(state.remove_detached_surfaces(), Vec::<usize>::new());
}

#[test]
fn a_lost_output_goes_by_its_name() {
    let mut state = State::new();
    state.event(global(3, "wl_output", 4));
    state.event(named(3, "DP-1"));
    match state.event(Event::GlobalRemove { name: 3 }) {
        Answer::Removed { message } => assert_eq!(message, "output removed: DP-1"),
        other => panic!("{other:?}"),
    }
    assert!(state.detached_surface_idxs.is_empty());
}

#[test]
fn unknown_outputs_are_ignored() {
    let mut state = State::new();
    for event in [
        named(9, "x"),
        Event::Configure { name: 9, width: 1, height: 1 },
        Event::FrameDone { name: 9 },
        Event::Other,
    ] {
        assert!(matches!(state.event(event), Answer::Nothing));
    }
    assert!(state.outputs.is_empty());
}

#[test]
fn outputs_are_listed_by_name() {
    let mut state = State::new();
    for (n, id) in [(1, "HDMI-1"), (2, "DP-2"), (3, "DP-1")] {
        state.event(global(n, "wl_output", 4));
        state.event(named(n, id));
    }
    let ids: Vec<String> = state.list_displays().into_iter().map(|d| d.id).collect();
    assert_eq!(ids, vec!["DP-1", "DP-2", "HDMI-1"]);
    assert_eq!(state.in_order(&vec![1, 2, 3]), vec![3, 2, 1]);
}
