//! A run of the wallpaper on the outputs of the compositor, step by step.
//!
//! A [`Session`] decides; whoever drives it acts. Each call of [`Session::step`] takes the
//! outcome of the last action and hands out the next one. While an action lets the
//! compositor speak, its events go to [`Session::event`].
use vstd::prelude::*;

use crate::backend;
use crate::backend::wayland::battery_observer;
use crate::backend::wayland::battery_observer::PowerSupply;
use crate::backend::wayland::layout;
use crate::backend::wayland::layout::{Layout, LayoutText};
use crate::backend::wayland::outputs;
use crate::backend::wayland::outputs::{Answer, Event, OutputState, OutputText, State, StateText};
use crate::backend::{PauseMode, RunOptions};
use crate::plan::{Playback, PlaybackText};
use crate::scale::ScaleMode;
use crate::seqs;
use crate::text;

verus! {

/// The power supplies are read again once this much time has passed.
pub const BATTERY_POLL_MILLIS: u64 = 10_000;

/// Where a session stands: what it waits for.
#[derive(Debug, Clone, Copy, PartialEq, Eq, Structural)]
pub enum Phase {
    /// Nothing has been done yet.
    Starting,
    /// The first layer surfaces are to be configured.
    Configuring,
    /// The renderer is to take the first surfaces on.
    Attaching,
    /// The decoders are to be started.
    Launching,
    /// The power supplies are read for the first time.
    FirstPower,
    /// A round begins: how long ago were the power supplies read?
    Clock,
    /// The power supplies are read again.
    Polling,
    /// Playback is paused.
    Paused,
    /// The layer surfaces on new outputs are to be configured.
    HotConfiguring,
    /// The renderer is to take on the surfaces of new outputs.
    HotAttaching,
    /// The frame callbacks of the last round are to come.
    AwaitingFrames,
    /// The surfaces of lost outputs have been let go; frames are to be fetched.
    Grouping,
    /// The decoders are to hand out a frame each.
    Receiving,
    /// The frames are to be drawn.
    Drawing,
    /// The compositor may speak after the drawing.
    Settling,
    /// The surfaces of outputs lost in this round are let go.
    Tidying,
    /// What was drawn is on its way to the compositor.
    Flushing,
    /// The session has ended.
    Over,
}

/// Why a session ends by itself.
#[derive(Debug, Clone, Copy, PartialEq, Eq, Structural)]
pub enum RunError {
    MissingCompositor,
    MissingLayerShell,
    NoMatchingOutputs,
    OutputsDisappeared,
}

impl RunError {
    /// The message that tells the user what is wrong.
    pub open spec fn text(self) -> Seq<char> {
        match self {
            RunError::MissingCompositor => "wl_compositor missing"@,
            RunError::MissingLayerShell => "zwlr_layer_shell_v1 missing"@,
            RunError::NoMatchingOutputs => "no matching wl_outputs to render on"@,
            RunError::OutputsDisappeared =>
                "all matching wl_outputs disappeared before configuring"@,
        }
    }

    /// The message that tells the user what is wrong.
    pub fn message(&self) -> (r: &'static str)
        ensures
            r@ == self.text(),
    {
        match self {
            RunError::MissingCompositor => "wl_compositor missing",
            RunError::MissingLayerShell => "zwlr_layer_shell_v1 missing",
            RunError::NoMatchingOutputs => "no matching wl_outputs to render on",
            RunError::OutputsDisappeared =>
                "all matching wl_outputs disappeared before configuring",
        }
    }
}

/// An output whose surface the renderer is to take on, at this size.
#[derive(Debug, Clone, Copy, PartialEq, Eq, Structural)]
pub struct Attachment {
    pub name: u32,
    pub width: u32,
    pub height: u32,
}

/// A frame to be drawn: that of a decoder, on a surface of the renderer, at this size.
#[derive(Debug, Clone, Copy, PartialEq, Eq, Structural)]
pub struct DrawCommand {
    pub name: u32,
    pub surface_idx: usize,
    pub decoder_idx: usize,
    pub width: u32,
    pub height: u32,
    pub scale: ScaleMode,
}

/// What is to be done next.
#[derive(Debug)]
pub enum Action {
    /// The run ends with this error.
    Fail(RunError),
    /// Create a layer surface on each of the outputs.
    CreateSurfaces(Vec<u32>),
    /// Wait for the compositor to speak.
    Dispatch,
    /// Hand the surfaces to the renderer, in order. The first surfaces of a session make
    /// the renderer.
    Attach(Vec<Attachment>),
    /// Start a decoder for each video of the layout.
    StartDecoders,
    /// Read the power supplies, and start the clock anew.
    ReadPower,
    /// Tell how long ago the power supplies were read.
    ReadClock,
    /// Let the renderer drop these surfaces.
    RemoveSurfaces(Vec<usize>),
    /// Fetch one frame from each of the decoders.
    Receive(Vec<usize>),
    /// Ask for a frame callback and draw, for each command in order.
    Draw(Vec<DrawCommand>),
    /// Take in what the compositor has said already.
    DispatchPending,
    /// Send what is queued to the compositor.
    Flush,
}

/// An [`Action`] as plain values.
pub enum ActionText {
    Fail(RunError),
    CreateSurfaces(Seq<u32>),
    Dispatch,
    Attach(Seq<Attachment>),
    StartDecoders,
    ReadPower,
    ReadClock,
    RemoveSurfaces(Seq<usize>),
    Receive(Seq<usize>),
    Draw(Seq<DrawCommand>),
    DispatchPending,
    Flush,
}

impl View for Action {
    type V = ActionText;

    open spec fn view(&self) -> ActionText {
        match self {
            Action::Fail(e) => ActionText::Fail(*e),
            Action::CreateSurfaces(names) => ActionText::CreateSurfaces(names@),
            Action::Dispatch => ActionText::Dispatch,
            Action::Attach(list) => ActionText::Attach(list@),
            Action::StartDecoders => ActionText::StartDecoders,
            Action::ReadPower => ActionText::ReadPower,
            Action::ReadClock => ActionText::ReadClock,
            Action::RemoveSurfaces(idxs) => ActionText::RemoveSurfaces(idxs@),
            Action::Receive(decoders) => ActionText::Receive(decoders@),
            Action::Draw(commands) => ActionText::Draw(commands@),
            Action::DispatchPending => ActionText::DispatchPending,
            Action::Flush => ActionText::Flush,
        }
    }
}

/// What came of the last action.
pub enum Reply {
    Done,
    /// The surfaces under which the renderer has taken the outputs on, in order. The
    /// surface that made the renderer is number 0 and is not among them.
    Surfaces(Vec<usize>),
    /// The power supplies of the machine.
    Power(Vec<PowerSupply>),
    /// The milliseconds since the power supplies were read.
    Elapsed(u64),
}

/// A run of the wallpaper.
pub struct Session {
    pub state: State,
    pub layout: Layout,
    pub options: RunOptions,
    /// The outputs that are drawn on.
    pub chosen: Vec<u32>,
    /// New outputs that are not drawn on yet.
    pub fresh: Vec<u32>,
    pub paused: bool,
    pub phase: Phase,
}

/// A [`Session`] as plain values.
pub struct SessionText {
    pub state: StateText,
    pub layout: LayoutText,
    pub options: RunOptions,
    pub chosen: Seq<u32>,
    pub fresh: Seq<u32>,
    pub paused: bool,
    pub phase: Phase,
}

impl View for Session {
    type V = SessionText;

    open spec fn view(&self) -> SessionText {
        SessionText {
            state: self.state@,
            layout: self.layout@,
            options: self.options,
            chosen: self.chosen@,
            fresh: self.fresh@,
            paused: self.paused,
            phase: self.phase,
        }
    }
}

/// `names` lists exactly the outputs that the layout wants, each once.
pub open spec fn lists_wanted(
    names: Seq<u32>,
    outputs: Map<u32, OutputText>,
    layout: LayoutText,
) -> bool {
    &&& names.no_duplicates()
    &&& forall|n: u32| #[trigger]
        names.contains(n) <==> outputs.contains_key(n) && layout.wants(outputs[n].name)
}

/// `names` lists exactly the outputs that the layout wants, that are described to the end
/// and that carry no layer surface yet, each once.
pub open spec fn lists_fresh(
    names: Seq<u32>,
    outputs: Map<u32, OutputText>,
    layout: LayoutText,
) -> bool {
    &&& names.no_duplicates()
    &&& forall|n: u32| #[trigger]
        names.contains(n) <==> outputs.contains_key(n) && is_fresh(outputs[n], layout)
}

/// An output that is to be taken on: wanted, described to the end, without a layer surface.
pub open spec fn is_fresh(o: OutputText, layout: LayoutText) -> bool {
    o.output_done && !o.has_surface && layout.wants(o.name)
}

/// An output with a layer surface and its decoder.
pub open spec fn surfaced_output(o: OutputText, layout: LayoutText) -> OutputText {
    OutputText { has_surface: true, decoder_idx: layout.decoder(o.name), ..o }
}

/// The outputs once the named ones carry layer surfaces.
pub open spec fn surfaced(
    outputs: Map<u32, OutputText>,
    names: Seq<u32>,
    layout: LayoutText,
) -> Map<u32, OutputText> {
    outputs.map_entries(
        |n: u32, o: OutputText|
            if names.contains(n) {
                surfaced_output(o, layout)
            } else {
                o
            },
    )
}

/// The outputs once the renderer has taken the named ones on.
pub open spec fn attached(
    outputs: Map<u32, OutputText>,
    names: Seq<u32>,
    idxs: Seq<usize>,
) -> Map<u32, OutputText> {
    outputs.map_entries(
        |n: u32, o: OutputText|
            if names.contains(n) {
                OutputText { surface_idx: Some(idxs[names.index_of(n)]), ..o }
            } else {
                o
            },
    )
}

/// A side that is at least one pixel long.
pub open spec fn at_least_one(side: u32) -> u32 {
    if side == 0 {
        1
    } else {
        side
    }
}

/// The attachment of one output.
pub open spec fn attachment(n: u32, outputs: Map<u32, OutputText>) -> Attachment {
    Attachment {
        name: n,
        width: at_least_one(outputs[n].width),
        height: at_least_one(outputs[n].height),
    }
}

/// The attachments of the named outputs, in order.
pub open spec fn attachments(names: Seq<u32>, outputs: Map<u32, OutputText>) -> Seq<Attachment> {
    names.map_values(|n: u32| attachment(n, outputs))
}

/// The output is there and a decoder feeds it.
pub open spec fn fed(n: u32, outputs: Map<u32, OutputText>) -> bool {
    outputs.contains_key(n) && outputs[n].decoder_idx is Some
}

/// The decoders that feed the named outputs, each once, in the order in which they first
/// come up.
pub open spec fn decoders_of(names: Seq<u32>, outputs: Map<u32, OutputText>) -> Seq<usize>
    decreases names.len(),
{
    if names.len() == 0 {
        Seq::empty()
    } else {
        let before = decoders_of(names.drop_last(), outputs);
        let n = names.last();
        if fed(n, outputs) && !before.contains(outputs[n].decoder_idx->0) {
            before.push(outputs[n].decoder_idx->0)
        } else {
            before
        }
    }
}

/// What is drawn on one output.
pub open spec fn command(n: u32, outputs: Map<u32, OutputText>, scale: ScaleMode) -> DrawCommand {
    DrawCommand {
        name: n,
        surface_idx: outputs[n].surface_idx->0,
        decoder_idx: outputs[n].decoder_idx->0,
        width: at_least_one(outputs[n].width),
        height: at_least_one(outputs[n].height),
        scale,
    }
}

/// What is drawn of one decoder's frame, in the order of the names.
pub open spec fn group(
    names: Seq<u32>,
    outputs: Map<u32, OutputText>,
    scale: ScaleMode,
    decoder: usize,
) -> Seq<DrawCommand>
    decreases names.len(),
{
    if names.len() == 0 {
        Seq::empty()
    } else {
        let before = group(names.drop_last(), outputs, scale, decoder);
        let n = names.last();
        if fed(n, outputs) && outputs[n].decoder_idx == Some(decoder) {
            before.push(command(n, outputs, scale))
        } else {
            before
        }
    }
}

/// What is drawn of the frames of these decoders, one decoder after the other.
pub open spec fn draws(
    decoders: Seq<usize>,
    names: Seq<u32>,
    outputs: Map<u32, OutputText>,
    scale: ScaleMode,
) -> Seq<DrawCommand>
    decreases decoders.len(),
{
    if decoders.len() == 0 {
        Seq::empty()
    } else {
        draws(decoders.drop_last(), names, outputs, scale) + group(
            names,
            outputs,
            scale,
            decoders.last(),
        )
    }
}

/// The outputs once a frame callback has been asked for on each that is drawn on.
pub open spec fn marked(outputs: Map<u32, OutputText>, names: Seq<u32>) -> Map<u32, OutputText> {
    outputs.map_entries(
        |n: u32, o: OutputText|
            if names.contains(n) && o.decoder_idx is Some {
                OutputText { frame_callback_pending: true, ..o }
            } else {
                o
            },
    )
}

/// The compositor may speak.
pub open spec fn listens(phase: Phase) -> bool {
    phase == Phase::Configuring || phase == Phase::Paused || phase == Phase::HotConfiguring || phase
        == Phase::AwaitingFrames || phase == Phase::Settling
}

/// New outputs are being taken on.
pub open spec fn is_hot(phase: Phase) -> bool {
    phase == Phase::HotConfiguring || phase == Phase::HotAttaching
}

/// The renderer and the decoders are not there yet, or no longer.
pub open spec fn is_early(phase: Phase) -> bool {
    phase == Phase::Starting || phase == Phase::Configuring || phase == Phase::Attaching || phase
        == Phase::Over
}

/// A round is under way that ends with frames on the outputs.
pub open spec fn is_round(phase: Phase) -> bool {
    is_hot(phase) || phase == Phase::AwaitingFrames || phase == Phase::Grouping || phase
        == Phase::Receiving || phase == Phase::Drawing || phase == Phase::Settling || phase
        == Phase::Tidying || phase == Phase::Flushing
}

/// The named outputs that are there are fed by decoders that are there.
pub open spec fn fed_within(names: Seq<u32>, outputs: Map<u32, OutputText>, limit: int) -> bool {
    forall|n: u32| #[trigger]
        names.contains(n) && fed(n, outputs) ==> outputs[n].decoder_idx->0 < limit
}

/// The named outputs are all there.
pub open spec fn all_live(names: Seq<u32>, outputs: Map<u32, OutputText>) -> bool {
    forall|n: u32| #[trigger] names.contains(n) ==> outputs.contains_key(n)
}

/// The named outputs all carry layer surfaces.
pub open spec fn all_surfaced(names: Seq<u32>, outputs: Map<u32, OutputText>) -> bool {
    forall|n: u32| #[trigger] names.contains(n) ==> outputs[n].has_surface
}

impl SessionText {
    /// What holds of a session between steps.
    pub open spec fn wf(self) -> bool {
        let outputs = self.state.outputs;
        let limit = self.layout.paths.len() as int;
        &&& self.layout.wf()
        &&& self.phase != Phase::Starting && self.phase != Phase::Over ==> fed_within(
            self.chosen,
            outputs,
            limit,
        )
        &&& self.phase == Phase::Configuring || self.phase == Phase::Attaching
            ==> self.chosen.no_duplicates()
        &&& self.phase == Phase::Attaching ==> self.chosen.len() > 0 && all_live(
            self.chosen,
            outputs,
        )
        &&& is_hot(self.phase) ==> self.fresh.no_duplicates() && fed_within(
            self.fresh,
            outputs,
            limit,
        )
        &&& self.phase == Phase::HotAttaching ==> all_live(self.fresh, outputs)
        &&& !is_early(self.phase) ==> forall|n: u32| #[trigger]
            self.chosen.contains(n) && fed(n, outputs) ==> outputs[n].surface_idx is Some || (
            is_hot(self.phase) && self.fresh.contains(n))
        &&& is_round(self.phase) || is_early(self.phase) || self.phase == Phase::Launching
            || self.phase == Phase::FirstPower ==> !self.paused
        &&& self.phase == Phase::Grouping || self.phase == Phase::Receiving
            ==> !outputs::awaits_frame(outputs)
    }

    /// The session with other outputs.
    pub open spec fn with_outputs(self, outputs: Map<u32, OutputText>) -> SessionText {
        SessionText { state: StateText { outputs, ..self.state }, ..self }
    }

    /// The session in another phase.
    pub open spec fn in_phase(self, phase: Phase) -> SessionText {
        SessionText { phase, ..self }
    }

    /// The session once the renderer has dropped the surfaces of lost outputs.
    pub open spec fn tidied(self) -> SessionText {
        SessionText { state: StateText { detached: Seq::empty(), ..self.state }, ..self }
    }
}

/// The reply answers what the session waits for. Surfaces of the renderer can only be made
/// of outputs that carry layer surfaces.
pub open spec fn fits(s: SessionText, reply: Reply) -> bool {
    let outputs = s.state.outputs;
    match s.phase {
        Phase::Configuring => {
            let names = outputs::live(s.chosen, outputs);
            reply is Done && (outputs::awaits_configure(names, outputs) || all_surfaced(
                names,
                outputs,
            ))
        },
        Phase::HotConfiguring => {
            let names = outputs::live(s.fresh, outputs);
            reply is Done && (outputs::awaits_configure(names, outputs) || all_surfaced(
                names,
                outputs,
            ))
        },
        Phase::Attaching => reply matches Reply::Surfaces(idxs) && idxs@.len() + 1
            == s.chosen.len(),
        Phase::HotAttaching => reply matches Reply::Surfaces(idxs) && idxs@.len()
            == s.fresh.len(),
        Phase::FirstPower | Phase::Polling => reply is Power,
        Phase::Clock => reply is Elapsed,
        Phase::Over => false,
        _ => reply is Done,
    }
}

/// The power supplies ask for a pause.
pub open spec fn pause_asked(mode: PauseMode, supplies: Seq<PowerSupply>) -> bool {
    let texts = battery_observer::supply_texts(supplies);
    backend::pauses(
        mode,
        battery_observer::runs_on_battery(texts),
        battery_observer::charge(texts),
    )
}

/// The start: the outputs that are wanted, in the order of their names, get layer surfaces.
pub open spec fn started(s: SessionText, t: SessionText, action: ActionText) -> bool {
    let outputs = s.state.outputs;
    if !s.state.has_compositor {
        action == ActionText::Fail(RunError::MissingCompositor) && t == s.in_phase(Phase::Over)
    } else if !s.state.has_layer_shell {
        action == ActionText::Fail(RunError::MissingLayerShell) && t == s.in_phase(Phase::Over)
    } else {
        let s = SessionText { chosen: t.chosen, ..s };
        &&& lists_wanted(t.chosen, outputs, s.layout)
        &&& outputs::in_name_order(outputs, t.chosen)
        &&& if t.chosen.len() == 0 {
            action == ActionText::Fail(RunError::NoMatchingOutputs) && t == s.in_phase(Phase::Over)
        } else {
            action == ActionText::CreateSurfaces(t.chosen) && t == s.with_outputs(
                surfaced(outputs, t.chosen, s.layout),
            ).in_phase(Phase::Configuring)
        }
    }
}

/// The first layer surfaces: all must be configured; outputs that are gone drop out.
pub open spec fn configuring(s: SessionText, t: SessionText, action: ActionText) -> bool {
    let outputs = s.state.outputs;
    let names = outputs::live(s.chosen, outputs);
    let s = SessionText { chosen: names, ..s };
    if outputs::awaits_configure(names, outputs) {
        action == ActionText::Dispatch && t == s
    } else if names.len() == 0 {
        action == ActionText::Fail(RunError::OutputsDisappeared) && t == s.in_phase(Phase::Over)
    } else {
        action == ActionText::Attach(attachments(names, outputs)) && t == s.in_phase(
            Phase::Attaching,
        )
    }
}

/// A round: where playback is not paused, new outputs get layer surfaces first.
pub open spec fn round(s: SessionText, t: SessionText, action: ActionText) -> bool {
    let outputs = s.state.outputs;
    if s.paused {
        action == ActionText::Dispatch && t == s.in_phase(Phase::Paused)
    } else {
        let s = SessionText { fresh: t.fresh, ..s };
        &&& lists_fresh(t.fresh, outputs, s.layout)
        &&& action == ActionText::CreateSurfaces(t.fresh)
        &&& t == s.with_outputs(surfaced(outputs, t.fresh, s.layout)).in_phase(
            Phase::HotConfiguring,
        )
    }
}

/// The layer surfaces on new outputs: all must be configured; outputs that are gone drop out.
pub open spec fn hot_configuring(s: SessionText, t: SessionText, action: ActionText) -> bool {
    let outputs = s.state.outputs;
    let names = outputs::live(s.fresh, outputs);
    let s = SessionText { fresh: names, ..s };
    if outputs::awaits_configure(names, outputs) {
        action == ActionText::Dispatch && t == s
    } else {
        action == ActionText::Attach(attachments(names, outputs)) && t == s.in_phase(
            Phase::HotAttaching,
        )
    }
}

/// One step: from `s`, on a reply, to `t` with the next action.
pub open spec fn step(s: SessionText, reply: Reply, t: SessionText, action: ActionText) -> bool {
    let outputs = s.state.outputs;
    match s.phase {
        Phase::Starting => started(s, t, action),
        Phase::Configuring => configuring(s, t, action),
        Phase::Attaching => {
            &&& action == ActionText::StartDecoders
            &&& t == s.with_outputs(
                attached(outputs, s.chosen, seq![0usize] + reply->Surfaces_0@),
            ).in_phase(Phase::Launching)
        },
        Phase::Launching => action == ActionText::ReadPower && t == s.in_phase(Phase::FirstPower),
        Phase::FirstPower => {
            &&& action == ActionText::ReadClock
            &&& t == SessionText {
                paused: pause_asked(s.options.pause, reply->Power_0@),
                ..s.in_phase(Phase::Clock)
            }
        },
        Phase::Clock => if reply->Elapsed_0 >= BATTERY_POLL_MILLIS {
            action == ActionText::ReadPower && t == s.in_phase(Phase::Polling)
        } else {
            round(s, t, action)
        },
        Phase::Polling => round(
            SessionText { paused: pause_asked(s.options.pause, reply->Power_0@), ..s },
            t,
            action,
        ),
        Phase::Paused => action == ActionText::ReadClock && t == s.in_phase(Phase::Clock),
        Phase::HotConfiguring => hot_configuring(s, t, action),
        Phase::HotAttaching => {
            &&& action == ActionText::RemoveSurfaces(s.state.detached)
            &&& t == SessionText { chosen: s.chosen + s.fresh, ..s }.with_outputs(
                attached(outputs, s.fresh, reply->Surfaces_0@),
            ).tidied().in_phase(Phase::AwaitingFrames)
        },
        Phase::AwaitingFrames => if outputs::awaits_frame(outputs) {
            action == ActionText::Dispatch && t == s
        } else {
            action == ActionText::RemoveSurfaces(s.state.detached) && t == s.tidied().in_phase(
                Phase::Grouping,
            )
        },
        Phase::Grouping => {
            let names = outputs::live(s.chosen, outputs);
            &&& action == ActionText::Receive(decoders_of(names, outputs))
            &&& t == SessionText { chosen: names, ..s.in_phase(Phase::Receiving) }
        },
        Phase::Receiving => {
            &&& action == ActionText::Draw(
                draws(decoders_of(s.chosen, outputs), s.chosen, outputs, s.options.scale),
            )
            &&& t == s.with_outputs(marked(outputs, s.chosen)).in_phase(Phase::Drawing)
        },
        Phase::Drawing => action == ActionText::DispatchPending && t == s.in_phase(Phase::Settling),
        Phase::Settling => action == ActionText::RemoveSurfaces(s.state.detached) && t
            == s.tidied().in_phase(Phase::Tidying),
        Phase::Tidying => action == ActionText::Flush && t == s.in_phase(Phase::Flushing),
        Phase::Flushing => action == ActionText::ReadClock && t == s.in_phase(Phase::Clock),
        Phase::Over => false,
    }
}

/// The outputs that the layout wants.
fn wanted_names(state: &State, layout: &Layout) -> (r: Vec<u32>)
    ensures
        lists_wanted(r@, state@.outputs, layout@),
{
    let all = state.names();
    let ghost outputs = state@.outputs;
    let mut r: Vec<u32> = Vec::new();
    let mut i: usize = 0;
    assert(all@.take(0) =~= Seq::<u32>::empty());
    while i < all.len()
        invariant
            i <= all@.len(),
            outputs == state@.outputs,
            outputs::lists_all(all@, outputs),
            r@.no_duplicates(),
            forall|n: u32| #[trigger]
                r@.contains(n) <==> all@.take(i as int).contains(n) && layout@.wants(
                    outputs[n].name,
                ),
        decreases all@.len() - i,
    {
        let n: u32 = all[i];
        proof {
            assert(all@.contains(n));
            assert(all@.take(i + 1).drop_last() =~= all@.take(i as int));
            seqs::contains_drop_last(all@.take(i + 1));
            seqs::no_duplicates_take(all@, i + 1);
            seqs::contains_push(r@, n);
        }
        match state.outputs.get(&n) {
            Some(o) => {
                if layout.wants(o.name.as_str()) {
                    r.push(n);
                }
            },
            None => {},
        }
        i = i + 1;
    }
    assert(all@.take(i as int) =~= all@);
    assert forall|n: u32| #[trigger]
        r@.contains(n) <==> outputs.contains_key(n) && layout@.wants(outputs[n].name) by {
        assert(all@.contains(n) <==> outputs.contains_key(n));
    }
    r
}

/// The outputs that are to be taken on.
fn fresh_names(state: &State, layout: &Layout) -> (r: Vec<u32>)
    ensures
        lists_fresh(r@, state@.outputs, layout@),
{
    let all = state.names();
    let ghost outputs = state@.outputs;
    let mut r: Vec<u32> = Vec::new();
    let mut i: usize = 0;
    assert(all@.take(0) =~= Seq::<u32>::empty());
    while i < all.len()
        invariant
            i <= all@.len(),
            outputs == state@.outputs,
            outputs::lists_all(all@, outputs),
            r@.no_duplicates(),
            forall|n: u32| #[trigger]
                r@.contains(n) <==> all@.take(i as int).contains(n) && is_fresh(
                    outputs[n],
                    layout@,
                ),
        decreases all@.len() - i,
    {
        let n: u32 = all[i];
        proof {
            assert(all@.contains(n));
            assert(all@.take(i + 1).drop_last() =~= all@.take(i as int));
            seqs::contains_drop_last(all@.take(i + 1));
            seqs::no_duplicates_take(all@, i + 1);
            seqs::contains_push(r@, n);
        }
        match state.outputs.get(&n) {
            Some(o) => {
                if o.output_done && !o.has_surface && layout.wants(o.name.as_str()) {
                    r.push(n);
                }
            },
            None => {},
        }
        i = i + 1;
    }
    assert(all@.take(i as int) =~= all@);
    assert forall|n: u32| #[trigger]
        r@.contains(n) <==> outputs.contains_key(n) && is_fresh(outputs[n], layout@) by {
        assert(all@.contains(n) <==> outputs.contains_key(n));
    }
    r
}

/// Notes that the named outputs carry layer surfaces, and gives them their decoders.
fn give_surfaces(state: &mut State, names: &Vec<u32>, layout: &Layout)
    requires
        all_live(names@, old(state)@.outputs),
        names@.no_duplicates(),
    ensures
        final(state)@ == (StateText {
            outputs: surfaced(old(state)@.outputs, names@, layout@),
            ..old(state)@
        }),
{
    let ghost before = state@.outputs;
    let mut i: usize = 0;
    assert(surfaced(before, names@.take(0), layout@) =~= before);
    while i < names.len()
        invariant
            i <= names@.len(),
            before == old(state)@.outputs,
            all_live(names@, before),
            names@.no_duplicates(),
            state@ == (StateText {
                outputs: surfaced(before, names@.take(i as int), layout@),
                ..old(state)@
            }),
        decreases names@.len() - i,
    {
        let n: u32 = names[i];
        proof {
            assert(names@.contains(n));
            assert(names@.take(i + 1).drop_last() =~= names@.take(i as int));
            seqs::contains_drop_last(names@.take(i + 1));
            seqs::no_duplicates_take(names@, i + 1);
        }
        match state.take(n) {
            Some(mut o) => {
                o.has_surface = true;
                o.decoder_idx = layout.decoder(o.name.as_str());
                state.put(n, o);
                assert(o@ == surfaced_output(before[n], layout@));
            },
            None => {
                assert(false);
            },
        }
        assert(state@.outputs =~= surfaced(before, names@.take(i + 1), layout@));
        i = i + 1;
    }
    assert(names@.take(i as int) =~= names@);
}

/// Notes the surfaces under which the renderer has taken the named outputs on.
fn take_on(state: &mut State, names: &Vec<u32>, idxs: &Vec<usize>)
    requires
        all_live(names@, old(state)@.outputs),
        names@.no_duplicates(),
        names@.len() == idxs@.len(),
    ensures
        final(state)@ == (StateText {
            outputs: attached(old(state)@.outputs, names@, idxs@),
            ..old(state)@
        }),
{
    let ghost before = state@.outputs;
    let ghost upto = |i: int|
        before.map_entries(
            |n: u32, o: OutputText|
                if names@.contains(n) && names@.index_of(n) < i {
                    OutputText { surface_idx: Some(idxs@[names@.index_of(n)]), ..o }
                } else {
                    o
                },
        );
    let mut i: usize = 0;
    assert(upto(0) =~= before) by {
        assert forall|n: u32| names@.contains(n) implies names@.index_of(n) >= 0 by {
            assert(exists|k: int| 0 <= k < names@.len() && names@[k] == n);
        }
    }
    while i < names.len()
        invariant
            i <= names@.len(),
            names@.len() == idxs@.len(),
            before == old(state)@.outputs,
            all_live(names@, before),
            names@.no_duplicates(),
            upto == |i: int|
                before.map_entries(
                    |n: u32, o: OutputText|
                        if names@.contains(n) && names@.index_of(n) < i {
                            OutputText { surface_idx: Some(idxs@[names@.index_of(n)]), ..o }
                        } else {
                            o
                        },
                ),
            state@ == (StateText { outputs: upto(i as int), ..old(state)@ }),
        decreases names@.len() - i,
    {
        let n: u32 = names[i];
        proof {
            assert(names@.contains(n));
            assert(names@.index_of(n) == i) by {
                assert(names@[i as int] == n);
                assert(names@[names@.index_of(n)] == n);
            }
            assert forall|m: u32| names@.contains(m) && m != n implies names@.index_of(m) != i by {
                assert(names@[names@.index_of(m)] == m);
            }
        }
        match state.take(n) {
            Some(mut o) => {
                o.surface_idx = Some(idxs[i]);
                state.put(n, o);
                assert(o@ == OutputText { surface_idx: Some(idxs@[i as int]), ..before[n] });
            },
            None => {
                assert(false);
            },
        }
        assert(state@.outputs =~= upto(i + 1));
        i = i + 1;
    }
    assert(upto(i as int) =~= attached(before, names@, idxs@)) by {
        assert forall|n: u32| names@.contains(n) implies names@.index_of(n) < i by {
            assert(exists|k: int| 0 <= k < names@.len() && names@[k] == n);
        }
    }
}

/// A side that is at least one pixel long.
fn side(n: u32) -> (r: u32)
    ensures
        r == at_least_one(n),
{
    if n == 0 {
        1
    } else {
        n
    }
}

/// The attachments of the named outputs.
fn attach_list(state: &State, names: &Vec<u32>) -> (r: Vec<Attachment>)
    requires
        all_live(names@, state@.outputs),
    ensures
        r@ == attachments(names@, state@.outputs),
{
    let ghost want = attachments(names@, state@.outputs);
    let mut r: Vec<Attachment> = Vec::new();
    let mut i: usize = 0;
    while i < names.len()
        invariant
            i <= names@.len(),
            all_live(names@, state@.outputs),
            want == attachments(names@, state@.outputs),
            r@ == want.take(i as int),
        decreases names@.len() - i,
    {
        let n: u32 = names[i];
        assert(names@.contains(n));
        match state.outputs.get(&n) {
            Some(o) => {
                r.push(Attachment { name: n, width: side(o.width), height: side(o.height) });
            },
            None => {
                assert(false);
            },
        }
        assert(r@ =~= want.take(i + 1));
        i = i + 1;
    }
    assert(want.take(i as int) =~= want);
    r
}

/// The decoders that feed the named outputs.
fn decoder_list(state: &State, names: &Vec<u32>) -> (r: Vec<usize>)
    ensures
        r@ == decoders_of(names@, state@.outputs),
{
    let ghost outputs = state@.outputs;
    let mut r: Vec<usize> = Vec::new();
    let mut i: usize = 0;
    assert(names@.take(0) =~= Seq::<u32>::empty());
    while i < names.len()
        invariant
            i <= names@.len(),
            outputs == state@.outputs,
            r@ == decoders_of(names@.take(i as int), outputs),
        decreases names@.len() - i,
    {
        let n: u32 = names[i];
        assert(names@.take(i + 1).drop_last() =~= names@.take(i as int));
        match state.outputs.get(&n) {
            Some(o) => {
                assert(outputs.contains_key(n) && o@ == outputs[n]);
                match o.decoder_idx {
                    Some(d) => {
                        if !has_index(&r, d) {
                            r.push(d);
                        }
                    },
                    None => {},
                }
            },
            None => {},
        }
        i = i + 1;
    }
    assert(names@.take(i as int) =~= names@);
    r
}

/// Whether the list holds the number.
fn has_index(list: &Vec<usize>, d: usize) -> (r: bool)
    ensures
        r == list@.contains(d),
{
    let mut i: usize = 0;
    while i < list.len()
        invariant
            i <= list@.len(),
            forall|k: int| 0 <= k < i ==> list@[k] != d,
        decreases list@.len() - i,
    {
        if list[i] == d {
            return true;
        }
        i = i + 1;
    }
    false
}

/// Every named output that a decoder feeds has a surface of the renderer.
pub open spec fn drawable(names: Seq<u32>, outputs: Map<u32, OutputText>) -> bool {
    forall|n: u32| #[trigger]
        names.contains(n) && fed(n, outputs) ==> outputs[n].surface_idx is Some
}

/// Adds what is drawn of one decoder's frame.
fn add_group(
    state: &State,
    names: &Vec<u32>,
    scale: ScaleMode,
    decoder: usize,
    r: &mut Vec<DrawCommand>,
)
    requires
        drawable(names@, state@.outputs),
    ensures
        final(r)@ == old(r)@ + group(names@, state@.outputs, scale, decoder),
{
    let ghost outputs = state@.outputs;
    let mut i: usize = 0;
    assert(names@.take(0) =~= Seq::<u32>::empty());
    assert(r@ =~= old(r)@ + group(names@.take(0), outputs, scale, decoder));
    while i < names.len()
        invariant
            i <= names@.len(),
            outputs == state@.outputs,
            drawable(names@, outputs),
            r@ == old(r)@ + group(names@.take(i as int), outputs, scale, decoder),
        decreases names@.len() - i,
    {
        let n: u32 = names[i];
        assert(names@.contains(n));
        assert(names@.take(i + 1).drop_last() =~= names@.take(i as int));
        let ghost was = r@;
        match state.outputs.get(&n) {
            Some(o) => {
                assert(outputs.contains_key(n) && o@ == outputs[n]);
                match (o.decoder_idx, o.surface_idx) {
                    (Some(d), Some(surface_idx)) => {
                        if d == decoder {
                            r.push(
                                DrawCommand {
                                    name: n,
                                    surface_idx,
                                    decoder_idx: d,
                                    width: side(o.width),
                                    height: side(o.height),
                                    scale,
                                },
                            );
                            assert(r@.last() == command(n, outputs, scale));
                        }
                    },
                    _ => {},
                }
            },
            None => {},
        }
        assert(r@ =~= old(r)@ + group(names@.take(i + 1), outputs, scale, decoder));
        i = i + 1;
    }
    assert(names@.take(i as int) =~= names@);
}

/// What is drawn of the frames of the decoders.
fn draw_list(
    state: &State,
    names: &Vec<u32>,
    scale: ScaleMode,
    decoders: &Vec<usize>,
) -> (r: Vec<DrawCommand>)
    requires
        drawable(names@, state@.outputs),
    ensures
        r@ == draws(decoders@, names@, state@.outputs, scale),
{
    let mut r: Vec<DrawCommand> = Vec::new();
    let mut i: usize = 0;
    assert(decoders@.take(0) =~= Seq::<usize>::empty());
    while i < decoders.len()
        invariant
            i <= decoders@.len(),
            drawable(names@, state@.outputs),
            r@ == draws(decoders@.take(i as int), names@, state@.outputs, scale),
        decreases decoders@.len() - i,
    {
        assert(decoders@.take(i + 1).drop_last() =~= decoders@.take(i as int));
        add_group(state, names, scale, decoders[i], &mut r);
        i = i + 1;
    }
    assert(decoders@.take(i as int) =~= decoders@);
    r
}

/// Notes that a frame callback has been asked for on each named output that is drawn on.
fn mark(state: &mut State, names: &Vec<u32>)
    ensures
        final(state)@ == (StateText {
            outputs: marked(old(state)@.outputs, names@),
            ..old(state)@
        }),
{
    let ghost before = state@.outputs;
    let mut i: usize = 0;
    assert(marked(before, names@.take(0)) =~= before);
    while i < names.len()
        invariant
            i <= names@.len(),
            before == old(state)@.outputs,
            state@ == (StateText {
                outputs: marked(before, names@.take(i as int)),
                ..old(state)@
            }),
        decreases names@.len() - i,
    {
        let n: u32 = names[i];
        proof {
            assert(names@.take(i + 1).drop_last() =~= names@.take(i as int));
            seqs::contains_drop_last(names@.take(i + 1));
        }
        match state.take(n) {
            Some(mut o) => {
                if o.decoder_idx.is_some() {
                    o.frame_callback_pending = true;
                }
                state.put(n, o);
            },
            None => {},
        }
        assert(state@.outputs =~= marked(before, names@.take(i + 1)));
        i = i + 1;
    }
    assert(names@.take(i as int) =~= names@);
}

/// What an event leaves of a fed output: it was fed by the same decoder before, and the
/// renderer had it under the same surface.
proof fn event_keeps_feeding(s: StateText, event: Event, n: u32)
    ensures
        fed(n, outputs::after(s, event).outputs) ==> fed(n, s.outputs)
            && s.outputs[n].decoder_idx == outputs::after(s, event).outputs[n].decoder_idx
            && s.outputs[n].surface_idx == outputs::after(s, event).outputs[n].surface_idx,
{
}

impl Session {
    /// A run of `playback` on the outputs of `state`. A playback by display names at least
    /// one.
    pub fn new(state: State, playback: Playback, options: RunOptions) -> (r: Session)
        requires
            playback@ matches PlaybackText::PerDisplay(assignments) ==> assignments.len() > 0,
        ensures
            r@ == (SessionText {
                state: state@,
                layout: layout::layout_of(playback@),
                options,
                chosen: Seq::empty(),
                fresh: Seq::empty(),
                paused: false,
                phase: Phase::Starting,
            }),
            r@.wf(),
    {
        Session {
            state,
            layout: Layout::new(playback),
            options,
            chosen: Vec::new(),
            fresh: Vec::new(),
            paused: false,
            phase: Phase::Starting,
        }
    }

    /// Whether the compositor may speak.
    pub fn listening(&self) -> (r: bool)
        ensures
            r == listens(self.phase),
    {
        matches!(
            self.phase,
            Phase::Configuring | Phase::Paused | Phase::HotConfiguring | Phase::AwaitingFrames
            | Phase::Settling
        )
    }

    /// Takes in what the compositor says.
    pub fn event(&mut self, event: Event) -> (r: Answer)
        requires
            old(self)@.wf(),
            listens(old(self).phase),
        ensures
            final(self)@ == (SessionText {
                state: outputs::after(old(self)@.state, event),
                ..old(self)@
            }),
            r@ == outputs::answer(old(self)@.state, event),
            final(self)@.wf(),
    {
        let ghost before = self@.state;
        let r = self.state.event(event);
        proof {
            assert forall|n: u32| #[trigger] fed(n, self@.state.outputs) implies fed(
                n,
                before.outputs,
            ) && before.outputs[n].decoder_idx == self@.state.outputs[n].decoder_idx
                && before.outputs[n].surface_idx == self@.state.outputs[n].surface_idx by {
                event_keeps_feeding(before, event, n);
            }
        }
        r
    }

    /// Whether the reply answers what the session waits for.
    pub fn accepts(&self, reply: &Reply) -> (r: bool)
        ensures
            r == fits(self@, *reply),
    {
        match (self.phase, reply) {
            (Phase::Configuring, Reply::Done) => {
                let mut names = copied(&self.chosen);
                self.state.any_unconfigured(&mut names) || surfaces_on(&self.state, &names)
            },
            (Phase::HotConfiguring, Reply::Done) => {
                let mut names = copied(&self.fresh);
                self.state.any_unconfigured(&mut names) || surfaces_on(&self.state, &names)
            },
            (Phase::Attaching, Reply::Surfaces(idxs)) => {
                idxs.len() < self.chosen.len() && idxs.len() + 1 == self.chosen.len()
            },
            (Phase::HotAttaching, Reply::Surfaces(idxs)) => idxs.len() == self.fresh.len(),
            (Phase::FirstPower | Phase::Polling, Reply::Power(_)) => true,
            (Phase::Clock, Reply::Elapsed(_)) => true,
            (Phase::Starting | Phase::Launching | Phase::Paused | Phase::AwaitingFrames
            | Phase::Grouping | Phase::Receiving | Phase::Drawing | Phase::Settling
            | Phase::Tidying | Phase::Flushing, Reply::Done) => true,
            _ => false,
        }
    }

    /// What went wrong when the last action failed.
    pub fn context(&self) -> (r: Option<&'static str>)
        ensures
            text::str_view(r) == context_of(self.phase),
    {
        match self.phase {
            Phase::Configuring => Some("waiting for layer surface configure"),
            Phase::Paused => Some("dispatch while paused"),
            Phase::HotConfiguring => Some("waiting for hotplug configure"),
            Phase::AwaitingFrames => Some("waiting for frame callback"),
            Phase::Receiving => Some("receive decoded sample"),
            Phase::Settling => Some("dispatch pending Wayland events"),
            Phase::Flushing => Some("flush Wayland connection"),
            _ => None,
        }
    }

    /// The start.
    fn start(&mut self) -> (r: Action)
        requires
            old(self)@.wf(),
            old(self).phase == Phase::Starting,
        ensures
            started(old(self)@, final(self)@, r@),
            final(self)@.wf(),
    {
        if !self.state.has_compositor {
            self.phase = Phase::Over;
            return Action::Fail(RunError::MissingCompositor);
        }
        if !self.state.has_layer_shell {
            self.phase = Phase::Over;
            return Action::Fail(RunError::MissingLayerShell);
        }
        let wanted = wanted_names(&self.state, &self.layout);
        let ghost outputs = self@.state.outputs;
        assert forall|n: u32| wanted@.contains(n) implies #[trigger] outputs.contains_key(n) by {}
        let chosen = self.state.in_order(&wanted);
        proof {
            assert forall|n: u32| #[trigger]
                chosen@.contains(n) <==> outputs.contains_key(n) && self@.layout.wants(
                    outputs[n].name,
                ) by {
                assert(chosen@.contains(n) <==> wanted@.contains(n));
            }
        }
        if chosen.len() == 0 {
            self.chosen = chosen;
            self.phase = Phase::Over;
            return Action::Fail(RunError::NoMatchingOutputs);
        }
        give_surfaces(&mut self.state, &chosen, &self.layout);
        let names = copied(&chosen);
        self.chosen = chosen;
        self.phase = Phase::Configuring;
        Action::CreateSurfaces(names)
    }

    /// The first layer surfaces.
    fn configure(&mut self) -> (r: Action)
        requires
            old(self)@.wf(),
            old(self).phase == Phase::Configuring,
        ensures
            configuring(old(self)@, final(self)@, r@),
            final(self)@.wf(),
    {
        proof {
            outputs::live_law(self@.chosen, self@.state.outputs);
        }
        if self.state.any_unconfigured(&mut self.chosen) {
            return Action::Dispatch;
        }
        if self.chosen.len() == 0 {
            self.phase = Phase::Over;
            return Action::Fail(RunError::OutputsDisappeared);
        }
        let list = attach_list(&self.state, &self.chosen);
        self.phase = Phase::Attaching;
        Action::Attach(list)
    }

    /// The renderer has taken the first surfaces on.
    fn attach(&mut self, rest: Vec<usize>) -> (r: Action)
        requires
            old(self)@.wf(),
            old(self).phase == Phase::Attaching,
            rest@.len() + 1 == old(self)@.chosen.len(),
        ensures
            step(old(self)@, Reply::Surfaces(rest), final(self)@, r@),
            final(self)@.wf(),
    {
        let mut idxs: Vec<usize> = Vec::new();
        idxs.push(0);
        let mut i: usize = 0;
        while i < rest.len()
            invariant
                i <= rest@.len(),
                idxs@ == seq![0usize] + rest@.take(i as int),
            decreases rest@.len() - i,
        {
            idxs.push(rest[i]);
            assert(idxs@ =~= seq![0usize] + rest@.take(i + 1));
            i = i + 1;
        }
        assert(rest@.take(i as int) =~= rest@);
        take_on(&mut self.state, &self.chosen, &idxs);
        self.phase = Phase::Launching;
        Action::StartDecoders
    }

    /// A round begins.
    fn begin_round(&mut self) -> (r: Action)
        requires
            old(self)@.wf(),
            old(self).phase == Phase::Clock || old(self).phase == Phase::Polling,
        ensures
            round(old(self)@, final(self)@, r@),
            final(self)@.wf(),
    {
        if self.paused {
            self.phase = Phase::Paused;
            return Action::Dispatch;
        }
        let fresh = fresh_names(&self.state, &self.layout);
        let ghost outputs = self@.state.outputs;
        assert forall|n: u32| fresh@.contains(n) implies #[trigger] outputs.contains_key(n) by {}
        give_surfaces(&mut self.state, &fresh, &self.layout);
        let names = copied(&fresh);
        self.fresh = fresh;
        self.phase = Phase::HotConfiguring;
        Action::CreateSurfaces(names)
    }

    /// The layer surfaces on new outputs.
    fn configure_hot(&mut self) -> (r: Action)
        requires
            old(self)@.wf(),
            old(self).phase == Phase::HotConfiguring,
        ensures
            hot_configuring(old(self)@, final(self)@, r@),
            final(self)@.wf(),
    {
        proof {
            outputs::live_law(self@.fresh, self@.state.outputs);
        }
        if self.state.any_unconfigured(&mut self.fresh) {
            return Action::Dispatch;
        }
        let list = attach_list(&self.state, &self.fresh);
        self.phase = Phase::HotAttaching;
        Action::Attach(list)
    }

    /// The renderer has taken the surfaces of new outputs on.
    fn attach_hot(&mut self, idxs: Vec<usize>) -> (r: Action)
        requires
            old(self)@.wf(),
            old(self).phase == Phase::HotAttaching,
            idxs@.len() == old(self)@.fresh.len(),
        ensures
            step(old(self)@, Reply::Surfaces(idxs), final(self)@, r@),
            final(self)@.wf(),
    {
        take_on(&mut self.state, &self.fresh, &idxs);
        let ghost chosen = self.chosen@;
        let ghost entry = self@;
        let mut i: usize = 0;
        while i < self.fresh.len()
            invariant
                i <= self.fresh@.len(),
                self.chosen@ == chosen + self.fresh@.take(i as int),
                self@ == (SessionText { chosen: self.chosen@, ..entry }),
            decreases self.fresh@.len() - i,
        {
            let n: u32 = self.fresh[i];
            self.chosen.push(n);
            assert(self.chosen@ =~= chosen + self.fresh@.take(i + 1));
            i = i + 1;
        }
        assert(self.fresh@.take(i as int) =~= self.fresh@);
        proof {
            seqs::contains_add(chosen, self.fresh@);
        }
        let detached = self.state.remove_detached_surfaces();
        self.phase = Phase::AwaitingFrames;
        Action::RemoveSurfaces(detached)
    }

    /// The decoders are asked for frames.
    fn fetch(&mut self) -> (r: Action)
        requires
            old(self)@.wf(),
            old(self).phase == Phase::Grouping,
        ensures
            step(old(self)@, Reply::Done, final(self)@, r@),
            final(self)@.wf(),
    {
        proof {
            outputs::live_law(self@.chosen, self@.state.outputs);
        }
        self.state.retain_live(&mut self.chosen);
        let decoders = decoder_list(&self.state, &self.chosen);
        self.phase = Phase::Receiving;
        Action::Receive(decoders)
    }

    /// The frames are drawn.
    fn draw(&mut self) -> (r: Action)
        requires
            old(self)@.wf(),
            old(self).phase == Phase::Receiving,
        ensures
            step(old(self)@, Reply::Done, final(self)@, r@),
            final(self)@.wf(),
    {
        let decoders = decoder_list(&self.state, &self.chosen);
        let commands = draw_list(&self.state, &self.chosen, self.options.scale, &decoders);
        mark(&mut self.state, &self.chosen);
        self.phase = Phase::Drawing;
        Action::Draw(commands)
    }

    /// Takes what came of the last action, and says what is to be done next.
    pub fn step(&mut self, reply: Reply) -> (r: Action)
        requires
            old(self)@.wf(),
            fits(old(self)@, reply),
        ensures
            step(old(self)@, reply, final(self)@, r@),
            final(self)@.wf(),
    {
        match self.phase {
            Phase::Starting => self.start(),
            Phase::Configuring => self.configure(),
            Phase::Attaching => match reply {
                Reply::Surfaces(rest) => self.attach(rest),
                _ => Action::Dispatch,
            },
            Phase::Launching => {
                self.phase = Phase::FirstPower;
                Action::ReadPower
            },
            Phase::FirstPower => {
                match reply {
                    Reply::Power(supplies) => {
                        self.paused = battery_observer::should_pause(&self.options.pause, &supplies);
                    },
                    _ => {},
                }
                self.phase = Phase::Clock;
                Action::ReadClock
            },
            Phase::Clock => match reply {
                Reply::Elapsed(millis) => if millis >= BATTERY_POLL_MILLIS {
                    self.phase = Phase::Polling;
                    Action::ReadPower
                } else {
                    self.begin_round()
                },
                _ => Action::Dispatch,
            },
            Phase::Polling => {
                match reply {
                    Reply::Power(supplies) => {
                        self.paused = battery_observer::should_pause(&self.options.pause, &supplies);
                    },
                    _ => {},
                }
                self.begin_round()
            },
            Phase::Paused => {
                self.phase = Phase::Clock;
                Action::ReadClock
            },
            Phase::HotConfiguring => self.configure_hot(),
            Phase::HotAttaching => match reply {
                Reply::Surfaces(idxs) => self.attach_hot(idxs),
                _ => Action::Dispatch,
            },
            Phase::AwaitingFrames => if self.state.frame_callbacks_pending() {
                Action::Dispatch
            } else {
                self.phase = Phase::Grouping;
                Action::RemoveSurfaces(self.state.remove_detached_surfaces())
            },
            Phase::Grouping => self.fetch(),
            Phase::Receiving => self.draw(),
            Phase::Drawing => {
                self.phase = Phase::Settling;
                Action::DispatchPending
            },
            Phase::Settling => {
                self.phase = Phase::Tidying;
                Action::RemoveSurfaces(self.state.remove_detached_surfaces())
            },
            Phase::Tidying => {
                self.phase = Phase::Flushing;
                Action::Flush
            },
            Phase::Flushing => {
                self.phase = Phase::Clock;
                Action::ReadClock
            },
            Phase::Over => Action::Dispatch,
        }
    }
}

/// What went wrong when the action of a phase failed.
pub open spec fn context_of(phase: Phase) -> Option<Seq<char>> {
    match phase {
        Phase::Configuring => Some("waiting for layer surface configure"@),
        Phase::Paused => Some("dispatch while paused"@),
        Phase::HotConfiguring => Some("waiting for hotplug configure"@),
        Phase::AwaitingFrames => Some("waiting for frame callback"@),
        Phase::Receiving => Some("receive decoded sample"@),
        Phase::Settling => Some("dispatch pending Wayland events"@),
        Phase::Flushing => Some("flush Wayland connection"@),
        _ => None,
    }
}

/// A copy of the names.
fn copied(names: &Vec<u32>) -> (r: Vec<u32>)
    ensures
        r@ == names@,
{
    let mut r: Vec<u32> = Vec::new();
    let mut i: usize = 0;
    while i < names.len()
        invariant
            i <= names@.len(),
            r@ == names@.take(i as int),
        decreases names@.len() - i,
    {
        r.push(names[i]);
        assert(r@ =~= names@.take(i + 1));
        i = i + 1;
    }
    assert(names@.take(i as int) =~= names@);
    r
}

/// Whether the named outputs all carry layer surfaces.
fn surfaces_on(state: &State, names: &Vec<u32>) -> (r: bool)
    requires
        exists|list: Seq<u32>| names@ == #[trigger] outputs::live(list, state@.outputs),
    ensures
        r == all_surfaced(names@, state@.outputs),
{
    proof {
        let list = choose|list: Seq<u32>| names@ == #[trigger]
            outputs::live(list, state@.outputs);
        outputs::live_law(list, state@.outputs);
    }
    let mut i: usize = 0;
    while i < names.len()
        invariant
            i <= names@.len(),
            all_live(names@, state@.outputs),
            forall|k: int| 0 <= k < i ==> state@.outputs[#[trigger] names@[k]].has_surface,
        decreases names@.len() - i,
    {
        let n: u32 = names[i];
        assert(names@.contains(n));
        match state.outputs.get(&n) {
            Some(o) => {
                if !o.has_surface {
                    assert(!state@.outputs[n].has_surface);
                    return false;
                }
            },
            None => {
                assert(false);
            },
        }
        i = i + 1;
    }
    assert forall|n: u32| #[trigger] names@.contains(n) implies state@.outputs[n].has_surface by {
        let k = choose|k: int| 0 <= k < names@.len() && names@[k] == n;
        assert(state@.outputs[names@[k]].has_surface);
    }
    true
}

/// While playback is paused, a session waits and looks at the power supplies, and does
/// nothing else.
pub proof fn paused_law(s: SessionText, reply: Reply, t: SessionText, action: ActionText)
    requires
        s.wf(),
        fits(s, reply),
        step(s, reply, t, action),
        t.paused,
    ensures
        action is Dispatch || action is ReadClock || action is ReadPower,
        t.state == s.state,
{
}

/// A session that never pauses by its options is never paused.
pub proof fn never_paused_law(s: SessionText, reply: Reply, t: SessionText, action: ActionText)
    requires
        step(s, reply, t, action),
        s.options.pause == PauseMode::Never,
        !s.paused,
    ensures
        !t.paused,
        t.options == s.options,
{
}

/// A session ends by itself only before it has drawn anything; from then on only what it is
/// told can end it.
pub proof fn failure_law(s: SessionText, reply: Reply, t: SessionText, action: ActionText)
    requires
        step(s, reply, t, action),
    ensures
        action is Fail <==> t.phase == Phase::Over,
        action is Fail ==> s.phase == Phase::Starting || s.phase == Phase::Configuring,
{
}

/// An output that appears while the wallpaper runs is taken on in the next round, once it is
/// described to the end and if the layout wants it; it gets the decoder of the layout.
pub proof fn hotplug_law(s: SessionText, t: SessionText, names: Seq<u32>, n: u32)
    requires
        round(s, t, ActionText::CreateSurfaces(names)),
        s.state.outputs.contains_key(n),
    ensures
        names.contains(n) <==> is_fresh(s.state.outputs[n], s.layout),
        names.contains(n) ==> t.state.outputs[n].has_surface && t.state.outputs[n].decoder_idx
            == s.layout.decoder(s.state.outputs[n].name),
        !names.contains(n) ==> t.state.outputs[n] == s.state.outputs[n],
{
}

/// Each decoder that is asked for a frame is asked once, and feeds an output that is there.
pub proof fn decoders_law(names: Seq<u32>, outputs: Map<u32, OutputText>)
    ensures
        decoders_of(names, outputs).no_duplicates(),
        forall|d: usize| #[trigger]
            decoders_of(names, outputs).contains(d) <==> exists|n: u32| #[trigger]
                names.contains(n) && fed(n, outputs) && outputs[n].decoder_idx == Some(d),
    decreases names.len(),
{
    if names.len() > 0 {
        let front = names.drop_last();
        let before = decoders_of(front, outputs);
        let last = names.last();
        decoders_law(front, outputs);
        seqs::contains_drop_last(names);
        if fed(last, outputs) {
            seqs::contains_push(before, outputs[last].decoder_idx->0);
        }
        assert forall|d: usize| #[trigger]
            decoders_of(names, outputs).contains(d) <==> exists|n: u32| #[trigger]
                names.contains(n) && fed(n, outputs) && outputs[n].decoder_idx == Some(d) by {
            if before.contains(d) {
                let n = choose|n: u32| #[trigger]
                    front.contains(n) && fed(n, outputs) && outputs[n].decoder_idx == Some(d);
                assert(names.contains(n));
            }
            if decoders_of(names, outputs).contains(d) && !before.contains(d) {
                assert(names.contains(last));
            }
            if exists|n: u32| #[trigger]
                names.contains(n) && fed(n, outputs) && outputs[n].decoder_idx == Some(d) {
                let n = choose|n: u32| #[trigger]
                    names.contains(n) && fed(n, outputs) && outputs[n].decoder_idx == Some(d);
                if front.contains(n) {
                    assert(before.contains(d));
                }
            }
        }
    } else {
        assert(forall|n: u32| !names.contains(n));
    }
}

/// What is drawn of one decoder's frame.
proof fn group_facts(
    names: Seq<u32>,
    outputs: Map<u32, OutputText>,
    scale: ScaleMode,
    decoder: usize,
)
    ensures
        forall|c: DrawCommand| #[trigger]
            group(names, outputs, scale, decoder).contains(c) <==> names.contains(c.name) && fed(
                c.name,
                outputs,
            ) && c == command(c.name, outputs, scale) && c.decoder_idx == decoder,
    decreases names.len(),
{
    if names.len() > 0 {
        let front = names.drop_last();
        let last = names.last();
        group_facts(front, outputs, scale, decoder);
        seqs::contains_drop_last(names);
        seqs::contains_push(group(front, outputs, scale, decoder), command(last, outputs, scale));
        assert forall|c: DrawCommand| #[trigger]
            group(names, outputs, scale, decoder).contains(c) <==> names.contains(c.name) && fed(
                c.name,
                outputs,
            ) && c == command(c.name, outputs, scale) && c.decoder_idx == decoder by {
            assert(group(front, outputs, scale, decoder).contains(c) <==> front.contains(c.name)
                && fed(c.name, outputs) && c == command(c.name, outputs, scale) && c.decoder_idx
                == decoder);
        }
    } else {
        assert(forall|n: u32| !names.contains(n));
    }
}

/// What is drawn of the frames of these decoders: on every named output that one of them
/// feeds, and on no other, that decoder's frame.
pub proof fn draws_law(
    decoders: Seq<usize>,
    names: Seq<u32>,
    outputs: Map<u32, OutputText>,
    scale: ScaleMode,
)
    ensures
        forall|c: DrawCommand| #[trigger]
            draws(decoders, names, outputs, scale).contains(c) <==> names.contains(c.name) && fed(
                c.name,
                outputs,
            ) && c == command(c.name, outputs, scale) && decoders.contains(c.decoder_idx),
    decreases decoders.len(),
{
    if decoders.len() > 0 {
        let front = decoders.drop_last();
        draws_law(front, names, outputs, scale);
        group_facts(names, outputs, scale, decoders.last());
        seqs::contains_drop_last(decoders);
        seqs::contains_add(
            draws(front, names, outputs, scale),
            group(names, outputs, scale, decoders.last()),
        );
        assert forall|c: DrawCommand| #[trigger]
            draws(decoders, names, outputs, scale).contains(c) <==> names.contains(c.name) && fed(
                c.name,
                outputs,
            ) && c == command(c.name, outputs, scale) && decoders.contains(c.decoder_idx) by {
            assert(draws(front, names, outputs, scale).contains(c) <==> names.contains(c.name)
                && fed(c.name, outputs) && c == command(c.name, outputs, scale) && front.contains(
                c.decoder_idx,
            ));
            assert(group(names, outputs, scale, decoders.last()).contains(c) <==> names.contains(
                c.name,
            ) && fed(c.name, outputs) && c == command(c.name, outputs, scale) && c.decoder_idx
                == decoders.last());
        }
    }
}

/// A round of drawing. The frames come from decoders of the layout, each asked once; they go
/// to the outputs that are there, on their own surfaces, and to all that a decoder feeds. A
/// frame is drawn as wide and as high as its output, a side of 0 as one pixel, and scaled as
/// the options ask. An output is drawn on only after its last frame callback has come, and
/// then waits for the next. Where all outputs show one video, there is one decoder.
pub proof fn drawing_law(
    s: SessionText,
    t: SessionText,
    u: SessionText,
    decoders: Seq<usize>,
    commands: Seq<DrawCommand>,
)
    requires
        s.wf(),
        s.phase == Phase::Grouping,
        step(s, Reply::Done, t, ActionText::Receive(decoders)),
        step(t, Reply::Done, u, ActionText::Draw(commands)),
    ensures
        decoders.no_duplicates(),
        forall|d: usize| #[trigger] decoders.contains(d) ==> d < s.layout.paths.len(),
        s.layout.mirror ==> forall|d: usize| #[trigger] decoders.contains(d) ==> d == 0,
        forall|c: DrawCommand| #[trigger]
            commands.contains(c) ==> {
                &&& s.chosen.contains(c.name)
                &&& s.state.outputs.contains_key(c.name)
                &&& s.state.outputs[c.name].surface_idx == Some(c.surface_idx)
                &&& s.state.outputs[c.name].decoder_idx == Some(c.decoder_idx)
                &&& decoders.contains(c.decoder_idx)
                &&& s.state.outputs[c.name].width > 0 ==> c.width == s.state.outputs[c.name].width
                &&& s.state.outputs[c.name].width == 0 ==> c.width == 1
                &&& s.state.outputs[c.name].height > 0 ==> c.height
                    == s.state.outputs[c.name].height
                &&& s.state.outputs[c.name].height == 0 ==> c.height == 1
                &&& c.scale == s.options.scale
                &&& !s.state.outputs[c.name].frame_callback_pending
                &&& u.state.outputs.contains_key(c.name)
                &&& u.state.outputs[c.name].frame_callback_pending
            },
        forall|n: u32| #[trigger]
            s.chosen.contains(n) && s.state.outputs.contains_key(n)
                && s.state.outputs[n].decoder_idx is Some ==> exists|c: DrawCommand| #[trigger]
                commands.contains(c) && c.name == n,
        forall|n: u32| #[trigger]
            u.state.outputs.contains_key(n) <==> s.state.outputs.contains_key(n),
        forall|n: u32| #[trigger]
            s.state.outputs.contains_key(n) && !(s.chosen.contains(n)
                && s.state.outputs[n].decoder_idx is Some) ==> u.state.outputs[n]
                == s.state.outputs[n],
{
    let outputs = s.state.outputs;
    outputs::live_law(s.chosen, outputs);
    decoders_law(t.chosen, outputs);
    draws_law(decoders, t.chosen, outputs, s.options.scale);
    assert forall|d: usize| #[trigger] decoders.contains(d) implies d < s.layout.paths.len() by {
        let n = choose|n: u32| #[trigger]
            t.chosen.contains(n) && fed(n, outputs) && outputs[n].decoder_idx == Some(d);
        assert(s.chosen.contains(n));
    }
    assert forall|c: DrawCommand| #[trigger] commands.contains(c) implies {
        &&& s.chosen.contains(c.name)
        &&& outputs.contains_key(c.name)
        &&& outputs[c.name].surface_idx == Some(c.surface_idx)
        &&& outputs[c.name].decoder_idx == Some(c.decoder_idx)
        &&& decoders.contains(c.decoder_idx)
        &&& outputs[c.name].width > 0 ==> c.width == outputs[c.name].width
        &&& outputs[c.name].width == 0 ==> c.width == 1
        &&& outputs[c.name].height > 0 ==> c.height == outputs[c.name].height
        &&& outputs[c.name].height == 0 ==> c.height == 1
        &&& c.scale == s.options.scale
        &&& !outputs[c.name].frame_callback_pending
        &&& u.state.outputs.contains_key(c.name)
        &&& u.state.outputs[c.name].frame_callback_pending
    } by {
        assert(t.chosen.contains(c.name));
        assert(s.chosen.contains(c.name));
        assert(outputs.contains_key(c.name));
    }
    assert forall|n: u32| #[trigger]
        s.chosen.contains(n) && outputs.contains_key(n)
            && outputs[n].decoder_idx is Some implies exists|c: DrawCommand| #[trigger]
        commands.contains(c) && c.name == n by {
        assert(fed(n, outputs));
        assert(t.chosen.contains(n));
        assert(decoders.contains(outputs[n].decoder_idx->0));
        assert(commands.contains(command(n, outputs, s.options.scale)));
    }
    assert forall|n: u32| #[trigger]
        outputs.contains_key(n) && !(s.chosen.contains(n)
            && outputs[n].decoder_idx is Some) implies u.state.outputs[n] == outputs[n] by {
        assert(t.chosen.contains(n) ==> s.chosen.contains(n));
    }
}

/// Every reading of the power supplies decides anew whether playback is paused, the first
/// one too: never by the mode that never pauses; in the others only where some adapter is
/// there and none of them is online; with a threshold only where a battery tells a charge
/// below it. No other step begins or ends a pause.
pub proof fn power_law(s: SessionText, reply: Reply, t: SessionText, action: ActionText)
    requires
        fits(s, reply),
        step(s, reply, t, action),
    ensures
        reply matches Reply::Power(supplies) ==> {
            let texts = battery_observer::supply_texts(supplies@);
            match s.options.pause {
                PauseMode::Never => !t.paused,
                PauseMode::OnBattery => t.paused == battery_observer::runs_on_battery(texts),
                PauseMode::BelowPercent(threshold) => t.paused == (
                battery_observer::runs_on_battery(texts) && battery_observer::charge(
                    texts,
                ) is Some && battery_observer::charge(texts)->0 < threshold),
            }
        },
        !(reply is Power) ==> t.paused == s.paused,
        reply is Power <==> s.phase == Phase::FirstPower || s.phase == Phase::Polling,
{
}

/// Two readings of the same supplies under the same options leave playback in the same
/// state, whatever it was in before, and whether it is the first reading or a later one.
pub proof fn power_repeats_law(
    s: SessionText,
    t: SessionText,
    a: ActionText,
    u: SessionText,
    v: SessionText,
    b: ActionText,
    supplies: Vec<PowerSupply>,
)
    requires
        fits(s, Reply::Power(supplies)),
        fits(u, Reply::Power(supplies)),
        s.options == u.options,
        step(s, Reply::Power(supplies), t, a),
        step(u, Reply::Power(supplies), v, b),
    ensures
        t.paused == v.paused,
{
}

/// The power supplies are read once before the first round, and again in the first round
/// that begins ten seconds or more after the last reading, and in no round before. A round
/// in a pause waits for the compositor, and one outside of a pause looks for new outputs.
pub proof fn clock_law(s: SessionText, reply: Reply, t: SessionText, action: ActionText)
    requires
        fits(s, reply),
        step(s, reply, t, action),
    ensures
        reply matches Reply::Elapsed(millis) ==> (action is ReadPower <==> millis >= 10_000),
        !(reply is Elapsed) ==> (action is ReadPower <==> s.phase == Phase::Launching),
        action is ReadPower <==> t.phase == Phase::FirstPower || t.phase == Phase::Polling,
        reply matches Reply::Elapsed(millis) && millis < 10_000 ==> if s.paused {
            action is Dispatch
        } else {
            action is CreateSurfaces
        },
        s.phase == Phase::Polling ==> if t.paused {
            action is Dispatch
        } else {
            action is CreateSurfaces
        },
{
}

/// What stays as it is. A step changes neither the layout nor the options nor what the
/// compositor offers; no output comes or goes by it, and none changes its name, its
/// description, its size, or what the compositor has said of it. Once an output has a layer
/// surface it keeps it. Layer surfaces and decoders are given when surfaces are created,
/// surfaces of the renderer when it has taken outputs on, and frame callbacks are asked for
/// when frames are drawn, and at no other time. Surfaces of lost outputs are let go all at once.
pub proof fn step_keeps_law(
    s: SessionText,
    reply: Reply,
    t: SessionText,
    action: ActionText,
    n: u32,
)
    requires
        step(s, reply, t, action),
    ensures
        t.layout == s.layout,
        t.options == s.options,
        t.state.has_compositor == s.state.has_compositor,
        t.state.has_layer_shell == s.state.has_layer_shell,
        t.state.outputs.contains_key(n) <==> s.state.outputs.contains_key(n),
        s.state.outputs.contains_key(n) ==> {
            let o = s.state.outputs[n];
            let p = t.state.outputs[n];
            &&& p.name == o.name
            &&& p.description == o.description
            &&& p.width == o.width
            &&& p.height == o.height
            &&& p.output_done == o.output_done
            &&& p.configured == o.configured
            &&& o.has_surface ==> p.has_surface
            &&& !(action is CreateSurfaces) ==> p.has_surface == o.has_surface && p.decoder_idx
                == o.decoder_idx
            &&& s.phase != Phase::Attaching && s.phase != Phase::HotAttaching ==> p.surface_idx
                == o.surface_idx
            &&& !(action is Draw) ==> p.frame_callback_pending == o.frame_callback_pending
        },
        match action {
            ActionText::RemoveSurfaces(idxs) => idxs == s.state.detached && t.state.detached.len()
                == 0,
            _ => t.state.detached == s.state.detached,
        },
        s.phase != Phase::Starting && s.phase != Phase::Configuring && s.phase
            != Phase::HotAttaching && s.phase != Phase::Grouping ==> t.chosen == s.chosen,
        !(action is CreateSurfaces) && s.phase != Phase::HotConfiguring ==> t.fresh == s.fresh,
{
}

/// The start. Without a compositor or a layer shell there is an error, and so where no
/// output is wanted; else every output that the layout wants gets a layer surface and the
/// decoder of the layout, each once, in the order of the outputs' names, and no other output
/// changes.
pub proof fn start_law(s: SessionText, reply: Reply, t: SessionText, action: ActionText)
    requires
        s.phase == Phase::Starting,
        step(s, reply, t, action),
    ensures
        action == ActionText::Fail(RunError::MissingCompositor) <==> !s.state.has_compositor,
        action == ActionText::Fail(RunError::MissingLayerShell) <==> s.state.has_compositor
            && !s.state.has_layer_shell,
        action == ActionText::Fail(RunError::NoMatchingOutputs) <==> s.state.has_compositor
            && s.state.has_layer_shell && forall|n: u32| #[trigger]
            s.state.outputs.contains_key(n) ==> !s.layout.mirror
                && !s.layout.decoder_for.contains_key(s.state.outputs[n].name),
        action is Fail || action is CreateSurfaces,
        action matches ActionText::CreateSurfaces(names) ==> {
            &&& names == t.chosen
            &&& names.no_duplicates()
            &&& forall|i: int, j: int|
                0 <= i < j < names.len() ==> !text::text_before(
                    s.state.outputs[#[trigger] names[j]].name,
                    s.state.outputs[#[trigger] names[i]].name,
                )
            &&& forall|n: u32| #[trigger]
                s.state.outputs.contains_key(n) ==> (names.contains(n) <==> s.layout.mirror
                    || s.layout.decoder_for.contains_key(s.state.outputs[n].name))
            &&& forall|n: u32| #[trigger]
                s.state.outputs.contains_key(n) && names.contains(n) ==> {
                    &&& t.state.outputs[n].has_surface
                    &&& t.state.outputs[n].decoder_idx == if s.layout.mirror {
                        Some(0usize)
                    } else {
                        Some(s.layout.decoder_for[s.state.outputs[n].name])
                    }
                }
            &&& forall|n: u32| #[trigger]
                s.state.outputs.contains_key(n) && !names.contains(n) ==> t.state.outputs[n]
                    == s.state.outputs[n]
        },
{
    if s.state.has_compositor && s.state.has_layer_shell {
        let outputs = s.state.outputs;
        if t.chosen.len() == 0 {
            assert forall|n: u32| #[trigger] outputs.contains_key(n) implies !s.layout.mirror
                && !s.layout.decoder_for.contains_key(outputs[n].name) by {
                assert(!t.chosen.contains(n));
            }
        } else {
            let n = t.chosen[0];
            assert(t.chosen.contains(n));
            assert(outputs.contains_key(n));
        }
    }
}

/// What the renderer takes on: each output at its own size, a side of 0 as one pixel, and
/// only outputs that are there and configured. At the start these are the outputs that were
/// picked and are still there, later those that were new and are still there, in the order
/// in which they were picked.
pub proof fn attach_law(
    s: SessionText,
    reply: Reply,
    t: SessionText,
    list: Seq<Attachment>,
    i: int,
)
    requires
        fits(s, reply),
        step(s, reply, t, ActionText::Attach(list)),
        0 <= i < list.len(),
    ensures
        s.phase == Phase::Configuring || s.phase == Phase::HotConfiguring,
        ({
            let o = s.state.outputs[list[i].name];
            &&& s.state.outputs.contains_key(list[i].name)
            &&& o.configured
            &&& o.has_surface
            &&& o.width > 0 ==> list[i].width == o.width
            &&& o.width == 0 ==> list[i].width == 1
            &&& o.height > 0 ==> list[i].height == o.height
            &&& o.height == 0 ==> list[i].height == 1
        }),
        ({
            let asked = if s.phase == Phase::Configuring {
                s.chosen
            } else {
                s.fresh
            };
            let kept = if s.phase == Phase::Configuring {
                t.chosen
            } else {
                t.fresh
            };
            &&& kept.len() == list.len()
            &&& kept[i] == list[i].name
            &&& kept == asked.filter(|n: u32| s.state.outputs.contains_key(n))
        }),
        t.state == s.state,
{
    let outputs = s.state.outputs;
    let asked = if s.phase == Phase::Configuring {
        s.chosen
    } else {
        s.fresh
    };
    let kept = outputs::live(asked, outputs);
    outputs::live_law(asked, outputs);
    outputs::live_order_law(asked, outputs);
    assert(list.len() == kept.len());
    assert(list[i].name == kept[i]);
    assert(kept.contains(kept[i]));
    assert(!outputs::awaits_configure(kept, outputs));
    assert(outputs[kept[i]].configured);
}

/// A session waits for the compositor exactly as long as a picked output that is there is
/// not configured, or, between rounds, a frame callback is still to come.
pub proof fn waiting_law(s: SessionText, reply: Reply, t: SessionText, action: ActionText)
    requires
        step(s, reply, t, action),
    ensures
        s.phase == Phase::Configuring ==> (action is Dispatch <==> exists|n: u32| #[trigger]
            s.chosen.contains(n) && s.state.outputs.contains_key(n)
                && !s.state.outputs[n].configured),
        s.phase == Phase::Configuring ==> (action == ActionText::Fail(RunError::OutputsDisappeared)
            <==> forall|n: u32| #[trigger]
            s.chosen.contains(n) ==> !s.state.outputs.contains_key(n)),
        s.phase == Phase::HotConfiguring ==> (action is Dispatch <==> exists|n: u32| #[trigger]
            s.fresh.contains(n) && s.state.outputs.contains_key(n)
                && !s.state.outputs[n].configured),
        s.phase == Phase::AwaitingFrames ==> (action is Dispatch <==> exists|n: u32| #[trigger]
            s.state.outputs.contains_key(n) && s.state.outputs[n].frame_callback_pending),
{
    let outputs = s.state.outputs;
    if s.phase == Phase::Configuring || s.phase == Phase::HotConfiguring {
        let asked = if s.phase == Phase::Configuring {
            s.chosen
        } else {
            s.fresh
        };
        let kept = outputs::live(asked, outputs);
        outputs::live_law(asked, outputs);
        if outputs::awaits_configure(kept, outputs) {
            let i = choose|i: int|
                0 <= i < kept.len() && !outputs[#[trigger] kept[i]].configured;
            assert(kept.contains(kept[i]));
            assert(asked.contains(kept[i]));
        }
        if exists|n: u32| #[trigger]
            asked.contains(n) && outputs.contains_key(n) && !outputs[n].configured {
            let n = choose|n: u32| #[trigger]
                asked.contains(n) && outputs.contains_key(n) && !outputs[n].configured;
            assert(kept.contains(n));
            let i = choose|i: int| 0 <= i < kept.len() && kept[i] == n;
            assert(!outputs[kept[i]].configured);
        }
        if kept.len() > 0 {
            assert(kept.contains(kept[0]));
            assert(asked.contains(kept[0]));
        } else {
            assert forall|n: u32| #[trigger] asked.contains(n) implies !outputs.contains_key(n) by {
                assert(!kept.contains(n));
            }
        }
    }
}

/// The surfaces of the renderer go to the outputs in order. At the start the first output
/// gets surface 0 and the others those that were added for them; outputs that come later get
/// the surfaces that were added for them and are drawn on from then on. No other output
/// changes, and nothing else of these.
pub proof fn surfaces_law(
    s: SessionText,
    idxs: Vec<usize>,
    t: SessionText,
    action: ActionText,
    i: int,
    n: u32,
)
    requires
        s.wf(),
        fits(s, Reply::Surfaces(idxs)),
        step(s, Reply::Surfaces(idxs), t, action),
    ensures
        s.phase == Phase::Attaching ==> action == ActionText::StartDecoders && t.chosen == s.chosen,
        s.phase == Phase::Attaching ==> t.state.outputs[s.chosen[0]].surface_idx == Some(0usize),
        s.phase == Phase::Attaching && 0 < i < s.chosen.len()
            ==> t.state.outputs[s.chosen[i]].surface_idx == Some(idxs@[i - 1]),
        s.phase == Phase::Attaching && !s.chosen.contains(n) && s.state.outputs.contains_key(n)
            ==> t.state.outputs[n] == s.state.outputs[n],
        s.phase == Phase::HotAttaching ==> action == ActionText::RemoveSurfaces(s.state.detached)
            && t.chosen == s.chosen + s.fresh && t.state.detached.len() == 0,
        s.phase == Phase::HotAttaching && 0 <= i < s.fresh.len()
            ==> t.state.outputs[s.fresh[i]].surface_idx == Some(idxs@[i]),
        s.phase == Phase::HotAttaching && !s.fresh.contains(n) && s.state.outputs.contains_key(n)
            ==> t.state.outputs[n] == s.state.outputs[n],
        s.state.outputs.contains_key(n) ==> t.state.outputs[n] == (OutputText {
            surface_idx: t.state.outputs[n].surface_idx,
            ..s.state.outputs[n]
        }),
{
    let names = if s.phase == Phase::Attaching {
        s.chosen
    } else {
        s.fresh
    };
    if names.len() > 0 {
        assert(names.contains(names[0]));
        assert(names.index_of(names[0]) == 0);
    }
    if 0 <= i < names.len() {
        assert(names.contains(names[i]));
        assert(names.index_of(names[i]) == i);
    }
}

/// The rest of a round, step by step: once the frames are drawn, what the compositor has
/// said already is taken in, the surfaces of lost outputs are let go, what is queued is sent,
/// and the next round begins with a look at the clock. A pause ends in the same look.
pub proof fn round_end_law(s: SessionText, reply: Reply, t: SessionText, action: ActionText)
    requires
        step(s, reply, t, action),
    ensures
        action is Draw ==> t.phase == Phase::Drawing,
        s.phase == Phase::Drawing ==> action == ActionText::DispatchPending && t.phase
            == Phase::Settling && t.state == s.state,
        s.phase == Phase::Settling ==> action == ActionText::RemoveSurfaces(s.state.detached)
            && t.phase == Phase::Tidying && t.state.detached.len() == 0 && t.state.outputs
            == s.state.outputs,
        s.phase == Phase::Tidying ==> action == ActionText::Flush && t.phase == Phase::Flushing
            && t.state == s.state,
        s.phase == Phase::Flushing || s.phase == Phase::Paused ==> action == ActionText::ReadClock
            && t.phase == Phase::Clock && t.state == s.state,
{
}

/// Which outputs a round takes on: those that are described to the end, carry no layer surface
/// yet, and have a decoder in the layout, or any where all show one video. Each gets that
/// decoder. A round that is paused takes none on.
pub proof fn hotplug_pick_law(
    s: SessionText,
    reply: Reply,
    t: SessionText,
    names: Seq<u32>,
    n: u32,
)
    requires
        fits(s, reply),
        step(s, reply, t, ActionText::CreateSurfaces(names)),
        s.phase != Phase::Starting,
    ensures
        s.phase == Phase::Clock || s.phase == Phase::Polling,
        !t.paused,
        t.fresh == names,
        names.no_duplicates(),
        names.contains(n) <==> {
            &&& s.state.outputs.contains_key(n)
            &&& s.state.outputs[n].output_done
            &&& !s.state.outputs[n].has_surface
            &&& s.layout.mirror || s.layout.decoder_for.contains_key(s.state.outputs[n].name)
        },
        names.contains(n) ==> t.state.outputs[n].has_surface && t.state.outputs[n].decoder_idx
            == if s.layout.mirror {
            Some(0usize)
        } else {
            Some(s.layout.decoder_for[s.state.outputs[n].name])
        },
        s.state.outputs.contains_key(n) && !names.contains(n) ==> t.state.outputs[n]
            == s.state.outputs[n],
{
}

/// The way from the start into the rounds, and through a round up to its frames: the first
/// surfaces are taken on, the decoders start, the power supplies are read, the clock is
/// looked at; in a round, once new outputs are taken on, the surfaces of lost ones are let
/// go, the frame callbacks are waited for, the surfaces of outputs lost meanwhile are let go
/// too, and the decoders of the outputs that are left are asked for frames.
pub proof fn round_begin_law(s: SessionText, reply: Reply, t: SessionText, action: ActionText)
    requires
        step(s, reply, t, action),
    ensures
        s.phase == Phase::Attaching ==> action is StartDecoders && t.phase == Phase::Launching,
        s.phase == Phase::Launching ==> action is ReadPower && t.phase == Phase::FirstPower,
        s.phase == Phase::FirstPower ==> action is ReadClock && t.phase == Phase::Clock,
        s.phase == Phase::HotAttaching ==> action is RemoveSurfaces && t.phase
            == Phase::AwaitingFrames,
        s.phase == Phase::AwaitingFrames ==> (action is Dispatch && t == s || action
            is RemoveSurfaces && t.phase == Phase::Grouping),
        s.phase == Phase::Grouping ==> action is Receive && t.phase == Phase::Receiving && t.chosen
            == s.chosen.filter(|n: u32| s.state.outputs.contains_key(n)),
        s.phase == Phase::Receiving ==> action is Draw && t.phase == Phase::Drawing,
{
    outputs::live_order_law(s.chosen, s.state.outputs);
}

/// The frames of one decoder go to its outputs in the order in which those were picked, one
/// to each.
pub proof fn group_order_law(
    names: Seq<u32>,
    outputs: Map<u32, OutputText>,
    scale: ScaleMode,
    decoder: usize,
)
    ensures
        group(names, outputs, scale, decoder).map_values(|c: DrawCommand| c.name) == names.filter(
            |n: u32| outputs.contains_key(n) && outputs[n].decoder_idx == Some(decoder),
        ),
    decreases names.len(),
{
    reveal(Seq::filter);
    let picked = group(names, outputs, scale, decoder).map_values(|c: DrawCommand| c.name);
    if names.len() > 0 {
        let front = names.drop_last();
        group_order_law(front, outputs, scale, decoder);
        let before = group(front, outputs, scale, decoder).map_values(|c: DrawCommand| c.name);
        let n = names.last();
        if outputs.contains_key(n) && outputs[n].decoder_idx == Some(decoder) {
            assert(picked =~= before.push(n));
        } else {
            assert(picked =~= before);
        }
    } else {
        assert(picked =~= Seq::empty());
    }
}

/// When the compositor may speak: behind every action that waits for it, and behind none that
/// asks the renderer, a decoder, the power supplies or the clock for something.
pub proof fn listening_law(s: SessionText, reply: Reply, t: SessionText, action: ActionText)
    requires
        step(s, reply, t, action),
    ensures
        action is Dispatch || action is DispatchPending || action is CreateSurfaces ==> listens(
            t.phase,
        ),
        action is Fail || action is Attach || action is StartDecoders || action is ReadPower
            || action is ReadClock || action is Receive || action is Draw || action is Flush
            ==> !listens(t.phase),
{
}

/// What is said of an action that failed tells what the session was waiting for.
pub proof fn context_law()
    ensures
        context_of(Phase::Configuring) == Some("waiting for layer surface configure"@),
        context_of(Phase::HotConfiguring) == Some("waiting for hotplug configure"@),
        context_of(Phase::Paused) == Some("dispatch while paused"@),
        context_of(Phase::AwaitingFrames) == Some("waiting for frame callback"@),
        context_of(Phase::Receiving) == Some("receive decoded sample"@),
        context_of(Phase::Settling) == Some("dispatch pending Wayland events"@),
        context_of(Phase::Flushing) == Some("flush Wayland connection"@),
{
}

/// A session takes every answer to what it waits for: any reading of the power supplies, any
/// time, and that something is done where that is all there is to say; for surfaces, as many
/// as it asked for, where the first of a session comes by itself.
pub proof fn accepts_law(
    s: SessionText,
    supplies: Vec<PowerSupply>,
    millis: u64,
    idxs: Vec<usize>,
)
    ensures
        s.phase == Phase::FirstPower || s.phase == Phase::Polling ==> fits(
            s,
            Reply::Power(supplies),
        ),
        s.phase == Phase::Clock ==> fits(s, Reply::Elapsed(millis)),
        s.phase == Phase::Attaching ==> (fits(s, Reply::Surfaces(idxs)) <==> idxs@.len()
            == s.chosen.len() - 1),
        s.phase == Phase::HotAttaching ==> (fits(s, Reply::Surfaces(idxs)) <==> idxs@.len()
            == s.fresh.len()),
        s.phase == Phase::Starting || s.phase == Phase::Launching || s.phase == Phase::Paused
            || s.phase == Phase::AwaitingFrames || s.phase == Phase::Grouping || s.phase
            == Phase::Receiving || s.phase == Phase::Drawing || s.phase == Phase::Settling
            || s.phase == Phase::Tidying || s.phase == Phase::Flushing ==> fits(s, Reply::Done),
        s.phase == Phase::Configuring && (forall|n: u32| #[trigger]
            s.chosen.contains(n) && s.state.outputs.contains_key(n)
                ==> s.state.outputs[n].has_surface) ==> fits(s, Reply::Done),
        s.phase == Phase::HotConfiguring && (forall|n: u32| #[trigger]
            s.fresh.contains(n) && s.state.outputs.contains_key(n)
                ==> s.state.outputs[n].has_surface) ==> fits(s, Reply::Done),
{
    outputs::live_law(s.chosen, s.state.outputs);
    outputs::live_law(s.fresh, s.state.outputs);
}

/// The errors with which a session ends tell what is missing.
pub proof fn run_error_law()
    ensures
        RunError::MissingCompositor.text() == "wl_compositor missing"@,
        RunError::MissingLayerShell.text() == "zwlr_layer_shell_v1 missing"@,
        RunError::NoMatchingOutputs.text() == "no matching wl_outputs to render on"@,
        RunError::OutputsDisappeared.text()
            == "all matching wl_outputs disappeared before configuring"@,
{
}

} // verus!
