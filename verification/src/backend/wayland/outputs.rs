//! The outputs that the compositor announces, and what its events do to them.
use std::collections::HashMap;

use vstd::prelude::*;

use crate::displays;
use crate::displays::{DisplayInfo, DisplayInfoText};
use crate::seqs;
use crate::text;

verus! {

broadcast use vstd::std_specs::hash::group_hash_axioms;

/// One output of the compositor.
#[derive(Debug)]
pub struct OutputState {
    pub name: String,
    pub description: String,
    pub width: u32,
    pub height: u32,
    /// The compositor has described the output to the end.
    pub output_done: bool,
    /// The output carries a layer surface.
    pub has_surface: bool,
    /// The layer surface has been configured.
    pub configured: bool,
    /// A frame callback has been asked for and has not come yet.
    pub frame_callback_pending: bool,
    /// The surface of the renderer that draws on the output.
    pub surface_idx: Option<usize>,
    /// The decoder that feeds the output.
    pub decoder_idx: Option<usize>,
}

/// An [`OutputState`] as plain values.
pub struct OutputText {
    pub name: Seq<char>,
    pub description: Seq<char>,
    pub width: u32,
    pub height: u32,
    pub output_done: bool,
    pub has_surface: bool,
    pub configured: bool,
    pub frame_callback_pending: bool,
    pub surface_idx: Option<usize>,
    pub decoder_idx: Option<usize>,
}

impl View for OutputState {
    type V = OutputText;

    open spec fn view(&self) -> OutputText {
        OutputText {
            name: self.name@,
            description: self.description@,
            width: self.width,
            height: self.height,
            output_done: self.output_done,
            has_surface: self.has_surface,
            configured: self.configured,
            frame_callback_pending: self.frame_callback_pending,
            surface_idx: self.surface_idx,
            decoder_idx: self.decoder_idx,
        }
    }
}

/// An output of which only the existence is known.
pub open spec fn new_output() -> OutputText {
    OutputText {
        name: Seq::empty(),
        description: Seq::empty(),
        width: 1,
        height: 1,
        output_done: false,
        has_surface: false,
        configured: false,
        frame_callback_pending: false,
        surface_idx: None,
        decoder_idx: None,
    }
}

impl OutputState {
    /// An output of which only the existence is known.
    pub fn new() -> (r: OutputState)
        ensures
            r@ == new_output(),
    {
        OutputState {
            name: String::new(),
            description: String::new(),
            width: 1,
            height: 1,
            output_done: false,
            has_surface: false,
            configured: false,
            frame_callback_pending: false,
            surface_idx: None,
            decoder_idx: None,
        }
    }
}

/// What the compositor says of one output.
#[derive(Debug)]
pub enum OutputEvent {
    Name(String),
    Description(String),
    Geometry { make: String, model: String },
    /// A mode of the output; `current` is set for the one that is in use.
    Mode { current: bool, width: i32, height: i32 },
    Done,
    Other,
}

/// What the compositor says. Outputs go by the number under which the registry lists them.
#[derive(Debug)]
pub enum Event {
    /// The registry lists a new global object.
    Global { name: u32, interface: String, version: u32 },
    /// The registry no longer lists an object.
    GlobalRemove { name: u32 },
    Output { name: u32, event: OutputEvent },
    /// The layer surface on an output gets its size; a side of 0 leaves the size open.
    Configure { name: u32, width: u32, height: u32 },
    /// The layer surface on an output is gone.
    Closed { name: u32 },
    /// The frame callback of an output has come.
    FrameDone { name: u32 },
    Other,
}

/// What an event asks for in return.
#[derive(Debug)]
pub enum Answer {
    Nothing,
    /// Bind the compositor at this version.
    BindCompositor { version: u32 },
    /// Bind the layer shell at this version.
    BindLayerShell { version: u32 },
    /// Bind the output at this version.
    BindOutput { version: u32 },
    /// An output is gone; the message says which and why.
    Removed { message: String },
}

/// An [`Answer`] as plain values.
pub enum AnswerText {
    Nothing,
    BindCompositor { version: u32 },
    BindLayerShell { version: u32 },
    BindOutput { version: u32 },
    Removed { message: Seq<char> },
}

impl View for Answer {
    type V = AnswerText;

    open spec fn view(&self) -> AnswerText {
        match self {
            Answer::Nothing => AnswerText::Nothing,
            Answer::BindCompositor { version } => AnswerText::BindCompositor { version: *version },
            Answer::BindLayerShell { version } => AnswerText::BindLayerShell { version: *version },
            Answer::BindOutput { version } => AnswerText::BindOutput { version: *version },
            Answer::Removed { message } => AnswerText::Removed { message: message@ },
        }
    }
}

/// What is known of the compositor.
pub struct State {
    pub has_compositor: bool,
    pub has_layer_shell: bool,
    pub outputs: HashMap<u32, OutputState>,
    /// Surfaces of the renderer whose outputs are gone.
    pub detached_surface_idxs: Vec<usize>,
}

/// A [`State`] as plain values.
pub struct StateText {
    pub has_compositor: bool,
    pub has_layer_shell: bool,
    pub outputs: Map<u32, OutputText>,
    pub detached: Seq<usize>,
}

/// The outputs as plain values.
pub open spec fn output_texts(outputs: Map<u32, OutputState>) -> Map<u32, OutputText> {
    outputs.map_values(|o: OutputState| o@)
}

impl View for State {
    type V = StateText;

    open spec fn view(&self) -> StateText {
        StateText {
            has_compositor: self.has_compositor,
            has_layer_shell: self.has_layer_shell,
            outputs: output_texts(self.outputs@),
            detached: self.detached_surface_idxs@,
        }
    }
}

/// The highest version that is bound.
pub open spec fn bound_version(version: u32) -> u32 {
    if version < 4 {
        version
    } else {
        4
    }
}

/// A length that cannot be negative.
pub open spec fn at_least_zero(n: i32) -> u32 {
    if n < 0 {
        0
    } else {
        n as u32
    }
}

/// An output after the compositor has said more of it.
pub open spec fn output_after(o: OutputText, event: OutputEvent) -> OutputText {
    match event {
        OutputEvent::Name(name) => OutputText { name: name@, ..o },
        OutputEvent::Description(description) => OutputText { description: description@, ..o },
        OutputEvent::Geometry { make, model } => if o.description.len() == 0 {
            OutputText { description: text::trimmed(make@ + " "@ + model@), ..o }
        } else {
            o
        },
        OutputEvent::Mode { current, width, height } => if current {
            OutputText { width: at_least_zero(width), height: at_least_zero(height), ..o }
        } else {
            o
        },
        OutputEvent::Done => OutputText { output_done: true, ..o },
        OutputEvent::Other => o,
    }
}

/// An output after its layer surface has been configured.
pub open spec fn configured(o: OutputText, width: u32, height: u32) -> OutputText {
    if width > 0 && height > 0 {
        OutputText { width, height, configured: true, ..o }
    } else {
        OutputText { configured: true, ..o }
    }
}

/// The state without an output; the surface that drew on it is detached.
pub open spec fn removed(s: StateText, name: u32) -> StateText {
    if s.outputs.contains_key(name) {
        StateText {
            outputs: s.outputs.remove(name),
            detached: match s.outputs[name].surface_idx {
                Some(idx) => s.detached.push(idx),
                None => s.detached,
            },
            ..s
        }
    } else {
        s
    }
}

/// The state with one output changed, where it is known.
pub open spec fn changed(s: StateText, name: u32, f: spec_fn(OutputText) -> OutputText) -> StateText {
    if s.outputs.contains_key(name) {
        StateText { outputs: s.outputs.insert(name, f(s.outputs[name])), ..s }
    } else {
        s
    }
}

/// The state after an event.
pub open spec fn after(s: StateText, event: Event) -> StateText {
    match event {
        Event::Global { name, interface, version } => if interface@ == "wl_compositor"@ {
            StateText { has_compositor: true, ..s }
        } else if interface@ == "zwlr_layer_shell_v1"@ {
            StateText { has_layer_shell: true, ..s }
        } else if interface@ == "wl_output"@ {
            StateText { outputs: s.outputs.insert(name, new_output()), ..s }
        } else {
            s
        },
        Event::GlobalRemove { name } => removed(s, name),
        Event::Output { name, event } => changed(s, name, |o: OutputText| output_after(o, event)),
        Event::Configure { name, width, height } => changed(
            s,
            name,
            |o: OutputText| configured(o, width, height),
        ),
        Event::Closed { name } => removed(s, name),
        Event::FrameDone { name } => changed(
            s,
            name,
            |o: OutputText| OutputText { frame_callback_pending: false, ..o },
        ),
        Event::Other => s,
    }
}

/// What is said of an output that is gone.
pub open spec fn removal(s: StateText, name: u32, reason: Seq<char>) -> AnswerText {
    if s.outputs.contains_key(name) {
        let label = if s.outputs[name].name.len() == 0 {
            "wl_output#"@ + text::decimal(name as nat)
        } else {
            s.outputs[name].name
        };
        AnswerText::Removed { message: reason + ": "@ + label }
    } else {
        AnswerText::Nothing
    }
}

/// What an event asks for in return.
pub open spec fn answer(s: StateText, event: Event) -> AnswerText {
    match event {
        Event::Global { name, interface, version } => if interface@ == "wl_compositor"@ {
            AnswerText::BindCompositor { version: bound_version(version) }
        } else if interface@ == "zwlr_layer_shell_v1"@ {
            AnswerText::BindLayerShell { version: bound_version(version) }
        } else if interface@ == "wl_output"@ {
            AnswerText::BindOutput { version: bound_version(version) }
        } else {
            AnswerText::Nothing
        },
        Event::GlobalRemove { name } => removal(s, name, "output removed"@),
        Event::Closed { name } => removal(s, name, "layer surface closed"@),
        _ => AnswerText::Nothing,
    }
}

/// `width` and `height` of an output as a display.
pub open spec fn display_of(o: OutputText) -> DisplayInfoText {
    DisplayInfoText {
        id: o.name,
        description: o.description,
        width: o.width,
        height: o.height,
    }
}

/// The names stand in the order of the outputs' own names.
pub open spec fn in_name_order(outputs: Map<u32, OutputText>, names: Seq<u32>) -> bool {
    forall|i: int, j: int|
        0 <= i < j < names.len() ==> !text::text_before(
            outputs[#[trigger] names[j]].name,
            outputs[#[trigger] names[i]].name,
        )
}

/// `names` lists the outputs, each once.
pub open spec fn lists_all(names: Seq<u32>, outputs: Map<u32, OutputText>) -> bool {
    &&& names.no_duplicates()
    &&& forall|n: u32| #[trigger] names.contains(n) <==> outputs.contains_key(n)
}

/// The names without those of outputs that are gone.
pub open spec fn live(names: Seq<u32>, outputs: Map<u32, OutputText>) -> Seq<u32>
    decreases names.len(),
{
    if names.len() == 0 {
        names
    } else if outputs.contains_key(names.last()) {
        live(names.drop_last(), outputs).push(names.last())
    } else {
        live(names.drop_last(), outputs)
    }
}

/// The names that are left are those of outputs that are there.
pub proof fn live_law(names: Seq<u32>, outputs: Map<u32, OutputText>)
    ensures
        forall|n: u32| #[trigger]
            live(names, outputs).contains(n) <==> names.contains(n) && outputs.contains_key(n),
        names.no_duplicates() ==> live(names, outputs).no_duplicates(),
    decreases names.len(),
{
    if names.len() > 0 {
        let front = names.drop_last();
        live_law(front, outputs);
        seqs::contains_drop_last(names);
        if outputs.contains_key(names.last()) {
            seqs::contains_push(live(front, outputs), names.last());
        }
        assert forall|n: u32| #[trigger]
            live(names, outputs).contains(n) <==> names.contains(n) && outputs.contains_key(n) by {
            assert(live(front, outputs).contains(n) <==> front.contains(n) && outputs.contains_key(
                n,
            ));
        }
    }
}

/// The names that are left stand in the order in which they stood.
pub proof fn live_order_law(names: Seq<u32>, outputs: Map<u32, OutputText>)
    ensures
        live(names, outputs) == names.filter(|n: u32| outputs.contains_key(n)),
    decreases names.len(),
{
    reveal(Seq::filter);
    if names.len() > 0 {
        live_order_law(names.drop_last(), outputs);
    }
}

impl State {
    /// Nothing is known yet.
    pub fn new() -> (r: State)
        ensures
            r@ == (StateText {
                has_compositor: false,
                has_layer_shell: false,
                outputs: Map::empty(),
                detached: Seq::empty(),
            }),
    {
        let r = State {
            has_compositor: false,
            has_layer_shell: false,
            outputs: HashMap::new(),
            detached_surface_idxs: Vec::new(),
        };
        assert(output_texts(r.outputs@) =~= Map::empty());
        r
    }

    /// Puts an output in the place of the one of that name.
    pub fn put(&mut self, name: u32, o: OutputState)
        ensures
            final(self)@ == (StateText { outputs: old(self)@.outputs.insert(name, o@), ..old(self)@ }),
    {
        self.outputs.insert(name, o);
        assert(output_texts(self.outputs@) =~= output_texts(old(self).outputs@).insert(name, o@));
    }

    /// Takes an output out.
    pub fn take(&mut self, name: u32) -> (r: Option<OutputState>)
        ensures
            final(self)@ == (StateText { outputs: old(self)@.outputs.remove(name), ..old(self)@ }),
            r is Some == old(self)@.outputs.contains_key(name),
            r is Some ==> r->0@ == old(self)@.outputs[name],
    {
        let r = self.outputs.remove(&name);
        assert(output_texts(self.outputs@) =~= output_texts(old(self).outputs@).remove(name));
        r
    }

    /// Forgets an output, and says so with the reason.
    pub fn remove_output(&mut self, name: u32, reason: &str) -> (r: Answer)
        ensures
            final(self)@ == removed(old(self)@, name),
            r@ == removal(old(self)@, name, reason@),
    {
        match self.take(name) {
            None => {
                assert(self@.outputs =~= old(self)@.outputs);
                Answer::Nothing
            },
            Some(o) => {
                match o.surface_idx {
                    Some(idx) => {
                        self.detached_surface_idxs.push(idx);
                    },
                    None => {},
                }
                let label = if o.name.as_str().is_empty() {
                    let number = text::decimal_text(name as u64);
                    text::join2("wl_output#", number.as_str())
                } else {
                    o.name
                };
                Answer::Removed { message: text::join3(reason, ": ", label.as_str()) }
            },
        }
    }

    /// Takes in what the compositor says.
    pub fn event(&mut self, event: Event) -> (r: Answer)
        ensures
            final(self)@ == after(old(self)@, event),
            r@ == answer(old(self)@, event),
    {
        match event {
            Event::Global { name, interface, version } => {
                let version: u32 = if version < 4 {
                    version
                } else {
                    4
                };
                if text::same_text(interface.as_str(), "wl_compositor") {
                    self.has_compositor = true;
                    Answer::BindCompositor { version }
                } else if text::same_text(interface.as_str(), "zwlr_layer_shell_v1") {
                    self.has_layer_shell = true;
                    Answer::BindLayerShell { version }
                } else if text::same_text(interface.as_str(), "wl_output") {
                    self.put(name, OutputState::new());
                    Answer::BindOutput { version }
                } else {
                    Answer::Nothing
                }
            },
            Event::GlobalRemove { name } => self.remove_output(name, "output removed"),
            Event::Closed { name } => self.remove_output(name, "layer surface closed"),
            Event::Output { name, event: said } => {
                match self.take(name) {
                    None => {
                        assert(self@.outputs =~= old(self)@.outputs);
                    },
                    Some(o) => {
                        let o = update_output(o, said);
                        self.put(name, o);
                        assert(self@.outputs =~= old(self)@.outputs.insert(name, o@));
                    },
                }
                Answer::Nothing
            },
            Event::Configure { name, width, height } => {
                match self.take(name) {
                    None => {
                        assert(self@.outputs =~= old(self)@.outputs);
                    },
                    Some(mut o) => {
                        if width > 0 && height > 0 {
                            o.width = width;
                            o.height = height;
                        }
                        o.configured = true;
                        self.put(name, o);
                        assert(self@.outputs =~= old(self)@.outputs.insert(name, o@));
                    },
                }
                Answer::Nothing
            },
            Event::FrameDone { name } => {
                match self.take(name) {
                    None => {
                        assert(self@.outputs =~= old(self)@.outputs);
                    },
                    Some(mut o) => {
                        o.frame_callback_pending = false;
                        self.put(name, o);
                        assert(self@.outputs =~= old(self)@.outputs.insert(name, o@));
                    },
                }
                Answer::Nothing
            },
            Event::Other => Answer::Nothing,
        }
    }
}

impl State {
    /// The names of all outputs, in no particular order.
    pub fn names(&self) -> (r: Vec<u32>)
        ensures
            lists_all(r@, self@.outputs),
    {
        let mut r: Vec<u32> = Vec::new();
        let keys = self.outputs.keys();
        let ghost all = vstd::std_specs::iter::IteratorSpec::remaining(&keys).unref();
        for name in it: keys
            invariant
                it.seq().no_duplicates(),
                it.seq().unref() == all,
                forall|i: int| 0 <= i < all.len() ==> #[trigger] all[i] == *it.seq()[i],
                r@ == all.take(it.index() as int),
                r@.no_duplicates(),
                it.index() <= all.len(),
                it.seq().len() == all.len(),
        {
            r.push(*name);
            assert(all.take(it.index() + 1) =~= all.take(it.index() as int).push(*name));
        }
        assert(all.take(all.len() as int) =~= all);
        assert(r@ == all);
        proof {
            assert forall|n: u32| #[trigger]
                r@.contains(n) <==> self@.outputs.contains_key(n) by {
                assert(r@.contains(n) <==> r@.to_set().contains(n));
                assert(self@.outputs.contains_key(n) <==> self.outputs@.contains_key(n));
            }
        }
        r
    }

    /// Drops the names of outputs that are gone.
    pub fn retain_live(&self, names: &mut Vec<u32>)
        ensures
            final(names)@ == live(old(names)@, self@.outputs),
    {
        let mut kept: Vec<u32> = Vec::new();
        let mut i: usize = 0;
        assert(names@.take(0) =~= Seq::<u32>::empty());
        while i < names.len()
            invariant
                i <= names@.len(),
                kept@ == live(names@.take(i as int), self@.outputs),
            decreases names@.len() - i,
        {
            let n: u32 = names[i];
            assert(names@.take(i + 1).drop_last() =~= names@.take(i as int));
            assert(self@.outputs.contains_key(n) == self.outputs@.contains_key(n));
            if self.outputs.contains_key(&n) {
                kept.push(n);
            }
            i = i + 1;
        }
        assert(names@.take(i as int) =~= names@);
        *names = kept;
    }

    /// Drops the names of outputs that are gone, and tells whether a layer surface on one
    /// of the others still waits to be configured.
    pub fn any_unconfigured(&self, names: &mut Vec<u32>) -> (r: bool)
        ensures
            final(names)@ == live(old(names)@, self@.outputs),
            r == awaits_configure(final(names)@, self@.outputs),
    {
        self.retain_live(names);
        proof {
            live_law(old(names)@, self@.outputs);
        }
        let mut i: usize = 0;
        while i < names.len()
            invariant
                i <= names@.len(),
                names@ == live(old(names)@, self@.outputs),
                forall|n: u32| names@.contains(n) ==> #[trigger] self@.outputs.contains_key(n),
                forall|k: int| 0 <= k < i ==> self@.outputs[#[trigger] names@[k]].configured,
            decreases names@.len() - i,
        {
            let n: u32 = names[i];
            assert(names@.contains(n));
            assert(self@.outputs.contains_key(n));
            match self.outputs.get(&n) {
                Some(o) => {
                    if !o.configured {
                        assert(!self@.outputs[names@[i as int]].configured);
                        return true;
                    }
                },
                None => {},
            }
            i = i + 1;
        }
        false
    }

    /// Whether a frame callback is still to come.
    pub fn frame_callbacks_pending(&self) -> (r: bool)
        ensures
            r == awaits_frame(self@.outputs),
    {
        let names = self.names();
        let mut i: usize = 0;
        while i < names.len()
            invariant
                i <= names@.len(),
                lists_all(names@, self@.outputs),
                forall|k: int|
                    0 <= k < i ==> !self@.outputs[#[trigger] names@[k]].frame_callback_pending,
            decreases names@.len() - i,
        {
            let n: u32 = names[i];
            assert(names@.contains(n));
            match self.outputs.get(&n) {
                Some(o) => {
                    if o.frame_callback_pending {
                        assert(self@.outputs.contains_key(n));
                        return true;
                    }
                },
                None => {},
            }
            i = i + 1;
        }
        assert forall|n: u32| #[trigger]
            self@.outputs.contains_key(n) implies !self@.outputs[n].frame_callback_pending by {
            assert(names@.contains(n));
        }
        false
    }

    /// Hands over the surfaces whose outputs are gone.
    pub fn remove_detached_surfaces(&mut self) -> (r: Vec<usize>)
        ensures
            r@ == old(self)@.detached,
            final(self)@ == (StateText { detached: Seq::empty(), ..old(self)@ }),
    {
        let mut none: Vec<usize> = Vec::new();
        std::mem::swap(&mut none, &mut self.detached_surface_idxs);
        none
    }

    /// Puts one name into a list that stands in the order of the outputs' own names.
    fn insert_in_order(&self, names: &mut Vec<u32>, name: u32)
        requires
            forall|n: u32| old(names)@.contains(n) ==> #[trigger] self@.outputs.contains_key(n),
            self@.outputs.contains_key(name),
            in_name_order(self@.outputs, old(names)@),
        ensures
            exists|at: int|
                0 <= at <= old(names)@.len() && final(names)@ == #[trigger] old(names)@.insert(
                    at,
                    name,
                ),
            in_name_order(self@.outputs, final(names)@),
    {
        let ghost outputs = self@.outputs;
        let ghost was = names@;
        let mut at: usize = names.len();
        while at > 0 && self.name_before(name, names[at - 1])
            invariant
                at <= names@.len(),
                names@ == was,
                outputs == self@.outputs,
                outputs.contains_key(name),
                forall|n: u32| was.contains(n) ==> #[trigger] outputs.contains_key(n),
                forall|k: int|
                    at <= k < names@.len() ==> text::text_before(
                        outputs[name].name,
                        outputs[#[trigger] names@[k]].name,
                    ),
            decreases at,
        {
            at = at - 1;
        }
        names.insert(at, name);
        proof {
            let t = names@;
            assert forall|i: int, j: int| 0 <= i < j < t.len() implies !text::text_before(
                outputs[#[trigger] t[j]].name,
                outputs[#[trigger] t[i]].name,
            ) by {
                let a = if i < at { i } else { i - 1 };
                let b = if j < at { j } else { j - 1 };
                if i == at {
                    assert(t[j] == was[b]);
                    text::text_order_total(outputs[name].name, outputs[was[b]].name);
                } else if j == at {
                    assert(t[i] == was[a]);
                    if at > 0 && a < at - 1 {
                        assert(!text::text_before(outputs[was[at - 1]].name, outputs[was[a]].name));
                        if text::text_before(outputs[name].name, outputs[was[a]].name) {
                            text::text_order_total(
                                outputs[was[at - 1]].name,
                                outputs[was[a]].name,
                            );
                            if outputs[was[at - 1]].name != outputs[was[a]].name {
                                text::text_order_transitive(
                                    outputs[name].name,
                                    outputs[was[a]].name,
                                    outputs[was[at - 1]].name,
                                );
                            }
                        }
                    }
                } else {
                    assert(t[i] == was[a] && t[j] == was[b]);
                }
            }
        }
    }

    /// Whether the own name of one output stands before that of another.
    fn name_before(&self, a: u32, b: u32) -> (r: bool)
        requires
            self@.outputs.contains_key(a),
            self@.outputs.contains_key(b),
        ensures
            r == text::text_before(self@.outputs[a].name, self@.outputs[b].name),
    {
        match (self.outputs.get(&a), self.outputs.get(&b)) {
            (Some(x), Some(y)) => text::before(x.name.as_str(), y.name.as_str()),
            _ => false,
        }
    }

    /// The names in the order of the outputs' own names.
    pub fn in_order(&self, names: &Vec<u32>) -> (r: Vec<u32>)
        requires
            names@.no_duplicates(),
            forall|n: u32| names@.contains(n) ==> #[trigger] self@.outputs.contains_key(n),
        ensures
            r@.no_duplicates(),
            forall|n: u32| #[trigger] r@.contains(n) <==> names@.contains(n),
            in_name_order(self@.outputs, r@),
    {
        let mut r: Vec<u32> = Vec::new();
        let mut i: usize = 0;
        assert(names@.take(0) =~= Seq::<u32>::empty());
        while i < names.len()
            invariant
                i <= names@.len(),
                names@.no_duplicates(),
                forall|n: u32| names@.contains(n) ==> #[trigger] self@.outputs.contains_key(n),
                r@.no_duplicates(),
                forall|n: u32| #[trigger] r@.contains(n) <==> names@.take(i as int).contains(n),
                in_name_order(self@.outputs, r@),
            decreases names@.len() - i,
        {
            let n: u32 = names[i];
            let ghost was = r@;
            proof {
                assert(names@.contains(n));
                assert(names@.take(i + 1) =~= names@.take(i as int).push(n));
                seqs::contains_push(names@.take(i as int), n);
                seqs::contains_drop_last(names@.take(i + 1));
                assert(names@.take(i + 1).drop_last() =~= names@.take(i as int));
                assert forall|m: u32| was.contains(m) implies #[trigger] self@.outputs.contains_key(
                    m,
                ) by {
                    assert(names@.take(i as int).contains(m));
                    let k = choose|k: int| 0 <= k < i && names@.take(i as int)[k] == m;
                    assert(names@[k] == m);
                }
            }
            self.insert_in_order(&mut r, n);
            proof {
                let at = choose|at: int| 0 <= at <= was.len() && r@ == #[trigger] was.insert(at, n);
                seqs::contains_insert(was, at, n);
                assert(!was.contains(n));
            }
            i = i + 1;
        }
        assert(names@.take(i as int) =~= names@);
        r
    }

    /// The outputs as displays, in the order of their ids.
    pub fn list_displays(&self) -> (r: Vec<DisplayInfo>)
        ensures
            displays::sorted_by_id(displays::display_texts(r@)),
            exists|names: Seq<u32>| #[trigger]
                lists_all(names, self@.outputs) && displays::display_texts(r@).to_multiset()
                    == names.map_values(|n: u32| display_of(self@.outputs[n])).to_multiset(),
    {
        let names = self.names();
        let ghost want = names@.map_values(|n: u32| display_of(self@.outputs[n]));
        let mut all: Vec<DisplayInfo> = Vec::new();
        let mut i: usize = 0;
        assert(displays::display_texts(all@) =~= want.take(0));
        while i < names.len()
            invariant
                i <= names@.len(),
                lists_all(names@, self@.outputs),
                want == names@.map_values(|n: u32| display_of(self@.outputs[n])),
                displays::display_texts(all@) == want.take(i as int),
            decreases names@.len() - i,
        {
            let n: u32 = names[i];
            assert(names@.contains(n));
            assert(self@.outputs.contains_key(n));
            match self.outputs.get(&n) {
                Some(o) => {
                    let ghost was = all@;
                    all.push(
                        DisplayInfo {
                            id: o.name.clone(),
                            description: o.description.clone(),
                            width: o.width,
                            height: o.height,
                        },
                    );
                    assert(want[i as int] == all@.last()@);
                    assert(displays::display_texts(all@) =~= displays::display_texts(was).push(
                        want[i as int],
                    ));
                    assert(want.take(i + 1) =~= want.take(i as int).push(want[i as int]));
                },
                None => {
                    assert(false);
                },
            }
            i = i + 1;
        }
        assert(want.take(i as int) =~= want);
        displays::sort_by_id(&all)
    }
}

/// One of the outputs still waits for its layer surface to be configured.
pub open spec fn awaits_configure(names: Seq<u32>, outputs: Map<u32, OutputText>) -> bool {
    exists|i: int| 0 <= i < names.len() && !outputs[#[trigger] names[i]].configured
}

/// One of the outputs still waits for its frame callback.
pub open spec fn awaits_frame(outputs: Map<u32, OutputText>) -> bool {
    exists|n: u32| #[trigger] outputs.contains_key(n) && outputs[n].frame_callback_pending
}

/// An output after the compositor has said more of it.
pub fn update_output(o: OutputState, event: OutputEvent) -> (r: OutputState)
    ensures
        r@ == output_after(o@, event),
{
    let mut o = o;
    match event {
        OutputEvent::Name(name) => {
            o.name = name;
        },
        OutputEvent::Description(description) => {
            o.description = description;
        },
        OutputEvent::Geometry { make, model } => {
            if o.description.as_str().is_empty() {
                let both = text::join3(make.as_str(), " ", model.as_str());
                o.description = text::trim(both.as_str());
            }
        },
        OutputEvent::Mode { current, width, height } => {
            if current {
                o.width = if width < 0 {
                    0
                } else {
                    width as u32
                };
                o.height = if height < 0 {
                    0
                } else {
                    height as u32
                };
            }
        },
        OutputEvent::Done => {
            o.output_done = true;
        },
        OutputEvent::Other => {},
    }
    o
}

/// A lost output is forgotten, its surface is detached, and nothing else changes. To lose it
/// again changes nothing.
pub proof fn removal_law(s: StateText, name: u32)
    ensures
        !removed(s, name).outputs.contains_key(name),
        forall|n: u32|
            n != name ==> (removed(s, name).outputs.contains_key(n) <==> s.outputs.contains_key(n))
                && removed(s, name).outputs[n] == s.outputs[n],
        s.outputs.contains_key(name) && s.outputs[name].surface_idx is Some ==> removed(
            s,
            name,
        ).detached == s.detached.push(s.outputs[name].surface_idx->0),
        !(s.outputs.contains_key(name) && s.outputs[name].surface_idx is Some) ==> removed(
            s,
            name,
        ).detached == s.detached,
        removed(removed(s, name), name) == removed(s, name),
        removal(removed(s, name), name, "output removed"@) == AnswerText::Nothing,
{
}

/// What the compositor says of an output that is not there changes nothing.
pub proof fn unknown_output_law(s: StateText, event: Event)
    requires
        match event {
            Event::GlobalRemove { name } => !s.outputs.contains_key(name),
            Event::Output { name, .. } => !s.outputs.contains_key(name),
            Event::Configure { name, .. } => !s.outputs.contains_key(name),
            Event::Closed { name } => !s.outputs.contains_key(name),
            Event::FrameDone { name } => !s.outputs.contains_key(name),
            Event::Global { .. } => false,
            Event::Other => true,
        },
    ensures
        after(s, event) == s,
        answer(s, event) == AnswerText::Nothing,
{
}

/// What the compositor says of an output is noted on that output alone: its name and its
/// description as they are told; make and model, with a space between and no blanks around,
/// where there is no description yet; the size of the mode that is in use, and of no other,
/// where a negative side counts as 0; and that the output is described to the end.
pub proof fn output_event_law(s: StateText, name: u32, event: OutputEvent, n: u32)
    requires
        s.outputs.contains_key(name),
    ensures
        ({
            let o = s.outputs[name];
            let t = after(s, Event::Output { name, event });
            let p = t.outputs[name];
            &&& t.outputs.contains_key(n) <==> s.outputs.contains_key(n)
            &&& n != name && s.outputs.contains_key(n) ==> t.outputs[n] == s.outputs[n]
            &&& t.detached == s.detached
            &&& t.has_compositor == s.has_compositor
            &&& t.has_layer_shell == s.has_layer_shell
            &&& answer(s, Event::Output { name, event }) == AnswerText::Nothing
            &&& p.name == (match event {
                OutputEvent::Name(told) => told@,
                _ => o.name,
            })
            &&& p.description == (match event {
                OutputEvent::Description(told) => told@,
                OutputEvent::Geometry { make, model } => if o.description.len() > 0 {
                    o.description
                } else {
                    text::trimmed(make@ + seq![' '] + model@)
                },
                _ => o.description,
            })
            &&& match event {
                OutputEvent::Mode { current, width, height } => {
                    &&& current && width >= 0 ==> p.width == width
                    &&& current && width < 0 ==> p.width == 0
                    &&& current && height >= 0 ==> p.height == height
                    &&& current && height < 0 ==> p.height == 0
                    &&& !current ==> p.width == o.width && p.height == o.height
                },
                _ => p.width == o.width && p.height == o.height,
            }
            &&& p.output_done == (o.output_done || event is Done)
            &&& p.has_surface == o.has_surface
            &&& p.configured == o.configured
            &&& p.frame_callback_pending == o.frame_callback_pending
            &&& p.surface_idx == o.surface_idx
            &&& p.decoder_idx == o.decoder_idx
        }),
{
    reveal_strlit(" ");
    assert(" "@ =~= seq![' ']);
}

/// What a description says stays when make and model are told later.
pub proof fn description_law(
    o: OutputText,
    description: String,
    make: String,
    model: String,
)
    requires
        description@.len() > 0,
    ensures
        output_after(
            output_after(o, OutputEvent::Description(description)),
            OutputEvent::Geometry { make, model },
        ).description == description@,
        output_after(
            output_after(o, OutputEvent::Geometry { make, model }),
            OutputEvent::Description(description),
        ).description == description@,
{
}

/// A new object in the registry. The compositor and the layer shell are noted as being there;
/// a new output has no name, is one pixel large and carries nothing; what else there is
/// changes nothing. What is bound is bound at its own version, but at none above 4.
pub proof fn global_law(s: StateText, name: u32, interface: String, version: u32, n: u32)
    ensures
        ({
            let event = Event::Global { name, interface, version };
            let t = after(s, event);
            let bound = answer(s, event);
            &&& t.detached == s.detached
            &&& t.has_compositor == (s.has_compositor || interface@ == "wl_compositor"@)
            &&& t.has_layer_shell == (s.has_layer_shell || interface@ == "zwlr_layer_shell_v1"@)
            &&& interface@ != "wl_output"@ ==> t.outputs == s.outputs
            &&& interface@ == "wl_output"@ ==> {
                &&& t.outputs.contains_key(n) <==> n == name || s.outputs.contains_key(n)
                &&& n != name && s.outputs.contains_key(n) ==> t.outputs[n] == s.outputs[n]
                &&& t.outputs[name].name.len() == 0
                &&& t.outputs[name].description.len() == 0
                &&& t.outputs[name].width == 1 && t.outputs[name].height == 1
                &&& !t.outputs[name].output_done
                &&& !t.outputs[name].has_surface
                &&& !t.outputs[name].configured
                &&& !t.outputs[name].frame_callback_pending
                &&& t.outputs[name].surface_idx is None
                &&& t.outputs[name].decoder_idx is None
            }
            &&& match bound {
                AnswerText::BindCompositor { version: v } => interface@ == "wl_compositor"@ && v
                    <= version && v <= 4 && (v == version || v == 4),
                AnswerText::BindLayerShell { version: v } => interface@ == "zwlr_layer_shell_v1"@
                    && v <= version && v <= 4 && (v == version || v == 4),
                AnswerText::BindOutput { version: v } => interface@ == "wl_output"@ && v <= version
                    && v <= 4 && (v == version || v == 4),
                AnswerText::Nothing => interface@ != "wl_compositor"@ && interface@
                    != "zwlr_layer_shell_v1"@ && interface@ != "wl_output"@,
                AnswerText::Removed { .. } => false,
            }
        }),
{
    interface_names();
}

/// The names of the interfaces differ.
proof fn interface_names()
    ensures
        "wl_compositor"@ != "zwlr_layer_shell_v1"@,
        "wl_compositor"@ != "wl_output"@,
        "zwlr_layer_shell_v1"@ != "wl_output"@,
{
    reveal_strlit("wl_compositor");
    reveal_strlit("zwlr_layer_shell_v1");
    reveal_strlit("wl_output");
    assert("wl_compositor"@.len() == 13);
    assert("zwlr_layer_shell_v1"@.len() == 19);
    assert("wl_output"@.len() == 9);
}

/// A layer surface that gets its size, and a frame callback that comes, are noted on their
/// output alone. A size with a side of 0 leaves the size as it was.
pub proof fn configure_law(s: StateText, name: u32, width: u32, height: u32, n: u32)
    requires
        s.outputs.contains_key(name),
    ensures
        ({
            let o = s.outputs[name];
            let t = after(s, Event::Configure { name, width, height });
            let p = t.outputs[name];
            &&& p.configured
            &&& width > 0 && height > 0 ==> p.width == width && p.height == height
            &&& width == 0 || height == 0 ==> p.width == o.width && p.height == o.height
            &&& p == (OutputText {
                configured: true,
                width: p.width,
                height: p.height,
                ..o
            })
            &&& t.outputs.contains_key(n) <==> s.outputs.contains_key(n)
            &&& n != name && s.outputs.contains_key(n) ==> t.outputs[n] == s.outputs[n]
            &&& t == (StateText { outputs: t.outputs, ..s })
            &&& answer(s, Event::Configure { name, width, height }) == AnswerText::Nothing
        }),
        ({
            let t = after(s, Event::FrameDone { name });
            &&& !t.outputs[name].frame_callback_pending
            &&& t.outputs[name] == (OutputText {
                frame_callback_pending: false,
                ..s.outputs[name]
            })
            &&& t.outputs.contains_key(n) <==> s.outputs.contains_key(n)
            &&& n != name && s.outputs.contains_key(n) ==> t.outputs[n] == s.outputs[n]
            &&& t == (StateText { outputs: t.outputs, ..s })
            &&& answer(s, Event::FrameDone { name }) == AnswerText::Nothing
        }),
{
}

/// An output that the registry drops, or whose layer surface is closed, is forgotten with its
/// surface, and the message tells the reason and the output: by its name or, where it has
/// none, by its number.
pub proof fn loss_law(s: StateText, name: u32)
    requires
        s.outputs.contains_key(name),
    ensures
        ({
            let t = after(s, Event::GlobalRemove { name });
            &&& !t.outputs.contains_key(name)
            &&& t.outputs == s.outputs.remove(name)
            &&& t.has_compositor == s.has_compositor
            &&& t.has_layer_shell == s.has_layer_shell
            &&& s.outputs[name].surface_idx is None ==> t.detached == s.detached
            &&& s.outputs[name].surface_idx is Some ==> t.detached == s.detached.push(
                s.outputs[name].surface_idx->0,
            )
            &&& after(s, Event::Closed { name }) == t
        }),
        s.outputs[name].name.len() > 0 ==> answer(s, Event::GlobalRemove { name })
            == (AnswerText::Removed { message: "output removed: "@ + s.outputs[name].name }),
        s.outputs[name].name.len() > 0 ==> answer(s, Event::Closed { name })
            == (AnswerText::Removed { message: "layer surface closed: "@ + s.outputs[name].name }),
        s.outputs[name].name.len() == 0 ==> answer(s, Event::GlobalRemove { name })
            == (AnswerText::Removed {
            message: "output removed: wl_output#"@ + text::decimal(name as nat),
        }),
        s.outputs[name].name.len() == 0 ==> answer(s, Event::Closed { name })
            == (AnswerText::Removed {
            message: "layer surface closed: wl_output#"@ + text::decimal(name as nat),
        }),
{
    reveal_strlit("output removed");
    reveal_strlit("layer surface closed");
    reveal_strlit(": ");
    reveal_strlit("wl_output#");
    reveal_strlit("output removed: ");
    reveal_strlit("layer surface closed: ");
    reveal_strlit("output removed: wl_output#");
    reveal_strlit("layer surface closed: wl_output#");
    let own = s.outputs[name].name;
    let number = text::decimal(name as nat);
    assert("output removed"@ + ": "@ + own =~= "output removed: "@ + own);
    assert("layer surface closed"@ + ": "@ + own =~= "layer surface closed: "@ + own);
    assert("output removed"@ + ": "@ + ("wl_output#"@ + number) =~= "output removed: wl_output#"@
        + number);
    assert("layer surface closed"@ + ": "@ + ("wl_output#"@ + number)
        =~= "layer surface closed: wl_output#"@ + number);
}

/// An output is listed as a display with its own name, description, width and height.
pub proof fn display_law(o: OutputText)
    ensures
        display_of(o).id == o.name,
        display_of(o).description == o.description,
        display_of(o).width == o.width,
        display_of(o).height == o.height,
{
}

/// A listing has every output that is known, once, and no other, in the order of their names.
pub proof fn list_law(state: State, r: Vec<DisplayInfo>, d: DisplayInfoText)
    requires
        call_ensures(State::list_displays, (&state,), r),
    ensures
        displays::sorted_by_id(displays::display_texts(r@)),
        displays::display_texts(r@).contains(d) <==> exists|n: u32| #[trigger]
            state@.outputs.contains_key(n) && {
                &&& state@.outputs[n].name == d.id
                &&& state@.outputs[n].description == d.description
                &&& state@.outputs[n].width == d.width
                &&& state@.outputs[n].height == d.height
            },
{
    broadcast use vstd::seq_lib::group_to_multiset_ensures;

    let outputs = state@.outputs;
    let names = choose|names: Seq<u32>| #[trigger]
        lists_all(names, outputs) && displays::display_texts(r@).to_multiset() == names.map_values(
            |n: u32| display_of(outputs[n]),
        ).to_multiset();
    let want = names.map_values(|n: u32| display_of(outputs[n]));
    let listed = displays::display_texts(r@);
    assert(listed.contains(d) <==> want.contains(d)) by {
        assert(listed.to_multiset().count(d) == want.to_multiset().count(d));
    }
    if want.contains(d) {
        let i = choose|i: int| 0 <= i < want.len() && want[i] == d;
        assert(names.contains(names[i]));
        assert(outputs.contains_key(names[i]));
    }
    if exists|n: u32| #[trigger] outputs.contains_key(n) && display_of(outputs[n]) == d {
        let n = choose|n: u32| #[trigger] outputs.contains_key(n) && display_of(outputs[n]) == d;
        assert(names.contains(n));
        let i = choose|i: int| 0 <= i < names.len() && names[i] == n;
        assert(want[i] == d);
    }
}

} // verus!
