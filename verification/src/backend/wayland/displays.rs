//! The displays alone, for a listing of them.
use std::collections::HashMap;

use vstd::prelude::*;

use crate::backend::wayland::outputs;
use crate::backend::wayland::outputs::OutputEvent;
use crate::displays;
use crate::displays::{DisplayInfo, DisplayInfoText};
use crate::text;

verus! {

broadcast use vstd::std_specs::hash::group_hash_axioms;

/// The displays that the compositor has announced, by the number in its registry.
pub struct DisplaysState {
    pub outputs: HashMap<u32, DisplayInfo>,
}

impl View for DisplaysState {
    type V = Map<u32, DisplayInfoText>;

    open spec fn view(&self) -> Map<u32, DisplayInfoText> {
        self.outputs@.map_values(|d: DisplayInfo| d@)
    }
}

/// A display of which nothing is known.
pub open spec fn blank_display() -> DisplayInfoText {
    DisplayInfoText { id: Seq::empty(), description: Seq::empty(), width: 0, height: 0 }
}

/// A display after the compositor has said more of it.
pub open spec fn display_after(d: DisplayInfoText, event: OutputEvent) -> DisplayInfoText {
    match event {
        OutputEvent::Name(name) => DisplayInfoText { id: name@, ..d },
        OutputEvent::Description(description) => DisplayInfoText {
            description: description@,
            ..d
        },
        OutputEvent::Geometry { make, model } => if d.description.len() == 0 {
            DisplayInfoText { description: text::trimmed(make@ + " "@ + model@), ..d }
        } else {
            d
        },
        OutputEvent::Mode { current, width, height } => if current {
            DisplayInfoText {
                width: outputs::at_least_zero(width),
                height: outputs::at_least_zero(height),
                ..d
            }
        } else {
            d
        },
        OutputEvent::Done => d,
        OutputEvent::Other => d,
    }
}

/// `names` lists the displays, each once.
pub open spec fn lists_all(names: Seq<u32>, all: Map<u32, DisplayInfoText>) -> bool {
    &&& names.no_duplicates()
    &&& forall|n: u32| #[trigger] names.contains(n) <==> all.contains_key(n)
}

/// A length that cannot be negative.
fn length(n: i32) -> (r: u32)
    ensures
        r == outputs::at_least_zero(n),
{
    if n < 0 {
        0
    } else {
        n as u32
    }
}

impl Default for DisplaysState {
    fn default() -> (r: DisplaysState)
        ensures
            r@ == Map::<u32, DisplayInfoText>::empty(),
    {
        let r = DisplaysState { outputs: HashMap::new() };
        assert(r@ =~= Map::<u32, DisplayInfoText>::empty());
        r
    }
}

impl DisplaysState {
    /// The registry lists a new global object. An output is to be bound, at the version that
    /// comes back.
    pub fn global(&mut self, name: u32, interface: &str, version: u32) -> (r: Option<u32>)
        ensures
            interface@ == "wl_output"@ ==> final(self)@ == old(self)@.insert(name, blank_display())
                && r == Some(outputs::bound_version(version)),
            interface@ != "wl_output"@ ==> final(self)@ == old(self)@ && r is None,
    {
        if !text::same_text(interface, "wl_output") {
            return None;
        }
        let d = DisplayInfo::default();
        assert(d@.id =~= Seq::empty() && d@.description =~= Seq::empty());
        self.outputs.insert(name, d);
        assert(self@ =~= old(self)@.insert(name, blank_display()));
        if version < 4 {
            Some(version)
        } else {
            Some(4)
        }
    }

    /// The compositor says more of an output. Of one that was never announced nothing is kept.
    pub fn event(&mut self, name: u32, event: OutputEvent)
        ensures
            old(self)@.contains_key(name) ==> final(self)@ == old(self)@.insert(
                name,
                display_after(old(self)@[name], event),
            ),
            !old(self)@.contains_key(name) ==> final(self)@ == old(self)@,
    {
        match self.outputs.remove(&name) {
            None => {
                assert(self@ =~= old(self)@);
            },
            Some(mut d) => {
                match event {
                    OutputEvent::Name(id) => {
                        d.id = id;
                    },
                    OutputEvent::Description(description) => {
                        d.description = description;
                    },
                    OutputEvent::Geometry { make, model } => {
                        if d.description.as_str().is_empty() {
                            let combined = text::join3(make.as_str(), " ", model.as_str());
                            d.description = text::trim(combined.as_str());
                        }
                    },
                    OutputEvent::Mode { current, width, height } => {
                        if current {
                            d.width = length(width);
                            d.height = length(height);
                        }
                    },
                    OutputEvent::Done => {},
                    OutputEvent::Other => {},
                }
                self.outputs.insert(name, d);
                assert(self@ =~= old(self)@.insert(name, display_after(old(self)@[name], event)));
            },
        }
    }

    /// The displays in the order of their ids.
    pub fn list_displays(&self) -> (r: Vec<DisplayInfo>)
        ensures
            displays::sorted_by_id(displays::display_texts(r@)),
            exists|names: Seq<u32>| #[trigger]
                lists_all(names, self@) && displays::display_texts(r@).to_multiset()
                    == names.map_values(|n: u32| self@[n]).to_multiset(),
    {
        let mut all: Vec<DisplayInfo> = Vec::new();
        let keys = self.outputs.keys();
        let ghost names = vstd::std_specs::iter::IteratorSpec::remaining(&keys).unref();
        let ghost want = names.map_values(|n: u32| self@[n]);
        assert(displays::display_texts(all@) =~= want.take(0));
        for name in it: keys
            invariant
                it.seq().unref() == names,
                it.seq().len() == names.len(),
                names.to_set() == self.outputs@.dom(),
                forall|i: int| 0 <= i < names.len() ==> #[trigger] names[i] == *it.seq()[i],
                want == names.map_values(|n: u32| self@[n]),
                it.index() <= names.len(),
                displays::display_texts(all@) == want.take(it.index() as int),
        {
            let n: u32 = *name;
            assert(names.contains(n)) by {
                assert(names[it.index() as int] == n);
            }
            assert(names.to_set().contains(n));
            match self.outputs.get(&n) {
                Some(d) => {
                    let ghost was = all@;
                    all.push(
                        DisplayInfo {
                            id: d.id.clone(),
                            description: d.description.clone(),
                            width: d.width,
                            height: d.height,
                        },
                    );
                    assert(all@.last()@ == want[it.index() as int]);
                    assert(displays::display_texts(all@) =~= displays::display_texts(was).push(
                        want[it.index() as int],
                    ));
                    assert(want.take(it.index() + 1) =~= want.take(it.index() as int).push(
                        want[it.index() as int],
                    ));
                },
                None => {
                    assert(false);
                },
            }
        }
        assert(want.take(want.len() as int) =~= want);
        assert(displays::display_texts(all@) == want);
        assert(lists_all(names, self@)) by {
            assert forall|n: u32| #[trigger] names.contains(n) <==> self@.contains_key(n) by {
                assert(names.contains(n) <==> names.to_set().contains(n));
                assert(self@.contains_key(n) <==> self.outputs@.contains_key(n));
            }
        }
        displays::sort_by_id(&all)
    }
}

/// A listing tells of a display what a run of the wallpaper knows of its output.
pub proof fn listing_law(o: outputs::OutputText, event: OutputEvent)
    ensures
        outputs::display_of(outputs::output_after(o, event)) == display_after(
            outputs::display_of(o),
            event,
        ),
{
}

/// What the compositor says of a display, field by field: its name is the id; a description
/// stands as it is told; make and model stand in where there is none; the mode that is in use
/// gives the size, where a negative side counts as 0.
pub proof fn display_event_law(d: DisplayInfoText, event: OutputEvent)
    ensures
        ({
            let e = display_after(d, event);
            &&& e.id == (match event {
                OutputEvent::Name(told) => told@,
                _ => d.id,
            })
            &&& e.description == (match event {
                OutputEvent::Description(told) => told@,
                OutputEvent::Geometry { make, model } => if d.description.len() > 0 {
                    d.description
                } else {
                    text::trimmed(make@ + seq![' '] + model@)
                },
                _ => d.description,
            })
            &&& match event {
                OutputEvent::Mode { current, width, height } => {
                    &&& current && width >= 0 ==> e.width == width
                    &&& current && width < 0 ==> e.width == 0
                    &&& current && height >= 0 ==> e.height == height
                    &&& current && height < 0 ==> e.height == 0
                    &&& !current ==> e.width == d.width && e.height == d.height
                },
                _ => e.width == d.width && e.height == d.height,
            }
        }),
        blank_display().id.len() == 0,
        blank_display().description.len() == 0,
        blank_display().width == 0,
        blank_display().height == 0,
{
    reveal_strlit(" ");
    assert(" "@ =~= seq![' ']);
}

/// A listing has every display that was announced, once, and no other, in the order of their
/// ids.
pub proof fn list_law(state: DisplaysState, r: Vec<DisplayInfo>, d: DisplayInfoText)
    requires
        call_ensures(DisplaysState::list_displays, (&state,), r),
    ensures
        displays::sorted_by_id(displays::display_texts(r@)),
        displays::display_texts(r@).contains(d) <==> exists|n: u32| #[trigger]
            state@.contains_key(n) && state@[n] == d,
{
    broadcast use vstd::seq_lib::group_to_multiset_ensures;

    let names = choose|names: Seq<u32>| #[trigger]
        lists_all(names, state@) && displays::display_texts(r@).to_multiset() == names.map_values(
            |n: u32| state@[n],
        ).to_multiset();
    let want = names.map_values(|n: u32| state@[n]);
    let listed = displays::display_texts(r@);
    assert(listed.contains(d) <==> want.contains(d)) by {
        assert(listed.to_multiset().count(d) == want.to_multiset().count(d));
    }
    if want.contains(d) {
        let i = choose|i: int| 0 <= i < want.len() && want[i] == d;
        assert(names.contains(names[i]));
        assert(state@.contains_key(names[i]));
    }
    if exists|n: u32| #[trigger] state@.contains_key(n) && state@[n] == d {
        let n = choose|n: u32| #[trigger] state@.contains_key(n) && state@[n] == d;
        assert(names.contains(n));
        let i = choose|i: int| 0 <= i < names.len() && names[i] == n;
        assert(want[i] == d);
    }
}

/// An output is announced as a display of which nothing is known, and bound at its own version,
/// but at none above 4; what is not an output is not noted. The other displays stay as they
/// are.
pub proof fn announce_law(
    s: &mut DisplaysState,
    name: u32,
    interface: &str,
    version: u32,
    r: Option<u32>,
    n: u32,
)
    requires
        call_ensures(DisplaysState::global, (s, name, interface, version), r),
    ensures
        r is Some <==> interface@ == "wl_output"@,
        r matches Some(v) ==> v <= version && v <= 4 && (v == version || v == 4),
        r is None ==> final(s)@ == old(s)@,
        r is Some ==> final(s)@.contains_key(name) && final(s)@[name].id.len() == 0
            && final(s)@[name].description.len() == 0 && final(s)@[name].width == 0
            && final(s)@[name].height == 0,
        n != name ==> (final(s)@.contains_key(n) <==> old(s)@.contains_key(n)),
        n != name && old(s)@.contains_key(n) ==> final(s)@[n] == old(s)@[n],
{
}

/// What the compositor says of a display changes that one alone, and nothing where it was never
/// announced.
pub proof fn said_law(s: &mut DisplaysState, name: u32, event: OutputEvent, n: u32)
    requires
        call_ensures(DisplaysState::event, (s, name, event), ()),
    ensures
        final(s)@.contains_key(n) <==> old(s)@.contains_key(n),
        n != name && old(s)@.contains_key(n) ==> final(s)@[n] == old(s)@[n],
        old(s)@.contains_key(name) ==> final(s)@[name] == display_after(old(s)@[name], event),
{
}

} // verus!
