//! Which decoder feeds which output.
use vstd::hash_map::StringHashMap;
use vstd::prelude::*;

use crate::config;
use crate::paths;
use crate::plan;
use crate::plan::{Playback, PlaybackText, ResolvedText};
use crate::text;

verus! {

/// One decoder for each video, and the decoder of each output that has one of its own.
pub struct Layout {
    pub paths: Vec<String>,
    /// The decoder, by position, that feeds the output of this name.
    pub decoder_for: StringHashMap<usize>,
    /// Every output shows the same video.
    pub mirror: bool,
}

/// A [`Layout`] as plain values.
pub struct LayoutText {
    pub paths: Seq<Seq<char>>,
    pub decoder_for: Map<Seq<char>, usize>,
    pub mirror: bool,
}

impl View for Layout {
    type V = LayoutText;

    open spec fn view(&self) -> LayoutText {
        LayoutText {
            paths: text::views(self.paths@),
            decoder_for: self.decoder_for@,
            mirror: self.mirror,
        }
    }
}

/// The position of the last assignment of each display.
pub open spec fn positions(assignments: Seq<ResolvedText>) -> Map<Seq<char>, usize>
    decreases assignments.len(),
{
    if assignments.len() == 0 {
        Map::empty()
    } else {
        positions(assignments.drop_last()).insert(
            assignments.last().native_id,
            (assignments.len() - 1) as usize,
        )
    }
}

/// The layout that a playback asks for.
pub open spec fn layout_of(playback: PlaybackText) -> LayoutText {
    match playback {
        PlaybackText::Mirror(path) => LayoutText {
            paths: seq![path],
            decoder_for: Map::empty(),
            mirror: true,
        },
        PlaybackText::PerDisplay(assignments) => LayoutText {
            paths: assignments.map_values(|a: ResolvedText| a.path),
            decoder_for: positions(assignments),
            mirror: assignments.len() == 0,
        },
    }
}

impl LayoutText {
    /// Every decoder that the layout names is there.
    pub open spec fn wf(self) -> bool {
        &&& self.paths.len() > 0
        &&& self.paths.len() <= usize::MAX
        &&& self.mirror ==> self.paths.len() == 1
        &&& forall|id: Seq<char>| #[trigger]
            self.decoder_for.contains_key(id) ==> self.decoder_for[id] < self.paths.len()
    }

    /// An output of this name is drawn on.
    pub open spec fn wants(self, name: Seq<char>) -> bool {
        self.mirror || self.decoder_for.contains_key(name)
    }

    /// The decoder that feeds an output of this name.
    pub open spec fn decoder(self, name: Seq<char>) -> Option<usize> {
        if self.mirror {
            Some(0)
        } else if self.decoder_for.contains_key(name) {
            Some(self.decoder_for[name])
        } else {
            None
        }
    }
}

impl Layout {
    /// The layout for a playback. A playback by display names at least one.
    pub fn new(playback: Playback) -> (r: Layout)
        requires
            playback@ matches PlaybackText::PerDisplay(assignments) ==> assignments.len() > 0,
        ensures
            r@ == layout_of(playback@),
            r@.wf(),
    {
        match playback {
            Playback::Mirror(path) => {
                let mut paths: Vec<String> = Vec::new();
                paths.push(path);
                let r = Layout { paths, decoder_for: StringHashMap::new(), mirror: true };
                assert(r@.paths =~= seq![path@]);
                r
            },
            Playback::PerDisplay(assignments) => {
                let ghost texts = plan::resolved_texts(assignments@);
                let ghost want = texts.map_values(|a: ResolvedText| a.path);
                let mut paths: Vec<String> = Vec::new();
                let mut decoder_for: StringHashMap<usize> = StringHashMap::new();
                let mut i: usize = 0;
                assert(text::views(paths@) =~= want.take(0));
                assert(texts.take(0) =~= Seq::empty());
                while i < assignments.len()
                    invariant
                        i <= assignments@.len(),
                        texts == plan::resolved_texts(assignments@),
                        want == texts.map_values(|a: ResolvedText| a.path),
                        text::views(paths@) == want.take(i as int),
                        decoder_for@ == positions(texts.take(i as int)),
                        forall|id: Seq<char>| #[trigger]
                            decoder_for@.contains_key(id) ==> decoder_for@[id] < i,
                        i > 0 ==> decoder_for@.contains_key(texts[0].native_id),
                    decreases assignments@.len() - i,
                {
                    assert(texts.take(i + 1).drop_last() =~= texts.take(i as int));
                    let ghost was = paths@;
                    paths.push(assignments[i].path.clone());
                    assert(text::views(paths@) =~= text::views(was).push(want[i as int]));
                    assert(want.take(i + 1) =~= want.take(i as int).push(want[i as int]));
                    decoder_for.insert(assignments[i].native_id.clone(), i);
                    i = i + 1;
                }
                assert(want.take(i as int) =~= want);
                assert(texts.take(i as int) =~= texts);
                let mirror = decoder_for.is_empty();
                assert(!mirror);
                Layout { paths, decoder_for, mirror }
            },
        }
    }

    /// Whether an output of this name is drawn on.
    pub fn wants(&self, name: &str) -> (r: bool)
        ensures
            r == self@.wants(name@),
    {
        self.mirror || self.decoder_for.contains_key(name)
    }

    /// The decoder that feeds an output of this name.
    pub fn decoder(&self, name: &str) -> (r: Option<usize>)
        ensures
            r == self@.decoder(name@),
    {
        if self.mirror {
            Some(0)
        } else {
            match self.decoder_for.get(name) {
                Some(idx) => Some(*idx),
                None => None,
            }
        }
    }
}

/// The short name of a video: the last segment of a URL, the file name of a path, or the
/// path itself where it has no file name.
pub open spec fn short_name_of(path: Seq<char>) -> Seq<char> {
    if config::is_url_text(path) {
        text::after_last(path, '/')
    } else {
        match paths::file_name_of(path, '/', '.') {
            Some(name) => name,
            None => path,
        }
    }
}

/// The name of the thread that decodes a video.
pub fn thread_name(path: &str) -> (r: String)
    ensures
        r@ == "decoder:"@ + short_name_of(path@),
{
    let short = if config::is_url(path) {
        text::last_segment(path, '/')
    } else {
        match paths::file_name(path) {
            Some(name) => name,
            None => path.to_owned(),
        }
    };
    text::join2("decoder:", short.as_str())
}

/// Each display is fed by the decoder of its own assignment: the last one that names it.
pub proof fn layout_law(assignments: Seq<ResolvedText>, i: int)
    requires
        0 <= i < assignments.len() <= usize::MAX,
        forall|j: int|
            i < j < assignments.len() ==> (#[trigger] assignments[j]).native_id
                != assignments[i].native_id,
    ensures
        layout_of(PlaybackText::PerDisplay(assignments)).decoder(assignments[i].native_id) == Some(
            i as usize,
        ),
        layout_of(PlaybackText::PerDisplay(assignments)).paths[i] == assignments[i].path,
    decreases assignments.len(),
{
    let front = assignments.drop_last();
    if i < front.len() {
        assert forall|j: int| i < j < front.len() implies (#[trigger] front[j]).native_id
            != front[i].native_id by {
            assert(assignments[j] == front[j]);
        }
        assert(assignments[assignments.len() - 1].native_id != assignments[i].native_id);
        layout_law(front, i);
    }
}

/// One video for all: there is one decoder, it plays that video, and it feeds every output,
/// whatever its name.
pub proof fn mirror_layout_law(path: Seq<char>, name: Seq<char>)
    ensures
        layout_of(PlaybackText::Mirror(path)).paths == seq![path],
        layout_of(PlaybackText::Mirror(path)).wants(name),
        layout_of(PlaybackText::Mirror(path)).decoder(name) == Some(0usize),
{
}

/// A video for each display: there is a decoder for each assignment, in order, and exactly
/// the outputs that an assignment names are drawn on; no other has a decoder.
pub proof fn per_display_layout_law(assignments: Seq<ResolvedText>, name: Seq<char>)
    requires
        0 < assignments.len() <= usize::MAX,
    ensures
        ({
            let layout = layout_of(PlaybackText::PerDisplay(assignments));
            &&& layout.paths.len() == assignments.len()
            &&& forall|i: int|
                0 <= i < assignments.len() ==> layout.paths[i] == (#[trigger] assignments[i]).path
            &&& !layout.mirror
            &&& layout.wants(name) <==> exists|i: int|
                0 <= i < assignments.len() && (#[trigger] assignments[i]).native_id == name
            &&& layout.decoder(name) is Some <==> layout.wants(name)
            &&& layout.decoder(name) matches Some(d) ==> d < assignments.len()
                && assignments[d as int].native_id == name
        }),
{
    positions_facts(assignments, name);
}

/// The positions are those of assignments that name the display.
proof fn positions_facts(assignments: Seq<ResolvedText>, name: Seq<char>)
    requires
        assignments.len() <= usize::MAX,
    ensures
        positions(assignments).contains_key(name) <==> exists|i: int|
            0 <= i < assignments.len() && (#[trigger] assignments[i]).native_id == name,
        positions(assignments).contains_key(name) ==> positions(assignments)[name]
            < assignments.len() && assignments[positions(assignments)[name] as int].native_id
            == name,
    decreases assignments.len(),
{
    if assignments.len() > 0 {
        let front = assignments.drop_last();
        positions_facts(front, name);
        assert(forall|i: int| 0 <= i < front.len() ==> #[trigger] assignments[i] == front[i]);
        if assignments.last().native_id == name {
            assert(assignments[assignments.len() - 1].native_id == name);
        }
        if exists|i: int| 0 <= i < front.len() && (#[trigger] front[i]).native_id == name {
            let i = choose|i: int| 0 <= i < front.len() && (#[trigger] front[i]).native_id == name;
            assert(assignments[i].native_id == name);
        }
    }
}

/// The short name of a video: what follows the last slash of a URL, and the file name of a
/// path, whatever comes before.
pub proof fn short_name_law(head: Seq<char>, name: Seq<char>)
    requires
        !name.contains('/'),
    ensures
        config::is_url_text(head.push('/') + name) ==> short_name_of(head.push('/') + name) == name,
        !config::is_url_text(head.push('/') + name) && name.len() > 0 && name != seq!['.'] && name
            != seq!['.', '.'] ==> short_name_of(head.push('/') + name) == name,
        !config::is_url_text(name) && name.len() > 0 && name != seq!['.'] ==> short_name_of(name)
            == name,
        !config::is_url_text(head) && paths::file_name_of(head, '/', '.') is None ==> short_name_of(
            head,
        ) == head,
{
    text::after_last_law(head, '/', name);
    if name.len() > 0 && name != seq!['.'] {
        paths::file_name_law(head, name, '/', '.');
    }
}

} // verus!
