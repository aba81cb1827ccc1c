//! A decoder that plays one file over and over, from a pipeline given as a description.
use vstd::prelude::*;

use crate::backend::wayland::decoder::{BusAction, BusEvent};

verus! {

/// A decoded frame in a GL texture.
#[derive(Debug, Clone, Copy, PartialEq, Eq, Structural)]
pub struct Frame {
    pub texture_id: u32,
}

/// The description of the pipeline that plays the file.
pub open spec fn description(path: Seq<char>) -> Seq<char> {
    "filesrc location=\""@ + path
        + "\" ! decodebin3 ! glupload ! glcolorconvert ! appsink name=sink caps=video/x-raw(memory:GLMemory),format=RGBA,texture-target=2D sync=true max-buffers=1"@
}

/// The description of the pipeline that plays the file.
pub fn pipeline_description(path: &str) -> (r: String)
    ensures
        r@ == description(path@),
{
    let mut r = "filesrc location=\"".to_owned();
    r.append(path);
    r.append(
        "\" ! decodebin3 ! glupload ! glcolorconvert ! appsink name=sink caps=video/x-raw(memory:GLMemory),format=RGBA,texture-target=2D sync=true max-buffers=1",
    );
    r
}

/// The reaction to the bus: at the end of the video the pipeline seeks to the start, and the
/// decoder ends where it cannot.
pub open spec fn reaction(event: BusEvent) -> BusAction {
    match event {
        BusEvent::EndOfStream => BusAction::Seek,
        BusEvent::Sought { ok } => if ok {
            BusAction::Listen
        } else {
            BusAction::Fail
        },
        BusEvent::Error => BusAction::Fail,
        BusEvent::Other => BusAction::Listen,
        BusEvent::Closed => BusAction::Stop,
    }
}

/// The reaction to what the bus of the pipeline brings.
pub fn react(event: BusEvent) -> (r: BusAction)
    ensures
        r == reaction(event),
{
    match event {
        BusEvent::EndOfStream => BusAction::Seek,
        BusEvent::Sought { ok } => if ok {
            BusAction::Listen
        } else {
            BusAction::Fail
        },
        BusEvent::Error => BusAction::Fail,
        BusEvent::Other => BusAction::Listen,
        BusEvent::Closed => BusAction::Stop,
    }
}

/// What the bus brings and what follows: a decoder of this kind plays over and over as long
/// as it can seek, is never built anew, and ends where it cannot seek.
pub proof fn reaction_law(event: BusEvent)
    ensures
        reaction(event) == BusAction::Seek <==> event == BusEvent::EndOfStream,
        reaction(event) == BusAction::Fail <==> event == BusEvent::Error || event
            == (BusEvent::Sought { ok: false }),
        reaction(event) == BusAction::Listen <==> event == BusEvent::Other || event
            == (BusEvent::Sought { ok: true }),
        reaction(event) == BusAction::Stop <==> event == BusEvent::Closed,
        reaction(event) != BusAction::Restart,
{
}

/// The description names the file between quotes, right behind its source element, and says
/// the same of every file.
pub proof fn description_law(path: Seq<char>, other: Seq<char>)
    ensures
        ({
            let begin = "filesrc location=\""@;
            let n = begin.len() as int;
            &&& description(path).take(n) == begin
            &&& description(path).subrange(n, n + path.len()) == path
            &&& description(path)[n + path.len()] == '"'
            &&& description(path).skip(n + path.len()) == description(other).skip(n + other.len())
        }),
{
    reveal_strlit("filesrc location=\"");
    reveal_strlit(
        "\" ! decodebin3 ! glupload ! glcolorconvert ! appsink name=sink caps=video/x-raw(memory:GLMemory),format=RGBA,texture-target=2D sync=true max-buffers=1",
    );
    let begin = "filesrc location=\""@;
    let n = begin.len() as int;
    assert(description(path).take(n) =~= begin);
    assert(description(path).subrange(n, n + path.len()) =~= path);
    assert(description(path).skip(n + path.len()) =~= description(other).skip(n + other.len()));
}

} // verus!
