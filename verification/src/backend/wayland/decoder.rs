//! What a decoder decides: where its video comes from, and when it starts over.
use vstd::prelude::*;

use crate::config;
use crate::text;

verus! {

/// What the sink of the pipeline takes: RGBA frames in GL textures.
pub const SINK_CAPS: &'static str =
    "video/x-raw(memory:GLMemory),format=RGBA,texture-target=2D";

/// The User-Agent for video servers that turn others away.
pub const USER_AGENT: &'static str =
    "Mozilla/5.0 (X11; Linux x86_64) AppleWebKit/537.36 (KHTML, like Gecko) Chrome/131.0.0.0 Safari/537.36";

/// A decoded frame in a GL texture.
#[derive(Debug, Clone, Copy, PartialEq, Eq, Structural)]
pub struct Frame {
    pub texture_id: u32,
    pub width: u32,
    pub height: u32,
}

/// Where the URI of a pipeline comes from.
#[derive(Debug)]
pub enum SourceUri {
    /// The source is a URI itself.
    Remote(String),
    /// The source is a path; its absolute form makes a `file://` URI.
    Local(String),
}

/// A [`SourceUri`] as plain text.
pub enum SourceUriText {
    Remote(Seq<char>),
    Local(Seq<char>),
}

impl View for SourceUri {
    type V = SourceUriText;

    open spec fn view(&self) -> SourceUriText {
        match self {
            SourceUri::Remote(s) => SourceUriText::Remote(s@),
            SourceUri::Local(s) => SourceUriText::Local(s@),
        }
    }
}

/// Where the URI for a source comes from.
pub fn source_uri(source: &str) -> (r: SourceUri)
    ensures
        r@ == (if config::is_url_text(source@) {
            SourceUriText::Remote(source@)
        } else {
            SourceUriText::Local(source@)
        }),
{
    if config::is_url(source) {
        SourceUri::Remote(source.to_owned())
    } else {
        SourceUri::Local(source.to_owned())
    }
}

/// What went wrong when the path of a source could not be resolved.
pub fn resolve_context(source: &str) -> (r: String)
    ensures
        r@ == "resolve path "@ + source@,
{
    text::join2("resolve path ", source)
}

/// The User-Agent for a source element, where it takes one.
pub fn user_agent(has_property: bool) -> (r: Option<&'static str>)
    ensures
        text::str_view(r) == (if has_property {
            Some(USER_AGENT@)
        } else {
            None
        }),
{
    if has_property {
        Some(USER_AGENT)
    } else {
        None
    }
}

/// Whether a new pad of the source is linked to the upload element: that element and its
/// sink pad, given as whether it is linked, must still be there and free.
pub fn links_pad(upload_alive: bool, sink_linked: Option<bool>) -> (r: bool)
    ensures
        r == (upload_alive && sink_linked == Some(false)),
{
    match sink_linked {
        Some(linked) => upload_alive && !linked,
        None => false,
    }
}

/// What the bus of a playing pipeline brings.
#[derive(Debug, Clone, Copy, PartialEq, Eq, Structural)]
pub enum BusEvent {
    /// The video has ended.
    EndOfStream,
    /// The seek to the start has been tried.
    Sought { ok: bool },
    Error,
    Other,
    /// The bus brings nothing more.
    Closed,
}

/// What is to be done next with the pipeline.
#[derive(Debug, Clone, Copy, PartialEq, Eq, Structural)]
pub enum BusAction {
    /// Wait for the bus.
    Listen,
    /// Seek to the start.
    Seek,
    /// Stop the pipeline and build it anew.
    Restart,
    /// Stop the pipeline and end with the error that the bus brought.
    Fail,
    /// Stop the pipeline and end.
    Stop,
}

/// The reaction to the bus: at the end of the video the pipeline seeks to the start, and is
/// built anew where it cannot.
pub open spec fn reaction(event: BusEvent) -> BusAction {
    match event {
        BusEvent::EndOfStream => BusAction::Seek,
        BusEvent::Sought { ok } => if ok {
            BusAction::Listen
        } else {
            BusAction::Restart
        },
        BusEvent::Error => BusAction::Fail,
        BusEvent::Other => BusAction::Listen,
        BusEvent::Closed => BusAction::Stop,
    }
}

/// The reaction to what the bus of the pipeline brings.
pub fn react(event: BusEvent) -> (r: BusAction)
    ensures
        r == reaction(event),
{
    match event {
        BusEvent::EndOfStream => BusAction::Seek,
        BusEvent::Sought { ok } => if ok {
            BusAction::Listen
        } else {
            BusAction::Restart
        },
        BusEvent::Error => BusAction::Fail,
        BusEvent::Other => BusAction::Listen,
        BusEvent::Closed => BusAction::Stop,
    }
}

/// A decoder ends only when its bus brings an error or closes: the end of the video, whether
/// or not the pipeline can seek, never ends it.
pub proof fn endless_law(event: BusEvent)
    ensures
        reaction(event) == BusAction::Fail <==> event == BusEvent::Error,
        reaction(event) == BusAction::Stop <==> event == BusEvent::Closed,
        reaction(event) == BusAction::Seek <==> event == BusEvent::EndOfStream,
{
}

/// What the bus brings and what follows: the end of the video a seek to the start; a seek
/// that worked nothing; one that did not a new pipeline; and whatever else comes nothing.
pub proof fn reaction_law(ok: bool)
    ensures
        reaction(BusEvent::EndOfStream) == BusAction::Seek,
        ok ==> reaction(BusEvent::Sought { ok }) == BusAction::Listen,
        !ok ==> reaction(BusEvent::Sought { ok }) == BusAction::Restart,
        reaction(BusEvent::Error) == BusAction::Fail,
        reaction(BusEvent::Other) == BusAction::Listen,
        reaction(BusEvent::Closed) == BusAction::Stop,
{
}

/// A source is opened as it was given: a URL as it is, everything else as a path.
pub proof fn source_law(source: &str, r: SourceUri)
    requires
        call_ensures(source_uri, (source,), r),
    ensures
        r@ is Remote <==> config::is_url_text(source@),
        match r@ {
            SourceUriText::Remote(uri) => uri == source@,
            SourceUriText::Local(path) => path == source@,
        },
{
}

/// A pad is linked once at most: not where the sink is linked already, nor where it or its
/// element is gone.
pub proof fn link_law(upload_alive: bool, sink_linked: Option<bool>, r: bool)
    requires
        call_ensures(links_pad, (upload_alive, sink_linked), r),
    ensures
        r ==> upload_alive && sink_linked is Some && !sink_linked->0,
        upload_alive && sink_linked is Some && !sink_linked->0 ==> r,
{
}

} // verus!
