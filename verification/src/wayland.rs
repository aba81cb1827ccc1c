//! One background surface that lies on whichever output the compositor picks.
use vstd::prelude::*;

use crate::backend::wayland::outputs;
use crate::text;

verus! {

/// Why there is no background surface.
#[derive(Debug, Clone, Copy, PartialEq, Eq, Structural)]
pub enum SurfaceError {
    MissingCompositor,
    MissingLayerShell,
}

impl SurfaceError {
    /// The message that tells the user what is wrong.
    pub fn message(&self) -> (r: &'static str)
        ensures
            r@ == (match *self {
                SurfaceError::MissingCompositor => "wl_compositor missing"@,
                SurfaceError::MissingLayerShell => "zwlr_layer_shell_v1 missing"@,
            }),
    {
        match self {
            SurfaceError::MissingCompositor => "wl_compositor missing",
            SurfaceError::MissingLayerShell => "zwlr_layer_shell_v1 missing",
        }
    }
}

/// A global object that is to be bound, at this version.
#[derive(Debug, Clone, Copy, PartialEq, Eq, Structural)]
pub enum Bind {
    Compositor { version: u32 },
    LayerShell { version: u32 },
}

/// What is known of the compositor and of the surface.
#[derive(Debug, Clone, Copy, PartialEq, Eq, Structural)]
pub struct State {
    pub has_compositor: bool,
    pub has_layer_shell: bool,
    pub width: u32,
    pub height: u32,
    pub configured: bool,
    pub frame_callback_pending: bool,
    pub has_surface: bool,
}

impl State {
    /// Nothing is known yet.
    pub fn new() -> (r: State)
        ensures
            r == (State {
                has_compositor: false,
                has_layer_shell: false,
                width: 1,
                height: 1,
                configured: false,
                frame_callback_pending: false,
                has_surface: false,
            }),
    {
        State {
            has_compositor: false,
            has_layer_shell: false,
            width: 1,
            height: 1,
            configured: false,
            frame_callback_pending: false,
            has_surface: false,
        }
    }

    /// Notes that the background surface is created. Without a compositor or a layer shell
    /// there is none.
    pub fn create_background_surface(&mut self) -> (r: Result<(), SurfaceError>)
        ensures
            !old(self).has_compositor ==> r == Err::<(), SurfaceError>(
                SurfaceError::MissingCompositor,
            ),
            old(self).has_compositor && !old(self).has_layer_shell ==> r == Err::<
                (),
                SurfaceError,
            >(SurfaceError::MissingLayerShell),
            old(self).has_compositor && old(self).has_layer_shell ==> r is Ok,
            *final(self) == (State { has_surface: old(self).has_surface || r is Ok, ..*old(self) }),
    {
        if !self.has_compositor {
            return Err(SurfaceError::MissingCompositor);
        }
        if !self.has_layer_shell {
            return Err(SurfaceError::MissingLayerShell);
        }
        self.has_surface = true;
        Ok(())
    }

    /// Whether the surface is still to be configured: the compositor is to speak first.
    pub fn wait_until_configured(&self) -> (r: bool)
        ensures
            r == !self.configured,
    {
        !self.configured
    }

    /// Whether the frame callback is still to come: the compositor is to speak first.
    pub fn wait_for_frame_callback(&self) -> (r: bool)
        ensures
            r == self.frame_callback_pending,
    {
        self.frame_callback_pending
    }

    /// Notes that a frame callback has been asked for on the surface.
    pub fn request_frame_callback(&mut self)
        requires
            old(self).has_surface,
        ensures
            *final(self) == (State { frame_callback_pending: true, ..*old(self) }),
    {
        self.frame_callback_pending = true;
    }

    /// The registry lists a new global object.
    pub fn global(&mut self, interface: &str, version: u32) -> (r: Option<Bind>)
        ensures
            (r, *final(self)) == (if interface@ == "wl_compositor"@ {
                (
                    Some(Bind::Compositor { version: outputs::bound_version(version) }),
                    State { has_compositor: true, ..*old(self) },
                )
            } else if interface@ == "zwlr_layer_shell_v1"@ {
                (
                    Some(Bind::LayerShell { version: outputs::bound_version(version) }),
                    State { has_layer_shell: true, ..*old(self) },
                )
            } else {
                (None, *old(self))
            }),
    {
        let bound: u32 = if version < 4 {
            version
        } else {
            4
        };
        if text::same_text(interface, "wl_compositor") {
            self.has_compositor = true;
            Some(Bind::Compositor { version: bound })
        } else if text::same_text(interface, "zwlr_layer_shell_v1") {
            self.has_layer_shell = true;
            Some(Bind::LayerShell { version: bound })
        } else {
            None
        }
    }

    /// The layer surface gets its size; a side of 0 leaves the size open.
    pub fn configure(&mut self, width: u32, height: u32)
        ensures
            *final(self) == (if width > 0 && height > 0 {
                State { width, height, configured: true, ..*old(self) }
            } else {
                State { configured: true, ..*old(self) }
            }),
    {
        if width > 0 && height > 0 {
            self.width = width;
            self.height = height;
        }
        self.configured = true;
    }

    /// The frame callback has come.
    pub fn frame_done(&mut self)
        ensures
            *final(self) == (State { frame_callback_pending: false, ..*old(self) }),
    {
        self.frame_callback_pending = false;
    }
}

/// A size with an area is taken over; one without leaves the size as it was. Either way the
/// surface is configured, and nothing else changes.
pub proof fn configure_law(s: &mut State, width: u32, height: u32)
    requires
        call_ensures(State::configure, (s, width, height), ()),
    ensures
        final(s).configured,
        width > 0 && height > 0 ==> final(s).width == width && final(s).height == height,
        width == 0 || height == 0 ==> final(s).width == old(s).width && final(s).height == old(
            s,
        ).height,
        final(s).has_compositor == old(s).has_compositor,
        final(s).has_layer_shell == old(s).has_layer_shell,
        final(s).has_surface == old(s).has_surface,
        final(s).frame_callback_pending == old(s).frame_callback_pending,
{
}

/// A surface is there once it could be made, which takes the compositor and the layer shell;
/// the error names what is missing, the compositor first.
pub proof fn background_law(s: &mut State, r: Result<(), SurfaceError>)
    requires
        call_ensures(State::create_background_surface, (s,), r),
    ensures
        r is Ok <==> old(s).has_compositor && old(s).has_layer_shell,
        r is Ok ==> final(s).has_surface,
        r is Err ==> *final(s) == *old(s),
        r matches Err(e) ==> e == if old(s).has_compositor {
            SurfaceError::MissingLayerShell
        } else {
            SurfaceError::MissingCompositor
        },
        final(s).configured == old(s).configured,
        final(s).width == old(s).width && final(s).height == old(s).height,
{
}

/// The compositor and the layer shell are noted when the registry lists them, and bound at
/// their own version, but at none above 4. Nothing else that is listed is bound.
pub proof fn global_law(s: &mut State, interface: &str, version: u32, r: Option<Bind>)
    requires
        call_ensures(State::global, (s, interface, version), r),
    ensures
        final(s).has_compositor == (old(s).has_compositor || interface@ == "wl_compositor"@),
        final(s).has_layer_shell == (old(s).has_layer_shell || interface@
            == "zwlr_layer_shell_v1"@),
        match r {
            Some(Bind::Compositor { version: v }) => interface@ == "wl_compositor"@ && v <= version
                && v <= 4 && (v == version || v == 4),
            Some(Bind::LayerShell { version: v }) => interface@ == "zwlr_layer_shell_v1"@ && v
                <= version && v <= 4 && (v == version || v == 4),
            None => interface@ != "wl_compositor"@ && interface@ != "zwlr_layer_shell_v1"@,
        },
        final(s).has_surface == old(s).has_surface,
        final(s).configured == old(s).configured,
        final(s).width == old(s).width && final(s).height == old(s).height,
        final(s).frame_callback_pending == old(s).frame_callback_pending,
{
    reveal_strlit("wl_compositor");
    reveal_strlit("zwlr_layer_shell_v1");
    assert("wl_compositor"@.len() != "zwlr_layer_shell_v1"@.len());
}

/// A frame callback is waited for from when it is asked for until it comes.
pub proof fn frame_callback_law(s: &mut State, t: &mut State, waits: bool, still: bool)
    requires
        call_ensures(State::request_frame_callback, (s,), ()),
        call_ensures(State::frame_done, (t,), ()),
        call_ensures(State::wait_for_frame_callback, (&*final(s),), waits),
        call_ensures(State::wait_for_frame_callback, (&*final(t),), still),
    ensures
        waits,
        !still,
        final(s).configured == old(s).configured,
        final(t).configured == old(t).configured,
{
}

} // verus!
