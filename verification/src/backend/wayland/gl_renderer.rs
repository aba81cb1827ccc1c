//! What the renderer decides: its surface, the scale of the video and the texture it draws.
use vstd::prelude::*;

use crate::backend::wayland::decoder::Frame;
use crate::scale;
use crate::scale::{Dims, QuadScale, ScaleMode};
use crate::text;

verus! {

/// Places the quad and turns its corners into texture coordinates.
pub const VERTEX_SHADER: &'static str = "#version 300 es
        uniform vec2 u_scale;
        in vec2 a_pos;
        out vec2 v_uv;
        void main() {
            v_uv = vec2(a_pos.x * 0.5 + 0.5, 0.5 - a_pos.y * 0.5);
            gl_Position = vec4(a_pos * u_scale, 0.0, 1.0);
        }
    ";

/// Draws the video as it is.
pub const FRAGMENT_SHADER: &'static str = "#version 300 es
        precision mediump float;
        uniform sampler2D u_tex;
        in vec2 v_uv;
        out vec4 frag_color;
        void main() {
            frag_color = texture(u_tex, v_uv);
        }
    ";

/// Why the renderer cannot go on.
#[derive(Debug, Clone, Copy, PartialEq, Eq, Structural)]
pub enum RendererError {
    /// The display is not an EGL display.
    NoEglDisplay,
    /// The context is not an EGL context.
    NoEglContext,
    ZeroWidth,
    ZeroHeight,
    /// The frame has no texture.
    ZeroTexture,
}

impl RendererError {
    /// The message that tells the user what is wrong.
    pub open spec fn text(self) -> Seq<char> {
        match self {
            RendererError::NoEglDisplay => "expected EGL display"@,
            RendererError::NoEglContext => "expected EGL context"@,
            RendererError::ZeroWidth => "zero width"@,
            RendererError::ZeroHeight => "zero height"@,
            RendererError::ZeroTexture => "zero GL texture id"@,
        }
    }

    /// The message that tells the user what is wrong.
    pub fn message(&self) -> (r: &'static str)
        ensures
            r@ == self.text(),
    {
        match self {
            RendererError::NoEglDisplay => "expected EGL display",
            RendererError::NoEglContext => "expected EGL context",
            RendererError::ZeroWidth => "zero width",
            RendererError::ZeroHeight => "zero height",
            RendererError::ZeroTexture => "zero GL texture id",
        }
    }
}

/// The numbers that a renderer works with: its EGL display and context, and the size of its
/// surface.
#[derive(Debug, Clone, Copy)]
pub struct GlRenderer {
    pub egl_display: usize,
    pub egl_context: usize,
    pub surface_dims: (u32, u32),
}

/// The size of a window surface: neither side may be 0.
pub fn create_surface(width: u32, height: u32) -> (r: Result<Dims, RendererError>)
    ensures
        r == (if width == 0 {
            Err(RendererError::ZeroWidth)
        } else if height == 0 {
            Err(RendererError::ZeroHeight)
        } else {
            Ok(Dims { width, height })
        }),
{
    if width == 0 {
        Err(RendererError::ZeroWidth)
    } else if height == 0 {
        Err(RendererError::ZeroHeight)
    } else {
        Ok(Dims { width, height })
    }
}

/// The fragment shader: the one that was asked for, or [`FRAGMENT_SHADER`].
pub fn fragment_source<'a>(asked: Option<&'a str>) -> (r: &'a str)
    ensures
        r@ == (match text::str_view(asked) {
            Some(source) => source,
            None => FRAGMENT_SHADER@,
        }),
{
    match asked {
        Some(source) => source,
        None => FRAGMENT_SHADER,
    }
}

impl GlRenderer {
    /// A renderer on an EGL display with an EGL context. A display or a context of another
    /// kind is `None`.
    pub fn new(
        egl_display: Option<usize>,
        egl_context: Option<usize>,
        width: u32,
        height: u32,
    ) -> (r: Result<GlRenderer, RendererError>)
        ensures
            r == (match (egl_display, egl_context) {
                (None, _) => Err(RendererError::NoEglDisplay),
                (Some(_), None) => Err(RendererError::NoEglContext),
                (Some(egl_display), Some(egl_context)) => Ok(
                    GlRenderer { egl_display, egl_context, surface_dims: (width, height) },
                ),
            }),
    {
        match (egl_display, egl_context) {
            (None, _) => Err(RendererError::NoEglDisplay),
            (Some(_), None) => Err(RendererError::NoEglContext),
            (Some(egl_display), Some(egl_context)) => Ok(
                GlRenderer { egl_display, egl_context, surface_dims: (width, height) },
            ),
        }
    }

    /// The size of the surface.
    pub fn surface_dims(&self) -> (r: (u32, u32))
        ensures
            r == self.surface_dims,
    {
        self.surface_dims
    }

    /// Notes a new size of the surface. The window is resized to what comes back; a size
    /// without an area leaves the window alone.
    pub fn set_surface_size(&mut self, width: u32, height: u32) -> (r: Option<Dims>)
        ensures
            *final(self) == (GlRenderer { surface_dims: (width, height), ..*old(self) }),
            r == (if width != 0 && height != 0 {
                Some(Dims { width, height })
            } else {
                None
            }),
    {
        self.surface_dims = (width, height);
        if width != 0 && height != 0 {
            Some(Dims { width, height })
        } else {
            None
        }
    }

    /// The scale of the quad for a video of this size.
    /// Call this when the source dimensions are first known (or change).
    pub fn set_video_dimensions(&self, video_w: u32, video_h: u32, mode: ScaleMode) -> (r:
        QuadScale)
        ensures
            r == scale::quad_scale_of(
                Dims { width: self.surface_dims.0, height: self.surface_dims.1 },
                Dims { width: video_w, height: video_h },
                mode,
            ),
    {
        scale::quad_scale(
            Dims { width: self.surface_dims.0, height: self.surface_dims.1 },
            Dims { width: video_w, height: video_h },
            mode,
        )
    }

    /// The EGL display.
    pub fn egl_display(&self) -> (r: usize)
        ensures
            r == self.egl_display,
    {
        self.egl_display
    }

    /// The EGL context.
    pub fn egl_context(&self) -> (r: usize)
        ensures
            r == self.egl_context,
    {
        self.egl_context
    }

    /// The texture to draw.
    pub fn render(&self, frame: &Frame) -> (r: Result<u32, RendererError>)
        ensures
            r == (if frame.texture_id == 0 {
                Err(RendererError::ZeroTexture)
            } else {
                Ok(frame.texture_id)
            }),
    {
        if frame.texture_id == 0 {
            Err(RendererError::ZeroTexture)
        } else {
            Ok(frame.texture_id)
        }
    }
}

/// A window surface has exactly the size that was asked for, and every size with an area can
/// be asked for; without one the error names the side that is missing, the width first.
pub proof fn surface_size_law(width: u32, height: u32, r: Result<Dims, RendererError>)
    requires
        call_ensures(create_surface, (width, height), r),
    ensures
        r is Ok <==> width > 0 && height > 0,
        r matches Ok(size) ==> size.width == width && size.height == height,
        r matches Err(e) ==> e == if width == 0 {
            RendererError::ZeroWidth
        } else {
            RendererError::ZeroHeight
        },
{
}

/// A renderer works with the display and the context that it was given, and with a surface of
/// the size that it was given; where one of the two is missing the error names it, the display
/// first.
pub proof fn renderer_law(
    egl_display: Option<usize>,
    egl_context: Option<usize>,
    width: u32,
    height: u32,
    r: Result<GlRenderer, RendererError>,
)
    requires
        call_ensures(GlRenderer::new, (egl_display, egl_context, width, height), r),
    ensures
        r is Ok <==> egl_display is Some && egl_context is Some,
        r matches Ok(g) ==> {
            &&& Some(g.egl_display) == egl_display
            &&& Some(g.egl_context) == egl_context
            &&& g.surface_dims.0 == width && g.surface_dims.1 == height
        },
        r matches Err(e) ==> e == if egl_display is None {
            RendererError::NoEglDisplay
        } else {
            RendererError::NoEglContext
        },
{
}

/// A video is fitted to the surface as it is, whatever the numbers of its display and context.
pub proof fn fitting_law(
    g: GlRenderer,
    h: GlRenderer,
    video: Dims,
    mode: ScaleMode,
    r: QuadScale,
    q: QuadScale,
)
    requires
        g.surface_dims == h.surface_dims,
        call_ensures(GlRenderer::set_video_dimensions, (&g, video.width, video.height, mode), r),
        call_ensures(GlRenderer::set_video_dimensions, (&h, video.width, video.height, mode), q),
    ensures
        r == q,
        r == scale::quad_scale_of(
            Dims { width: g.surface_dims.0, height: g.surface_dims.1 },
            video,
            mode,
        ),
{
}

/// A frame is drawn by its own texture, and only texture 0, which is none, is refused.
pub proof fn render_law(g: GlRenderer, frame: Frame, r: Result<u32, RendererError>)
    requires
        call_ensures(GlRenderer::render, (&g, &frame), r),
    ensures
        r is Ok <==> frame.texture_id > 0,
        r matches Ok(texture) ==> texture == frame.texture_id,
        r matches Err(e) ==> e == RendererError::ZeroTexture,
{
}

/// A new size of the surface is noted as it is. The window follows it exactly where it has an
/// area, and stays as it is where it has none.
pub proof fn resize_law(g: &mut GlRenderer, width: u32, height: u32, r: Option<Dims>)
    requires
        call_ensures(GlRenderer::set_surface_size, (g, width, height), r),
    ensures
        final(g).surface_dims.0 == width && final(g).surface_dims.1 == height,
        final(g).egl_display == old(g).egl_display,
        final(g).egl_context == old(g).egl_context,
        r is Some <==> width > 0 && height > 0,
        r matches Some(size) ==> size.width == width && size.height == height,
{
}

/// The messages name what was expected or what was 0.
pub proof fn message_law()
    ensures
        RendererError::NoEglDisplay.text() == "expected EGL display"@,
        RendererError::NoEglContext.text() == "expected EGL context"@,
        RendererError::ZeroWidth.text() == "zero width"@,
        RendererError::ZeroHeight.text() == "zero height"@,
        RendererError::ZeroTexture.text() == "zero GL texture id"@,
{
}

} // verus!
