use phonto::backend::wayland::decoder::{
    links_pad, react, resolve_context, source_uri, user_agent, BusAction, BusEvent, Frame,
    SourceUri, USER_AGENT,
};
use phonto::backend::wayland::gl_renderer::{
    create_surface, fragment_source, GlRenderer, RendererError, FRAGMENT_SHADER, VERTEX_SHADER,
};
use phonto::backend::wayland::LayerMode;
use phonto::decoder;
use phonto::scale::{Dims, Ratio, ScaleMode};
use phonto::wayland::{Bind, State, SurfaceError};

#[test]
fn a_renderer_needs_egl() {
    assert_eq!(
        GlRenderer::new(None, None, 1, 1).unwrap_err().message(),
        "expected EGL display"
    );
    assert_eq!(
        GlRenderer::new(Some(1), None, 1, 1).unwrap_err().message(),
        "expected EGL context"
    );
    let r = GlRenderer::new(Some(3), Some(4), 640, 480).unwrap();
    assert_eq!((r.egl_display(), r.egl_context(), r.surface_dims()), (3, 4, (640, 480)));
}

#[test]
fn a_surface_has_an_area() {
    assert_eq!(create_surface(0, 0), Err(RendererError::ZeroWidth));
    assert_eq!(create_surface(1, 0), Err(RendererError::ZeroHeight));
    assert_eq!(create_surface(2, 3), Ok(Dims { width: 2, height: 3 }));
    assert_eq!(RendererError::ZeroWidth.message(), "zero width");
    assert_eq!(RendererError::ZeroHeight.message(), "zero height");
}

#[test]
fn the_surface_is_resized() {
    let mut r = GlRenderer::new(Some(3), Some(4), 640, 480).unwrap();
    assert_eq!(r.set_surface_size(0, 5), None);
    assert_eq!(r.surface_dims(), (0, 5));
    assert_eq!(r.set_surface_size(100, 50), Some(Dims { width: 100, height: 50 }));
    let scale = r.set_video_dimensions(50, 50, ScaleMode::Center);
    assert_eq!(scale.x, Ratio { num: 50, den: 100 });
    assert_eq!(scale.y, Ratio { num: 50, den: 50 });
}

#[test]
fn a_frame_needs_a_texture() {
    let r = GlRenderer::new(Some(3), Some(4), 1, 1).unwrap();
    let frame = |texture_id| Frame { texture_id, width: 1, height: 1 };
    assert_eq!(r.render(&frame(9)), Ok(9));
    assert_eq!(r.render(&frame(0)).unwrap_err().message(), "zero GL texture id");
}

#[test]
fn shaders() {
    assert_eq!(fragment_source(None), FRAGMENT_SHADER);
    assert_eq!(fragment_source(Some("void main() {}")), "void main() {}");
    assert!(VERTEX_SHADER.starts_with("#version 300 es\n"));
}

#[test]
fn sources_of_a_pipeline() {
    assert!(matches!(source_uri("https://x/v"), SourceUri::Remote(u) if u == "https://x/v"));
    assert!(matches!(source_uri("v.mp4"), SourceUri::Local(p) if p == "v.mp4"));
    assert_eq!(resolve_context("v.mp4"), "resolve path v.mp4");
    assert_eq!(user_agent(true), Some(USER_AGENT));
    assert_eq!(user_agent(false), None);
    assert!(links_pad(true, Some(false)));
    assert!(!links_pad(true, Some(true)));
    assert!(!links_pad(true, None));
    assert!(!links_pad(false, Some(false)));
}

#[test]
fn a_video_starts_over() {
    assert_eq!(react(BusEvent::EndOfStream), BusAction::Seek);
    assert_eq!(react(BusEvent::Sought { ok: true }), BusAction::Listen);
    assert_eq!(react(BusEvent::Sought { ok: false }), BusAction::Restart);
    assert_eq!(react(BusEvent::Error), BusAction::Fail);
    assert_eq!(react(BusEvent::Other), BusAction::Listen);
    assert_eq!(react(BusEvent::Closed), BusAction::Stop);
}

#[test]
fn a_described_pipeline_cannot_be_built_anew() {
    assert_eq!(decoder::react(BusEvent::EndOfStream), BusAction::Seek);
    assert_eq!(decoder::react(BusEvent::Sought { ok: false }), BusAction::Fail);
    assert_eq!(decoder::react(BusEvent::Sought { ok: true }), BusAction::Listen);
    assert_eq!(decoder::react(BusEvent::Error), BusAction::Fail);
    assert_eq!(decoder::react(BusEvent::Other), BusAction::Listen);
    assert_eq!(decoder::react(BusEvent::Closed), BusAction::Stop);
    assert_eq!(
        decoder::pipeline_description("/v.mp4"),
        "filesrc location=\"/v.mp4\" ! decodebin3 ! glupload ! glcolorconvert ! \
         appsink name=sink caps=video/x-raw(memory:GLMemory),format=RGBA,texture-target=2D \
         sync=true max-buffers=1"
    );
}

#[test]
fn one_background_surface() {
    let mut s = State::new();
    assert_eq!(s.create_background_surface(), Err(SurfaceError::MissingCompositor));
    assert_eq!(s.global("wl_compositor", 9), Some(Bind::Compositor { version: 4 }));
    let e = s.create_background_surface().unwrap_err();
    assert_eq!(e.message(), "zwlr_layer_shell_v1 missing");
    assert_eq!(SurfaceError::MissingCompositor.message(), "wl_compositor missing");
    assert_eq!(s.global("zwlr_layer_shell_v1", 1), Some(Bind::LayerShell { version: 1 }));
    assert_eq!(s.global("wl_output", 1), None);
    assert_eq!(s.create_background_surface(), Ok(()));
    assert!(s.wait_until_configured());
    s.configure(0, 9);
    assert!(!s.wait_until_configured());
    assert_eq!((s.width, s.height), (1, 1));
    s.configure(8, 9);
    assert_eq!((s.width, s.height), (8, 9));
    assert!(!s.wait_for_frame_callback());
    s.request_frame_callback();
    assert!(s.wait_for_frame_callback());
    s.frame_done();
    assert!(!s.wait_for_frame_callback());
}

#[test]
fn the_wallpaper_lies_in_the_background() {
    assert_eq!(LayerMode::default(), LayerMode::Background);
}
