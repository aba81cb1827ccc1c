//! How a video is fitted to a screen.
use vstd::prelude::*;

verus! {

#[derive(Copy, Clone, Debug, PartialEq, Eq, Structural)]
pub enum ScaleMode {
    /// Distort the video to fill the screen exactly. Aspect not preserved.
    Stretch,
    /// Preserve aspect, fit entire video inside the screen with letterbox bars.
    Fit,
    /// Preserve aspect, fill the screen by cropping overflow.
    Fill,
    /// Render at native pixel size, centered. Cropped if larger than screen.
    Center,
}

/// A fraction.
#[derive(Copy, Clone, Debug, PartialEq, Eq, Structural)]
pub struct Ratio {
    pub num: u64,
    pub den: u64,
}

/// The part of the screen that the video takes up: 1 is the whole side, more than 1 is
/// cropped.
#[derive(Copy, Clone, Debug, PartialEq, Eq, Structural)]
pub struct QuadScale {
    pub x: Ratio,
    pub y: Ratio,
}

/// A size in pixels.
#[derive(Copy, Clone, Debug, PartialEq, Eq, Structural)]
pub struct Dims {
    pub width: u32,
    pub height: u32,
}

/// The whole.
pub open spec fn one() -> Ratio {
    Ratio { num: 1, den: 1 }
}

/// Neither side is 0.
pub open spec fn has_area(d: Dims) -> bool {
    d.width != 0 && d.height != 0
}

/// The width of `a` over that of `b`, were both of one height.
pub open spec fn aspect_over(a: Dims, b: Dims) -> Ratio {
    Ratio { num: (a.width * b.height) as u64, den: (b.width * a.height) as u64 }
}

/// The video is wider than the screen, were both of one height.
pub open spec fn wider(video: Dims, screen: Dims) -> bool {
    video.width * screen.height > screen.width * video.height
}

/// The scale at which the video is drawn.
pub open spec fn quad_scale_of(screen: Dims, video: Dims, mode: ScaleMode) -> QuadScale {
    if !has_area(screen) || !has_area(video) {
        QuadScale { x: one(), y: one() }
    } else {
        match mode {
            ScaleMode::Stretch => QuadScale { x: one(), y: one() },
            ScaleMode::Fit => if wider(video, screen) {
                QuadScale { x: one(), y: aspect_over(screen, video) }
            } else {
                QuadScale { x: aspect_over(video, screen), y: one() }
            },
            ScaleMode::Fill => if wider(video, screen) {
                QuadScale { x: aspect_over(video, screen), y: one() }
            } else {
                QuadScale { x: one(), y: aspect_over(screen, video) }
            },
            ScaleMode::Center => QuadScale {
                x: Ratio { num: video.width as u64, den: screen.width as u64 },
                y: Ratio { num: video.height as u64, den: screen.height as u64 },
            },
        }
    }
}

/// The product of two lengths.
fn area(a: u32, b: u32) -> (r: u64)
    ensures
        r == a * b,
{
    assert(a * b <= 0xffff_ffff * 0xffff_ffff) by (nonlinear_arith)
        requires
            a <= 0xffff_ffff,
            b <= 0xffff_ffff,
    ;
    a as u64 * b as u64
}

/// The scale at which a video of this size is drawn on a screen of this size.
pub fn quad_scale(screen: Dims, video: Dims, mode: ScaleMode) -> (r: QuadScale)
    ensures
        r == quad_scale_of(screen, video, mode),
{
    let one = Ratio { num: 1, den: 1 };
    if screen.width == 0 || screen.height == 0 || video.width == 0 || video.height == 0 {
        return QuadScale { x: one, y: one };
    }
    let across: u64 = area(video.width, screen.height);
    let down: u64 = area(screen.width, video.height);
    let video_over_screen = Ratio { num: across, den: down };
    let screen_over_video = Ratio { num: down, den: across };
    match mode {
        ScaleMode::Stretch => QuadScale { x: one, y: one },
        ScaleMode::Fit => if across > down {
            QuadScale { x: one, y: screen_over_video }
        } else {
            QuadScale { x: video_over_screen, y: one }
        },
        ScaleMode::Fill => if across > down {
            QuadScale { x: video_over_screen, y: one }
        } else {
            QuadScale { x: one, y: screen_over_video }
        },
        ScaleMode::Center => QuadScale {
            x: Ratio { num: video.width as u64, den: screen.width as u64 },
            y: Ratio { num: video.height as u64, den: screen.height as u64 },
        },
    }
}

/// The video is drawn in its own proportions: the drawn width and height, `x` and `y` of the
/// screen's, relate as those of the video.
pub open spec fn keeps_aspect(q: QuadScale, screen: Dims, video: Dims) -> bool {
    (q.x.num * q.y.den) * (screen.width * video.height) == (q.y.num * q.x.den) * (video.width
        * screen.height)
}

/// The fraction is at most 1.
pub open spec fn within(r: Ratio) -> bool {
    r.num <= r.den
}

/// The fraction is at least 1.
pub open spec fn covers(r: Ratio) -> bool {
    r.num >= r.den
}

/// Products of lengths fit, and are positive where the lengths are.
proof fn area_facts(a: u32, b: u32)
    requires
        a > 0,
        b > 0,
    ensures
        0 < a * b <= u64::MAX,
{
    assert(0 < a * b <= 0xffff_ffff * 0xffff_ffff) by (nonlinear_arith)
        requires
            0 < a <= 0xffff_ffff,
            0 < b <= 0xffff_ffff,
    ;
}

/// What the modes promise. Stretch takes the screen exactly. Fit keeps the proportions, lies
/// inside the screen and reaches across it one way. Fill keeps the proportions, covers the
/// screen and is as large as the screen one way. Center keeps every pixel its size.
pub proof fn scale_law(screen: Dims, video: Dims)
    requires
        screen.width > 0,
        screen.height > 0,
        video.width > 0,
        video.height > 0,
    ensures
        quad_scale_of(screen, video, ScaleMode::Stretch) == (QuadScale { x: one(), y: one() }),
        ({
            let q = quad_scale_of(screen, video, ScaleMode::Fit);
            &&& q.x.den > 0 && q.y.den > 0
            &&& keeps_aspect(q, screen, video)
            &&& within(q.x) && within(q.y)
            &&& q.x == one() || q.y == one()
        }),
        ({
            let q = quad_scale_of(screen, video, ScaleMode::Fill);
            &&& q.x.den > 0 && q.y.den > 0
            &&& keeps_aspect(q, screen, video)
            &&& covers(q.x) && covers(q.y)
            &&& q.x == one() || q.y == one()
        }),
        ({
            let q = quad_scale_of(screen, video, ScaleMode::Center);
            &&& q.x.den > 0 && q.y.den > 0
            &&& q.x.num * screen.width == video.width * q.x.den
            &&& q.y.num * screen.height == video.height * q.y.den
        }),
{
    area_facts(video.width, screen.height);
    area_facts(screen.width, video.height);
    let a = video.width * screen.height;
    let b = screen.width * video.height;
    assert(a * b == b * a) by (nonlinear_arith);
    assert((1 * b) == b && (a * 1) == a && (1 * a) == a && (b * 1) == b);
}

/// Without an area, of the screen or of the video, nothing is scaled, whatever the mode.
pub proof fn no_area_law(screen: Dims, video: Dims, mode: ScaleMode)
    requires
        screen.width == 0 || screen.height == 0 || video.width == 0 || video.height == 0,
    ensures
        ({
            let q = quad_scale_of(screen, video, mode);
            q.x.num == 1 && q.x.den == 1 && q.y.num == 1 && q.y.den == 1
        }),
{
}

} // verus!
