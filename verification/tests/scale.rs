use phonto::scale::{quad_scale, Dims, QuadScale, Ratio, ScaleMode};

fn d(width: u32, height: u32) -> Dims {
    Dims { width, height }
}

fn q(x: (u64, u64), y: (u64, u64)) -> QuadScale {
    QuadScale { x: Ratio { num: x.0, den: x.1 }, y: Ratio { num: y.0, den: y.1 } }
}

#[test]
fn stretch_takes_the_screen() {
    assert_eq!(quad_scale(d(1920, 1080), d(100, 900), ScaleMode::Stretch), q((1, 1), (1, 1)));
}

#[test]
fn fit_lies_inside_the_screen() {
    // A video twice as wide as high on a square screen takes half its height.
    assert_eq!(quad_scale(d(100, 100), d(200, 100), ScaleMode::Fit), q((1, 1), (10000, 20000)));
    assert_eq!(quad_scale(d(100, 100), d(100, 200), ScaleMode::Fit), q((10000, 20000), (1, 1)));
}

#[test]
fn fill_covers_the_screen() {
    assert_eq!(quad_scale(d(100, 100), d(200, 100), ScaleMode::Fill), q((20000, 10000), (1, 1)));
    assert_eq!(quad_scale(d(100, 100), d(100, 200), ScaleMode::Fill), q((1, 1), (20000, 10000)));
}

#[test]
fn center_keeps_the_pixels() {
    assert_eq!(quad_scale(d(1920, 1080), d(640, 480), ScaleMode::Center), q((640, 1920), (480, 1080)));
}

#[test]
fn a_side_of_zero_scales_nothing() {
    for mode in [ScaleMode::Stretch, ScaleMode::Fit, ScaleMode::Fill, ScaleMode::Center] {
        assert_eq!(quad_scale(d(0, 1080), d(1, 1), mode), q((1, 1), (1, 1)));
        assert_eq!(quad_scale(d(1, 1), d(1, 0), mode), q((1, 1), (1, 1)));
    }
}

#[test]
fn the_largest_sizes_do_not_overflow() {
    let m = u32::MAX;
    let n = m as u64 * m as u64;
    assert_eq!(quad_scale(d(m, m), d(m, m), ScaleMode::Fit), q((n, n), (1, 1)));
}

#[test]
fn proportions_are_kept() {
    for (screen, video) in [(d(1920, 1080), d(640, 480)), (d(1080, 1920), d(3840, 2160))] {
        for mode in [ScaleMode::Fit, ScaleMode::Fill] {
            let s = quad_scale(screen, video, mode);
            let x = s.x.num as f64 / s.x.den as f64 * screen.width as f64;
            let y = s.y.num as f64 / s.y.den as f64 * screen.height as f64;
            assert!((x / y - video.width as f64 / video.height as f64).abs() < 1e-9);
        }
    }
}
