//! What the flags of the command line mean.
use vstd::prelude::*;

use crate::backend::{PauseMode, RunOptions};
use crate::plan::{CliPerDisplay, Playback, PlaybackText};
use crate::scale::ScaleMode;
use crate::text;

verus! {

/// When playback pauses: on battery where that is asked for, else below the given charge.
pub open spec fn pause_of(on_battery: bool, below: Option<u8>) -> PauseMode {
    if on_battery {
        PauseMode::OnBattery
    } else {
        match below {
            Some(percent) => PauseMode::BelowPercent(percent),
            None => PauseMode::Never,
        }
    }
}

/// How the wallpaper is to be played.
pub fn run_options(on_battery: bool, below: Option<u8>, scale: ScaleMode) -> (r: RunOptions)
    ensures
        r == (RunOptions { pause: pause_of(on_battery, below), scale }),
{
    let pause = if on_battery {
        PauseMode::OnBattery
    } else {
        match below {
            Some(percent) => PauseMode::BelowPercent(percent),
            None => PauseMode::Never,
        }
    };
    RunOptions { pause, scale }
}

/// A pair of strings as plain text.
pub open spec fn pair_text(pair: (String, String)) -> (Seq<char>, Seq<char>) {
    (pair.0@, pair.1@)
}

/// Pairs of strings as plain text, in order.
pub open spec fn pair_texts(pairs: Seq<(String, String)>) -> Seq<(Seq<char>, Seq<char>)> {
    pairs.map_values(|pair: (String, String)| pair_text(pair))
}

/// The values two by two.
pub open spec fn paired(values: Seq<Seq<char>>) -> Seq<(Seq<char>, Seq<char>)> {
    Seq::new(values.len() / 2, |i: int| (values[2 * i], values[2 * i + 1]))
}

/// What the command line asks for display by display. The values of `--display` come in
/// twos: an ID and a path.
pub fn per_display(display: &Vec<String>, display_rand: Vec<String>) -> (r: CliPerDisplay)
    requires
        display@.len() % 2 == 0,
    ensures
        pair_texts(r.pinned@) == paired(text::views(display@)),
        r.random == display_rand,
{
    let ghost texts = text::views(display@);
    let mut pinned: Vec<(String, String)> = Vec::new();
    let mut i: usize = 0;
    assert(pair_texts(pinned@) =~= paired(texts).take(0));
    while i < display.len()
        invariant
            i <= display@.len(),
            i % 2 == 0,
            display@.len() % 2 == 0,
            texts == text::views(display@),
            pair_texts(pinned@) == paired(texts).take(i as int / 2),
        decreases display@.len() - i,
    {
        let ghost was = pinned@;
        let ghost k = i as int / 2;
        pinned.push((display[i].clone(), display[i + 1].clone()));
        assert(2 * k == i);
        assert(paired(texts)[k] == (texts[i as int], texts[i + 1]));
        assert(pair_texts(pinned@) =~= pair_texts(was).push(paired(texts)[k]));
        assert(paired(texts).take(k + 1) =~= paired(texts).take(k).push(paired(texts)[k]));
        i = i + 2;
    }
    assert(paired(texts).take(i as int / 2) =~= paired(texts));
    CliPerDisplay { pinned, random: display_rand }
}

/// The path that other tools are told of: that of the one video, where there is just one.
pub fn current_path(playback: &Playback) -> (r: Option<&str>)
    ensures
        text::str_view(r) == (match playback@ {
            PlaybackText::Mirror(path) => Some(path),
            PlaybackText::PerDisplay(_) => None,
        }),
{
    match playback {
        Playback::Mirror(path) => Some(path.as_str()),
        Playback::PerDisplay(_) => None,
    }
}

/// What went wrong when a shader file could not be read.
pub fn shader_context(path: &str) -> (r: String)
    ensures
        r@ == "failed to read shader file: "@ + path@,
{
    text::join2("failed to read shader file: ", path)
}

/// What the flags ask for: the flag for any battery wins over a charge, and without either
/// playback never pauses.
pub proof fn pause_of_law(below: Option<u8>, percent: u8)
    ensures
        pause_of(true, below) == PauseMode::OnBattery,
        pause_of(false, Some(percent)) == PauseMode::BelowPercent(percent),
        pause_of(false, None) == PauseMode::Never,
{
}

/// The values come in twos, in order: the first two make the first pair, and the rest the
/// further ones.
pub proof fn paired_law(id: Seq<char>, path: Seq<char>, rest: Seq<Seq<char>>)
    ensures
        paired(Seq::empty()) == Seq::<(Seq<char>, Seq<char>)>::empty(),
        paired(seq![id, path] + rest) == seq![(id, path)] + paired(rest),
{
    let all = seq![id, path] + rest;
    assert(all.len() / 2 == rest.len() / 2 + 1);
    assert forall|i: int| 0 < i < paired(all).len() implies #[trigger] paired(all)[i] == paired(
        rest,
    )[i - 1] by {
        assert(all[2 * i] == rest[2 * (i - 1)]);
        assert(all[2 * i + 1] == rest[2 * (i - 1) + 1]);
    }
    assert(paired(all) =~= seq![(id, path)] + paired(rest));
    assert(paired(Seq::empty()) =~= Seq::<(Seq<char>, Seq<char>)>::empty());
}

/// The options hold the mode of scaling that was asked for, and the pause that the flags ask
/// for.
pub proof fn options_law(on_battery: bool, below: Option<u8>, scale: ScaleMode, r: RunOptions)
    requires
        call_ensures(run_options, (on_battery, below, scale), r),
    ensures
        r.scale == scale,
        on_battery ==> r.pause == PauseMode::OnBattery,
        !on_battery && below is Some ==> r.pause == PauseMode::BelowPercent(below->0),
        !on_battery && below is None ==> r.pause == PauseMode::Never,
{
}

/// Each pair on the command line pins one display, in order, to its own path; the displays for
/// random picks stay as they are.
pub proof fn per_display_law(
    display: Vec<String>,
    display_rand: Vec<String>,
    r: CliPerDisplay,
    i: int,
)
    requires
        call_ensures(per_display, (&display, display_rand), r),
        0 <= i < r.pinned@.len(),
    ensures
        r.pinned@.len() == display@.len() / 2,
        r.pinned@[i].0@ == display@[2 * i]@,
        r.pinned@[i].1@ == display@[2 * i + 1]@,
        r.random == display_rand,
{
    let texts = text::views(display@);
    assert(pair_texts(r.pinned@)[i] == paired(texts)[i]);
    assert(pair_texts(r.pinned@).len() == paired(texts).len());
    assert(texts[2 * i] == display@[2 * i]@);
    assert(texts[2 * i + 1] == display@[2 * i + 1]@);
}

} // verus!
