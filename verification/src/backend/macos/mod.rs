//! The macOS backend.
pub mod battery_observer;
pub mod screen_observer;
pub mod shuffle_observer;

use vstd::hash_map::StringHashMap;
use vstd::prelude::*;

use crate::backend::wayland::layout;
use crate::backend::PauseMode;
use crate::config;
use crate::plan;
use crate::plan::{Playback, PlaybackText, ResolvedText};
use crate::scale;
use crate::scale::{Dims, ScaleMode};
use crate::seqs;
use crate::text;

verus! {

/// One below the level of the desktop window, so a static system wallpaper sits on top of us.
pub const WALLPAPER_LEVEL: isize = -2_147_483_624;

/// How a player layer fits the video.
#[derive(Debug, Clone, Copy, PartialEq, Eq, Structural)]
pub enum VideoGravity {
    Resize,
    ResizeAspect,
    ResizeAspectFill,
    /// The layer has the size of the video: see [`native_frame`].
    Native,
}

/// How a player layer fits the video.
pub fn video_gravity_for(scale: ScaleMode) -> (r: VideoGravity)
    ensures
        r == (match scale {
            ScaleMode::Stretch => VideoGravity::Resize,
            ScaleMode::Fit => VideoGravity::ResizeAspect,
            ScaleMode::Fill => VideoGravity::ResizeAspectFill,
            ScaleMode::Center => VideoGravity::Native,
        }),
{
    match scale {
        ScaleMode::Stretch => VideoGravity::Resize,
        ScaleMode::Fit => VideoGravity::ResizeAspect,
        ScaleMode::Fill => VideoGravity::ResizeAspectFill,
        ScaleMode::Center => VideoGravity::Native,
    }
}

/// Where a player layer lies on its screen, in pixels. What lies outside is cropped.
#[derive(Debug, Clone, Copy, PartialEq, Eq, Structural)]
pub struct LayerFrame {
    /// The margin left of the layer.
    pub left: i64,
    /// The margin below the layer.
    pub bottom: i64,
    pub width: u32,
    pub height: u32,
}

impl LayerFrame {
    /// The margin right of the layer.
    pub open spec fn right(self, screen: Dims) -> int {
        screen.width - self.left - self.width
    }

    /// The margin above the layer.
    pub open spec fn top(self, screen: Dims) -> int {
        screen.height - self.bottom - self.height
    }
}

/// The first of two margins, around a side on a longer or a shorter one: half of what is left
/// over, rounded down.
pub open spec fn first_margin(around: u32, side: u32) -> i64 {
    ((around - side) / 2) as i64
}

/// The first of two margins.
fn margin(around: u32, side: u32) -> (r: i64)
    ensures
        r == first_margin(around, side),
        r == (around - side) / 2,
{
    let over: i64 = around as i64 - side as i64;
    if over >= 0 {
        over / 2
    } else {
        let short: i64 = -over;
        -(short / 2 + short % 2)
    }
}

/// A layer of the video's own size, centered.
pub open spec fn native_frame_of(screen: Dims, video: Dims) -> LayerFrame {
    LayerFrame {
        left: first_margin(screen.width, video.width),
        bottom: first_margin(screen.height, video.height),
        width: video.width,
        height: video.height,
    }
}

/// The frame of a layer that shows the video at native pixel size: as large as the video, and
/// centered on the screen to within a pixel.
pub fn native_frame(screen: Dims, video: Dims) -> (r: LayerFrame)
    ensures
        r == native_frame_of(screen, video),
        r.width == video.width,
        r.height == video.height,
        0 <= r.right(screen) - r.left <= 1,
        0 <= r.top(screen) - r.bottom <= 1,
{
    LayerFrame {
        left: margin(screen.width, video.width),
        bottom: margin(screen.height, video.height),
        width: video.width,
        height: video.height,
    }
}

/// The frame of a player layer.
pub open spec fn layer_frame_of(gravity: VideoGravity, screen: Dims, video: Dims) -> LayerFrame {
    if gravity == VideoGravity::Native && scale::has_area(video) {
        native_frame_of(screen, video)
    } else {
        LayerFrame { left: 0, bottom: 0, width: screen.width, height: screen.height }
    }
}

/// The frame of a player layer: the whole screen, but for a video at native size. A video
/// without area is one whose size is not known; its layer takes the whole screen too.
pub fn layer_frame(gravity: VideoGravity, screen: Dims, video: Dims) -> (r: LayerFrame)
    ensures
        r == layer_frame_of(gravity, screen, video),
{
    if gravity == VideoGravity::Native && video.width != 0 && video.height != 0 {
        native_frame(screen, video)
    } else {
        LayerFrame { left: 0, bottom: 0, width: screen.width, height: screen.height }
    }
}

/// Where a player gets its video from.
#[derive(Debug)]
pub enum PlayerUrl {
    /// A URL, to be read as it is.
    Remote(String),
    /// A file, by this path.
    File(String),
}

/// A [`PlayerUrl`] as plain text.
pub enum PlayerUrlText {
    Remote(Seq<char>),
    File(Seq<char>),
}

impl View for PlayerUrl {
    type V = PlayerUrlText;

    open spec fn view(&self) -> PlayerUrlText {
        match self {
            PlayerUrl::Remote(s) => PlayerUrlText::Remote(s@),
            PlayerUrl::File(s) => PlayerUrlText::File(s@),
        }
    }
}

/// Where the player of a video gets it from. `canonical` is the absolute form of the path,
/// where the system knows one.
pub fn make_player(video_path: &str, canonical: Option<&str>) -> (r: PlayerUrl)
    ensures
        r@ == (if config::is_url_text(video_path@) {
            PlayerUrlText::Remote(video_path@)
        } else {
            match text::str_view(canonical) {
                Some(absolute) => PlayerUrlText::File(absolute),
                None => PlayerUrlText::File(video_path@),
            }
        }),
{
    if config::is_url(video_path) {
        PlayerUrl::Remote(video_path.to_owned())
    } else {
        match canonical {
            Some(absolute) => PlayerUrl::File(absolute.to_owned()),
            None => PlayerUrl::File(video_path.to_owned()),
        }
    }
}

/// Which player a screen shows.
pub enum AttachPolicy {
    /// The one player there is.
    Mirror,
    /// The player, by position, for the screen of this name.
    PerDisplay(StringHashMap<usize>),
}

/// An [`AttachPolicy`] as plain values.
pub enum PolicyText {
    Mirror,
    PerDisplay(Map<Seq<char>, usize>),
}

impl View for AttachPolicy {
    type V = PolicyText;

    open spec fn view(&self) -> PolicyText {
        match self {
            AttachPolicy::Mirror => PolicyText::Mirror,
            AttachPolicy::PerDisplay(by_id) => PolicyText::PerDisplay(by_id@),
        }
    }
}

impl PolicyText {
    /// The player that the screen of this name shows, if any.
    pub open spec fn player(self, screen: Seq<char>) -> Option<usize> {
        match self {
            PolicyText::Mirror => Some(0),
            PolicyText::PerDisplay(by_id) => if by_id.contains_key(screen) {
                Some(by_id[screen])
            } else {
                None
            },
        }
    }
}

/// The players of a playback and which screen shows which.
pub struct Players {
    /// The videos, each with a player of its own.
    pub paths: Vec<String>,
    pub policy: AttachPolicy,
}

/// The policy that a playback asks for.
pub open spec fn policy_of(playback: PlaybackText) -> PolicyText {
    match playback {
        PlaybackText::Mirror(_) => PolicyText::Mirror,
        PlaybackText::PerDisplay(assignments) => PolicyText::PerDisplay(
            layout::positions(assignments),
        ),
    }
}

/// The videos of a playback, in order.
pub open spec fn paths_of(playback: PlaybackText) -> Seq<Seq<char>> {
    match playback {
        PlaybackText::Mirror(path) => seq![path],
        PlaybackText::PerDisplay(assignments) => assignments.map_values(|a: ResolvedText| a.path),
    }
}

/// Why there is nothing to play on.
#[derive(Debug, Clone, Copy, PartialEq, Eq, Structural)]
pub enum AttachError {
    NoScreens,
}

impl AttachError {
    /// The message that tells the user what is wrong.
    pub fn message(&self) -> (r: &'static str)
        ensures
            r@ == "no screens detected"@,
    {
        "no screens detected"
    }
}

/// A surface to build: on this screen, by position, for this player.
#[derive(Debug, Clone, Copy, PartialEq, Eq, Structural)]
pub struct Surface {
    pub screen: usize,
    pub player: usize,
}

/// The surfaces on the screens that show a player, in the order of the screens.
pub open spec fn surfaces_on(policy: PolicyText, screens: Seq<Seq<char>>) -> Seq<Surface>
    decreases screens.len(),
{
    if screens.len() == 0 {
        Seq::empty()
    } else {
        let before = surfaces_on(policy, screens.drop_last());
        match policy.player(screens.last()) {
            Some(player) => before.push(
                Surface { screen: (screens.len() - 1) as usize, player },
            ),
            None => before,
        }
    }
}

/// The surfaces to add on the screens that show a player, in the order of the screens: on
/// those whose name no attached surface has.
pub open spec fn fresh_on(
    policy: PolicyText,
    attached: Seq<Seq<char>>,
    screens: Seq<Seq<char>>,
) -> Seq<Surface>
    decreases screens.len(),
{
    if screens.len() == 0 {
        Seq::empty()
    } else {
        let before = fresh_on(policy, attached, screens.drop_last());
        match policy.player(screens.last()) {
            Some(player) => if attached.contains(screens.last()) {
                before
            } else {
                before.push(Surface { screen: (screens.len() - 1) as usize, player })
            },
            None => before,
        }
    }
}

impl Players {
    /// The players of a playback.
    pub fn new(playback: Playback) -> (r: Players)
        ensures
            text::views(r.paths@) == paths_of(playback@),
            r.policy@ == policy_of(playback@),
    {
        match playback {
            Playback::Mirror(path) => {
                let mut paths: Vec<String> = Vec::new();
                paths.push(path);
                assert(text::views(paths@) =~= seq![path@]);
                Players { paths, policy: AttachPolicy::Mirror }
            },
            Playback::PerDisplay(assignments) => {
                let ghost texts = plan::resolved_texts(assignments@);
                let ghost want = texts.map_values(|a: ResolvedText| a.path);
                let mut paths: Vec<String> = Vec::new();
                let mut by_id: StringHashMap<usize> = StringHashMap::new();
                let mut i: usize = 0;
                assert(text::views(paths@) =~= want.take(0));
                assert(texts.take(0) =~= Seq::empty());
                while i < assignments.len()
                    invariant
                        i <= assignments@.len(),
                        texts == plan::resolved_texts(assignments@),
                        want == texts.map_values(|a: ResolvedText| a.path),
                        text::views(paths@) == want.take(i as int),
                        by_id@ == layout::positions(texts.take(i as int)),
                    decreases assignments@.len() - i,
                {
                    assert(texts.take(i + 1).drop_last() =~= texts.take(i as int));
                    let ghost was = paths@;
                    paths.push(assignments[i].path.clone());
                    assert(text::views(paths@) =~= text::views(was).push(want[i as int]));
                    assert(want.take(i + 1) =~= want.take(i as int).push(want[i as int]));
                    by_id.insert(assignments[i].native_id.clone(), i);
                    i = i + 1;
                }
                assert(want.take(i as int) =~= want);
                assert(texts.take(i as int) =~= texts);
                Players { paths, policy: AttachPolicy::PerDisplay(by_id) }
            },
        }
    }

    /// The player that the screen of this name shows, if any.
    pub fn player(&self, screen: &str) -> (r: Option<usize>)
        ensures
            r == self.policy@.player(screen@),
    {
        match &self.policy {
            AttachPolicy::Mirror => Some(0),
            AttachPolicy::PerDisplay(by_id) => match by_id.get(screen) {
                Some(idx) => Some(*idx),
                None => None,
            },
        }
    }

    /// The surfaces to build on the screens, given by their names. One video for all needs a
    /// screen; videos by display may wait for theirs to appear.
    pub fn surfaces(&self, screens: &Vec<String>) -> (r: Result<Vec<Surface>, AttachError>)
        ensures
            r is Err <==> self.policy@ is Mirror && screens@.len() == 0,
            r is Ok ==> r->Ok_0@ == surfaces_on(self.policy@, text::views(screens@)),
    {
        let ghost texts = text::views(screens@);
        let mut r: Vec<Surface> = Vec::new();
        let mut i: usize = 0;
        assert(texts.take(0) =~= Seq::empty());
        while i < screens.len()
            invariant
                i <= screens@.len(),
                texts == text::views(screens@),
                r@ == surfaces_on(self.policy@, texts.take(i as int)),
                self.policy@ is Mirror ==> r@.len() == i,
            decreases screens@.len() - i,
        {
            assert(texts.take(i + 1).drop_last() =~= texts.take(i as int));
            match self.player(screens[i].as_str()) {
                Some(player) => {
                    r.push(Surface { screen: i, player });
                },
                None => {},
            }
            i = i + 1;
        }
        assert(texts.take(i as int) =~= texts);
        match &self.policy {
            AttachPolicy::Mirror => if r.len() == 0 {
                Err(AttachError::NoScreens)
            } else {
                Ok(r)
            },
            AttachPolicy::PerDisplay(_) => Ok(r),
        }
    }

    /// The surfaces to add when the screens have changed, given by their names: one on each
    /// screen that shows a player and whose name none of the attached surfaces has.
    pub fn attach(&self, attached: &Vec<String>, screens: &Vec<String>) -> (r: Vec<Surface>)
        ensures
            r@ == fresh_on(self.policy@, text::views(attached@), text::views(screens@)),
    {
        let ghost texts = text::views(screens@);
        let mut r: Vec<Surface> = Vec::new();
        let mut i: usize = 0;
        assert(texts.take(0) =~= Seq::empty());
        while i < screens.len()
            invariant
                i <= screens@.len(),
                texts == text::views(screens@),
                r@ == fresh_on(self.policy@, text::views(attached@), texts.take(i as int)),
            decreases screens@.len() - i,
        {
            assert(texts.take(i + 1).drop_last() =~= texts.take(i as int));
            match self.player(screens[i].as_str()) {
                Some(player) => {
                    if !text::has_text(attached, screens[i].as_str()) {
                        r.push(Surface { screen: i, player });
                    }
                },
                None => {},
            }
            i = i + 1;
        }
        assert(texts.take(i as int) =~= texts);
        r
    }
}

/// Whether the battery is watched.
pub fn watches_battery(pause: PauseMode) -> (r: bool)
    ensures
        r == (pause != PauseMode::Never),
{
    !matches!(pause, PauseMode::Never)
}

/// A screen gets a surface exactly where the policy gives it a player, and that player's.
/// Screens without a player are left alone.
pub proof fn surfaces_law(policy: PolicyText, screens: Seq<Seq<char>>)
    requires
        screens.len() <= usize::MAX,
    ensures
        forall|s: Surface| #[trigger]
            surfaces_on(policy, screens).contains(s) <==> s.screen < screens.len()
                && policy.player(screens[s.screen as int]) == Some(s.player),
    decreases screens.len(),
{
    if screens.len() > 0 {
        let front = screens.drop_last();
        let before = surfaces_on(policy, front);
        let last = (screens.len() - 1) as usize;
        surfaces_law(policy, front);
        let player = policy.player(screens.last());
        if player is Some {
            seqs::contains_push(before, Surface { screen: last, player: player->0 });
        }
        assert forall|s: Surface| #[trigger]
            surfaces_on(policy, screens).contains(s) <==> s.screen < screens.len()
                && policy.player(screens[s.screen as int]) == Some(s.player) by {
            assert(before.contains(s) <==> s.screen < front.len() && policy.player(
                front[s.screen as int],
            ) == Some(s.player));
        }
    }
}

/// A screen that appears gets a surface exactly where the policy gives it a player and no
/// surface of its name is attached. Where nothing is attached that is as at the start; where
/// every screen with a player has its surface, nothing is added.
pub proof fn attach_law(policy: PolicyText, attached: Seq<Seq<char>>, screens: Seq<Seq<char>>)
    requires
        screens.len() <= usize::MAX,
    ensures
        forall|s: Surface| #[trigger]
            fresh_on(policy, attached, screens).contains(s) <==> s.screen < screens.len()
                && policy.player(screens[s.screen as int]) == Some(s.player) && !attached.contains(
                screens[s.screen as int],
            ),
        attached.len() == 0 ==> fresh_on(policy, attached, screens) == surfaces_on(policy, screens),
        (forall|name: Seq<char>| #[trigger]
            screens.contains(name) && policy.player(name) is Some ==> attached.contains(name))
            ==> fresh_on(policy, attached, screens).len() == 0,
    decreases screens.len(),
{
    if screens.len() > 0 {
        let front = screens.drop_last();
        let before = fresh_on(policy, attached, front);
        let last = (screens.len() - 1) as usize;
        attach_law(policy, attached, front);
        let player = policy.player(screens.last());
        if player is Some && !attached.contains(screens.last()) {
            seqs::contains_push(before, Surface { screen: last, player: player->0 });
        }
        assert forall|s: Surface| #[trigger]
            fresh_on(policy, attached, screens).contains(s) <==> s.screen < screens.len()
                && policy.player(screens[s.screen as int]) == Some(s.player) && !attached.contains(
                screens[s.screen as int],
            ) by {
            assert(before.contains(s) <==> s.screen < front.len() && policy.player(
                front[s.screen as int],
            ) == Some(s.player) && !attached.contains(front[s.screen as int]));
        }
    }
    let fresh = fresh_on(policy, attached, screens);
    if fresh.len() > 0 {
        assert(fresh.contains(fresh[0]));
        assert(screens.contains(screens[fresh[0].screen as int]));
    }
}

/// A video at native size keeps every pixel its size and lies in the middle, the margins on
/// opposite sides equal to within a pixel. It is cropped exactly where it is larger than the
/// screen.
pub proof fn center_law(screen: Dims, video: Dims)
    requires
        video.width > 0,
        video.height > 0,
    ensures
        ({
            let f = layer_frame_of(VideoGravity::Native, screen, video);
            &&& f.width == video.width && f.height == video.height
            &&& 0 <= f.right(screen) - f.left <= 1
            &&& 0 <= f.top(screen) - f.bottom <= 1
            &&& f.left < 0 <==> video.width > screen.width
            &&& f.bottom < 0 <==> video.height > screen.height
        }),
{
}

/// The surfaces come in the order of the screens, one for a screen at most, at the start and
/// when screens appear.
pub proof fn surfaces_order_law(
    policy: PolicyText,
    attached: Seq<Seq<char>>,
    screens: Seq<Seq<char>>,
)
    requires
        screens.len() <= usize::MAX,
    ensures
        forall|i: int, j: int|
            0 <= i < j < surfaces_on(policy, screens).len() ==> (#[trigger] surfaces_on(
                policy,
                screens,
            )[i]).screen < (#[trigger] surfaces_on(policy, screens)[j]).screen,
        forall|i: int, j: int|
            0 <= i < j < fresh_on(policy, attached, screens).len() ==> (#[trigger] fresh_on(
                policy,
                attached,
                screens,
            )[i]).screen < (#[trigger] fresh_on(policy, attached, screens)[j]).screen,
    decreases screens.len(),
{
    if screens.len() > 0 {
        let front = screens.drop_last();
        surfaces_order_law(policy, attached, front);
        surfaces_law(policy, front);
        attach_law(policy, attached, front);
        let built = surfaces_on(policy, front);
        let fresh = fresh_on(policy, attached, front);
        assert forall|i: int| 0 <= i < built.len() implies (#[trigger] built[i]).screen
            < front.len() by {
            assert(built.contains(built[i]));
        }
        assert forall|i: int| 0 <= i < fresh.len() implies (#[trigger] fresh[i]).screen
            < front.len() by {
            assert(fresh.contains(fresh[i]));
        }
    }
}

/// Which player a screen shows. One video for all is shown on every screen; a video by display
/// on the screen that its assignment names, and on no other: the player at a place plays the
/// video of the assignment there. Both are as on the outputs of the other backend.
pub proof fn policy_law(assignments: Seq<ResolvedText>, path: Seq<char>, screen: Seq<char>)
    requires
        0 < assignments.len() <= usize::MAX,
    ensures
        policy_of(PlaybackText::Mirror(path)).player(screen) == Some(0usize),
        paths_of(PlaybackText::Mirror(path)) == seq![path],
        ({
            let playback = PlaybackText::PerDisplay(assignments);
            let player = policy_of(playback).player(screen);
            &&& paths_of(playback).len() == assignments.len()
            &&& player is Some <==> exists|i: int|
                0 <= i < assignments.len() && (#[trigger] assignments[i]).native_id == screen
            &&& player matches Some(i) ==> i < assignments.len()
                && assignments[i as int].native_id == screen && paths_of(playback)[i as int]
                == assignments[i as int].path
            &&& player == layout::layout_of(playback).decoder(screen)
        }),
{
    layout::per_display_layout_law(assignments, screen);
}

/// The layer of every other mode takes the whole screen, whatever the video; and so does that
/// of a video whose size is not known.
pub proof fn whole_screen_law(gravity: VideoGravity, screen: Dims, video: Dims)
    requires
        gravity != VideoGravity::Native || video.width == 0 || video.height == 0,
    ensures
        ({
            let f = layer_frame_of(gravity, screen, video);
            &&& f.left == 0 && f.bottom == 0
            &&& f.width == screen.width && f.height == screen.height
            &&& f.right(screen) == 0 && f.top(screen) == 0
        }),
{
}

/// The margins left and below are half of what the screen has over the video, rounded down; a
/// larger video has negative ones.
pub proof fn margin_law(screen: Dims, video: Dims)
    requires
        video.width > 0,
        video.height > 0,
    ensures
        ({
            let f = layer_frame_of(VideoGravity::Native, screen, video);
            &&& 2 * f.left <= screen.width - video.width <= 2 * f.left + 1
            &&& 2 * f.bottom <= screen.height - video.height <= 2 * f.bottom + 1
        }),
{
}

/// Each way to scale has its own way to fit a layer, and only the centered one leaves the
/// layer smaller or larger than the screen.
pub proof fn gravity_law(
    scale: ScaleMode,
    other: ScaleMode,
    r: VideoGravity,
    q: VideoGravity,
)
    requires
        call_ensures(video_gravity_for, (scale,), r),
        call_ensures(video_gravity_for, (other,), q),
    ensures
        r == q ==> scale == other,
        r == VideoGravity::Native <==> scale == ScaleMode::Center,
        r == VideoGravity::Resize <==> scale == ScaleMode::Stretch,
        r == VideoGravity::ResizeAspectFill <==> scale == ScaleMode::Fill,
{
}

/// A URL is played as it was given, and never looked up among the files; a file is played by
/// its absolute path where there is one.
pub proof fn player_law(video_path: &str, canonical: Option<&str>, r: PlayerUrl)
    requires
        call_ensures(make_player, (video_path, canonical), r),
    ensures
        r@ is Remote <==> config::is_url_text(video_path@),
        r@ matches PlayerUrlText::Remote(url) ==> url == video_path@,
        r@ matches PlayerUrlText::File(path) ==> path == (match canonical {
            Some(absolute) => absolute@,
            None => video_path@,
        }),
{
}

/// The battery is watched unless playback never pauses.
pub proof fn watching_law(pause: PauseMode, r: bool)
    requires
        call_ensures(watches_battery, (pause,), r),
    ensures
        !r <==> pause == PauseMode::Never,
{
}

/// Videos by display may wait for their screens to appear; one video for all needs a screen,
/// and any screen will do.
pub proof fn no_screens_law(
    players: Players,
    screens: Vec<String>,
    r: Result<Vec<Surface>, AttachError>,
)
    requires
        call_ensures(Players::surfaces, (&players, &screens), r),
    ensures
        r is Err <==> players.policy@ is Mirror && screens@.len() == 0,
        r matches Err(e) ==> e == AttachError::NoScreens,
        r is Ok && players.policy@ is Mirror ==> r->Ok_0@.len() == screens@.len(),
{
    if r is Ok && players.policy@ is Mirror {
        mirror_surfaces(text::views(screens@));
    }
}

/// One video for all is shown on every screen.
proof fn mirror_surfaces(screens: Seq<Seq<char>>)
    ensures
        surfaces_on(PolicyText::Mirror, screens).len() == screens.len(),
    decreases screens.len(),
{
    if screens.len() > 0 {
        mirror_surfaces(screens.drop_last());
    }
}

} // verus!
