//! The screen saver: where it finds its video, and when it sets a player up.
use vstd::prelude::*;

use crate::paths;

verus! {

/// The video of a bundle whose library stands at this path: two directories up, among the
/// resources.
pub open spec fn video_of(dylib: Seq<char>) -> Option<Seq<char>> {
    match paths::parent_of(dylib) {
        Some(dir) => match paths::parent_of(dir) {
            Some(contents) => Some(paths::joined(contents, "Resources/wallpaper.mp4"@)),
            None => None,
        },
        None => None,
    }
}

/// The video of a bundle whose library stands at this path.
pub fn wallpaper_path(dylib: &str) -> (r: Option<String>)
    ensures
        match r {
            Some(video) => video_of(dylib@) == Some(video@),
            None => video_of(dylib@) is None,
        },
{
    match paths::parent(dylib) {
        Some(dir) => match paths::parent(dir.as_str()) {
            Some(contents) => Some(paths::join(contents.as_str(), "Resources/wallpaper.mp4")),
            None => None,
        },
        None => None,
    }
}

/// What a view of the screen saver holds.
#[derive(Debug, Clone, Copy, PartialEq, Eq, Structural)]
pub struct SaverView {
    pub has_player: bool,
    pub has_layer: bool,
}

/// What is to be let go of.
#[derive(Debug, Clone, Copy, PartialEq, Eq, Structural)]
pub struct TearDown {
    /// Part the layer from its player.
    pub layer: bool,
    /// Pause the player and take its item away.
    pub player: bool,
}

impl SaverView {
    /// A view that plays nothing.
    pub fn new() -> (r: SaverView)
        ensures
            r == (SaverView { has_player: false, has_layer: false }),
    {
        SaverView { has_player: false, has_layer: false }
    }

    /// Whether a player is to be set up: there is a video, and no player yet.
    pub fn install_player(&mut self, has_video: bool) -> (r: bool)
        ensures
            r == (!old(self).has_player && has_video),
            *final(self) == (if r {
                SaverView { has_player: true, has_layer: true }
            } else {
                *old(self)
            }),
    {
        if self.has_player || !has_video {
            return false;
        }
        self.has_player = true;
        self.has_layer = true;
        true
    }

    /// Lets go of the layer and the player.
    pub fn tear_down_player(&mut self) -> (r: TearDown)
        ensures
            r == (TearDown { layer: old(self).has_layer, player: old(self).has_player }),
            *final(self) == (SaverView { has_player: false, has_layer: false }),
    {
        let r = TearDown { layer: self.has_layer, player: self.has_player };
        self.has_player = false;
        self.has_layer = false;
        r
    }
}

/// The video stands beside the directory of the library, among the resources of the bundle,
/// whatever the library and its directory are called.
pub proof fn video_law(contents: Seq<char>, dir: Seq<char>, library: Seq<char>)
    requires
        contents.len() > 0,
        paths::path_body(contents, '/', '.') == contents,
        paths::is_part(dir, '/', '.'),
        paths::is_part(library, '/', '.'),
    ensures
        video_of(contents + "/"@ + dir + "/"@ + library) == Some(
            contents + "/Resources/wallpaper.mp4"@,
        ),
        video_of(dir + "/"@ + library) == Some("Resources/wallpaper.mp4"@),
        video_of("/"@ + dir + "/"@ + library) == Some("/Resources/wallpaper.mp4"@),
        video_of("/"@ + library) is None,
        video_of("/"@) is None,
{
    reveal_strlit("/");
    reveal_strlit("Resources/wallpaper.mp4");
    reveal_strlit("/Resources/wallpaper.mp4");
    let inner = contents.push('/') + dir;
    assert(contents + "/"@ + dir + "/"@ + library =~= inner.push('/') + library);
    paths::body_law(contents, dir);
    paths::parent_law(inner, library);
    paths::parent_law(contents, dir);
    let root = seq!['/'];
    assert("/"@ =~= root);
    let none = Seq::<char>::empty();
    assert(dir + "/"@ + library =~= dir.push('/') + library);
    assert(none.push('/') =~= root);
    paths::body_law(none, dir);
    paths::name_body_law(dir);
    paths::parent_law(dir, library);
    assert(video_of(dir + "/"@ + library)->0 =~= "Resources/wallpaper.mp4"@);
    let top = root + dir;
    assert(top =~= none.push('/') + dir);
    assert("/"@ + dir + "/"@ + library =~= top.push('/') + library);
    paths::parent_law(top, library);
    assert(video_of("/"@ + dir + "/"@ + library)->0 =~= "/Resources/wallpaper.mp4"@);
    assert(paths::parent_of("/"@ + library) == Some(root));
    assert(contents.last() != '/') by {
        if contents.last() == '/' {
            paths::body_law(contents.drop_last(), dir);
        }
    }
    assert(video_of(contents + "/"@ + dir + "/"@ + library)->0 =~= contents
        + "/Resources/wallpaper.mp4"@);
}

/// A player is set up exactly where there is a video and no player yet, and its layer with it.
/// What is let go of is what was there, and afterwards nothing is.
pub proof fn saver_law(
    view: &mut SaverView,
    has_video: bool,
    sets_up: bool,
    other: &mut SaverView,
    down: TearDown,
)
    requires
        call_ensures(SaverView::install_player, (view, has_video), sets_up),
        call_ensures(SaverView::tear_down_player, (other,), down),
    ensures
        sets_up <==> has_video && !old(view).has_player,
        sets_up ==> final(view).has_player && final(view).has_layer,
        !sets_up ==> *final(view) == *old(view),
        down.layer == old(other).has_layer,
        down.player == old(other).has_player,
        !final(other).has_player && !final(other).has_layer,
{
}

} // verus!
