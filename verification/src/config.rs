//! The configuration file: what it holds, where it stands, and how the paths in it
//! are read.
use vstd::prelude::*;

use crate::paths;
use crate::text;

verus! {

/// What a configuration file holds before anybody has edited it.
pub const DEFAULT_CONFIG: &'static str = "\
# phonto configuration
#
# search_paths: directories scanned by --rand and by per-display `random = true`.
# Each entry has a path and a depth (0 = top-level only).
#
# [[search_paths]]
# path = \"/home/user/wallpapers\"
# depth = 1
#
# alias: portable names for displays across operating systems. Use the alias
# name in [[display]].id and `phonto displays` will tell you the per-OS strings
# to put here.
#
# [[alias]]
# name = \"main\"
# wayland = \"DP-1\"
# macos = \"DELL U2723QE\"
#
# display: pin a video (or a random pick) to a specific display. `id` matches
# an [[alias]].name OR a raw native ID as shown by `phonto displays`. Exactly
# one of `path` or `random = true` per entry.
#
# [[display]]
# id = \"main\"
# path = \"/path/to/wallpaper.mp4\"
#
# [[display]]
# id = \"laptop\"
# random = true
";

/// The system that the displays belong to.
#[derive(Clone, Copy, Debug, PartialEq, Eq, Structural)]
pub enum Platform {
    Wayland,
    Macos,
}

/// A directory to scan for wallpapers, and how many levels of subdirectories to follow.
#[derive(Debug)]
pub struct SearchPath {
    pub path: String,
    pub depth: u32,
}

/// A name for a display that has another native id on each system.
#[derive(Debug)]
pub struct Alias {
    pub name: String,
    pub wayland: Option<String>,
    pub macos: Option<String>,
}

/// What one display shows.
#[derive(Debug)]
pub struct Display {
    pub id: String,
    pub path: Option<String>,
    pub random: bool,
}

/// The whole configuration.
#[derive(Debug)]
pub struct Config {
    pub search_paths: Vec<SearchPath>,
    pub alias: Vec<Alias>,
    pub display: Vec<Display>,
}

/// The text of an optional string.
pub open spec fn text_view(o: Option<String>) -> Option<Seq<char>> {
    match o {
        Some(s) => Some(s@),
        None => None,
    }
}

/// An [`Alias`] as plain text.
pub struct AliasText {
    pub name: Seq<char>,
    pub wayland: Option<Seq<char>>,
    pub macos: Option<Seq<char>>,
}

impl View for Alias {
    type V = AliasText;

    open spec fn view(&self) -> AliasText {
        AliasText {
            name: self.name@,
            wayland: text_view(self.wayland),
            macos: text_view(self.macos),
        }
    }
}

/// A [`Display`] as plain text.
pub struct DisplayText {
    pub id: Seq<char>,
    pub path: Option<Seq<char>>,
    pub random: bool,
}

impl View for Display {
    type V = DisplayText;

    open spec fn view(&self) -> DisplayText {
        DisplayText { id: self.id@, path: text_view(self.path), random: self.random }
    }
}

/// The aliases as plain text, in order.
pub open spec fn alias_texts(aliases: Seq<Alias>) -> Seq<AliasText> {
    aliases.map_values(|a: Alias| a@)
}

/// The displays as plain text, in order.
pub open spec fn display_texts(displays: Seq<Display>) -> Seq<DisplayText> {
    displays.map_values(|d: Display| d@)
}

/// Where the configuration file stands, given `$XDG_CONFIG_HOME` and `$HOME`.
pub open spec fn config_location(
    xdg_config_home: Option<Seq<char>>,
    home: Option<Seq<char>>,
) -> Seq<char> {
    let base = match xdg_config_home {
        Some(dir) => dir,
        None => match home {
            Some(h) => paths::joined(h, ".config"@),
            None => ".config"@,
        },
    };
    paths::joined(paths::joined(base, "phonto"@), "config.toml"@)
}

/// The path of the configuration file, given the values of `$XDG_CONFIG_HOME` and
/// `$HOME` where they are set.
pub fn config_path(xdg_config_home: Option<String>, home: Option<String>) -> (r: String)
    ensures
        r@ == config_location(text_view(xdg_config_home), text_view(home)),
{
    let base = match xdg_config_home {
        Some(dir) => dir,
        None => match home {
            Some(h) => paths::join(h.as_str(), ".config"),
            None => ".config".to_owned(),
        },
    };
    let dir = paths::join(base.as_str(), "phonto");
    paths::join(dir.as_str(), "config.toml")
}

/// A path that is a URL by its scheme.
pub open spec fn is_url_text(s: Seq<char>) -> bool {
    ||| text::has_prefix(s, "http://"@)
    ||| text::has_prefix(s, "https://"@)
    ||| text::has_prefix(s, "rtmp://"@)
    ||| text::has_prefix(s, "rtsp://"@)
    ||| text::has_prefix(s, "file://"@)
}

/// Whether `s` is a URL rather than the path of a file.
pub fn is_url(s: &str) -> (r: bool)
    ensures
        r == is_url_text(s@),
{
    text::starts_with(s, "http://") || text::starts_with(s, "https://") || text::starts_with(
        s,
        "rtmp://",
    ) || text::starts_with(s, "rtsp://") || text::starts_with(s, "file://")
}

/// `path` with a leading `~` or `~/` replaced by the home directory.
pub open spec fn tilde_expanded(path: Seq<char>, home: Option<Seq<char>>) -> Seq<char> {
    match home {
        Some(h) => if text::has_prefix(path, "~/"@) {
            h.push('/') + path.skip(2)
        } else if path == "~"@ {
            h
        } else {
            path
        },
        None => path,
    }
}

/// Expands a leading `~/` or `~` to `home`, the value of `$HOME`. Leaves all other paths
/// untouched, and every path when `$HOME` is not set.
pub fn expand_tilde(path: &str, home: Option<&str>) -> (r: String)
    ensures
        r@ == tilde_expanded(
            path@,
            match home {
                Some(h) => Some(h@),
                None => None,
            },
        ),
{
    match home {
        Some(h) => {
            if text::starts_with(path, "~/") {
                proof {
                    reveal_strlit("~/");
                    reveal_strlit("/");
                }
                let rest = path.substring_char(2, path.unicode_len());
                assert(rest@ =~= path@.skip(2));
                assert(h@ + "/"@ =~= h@.push('/'));
                return text::join3(h, "/", rest);
            }
            if text::same_text(path, "~") {
                return h.to_owned();
            }
            path.to_owned()
        },
        None => path.to_owned(),
    }
}

/// What has to be written to the configuration file before it is read: the default
/// contents when there is no file yet, nothing when there is one.
pub fn load(exists: bool) -> (r: Option<&'static str>)
    ensures
        r is Some == !exists,
        r is Some ==> r->0@ == DEFAULT_CONFIG@,
{
    if exists {
        None
    } else {
        Some(DEFAULT_CONFIG)
    }
}

/// Where the configuration file stands: below `$XDG_CONFIG_HOME` where that is set, whatever
/// `$HOME` is; else below `.config` in the home directory; else below `.config` here.
pub proof fn config_location_law(
    xdg_config_home: Seq<char>,
    home: Seq<char>,
    any: Option<Seq<char>>,
)
    ensures
        xdg_config_home.len() > 0 && xdg_config_home.last() != '/' ==> config_location(
            Some(xdg_config_home),
            any,
        ) == xdg_config_home + "/phonto/config.toml"@,
        home.len() > 0 && home.last() != '/' ==> config_location(None, Some(home)) == home
            + "/.config/phonto/config.toml"@,
        config_location(None, None) == ".config/phonto/config.toml"@,
        config_location(Some(xdg_config_home), any) == config_location(
            Some(xdg_config_home),
            None,
        ),
        config_location(Some(xdg_config_home.push('/')), any) == xdg_config_home
            + "/phonto/config.toml"@,
        config_location(None, Some(home.push('/'))) == home + "/.config/phonto/config.toml"@,
{
    reveal_strlit("phonto");
    reveal_strlit("config.toml");
    reveal_strlit(".config");
    reveal_strlit("/phonto/config.toml");
    reveal_strlit("/.config/phonto/config.toml");
    reveal_strlit(".config/phonto/config.toml");
    assert(config_location(None, None) =~= ".config/phonto/config.toml"@);
    assert(config_location(Some(xdg_config_home.push('/')), any) =~= xdg_config_home
        + "/phonto/config.toml"@);
    assert(config_location(None, Some(home.push('/'))) =~= home + "/.config/phonto/config.toml"@);
    if xdg_config_home.len() > 0 && xdg_config_home.last() != '/' {
        assert(config_location(Some(xdg_config_home), any) =~= xdg_config_home
            + "/phonto/config.toml"@);
    }
    if home.len() > 0 && home.last() != '/' {
        assert(config_location(None, Some(home)) =~= home + "/.config/phonto/config.toml"@);
    }
}

/// What is a URL: a text that one of five schemes begins, whatever follows, and no other
/// text. No absolute path is one, and none in the home directory.
pub proof fn url_scheme_law(s: Seq<char>, rest: Seq<char>)
    ensures
        is_url_text("http://"@ + rest),
        is_url_text("https://"@ + rest),
        is_url_text("rtmp://"@ + rest),
        is_url_text("rtsp://"@ + rest),
        is_url_text("file://"@ + rest),
        is_url_text(s) ==> s == "http://"@ + s.skip(7) || s == "https://"@ + s.skip(8) || s
            == "rtmp://"@ + s.skip(7) || s == "rtsp://"@ + s.skip(7) || s == "file://"@ + s.skip(7),
        s.len() > 0 && (s[0] == '/' || s[0] == '~' || s[0] == '.') ==> !is_url_text(s),
{
    reveal_strlit("http://");
    reveal_strlit("https://");
    reveal_strlit("rtmp://");
    reveal_strlit("rtsp://");
    reveal_strlit("file://");
    text::prefix_law(s, "http://"@, rest);
    text::prefix_law(s, "https://"@, rest);
    text::prefix_law(s, "rtmp://"@, rest);
    text::prefix_law(s, "rtsp://"@, rest);
    text::prefix_law(s, "file://"@, rest);
}

/// The home directory stands in for a tilde that is all of the path or comes before a slash,
/// and for no other; without a home directory nothing changes.
pub proof fn tilde_law(home: Seq<char>, rest: Seq<char>, path: Seq<char>)
    ensures
        tilde_expanded("~/"@ + rest, Some(home)) == home + "/"@ + rest,
        tilde_expanded("~"@, Some(home)) == home,
        path.len() == 0 || path[0] != '~' ==> tilde_expanded(path, Some(home)) == path,
        path.len() > 1 && path[1] != '/' ==> tilde_expanded(path, Some(home)) == path,
        tilde_expanded(path, None) == path,
{
    reveal_strlit("~/");
    reveal_strlit("~");
    reveal_strlit("/");
    text::prefix_law(path, "~/"@, rest);
    let tilde = "~/"@ + rest;
    assert(tilde.skip(2) =~= rest);
    assert(home.push('/') + rest =~= home + "/"@ + rest);
}

/// A string that may be missing is missing exactly where it is, and else has its own text,
/// empty or not.
pub proof fn text_view_law(s: String)
    ensures
        text_view(None) is None,
        text_view(Some(s)) == Some(s@),
{
}

/// The default contents are written exactly where there is no file yet.
pub proof fn load_law(exists: bool, r: Option<&'static str>)
    requires
        call_ensures(load, (exists,), r),
    ensures
        r is Some <==> !exists,
        r matches Some(contents) ==> contents@ == DEFAULT_CONFIG@,
{
}

/// What the configuration holds is read entry by entry, in order, each field as it stands.
pub proof fn config_texts_law(aliases: Seq<Alias>, displays: Seq<Display>, i: int)
    ensures
        alias_texts(aliases).len() == aliases.len(),
        display_texts(displays).len() == displays.len(),
        0 <= i < aliases.len() ==> {
            let a = alias_texts(aliases)[i];
            &&& a.name == aliases[i].name@
            &&& a.wayland is Some <==> aliases[i].wayland is Some
            &&& a.macos is Some <==> aliases[i].macos is Some
            &&& aliases[i].wayland matches Some(id) ==> a.wayland == Some(id@)
            &&& aliases[i].macos matches Some(id) ==> a.macos == Some(id@)
        },
        0 <= i < displays.len() ==> {
            let d = display_texts(displays)[i];
            &&& d.id == displays[i].id@
            &&& d.random == displays[i].random
            &&& d.path is Some <==> displays[i].path is Some
            &&& displays[i].path matches Some(path) ==> d.path == Some(path@)
        },
{
}

} // verus!
