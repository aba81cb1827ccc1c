use phonto::config::SearchPath;
use phonto::wallpaper::{
    collect, is_wallpaper, pick_random, wallpaper_extension, Entry, Kind,
};

fn bytes(s: &str) -> Vec<u8> {
    s.as_bytes().to_vec()
}

fn entry(path: &str, kind: Kind) -> Entry {
    Entry { path: bytes(path), kind }
}

fn tree(dir: &Vec<u8>) -> Option<Vec<Entry>> {
    match std::str::from_utf8(dir).unwrap() {
        "/w" => Some(vec![
            entry("/w/a.mp4", Kind::File),
            entry("/w/sub", Kind::Directory),
            entry("/w/notes.txt", Kind::File),
            entry("/w/pipe.mkv", Kind::Other),
            entry("/w/dir.mp4", Kind::Directory),
            entry("/w/z.WebM", Kind::File),
        ]),
        "/w/sub" => Some(vec![
            entry("/w/sub/deep", Kind::Directory),
            entry("/w/sub/b.mov", Kind::File),
        ]),
        "/w/sub/deep" => Some(vec![entry("/w/sub/deep/c.gif", Kind::File)]),
        "/home/u/v" => Some(vec![entry("/home/u/v/d.ogv", Kind::File)]),
        _ => None,
    }
}

fn at(path: &str, depth: u32) -> SearchPath {
    SearchPath { path: path.to_string(), depth }
}

fn found(paths: Vec<SearchPath>) -> Vec<String> {
    collect(&paths, Some("/home/u"), &tree)
        .into_iter()
        .map(|p| String::from_utf8(p).unwrap())
        .collect()
}

#[test]
fn depth_zero_is_the_top_level_alone() {
    assert_eq!(found(vec![at("/w", 0)]), vec!["/w/a.mp4", "/w/z.WebM"]);
}

#[test]
fn depth_one_follows_one_level() {
    assert_eq!(found(vec![at("/w", 1)]), vec!["/w/a.mp4", "/w/sub/b.mov", "/w/z.WebM"]);
}

#[test]
fn depth_two_follows_two_levels() {
    assert_eq!(
        found(vec![at("/w", 2)]),
        vec!["/w/a.mp4", "/w/sub/deep/c.gif", "/w/sub/b.mov", "/w/z.WebM"]
    );
    assert_eq!(found(vec![at("/w", u32::MAX)]).len(), 4);
}

#[test]
fn search_paths_follow_each_other() {
    assert_eq!(
        found(vec![at("~/v", 0), at("/missing", 3), at("/w/sub", 0)]),
        vec!["/home/u/v/d.ogv", "/w/sub/b.mov"]
    );
    assert_eq!(found(vec![]), Vec::<String>::new());
}

#[test]
fn joined_search_paths_hold_what_each_holds() {
    let first = found(vec![at("/w", 1)]);
    let second = found(vec![at("~/v", 0), at("/w/sub", 1)]);
    let joined = found(vec![at("/w", 1), at("~/v", 0), at("/w/sub", 1)]);
    assert_eq!(joined, [first, second].concat());
    assert!(joined.contains(&"/w/sub/deep/c.gif".to_string()));
}

#[test]
fn wallpapers_go_by_their_extension() {
    for name in ["a.mp4", "a.MKV", "a.webm", "a.avi", "a.Mov", "a.gif", "x/a.b.ogv"] {
        assert!(is_wallpaper(&bytes(name)), "{name}");
    }
    for name in ["a", ".mp4", "a.mp3", "mp4", "a.mp4.part", "a."] {
        assert!(!is_wallpaper(&bytes(name)), "{name}");
    }
    assert!(!is_wallpaper(&vec![b'a', b'.', 0xff]));
    assert!(wallpaper_extension("mp4"));
    assert!(!wallpaper_extension("MP4"));
}

#[test]
fn case_goes_by_unicode() {
    // Its lower case is an ASCII letter, so the extension counts.
    assert!(is_wallpaper(&bytes("a.m\u{212a}v")));
    assert!(!is_wallpaper(&bytes("a.m\u{3ba}v")));
}

#[test]
fn a_random_pick_is_one_of_them() {
    let all = found(vec![at("/w", 2)]);
    for _ in 0..50 {
        let pick = pick_random(&vec![at("/w", 2)], None, &tree).unwrap();
        assert!(all.contains(&String::from_utf8(pick).unwrap()));
    }
    assert_eq!(pick_random(&vec![at("/missing", 2)], None, &tree), None);
}
