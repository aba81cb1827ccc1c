use phonto::config::{config_path, expand_tilde, is_url, load, DEFAULT_CONFIG};

fn s(x: &str) -> Option<String> {
    Some(x.to_string())
}

#[test]
fn config_stands_below_xdg_config_home() {
    assert_eq!(config_path(s("/cfg"), s("/home/u")), "/cfg/phonto/config.toml");
}

#[test]
fn config_falls_back_to_the_home_directory() {
    assert_eq!(config_path(None, s("/home/u")), "/home/u/.config/phonto/config.toml");
    assert_eq!(config_path(None, None), ".config/phonto/config.toml");
}

#[test]
fn urls_go_by_their_scheme() {
    for url in ["http://x", "https://x", "rtmp://x", "rtsp://x", "file:///x"] {
        assert!(is_url(url), "{url}");
    }
    for path in ["", "/x.mp4", "HTTP://x", "http:/x", "~/x", "ftp://x"] {
        assert!(!is_url(path), "{path}");
    }
}

#[test]
fn tilde_means_the_home_directory() {
    assert_eq!(expand_tilde("~/v.mp4", Some("/home/u")), "/home/u/v.mp4");
    assert_eq!(expand_tilde("~", Some("/home/u")), "/home/u");
    assert_eq!(expand_tilde("~user/v", Some("/home/u")), "~user/v");
    assert_eq!(expand_tilde("/a/~/v", Some("/home/u")), "/a/~/v");
    assert_eq!(expand_tilde("~/v.mp4", None), "~/v.mp4");
}

#[test]
fn a_missing_config_is_written_first() {
    assert_eq!(load(false), Some(DEFAULT_CONFIG));
    assert_eq!(load(true), None);
    assert!(DEFAULT_CONFIG.starts_with("# phonto configuration\n"));
}
