use phonto::macos_live_lockscreen::install::{
    asset_id, display_name, file_url, first_phonto_asset, generated_thumbnail, installed_line,
    log_subprocess_output, missing_manifest, phonto_asset, phonto_category, phonto_subcategory,
    remove_entry, removed_line, repair_phonto_category, resolve_video, run, targets, thumbnail_args,
    upsert_entry, upsert_phonto_category, PHONTO_CATEGORY_ID, PHONTO_SUBCATEGORY_ID,
};
use phonto::macos_live_lockscreen::manifest::{Asset, Category, Manifest};
use serde_json::Value;

const ID: &str = "17A6A998-4049-5A53-A08D-FD553BE57044";

fn apple_asset(id: &str) -> Asset {
    let mut extra = serde_json::Map::new();
    extra.insert("group".to_string(), Value::from("apple"));
    Asset {
        id: id.to_string(),
        categories: vec!["LANDSCAPES".to_string()],
        subcategories: vec![],
        preview_image: "https://apple/x.png".to_string(),
        accessibility_label: None,
        localized_name_key: None,
        include_in_shuffle: None,
        points_of_interest: None,
        preferred_order: Some(3),
        shot_id: None,
        show_in_top_level: None,
        url_4k_sdr_240fps: None,
        extra,
    }
}

fn apple_category() -> Category {
    Category {
        id: "LANDSCAPES".to_string(),
        representative_asset_id: "APPLE".to_string(),
        preview_image: "https://apple/x.png".to_string(),
        subcategories: vec![],
        localized_description_key: None,
        localized_name_key: None,
        preferred_order: Some(0),
        extra: serde_json::Map::new(),
    }
}

fn apple() -> Manifest {
    let mut extra = serde_json::Map::new();
    extra.insert("version".to_string(), Value::from(1));
    Manifest {
        assets: vec![apple_asset("APPLE"), apple_asset("OTHER")],
        categories: vec![apple_category()],
        extra,
    }
}

fn shown(m: &Manifest) -> String {
    format!("{m:?}")
}

fn install(m: &mut Manifest, id: &str) {
    upsert_entry(m, id, "Clip", "/aerials/my clip.mov", "/aerials/t.png");
}

#[test]
fn an_installed_video_is_first() {
    let mut m = apple();
    install(&mut m, ID);
    assert_eq!(m.assets.len(), 3);
    let a = &m.assets[0];
    assert_eq!(a.id, ID);
    assert_eq!(a.categories, vec![PHONTO_CATEGORY_ID]);
    assert_eq!(a.subcategories, vec![PHONTO_SUBCATEGORY_ID]);
    assert_eq!(a.preview_image, "file:///aerials/t.png");
    assert_eq!(a.url_4k_sdr_240fps.as_deref(), Some("file:///aerials/my%20clip.mov"));
    assert_eq!(a.shot_id.as_deref(), Some("PHONTO_17A6A998"));
    assert_eq!(a.accessibility_label.as_deref(), Some("Clip"));
    assert_eq!(a.localized_name_key.as_deref(), Some("Clip"));
    assert_eq!(
        (a.include_in_shuffle, a.preferred_order, a.show_in_top_level),
        (Some(false), Some(0), Some(true))
    );
    assert!(a.points_of_interest.as_ref().unwrap().is_empty() && a.extra.is_empty());
    assert_eq!(format!("{:?}", m.assets[1]), format!("{:?}", apple_asset("APPLE")));
}

#[test]
fn our_category_shows_the_latest_install() {
    let mut m = apple();
    install(&mut m, ID);
    assert_eq!(m.categories.len(), 2);
    let c = &m.categories[1];
    assert_eq!(c.id, PHONTO_CATEGORY_ID);
    assert_eq!(c.representative_asset_id, ID);
    assert_eq!(c.preview_image, "file:///aerials/t.png");
    assert_eq!(c.subcategories.len(), 1);
    assert_eq!(c.subcategories[0].id, PHONTO_SUBCATEGORY_ID);
    assert_eq!(c.preferred_order, Some(-1));
    assert_eq!(c.localized_name_key.as_deref(), Some("Phonto"));
    m.categories[1].subcategories.clear();
    m.categories[1].preferred_order = Some(7);
    install(&mut m, "AAAAAAAA-0000-0000-0000-000000000000");
    assert_eq!(m.categories.len(), 2);
    let c = &m.categories[1];
    assert_eq!(c.representative_asset_id, "AAAAAAAA-0000-0000-0000-000000000000");
    assert_eq!((c.subcategories.len(), c.preferred_order), (1, Some(7)));
}

#[test]
fn to_install_again_changes_nothing() {
    let mut once = apple();
    install(&mut once, ID);
    let before = shown(&once);
    install(&mut once, ID);
    assert_eq!(shown(&once), before);
}

#[test]
fn to_install_again_under_another_name_changes_the_name_alone() {
    let mut m = apple();
    let id = asset_id("/v/clip.mp4");
    let first = run(&mut m, "/home", "/v/clip.mp4", Some("first".to_string()), false);
    assert_eq!(first, format!("Installed 'first' (id {id})."));
    let want = shown(&m).replace("first", "clip");
    let again = run(&mut m, "/home", "/v/clip.mp4", None, false);
    assert_eq!(again, format!("Installed 'clip' (id {id})."));
    assert_eq!(shown(&m), want);
    assert_eq!(m.assets.len(), 3);
    assert_eq!(m.assets[0].localized_name_key.as_deref(), Some("clip"));
}

#[test]
fn a_run_installs_and_removes() {
    let mut m = apple();
    let id = asset_id("/v/clip.mp4");
    run(&mut m, "/home", "/v/clip.mp4", None, false);
    let t = targets("/home", &id);
    assert_eq!(m.assets[0].url_4k_sdr_240fps, Some(file_url(&t.video)));
    let c = &m.categories[1];
    assert_eq!((&c.representative_asset_id, &c.preview_image), (&id, &file_url(&t.thumb)));
    assert_eq!(c.subcategories.len(), 1);
    let line = run(&mut m, "/home", "/v/clip.mp4", None, true);
    assert_eq!(line, format!("removed {id}"));
    assert_eq!(shown(&m), shown(&apple()));
}

#[test]
fn a_removal_undoes_an_install() {
    let mut m = apple();
    install(&mut m, ID);
    remove_entry(&mut m, ID);
    assert_eq!(shown(&m), shown(&apple()));
}

#[test]
fn after_a_removal_the_category_shows_a_survivor() {
    let mut m = apple();
    install(&mut m, "BBBBBBBB-0000-0000-0000-000000000000");
    install(&mut m, ID);
    remove_entry(&mut m, ID);
    assert_eq!(m.assets.len(), 3);
    let c = &m.categories[1];
    assert_eq!(c.representative_asset_id, "BBBBBBBB-0000-0000-0000-000000000000");
    assert_eq!(c.subcategories[0].representative_asset_id, c.representative_asset_id);
    remove_entry(&mut m, "nothing has this id");
    assert_eq!(m.assets.len(), 3);
}

#[test]
fn a_repair_adds_no_category() {
    let mut m = apple();
    m.assets.push(phonto_asset(ID, "n", "v", "p"));
    assert_eq!(first_phonto_asset(&m), Some((ID.to_string(), "p".to_string())));
    repair_phonto_category(&mut m);
    assert_eq!(m.categories.len(), 1);
    upsert_phonto_category(&mut m, "x", "y");
    repair_phonto_category(&mut m);
    assert_eq!(m.categories[1].representative_asset_id, ID);
    assert_eq!(first_phonto_asset(&apple()), None);
}

#[test]
fn categories_and_subcategories() {
    let c = phonto_category("r", "p");
    let s = phonto_subcategory("r", "p");
    assert_eq!(format!("{:?}", c.subcategories), format!("{:?}", vec![s]));
    assert_eq!(c.localized_description_key.as_deref(), Some("Phonto"));
}

#[test]
fn urls_hold_no_spaces() {
    assert_eq!(file_url("/Library/Application Support/x.mov"), "file:///Library/Application%20Support/x.mov");
    assert_eq!(file_url(""), "file://");
    assert_eq!(file_url("é"), "file://\u{c3}\u{a9}");
    assert!(!file_url(" a  b ").contains(' '));
}

#[test]
fn ids_are_stable() {
    let id = asset_id("/Users/u/clip.mp4");
    assert_eq!(id, asset_id("/Users/u/clip.mp4"));
    assert_ne!(id, asset_id("/Users/u/other.mp4"));
    assert_eq!(id.len(), 36);
    assert_eq!(id, id.to_uppercase());
    assert_eq!(&id[14..15], "5");
    let namespace = uuid::Uuid::from_bytes(*b"phontowpproject!");
    let want = uuid::Uuid::new_v5(&namespace, b"/Users/u/clip.mp4").hyphenated().to_string();
    assert_eq!(id, want.to_uppercase());
    for i in [8, 13, 18, 23] {
        assert_eq!(&id[i..i + 1], "-");
    }
}

#[test]
fn names_for_the_picker() {
    assert_eq!(display_name(Some("Mine".to_string()), "/v/clip.mp4"), "Mine");
    assert_eq!(display_name(None, "/v/clip.hd.mp4"), "clip.hd");
    assert_eq!(display_name(None, "/"), "Phonto Custom");
}

#[test]
fn an_install_needs_the_file_and_a_removal_does_not() {
    let s = |x: &str| Some(x.to_string());
    assert_eq!(resolve_video("v", false, s("/c/v"), None).unwrap(), "/c/v");
    assert_eq!(resolve_video("v", true, None, s("/a/v")).unwrap(), "/a/v");
    assert_eq!(
        resolve_video("v", false, None, s("/a/v")).unwrap_err().message(),
        "video not found: v"
    );
    assert_eq!(
        resolve_video("v", true, None, None).unwrap_err().message(),
        "could not resolve path: v"
    );
}

#[test]
fn files_of_an_asset() {
    let t = targets("/Users/u", "ID");
    let aerials = "/Users/u/Library/Application Support/com.apple.wallpaper/aerials";
    assert_eq!(t.videos_dir, format!("{aerials}/videos"));
    assert_eq!(t.thumbnails_dir, format!("{aerials}/thumbnails"));
    assert_eq!(t.manifest, format!("{aerials}/manifest/entries.json"));
    assert_eq!(t.backup, format!("{aerials}/manifest/entries.json.phonto-backup"));
    assert_eq!(t.video, format!("{aerials}/videos/ID.mov"));
    assert_eq!(t.thumb, format!("{aerials}/thumbnails/ID.png"));
    let manifest = std::path::Path::new(&t.manifest);
    assert_eq!(manifest.with_extension("json.phonto-backup").to_str(), Some(t.backup.as_str()));
}

#[test]
fn thumbnails() {
    assert_eq!(thumbnail_args("/tmp/x", "/v.mp4"), vec!["-t", "-s", "640", "-o", "/tmp/x", "/v.mp4"]);
    assert_eq!(generated_thumbnail("/tmp/x", "/d/v.mp4"), "/tmp/x/v.mp4.png");
}

#[test]
fn what_is_said() {
    assert_eq!(removed_line("ID"), "removed ID");
    assert_eq!(installed_line("Clip", "ID"), "Installed 'Clip' (id ID).");
    assert_eq!(
        missing_manifest("/m"),
        "manifest not found at /m — WallpaperAgent has never initialised it on this Mac"
    );
    assert_eq!(
        log_subprocess_output("killall", b"a\r\nb", &[b'x', 0xff, b'\n']),
        vec!["killall: a", "killall: b", "killall: x\u{fffd}"]
    );
}
