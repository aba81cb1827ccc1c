use phonto::injector::{
    entry, entry_value, injected_line, missing_manifest, remove_entry, removed_line, upsert_entry,
    InjectError, Injection,
};
use serde_json::Value;

const ID: &str = "17A6A998-4049-5A53-A08D-FD553BE57044";

fn ids(text: &str) -> Vec<Option<String>> {
    let data: Value = serde_json::from_str(text).unwrap();
    data["assets"]
        .as_array()
        .unwrap()
        .iter()
        .map(|a| a.get("id").and_then(Value::as_str).map(str::to_owned))
        .collect()
}

const CATALOG: &str = r#"{"version": 1, "assets": [{"id": "A"}, {"id": 7}, 5], "z": null}"#;

#[test]
fn a_new_entry_comes_first() {
    let (text, done) = upsert_entry(CATALOG, ID, "x", "/v.mov", "/t.png").unwrap();
    assert_eq!(done, Injection::Inserted);
    assert_eq!(
        ids(&text),
        vec![Some(ID.to_string()), Some("A".to_string()), None, None]
    );
    let data: Value = serde_json::from_str(&text).unwrap();
    let keys: Vec<&String> = data.as_object().unwrap().keys().collect();
    assert_eq!(keys, vec!["version", "assets", "z"]);
}

#[test]
fn an_entry_is_updated_in_place() {
    let catalog = r#"{"assets": [{"id": "A"}, {"id": "17A6A998-4049-5A53-A08D-FD553BE57044"}]}"#;
    let (text, done) = upsert_entry(catalog, ID, "old", "/v.mov", "/t.png").unwrap();
    assert_eq!(done, Injection::Updated);
    assert_eq!(ids(&text), vec![Some("A".to_string()), Some(ID.to_string())]);
    let (new, done) = upsert_entry(&text, ID, "new", "/v.mov", "/t.png").unwrap();
    assert_eq!(done, Injection::Updated);
    assert!(new.contains("\"accessibilityLabel\": \"new\""));
    assert_eq!(new, upsert_entry(catalog, ID, "new", "/v.mov", "/t.png").unwrap().0);
    assert_eq!(new, upsert_entry(&new, ID, "new", "/v.mov", "/t.png").unwrap().0);
}

#[test]
fn a_removal_undoes_an_injection() {
    let (text, _) = upsert_entry(CATALOG, ID, "x", "/v.mov", "/t.png").unwrap();
    let before: Value = serde_json::from_str(CATALOG).unwrap();
    assert_eq!(remove_entry(&text, ID).unwrap(), serde_json::to_string_pretty(&before).unwrap());
    assert_eq!(ids(&remove_entry(CATALOG, "A").unwrap()), vec![None, None]);
}

#[test]
fn an_entry_in_json() {
    let value = entry_value(&entry(ID, "Clip", "/v.mov", "/t.png"));
    assert_eq!(
        serde_json::to_string(&value).unwrap(),
        concat_lines(&[
            r#"{"id":"17A6A998-4049-5A53-A08D-FD553BE57044","accessibilityLabel":"Clip","#,
            r#""categories":["A33A55D9-EDEA-4596-A850-6C10B54FBBB5"],"#,
            r#""subcategories":["0DC99DD8-3386-4D1E-8878-C43E97EB710A"],"#,
            r#""includeInShuffle":true,"localizedNameKey":"Clip","pointsOfInterest":{"0":"Clip"},"#,
            r#""preferredOrder":0,"previewImage":"file:///t.png","shotID":"PHONTO_17A6A998","#,
            r#""showInTopLevel":true,"url-4K-SDR-240FPS":"file:///v.mov"}"#,
        ])
    );
    let (text, _) = upsert_entry(r#"{"assets": []}"#, ID, "Clip", "/v.mov", "/t.png").unwrap();
    let catalog: Value = serde_json::from_str(&text).unwrap();
    assert_eq!(catalog["assets"][0], value);
}

fn concat_lines(lines: &[&str]) -> String {
    lines.iter().map(|s| s.to_string()).collect()
}

#[test]
fn catalogs_that_take_nothing() {
    let e = upsert_entry("{", ID, "x", "/v", "/t").unwrap_err();
    assert!(matches!(e, InjectError::Parse(_)));
    assert_eq!(e.message(), "parsing entries.json");
    for text in ["{}", "[]", r#"{"assets": {}}"#] {
        let e = upsert_entry(text, ID, "x", "/v", "/t").unwrap_err();
        assert_eq!(e.message(), "entries.json has no `assets` array");
    }
    assert!(matches!(remove_entry("x", ID), Err(InjectError::Parse(_))));
    assert_eq!(remove_entry("{}", ID).unwrap(), "{}");
}

#[test]
fn entries() {
    let e = entry(ID, "Clip", "/v/my clip.mov", "/t.png");
    assert_eq!((e.id.as_str(), e.shot_id.as_str()), (ID, "PHONTO_17A6A998"));
    assert_eq!(e.url_4k_sdr_240fps, "file:///v/my clip.mov");
    assert_eq!(e.preview_image, "file:///t.png");
    assert_eq!((e.accessibility_label.as_str(), e.localized_name_key.as_str()), ("Clip", "Clip"));
    assert_eq!(e.categories, vec!["A33A55D9-EDEA-4596-A850-6C10B54FBBB5"]);
    assert_eq!(e.subcategories, vec!["0DC99DD8-3386-4D1E-8878-C43E97EB710A"]);
    assert_eq!((e.include_in_shuffle, e.preferred_order, e.show_in_top_level), (true, 0, true));
    assert_eq!(e.point_of_interest, "Clip");
}

#[test]
fn what_the_injector_says() {
    assert_eq!(removed_line("ID"), "removed entry ID");
    assert_eq!(injected_line("Clip", "ID"), "Injected 'Clip' (id ID).");
    assert_eq!(
        missing_manifest("/m"),
        "manifest not found at /m — WallpaperAgent may not be initialised yet"
    );
}
