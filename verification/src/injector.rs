//! Puts a video among the landscapes of the wallpaper picker: an entry in the catalog of
//! aerial wallpapers, next to those of the system.
use vstd::prelude::*;

use crate::json;
use crate::json::JsonText;
use crate::macos_live_lockscreen::install;
use crate::seqs;
use crate::text;

verus! {

/// The category of the landscapes.
pub const LANDSCAPES_CATEGORY: &'static str = "A33A55D9-EDEA-4596-A850-6C10B54FBBB5";

/// The subcategory next to whose entries ours is shown.
pub const TAHOE_SUBCATEGORY: &'static str = "0DC99DD8-3386-4D1E-8878-C43E97EB710A";

/// An entry of ours.
#[derive(Debug)]
pub struct InjectedEntry {
    pub id: String,
    pub accessibility_label: String,
    pub categories: Vec<String>,
    pub subcategories: Vec<String>,
    pub include_in_shuffle: bool,
    pub localized_name_key: String,
    /// What is to be seen from the first second on.
    pub point_of_interest: String,
    pub preferred_order: i64,
    pub preview_image: String,
    pub shot_id: String,
    pub show_in_top_level: bool,
    pub url_4k_sdr_240fps: String,
}

/// An [`InjectedEntry`] as plain values.
pub struct EntryText {
    pub id: Seq<char>,
    pub accessibility_label: Seq<char>,
    pub categories: Seq<Seq<char>>,
    pub subcategories: Seq<Seq<char>>,
    pub include_in_shuffle: bool,
    pub localized_name_key: Seq<char>,
    pub point_of_interest: Seq<char>,
    pub preferred_order: i64,
    pub preview_image: Seq<char>,
    pub shot_id: Seq<char>,
    pub show_in_top_level: bool,
    pub url_4k_sdr_240fps: Seq<char>,
}

impl View for InjectedEntry {
    type V = EntryText;

    open spec fn view(&self) -> EntryText {
        EntryText {
            id: self.id@,
            accessibility_label: self.accessibility_label@,
            categories: text::views(self.categories@),
            subcategories: text::views(self.subcategories@),
            include_in_shuffle: self.include_in_shuffle,
            localized_name_key: self.localized_name_key@,
            point_of_interest: self.point_of_interest@,
            preferred_order: self.preferred_order,
            preview_image: self.preview_image@,
            shot_id: self.shot_id@,
            show_in_top_level: self.show_in_top_level,
            url_4k_sdr_240fps: self.url_4k_sdr_240fps@,
        }
    }
}

/// The entry for a video. It takes part in the shuffle, and has a point of interest: the
/// wallpaper system plays an entry of that shape. What the point says is our choice, the name
/// of the video.
pub open spec fn entry_for(
    id: Seq<char>,
    name: Seq<char>,
    video_path: Seq<char>,
    thumb_path: Seq<char>,
) -> EntryText {
    EntryText {
        id,
        accessibility_label: name,
        categories: seq![LANDSCAPES_CATEGORY@],
        subcategories: seq![TAHOE_SUBCATEGORY@],
        include_in_shuffle: true,
        localized_name_key: name,
        point_of_interest: name,
        preferred_order: 0,
        preview_image: "file://"@ + thumb_path,
        shot_id: "PHONTO_"@ + install::first_bytes(id, 8),
        show_in_top_level: true,
        url_4k_sdr_240fps: "file://"@ + video_path,
    }
}

/// A list of texts, in JSON.
pub open spec fn text_list(texts: Seq<Seq<char>>) -> JsonText {
    JsonText::Array(texts.map_values(|s: Seq<char>| JsonText::Text(s)))
}

/// A point of interest from the first second on, in JSON: the second, with what is to be seen.
pub open spec fn points_json(point: Seq<char>) -> JsonText {
    JsonText::Object(seq![("0"@, JsonText::Text(point))])
}

/// An entry, in JSON.
pub open spec fn entry_json(e: EntryText) -> JsonText {
    JsonText::Object(
        seq![
            ("id"@, JsonText::Text(e.id)),
            ("accessibilityLabel"@, JsonText::Text(e.accessibility_label)),
            ("categories"@, text_list(e.categories)),
            ("subcategories"@, text_list(e.subcategories)),
            ("includeInShuffle"@, JsonText::Bool(e.include_in_shuffle)),
            ("localizedNameKey"@, JsonText::Text(e.localized_name_key)),
            ("pointsOfInterest"@, points_json(e.point_of_interest)),
            ("preferredOrder"@, JsonText::Number(text::signed_decimal(e.preferred_order as int))),
            ("previewImage"@, JsonText::Text(e.preview_image)),
            ("shotID"@, JsonText::Text(e.shot_id)),
            ("showInTopLevel"@, JsonText::Bool(e.show_in_top_level)),
            ("url-4K-SDR-240FPS"@, JsonText::Text(e.url_4k_sdr_240fps)),
        ],
    )
}

/// The entry for a video. Its id can be cut behind the eighth byte.
pub fn entry(asset_id: &str, display_name: &str, video_path: &str, thumb_path: &str) -> (r:
    InjectedEntry)
    requires
        vstd::utf8::is_char_boundary(vstd::utf8::encode_utf8(asset_id@), 8),
    ensures
        r@ == entry_for(asset_id@, display_name@, video_path@, thumb_path@),
{
    let (head, _) = asset_id.split_at(8);
    proof {
        vstd::utf8::encode_utf8_decode_utf8(head@);
        assert(vstd::utf8::encode_utf8(head@) =~= vstd::utf8::encode_utf8(asset_id@).subrange(
            0,
            8,
        ));
    }
    let mut categories: Vec<String> = Vec::new();
    categories.push(LANDSCAPES_CATEGORY.to_owned());
    assert(text::views(categories@) =~= seq![LANDSCAPES_CATEGORY@]);
    let mut subcategories: Vec<String> = Vec::new();
    subcategories.push(TAHOE_SUBCATEGORY.to_owned());
    assert(text::views(subcategories@) =~= seq![TAHOE_SUBCATEGORY@]);
    InjectedEntry {
        id: asset_id.to_owned(),
        accessibility_label: display_name.to_owned(),
        categories,
        subcategories,
        include_in_shuffle: true,
        localized_name_key: display_name.to_owned(),
        point_of_interest: display_name.to_owned(),
        preferred_order: 0,
        preview_image: text::join2("file://", thumb_path),
        shot_id: text::join2("PHONTO_", head),
        show_in_top_level: true,
        url_4k_sdr_240fps: text::join2("file://", video_path),
    }
}

/// A list of texts, in JSON.
fn list_value(strings: &Vec<String>) -> (r: serde_json::Value)
    ensures
        json::held(r) == text_list(text::views(strings@)),
{
    let ghost want = text_list(text::views(strings@))->Array_0;
    let mut list: Vec<serde_json::Value> = Vec::new();
    let mut i: usize = 0;
    assert(json::all_held(list@) =~= want.take(0));
    while i < strings.len()
        invariant
            i <= strings@.len(),
            want == text_list(text::views(strings@))->Array_0,
            json::all_held(list@) == want.take(i as int),
        decreases strings@.len() - i,
    {
        let ghost was = list@;
        list.push(json::text_value(strings[i].as_str()));
        assert(json::all_held(list@) =~= json::all_held(was).push(want[i as int]));
        assert(want.take(i + 1) =~= want.take(i as int).push(want[i as int]));
        i = i + 1;
    }
    assert(want.take(i as int) =~= want);
    json::array_value(list)
}

/// The names of the members of an entry, in order.
spec fn entry_names() -> Seq<Seq<char>> {
    seq![
        "id"@,
        "accessibilityLabel"@,
        "categories"@,
        "subcategories"@,
        "includeInShuffle"@,
        "localizedNameKey"@,
        "pointsOfInterest"@,
        "preferredOrder"@,
        "previewImage"@,
        "shotID"@,
        "showInTopLevel"@,
        "url-4K-SDR-240FPS"@,
    ]
}

/// No two members of an entry have the same name.
proof fn entry_names_differ()
    ensures
        entry_names().no_duplicates(),
{
    reveal_strlit("id");
    reveal_strlit("accessibilityLabel");
    reveal_strlit("categories");
    reveal_strlit("subcategories");
    reveal_strlit("includeInShuffle");
    reveal_strlit("localizedNameKey");
    reveal_strlit("pointsOfInterest");
    reveal_strlit("preferredOrder");
    reveal_strlit("previewImage");
    reveal_strlit("shotID");
    reveal_strlit("showInTopLevel");
    reveal_strlit("url-4K-SDR-240FPS");
    let lens = entry_names().map_values(|s: Seq<char>| s.len() as int);
    let firsts = entry_names().map_values(|s: Seq<char>| s[0]);
    assert(lens =~= seq![2int, 18, 10, 13, 16, 16, 16, 14, 12, 6, 14, 17]);
    assert(firsts =~= seq!['i', 'a', 'c', 's', 'i', 'l', 'p', 'p', 'p', 's', 's', 'u']);
    assert forall|i: int, j: int| 0 <= i < 12 && 0 <= j < 12 && i != j implies entry_names()[i]
        != entry_names()[j] by {
        assert(lens[i] == entry_names()[i].len() && lens[j] == entry_names()[j].len());
        assert(firsts[i] == entry_names()[i][0] && firsts[j] == entry_names()[j][0]);
    }
}

/// Adds the next member of an entry.
fn add_member(
    object: &mut serde_json::Map<String, serde_json::Value>,
    name: &str,
    value: serde_json::Value,
)
    requires
        ({
            let n = json::members(*old(object)).len() as int;
            &&& n < entry_names().len()
            &&& name@ == entry_names()[n]
            &&& forall|k: int|
                0 <= k < n ==> (#[trigger] json::members(*old(object))[k]).0 == entry_names()[k]
        }),
    ensures
        json::members(*final(object)) == json::members(*old(object)).push(
            (name@, json::held(value)),
        ),
{
    proof {
        json::member_position_facts(json::members(*object), name@);
        entry_names_differ();
    }
    object.insert(name.to_owned(), value);
}

/// A point of interest from the first second on, in JSON.
fn points_value(point: &str) -> (r: serde_json::Value)
    ensures
        json::held(r) == points_json(point@),
{
    let mut o: serde_json::Map<String, serde_json::Value> = serde_json::Map::new();
    o.insert("0".to_owned(), json::text_value(point));
    assert(json::members(o) =~= points_json(point@)->Object_0);
    json::object_value(o)
}

/// An entry, in JSON.
pub fn entry_value(entry: &InjectedEntry) -> (r: serde_json::Value)
    ensures
        json::held(r) == entry_json(entry@),
{
    let mut o: serde_json::Map<String, serde_json::Value> = serde_json::Map::new();
    add_member(&mut o, "id", json::text_value(entry.id.as_str()));
    add_member(&mut o, "accessibilityLabel", json::text_value(entry.accessibility_label.as_str()));
    add_member(&mut o, "categories", list_value(&entry.categories));
    add_member(&mut o, "subcategories", list_value(&entry.subcategories));
    add_member(&mut o, "includeInShuffle", json::bool_value(entry.include_in_shuffle));
    add_member(&mut o, "localizedNameKey", json::text_value(entry.localized_name_key.as_str()));
    add_member(&mut o, "pointsOfInterest", points_value(entry.point_of_interest.as_str()));
    add_member(&mut o, "preferredOrder", json::number_value(entry.preferred_order));
    add_member(&mut o, "previewImage", json::text_value(entry.preview_image.as_str()));
    add_member(&mut o, "shotID", json::text_value(entry.shot_id.as_str()));
    add_member(&mut o, "showInTopLevel", json::bool_value(entry.show_in_top_level));
    add_member(&mut o, "url-4K-SDR-240FPS", json::text_value(entry.url_4k_sdr_240fps.as_str()));
    assert(json::members(o) =~= entry_json(entry@)->Object_0);
    json::object_value(o)
}

/// The asset has this id.
pub open spec fn has_id(asset: JsonText, id: Seq<char>) -> bool {
    json::text_member(asset, "id"@) == Some(id)
}

/// The position of the first asset with this id: the number of assets where there is none.
pub open spec fn asset_position(assets: Seq<JsonText>, id: Seq<char>) -> int
    decreases assets.len(),
{
    if assets.len() == 0 || has_id(assets[0], id) {
        0
    } else {
        1 + asset_position(assets.skip(1), id)
    }
}

/// The assets, with the entry in the place of the first with this id, or before all.
pub open spec fn with_entry(
    assets: Seq<JsonText>,
    id: Seq<char>,
    entry: JsonText,
) -> Seq<JsonText> {
    let p = asset_position(assets, id);
    if p < assets.len() {
        assets.update(p, entry)
    } else {
        assets.insert(0, entry)
    }
}

/// The assets without those with this id.
pub open spec fn without_entry(assets: Seq<JsonText>, id: Seq<char>) -> Seq<JsonText>
    decreases assets.len(),
{
    if assets.len() == 0 {
        assets
    } else if has_id(assets.last(), id) {
        without_entry(assets.drop_last(), id)
    } else {
        without_entry(assets.drop_last(), id).push(assets.last())
    }
}

/// The catalog with an entry, where it has a list of assets.
pub open spec fn upserted(catalog: JsonText, id: Seq<char>, entry: JsonText) -> Option<JsonText> {
    match json::array_member(catalog, "assets"@) {
        Some(assets) => Some(
            json::with_member(
                catalog,
                "assets"@,
                JsonText::Array(with_entry(assets, id, entry)),
            ),
        ),
        None => None,
    }
}

/// The catalog without the entries with this id.
pub open spec fn removed(catalog: JsonText, id: Seq<char>) -> JsonText {
    match json::array_member(catalog, "assets"@) {
        Some(assets) => json::with_member(
            catalog,
            "assets"@,
            JsonText::Array(without_entry(assets, id)),
        ),
        None => catalog,
    }
}

/// What came of an injection.
#[derive(Debug, Clone, Copy, PartialEq, Eq, Structural)]
pub enum Injection {
    Updated,
    Inserted,
}

/// Why the catalog cannot be changed.
#[derive(Debug)]
pub enum InjectError {
    /// The catalog is no JSON.
    Parse(serde_json::Error),
    /// The catalog has no list of assets.
    NoAssets,
    /// The catalog has no text.
    Print(serde_json::Error),
}

impl InjectError {
    /// The message that tells the user what is wrong. For a catalog that is no JSON, its own
    /// error tells more.
    pub fn message(&self) -> (r: &'static str)
        ensures
            r@ == (match self {
                InjectError::Parse(_) => "parsing entries.json"@,
                InjectError::NoAssets => "entries.json has no `assets` array"@,
                InjectError::Print(_) => "writing entries.json"@,
            }),
    {
        match self {
            InjectError::Parse(_) => "parsing entries.json",
            InjectError::NoAssets => "entries.json has no `assets` array",
            InjectError::Print(_) => "writing entries.json",
        }
    }
}

/// Whether the asset has this id.
fn id_is(asset: &serde_json::Value, asset_id: &str) -> (r: bool)
    ensures
        r == has_id(json::held(*asset), asset_id@),
{
    match json::string(asset, "id") {
        Some(id) => text::same_text(id.as_str(), asset_id),
        None => false,
    }
}

/// The position of the first asset with this id.
fn find_asset(assets: &Vec<serde_json::Value>, asset_id: &str) -> (r: usize)
    ensures
        r == asset_position(json::all_held(assets@), asset_id@),
        r <= assets@.len(),
{
    let ghost texts = json::all_held(assets@);
    let mut at: usize = 0;
    assert(texts.skip(0) =~= texts);
    while at < assets.len() && !id_is(&assets[at], asset_id)
        invariant
            at <= assets@.len(),
            texts == json::all_held(assets@),
            asset_position(texts, asset_id@) == at + asset_position(
                texts.skip(at as int),
                asset_id@,
            ),
        decreases assets@.len() - at,
    {
        assert(texts.skip(at as int).skip(1) =~= texts.skip(at + 1));
        at = at + 1;
    }
    at
}

/// Drops the assets with this id.
fn drop_asset(assets: &mut Vec<serde_json::Value>, asset_id: &str)
    ensures
        json::all_held(final(assets)@) == without_entry(
            json::all_held(old(assets)@),
            asset_id@,
        ),
{
    let ghost texts = json::all_held(assets@);
    let ghost mut seen: int = 0;
    let mut i: usize = 0;
    assert(texts.take(0) =~= Seq::empty());
    while i < assets.len()
        invariant
            0 <= seen <= texts.len(),
            i <= assets@.len(),
            assets@.len() - i == texts.len() - seen,
            json::all_held(assets@).take(i as int) == without_entry(texts.take(seen), asset_id@),
            json::all_held(assets@).skip(i as int) == texts.skip(seen),
        decreases assets@.len() - i,
    {
        let ghost was = json::all_held(assets@);
        proof {
            assert(was.skip(i as int)[0] == texts.skip(seen)[0]);
            assert(was[i as int] == json::held(assets@[i as int]));
            assert(texts.take(seen + 1).drop_last() =~= texts.take(seen));
            assert(was.skip(i as int).skip(1) =~= was.skip(i + 1));
            assert(texts.skip(seen).skip(1) =~= texts.skip(seen + 1));
        }
        if id_is(&assets[i], asset_id) {
            assets.remove(i);
            assert(json::all_held(assets@) =~= was.remove(i as int));
            assert(was.remove(i as int).take(i as int) =~= was.take(i as int));
            assert(was.remove(i as int).skip(i as int) =~= was.skip(i + 1));
        } else {
            assert(was.take(i + 1) =~= was.take(i as int).push(was[i as int]));
            i = i + 1;
        }
        proof {
            seen = seen + 1;
        }
    }
    assert(json::all_held(assets@).take(i as int) =~= json::all_held(assets@));
    assert(texts.take(seen) =~= texts);
}

/// Puts a video into the text of a catalog, with its entry in place of an older one with the
/// same id. The text of the catalog comes back, and which of the two was done. The id can be
/// cut behind the eighth byte.
pub fn upsert_entry(
    manifest: &str,
    asset_id: &str,
    display_name: &str,
    video_path: &str,
    thumb_path: &str,
) -> (r: Result<(String, Injection), InjectError>)
    requires
        vstd::utf8::is_char_boundary(vstd::utf8::encode_utf8(asset_id@), 8),
    ensures
        match json::parsed(manifest@) {
            None => r matches Err(InjectError::Parse(_)),
            Some(catalog) => match upserted(
                catalog,
                asset_id@,
                entry_json(entry_for(asset_id@, display_name@, video_path@, thumb_path@)),
            ) {
                None => r matches Err(InjectError::NoAssets),
                Some(new) => {
                    let assets = json::array_member(catalog, "assets"@)->0;
                    &&& r is Ok
                    &&& r->Ok_0.0@ == json::pretty(new)
                    &&& r->Ok_0.1 == if asset_position(assets, asset_id@) < assets.len() {
                        Injection::Updated
                    } else {
                        Injection::Inserted
                    }
                },
            },
        },
{
    let mut data = match json::parse(manifest) {
        Ok(data) => data,
        Err(e) => {
            return Err(InjectError::Parse(e));
        },
    };
    let mut assets = match json::elements(&data, "assets") {
        Some(assets) => assets,
        None => {
            return Err(InjectError::NoAssets);
        },
    };
    let entry = entry_value(&entry(asset_id, display_name, video_path, thumb_path));
    let at = find_asset(&assets, asset_id);
    let ghost was = json::all_held(assets@);
    let ghost shown = json::held(entry);
    let injection = if at < assets.len() {
        assets.set(at, entry);
        assert(json::all_held(assets@) =~= was.update(at as int, shown));
        Injection::Updated
    } else {
        assets.insert(0, entry);
        assert(json::all_held(assets@) =~= was.insert(0, shown));
        Injection::Inserted
    };
    json::set_array(&mut data, "assets", assets);
    match json::print(&data) {
        Ok(text) => Ok((text, injection)),
        Err(e) => Err(InjectError::Print(e)),
    }
}

/// Takes the entries with this id out of the text of a catalog. A catalog without a list of
/// assets stays as it is.
pub fn remove_entry(manifest: &str, asset_id: &str) -> (r: Result<String, InjectError>)
    ensures
        match json::parsed(manifest@) {
            None => r matches Err(InjectError::Parse(_)),
            Some(catalog) => r is Ok && r->Ok_0@ == json::pretty(removed(catalog, asset_id@)),
        },
{
    let mut data = match json::parse(manifest) {
        Ok(data) => data,
        Err(e) => {
            return Err(InjectError::Parse(e));
        },
    };
    match json::elements(&data, "assets") {
        Some(mut assets) => {
            drop_asset(&mut assets, asset_id);
            json::set_array(&mut data, "assets", assets);
        },
        None => {},
    }
    match json::print(&data) {
        Ok(text) => Ok(text),
        Err(e) => Err(InjectError::Print(e)),
    }
}

/// What is wrong where the catalog is missing.
pub fn missing_manifest(path: &str) -> (r: String)
    ensures
        r@ == "manifest not found at "@ + path@
            + " — WallpaperAgent may not be initialised yet"@,
{
    text::join3(
        "manifest not found at ",
        path,
        " — WallpaperAgent may not be initialised yet",
    )
}

/// What is said after an entry has been removed.
pub fn removed_line(asset_id: &str) -> (r: String)
    ensures
        r@ == "removed entry "@ + asset_id@,
{
    text::join2("removed entry ", asset_id)
}

/// What is said after an entry has been injected.
pub fn injected_line(display_name: &str, asset_id: &str) -> (r: String)
    ensures
        r@ == "Injected '"@ + display_name@ + "' (id "@ + asset_id@ + ")."@,
{
    let mut r = text::join3("Injected '", display_name, "' (id ");
    r.append(asset_id);
    r.append(").");
    r
}

/// What the position of an asset says.
proof fn asset_position_facts(assets: Seq<JsonText>, id: Seq<char>)
    ensures
        0 <= asset_position(assets, id) <= assets.len(),
        asset_position(assets, id) < assets.len() ==> has_id(
            assets[asset_position(assets, id)],
            id,
        ),
        forall|k: int| 0 <= k < asset_position(assets, id) ==> !has_id(#[trigger] assets[k], id),
    decreases assets.len(),
{
    if assets.len() > 0 && !has_id(assets[0], id) {
        let rest = assets.skip(1);
        asset_position_facts(rest, id);
        assert forall|k: int| 0 <= k < asset_position(assets, id) implies !has_id(
            #[trigger] assets[k],
            id,
        ) by {
            if k > 0 {
                assert(rest[k - 1] == assets[k]);
            }
        }
    }
}

/// An entry with this id, put in twice, is there as if put in once.
proof fn with_entry_twice(assets: Seq<JsonText>, id: Seq<char>, entry: JsonText, again: JsonText)
    requires
        has_id(entry, id),
    ensures
        with_entry(with_entry(assets, id, entry), id, again) == with_entry(assets, id, again),
{
    let once = with_entry(assets, id, entry);
    asset_position_facts(assets, id);
    asset_position_facts(once, id);
    let p = asset_position(assets, id);
    if p < assets.len() {
        assert(once[p] == entry);
        assert forall|k: int| 0 <= k < p implies !has_id(#[trigger] once[k], id) by {
            assert(once[k] == assets[k]);
        }
        assert(asset_position(once, id) == p);
    } else {
        assert(once[0] == entry);
        assert(asset_position(once, id) == 0);
    }
    assert(with_entry(once, id, again) =~= with_entry(assets, id, again));
}

/// An entry that has been put in and taken out again leaves the list as it was, where no
/// asset had its id.
proof fn with_and_without_entry(assets: Seq<JsonText>, id: Seq<char>, entry: JsonText)
    requires
        has_id(entry, id),
        forall|k: int| 0 <= k < assets.len() ==> !has_id(#[trigger] assets[k], id),
    ensures
        without_entry(with_entry(assets, id, entry), id) == assets,
    decreases assets.len(),
{
    asset_position_facts(assets, id);
    let all = assets.insert(0, entry);
    assert(with_entry(assets, id, entry) == all);
    if assets.len() == 0 {
        assert(all.drop_last() =~= assets);
        assert(without_entry(all.drop_last(), id) == assets);
    } else {
        let front = assets.drop_last();
        assert forall|k: int| 0 <= k < front.len() implies !has_id(#[trigger] front[k], id) by {
            assert(assets[k] == front[k]);
        }
        with_and_without_entry(front, id, entry);
        asset_position_facts(front, id);
        assert(all.drop_last() =~= front.insert(0, entry));
        assert(all.last() == assets[assets.len() - 1]);
        assert(front.push(assets.last()) =~= assets);
    }
}

/// No asset is left with the id, and the others stay.
proof fn without_entry_facts(assets: Seq<JsonText>, id: Seq<char>)
    ensures
        forall|a: JsonText| #[trigger]
            without_entry(assets, id).contains(a) <==> assets.contains(a) && !has_id(a, id),
    decreases assets.len(),
{
    if assets.len() > 0 {
        let front = assets.drop_last();
        without_entry_facts(front, id);
        seqs::contains_drop_last(assets);
        seqs::contains_push(without_entry(front, id), assets.last());
        assert forall|a: JsonText| #[trigger]
            without_entry(assets, id).contains(a) <==> assets.contains(a) && !has_id(a, id) by {
            assert(without_entry(front, id).contains(a) <==> front.contains(a) && !has_id(a, id));
        }
    }
}

/// Every entry of ours takes part in the shuffle, and has a point of interest.
pub proof fn shape_law(
    id: Seq<char>,
    name: Seq<char>,
    video_path: Seq<char>,
    thumb_path: Seq<char>,
)
    ensures
        ({
            let e = entry_json(entry_for(id, name, video_path, thumb_path));
            let points = json::member(e, "pointsOfInterest"@);
            &&& json::text_member(e, "id"@) == Some(id)
            &&& json::member(e, "includeInShuffle"@) == Some(JsonText::Bool(true))
            &&& points is Some && points->0 is Object && points->0->Object_0.len() > 0
        }),
{
    let members = entry_json(entry_for(id, name, video_path, thumb_path))->Object_0;
    entry_names_differ();
    assert forall|k: int| 0 <= k < 12 implies (#[trigger] members[k]).0 == entry_names()[k] by {}
    json::member_position_facts(members, "id"@);
    json::member_position_facts(members, "includeInShuffle"@);
    json::member_position_facts(members, "pointsOfInterest"@);
    assert(members[0].0 == "id"@ && members[4].0 == "includeInShuffle"@ && members[6].0
        == "pointsOfInterest"@);
}

/// To inject a video again updates its entry in place instead of adding a second one: the
/// catalog is as if the second entry alone had been injected. The same entry once more
/// changes nothing.
pub proof fn reinjection_law(catalog: JsonText, entry: EntryText, again: EntryText)
    requires
        entry.id == again.id,
    ensures
        upserted(catalog, entry.id, entry_json(entry)) matches Some(once) ==> {
            &&& upserted(once, again.id, entry_json(again)) == upserted(
                catalog,
                again.id,
                entry_json(again),
            )
            &&& upserted(once, entry.id, entry_json(entry)) == Some(once)
        },
{
    let id = entry.id;
    match json::array_member(catalog, "assets"@) {
        Some(assets) => {
            let once = with_entry(assets, id, entry_json(entry));
            assert(has_id(entry_json(entry), id));
            with_entry_twice(assets, id, entry_json(entry), entry_json(again));
            with_entry_twice(assets, id, entry_json(entry), entry_json(entry));
            json::with_member_facts(
                catalog,
                "assets"@,
                JsonText::Array(once),
                JsonText::Array(with_entry(assets, id, entry_json(again))),
            );
            json::with_member_facts(
                catalog,
                "assets"@,
                JsonText::Array(once),
                JsonText::Array(once),
            );
        },
        None => {},
    }
}

/// After a removal no asset of the catalog has the id, and all others are there.
pub proof fn removal_law(catalog: JsonText, id: Seq<char>)
    ensures
        json::array_member(catalog, "assets"@) matches Some(assets) ==> {
            let left = json::array_member(removed(catalog, id), "assets"@);
            &&& left is Some
            &&& forall|a: JsonText| #[trigger]
                left->0.contains(a) <==> assets.contains(a) && !has_id(a, id)
        },
        json::array_member(catalog, "assets"@) is None ==> removed(catalog, id) == catalog,
{
    match json::array_member(catalog, "assets"@) {
        Some(assets) => {
            let left = JsonText::Array(without_entry(assets, id));
            without_entry_facts(assets, id);
            json::with_member_facts(catalog, "assets"@, left, left);
        },
        None => {},
    }
}

/// A removal undoes an injection: where no asset had the id, the catalog is as before.
pub proof fn undo_law(catalog: JsonText, entry: EntryText)
    requires
        json::array_member(catalog, "assets"@) matches Some(assets) ==> forall|k: int|
            0 <= k < assets.len() ==> !has_id(#[trigger] assets[k], entry.id),
    ensures
        upserted(catalog, entry.id, entry_json(entry)) matches Some(new) ==> removed(new, entry.id)
            == catalog,
{
    let id = entry.id;
    match json::array_member(catalog, "assets"@) {
        Some(assets) => {
            let all = with_entry(assets, id, entry_json(entry));
            assert(has_id(entry_json(entry), id));
            with_and_without_entry(assets, id, entry_json(entry));
            json::with_member_facts(
                catalog,
                "assets"@,
                JsonText::Array(all),
                JsonText::Array(assets),
            );
        },
        None => {},
    }
}

/// The entry of a video, member by member: it stands among the landscapes next to the entries
/// of the system, goes by the name in both members that the picker shows, leads to the video
/// and to the thumbnail, each by its own path, and has nothing else.
pub proof fn entry_law(
    id: Seq<char>,
    name: Seq<char>,
    video_path: Seq<char>,
    thumb_path: Seq<char>,
)
    ensures
        ({
            let e = entry_json(entry_for(id, name, video_path, thumb_path));
            &&& e is Object
            &&& e->Object_0.len() == 12
            &&& json::member(e, "id"@) == Some(JsonText::Text(id))
            &&& json::member(e, "accessibilityLabel"@) == Some(JsonText::Text(name))
            &&& json::member(e, "categories"@) == Some(
                JsonText::Array(seq![JsonText::Text("A33A55D9-EDEA-4596-A850-6C10B54FBBB5"@)]),
            )
            &&& json::member(e, "subcategories"@) == Some(
                JsonText::Array(seq![JsonText::Text("0DC99DD8-3386-4D1E-8878-C43E97EB710A"@)]),
            )
            &&& json::member(e, "includeInShuffle"@) == Some(JsonText::Bool(true))
            &&& json::member(e, "localizedNameKey"@) == Some(JsonText::Text(name))
            &&& json::member(e, "pointsOfInterest"@) == Some(
                JsonText::Object(seq![("0"@, JsonText::Text(name))]),
            )
            &&& json::member(e, "preferredOrder"@) == Some(JsonText::Number(seq!['0']))
            &&& json::member(e, "previewImage"@) == Some(JsonText::Text("file://"@ + thumb_path))
            &&& json::member(e, "showInTopLevel"@) == Some(JsonText::Bool(true))
            &&& json::member(e, "url-4K-SDR-240FPS"@) == Some(
                JsonText::Text("file://"@ + video_path),
            )
            &&& vstd::utf8::is_ascii_chars(id) && id.len() >= 8 ==> json::member(e, "shotID"@)
                == Some(JsonText::Text("PHONTO_"@ + id.take(8)))
        }),
{
    let entry = entry_for(id, name, video_path, thumb_path);
    let members = entry_json(entry)->Object_0;
    entry_names_differ();
    assert forall|k: int| 0 <= k < 12 implies (#[trigger] members[k]).0 == entry_names()[k] by {}
    assert forall|i: int, k: int| 0 <= k < i < 12 implies (#[trigger] members[k]).0 != (
    #[trigger] members[i]).0 by {
        assert(entry_names()[k] != entry_names()[i]);
    }
    json::member_law(members, "id"@, 0);
    json::member_law(members, "accessibilityLabel"@, 1);
    json::member_law(members, "categories"@, 2);
    json::member_law(members, "subcategories"@, 3);
    json::member_law(members, "includeInShuffle"@, 4);
    json::member_law(members, "localizedNameKey"@, 5);
    json::member_law(members, "pointsOfInterest"@, 6);
    json::member_law(members, "preferredOrder"@, 7);
    json::member_law(members, "previewImage"@, 8);
    json::member_law(members, "shotID"@, 9);
    json::member_law(members, "showInTopLevel"@, 10);
    json::member_law(members, "url-4K-SDR-240FPS"@, 11);
    assert(text_list(entry.categories)->Array_0 =~= seq![
        JsonText::Text("A33A55D9-EDEA-4596-A850-6C10B54FBBB5"@),
    ]);
    assert(text_list(entry.subcategories)->Array_0 =~= seq![
        JsonText::Text("0DC99DD8-3386-4D1E-8878-C43E97EB710A"@),
    ]);
    assert(text::signed_decimal(0) =~= seq!['0']);
    if vstd::utf8::is_ascii_chars(id) && id.len() >= 8 {
        install::first_bytes_law(id, 8);
    }
}

/// Where an entry goes: into the place of the first asset with its id, and before all others
/// where there is none. The other assets stay as they are and in order, and so does all else
/// in the catalog. A catalog without a list of assets takes no entry.
pub proof fn injection_law(
    catalog: JsonText,
    id: Seq<char>,
    entry: JsonText,
    i: int,
    k: int,
    other: Seq<char>,
)
    ensures
        json::array_member(catalog, "assets"@) is None <==> upserted(catalog, id, entry) is None,
        json::array_member(catalog, "assets"@) matches Some(assets) ==> {
            let new = upserted(catalog, id, entry)->0;
            let all = json::array_member(new, "assets"@);
            &&& all is Some
            &&& other != "assets"@ ==> json::member(new, other) == json::member(catalog, other)
            &&& 0 <= i < assets.len() && has_id(assets[i], id) && (forall|j: int|
                0 <= j < i ==> !has_id(#[trigger] assets[j], id)) ==> {
                &&& all->0.len() == assets.len()
                &&& all->0[i] == entry
                &&& 0 <= k < assets.len() && k != i ==> all->0[k] == assets[k]
            }
            &&& (forall|j: int| 0 <= j < assets.len() ==> !has_id(#[trigger] assets[j], id)) ==> {
                &&& all->0.len() == assets.len() + 1
                &&& all->0[0] == entry
                &&& 0 <= k < assets.len() ==> all->0[k + 1] == assets[k]
            }
        },
{
    match json::array_member(catalog, "assets"@) {
        Some(assets) => {
            let all = JsonText::Array(with_entry(assets, id, entry));
            asset_position_facts(assets, id);
            json::with_member_facts(catalog, "assets"@, all, all);
            if other != "assets"@ {
                json::other_members_law(catalog, "assets"@, all, other);
            }
            if 0 <= i < assets.len() && has_id(assets[i], id) && (forall|j: int|
                0 <= j < i ==> !has_id(#[trigger] assets[j], id)) {
                assert(asset_position(assets, id) == i);
            }
        },
        None => {},
    }
}

/// An asset is known by the text of its `id` and by nothing else.
pub proof fn id_law(asset: JsonText, id: Seq<char>)
    ensures
        has_id(asset, id) <==> json::member(asset, "id"@) == Some(JsonText::Text(id)),
{
}

/// What a removal leaves stands in the order in which it stood, and nothing else of the
/// catalog changes.
pub proof fn removal_order_law(catalog: JsonText, id: Seq<char>, other: Seq<char>)
    ensures
        json::array_member(catalog, "assets"@) matches Some(assets) ==> json::array_member(
            removed(catalog, id),
            "assets"@,
        ) == Some(assets.filter(|a: JsonText| !has_id(a, id))),
        other != "assets"@ ==> json::member(removed(catalog, id), other) == json::member(
            catalog,
            other,
        ),
{
    match json::array_member(catalog, "assets"@) {
        Some(assets) => {
            let left = JsonText::Array(without_entry(assets, id));
            without_entry_order(assets, id);
            json::with_member_facts(catalog, "assets"@, left, left);
            if other != "assets"@ {
                json::other_members_law(catalog, "assets"@, left, other);
            }
        },
        None => {},
    }
}

/// The assets that are left stand in the order in which they stood.
proof fn without_entry_order(assets: Seq<JsonText>, id: Seq<char>)
    ensures
        without_entry(assets, id) == assets.filter(|a: JsonText| !has_id(a, id)),
    decreases assets.len(),
{
    reveal(Seq::filter);
    if assets.len() > 0 {
        without_entry_order(assets.drop_last(), id);
    }
}

/// What came of an injection: an entry was updated exactly where an asset had its id, and
/// inserted else.
pub proof fn outcome_law(
    manifest: &str,
    asset_id: &str,
    display_name: &str,
    video_path: &str,
    thumb_path: &str,
    r: Result<(String, Injection), InjectError>,
)
    requires
        call_ensures(upsert_entry, (manifest, asset_id, display_name, video_path, thumb_path), r),
    ensures
        json::parsed(manifest@) is None <==> r matches Err(InjectError::Parse(_)),
        r is Ok <==> json::parsed(manifest@) is Some && json::array_member(
            json::parsed(manifest@)->0,
            "assets"@,
        ) is Some,
        r matches Ok((_, injection)) ==> {
            let assets = json::array_member(json::parsed(manifest@)->0, "assets"@)->0;
            injection == Injection::Updated <==> exists|i: int|
                0 <= i < assets.len() && has_id(#[trigger] assets[i], asset_id@)
        },
{
    if r is Ok {
        let assets = json::array_member(json::parsed(manifest@)->0, "assets"@)->0;
        asset_position_facts(assets, asset_id@);
        if exists|i: int| 0 <= i < assets.len() && has_id(#[trigger] assets[i], asset_id@) {
            let i = choose|i: int| 0 <= i < assets.len() && has_id(#[trigger] assets[i], asset_id@);
            assert(asset_position(assets, asset_id@) <= i);
        }
    }
}

} // verus!
