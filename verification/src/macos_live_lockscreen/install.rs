//! Puts a video into the catalog of aerial wallpapers, and takes it out again.
//!
//! The catalog is rejected as a whole where a category has no subcategory, or where its
//! representative asset or preview is missing: the picker then shows no section at all.
use vstd::prelude::*;

use crate::config;
use crate::json::JsonText;
use crate::macos_live_lockscreen::manifest;
use crate::macos_live_lockscreen::manifest::{
    Asset, AssetText, Category, CategoryText, Manifest, ManifestText, Subcategory, SubcategoryText,
};
use crate::paths;
use crate::seqs;
use crate::text;

verus! {

/// The category of our assets.
pub const PHONTO_CATEGORY_ID: &'static str = "8C75F1C2-7E7E-4B5C-9C5C-50484F4E544F";

/// The subcategory of our assets.
pub const PHONTO_SUBCATEGORY_ID: &'static str = "8C75F1C2-7E7E-4B5C-9C5C-535542434154";

/// What the picker calls the section.
pub const PHONTO_LABEL: &'static str = "Phonto";

/// The first `n` bytes of a text, as text.
pub open spec fn first_bytes(s: Seq<char>, n: int) -> Seq<char> {
    vstd::utf8::decode_utf8(vstd::utf8::encode_utf8(s).subrange(0, n))
}

/// The subcategory of our assets.
pub open spec fn subcategory_for(rep: Seq<char>, preview: Seq<char>) -> SubcategoryText {
    SubcategoryText {
        id: PHONTO_SUBCATEGORY_ID@,
        representative_asset_id: rep,
        preview_image: preview,
        localized_description_key: Some(PHONTO_LABEL@),
        localized_name_key: Some(PHONTO_LABEL@),
        preferred_order: Some(0i64),
        extra: Seq::empty(),
    }
}

/// The category of our assets.
pub open spec fn category_for(rep: Seq<char>, preview: Seq<char>) -> CategoryText {
    CategoryText {
        id: PHONTO_CATEGORY_ID@,
        representative_asset_id: rep,
        preview_image: preview,
        subcategories: seq![subcategory_for(rep, preview)],
        localized_description_key: Some(PHONTO_LABEL@),
        localized_name_key: Some(PHONTO_LABEL@),
        preferred_order: Some(-1i64),
        extra: Seq::empty(),
    }
}

/// One of our assets.
pub open spec fn asset_for(
    id: Seq<char>,
    name: Seq<char>,
    video_url: Seq<char>,
    preview_url: Seq<char>,
) -> AssetText {
    AssetText {
        id,
        categories: seq![PHONTO_CATEGORY_ID@],
        subcategories: seq![PHONTO_SUBCATEGORY_ID@],
        preview_image: preview_url,
        accessibility_label: Some(name),
        localized_name_key: Some(name),
        include_in_shuffle: Some(false),
        points_of_interest: Some(Seq::empty()),
        preferred_order: Some(0i64),
        shot_id: Some("PHONTO_"@ + first_bytes(id, 8)),
        show_in_top_level: Some(true),
        url_4k_sdr_240fps: Some(video_url),
        extra: Seq::empty(),
    }
}

/// The position of the first category with this id: the number of categories where there is
/// none.
pub open spec fn category_position(categories: Seq<CategoryText>, id: Seq<char>) -> int
    decreases categories.len(),
{
    if categories.len() == 0 || categories[0].id == id {
        0
    } else {
        1 + category_position(categories.skip(1), id)
    }
}

/// The position of the first asset with this id: the number of assets where there is none.
pub open spec fn asset_position(assets: Seq<AssetText>, id: Seq<char>) -> int
    decreases assets.len(),
{
    if assets.len() == 0 || assets[0].id == id {
        0
    } else {
        1 + asset_position(assets.skip(1), id)
    }
}

/// The asset is one of ours.
pub open spec fn is_ours(a: AssetText) -> bool {
    a.categories.contains(PHONTO_CATEGORY_ID@)
}

/// The position of the first of our assets: the number of assets where there is none.
pub open spec fn our_position(assets: Seq<AssetText>) -> int
    decreases assets.len(),
{
    if assets.len() == 0 || is_ours(assets[0]) {
        0
    } else {
        1 + our_position(assets.skip(1))
    }
}

/// A category that shows this asset.
pub open spec fn showing(c: CategoryText, rep: Seq<char>, preview: Seq<char>) -> CategoryText {
    CategoryText {
        representative_asset_id: rep,
        preview_image: preview,
        subcategories: seq![subcategory_for(rep, preview)],
        ..c
    }
}

/// The categories, with ours showing this asset.
pub open spec fn with_category(
    categories: Seq<CategoryText>,
    rep: Seq<char>,
    preview: Seq<char>,
) -> Seq<CategoryText> {
    let p = category_position(categories, PHONTO_CATEGORY_ID@);
    if p < categories.len() {
        categories.update(p, showing(categories[p], rep, preview))
    } else {
        categories.push(category_for(rep, preview))
    }
}

/// The assets, with this one in the place of the first with its id, or before all.
pub open spec fn with_asset(assets: Seq<AssetText>, asset: AssetText) -> Seq<AssetText> {
    let p = asset_position(assets, asset.id);
    if p < assets.len() {
        assets.update(p, asset)
    } else {
        assets.insert(0, asset)
    }
}

/// The catalog with one of our assets.
pub open spec fn upserted(
    m: ManifestText,
    id: Seq<char>,
    name: Seq<char>,
    video_url: Seq<char>,
    preview_url: Seq<char>,
) -> ManifestText {
    ManifestText {
        assets: with_asset(m.assets, asset_for(id, name, video_url, preview_url)),
        categories: with_category(m.categories, id, preview_url),
        ..m
    }
}

/// The assets without those with this id.
pub open spec fn without_asset(assets: Seq<AssetText>, id: Seq<char>) -> Seq<AssetText>
    decreases assets.len(),
{
    if assets.len() == 0 {
        assets
    } else if assets.last().id == id {
        without_asset(assets.drop_last(), id)
    } else {
        without_asset(assets.drop_last(), id).push(assets.last())
    }
}

/// The categories without those with this id.
pub open spec fn without_category(categories: Seq<CategoryText>, id: Seq<char>) -> Seq<CategoryText>
    decreases categories.len(),
{
    if categories.len() == 0 {
        categories
    } else if categories.last().id == id {
        without_category(categories.drop_last(), id)
    } else {
        without_category(categories.drop_last(), id).push(categories.last())
    }
}

/// The catalog, with our category showing the first of our assets, or gone where there is
/// none.
pub open spec fn repaired(m: ManifestText) -> ManifestText {
    let first = our_position(m.assets);
    let p = category_position(m.categories, PHONTO_CATEGORY_ID@);
    if first < m.assets.len() {
        if p < m.categories.len() {
            ManifestText {
                categories: m.categories.update(
                    p,
                    showing(
                        m.categories[p],
                        m.assets[first].id,
                        m.assets[first].preview_image,
                    ),
                ),
                ..m
            }
        } else {
            m
        }
    } else {
        ManifestText { categories: without_category(m.categories, PHONTO_CATEGORY_ID@), ..m }
    }
}

/// The catalog without the asset.
pub open spec fn removed(m: ManifestText, id: Seq<char>) -> ManifestText {
    repaired(ManifestText { assets: without_asset(m.assets, id), ..m })
}

/// The subcategory of our assets.
pub fn phonto_subcategory(rep_asset_id: &str, preview_url: &str) -> (r: Subcategory)
    ensures
        r@ == subcategory_for(rep_asset_id@, preview_url@),
{
    Subcategory {
        id: PHONTO_SUBCATEGORY_ID.to_owned(),
        representative_asset_id: rep_asset_id.to_owned(),
        preview_image: preview_url.to_owned(),
        localized_description_key: Some(PHONTO_LABEL.to_owned()),
        localized_name_key: Some(PHONTO_LABEL.to_owned()),
        preferred_order: Some(0),
        extra: serde_json::Map::new(),
    }
}

/// The one subcategory of our category.
fn phonto_subcategories(rep_asset_id: &str, preview_url: &str) -> (r: Vec<Subcategory>)
    ensures
        manifest::subcategory_texts(r@) == seq![subcategory_for(rep_asset_id@, preview_url@)],
{
    let mut r: Vec<Subcategory> = Vec::new();
    r.push(phonto_subcategory(rep_asset_id, preview_url));
    assert(manifest::subcategory_texts(r@) =~= seq![
        subcategory_for(rep_asset_id@, preview_url@),
    ]);
    r
}

/// The category of our assets.
pub fn phonto_category(rep_asset_id: &str, preview_url: &str) -> (r: Category)
    ensures
        r@ == category_for(rep_asset_id@, preview_url@),
{
    Category {
        id: PHONTO_CATEGORY_ID.to_owned(),
        representative_asset_id: rep_asset_id.to_owned(),
        preview_image: preview_url.to_owned(),
        subcategories: phonto_subcategories(rep_asset_id, preview_url),
        localized_description_key: Some(PHONTO_LABEL.to_owned()),
        localized_name_key: Some(PHONTO_LABEL.to_owned()),
        preferred_order: Some(-1),
        extra: serde_json::Map::new(),
    }
}

/// A list of one text.
fn just(s: &str) -> (r: Vec<String>)
    ensures
        text::views(r@) == seq![s@],
{
    let mut r: Vec<String> = Vec::new();
    r.push(s.to_owned());
    assert(text::views(r@) =~= seq![s@]);
    r
}

/// One of our assets. Its id can be cut behind the eighth byte.
pub fn phonto_asset(asset_id: &str, display_name: &str, video_url: &str, preview_url: &str) -> (r:
    Asset)
    requires
        vstd::utf8::is_char_boundary(vstd::utf8::encode_utf8(asset_id@), 8),
    ensures
        r@ == asset_for(asset_id@, display_name@, video_url@, preview_url@),
{
    let (head, _) = asset_id.split_at(8);
    proof {
        vstd::utf8::encode_utf8_decode_utf8(head@);
        assert(vstd::utf8::encode_utf8(head@) =~= vstd::utf8::encode_utf8(asset_id@).subrange(
            0,
            8,
        ));
    }
    let points_of_interest: serde_json::Map<String, serde_json::Value> = serde_json::Map::new();
    let extra: serde_json::Map<String, serde_json::Value> = serde_json::Map::new();
    Asset {
        id: asset_id.to_owned(),
        categories: just(PHONTO_CATEGORY_ID),
        subcategories: just(PHONTO_SUBCATEGORY_ID),
        preview_image: preview_url.to_owned(),
        accessibility_label: Some(display_name.to_owned()),
        localized_name_key: Some(display_name.to_owned()),
        include_in_shuffle: Some(false),
        points_of_interest: Some(points_of_interest),
        preferred_order: Some(0),
        shot_id: Some(text::join2("PHONTO_", head)),
        show_in_top_level: Some(true),
        url_4k_sdr_240fps: Some(video_url.to_owned()),
        extra,
    }
}

/// The position of the first category with this id.
fn find_category(categories: &Vec<Category>, id: &str) -> (r: usize)
    ensures
        r == category_position(manifest::category_texts(categories@), id@),
        r <= categories@.len(),
{
    let ghost texts = manifest::category_texts(categories@);
    let mut i: usize = 0;
    assert(texts.skip(0) =~= texts);
    while i < categories.len() && !text::same_text(categories[i].id.as_str(), id)
        invariant
            i <= categories@.len(),
            texts == manifest::category_texts(categories@),
            category_position(texts, id@) == i + category_position(texts.skip(i as int), id@),
        decreases categories@.len() - i,
    {
        assert(texts.skip(i as int).skip(1) =~= texts.skip(i + 1));
        i = i + 1;
    }
    i
}

/// The position of the first asset with this id.
fn find_asset(assets: &Vec<Asset>, id: &str) -> (r: usize)
    ensures
        r == asset_position(manifest::asset_texts(assets@), id@),
        r <= assets@.len(),
{
    let ghost texts = manifest::asset_texts(assets@);
    let mut i: usize = 0;
    assert(texts.skip(0) =~= texts);
    while i < assets.len() && !text::same_text(assets[i].id.as_str(), id)
        invariant
            i <= assets@.len(),
            texts == manifest::asset_texts(assets@),
            asset_position(texts, id@) == i + asset_position(texts.skip(i as int), id@),
        decreases assets@.len() - i,
    {
        assert(texts.skip(i as int).skip(1) =~= texts.skip(i + 1));
        i = i + 1;
    }
    i
}

/// Lets the category at this position show an asset.
fn show(categories: &mut Vec<Category>, at: usize, rep_asset_id: &str, preview_url: &str)
    requires
        at < old(categories)@.len(),
    ensures
        manifest::category_texts(final(categories)@) == manifest::category_texts(
            old(categories)@,
        ).update(at as int, showing(old(categories)@[at as int]@, rep_asset_id@, preview_url@)),
{
    let mut c = categories.remove(at);
    c.representative_asset_id = rep_asset_id.to_owned();
    c.preview_image = preview_url.to_owned();
    c.subcategories = phonto_subcategories(rep_asset_id, preview_url);
    categories.insert(at, c);
    assert(manifest::category_texts(categories@) =~= manifest::category_texts(
        old(categories)@,
    ).update(at as int, showing(old(categories)@[at as int]@, rep_asset_id@, preview_url@)));
}

/// Lets our category show an asset, and adds the category where it is missing.
pub fn upsert_phonto_category(manifest: &mut Manifest, rep_asset_id: &str, preview_url: &str)
    ensures
        final(manifest)@ == (ManifestText {
            categories: with_category(old(manifest)@.categories, rep_asset_id@, preview_url@),
            ..old(manifest)@
        }),
{
    let at = find_category(&manifest.categories, PHONTO_CATEGORY_ID);
    if at < manifest.categories.len() {
        show(&mut manifest.categories, at, rep_asset_id, preview_url);
    } else {
        let ghost was = manifest.categories@;
        manifest.categories.push(phonto_category(rep_asset_id, preview_url));
        assert(manifest::category_texts(manifest.categories@) =~= manifest::category_texts(
            was,
        ).push(category_for(rep_asset_id@, preview_url@)));
    }
}

/// The position of the first of our assets.
fn find_ours(assets: &Vec<Asset>) -> (r: usize)
    ensures
        r == our_position(manifest::asset_texts(assets@)),
        r <= assets@.len(),
{
    let ghost texts = manifest::asset_texts(assets@);
    let mut i: usize = 0;
    assert(texts.skip(0) =~= texts);
    while i < assets.len() && !text::has_text(&assets[i].categories, PHONTO_CATEGORY_ID)
        invariant
            i <= assets@.len(),
            texts == manifest::asset_texts(assets@),
            our_position(texts) == i + our_position(texts.skip(i as int)),
        decreases assets@.len() - i,
    {
        assert(texts.skip(i as int).skip(1) =~= texts.skip(i + 1));
        i = i + 1;
    }
    i
}

/// The id and the preview of the first of our assets.
pub fn first_phonto_asset(manifest: &Manifest) -> (r: Option<(String, String)>)
    ensures
        ({
            let p = our_position(manifest@.assets);
            match r {
                Some((id, preview)) => p < manifest@.assets.len() && id@ == manifest@.assets[p].id
                    && preview@ == manifest@.assets[p].preview_image,
                None => p >= manifest@.assets.len(),
            }
        }),
{
    let p = find_ours(&manifest.assets);
    if p < manifest.assets.len() {
        assert(manifest@.assets[p as int] == manifest.assets@[p as int]@);
        Some((manifest.assets[p].id.clone(), manifest.assets[p].preview_image.clone()))
    } else {
        None
    }
}

/// Drops the categories with this id.
fn drop_category(categories: &mut Vec<Category>, id: &str)
    ensures
        manifest::category_texts(final(categories)@) == without_category(
            manifest::category_texts(old(categories)@),
            id@,
        ),
{
    let ghost texts = manifest::category_texts(categories@);
    let ghost mut seen: int = 0;
    let mut i: usize = 0;
    assert(texts.take(0) =~= Seq::empty());
    while i < categories.len()
        invariant
            0 <= seen <= texts.len(),
            i <= categories@.len(),
            categories@.len() - i == texts.len() - seen,
            manifest::category_texts(categories@).take(i as int) == without_category(
                texts.take(seen),
                id@,
            ),
            manifest::category_texts(categories@).skip(i as int) == texts.skip(seen),
        decreases categories@.len() - i,
    {
        let ghost was = manifest::category_texts(categories@);
        proof {
            assert(was.skip(i as int)[0] == texts.skip(seen)[0]);
            assert(was[i as int] == categories@[i as int]@);
            assert(texts.take(seen + 1).drop_last() =~= texts.take(seen));
            assert(was.skip(i as int).skip(1) =~= was.skip(i + 1));
            assert(texts.skip(seen).skip(1) =~= texts.skip(seen + 1));
        }
        if text::same_text(categories[i].id.as_str(), id) {
            categories.remove(i);
            assert(manifest::category_texts(categories@) =~= was.remove(i as int));
            assert(was.remove(i as int).take(i as int) =~= was.take(i as int));
            assert(was.remove(i as int).skip(i as int) =~= was.skip(i + 1));
        } else {
            assert(was.take(i + 1) =~= was.take(i as int).push(was[i as int]));
            i = i + 1;
        }
        proof {
            seen = seen + 1;
        }
    }
    assert(manifest::category_texts(categories@).take(i as int) =~= manifest::category_texts(
        categories@,
    ));
    assert(texts.take(seen) =~= texts);
}

/// Drops the assets with this id.
fn drop_asset(assets: &mut Vec<Asset>, id: &str)
    ensures
        manifest::asset_texts(final(assets)@) == without_asset(
            manifest::asset_texts(old(assets)@),
            id@,
        ),
{
    let ghost texts = manifest::asset_texts(assets@);
    let ghost mut seen: int = 0;
    let mut i: usize = 0;
    assert(texts.take(0) =~= Seq::empty());
    while i < assets.len()
        invariant
            0 <= seen <= texts.len(),
            i <= assets@.len(),
            assets@.len() - i == texts.len() - seen,
            manifest::asset_texts(assets@).take(i as int) == without_asset(texts.take(seen), id@),
            manifest::asset_texts(assets@).skip(i as int) == texts.skip(seen),
        decreases assets@.len() - i,
    {
        let ghost was = manifest::asset_texts(assets@);
        proof {
            assert(was.skip(i as int)[0] == texts.skip(seen)[0]);
            assert(was[i as int] == assets@[i as int]@);
            assert(texts.take(seen + 1).drop_last() =~= texts.take(seen));
            assert(was.skip(i as int).skip(1) =~= was.skip(i + 1));
            assert(texts.skip(seen).skip(1) =~= texts.skip(seen + 1));
        }
        if text::same_text(assets[i].id.as_str(), id) {
            assets.remove(i);
            assert(manifest::asset_texts(assets@) =~= was.remove(i as int));
            assert(was.remove(i as int).take(i as int) =~= was.take(i as int));
            assert(was.remove(i as int).skip(i as int) =~= was.skip(i + 1));
        } else {
            assert(was.take(i + 1) =~= was.take(i as int).push(was[i as int]));
            i = i + 1;
        }
        proof {
            seen = seen + 1;
        }
    }
    assert(manifest::asset_texts(assets@).take(i as int) =~= manifest::asset_texts(assets@));
    assert(texts.take(seen) =~= texts);
}

/// Keeps our category in step with our assets: it shows the first of them, and is dropped
/// where there is none.
pub fn repair_phonto_category(manifest: &mut Manifest)
    ensures
        final(manifest)@ == repaired(old(manifest)@),
{
    match first_phonto_asset(manifest) {
        Some((rep_id, preview)) => {
            let at = find_category(&manifest.categories, PHONTO_CATEGORY_ID);
            if at < manifest.categories.len() {
                show(&mut manifest.categories, at, rep_id.as_str(), preview.as_str());
            }
        },
        None => {
            drop_category(&mut manifest.categories, PHONTO_CATEGORY_ID);
        },
    }
}

/// Takes an asset out of the catalog.
pub fn remove_entry(manifest: &mut Manifest, asset_id: &str)
    ensures
        final(manifest)@ == removed(old(manifest)@, asset_id@),
{
    drop_asset(&mut manifest.assets, asset_id);
    repair_phonto_category(manifest);
}

/// Puts a video into the catalog as one of our assets, in place of an older one with the
/// same id.
pub fn upsert_entry(
    manifest: &mut Manifest,
    asset_id: &str,
    display_name: &str,
    video_path: &str,
    thumb_path: &str,
)
    requires
        vstd::utf8::is_char_boundary(vstd::utf8::encode_utf8(asset_id@), 8),
    ensures
        final(manifest)@ == upserted(
            old(manifest)@,
            asset_id@,
            display_name@,
            url_of(video_path@),
            url_of(thumb_path@),
        ),
{
    let video_url = file_url(video_path);
    let preview_url = file_url(thumb_path);
    upsert_phonto_category(manifest, asset_id, preview_url.as_str());
    let asset = phonto_asset(asset_id, display_name, video_url.as_str(), preview_url.as_str());
    let at = find_asset(&manifest.assets, asset_id);
    let ghost was = manifest.assets@;
    if at < manifest.assets.len() {
        manifest.assets.set(at, asset);
        assert(manifest::asset_texts(manifest.assets@) =~= manifest::asset_texts(was).update(
            at as int,
            asset@,
        ));
    } else {
        manifest.assets.insert(0, asset);
        assert(manifest::asset_texts(manifest.assets@) =~= manifest::asset_texts(was).insert(
            0,
            asset@,
        ));
    }
}

/// What stands in a URL for a byte of a path.
pub open spec fn url_part(byte: u8) -> Seq<char> {
    if byte == 32 {
        "%20"@
    } else {
        seq![byte as char]
    }
}

/// What stands in a URL for the bytes of a path.
pub open spec fn url_parts(bytes: Seq<u8>) -> Seq<char>
    decreases bytes.len(),
{
    if bytes.len() == 0 {
        Seq::empty()
    } else {
        url_parts(bytes.drop_last()) + url_part(bytes.last())
    }
}

/// The file URL of a path: byte by byte, with spaces as `%20`.
pub open spec fn url_of(path: Seq<char>) -> Seq<char> {
    "file://"@ + url_parts(vstd::utf8::encode_utf8(path))
}

/// The file URL of a path, with spaces percent-encoded: the wallpaper system rejects raw
/// spaces. Other special characters don't appear in our target paths.
pub fn file_url(path: &str) -> (r: String)
    ensures
        r@ == url_of(path@),
{
    let bytes = path.as_bytes_vec();
    let mut r = "file://".to_owned();
    let mut i: usize = 0;
    assert(bytes@.take(0) =~= Seq::empty());
    assert(r@ =~= "file://"@ + url_parts(bytes@.take(0)));
    while i < bytes.len()
        invariant
            i <= bytes@.len(),
            r@ == "file://"@ + url_parts(bytes@.take(i as int)),
        decreases bytes@.len() - i,
    {
        assert(bytes@.take(i + 1).drop_last() =~= bytes@.take(i as int));
        if bytes[i] == 32 {
            r.append("%20");
        } else {
            r.push(bytes[i] as char);
        }
        assert(r@ =~= "file://"@ + url_parts(bytes@.take(i + 1)));
        i = i + 1;
    }
    assert(bytes@.take(i as int) =~= bytes@);
    r
}

/// The namespace of the ids of our assets. The value is arbitrary; it is fixed so that a
/// video keeps its id.
pub const NAMESPACE: [u8; 16] = [
    0x70,
    0x68,
    0x6f,
    0x6e,
    0x74,
    0x6f,
    0x77,
    0x70,
    0x70,
    0x72,
    0x6f,
    0x6a,
    0x65,
    0x63,
    0x74,
    0x21,
];

/// The version 5 UUID of a name in a namespace, in hyphenated form.
pub uninterp spec fn uuid_v5_text(namespace: Seq<u8>, name: Seq<u8>) -> Seq<char>;

/// A UUID in hyphenated form: 32 lower-case hexadecimal digits and four hyphens.
pub open spec fn is_hyphenated(s: Seq<char>) -> bool {
    &&& s.len() == 36
    &&& forall|i: int|
        0 <= i < 36 ==> if i == 8 || i == 13 || i == 18 || i == 23 {
            #[trigger] s[i] == '-'
        } else {
            48 <= s[i] as int <= 57 || 97 <= s[i] as int <= 102
        }
}

/// `uuid::Uuid::new_v5`, written out by `hyphenated`: the UUID is that of the name in the
/// namespace, and its text has the shape of one.
#[verifier::external_body]
fn uuid_v5(namespace: [u8; 16], name: &[u8]) -> (r: String)
    ensures
        r@ == uuid_v5_text(namespace@, name@),
        is_hyphenated(r@),
{
    uuid::Uuid::new_v5(&uuid::Uuid::from_bytes(namespace), name).hyphenated().to_string()
}

/// An ASCII text can be cut anywhere.
proof fn ascii_boundary(s: Seq<char>, n: int)
    requires
        vstd::utf8::is_ascii_chars(s),
        0 <= n <= s.len(),
    ensures
        vstd::utf8::is_char_boundary(vstd::utf8::encode_utf8(s), n),
    decreases n,
{
    broadcast use vstd::utf8::encode_utf8_valid_utf8;

    if n > 0 {
        let bytes = vstd::utf8::encode_utf8(s);
        vstd::utf8::encode_utf8_first_scalar(s);
        vstd::utf8::is_ascii_chars_encode_utf8(s);
        let rest = s.drop_first();
        assert(vstd::utf8::pop_first_scalar(bytes) =~= vstd::utf8::encode_utf8(rest));
        assert forall|i| 0 <= i < rest.len() implies '\0' <= #[trigger] rest[i] <= '\u{7f}' by {
            assert(rest[i] == s[i + 1]);
        }
        ascii_boundary(rest, n - 1);
    }
}

/// The id of the asset for a video: that of its path in our namespace, in upper case.
pub open spec fn asset_id_of(video: Seq<char>) -> Seq<char> {
    text::ascii_uppercase(uuid_v5_text(NAMESPACE@, vstd::utf8::encode_utf8(video)))
}

/// The id of the asset for a video, given by its absolute path.
pub fn asset_id(video: &str) -> (r: String)
    ensures
        r@ == asset_id_of(video@),
        r@.len() == 36,
        vstd::utf8::is_char_boundary(vstd::utf8::encode_utf8(r@), 8),
{
    let lower = uuid_v5(NAMESPACE, video.as_bytes());
    assert(vstd::utf8::is_ascii_chars(lower@)) by {
        assert forall|i| 0 <= i < lower@.len() implies '\0' <= #[trigger] lower@[i] <= '\u{7f}' by {
            assert(lower@[i] as int <= 102);
        }
    }
    let r = lower.as_str().to_uppercase();
    proof {
        assert forall|i| 0 <= i < r@.len() implies '\0' <= #[trigger] r@[i] <= '\u{7f}' by {
            assert('\0' <= lower@[i] <= '\u{7f}');
        }
        ascii_boundary(r@, 8);
    }
    r
}

/// The name that the picker shows: the one that was asked for, else that of the file without
/// its extension.
pub open spec fn display_name_of(name: Option<Seq<char>>, video: Seq<char>) -> Seq<char> {
    match name {
        Some(name) => name,
        None => match paths::file_name_of(video, '/', '.') {
            Some(file) => paths::stem_of_name(file, '.'),
            None => "Phonto Custom"@,
        },
    }
}

/// The name that the picker shows.
pub fn display_name(name: Option<String>, video: &str) -> (r: String)
    ensures
        r@ == display_name_of(config::text_view(name), video@),
{
    match name {
        Some(name) => name,
        None => match paths::file_stem(video) {
            Some(stem) => stem,
            None => "Phonto Custom".to_owned(),
        },
    }
}

/// Why there is no video to install or to remove.
#[derive(Debug)]
pub enum VideoError {
    /// The path to remove cannot be made absolute.
    Unresolved { video: String },
    NotFound { video: String },
}

impl VideoError {
    /// The message that tells the user what is wrong.
    pub open spec fn text(self) -> Seq<char> {
        match self {
            VideoError::Unresolved { video } => "could not resolve path: "@ + video@,
            VideoError::NotFound { video } => "video not found: "@ + video@,
        }
    }

    /// The message that tells the user what is wrong.
    pub fn message(&self) -> (r: String)
        ensures
            r@ == self.text(),
    {
        match self {
            VideoError::Unresolved { video } => text::join2(
                "could not resolve path: ",
                video.as_str(),
            ),
            VideoError::NotFound { video } => text::join2("video not found: ", video.as_str()),
        }
    }
}

/// The path that names the asset of a video. An install needs the file; a removal makes do
/// with an absolute path, so that it works when the file is gone.
pub fn resolve_video(
    video: &str,
    remove: bool,
    canonical: Option<String>,
    absolute: Option<String>,
) -> (r: Result<String, VideoError>)
    ensures
        canonical matches Some(path) ==> r matches Ok(p) && p@ == path@,
        canonical is None && remove ==> match absolute {
            Some(path) => r matches Ok(p) && p@ == path@,
            None => r matches Err(VideoError::Unresolved { video: v }) && v@ == video@,
        },
        canonical is None && !remove ==> (r matches Err(VideoError::NotFound { video: v }) && v@
            == video@),
{
    match canonical {
        Some(path) => Ok(path),
        None => if remove {
            match absolute {
                Some(path) => Ok(path),
                None => Err(VideoError::Unresolved { video: video.to_owned() }),
            }
        } else {
            Err(VideoError::NotFound { video: video.to_owned() })
        },
    }
}

/// Where the files of an asset go.
#[derive(Debug)]
pub struct Targets {
    pub videos_dir: String,
    pub thumbnails_dir: String,
    /// The catalog.
    pub manifest: String,
    /// The catalog as it was before the first change.
    pub backup: String,
    pub video: String,
    pub thumb: String,
}

/// The directory of the aerial wallpapers.
pub open spec fn aerials_of(home: Seq<char>) -> Seq<char> {
    paths::joined(home, "Library/Application Support/com.apple.wallpaper/aerials"@)
}

/// Where the video of an asset goes.
pub open spec fn video_target(home: Seq<char>, asset_id: Seq<char>) -> Seq<char> {
    paths::joined(paths::joined(aerials_of(home), "videos"@), asset_id + ".mov"@)
}

/// Where the thumbnail of an asset goes.
pub open spec fn thumb_target(home: Seq<char>, asset_id: Seq<char>) -> Seq<char> {
    paths::joined(paths::joined(aerials_of(home), "thumbnails"@), asset_id + ".png"@)
}

/// Where the files of an asset go.
pub fn targets(home: &str, asset_id: &str) -> (r: Targets)
    ensures
        r.videos_dir@ == paths::joined(aerials_of(home@), "videos"@),
        r.thumbnails_dir@ == paths::joined(aerials_of(home@), "thumbnails"@),
        r.manifest@ == paths::joined(aerials_of(home@), "manifest/entries.json"@),
        r.backup@ == paths::joined(aerials_of(home@), "manifest/entries.json.phonto-backup"@),
        r.video@ == video_target(home@, asset_id@),
        r.thumb@ == thumb_target(home@, asset_id@),
{
    let aerials = paths::join(home, "Library/Application Support/com.apple.wallpaper/aerials");
    let videos_dir = paths::join(aerials.as_str(), "videos");
    let thumbnails_dir = paths::join(aerials.as_str(), "thumbnails");
    let manifest = paths::join(aerials.as_str(), "manifest/entries.json");
    let backup = paths::join(aerials.as_str(), "manifest/entries.json.phonto-backup");
    let video = paths::join(videos_dir.as_str(), text::join2(asset_id, ".mov").as_str());
    let thumb = paths::join(thumbnails_dir.as_str(), text::join2(asset_id, ".png").as_str());
    Targets { videos_dir, thumbnails_dir, manifest, backup, video, thumb }
}

/// What is wrong where the catalog is missing.
pub fn missing_manifest(path: &str) -> (r: String)
    ensures
        r@ == "manifest not found at "@ + path@
            + " — WallpaperAgent has never initialised it on this Mac"@,
{
    text::join3(
        "manifest not found at ",
        path,
        " — WallpaperAgent has never initialised it on this Mac",
    )
}

/// What is said after an asset has been removed.
pub fn removed_line(asset_id: &str) -> (r: String)
    ensures
        r@ == "removed "@ + asset_id@,
{
    text::join2("removed ", asset_id)
}

/// What is said after an asset has been installed.
pub fn installed_line(display_name: &str, asset_id: &str) -> (r: String)
    ensures
        r@ == "Installed '"@ + display_name@ + "' (id "@ + asset_id@ + ")."@,
{
    let mut r = text::join3("Installed '", display_name, "' (id ");
    r.append(asset_id);
    r.append(").");
    r
}

/// The catalog after the video at this absolute path has been installed, under the name that
/// was asked for, if any.
pub open spec fn installed(
    m: ManifestText,
    home: Seq<char>,
    video: Seq<char>,
    name: Option<Seq<char>>,
) -> ManifestText {
    let id = asset_id_of(video);
    upserted(
        m,
        id,
        display_name_of(name, video),
        url_of(video_target(home, id)),
        url_of(thumb_target(home, id)),
    )
}

/// What a run makes of the catalog: it installs the video at this absolute path, or removes it.
pub open spec fn ran(
    m: ManifestText,
    home: Seq<char>,
    video: Seq<char>,
    name: Option<Seq<char>>,
    remove: bool,
) -> ManifestText {
    if remove {
        removed(m, asset_id_of(video))
    } else {
        installed(m, home, video, name)
    }
}

/// Installs the video at this absolute path in the catalog, or removes it, and says so. After
/// an install the picker accepts our category.
pub fn run(
    manifest: &mut Manifest,
    home: &str,
    video: &str,
    name: Option<String>,
    remove: bool,
) -> (r: String)
    ensures
        final(manifest)@ == ran(old(manifest)@, home@, video@, config::text_view(name), remove),
        !remove ==> {
            let categories = final(manifest)@.categories;
            let p = category_position(categories, PHONTO_CATEGORY_ID@);
            p < categories.len() && is_complete(categories[p])
        },
        r@ == (if remove {
            "removed "@ + asset_id_of(video@)
        } else {
            "Installed '"@ + display_name_of(config::text_view(name), video@) + "' (id "@
                + asset_id_of(video@) + ")."@
        }),
{
    let asset_id = asset_id(video);
    if remove {
        remove_entry(manifest, asset_id.as_str());
        return removed_line(asset_id.as_str());
    }
    let targets = targets(home, asset_id.as_str());
    let display_name = display_name(name, video);
    let ghost before = manifest@;
    upsert_entry(
        manifest,
        asset_id.as_str(),
        display_name.as_str(),
        targets.video.as_str(),
        targets.thumb.as_str(),
    );
    proof {
        reveal_strlit("file://");
        install_law(
            before,
            asset_id@,
            display_name@,
            url_of(targets.video@),
            url_of(targets.thumb@),
        );
    }
    installed_line(display_name.as_str(), asset_id.as_str())
}

/// How `qlmanage` is called for the thumbnail of a video.
pub fn thumbnail_args(out_dir: &str, video: &str) -> (r: Vec<String>)
    ensures
        text::views(r@) == seq!["-t"@, "-s"@, "640"@, "-o"@, out_dir@, video@],
{
    let mut r: Vec<String> = Vec::new();
    r.push("-t".to_owned());
    r.push("-s".to_owned());
    r.push("640".to_owned());
    r.push("-o".to_owned());
    r.push(out_dir.to_owned());
    r.push(video.to_owned());
    assert(text::views(r@) =~= seq!["-t"@, "-s"@, "640"@, "-o"@, out_dir@, video@]);
    r
}

/// Where `qlmanage` leaves the thumbnail of a video. The video is a file, so its path has a
/// file name.
pub fn generated_thumbnail(out_dir: &str, video: &str) -> (r: String)
    requires
        paths::file_name_of(video@, '/', '.') is Some,
    ensures
        r@ == paths::joined(out_dir@, paths::file_name_of(video@, '/', '.')->0 + ".png"@),
{
    match paths::file_name(video) {
        Some(name) => paths::join(out_dir, text::join2(name.as_str(), ".png").as_str()),
        None => String::new(),
    }
}

/// The lines, each behind the tag.
pub open spec fn tagged(tag: Seq<char>, lines: Seq<Seq<char>>) -> Seq<Seq<char>> {
    lines.map_values(|line: Seq<char>| tag + ": "@ + line)
}

/// Adds the lines of some output, each behind the tag.
fn add_tagged(tag: &str, output: &[u8], r: &mut Vec<String>)
    ensures
        text::views(final(r)@) == text::views(old(r)@) + tagged(
            tag@,
            text::lines_of(text::lossy_text(output@)),
        ),
{
    let lossy = text::read_lossy(output);
    let lines = text::lines(lossy.as_str());
    let ghost want = tagged(tag@, text::lines_of(lossy@));
    let ghost before = text::views(r@);
    let mut i: usize = 0;
    assert(text::views(r@) =~= before + want.take(0));
    while i < lines.len()
        invariant
            i <= lines@.len(),
            want == tagged(tag@, text::views(lines@)),
            text::views(r@) == before + want.take(i as int),
        decreases lines@.len() - i,
    {
        let ghost was = r@;
        r.push(text::join3(tag, ": ", lines[i].as_str()));
        assert(text::views(r@) =~= text::views(was).push(want[i as int]));
        assert(want.take(i + 1) =~= want.take(i as int).push(want[i as int]));
        i = i + 1;
    }
    assert(want.take(i as int) =~= want);
}

/// What the log says of the output of another program: the lines of both streams, each behind
/// the tag.
pub fn log_subprocess_output(tag: &str, stdout: &[u8], stderr: &[u8]) -> (r: Vec<String>)
    ensures
        text::views(r@) == tagged(tag@, text::lines_of(text::lossy_text(stdout@))) + tagged(
            tag@,
            text::lines_of(text::lossy_text(stderr@)),
        ),
{
    let mut r: Vec<String> = Vec::new();
    assert(text::views(r@) =~= Seq::empty());
    add_tagged(tag, stdout, &mut r);
    assert(text::views(r@) =~= tagged(tag@, text::lines_of(text::lossy_text(stdout@))));
    add_tagged(tag, stderr, &mut r);
    r
}

/// What the position of a category says.
proof fn category_position_facts(categories: Seq<CategoryText>, id: Seq<char>)
    ensures
        0 <= category_position(categories, id) <= categories.len(),
        category_position(categories, id) < categories.len() ==> categories[category_position(
            categories,
            id,
        )].id == id,
        forall|k: int|
            0 <= k < category_position(categories, id) ==> (#[trigger] categories[k]).id != id,
    decreases categories.len(),
{
    if categories.len() > 0 && categories[0].id != id {
        let rest = categories.skip(1);
        category_position_facts(rest, id);
        assert forall|k: int| 0 <= k < category_position(categories, id) implies (
        #[trigger] categories[k]).id != id by {
            if k > 0 {
                assert(rest[k - 1] == categories[k]);
            }
        }
    }
}

/// A category with this id, before which there is none, stands at the position.
proof fn category_position_is(categories: Seq<CategoryText>, id: Seq<char>, p: int)
    requires
        0 <= p <= categories.len(),
        p < categories.len() ==> categories[p].id == id,
        forall|k: int| 0 <= k < p ==> (#[trigger] categories[k]).id != id,
    ensures
        category_position(categories, id) == p,
{
    category_position_facts(categories, id);
}

/// What the position of an asset says.
proof fn asset_position_facts(assets: Seq<AssetText>, id: Seq<char>)
    ensures
        0 <= asset_position(assets, id) <= assets.len(),
        asset_position(assets, id) < assets.len() ==> assets[asset_position(assets, id)].id == id,
        forall|k: int| 0 <= k < asset_position(assets, id) ==> (#[trigger] assets[k]).id != id,
    decreases assets.len(),
{
    if assets.len() > 0 && assets[0].id != id {
        let rest = assets.skip(1);
        asset_position_facts(rest, id);
        assert forall|k: int| 0 <= k < asset_position(assets, id) implies (
        #[trigger] assets[k]).id != id by {
            if k > 0 {
                assert(rest[k - 1] == assets[k]);
            }
        }
    }
}

/// What the position of the first of our assets says.
proof fn our_position_facts(assets: Seq<AssetText>)
    ensures
        0 <= our_position(assets) <= assets.len(),
        our_position(assets) < assets.len() ==> is_ours(assets[our_position(assets)]),
        forall|k: int| 0 <= k < our_position(assets) ==> !is_ours(#[trigger] assets[k]),
    decreases assets.len(),
{
    if assets.len() > 0 && !is_ours(assets[0]) {
        let rest = assets.skip(1);
        our_position_facts(rest);
        assert forall|k: int| 0 <= k < our_position(assets) implies !is_ours(
            #[trigger] assets[k],
        ) by {
            if k > 0 {
                assert(rest[k - 1] == assets[k]);
            }
        }
    }
}

/// What is left without an asset: the others, in order.
proof fn without_asset_facts(assets: Seq<AssetText>, id: Seq<char>)
    ensures
        forall|a: AssetText| #[trigger]
            without_asset(assets, id).contains(a) <==> assets.contains(a) && a.id != id,
    decreases assets.len(),
{
    if assets.len() > 0 {
        let front = assets.drop_last();
        without_asset_facts(front, id);
        seqs::contains_drop_last(assets);
        seqs::contains_push(without_asset(front, id), assets.last());
        assert forall|a: AssetText| #[trigger]
            without_asset(assets, id).contains(a) <==> assets.contains(a) && a.id != id by {
            assert(without_asset(front, id).contains(a) <==> front.contains(a) && a.id != id);
        }
    }
}

/// An asset with the id before all others is lost, and only that.
proof fn without_asset_first(assets: Seq<AssetText>, asset: AssetText)
    requires
        forall|k: int| 0 <= k < assets.len() ==> (#[trigger] assets[k]).id != asset.id,
    ensures
        without_asset(assets.insert(0, asset), asset.id) == assets,
    decreases assets.len(),
{
    let all = assets.insert(0, asset);
    if assets.len() == 0 {
        assert(all.drop_last() =~= assets);
        assert(without_asset(all.drop_last(), asset.id) == assets);
    } else {
        let front = assets.drop_last();
        assert forall|k: int| 0 <= k < front.len() implies (#[trigger] front[k]).id
            != asset.id by {
            assert(assets[k] == front[k]);
        }
        without_asset_first(front, asset);
        assert(all.drop_last() =~= front.insert(0, asset));
        assert(all.last() == assets[assets.len() - 1]);
        assert(front.push(assets.last()) =~= assets);
    }
}

/// What is left without a category: the others, in order.
proof fn without_category_facts(categories: Seq<CategoryText>, id: Seq<char>)
    ensures
        forall|c: CategoryText| #[trigger]
            without_category(categories, id).contains(c) <==> categories.contains(c) && c.id != id,
    decreases categories.len(),
{
    if categories.len() > 0 {
        let front = categories.drop_last();
        without_category_facts(front, id);
        seqs::contains_drop_last(categories);
        seqs::contains_push(without_category(front, id), categories.last());
        assert forall|c: CategoryText| #[trigger]
            without_category(categories, id).contains(c) <==> categories.contains(c) && c.id
                != id by {
            assert(without_category(front, id).contains(c) <==> front.contains(c) && c.id != id);
        }
    }
}

/// Where no category has the id, nothing is lost.
proof fn without_category_none(categories: Seq<CategoryText>, id: Seq<char>)
    requires
        forall|k: int| 0 <= k < categories.len() ==> (#[trigger] categories[k]).id != id,
    ensures
        without_category(categories, id) == categories,
    decreases categories.len(),
{
    if categories.len() > 0 {
        let front = categories.drop_last();
        assert forall|k: int| 0 <= k < front.len() implies (#[trigger] front[k]).id != id by {
            assert(categories[k] == front[k]);
        }
        without_category_none(front, id);
        assert(categories[categories.len() - 1].id != id);
        assert(front.push(categories.last()) =~= categories);
    }
}

/// A category that the picker accepts: it has a representative asset, a preview and a
/// subcategory.
pub open spec fn is_complete(c: CategoryText) -> bool {
    &&& c.representative_asset_id.len() > 0
    &&& c.preview_image.len() > 0
    &&& c.subcategories.len() > 0
}

/// After an install the catalog holds the asset, and our category is there, shows the asset
/// with its preview and has a subcategory: it is complete, as neither the id nor the URL is
/// empty. Nothing else has changed but an older asset of the
/// same id.
pub proof fn install_law(
    m: ManifestText,
    id: Seq<char>,
    name: Seq<char>,
    video_url: Seq<char>,
    preview_url: Seq<char>,
)
    ensures
        ({
            let n = upserted(m, id, name, video_url, preview_url);
            let p = category_position(n.categories, PHONTO_CATEGORY_ID@);
            &&& n.assets.contains(asset_for(id, name, video_url, preview_url))
            &&& forall|a: AssetText| #[trigger]
                m.assets.contains(a) && a.id != id ==> n.assets.contains(a)
            &&& p < n.categories.len()
            &&& n.categories[p].representative_asset_id == id
            &&& n.categories[p].preview_image == preview_url
            &&& n.categories[p].subcategories.len() > 0
            &&& id.len() > 0 && preview_url.len() > 0 ==> is_complete(n.categories[p])
            &&& forall|c: CategoryText| #[trigger]
                m.categories.contains(c) && c.id != PHONTO_CATEGORY_ID@ ==> n.categories.contains(c)
            &&& n.extra == m.extra
        }),
{
    let n = upserted(m, id, name, video_url, preview_url);
    let asset = asset_for(id, name, video_url, preview_url);
    asset_position_facts(m.assets, id);
    category_position_facts(m.categories, PHONTO_CATEGORY_ID@);
    let at = asset_position(m.assets, id);
    let p = category_position(m.categories, PHONTO_CATEGORY_ID@);
    if at < m.assets.len() {
        assert(n.assets[at] == asset);
        assert forall|a: AssetText| #[trigger] m.assets.contains(a) && a.id
            != id implies n.assets.contains(a) by {
            let k = choose|k: int| 0 <= k < m.assets.len() && m.assets[k] == a;
            assert(n.assets[k] == a);
        }
    } else {
        assert(n.assets[0] == asset);
        seqs::contains_insert(m.assets, 0, asset);
    }
    category_position_is(n.categories, PHONTO_CATEGORY_ID@, p);
    assert forall|c: CategoryText| #[trigger] m.categories.contains(c) && c.id
        != PHONTO_CATEGORY_ID@ implies n.categories.contains(c) by {
        let k = choose|k: int| 0 <= k < m.categories.len() && m.categories[k] == c;
        assert(n.categories[k] == c);
    }
}

/// To install a video again changes nothing.
pub proof fn reinstall_law(
    m: ManifestText,
    id: Seq<char>,
    name: Seq<char>,
    video_url: Seq<char>,
    preview_url: Seq<char>,
)
    ensures
        upserted(
            upserted(m, id, name, video_url, preview_url),
            id,
            name,
            video_url,
            preview_url,
        ) == upserted(m, id, name, video_url, preview_url),
{
    let n = upserted(m, id, name, video_url, preview_url);
    let asset = asset_for(id, name, video_url, preview_url);
    asset_position_facts(m.assets, id);
    asset_position_facts(n.assets, id);
    category_position_facts(m.categories, PHONTO_CATEGORY_ID@);
    let at = asset_position(m.assets, id);
    let p = category_position(m.categories, PHONTO_CATEGORY_ID@);
    category_position_is(n.categories, PHONTO_CATEGORY_ID@, p);
    if at < m.assets.len() {
        assert(n.assets[at] == asset);
        assert forall|k: int| 0 <= k < at implies (#[trigger] n.assets[k]).id != id by {
            assert(n.assets[k] == m.assets[k]);
        }
        assert(asset_position(n.assets, id) == at);
    } else {
        assert(n.assets[0] == asset);
        assert(asset_position(n.assets, id) == 0);
    }
    assert(with_asset(n.assets, asset) =~= n.assets);
    assert(showing(n.categories[p], id, preview_url) == n.categories[p]);
    assert(with_category(n.categories, id, preview_url) =~= n.categories);
}

/// A video that is installed again, maybe under another name, keeps its one asset: there are
/// as many assets as before, that one goes by the new name and has changed in nothing else, and
/// all others stay in their places. The categories stay too.
pub proof fn rename_law(
    m: ManifestText,
    home: Seq<char>,
    video: Seq<char>,
    name: Option<Seq<char>>,
    new_name: Option<Seq<char>>,
)
    ensures
        ({
            let once = ran(m, home, video, name, false);
            let again = ran(once, home, video, new_name, false);
            let shown = display_name_of(new_name, video);
            let at = asset_position(once.assets, asset_id_of(video));
            &&& 0 <= at < once.assets.len()
            &&& once.assets[at].id == asset_id_of(video)
            &&& again.assets.len() == once.assets.len()
            &&& again.assets[at] == AssetText {
                accessibility_label: Some(shown),
                localized_name_key: Some(shown),
                ..once.assets[at]
            }
            &&& forall|i: int|
                0 <= i < once.assets.len() && i != at ==> #[trigger] again.assets[i]
                    == once.assets[i]
            &&& again.categories == once.categories
            &&& again.extra == once.extra
        }),
{
    let id = asset_id_of(video);
    let video_url = url_of(video_target(home, id));
    let preview_url = url_of(thumb_target(home, id));
    let once = installed(m, home, video, name);
    let asset = asset_for(id, display_name_of(name, video), video_url, preview_url);
    reinstall_law(m, id, display_name_of(name, video), video_url, preview_url);
    asset_position_facts(m.assets, id);
    asset_position_facts(once.assets, id);
    let at = asset_position(m.assets, id);
    if at < m.assets.len() {
        assert(once.assets[at] == asset);
        assert forall|k: int| 0 <= k < at implies (#[trigger] once.assets[k]).id != id by {
            assert(once.assets[k] == m.assets[k]);
        }
        assert(asset_position(once.assets, id) == at);
    } else {
        assert(once.assets[0] == asset);
        assert(asset_position(once.assets, id) == 0);
    }
}

/// After a removal no asset has the id and all others are there. Where one of our assets is
/// left, our category shows one of them, if it is there, and is complete if that one has an id
/// and a preview; where none is left, the category is gone.
pub proof fn removal_law(m: ManifestText, id: Seq<char>)
    ensures
        ({
            let n = removed(m, id);
            let p = category_position(n.categories, PHONTO_CATEGORY_ID@);
            &&& forall|a: AssetText| #[trigger]
                n.assets.contains(a) <==> m.assets.contains(a) && a.id != id
            &&& (exists|a: AssetText| #[trigger] n.assets.contains(a) && is_ours(a)) ==> p
                < n.categories.len() ==> n.categories[p].subcategories.len() > 0 && exists|
                a: AssetText,
            | {
                    &&& #[trigger] n.assets.contains(a)
                    &&& is_ours(a)
                    &&& n.categories[p].representative_asset_id == a.id
                    &&& n.categories[p].preview_image == a.preview_image
                    &&& is_complete(n.categories[p]) <==> a.id.len() > 0 && a.preview_image.len()
                        > 0
                }
            &&& !(exists|a: AssetText| #[trigger] n.assets.contains(a) && is_ours(a)) ==> forall|
                c: CategoryText,
            | #[trigger] n.categories.contains(c) ==> c.id != PHONTO_CATEGORY_ID@
            &&& n.extra == m.extra
        }),
{
    let n = removed(m, id);
    let rest = without_asset(m.assets, id);
    without_asset_facts(m.assets, id);
    our_position_facts(rest);
    category_position_facts(m.categories, PHONTO_CATEGORY_ID@);
    let first = our_position(rest);
    let p = category_position(m.categories, PHONTO_CATEGORY_ID@);
    if first < rest.len() {
        let a = rest[first];
        assert(n.assets.contains(a) && is_ours(a));
        category_position_is(n.categories, PHONTO_CATEGORY_ID@, p);
    } else {
        without_category_facts(m.categories, PHONTO_CATEGORY_ID@);
        assert forall|a: AssetText| #[trigger] n.assets.contains(a) implies !is_ours(a) by {
            let k = choose|k: int| 0 <= k < rest.len() && rest[k] == a;
            assert(!is_ours(rest[k]));
        }
    }
}

/// A removal undoes an install: where the catalog held nothing of ours, it is as before.
pub proof fn undo_law(
    m: ManifestText,
    id: Seq<char>,
    name: Seq<char>,
    video_url: Seq<char>,
    preview_url: Seq<char>,
)
    requires
        forall|k: int| 0 <= k < m.assets.len() ==> (#[trigger] m.assets[k]).id != id && !is_ours(
            m.assets[k],
        ),
        forall|k: int|
            0 <= k < m.categories.len() ==> (#[trigger] m.categories[k]).id != PHONTO_CATEGORY_ID@,
    ensures
        removed(upserted(m, id, name, video_url, preview_url), id) == m,
{
    let n = upserted(m, id, name, video_url, preview_url);
    let asset = asset_for(id, name, video_url, preview_url);
    asset_position_facts(m.assets, id);
    category_position_facts(m.categories, PHONTO_CATEGORY_ID@);
    assert(n.assets == m.assets.insert(0, asset));
    without_asset_first(m.assets, asset);
    assert(without_asset(n.assets, id) == m.assets);
    our_position_facts(m.assets);
    assert(our_position(m.assets) == m.assets.len());
    let ours = category_for(id, preview_url);
    assert(n.categories == m.categories.push(ours));
    assert(n.categories.drop_last() =~= m.categories);
    assert(n.categories.last() == ours);
    without_category_none(m.categories, PHONTO_CATEGORY_ID@);
    assert(without_category(n.categories, PHONTO_CATEGORY_ID@) == m.categories);
}

/// No part of a URL holds a space.
proof fn url_parts_facts(bytes: Seq<u8>)
    ensures
        !url_parts(bytes).contains(' '),
    decreases bytes.len(),
{
    if bytes.len() > 0 {
        reveal_strlit("%20");
        url_parts_facts(bytes.drop_last());
        seqs::contains_add(url_parts(bytes.drop_last()), url_part(bytes.last()));
        let part = url_part(bytes.last());
        assert(forall|i: int| 0 <= i < part.len() ==> part[i] != ' ');
    }
}

/// A file URL holds no raw space, whatever the path.
pub proof fn url_law(path: Seq<char>)
    ensures
        !url_of(path).contains(' '),
{
    reveal_strlit("file://");
    url_parts_facts(vstd::utf8::encode_utf8(path));
    seqs::contains_add("file://"@, url_parts(vstd::utf8::encode_utf8(path)));
    assert(forall|i: int| 0 <= i < "file://"@.len() ==> "file://"@[i] != ' ');
}

/// The bytes of two texts in a row are the bytes of one and then those of the other.
proof fn bytes_of_two(a: Seq<char>, b: Seq<char>)
    ensures
        vstd::utf8::encode_utf8(a + b) == vstd::utf8::encode_utf8(a) + vstd::utf8::encode_utf8(b),
    decreases a.len(),
{
    if a.len() == 0 {
        assert(a + b =~= b);
    } else {
        assert((a + b).drop_first() =~= a.drop_first() + b);
        bytes_of_two(a.drop_first(), b);
    }
}

/// What stands for two runs of bytes is what stands for one and then for the other.
proof fn parts_of_two(a: Seq<u8>, b: Seq<u8>)
    ensures
        url_parts(a + b) == url_parts(a) + url_parts(b),
    decreases b.len(),
{
    if b.len() == 0 {
        assert(a + b =~= a);
    } else {
        assert((a + b).drop_last() =~= a + b.drop_last());
        parts_of_two(a, b.drop_last());
    }
}

/// Bytes without a space stand for themselves.
proof fn parts_without_spaces(bytes: Seq<u8>)
    requires
        !bytes.contains(32u8),
    ensures
        url_parts(bytes) == bytes.map_values(|b: u8| b as char),
    decreases bytes.len(),
{
    if bytes.len() > 0 {
        let front = bytes.drop_last();
        assert(bytes.contains(bytes.last()));
        assert forall|b: u8| front.contains(b) implies bytes.contains(b) by {
            let i = choose|i: int| 0 <= i < front.len() && front[i] == b;
            assert(bytes[i] == b);
        }
        parts_without_spaces(front);
        assert(url_parts(bytes) =~= bytes.map_values(|b: u8| b as char));
    }
}

/// A URL is made piece by piece: behind `file://`, the URL of two pieces of a path is what
/// the first piece gives and then what the second gives. A space gives `%20`. A piece
/// without a space gives its bytes, one character for each.
pub proof fn url_pieces_law(a: Seq<char>, b: Seq<char>)
    ensures
        url_of(a).take(7) == "file://"@,
        url_of(a + b) == url_of(a) + url_of(b).skip(7),
        url_of(Seq::empty()) == "file://"@,
        url_of(seq![' ']) == "file://%20"@,
        !vstd::utf8::encode_utf8(a).contains(32u8) ==> url_of(a).skip(7)
            == vstd::utf8::encode_utf8(a).map_values(|byte: u8| byte as char),
{
    reveal_strlit("file://");
    reveal_strlit("%20");
    reveal_strlit("file://%20");
    bytes_of_two(a, b);
    parts_of_two(vstd::utf8::encode_utf8(a), vstd::utf8::encode_utf8(b));
    assert(url_of(a).take(7) =~= "file://"@);
    assert(url_of(b).skip(7) =~= url_parts(vstd::utf8::encode_utf8(b)));
    assert(url_of(a + b) =~= url_of(a) + url_of(b).skip(7));
    assert(url_of(Seq::empty()) =~= "file://"@);
    let space = seq![' '];
    vstd::utf8::is_ascii_chars_encode_utf8(space);
    let bytes = vstd::utf8::encode_utf8(space);
    assert(bytes =~= seq![32u8]);
    assert(bytes.drop_last() =~= Seq::empty());
    assert(url_parts(bytes.drop_last()) =~= Seq::empty());
    assert(url_of(space) =~= "file://%20"@);
    if !vstd::utf8::encode_utf8(a).contains(32u8) {
        parts_without_spaces(vstd::utf8::encode_utf8(a));
        assert(url_of(a).skip(7) =~= url_parts(vstd::utf8::encode_utf8(a)));
    }
}

/// A text with every `%20` in it read as a space.
pub open spec fn spaces_read(s: Seq<char>) -> Seq<char>
    decreases s.len(),
{
    if s.len() == 0 {
        s
    } else if s.len() >= 3 && s[0] == '%' && s[1] == '2' && s[2] == '0' {
        seq![' '] + spaces_read(s.skip(3))
    } else {
        seq![s[0]] + spaces_read(s.skip(1))
    }
}

/// What stands for an ASCII text without a percent sign reads back as that text.
proof fn parts_read_back(path: Seq<char>)
    requires
        vstd::utf8::is_ascii_chars(path),
        !path.contains('%'),
    ensures
        spaces_read(url_parts(vstd::utf8::encode_utf8(path))) == path,
    decreases path.len(),
{
    reveal_strlit("%20");
    if path.len() > 0 {
        let c = path[0];
        let head = seq![c];
        let rest = path.drop_first();
        assert(path =~= head + rest);
        assert(path.contains(c));
        assert forall|i: int| 0 <= i < rest.len() implies '\0' <= #[trigger] rest[i]
            <= '\u{7f}' by {
            assert(rest[i] == path[i + 1]);
        }
        assert(!rest.contains('%')) by {
            if rest.contains('%') {
                let i = choose|i: int| 0 <= i < rest.len() && rest[i] == '%';
                assert(path[i + 1] == '%');
            }
        }
        parts_read_back(rest);
        bytes_of_two(head, rest);
        let first = vstd::utf8::encode_utf8(head);
        let behind = url_parts(vstd::utf8::encode_utf8(rest));
        parts_of_two(first, vstd::utf8::encode_utf8(rest));
        vstd::utf8::is_ascii_chars_encode_utf8(head);
        assert(first.len() == 1);
        assert(first.drop_last() =~= Seq::empty());
        assert(url_parts(first.drop_last()) =~= Seq::empty());
        assert(url_parts(first) =~= url_part(first[0]));
        let all = url_parts(first) + behind;
        assert(url_parts(vstd::utf8::encode_utf8(path)) == all);
        if c == ' ' {
            assert(first[0] == 32);
            assert(all.skip(3) =~= behind);
        } else {
            assert(first[0] as char == c);
            assert(first[0] != 32);
            assert(all[0] == c);
            assert(all.skip(1) =~= behind);
        }
        assert(spaces_read(all) =~= path);
    } else {
        assert(spaces_read(url_parts(vstd::utf8::encode_utf8(path))) =~= path);
    }
}

/// A URL can be read back: behind `file://`, with every `%20` read as a space, stands the
/// path, for every ASCII path without a percent sign. So two such paths never share a URL.
pub proof fn url_read_back_law(path: Seq<char>)
    requires
        vstd::utf8::is_ascii_chars(path),
        !path.contains('%'),
    ensures
        url_of(path).take(7) == "file://"@,
        spaces_read(url_of(path).skip(7)) == path,
{
    reveal_strlit("file://");
    parts_read_back(path);
    assert(url_of(path).take(7) =~= "file://"@);
    assert(url_of(path).skip(7) =~= url_parts(vstd::utf8::encode_utf8(path)));
}

/// One of our assets, field by field: it stands in our category and our subcategory, goes by
/// the name in both fields that the picker shows, leads to the video and to the preview, each
/// by its own URL, stays out of the shuffle and is shown at the top.
pub proof fn asset_law(
    id: Seq<char>,
    name: Seq<char>,
    video_url: Seq<char>,
    preview_url: Seq<char>,
)
    ensures
        ({
            let a = asset_for(id, name, video_url, preview_url);
            &&& a.id == id
            &&& a.categories == seq!["8C75F1C2-7E7E-4B5C-9C5C-50484F4E544F"@]
            &&& a.subcategories == seq!["8C75F1C2-7E7E-4B5C-9C5C-535542434154"@]
            &&& a.preview_image == preview_url
            &&& a.url_4k_sdr_240fps == Some(video_url)
            &&& a.accessibility_label == Some(name)
            &&& a.localized_name_key == Some(name)
            &&& a.include_in_shuffle == Some(false)
            &&& a.points_of_interest == Some(Seq::<(Seq<char>, JsonText)>::empty())
            &&& a.preferred_order == Some(0i64)
            &&& a.show_in_top_level == Some(true)
            &&& a.extra.len() == 0
            &&& vstd::utf8::is_ascii_chars(id) && id.len() >= 8 ==> a.shot_id == Some(
                "PHONTO_"@ + id.take(8),
            )
        }),
{
    let a = asset_for(id, name, video_url, preview_url);
    assert(a.categories =~= seq!["8C75F1C2-7E7E-4B5C-9C5C-50484F4E544F"@]);
    assert(a.subcategories =~= seq!["8C75F1C2-7E7E-4B5C-9C5C-535542434154"@]);
    if vstd::utf8::is_ascii_chars(id) && id.len() >= 8 {
        first_bytes_law(id, 8);
    }
}

/// The first bytes of an ASCII text are its first characters.
pub proof fn first_bytes_law(s: Seq<char>, n: int)
    requires
        vstd::utf8::is_ascii_chars(s),
        0 <= n <= s.len(),
    ensures
        first_bytes(s, n) == s.take(n),
{
    let head = s.take(n);
    assert forall|i: int| 0 <= i < head.len() implies '\0' <= #[trigger] head[i]
        <= '\u{7f}' by {
        assert(head[i] == s[i]);
    }
    bytes_of_two(head, s.skip(n));
    assert(s =~= head + s.skip(n));
    vstd::utf8::is_ascii_chars_encode_utf8(head);
    let bytes = vstd::utf8::encode_utf8(s).subrange(0, n);
    assert(bytes =~= vstd::utf8::encode_utf8(head));
    vstd::utf8::encode_utf8_decode_utf8(head);
}

/// Where an asset goes: into the place of the first with its id, and before all others where
/// there is none. The others stay as they are and in order.
pub proof fn asset_place_law(assets: Seq<AssetText>, asset: AssetText, i: int, k: int)
    requires
        0 <= i <= assets.len(),
        i < assets.len() ==> assets[i].id == asset.id,
        forall|j: int| 0 <= j < i ==> (#[trigger] assets[j]).id != asset.id,
    ensures
        ({
            let all = with_asset(assets, asset);
            &&& i < assets.len() ==> {
                &&& all.len() == assets.len()
                &&& all[i] == asset
                &&& 0 <= k < assets.len() && k != i ==> all[k] == assets[k]
            }
            &&& i == assets.len() ==> {
                &&& all.len() == assets.len() + 1
                &&& all[0] == asset
                &&& 0 <= k < assets.len() ==> all[k + 1] == assets[k]
            }
        }),
{
    asset_position_facts(assets, asset.id);
    assert(asset_position(assets, asset.id) == i);
}

/// Our category after an install. Where it was there it keeps its place, its labels and its
/// order, and shows the asset; where it was not it comes behind all others, under our label
/// and before them in the picker's order. Either way it has the one subcategory, which shows
/// the same asset. The others stay as they are.
pub proof fn category_law(
    categories: Seq<CategoryText>,
    rep: Seq<char>,
    preview: Seq<char>,
    i: int,
    k: int,
)
    requires
        0 <= i <= categories.len(),
        i < categories.len() ==> categories[i].id == "8C75F1C2-7E7E-4B5C-9C5C-50484F4E544F"@,
        forall|j: int|
            0 <= j < i ==> (#[trigger] categories[j]).id != "8C75F1C2-7E7E-4B5C-9C5C-50484F4E544F"@,
    ensures
        ({
            let all = with_category(categories, rep, preview);
            let c = all[i];
            &&& i < categories.len() ==> {
                &&& all.len() == categories.len()
                &&& c.localized_description_key == categories[i].localized_description_key
                &&& c.localized_name_key == categories[i].localized_name_key
                &&& c.preferred_order == categories[i].preferred_order
                &&& c.extra == categories[i].extra
            }
            &&& i == categories.len() ==> {
                &&& all.len() == categories.len() + 1
                &&& c.localized_description_key == Some("Phonto"@)
                &&& c.localized_name_key == Some("Phonto"@)
                &&& c.preferred_order == Some(-1i64)
                &&& c.extra.len() == 0
            }
            &&& 0 <= k < categories.len() && k != i ==> all[k] == categories[k]
            &&& c.id == "8C75F1C2-7E7E-4B5C-9C5C-50484F4E544F"@
            &&& c.representative_asset_id == rep
            &&& c.preview_image == preview
            &&& c.subcategories.len() == 1
            &&& c.subcategories[0].id == "8C75F1C2-7E7E-4B5C-9C5C-535542434154"@
            &&& c.subcategories[0].representative_asset_id == rep
            &&& c.subcategories[0].preview_image == preview
            &&& c.subcategories[0].localized_description_key == Some("Phonto"@)
            &&& c.subcategories[0].localized_name_key == Some("Phonto"@)
            &&& c.subcategories[0].preferred_order == Some(0i64)
            &&& c.subcategories[0].extra.len() == 0
        }),
{
    category_position_is(categories, PHONTO_CATEGORY_ID@, i);
}

/// What is left after a removal stands in the order in which it stood, and all of it is left.
pub proof fn removal_order_law(
    assets: Seq<AssetText>,
    categories: Seq<CategoryText>,
    id: Seq<char>,
)
    ensures
        without_asset(assets, id) == assets.filter(|a: AssetText| a.id != id),
        without_category(categories, id) == categories.filter(|c: CategoryText| c.id != id),
    decreases assets.len() + categories.len(),
{
    reveal(Seq::filter);
    if assets.len() > 0 {
        removal_order_law(assets.drop_last(), categories, id);
    } else if categories.len() > 0 {
        removal_order_law(assets, categories.drop_last(), id);
    }
}

/// Our category after a removal shows the first of our assets that are left, by its id and
/// its preview, in the one subcategory too; the rest of it and all other categories stay as
/// they are. Where none of our assets is left, all categories but ours stay, in order.
pub proof fn repair_law(m: ManifestText, first: int, i: int, k: int)
    requires
        0 <= first <= m.assets.len(),
        first < m.assets.len() ==> m.assets[first].categories.contains(
            "8C75F1C2-7E7E-4B5C-9C5C-50484F4E544F"@,
        ),
        forall|j: int|
            0 <= j < first ==> !(#[trigger] m.assets[j]).categories.contains(
                "8C75F1C2-7E7E-4B5C-9C5C-50484F4E544F"@,
            ),
        0 <= i <= m.categories.len(),
        i < m.categories.len() ==> m.categories[i].id == "8C75F1C2-7E7E-4B5C-9C5C-50484F4E544F"@,
        forall|j: int|
            0 <= j < i ==> (#[trigger] m.categories[j]).id
                != "8C75F1C2-7E7E-4B5C-9C5C-50484F4E544F"@,
    ensures
        repaired(m).assets == m.assets,
        repaired(m).extra == m.extra,
        first == m.assets.len() ==> repaired(m).categories == m.categories.filter(
            |c: CategoryText| c.id != "8C75F1C2-7E7E-4B5C-9C5C-50484F4E544F"@,
        ),
        first < m.assets.len() && i == m.categories.len() ==> repaired(m).categories
            == m.categories,
        first < m.assets.len() && i < m.categories.len() ==> {
            let c = repaired(m).categories[i];
            &&& repaired(m).categories.len() == m.categories.len()
            &&& 0 <= k < m.categories.len() && k != i ==> repaired(m).categories[k]
                == m.categories[k]
            &&& c.representative_asset_id == m.assets[first].id
            &&& c.preview_image == m.assets[first].preview_image
            &&& c.subcategories.len() == 1
            &&& c.subcategories[0].id == "8C75F1C2-7E7E-4B5C-9C5C-535542434154"@
            &&& c.subcategories[0].representative_asset_id == m.assets[first].id
            &&& c.subcategories[0].preview_image == m.assets[first].preview_image
            &&& c.id == m.categories[i].id
            &&& c.localized_description_key == m.categories[i].localized_description_key
            &&& c.localized_name_key == m.categories[i].localized_name_key
            &&& c.preferred_order == m.categories[i].preferred_order
            &&& c.extra == m.categories[i].extra
        },
{
    our_position_facts(m.assets);
    assert(our_position(m.assets) == first);
    category_position_is(m.categories, PHONTO_CATEGORY_ID@, i);
    removal_order_law(m.assets, m.categories, PHONTO_CATEGORY_ID@);
}

/// Where the files of an asset go: below the home directory, the video among the videos and
/// the thumbnail among the thumbnails, each by the id of the asset.
pub proof fn targets_law(home: Seq<char>, id: Seq<char>)
    requires
        home.len() > 0,
        home.last() != '/',
        id.len() > 0,
        id[0] != '/',
    ensures
        video_target(home, id) == home
            + "/Library/Application Support/com.apple.wallpaper/aerials/videos/"@ + id + ".mov"@,
        thumb_target(home, id) == home
            + "/Library/Application Support/com.apple.wallpaper/aerials/thumbnails/"@ + id
            + ".png"@,
{
    let aerials = aerials_of(home);
    let slash = seq!['/'];
    assert(aerials == home + slash + "Library/Application Support/com.apple.wallpaper/aerials"@
        && aerials.last() == 's') by {
        reveal_strlit("Library/Application Support/com.apple.wallpaper/aerials");
        paths::join_law(home, "Library/Application Support/com.apple.wallpaper/aerials"@);
    }
    let video = id + ".mov"@;
    let thumb = id + ".png"@;
    assert(video[0] == id[0] && thumb[0] == id[0]);
    assert(video_target(home, id) == home
        + "/Library/Application Support/com.apple.wallpaper/aerials/videos/"@ + id + ".mov"@) by {
        reveal_strlit("Library/Application Support/com.apple.wallpaper/aerials");
        reveal_strlit("videos");
        reveal_strlit("/Library/Application Support/com.apple.wallpaper/aerials/videos/");
        paths::join_law(aerials, "videos"@);
        let dir = paths::joined(aerials, "videos"@);
        assert(dir.last() == 's');
        paths::join_law(dir, video);
        let below = slash + "Library/Application Support/com.apple.wallpaper/aerials"@ + slash
            + "videos"@ + slash;
        assert(below =~= "/Library/Application Support/com.apple.wallpaper/aerials/videos/"@);
        assert(dir + slash + video =~= home + below + id + ".mov"@);
    }
    assert(thumb_target(home, id) == home
        + "/Library/Application Support/com.apple.wallpaper/aerials/thumbnails/"@ + id
        + ".png"@) by {
        reveal_strlit("Library/Application Support/com.apple.wallpaper/aerials");
        reveal_strlit("thumbnails");
        reveal_strlit("/Library/Application Support/com.apple.wallpaper/aerials/thumbnails/");
        paths::join_law(aerials, "thumbnails"@);
        let dir = paths::joined(aerials, "thumbnails"@);
        assert(dir.last() == 's');
        paths::join_law(dir, thumb);
        let below = slash + "Library/Application Support/com.apple.wallpaper/aerials"@ + slash
            + "thumbnails"@ + slash;
        assert(below =~= "/Library/Application Support/com.apple.wallpaper/aerials/thumbnails/"@);
        assert(dir + slash + thumb =~= home + below + id + ".png"@);
    }
}

/// The name that the picker shows: the one that was asked for, whatever the video; else the
/// file name up to its last dot, or all of it where it has no dot or none but at its beginning.
pub proof fn display_name_law(
    name: Seq<char>,
    dir: Seq<char>,
    stem: Seq<char>,
    extension: Seq<char>,
    video: Seq<char>,
)
    requires
        stem.len() > 0,
        extension.len() > 0,
        !stem.contains('/'),
        !extension.contains('/'),
        !extension.contains('.'),
    ensures
        display_name_of(Some(name), video) == name,
        display_name_of(None, dir.push('/') + (stem.push('.') + extension)) == stem,
        display_name_of(None, Seq::empty()) == "Phonto Custom"@,
        display_name_of(None, dir.push('/') + extension) == extension,
        display_name_of(None, dir.push('/') + (seq!['.'] + extension)) == seq!['.'] + extension,
{
    let file = stem.push('.') + extension;
    paths::extension_law(stem, extension, '.');
    assert(!file.contains('/')) by {
        if file.contains('/') {
            let i = choose|i: int| 0 <= i < file.len() && file[i] == '/';
            if i < stem.len() {
                assert(stem[i] == '/');
            } else if i > stem.len() {
                assert(extension[i - stem.len() - 1] == '/');
            }
        }
    }
    assert(file.last() == extension.last());
    assert(extension.contains(extension.last()));
    assert(file != seq!['.', '.']) by {
        if file == seq!['.', '.'] {
            assert(file.last() == '.');
        }
    }
    assert(file != seq!['.']);
    paths::file_name_law(dir, file, '/', '.');
    assert(extension != seq!['.', '.'] && extension != seq!['.']) by {
        if extension == seq!['.', '.'] || extension == seq!['.'] {
            assert(extension.last() == '.');
        }
    }
    paths::file_name_law(dir, extension, '/', '.');
    let hidden = seq!['.'] + extension;
    assert(hidden.last() == extension.last());
    assert(!hidden.contains('/')) by {
        if hidden.contains('/') {
            let i = choose|i: int| 0 <= i < hidden.len() && hidden[i] == '/';
            assert(extension[i - 1] == '/');
        }
    }
    assert(hidden != seq!['.', '.']) by {
        if hidden == seq!['.', '.'] {
            assert(hidden.last() == '.');
        }
    }
    assert(hidden.len() >= 2);
    paths::file_name_law(dir, hidden, '/', '.');
}

/// A run does one of two things. A removal looks at the id of the video alone; an install
/// puts in the asset of that id, which leads to the files that are stored under it.
pub proof fn run_law(m: ManifestText, home: Seq<char>, video: Seq<char>, name: Option<Seq<char>>)
    ensures
        ran(m, home, video, name, true) == removed(m, asset_id_of(video)),
        ({
            let n = ran(m, home, video, name, false);
            let id = asset_id_of(video);
            &&& n.extra == m.extra
            &&& exists|i: int|
                {
                    &&& 0 <= i < n.assets.len()
                    &&& (#[trigger] n.assets[i]).id == id
                    &&& n.assets[i].localized_name_key == Some(display_name_of(name, video))
                    &&& n.assets[i].url_4k_sdr_240fps == Some(url_of(video_target(home, id)))
                    &&& n.assets[i].preview_image == url_of(thumb_target(home, id))
                }
        }),
{
    let n = ran(m, home, video, name, false);
    let id = asset_id_of(video);
    let p = asset_position(m.assets, id);
    asset_position_facts(m.assets, id);
    let i = if p < m.assets.len() {
        p
    } else {
        0
    };
    assert(n.assets[i].id == id);
}

/// The id of a video depends on its path alone, and is the UUID in upper case: no letter of
/// it is a small one.
pub proof fn asset_id_law(video: Seq<char>, i: int)
    requires
        0 <= i < asset_id_of(video).len(),
    ensures
        ({
            let namespace = seq![
                0x70u8,
                0x68u8,
                0x6fu8,
                0x6eu8,
                0x74u8,
                0x6fu8,
                0x77u8,
                0x70u8,
                0x70u8,
                0x72u8,
                0x6fu8,
                0x6au8,
                0x65u8,
                0x63u8,
                0x74u8,
                0x21u8,
            ];
            let uuid = uuid_v5_text(namespace, vstd::utf8::encode_utf8(video));
            &&& asset_id_of(video).len() == uuid.len()
            &&& !('a' <= asset_id_of(video)[i] <= 'z')
            &&& !('a' <= uuid[i] <= 'z') ==> asset_id_of(video)[i] == uuid[i]
            &&& 'a' <= uuid[i] <= 'z' ==> asset_id_of(video)[i] as int == uuid[i] as int - 32
        }),
{
    assert(NAMESPACE@ =~= seq![
        0x70u8,
        0x68u8,
        0x6fu8,
        0x6eu8,
        0x74u8,
        0x6fu8,
        0x77u8,
        0x70u8,
        0x70u8,
        0x72u8,
        0x6fu8,
        0x6au8,
        0x65u8,
        0x63u8,
        0x74u8,
        0x21u8,
    ]);
    text::ascii_case_law(uuid_v5_text(NAMESPACE@, vstd::utf8::encode_utf8(video)), i);
}

/// Each line of the log is a line of the output behind the tag, a colon and a space, in order.
pub proof fn tagged_law(tag: Seq<char>, lines: Seq<Seq<char>>, i: int)
    requires
        0 <= i < lines.len(),
    ensures
        tagged(tag, lines).len() == lines.len(),
        tagged(tag, lines)[i] == tag + seq![':', ' '] + lines[i],
{
    reveal_strlit(": ");
    assert(": "@ =~= seq![':', ' ']);
}

/// The catalog and its backup stand side by side, and the backup goes by the name of the
/// catalog and what marks it; the files of an asset go into the directories that are made for
/// them.
pub proof fn target_files_law(home: &str, id: &str, r: Targets)
    requires
        call_ensures(targets, (home, id), r),
        home@.len() > 0,
        home@.last() != '/',
        id@.len() > 0,
        id@[0] != '/',
    ensures
        r.manifest@ == home@
            + "/Library/Application Support/com.apple.wallpaper/aerials/manifest/entries.json"@,
        r.backup@ == r.manifest@ + ".phonto-backup"@,
        r.video@ == r.videos_dir@ + "/"@ + id@ + ".mov"@,
        r.thumb@ == r.thumbnails_dir@ + "/"@ + id@ + ".png"@,
{
    let aerials = aerials_of(home@);
    let slash = seq!['/'];
    assert("/"@ =~= slash) by {
        reveal_strlit("/");
    }
    assert(aerials == home@ + slash
        + "Library/Application Support/com.apple.wallpaper/aerials"@ && aerials.last() == 's') by {
        reveal_strlit("Library/Application Support/com.apple.wallpaper/aerials");
        paths::join_law(home@, "Library/Application Support/com.apple.wallpaper/aerials"@);
    }
    assert(r.videos_dir@.last() == 's') by {
        reveal_strlit("videos");
    }
    assert(r.thumbnails_dir@.last() == 's') by {
        reveal_strlit("thumbnails");
    }
    let video = id@ + ".mov"@;
    let thumb = id@ + ".png"@;
    assert(video[0] == id@[0] && thumb[0] == id@[0]);
    paths::join_law(r.videos_dir@, video);
    paths::join_law(r.thumbnails_dir@, thumb);
    assert(r.videos_dir@ + slash + video =~= r.videos_dir@ + slash + id@ + ".mov"@);
    assert(r.thumbnails_dir@ + slash + thumb =~= r.thumbnails_dir@ + slash + id@ + ".png"@);
    assert(r.backup@ == r.manifest@ + ".phonto-backup"@) by {
        reveal_strlit("manifest/entries.json");
        reveal_strlit("manifest/entries.json.phonto-backup");
        reveal_strlit(".phonto-backup");
        assert("manifest/entries.json.phonto-backup"@ =~= "manifest/entries.json"@
            + ".phonto-backup"@);
        paths::join_law(aerials, "manifest/entries.json"@);
        paths::join_law(aerials, "manifest/entries.json.phonto-backup"@);
        assert(aerials + slash + ("manifest/entries.json"@ + ".phonto-backup"@) =~= aerials + slash
            + "manifest/entries.json"@ + ".phonto-backup"@);
    }
    assert(r.manifest@ == home@
        + "/Library/Application Support/com.apple.wallpaper/aerials/manifest/entries.json"@) by {
        reveal_strlit("Library/Application Support/com.apple.wallpaper/aerials");
        reveal_strlit("manifest/entries.json");
        reveal_strlit(
            "/Library/Application Support/com.apple.wallpaper/aerials/manifest/entries.json",
        );
        paths::join_law(aerials, "manifest/entries.json"@);
        let below = slash + "Library/Application Support/com.apple.wallpaper/aerials"@ + slash
            + "manifest/entries.json"@;
        assert(below
            =~= "/Library/Application Support/com.apple.wallpaper/aerials/manifest/entries.json"@);
        assert(r.manifest@ =~= home@ + below);
    }
}

/// The thumbnail that was made is found where it was asked to be: in the directory that was
/// named, under the file name of the video.
pub proof fn thumbnail_law(
    out_dir: &str,
    video: &str,
    dir: Seq<char>,
    name: Seq<char>,
    args: Vec<String>,
    made: String,
)
    requires
        call_ensures(thumbnail_args, (out_dir, video), args),
        call_ensures(generated_thumbnail, (out_dir, video), made),
        paths::is_part(name, '/', '.'),
        name != seq!['.', '.'],
        video@ == dir.push('/') + name,
        out_dir@.len() > 0,
        out_dir@.last() != '/',
    ensures
        made@ == out_dir@ + "/"@ + name + ".png"@,
        ({
            let texts = text::views(args@);
            &&& texts.last() == video@
            &&& exists|i: int|
                0 <= i < texts.len() - 2 && #[trigger] texts[i] == "-o"@ && texts[i + 1] == out_dir@
            &&& exists|i: int|
                0 <= i < texts.len() - 2 && #[trigger] texts[i] == "-s"@ && texts[i + 1] == "640"@
        }),
{
    reveal_strlit("/");
    reveal_strlit(".png");
    paths::file_name_law(dir, name, '/', '.');
    assert(name.contains(name[0]));
    assert(made@ =~= out_dir@ + "/"@ + name + ".png"@);
    let texts = text::views(args@);
    assert(texts[3] == "-o"@ && texts[4] == out_dir@);
    assert(texts[1] == "-s"@ && texts[2] == "640"@);
}

/// The path that names a video: its canonical form wherever there is one. An install without
/// one fails, and a removal makes do with the absolute form.
pub proof fn video_path_law(
    video: &str,
    remove: bool,
    canonical: Option<String>,
    absolute: Option<String>,
    r: Result<String, VideoError>,
)
    requires
        call_ensures(resolve_video, (video, remove, canonical, absolute), r),
    ensures
        r is Ok <==> canonical is Some || (remove && absolute is Some),
        r matches Ok(path) ==> path@ == (if canonical is Some {
            canonical->0@
        } else {
            absolute->0@
        }),
        r matches Err(e) ==> e is Unresolved == remove,
{
}

/// The messages name the video as it was given.
pub proof fn video_message_law(video: String)
    ensures
        (VideoError::Unresolved { video }).text() == "could not resolve path: "@ + video@,
        (VideoError::NotFound { video }).text() == "video not found: "@ + video@,
{
}

} // verus!
