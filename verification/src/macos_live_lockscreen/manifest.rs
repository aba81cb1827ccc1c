//! The catalog of aerial wallpapers, as far as it is read and written here. Every other
//! field is carried through untouched.
use vstd::prelude::*;

use crate::config;
use crate::json;
use crate::json::JsonText;
use crate::text;

verus! {

/// The catalog.
#[derive(Debug)]
pub struct Manifest {
    pub assets: Vec<Asset>,
    pub categories: Vec<Category>,
    pub extra: serde_json::Map<String, serde_json::Value>,
}

/// A wallpaper of the catalog.
#[derive(Debug)]
pub struct Asset {
    pub id: String,
    pub categories: Vec<String>,
    pub subcategories: Vec<String>,
    pub preview_image: String,
    pub accessibility_label: Option<String>,
    pub localized_name_key: Option<String>,
    pub include_in_shuffle: Option<bool>,
    pub points_of_interest: Option<serde_json::Map<String, serde_json::Value>>,
    pub preferred_order: Option<i64>,
    pub shot_id: Option<String>,
    pub show_in_top_level: Option<bool>,
    pub url_4k_sdr_240fps: Option<String>,
    pub extra: serde_json::Map<String, serde_json::Value>,
}

/// A section of the catalog.
#[derive(Debug)]
pub struct Category {
    pub id: String,
    pub representative_asset_id: String,
    pub preview_image: String,
    pub subcategories: Vec<Subcategory>,
    pub localized_description_key: Option<String>,
    pub localized_name_key: Option<String>,
    pub preferred_order: Option<i64>,
    pub extra: serde_json::Map<String, serde_json::Value>,
}

/// A part of a section.
#[derive(Debug)]
pub struct Subcategory {
    pub id: String,
    pub representative_asset_id: String,
    pub preview_image: String,
    pub localized_description_key: Option<String>,
    pub localized_name_key: Option<String>,
    pub preferred_order: Option<i64>,
    pub extra: serde_json::Map<String, serde_json::Value>,
}

/// An [`Asset`] as plain values.
pub struct AssetText {
    pub id: Seq<char>,
    pub categories: Seq<Seq<char>>,
    pub subcategories: Seq<Seq<char>>,
    pub preview_image: Seq<char>,
    pub accessibility_label: Option<Seq<char>>,
    pub localized_name_key: Option<Seq<char>>,
    pub include_in_shuffle: Option<bool>,
    pub points_of_interest: Option<Seq<(Seq<char>, JsonText)>>,
    pub preferred_order: Option<i64>,
    pub shot_id: Option<Seq<char>>,
    pub show_in_top_level: Option<bool>,
    pub url_4k_sdr_240fps: Option<Seq<char>>,
    pub extra: Seq<(Seq<char>, JsonText)>,
}

/// A [`Category`] as plain values.
pub struct CategoryText {
    pub id: Seq<char>,
    pub representative_asset_id: Seq<char>,
    pub preview_image: Seq<char>,
    pub subcategories: Seq<SubcategoryText>,
    pub localized_description_key: Option<Seq<char>>,
    pub localized_name_key: Option<Seq<char>>,
    pub preferred_order: Option<i64>,
    pub extra: Seq<(Seq<char>, JsonText)>,
}

/// A [`Subcategory`] as plain values.
pub struct SubcategoryText {
    pub id: Seq<char>,
    pub representative_asset_id: Seq<char>,
    pub preview_image: Seq<char>,
    pub localized_description_key: Option<Seq<char>>,
    pub localized_name_key: Option<Seq<char>>,
    pub preferred_order: Option<i64>,
    pub extra: Seq<(Seq<char>, JsonText)>,
}

/// A [`Manifest`] as plain values.
pub struct ManifestText {
    pub assets: Seq<AssetText>,
    pub categories: Seq<CategoryText>,
    pub extra: Seq<(Seq<char>, JsonText)>,
}

impl View for Asset {
    type V = AssetText;

    open spec fn view(&self) -> AssetText {
        AssetText {
            id: self.id@,
            categories: text::views(self.categories@),
            subcategories: text::views(self.subcategories@),
            preview_image: self.preview_image@,
            accessibility_label: config::text_view(self.accessibility_label),
            localized_name_key: config::text_view(self.localized_name_key),
            include_in_shuffle: self.include_in_shuffle,
            points_of_interest: match self.points_of_interest {
                Some(object) => Some(json::members(object)),
                None => None,
            },
            preferred_order: self.preferred_order,
            shot_id: config::text_view(self.shot_id),
            show_in_top_level: self.show_in_top_level,
            url_4k_sdr_240fps: config::text_view(self.url_4k_sdr_240fps),
            extra: json::members(self.extra),
        }
    }
}

impl View for Category {
    type V = CategoryText;

    open spec fn view(&self) -> CategoryText {
        CategoryText {
            id: self.id@,
            representative_asset_id: self.representative_asset_id@,
            preview_image: self.preview_image@,
            subcategories: subcategory_texts(self.subcategories@),
            localized_description_key: config::text_view(self.localized_description_key),
            localized_name_key: config::text_view(self.localized_name_key),
            preferred_order: self.preferred_order,
            extra: json::members(self.extra),
        }
    }
}

impl View for Subcategory {
    type V = SubcategoryText;

    open spec fn view(&self) -> SubcategoryText {
        SubcategoryText {
            id: self.id@,
            representative_asset_id: self.representative_asset_id@,
            preview_image: self.preview_image@,
            localized_description_key: config::text_view(self.localized_description_key),
            localized_name_key: config::text_view(self.localized_name_key),
            preferred_order: self.preferred_order,
            extra: json::members(self.extra),
        }
    }
}

impl View for Manifest {
    type V = ManifestText;

    open spec fn view(&self) -> ManifestText {
        ManifestText {
            assets: asset_texts(self.assets@),
            categories: category_texts(self.categories@),
            extra: json::members(self.extra),
        }
    }
}

/// The assets as plain values, in order.
pub open spec fn asset_texts(assets: Seq<Asset>) -> Seq<AssetText> {
    assets.map_values(|a: Asset| a@)
}

/// The categories as plain values, in order.
pub open spec fn category_texts(categories: Seq<Category>) -> Seq<CategoryText> {
    categories.map_values(|c: Category| c@)
}

/// The subcategories as plain values, in order.
pub open spec fn subcategory_texts(subcategories: Seq<Subcategory>) -> Seq<SubcategoryText> {
    subcategories.map_values(|s: Subcategory| s@)
}

} // verus!
