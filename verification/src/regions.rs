//! The fixed table mapping legacy region names to canonical region codes.

use crate::text::str_eq;
use vstd::prelude::*;

verus! {

/// One entry of the region table: the canonical region code, the region name
/// the provider accepts, and whether the name is a legacy alias.
pub struct RegionInfo {
    pub code: String,
    pub region: String,
    pub is_legacy: bool,
}

pub struct RegionInfoView {
    pub code: Seq<char>,
    pub region: Seq<char>,
    pub is_legacy: bool,
}

impl View for RegionInfo {
    type V = RegionInfoView;

    open spec fn view(&self) -> RegionInfoView {
        RegionInfoView { code: self.code@, region: self.region@, is_legacy: self.is_legacy }
    }
}

impl DeepView for RegionInfo {
    type V = RegionInfoView;

    open spec fn deep_view(&self) -> RegionInfoView {
        self.view()
    }
}

pub open spec fn spec_region_entry(code: Seq<char>, region: Seq<char>, is_legacy: bool) -> RegionInfoView {
    RegionInfoView { code, region, is_legacy }
}

/// The region table: maps a region name to its entry.
pub open spec fn spec_region_lookup(name: Seq<char>) -> Option<RegionInfoView> {
    if name == "eu-west"@ {
        Some(spec_region_entry("uk-lhr"@, "eu-west"@, true))
    } else if name == "se-sto"@ {
        Some(spec_region_entry("se-sto"@, "se-sto"@, false))
    } else if name == "us-iad"@ {
        Some(spec_region_entry("us-iad"@, "us-iad"@, false))
    } else if name == "us-lax"@ {
        Some(spec_region_entry("us-lax"@, "us-lax"@, false))
    } else if name == "us-ord"@ {
        Some(spec_region_entry("us-ord"@, "us-ord"@, false))
    } else if name == "us-mia"@ {
        Some(spec_region_entry("us-mia"@, "us-mia"@, false))
    } else if name == "us-sea"@ {
        Some(spec_region_entry("us-sea"@, "us-sea"@, false))
    } else if name == "us-southeast"@ {
        Some(spec_region_entry("us-atl"@, "us-southeast"@, true))
    } else if name == "us-central"@ {
        Some(spec_region_entry("us-dfw"@, "us-central"@, true))
    } else if name == "us-east"@ {
        Some(spec_region_entry("us-ewr"@, "us-east"@, true))
    } else if name == "ca-central"@ {
        Some(spec_region_entry("ca-yyz"@, "ca-central"@, true))
    } else if name == "br-gru"@ {
        Some(spec_region_entry("br-gru"@, "br-gru"@, false))
    } else if name == "jp-osa"@ {
        Some(spec_region_entry("jp-osa"@, "jp-osa"@, false))
    } else if name == "fr-par"@ {
        Some(spec_region_entry("fr-par"@, "fr-par"@, false))
    } else if name == "it-mil"@ {
        Some(spec_region_entry("it-mil"@, "it-mil"@, false))
    } else if name == "ap-southeast"@ {
        Some(spec_region_entry("au-syd"@, "ap-southeast"@, true))
    } else {
        None
    }
}

fn region_entry(code: &str, region: &str, is_legacy: bool) -> (r: RegionInfo)
    ensures
        r@ == spec_region_entry(code@, region@, is_legacy),
{
    RegionInfo { code: code.to_owned(), region: region.to_owned(), is_legacy }
}

/// Resolves a region name to its table entry, or nothing when the name is
/// unknown.
pub fn region_lookup(name: &str) -> (r: Option<RegionInfo>)
    ensures
        r.deep_view() == spec_region_lookup(name@),
{
    if str_eq(name, "eu-west") {
        Some(region_entry("uk-lhr", "eu-west", true))
    } else if str_eq(name, "se-sto") {
        Some(region_entry("se-sto", "se-sto", false))
    } else if str_eq(name, "us-iad") {
        Some(region_entry("us-iad", "us-iad", false))
    } else if str_eq(name, "us-lax") {
        Some(region_entry("us-lax", "us-lax", false))
    } else if str_eq(name, "us-ord") {
        Some(region_entry("us-ord", "us-ord", false))
    } else if str_eq(name, "us-mia") {
        Some(region_entry("us-mia", "us-mia", false))
    } else if str_eq(name, "us-sea") {
        Some(region_entry("us-sea", "us-sea", false))
    } else if str_eq(name, "us-southeast") {
        Some(region_entry("us-atl", "us-southeast", true))
    } else if str_eq(name, "us-central") {
        Some(region_entry("us-dfw", "us-central", true))
    } else if str_eq(name, "us-east") {
        Some(region_entry("us-ewr", "us-east", true))
    } else if str_eq(name, "ca-central") {
        Some(region_entry("ca-yyz", "ca-central", true))
    } else if str_eq(name, "br-gru") {
        Some(region_entry("br-gru", "br-gru", false))
    } else if str_eq(name, "jp-osa") {
        Some(region_entry("jp-osa", "jp-osa", false))
    } else if str_eq(name, "fr-par") {
        Some(region_entry("fr-par", "fr-par", false))
    } else if str_eq(name, "it-mil") {
        Some(region_entry("it-mil", "it-mil", false))
    } else if str_eq(name, "ap-southeast") {
        Some(region_entry("au-syd", "ap-southeast", true))
    } else {
        None
    }
}

/// Whether a region name resolves to a legacy entry; unknown names are not
/// legacy.
pub fn is_legacy_region(region: &str) -> (r: bool)
    ensures
        r == match spec_region_lookup(region@) {
            Some(info) => info.is_legacy,
            None => false,
        },
{
    match region_lookup(region) {
        Some(info) => info.is_legacy,
        None => false,
    }
}

} // verus!
