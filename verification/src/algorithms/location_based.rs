//! The geographic policy: a fixed table from location tag to backend.

use crate::error::Error;
use crate::text::str_eq;
use vstd::prelude::*;
use vstd::string::*;

verus! {

/// Whether `tag` is one of the tags served from the east of North America.
pub open spec fn in_us_east(tag: Seq<char>) -> bool {
    tag == "us"@ || tag == "us-east"@ || tag == "us-central"@ || tag == "ca"@ || tag == "ca-east"@
        || tag == "mx"@ || tag == "global"@
}

/// Whether `tag` is one of the tags served from the west of North America.
pub open spec fn in_us_west(tag: Seq<char>) -> bool {
    tag == "us-west"@ || tag == "ca-west"@
}

/// Whether `tag` is one of the tags served from the west of Europe.
pub open spec fn in_eu_west(tag: Seq<char>) -> bool {
    tag == "ie"@ || tag == "uk"@ || tag == "fr"@ || tag == "de"@ || tag == "nl"@ || tag == "be"@
        || tag == "es"@ || tag == "pt"@
}

/// Whether `tag` is one of the tags served from the centre of Europe.
pub open spec fn in_eu_central(tag: Seq<char>) -> bool {
    tag == "pl"@ || tag == "cz"@ || tag == "at"@ || tag == "ch"@ || tag == "hu"@
}

/// Whether `tag` is one of the tags served from Africa.
pub open spec fn in_africa(tag: Seq<char>) -> bool {
    tag == "ng"@ || tag == "gh"@ || tag == "ke"@ || tag == "za"@ || tag == "eg"@
}

/// Whether `tag` is one of the tags served from the Middle East.
pub open spec fn in_middle_east(tag: Seq<char>) -> bool {
    tag == "ae"@ || tag == "sa"@ || tag == "qa"@ || tag == "il"@
}

/// Whether `tag` is one of the tags served from the south of Asia.
pub open spec fn in_asia_south(tag: Seq<char>) -> bool {
    tag == "in"@ || tag == "pk"@ || tag == "bd"@ || tag == "lk"@
}

/// Whether `tag` is one of the tags served from the east of Asia.
pub open spec fn in_asia_east(tag: Seq<char>) -> bool {
    tag == "jp"@ || tag == "kr"@ || tag == "tw"@
}

/// Whether `tag` is one of the tags served from the south-east of Asia.
pub open spec fn in_asia_southeast(tag: Seq<char>) -> bool {
    tag == "sg"@ || tag == "id"@ || tag == "th"@ || tag == "vn"@ || tag == "ph"@
}

/// Whether `tag` is one of the tags served from Oceania.
pub open spec fn in_oceania(tag: Seq<char>) -> bool {
    tag == "au"@ || tag == "nz"@
}

/// The backend that serves the location `tag`, if the table knows the tag.
pub open spec fn region_of(tag: Seq<char>) -> Option<Seq<char>> {
    if in_us_east(tag) {
        Some("https://us-east.example.com"@)
    } else if in_us_west(tag) {
        Some("https://us-west.example.com"@)
    } else if in_eu_west(tag) {
        Some("https://eu-west.example.com"@)
    } else if in_eu_central(tag) {
        Some("https://eu-central.example.com"@)
    } else if in_africa(tag) {
        Some("https://africa.example.com"@)
    } else if in_middle_east(tag) {
        Some("https://middle-east.example.com"@)
    } else if in_asia_south(tag) {
        Some("https://asia-south.example.com"@)
    } else if in_asia_east(tag) {
        Some("https://asia-east.example.com"@)
    } else if in_asia_southeast(tag) {
        Some("https://asia-southeast.example.com"@)
    } else if in_oceania(tag) {
        Some("https://australia.example.com"@)
    } else {
        None
    }
}

fn region(tag: &str) -> (r: Option<&'static str>)
    ensures
        match r {
            Some(url) => region_of(tag@) == Some(url@),
            None => region_of(tag@) is None,
        },
{
    if str_eq(tag, "us") || str_eq(tag, "us-east") || str_eq(tag, "us-central") || str_eq(tag, "ca")
        || str_eq(tag, "ca-east") || str_eq(tag, "mx") || str_eq(tag, "global") {
        Some("https://us-east.example.com")
    } else if str_eq(tag, "us-west") || str_eq(tag, "ca-west") {
        Some("https://us-west.example.com")
    } else if str_eq(tag, "ie") || str_eq(tag, "uk") || str_eq(tag, "fr") || str_eq(tag, "de")
        || str_eq(tag, "nl") || str_eq(tag, "be") || str_eq(tag, "es") || str_eq(tag, "pt") {
        Some("https://eu-west.example.com")
    } else if str_eq(tag, "pl") || str_eq(tag, "cz") || str_eq(tag, "at") || str_eq(tag, "ch")
        || str_eq(tag, "hu") {
        Some("https://eu-central.example.com")
    } else if str_eq(tag, "ng") || str_eq(tag, "gh") || str_eq(tag, "ke") || str_eq(tag, "za")
        || str_eq(tag, "eg") {
        Some("https://africa.example.com")
    } else if str_eq(tag, "ae") || str_eq(tag, "sa") || str_eq(tag, "qa") || str_eq(tag, "il") {
        Some("https://middle-east.example.com")
    } else if str_eq(tag, "in") || str_eq(tag, "pk") || str_eq(tag, "bd") || str_eq(tag, "lk") {
        Some("https://asia-south.example.com")
    } else if str_eq(tag, "jp") || str_eq(tag, "kr") || str_eq(tag, "tw") {
        Some("https://asia-east.example.com")
    } else if str_eq(tag, "sg") || str_eq(tag, "id") || str_eq(tag, "th") || str_eq(tag, "vn")
        || str_eq(tag, "ph") {
        Some("https://asia-southeast.example.com")
    } else if str_eq(tag, "au") || str_eq(tag, "nz") {
        Some("https://australia.example.com")
    } else {
        None
    }
}

/// Selects the backend that serves `location`. A tag that the table does not
/// know is an error, never a fallback.
pub fn location_based(location: &str) -> (r: Result<String, Error>)
    ensures
        match r {
            Ok(url) => region_of(location@) == Some(url@),
            Err(e) => e is InternalServerError && region_of(location@) is None,
        },
{
    match region(location) {
        Some(url) => Ok(String::from_str(url)),
        None => Err(Error::InternalServerError),
    }
}

} // verus!
