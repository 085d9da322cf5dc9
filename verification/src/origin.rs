//! Origin URLs as text. The URL grammar is `reqwest::Url`'s, which is the
//! `Url` of the crate `url` under `reqwest`'s name; this module carries its
//! answers as plain strings.
//!
//! A `Url` is opaque here, so each name below stands for what a text becomes
//! on its way through the parser and back to text, not for one step of it.

use vstd::prelude::*;

verus! {

/// The normal form that `reqwest::Url::parse` gives to `text`, or `None`
/// where `text` is no absolute URL.
pub uninterp spec fn url_normal_form(text: Seq<char>) -> Option<Seq<char>>;

/// The URL that `reqwest::Url::join` resolves `route` to against the URL
/// written `base`, or `None` where either is refused.
pub uninterp spec fn url_joined(base: Seq<char>, route: Seq<char>) -> Option<Seq<char>>;

/// Calls `reqwest::Url::parse` and hands back the URL's serialization.
/// Trusted: the answer depends on `text` alone, so it has a name,
/// `url_normal_form`; nothing more is claimed of it.
#[verifier::external_body]
pub(crate) fn normalize(text: &str) -> (r: Option<String>)
    ensures
        match r {
            Some(url) => url_normal_form(text@) == Some(url@),
            None => url_normal_form(text@) is None,
        },
{
    reqwest::Url::parse(text).ok().map(String::from)
}

/// Calls `reqwest::Url::join` on the URL that `base` parses to and hands
/// back the serialization of the result. Trusted: the answer depends on the
/// two texts alone, so it has a name, `url_joined`; nothing more is claimed
/// of it.
#[verifier::external_body]
pub(crate) fn join(base: &str, route: &str) -> (r: Option<String>)
    ensures
        match r {
            Some(url) => url_joined(base@, route@) == Some(url@),
            None => url_joined(base@, route@) is None,
        },
{
    reqwest::Url::parse(base).ok()?.join(route).ok().map(String::from)
}

} // verus!
