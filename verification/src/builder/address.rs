//! What the builder reads out of a URL, through the `url` crate.
//!
//! URL parsing is not proved here. The two calls stand in small functions
//! whose contracts name what the crate returns for a given text.

use vstd::prelude::*;

verus! {

/// The host of the URL that `text` parses to, as `Url::host_str` gives it:
/// `None` where `text` is no absolute URL, or a URL without a host.
pub uninterp spec fn url_host(text: Seq<char>) -> Option<Seq<char>>;

/// The path segments of the URL that `text` parses to, as
/// `Url::path_segments` hands them out, in order: `None` where `text` is no
/// absolute URL, or a URL that cannot be a base.
pub uninterp spec fn url_path_segments(text: Seq<char>) -> Option<Seq<Seq<char>>>;

/// The texts of a sequence of strings.
pub open spec fn texts(v: Seq<String>) -> Seq<Seq<char>> {
    Seq::new(v.len(), |i: int| v[i]@)
}

/// Parses `text` with `Url::parse` and asks `Url::host_str` for the host.
///
/// Trusted: the answer is `url_host(text)`.
#[verifier::external_body]
pub(crate) fn host_of(text: &str) -> (r: Option<String>)
    ensures
        match r {
            Some(host) => url_host(text@) == Some(host@),
            None => url_host(text@) is None,
        },
{
    match url::Url::parse(text) {
        Ok(u) => match u.host_str() {
            Some(host) => Some(host.to_string()),
            None => None,
        },
        Err(_) => None,
    }
}

/// Parses `text` with `Url::parse` and collects what `Url::path_segments`
/// hands out.
///
/// Trusted: the answer is `url_path_segments(text)`.
#[verifier::external_body]
pub(crate) fn path_segments_of(text: &str) -> (r: Option<Vec<String>>)
    ensures
        match r {
            Some(segments) => url_path_segments(text@) == Some(texts(segments@)),
            None => url_path_segments(text@) is None,
        },
{
    match url::Url::parse(text) {
        Ok(u) => match u.path_segments() {
            Some(segments) => Some(segments.map(|s| s.to_string()).collect()),
            None => None,
        },
        Err(_) => None,
    }
}

} // verus!
