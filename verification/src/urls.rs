use vstd::prelude::*;
use crate::strings::{contains_seq, ends_with_seq, contains_pattern, ends_with_pattern};

verus! {

/// What a submitted or discovered URL points at.
#[derive(Clone, Copy, Debug, PartialEq, Eq, Structural)]
pub enum UrlType {
    /// Rejected: empty, another site, or no recognizable item.
    Invalid,
    /// A single playable item.
    Video,
    /// A channel, playlist or similar grouping whose members are discovered
    /// by periodic re-resolution.
    Collection,
    /// Ambiguous: a playlist item that is also a direct video; treated as
    /// both.
    VideoOrCollection,
}

/// The URL names a collection page outright: a known collection suffix, a
/// handle path, or a channel path.
pub open spec fn spec_is_collection_page(s: Seq<char>) -> bool {
    ||| ends_with_seq(s, "videos"@)
    ||| ends_with_seq(s, "streams"@)
    ||| ends_with_seq(s, "shorts"@)
    ||| ends_with_seq(s, "podcasts"@)
    ||| ends_with_seq(s, "playlists"@)
    ||| ends_with_seq(s, "releases"@)
    ||| contains_seq(s, "/@"@)
    ||| contains_seq(s, "/channel"@)
}

/// The classification rule: only URLs of the supported video site are
/// accepted; collection pages come first, then the query parameters decide
/// between a playlist, a single video, and an ambiguous playlist item.
pub open spec fn spec_url_type(s: Seq<char>) -> UrlType {
    if s.len() == 0 || !contains_seq(s, "youtube.com"@) {
        UrlType::Invalid
    } else if spec_is_collection_page(s) {
        UrlType::Collection
    } else if contains_seq(s, "list="@) && contains_seq(s, "v="@) {
        UrlType::VideoOrCollection
    } else if contains_seq(s, "list="@) {
        UrlType::Collection
    } else if contains_seq(s, "v="@) || contains_seq(s, "shorts/"@) {
        UrlType::Video
    } else {
        UrlType::Invalid
    }
}

/// Classifies a URL as collection, single video, ambiguous, or invalid.
pub fn get_url_type(url: &str) -> (t: UrlType)
    ensures
        t == spec_url_type(url@),
{
    if url.is_empty() || !contains_pattern(url, "youtube.com") {
        return UrlType::Invalid;
    }
    if ends_with_pattern(url, "videos") || ends_with_pattern(url, "streams")
        || ends_with_pattern(url, "shorts") || ends_with_pattern(url, "podcasts")
        || ends_with_pattern(url, "playlists") || ends_with_pattern(url, "releases")
        || contains_pattern(url, "/@") || contains_pattern(url, "/channel") {
        UrlType::Collection
    } else {
        let has_list = contains_pattern(url, "list=");
        let has_video = contains_pattern(url, "v=");
        if has_list && has_video {
            UrlType::VideoOrCollection
        } else if has_list {
            UrlType::Collection
        } else if has_video || contains_pattern(url, "shorts/") {
            UrlType::Video
        } else {
            UrlType::Invalid
        }
    }
}

/// The URL ends in a collection tab name, with or without a trailing slash.
pub open spec fn spec_is_video_collection(s: Seq<char>) -> bool {
    ||| ends_with_seq(s, "videos"@)
    ||| ends_with_seq(s, "streams"@)
    ||| ends_with_seq(s, "shorts"@)
    ||| ends_with_seq(s, "videos/"@)
    ||| ends_with_seq(s, "streams/"@)
    ||| ends_with_seq(s, "shorts/"@)
}

/// Whether a discovered member URL is itself a collection tab.
pub fn is_youtube_video_collection(url: &str) -> (r: bool)
    ensures
        r == spec_is_video_collection(url@),
{
    ends_with_pattern(url, "videos") || ends_with_pattern(url, "streams")
        || ends_with_pattern(url, "shorts") || ends_with_pattern(url, "videos/")
        || ends_with_pattern(url, "streams/") || ends_with_pattern(url, "shorts/")
}

/// The URL re-serialized with only the accepted query parameters kept, or
/// nothing where it cannot be parsed as an absolute URL.
pub uninterp spec fn spec_filter_query_pairs(url: Seq<char>, accepted: Seq<Seq<char>>) -> Option<
    Seq<char>,
>;

/// Relies on url::Url::parse, Url::query_pairs, Url::query_pairs_mut and
/// Url's Display: the URL is parsed, its query is rewritten to keep only the
/// pairs whose names are listed, and the result is re-serialized; parsing and
/// serialization depend on the arguments alone. An unparseable URL yields
/// nothing instead of an error.
#[verifier::external_body]
pub fn filter_query_pairs(initial_url: &str, accepted_parameter_names: Vec<&str>) -> (r: Option<
    String,
>)
    ensures
        r.deep_view() == spec_filter_query_pairs(
            initial_url@,
            accepted_parameter_names.deep_view(),
        ),
{
    let url = match url::Url::parse(initial_url) {
        Ok(u) => u,
        Err(_) => return None,
    };
    let mut new_url = url.clone();
    new_url.query_pairs_mut().clear().extend_pairs(
        url.query_pairs().filter(|x| accepted_parameter_names.contains(&x.0.as_ref())),
    );
    Some(new_url.to_string())
}

} // verus!
