use immortalis::records::{SimpleDate, parse_upload_date};
use immortalis::urls::{UrlType, filter_query_pairs, get_url_type, is_youtube_video_collection};

#[test]
fn test_get_url_type() {
    assert_eq!(get_url_type(""), UrlType::Invalid);
    assert_eq!(get_url_type("abc"), UrlType::Invalid);
    assert_eq!(get_url_type("https://crates.io"), UrlType::Invalid);
    assert_eq!(get_url_type("https://www.youtube.com"), UrlType::Invalid);
    assert_eq!(
        get_url_type("https://www.youtube.com/channel/testChannel"),
        UrlType::Collection
    );
    assert_eq!(get_url_type("https://www.youtube.com/@test"), UrlType::Collection);
    assert_eq!(get_url_type("https://www.youtube.com/@test/shorts"), UrlType::Collection);
    assert_eq!(
        get_url_type("https://www.youtube.com/shorts/anotherTest"),
        UrlType::Video
    );
    assert_eq!(
        get_url_type("https://www.youtube.com/watch?v=testVideoId"),
        UrlType::Video
    );
    assert_eq!(
        get_url_type("https://www.youtube.com/watch?v=testVideoId&list=playListId"),
        UrlType::VideoOrCollection
    );
    assert_eq!(
        get_url_type("https://www.youtube.com/playlist?list=playListId"),
        UrlType::Collection
    );
}

#[test]
fn classification_shapes() {
    // A channel page is a collection; a watch URL is a video; a watch URL
    // inside a playlist is ambiguous; a playlist page is a collection; an
    // empty string or a foreign domain is invalid.
    assert_eq!(get_url_type("https://www.youtube.com/channel/X"), UrlType::Collection);
    assert_eq!(get_url_type("https://www.youtube.com/watch?v=ID"), UrlType::Video);
    assert_eq!(
        get_url_type("https://www.youtube.com/watch?v=ID&list=PL"),
        UrlType::VideoOrCollection
    );
    assert_eq!(
        get_url_type("https://www.youtube.com/playlist?list=PL"),
        UrlType::Collection
    );
    assert_eq!(get_url_type(""), UrlType::Invalid);
    assert_eq!(get_url_type("https://example.com/channel/X"), UrlType::Invalid);
    assert_eq!(get_url_type("https://example.com/watch?v=ID"), UrlType::Invalid);
}

#[test]
fn video_collection_suffixes() {
    assert!(is_youtube_video_collection("https://www.youtube.com/@test/videos"));
    assert!(is_youtube_video_collection("https://www.youtube.com/@test/streams/"));
    assert!(is_youtube_video_collection("https://www.youtube.com/@test/shorts"));
    assert!(!is_youtube_video_collection("https://www.youtube.com/watch?v=abc"));
    assert!(!is_youtube_video_collection(""));
}

#[test]
fn upload_date_parsing() {
    assert_eq!(
        parse_upload_date("20230115"),
        Some(SimpleDate { year: 2023, month: 1, day: 15 })
    );
    // Trailing text beyond the eight digits is ignored.
    assert_eq!(
        parse_upload_date("19991231T00"),
        Some(SimpleDate { year: 1999, month: 12, day: 31 })
    );
    // February 29 exists only in leap years.
    assert_eq!(
        parse_upload_date("20240229"),
        Some(SimpleDate { year: 2024, month: 2, day: 29 })
    );
    assert_eq!(parse_upload_date("20230229"), None);
    // A century year is a leap year only when divisible by 400.
    assert_eq!(parse_upload_date("19000229"), None);
    assert_eq!(
        parse_upload_date("20000229"),
        Some(SimpleDate { year: 2000, month: 2, day: 29 })
    );
    // Too short, not numeric, zero or out-of-range fields.
    assert_eq!(parse_upload_date("2023011"), None);
    assert_eq!(parse_upload_date("2023Ol15"), None);
    assert_eq!(parse_upload_date("20230015"), None);
    assert_eq!(parse_upload_date("20231315"), None);
    assert_eq!(parse_upload_date("20230100"), None);
    assert_eq!(parse_upload_date("20230432"), None);
}

#[test]
fn query_pair_filtering() {
    // Only the accepted parameter survives; everything else is trimmed.
    let filtered = filter_query_pairs(
        "https://www.youtube.com/watch?v=testVideoId&list=playListId",
        vec!["v"],
    );
    assert_eq!(
        filtered.as_deref(),
        Some("https://www.youtube.com/watch?v=testVideoId")
    );
    // An unparseable URL yields nothing instead of an error.
    assert_eq!(filter_query_pairs("not a url", vec!["v"]), None);
    // Accepted parameters keep their order and values.
    let both = filter_query_pairs("https://example.net/?lang=en&foo=bar", vec!["lang"]);
    assert_eq!(both.as_deref(), Some("https://example.net/?lang=en"));
}
