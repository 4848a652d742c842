use immortalis::config::{
    disk_file_cache_duration_seconds_default, s3_file_cache_duration_seconds_default,
};
use immortalis::strings::{
    cache_control_value, contains_pattern, contains_pattern_ci, dotted, ends_with_pattern,
    extension_of, u32_to_decimal,
};

#[test]
fn cache_durations() {
    // Seven days and one year, in seconds.
    assert_eq!(s3_file_cache_duration_seconds_default(), 604800);
    assert_eq!(disk_file_cache_duration_seconds_default(), 31536000);
}

#[test]
fn decimal_formatting() {
    assert_eq!(u32_to_decimal(0), "0");
    assert_eq!(u32_to_decimal(7), "7");
    assert_eq!(u32_to_decimal(604800), "604800");
    assert_eq!(u32_to_decimal(u32::MAX), "4294967295");
}

#[test]
fn header_and_key_building() {
    assert_eq!(cache_control_value(604800), "public, max-age=604800");
    assert_eq!(dotted("9f8e", "mkv"), "9f8e.mkv");
    assert_eq!(dotted("A Title", "jpg"), "A Title.jpg");
}

#[test]
fn thumbnail_extension_extraction() {
    // Everything after the last dot, trimmed of a trailing query string.
    assert_eq!(extension_of("https://img.example/t.jpg"), "jpg");
    assert_eq!(extension_of("https://img.example/t.webp?x=1"), "webp");
    assert_eq!(extension_of("no-dot-here"), "no-dot-here");
    assert_eq!(extension_of("a.b.c.png"), "png");
}

#[test]
fn pattern_search() {
    assert!(contains_pattern("https://www.youtube.com/watch", "youtube.com"));
    assert!(!contains_pattern("https://crates.io", "youtube.com"));
    assert!(contains_pattern("abc", ""));
    assert!(ends_with_pattern("channel/videos", "videos"));
    assert!(!ends_with_pattern("videos/channel", "videos"));
    assert!(contains_pattern_ci("The Grand TOUR", "grand tour"));
    assert!(!contains_pattern_ci("The Grand TOUR", "grander"));
}
