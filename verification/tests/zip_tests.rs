//! Tests for path segmentation, the common stem, and extraction
//! statistics.

use fxrecord::testing::InMemoryFs;
use fxrecord::zip::{common_stem, split_segments, ZipStats};

#[test]
fn test_common_stem() {
    assert_eq!(
        common_stem("foo/bar/baz", "foo/bar/baz"),
        Some("foo/bar/baz".to_string()),
    );

    assert_eq!(common_stem("foo/bar/baz", "foo/bar/qux"), Some("foo/bar".to_string()));

    assert_eq!(common_stem("foo/bar/baz", "foo/baz/bar"), Some("foo".to_string()));

    // Path normalization.
    assert_eq!(common_stem("foo/", "foo"), Some("foo".to_string()));

    assert_eq!(common_stem("foo/bar", "baz/qux"), None);
}

#[test]
fn test_split_segments() {
    let segs = split_segments("foo/bar/baz");
    assert_eq!(segs, vec!["foo".to_string(), "bar".to_string(), "baz".to_string()]);

    let segs = split_segments("/leading//slashes/");
    assert_eq!(segs, vec!["leading".to_string(), "slashes".to_string()]);

    let segs = split_segments("");
    assert!(segs.is_empty());
}

#[test]
fn test_zip_stats_flat_archive() {
    // Three top-level files share no stem; only files count as extracted.
    let mut stats = ZipStats::new();
    stats.record_entry(0, "places.sqlite", false);
    stats.record_entry(1, "prefs.js", false);
    stats.record_entry(2, "user.js", false);
    assert_eq!(stats.extracted, 3);
    assert_eq!(stats.top_level_dir, None);
}

#[test]
fn test_zip_stats_nested_archive() {
    let mut stats = ZipStats::new();
    stats.record_entry(0, "profile", true);
    stats.record_entry(1, "profile/places.sqlite", false);
    stats.record_entry(2, "profile/prefs.js", false);
    stats.record_entry(3, "profile/user.js", false);
    assert_eq!(stats.extracted, 3);
    assert_eq!(stats.top_level_dir, Some("profile".to_string()));
}

#[test]
fn test_zip_stats_empty_archive() {
    // Zero entries: nothing extracted, no stem.
    let stats = ZipStats::new();
    assert_eq!(stats.extracted, 0);
    assert_eq!(stats.top_level_dir, None);
}

#[test]
fn test_zip_stats_dirs_only() {
    // Directories alone never count as extracted files.
    let mut stats = ZipStats::new();
    stats.record_entry(0, "empty", true);
    stats.record_entry(1, "empty/inner", true);
    assert_eq!(stats.extracted, 0);
    assert_eq!(stats.top_level_dir, Some("empty".to_string()));
}

#[test]
fn test_zip() {
    // An archive with one file in a directory, plus an empty directory.
    let mut fs = InMemoryFs::new();
    fs.put_archive(
        "/test.zip",
        vec![
            ("dir".to_string(), true),
            ("dir/test.txt".to_string(), false),
            ("empty".to_string(), true),
        ],
    );
    let stats = fs.unzip("/test.zip", "/out").unwrap();
    assert!(fs.is_dir("/out/dir"));
    assert!(fs.is_file("/out/dir/test.txt"));
    assert!(fs.is_dir("/out/empty"));
    assert_eq!(stats.extracted, 1);
    assert_eq!(stats.top_level_dir, None);

    // A flat profile archive.
    let mut fs = InMemoryFs::new();
    fs.put_archive(
        "/profile.zip",
        vec![
            ("places.sqlite".to_string(), false),
            ("prefs.js".to_string(), false),
            ("user.js".to_string(), false),
        ],
    );
    let stats = fs.unzip("/profile.zip", "/out").unwrap();
    assert!(fs.is_file("/out/places.sqlite"));
    assert!(fs.is_file("/out/prefs.js"));
    assert!(fs.is_file("/out/user.js"));
    assert_eq!(stats.extracted, 3);
    assert_eq!(stats.top_level_dir, None);

    // A nested profile archive reports its top-level directory.
    let mut fs = InMemoryFs::new();
    fs.put_archive(
        "/profile_nested.zip",
        vec![
            ("profile".to_string(), true),
            ("profile/places.sqlite".to_string(), false),
            ("profile/prefs.js".to_string(), false),
            ("profile/user.js".to_string(), false),
        ],
    );
    let stats = fs.unzip("/profile_nested.zip", "/out").unwrap();
    assert!(fs.is_dir("/out/profile"));
    assert!(fs.is_file("/out/profile/places.sqlite"));
    assert_eq!(stats.extracted, 3);
    assert_eq!(stats.top_level_dir, Some("profile".to_string()));

    // A file that is not an archive is refused.
    let mut fs = InMemoryFs::new();
    fs.put_file("/README.md", "not an archive");
    assert!(fs.unzip("/README.md", "/out").is_err());
}
