use cache_buster::hex::hex_bytes;
use cache_buster::names::{build_name, file_stem_of, is_already_fingerprinted, stem_and_extension};
use cache_buster::paths::{join_path, relativize};

#[test]
fn build_name_with_extension() {
    assert_eq!(
        build_name("app", "ABC123", "cached", Some("js")),
        "app.ABC123.cached.js".to_string()
    );
}

#[test]
fn build_name_without_extension() {
    assert_eq!(
        build_name("README", "ABC123", "cached", None),
        "README.ABC123.cached".to_string()
    );
}

#[test]
fn marker_detected_in_fingerprinted_name() {
    assert!(is_already_fingerprinted("app.ABC123.cached.js", "cached"));
}

#[test]
fn marker_absent_in_plain_name() {
    assert!(!is_already_fingerprinted("app.js", "cached"));
}

#[test]
fn marker_substring_match_is_over_broad() {
    assert!(is_already_fingerprinted("cached-report.txt", "cached"));
}

#[test]
fn marker_in_extension_does_not_count() {
    assert!(!is_already_fingerprinted("notes.cached", "cached"));
}

#[test]
fn stem_and_extension_splits_at_last_dot() {
    let (stem, ext) = stem_and_extension("app.js");
    assert_eq!(stem, "app");
    assert_eq!(ext, Some("js"));
    let (stem, ext) = stem_and_extension("a.b.c");
    assert_eq!(stem, "a.b");
    assert_eq!(ext, Some("c"));
}

#[test]
fn stem_and_extension_without_dot() {
    let (stem, ext) = stem_and_extension("README");
    assert_eq!(stem, "README");
    assert_eq!(ext, None);
}

#[test]
fn stem_and_extension_hidden_file() {
    let (stem, ext) = stem_and_extension(".gitignore");
    assert_eq!(stem, ".gitignore");
    assert_eq!(ext, None);
    assert_eq!(file_stem_of(".gitignore"), ".gitignore");
}

#[test]
fn hex_bytes_zero_pads() {
    assert_eq!(hex_bytes(&[0x0f, 0xa0, 0x00]), "0fa000".to_string());
    assert_eq!(hex_bytes(&[]), "".to_string());
}

#[test]
fn relativize_under_asset_root() {
    assert_eq!(
        relativize("/site/assets/css/app.css", Some("/site/assets")),
        "css/app.css".to_string()
    );
}

#[test]
fn relativize_outside_asset_root_absolutizes() {
    assert_eq!(
        relativize("other/app.css", Some("/site/assets")),
        "/other/app.css".to_string()
    );
    assert_eq!(relativize("/elsewhere/app.css", Some("/site/assets")), "/elsewhere/app.css");
}

#[test]
fn relativize_without_root_absolutizes() {
    assert_eq!(relativize("x/y.js", None), "/x/y.js".to_string());
    assert_eq!(relativize("/x/y.js", None), "/x/y.js".to_string());
}

#[test]
fn relativize_respects_component_boundary() {
    assert_eq!(relativize("/site/assets2/app.css", Some("/site/assets")), "/site/assets2/app.css");
}

#[test]
fn join_path_inserts_separator() {
    assert_eq!(join_path("/site/assets", "app.css"), "/site/assets/app.css".to_string());
    assert_eq!(join_path("", "app.css"), "app.css".to_string());
}
