use acemcp_index::paths::{is_within, normalize_base_url, normalize_project_path};

#[test]
fn project_path_loses_the_extended_prefix() {
    assert_eq!(normalize_project_path("//?/C:/work/app"), "C:/work/app");
    assert_eq!(normalize_project_path("\\\\?\\C:\\work\\app"), "C:/work/app");
    assert_eq!(normalize_project_path("C:\\work\\app"), "C:/work/app");
    assert_eq!(normalize_project_path("/home/u/app"), "/home/u/app");
    assert_eq!(normalize_project_path(""), "");
    assert_eq!(normalize_project_path("//?/"), "");
    assert_eq!(normalize_project_path("a//?/b"), "a//?/b");
}

#[test]
fn base_url_gets_a_scheme_and_loses_trailing_slashes() {
    assert_eq!(normalize_base_url("example.com"), "http://example.com");
    assert_eq!(normalize_base_url("  https://example.com/api///  "), "https://example.com/api");
    assert_eq!(normalize_base_url("http://h:8080/"), "http://h:8080");
    assert_eq!(normalize_base_url(""), "http:");
    assert_eq!(normalize_base_url("ftp://x"), "http://ftp://x");
    assert_eq!(normalize_base_url("\u{3000}example.com\u{a0}"), "http://example.com");
}

#[test]
fn within_means_a_prefix_that_ends_with_a_segment() {
    assert!(is_within("/p/a/src/x.rs", "/p/a"));
    assert!(is_within("/p/a", "/p/a"));
    assert!(is_within("/p/a/x", "/p/a/"));
    assert!(!is_within("/p/ab/x", "/p/a"));
    assert!(!is_within("/p/a", "/p/a/b"));
    assert!(!is_within("/p/a", ""));
    assert!(!is_within("/q/a/x", "/p/a"));
}
