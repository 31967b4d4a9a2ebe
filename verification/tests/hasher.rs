use acemcp_index::chunker::BlobItem;
use acemcp_index::coordinator::can_hash_all;
use acemcp_index::hasher::{is_hashable, sha256_hex, MAX_HASHED_BYTES};

#[test]
fn address_is_sha256_of_path_then_content() {
    assert_eq!(
        sha256_hex("a", "bc"),
        "ba7816bf8f01cfea414140de5dae2223b00361a396177a9cb410ff61f20015ad"
    );
    assert_eq!(
        sha256_hex("abc", ""),
        "ba7816bf8f01cfea414140de5dae2223b00361a396177a9cb410ff61f20015ad"
    );
    assert_eq!(
        sha256_hex("", ""),
        "e3b0c44298fc1c149afbf4c8996fb92427ae41e4649b934ca495991b7852b855"
    );
}

#[test]
fn address_is_lower_case_hex_of_64_digits() {
    let a = sha256_hex("src/lib.rs", "pub fn f() {}\n");
    assert_eq!(a.len(), 64);
    assert!(a.chars().all(|c| c.is_ascii_digit() || ('a'..='f').contains(&c)));
}

#[test]
fn same_content_under_another_path_has_another_address() {
    let content = "fn main() {}\n";
    assert_ne!(sha256_hex("src/a.rs", content), sha256_hex("src/b.rs", content));
    assert_ne!(sha256_hex("a", "bc"), sha256_hex("b", "ac"));
}

#[test]
fn same_path_and_content_have_the_same_address() {
    assert_eq!(sha256_hex("src/a.rs", "x\n"), sha256_hex("src/a.rs", "x\n"));
    assert_eq!(sha256_hex("路径", "内容"), sha256_hex("路径", "内容"));
}

#[test]
fn blobs_of_any_real_length_can_be_hashed() {
    assert_eq!(MAX_HASHED_BYTES, (1u64 << 61) - 1);
    assert!(is_hashable("", ""));
    assert!(is_hashable("src/lib.rs", "pub fn f() {}\n"));
    let blobs = vec![
        BlobItem { path: "a".to_string(), content: "1".to_string() },
        BlobItem { path: "b".to_string(), content: "2".repeat(100_000) },
    ];
    assert!(can_hash_all(&blobs));
    assert!(can_hash_all(&Vec::new()));
}
