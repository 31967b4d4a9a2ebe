use acemcp_index::chunker::{split_content, BlobItem};
use acemcp_index::config::{AcemcpConfig, IndexError};
use acemcp_index::coordinator::{
    batch_range, begin_update, count_batches, finish_update, next_upload, plan_update,
    record_missing_root, record_scan, BatchOutcome, UpdatePlan,
};
use acemcp_index::hasher::sha256_hex;
use acemcp_index::ledger::ProjectsFile;
use acemcp_index::status::{IndexStatus, ProjectIndexStatus};

fn blob(path: &str, content: &str) -> BlobItem {
    BlobItem { path: path.to_string(), content: content.to_string() }
}

fn address(b: &BlobItem) -> String {
    sha256_hex(&b.path, &b.content)
}

fn config() -> AcemcpConfig {
    AcemcpConfig {
        base_url: Some("https://example.com".to_string()),
        token: Some("t".to_string()),
        batch_size: Some(2),
        max_lines_per_blob: None,
        text_extensions: None,
        exclude_patterns: None,
        smart_wait_range: None,
        proxy_enabled: None,
        proxy_host: None,
        proxy_port: None,
        proxy_type: None,
        proxy_username: None,
        proxy_password: None,
    }
}

fn upload_all(plan: &UpdatePlan, batch_size: usize) -> Vec<BatchOutcome> {
    let mut outcomes = Vec::new();
    let n = count_batches(plan.new_blobs.len(), batch_size);
    for i in 0..n {
        let (start, end) = batch_range(plan.new_blobs.len(), batch_size, i);
        outcomes.push(BatchOutcome::Uploaded(plan.new_addresses[start..end].to_vec()));
    }
    outcomes
}

fn sorted(mut v: Vec<String>) -> Vec<String> {
    v.sort();
    v
}

#[test]
fn plan_parts_the_scan_into_kept_and_new() {
    let blobs = vec![blob("a", "1"), blob("b", "2"), blob("c", "3")];
    let retained = vec![address(&blobs[1]), "gone".to_string()];
    let plan = plan_update(&blobs, &retained);
    assert_eq!(plan.total_blobs, 3);
    assert_eq!(plan.kept, vec![address(&blobs[1])]);
    assert_eq!(plan.new_addresses, vec![address(&blobs[0]), address(&blobs[2])]);
    assert_eq!(plan.new_blobs.len(), 2);
    assert_eq!(plan.new_blobs[0].path, "a");
    assert_eq!(plan.new_blobs[1].path, "c");
}

#[test]
fn plan_counts_a_repeated_blob_once() {
    let blobs = vec![blob("a", "1"), blob("a", "1"), blob("b", "2"), blob("b", "2")];
    let retained = vec![address(&blobs[2])];
    let plan = plan_update(&blobs, &retained);
    assert_eq!(plan.total_blobs, 4);
    assert_eq!(plan.kept, vec![address(&blobs[2])]);
    assert_eq!(plan.new_addresses, vec![address(&blobs[0])]);
    assert_eq!(plan.new_blobs.len(), 1);
}

#[test]
fn plan_of_an_empty_scan_is_empty() {
    let plan = plan_update(&Vec::new(), &vec!["x".to_string()]);
    assert!(plan.kept.is_empty());
    assert!(plan.new_blobs.is_empty());
    assert_eq!(plan.total_blobs, 0);
}

#[test]
fn batches_cover_the_new_blobs_in_order() {
    assert_eq!(count_batches(0, 10), 0);
    assert_eq!(count_batches(1, 10), 1);
    assert_eq!(count_batches(10, 10), 1);
    assert_eq!(count_batches(11, 10), 2);
    assert_eq!(count_batches(25, 10), 3);
    assert_eq!(batch_range(25, 10, 0), (0, 10));
    assert_eq!(batch_range(25, 10, 1), (10, 20));
    assert_eq!(batch_range(25, 10, 2), (20, 25));
    assert_eq!(batch_range(20, 10, 1), (10, 20));
    assert_eq!(batch_range(3, 1, 2), (2, 3));
}

#[test]
fn second_update_without_changes_uploads_nothing() {
    let blobs = vec![blob("a", "1"), blob("b", "2"), blob("c", "3")];
    let key = "/p".to_string();
    let mut ledger = ProjectsFile::new();
    let mut status = ProjectIndexStatus::new("/p");

    let plan = plan_update(&blobs, &ledger.retained(&key));
    assert_eq!(plan.new_blobs.len(), 3);
    let outcomes = upload_all(&plan, 2);
    let first = finish_update(&mut ledger, &mut status, &key, &plan, 2, &outcomes, 1).unwrap();

    let plan = plan_update(&blobs, &ledger.retained(&key));
    assert!(plan.new_blobs.is_empty());
    assert_eq!(count_batches(plan.new_blobs.len(), 2), 0);
    let second = finish_update(&mut ledger, &mut status, &key, &plan, 2, &Vec::new(), 2).unwrap();
    assert_eq!(sorted(second.blob_names.clone()), sorted(first.blob_names.clone()));
    assert_eq!(sorted(ledger.retained(&key)), sorted(first.blob_names));
    assert!(second.failed_batches.is_empty());
}

#[test]
fn untouched_bytes_add_no_new_blob() {
    let before = vec![blob("src/a.rs", "fn a() {}\n")];
    let retained = vec![address(&before[0])];
    let after = vec![blob("src/a.rs", "fn a() {}\n")];
    let plan = plan_update(&after, &retained);
    assert!(plan.new_blobs.is_empty());
    assert_eq!(plan.kept, retained);
}

#[test]
fn renamed_file_is_uploaded_again() {
    let retained = vec![sha256_hex("old.rs", "same\n")];
    let plan = plan_update(&vec![blob("new.rs", "same\n")], &retained);
    assert_eq!(plan.new_blobs.len(), 1);
    assert!(plan.kept.is_empty());
}

#[test]
fn failed_batch_is_reported_and_the_others_count() {
    let blobs = vec![
        blob("a", "1"),
        blob("b", "2"),
        blob("c", "3"),
        blob("d", "4"),
        blob("e", "5"),
        blob("k", "kept"),
    ];
    let key = "/p".to_string();
    let mut ledger = ProjectsFile::new();
    ledger.insert(key.clone(), vec![address(&blobs[5]), "deleted".to_string()]);
    let mut status = ProjectIndexStatus::new("/p");
    status.mark_indexing();

    let plan = plan_update(&blobs, &ledger.retained(&key));
    assert_eq!(count_batches(plan.new_blobs.len(), 2), 3);
    let outcomes = vec![
        BatchOutcome::Uploaded(vec!["name-1".to_string(), "name-2".to_string()]),
        BatchOutcome::Failed("HTTP 401 unauthorized".to_string()),
        BatchOutcome::Uploaded(vec!["name-5".to_string()]),
    ];
    let report = finish_update(&mut ledger, &mut status, &key, &plan, 2, &outcomes, 7).unwrap();
    assert_eq!(report.failed_batches, vec![2]);
    let expected = vec![
        address(&blobs[5]),
        address(&blobs[0]),
        address(&blobs[1]),
        address(&blobs[4]),
    ];
    assert_eq!(report.blob_names, expected);
    assert_eq!(ledger.retained(&key), expected);
    assert!(!report.blob_names.contains(&"deleted".to_string()));
    assert!(!report.blob_names.contains(&address(&blobs[2])));
    assert_eq!(status.status, IndexStatus::Synced);
}

#[test]
fn batch_without_names_counts_as_failed() {
    let blobs = vec![blob("a", "1"), blob("b", "2")];
    let key = "/p".to_string();
    let mut ledger = ProjectsFile::new();
    let mut status = ProjectIndexStatus::new("/p");
    let plan = plan_update(&blobs, &Vec::new());
    let outcomes = vec![
        BatchOutcome::Uploaded(Vec::new()),
        BatchOutcome::Uploaded(vec![plan.new_addresses[1].clone()]),
    ];
    let report = finish_update(&mut ledger, &mut status, &key, &plan, 1, &outcomes, 7).unwrap();
    assert_eq!(report.failed_batches, vec![1]);
    assert_eq!(report.blob_names, vec![plan.new_addresses[1].clone()]);
}

#[test]
fn update_that_retains_nothing_fails() {
    let blobs = vec![blob("a", "1")];
    let key = "/p".to_string();
    let mut ledger = ProjectsFile::new();
    ledger.insert(key.clone(), vec!["stale".to_string()]);
    let mut status = ProjectIndexStatus::new("/p");
    status.mark_indexing();
    let plan = plan_update(&blobs, &ledger.retained(&key));
    let outcomes = vec![BatchOutcome::Failed("timeout".to_string())];
    let r = finish_update(&mut ledger, &mut status, &key, &plan, 10, &outcomes, 9);
    assert_eq!(r.err(), Some(IndexError::NoBlobsAfterIndexing));
    assert!(ledger.retained(&key).is_empty());
    assert_eq!(status.status, IndexStatus::Failed);
    assert_eq!(status.last_error, Some("索引后未找到 blobs".to_string()));
    assert_eq!(status.last_failure_time, Some(9));
    assert_eq!(status.last_success_time, None);
}

#[test]
fn successful_update_marks_the_project_synced() {
    let blobs = vec![
        blob("z.rs#chunk1of2", "1"),
        blob("z.rs#chunk2of2", "2"),
        blob("a.rs", "3"),
        blob("b.rs", "4"),
        blob("c.rs", "5"),
        blob("d.rs", "6"),
        blob("e.rs", "7"),
    ];
    let key = "/p".to_string();
    let mut ledger = ProjectsFile::new();
    let mut status = ProjectIndexStatus::new("/p");
    status.mark_indexing();
    status.mark_scanned(blobs.len());
    let plan = plan_update(&blobs, &Vec::new());
    let outcomes = upload_all(&plan, 10);
    let report = finish_update(&mut ledger, &mut status, &key, &plan, 10, &outcomes, 42).unwrap();
    assert!(report.first_success);
    assert_eq!(report.recent_files, vec!["a.rs", "b.rs", "c.rs", "d.rs", "e.rs"]);
    assert_eq!(status.status, IndexStatus::Synced);
    assert_eq!(status.progress, 100);
    assert_eq!(status.total_files, 7);
    assert_eq!(status.indexed_files, 7);
    assert_eq!(status.pending_files, 0);
    assert_eq!(status.last_success_time, Some(42));
    assert_eq!(status.last_error, None);
    assert_eq!(status.recent_indexed_files, vec!["a.rs", "b.rs", "c.rs", "d.rs", "e.rs"]);

    let plan = plan_update(&blobs, &ledger.retained(&key));
    let report = finish_update(&mut ledger, &mut status, &key, &plan, 10, &Vec::new(), 43).unwrap();
    assert!(!report.first_success);
    assert!(report.recent_files.is_empty());
    assert_eq!(status.recent_indexed_files, vec!["a.rs", "b.rs", "c.rs", "d.rs", "e.rs"]);
    assert_eq!(status.last_success_time, Some(43));
}

#[test]
fn large_file_indexes_into_four_chunks_and_leaves_when_deleted() {
    let mut text = String::new();
    for i in 0..2500 {
        text.push_str(&format!("line {}\n", i));
    }
    let mut blobs = split_content("file.ext", &text, 800);
    assert_eq!(blobs.len(), 4);
    let names: Vec<&str> = blobs.iter().map(|b| b.path.as_str()).collect();
    assert_eq!(
        names,
        vec!["file.ext#chunk1of4", "file.ext#chunk2of4", "file.ext#chunk3of4", "file.ext#chunk4of4"]
    );
    let chunk_addresses: Vec<String> = blobs.iter().map(address).collect();
    blobs.push(blob("other.rs", "fn other() {}\n"));

    let key = "/p".to_string();
    let mut ledger = ProjectsFile::new();
    let mut status = ProjectIndexStatus::new("/p");
    let plan = plan_update(&blobs, &ledger.retained(&key));
    let outcomes = upload_all(&plan, 10);
    let report = finish_update(&mut ledger, &mut status, &key, &plan, 10, &outcomes, 1).unwrap();
    assert_eq!(report.blob_names.len(), 5);
    assert_eq!(report.recent_files, vec!["file.ext", "other.rs"]);
    for a in &chunk_addresses {
        assert!(ledger.retained(&key).contains(a));
    }

    let remaining = vec![blob("other.rs", "fn other() {}\n")];
    let plan = plan_update(&remaining, &ledger.retained(&key));
    assert!(plan.new_blobs.is_empty());
    let report = finish_update(&mut ledger, &mut status, &key, &plan, 2, &Vec::new(), 2).unwrap();
    assert_eq!(report.blob_names, vec![address(&remaining[0])]);
    for a in &chunk_addresses {
        assert!(!ledger.retained(&key).contains(a));
    }
    assert_eq!(status.status, IndexStatus::Synced);
}

#[test]
fn update_begins_only_with_a_configuration_in_order() {
    let mut status = ProjectIndexStatus::new("/p");
    status.mark_synced(3, Vec::new(), 5);
    let settings = begin_update(&config(), &mut status).ok().unwrap();
    assert_eq!(settings.base_url, "https://example.com");
    assert_eq!(settings.token, "t");
    assert_eq!(settings.batch_size, 2);
    assert_eq!(settings.max_lines, 800);
    assert_eq!(status.status, IndexStatus::Indexing);
    assert_eq!(status.progress, 0);
    assert_eq!(status.indexed_files, 3);

    let mut status = ProjectIndexStatus::new("/p");
    let mut bad = config();
    bad.token = None;
    assert_eq!(begin_update(&bad, &mut status).err(), Some(IndexError::MissingToken));
    assert_eq!(status.status, IndexStatus::Idle);
}

#[test]
fn scan_without_blobs_fails_the_update() {
    let mut status = ProjectIndexStatus::new("/p");
    status.mark_indexing();
    assert_eq!(record_scan(&mut status, 0, 11), Err(IndexError::NoIndexableFiles));
    assert_eq!(status.status, IndexStatus::Failed);
    assert_eq!(status.last_error, Some("未在项目中找到可索引的文本文件".to_string()));
    assert_eq!(status.last_failure_time, Some(11));

    let mut status = ProjectIndexStatus::new("/p");
    status.mark_indexing();
    assert_eq!(record_scan(&mut status, 4, 11), Ok(()));
    assert_eq!(status.status, IndexStatus::Indexing);
    assert_eq!(status.total_files, 4);
    assert_eq!(status.progress, 20);
}

#[test]
fn uploads_go_batch_after_batch() {
    let blobs = vec![blob("a", "1"), blob("b", "2"), blob("c", "3"), blob("d", "4"), blob("e", "5")];
    let plan = plan_update(&blobs, &Vec::new());
    assert_eq!(next_upload(&plan, 2, 0), Some((0, 2)));
    assert_eq!(next_upload(&plan, 2, 1), Some((2, 4)));
    assert_eq!(next_upload(&plan, 2, 2), Some((4, 5)));
    assert_eq!(next_upload(&plan, 2, 3), None);
    assert_eq!(next_upload(&plan, 2, 9), None);
    assert_eq!(next_upload(&plan, 5, 0), Some((0, 5)));
    assert_eq!(next_upload(&plan, 5, 1), None);
    let nothing = plan_update(&blobs, &blobs.iter().map(address).collect());
    assert_eq!(next_upload(&nothing, 2, 0), None);
}

#[test]
fn ledger_keeps_addresses_whatever_the_service_answers() {
    let blobs = vec![blob("a", "1"), blob("b", "2"), blob("c", "3")];
    let key = "/p".to_string();
    let mut ledger = ProjectsFile::new();
    let mut status = ProjectIndexStatus::new("/p");

    let plan = plan_update(&blobs, &ledger.retained(&key));
    let outcomes = vec![
        BatchOutcome::Uploaded(vec!["x".to_string()]),
        BatchOutcome::Uploaded(vec!["y".to_string(), "z".to_string(), "more".to_string()]),
    ];
    let first = finish_update(&mut ledger, &mut status, &key, &plan, 2, &outcomes, 1).unwrap();
    let expected: Vec<String> = blobs.iter().map(address).collect();
    assert_eq!(first.blob_names, expected);
    assert_eq!(ledger.retained(&key), expected);
    assert!(!ledger.retained(&key).contains(&"x".to_string()));

    let plan = plan_update(&blobs, &ledger.retained(&key));
    assert!(plan.new_blobs.is_empty());
    assert_eq!(next_upload(&plan, 2, 0), None);
    let second = finish_update(&mut ledger, &mut status, &key, &plan, 2, &Vec::new(), 2).unwrap();
    assert_eq!(second.blob_names, expected);
    assert_eq!(ledger.retained(&key), expected);
}

#[test]
fn outcomes_beyond_the_batches_retain_nothing_more() {
    let blobs = vec![blob("a", "1"), blob("b", "2"), blob("c", "3")];
    let key = "/p".to_string();
    let mut ledger = ProjectsFile::new();
    let mut status = ProjectIndexStatus::new("/p");
    let plan = plan_update(&blobs, &Vec::new());
    let outcomes = vec![
        BatchOutcome::Failed("timeout".to_string()),
        BatchOutcome::Uploaded(vec!["n".to_string()]),
        BatchOutcome::Uploaded(vec!["n".to_string()]),
    ];
    let report = finish_update(&mut ledger, &mut status, &key, &plan, 2, &outcomes, 1).unwrap();
    assert_eq!(report.blob_names, vec![address(&blobs[2])]);
    assert_eq!(report.failed_batches, vec![1]);

    let report = finish_update(&mut ledger, &mut status, &key, &plan, 0, &outcomes, 1);
    assert_eq!(report.err(), Some(IndexError::NoBlobsAfterIndexing));
}

#[test]
fn update_of_a_missing_root_fails_with_a_reason() {
    let mut status = ProjectIndexStatus::new("/gone");
    status.mark_indexing();
    let e = record_missing_root(&mut status, "/gone", 77);
    assert_eq!(e, IndexError::RootNotFound);
    assert_eq!(e.message(), "项目根目录不存在");
    assert_eq!(status.status, IndexStatus::Failed);
    assert_eq!(status.last_error, Some("项目根目录不存在: /gone".to_string()));
    assert_eq!(status.last_failure_time, Some(77));
    assert_eq!(status.last_success_time, None);
}
