use acemcp_index::status::{IndexStatus, ProjectIndexStatus, ProjectsIndexStatus};

#[test]
fn new_project_is_idle() {
    let s = ProjectIndexStatus::new("/p");
    assert_eq!(s.project_root, "/p");
    assert_eq!(s.status, IndexStatus::Idle);
    assert_eq!(s.progress, 0);
    assert_eq!(s.total_files, 0);
    assert_eq!(s.indexed_files, 0);
    assert_eq!(s.pending_files, 0);
    assert_eq!(s.failed_files, 0);
    assert_eq!(s.last_success_time, None);
    assert_eq!(s.last_failure_time, None);
    assert_eq!(s.last_error, None);
    assert!(s.recent_indexed_files.is_empty());
    let d = ProjectIndexStatus::default();
    assert_eq!(d.project_root, "");
    assert_eq!(d.status, IndexStatus::Idle);
}

#[test]
fn status_walks_from_indexing_to_synced_or_failed() {
    let mut s = ProjectIndexStatus::new("/p");
    s.mark_indexing();
    assert_eq!(s.status, IndexStatus::Indexing);
    s.mark_scanned(12);
    assert_eq!(s.total_files, 12);
    assert_eq!(s.progress, 20);
    s.mark_synced(12, vec!["a.rs".to_string()], 100);
    assert_eq!(s.status, IndexStatus::Synced);
    assert_eq!(s.progress, 100);
    assert_eq!(s.indexed_files, 12);
    assert_eq!(s.last_success_time, Some(100));
    assert_eq!(s.recent_indexed_files, vec!["a.rs"]);

    s.mark_indexing();
    assert_eq!(s.status, IndexStatus::Indexing);
    assert_eq!(s.progress, 0);
    assert_eq!(s.last_success_time, Some(100));
    s.mark_failed("network down", 200);
    assert_eq!(s.status, IndexStatus::Failed);
    assert_eq!(s.last_error, Some("network down".to_string()));
    assert_eq!(s.last_failure_time, Some(200));
    assert_eq!(s.last_success_time, Some(100));
    assert_eq!(s.recent_indexed_files, vec!["a.rs"]);

    s.mark_indexing();
    s.mark_synced(12, Vec::new(), 300);
    assert_eq!(s.last_error, None);
    assert_eq!(s.last_failure_time, Some(200));
    assert_eq!(s.recent_indexed_files, vec!["a.rs"]);
}

#[test]
fn table_keeps_one_record_for_each_project() {
    let mut all = ProjectsIndexStatus::new();
    assert!(all.projects.is_empty());
    let missing = all.get_project_status(&"/p".to_string());
    assert_eq!(missing.project_root, "/p");
    assert_eq!(missing.status, IndexStatus::Idle);

    let mut s = ProjectIndexStatus::new("/p");
    s.mark_indexing();
    all.set_project_status(s);
    all.set_project_status(ProjectIndexStatus::new("/q"));
    assert_eq!(all.projects.len(), 2);
    assert_eq!(all.get_project_status(&"/p".to_string()).status, IndexStatus::Indexing);

    let mut s = all.get_project_status(&"/p".to_string());
    s.mark_failed("e", 1);
    all.set_project_status(s);
    assert_eq!(all.projects.len(), 2);
    assert_eq!(all.get_project_status(&"/p".to_string()).status, IndexStatus::Failed);
    assert_eq!(all.get_project_status(&"/q".to_string()).status, IndexStatus::Idle);
    assert_eq!(all.find(&"/q".to_string()), Some(1));
    assert_eq!(all.find(&"/r".to_string()), None);

    let removed = all.remove_at(0);
    assert_eq!(removed.project_root, "/p");
    assert_eq!(all.find(&"/p".to_string()), None);
    assert_eq!(all.find(&"/q".to_string()), Some(0));
}

#[test]
fn records_are_found_by_their_normalized_root() {
    let mut all = ProjectsIndexStatus::new();
    all.set_project_status(ProjectIndexStatus::new("\\\\?\\C:\\work\\app"));
    all.set_project_status(ProjectIndexStatus::new("C:/work/other"));
    assert_eq!(all.find_normalized(&"C:/work/app".to_string()), Some(0));
    assert_eq!(all.find_normalized(&"C:/work/other".to_string()), Some(1));
    assert_eq!(all.find_normalized(&"C:/work".to_string()), None);
}

#[test]
fn copy_of_a_record_is_equal() {
    let mut s = ProjectIndexStatus::new("/p");
    s.mark_indexing();
    s.mark_failed("why", 3);
    s.recent_indexed_files = vec!["x".to_string()];
    let c = s.duplicate();
    assert_eq!(c.project_root, s.project_root);
    assert_eq!(c.status, s.status);
    assert_eq!(c.last_error, s.last_error);
    assert_eq!(c.last_failure_time, s.last_failure_time);
    assert_eq!(c.recent_indexed_files, s.recent_indexed_files);
}
