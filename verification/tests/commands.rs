use acemcp_index::commands::{
    failed_batches_text, file_index_status, update_report, nested_update_summary, purge_index_record, purge_message,
    update_failure, update_summary, update_targets, write_index_memory_to_ji,
    FileIndexStatusKind, UpdateTargets,
};
use acemcp_index::config::AcemcpConfig;
use acemcp_index::hasher::sha256_hex;
use acemcp_index::ledger::ProjectsFile;
use acemcp_index::nested::NestedProjectInfo;
use acemcp_index::status::{ProjectIndexStatus, ProjectsIndexStatus};
use acemcp_index::watcher::WatcherManager;

fn config() -> AcemcpConfig {
    AcemcpConfig {
        base_url: None,
        token: None,
        batch_size: None,
        max_lines_per_blob: None,
        text_extensions: None,
        exclude_patterns: None,
        smart_wait_range: None,
        proxy_enabled: None,
        proxy_host: None,
        proxy_port: None,
        proxy_type: None,
        proxy_username: None,
        proxy_password: None,
    }
}

fn info(rel: &str, abs: &str) -> NestedProjectInfo {
    NestedProjectInfo {
        relative_path: rel.to_string(),
        absolute_path: abs.to_string(),
        is_git_repo: true,
        index_status: None,
        file_count: 0,
    }
}

#[test]
fn file_is_indexed_when_every_blob_is_retained() {
    let content = "a\nb\nc\n";
    let retained = vec![
        sha256_hex("f.rs#chunk1of2", "a\nb\n"),
        sha256_hex("f.rs#chunk2of2", "c\n"),
    ];
    let s = file_index_status("f.rs", Some(content), 2, &retained);
    assert_eq!(s.path, "f.rs");
    assert_eq!(s.status, FileIndexStatusKind::Indexed);

    let partly = vec![sha256_hex("f.rs#chunk1of2", "a\nb\n")];
    assert_eq!(
        file_index_status("f.rs", Some(content), 2, &partly).status,
        FileIndexStatusKind::Pending
    );
    assert_eq!(
        file_index_status("f.rs", Some(content), 2, &Vec::new()).status,
        FileIndexStatusKind::Pending
    );
    let whole = vec![sha256_hex("f.rs", content)];
    assert_eq!(
        file_index_status("f.rs", Some(content), 800, &whole).status,
        FileIndexStatusKind::Indexed
    );
    assert_eq!(
        file_index_status("g.rs", Some(content), 800, &whole).status,
        FileIndexStatusKind::Pending
    );
}

#[test]
fn file_that_cannot_be_read_is_pending() {
    let s = file_index_status("f.rs", None, 800, &vec!["x".to_string()]);
    assert_eq!(s.path, "f.rs");
    assert_eq!(s.status, FileIndexStatusKind::Pending);
}

#[test]
fn update_reaches_the_nested_projects_instead_of_the_parent() {
    let nested = vec![info("a", "/p/a"), info("b", "/p/b")];
    match update_targets("/p", &nested, true) {
        UpdateTargets::Nested(routes) => {
            assert_eq!(routes.len(), 2);
            assert_eq!(routes[0].relative_path, "a");
            assert_eq!(routes[0].absolute_path, "/p/a");
            assert_eq!(routes[1].relative_path, "b");
            assert_eq!(routes[1].absolute_path, "/p/b");
        }
        UpdateTargets::Project(_) => panic!("the nested projects are to be indexed"),
    }
    match update_targets("/p", &nested, false) {
        UpdateTargets::Project(root) => assert_eq!(root, "/p"),
        UpdateTargets::Nested(_) => panic!("nested indexing is switched off"),
    }
    match update_targets("/p", &Vec::new(), true) {
        UpdateTargets::Project(root) => assert_eq!(root, "/p"),
        UpdateTargets::Nested(_) => panic!("there are no nested projects"),
    }
}

#[test]
fn summaries_count_what_was_done() {
    assert_eq!(update_summary(12), "索引更新成功，共 12 个 blobs");
    assert_eq!(update_summary(0), "索引更新成功，共 0 个 blobs");
    assert_eq!(update_failure("未配置 token"), "索引更新失败: 未配置 token");
    let ok = vec![("a".to_string(), 3usize), ("b".to_string(), 10usize)];
    assert_eq!(
        nested_update_summary(&ok, &Vec::new()),
        "索引更新成功，共 2 个子项目: [(\"a\", 3), (\"b\", 10)]"
    );
    let bad = vec![("c".to_string(), "timeout".to_string())];
    assert_eq!(
        nested_update_summary(&ok, &bad),
        "索引更新部分成功: 成功 2 个，失败 1 个。成功: [(\"a\", 3), (\"b\", 10)]，失败: [(\"c\", \"timeout\")]"
    );
}

#[test]
fn first_success_note_sums_up_the_configuration() {
    assert_eq!(
        write_index_memory_to_ji(&config()),
        "acemcp 代码索引已启用 - 配置摘要: 文件扩展名=[], 排除模式=[], 批次大小=10, 最大行数/块=800"
    );
    let mut c = config();
    c.text_extensions = Some(vec![".rs".to_string(), ".md".to_string()]);
    c.exclude_patterns = Some(vec!["target".to_string()]);
    c.batch_size = Some(25);
    c.max_lines_per_blob = Some(400);
    assert_eq!(
        write_index_memory_to_ji(&c),
        "acemcp 代码索引已启用 - 配置摘要: 文件扩展名=[\".rs\", \".md\"], 排除模式=[\"target\"], 批次大小=25, 最大行数/块=400"
    );
}

#[test]
fn purge_removes_ledger_and_status_records() {
    let mut ledger = ProjectsFile::new();
    ledger.insert("//?/C:/work/app".to_string(), vec!["a".to_string()]);
    ledger.insert("C:/work/lib".to_string(), vec!["b".to_string()]);
    let mut statuses = ProjectsIndexStatus::new();
    statuses.set_project_status(ProjectIndexStatus::new("C:/work/app"));
    let mut watcher = WatcherManager::new();
    watcher.start_watching("C:/work/app".to_string(), None, Vec::new());

    let report =
        purge_index_record(&mut ledger, &mut statuses, &mut watcher, "C:\\work\\app", true);
    assert_eq!(report.normalized_root, "C:/work/app");
    assert!(report.projects_deleted);
    assert!(report.status_deleted);
    assert!(report.watch_stopped);
    assert_eq!(ledger.records.len(), 1);
    assert_eq!(ledger.records[0].project_key, "C:/work/lib");
    assert!(statuses.projects.is_empty());
    assert!(!watcher.is_watching("C:/work/app"));
    assert_eq!(purge_message(&report), "已删除项目索引记录: C:/work/app");

    let again =
        purge_index_record(&mut ledger, &mut statuses, &mut watcher, "C:\\work\\app", true);
    assert!(!again.projects_deleted);
    assert!(!again.status_deleted);
    assert!(!again.watch_stopped);
    assert_eq!(ledger.records.len(), 1);
    assert_eq!(purge_message(&again), "项目索引记录可能已不存在: C:/work/app");
}

#[test]
fn purge_may_leave_the_watch_running() {
    let mut ledger = ProjectsFile::new();
    ledger.insert("/p".to_string(), vec!["a".to_string()]);
    let mut statuses = ProjectsIndexStatus::new();
    let mut watcher = WatcherManager::new();
    watcher.start_watching("/p".to_string(), None, Vec::new());
    let report = purge_index_record(&mut ledger, &mut statuses, &mut watcher, "/p", false);
    assert!(report.projects_deleted);
    assert!(!report.status_deleted);
    assert!(!report.watch_stopped);
    assert!(watcher.is_watching("/p"));
    assert_eq!(purge_message(&report), "已删除项目索引记录: /p");
}

#[test]
fn report_names_the_batches_that_failed() {
    assert_eq!(update_report(12, &Vec::new()), "索引更新成功，共 12 个 blobs");
    assert_eq!(update_report(7, &vec![2]), "索引更新部分成功，共 7 个 blobs，失败的批次: 2");
    assert_eq!(
        update_report(7, &vec![2, 5, 11]),
        "索引更新部分成功，共 7 个 blobs，失败的批次: 2, 5, 11"
    );
    assert_eq!(failed_batches_text(&vec![3]), "失败的批次: 3");
    assert_eq!(failed_batches_text(&vec![1, 2]), "失败的批次: 1, 2");
    assert_eq!(failed_batches_text(&Vec::new()), "失败的批次: ");
}
