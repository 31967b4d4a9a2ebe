use acemcp_index::watcher::{
    owner_of, reindex_targets, route_changes, NestedProject, WatchSession, WatchStart,
    WatcherManager, DEFAULT_DEBOUNCE_MS,
};

fn nested(rel: &str, abs: &str) -> NestedProject {
    NestedProject { relative_path: rel.to_string(), absolute_path: abs.to_string() }
}

fn strings(items: &[&str]) -> Vec<String> {
    items.iter().map(|s| s.to_string()).collect()
}

#[test]
fn changes_under_one_nested_project_reach_only_that_project() {
    let table = vec![nested("a", "/parent/a"), nested("b", "/parent/b")];
    let changed = strings(&["/parent/a/src/lib.rs", "/parent/a/README.md", "/parent/a"]);
    assert_eq!(route_changes(&table, &changed), strings(&["/parent/a"]));
}

#[test]
fn changes_outside_every_nested_project_are_dropped() {
    let table = vec![nested("a", "/parent/a"), nested("b", "/parent/b")];
    let changed = strings(&["/parent/notes.txt", "/parent/ab/x.rs", "/elsewhere/a/x.rs"]);
    assert!(route_changes(&table, &changed).is_empty());
    assert!(route_changes(&table, &Vec::new()).is_empty());
    assert!(route_changes(&Vec::new(), &strings(&["/parent/a/x"])).is_empty());
}

#[test]
fn each_affected_project_is_named_once() {
    let table = vec![nested("a", "/parent/a"), nested("b", "/parent/b")];
    let changed = strings(&["/parent/b/1", "/parent/a/2", "/parent/b/3", "/parent/x", "/parent/a/4"]);
    assert_eq!(route_changes(&table, &changed), strings(&["/parent/b", "/parent/a"]));
}

#[test]
fn the_longest_root_owns_the_path() {
    let table = vec![nested("a", "/w/a"), nested("a/deep", "/w/a/deep"), nested("b", "/w/b")];
    assert_eq!(owner_of(&table, "/w/a/deep/x.rs"), Some(1));
    assert_eq!(owner_of(&table, "/w/a/other/x.rs"), Some(0));
    assert_eq!(owner_of(&table, "/w/a/deeper/x.rs"), Some(0));
    assert_eq!(owner_of(&table, "/w/b"), Some(2));
    assert_eq!(owner_of(&table, "/w/c/x.rs"), None);
    assert_eq!(route_changes(&table, &strings(&["/w/a/deep/x.rs"])), strings(&["/w/a/deep"]));
}

#[test]
fn a_project_is_watched_at_most_once() {
    let mut m = WatcherManager::new();
    assert!(m.is_auto_index_enabled());
    assert!(!m.is_watching("/p"));
    assert_eq!(m.start_watching("/p".to_string(), None, Vec::new()), WatchStart::Started);
    assert!(m.is_watching("/p"));
    assert_eq!(m.sessions[0].debounce_ms, DEFAULT_DEBOUNCE_MS);
    assert_eq!(DEFAULT_DEBOUNCE_MS, 180_000);
    assert_eq!(
        m.start_watching("/p".to_string(), Some(5), Vec::new()),
        WatchStart::AlreadyWatching
    );
    assert_eq!(m.sessions.len(), 1);
    assert_eq!(m.sessions[0].debounce_ms, DEFAULT_DEBOUNCE_MS);
    assert_eq!(
        m.start_watching("/q".to_string(), Some(1500), vec![nested("a", "/q/a")]),
        WatchStart::Started
    );
    assert_eq!(m.sessions[1].debounce_ms, 1500);
    assert_eq!(m.sessions[1].nested.len(), 1);
    assert_eq!(m.get_watching_projects(), strings(&["/p", "/q"]));
}

#[test]
fn the_switch_gates_new_watches_only() {
    let mut m = WatcherManager::new();
    assert_eq!(m.start_watching("/p".to_string(), None, Vec::new()), WatchStart::Started);
    m.set_auto_index_enabled(false);
    assert!(!m.is_auto_index_enabled());
    assert!(m.is_watching("/p"));
    assert_eq!(m.start_watching("/q".to_string(), None, Vec::new()), WatchStart::Disabled);
    assert!(!m.is_watching("/q"));
    assert_eq!(m.start_watching("/p".to_string(), None, Vec::new()), WatchStart::Disabled);
    m.set_auto_index_enabled(true);
    assert_eq!(m.start_watching("/q".to_string(), None, Vec::new()), WatchStart::Started);
}

#[test]
fn watches_stop_one_by_one_or_all_at_once() {
    let mut m = WatcherManager::new();
    m.start_watching("/p".to_string(), None, Vec::new());
    m.start_watching("/q".to_string(), None, Vec::new());
    m.start_watching("/r".to_string(), None, Vec::new());
    assert!(m.stop_watching("/q"));
    assert!(!m.stop_watching("/q"));
    assert!(!m.stop_watching("/never"));
    assert_eq!(m.get_watching_projects(), strings(&["/p", "/r"]));
    assert_eq!(m.stop_all(), 2);
    assert!(m.get_watching_projects().is_empty());
    assert_eq!(m.stop_all(), 0);
    assert!(m.is_auto_index_enabled());
}

#[test]
fn a_project_without_nested_projects_is_indexed_itself() {
    let plain = WatchSession { project_key: "/p".to_string(), debounce_ms: 1, nested: Vec::new() };
    assert_eq!(reindex_targets(&plain, &strings(&["/p/a.rs", "/p/b.rs"])), strings(&["/p"]));
    assert!(reindex_targets(&plain, &Vec::new()).is_empty());
}

#[test]
fn a_parent_of_nested_projects_is_never_indexed() {
    let parent = WatchSession {
        project_key: "/parent".to_string(),
        debounce_ms: 1,
        nested: vec![nested("a", "/parent/a"), nested("b", "/parent/b")],
    };
    assert_eq!(
        reindex_targets(&parent, &strings(&["/parent/a/x.rs", "/parent/top.rs"])),
        strings(&["/parent/a"])
    );
    assert!(reindex_targets(&parent, &strings(&["/parent/top.rs"])).is_empty());
}

#[test]
fn sessions_that_are_not_named_stay_as_they_are() {
    let mut m = WatcherManager::new();
    m.start_watching("/p".to_string(), Some(10), vec![nested("a", "/p/a")]);
    m.start_watching("/q".to_string(), Some(20), Vec::new());
    m.start_watching("/r".to_string(), None, vec![nested("x", "/r/x")]);
    assert_eq!(m.start_watching("/p".to_string(), Some(0), Vec::new()), WatchStart::AlreadyWatching);
    assert_eq!(m.sessions[0].debounce_ms, 10);
    assert_eq!(m.sessions[0].nested.len(), 1);
    assert!(m.stop_watching("/q"));
    assert_eq!(m.sessions.len(), 2);
    assert_eq!(m.sessions[0].project_key, "/p");
    assert_eq!(m.sessions[0].debounce_ms, 10);
    assert_eq!(m.sessions[0].nested[0].absolute_path, "/p/a");
    assert_eq!(m.sessions[1].project_key, "/r");
    assert_eq!(m.sessions[1].debounce_ms, DEFAULT_DEBOUNCE_MS);
    assert_eq!(m.sessions[1].nested[0].relative_path, "x");
}
