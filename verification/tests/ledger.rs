use acemcp_index::ledger::ProjectsFile;

fn strings(items: &[&str]) -> Vec<String> {
    items.iter().map(|s| s.to_string()).collect()
}

#[test]
fn ledger_keeps_the_addresses_of_each_project() {
    let mut ledger = ProjectsFile::new();
    assert!(ledger.retained(&"/p".to_string()).is_empty());
    ledger.insert("/p".to_string(), strings(&["a", "b"]));
    ledger.insert("/q".to_string(), strings(&["c"]));
    assert_eq!(ledger.retained(&"/p".to_string()), strings(&["a", "b"]));
    assert_eq!(ledger.retained(&"/q".to_string()), strings(&["c"]));
    assert!(ledger.retained(&"/r".to_string()).is_empty());
    assert_eq!(ledger.records.len(), 2);
}

#[test]
fn insert_replaces_what_was_on_record() {
    let mut ledger = ProjectsFile::new();
    ledger.insert("/p".to_string(), strings(&["a", "b"]));
    ledger.insert("/p".to_string(), strings(&["c"]));
    assert_eq!(ledger.retained(&"/p".to_string()), strings(&["c"]));
    assert_eq!(ledger.records.len(), 1);
    ledger.insert("/p".to_string(), Vec::new());
    assert!(ledger.retained(&"/p".to_string()).is_empty());
    assert_eq!(ledger.find(&"/p".to_string()), Some(0));
}

#[test]
fn records_leave_by_position() {
    let mut ledger = ProjectsFile::new();
    ledger.insert("/p".to_string(), strings(&["a"]));
    ledger.insert("/q".to_string(), strings(&["b"]));
    let out = ledger.remove_at(0);
    assert_eq!(out.project_key, "/p");
    assert_eq!(out.blob_names, strings(&["a"]));
    assert_eq!(ledger.find(&"/p".to_string()), None);
    assert_eq!(ledger.retained(&"/q".to_string()), strings(&["b"]));
}

#[test]
fn keys_are_found_by_their_normalized_spelling() {
    let mut ledger = ProjectsFile::new();
    ledger.insert("//?/C:/work/app".to_string(), strings(&["a"]));
    ledger.insert("C:\\work\\lib".to_string(), strings(&["b"]));
    assert_eq!(ledger.find_normalized(&"C:/work/app".to_string()), Some(0));
    assert_eq!(ledger.find_normalized(&"C:/work/lib".to_string()), Some(1));
    assert_eq!(ledger.find_normalized(&"C:/work/none".to_string()), None);
    assert_eq!(ledger.find(&"C:/work/app".to_string()), None);
}
