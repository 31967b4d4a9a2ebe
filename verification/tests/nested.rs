use acemcp_index::acemcp::AcemcpTool;
use acemcp_index::nested::{
    classify_child, default_nested_excludes, nested_routes, ChildEntry, ChildKind,
};
use acemcp_index::scanner::build_exclude_globset;
use acemcp_index::status::{IndexStatus, ProjectIndexStatus, ProjectsIndexStatus};

fn child(name: &str, is_dir: bool, has_git_dir: bool) -> ChildEntry {
    ChildEntry {
        name: name.to_string(),
        path: format!("/root\\{}", name),
        is_dir,
        has_git_dir,
    }
}

#[test]
fn children_are_nested_regular_or_skipped() {
    let set = build_exclude_globset(&default_nested_excludes());
    assert_eq!(classify_child(&child("api", true, true), &set), ChildKind::Nested);
    assert_eq!(classify_child(&child("docs", true, false), &set), ChildKind::Regular);
    assert_eq!(classify_child(&child("README.md", false, false), &set), ChildKind::Skipped);
    assert_eq!(classify_child(&child(".github", true, false), &set), ChildKind::Skipped);
    assert_eq!(classify_child(&child(".hidden", true, true), &set), ChildKind::Skipped);
    assert_eq!(classify_child(&child("node_modules", true, false), &set), ChildKind::Skipped);
    assert_eq!(classify_child(&child("target", true, true), &set), ChildKind::Skipped);
    assert_eq!(classify_child(&child("target", true, true), &None), ChildKind::Nested);
}

#[test]
fn default_excludes_are_the_usual_four() {
    assert_eq!(default_nested_excludes(), vec!["node_modules", ".git", "target", "dist"]);
}

#[test]
fn nested_projects_and_directories_come_sorted() {
    let mut statuses = ProjectsIndexStatus::new();
    let mut s = ProjectIndexStatus::new("/root/web");
    s.mark_indexing();
    s.mark_scanned(7);
    s.mark_synced(7, Vec::new(), 1);
    statuses.set_project_status(s);
    let mut idle = ProjectIndexStatus::new("/root/api");
    idle.total_files = 5;
    statuses.set_project_status(idle);

    let children = vec![
        child("web", true, true),
        child("zeta", true, false),
        child("notes.txt", false, false),
        child("api", true, true),
        child("dist", true, true),
        child(".cache", true, false),
        child("alpha", true, false),
        child("cli", true, true),
    ];
    let set = build_exclude_globset(&default_nested_excludes());
    let out = AcemcpTool::get_project_with_nested_status(
        ProjectIndexStatus::new("/root"),
        &children,
        &set,
        &statuses,
    );
    assert_eq!(out.root_status.project_root, "/root");
    assert_eq!(out.regular_directories, vec!["alpha", "zeta"]);
    let names: Vec<&str> = out.nested_projects.iter().map(|n| n.relative_path.as_str()).collect();
    assert_eq!(names, vec!["api", "cli", "web"]);

    let api = &out.nested_projects[0];
    assert_eq!(api.absolute_path, "/root/api");
    assert!(api.is_git_repo);
    assert_eq!(api.index_status.as_ref().unwrap().status, IndexStatus::Idle);
    assert_eq!(api.file_count, 0);

    let cli = &out.nested_projects[1];
    assert_eq!(cli.absolute_path, "/root/cli");
    assert_eq!(cli.index_status.as_ref().unwrap().project_root, "/root/cli");
    assert_eq!(cli.file_count, 0);

    let web = &out.nested_projects[2];
    assert_eq!(web.index_status.as_ref().unwrap().status, IndexStatus::Synced);
    assert_eq!(web.file_count, 7);

    let routes = nested_routes(&out);
    assert_eq!(routes.len(), 3);
    assert_eq!(routes[2].relative_path, "web");
    assert_eq!(routes[2].absolute_path, "/root/web");
}

#[test]
fn root_without_children_has_no_nested_projects() {
    let out = AcemcpTool::get_project_with_nested_status(
        ProjectIndexStatus::new("/root"),
        &Vec::new(),
        &None,
        &ProjectsIndexStatus::new(),
    );
    assert!(out.nested_projects.is_empty());
    assert!(out.regular_directories.is_empty());
}
