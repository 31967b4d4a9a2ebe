use acemcp_index::scanner::{
    build_exclude_globset, built_exclude_set, classify_entry, decode_with_fallback,
    extension_allowed, should_exclude, EntryAction,
};
use acemcp_index::vcs::{build_gitignore, built_matcher, rule_lines, vcs_ignored};
use globset::{Glob, GlobSetBuilder};
use ignore::gitignore::GitignoreBuilder;

fn strings(items: &[&str]) -> Vec<String> {
    items.iter().map(|s| s.to_string()).collect()
}

#[test]
fn nothing_is_excluded_without_patterns() {
    assert!(!should_exclude("node_modules/a.js", &None));
    let empty = build_exclude_globset(&Vec::new());
    assert!(!should_exclude("node_modules/a.js", &empty));
}

#[test]
fn a_segment_that_matches_excludes_the_path() {
    let set = build_exclude_globset(&strings(&["node_modules", "target"]));
    assert!(set.is_some());
    assert!(should_exclude("node_modules", &set));
    assert!(should_exclude("web/node_modules/pkg/index.js", &set));
    assert!(should_exclude("crates\\core\\target\\debug", &set));
    assert!(!should_exclude("src/targets/a.rs", &set));
    assert!(!should_exclude("src/main.rs", &set));
    assert!(!should_exclude("", &set));
}

#[test]
fn the_whole_relative_path_is_matched_too() {
    let set = build_exclude_globset(&strings(&["docs/private/*.md", "*.log"]));
    assert!(should_exclude("docs/private/plan.md", &set));
    assert!(should_exclude("docs\\private\\plan.md", &set));
    assert!(!should_exclude("docs/public/plan.md", &set));
    assert!(should_exclude("logs/app.log", &set));
    assert!(!should_exclude("logs/app.txt", &set));
}

#[test]
fn a_pattern_that_does_not_parse_is_left_out() {
    let set = build_exclude_globset(&strings(&["[", "dist"]));
    assert!(set.is_some());
    assert!(should_exclude("web/dist/app.js", &set));
    assert!(!should_exclude("web/src/app.js", &set));
}

#[test]
fn extension_is_compared_without_case() {
    let exts = strings(&[".rs", ".MD", ".tar.gz", ".gz"]);
    assert!(extension_allowed("main.rs", &exts));
    assert!(extension_allowed("MAIN.RS", &exts));
    assert!(extension_allowed("readme.md", &exts));
    assert!(extension_allowed("a.tar.gz", &exts));
    assert!(!extension_allowed("main.py", &exts));
    assert!(!extension_allowed("Makefile", &exts));
    assert!(!extension_allowed(".rs", &exts));
    assert!(!extension_allowed("rs", &exts));
    assert!(!extension_allowed("main.", &exts));
    assert!(!extension_allowed("", &exts));
    assert!(extension_allowed(".hidden.rs", &exts));
    assert!(!extension_allowed("main.rs", &Vec::new()));
}

#[test]
fn entries_are_skipped_descended_or_read() {
    let set = build_exclude_globset(&strings(&["node_modules"]));
    let exts = strings(&[".rs"]);
    let rules = build_gitignore("/project", "generated/\n*.tmp.rs\n");
    assert!(rules.is_some());
    assert_eq!(classify_entry("src", "src", true, &rules, &set, &exts), EntryAction::Descend);
    assert_eq!(
        classify_entry("generated", "generated", true, &rules, &set, &exts),
        EntryAction::Skip
    );
    assert_eq!(
        classify_entry("node_modules", "node_modules", true, &rules, &set, &exts),
        EntryAction::Skip
    );
    assert_eq!(classify_entry("src/a.rs", "a.rs", false, &rules, &set, &exts), EntryAction::Read);
    assert_eq!(
        classify_entry("src/a.tmp.rs", "a.tmp.rs", false, &rules, &set, &exts),
        EntryAction::Skip
    );
    assert_eq!(
        classify_entry("generated/a.rs", "a.rs", false, &rules, &set, &exts),
        EntryAction::Skip
    );
    assert_eq!(
        classify_entry("src/a.tmp.rs", "a.tmp.rs", false, &None, &set, &exts),
        EntryAction::Read
    );
    assert_eq!(classify_entry("src/a.py", "a.py", false, &rules, &set, &exts), EntryAction::Skip);
    assert_eq!(
        classify_entry("node_modules/a.rs", "a.rs", false, &rules, &set, &exts),
        EntryAction::Skip
    );
    assert_eq!(classify_entry("dir.rs", "dir.rs", true, &None, &None, &exts), EntryAction::Descend);
}

#[test]
fn ignore_rules_are_the_lines_of_the_file() {
    assert_eq!(rule_lines("a\nb\r\n\nc"), vec!["a", "b", "", "c"]);
    assert_eq!(rule_lines("a\n"), vec!["a"]);
    assert_eq!(rule_lines("\u{feff}\u{feff}target\n\u{feff}x\n"), vec!["target", "\u{feff}x"]);
    assert_eq!(rule_lines("a\r"), vec!["a\r"]);
    assert_eq!(rule_lines("\n"), vec![""]);
    assert!(rule_lines("").is_empty());
}

#[test]
fn ignore_rules_match_entries_and_their_parents() {
    let rules = build_gitignore("/project", "# build output\ntarget/\n*.log\n!keep.log\n/top.txt\n");
    assert!(rules.is_some());
    assert!(vcs_ignored(&rules, "target", true));
    assert!(!vcs_ignored(&rules, "target", false));
    assert!(vcs_ignored(&rules, "target/debug/app", false));
    assert!(vcs_ignored(&rules, "crates\\core\\target\\x.rs", false));
    assert!(vcs_ignored(&rules, "logs/app.log", false));
    assert!(!vcs_ignored(&rules, "logs/keep.log", false));
    assert!(vcs_ignored(&rules, "top.txt", false));
    assert!(!vcs_ignored(&rules, "sub/top.txt", false));
    assert!(!vcs_ignored(&rules, "src/main.rs", false));
    assert!(!vcs_ignored(&rules, "/target", true));
    assert!(!vcs_ignored(&None, "target", true));
}

#[test]
fn ignore_file_without_rules_ignores_nothing() {
    let rules = build_gitignore("/project", "");
    assert!(rules.is_some());
    assert!(!vcs_ignored(&rules, "anything", false));
    let comments = build_gitignore("/project", "# nothing here\n\n");
    assert!(!vcs_ignored(&comments, "anything", true));
}

#[test]
fn utf8_bytes_are_read_as_utf8() {
    assert_eq!(decode_with_fallback(&"héllo 中文\n".as_bytes().to_vec()), "héllo 中文\n");
    assert_eq!(decode_with_fallback(&Vec::new()), "");
    assert_eq!(decode_with_fallback(&vec![0xEF, 0xBB, 0xBF, b'a']), "a");
}

#[test]
fn gbk_bytes_are_read_as_gbk() {
    assert_eq!(decode_with_fallback(&vec![0xD6, 0xD0, 0xCE, 0xC4]), "中文");
}

#[test]
fn other_bytes_are_read_as_windows_1252() {
    assert_eq!(decode_with_fallback(&vec![b'c', b'a', b'f', 0xE9]), "café");
    assert_eq!(decode_with_fallback(&vec![0x80]), "€");
}

#[test]
fn a_built_set_is_used_and_a_failed_build_excludes_nothing() {
    let mut builder = GlobSetBuilder::new();
    builder.add(Glob::new("target").unwrap());
    let set = built_exclude_set(builder.build());
    assert!(set.is_some());
    assert!(should_exclude("crates/target/debug", &set));
    assert!(!should_exclude("crates/src", &set));

    let error = Glob::new("[z-a]").unwrap_err();
    let none = built_exclude_set(Err(error));
    assert!(none.is_none());
    assert!(!should_exclude("crates/target/debug", &none));
}

#[test]
fn a_built_matcher_is_used_and_a_failed_build_ignores_nothing() {
    let mut builder = GitignoreBuilder::new("/project");
    assert!(builder.add_line(None, "*.log").is_ok());
    let rules = built_matcher(builder.build());
    assert!(rules.is_some());
    assert!(vcs_ignored(&rules, "logs/app.log", false));
    assert!(!vcs_ignored(&rules, "logs/app.txt", false));

    let error = ignore::Error::Glob { glob: None, err: "too large".to_string() };
    let none = built_matcher(Err(error));
    assert!(none.is_none());
    assert!(!vcs_ignored(&none, "logs/app.log", false));
}

#[test]
fn ignore_file_with_a_line_that_does_not_parse_gives_no_rules() {
    let mut builder = GitignoreBuilder::new("/project");
    let bad = ["a[z-a]", "{a,b", "**[", "[!]"]
        .into_iter()
        .find(|line| builder.add_line(None, line).is_err());
    if let Some(line) = bad {
        let text = format!("*.log\n{}\n", line);
        assert!(build_gitignore("/project", &text).is_none());
    }
    assert!(build_gitignore("/project", "*.log\n  \n# note\ntarget/  \n").is_some());
}

#[test]
fn ignore_rules_do_not_depend_on_comments_and_trailing_space() {
    let plain = build_gitignore("/project", "target/\n*.log\n");
    let noisy = build_gitignore("/project", "# output\ntarget/   \n\n*.log\t\n#end");
    for (rel, is_dir) in [("target", true), ("a/b.log", false), ("src/x.rs", false), ("target", false)] {
        assert_eq!(vcs_ignored(&plain, rel, is_dir), vcs_ignored(&noisy, rel, is_dir));
    }
}

#[test]
fn the_verdict_is_that_of_the_matcher_at_its_root() {
    let rules = "/a\n";
    let bare = build_gitignore("", rules);
    let rooted = build_gitignore("/p", rules);
    assert!(vcs_ignored(&bare, "a", false));
    assert!(vcs_ignored(&rooted, "a", false));
    assert!(vcs_ignored(&bare, "./a", false));
    assert!(!vcs_ignored(&rooted, "./a", false));
    assert!(!vcs_ignored(&rooted, "b/a", false));
}
