//! Nested projects: the immediate children of a project root that are
//! repositories of their own.
//!
//! Only the first level below the root is looked at. A child counts where it
//! is a directory, its name does not begin with `.`, and no exclude pattern
//! matches it. One that holds a `.git` directory is a nested project; the
//! others are regular directories. Both lists come out in the order of their
//! names.

use crate::acemcp::AcemcpTool;
use crate::paths::{normalize_project_path, project_key};
use crate::scanner::{excluded_by, should_exclude};
use crate::status::{IndexStatus, ProjectIndexStatus, ProjectsIndexStatus, StatusModel, fresh_status};
use crate::strings::{is_sorted_order, sorted_order};
use crate::text::chars_of;
use crate::watcher::NestedProject;
use globset::GlobSet;
use vstd::prelude::*;

verus! {

/// One entry found directly below a project root.
pub struct ChildEntry {
    /// Its file name.
    pub name: String,
    /// Its full path.
    pub path: String,
    pub is_dir: bool,
    /// Whether it holds a directory `.git`.
    pub has_git_dir: bool,
}

/// What a child of a project root counts as.
#[derive(Clone, Copy, Debug, PartialEq, Eq, Structural)]
pub enum ChildKind {
    /// No directory, hidden, or excluded.
    Skipped,
    /// A repository of its own.
    Nested,
    /// An ordinary directory.
    Regular,
}

/// A nested project and how far it is indexed.
pub struct NestedProjectInfo {
    pub relative_path: String,
    pub absolute_path: String,
    pub is_git_repo: bool,
    pub index_status: Option<ProjectIndexStatus>,
    pub file_count: usize,
}

/// A project root with its nested projects and its regular directories.
pub struct ProjectWithNestedStatus {
    pub root_status: ProjectIndexStatus,
    pub nested_projects: Vec<NestedProjectInfo>,
    pub regular_directories: Vec<String>,
}

/// A nested project as plain values.
pub ghost struct NestedInfoModel {
    pub relative_path: Seq<char>,
    pub absolute_path: Seq<char>,
    pub is_git_repo: bool,
    pub index_status: Option<StatusModel>,
    pub file_count: usize,
}

impl View for NestedProjectInfo {
    type V = NestedInfoModel;

    open spec fn view(&self) -> NestedInfoModel {
        NestedInfoModel {
            relative_path: self.relative_path@,
            absolute_path: self.absolute_path@,
            is_git_repo: self.is_git_repo,
            index_status: match self.index_status {
                Some(s) => Some(s@),
                None => None,
            },
            file_count: self.file_count,
        }
    }
}

impl NestedProjectInfo {
    /// A copy of this record.
    pub fn duplicate(&self) -> (out: Self)
        ensures
            out@ == self@,
    {
        let index_status = match &self.index_status {
            Some(s) => Some(s.duplicate()),
            None => None,
        };
        NestedProjectInfo {
            relative_path: self.relative_path.clone(),
            absolute_path: self.absolute_path.clone(),
            is_git_repo: self.is_git_repo,
            index_status,
            file_count: self.file_count,
        }
    }
}

/// What `child` counts as under the exclude patterns `exclude`.
pub open spec fn child_kind(child: ChildEntry, exclude: Option<GlobSet>) -> ChildKind {
    let excluded = match exclude {
        Some(set) => excluded_by(set, child.name@),
        None => false,
    };
    if !child.is_dir || (child.name@.len() > 0 && child.name@[0] == '.') || excluded {
        ChildKind::Skipped
    } else if child.has_git_dir {
        ChildKind::Nested
    } else {
        ChildKind::Regular
    }
}

/// The positions of the first `n` children that count as `kind`.
pub open spec fn children_of_kind(
    children: Seq<ChildEntry>,
    exclude: Option<GlobSet>,
    kind: ChildKind,
    n: int,
) -> Seq<int>
    decreases n,
{
    if n <= 0 {
        Seq::empty()
    } else if child_kind(children[n - 1], exclude) == kind {
        children_of_kind(children, exclude, kind, n - 1).push(n - 1)
    } else {
        children_of_kind(children, exclude, kind, n - 1)
    }
}

/// The names of the children at the positions `picked`.
pub open spec fn names_at(children: Seq<ChildEntry>, picked: Seq<int>) -> Seq<Seq<char>> {
    Seq::new(picked.len(), |i: int| children[picked[i]].name@)
}

/// The record of the nested project `child`, given the table of statuses.
pub open spec fn nested_info(child: ChildEntry, statuses: Map<Seq<char>, StatusModel>) -> NestedInfoModel {
    let key = project_key(child.path@);
    let status = if statuses.contains_key(key) {
        statuses[key]
    } else {
        fresh_status(key)
    };
    NestedInfoModel {
        relative_path: child.name@,
        absolute_path: key,
        is_git_repo: true,
        index_status: Some(status),
        file_count: if status.status != IndexStatus::Idle {
            status.total_files
        } else {
            0
        },
    }
}

/// The exclude patterns for the look at the children where the
/// configuration names none.
pub fn default_nested_excludes() -> (out: Vec<String>)
    ensures
        out.deep_view() == seq!["node_modules"@, ".git"@, "target"@, "dist"@],
{
    let mut out: Vec<String> = Vec::new();
    out.push("node_modules".to_owned());
    out.push(".git".to_owned());
    out.push("target".to_owned());
    out.push("dist".to_owned());
    proof {
        assert(out.deep_view() =~= seq!["node_modules"@, ".git"@, "target"@, "dist"@]);
    }
    out
}

/// What `child` counts as.
pub fn classify_child(child: &ChildEntry, exclude: &Option<GlobSet>) -> (kind: ChildKind)
    ensures
        kind == child_kind(*child, *exclude),
{
    if !child.is_dir {
        return ChildKind::Skipped;
    }
    let name = chars_of(child.name.as_str());
    if name.len() > 0 && name[0] == '.' {
        return ChildKind::Skipped;
    }
    if should_exclude(child.name.as_str(), exclude) {
        return ChildKind::Skipped;
    }
    if child.has_git_dir {
        ChildKind::Nested
    } else {
        ChildKind::Regular
    }
}

impl AcemcpTool {
    /// The nested projects and the regular directories among the children of a
    /// project root, each list in the order of the names, with the status of
    /// every nested project from `statuses`.
    pub fn get_project_with_nested_status(
        root_status: ProjectIndexStatus,
        children: &Vec<ChildEntry>,
        exclude: &Option<GlobSet>,
        statuses: &ProjectsIndexStatus,
    ) -> (out: ProjectWithNestedStatus)
        requires
            statuses.wf(),
        ensures
            out.root_status == root_status,
            ({
                let picked = children_of_kind(
                    children@,
                    *exclude,
                    ChildKind::Regular,
                    children@.len() as int,
                );
                exists|order: Seq<usize>|
                    {
                        &&& is_sorted_order(order, names_at(children@, picked))
                        &&& out.regular_directories@.len() == picked.len()
                        &&& forall|i: int|
                            0 <= i < picked.len() ==> (#[trigger] out.regular_directories@[i])@
                                == children@[picked[order[i] as int]].name@
                    }
            }),
            ({
                let picked = children_of_kind(
                    children@,
                    *exclude,
                    ChildKind::Nested,
                    children@.len() as int,
                );
                exists|order: Seq<usize>|
                    {
                        &&& is_sorted_order(order, names_at(children@, picked))
                        &&& out.nested_projects@.len() == picked.len()
                        &&& forall|i: int|
                            0 <= i < picked.len() ==> (#[trigger] out.nested_projects@[i])@
                                == nested_info(children@[picked[order[i] as int]], statuses@)
                    }
            }),
    {
        let ghost regular_picked = Seq::<int>::empty();
        let ghost nested_picked = Seq::<int>::empty();
        let mut regular: Vec<String> = Vec::new();
        let mut nested: Vec<NestedProjectInfo> = Vec::new();
        let mut nested_names: Vec<String> = Vec::new();
        let mut i: usize = 0;
        while i < children.len()
            invariant
                i <= children@.len(),
                statuses.wf(),
                regular_picked == children_of_kind(children@, *exclude, ChildKind::Regular, i as int),
                nested_picked == children_of_kind(children@, *exclude, ChildKind::Nested, i as int),
                regular.deep_view() == names_at(children@, regular_picked),
                nested_names.deep_view() == names_at(children@, nested_picked),
                nested@.len() == nested_picked.len(),
                forall|k: int| 0 <= k < regular_picked.len() ==> 0 <= #[trigger] regular_picked[k] < i,
                forall|k: int| 0 <= k < nested_picked.len() ==> 0 <= #[trigger] nested_picked[k] < i,
                forall|k: int|
                    0 <= k < nested@.len() ==> (#[trigger] nested@[k])@ == nested_info(
                        children@[nested_picked[k]],
                        statuses@,
                    ),
            decreases children.len() - i,
        {
            let child = &children[i];
            match classify_child(child, exclude) {
                ChildKind::Skipped => {},
                ChildKind::Regular => {
                    let ghost before = regular.deep_view();
                    regular.push(child.name.clone());
                    proof {
                        regular_picked = regular_picked.push(i as int);
                        assert(regular.deep_view() =~= before.push(child.name@));
                        assert(regular.deep_view() =~= names_at(children@, regular_picked));
                    }
                },
                ChildKind::Nested => {
                    let key = normalize_project_path(child.path.as_str());
                    let status = statuses.get_project_status(&key);
                    let file_count = match status.status {
                        IndexStatus::Idle => 0,
                        _ => status.total_files,
                    };
                    let ghost before = nested_names.deep_view();
                    nested_names.push(child.name.clone());
                    nested.push(
                        NestedProjectInfo {
                            relative_path: child.name.clone(),
                            absolute_path: key,
                            is_git_repo: true,
                            index_status: Some(status),
                            file_count,
                        },
                    );
                    proof {
                        nested_picked = nested_picked.push(i as int);
                        assert(nested_names.deep_view() =~= before.push(child.name@));
                        assert(nested_names.deep_view() =~= names_at(children@, nested_picked));
                    }
                },
            }
            i = i + 1;
        }
        let regular_order = sorted_order(&regular);
        let mut regular_directories: Vec<String> = Vec::new();
        let mut a: usize = 0;
        while a < regular_order.len()
            invariant
                a <= regular_order@.len(),
                is_sorted_order(regular_order@, regular.deep_view()),
                regular.deep_view() == names_at(children@, regular_picked),
                regular_directories@.len() == a,
                forall|k: int|
                    0 <= k < a ==> (#[trigger] regular_directories@[k])@
                        == children@[regular_picked[regular_order@[k] as int]].name@,
            decreases regular_order.len() - a,
        {
            proof {
                let x = regular_order@[a as int] as int;
                assert(regular.deep_view()[x] == regular@[x]@);
                assert(names_at(children@, regular_picked)[x] == children@[regular_picked[x]].name@);
            }
            regular_directories.push(regular[regular_order[a]].clone());
            a = a + 1;
        }
        let nested_order = sorted_order(&nested_names);
        let mut nested_projects: Vec<NestedProjectInfo> = Vec::new();
        let mut b: usize = 0;
        while b < nested_order.len()
            invariant
                b <= nested_order@.len(),
                is_sorted_order(nested_order@, nested_names.deep_view()),
                nested_names.deep_view() == names_at(children@, nested_picked),
                nested@.len() == nested_picked.len(),
                forall|k: int|
                    0 <= k < nested@.len() ==> (#[trigger] nested@[k])@ == nested_info(
                        children@[nested_picked[k]],
                        statuses@,
                    ),
                nested_projects@.len() == b,
                forall|k: int|
                    0 <= k < b ==> (#[trigger] nested_projects@[k])@ == nested_info(
                        children@[nested_picked[nested_order@[k] as int]],
                        statuses@,
                    ),
            decreases nested_order.len() - b,
        {
            nested_projects.push(nested[nested_order[b]].duplicate());
            b = b + 1;
        }
        ProjectWithNestedStatus { root_status, nested_projects, regular_directories }
    }
}

/// The routing table of a watched root: its nested projects.
pub fn nested_routes(info: &ProjectWithNestedStatus) -> (routes: Vec<NestedProject>)
    ensures
        routes@.len() == info.nested_projects@.len(),
        forall|i: int|
            0 <= i < routes@.len() ==> {
                &&& (#[trigger] routes@[i]).relative_path@
                    == info.nested_projects@[i].relative_path@
                &&& routes@[i].absolute_path@ == info.nested_projects@[i].absolute_path@
            },
{
    let mut routes: Vec<NestedProject> = Vec::new();
    let mut i: usize = 0;
    while i < info.nested_projects.len()
        invariant
            i <= info.nested_projects@.len(),
            routes@.len() == i,
            forall|k: int|
                0 <= k < i ==> {
                    &&& (#[trigger] routes@[k]).relative_path@
                        == info.nested_projects@[k].relative_path@
                    &&& routes@[k].absolute_path@ == info.nested_projects@[k].absolute_path@
                },
        decreases info.nested_projects.len() - i,
    {
        let p = &info.nested_projects[i];
        routes.push(
            NestedProject {
                relative_path: p.relative_path.clone(),
                absolute_path: p.absolute_path.clone(),
            },
        );
        i = i + 1;
    }
    routes
}

} // verus!
