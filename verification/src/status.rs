//! The per-project status record and the table of all of them.
//!
//! A project is `Idle` until its first update begins. An update marks it
//! `Indexing`, and ends it as `Synced` or `Failed`; the next update marks it
//! `Indexing` again.

use crate::paths::{normalize_project_path, project_key};
use crate::strings::clone_list;
use vstd::prelude::*;

verus! {

/// Most recent file paths that a status record keeps.
pub const MAX_RECENT_FILES: usize = 5;

/// Where a project stands.
#[derive(Clone, Copy, Debug, PartialEq, Eq, Structural)]
pub enum IndexStatus {
    /// No file was ever indexed.
    Idle,
    /// An update is under way.
    Indexing,
    /// The last update succeeded.
    Synced,
    /// The last update failed.
    Failed,
}

/// What a search finds when it looks at a project's status.
#[derive(Clone, Copy, Debug, PartialEq, Eq, Structural)]
pub enum InitialIndexState {
    /// Idle, but with files counted.
    Missing,
    /// Never indexed.
    Idle,
    /// Indexed.
    Synced,
    /// An update is under way.
    Indexing,
    /// The last update failed.
    Failed,
}

/// The status record of one project. Times are milliseconds since the Unix
/// epoch.
pub struct ProjectIndexStatus {
    pub project_root: String,
    pub status: IndexStatus,
    pub progress: u8,
    pub total_files: usize,
    pub indexed_files: usize,
    pub pending_files: usize,
    pub failed_files: usize,
    pub last_success_time: Option<i64>,
    pub last_failure_time: Option<i64>,
    pub last_error: Option<String>,
    pub recent_indexed_files: Vec<String>,
}

/// A status record as plain values.
pub ghost struct StatusModel {
    pub project_root: Seq<char>,
    pub status: IndexStatus,
    pub progress: u8,
    pub total_files: usize,
    pub indexed_files: usize,
    pub pending_files: usize,
    pub failed_files: usize,
    pub last_success_time: Option<i64>,
    pub last_failure_time: Option<i64>,
    pub last_error: Option<Seq<char>>,
    pub recent_indexed_files: Seq<Seq<char>>,
}

/// The record of a project that was never seen.
pub open spec fn fresh_status(project_root: Seq<char>) -> StatusModel {
    StatusModel {
        project_root,
        status: IndexStatus::Idle,
        progress: 0,
        total_files: 0,
        indexed_files: 0,
        pending_files: 0,
        failed_files: 0,
        last_success_time: None,
        last_failure_time: None,
        last_error: None,
        recent_indexed_files: Seq::empty(),
    }
}

/// The steps that the status of a project may take: from every state to
/// `Indexing`, from `Indexing` to `Synced` or `Failed`, and from every state
/// to itself.
pub open spec fn may_follow(from: IndexStatus, to: IndexStatus) -> bool {
    match to {
        IndexStatus::Idle => from == IndexStatus::Idle,
        IndexStatus::Indexing => true,
        IndexStatus::Synced => from == IndexStatus::Indexing || from == IndexStatus::Synced,
        IndexStatus::Failed => from == IndexStatus::Indexing || from == IndexStatus::Failed,
    }
}

impl View for ProjectIndexStatus {
    type V = StatusModel;

    open spec fn view(&self) -> StatusModel {
        StatusModel {
            project_root: self.project_root@,
            status: self.status,
            progress: self.progress,
            total_files: self.total_files,
            indexed_files: self.indexed_files,
            pending_files: self.pending_files,
            failed_files: self.failed_files,
            last_success_time: self.last_success_time,
            last_failure_time: self.last_failure_time,
            last_error: match self.last_error {
                Some(e) => Some(e@),
                None => None,
            },
            recent_indexed_files: self.recent_indexed_files.deep_view(),
        }
    }
}

impl Default for ProjectIndexStatus {
    fn default() -> (out: Self)
        ensures
            out@ == fresh_status(Seq::empty()),
            out.wf(),
    {
        let out = ProjectIndexStatus {
            project_root: String::new(),
            status: IndexStatus::Idle,
            progress: 0,
            total_files: 0,
            indexed_files: 0,
            pending_files: 0,
            failed_files: 0,
            last_success_time: None,
            last_failure_time: None,
            last_error: None,
            recent_indexed_files: Vec::new(),
        };
        proof {
            assert(out.recent_indexed_files.deep_view() =~= Seq::<Seq<char>>::empty());
        }
        out
    }
}

impl ProjectIndexStatus {
    /// Progress is a percentage, and at most `MAX_RECENT_FILES` paths are kept.
    pub open spec fn wf(&self) -> bool {
        &&& self.progress <= 100
        &&& self.recent_indexed_files@.len() <= MAX_RECENT_FILES
    }

    /// The record of a project that was never seen.
    pub fn new(project_root: &str) -> (out: Self)
        ensures
            out@ == fresh_status(project_root@),
            out.wf(),
    {
        let mut out = ProjectIndexStatus::default();
        out.project_root = project_root.to_owned();
        out
    }

    /// A copy of this record.
    pub fn duplicate(&self) -> (out: Self)
        ensures
            out@ == self@,
    {
        let last_error = match &self.last_error {
            Some(e) => Some(e.clone()),
            None => None,
        };
        ProjectIndexStatus {
            project_root: self.project_root.clone(),
            status: self.status,
            progress: self.progress,
            total_files: self.total_files,
            indexed_files: self.indexed_files,
            pending_files: self.pending_files,
            failed_files: self.failed_files,
            last_success_time: self.last_success_time,
            last_failure_time: self.last_failure_time,
            last_error,
            recent_indexed_files: clone_list(&self.recent_indexed_files),
        }
    }

    /// An update begins: the project is `Indexing`, at 0 percent.
    pub fn mark_indexing(&mut self)
        ensures
            final(self)@ == (StatusModel {
                status: IndexStatus::Indexing,
                progress: 0,
                ..old(self)@
            }),
            may_follow(old(self).status, final(self).status),
            old(self).wf() ==> final(self).wf(),
    {
        self.status = IndexStatus::Indexing;
        self.progress = 0;
    }

    /// The scan found `total` blobs: 20 percent are done.
    pub fn mark_scanned(&mut self, total: usize)
        ensures
            final(self)@ == (StatusModel { total_files: total, progress: 20, ..old(self)@ }),
            old(self).wf() ==> final(self).wf(),
    {
        self.total_files = total;
        self.progress = 20;
    }

    /// The update failed at time `now` for the reason `error`.
    pub fn mark_failed(&mut self, error: &str, now: i64)
        ensures
            final(self)@ == (StatusModel {
                status: IndexStatus::Failed,
                last_error: Some(error@),
                last_failure_time: Some(now),
                ..old(self)@
            }),
            old(self).wf() ==> final(self).wf(),
    {
        self.status = IndexStatus::Failed;
        self.last_error = Some(error.to_owned());
        self.last_failure_time = Some(now);
    }

    /// The update succeeded at time `now` with `indexed` blobs on record.
    /// `recent` replaces the recent paths unless it is empty.
    pub fn mark_synced(&mut self, indexed: usize, recent: Vec<String>, now: i64)
        requires
            recent@.len() <= MAX_RECENT_FILES,
        ensures
            final(self)@ == (StatusModel {
                status: IndexStatus::Synced,
                progress: 100,
                indexed_files: indexed,
                pending_files: 0,
                last_success_time: Some(now),
                last_error: None,
                recent_indexed_files: if recent@.len() > 0 {
                    recent.deep_view()
                } else {
                    old(self)@.recent_indexed_files
                },
                ..old(self)@
            }),
            old(self).wf() ==> final(self).wf(),
    {
        self.status = IndexStatus::Synced;
        self.progress = 100;
        self.indexed_files = indexed;
        self.pending_files = 0;
        self.last_success_time = Some(now);
        self.last_error = None;
        if recent.len() > 0 {
            self.recent_indexed_files = recent;
        }
    }
}

/// What a search finds when it looks at `status`.
pub fn get_initial_index_state(status: &ProjectIndexStatus) -> (state: InitialIndexState)
    ensures
        state == match status.status {
            IndexStatus::Idle => if status.total_files == 0 {
                InitialIndexState::Idle
            } else {
                InitialIndexState::Missing
            },
            IndexStatus::Synced => InitialIndexState::Synced,
            IndexStatus::Indexing => InitialIndexState::Indexing,
            IndexStatus::Failed => InitialIndexState::Failed,
        },
{
    match status.status {
        IndexStatus::Idle => if status.total_files == 0 {
            InitialIndexState::Idle
        } else {
            InitialIndexState::Missing
        },
        IndexStatus::Synced => InitialIndexState::Synced,
        IndexStatus::Indexing => InitialIndexState::Indexing,
        IndexStatus::Failed => InitialIndexState::Failed,
    }
}

/// The status records of all projects, at most one for each project root.
pub struct ProjectsIndexStatus {
    pub projects: Vec<ProjectIndexStatus>,
}

impl ProjectsIndexStatus {
    /// No two records are for the same project root.
    pub open spec fn wf(&self) -> bool {
        forall|i: int, j: int|
            0 <= i < j < self.projects@.len() ==> self.projects@[i].project_root@
                != self.projects@[j].project_root@
    }

    /// The table as a map from project root to record.
    pub open spec fn view(&self) -> Map<Seq<char>, StatusModel> {
        Map::new(
            |k: Seq<char>|
                exists|i: int|
                    0 <= i < self.projects@.len() && self.projects@[i].project_root@ == k,
            |k: Seq<char>|
                self.projects@[choose|i: int|
                    0 <= i < self.projects@.len() && self.projects@[i].project_root@ == k]@,
        )
    }

    /// A table without records.
    pub fn new() -> (out: Self)
        ensures
            out.wf(),
            out@ == Map::<Seq<char>, StatusModel>::empty(),
    {
        let out = ProjectsIndexStatus { projects: Vec::new() };
        proof {
            assert(out@ =~= Map::<Seq<char>, StatusModel>::empty());
        }
        out
    }

    /// Where the record of `project_root` stands.
    pub fn find(&self, project_root: &String) -> (r: Option<usize>)
        ensures
            match r {
                Some(i) => i < self.projects@.len() && self.projects@[i as int].project_root@
                    == project_root@,
                None => forall|i: int|
                    0 <= i < self.projects@.len() ==> self.projects@[i].project_root@
                        != project_root@,
            },
            self.wf() ==> (r is Some <==> self@.contains_key(project_root@)),
            self.wf() ==> (r matches Some(i) ==> self@[project_root@] == self.projects@[i as int]@),
    {
        let mut i: usize = 0;
        while i < self.projects.len()
            invariant
                i <= self.projects@.len(),
                forall|j: int|
                    0 <= j < i ==> self.projects@[j].project_root@ != project_root@,
            decreases self.projects.len() - i,
        {
            if self.projects[i].project_root == *project_root {
                return Some(i);
            }
            i = i + 1;
        }
        None
    }

    /// The first record whose root, normalized, is `normalized_root`.
    pub fn find_normalized(&self, normalized_root: &String) -> (r: Option<usize>)
        ensures
            match r {
                Some(i) => {
                    &&& i < self.projects@.len()
                    &&& project_key(self.projects@[i as int].project_root@) == normalized_root@
                    &&& forall|j: int|
                        0 <= j < i ==> project_key(self.projects@[j].project_root@)
                            != normalized_root@
                },
                None => forall|i: int|
                    0 <= i < self.projects@.len() ==> project_key(self.projects@[i].project_root@)
                        != normalized_root@,
            },
    {
        let mut i: usize = 0;
        while i < self.projects.len()
            invariant
                i <= self.projects@.len(),
                forall|j: int|
                    0 <= j < i ==> project_key(self.projects@[j].project_root@)
                        != normalized_root@,
            decreases self.projects.len() - i,
        {
            let k = normalize_project_path(self.projects[i].project_root.as_str());
            if k == *normalized_root {
                return Some(i);
            }
            i = i + 1;
        }
        None
    }

    /// The record of `project_root`; that of a project never seen where the
    /// table has none.
    pub fn get_project_status(&self, project_root: &String) -> (out: ProjectIndexStatus)
        requires
            self.wf(),
        ensures
            out@ == if self@.contains_key(project_root@) {
                self@[project_root@]
            } else {
                fresh_status(project_root@)
            },
    {
        match self.find(project_root) {
            Some(i) => self.projects[i].duplicate(),
            None => ProjectIndexStatus::new(project_root.as_str()),
        }
    }

    /// Puts `status` in the place of the record of its project root, or adds
    /// it where the table has none.
    pub fn set_project_status(&mut self, status: ProjectIndexStatus)
        requires
            old(self).wf(),
        ensures
            final(self).wf(),
            final(self)@ == old(self)@.insert(status.project_root@, status@),
    {
        let ghost key = status.project_root@;
        let ghost model = status@;
        let ghost before = self.projects@;
        match self.find(&status.project_root) {
            Some(i) => {
                self.projects[i] = status;
                proof {
                    let after = self.projects@;
                    assert(after == before.update(i as int, status));
                    assert forall|k: Seq<char>| #[trigger]
                        self@.contains_key(k) == old(self)@.insert(key, model).contains_key(
                            k,
                        ) by {
                        if exists|j: int| 0 <= j < after.len() && after[j].project_root@ == k {
                            let j = choose|j: int|
                                0 <= j < after.len() && after[j].project_root@ == k;
                            assert(before[j].project_root@ == k);
                        }
                        if exists|j: int| 0 <= j < before.len() && before[j].project_root@ == k {
                            let j = choose|j: int|
                                0 <= j < before.len() && before[j].project_root@ == k;
                            assert(after[j].project_root@ == k);
                        }
                        if k == key {
                            assert(after[i as int].project_root@ == k);
                        }
                    }
                    assert forall|k: Seq<char>| #[trigger] self@.contains_key(k) implies self@[k]
                        == old(self)@.insert(key, model)[k] by {
                        let j = choose|j: int|
                            0 <= j < after.len() && after[j].project_root@ == k;
                        if k != key {
                            assert(j != i);
                            assert(before[j].project_root@ == k);
                            let j2 = choose|j2: int|
                                0 <= j2 < before.len() && before[j2].project_root@ == k;
                            assert(j2 == j);
                        } else {
                            assert(j == i);
                        }
                    }
                    assert(self@ =~= old(self)@.insert(key, model));
                }
            },
            None => {
                self.projects.push(status);
                proof {
                    let after = self.projects@;
                    assert(after == before.push(status));
                    assert forall|k: Seq<char>| #[trigger]
                        self@.contains_key(k) == old(self)@.insert(key, model).contains_key(
                            k,
                        ) by {
                        if exists|j: int| 0 <= j < after.len() && after[j].project_root@ == k {
                            let j = choose|j: int|
                                0 <= j < after.len() && after[j].project_root@ == k;
                            if j < before.len() {
                                assert(before[j].project_root@ == k);
                            }
                        }
                        if exists|j: int| 0 <= j < before.len() && before[j].project_root@ == k {
                            let j = choose|j: int|
                                0 <= j < before.len() && before[j].project_root@ == k;
                            assert(after[j].project_root@ == k);
                        }
                        if k == key {
                            assert(after[before.len() as int].project_root@ == k);
                        }
                    }
                    assert forall|k: Seq<char>| #[trigger] self@.contains_key(k) implies self@[k]
                        == old(self)@.insert(key, model)[k] by {
                        let j = choose|j: int|
                            0 <= j < after.len() && after[j].project_root@ == k;
                        if k != key {
                            assert(j < before.len());
                            assert(before[j].project_root@ == k);
                            let j2 = choose|j2: int|
                                0 <= j2 < before.len() && before[j2].project_root@ == k;
                            assert(j2 == j);
                        } else {
                            assert(j == before.len());
                        }
                    }
                    assert(self@ =~= old(self)@.insert(key, model));
                }
            },
        }
    }

    /// Takes the record at position `i` out of the table.
    pub fn remove_at(&mut self, i: usize) -> (out: ProjectIndexStatus)
        requires
            old(self).wf(),
            i < old(self).projects@.len(),
        ensures
            final(self).wf(),
            out == old(self).projects@[i as int],
            final(self).projects@ == old(self).projects@.remove(i as int),
            final(self)@ == old(self)@.remove(out.project_root@),
    {
        let ghost before = self.projects@;
        let out = self.projects.remove(i);
        proof {
            let after = self.projects@;
            let key = out.project_root@;
            assert forall|k: Seq<char>| #[trigger]
                self@.contains_key(k) == old(self)@.remove(key).contains_key(k) by {
                if exists|j: int| 0 <= j < after.len() && after[j].project_root@ == k {
                    let j = choose|j: int| 0 <= j < after.len() && after[j].project_root@ == k;
                    let b = if j < i { j } else { j + 1 };
                    assert(before[b].project_root@ == k);
                }
                if k != key && exists|j: int|
                    0 <= j < before.len() && before[j].project_root@ == k {
                    let j = choose|j: int| 0 <= j < before.len() && before[j].project_root@ == k;
                    let a = if j < i { j } else { j - 1 };
                    assert(after[a].project_root@ == k);
                }
            }
            assert forall|k: Seq<char>| #[trigger] self@.contains_key(k) implies self@[k] == old(
                self,
            )@.remove(key)[k] by {
                let j = choose|j: int| 0 <= j < after.len() && after[j].project_root@ == k;
                let b = if j < i { j } else { j + 1 };
                assert(before[b].project_root@ == k);
                let j2 = choose|j2: int| 0 <= j2 < before.len() && before[j2].project_root@ == k;
                assert(j2 == b);
            }
            assert(self@ =~= old(self)@.remove(key));
        }
        out
    }
}

} // verus!
