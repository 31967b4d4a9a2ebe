//! What the commands of the engine decide and report: the coverage of a
//! file, which projects an update request reaches, what the caller is told,
//! and the purge of a project's records.

use crate::chunker::{split_content, split_model, BlobModel};
use crate::config::{AcemcpConfig, DEFAULT_BATCH_SIZE, DEFAULT_MAX_LINES_PER_BLOB, list_or_empty, cloned_or_empty};
use crate::coordinator::all_hashable;
use crate::hasher::{blob_address, sha256_hex};
use crate::ledger::ProjectsFile;
use crate::nested::NestedProjectInfo;
use crate::paths::{normalize_project_path, project_key};
use crate::status::ProjectsIndexStatus;
use crate::strings::list_contains;
use crate::text::{chars_of, decimal, decimal_digits, push_all, push_str, to_string};
use crate::watcher::{NestedProject, WatcherManager};
use vstd::prelude::*;

verus! {

/// How far a file is indexed.
#[derive(Clone, Copy, Debug, PartialEq, Eq, Structural)]
pub enum FileIndexStatusKind {
    /// Every blob of the file is retained.
    Indexed,
    /// Some blob of the file is not retained, or the file cannot be read.
    Pending,
}

/// The coverage of one file.
pub struct FileIndexStatus {
    pub path: String,
    pub status: FileIndexStatusKind,
}

/// The coverage of the files of a project.
pub struct ProjectFilesStatus {
    pub project_root: String,
    pub files: Vec<FileIndexStatus>,
}

/// What an update request reaches.
pub enum UpdateTargets {
    /// The project itself.
    Project(String),
    /// The nested projects of the project, and not the project itself.
    Nested(Vec<NestedProject>),
}

/// What the purge of a project's records did.
pub struct PurgeReport {
    /// The key that was looked for.
    pub normalized_root: String,
    /// A record left the ledger.
    pub projects_deleted: bool,
    /// A record left the table of statuses.
    pub status_deleted: bool,
    /// A watch was stopped.
    pub watch_stopped: bool,
}

/// The text that `{:?}` gives for a list of strings.
pub uninterp spec fn debug_of_list(list: Seq<Seq<char>>) -> Seq<char>;

/// The text that `{:?}` gives for a list of names with a count each.
pub uninterp spec fn debug_of_counts(list: Seq<(Seq<char>, usize)>) -> Seq<char>;

/// The text that `{:?}` gives for a list of names with an error each.
pub uninterp spec fn debug_of_failures(list: Seq<(Seq<char>, Seq<char>)>) -> Seq<char>;

/// Every blob of the file is retained.
pub open spec fn fully_indexed(blobs: Seq<BlobModel>, retained: Seq<Seq<char>>) -> bool {
    forall|i: int|
        0 <= i < blobs.len() ==> retained.contains(
            blob_address(#[trigger] blobs[i].path, blobs[i].content),
        )
}

/// `routes` names the nested projects `nested`, one for one.
pub open spec fn routes_of(routes: Seq<NestedProject>, nested: Seq<NestedProjectInfo>) -> bool {
    &&& routes.len() == nested.len()
    &&& forall|i: int|
        0 <= i < routes.len() ==> {
            &&& (#[trigger] routes[i]).relative_path@ == nested[i].relative_path@
            &&& routes[i].absolute_path@ == nested[i].absolute_path@
        }
}

/// The note on the first successful update of a project.
pub open spec fn index_note(config: AcemcpConfig) -> Seq<char> {
    "acemcp 代码索引已启用 - 配置摘要: 文件扩展名="@ + debug_of_list(
        list_or_empty(config.text_extensions),
    ) + ", 排除模式="@ + debug_of_list(list_or_empty(config.exclude_patterns)) + ", 批次大小="@
        + decimal(
        match config.batch_size {
            Some(n) => n as nat,
            None => DEFAULT_BATCH_SIZE as nat,
        },
    ) + ", 最大行数/块="@ + decimal(
        match config.max_lines_per_blob {
            Some(n) => n as nat,
            None => DEFAULT_MAX_LINES_PER_BLOB as nat,
        },
    )
}

/// `std::fmt::Debug` for `Vec<String>`, through `format!`. Believed of it:
/// the text depends on the strings alone.
#[verifier::external_body]
fn debug_list(list: &Vec<String>) -> (out: String)
    ensures
        out@ == debug_of_list(list.deep_view()),
{
    format!("{:?}", list)
}

/// `std::fmt::Debug` for `Vec<(String, usize)>`, through `format!`.
/// Believed of it: the text depends on the names and counts alone.
#[verifier::external_body]
fn debug_counts(list: &Vec<(String, usize)>) -> (out: String)
    ensures
        out@ == debug_of_counts(list.deep_view()),
{
    format!("{:?}", list)
}

/// `std::fmt::Debug` for `Vec<(String, String)>`, through `format!`.
/// Believed of it: the text depends on the names and errors alone.
#[verifier::external_body]
fn debug_failures(list: &Vec<(String, String)>) -> (out: String)
    ensures
        out@ == debug_of_failures(list.deep_view()),
{
    format!("{:?}", list)
}

/// The coverage of the file at `path`: `Indexed` where the address of each
/// of its blobs is retained; `Pending` else, and where it cannot be read
/// (`content` is `None`).
pub fn file_index_status(
    path: &str,
    content: Option<&str>,
    max_lines: usize,
    retained: &Vec<String>,
) -> (out: FileIndexStatus)
    requires
        max_lines > 0 || content is None || content->0@.len() == 0,
        content is Some ==> all_hashable(split_model(path@, content->0@, max_lines as nat)),
    ensures
        out.path@ == path@,
        out.status == FileIndexStatusKind::Indexed <==> content is Some && fully_indexed(
            split_model(path@, content->0@, max_lines as nat),
            retained.deep_view(),
        ),
{
    let text = match content {
        Some(t) => t,
        None => {
            return FileIndexStatus { path: path.to_owned(), status: FileIndexStatusKind::Pending };
        },
    };
    let blobs = split_content(path, text, max_lines);
    let ghost model = split_model(path@, text@, max_lines as nat);
    let mut i: usize = 0;
    while i < blobs.len()
        invariant
            i <= blobs@.len(),
            blobs.deep_view() == model,
            content is Some,
            model == split_model(path@, content->0@, max_lines as nat),
            all_hashable(model),
            forall|k: int|
                0 <= k < i ==> retained.deep_view().contains(
                    blob_address(#[trigger] model[k].path, model[k].content),
                ),
        decreases blobs.len() - i,
    {
        proof {
            assert(blobs.deep_view()[i as int] == blobs@[i as int]@);
            assert(crate::hasher::hashable(model[i as int].path, model[i as int].content));
        }
        let hash = sha256_hex(blobs[i].path.as_str(), blobs[i].content.as_str());
        if !list_contains(retained, &hash) {
            proof {
                assert(hash@ == blob_address(model[i as int].path, model[i as int].content));
                assert(!fully_indexed(model, retained.deep_view()));
            }
            return FileIndexStatus { path: path.to_owned(), status: FileIndexStatusKind::Pending };
        }
        i = i + 1;
    }
    FileIndexStatus { path: path.to_owned(), status: FileIndexStatusKind::Indexed }
}

/// What an update request for `project_root` reaches: its nested projects
/// where it has some and `index_nested` holds, and then not the project
/// itself; else the project.
pub fn update_targets(
    project_root: &str,
    nested: &Vec<NestedProjectInfo>,
    index_nested: bool,
) -> (targets: UpdateTargets)
    ensures
        match targets {
            UpdateTargets::Nested(routes) => {
                &&& nested@.len() > 0
                &&& index_nested
                &&& routes_of(routes@, nested@)
            },
            UpdateTargets::Project(root) => {
                &&& nested@.len() == 0 || !index_nested
                &&& root@ == project_root@
            },
        },
{
    if nested.len() > 0 && index_nested {
        let mut routes: Vec<NestedProject> = Vec::new();
        let mut i: usize = 0;
        while i < nested.len()
            invariant
                i <= nested@.len(),
                routes@.len() == i,
                forall|k: int|
                    0 <= k < i ==> {
                        &&& (#[trigger] routes@[k]).relative_path@ == nested@[k].relative_path@
                        &&& routes@[k].absolute_path@ == nested@[k].absolute_path@
                    },
            decreases nested.len() - i,
        {
            routes.push(
                NestedProject {
                    relative_path: nested[i].relative_path.clone(),
                    absolute_path: nested[i].absolute_path.clone(),
                },
            );
            i = i + 1;
        }
        UpdateTargets::Nested(routes)
    } else {
        UpdateTargets::Project(project_root.to_owned())
    }
}

/// What the caller reads after an update of one project that retained
/// `blobs` addresses.
pub fn update_summary(blobs: usize) -> (out: String)
    ensures
        out@ == "索引更新成功，共 "@ + decimal(blobs as nat) + " 个 blobs"@,
{
    let mut s = chars_of("索引更新成功，共 ");
    let digits = decimal_digits(blobs as u64);
    push_all(&mut s, &digits);
    push_str(&mut s, " 个 blobs");
    to_string(&s)
}

/// The first `n` of `numbers` in decimal, with `", "` between them.
pub open spec fn listed(numbers: Seq<usize>, n: int) -> Seq<char>
    decreases n,
{
    if n <= 0 {
        Seq::empty()
    } else if n == 1 {
        decimal(numbers[0] as nat)
    } else {
        listed(numbers, n - 1) + ", "@ + decimal(numbers[n - 1] as nat)
    }
}

/// The batches that failed, in words.
pub open spec fn failed_batches_note(failed: Seq<usize>) -> Seq<char> {
    "失败的批次: "@ + listed(failed, failed.len() as int)
}

/// The batches that failed, in words: their numbers in the order given.
pub fn failed_batches_text(failed_batches: &Vec<usize>) -> (out: String)
    ensures
        out@ == failed_batches_note(failed_batches@),
{
    let mut s = chars_of("失败的批次: ");
    let ghost head = s@;
    let mut i: usize = 0;
    proof {
        assert(head + Seq::<char>::empty() =~= head);
    }
    while i < failed_batches.len()
        invariant
            i <= failed_batches@.len(),
            s@ == head + listed(failed_batches@, i as int),
        decreases failed_batches.len() - i,
    {
        let ghost before = listed(failed_batches@, i as int);
        if i > 0 {
            push_str(&mut s, ", ");
        }
        let digits = decimal_digits(failed_batches[i] as u64);
        push_all(&mut s, &digits);
        proof {
            if i == 0 {
                assert(before =~= Seq::<char>::empty());
                assert(s@ =~= head + decimal(failed_batches@[0] as nat));
            } else {
                assert(s@ =~= head + (before + ", "@ + decimal(failed_batches@[i as int] as nat)));
            }
        }
        i = i + 1;
    }
    to_string(&s)
}

/// What the caller reads after an update of one project that retained
/// `blobs` addresses: that number, and the batches that failed where some
/// did.
pub fn update_report(blobs: usize, failed_batches: &Vec<usize>) -> (out: String)
    ensures
        out@ == if failed_batches@.len() == 0 {
            "索引更新成功，共 "@ + decimal(blobs as nat) + " 个 blobs"@
        } else {
            "索引更新部分成功，共 "@ + decimal(blobs as nat) + " 个 blobs，"@ + failed_batches_note(
                failed_batches@,
            )
        },
{
    if failed_batches.len() == 0 {
        update_summary(blobs)
    } else {
        let mut s = chars_of("索引更新部分成功，共 ");
        let digits = decimal_digits(blobs as u64);
        push_all(&mut s, &digits);
        push_str(&mut s, " 个 blobs，");
        push_str(&mut s, failed_batches_text(failed_batches).as_str());
        to_string(&s)
    }
}

/// What the caller reads after an update of one project that failed.
pub fn update_failure(error: &str) -> (out: String)
    ensures
        out@ == "索引更新失败: "@ + error@,
{
    let mut s = chars_of("索引更新失败: ");
    push_str(&mut s, error);
    to_string(&s)
}

/// What the caller reads after the updates of nested projects: those that
/// went through with the number of addresses retained, and those that
/// failed with the reason.
pub fn nested_update_summary(
    succeeded: &Vec<(String, usize)>,
    failed: &Vec<(String, String)>,
) -> (out: String)
    ensures
        out@ == if failed@.len() == 0 {
            "索引更新成功，共 "@ + decimal(succeeded@.len()) + " 个子项目: "@ + debug_of_counts(
                succeeded.deep_view(),
            )
        } else {
            "索引更新部分成功: 成功 "@ + decimal(succeeded@.len()) + " 个，失败 "@ + decimal(
                failed@.len(),
            ) + " 个。成功: "@ + debug_of_counts(succeeded.deep_view()) + "，失败: "@
                + debug_of_failures(failed.deep_view())
        },
{
    let good = debug_counts(succeeded);
    let good_count = decimal_digits(succeeded.len() as u64);
    if failed.len() == 0 {
        let mut s = chars_of("索引更新成功，共 ");
        push_all(&mut s, &good_count);
        push_str(&mut s, " 个子项目: ");
        push_str(&mut s, good.as_str());
        to_string(&s)
    } else {
        let bad = debug_failures(failed);
        let bad_count = decimal_digits(failed.len() as u64);
        let mut s = chars_of("索引更新部分成功: 成功 ");
        push_all(&mut s, &good_count);
        push_str(&mut s, " 个，失败 ");
        push_all(&mut s, &bad_count);
        push_str(&mut s, " 个。成功: ");
        push_str(&mut s, good.as_str());
        push_str(&mut s, "，失败: ");
        push_str(&mut s, bad.as_str());
        to_string(&s)
    }
}

/// The note that is left on the first successful update of a project: the
/// configuration that it ran with.
pub fn write_index_memory_to_ji(config: &AcemcpConfig) -> (note: String)
    ensures
        note@ == index_note(*config),
{
    let exts = cloned_or_empty(&config.text_extensions);
    let excludes = cloned_or_empty(&config.exclude_patterns);
    let batch_size: u32 = match config.batch_size {
        Some(n) => n,
        None => DEFAULT_BATCH_SIZE,
    };
    let max_lines: u32 = match config.max_lines_per_blob {
        Some(n) => n,
        None => DEFAULT_MAX_LINES_PER_BLOB,
    };
    let mut s = chars_of("acemcp 代码索引已启用 - 配置摘要: 文件扩展名=");
    push_str(&mut s, debug_list(&exts).as_str());
    push_str(&mut s, ", 排除模式=");
    push_str(&mut s, debug_list(&excludes).as_str());
    push_str(&mut s, ", 批次大小=");
    let b = decimal_digits(batch_size as u64);
    push_all(&mut s, &b);
    push_str(&mut s, ", 最大行数/块=");
    let m = decimal_digits(max_lines as u64);
    push_all(&mut s, &m);
    to_string(&s)
}

/// Takes the records of `project_root` out of the ledger and out of the
/// table of statuses: in each the first record whose key, normalized, is the
/// normalized `project_root`. Stops the watch of the project where
/// `stop_watch` holds.
pub fn purge_index_record(
    ledger: &mut ProjectsFile,
    statuses: &mut ProjectsIndexStatus,
    watcher: &mut WatcherManager,
    project_root: &str,
    stop_watch: bool,
) -> (report: PurgeReport)
    requires
        old(ledger).wf(),
        old(statuses).wf(),
        old(watcher).wf(),
    ensures
        final(ledger).wf(),
        final(statuses).wf(),
        final(watcher).wf(),
        report.normalized_root@ == project_key(project_root@),
        report.projects_deleted == (exists|i: int|
            0 <= i < old(ledger).records@.len() && project_key(
                old(ledger).records@[i].project_key@,
            ) == project_key(project_root@)),
        report.status_deleted == (exists|i: int|
            0 <= i < old(statuses).projects@.len() && project_key(
                old(statuses).projects@[i].project_root@,
            ) == project_key(project_root@)),
        !report.projects_deleted ==> final(ledger).records == old(ledger).records,
        report.projects_deleted ==> exists|i: int|
            {
                &&& 0 <= i < old(ledger).records@.len()
                &&& project_key(old(ledger).records@[i].project_key@) == project_key(
                    project_root@,
                )
                &&& forall|j: int|
                    0 <= j < i ==> project_key(old(ledger).records@[j].project_key@)
                        != project_key(project_root@)
                &&& final(ledger).records@ == old(ledger).records@.remove(i)
            },
        !report.status_deleted ==> final(statuses).projects == old(statuses).projects,
        report.status_deleted ==> exists|i: int|
            {
                &&& 0 <= i < old(statuses).projects@.len()
                &&& project_key(old(statuses).projects@[i].project_root@) == project_key(
                    project_root@,
                )
                &&& forall|j: int|
                    0 <= j < i ==> project_key(old(statuses).projects@[j].project_root@)
                        != project_key(project_root@)
                &&& final(statuses).projects@ == old(statuses).projects@.remove(i)
            },
        report.watch_stopped == (stop_watch && old(watcher).watched().contains(
            project_key(project_root@),
        )),
        stop_watch ==> !final(watcher).watched().contains(project_key(project_root@)),
        !report.watch_stopped ==> final(watcher).sessions == old(watcher).sessions,
        report.watch_stopped ==> exists|i: int|
            {
                &&& 0 <= i < old(watcher).sessions@.len()
                &&& (#[trigger] old(watcher).sessions@[i]).project_key@ == project_key(
                    project_root@,
                )
                &&& final(watcher).sessions@ == old(watcher).sessions@.remove(i)
            },
        final(watcher).auto_index_enabled == old(watcher).auto_index_enabled,
{
    let normalized_root = normalize_project_path(project_root);
    let projects_deleted = match ledger.find_normalized(&normalized_root) {
        Some(i) => {
            ledger.remove_at(i);
            true
        },
        None => false,
    };
    let status_deleted = match statuses.find_normalized(&normalized_root) {
        Some(i) => {
            statuses.remove_at(i);
            true
        },
        None => false,
    };
    let watch_stopped = if stop_watch {
        watcher.stop_watching(normalized_root.as_str())
    } else {
        false
    };
    PurgeReport { normalized_root, projects_deleted, status_deleted, watch_stopped }
}

/// What the caller reads after a purge.
pub fn purge_message(report: &PurgeReport) -> (out: String)
    ensures
        out@ == if report.projects_deleted || report.status_deleted {
            "已删除项目索引记录: "@ + report.normalized_root@
        } else {
            "项目索引记录可能已不存在: "@ + report.normalized_root@
        },
{
    let mut s = if report.projects_deleted || report.status_deleted {
        chars_of("已删除项目索引记录: ")
    } else {
        chars_of("项目索引记录可能已不存在: ")
    };
    push_str(&mut s, report.normalized_root.as_str());
    to_string(&s)
}

} // verus!
