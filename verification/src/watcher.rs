//! The table of watched projects and the routing of changed paths.
//!
//! A project root is watched at most once. A watched root that holds nested
//! projects is never indexed itself: a changed path goes to the nested
//! project whose root is its longest prefix, and a path below none is
//! dropped. The operating system's watcher lives outside; this table says
//! what it has to do.

use crate::paths::{is_within, path_within};
use crate::strings::{list_contains, str_eq};
use crate::text::chars_of;
use vstd::prelude::*;

verus! {

/// Milliseconds of quiet after which a burst of changes is handed on, where
/// the configuration names none.
pub const DEFAULT_DEBOUNCE_MS: u64 = 180000;

/// A nested project of a watched root.
pub struct NestedProject {
    pub relative_path: String,
    pub absolute_path: String,
}

/// One watched project.
pub struct WatchSession {
    pub project_key: String,
    pub debounce_ms: u64,
    pub nested: Vec<NestedProject>,
}

/// What became of a request to watch.
#[derive(Clone, Copy, Debug, PartialEq, Eq, Structural)]
pub enum WatchStart {
    /// Watching is switched off: nothing was started.
    Disabled,
    /// The project is watched already: nothing was started.
    AlreadyWatching,
    /// The project is watched from now on.
    Started,
}

/// The table of watched projects, and the switch that lets watches start.
pub struct WatcherManager {
    pub sessions: Vec<WatchSession>,
    pub auto_index_enabled: bool,
}

/// The roots of the nested projects.
pub open spec fn roots_of(nested: Seq<NestedProject>) -> Seq<Seq<char>> {
    Seq::new(nested.len(), |i: int| nested[i].absolute_path@)
}

/// `owner` is the root among `roots` that `path` belongs to: the longest one
/// that `path` lies within.
pub open spec fn is_owner(roots: Seq<Seq<char>>, path: Seq<char>, owner: Seq<char>) -> bool {
    &&& roots.contains(owner)
    &&& path_within(path, owner)
    &&& forall|j: int|
        0 <= j < roots.len() && path_within(path, #[trigger] roots[j]) ==> roots[j].len()
            <= owner.len()
}

/// `owner` owns one of the paths `changed`.
pub open spec fn owns_one(roots: Seq<Seq<char>>, changed: Seq<Seq<char>>, owner: Seq<char>) -> bool {
    exists|k: int| 0 <= k < changed.len() && is_owner(roots, #[trigger] changed[k], owner)
}

/// `first` owns one of the paths `changed` before `second` owns any.
pub open spec fn owns_earlier(
    roots: Seq<Seq<char>>,
    changed: Seq<Seq<char>>,
    first: Seq<char>,
    second: Seq<char>,
) -> bool {
    exists|k: int|
        {
            &&& 0 <= k < changed.len()
            &&& is_owner(roots, #[trigger] changed[k], first)
            &&& forall|m: int| 0 <= m <= k ==> !is_owner(roots, #[trigger] changed[m], second)
        }
}

/// `targets` are the roots that own a path of `changed`, each once, in the
/// order in which their first paths come.
pub open spec fn is_routing(
    targets: Seq<Seq<char>>,
    roots: Seq<Seq<char>>,
    changed: Seq<Seq<char>>,
) -> bool {
    &&& targets.no_duplicates()
    &&& forall|i: int| 0 <= i < targets.len() ==> owns_one(roots, changed, #[trigger] targets[i])
    &&& forall|k: int, owner: Seq<char>|
        0 <= k < changed.len() && #[trigger] is_owner(roots, changed[k], owner)
            ==> targets.contains(owner)
    &&& forall|i: int, j: int|
        0 <= i < j < targets.len() ==> owns_earlier(
            roots,
            changed,
            #[trigger] targets[i],
            #[trigger] targets[j],
        )
}

/// A path has at most one owner.
pub proof fn lemma_owner_unique(roots: Seq<Seq<char>>, path: Seq<char>, a: Seq<char>, b: Seq<char>)
    requires
        is_owner(roots, path, a),
        is_owner(roots, path, b),
    ensures
        a == b,
{
    let i = choose|i: int| 0 <= i < roots.len() && roots[i] == a;
    let j = choose|j: int| 0 <= j < roots.len() && roots[j] == b;
    assert(roots[i].len() <= b.len());
    assert(roots[j].len() <= a.len());
    assert(a =~= path.subrange(0, a.len() as int));
    assert(b =~= path.subrange(0, b.len() as int));
}

/// Two children of one parent whose names differ share no path: what lies
/// within one does not lie within the other.
pub proof fn lemma_siblings_share_no_path(
    parent: Seq<char>,
    name: Seq<char>,
    other: Seq<char>,
    path: Seq<char>,
)
    requires
        name.len() > 0,
        other.len() > 0,
        name != other,
        !name.contains('/'),
        !other.contains('/'),
        path_within(path, parent + seq!['/'] + name),
    ensures
        !path_within(path, parent + seq!['/'] + other),
{
    let a = parent + seq!['/'] + name;
    let b = parent + seq!['/'] + other;
    let base = parent.len() + 1;
    if path_within(path, b) {
        assert(a =~= path.subrange(0, a.len() as int));
        assert(b =~= path.subrange(0, b.len() as int));
        assert forall|i: int| 0 <= i < name.len() && i < other.len() implies name[i]
            == other[i] by {
            assert(a[base + i] == name[i]);
            assert(b[base + i] == other[i]);
            assert(a[base + i] == path[base + i]);
            assert(b[base + i] == path[base + i]);
        }
        assert(a.last() == name.last());
        assert(b.last() == other.last());
        assert(name.contains(name.last()));
        assert(other.contains(other.last()));
        if name.len() == other.len() {
            assert(name =~= other);
        } else if name.len() < other.len() {
            assert(path[a.len() as int] == b[a.len() as int]);
            assert(b[a.len() as int] == other[name.len() as int]);
            assert(other.contains(other[name.len() as int]));
        } else {
            assert(path[b.len() as int] == a[b.len() as int]);
            assert(a[b.len() as int] == name[other.len() as int]);
            assert(name.contains(name[other.len() as int]));
        }
    }
}

/// Changes that all lie within one nested project, and within no other,
/// reach that project and nothing else: neither its siblings nor the parent.
pub proof fn lemma_route_to_single_owner(
    roots: Seq<Seq<char>>,
    changed: Seq<Seq<char>>,
    owner: Seq<char>,
    targets: Seq<Seq<char>>,
)
    requires
        roots.contains(owner),
        forall|k: int| 0 <= k < changed.len() ==> path_within(#[trigger] changed[k], owner),
        forall|k: int, j: int|
            0 <= k < changed.len() && 0 <= j < roots.len() && roots[j] != owner ==> !path_within(
                #[trigger] changed[k],
                #[trigger] roots[j],
            ),
        is_routing(targets, roots, changed),
    ensures
        forall|i: int| 0 <= i < targets.len() ==> #[trigger] targets[i] == owner,
        changed.len() > 0 ==> targets == seq![owner],
        changed.len() == 0 ==> targets.len() == 0,
{
    assert forall|i: int| 0 <= i < targets.len() implies #[trigger] targets[i] == owner by {
        assert(owns_one(roots, changed, targets[i]));
        let k = choose|k: int| 0 <= k < changed.len() && is_owner(roots, changed[k], targets[i]);
        let j = choose|j: int| 0 <= j < roots.len() && roots[j] == targets[i];
        assert(path_within(changed[k], roots[j]));
    }
    if targets.len() > 1 {
        assert(targets[0] == targets[1]);
    }
    if changed.len() > 0 {
        assert(is_owner(roots, changed[0], owner)) by {
            assert forall|j: int|
                0 <= j < roots.len() && path_within(changed[0], #[trigger] roots[j])
                    implies roots[j].len() <= owner.len() by {
                assert(roots[j] == owner);
            }
        }
        assert(targets.contains(owner));
        assert(targets =~= seq![owner]);
    } else {
        if targets.len() > 0 {
            assert(owns_one(roots, changed, targets[0]));
        }
    }
}

/// The nested project that owns `path`: the one with the longest root that
/// `path` lies within.
pub fn owner_of(nested: &Vec<NestedProject>, path: &str) -> (r: Option<usize>)
    ensures
        match r {
            Some(i) => i < nested@.len() && is_owner(
                roots_of(nested@),
                path@,
                nested@[i as int].absolute_path@,
            ),
            None => forall|j: int|
                0 <= j < nested@.len() ==> !path_within(path@, nested@[j].absolute_path@),
        },
{
    let ghost roots = roots_of(nested@);
    let mut best: Option<usize> = None;
    let mut best_len: usize = 0;
    let mut i: usize = 0;
    while i < nested.len()
        invariant
            i <= nested@.len(),
            roots == roots_of(nested@),
            match best {
                Some(b) => {
                    &&& b < i
                    &&& path_within(path@, roots[b as int])
                    &&& best_len == roots[b as int].len()
                    &&& forall|j: int|
                        0 <= j < i && path_within(path@, #[trigger] roots[j]) ==> roots[j].len()
                            <= best_len
                },
                None => forall|j: int| 0 <= j < i ==> !path_within(path@, #[trigger] roots[j]),
            },
        decreases nested.len() - i,
    {
        let root = nested[i].absolute_path.as_str();
        proof {
            assert(roots[i as int] == root@);
        }
        if is_within(path, root) {
            let len = chars_of(root).len();
            let longer = match best {
                Some(_) => len > best_len,
                None => true,
            };
            if longer {
                best = Some(i);
                best_len = len;
            }
        }
        i = i + 1;
    }
    proof {
        match best {
            Some(b) => {
                assert(roots[b as int] == nested@[b as int].absolute_path@);
                assert(roots.contains(roots[b as int]));
            },
            None => {
                assert forall|j: int| 0 <= j < nested@.len() implies !path_within(
                    path@,
                    nested@[j].absolute_path@,
                ) by {
                    assert(roots[j] == nested@[j].absolute_path@);
                }
            },
        }
    }
    best
}

/// The roots of the nested projects to index again after the paths
/// `changed` changed: the owner of each path, each owner once.
pub fn route_changes(nested: &Vec<NestedProject>, changed: &Vec<String>) -> (targets: Vec<String>)
    ensures
        is_routing(targets.deep_view(), roots_of(nested@), changed.deep_view()),
{
    let ghost roots = roots_of(nested@);
    let ghost paths = changed.deep_view();
    let mut targets: Vec<String> = Vec::new();
    let mut k: usize = 0;
    while k < changed.len()
        invariant
            k <= changed@.len(),
            roots == roots_of(nested@),
            paths == changed.deep_view(),
            is_routing(targets.deep_view(), roots, paths.take(k as int)),
        decreases changed.len() - k,
    {
        let ghost before = targets.deep_view();
        let ghost seen = paths.take(k as int);
        let ghost now = paths.take(k as int + 1);
        proof {
            assert(paths[k as int] == changed@[k as int]@);
            assert(now =~= seen.push(paths[k as int]));
            assert forall|i: int| 0 <= i < before.len() implies owns_one(
                roots,
                now,
                #[trigger] before[i],
            ) by {
                assert(owns_one(roots, seen, before[i]));
                let m = choose|m: int| 0 <= m < seen.len() && is_owner(roots, seen[m], before[i]);
                assert(now[m] == seen[m]);
            }
            assert forall|i: int, j: int| 0 <= i < j < before.len() implies owns_earlier(
                roots,
                now,
                #[trigger] before[i],
                #[trigger] before[j],
            ) by {
                assert(owns_earlier(roots, seen, before[i], before[j]));
                let w = choose|w: int|
                    {
                        &&& 0 <= w < seen.len()
                        &&& is_owner(roots, #[trigger] seen[w], before[i])
                        &&& forall|m: int|
                            0 <= m <= w ==> !is_owner(roots, #[trigger] seen[m], before[j])
                    };
                assert(now[w] == seen[w]);
                assert forall|m: int| 0 <= m <= w implies !is_owner(
                    roots,
                    #[trigger] now[m],
                    before[j],
                ) by {
                    assert(now[m] == seen[m]);
                }
            }
        }
        match owner_of(nested, changed[k].as_str()) {
            Some(i) => {
                let root = &nested[i].absolute_path;
                if !list_contains(&targets, root) {
                    targets.push(root.clone());
                    proof {
                        let after = targets.deep_view();
                        assert(after =~= before.push(root@));
                        assert(!before.contains(root@));
                        assert forall|x: int, y: int| 0 <= x < y < after.len() implies after[x]
                            != after[y] by {
                            if y == before.len() {
                                assert(before[x] == after[x]);
                            } else {
                                assert(before[x] != before[y]);
                            }
                        }
                        assert(roots[i as int] == root@);
                        assert forall|x: int, y: int| 0 <= x < y < after.len() implies owns_earlier(
                            roots,
                            now,
                            #[trigger] after[x],
                            #[trigger] after[y],
                        ) by {
                            if y < before.len() {
                                assert(owns_earlier(roots, now, before[x], before[y]));
                            } else {
                                assert(owns_one(roots, seen, before[x]));
                                let w = choose|w: int|
                                    0 <= w < seen.len() && is_owner(roots, seen[w], before[x]);
                                assert(now[w] == seen[w]);
                                assert forall|m: int| 0 <= m <= w implies !is_owner(
                                    roots,
                                    #[trigger] now[m],
                                    root@,
                                ) by {
                                    assert(now[m] == seen[m]);
                                    if is_owner(roots, seen[m], root@) {
                                        assert(before.contains(root@));
                                    }
                                }
                            }
                        }
                        assert forall|x: int| 0 <= x < after.len() implies owns_one(
                            roots,
                            now,
                            #[trigger] after[x],
                        ) by {
                            if x < before.len() {
                                assert(owns_one(roots, now, before[x]));
                            } else {
                                assert(is_owner(roots, now[k as int], after[x]));
                            }
                        }
                        assert forall|m: int, owner: Seq<char>|
                            0 <= m < now.len() && #[trigger] is_owner(
                                roots,
                                now[m],
                                owner,
                            ) implies after.contains(owner) by {
                            if m < k {
                                assert(seen[m] == now[m]);
                                assert(before.contains(owner));
                                let w = choose|w: int| 0 <= w < before.len() && before[w] == owner;
                                assert(after[w] == owner);
                            } else {
                                lemma_owner_unique(roots, now[m], owner, root@);
                                assert(after[before.len() as int] == owner);
                            }
                        }
                    }
                } else {
                    proof {
                        assert forall|m: int, owner: Seq<char>|
                            0 <= m < now.len() && #[trigger] is_owner(
                                roots,
                                now[m],
                                owner,
                            ) implies before.contains(owner) by {
                            if m < k {
                                assert(seen[m] == now[m]);
                            } else {
                                lemma_owner_unique(roots, now[m], owner, root@);
                            }
                        }
                    }
                }
            },
            None => {
                proof {
                    assert forall|m: int, owner: Seq<char>|
                        0 <= m < now.len() && #[trigger] is_owner(
                            roots,
                            now[m],
                            owner,
                        ) implies before.contains(owner) by {
                        if m < k {
                            assert(seen[m] == now[m]);
                        } else {
                            let j = choose|j: int| 0 <= j < roots.len() && roots[j] == owner;
                            assert(roots[j] == nested@[j].absolute_path@);
                        }
                    }
                }
            },
        }
        proof {
            assert(is_routing(targets.deep_view(), roots, now));
        }
        k = k + 1;
    }
    proof {
        assert(paths.take(paths.len() as int) =~= paths);
    }
    targets
}

/// The projects to index again after the paths `changed` changed in a
/// watched project: the project itself where it has no nested projects and
/// something changed, else the nested projects that own a changed path.
pub fn reindex_targets(session: &WatchSession, changed: &Vec<String>) -> (targets: Vec<String>)
    ensures
        session.nested@.len() == 0 ==> targets.deep_view() == if changed@.len() > 0 {
            seq![session.project_key@]
        } else {
            Seq::<Seq<char>>::empty()
        },
        session.nested@.len() > 0 ==> is_routing(
            targets.deep_view(),
            roots_of(session.nested@),
            changed.deep_view(),
        ),
{
    if session.nested.len() == 0 {
        let mut targets: Vec<String> = Vec::new();
        if changed.len() > 0 {
            targets.push(session.project_key.clone());
            proof {
                assert(targets.deep_view() =~= seq![session.project_key@]);
            }
        } else {
            proof {
                assert(targets.deep_view() =~= Seq::<Seq<char>>::empty());
            }
        }
        targets
    } else {
        route_changes(&session.nested, changed)
    }
}

impl WatcherManager {
    /// No project is watched twice.
    pub open spec fn wf(&self) -> bool {
        forall|i: int, j: int|
            0 <= i < j < self.sessions@.len() ==> self.sessions@[i].project_key@
                != self.sessions@[j].project_key@
    }

    /// The keys of the watched projects, in the order in which they started.
    pub open spec fn watched(&self) -> Seq<Seq<char>> {
        Seq::new(self.sessions@.len(), |i: int| self.sessions@[i].project_key@)
    }

    /// A table without watches; watches may start.
    pub fn new() -> (out: Self)
        ensures
            out.wf(),
            out.watched() == Seq::<Seq<char>>::empty(),
            out.auto_index_enabled,
    {
        let out = WatcherManager { sessions: Vec::new(), auto_index_enabled: true };
        proof {
            assert(out.watched() =~= Seq::<Seq<char>>::empty());
        }
        out
    }

    /// Whether watches may start.
    pub fn is_auto_index_enabled(&self) -> (r: bool)
        ensures
            r == self.auto_index_enabled,
    {
        self.auto_index_enabled
    }

    /// Lets watches start, or not. The projects that are watched stay so.
    pub fn set_auto_index_enabled(&mut self, enabled: bool)
        ensures
            final(self).auto_index_enabled == enabled,
            final(self).sessions == old(self).sessions,
    {
        self.auto_index_enabled = enabled;
    }

    /// Where the session of `project_key` stands.
    pub fn find(&self, project_key: &str) -> (r: Option<usize>)
        ensures
            match r {
                Some(i) => i < self.sessions@.len() && self.sessions@[i as int].project_key@
                    == project_key@,
                None => !self.watched().contains(project_key@),
            },
    {
        let mut i: usize = 0;
        while i < self.sessions.len()
            invariant
                i <= self.sessions@.len(),
                forall|j: int| 0 <= j < i ==> self.sessions@[j].project_key@ != project_key@,
            decreases self.sessions.len() - i,
        {
            if str_eq(self.sessions[i].project_key.as_str(), project_key) {
                return Some(i);
            }
            i = i + 1;
        }
        proof {
            if self.watched().contains(project_key@) {
                let j = choose|j: int|
                    0 <= j < self.watched().len() && self.watched()[j] == project_key@;
                assert(self.sessions@[j].project_key@ == project_key@);
            }
        }
        None
    }

    /// Whether `project_key` is watched.
    pub fn is_watching(&self, project_key: &str) -> (r: bool)
        ensures
            r == self.watched().contains(project_key@),
    {
        match self.find(project_key) {
            Some(i) => {
                proof {
                    assert(self.watched()[i as int] == project_key@);
                }
                true
            },
            None => false,
        }
    }

    /// Starts to watch `project_key`, unless watching is switched off or the
    /// project is watched already. The burst window is `debounce_ms`, three
    /// minutes where none is given.
    pub fn start_watching(
        &mut self,
        project_key: String,
        debounce_ms: Option<u64>,
        nested: Vec<NestedProject>,
    ) -> (r: WatchStart)
        requires
            old(self).wf(),
        ensures
            final(self).wf(),
            final(self).auto_index_enabled == old(self).auto_index_enabled,
            r == if !old(self).auto_index_enabled {
                WatchStart::Disabled
            } else if old(self).watched().contains(project_key@) {
                WatchStart::AlreadyWatching
            } else {
                WatchStart::Started
            },
            r != WatchStart::Started ==> final(self).sessions == old(self).sessions,
            r == WatchStart::Started ==> {
                &&& final(self).watched() == old(self).watched().push(project_key@)
                &&& final(self).sessions@.len() == old(self).sessions@.len() + 1
                &&& final(self).sessions@.drop_last() == old(self).sessions@
                &&& final(self).sessions@.last().project_key == project_key
                &&& final(self).sessions@.last().debounce_ms == match debounce_ms {
                    Some(ms) => ms,
                    None => DEFAULT_DEBOUNCE_MS,
                }
                &&& final(self).sessions@.last().nested == nested
            },
    {
        if !self.auto_index_enabled {
            return WatchStart::Disabled;
        }
        if self.is_watching(project_key.as_str()) {
            return WatchStart::AlreadyWatching;
        }
        let window: u64 = match debounce_ms {
            Some(ms) => ms,
            None => DEFAULT_DEBOUNCE_MS,
        };
        let ghost key = project_key@;
        self.sessions.push(WatchSession { project_key, debounce_ms: window, nested });
        proof {
            assert(self.sessions@.drop_last() =~= old(self).sessions@);
            assert(self.watched() =~= old(self).watched().push(key));
            assert forall|i: int, j: int| 0 <= i < j < self.sessions@.len() implies self.sessions@[i].project_key@
                != self.sessions@[j].project_key@ by {
                if j == self.sessions@.len() - 1 {
                    assert(old(self).watched()[i] == self.sessions@[i].project_key@);
                }
            }
        }
        WatchStart::Started
    }

    /// Stops watching `project_key`. Tells whether it was watched. The other
    /// sessions stay as they are, in their order.
    pub fn stop_watching(&mut self, project_key: &str) -> (r: bool)
        requires
            old(self).wf(),
        ensures
            final(self).wf(),
            final(self).auto_index_enabled == old(self).auto_index_enabled,
            r == old(self).watched().contains(project_key@),
            !final(self).watched().contains(project_key@),
            !r ==> final(self).sessions == old(self).sessions,
            r ==> exists|i: int|
                {
                    &&& 0 <= i < old(self).sessions@.len()
                    &&& (#[trigger] old(self).sessions@[i]).project_key@ == project_key@
                    &&& final(self).sessions@ == old(self).sessions@.remove(i)
                },
            forall|k: Seq<char>|
                k != project_key@ ==> (final(self).watched().contains(k) <==> old(
                    self,
                ).watched().contains(k)),
    {
        match self.find(project_key) {
            Some(i) => {
                let ghost before = self.sessions@;
                self.sessions.remove(i);
                proof {
                    assert(old(self).watched()[i as int] == project_key@);
                    if self.watched().contains(project_key@) {
                        let j = choose|j: int|
                            0 <= j < self.watched().len() && self.watched()[j] == project_key@;
                        let b = if j < i { j } else { j + 1 };
                        assert(before[b].project_key@ == project_key@);
                    }
                    assert forall|k: Seq<char>| k != project_key@ implies (
                    self.watched().contains(k) <==> old(self).watched().contains(k)) by {
                        if self.watched().contains(k) {
                            let j = choose|j: int|
                                0 <= j < self.watched().len() && self.watched()[j] == k;
                            let b = if j < i { j } else { j + 1 };
                            assert(old(self).watched()[b] == k);
                        }
                        if old(self).watched().contains(k) {
                            let j = choose|j: int|
                                0 <= j < old(self).watched().len() && old(self).watched()[j] == k;
                            let a = if j < i { j } else { j - 1 };
                            assert(self.watched()[a] == k);
                        }
                    }
                }
                true
            },
            None => false,
        }
    }

    /// Stops every watch. Tells how many there were.
    pub fn stop_all(&mut self) -> (count: usize)
        ensures
            final(self).wf(),
            final(self).auto_index_enabled == old(self).auto_index_enabled,
            count == old(self).sessions@.len(),
            final(self).sessions@.len() == 0,
    {
        let count = self.sessions.len();
        self.sessions = Vec::new();
        count
    }

    /// The keys of the watched projects.
    pub fn get_watching_projects(&self) -> (keys: Vec<String>)
        ensures
            keys.deep_view() == self.watched(),
    {
        let mut keys: Vec<String> = Vec::new();
        let mut i: usize = 0;
        while i < self.sessions.len()
            invariant
                i <= self.sessions@.len(),
                keys@.len() == i,
                forall|j: int| 0 <= j < i ==> (#[trigger] keys@[j])@ == self.sessions@[j].project_key@,
            decreases self.sessions.len() - i,
        {
            keys.push(self.sessions[i].project_key.clone());
            i = i + 1;
        }
        proof {
            assert(keys.deep_view() =~= self.watched());
        }
        keys
    }
}

} // verus!
