//! The ledger of retained blob addresses: for each project key the addresses
//! that are on record as uploaded.

use crate::paths::{normalize_project_path, project_key};
use crate::strings::clone_list;
use vstd::prelude::*;

verus! {

/// The addresses retained for one project.
pub struct ProjectRecord {
    pub project_key: String,
    pub blob_names: Vec<String>,
}

/// The ledger: at most one record for each project key.
pub struct ProjectsFile {
    pub records: Vec<ProjectRecord>,
}

impl ProjectsFile {
    /// No two records are for the same project key.
    pub open spec fn wf(&self) -> bool {
        forall|i: int, j: int|
            0 <= i < j < self.records@.len() ==> self.records@[i].project_key@
                != self.records@[j].project_key@
    }

    /// The ledger as a map from project key to the retained addresses.
    pub open spec fn view(&self) -> Map<Seq<char>, Seq<Seq<char>>> {
        Map::new(
            |k: Seq<char>|
                exists|i: int| 0 <= i < self.records@.len() && self.records@[i].project_key@ == k,
            |k: Seq<char>|
                self.records@[choose|i: int|
                    0 <= i < self.records@.len() && self.records@[i].project_key@
                        == k].blob_names.deep_view(),
        )
    }

    /// A ledger without records.
    pub fn new() -> (out: Self)
        ensures
            out.wf(),
            out@ == Map::<Seq<char>, Seq<Seq<char>>>::empty(),
    {
        let out = ProjectsFile { records: Vec::new() };
        proof {
            assert(out@ =~= Map::<Seq<char>, Seq<Seq<char>>>::empty());
        }
        out
    }

    /// Where the record of `key` stands.
    pub fn find(&self, key: &String) -> (r: Option<usize>)
        ensures
            match r {
                Some(i) => i < self.records@.len() && self.records@[i as int].project_key@
                    == key@,
                None => forall|i: int|
                    0 <= i < self.records@.len() ==> self.records@[i].project_key@ != key@,
            },
            self.wf() ==> (r is Some <==> self@.contains_key(key@)),
            self.wf() ==> (r matches Some(i) ==> self@[key@]
                == self.records@[i as int].blob_names.deep_view()),
    {
        let mut i: usize = 0;
        while i < self.records.len()
            invariant
                i <= self.records@.len(),
                forall|j: int| 0 <= j < i ==> self.records@[j].project_key@ != key@,
            decreases self.records.len() - i,
        {
            if self.records[i].project_key == *key {
                return Some(i);
            }
            i = i + 1;
        }
        None
    }

    /// The first record whose key, normalized, is `normalized_root`.
    pub fn find_normalized(&self, normalized_root: &String) -> (r: Option<usize>)
        ensures
            match r {
                Some(i) => {
                    &&& i < self.records@.len()
                    &&& project_key(self.records@[i as int].project_key@) == normalized_root@
                    &&& forall|j: int|
                        0 <= j < i ==> project_key(self.records@[j].project_key@)
                            != normalized_root@
                },
                None => forall|i: int|
                    0 <= i < self.records@.len() ==> project_key(self.records@[i].project_key@)
                        != normalized_root@,
            },
    {
        let mut i: usize = 0;
        while i < self.records.len()
            invariant
                i <= self.records@.len(),
                forall|j: int|
                    0 <= j < i ==> project_key(self.records@[j].project_key@)
                        != normalized_root@,
            decreases self.records.len() - i,
        {
            let k = normalize_project_path(self.records[i].project_key.as_str());
            if k == *normalized_root {
                return Some(i);
            }
            i = i + 1;
        }
        None
    }

    /// The addresses retained for `key`; none where the ledger has no record.
    pub fn retained(&self, key: &String) -> (out: Vec<String>)
        requires
            self.wf(),
        ensures
            out.deep_view() == if self@.contains_key(key@) {
                self@[key@]
            } else {
                Seq::empty()
            },
    {
        match self.find(key) {
            Some(i) => clone_list(&self.records[i].blob_names),
            None => {
                let out: Vec<String> = Vec::new();
                proof {
                    assert(out.deep_view() =~= Seq::<Seq<char>>::empty());
                }
                out
            },
        }
    }

    /// Puts `blob_names` on record for `key`, in the place of what was there.
    pub fn insert(&mut self, key: String, blob_names: Vec<String>)
        requires
            old(self).wf(),
        ensures
            final(self).wf(),
            final(self)@ == old(self)@.insert(key@, blob_names.deep_view()),
    {
        let ghost k0 = key@;
        let ghost names = blob_names.deep_view();
        let ghost before = self.records@;
        let found = self.find(&key);
        let record = ProjectRecord { project_key: key, blob_names };
        match found {
            Some(i) => {
                self.records[i] = record;
                proof {
                    let after = self.records@;
                    assert(after == before.update(i as int, record));
                    assert forall|k: Seq<char>| #[trigger]
                        self@.contains_key(k) == old(self)@.insert(k0, names).contains_key(
                            k,
                        ) by {
                        if exists|j: int| 0 <= j < after.len() && after[j].project_key@ == k {
                            let j = choose|j: int|
                                0 <= j < after.len() && after[j].project_key@ == k;
                            assert(before[j].project_key@ == k);
                        }
                        if exists|j: int| 0 <= j < before.len() && before[j].project_key@ == k {
                            let j = choose|j: int|
                                0 <= j < before.len() && before[j].project_key@ == k;
                            assert(after[j].project_key@ == k);
                        }
                        if k == k0 {
                            assert(after[i as int].project_key@ == k);
                        }
                    }
                    assert forall|k: Seq<char>| #[trigger] self@.contains_key(k) implies self@[k]
                        == old(self)@.insert(k0, names)[k] by {
                        let j = choose|j: int| 0 <= j < after.len() && after[j].project_key@ == k;
                        if k != k0 {
                            assert(j != i);
                            assert(before[j].project_key@ == k);
                            let j2 = choose|j2: int|
                                0 <= j2 < before.len() && before[j2].project_key@ == k;
                            assert(j2 == j);
                        } else {
                            assert(j == i);
                        }
                    }
                    assert(self@ =~= old(self)@.insert(k0, names));
                }
            },
            None => {
                self.records.push(record);
                proof {
                    let after = self.records@;
                    assert(after == before.push(record));
                    assert forall|k: Seq<char>| #[trigger]
                        self@.contains_key(k) == old(self)@.insert(k0, names).contains_key(
                            k,
                        ) by {
                        if exists|j: int| 0 <= j < after.len() && after[j].project_key@ == k {
                            let j = choose|j: int|
                                0 <= j < after.len() && after[j].project_key@ == k;
                            if j < before.len() {
                                assert(before[j].project_key@ == k);
                            }
                        }
                        if exists|j: int| 0 <= j < before.len() && before[j].project_key@ == k {
                            let j = choose|j: int|
                                0 <= j < before.len() && before[j].project_key@ == k;
                            assert(after[j].project_key@ == k);
                        }
                        if k == k0 {
                            assert(after[before.len() as int].project_key@ == k);
                        }
                    }
                    assert forall|k: Seq<char>| #[trigger] self@.contains_key(k) implies self@[k]
                        == old(self)@.insert(k0, names)[k] by {
                        let j = choose|j: int| 0 <= j < after.len() && after[j].project_key@ == k;
                        if k != k0 {
                            assert(j < before.len());
                            assert(before[j].project_key@ == k);
                            let j2 = choose|j2: int|
                                0 <= j2 < before.len() && before[j2].project_key@ == k;
                            assert(j2 == j);
                        } else {
                            assert(j == before.len());
                        }
                    }
                    assert(self@ =~= old(self)@.insert(k0, names));
                }
            },
        }
    }

    /// Takes the record at position `i` out of the ledger.
    pub fn remove_at(&mut self, i: usize) -> (out: ProjectRecord)
        requires
            old(self).wf(),
            i < old(self).records@.len(),
        ensures
            final(self).wf(),
            out == old(self).records@[i as int],
            final(self).records@ == old(self).records@.remove(i as int),
            final(self)@ == old(self)@.remove(out.project_key@),
    {
        let ghost before = self.records@;
        let out = self.records.remove(i);
        proof {
            let after = self.records@;
            let key = out.project_key@;
            assert forall|k: Seq<char>| #[trigger]
                self@.contains_key(k) == old(self)@.remove(key).contains_key(k) by {
                if exists|j: int| 0 <= j < after.len() && after[j].project_key@ == k {
                    let j = choose|j: int| 0 <= j < after.len() && after[j].project_key@ == k;
                    let b = if j < i { j } else { j + 1 };
                    assert(before[b].project_key@ == k);
                }
                if k != key && exists|j: int|
                    0 <= j < before.len() && before[j].project_key@ == k {
                    let j = choose|j: int| 0 <= j < before.len() && before[j].project_key@ == k;
                    let a = if j < i { j } else { j - 1 };
                    assert(after[a].project_key@ == k);
                }
            }
            assert forall|k: Seq<char>| #[trigger] self@.contains_key(k) implies self@[k] == old(
                self,
            )@.remove(key)[k] by {
                let j = choose|j: int| 0 <= j < after.len() && after[j].project_key@ == k;
                let b = if j < i { j } else { j + 1 };
                assert(before[b].project_key@ == k);
                let j2 = choose|j2: int| 0 <= j2 < before.len() && before[j2].project_key@ == k;
                assert(j2 == b);
            }
            assert(self@ =~= old(self)@.remove(key));
        }
        out
    }
}

} // verus!
