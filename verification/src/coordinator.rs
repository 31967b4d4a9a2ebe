//! One update of one project: which blobs are new, how they are batched, and
//! what is on record when the uploads are over.
//!
//! The scan and the uploads happen outside; this module decides. An update
//! hashes every blob of the scan, keeps the addresses that the ledger already
//! holds, uploads the others batch by batch, and retains the kept addresses
//! together with the addresses of the blobs of the batches that went through.
//! A batch that fails is listed, and the others still count.

use crate::chunker::{strip_chunk_suffix, without_chunk_suffix, BlobItem, BlobModel};
use crate::config::{check_config, config_error, AcemcpConfig, IndexError, RunSettings};
use crate::hasher::{blob_address, hashable, is_hashable, sha256_hex};
use crate::ledger::ProjectsFile;
use crate::status::{IndexStatus, ProjectIndexStatus, StatusModel, MAX_RECENT_FILES};
use crate::strings::{clone_list, is_smallest_distinct, list_contains, smallest_distinct};
use vstd::prelude::*;

verus! {

/// What became of one uploaded batch.
pub enum BatchOutcome {
    /// The service answered with these names, one for each blob it took. The
    /// batch went through where there is at least one.
    Uploaded(Vec<String>),
    /// The upload failed for good, or the answer named no blobs.
    Failed(String),
}

/// The work of one update.
pub struct UpdatePlan {
    /// Addresses of the scan that the ledger already holds.
    pub kept: Vec<String>,
    /// The blobs to upload, in upload order.
    pub new_blobs: Vec<BlobItem>,
    /// The addresses of `new_blobs`.
    pub new_addresses: Vec<String>,
    /// How many blobs the scan found.
    pub total_blobs: usize,
}

/// How an update that retained something ended.
pub struct UpdateReport {
    /// The addresses now on record.
    pub blob_names: Vec<String>,
    /// The batches that failed, counted from 1.
    pub failed_batches: Vec<usize>,
    /// The files that held new blobs, at most five.
    pub recent_files: Vec<String>,
    /// No update of this project had succeeded before.
    pub first_success: bool,
}

/// The addresses of `blobs`.
pub open spec fn addresses(blobs: Seq<BlobModel>) -> Seq<Seq<char>> {
    Seq::new(blobs.len(), |i: int| blob_address(blobs[i].path, blobs[i].content))
}

/// No earlier candidate equals candidate `i`.
pub open spec fn first_occurrence(cand: Seq<Seq<char>>, i: int) -> bool {
    forall|j: int| 0 <= j < i ==> cand[j] != cand[i]
}

/// The positions below `n`, in ascending order, of the candidates that occur
/// there for the first time and are retained (`keep`) or not (`!keep`).
pub open spec fn selected(
    cand: Seq<Seq<char>>,
    retained: Seq<Seq<char>>,
    keep: bool,
    n: int,
) -> Seq<int>
    decreases n,
{
    if n <= 0 {
        Seq::empty()
    } else {
        let rest = selected(cand, retained, keep, n - 1);
        if first_occurrence(cand, n - 1) && retained.contains(cand[n - 1]) == keep {
            rest.push(n - 1)
        } else {
            rest
        }
    }
}

/// The candidates that are already retained, each once, in scan order.
pub open spec fn kept_addresses(cand: Seq<Seq<char>>, retained: Seq<Seq<char>>) -> Seq<
    Seq<char>,
> {
    let picked = selected(cand, retained, true, cand.len() as int);
    Seq::new(picked.len(), |j: int| cand[picked[j]])
}

/// The candidates that are not retained yet, each once, in scan order.
pub open spec fn new_addresses(cand: Seq<Seq<char>>, retained: Seq<Seq<char>>) -> Seq<
    Seq<char>,
> {
    let picked = selected(cand, retained, false, cand.len() as int);
    Seq::new(picked.len(), |j: int| cand[picked[j]])
}

/// `plan` is the plan for the scan `blobs` against the addresses `retained`.
pub open spec fn is_plan(plan: UpdatePlan, blobs: Seq<BlobModel>, retained: Seq<Seq<char>>) -> bool {
    let cand = addresses(blobs);
    let picked = selected(cand, retained, false, cand.len() as int);
    &&& plan.total_blobs == blobs.len()
    &&& plan.kept.deep_view() == kept_addresses(cand, retained)
    &&& plan.new_addresses.deep_view() == new_addresses(cand, retained)
    &&& plan.new_blobs.deep_view() == Seq::new(picked.len(), |j: int| blobs[picked[j]])
}

/// The batch went through and named at least one blob.
pub open spec fn batch_succeeded(outcome: BatchOutcome) -> bool {
    outcome matches BatchOutcome::Uploaded(names) && names@.len() > 0
}

/// Where batch `index` (from 0) begins among `count` new blobs that go in
/// batches of `batch_size`: after the batches before it, and no further than
/// the end.
pub open spec fn batch_start(count: nat, batch_size: nat, index: int) -> int {
    if index * batch_size <= count {
        index * batch_size
    } else {
        count as int
    }
}

/// The addresses of the new blobs that go in batch `index` (from 0).
pub open spec fn batch_addresses(
    new_addresses: Seq<Seq<char>>,
    batch_size: nat,
    index: int,
) -> Seq<Seq<char>> {
    new_addresses.subrange(
        batch_start(new_addresses.len(), batch_size, index),
        batch_start(new_addresses.len(), batch_size, index + 1),
    )
}

/// The addresses of the new blobs that were sent in those of the first `n`
/// batches that went through, in order.
pub open spec fn uploaded_addresses(
    new_addresses: Seq<Seq<char>>,
    batch_size: nat,
    outcomes: Seq<BatchOutcome>,
    n: int,
) -> Seq<Seq<char>>
    decreases n,
{
    if n <= 0 {
        Seq::empty()
    } else if batch_succeeded(outcomes[n - 1]) {
        uploaded_addresses(new_addresses, batch_size, outcomes, n - 1) + batch_addresses(
            new_addresses,
            batch_size,
            n - 1,
        )
    } else {
        uploaded_addresses(new_addresses, batch_size, outcomes, n - 1)
    }
}

/// What an update retains: the kept addresses, and the addresses of the new
/// blobs of the batches that went through.
pub open spec fn retained_after(
    plan: UpdatePlan,
    batch_size: nat,
    outcomes: Seq<BatchOutcome>,
) -> Seq<Seq<char>> {
    plan.kept.deep_view() + uploaded_addresses(
        plan.new_addresses.deep_view(),
        batch_size,
        outcomes,
        outcomes.len() as int,
    )
}

/// Those of the first `n` batches that failed, counted from 1.
pub open spec fn failed_batches(outcomes: Seq<BatchOutcome>, n: int) -> Seq<usize>
    decreases n,
{
    if n <= 0 {
        Seq::empty()
    } else if batch_succeeded(outcomes[n - 1]) {
        failed_batches(outcomes, n - 1)
    } else {
        failed_batches(outcomes, n - 1).push(n as usize)
    }
}

/// The file paths of `blobs`, chunk suffixes taken off.
pub open spec fn file_paths(blobs: Seq<BlobModel>) -> Seq<Seq<char>> {
    Seq::new(blobs.len(), |i: int| without_chunk_suffix(blobs[i].path))
}

/// How many batches `count` blobs make.
pub open spec fn batch_count(count: nat, batch_size: nat) -> nat {
    if count == 0 {
        0
    } else {
        ((count - 1) / (batch_size as int) + 1) as nat
    }
}

/// The status of a project whose update succeeded.
pub open spec fn synced_status(
    before: StatusModel,
    indexed: usize,
    recent: Seq<Seq<char>>,
    now: i64,
) -> StatusModel {
    StatusModel {
        status: IndexStatus::Synced,
        progress: 100,
        indexed_files: indexed,
        pending_files: 0,
        last_success_time: Some(now),
        last_error: None,
        recent_indexed_files: if recent.len() > 0 {
            recent
        } else {
            before.recent_indexed_files
        },
        ..before
    }
}

/// The status of a project whose update failed.
pub open spec fn failed_status(before: StatusModel, error: Seq<char>, now: i64) -> StatusModel {
    StatusModel {
        status: IndexStatus::Failed,
        last_error: Some(error),
        last_failure_time: Some(now),
        ..before
    }
}

/// What `selected` holds: exactly the positions below `n` that it describes,
/// in ascending order.
pub proof fn lemma_selected(cand: Seq<Seq<char>>, retained: Seq<Seq<char>>, keep: bool, n: int)
    requires
        0 <= n <= cand.len(),
    ensures
        forall|j: int|
            0 <= j < selected(cand, retained, keep, n).len() ==> {
                let i = #[trigger] selected(cand, retained, keep, n)[j];
                0 <= i < n && first_occurrence(cand, i) && retained.contains(cand[i]) == keep
            },
        forall|j: int, k: int|
            0 <= j < k < selected(cand, retained, keep, n).len() ==> selected(
                cand,
                retained,
                keep,
                n,
            )[j] < selected(cand, retained, keep, n)[k],
        forall|i: int|
            0 <= i < n && first_occurrence(cand, i) && retained.contains(cand[i]) == keep
                ==> selected(cand, retained, keep, n).contains(i),
    decreases n,
{
    if n > 0 {
        lemma_selected(cand, retained, keep, n - 1);
        let rest = selected(cand, retained, keep, n - 1);
        let all = selected(cand, retained, keep, n);
        assert forall|i: int|
            0 <= i < n && first_occurrence(cand, i) && retained.contains(cand[i])
                == keep implies all.contains(i) by {
            if i < n - 1 {
                let j = choose|j: int| 0 <= j < rest.len() && rest[j] == i;
                assert(all[j] == i);
            } else {
                assert(all[all.len() - 1] == i);
            }
        }
    }
}

/// Every candidate has a first occurrence.
proof fn lemma_first_occurrence_exists(cand: Seq<Seq<char>>, i: int)
    requires
        0 <= i < cand.len(),
    ensures
        exists|f: int| 0 <= f <= i && cand[f] == cand[i] && first_occurrence(cand, f),
    decreases i,
{
    if !first_occurrence(cand, i) {
        let j = choose|j: int| 0 <= j < i && cand[j] == cand[i];
        lemma_first_occurrence_exists(cand, j);
        let f = choose|f: int| 0 <= f <= j && cand[f] == cand[j] && first_occurrence(cand, f);
        assert(0 <= f <= i && cand[f] == cand[i] && first_occurrence(cand, f));
    }
}

/// The kept addresses are the candidates that are retained, the new ones
/// those that are not, and neither list names an address twice.
pub proof fn lemma_partition(cand: Seq<Seq<char>>, retained: Seq<Seq<char>>)
    ensures
        kept_addresses(cand, retained).no_duplicates(),
        new_addresses(cand, retained).no_duplicates(),
        forall|a: Seq<char>| #[trigger]
            kept_addresses(cand, retained).contains(a) <==> cand.contains(a) && retained.contains(
                a,
            ),
        forall|a: Seq<char>| #[trigger]
            new_addresses(cand, retained).contains(a) <==> cand.contains(a) && !retained.contains(
                a,
            ),
{
    lemma_partition_side(cand, retained, true);
    lemma_partition_side(cand, retained, false);
}

proof fn lemma_partition_side(cand: Seq<Seq<char>>, retained: Seq<Seq<char>>, keep: bool)
    ensures
        ({
            let picked = selected(cand, retained, keep, cand.len() as int);
            let out = Seq::new(picked.len(), |j: int| cand[picked[j]]);
            &&& out.no_duplicates()
            &&& forall|a: Seq<char>| #[trigger]
                out.contains(a) <==> cand.contains(a) && retained.contains(a) == keep
        }),
{
    let n = cand.len() as int;
    let picked = selected(cand, retained, keep, n);
    let out = Seq::new(picked.len(), |j: int| cand[picked[j]]);
    lemma_selected(cand, retained, keep, n);
    assert forall|j: int, k: int| 0 <= j < k < out.len() implies out[j] != out[k] by {
        assert(picked[j] < picked[k]);
        assert(first_occurrence(cand, picked[k]));
    }
    assert forall|a: Seq<char>| #[trigger]
        out.contains(a) <==> cand.contains(a) && retained.contains(a) == keep by {
        if out.contains(a) {
            let j = choose|j: int| 0 <= j < out.len() && out[j] == a;
            let i = picked[j];
            assert(cand[i] == a);
        }
        if cand.contains(a) && retained.contains(a) == keep {
            let i = choose|i: int| 0 <= i < cand.len() && cand[i] == a;
            lemma_first_occurrence_exists(cand, i);
            let f = choose|f: int| 0 <= f <= i && cand[f] == cand[i] && first_occurrence(cand, f);
            assert(picked.contains(f));
            let j = choose|j: int| 0 <= j < picked.len() && picked[j] == f;
            assert(out[j] == a);
        }
    }
}

/// After an update the ledger holds the addresses that were retained before
/// and are still in the scan, and the addresses of what was uploaded: nothing
/// else, so the addresses of deleted or renamed files are gone.
pub proof fn lemma_retained_after_update(
    cand: Seq<Seq<char>>,
    retained: Seq<Seq<char>>,
    uploaded: Seq<Seq<char>>,
)
    ensures
        forall|a: Seq<char>| #[trigger]
            (kept_addresses(cand, retained) + uploaded).contains(a) <==> (cand.contains(a)
                && retained.contains(a)) || uploaded.contains(a),
{
    lemma_partition(cand, retained);
    let kept = kept_addresses(cand, retained);
    assert forall|a: Seq<char>| #[trigger]
        (kept + uploaded).contains(a) <==> (cand.contains(a) && retained.contains(a))
            || uploaded.contains(a) by {
        if (kept + uploaded).contains(a) {
            let i = choose|i: int| 0 <= i < (kept + uploaded).len() && (kept + uploaded)[i] == a;
            if i < kept.len() {
                assert(kept[i] == a);
                assert(kept.contains(a));
            } else {
                assert(uploaded[i - kept.len()] == a);
            }
        }
        if kept.contains(a) {
            let i = choose|i: int| 0 <= i < kept.len() && kept[i] == a;
            assert((kept + uploaded)[i] == a);
        }
        if uploaded.contains(a) {
            let i = choose|i: int| 0 <= i < uploaded.len() && uploaded[i] == a;
            assert((kept + uploaded)[kept.len() + i] == a);
        }
    }
}

/// A scan whose addresses are all retained has nothing to upload. The
/// address of a blob is made of its path and its content alone, so a file
/// whose bytes did not change adds no new blob.
pub proof fn lemma_retained_blobs_are_not_new(blobs: Seq<BlobModel>, retained: Seq<Seq<char>>)
    requires
        forall|i: int|
            0 <= i < blobs.len() ==> retained.contains(
                blob_address(#[trigger] blobs[i].path, blobs[i].content),
            ),
    ensures
        new_addresses(addresses(blobs), retained).len() == 0,
{
    let cand = addresses(blobs);
    let fresh = new_addresses(cand, retained);
    lemma_partition(cand, retained);
    if fresh.len() > 0 {
        assert(fresh.contains(fresh[0]));
        let i = choose|i: int| 0 <= i < cand.len() && cand[i] == fresh[0];
        assert(retained.contains(blob_address(blobs[i].path, blobs[i].content)));
    }
}

/// What was uploaded is new: every address of a batch that went through is
/// one of the new addresses.
pub proof fn lemma_uploaded_are_new(
    new_addresses: Seq<Seq<char>>,
    batch_size: nat,
    outcomes: Seq<BatchOutcome>,
    n: int,
)
    requires
        0 <= n <= outcomes.len(),
    ensures
        forall|a: Seq<char>|
            uploaded_addresses(new_addresses, batch_size, outcomes, n).contains(a)
                ==> new_addresses.contains(a),
    decreases n,
{
    if n > 0 {
        lemma_uploaded_are_new(new_addresses, batch_size, outcomes, n - 1);
        lemma_batch_start(new_addresses.len(), batch_size, n - 1);
        let all = uploaded_addresses(new_addresses, batch_size, outcomes, n);
        let rest = uploaded_addresses(new_addresses, batch_size, outcomes, n - 1);
        let batch = batch_addresses(new_addresses, batch_size, n - 1);
        assert forall|a: Seq<char>| all.contains(a) implies new_addresses.contains(a) by {
            let i = choose|i: int| 0 <= i < all.len() && all[i] == a;
            if i < rest.len() {
                assert(rest[i] == a);
                assert(rest.contains(a));
            } else {
                let j = batch_start(new_addresses.len(), batch_size, n - 1) + (i - rest.len());
                assert(batch[i - rest.len()] == a);
                assert(new_addresses[j] == a);
            }
        }
    }
}

/// `a` stands in `list` before position `limit`.
pub open spec fn stands_before(list: Seq<Seq<char>>, limit: int, a: Seq<char>) -> bool {
    exists|p: int| 0 <= p < limit && p < list.len() && #[trigger] list[p] == a
}

/// What was uploaded of a list without repeats has no repeats, and each of
/// its addresses stands in the list before the end of the last batch.
proof fn lemma_uploaded_without_repeats(
    new_addresses: Seq<Seq<char>>,
    batch_size: nat,
    outcomes: Seq<BatchOutcome>,
    n: int,
)
    requires
        0 <= n <= outcomes.len(),
        new_addresses.no_duplicates(),
    ensures
        uploaded_addresses(new_addresses, batch_size, outcomes, n).no_duplicates(),
        forall|i: int|
            0 <= i < uploaded_addresses(new_addresses, batch_size, outcomes, n).len()
                ==> stands_before(
                new_addresses,
                batch_start(new_addresses.len(), batch_size, n),
                #[trigger] uploaded_addresses(new_addresses, batch_size, outcomes, n)[i],
            ),
    decreases n,
{
    lemma_batch_start(new_addresses.len(), batch_size, n);
    if n > 0 {
        lemma_uploaded_without_repeats(new_addresses, batch_size, outcomes, n - 1);
        lemma_batch_start(new_addresses.len(), batch_size, n - 1);
        let all = uploaded_addresses(new_addresses, batch_size, outcomes, n);
        let rest = uploaded_addresses(new_addresses, batch_size, outcomes, n - 1);
        let from = batch_start(new_addresses.len(), batch_size, n - 1);
        let to = batch_start(new_addresses.len(), batch_size, n);
        assert forall|i: int| 0 <= i < all.len() implies stands_before(
            new_addresses,
            to,
            #[trigger] all[i],
        ) by {
            if i < rest.len() {
                assert(stands_before(new_addresses, from, rest[i]));
                let p = choose|p: int|
                    0 <= p < from && p < new_addresses.len() && #[trigger] new_addresses[p]
                        == rest[i];
                assert(new_addresses[p] == all[i]);
            } else {
                assert(new_addresses[from + (i - rest.len())] == all[i]);
            }
        }
        assert forall|i: int, j: int| 0 <= i < j < all.len() implies all[i] != all[j] by {
            if j < rest.len() {
                assert(rest[i] != rest[j]);
            } else if i < rest.len() {
                assert(stands_before(new_addresses, from, rest[i]));
                let p = choose|p: int|
                    0 <= p < from && p < new_addresses.len() && #[trigger] new_addresses[p]
                        == rest[i];
                assert(new_addresses[from + (j - rest.len())] == all[j]);
            } else {
                assert(new_addresses[from + (i - rest.len())] == all[i]);
                assert(new_addresses[from + (j - rest.len())] == all[j]);
            }
        }
    }
}

/// What an update retains names no address twice.
pub proof fn lemma_retained_without_repeats(
    cand: Seq<Seq<char>>,
    retained: Seq<Seq<char>>,
    batch_size: nat,
    outcomes: Seq<BatchOutcome>,
)
    ensures
        (kept_addresses(cand, retained) + uploaded_addresses(
            new_addresses(cand, retained),
            batch_size,
            outcomes,
            outcomes.len() as int,
        )).no_duplicates(),
{
    let kept = kept_addresses(cand, retained);
    let fresh = new_addresses(cand, retained);
    let up = uploaded_addresses(fresh, batch_size, outcomes, outcomes.len() as int);
    lemma_partition(cand, retained);
    lemma_uploaded_without_repeats(fresh, batch_size, outcomes, outcomes.len() as int);
    lemma_uploaded_are_new(fresh, batch_size, outcomes, outcomes.len() as int);
    assert forall|i: int, j: int| 0 <= i < j < (kept + up).len() implies (kept + up)[i] != (kept
        + up)[j] by {
        if j < kept.len() {
            assert(kept[i] != kept[j]);
        } else if i < kept.len() {
            let a = up[j - kept.len()];
            assert(up.contains(a));
            assert(fresh.contains(a));
            if kept[i] == a {
                assert(kept.contains(a));
            }
        } else {
            assert(up[i - kept.len()] != up[j - kept.len()]);
        }
    }
}

/// Batches begin where the batch before ends, inside the list of new blobs.
pub proof fn lemma_batch_start(count: nat, batch_size: nat, index: int)
    requires
        index >= 0,
    ensures
        0 <= batch_start(count, batch_size, index) <= batch_start(count, batch_size, index + 1)
            <= count,
        batch_start(count, batch_size, 0) == 0,
        batch_size > 0 && index >= batch_count(count, batch_size) ==> batch_start(
            count,
            batch_size,
            index,
        ) == count,
{
    assert((index + 1) * batch_size == index * batch_size + batch_size) by (nonlinear_arith);
    assert(0 <= index * batch_size) by (nonlinear_arith)
        requires
            index >= 0,
    ;
    assert(0 * batch_size == 0) by (nonlinear_arith);
    if batch_size > 0 && count > 0 && index >= batch_count(count, batch_size) {
        let q = (count - 1) / (batch_size as int);
        vstd::arithmetic::div_mod::lemma_fundamental_div_mod((count - 1) as int, batch_size as int);
        vstd::arithmetic::div_mod::lemma_mod_bound((count - 1) as int, batch_size as int);
        assert(batch_size * q + batch_size == (q + 1) * batch_size) by (nonlinear_arith);
        assert((q + 1) * batch_size <= index * batch_size) by (nonlinear_arith)
            requires
                q + 1 <= index,
                batch_size > 0,
        ;
    }
}

/// Where the first `n` batches all went through, what was uploaded is the
/// list of new addresses up to the end of batch `n`.
proof fn lemma_uploaded_prefix(
    new_addresses: Seq<Seq<char>>,
    batch_size: nat,
    outcomes: Seq<BatchOutcome>,
    n: int,
)
    requires
        0 <= n <= outcomes.len(),
        forall|i: int| 0 <= i < n ==> batch_succeeded(#[trigger] outcomes[i]),
    ensures
        uploaded_addresses(new_addresses, batch_size, outcomes, n) == new_addresses.subrange(
            0,
            batch_start(new_addresses.len(), batch_size, n),
        ),
    decreases n,
{
    lemma_batch_start(new_addresses.len(), batch_size, n);
    if n > 0 {
        lemma_uploaded_prefix(new_addresses, batch_size, outcomes, n - 1);
        lemma_batch_start(new_addresses.len(), batch_size, n - 1);
        let a = batch_start(new_addresses.len(), batch_size, n - 1);
        let b = batch_start(new_addresses.len(), batch_size, n);
        assert(new_addresses.subrange(0, a) + new_addresses.subrange(a, b)
            =~= new_addresses.subrange(0, b));
    } else {
        assert(new_addresses.subrange(0, 0) =~= Seq::<Seq<char>>::empty());
    }
}

/// Where every batch went through, every new address was uploaded.
pub proof fn lemma_all_batches_upload_everything(
    new_addresses: Seq<Seq<char>>,
    batch_size: nat,
    outcomes: Seq<BatchOutcome>,
)
    requires
        batch_size > 0,
        outcomes.len() >= batch_count(new_addresses.len(), batch_size),
        forall|i: int| 0 <= i < outcomes.len() ==> batch_succeeded(#[trigger] outcomes[i]),
    ensures
        uploaded_addresses(new_addresses, batch_size, outcomes, outcomes.len() as int)
            == new_addresses,
{
    lemma_uploaded_prefix(new_addresses, batch_size, outcomes, outcomes.len() as int);
    lemma_batch_start(new_addresses.len(), batch_size, outcomes.len() as int);
    assert(new_addresses.subrange(0, new_addresses.len() as int) =~= new_addresses);
}

/// An update on a scan that was uploaded in full has nothing to upload and
/// retains, as a set, what was retained.
proof fn lemma_nothing_new_after_upload(
    cand: Seq<Seq<char>>,
    retained: Seq<Seq<char>>,
    uploaded: Seq<Seq<char>>,
)
    requires
        uploaded == new_addresses(cand, retained),
    ensures
        ({
            let first = kept_addresses(cand, retained) + uploaded;
            &&& new_addresses(cand, first).len() == 0
            &&& kept_addresses(cand, first).to_set() == first.to_set()
        }),
{
    let first = kept_addresses(cand, retained) + uploaded;
    let second = kept_addresses(cand, first);
    lemma_partition(cand, retained);
    lemma_retained_after_update(cand, retained, uploaded);
    assert forall|a: Seq<char>| first.contains(a) <==> cand.contains(a) by {}
    lemma_partition(cand, first);
    let again = new_addresses(cand, first);
    if again.len() > 0 {
        assert(again.contains(again[0]));
    }
    assert forall|a: Seq<char>| second.to_set().contains(a) <==> first.to_set().contains(a) by {
        assert(second.contains(a) <==> second.to_set().contains(a));
        assert(first.contains(a) <==> first.to_set().contains(a));
    }
    assert(second.to_set() =~= first.to_set());
}

/// An update that follows one whose batches all went through, on the same
/// scan, has no new address, so it uploads nothing, and it retains, as a
/// set, what was retained. What the service answered plays no part.
pub proof fn lemma_update_idempotent(
    cand: Seq<Seq<char>>,
    retained: Seq<Seq<char>>,
    batch_size: nat,
    outcomes: Seq<BatchOutcome>,
)
    requires
        batch_size > 0,
        outcomes.len() >= batch_count(new_addresses(cand, retained).len(), batch_size),
        forall|i: int| 0 <= i < outcomes.len() ==> batch_succeeded(#[trigger] outcomes[i]),
    ensures
        ({
            let first = kept_addresses(cand, retained) + uploaded_addresses(
                new_addresses(cand, retained),
                batch_size,
                outcomes,
                outcomes.len() as int,
            );
            let second = kept_addresses(cand, first) + uploaded_addresses(
                new_addresses(cand, first),
                batch_size,
                Seq::<BatchOutcome>::empty(),
                0,
            );
            &&& new_addresses(cand, first).len() == 0
            &&& batch_count(new_addresses(cand, first).len(), batch_size) == 0
            &&& second.to_set() == first.to_set()
        }),
{
    let fresh = new_addresses(cand, retained);
    lemma_all_batches_upload_everything(fresh, batch_size, outcomes);
    lemma_nothing_new_after_upload(cand, retained, fresh);
    let first = kept_addresses(cand, retained) + fresh;
    assert(kept_addresses(cand, first) + Seq::<Seq<char>>::empty() =~= kept_addresses(
        cand,
        first,
    ));
}

/// The list of failed batches names exactly the batches that did not go
/// through, counted from 1, in ascending order.
pub proof fn lemma_failed_batches(outcomes: Seq<BatchOutcome>, n: int)
    requires
        0 <= n <= outcomes.len(),
        n <= usize::MAX,
    ensures
        forall|k: int|
            1 <= k <= n ==> (failed_batches(outcomes, n).contains(k as usize) <==> !batch_succeeded(
                #[trigger] outcomes[k - 1],
            )),
        forall|i: int|
            0 <= i < failed_batches(outcomes, n).len() ==> 1 <= #[trigger] failed_batches(
                outcomes,
                n,
            )[i] <= n,
        forall|i: int, j: int|
            0 <= i < j < failed_batches(outcomes, n).len() ==> failed_batches(outcomes, n)[i]
                < failed_batches(outcomes, n)[j],
    decreases n,
{
    if n > 0 {
        lemma_failed_batches(outcomes, n - 1);
        let rest = failed_batches(outcomes, n - 1);
        let all = failed_batches(outcomes, n);
        assert forall|k: int| 1 <= k <= n implies (all.contains(k as usize) <==> !batch_succeeded(
            #[trigger] outcomes[k - 1],
        )) by {
            if k < n {
                if rest.contains(k as usize) {
                    let i = choose|i: int| 0 <= i < rest.len() && rest[i] == k as usize;
                    assert(all[i] == k as usize);
                }
                if all.contains(k as usize) {
                    let i = choose|i: int| 0 <= i < all.len() && all[i] == k as usize;
                    if i < rest.len() {
                        assert(rest[i] == k as usize);
                    }
                }
            } else {
                if !batch_succeeded(outcomes[n - 1]) {
                    assert(all[all.len() - 1] == n as usize);
                } else if all.contains(k as usize) {
                    let i = choose|i: int| 0 <= i < all.len() && all[i] == k as usize;
                    assert(rest[i] <= n - 1);
                }
            }
        }
    }
}

/// The address of every new blob that was sent in a batch that went
/// through is retained, and so is every kept address, whatever became of the
/// other batches.
pub proof fn lemma_successful_batches_are_retained(
    kept: Seq<Seq<char>>,
    new_addresses: Seq<Seq<char>>,
    batch_size: nat,
    outcomes: Seq<BatchOutcome>,
    n: int,
    k: int,
    j: int,
)
    requires
        0 <= k < n <= outcomes.len(),
        batch_succeeded(outcomes[k]),
        batch_start(new_addresses.len(), batch_size, k) <= j < batch_start(
            new_addresses.len(),
            batch_size,
            k + 1,
        ),
    ensures
        (kept + uploaded_addresses(new_addresses, batch_size, outcomes, n)).contains(
            new_addresses[j],
        ),
        forall|a: Seq<char>|
            kept.contains(a) ==> (kept + uploaded_addresses(
                new_addresses,
                batch_size,
                outcomes,
                n,
            )).contains(a),
    decreases n,
{
    let all = uploaded_addresses(new_addresses, batch_size, outcomes, n);
    let rest = uploaded_addresses(new_addresses, batch_size, outcomes, n - 1);
    let name = new_addresses[j];
    lemma_batch_start(new_addresses.len(), batch_size, k);
    if k == n - 1 {
        let batch = batch_addresses(new_addresses, batch_size, k);
        let i = j - batch_start(new_addresses.len(), batch_size, k);
        assert(batch[i] == name);
        assert(all[rest.len() + i] == name);
        assert((kept + all)[kept.len() + rest.len() + i] == name);
    } else {
        lemma_successful_batches_are_retained(kept, new_addresses, batch_size, outcomes, n - 1, k, j);
        let i = choose|i: int| 0 <= i < (kept + rest).len() && (kept + rest)[i] == name;
        if i < kept.len() {
            assert((kept + all)[i] == name);
        } else {
            assert(rest[i - kept.len()] == name);
            assert(all[i - kept.len()] == name);
            assert((kept + all)[i] == name);
        }
    }
    assert forall|a: Seq<char>| kept.contains(a) implies (kept + all).contains(a) by {
        let i = choose|i: int| 0 <= i < kept.len() && kept[i] == a;
        assert((kept + all)[i] == a);
    }
}

/// Every blob is short enough to be hashed.
pub open spec fn all_hashable(blobs: Seq<BlobModel>) -> bool {
    forall|i: int| 0 <= i < blobs.len() ==> hashable(#[trigger] blobs[i].path, blobs[i].content)
}

/// Whether every blob is short enough to be hashed.
pub fn can_hash_all(blobs: &Vec<BlobItem>) -> (r: bool)
    ensures
        r == all_hashable(blobs.deep_view()),
{
    let mut i: usize = 0;
    while i < blobs.len()
        invariant
            i <= blobs@.len(),
            forall|k: int|
                0 <= k < i ==> hashable(
                    #[trigger] blobs.deep_view()[k].path,
                    blobs.deep_view()[k].content,
                ),
        decreases blobs.len() - i,
    {
        proof {
            assert(blobs.deep_view()[i as int] == blobs@[i as int]@);
        }
        if !is_hashable(blobs[i].path.as_str(), blobs[i].content.as_str()) {
            proof {
                let b = blobs.deep_view()[i as int];
                assert(!hashable(b.path, b.content));
            }
            return false;
        }
        i = i + 1;
    }
    true
}

/// Hashes the blobs of a scan and parts them into those whose address the
/// ledger holds and those to upload. An address that occurs twice in the scan
/// counts once, for the first blob that has it.
pub fn plan_update(blobs: &Vec<BlobItem>, retained: &Vec<String>) -> (plan: UpdatePlan)
    requires
        all_hashable(blobs.deep_view()),
    ensures
        is_plan(plan, blobs.deep_view(), retained.deep_view()),
{
    let ghost bs = blobs.deep_view();
    let ghost cand = addresses(bs);
    let ghost rs = retained.deep_view();
    let mut seen: Vec<String> = Vec::new();
    let mut kept: Vec<String> = Vec::new();
    let mut new_blobs: Vec<BlobItem> = Vec::new();
    let mut new_names: Vec<String> = Vec::new();
    let mut i: usize = 0;
    while i < blobs.len()
        invariant
            i <= blobs.len(),
            bs == blobs.deep_view(),
            all_hashable(bs),
            cand == addresses(bs),
            rs == retained.deep_view(),
            seen@.len() == i,
            forall|j: int| 0 <= j < i ==> (#[trigger] seen@[j])@ == cand[j],
            kept@.len() == selected(cand, rs, true, i as int).len(),
            forall|j: int|
                0 <= j < kept@.len() ==> (#[trigger] kept@[j])@ == cand[selected(
                    cand,
                    rs,
                    true,
                    i as int,
                )[j]],
            new_names@.len() == selected(cand, rs, false, i as int).len(),
            new_blobs@.len() == new_names@.len(),
            forall|j: int|
                0 <= j < new_names@.len() ==> (#[trigger] new_names@[j])@ == cand[selected(
                    cand,
                    rs,
                    false,
                    i as int,
                )[j]],
            forall|j: int|
                0 <= j < new_blobs@.len() ==> (#[trigger] new_blobs@[j])@ == bs[selected(
                    cand,
                    rs,
                    false,
                    i as int,
                )[j]],
        decreases blobs.len() - i,
    {
        let blob = &blobs[i];
        proof {
            assert(bs[i as int] == blob@);
            assert(hashable(bs[i as int].path, bs[i as int].content));
        }
        let hash = sha256_hex(blob.path.as_str(), blob.content.as_str());
        proof {
            assert(hash@ == cand[i as int]);
            lemma_selected(cand, rs, true, i as int);
            lemma_selected(cand, rs, false, i as int);
        }
        let repeated = list_contains(&seen, &hash);
        proof {
            if repeated {
                let j = choose|j: int|
                    0 <= j < seen.deep_view().len() && seen.deep_view()[j] == hash@;
                assert(seen@[j]@ == cand[j]);
                assert(!first_occurrence(cand, i as int));
            } else {
                assert forall|j: int| 0 <= j < i implies cand[j] != cand[i as int] by {
                    assert(seen.deep_view()[j] == seen@[j]@);
                }
                assert(first_occurrence(cand, i as int));
            }
        }
        if !repeated {
            if list_contains(retained, &hash) {
                kept.push(hash.clone());
            } else {
                new_names.push(hash.clone());
                new_blobs.push(blob.duplicate());
            }
        }
        seen.push(hash);
        i = i + 1;
    }
    let plan = UpdatePlan { kept, new_blobs, new_addresses: new_names, total_blobs: blobs.len() };
    proof {
        assert(plan.kept.deep_view() =~= kept_addresses(cand, rs));
        assert(plan.new_addresses.deep_view() =~= new_addresses(cand, rs));
        let picked = selected(cand, rs, false, cand.len() as int);
        assert(plan.new_blobs.deep_view() =~= Seq::new(picked.len(), |j: int| bs[picked[j]]));
    }
    plan
}

/// How many batches of `batch_size` the `count` new blobs make.
pub fn count_batches(count: usize, batch_size: usize) -> (n: usize)
    requires
        batch_size > 0,
    ensures
        n == batch_count(count as nat, batch_size as nat),
{
    if count == 0 {
        0
    } else {
        (count - 1) / batch_size + 1
    }
}

/// The positions `start..end` of the blobs of batch `index` (from 0): batch
/// after batch of `batch_size` blobs, the last one with what is left.
pub fn batch_range(count: usize, batch_size: usize, index: usize) -> (range: (usize, usize))
    requires
        batch_size > 0,
        index < batch_count(count as nat, batch_size as nat),
    ensures
        range.0 == index * batch_size,
        range.0 < range.1 <= count,
        range.1 == if index * batch_size + batch_size <= count {
            index * batch_size + batch_size
        } else {
            count as int
        },
{
    proof {
        let q = (count - 1) / (batch_size as int);
        vstd::arithmetic::div_mod::lemma_fundamental_div_mod((count - 1) as int, batch_size as int);
        vstd::arithmetic::div_mod::lemma_mod_bound((count - 1) as int, batch_size as int);
        assert(q * batch_size == batch_size * q) by (nonlinear_arith);
        assert(index * batch_size <= q * batch_size) by (nonlinear_arith)
            requires
                index <= q,
                batch_size > 0,
        ;
    }
    let start: usize = index * batch_size;
    let end: usize = if batch_size <= count - start {
        start + batch_size
    } else {
        count
    };
    (start, end)
}

/// What to upload next when `done` batches of the plan are over: the
/// positions `start..end` of the next batch among the new blobs, or nothing
/// when every batch is over. The batches go one after the other, whatever
/// became of those before.
pub fn next_upload(plan: &UpdatePlan, batch_size: usize, done: usize) -> (next: Option<
    (usize, usize),
>)
    requires
        batch_size > 0,
    ensures
        match next {
            Some((start, end)) => {
                &&& done < batch_count(plan.new_blobs@.len(), batch_size as nat)
                &&& start == done * batch_size
                &&& start < end <= plan.new_blobs@.len()
                &&& end == if done * batch_size + batch_size <= plan.new_blobs@.len() {
                    done * batch_size + batch_size
                } else {
                    plan.new_blobs@.len() as int
                }
                &&& start == batch_start(plan.new_blobs@.len(), batch_size as nat, done as int)
                &&& end == batch_start(plan.new_blobs@.len(), batch_size as nat, done + 1)
            },
            None => done >= batch_count(plan.new_blobs@.len(), batch_size as nat),
        },
{
    proof {
        assert((done + 1) * batch_size == done * batch_size + batch_size) by (nonlinear_arith);
    }
    let count = plan.new_blobs.len();
    if done < count_batches(count, batch_size) {
        Some(batch_range(count, batch_size, done))
    } else {
        None
    }
}

/// Ends an update: puts on record for `project_key` the kept addresses and
/// the addresses of the new blobs of the batches that went through, whether
/// or not any batch failed, and marks the project `Synced`, or `Failed` where
/// nothing is retained. The blobs went in batches of `batch_size`, and
/// `outcomes` tells what became of each batch, in order. The names that the
/// service answered are not kept: a blob is known by its address.
pub fn finish_update(
    ledger: &mut ProjectsFile,
    status: &mut ProjectIndexStatus,
    project_key: &String,
    plan: &UpdatePlan,
    batch_size: usize,
    outcomes: &Vec<BatchOutcome>,
    now: i64,
) -> (r: Result<UpdateReport, IndexError>)
    requires
        old(ledger).wf(),
    ensures
        final(ledger).wf(),
        final(ledger)@ == old(ledger)@.insert(
            project_key@,
            retained_after(*plan, batch_size as nat, outcomes@),
        ),
        old(status).wf() ==> final(status).wf(),
        old(status).status == IndexStatus::Indexing ==> crate::status::may_follow(
            old(status).status,
            final(status).status,
        ),
        match r {
            Err(e) => {
                &&& e == IndexError::NoBlobsAfterIndexing
                &&& retained_after(*plan, batch_size as nat, outcomes@).len() == 0
                &&& final(status)@ == failed_status(old(status)@, "索引后未找到 blobs"@, now)
            },
            Ok(report) => {
                &&& report.blob_names.deep_view() == retained_after(
                    *plan,
                    batch_size as nat,
                    outcomes@,
                )
                &&& report.blob_names@.len() > 0
                &&& report.failed_batches@ == failed_batches(outcomes@, outcomes@.len() as int)
                &&& report.first_success == (old(status).last_success_time is None)
                &&& is_smallest_distinct(
                    report.recent_files.deep_view(),
                    file_paths(plan.new_blobs.deep_view()),
                    MAX_RECENT_FILES as nat,
                )
                &&& final(status)@ == synced_status(
                    old(status)@,
                    plan.total_blobs,
                    report.recent_files.deep_view(),
                    now,
                )
            },
        },
{
    let ghost fresh = plan.new_addresses.deep_view();
    let ghost size = batch_size as nat;
    let count = plan.new_addresses.len();
    let mut names = clone_list(&plan.kept);
    let mut failed: Vec<usize> = Vec::new();
    let mut start: usize = 0;
    let mut i: usize = 0;
    proof {
        lemma_batch_start(fresh.len(), size, 0);
        assert(plan.kept.deep_view() + Seq::<Seq<char>>::empty() =~= plan.kept.deep_view());
    }
    while i < outcomes.len()
        invariant
            i <= outcomes@.len(),
            fresh == plan.new_addresses.deep_view(),
            size == batch_size,
            count == fresh.len(),
            start == batch_start(fresh.len(), size, i as int),
            names.deep_view() == plan.kept.deep_view() + uploaded_addresses(
                fresh,
                size,
                outcomes@,
                i as int,
            ),
            failed@ == failed_batches(outcomes@, i as int),
        decreases outcomes.len() - i,
    {
        proof {
            lemma_batch_start(fresh.len(), size, i as int);
            assert((i + 1) * size == i * size + size) by (nonlinear_arith);
        }
        let end: usize = if batch_size <= count - start {
            start + batch_size
        } else {
            count
        };
        let went_through = match &outcomes[i] {
            BatchOutcome::Uploaded(batch_names) => batch_names.len() > 0,
            BatchOutcome::Failed(_) => false,
        };
        if went_through {
            let ghost before = names.deep_view();
            let mut k: usize = start;
            while k < end
                invariant
                    start <= k <= end <= count,
                    fresh == plan.new_addresses.deep_view(),
                    count == fresh.len(),
                    names.deep_view() == before + fresh.subrange(start as int, k as int),
                decreases end - k,
            {
                let ghost prev = names.deep_view();
                names.push(plan.new_addresses[k].clone());
                proof {
                    assert(fresh[k as int] == plan.new_addresses@[k as int]@);
                    assert(names.deep_view() =~= prev.push(fresh[k as int]));
                    assert(fresh.subrange(start as int, k as int + 1) =~= fresh.subrange(
                        start as int,
                        k as int,
                    ).push(fresh[k as int]));
                    assert(names.deep_view() =~= before + fresh.subrange(
                        start as int,
                        k as int + 1,
                    ));
                }
                k = k + 1;
            }
            proof {
                assert(before + fresh.subrange(start as int, end as int) =~= plan.kept.deep_view()
                    + (uploaded_addresses(fresh, size, outcomes@, i as int) + batch_addresses(
                    fresh,
                    size,
                    i as int,
                )));
            }
        } else {
            failed.push(i + 1);
        }
        start = end;
        i = i + 1;
    }
    let stored = clone_list(&names);
    ledger.insert(project_key.clone(), stored);
    if names.len() == 0 {
        status.mark_failed("索引后未找到 blobs", now);
        return Err(IndexError::NoBlobsAfterIndexing);
    }
    let first_success = status.last_success_time.is_none();
    let mut files: Vec<String> = Vec::new();
    let mut j: usize = 0;
    while j < plan.new_blobs.len()
        invariant
            j <= plan.new_blobs@.len(),
            files@.len() == j,
            forall|k: int|
                0 <= k < j ==> (#[trigger] files@[k])@ == without_chunk_suffix(
                    plan.new_blobs@[k].path@,
                ),
        decreases plan.new_blobs.len() - j,
    {
        files.push(strip_chunk_suffix(plan.new_blobs[j].path.as_str()));
        j = j + 1;
    }
    proof {
        assert(files.deep_view() =~= file_paths(plan.new_blobs.deep_view()));
    }
    let recent = smallest_distinct(&files, MAX_RECENT_FILES);
    let shown = clone_list(&recent);
    status.mark_synced(plan.total_blobs, shown, now);
    Ok(UpdateReport { blob_names: names, failed_batches: failed, recent_files: recent, first_success })
}

/// Begins an update: checks the configuration and, where it is in order,
/// marks the project `Indexing`. A configuration error leaves the status as
/// it is.
pub fn begin_update(config: &AcemcpConfig, status: &mut ProjectIndexStatus) -> (r: Result<
    RunSettings,
    IndexError,
>)
    ensures
        old(status).wf() ==> final(status).wf(),
        crate::status::may_follow(old(status).status, final(status).status),
        match r {
            Err(e) => config_error(*config) == Some(e) && *final(status) == *old(status),
            Ok(settings) => {
                &&& config_error(*config) is None
                &&& settings.base_url@ == config.base_url->0@
                &&& settings.token@ == config.token->0@
                &&& final(status)@ == (StatusModel {
                    status: IndexStatus::Indexing,
                    progress: 0,
                    ..old(status)@
                })
            },
        },
{
    match check_config(config) {
        Ok(settings) => {
            status.mark_indexing();
            Ok(settings)
        },
        Err(e) => Err(e),
    }
}

/// Takes note of the scan: with no blob the update fails, at time `now`, for
/// want of files to index; else the blobs are counted and 20 percent are
/// done.
pub fn record_scan(status: &mut ProjectIndexStatus, blob_count: usize, now: i64) -> (r: Result<
    (),
    IndexError,
>)
    ensures
        old(status).wf() ==> final(status).wf(),
        old(status).status == IndexStatus::Indexing ==> crate::status::may_follow(
            old(status).status,
            final(status).status,
        ),
        match r {
            Err(e) => {
                &&& e == IndexError::NoIndexableFiles
                &&& blob_count == 0
                &&& final(status)@ == failed_status(
                    old(status)@,
                    "未在项目中找到可索引的文本文件"@,
                    now,
                )
            },
            Ok(_) => {
                &&& blob_count > 0
                &&& final(status)@ == (StatusModel {
                    total_files: blob_count,
                    progress: 20,
                    ..old(status)@
                })
            },
        },
{
    if blob_count == 0 {
        status.mark_failed("未在项目中找到可索引的文本文件", now);
        Err(IndexError::NoIndexableFiles)
    } else {
        status.mark_scanned(blob_count);
        Ok(())
    }
}

/// The reason of an update that found no project root at `project_root`.
pub open spec fn missing_root_reason(project_root: Seq<char>) -> Seq<char> {
    "项目根目录不存在: "@ + project_root
}

/// Takes note that the scan could not be made because there is no project
/// root at `project_root`: the update fails, at time `now`, and that is the
/// reason. Nothing is uploaded and the ledger stays as it is.
pub fn record_missing_root(status: &mut ProjectIndexStatus, project_root: &str, now: i64) -> (e:
    IndexError)
    ensures
        e == IndexError::RootNotFound,
        old(status).wf() ==> final(status).wf(),
        old(status).status == IndexStatus::Indexing ==> crate::status::may_follow(
            old(status).status,
            final(status).status,
        ),
        final(status)@ == failed_status(old(status)@, missing_root_reason(project_root@), now),
{
    let mut reason = crate::text::chars_of("项目根目录不存在: ");
    crate::text::push_str(&mut reason, project_root);
    let text = crate::text::to_string(&reason);
    status.mark_failed(text.as_str(), now);
    IndexError::RootNotFound
}

} // verus!
