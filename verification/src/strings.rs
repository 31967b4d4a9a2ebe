//! Lists of strings: membership, the order of `str`, sorting.
//!
//! A list is modelled by the sequence of its strings' characters
//! (`Vec<String>::deep_view`).

use crate::text::{chars_of, lex_le, lex_le_chars};
use vstd::prelude::*;

verus! {

/// `a` comes strictly before `b` in the order of `str`.
pub open spec fn lex_lt(a: Seq<char>, b: Seq<char>) -> bool {
    lex_le(a, b) && a != b
}

/// Each string comes strictly before the next one.
pub open spec fn strictly_sorted(s: Seq<Seq<char>>) -> bool {
    forall|i: int, j: int| 0 <= i < j < s.len() ==> lex_lt(s[i], s[j])
}

/// `order` lists every index of `keys` once, by ascending key, and equal keys
/// by ascending index.
pub open spec fn is_sorted_order(order: Seq<usize>, keys: Seq<Seq<char>>) -> bool {
    &&& order.len() == keys.len()
    &&& forall|i: int| 0 <= i < order.len() ==> (#[trigger] order[i]) < keys.len()
    &&& forall|i: int, j: int| 0 <= i < j < order.len() ==> order[i] != order[j]
    &&& forall|i: int, j: int|
        0 <= i < j < order.len() ==> lex_le(keys[order[i] as int], keys[order[j] as int])
    &&& forall|i: int, j: int|
        0 <= i < j < order.len() && keys[order[i] as int] == keys[order[j] as int] ==> order[i]
            < order[j]
}

/// `out` holds the `limit` smallest distinct strings of `input` in ascending
/// order, all of them where there are fewer.
pub open spec fn is_smallest_distinct(
    out: Seq<Seq<char>>,
    input: Seq<Seq<char>>,
    limit: nat,
) -> bool {
    &&& strictly_sorted(out)
    &&& out.len() <= limit
    &&& forall|i: int| 0 <= i < out.len() ==> input.contains(#[trigger] out[i])
    &&& forall|k: int|
        0 <= k < input.len() ==> out.contains(#[trigger] input[k]) || (out.len() == limit
            && lex_lt(out.last(), input[k]))
}

/// Every string is at or before itself.
pub proof fn lemma_lex_reflexive(a: Seq<char>)
    ensures
        lex_le(a, a),
    decreases a.len(),
{
    if a.len() > 0 {
        lemma_lex_reflexive(a.skip(1));
    }
}

/// Of two strings one is at or before the other.
pub proof fn lemma_lex_total(a: Seq<char>, b: Seq<char>)
    ensures
        lex_le(a, b) || lex_le(b, a),
    decreases a.len(),
{
    if a.len() > 0 && b.len() > 0 && a[0] == b[0] {
        lemma_lex_total(a.skip(1), b.skip(1));
    }
}

/// Two strings that are each at or before the other are equal.
pub proof fn lemma_lex_antisymmetric(a: Seq<char>, b: Seq<char>)
    requires
        lex_le(a, b),
        lex_le(b, a),
    ensures
        a == b,
    decreases a.len(),
{
    if a.len() > 0 {
        assert(b.len() > 0);
        assert(a[0] == b[0]);
        lemma_lex_antisymmetric(a.skip(1), b.skip(1));
        assert(a =~= seq![a[0]] + a.skip(1));
        assert(b =~= seq![b[0]] + b.skip(1));
    } else {
        assert(b.len() == 0);
        assert(a =~= b);
    }
}

/// The order of `str` is transitive.
pub proof fn lemma_lex_transitive(a: Seq<char>, b: Seq<char>, c: Seq<char>)
    requires
        lex_le(a, b),
        lex_le(b, c),
    ensures
        lex_le(a, c),
    decreases a.len(),
{
    if a.len() > 0 {
        assert(b.len() > 0);
        assert(c.len() > 0);
        if a[0] == b[0] && b[0] == c[0] {
            lemma_lex_transitive(a.skip(1), b.skip(1), c.skip(1));
        }
    }
}

/// Whether `a` is at or before `b` in the order of `str`.
pub fn str_le(a: &str, b: &str) -> (r: bool)
    ensures
        r == lex_le(a@, b@),
{
    let x = chars_of(a);
    let y = chars_of(b);
    lex_le_chars(&x, &y)
}

/// Whether `a` and `b` hold the same characters.
pub fn str_eq(a: &str, b: &str) -> (r: bool)
    ensures
        r == (a@ == b@),
{
    let x = chars_of(a);
    let y = chars_of(b);
    if x.len() != y.len() {
        return false;
    }
    let mut i: usize = 0;
    while i < x.len()
        invariant
            i <= x.len(),
            x.len() == y.len(),
            x@ == a@,
            y@ == b@,
            forall|j: int| 0 <= j < i ==> x@[j] == y@[j],
        decreases x.len() - i,
    {
        if x[i] != y[i] {
            proof {
                assert(a@[i as int] != b@[i as int]);
            }
            return false;
        }
        i = i + 1;
    }
    proof {
        assert(x@ =~= y@);
    }
    true
}

/// Whether `list` holds a string equal to `s`.
pub fn list_contains(list: &Vec<String>, s: &String) -> (r: bool)
    ensures
        r == list.deep_view().contains(s@),
{
    let mut i: usize = 0;
    while i < list.len()
        invariant
            i <= list.len(),
            forall|j: int| 0 <= j < i ==> list.deep_view()[j] != s@,
        decreases list.len() - i,
    {
        if list[i] == *s {
            proof {
                assert(list.deep_view()[i as int] == s@);
            }
            return true;
        }
        i = i + 1;
    }
    false
}

/// A copy of `list`.
pub fn clone_list(list: &Vec<String>) -> (out: Vec<String>)
    ensures
        out.deep_view() == list.deep_view(),
{
    let mut out: Vec<String> = Vec::new();
    let mut i: usize = 0;
    while i < list.len()
        invariant
            i <= list.len(),
            out@.len() == i,
            forall|j: int| 0 <= j < i ==> out@[j]@ == list@[j]@,
        decreases list.len() - i,
    {
        out.push(list[i].clone());
        i = i + 1;
    }
    proof {
        assert(out.deep_view() =~= list.deep_view());
    }
    out
}

/// The characters of each string of `list`.
fn chars_of_each(list: &Vec<String>) -> (out: Vec<Vec<char>>)
    ensures
        out@.len() == list@.len(),
        forall|i: int| 0 <= i < out@.len() ==> (#[trigger] out@[i])@ == list@[i]@,
{
    let mut out: Vec<Vec<char>> = Vec::new();
    let mut i: usize = 0;
    while i < list.len()
        invariant
            i <= list@.len(),
            out@.len() == i,
            forall|j: int| 0 <= j < i ==> (#[trigger] out@[j])@ == list@[j]@,
        decreases list.len() - i,
    {
        out.push(chars_of(list[i].as_str()));
        i = i + 1;
    }
    out
}

/// The indices of `keys` by ascending key; equal keys keep their order.
pub fn sorted_order(keys: &Vec<String>) -> (order: Vec<usize>)
    ensures
        is_sorted_order(order@, keys.deep_view()),
{
    let ghost ks = keys.deep_view();
    let cs = chars_of_each(keys);
    let mut order: Vec<usize> = Vec::new();
    let mut k: usize = 0;
    while k < keys.len()
        invariant
            k <= keys.len(),
            ks == keys.deep_view(),
            cs@.len() == keys@.len(),
            forall|i: int| 0 <= i < cs@.len() ==> (#[trigger] cs@[i])@ == ks[i],
            order@.len() == k,
            forall|i: int| 0 <= i < order@.len() ==> (#[trigger] order@[i]) < k,
            forall|i: int, j: int| 0 <= i < j < order@.len() ==> order@[i] != order@[j],
            forall|i: int, j: int|
                0 <= i < j < order@.len() ==> lex_le(ks[order@[i] as int], ks[order@[j] as int]),
            forall|i: int, j: int|
                0 <= i < j < order@.len() && ks[order@[i] as int] == ks[order@[j] as int]
                    ==> order@[i] < order@[j],
        decreases keys.len() - k,
    {
        let mut p: usize = order.len();
        while p > 0 && !lex_le_chars(&cs[order[p - 1]], &cs[k])
            invariant
                p <= order@.len(),
                k < keys.len(),
                ks == keys.deep_view(),
                cs@.len() == keys@.len(),
                forall|i: int| 0 <= i < cs@.len() ==> (#[trigger] cs@[i])@ == ks[i],
                forall|i: int| 0 <= i < order@.len() ==> (#[trigger] order@[i]) < k,
                forall|i: int|
                    p <= i < order@.len() ==> !lex_le(
                        ks[(#[trigger] order@[i]) as int],
                        ks[k as int],
                    ),
            decreases p,
        {
            p = p - 1;
        }
        let ghost before = order@;
        order.insert(p, k);
        proof {
            let after = order@;
            assert(after == before.insert(p as int, k));
            assert forall|i: int, j: int| 0 <= i < j < after.len() implies lex_le(
                ks[after[i] as int],
                ks[after[j] as int],
            ) && (ks[after[i] as int] == ks[after[j] as int] ==> after[i] < after[j]) && after[i]
                != after[j] by {
                let bi = if i < p { i } else { i - 1 };
                let bj = if j < p { j } else { j - 1 };
                if i == p {
                    // the new index before an old one that is strictly greater
                    assert(after[j] == before[bj]);
                    assert(!lex_le(ks[before[bj] as int], ks[k as int]));
                    lemma_lex_total(ks[before[bj] as int], ks[k as int]);
                    lemma_lex_reflexive(ks[k as int]);
                } else if j == p {
                    // an old index, at or before the one that stopped the scan
                    assert(after[i] == before[bi]);
                    assert(bi < p);
                    assert(lex_le(ks[before[p - 1] as int], ks[k as int]));
                    if bi < p - 1 {
                        lemma_lex_transitive(
                            ks[before[bi] as int],
                            ks[before[p - 1] as int],
                            ks[k as int],
                        );
                    }
                } else {
                    assert(after[i] == before[bi]);
                    assert(after[j] == before[bj]);
                }
            }
        }
        k = k + 1;
    }
    order
}

/// The strings of `list` in ascending order.
pub fn sorted_strings(list: &Vec<String>) -> (out: Vec<String>)
    ensures
        out@.len() == list@.len(),
        forall|i: int, j: int|
            0 <= i < j < out@.len() ==> lex_le(out.deep_view()[i], out.deep_view()[j]),
        exists|order: Seq<usize>|
            is_sorted_order(order, list.deep_view()) && forall|i: int|
                0 <= i < out@.len() ==> #[trigger] out.deep_view()[i] == list.deep_view()[order[i] as int],
{
    let order = sorted_order(list);
    let mut out: Vec<String> = Vec::new();
    let mut i: usize = 0;
    while i < order.len()
        invariant
            i <= order@.len(),
            is_sorted_order(order@, list.deep_view()),
            out@.len() == i,
            forall|j: int| 0 <= j < i ==> (#[trigger] out@[j])@ == list@[order@[j] as int]@,
        decreases order.len() - i,
    {
        out.push(list[order[i]].clone());
        i = i + 1;
    }
    proof {
        assert forall|j: int| 0 <= j < out@.len() implies #[trigger] out.deep_view()[j]
            == list.deep_view()[order@[j] as int] by {
            assert(out@[j]@ == list@[order@[j] as int]@);
        }
    }
    out
}

/// The `limit` smallest distinct strings of `list`, in ascending order.
pub fn smallest_distinct(list: &Vec<String>, limit: usize) -> (out: Vec<String>)
    requires
        limit > 0,
    ensures
        is_smallest_distinct(out.deep_view(), list.deep_view(), limit as nat),
{
    let order = sorted_order(list);
    let ghost ks = list.deep_view();
    let mut out: Vec<String> = Vec::new();
    let mut i: usize = 0;
    while i < order.len() && out.len() < limit
        invariant
            i <= order@.len(),
            ks == list.deep_view(),
            is_sorted_order(order@, ks),
            out@.len() <= limit,
            out@.len() <= i,
            strictly_sorted(out.deep_view()),
            forall|j: int| 0 <= j < out@.len() ==> ks.contains(#[trigger] out.deep_view()[j]),
            out@.len() > 0 ==> i > 0 && out.deep_view().last() == ks[order@[i - 1] as int],
            out@.len() == 0 ==> i == 0,
            forall|j: int|
                0 <= j < i ==> out.deep_view().contains(ks[(#[trigger] order@[j]) as int]),
        decreases order.len() - i,
    {
        let s = &list[order[i]];
        let ghost prev = out.deep_view();
        let fresh = out.len() == 0 || !(out[out.len() - 1] == *s);
        if fresh {
            out.push(s.clone());
            proof {
                let now = out.deep_view();
                assert(now =~= prev.push(s@));
                assert(s@ == ks[order@[i as int] as int]);
                assert forall|a: int, b: int| 0 <= a < b < now.len() implies lex_lt(
                    now[a],
                    now[b],
                ) by {
                    if b == now.len() - 1 {
                        assert(prev.last() == ks[order@[i - 1] as int]);
                        assert(lex_le(ks[order@[i - 1] as int], ks[order@[i as int] as int]));
                        if a < prev.len() - 1 {
                            assert(lex_lt(prev[a], prev.last()));
                            lemma_lex_transitive(prev[a], prev.last(), s@);
                            if prev[a] == s@ {
                                lemma_lex_antisymmetric(prev[a], prev.last());
                            }
                        }
                    } else {
                        assert(lex_lt(prev[a], prev[b]));
                    }
                }
                assert forall|j: int| 0 <= j < i + 1 implies now.contains(
                    ks[(#[trigger] order@[j]) as int],
                ) by {
                    if j < i {
                        let w = choose|w: int|
                            0 <= w < prev.len() && prev[w] == ks[order@[j] as int];
                        assert(now[w] == ks[order@[j] as int]);
                    } else {
                        assert(now[now.len() - 1] == ks[order@[j] as int]);
                    }
                }
                assert forall|j: int| 0 <= j < now.len() implies ks.contains(
                    #[trigger] now[j],
                ) by {
                    if j < prev.len() {
                        assert(ks.contains(prev[j]));
                    } else {
                        assert(ks[order@[i as int] as int] == now[j]);
                    }
                }
            }
        } else {
            proof {
                assert(out.deep_view().last() == s@);
                assert(out.deep_view()[out@.len() - 1] == ks[order@[i as int] as int]);
            }
        }
        i = i + 1;
    }
    proof {
        let o = out.deep_view();
        assert forall|k: int| 0 <= k < ks.len() implies o.contains(#[trigger] ks[k]) || (o.len()
            == limit && lex_lt(o.last(), ks[k])) by {
            lemma_order_covers(order@, ks, k);
            let j = choose|j: int| 0 <= j < order@.len() && order@[j] == k;
            if j >= i {
                assert(o.len() == limit);
                assert(o.last() == ks[order@[i - 1] as int]);
                assert(lex_le(ks[order@[i - 1] as int], ks[order@[j] as int]));
            }
        }
    }
    out
}

/// A sorted order reaches every index of its keys.
pub proof fn lemma_order_covers(order: Seq<usize>, keys: Seq<Seq<char>>, k: int)
    requires
        is_sorted_order(order, keys),
        0 <= k < keys.len(),
    ensures
        exists|j: int| 0 <= j < order.len() && order[j] == k,
{
    let values = order.map_values(|x: usize| x as int);
    assert(values.no_duplicates());
    let image = values.to_set();
    let all = Set::new(|x: int| 0 <= x < keys.len());
    vstd::seq_lib::seq_to_set_is_finite(values);
    values.unique_seq_to_set();
    assert(image.len() == keys.len());
    assert(image.subset_of(all)) by {
        assert forall|x: int| image.contains(x) implies all.contains(x) by {
            let j = choose|j: int| 0 <= j < values.len() && values[j] == x;
            assert(order[j] < keys.len());
        }
    }
    assert(all =~= vstd::set_lib::set_int_range(0, keys.len() as int));
    vstd::set_lib::lemma_int_range(0, keys.len() as int);
    vstd::set_lib::lemma_subset_equality(image, all);
    assert(image.contains(k));
    let j = choose|j: int| 0 <= j < values.len() && values[j] == k;
    assert(order[j] == k);
}

} // verus!
