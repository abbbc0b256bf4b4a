//! Sorting by multi-field keys: a merge sort of positions, so the rows themselves never move.

use vstd::prelude::*;

use crate::order::{compare_keys, deep, key_lt, lemma_key_total, lemma_key_transitive, Rank};

verus! {

broadcast use {vstd::seq_lib::group_to_multiset_ensures, vstd::multiset::group_multiset_axioms};

/// The sort keys, as values
pub open spec fn keys_view(keys: Seq<Vec<Vec<char>>>) -> Seq<Seq<Seq<char>>> {
    keys.map_values(|k: Vec<Vec<char>>| deep(k@))
}

/// No two keys are equal
pub open spec fn distinct_keys(ks: Seq<Seq<Seq<char>>>) -> bool {
    forall|a: int, b: int| 0 <= a < ks.len() && 0 <= b < ks.len() && a != b ==> ks[a] != ks[b]
}

/// The positions `idx` list their keys in strictly ascending order
pub open spec fn ordered_by(idx: Seq<usize>, ks: Seq<Seq<Seq<char>>>) -> bool {
    forall|a: int, b: int|
        0 <= a < b < idx.len() ==> key_lt(#[trigger] ks[idx[a] as int], #[trigger] ks[idx[b] as int])
}

/// Every position lies in `[lo, hi)`
pub open spec fn within(idx: Seq<usize>, lo: int, hi: int) -> bool {
    forall|i: int| 0 <= i < idx.len() ==> lo <= #[trigger] idx[i] < hi
}

/// The positions `lo, lo + 1, …, hi - 1`
pub open spec fn span(lo: int, hi: int) -> Seq<usize> {
    Seq::new((hi - lo) as nat, |i: int| (lo + i) as usize)
}

/// Merge two ascending runs of positions, from `[lo, mid)` and `[mid, hi)`, into one
fn merge(
    left: &Vec<usize>,
    right: &Vec<usize>,
    keys: &Vec<Vec<Vec<char>>>,
    Ghost(lo): Ghost<int>,
    Ghost(mid): Ghost<int>,
    Ghost(hi): Ghost<int>,
) -> (out: Vec<usize>)
    requires
        0 <= lo <= mid <= hi <= keys@.len(),
        distinct_keys(keys_view(keys@)),
        within(left@, lo, mid),
        within(right@, mid, hi),
        ordered_by(left@, keys_view(keys@)),
        ordered_by(right@, keys_view(keys@)),
    ensures
        within(out@, lo, hi),
        ordered_by(out@, keys_view(keys@)),
        out@.to_multiset() == left@.to_multiset().add(right@.to_multiset()),
{
    let ghost ks = keys_view(keys@);
    let mut out: Vec<usize> = Vec::new();
    let mut i: usize = 0;
    let mut j: usize = 0;
    assert(left@.take(0) =~= Seq::<usize>::empty());
    assert(right@.take(0) =~= Seq::<usize>::empty());
    while i < left.len() || j < right.len()
        invariant
            0 <= lo <= mid <= hi <= keys@.len(),
            ks == keys_view(keys@),
            distinct_keys(ks),
            within(left@, lo, mid),
            within(right@, mid, hi),
            ordered_by(left@, ks),
            ordered_by(right@, ks),
            i <= left@.len(),
            j <= right@.len(),
            within(out@, lo, hi),
            ordered_by(out@, ks),
            out@.to_multiset() == left@.take(i as int).to_multiset().add(right@.take(j as int).to_multiset()),
            forall|a: int|
                0 <= a < out@.len() ==> (i < left@.len() ==> key_lt(
                    #[trigger] ks[out@[a] as int],
                    ks[left@[i as int] as int],
                )) && (j < right@.len() ==> key_lt(ks[out@[a] as int], ks[right@[j as int] as int])),
        decreases left@.len() - i + right@.len() - j,
    {
        let take_left = if i == left.len() {
            false
        } else if j == right.len() {
            true
        } else {
            match compare_keys(&keys[left[i]], &keys[right[j]]) {
                Rank::Less => true,
                _ => false,
            }
        };
        let ghost before = out@;
        if take_left {
            let x = left[i];
            proof {
                if j < right@.len() {
                    assert(ks[x as int] == deep(keys@[x as int]@));
                }
                assert forall|a: int| 0 <= a < before.len() + 1 implies (i + 1 < left@.len() ==> key_lt(
                    #[trigger] ks[before.push(x)[a] as int],
                    ks[left@[i + 1] as int],
                )) && (j < right@.len() ==> key_lt(ks[before.push(x)[a] as int], ks[right@[j as int] as int])) by {
                    if i + 1 < left@.len() {
                        assert(key_lt(ks[left@[i as int] as int], ks[left@[i + 1] as int]));
                        if a < before.len() {
                            lemma_key_transitive(ks[before[a] as int], ks[x as int], ks[left@[i + 1] as int]);
                        }
                    }
                    if j < right@.len() && a < before.len() {
                        assert(key_lt(ks[before[a] as int], ks[right@[j as int] as int]));
                    }
                }
                assert(left@.take(i + 1) =~= left@.take(i as int).push(x));
            }
            out.push(x);
            i = i + 1;
        } else {
            let y = right[j];
            proof {
                if i < left@.len() {
                    let x = left@[i as int];
                    assert(x < mid <= y);
                    assert(ks[x as int] != ks[y as int]);
                    lemma_key_total(ks[x as int], ks[y as int]);
                    assert(ks[x as int] == deep(keys@[x as int]@));
                    assert(ks[y as int] == deep(keys@[y as int]@));
                }
                assert forall|a: int| 0 <= a < before.len() + 1 implies (i < left@.len() ==> key_lt(
                    #[trigger] ks[before.push(y)[a] as int],
                    ks[left@[i as int] as int],
                )) && (j + 1 < right@.len() ==> key_lt(ks[before.push(y)[a] as int], ks[right@[j + 1] as int])) by {
                    if j + 1 < right@.len() {
                        assert(key_lt(ks[right@[j as int] as int], ks[right@[j + 1] as int]));
                        if a < before.len() {
                            lemma_key_transitive(ks[before[a] as int], ks[y as int], ks[right@[j + 1] as int]);
                        }
                    }
                    if i < left@.len() && a < before.len() {
                        assert(key_lt(ks[before[a] as int], ks[left@[i as int] as int]));
                    }
                }
                assert(right@.take(j + 1) =~= right@.take(j as int).push(y));
            }
            out.push(y);
            j = j + 1;
        }
        assert(out@ == before.push(out@.last()));
    }
    assert(left@.take(left@.len() as int) =~= left@);
    assert(right@.take(right@.len() as int) =~= right@);
    out
}

/// The positions `[lo, hi)` in ascending order of their keys
fn sort_span(keys: &Vec<Vec<Vec<char>>>, lo: usize, hi: usize) -> (out: Vec<usize>)
    requires
        lo <= hi <= keys@.len(),
        distinct_keys(keys_view(keys@)),
    ensures
        within(out@, lo as int, hi as int),
        ordered_by(out@, keys_view(keys@)),
        out@.to_multiset() == span(lo as int, hi as int).to_multiset(),
    decreases hi - lo,
{
    if hi - lo == 0 {
        let out: Vec<usize> = Vec::new();
        assert(span(lo as int, hi as int) =~= Seq::<usize>::empty());
        out
    } else if hi - lo == 1 {
        let mut out: Vec<usize> = Vec::new();
        out.push(lo);
        assert(span(lo as int, hi as int) =~= Seq::<usize>::empty().push(lo));
        assert(out@ =~= Seq::<usize>::empty().push(lo));
        out
    } else {
        let mid = lo + (hi - lo) / 2;
        let left = sort_span(keys, lo, mid);
        let right = sort_span(keys, mid, hi);
        let out = merge(&left, &right, keys, Ghost(lo as int), Ghost(mid as int), Ghost(hi as int));
        proof {
            assert(span(lo as int, hi as int) =~= span(lo as int, mid as int) + span(mid as int, hi as int));
            vstd::seq_lib::lemma_multiset_commutative(span(lo as int, mid as int), span(mid as int, hi as int));
        }
        out
    }
}

/// Every position of `keys`, in ascending order of its key: each position exactly once
pub fn sort_by_keys(keys: &Vec<Vec<Vec<char>>>) -> (out: Vec<usize>)
    requires
        distinct_keys(keys_view(keys@)),
    ensures
        out@.len() == keys@.len(),
        within(out@, 0, keys@.len() as int),
        ordered_by(out@, keys_view(keys@)),
        forall|p: usize| p < keys@.len() ==> #[trigger] out@.contains(p),
{
    let out = sort_span(keys, 0, keys.len());
    proof {
        let s = span(0, keys@.len() as int);
        assert(out@.len() == s.len()) by {
            assert(out@.to_multiset().len() == s.to_multiset().len());
        }
        assert forall|p: usize| p < keys@.len() implies #[trigger] out@.contains(p) by {
            assert(s[p as int] == p);
            assert(s.contains(p));
            assert(s.to_multiset().count(p) > 0);
        }
    }
    out
}

} // verus!
