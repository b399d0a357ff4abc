//! The ranking of entries by weighted return, and the selection of the best
//! `n` of them with a heap of `n` entries.

use crate::roi::Roi;
use vstd::prelude::*;
use vstd::relations::{sorted_by, total_ordering};
use vstd::seq_lib::{lemma_multiset_commutative, lemma_sorted_unique};

verus! {

/// Whether `a` is placed ahead of `b`: the greater return first, and of two
/// equal returns the entry with the lower index.
pub open spec fn ranks_before(a: (usize, Roi), b: (usize, Roi)) -> bool {
    a.1.key() > b.1.key() || (a.1.key() == b.1.key() && a.0 < b.0)
}

/// Whether `a` is `b` or is placed ahead of it.
pub open spec fn ranks_no_later(a: (usize, Roi), b: (usize, Roi)) -> bool {
    a == b || ranks_before(a, b)
}

/// `ranks_no_later` as a relation.
pub open spec fn ranking() -> spec_fn((usize, Roi), (usize, Roi)) -> bool {
    |a: (usize, Roi), b: (usize, Roi)| ranks_no_later(a, b)
}

/// All of `s`, best first: the one arrangement of the entries of `s` that is
/// in ranking order (`lemma_full_ranking`, `lemma_full_ranking_unique`).
pub open spec fn full_ranking(s: Seq<(usize, Roi)>) -> Seq<(usize, Roi)> {
    s.sort_by(ranking())
}

/// The first `n` of `full_ranking(s)`, or all of it where it is shorter.
pub open spec fn top_n(s: Seq<(usize, Roi)>, n: nat) -> Seq<(usize, Roi)> {
    if n < s.len() {
        full_ranking(s).subrange(0, n as int)
    } else {
        full_ranking(s)
    }
}

/// Whether `s` is in ranking order: every entry is no later than each entry
/// that follows it.
pub open spec fn ranked(s: Seq<(usize, Roi)>) -> bool {
    forall|i: int, j: int|
        0 <= i < j < s.len() ==> ranks_no_later(#[trigger] s[i], #[trigger] s[j])
}

proof fn lemma_ranked_is_sorted(s: Seq<(usize, Roi)>)
    ensures
        ranked(s) == sorted_by(s, ranking()),
{
    if ranked(s) {
        assert forall|i: int, j: int| 0 <= i < j < s.len() implies #[trigger] ranking()(
            s[i],
            s[j],
        ) by {
            assert(ranks_no_later(s[i], s[j]));
        }
    }
    if sorted_by(s, ranking()) {
        assert forall|i: int, j: int| 0 <= i < j < s.len() implies ranks_no_later(
            #[trigger] s[i],
            #[trigger] s[j],
        ) by {
            assert(ranking()(s[i], s[j]));
        }
    }
}

/// The ranking is a total order: any two entries are comparable, and two
/// entries that are each no later than the other are the same entry.
pub proof fn lemma_ranking_total()
    ensures
        total_ordering(ranking()),
{
    assert forall|a: (usize, Roi), b: (usize, Roi)|
        ranks_no_later(a, b) || ranks_no_later(b, a) by {
        if a.1.key() == b.1.key() {
            Roi::lemma_key_injective(a.1, b.1);
        }
    }
}

/// A sequence that holds the entries of `s` and is in ranking order is the
/// full ranking of `s`.
pub proof fn lemma_full_ranking_unique(r: Seq<(usize, Roi)>, s: Seq<(usize, Roi)>)
    requires
        ranked(r),
        r.to_multiset() == s.to_multiset(),
    ensures
        r == full_ranking(s),
{
    lemma_ranked_is_sorted(r);
    lemma_ranking_total();
    s.lemma_sort_by_ensures(ranking());
    lemma_sorted_unique(r, full_ranking(s), ranking());
}

/// The full ranking holds the entries of `s`, each as often as `s` does, in
/// ranking order.
pub proof fn lemma_full_ranking(s: Seq<(usize, Roi)>)
    ensures
        ranked(full_ranking(s)),
        full_ranking(s).to_multiset() == s.to_multiset(),
        full_ranking(s).len() == s.len(),
{
    lemma_ranked_is_sorted(full_ranking(s));
    lemma_ranking_total();
    s.lemma_sort_by_ensures(ranking());
    s.to_multiset_ensures();
    full_ranking(s).to_multiset_ensures();
}

/// Computes `ranks_before`.
pub fn is_ranked_before(a: &(usize, Roi), b: &(usize, Roi)) -> (before: bool)
    ensures
        before == ranks_before(*a, *b),
{
    let ka: i64 = a.1.order_key();
    let kb: i64 = b.1.order_key();
    ka > kb || (ka == kb && a.0 < b.0)
}

/// Puts the entries in ranking order, best first.
pub fn sort_descending(entries: &Vec<(usize, Roi)>) -> (sorted: Vec<(usize, Roi)>)
    ensures
        sorted@ == full_ranking(entries@),
{
    let mut sorted: Vec<(usize, Roi)> = Vec::new();
    let mut i: usize = 0;
    assert(sorted@ =~= entries@.subrange(0, 0));
    while i < entries.len()
        invariant
            i <= entries.len(),
            ranked(sorted@),
            sorted@.to_multiset() == entries@.subrange(0, i as int).to_multiset(),
        decreases entries.len() - i,
    {
        let entry: (usize, Roi) = entries[i];
        let mut at: usize = 0;
        while at < sorted.len() && !is_ranked_before(&entry, &sorted[at])
            invariant
                at <= sorted.len(),
                forall|k: int| 0 <= k < at ==> !ranks_before(entry, #[trigger] sorted@[k]),
            decreases sorted.len() - at,
        {
            at += 1;
        }
        proof {
            lemma_ranking_total();
            let before = sorted@;
            let after = before.insert(at as int, entry);
            assert forall|x: int, y: int| 0 <= x < y < after.len() implies ranks_no_later(
                #[trigger] after[x],
                #[trigger] after[y],
            ) by {
                if y == at {
                    assert(!ranks_before(entry, before[x]));
                } else if x == at {
                    assert(ranks_before(entry, before[at as int]));
                    if y - 1 > at {
                        assert(ranks_no_later(before[at as int], before[y - 1]));
                    }
                } else if x < at && at < y {
                    assert(ranks_no_later(before[x], before[y - 1]));
                } else if y < at {
                    assert(ranks_no_later(before[x], before[y]));
                } else {
                    assert(ranks_no_later(before[x - 1], before[y - 1]));
                }
            }
            vstd::seq_lib::to_multiset_insert(before, at as int, entry);
            vstd::seq_lib::to_multiset_build(entries@.subrange(0, i as int), entry);
            assert(entries@.subrange(0, i as int).push(entry) =~= entries@.subrange(
                0,
                i + 1,
            ));
        }
        sorted.insert(at, entry);
        i += 1;
    }
    proof {
        assert(entries@.subrange(0, i as int) =~= entries@);
        lemma_full_ranking_unique(sorted@, entries@);
    }
    sorted
}

/// Whether every entry at a position from `lo` on is ranked no earlier than
/// its children, the children of position `p` being at `2p + 1` and `2p + 2`.
pub open spec fn heap_from(s: Seq<(usize, Roi)>, lo: int) -> bool {
    forall|c: int|
        0 < c < s.len() && (c - 1) / 2 >= lo ==> ranks_no_later(#[trigger] s[c], s[(c - 1) / 2])
}

/// Whether `s` is a heap with its last-ranked entry at the root.
pub open spec fn is_min_heap(s: Seq<(usize, Roi)>) -> bool {
    heap_from(s, 0)
}

/// In a heap no entry is ranked later than the root.
pub proof fn lemma_heap_root_is_last(s: Seq<(usize, Roi)>, at: int)
    requires
        is_min_heap(s),
        0 <= at < s.len(),
    ensures
        ranks_no_later(s[at], s[0]),
    decreases at,
{
    if at > 0 {
        lemma_heap_root_is_last(s, (at - 1) / 2);
        assert(ranks_no_later(s[at], s[(at - 1) / 2]));
    }
}

/// `s` with the entries at `i` and `j` in each other's place.
pub open spec fn swapped(s: Seq<(usize, Roi)>, i: int, j: int) -> Seq<(usize, Roi)> {
    s.update(i, s[j]).update(j, s[i])
}

/// The place of the last-ranked of three entries: the entry at `root` and its
/// two children, where it has them. Of entries that are ranked alike, the one
/// at `root` is taken before a child, and the left child before the right.
pub open spec fn last_ranked_of(s: Seq<(usize, Roi)>, root: int) -> int {
    let left = 2 * root + 1;
    let right = 2 * root + 2;
    let first = if left < s.len() && ranks_before(s[root], s[left]) {
        left
    } else {
        root
    };
    if right < s.len() && ranks_before(s[first], s[right]) {
        right
    } else {
        first
    }
}

/// `s` with the entry at `root` sunk: while a child of the entry is ranked
/// later than it, the entry changes places with its last-ranked child.
pub open spec fn sifted(s: Seq<(usize, Roi)>, root: int) -> Seq<(usize, Roi)>
    decreases s.len() - root,
{
    let child = last_ranked_of(s, root);
    if 0 <= root < child < s.len() {
        sifted(swapped(s, root, child), child)
    } else {
        s
    }
}

/// Whether `at` lies in the subtree of `root`: it is `root`, or its parent
/// lies in the subtree of `root`.
pub open spec fn in_subtree(at: int, root: int) -> bool
    decreases at,
{
    if at <= root || root < 0 {
        at == root
    } else {
        in_subtree((at - 1) / 2, root)
    }
}

/// Whether the subtree of `root` is in heap order: each of its entries but
/// the one at `root` is ranked no later than its parent.
pub open spec fn heap_in_subtree(s: Seq<(usize, Roi)>, root: int) -> bool {
    forall|c: int|
        0 < c < s.len() && c != root && in_subtree(c, root) ==> ranks_no_later(
            #[trigger] s[c],
            s[(c - 1) / 2],
        )
}

proof fn lemma_swapped_same_entries(s: Seq<(usize, Roi)>, i: int, j: int)
    requires
        0 <= i < s.len(),
        0 <= j < s.len(),
    ensures
        swapped(s, i, j).len() == s.len(),
        swapped(s, i, j).to_multiset() == s.to_multiset(),
{
    let a = s[i];
    let b = s[j];
    let s1 = s.update(i, b);
    vstd::seq_lib::to_multiset_update(s, i, b);
    vstd::seq_lib::to_multiset_update(s1, j, a);
    s.to_multiset_ensures();
    if i == j {
        assert(s1.update(j, a) =~= s);
    } else {
        assert(s.to_multiset().insert(b).remove(a).insert(a).remove(b) =~= s.to_multiset());
    }
}

/// What lies in the subtree of a child lies in the subtree of its parent.
proof fn lemma_subtree_of_child(at: int, root: int, child: int)
    requires
        0 <= root,
        child == 2 * root + 1 || child == 2 * root + 2,
        in_subtree(at, child),
    ensures
        in_subtree(at, root),
        at > root,
    decreases at,
{
    if at > child {
        lemma_subtree_of_child((at - 1) / 2, root, child);
    } else {
        assert((child - 1) / 2 == root);
        assert(in_subtree(root, root));
    }
}

/// What lies in the subtree of `root`, and is not `root`, lies in the subtree
/// of one of its two children.
proof fn lemma_subtree_splits(at: int, root: int)
    requires
        0 <= root,
        in_subtree(at, root),
        at != root,
    ensures
        in_subtree(at, 2 * root + 1) || in_subtree(at, 2 * root + 2),
    decreases at,
{
    let parent = (at - 1) / 2;
    if parent != root {
        lemma_subtree_splits(parent, root);
    }
}

/// The subtrees of the two children of `root` have no place in common.
proof fn lemma_subtrees_apart(at: int, root: int)
    requires
        0 <= root,
    ensures
        !(in_subtree(at, 2 * root + 1) && in_subtree(at, 2 * root + 2)),
    decreases at,
{
    if at > 2 * root + 2 {
        lemma_subtrees_apart((at - 1) / 2, root);
    } else if at == 2 * root + 2 {
        assert((at - 1) / 2 == root);
        assert(!in_subtree(root, 2 * root + 1));
    }
}

/// Sinking the entry at `root` keeps the entries and moves none outside the
/// subtree of `root`. It leaves at `root` the last-ranked of the entry and its
/// children. Where the subtrees of the two children were in heap order, the
/// subtree of `root` is in heap order afterwards.
pub proof fn lemma_sifted(s: Seq<(usize, Roi)>, root: int)
    requires
        0 <= root,
    ensures
        sifted(s, root).len() == s.len(),
        sifted(s, root).to_multiset() == s.to_multiset(),
        forall|i: int|
            0 <= i < s.len() && !in_subtree(i, root) ==> #[trigger] sifted(s, root)[i] == s[i],
        root < s.len() ==> sifted(s, root)[root] == s[last_ranked_of(s, root)],
        heap_in_subtree(s, 2 * root + 1) && heap_in_subtree(s, 2 * root + 2) ==> heap_in_subtree(
            sifted(s, root),
            root,
        ),
    decreases s.len() - root,
{
    let left = 2 * root + 1;
    let right = 2 * root + 2;
    let child = last_ranked_of(s, root);
    let ordered = heap_in_subtree(s, left) && heap_in_subtree(s, right);
    lemma_ranking_total();
    if root < s.len() {
        if left < s.len() {
            assert(ranking()(s[root], s[left]) || ranking()(s[left], s[root]));
        }
        if right < s.len() {
            assert(ranking()(s[root], s[right]) || ranking()(s[right], s[root]));
            assert(ranking()(s[left], s[right]) || ranking()(s[right], s[left]));
        }
    }
    if root < child < s.len() {
        let other = if child == left {
            right
        } else {
            left
        };
        let t = swapped(s, root, child);
        let r = sifted(t, child);
        lemma_swapped_same_entries(s, root, child);
        lemma_sifted(t, child);
        assert(in_subtree(child, child));
        lemma_subtree_of_child(child, root, child);
        assert forall|i: int| 0 <= i < s.len() && !in_subtree(i, root) implies #[trigger] r[i]
            == s[i] by {
            if in_subtree(i, child) {
                lemma_subtree_of_child(i, root, child);
            }
            assert(r[i] == t[i]);
        }
        assert(r[root] == t[root]);
        if ordered {
            assert forall|c: int|
                0 < c < t.len() && c != 2 * child + 1 && in_subtree(
                    c,
                    2 * child + 1,
                ) implies ranks_no_later(
                #[trigger] t[c],
                t[(c - 1) / 2],
            ) by {
                lemma_subtree_of_child(c, child, 2 * child + 1);
                lemma_subtree_of_child((c - 1) / 2, child, 2 * child + 1);
                assert(ranks_no_later(s[c], s[(c - 1) / 2]));
            }
            assert forall|c: int|
                0 < c < t.len() && c != 2 * child + 2 && in_subtree(
                    c,
                    2 * child + 2,
                ) implies ranks_no_later(
                #[trigger] t[c],
                t[(c - 1) / 2],
            ) by {
                lemma_subtree_of_child(c, child, 2 * child + 2);
                lemma_subtree_of_child((c - 1) / 2, child, 2 * child + 2);
                assert(ranks_no_later(s[c], s[(c - 1) / 2]));
            }
            assert(heap_in_subtree(r, child));
            let below = last_ranked_of(t, child);
            assert(r[child] == t[below]);
            if 2 * child + 1 < s.len() {
                assert(in_subtree(2 * child + 1, child));
                assert(ranks_no_later(s[2 * child + 1], s[child]));
            }
            if 2 * child + 2 < s.len() {
                assert(in_subtree(2 * child + 2, child));
                assert(ranks_no_later(s[2 * child + 2], s[child]));
            }
            assert forall|c: int|
                0 < c < r.len() && c != root && in_subtree(c, root) implies ranks_no_later(
                #[trigger] r[c],
                r[(c - 1) / 2],
            ) by {
                lemma_subtree_splits(c, root);
                lemma_subtrees_apart(c, root);
                if in_subtree(c, child) {
                    if c == child {
                        assert(ranks_no_later(t[below], s[child]));
                    } else {
                        assert(ranks_no_later(r[c], r[(c - 1) / 2]));
                    }
                } else {
                    assert(in_subtree(c, other));
                    lemma_subtree_of_child(c, root, other);
                    assert(r[c] == t[c]);
                    assert(t[c] == s[c]);
                    if c == other {
                        assert(ranks_no_later(s[other], s[child]));
                    } else {
                        let parent = (c - 1) / 2;
                        lemma_subtrees_apart(parent, root);
                        lemma_subtree_of_child(parent, root, other);
                        assert(r[parent] == t[parent]);
                        assert(ranks_no_later(s[c], s[parent]));
                    }
                }
            }
        }
    } else {
        if ordered {
            assert forall|c: int|
                0 < c < s.len() && c != root && in_subtree(c, root) implies ranks_no_later(
                #[trigger] s[c],
                s[(c - 1) / 2],
            ) by {
                lemma_subtree_splits(c, root);
            }
        }
    }
}

/// Where every entry behind `root` is ranked no earlier than its children,
/// sinking the entry at `root` makes this hold from `root` on.
pub proof fn lemma_sifted_heap_from(s: Seq<(usize, Roi)>, root: int)
    requires
        0 <= root,
        heap_from(s, root + 1),
    ensures
        heap_from(sifted(s, root), root),
{
    let r = sifted(s, root);
    lemma_sifted(s, root);
    assert forall|c: int|
        0 < c < s.len() && c != 2 * root + 1 && in_subtree(c, 2 * root + 1) implies ranks_no_later(
        #[trigger] s[c],
        s[(c - 1) / 2],
    ) by {
        lemma_subtree_of_child((c - 1) / 2, root, 2 * root + 1);
    }
    assert forall|c: int|
        0 < c < s.len() && c != 2 * root + 2 && in_subtree(c, 2 * root + 2) implies ranks_no_later(
        #[trigger] s[c],
        s[(c - 1) / 2],
    ) by {
        lemma_subtree_of_child((c - 1) / 2, root, 2 * root + 2);
    }
    assert forall|c: int| 0 < c < r.len() && (c - 1) / 2 >= root implies ranks_no_later(
        #[trigger] r[c],
        r[(c - 1) / 2],
    ) by {
        if !in_subtree(c, root) {
            assert(!in_subtree((c - 1) / 2, root));
            assert(r[c] == s[c]);
            assert(r[(c - 1) / 2] == s[(c - 1) / 2]);
            assert(ranks_no_later(s[c], s[(c - 1) / 2]));
        }
    }
}

fn swap_entries(arr: &mut Vec<(usize, Roi)>, i: usize, j: usize)
    requires
        i < old(arr).len(),
        j < old(arr).len(),
    ensures
        final(arr)@ == swapped(old(arr)@, i as int, j as int),
{
    let a: (usize, Roi) = arr[i];
    let b: (usize, Roi) = arr[j];
    arr.set(i, b);
    arr.set(j, a);
}

/// Lets the entry at `root` sink: while a child is ranked later than it, it
/// changes places with its last-ranked child. A `root` behind the last entry
/// leaves the entries as they are.
pub fn sift_down(arr: &mut Vec<(usize, Roi)>, root: usize)
    ensures
        final(arr)@ == sifted(old(arr)@, root as int),
{
    let len: usize = arr.len();
    let mut cur: usize = root;
    let mut settled: bool = false;
    while !settled && cur < len / 2
        invariant
            arr@.len() == len,
            sifted(arr@, cur as int) == sifted(old(arr)@, root as int),
            settled ==> last_ranked_of(arr@, cur as int) == cur,
        decreases len - cur, if settled { 0int } else { 1int },
    {
        let left: usize = 2 * cur + 1;
        let right: usize = left + 1;
        let mut smallest: usize = cur;
        if is_ranked_before(&arr[smallest], &arr[left]) {
            smallest = left;
        }
        if right < len && is_ranked_before(&arr[smallest], &arr[right]) {
            smallest = right;
        }
        assert(smallest == last_ranked_of(arr@, cur as int));
        if smallest == cur {
            settled = true;
        } else {
            swap_entries(arr, cur, smallest);
            cur = smallest;
        }
    }
}

/// Puts the entries in heap order, the last-ranked entry at the root.
pub fn min_heapify(arr: &mut Vec<(usize, Roi)>)
    ensures
        is_min_heap(final(arr)@),
        final(arr)@.len() == old(arr)@.len(),
        final(arr)@.to_multiset() == old(arr)@.to_multiset(),
{
    let len: usize = arr.len();
    let mut i: usize = len / 2;
    while i > 0
        invariant
            i <= len / 2,
            arr@.len() == len,
            arr@.len() == old(arr)@.len(),
            heap_from(arr@, i as int),
            arr@.to_multiset() == old(arr)@.to_multiset(),
        decreases i,
    {
        i -= 1;
        proof {
            lemma_sifted(arr@, i as int);
            lemma_sifted_heap_from(arr@, i as int);
        }
        sift_down(arr, i);
    }
}

proof fn lemma_same_entries_contains(
    a: Seq<(usize, Roi)>,
    b: Seq<(usize, Roi)>,
    e: (usize, Roi),
)
    requires
        a.to_multiset() == b.to_multiset(),
        a.contains(e),
    ensures
        b.contains(e),
{
    vstd::seq_lib::to_multiset_contains(a, e);
    vstd::seq_lib::to_multiset_contains(b, e);
}

/// Selecting is ranking: a sequence `kept` in ranking order, together with
/// entries `rest` none of which is ranked ahead of an entry of `kept`, holding
/// between them the entries of `s`, is the head of the full ranking of `s`.
pub proof fn lemma_top_n_unique(
    kept: Seq<(usize, Roi)>,
    rest: Seq<(usize, Roi)>,
    s: Seq<(usize, Roi)>,
)
    requires
        ranked(kept),
        kept.to_multiset().add(rest.to_multiset()) == s.to_multiset(),
        forall|i: int, j: int|
            0 <= i < kept.len() && 0 <= j < rest.len() ==> ranks_no_later(
                #[trigger] kept[i],
                #[trigger] rest[j],
            ),
    ensures
        kept.len() <= s.len(),
        kept == top_n(s, kept.len()),
{
    lemma_full_ranking(rest);
    let tail = full_ranking(rest);
    let all = kept + tail;
    assert forall|i: int, j: int| 0 <= i < j < all.len() implies ranks_no_later(
        #[trigger] all[i],
        #[trigger] all[j],
    ) by {
        if j < kept.len() {
            assert(ranks_no_later(kept[i], kept[j]));
        } else if i >= kept.len() {
            assert(ranks_no_later(tail[i - kept.len()], tail[j - kept.len()]));
        } else {
            let e = tail[j - kept.len()];
            assert(tail.contains(e));
            lemma_same_entries_contains(tail, rest, e);
            let k = choose|k: int| 0 <= k < rest.len() && rest[k] == e;
            assert(ranks_no_later(kept[i], rest[k]));
        }
    }
    lemma_multiset_commutative(kept, tail);
    lemma_full_ranking_unique(all, s);
    lemma_full_ranking(s);
    assert(all.subrange(0, kept.len() as int) =~= kept);
}

/// The `n` best entries, best first: the head of the full ranking of
/// `user_avg_rois`, and all of it where it holds no more than `n` entries.
///
/// Where more than `n` entries compete, a heap of `n` entries is kept with the
/// last-ranked of them at its root; each further entry that is ranked ahead of
/// the root takes the root's place.
pub fn find_top_n(user_avg_rois: &Vec<(usize, Roi)>, n: usize) -> (winners: Vec<(usize, Roi)>)
    ensures
        winners@ == top_n(user_avg_rois@, n as nat),
{
    let num_entries: usize = user_avg_rois.len();
    if num_entries <= n {
        return sort_descending(user_avg_rois);
    }
    if n == 0 {
        return Vec::new();
    }
    let mut min_heap: Vec<(usize, Roi)> = Vec::with_capacity(n);
    let mut i: usize = 0;
    while i < n
        invariant
            i <= n,
            n < num_entries,
            num_entries == user_avg_rois@.len(),
            min_heap@ == user_avg_rois@.subrange(0, i as int),
        decreases n - i,
    {
        min_heap.push(user_avg_rois[i]);
        assert(min_heap@ =~= user_avg_rois@.subrange(0, i + 1));
        i += 1;
    }
    min_heapify(&mut min_heap);
    let ghost mut rest: Seq<(usize, Roi)> = Seq::empty();
    proof {
        assert(min_heap@ + rest =~= min_heap@);
        lemma_multiset_commutative(min_heap@, rest);
    }
    while i < num_entries
        invariant
            0 < n <= i <= num_entries,
            num_entries == user_avg_rois@.len(),
            min_heap@.len() == n,
            is_min_heap(min_heap@),
            min_heap@.to_multiset().add(rest.to_multiset()) == user_avg_rois@.subrange(
                0,
                i as int,
            ).to_multiset(),
            forall|h: int, d: int|
                0 <= h < min_heap@.len() && 0 <= d < rest.len() ==> ranks_no_later(
                    #[trigger] min_heap@[h],
                    #[trigger] rest[d],
                ),
        decreases num_entries - i,
    {
        let candidate: (usize, Roi) = user_avg_rois[i];
        let ghost heap_before = min_heap@;
        let ghost rest_before = rest;
        let ghost root = min_heap@[0];
        proof {
            lemma_ranking_total();
            assert(ranking()(candidate, root) || ranking()(root, candidate));
            assert(user_avg_rois@.subrange(0, i as int).push(candidate)
                =~= user_avg_rois@.subrange(0, i + 1));
            vstd::seq_lib::to_multiset_build(user_avg_rois@.subrange(0, i as int), candidate);
        }
        if is_ranked_before(&candidate, &min_heap[0]) {
            min_heap.set(0, candidate);
            let ghost replaced = min_heap@;
            proof {
                lemma_sifted(replaced, 0);
                lemma_sifted_heap_from(replaced, 0);
            }
            sift_down(&mut min_heap, 0);
            proof {
                rest = rest_before.push(root);
                vstd::seq_lib::to_multiset_update(heap_before, 0, candidate);
                vstd::seq_lib::to_multiset_build(rest_before, root);
                heap_before.to_multiset_ensures();
                assert(heap_before.to_multiset().insert(candidate).remove(root).add(
                    rest_before.to_multiset().insert(root),
                ) =~= heap_before.to_multiset().add(rest_before.to_multiset()).insert(candidate));
                assert forall|h: int, d: int|
                    0 <= h < min_heap@.len() && 0 <= d < rest.len() implies ranks_no_later(
                    #[trigger] min_heap@[h],
                    #[trigger] rest[d],
                ) by {
                    let e = min_heap@[h];
                    assert(min_heap@.contains(e));
                    lemma_same_entries_contains(min_heap@, replaced, e);
                    let k = choose|k: int| 0 <= k < replaced.len() && replaced[k] == e;
                    if k > 0 {
                        assert(e == heap_before[k]);
                        lemma_heap_root_is_last(heap_before, k);
                    }
                    if d < rest_before.len() {
                        assert(ranks_no_later(heap_before[0], rest_before[d]));
                        if k > 0 {
                            assert(ranks_no_later(heap_before[k], rest_before[d]));
                        }
                    }
                }
            }
        } else {
            proof {
                rest = rest_before.push(candidate);
                vstd::seq_lib::to_multiset_build(rest_before, candidate);
                assert(heap_before.to_multiset().add(rest_before.to_multiset().insert(candidate))
                    =~= heap_before.to_multiset().add(rest_before.to_multiset()).insert(candidate));
                assert forall|h: int, d: int|
                    0 <= h < min_heap@.len() && 0 <= d < rest.len() implies ranks_no_later(
                    #[trigger] min_heap@[h],
                    #[trigger] rest[d],
                ) by {
                    lemma_heap_root_is_last(heap_before, h);
                    if d < rest_before.len() {
                        assert(ranks_no_later(heap_before[h], rest_before[d]));
                    }
                }
            }
        }
        i += 1;
    }
    let winners = sort_descending(&min_heap);
    proof {
        assert(user_avg_rois@.subrange(0, i as int) =~= user_avg_rois@);
        lemma_full_ranking(min_heap@);
        assert forall|a: int, d: int|
            0 <= a < winners@.len() && 0 <= d < rest.len() implies ranks_no_later(
            #[trigger] winners@[a],
            #[trigger] rest[d],
        ) by {
            let e = winners@[a];
            assert(winners@.contains(e));
            lemma_same_entries_contains(winners@, min_heap@, e);
            let k = choose|k: int| 0 <= k < min_heap@.len() && min_heap@[k] == e;
            assert(ranks_no_later(min_heap@[k], rest[d]));
        }
        lemma_top_n_unique(winners@, rest, user_avg_rois@);
    }
    winners
}

} // verus!
