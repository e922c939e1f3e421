//! Newest-first ordering of records: what it means, a stable sort that
//! establishes it, and the facts the repositories rely on.

use vstd::prelude::*;
use crate::record::{views, Record};

verus! {

/// Timestamps never increase from one position to a later one.
pub open spec fn sorted_desc<T: Record>(s: Seq<T::V>) -> bool {
    forall|i: int, j: int| 0 <= i < j < s.len() ==> T::stamp_of(s[i]) >= T::stamp_of(s[j])
}

/// Puts `x` into `s` in front of the first record that is not newer than `x`.
pub open spec fn place<T: Record>(x: T::V, s: Seq<T::V>) -> Seq<T::V>
    decreases s.len(),
{
    if s.len() == 0 || T::stamp_of(s[0]) <= T::stamp_of(x) {
        seq![x] + s
    } else {
        seq![s[0]] + place::<T>(x, s.drop_first())
    }
}

/// The stable newest-first arrangement of `s`: records with equal timestamps
/// keep the order they had in `s`.
pub open spec fn sort_desc<T: Record>(s: Seq<T::V>) -> Seq<T::V>
    decreases s.len(),
{
    if s.len() == 0 {
        s
    } else {
        place::<T>(s[0], sort_desc::<T>(s.drop_first()))
    }
}

/// Where `place` puts a record: after the `j` strictly newer records that lead `s`.
proof fn lemma_place_at<T: Record>(x: T::V, s: Seq<T::V>, j: int)
    requires
        0 <= j <= s.len(),
        forall|i: int| 0 <= i < j ==> T::stamp_of(s[i]) > T::stamp_of(x),
        j < s.len() ==> T::stamp_of(s[j]) <= T::stamp_of(x),
    ensures
        place::<T>(x, s) == s.insert(j, x),
    decreases j,
{
    if j == 0 {
        assert(seq![x] + s =~= s.insert(0, x));
    } else {
        let rest = s.drop_first();
        assert forall|i: int| 0 <= i < j - 1 implies T::stamp_of(rest[i]) > T::stamp_of(x) by {
            assert(rest[i] == s[i + 1]);
        }
        lemma_place_at::<T>(x, rest, j - 1);
        assert(seq![s[0]] + rest.insert(j - 1, x) =~= s.insert(j, x));
    }
}

/// `place` is an insertion: it adds `x` at one position and moves nothing else.
/// The position is behind every strictly newer leading record and in front of
/// the first record that is not newer.
pub proof fn lemma_place_is_insert<T: Record>(x: T::V, s: Seq<T::V>) -> (j: int)
    ensures
        0 <= j <= s.len(),
        place::<T>(x, s) == s.insert(j, x),
        forall|i: int| 0 <= i < j ==> T::stamp_of(s[i]) > T::stamp_of(x),
        j < s.len() ==> T::stamp_of(s[j]) <= T::stamp_of(x),
    decreases s.len(),
{
    if s.len() == 0 || T::stamp_of(s[0]) <= T::stamp_of(x) {
        assert(seq![x] + s =~= s.insert(0, x));
        0
    } else {
        let rest = s.drop_first();
        let k = lemma_place_is_insert::<T>(x, rest);
        assert forall|i: int| 0 <= i < k + 1 implies T::stamp_of(s[i]) > T::stamp_of(x) by {
            if i > 0 {
                assert(s[i] == rest[i - 1]);
            }
        }
        if k + 1 < s.len() {
            assert(s[k + 1] == rest[k]);
        }
        assert(seq![s[0]] + rest.insert(k, x) =~= s.insert(k + 1, x));
        k + 1
    }
}

/// Placing a record into a newest-first sequence keeps it newest-first.
pub proof fn lemma_place_sorted<T: Record>(x: T::V, s: Seq<T::V>)
    requires
        sorted_desc::<T>(s),
    ensures
        sorted_desc::<T>(place::<T>(x, s)),
        place::<T>(x, s).len() == s.len() + 1,
{
    let j = lemma_place_is_insert::<T>(x, s);
    let r = s.insert(j, x);
    assert forall|a: int, b: int| 0 <= a < b < r.len() implies T::stamp_of(r[a]) >= T::stamp_of(
        r[b],
    ) by {
        if a < j && b > j {
            assert(r[a] == s[a] && r[b] == s[b - 1]);
        } else if a == j {
            assert(r[b] == s[b - 1]);
            assert(T::stamp_of(s[j]) >= T::stamp_of(s[b - 1]));
        } else if b == j {
            assert(r[a] == s[a]);
        } else if b < j {
            assert(r[a] == s[a] && r[b] == s[b]);
        } else {
            assert(r[a] == s[a - 1] && r[b] == s[b - 1]);
        }
    }
}

/// Sorting yields a newest-first sequence of the same length.
pub proof fn lemma_sort_desc_sorted<T: Record>(s: Seq<T::V>)
    ensures
        sorted_desc::<T>(sort_desc::<T>(s)),
        sort_desc::<T>(s).len() == s.len(),
    decreases s.len(),
{
    if s.len() > 0 {
        lemma_sort_desc_sorted::<T>(s.drop_first());
        lemma_place_sorted::<T>(s[0], sort_desc::<T>(s.drop_first()));
    }
}

/// A single record is sorted as it stands.
pub proof fn lemma_sort_desc_single<T: Record>(x: T::V)
    ensures
        sort_desc::<T>(seq![x]) == seq![x],
{
    reveal_with_fuel(sort_desc, 2);
    assert(seq![x].drop_first() =~= Seq::<T::V>::empty());
    assert(seq![x] + Seq::<T::V>::empty() =~= seq![x]);
}

/// In a newest-first sequence every two neighbours are in order, which is the
/// form in which the ordering is usually observed.
pub proof fn lemma_sorted_neighbours<T: Record>(s: Seq<T::V>, i: int)
    requires
        sorted_desc::<T>(s),
        0 <= i,
        i + 1 < s.len(),
    ensures
        T::stamp_of(s[i]) >= T::stamp_of(s[i + 1]),
{
}

/// Sorting rearranges: the sorted sequence holds exactly the records of the
/// input, each as often as the input does.
pub proof fn lemma_sort_desc_permutes<T: Record>(s: Seq<T::V>)
    ensures
        sort_desc::<T>(s).to_multiset() == s.to_multiset(),
    decreases s.len(),
{
    broadcast use vstd::seq_lib::group_to_multiset_ensures;

    if s.len() > 0 {
        let rest = s.drop_first();
        lemma_sort_desc_permutes::<T>(rest);
        let sorted_rest = sort_desc::<T>(rest);
        let j = lemma_place_is_insert::<T>(s[0], sorted_rest);
        assert(s =~= rest.insert(0, s[0]));
        assert(sorted_rest.insert(j, s[0]).to_multiset() == sorted_rest.to_multiset().insert(s[0]));
        assert(rest.insert(0, s[0]).to_multiset() == rest.to_multiset().insert(s[0]));
    }
}

/// The rest of a newest-first sequence is newest-first.
proof fn lemma_sorted_rest<T: Record>(s: Seq<T::V>)
    requires
        sorted_desc::<T>(s),
        s.len() > 0,
    ensures
        sorted_desc::<T>(s.drop_first()),
{
    let rest = s.drop_first();
    assert forall|i: int, j: int| 0 <= i < j < rest.len() implies T::stamp_of(rest[i])
        >= T::stamp_of(rest[j]) by {
        assert(rest[i] == s[i + 1] && rest[j] == s[j + 1]);
    }
}

/// A sequence that is already newest-first is left as it is.
pub proof fn lemma_sort_desc_fixes_sorted<T: Record>(s: Seq<T::V>)
    requires
        sorted_desc::<T>(s),
    ensures
        sort_desc::<T>(s) == s,
    decreases s.len(),
{
    if s.len() > 0 {
        let rest = s.drop_first();
        lemma_sorted_rest::<T>(s);
        lemma_sort_desc_fixes_sorted::<T>(rest);
        if rest.len() > 0 {
            assert(rest[0] == s[1]);
        }
        assert(seq![s[0]] + rest =~= s);
    }
}

/// How a filter treats the first record: it stays in front of what is kept
/// of the rest, or it is dropped.
proof fn lemma_filter_first<T: Record>(s: Seq<T::V>, keep: spec_fn(T::V) -> bool)
    requires
        s.len() > 0,
    ensures
        keep(s[0]) ==> s.filter(keep) == seq![s[0]] + s.drop_first().filter(keep) && s.filter(
            keep,
        )[0] == s[0] && s.filter(keep).drop_first() == s.drop_first().filter(keep),
        !keep(s[0]) ==> s.filter(keep) == s.drop_first().filter(keep),
{
    let rest = s.drop_first();
    let kept_rest = rest.filter(keep);
    assert(s =~= seq![s[0]] + rest);
    rest.lemma_filter_prepend(s[0], keep);
    if keep(s[0]) {
        assert((seq![s[0]] + kept_rest).drop_first() =~= kept_rest);
    } else {
        assert(Seq::<T::V>::empty() + kept_rest =~= kept_rest);
    }
}

/// Keeping only the records that satisfy `keep` and then placing `x` gives the
/// same as placing `x` first, provided the sequence is newest-first.
pub proof fn lemma_place_filter<T: Record>(x: T::V, s: Seq<T::V>, keep: spec_fn(T::V) -> bool)
    requires
        sorted_desc::<T>(s),
    ensures
        place::<T>(x, s).filter(keep) == if keep(x) {
            place::<T>(x, s.filter(keep))
        } else {
            s.filter(keep)
        },
    decreases s.len(),
{
    let kept = s.filter(keep);
    if s.len() == 0 || T::stamp_of(s[0]) <= T::stamp_of(x) {
        s.lemma_filter_prepend(x, keep);
        if keep(x) {
            if kept.len() > 0 {
                assert(kept.contains(kept[0]));
                s.lemma_filter_contains_rev(keep, kept[0]);
                let k = choose|k: int| 0 <= k < s.len() && s[k] == kept[0];
                assert(T::stamp_of(s[k]) <= T::stamp_of(s[0]));
            }
            assert(place::<T>(x, kept) == seq![x] + kept);
        } else {
            assert(Seq::<T::V>::empty() + kept =~= kept);
        }
    } else {
        let rest = s.drop_first();
        let kept_rest = rest.filter(keep);
        lemma_sorted_rest::<T>(s);
        lemma_place_filter::<T>(x, rest, keep);
        lemma_filter_first::<T>(s, keep);
        let placed = seq![s[0]] + place::<T>(x, rest);
        assert(placed[0] == s[0] && placed.drop_first() =~= place::<T>(x, rest));
        lemma_filter_first::<T>(placed, keep);
        if keep(s[0]) && keep(x) {
            assert(place::<T>(x, kept) == seq![s[0]] + place::<T>(x, kept_rest));
        }
    }
}

/// Sorting and filtering commute: dropping records before or after the sort
/// gives the same sequence.
pub proof fn lemma_sort_desc_filter<T: Record>(s: Seq<T::V>, keep: spec_fn(T::V) -> bool)
    ensures
        sort_desc::<T>(s).filter(keep) == sort_desc::<T>(s.filter(keep)),
    decreases s.len(),
{
    if s.len() > 0 {
        let rest = s.drop_first();
        lemma_sort_desc_filter::<T>(rest, keep);
        lemma_sort_desc_sorted::<T>(rest);
        lemma_place_filter::<T>(s[0], sort_desc::<T>(rest), keep);
        lemma_filter_first::<T>(s, keep);
    } else {
        assert(s.filter(keep) =~= s);
    }
}

/// The test "carries the timestamp `stamp`".
pub open spec fn stamped<T: Record>(stamp: u64) -> spec_fn(T::V) -> bool {
    |v: T::V| T::stamp_of(v) == stamp
}

/// The sort is stable: among the records that carry one timestamp, the order
/// of the input is kept.
pub proof fn lemma_sort_desc_stable<T: Record>(s: Seq<T::V>, stamp: u64)
    ensures
        sort_desc::<T>(s).filter(stamped::<T>(stamp)) == s.filter(stamped::<T>(stamp)),
{
    let same = stamped::<T>(stamp);
    let group = s.filter(same);
    lemma_sort_desc_filter::<T>(s, same);
    assert forall|i: int, j: int| 0 <= i < j < group.len() implies T::stamp_of(group[i])
        >= T::stamp_of(group[j]) by {
        s.lemma_filter_pred(same, i);
        s.lemma_filter_pred(same, j);
    }
    lemma_sort_desc_fixes_sorted::<T>(group);
}

/// The first record of a non-empty newest-first sequence `a` is not older than
/// the first record of `b`, if `b` holds, for the timestamp of its first
/// record, what `a` holds.
proof fn lemma_first_not_older<T: Record>(a: Seq<T::V>, b: Seq<T::V>)
    requires
        sorted_desc::<T>(a),
        b.len() > 0,
        a.filter(stamped::<T>(T::stamp_of(b[0]))) == b.filter(stamped::<T>(T::stamp_of(b[0]))),
    ensures
        a.len() > 0,
        T::stamp_of(a[0]) >= T::stamp_of(b[0]),
{
    let same = stamped::<T>(T::stamp_of(b[0]));
    b.lemma_filter_contains(same, 0);
    let group = a.filter(same);
    assert(group.contains(b[0]));
    a.lemma_filter_contains_rev(same, b[0]);
    let k = choose|k: int| 0 <= k < a.len() && a[k] == b[0];
    if k > 0 {
        assert(T::stamp_of(a[0]) >= T::stamp_of(a[k]));
    }
}

/// Two newest-first sequences that hold, for every timestamp, the same
/// records in the same order are the same sequence.
proof fn lemma_sorted_groups_decide<T: Record>(a: Seq<T::V>, b: Seq<T::V>)
    requires
        sorted_desc::<T>(a),
        sorted_desc::<T>(b),
        forall|stamp: u64| a.filter(stamped::<T>(stamp)) == b.filter(stamped::<T>(stamp)),
    ensures
        a == b,
    decreases a.len(),
{
    if a.len() == 0 {
        if b.len() > 0 {
            lemma_first_not_older::<T>(a, b);
        }
        assert(a =~= b);
    } else {
        lemma_first_not_older::<T>(b, a);
        lemma_first_not_older::<T>(a, b);
        let newest = T::stamp_of(a[0]);
        assert(T::stamp_of(b[0]) == newest);
        let a_rest = a.drop_first();
        let b_rest = b.drop_first();
        assert(a =~= seq![a[0]] + a_rest);
        assert(b =~= seq![b[0]] + b_rest);
        assert forall|stamp: u64| a_rest.filter(stamped::<T>(stamp)) == b_rest.filter(
            stamped::<T>(stamp),
        ) by {
            let same = stamped::<T>(stamp);
            a_rest.lemma_filter_prepend(a[0], same);
            b_rest.lemma_filter_prepend(b[0], same);
            assert(a.filter(same) == b.filter(same));
            if stamp == newest {
                let left = seq![a[0]] + a_rest.filter(same);
                let right = seq![b[0]] + b_rest.filter(same);
                assert(left.drop_first() =~= a_rest.filter(same));
                assert(right.drop_first() =~= b_rest.filter(same));
            } else {
                assert(Seq::<T::V>::empty() + a_rest.filter(same) =~= a_rest.filter(same));
                assert(Seq::<T::V>::empty() + b_rest.filter(same) =~= b_rest.filter(same));
            }
        }
        let same = stamped::<T>(newest);
        a_rest.lemma_filter_prepend(a[0], same);
        b_rest.lemma_filter_prepend(b[0], same);
        assert((seq![a[0]] + a_rest.filter(same))[0] == (seq![b[0]] + b_rest.filter(same))[0]);
        assert(a[0] == b[0]);
        lemma_sorted_rest::<T>(a);
        lemma_sorted_rest::<T>(b);
        lemma_sorted_groups_decide::<T>(a_rest, b_rest);
    }
}

/// What the sort computes is decided by two demands: the result is
/// newest-first, and among the records of one timestamp the order of the
/// input is kept. Any sequence that meets both is the sorted one.
pub proof fn lemma_sort_desc_is_the_stable_order<T: Record>(s: Seq<T::V>, r: Seq<T::V>)
    requires
        sorted_desc::<T>(r),
        forall|stamp: u64| r.filter(stamped::<T>(stamp)) == s.filter(stamped::<T>(stamp)),
    ensures
        r == sort_desc::<T>(s),
{
    let sorted = sort_desc::<T>(s);
    lemma_sort_desc_sorted::<T>(s);
    assert forall|stamp: u64| r.filter(stamped::<T>(stamp)) == sorted.filter(
        stamped::<T>(stamp),
    ) by {
        lemma_sort_desc_stable::<T>(s, stamp);
    }
    lemma_sorted_groups_decide::<T>(r, sorted);
}

/// Inserts `item` in front of the first record that is not newer than it.
pub fn insert_newest_first<T: Record>(sorted: &mut Vec<T>, item: T)
    ensures
        views(final(sorted)@) == place::<T>(item@, views(old(sorted)@)),
{
    let stamp = item.timestamp();
    let mut j: usize = 0;
    while j < sorted.len() && sorted[j].timestamp() > stamp
        invariant
            j <= sorted.len(),
            sorted@ == old(sorted)@,
            stamp == T::stamp_of(item@),
            forall|i: int| 0 <= i < j ==> T::stamp_of(#[trigger] sorted@[i]@) > stamp,
        decreases sorted.len() - j,
    {
        j += 1;
    }
    proof {
        let s = views(sorted@);
        assert forall|i: int| 0 <= i < j implies T::stamp_of(s[i]) > T::stamp_of(item@) by {
            assert(s[i] == sorted@[i]@);
        }
        lemma_place_at::<T>(item@, s, j as int);
        assert(views(sorted@.insert(j as int, item)) =~= s.insert(j as int, item@));
    }
    sorted.insert(j, item);
}

/// Sorts records newest first, keeping the relative order of equal timestamps.
pub fn sort_newest_first<T: Record>(items: Vec<T>) -> (sorted: Vec<T>)
    ensures
        views(sorted@) == sort_desc::<T>(views(items@)),
{
    let ghost all = views(items@);
    let mut rest = items;
    let mut sorted: Vec<T> = Vec::new();
    proof {
        assert(all.skip(rest.len() as int) =~= Seq::<T::V>::empty());
    }
    while rest.len() > 0
        invariant
            views(rest@) == all.take(rest.len() as int),
            rest.len() <= all.len(),
            views(sorted@) == sort_desc::<T>(all.skip(rest.len() as int)),
        decreases rest.len(),
    {
        let ghost n = rest.len() as int;
        let ghost before = rest@;
        let item = rest.pop().unwrap();
        proof {
            let tail = all.skip(n - 1);
            assert(item@ == views(before)[n - 1]);
            assert(tail[0] == item@);
            assert(tail.drop_first() =~= all.skip(n));
            assert(views(rest@) =~= all.take(n - 1));
        }
        insert_newest_first(&mut sorted, item);
    }
    proof {
        assert(all.skip(0) =~= all);
    }
    sorted
}

} // verus!
