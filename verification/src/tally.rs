//! Counting how often each string occurs: a list of `(key, count)` entries,
//! one per distinct key.
use vstd::prelude::*;
use crate::text::str_eq;

verus! {

broadcast use vstd::seq_lib::group_seq_properties;

/// How often `k` occurs in `keys`.
pub open spec fn occurrences(keys: Seq<Seq<char>>, k: Seq<char>) -> nat {
    keys.filter(equal_to(k)).len()
}

/// The test for being equal to `k`.
pub open spec fn equal_to(k: Seq<char>) -> spec_fn(Seq<char>) -> bool {
    |x: Seq<char>| x == k
}

/// The entries of a tally, keys taken by their text.
pub open spec fn tally_view(t: Seq<(String, usize)>) -> Seq<(Seq<char>, usize)> {
    t.map_values(|p: (String, usize)| (p.0@, p.1))
}

/// `t` counts `keys`: no key has two entries, every entry carries the
/// number of occurrences of its key (at least one), and every key of
/// `keys` has an entry.
pub open spec fn is_tally_of(t: Seq<(Seq<char>, usize)>, keys: Seq<Seq<char>>) -> bool {
    &&& forall|a: int, b: int| 0 <= a < b < t.len() ==> t[a].0 != t[b].0
    &&& forall|a: int| 0 <= a < t.len() ==> #[trigger] t[a].1 == occurrences(keys, t[a].0) && t[a].1 > 0
    &&& forall|k: Seq<char>| #[trigger] keys.contains(k) ==> exists|a: int| 0 <= a < t.len() && t[a].0 == k
}

/// An empty sequence of keys has no occurrence of anything.
pub proof fn lemma_occurrences_empty(k: Seq<char>)
    ensures
        occurrences(Seq::<Seq<char>>::empty(), k) == 0,
{
    assert(Seq::<Seq<char>>::empty().filter(equal_to(k)) =~= Seq::<Seq<char>>::empty());
}

/// One more key adds one occurrence of itself and none of anything else.
pub proof fn lemma_occurrences_push(keys: Seq<Seq<char>>, k: Seq<char>, x: Seq<char>)
    ensures
        occurrences(keys.push(k), x) == occurrences(keys, x) + if k == x {
            1nat
        } else {
            0nat
        },
{
    keys.lemma_filter_push(k, equal_to(x));
}

/// A key that does not occur has no occurrence.
pub proof fn lemma_occurrences_absent(keys: Seq<Seq<char>>, k: Seq<char>)
    requires
        !keys.contains(k),
    ensures
        occurrences(keys, k) == 0,
    decreases keys.len(),
{
    if keys.len() == 0 {
        lemma_occurrences_empty(k);
    } else {
        let init = keys.drop_last();
        assert(keys =~= init.push(keys.last()));
        assert(!init.contains(k)) by {
            if init.contains(k) {
                let i = choose|i: int| 0 <= i < init.len() && init[i] == k;
                assert(keys[i] == k);
            }
        }
        lemma_occurrences_absent(init, k);
        lemma_occurrences_push(init, keys.last(), k);
    }
}

/// The counts of a tally, added up.
pub open spec fn tally_total(t: Seq<(Seq<char>, usize)>) -> nat
    decreases t.len(),
{
    if t.len() == 0 {
        0
    } else {
        tally_total(t.drop_last()) + t.last().1 as nat
    }
}

/// The occurrences in `keys` of the keys of the entries of `t`, added up.
pub open spec fn occurrence_sum(t: Seq<(Seq<char>, usize)>, keys: Seq<Seq<char>>) -> nat
    decreases t.len(),
{
    if t.len() == 0 {
        0
    } else {
        occurrence_sum(t.drop_last(), keys) + occurrences(keys, t.last().0)
    }
}

/// How many entries of `t` have key `x`.
pub open spec fn entries_with(t: Seq<(Seq<char>, usize)>, x: Seq<char>) -> nat
    decreases t.len(),
{
    if t.len() == 0 {
        0
    } else {
        entries_with(t.drop_last(), x) + if t.last().0 == x {
            1nat
        } else {
            0nat
        }
    }
}

proof fn lemma_occurrence_sum_empty(t: Seq<(Seq<char>, usize)>)
    ensures
        occurrence_sum(t, Seq::empty()) == 0,
    decreases t.len(),
{
    if t.len() > 0 {
        lemma_occurrence_sum_empty(t.drop_last());
        lemma_occurrences_empty(t.last().0);
    }
}

proof fn lemma_occurrence_sum_push(t: Seq<(Seq<char>, usize)>, keys: Seq<Seq<char>>, x: Seq<char>)
    ensures
        occurrence_sum(t, keys.push(x)) == occurrence_sum(t, keys) + entries_with(t, x),
    decreases t.len(),
{
    if t.len() > 0 {
        lemma_occurrence_sum_push(t.drop_last(), keys, x);
        lemma_occurrences_push(keys, x, t.last().0);
    }
}

proof fn lemma_entries_with_one(t: Seq<(Seq<char>, usize)>, x: Seq<char>)
    requires
        forall|a: int, b: int| 0 <= a < b < t.len() ==> t[a].0 != t[b].0,
        exists|a: int| 0 <= a < t.len() && t[a].0 == x,
    ensures
        entries_with(t, x) == 1,
    decreases t.len(),
{
    let init = t.drop_last();
    if t.last().0 == x {
        assert forall|a: int| 0 <= a < init.len() implies init[a].0 != x by {
            assert(t[a].0 != t[t.len() - 1].0);
        }
        lemma_entries_with_none(init, x);
    } else {
        let a = choose|a: int| 0 <= a < t.len() && t[a].0 == x;
        assert(init[a].0 == x);
        lemma_entries_with_one(init, x);
    }
}

proof fn lemma_entries_with_none(t: Seq<(Seq<char>, usize)>, x: Seq<char>)
    requires
        forall|a: int| 0 <= a < t.len() ==> t[a].0 != x,
    ensures
        entries_with(t, x) == 0,
    decreases t.len(),
{
    if t.len() > 0 {
        lemma_entries_with_none(t.drop_last(), x);
    }
}

proof fn lemma_occurrence_sum_covers(t: Seq<(Seq<char>, usize)>, keys: Seq<Seq<char>>)
    requires
        forall|a: int, b: int| 0 <= a < b < t.len() ==> t[a].0 != t[b].0,
        forall|k: Seq<char>| #[trigger] keys.contains(k) ==> exists|a: int| 0 <= a < t.len() && t[a].0 == k,
    ensures
        occurrence_sum(t, keys) == keys.len(),
    decreases keys.len(),
{
    if keys.len() == 0 {
        assert(keys =~= Seq::<Seq<char>>::empty());
        lemma_occurrence_sum_empty(t);
    } else {
        let init = keys.drop_last();
        let x = keys.last();
        assert(keys =~= init.push(x));
        assert forall|k: Seq<char>| #[trigger] init.contains(k) implies exists|a: int| 0 <= a < t.len() && t[a].0 == k by {
            let i = choose|i: int| 0 <= i < init.len() && init[i] == k;
            assert(keys[i] == k);
            assert(keys.contains(k));
        }
        lemma_occurrence_sum_covers(t, init);
        lemma_occurrence_sum_push(t, init, x);
        assert(keys.contains(x)) by {
            assert(keys[keys.len() - 1] == x);
        }
        lemma_entries_with_one(t, x);
    }
}

proof fn lemma_total_is_occurrence_sum(t: Seq<(Seq<char>, usize)>, keys: Seq<Seq<char>>)
    requires
        forall|a: int| 0 <= a < t.len() ==> #[trigger] t[a].1 == occurrences(keys, t[a].0),
    ensures
        tally_total(t) == occurrence_sum(t, keys),
    decreases t.len(),
{
    if t.len() > 0 {
        let init = t.drop_last();
        assert forall|a: int| 0 <= a < init.len() implies #[trigger] init[a].1 == occurrences(keys, init[a].0) by {
            assert(t[a] == init[a]);
        }
        lemma_total_is_occurrence_sum(init, keys);
        assert(t[t.len() - 1].1 == occurrences(keys, t[t.len() - 1].0));
    }
}

/// The counts of a tally of `keys` add up to the number of keys.
pub proof fn law_tally_total(t: Seq<(Seq<char>, usize)>, keys: Seq<Seq<char>>)
    requires
        is_tally_of(t, keys),
    ensures
        tally_total(t) == keys.len(),
{
    lemma_total_is_occurrence_sum(t, keys);
    lemma_occurrence_sum_covers(t, keys);
}

/// The counts of the entries of a tally whose keys pass `p`, added up.
pub open spec fn tally_total_where(t: Seq<(Seq<char>, usize)>, p: spec_fn(Seq<char>) -> bool) -> nat
    decreases t.len(),
{
    if t.len() == 0 {
        0
    } else {
        tally_total_where(t.drop_last(), p) + if p(t.last().0) {
            t.last().1 as nat
        } else {
            0nat
        }
    }
}

/// The occurrences in `keys` of the keys of the entries of `t` that pass
/// `p`, added up.
pub open spec fn occurrence_sum_where(t: Seq<(Seq<char>, usize)>, keys: Seq<Seq<char>>, p: spec_fn(Seq<char>) -> bool) -> nat
    decreases t.len(),
{
    if t.len() == 0 {
        0
    } else {
        occurrence_sum_where(t.drop_last(), keys, p) + if p(t.last().0) {
            occurrences(keys, t.last().0)
        } else {
            0nat
        }
    }
}

proof fn lemma_occurrence_sum_where_empty(t: Seq<(Seq<char>, usize)>, p: spec_fn(Seq<char>) -> bool)
    ensures
        occurrence_sum_where(t, Seq::empty(), p) == 0,
    decreases t.len(),
{
    if t.len() > 0 {
        lemma_occurrence_sum_where_empty(t.drop_last(), p);
        lemma_occurrences_empty(t.last().0);
    }
}

proof fn lemma_occurrence_sum_where_push(t: Seq<(Seq<char>, usize)>, keys: Seq<Seq<char>>, x: Seq<char>, p: spec_fn(Seq<char>) -> bool)
    ensures
        occurrence_sum_where(t, keys.push(x), p) == occurrence_sum_where(t, keys, p) + if p(x) {
            entries_with(t, x)
        } else {
            0nat
        },
    decreases t.len(),
{
    if t.len() > 0 {
        lemma_occurrence_sum_where_push(t.drop_last(), keys, x, p);
        lemma_occurrences_push(keys, x, t.last().0);
    }
}

proof fn lemma_occurrence_sum_where_covers(t: Seq<(Seq<char>, usize)>, keys: Seq<Seq<char>>, p: spec_fn(Seq<char>) -> bool)
    requires
        forall|a: int, b: int| 0 <= a < b < t.len() ==> t[a].0 != t[b].0,
        forall|k: Seq<char>| #[trigger] keys.contains(k) ==> exists|a: int| 0 <= a < t.len() && t[a].0 == k,
    ensures
        occurrence_sum_where(t, keys, p) == keys.filter(p).len(),
    decreases keys.len(),
{
    if keys.len() == 0 {
        assert(keys =~= Seq::<Seq<char>>::empty());
        lemma_occurrence_sum_where_empty(t, p);
        assert(keys.filter(p) =~= Seq::<Seq<char>>::empty());
    } else {
        let init = keys.drop_last();
        let x = keys.last();
        assert(keys =~= init.push(x));
        assert forall|k: Seq<char>| #[trigger] init.contains(k) implies exists|a: int| 0 <= a < t.len() && t[a].0 == k by {
            let i = choose|i: int| 0 <= i < init.len() && init[i] == k;
            assert(keys[i] == k);
            assert(keys.contains(k));
        }
        lemma_occurrence_sum_where_covers(t, init, p);
        lemma_occurrence_sum_where_push(t, init, x, p);
        init.lemma_filter_push(x, p);
        if p(x) {
            assert(keys.contains(x)) by {
                assert(keys[keys.len() - 1] == x);
            }
            lemma_entries_with_one(t, x);
        }
    }
}

proof fn lemma_total_where_is_occurrence_sum(t: Seq<(Seq<char>, usize)>, keys: Seq<Seq<char>>, p: spec_fn(Seq<char>) -> bool)
    requires
        forall|a: int| 0 <= a < t.len() ==> #[trigger] t[a].1 == occurrences(keys, t[a].0),
    ensures
        tally_total_where(t, p) == occurrence_sum_where(t, keys, p),
    decreases t.len(),
{
    if t.len() > 0 {
        let init = t.drop_last();
        assert forall|a: int| 0 <= a < init.len() implies #[trigger] init[a].1 == occurrences(keys, init[a].0) by {
            assert(t[a] == init[a]);
        }
        lemma_total_where_is_occurrence_sum(init, keys, p);
        assert(t[t.len() - 1].1 == occurrences(keys, t[t.len() - 1].0));
    }
}

/// The counts of a tally of `keys` under the keys that pass `p` add up to
/// the number of keys that pass `p`.
pub proof fn law_tally_total_where(t: Seq<(Seq<char>, usize)>, keys: Seq<Seq<char>>, p: spec_fn(Seq<char>) -> bool)
    requires
        is_tally_of(t, keys),
    ensures
        tally_total_where(t, p) == keys.filter(p).len(),
{
    lemma_total_where_is_occurrence_sum(t, keys, p);
    lemma_occurrence_sum_where_covers(t, keys, p);
}

/// Counts one more occurrence of `k` in the tally `t` of `keys`.
pub fn tally_add(t: &mut Vec<(String, usize)>, k: &String, Ghost(keys): Ghost<Seq<Seq<char>>>)
    requires
        is_tally_of(tally_view(old(t)@), keys),
        occurrences(keys, k@) < usize::MAX,
    ensures
        is_tally_of(tally_view(final(t)@), keys.push(k@)),
{
    let ghost t0 = tally_view(t@);
    let ghost nk = keys.push(k@);
    let mut a: usize = 0;
    while a < t.len()
        invariant
            t0 == tally_view(t@),
            nk == keys.push(k@),
            is_tally_of(t0, keys),
            occurrences(keys, k@) < usize::MAX,
            a <= t@.len(),
            forall|b: int| 0 <= b < a ==> t0[b].0 != k@,
        decreases t@.len() - a,
    {
        if str_eq(t[a].0.as_str(), k.as_str()) {
            assert(t0[a as int].0 == k@);
            assert(t0[a as int].1 == occurrences(keys, k@));
            let count = t[a].1 + 1;
            let key = t[a].0.clone();
            t.set(a, (key, count));
            proof {
                let t1 = tally_view(t@);
                assert(t1 =~= t0.update(a as int, (k@, count)));
                assert forall|b: int| 0 <= b < t1.len() implies #[trigger] t1[b].1 == occurrences(nk, t1[b].0)
                    && t1[b].1 > 0 by {
                    lemma_occurrences_push(keys, k@, t1[b].0);
                    assert(t0[b].1 == occurrences(keys, t0[b].0));
                    if b == a {
                        assert(t1[b].0 == k@);
                        assert(t1[b].1 == count);
                    } else {
                        assert(t1[b] == t0[b]);
                        if b < a {
                            assert(t0[b].0 != t0[a as int].0);
                        } else {
                            assert(t0[a as int].0 != t0[b].0);
                        }
                    }
                }
                assert forall|x: Seq<char>| #[trigger] nk.contains(x) implies exists|b: int| 0 <= b < t1.len() && t1[b].0 == x by {
                    if x == k@ {
                        assert(t1[a as int].0 == x);
                    } else {
                        let i = choose|i: int| 0 <= i < nk.len() && nk[i] == x;
                        assert(nk[keys.len() as int] == k@);
                        assert(i < keys.len());
                        assert(keys[i] == x);
                        assert(keys.contains(x));
                        let b = choose|b: int| 0 <= b < t0.len() && t0[b].0 == x;
                        assert(t1[b].0 == x);
                    }
                }
            }
            return;
        }
        a = a + 1;
    }
    t.push((k.clone(), 1));
    proof {
        let t1 = tally_view(t@);
        assert(t1 =~= t0.push((k@, 1usize)));
        assert(!keys.contains(k@)) by {
            if keys.contains(k@) {
                let b = choose|b: int| 0 <= b < t0.len() && t0[b].0 == k@;
            }
        }
        lemma_occurrences_absent(keys, k@);
        assert forall|b: int| 0 <= b < t1.len() implies #[trigger] t1[b].1 == occurrences(nk, t1[b].0)
            && t1[b].1 > 0 by {
            lemma_occurrences_push(keys, k@, t1[b].0);
            if b < t0.len() {
                assert(t0[b].1 == occurrences(keys, t0[b].0));
            }
        }
        assert forall|x: Seq<char>| #[trigger] nk.contains(x) implies exists|b: int| 0 <= b < t1.len() && t1[b].0 == x by {
            if x == k@ {
                assert(t1[t0.len() as int].0 == x);
            } else {
                let i = choose|i: int| 0 <= i < nk.len() && nk[i] == x;
                assert(keys[i] == x);
                assert(keys.contains(x));
                let b = choose|b: int| 0 <= b < t0.len() && t0[b].0 == x;
                assert(t1[b].0 == x);
            }
        }
    }
}

} // verus!
