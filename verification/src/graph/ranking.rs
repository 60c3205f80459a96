//! Ranking by exact fractions: comparing [`Ratio`]s and sorting scored
//! identifiers from the highest score down, equal scores keeping their
//! order.
use vstd::prelude::*;
use super::graph_analyzer::Ratio;
use crate::text::contains_string;

verus! {

broadcast use vstd::seq_lib::group_seq_properties;

/// The numerator a ratio stands for: zero when its denominator is zero.
pub open spec fn ratio_top(a: Ratio) -> int {
    if a.denominator == 0 {
        0
    } else {
        a.numerator as int
    }
}

/// The denominator a ratio stands for: one when its denominator is zero.
pub open spec fn ratio_bottom(a: Ratio) -> int {
    if a.denominator == 0 {
        1
    } else {
        a.denominator as int
    }
}

/// `a` stands for a smaller fraction than `b`.
pub open spec fn ratio_lt(a: Ratio, b: Ratio) -> bool {
    ratio_top(a) * ratio_bottom(b) < ratio_top(b) * ratio_bottom(a)
}

/// Both parts of a ratio fit in 64 bits.
pub open spec fn ratio_small(a: Ratio) -> bool {
    a.numerator <= u64::MAX && a.denominator <= u64::MAX
}

/// Whether `a` stands for a smaller fraction than `b` (see [`ratio_lt`]).
pub fn ratio_less(a: Ratio, b: Ratio) -> (r: bool)
    requires
        ratio_small(a),
        ratio_small(b),
    ensures
        r == ratio_lt(a, b),
{
    let (at, ab) = if a.denominator == 0 { (0u128, 1u128) } else { (a.numerator, a.denominator) };
    let (bt, bb) = if b.denominator == 0 { (0u128, 1u128) } else { (b.numerator, b.denominator) };
    assert(at * bb <= u64::MAX * u64::MAX) by (nonlinear_arith)
        requires
            at <= u64::MAX,
            bb <= u64::MAX,
    ;
    assert(bt * ab <= u64::MAX * u64::MAX) by (nonlinear_arith)
        requires
            bt <= u64::MAX,
            ab <= u64::MAX,
    ;
    at * bb < bt * ab
}

/// `s` with `x` placed before the first entry whose score is lower.
pub open spec fn insert_by_score(s: Seq<(Seq<char>, Ratio)>, x: (Seq<char>, Ratio)) -> Seq<(Seq<char>, Ratio)>
    decreases s.len(),
{
    if s.len() == 0 {
        seq![x]
    } else if ratio_lt(s[0].1, x.1) {
        seq![x] + s
    } else {
        seq![s[0]] + insert_by_score(s.drop_first(), x)
    }
}

/// `s` sorted from the highest score down, entries of equal score in
/// their order in `s`.
pub open spec fn sorted_by_score(s: Seq<(Seq<char>, Ratio)>) -> Seq<(Seq<char>, Ratio)>
    decreases s.len(),
{
    if s.len() == 0 {
        Seq::empty()
    } else {
        insert_by_score(sorted_by_score(s.drop_last()), s.last())
    }
}

/// A list of scored identifiers, as text.
pub open spec fn scored_view(v: Seq<(String, Ratio)>) -> Seq<(Seq<char>, Ratio)> {
    v.map_values(|p: (String, Ratio)| (p.0@, p.1))
}

/// No score is lower than one that comes after it.
pub open spec fn descending(s: Seq<(Seq<char>, Ratio)>) -> bool {
    forall|i: int, j: int| 0 <= i < j < s.len() ==> !ratio_lt(#[trigger] s[i].1, #[trigger] s[j].1)
}

proof fn lemma_ratio_lt_total(a: Ratio, b: Ratio)
    ensures
        !ratio_lt(a, b) && !ratio_lt(b, a) || ratio_lt(a, b) != ratio_lt(b, a),
{
}

proof fn lemma_ratio_not_lt_trans(a: Ratio, b: Ratio, c: Ratio)
    requires
        !ratio_lt(a, b),
        !ratio_lt(b, c),
    ensures
        !ratio_lt(a, c),
{
    let (at, ab, bt, bb, ct, cb) = (ratio_top(a), ratio_bottom(a), ratio_top(b), ratio_bottom(b), ratio_top(c), ratio_bottom(c));
    assert(ab > 0 && bb > 0 && cb > 0);
    assert(at * bb >= bt * ab);
    assert(bt * cb >= ct * bb);
    assert(at * cb >= ct * ab) by (nonlinear_arith)
        requires
            ab > 0,
            bb > 0,
            cb > 0,
            at * bb >= bt * ab,
            bt * cb >= ct * bb,
    ;
}

proof fn lemma_insert_descending(s: Seq<(Seq<char>, Ratio)>, x: (Seq<char>, Ratio))
    requires
        descending(s),
    ensures
        descending(insert_by_score(s, x)),
        insert_by_score(s, x).len() == s.len() + 1,
        insert_by_score(s, x).to_multiset() == s.to_multiset().insert(x),
    decreases s.len(),
{
    broadcast use vstd::multiset::group_multiset_axioms;
    broadcast use vstd::seq_lib::group_to_multiset_ensures;
    let r = insert_by_score(s, x);
    if s.len() == 0 {
        assert(seq![x].to_multiset() =~= Seq::<(Seq<char>, Ratio)>::empty().push(x).to_multiset());
        assert(Seq::<(Seq<char>, Ratio)>::empty().push(x) =~= seq![x]);
        assert(Seq::<(Seq<char>, Ratio)>::empty().to_multiset() =~= vstd::multiset::Multiset::empty());
    } else if ratio_lt(s[0].1, x.1) {
        assert forall|i: int, j: int| 0 <= i < j < r.len() implies !ratio_lt(#[trigger] r[i].1, #[trigger] r[j].1) by {
            if i == 0 {
                assert(r[j] == s[j - 1]);
                if j - 1 > 0 {
                    assert(!ratio_lt(s[0].1, s[j - 1].1));
                }
                lemma_ratio_lt_total(s[0].1, x.1);
                if j - 1 > 0 {
                    lemma_ratio_not_lt_trans(x.1, s[0].1, s[j - 1].1);
                }
            } else {
                assert(r[i] == s[i - 1]);
                assert(r[j] == s[j - 1]);
            }
        }
        assert(r =~= seq![x] + s);
        vstd::seq_lib::lemma_multiset_commutative(seq![x], s);
        assert(seq![x].to_multiset() =~= Seq::<(Seq<char>, Ratio)>::empty().push(x).to_multiset());
        assert(Seq::<(Seq<char>, Ratio)>::empty().push(x) =~= seq![x]);
        assert(Seq::<(Seq<char>, Ratio)>::empty().to_multiset() =~= vstd::multiset::Multiset::empty());
        assert(r.to_multiset() =~= s.to_multiset().insert(x));
    } else {
        let t = s.drop_first();
        assert(descending(t)) by {
            assert forall|i: int, j: int| 0 <= i < j < t.len() implies !ratio_lt(#[trigger] t[i].1, #[trigger] t[j].1) by {
                assert(t[i] == s[i + 1]);
                assert(t[j] == s[j + 1]);
            }
        }
        lemma_insert_descending(t, x);
        let it = insert_by_score(t, x);
        assert(r =~= seq![s[0]] + it);
        assert forall|i: int, j: int| 0 <= i < j < r.len() implies !ratio_lt(#[trigger] r[i].1, #[trigger] r[j].1) by {
            if i == 0 {
                assert(r[j] == it[j - 1]);
                assert(it.to_multiset().count(it[j - 1]) > 0);
                assert(t.to_multiset().insert(x).count(it[j - 1]) > 0);
                if it[j - 1] == x {
                    lemma_ratio_lt_total(s[0].1, x.1);
                } else {
                    assert(t.to_multiset().count(it[j - 1]) > 0);
                    assert(t.contains(it[j - 1]));
                    let k = choose|k: int| 0 <= k < t.len() && t[k] == it[j - 1];
                    assert(s[k + 1] == t[k]);
                }
            } else {
                assert(r[i] == it[i - 1]);
                assert(r[j] == it[j - 1]);
            }
        }
        vstd::seq_lib::lemma_multiset_commutative(seq![s[0]], it);
        vstd::seq_lib::lemma_multiset_commutative(seq![s[0]], t);
        assert(s =~= seq![s[0]] + t);
        assert(seq![s[0]].to_multiset() =~= Seq::<(Seq<char>, Ratio)>::empty().push(s[0]).to_multiset());
        assert(Seq::<(Seq<char>, Ratio)>::empty().push(s[0]) =~= seq![s[0]]);
        assert(Seq::<(Seq<char>, Ratio)>::empty().to_multiset() =~= vstd::multiset::Multiset::empty());
        assert(r.to_multiset() =~= s.to_multiset().insert(x));
    }
}

/// Sorting by score leaves the scores descending and the entries those
/// of the list sorted.
pub proof fn law_sorted_by_score(s: Seq<(Seq<char>, Ratio)>)
    ensures
        descending(sorted_by_score(s)),
        sorted_by_score(s).to_multiset() == s.to_multiset(),
    decreases s.len(),
{
    broadcast use vstd::seq_lib::group_to_multiset_ensures;
    if s.len() == 0 {
        assert(sorted_by_score(s) =~= s);
    } else {
        law_sorted_by_score(s.drop_last());
        lemma_insert_descending(sorted_by_score(s.drop_last()), s.last());
        assert(s.drop_last().push(s.last()) =~= s);
    }
}

/// The position at which `x` is placed in `s` (see [`insert_by_score`]):
/// that of the first entry with a lower score.
fn insertion_position(s: &Vec<(String, Ratio)>, x: Ratio) -> (r: usize)
    requires
        ratio_small(x),
        forall|k: int| 0 <= k < s@.len() ==> ratio_small(#[trigger] s@[k].1),
    ensures
        r <= s@.len(),
        forall|k: int| 0 <= k < r ==> !ratio_lt(#[trigger] s@[k].1, x),
        r < s@.len() ==> ratio_lt(s@[r as int].1, x),
{
    let mut i: usize = 0;
    while i < s.len()
        invariant
            i <= s@.len(),
            ratio_small(x),
            forall|k: int| 0 <= k < s@.len() ==> ratio_small(#[trigger] s@[k].1),
            forall|k: int| 0 <= k < i ==> !ratio_lt(#[trigger] s@[k].1, x),
        decreases s@.len() - i,
    {
        if ratio_less(s[i].1, x) {
            return i;
        }
        i = i + 1;
    }
    i
}

proof fn lemma_insert_at(s: Seq<(Seq<char>, Ratio)>, x: (Seq<char>, Ratio), p: int)
    requires
        0 <= p <= s.len(),
        forall|k: int| 0 <= k < p ==> !ratio_lt(#[trigger] s[k].1, x.1),
        p < s.len() ==> ratio_lt(s[p].1, x.1),
    ensures
        insert_by_score(s, x) == s.insert(p, x),
    decreases s.len(),
{
    if s.len() == 0 {
        assert(s.insert(p, x) =~= seq![x]);
    } else if p == 0 {
        assert(s.insert(0, x) =~= seq![x] + s);
    } else {
        let t = s.drop_first();
        assert forall|k: int| 0 <= k < p - 1 implies !ratio_lt(#[trigger] t[k].1, x.1) by {
            assert(t[k] == s[k + 1]);
        }
        lemma_insert_at(t, x, p - 1);
        assert(s.insert(p, x) =~= seq![s[0]] + t.insert(p - 1, x));
    }
}

/// Sorts scored identifiers from the highest score down, equal scores in
/// their given order (see [`sorted_by_score`]).
pub fn sort_by_score(items: Vec<(String, Ratio)>) -> (r: Vec<(String, Ratio)>)
    requires
        forall|k: int| 0 <= k < items@.len() ==> ratio_small(#[trigger] items@[k].1),
    ensures
        scored_view(r@) == sorted_by_score(scored_view(items@)),
        forall|k: int| 0 <= k < r@.len() ==> ratio_small(#[trigger] r@[k].1),
{
    let ghost all = scored_view(items@);
    let len0 = items.len();
    let mut rest = items;
    let ghost rest0 = rest@;
    let mut out: Vec<(String, Ratio)> = Vec::new();
    let mut taken: usize = 0;
    let ghost n = rest@.len();
    while rest.len() > 0
        invariant
            n == rest0.len(),
            all == scored_view(rest0),
            rest@ == rest0.skip(n - rest@.len()),
            n <= usize::MAX,
            taken == n - rest@.len(),
            forall|k: int| 0 <= k < rest0.len() ==> ratio_small(#[trigger] rest0[k].1),
            forall|k: int| 0 <= k < out@.len() ==> ratio_small(#[trigger] out@[k].1),
            scored_view(out@) == sorted_by_score(all.take(taken as int)),
        decreases rest@.len(),
    {
        let ghost r0 = rest@;
        let x = rest.remove(0);
        proof {
            assert(rest@ =~= rest0.skip(n - rest@.len()));
            assert(x == rest0[taken as int]);
            assert(all.take(taken + 1).drop_last() =~= all.take(taken as int));
            assert(all.take(taken + 1).last() == (x.0@, x.1));
        }
        let p = insertion_position(&out, x.1);
        let ghost o0 = out@;
        out.insert(p, x);
        proof {
            let xv = (x.0@, x.1);
            assert forall|k: int| 0 <= k < p implies !ratio_lt(#[trigger] scored_view(o0)[k].1, xv.1) by {
                assert(scored_view(o0)[k].1 == o0[k].1);
            }
            lemma_insert_at(scored_view(o0), xv, p as int);
            assert(scored_view(out@) =~= scored_view(o0).insert(p as int, xv));
            assert forall|k: int| 0 <= k < out@.len() implies ratio_small(#[trigger] out@[k].1) by {
                if k < p {
                    assert(out@[k] == o0[k]);
                } else if k > p {
                    assert(out@[k] == o0[k - 1]);
                }
            }
        }
        taken = taken + 1;
    }
    proof {
        assert(all.take(n as int) =~= all);
    }
    out
}

/// The identifiers in `v`, each once, in the order of their first
/// occurrence.
pub fn distinct_strings(v: &Vec<String>) -> (r: Vec<String>)
    ensures
        r.deep_view().no_duplicates(),
        forall|x: Seq<char>| r.deep_view().contains(x) <==> v.deep_view().contains(x),
{
    let mut r: Vec<String> = Vec::new();
    let mut i: usize = 0;
    while i < v.len()
        invariant
            i <= v@.len(),
            r.deep_view().no_duplicates(),
            forall|x: Seq<char>| r.deep_view().contains(x) <==> v.deep_view().take(i as int).contains(x),
        decreases v@.len() - i,
    {
        let ghost before = r.deep_view();
        let ghost x0 = v.deep_view()[i as int];
        assert(v@[i as int]@ == x0);
        assert(v.deep_view().take(i + 1) =~= v.deep_view().take(i as int).push(x0));
        if !contains_string(&r, &v[i]) {
            r.push(v[i].clone());
            assert(r.deep_view() =~= before.push(x0));
        }
        i = i + 1;
    }
    assert(v.deep_view().take(v@.len() as int) =~= v.deep_view());
    r
}

} // verus!
