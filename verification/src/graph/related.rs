//! Nodes related to a node through a common neighbour: each time a
//! neighbour of the node has a further neighbour, that further node gains
//! one mention; the neighbours themselves are listed with no mention of
//! their own. Counts stand for scores of four tenths per mention.
use vstd::prelude::*;
use super::graph_analyzer::neighbour_ids;
use super::graph_data::{neighbour_nodes, GraphData};
use crate::text::str_eq;

verus! {

/// The position of the first entry for `id`.
pub open spec fn entry_of(s: Seq<(Seq<char>, nat)>, id: Seq<char>) -> Option<int>
    decreases s.len(),
{
    if s.len() == 0 {
        None
    } else if s.last().0 == id && entry_of(s.drop_last(), id) is None {
        Some(s.len() - 1)
    } else {
        entry_of(s.drop_last(), id)
    }
}

/// `s` with `d` added to the count of `id`, which is placed last when it
/// has no entry yet.
pub open spec fn bump(s: Seq<(Seq<char>, nat)>, id: Seq<char>, d: nat) -> Seq<(Seq<char>, nat)> {
    match entry_of(s, id) {
        Some(i) => s.update(i, (id, s[i].1 + d)),
        None => s.push((id, d)),
    }
}

/// The counts after the first `k` further neighbours `ns` of neighbour
/// `nb` of `id`: one mention for each that is neither `id` nor `nb`.
pub open spec fn mention_all(s: Seq<(Seq<char>, nat)>, id: Seq<char>, nb: Seq<char>, ns: Seq<Seq<char>>, k: nat) -> Seq<(Seq<char>, nat)>
    decreases k,
{
    if k == 0 || k > ns.len() {
        s
    } else {
        let t = mention_all(s, id, nb, ns, (k - 1) as nat);
        let x = ns[k - 1];
        if x != id && x != nb {
            bump(t, x, 1)
        } else {
            t
        }
    }
}

/// The counts after the first `k` neighbours of `id`: for each, its
/// further neighbours are mentioned, then the neighbour itself is listed.
pub open spec fn related_counts(g: GraphData, id: Seq<char>, k: nat) -> Seq<(Seq<char>, nat)>
    decreases k,
{
    let ns = neighbour_ids(g, id);
    if k == 0 || k > ns.len() {
        Seq::empty()
    } else {
        let s = related_counts(g, id, (k - 1) as nat);
        let nb = ns[k - 1];
        bump(mention_all(s, id, nb, neighbour_ids(g, nb), neighbour_ids(g, nb).len()), nb, 0)
    }
}

/// `s` with `x` placed before the first entry with fewer mentions.
pub open spec fn insert_by_count(s: Seq<(Seq<char>, nat)>, x: (Seq<char>, nat)) -> Seq<(Seq<char>, nat)>
    decreases s.len(),
{
    if s.len() == 0 {
        seq![x]
    } else if s[0].1 < x.1 {
        seq![x] + s
    } else {
        seq![s[0]] + insert_by_count(s.drop_first(), x)
    }
}

/// `s` sorted from the most mentions down, ties in their order in `s`.
pub open spec fn sorted_by_count(s: Seq<(Seq<char>, nat)>) -> Seq<(Seq<char>, nat)>
    decreases s.len(),
{
    if s.len() == 0 {
        Seq::empty()
    } else {
        insert_by_count(sorted_by_count(s.drop_last()), s.last())
    }
}

/// The first `n` entries of `s`, or all of them.
pub open spec fn first_entries(s: Seq<(Seq<char>, nat)>, n: nat) -> Seq<(Seq<char>, nat)> {
    if n < s.len() {
        s.take(n as int)
    } else {
        s
    }
}

/// Counts as text and numbers.
pub open spec fn counts_view(v: Seq<(String, u128)>) -> Seq<(Seq<char>, nat)> {
    v.map_values(|p: (String, u128)| (p.0@, p.1 as nat))
}

/// The total of the counts.
pub open spec fn count_total(s: Seq<(Seq<char>, nat)>) -> nat
    decreases s.len(),
{
    if s.len() == 0 {
        0
    } else {
        count_total(s.drop_last()) + s.last().1
    }
}

proof fn lemma_count_total_update(s: Seq<(Seq<char>, nat)>, i: int, x: (Seq<char>, nat))
    requires
        0 <= i < s.len(),
    ensures
        count_total(s.update(i, x)) == count_total(s) - s[i].1 + x.1,
    decreases s.len(),
{
    if i == s.len() - 1 {
        assert(s.update(i, x).drop_last() =~= s.drop_last());
    } else {
        lemma_count_total_update(s.drop_last(), i, x);
        assert(s.update(i, x).drop_last() =~= s.drop_last().update(i, x));
    }
}

proof fn lemma_entry_bounds(s: Seq<(Seq<char>, nat)>, id: Seq<char>)
    ensures
        entry_of(s, id) matches Some(i) ==> 0 <= i < s.len() && s[i].0 == id,
        entry_of(s, id) is None ==> forall|k: int| 0 <= k < s.len() ==> s[k].0 != id,
        entry_of(s, id) matches Some(i) ==> forall|k: int| 0 <= k < i ==> s[k].0 != id,
    decreases s.len(),
{
    if s.len() > 0 {
        let t = s.drop_last();
        lemma_entry_bounds(t, id);
        assert(forall|k: int| 0 <= k < t.len() ==> s[k] == t[k]);
        if entry_of(s, id) is None {
            assert forall|k: int| 0 <= k < s.len() implies s[k].0 != id by {
                if k < t.len() {
                    assert(s[k] == t[k]);
                }
            }
        }
    }
}

proof fn lemma_count_le_total(s: Seq<(Seq<char>, nat)>, i: int)
    requires
        0 <= i < s.len(),
    ensures
        s[i].1 <= count_total(s),
    decreases s.len(),
{
    if i < s.len() - 1 {
        lemma_count_le_total(s.drop_last(), i);
    }
}

proof fn lemma_bump_total(s: Seq<(Seq<char>, nat)>, id: Seq<char>, d: nat)
    ensures
        count_total(bump(s, id, d)) == count_total(s) + d,
{
    lemma_entry_bounds(s, id);
    match entry_of(s, id) {
        Some(i) => {
            lemma_count_total_update(s, i, (id, s[i].1 + d));
        },
        None => {
            assert(s.push((id, d)).drop_last() =~= s);
        },
    }
}

proof fn lemma_neighbour_count(g: GraphData, id: Seq<char>)
    ensures
        neighbour_ids(g, id).len() <= g.edges@.len(),
{
    lemma_neighbour_nodes_len(g.nodes@, g.edges@, id);
}

proof fn lemma_neighbour_nodes_len(nodes: Seq<super::node::GraphNode>, edges: Seq<super::edge::GraphEdge>, id: Seq<char>)
    ensures
        neighbour_nodes(nodes, edges, id).len() <= edges.len(),
    decreases edges.len(),
{
    if edges.len() > 0 {
        lemma_neighbour_nodes_len(nodes, edges.drop_last(), id);
    }
}

/// Adds `d` to the count of `id` (see [`bump`]).
fn bump_exec(s: &mut Vec<(String, u128)>, id: &String, d: u128)
    requires
        count_total(counts_view(old(s)@)) + d <= u128::MAX,
    ensures
        counts_view(final(s)@) == bump(counts_view(old(s)@), id@, d as nat),
{
    let ghost v = counts_view(s@);
    let mut i: usize = 0;
    while i < s.len()
        invariant
            v == counts_view(s@),
            s@ == old(s)@,
            count_total(v) + d <= u128::MAX,
            i <= s@.len(),
            forall|k: int| 0 <= k < i ==> s@[k].0@ != id@,
        decreases s@.len() - i,
    {
        if str_eq(s[i].0.as_str(), id.as_str()) {
            proof {
                lemma_entry_bounds(v, id@);
                assert(v[i as int].0 == id@);
                if entry_of(v, id@) is None {
                    assert(v[i as int].0 != id@);
                }
                let j = entry_of(v, id@)->0;
                if j < i {
                    assert(v[j].0 == s@[j].0@);
                }
                if j > i {
                    assert(v[i as int].0 != id@);
                }
                lemma_count_le_total(v, i as int);
            }
            let c = s[i].1;
            let key = s[i].0.clone();
            s.set(i, (key, c + d));
            proof {
                assert(counts_view(s@) =~= v.update(i as int, (id@, (c + d) as nat)));
            }
            return;
        }
        i = i + 1;
    }
    proof {
        lemma_entry_bounds(v, id@);
        if entry_of(v, id@) is Some {
            let j = entry_of(v, id@)->0;
            assert(v[j].0 == s@[j].0@);
        }
    }
    s.push((id.clone(), d));
    proof {
        assert(counts_view(s@) =~= v.push((id@, d as nat)));
    }
}

impl GraphData {
    /// The mentions of the nodes related to `node_id` (see
    /// [`related_counts`]), in the order they were first met.
    pub fn related_mentions(&self, node_id: &str) -> (r: Vec<(String, u128)>)
        ensures
            counts_view(r@) == related_counts(*self, node_id@, neighbour_ids(*self, node_id@).len()),
    {
        let ghost g = *self;
        let elen = self.edges.len();
        let ghost e = self.edges@.len();
        assert(e <= 0xffff_ffff_ffff_ffff);
        let ns = self.neighbour_id_vec(node_id);
        let mut counts: Vec<(String, u128)> = Vec::new();
        proof {
            lemma_neighbour_count(g, node_id@);
        }
        let mut i: usize = 0;
        while i < ns.len()
            invariant
                g == *self,
                e == self.edges@.len(),
                e <= 0xffff_ffff_ffff_ffff,
                ns.deep_view() == neighbour_ids(g, node_id@),
                ns@.len() <= e,
                i <= ns@.len(),
                counts_view(counts@) == related_counts(g, node_id@, i as nat),
                count_total(counts_view(counts@)) <= i * e,
            decreases ns@.len() - i,
        {
            let nb = &ns[i];
            let further = self.neighbour_id_vec(nb.as_str());
            proof {
                lemma_neighbour_count(g, nb@);
                assert(ns.deep_view()[i as int] == nb@);
            }
            let ghost base = counts_view(counts@);
            let mut j: usize = 0;
            while j < further.len()
                invariant
                    g == *self,
                    e == self.edges@.len(),
                    e <= 0xffff_ffff_ffff_ffff,
                    i < ns@.len(),
                    ns@.len() <= e,
                    further.deep_view() == neighbour_ids(g, nb@),
                    further@.len() <= e,
                    j <= further@.len(),
                    count_total(base) <= i * e,
                    counts_view(counts@) == mention_all(base, node_id@, nb@, further.deep_view(), j as nat),
                    count_total(counts_view(counts@)) <= count_total(base) + j,
                decreases further@.len() - j,
            {
                let x = &further[j];
                proof {
                    assert(further.deep_view()[j as int] == x@);
                    assert(count_total(counts_view(counts@)) + 1 <= u128::MAX) by (nonlinear_arith)
                        requires
                            count_total(counts_view(counts@)) <= count_total(base) + j,
                            count_total(base) <= i * e,
                            i < e + 1,
                            j < e,
                            e <= 0xffff_ffff_ffff_ffff,
                    ;
                }
                if !str_eq(x.as_str(), node_id) && !str_eq(x.as_str(), nb.as_str()) {
                    proof {
                        lemma_bump_total(counts_view(counts@), x@, 1);
                    }
                    bump_exec(&mut counts, x, 1);
                }
                j = j + 1;
            }
            proof {
                assert(count_total(counts_view(counts@)) <= (i + 1) * e) by (nonlinear_arith)
                    requires
                        count_total(counts_view(counts@)) <= count_total(base) + further@.len(),
                        count_total(base) <= i * e,
                        further@.len() <= e,
                ;
                assert(count_total(counts_view(counts@)) <= u128::MAX) by (nonlinear_arith)
                    requires
                        count_total(counts_view(counts@)) <= (i + 1) * e,
                        i < e,
                        e <= 0xffff_ffff_ffff_ffff,
                ;
                lemma_bump_total(counts_view(counts@), nb@, 0);
            }
            bump_exec(&mut counts, nb, 0);
            i = i + 1;
        }
        counts
    }

    /// The identifiers of the neighbours of `id` (see [`neighbour_ids`]).
    fn neighbour_id_vec(&self, id: &str) -> (r: Vec<String>)
        ensures
            r.deep_view() == neighbour_ids(*self, id@),
    {
        let found = self.find_neighbors(id);
        let ghost fv = found@.map_values(|n: &super::node::GraphNode| *n);
        let mut r: Vec<String> = Vec::new();
        let mut i: usize = 0;
        while i < found.len()
            invariant
                fv == found@.map_values(|n: &super::node::GraphNode| *n),
                fv == neighbour_nodes(self.nodes@, self.edges@, id@),
                i <= found@.len(),
                r.deep_view() == fv.take(i as int).map_values(|n: super::node::GraphNode| n.id@),
            decreases found@.len() - i,
        {
            let ghost r0 = r.deep_view();
            r.push(found[i].id.clone());
            assert(fv[i as int] == *found@[i as int]);
            assert(r.deep_view() =~= r0.push(fv[i as int].id@));
            assert(fv.take(i + 1) =~= fv.take(i as int).push(fv[i as int]));
            assert(r.deep_view() =~= fv.take(i + 1).map_values(|n: super::node::GraphNode| n.id@));
            i = i + 1;
        }
        assert(fv.take(fv.len() as int) =~= fv);
        r
    }
}

proof fn lemma_insert_count_at(s: Seq<(Seq<char>, nat)>, x: (Seq<char>, nat), p: int)
    requires
        0 <= p <= s.len(),
        forall|k: int| 0 <= k < p ==> !(#[trigger] s[k].1 < x.1),
        p < s.len() ==> s[p].1 < x.1,
    ensures
        insert_by_count(s, x) == s.insert(p, x),
    decreases s.len(),
{
    if s.len() == 0 {
        assert(s.insert(p, x) =~= seq![x]);
    } else if p == 0 {
        assert(s.insert(0, x) =~= seq![x] + s);
    } else {
        let t = s.drop_first();
        assert forall|k: int| 0 <= k < p - 1 implies !(#[trigger] t[k].1 < x.1) by {
            assert(t[k] == s[k + 1]);
        }
        lemma_insert_count_at(t, x, p - 1);
        assert(s.insert(p, x) =~= seq![s[0]] + t.insert(p - 1, x));
    }
}

/// Sorts counts from the most mentions down, ties in their given order
/// (see [`sorted_by_count`]), and keeps the first `limit`.
pub fn top_counts(items: Vec<(String, u128)>, limit: usize) -> (r: Vec<(String, u128)>)
    ensures
        counts_view(r@) == first_entries(sorted_by_count(counts_view(items@)), limit as nat),
{
    let ghost all = counts_view(items@);
    let len0 = items.len();
    let mut rest = items;
    let ghost rest0 = rest@;
    let mut out: Vec<(String, u128)> = Vec::new();
    let mut taken: usize = 0;
    let ghost n = rest@.len();
    while rest.len() > 0
        invariant
            n == rest0.len(),
            n <= usize::MAX,
            all == counts_view(rest0),
            rest@ == rest0.skip(n - rest@.len()),
            taken == n - rest@.len(),
            counts_view(out@) == sorted_by_count(all.take(taken as int)),
        decreases rest@.len(),
    {
        let x = rest.remove(0);
        proof {
            assert(rest@ =~= rest0.skip(n - rest@.len()));
            assert(x == rest0[taken as int]);
            assert(all.take(taken + 1).drop_last() =~= all.take(taken as int));
            assert(all.take(taken + 1).last() == (x.0@, x.1 as nat));
        }
        let mut p: usize = 0;
        while p < out.len()
            invariant
                p <= out@.len(),
                forall|k: int| 0 <= k < p ==> !(#[trigger] out@[k].1 < x.1),
            ensures
                p <= out@.len(),
                forall|k: int| 0 <= k < p ==> !(#[trigger] out@[k].1 < x.1),
                p < out@.len() ==> out@[p as int].1 < x.1,
            decreases out@.len() - p,
        {
            if out[p].1 < x.1 {
                break;
            }
            p = p + 1;
        }
        let ghost o0 = out@;
        proof {
            let xv = (x.0@, x.1 as nat);
            assert forall|k: int| 0 <= k < p implies !(#[trigger] counts_view(o0)[k].1 < xv.1) by {
                assert(counts_view(o0)[k].1 == o0[k].1);
            }
            if p < o0.len() {
                assert(counts_view(o0)[p as int].1 == o0[p as int].1);
            }
        }
        out.insert(p, x);
        proof {
            lemma_insert_count_at(counts_view(o0), (x.0@, x.1 as nat), p as int);
            assert(counts_view(out@) =~= counts_view(o0).insert(p as int, (x.0@, x.1 as nat)));
        }
        taken = taken + 1;
    }
    proof {
        assert(all.take(n as int) =~= all);
    }
    if limit < out.len() {
        out.truncate(limit);
    }
    proof {
        assert(counts_view(out@) =~= first_entries(sorted_by_count(all), limit as nat));
    }
    out
}

} // verus!
