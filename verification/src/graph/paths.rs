//! Walks and reachability in a graph whose edges join node identifiers and
//! are followed in both directions.
use vstd::prelude::*;
use vstd::set_lib::lemma_len_subset;
use super::edge::GraphEdge;

verus! {

/// Edge `e` joins `a` and `b`, in either direction.
pub open spec fn links(e: GraphEdge, a: Seq<char>, b: Seq<char>) -> bool {
    (e.source@ == a && e.target@ == b) || (e.target@ == a && e.source@ == b)
}

/// Some edge joins `a` and `b`.
pub open spec fn adjacent(edges: Seq<GraphEdge>, a: Seq<char>, b: Seq<char>) -> bool {
    exists|i: int| 0 <= i < edges.len() && #[trigger] links(edges[i], a, b)
}

/// `p` is a non-empty sequence of identifiers, each joined to the next by
/// an edge.
pub open spec fn is_walk(edges: Seq<GraphEdge>, p: Seq<Seq<char>>) -> bool {
    &&& p.len() > 0
    &&& forall|i: int, j: int|
        0 <= i && j == i + 1 && j < p.len() ==> #[trigger] adjacent(edges, p[i], p[j])
}

/// `p` is a walk from `a` to `b`.
pub open spec fn walk_between(edges: Seq<GraphEdge>, p: Seq<Seq<char>>, a: Seq<char>, b: Seq<char>) -> bool {
    is_walk(edges, p) && p[0] == a && p.last() == b
}

/// Some walk leads from `a` to `b`.
pub open spec fn reachable(edges: Seq<GraphEdge>, a: Seq<char>, b: Seq<char>) -> bool {
    exists|p: Seq<Seq<char>>| #[trigger] walk_between(edges, p, a, b)
}

/// Every neighbour of a member of `s` is a member of `s`.
pub open spec fn closed_under(edges: Seq<GraphEdge>, s: Set<Seq<char>>) -> bool {
    forall|x: Seq<char>, y: Seq<char>|
        #![trigger s.contains(x), adjacent(edges, x, y)]
        s.contains(x) && adjacent(edges, x, y) ==> s.contains(y)
}

/// The endpoints of the edges: source and target of each edge, in order.
pub open spec fn endpoints(edges: Seq<GraphEdge>) -> Seq<Seq<char>> {
    Seq::new(
        2 * edges.len(),
        |k: int|
            if k % 2 == 0 {
                edges[k / 2].source@
            } else {
                edges[k / 2].target@
            },
    )
}

/// A neighbour of anything is an endpoint of some edge.
pub proof fn lemma_neighbour_is_endpoint(edges: Seq<GraphEdge>, a: Seq<char>, b: Seq<char>)
    requires
        adjacent(edges, a, b),
    ensures
        endpoints(edges).contains(b),
{
    let i = choose|i: int| 0 <= i < edges.len() && #[trigger] links(edges[i], a, b);
    let ep = endpoints(edges);
    if edges[i].target@ == b {
        assert(ep[2 * i + 1] == b);
    } else {
        assert(ep[2 * i] == b);
    }
}

/// A walk that starts in a set closed under adjacency stays in it.
pub proof fn lemma_walk_stays_in(edges: Seq<GraphEdge>, s: Set<Seq<char>>, p: Seq<Seq<char>>, k: int)
    requires
        closed_under(edges, s),
        is_walk(edges, p),
        s.contains(p[0]),
        0 <= k < p.len(),
    ensures
        s.contains(p[k]),
    decreases k,
{
    if k > 0 {
        lemma_walk_stays_in(edges, s, p, k - 1);
        assert(adjacent(edges, p[k - 1], p[k]));
    }
}

/// A set closed under adjacency holds everything reachable from its
/// members.
pub proof fn lemma_closed_holds_reachable(edges: Seq<GraphEdge>, s: Set<Seq<char>>, a: Seq<char>, b: Seq<char>)
    requires
        closed_under(edges, s),
        s.contains(a),
        reachable(edges, a, b),
    ensures
        s.contains(b),
{
    let p = choose|p: Seq<Seq<char>>| #[trigger] walk_between(edges, p, a, b);
    lemma_walk_stays_in(edges, s, p, p.len() - 1);
}

/// A walk extended by a neighbour of its last element is a walk.
pub proof fn lemma_walk_push(edges: Seq<GraphEdge>, p: Seq<Seq<char>>, y: Seq<char>)
    requires
        is_walk(edges, p),
        adjacent(edges, p.last(), y),
    ensures
        is_walk(edges, p.push(y)),
{
    let q = p.push(y);
    assert forall|i: int, j: int| 0 <= i && j == i + 1 && j < q.len() implies #[trigger] adjacent(
        edges,
        q[i],
        q[j],
    ) by {
        if j < p.len() {
            assert(adjacent(edges, p[i], p[j]));
        }
    }
}

/// Every element reachable is reachable from itself by the one-element walk.
pub proof fn lemma_reachable_refl(edges: Seq<GraphEdge>, a: Seq<char>)
    ensures
        reachable(edges, a, a),
{
    assert(walk_between(edges, seq![a], a, a));
}

/// Adjacency does not depend on the direction.
pub proof fn lemma_adjacent_symmetric(edges: Seq<GraphEdge>, a: Seq<char>, b: Seq<char>)
    requires
        adjacent(edges, a, b),
    ensures
        adjacent(edges, b, a),
{
    let i = choose|i: int| 0 <= i < edges.len() && #[trigger] links(edges[i], a, b);
    assert(links(edges[i], b, a));
}

/// Reachability does not depend on the direction.
pub proof fn lemma_reachable_symmetric(edges: Seq<GraphEdge>, a: Seq<char>, b: Seq<char>)
    requires
        reachable(edges, a, b),
    ensures
        reachable(edges, b, a),
{
    let p = choose|p: Seq<Seq<char>>| #[trigger] walk_between(edges, p, a, b);
    let q = p.reverse();
    assert forall|i: int, j: int| 0 <= i && j == i + 1 && j < q.len() implies #[trigger] adjacent(
        edges,
        q[i],
        q[j],
    ) by {
        let n = p.len() as int;
        assert(q[i] == p[n - 1 - i]);
        assert(q[j] == p[n - 1 - j]);
        assert(adjacent(edges, p[n - 1 - j], p[n - 1 - i]));
        lemma_adjacent_symmetric(edges, p[n - 1 - j], p[n - 1 - i]);
    }
    assert(walk_between(edges, q, b, a));
}

/// Reachability is transitive.
pub proof fn lemma_reachable_trans(edges: Seq<GraphEdge>, a: Seq<char>, b: Seq<char>, c: Seq<char>)
    requires
        reachable(edges, a, b),
        reachable(edges, b, c),
    ensures
        reachable(edges, a, c),
{
    let p = choose|p: Seq<Seq<char>>| #[trigger] walk_between(edges, p, a, b);
    let q = choose|q: Seq<Seq<char>>| #[trigger] walk_between(edges, q, b, c);
    let r = p + q.drop_first();
    assert forall|i: int, j: int| 0 <= i && j == i + 1 && j < r.len() implies #[trigger] adjacent(
        edges,
        r[i],
        r[j],
    ) by {
        let n = p.len() as int;
        if j < n {
            assert(adjacent(edges, p[i], p[j]));
        } else if j == n {
            assert(r[i] == p[n - 1]);
            assert(r[j] == q[1]);
            assert(q[0] == b);
            assert(adjacent(edges, q[0], q[1]));
        } else {
            assert(r[i] == q[i - n + 1]);
            assert(r[j] == q[j - n + 1]);
            assert(adjacent(edges, q[i - n + 1], q[j - n + 1]));
        }
    }
    if q.len() == 1 {
        assert(r =~= p);
    }
    assert(walk_between(edges, r, a, c));
}

/// A sequence without repeats whose elements all occur in `u` is no longer
/// than `u`.
pub proof fn lemma_distinct_within(v: Seq<Seq<char>>, u: Seq<Seq<char>>)
    requires
        v.no_duplicates(),
        forall|x: Seq<char>| v.contains(x) ==> u.contains(x),
    ensures
        v.len() <= u.len(),
{
    v.unique_seq_to_set();
    u.lemma_cardinality_of_set();
    assert(v.to_set().subset_of(u.to_set()));
    lemma_len_subset(v.to_set(), u.to_set());
}

/// One more edge after a walk: what is reachable from `a` stays reachable
/// across an edge.
pub proof fn lemma_reachable_step(edges: Seq<GraphEdge>, a: Seq<char>, b: Seq<char>, c: Seq<char>)
    requires
        reachable(edges, a, b),
        adjacent(edges, b, c),
    ensures
        reachable(edges, a, c),
{
    let p = choose|p: Seq<Seq<char>>| #[trigger] walk_between(edges, p, a, b);
    lemma_walk_push(edges, p, c);
    assert(walk_between(edges, p.push(c), a, c));
}

/// The members of a sequence, as a set.
pub open spec fn members(s: Seq<Seq<char>>) -> Set<Seq<char>> {
    Set::new(|x: Seq<char>| s.contains(x))
}


/// No walk from `a` to `x` has fewer than `n` identifiers.
pub open spec fn no_shorter_walk(edges: Seq<GraphEdge>, a: Seq<char>, x: Seq<char>, n: int) -> bool {
    forall|w: Seq<Seq<char>>| #[trigger] walk_between(edges, w, a, x) ==> n <= w.len()
}

/// Every identifier that a walk from `a` of fewer than `n` identifiers
/// reaches is among the first `h` of `seen`.
pub open spec fn covered_below(edges: Seq<GraphEdge>, a: Seq<char>, seen: Seq<Seq<char>>, h: int, n: int) -> bool {
    forall|w: Seq<Seq<char>>|
        #[trigger] is_walk(edges, w) && w[0] == a && w.len() < n ==> seen.take(h).contains(w.last())
}

/// The neighbours of the first `h` of `seen` are all in `seen`.
pub open spec fn expanded_upto(edges: Seq<GraphEdge>, seen: Seq<Seq<char>>, h: int) -> bool {
    forall|k: int, y: Seq<char>| 0 <= k < h && #[trigger] adjacent(edges, seen[k], y) ==> seen.contains(y)
}

/// A walk of more than one identifier without its last one is a walk.
pub proof fn lemma_walk_drop_last(edges: Seq<GraphEdge>, w: Seq<Seq<char>>)
    requires
        is_walk(edges, w),
        w.len() > 1,
    ensures
        is_walk(edges, w.drop_last()),
        w.drop_last()[0] == w[0],
        adjacent(edges, w.drop_last().last(), w.last()),
{
    let v = w.drop_last();
    assert forall|i: int, j: int| 0 <= i && j == i + 1 && j < v.len() implies #[trigger] adjacent(
        edges,
        v[i],
        v[j],
    ) by {
        assert(adjacent(edges, w[i], w[j]));
    }
    assert(adjacent(edges, w[w.len() - 2], w[w.len() - 1]));
}

/// Breadth-first search, a new identifier: when every walk shorter than
/// `n` ends among the first `h` identifiers seen, whose neighbours are all
/// seen, an identifier not yet seen is `n` or more identifiers away.
pub proof fn lemma_unseen_is_far(
    edges: Seq<GraphEdge>,
    a: Seq<char>,
    seen: Seq<Seq<char>>,
    h: int,
    n: int,
    x: Seq<char>,
)
    requires
        0 <= h <= seen.len(),
        seen.len() > 0,
        seen[0] == a,
        covered_below(edges, a, seen, h, n),
        expanded_upto(edges, seen, h),
        !seen.contains(x),
    ensures
        no_shorter_walk(edges, a, x, n + 1),
{
    assert forall|w: Seq<Seq<char>>| #[trigger] walk_between(edges, w, a, x) implies n + 1 <= w.len() by {
        if w.len() <= n {
            if w.len() == 1 {
                assert(seen[0] == x);
                assert(seen.contains(x));
            } else {
                lemma_walk_drop_last(edges, w);
                let v = w.drop_last();
                assert(is_walk(edges, v) && v[0] == a && v.len() < n);
                assert(seen.take(h).contains(v.last()));
                let k = choose|k: int| 0 <= k < seen.take(h).len() && seen.take(h)[k] == v.last();
                assert(seen[k] == v.last());
                assert(adjacent(edges, seen[k], x));
                assert(seen.contains(x));
            }
        }
    }
}

/// Breadth-first search, moving on: the identifiers seen are ordered by
/// the length of the shortest walk to them (`lens`), each no shorter than
/// any walk; when the first `h + 1` of them are expanded and every walk
/// shorter than the `h`-th length is covered by the first `h`, and the
/// next length is at most one more, every walk shorter than the next
/// length is covered by the first `h + 1`.
pub proof fn lemma_next_layer(
    edges: Seq<GraphEdge>,
    a: Seq<char>,
    seen: Seq<Seq<char>>,
    lens: Seq<int>,
    h: int,
)
    requires
        0 <= h,
        h + 1 < seen.len(),
        lens.len() == seen.len(),
        seen[0] == a,
        forall|i: int, j: int| 0 <= i <= j < lens.len() ==> lens[i] <= lens[j],
        lens[h + 1] <= lens[h] + 1,
        forall|k: int| 0 <= k < seen.len() ==> no_shorter_walk(edges, a, #[trigger] seen[k], lens[k]),
        covered_below(edges, a, seen, h, lens[h]),
        expanded_upto(edges, seen, h + 1),
    ensures
        covered_below(edges, a, seen, h + 1, lens[h + 1]),
{
    assert forall|w: Seq<Seq<char>>|
        #[trigger] is_walk(edges, w) && w[0] == a && w.len() < lens[h + 1] implies seen.take(
        h + 1,
    ).contains(w.last()) by {
        if w.len() < lens[h] {
            assert(seen.take(h).contains(w.last()));
            let k = choose|k: int| 0 <= k < seen.take(h).len() && seen.take(h)[k] == w.last();
            assert(seen.take(h + 1)[k] == w.last());
        } else if w.len() == 1 {
            assert(seen.take(h + 1)[0] == w.last());
        } else {
            lemma_walk_drop_last(edges, w);
            let v = w.drop_last();
            assert(is_walk(edges, v) && v[0] == a && v.len() < lens[h]);
            assert(seen.take(h).contains(v.last()));
            let k = choose|k: int| 0 <= k < seen.take(h).len() && seen.take(h)[k] == v.last();
            assert(seen[k] == v.last());
            assert(adjacent(edges, seen[k], w.last()));
            assert(seen.contains(w.last()));
            let j = choose|j: int| 0 <= j < seen.len() && seen[j] == w.last();
            assert(walk_between(edges, w, a, seen[j]));
            assert(lens[j] <= w.len());
            if j >= h + 1 {
                assert(lens[h + 1] <= lens[j]);
            }
            assert(seen.take(h + 1)[j] == w.last());
        }
    }
}

} // verus!
