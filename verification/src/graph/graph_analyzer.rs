//! Analyses of a knowledge graph: walks between nodes, groups, bridges,
//! sub-graphs, common neighbours and statistics.
use vstd::prelude::*;
use super::edge::{edge_stat_name, GraphEdge};
use super::graph_data::{centralities, degree, neighbour_nodes, node_ids, GraphData};
use super::ranking::{distinct_strings, ratio_small, ratio_top, scored_view, sort_by_score, sorted_by_score};
use super::node::{GraphNode, NodeType};
use super::paths::{
    adjacent, closed_under, endpoints, is_walk, lemma_closed_holds_reachable, lemma_distinct_within,
    lemma_neighbour_is_endpoint, lemma_reachable_refl, lemma_reachable_step, lemma_reachable_trans,
    lemma_walk_push, links, members, reachable, walk_between,
};
use crate::tally::{
    equal_to, is_tally_of, law_tally_total, law_tally_total_where, lemma_occurrences_empty, occurrences, tally_add,
    tally_total, tally_total_where, tally_view,
};
use crate::text::{concat, contains_string, copy_slice_strings, copy_string_vec, owned, starts_with, str_eq};

verus! {

broadcast use vstd::seq_lib::group_seq_properties;

/// `p` is a walk from `start` to `end` on which no identifier repeats and
/// which has at most `max_len` elements.
pub open spec fn simple_walk(edges: Seq<GraphEdge>, p: Seq<Seq<char>>, start: Seq<char>, end: Seq<char>, max_len: int) -> bool {
    walk_between(edges, p, start, end) && p.no_duplicates() && p.len() <= max_len
}

/// No two edges join the same pair of nodes (in either direction).
pub open spec fn no_parallel_edges(edges: Seq<GraphEdge>) -> bool {
    forall|i: int, j: int| 0 <= i < j < edges.len() ==> !links(edges[i], edges[j].source@, edges[j].target@)
}

/// The walks added after the first `n` all extend `cp`.
pub open spec fn added_extend(ps: Seq<Seq<Seq<char>>>, n: int, cp: Seq<Seq<char>>) -> bool {
    forall|k: int| n <= k < ps.len() ==> (#[trigger] ps[k]).len() >= cp.len() && ps[k].take(cp.len() as int) == cp
}

/// The walks added after the first `n` are pairwise different.
pub open spec fn added_distinct(ps: Seq<Seq<Seq<char>>>, n: int) -> bool {
    forall|a: int, b: int| n <= a < b < ps.len() ==> ps[a] != ps[b]
}

/// `s` split into consecutive pieces of `size` elements, the last piece
/// possibly shorter (what `slice::chunks` yields).
pub open spec fn chunks<A>(s: Seq<A>, size: nat) -> Seq<Seq<A>>
    decreases s.len(),
{
    if s.len() == 0 || size == 0 {
        Seq::empty()
    } else if s.len() <= size {
        seq![s]
    } else {
        seq![s.take(size as int)] + chunks(s.skip(size as int), size)
    }
}

/// The identifiers of the nodes joined to `id`, one per edge touching `id`
/// whose other end names a node.
pub open spec fn neighbour_ids(g: GraphData, id: Seq<char>) -> Seq<Seq<char>> {
    neighbour_nodes(g.nodes@, g.edges@, id).map_values(|n: GraphNode| n.id@)
}

/// The nodes other than those named `id`.
pub open spec fn other_nodes(nodes: Seq<GraphNode>, id: Seq<char>) -> Seq<GraphNode> {
    nodes.filter(|n: GraphNode| n.id@ != id)
}

/// The edges that do not touch `id`.
pub open spec fn edges_apart(edges: Seq<GraphEdge>, id: Seq<char>) -> Seq<GraphEdge> {
    edges.filter(|e: GraphEdge| e.source@ != id && e.target@ != id)
}

/// The number of connected components of the nodes `ns` under the edges
/// `es` (see [`component_count`]).
pub open spec fn components_of(ns: Seq<GraphNode>, es: Seq<GraphEdge>) -> nat {
    component_count(es, node_ids(ns), ns.len() as int)
}

/// A node is a bridge (an articulation point) when removing it, with the
/// edges that touch it, leaves more connected components than the graph
/// has.
pub open spec fn is_bridge(g: GraphData, n: GraphNode) -> bool {
    components_of(other_nodes(g.nodes@, n.id@), edges_apart(g.edges@, n.id@)) > components_of(g.nodes@, g.edges@)
}

/// The neighbours of `id`, as a set of identifiers.
pub open spec fn neighbour_set(g: GraphData, id: Seq<char>) -> Set<Seq<char>> {
    neighbour_ids(g, id).to_set()
}

/// The Jaccard similarity of two nodes: how many neighbours they share
/// over how many neighbours either has (zero when neither has any).
pub open spec fn similarity_of(g: GraphData, a: Seq<char>, b: Seq<char>) -> Ratio {
    Ratio {
        numerator: neighbour_set(g, a).intersect(neighbour_set(g, b)).len() as u128,
        denominator: neighbour_set(g, a).union(neighbour_set(g, b)).len() as u128,
    }
}

/// The nodes among the first `k` other than `id` that share a neighbour
/// with it, in order, each with its similarity to `id`.
pub open spec fn similar_candidates(g: GraphData, id: Seq<char>, k: nat) -> Seq<(Seq<char>, Ratio)>
    decreases k,
{
    if k == 0 || k > g.nodes@.len() {
        Seq::empty()
    } else {
        let rest = similar_candidates(g, id, (k - 1) as nat);
        let other = g.nodes@[k - 1].id@;
        if other != id && ratio_top(similarity_of(g, id, other)) > 0 {
            rest.push((other, similarity_of(g, id, other)))
        } else {
            rest
        }
    }
}

/// The first `n` entries of `s`, or all of them when there are fewer.
pub open spec fn leading<T>(s: Seq<T>, n: nat) -> Seq<T> {
    if n < s.len() {
        s.take(n as int)
    } else {
        s
    }
}

/// A fraction `numerator / denominator`, read as zero when the denominator
/// is zero.
#[derive(Debug, Clone, Copy, PartialEq, Eq, Structural)]
pub struct Ratio {
    pub numerator: u128,
    pub denominator: u128,
}

/// The names under which the statistics count a node kind: its lower-case
/// name, and for an `Other(s)` kind both "other" and "other::s".
pub open spec fn node_type_keys(t: NodeType) -> Seq<Seq<char>> {
    match t {
        NodeType::Code => seq!["code"@],
        NodeType::Document => seq!["document"@],
        NodeType::Concept => seq!["concept"@],
        NodeType::Person => seq!["person"@],
        NodeType::Organization => seq!["organization"@],
        NodeType::Location => seq!["location"@],
        NodeType::Event => seq!["event"@],
        NodeType::Other(s) => seq!["other"@, "other::"@ + s@],
    }
}

/// The names counted for all nodes, in order.
pub open spec fn all_node_type_keys(nodes: Seq<GraphNode>) -> Seq<Seq<char>>
    decreases nodes.len(),
{
    if nodes.len() == 0 {
        Seq::empty()
    } else {
        all_node_type_keys(nodes.drop_last()) + node_type_keys(nodes.last().node_type)
    }
}

/// The names counted for all edges, in order.
pub open spec fn all_edge_type_keys(edges: Seq<GraphEdge>) -> Seq<Seq<char>> {
    edges.map_values(|e: GraphEdge| edge_stat_name(e.edge_type))
}

/// The degree of each node, in order.
pub open spec fn degree_list(g: GraphData) -> Seq<nat> {
    g.nodes@.map_values(|n: GraphNode| degree(g.edges@, n.id@))
}

/// The sum of a sequence of numbers.
pub open spec fn total(s: Seq<nat>) -> nat
    decreases s.len(),
{
    if s.len() == 0 {
        0
    } else {
        total(s.drop_last()) + s.last()
    }
}

/// The largest of a sequence of numbers, zero for none.
pub open spec fn largest(s: Seq<nat>) -> nat
    decreases s.len(),
{
    if s.len() == 0 {
        0
    } else if s.len() == 1 {
        s[0]
    } else if largest(s.drop_last()) >= s.last() {
        largest(s.drop_last())
    } else {
        s.last()
    }
}

/// The smallest of a sequence of numbers, zero for none.
pub open spec fn smallest(s: Seq<nat>) -> nat
    decreases s.len(),
{
    if s.len() == 0 {
        0
    } else if s.len() == 1 {
        s[0]
    } else if smallest(s.drop_last()) <= s.last() {
        smallest(s.drop_last())
    } else {
        s.last()
    }
}

/// Node `i` opens a new connected component: no earlier node reaches it.
pub open spec fn starts_component(edges: Seq<GraphEdge>, ids: Seq<Seq<char>>, i: int) -> bool {
    forall|j: int| 0 <= j < i ==> !reachable(edges, ids[j], ids[i])
}

/// The number of connected components among the first `n` nodes, counted
/// by the nodes that open one.
pub open spec fn component_count(edges: Seq<GraphEdge>, ids: Seq<Seq<char>>, n: int) -> nat
    decreases n,
{
    if n <= 0 {
        0
    } else {
        component_count(edges, ids, n - 1) + if starts_component(edges, ids, n - 1) {
            1nat
        } else {
            0nat
        }
    }
}

/// The density of a graph with `n` nodes and `e` edges: `e` over the
/// number of node pairs `n * (n - 1) / 2`, zero below two nodes.
pub open spec fn density_of(n: nat, e: nat) -> Ratio {
    if n < 2 {
        Ratio { numerator: 0, denominator: 0 }
    } else {
        Ratio { numerator: e as u128, denominator: (n * (n - 1) / 2) as u128 }
    }
}

/// Statistics of a graph.
#[derive(Debug, Clone)]
pub struct GraphStatistics {
    pub node_count: usize,
    pub edge_count: usize,
    pub node_types: Vec<(String, usize)>,
    pub edge_types: Vec<(String, usize)>,
    pub density: Ratio,
    pub avg_degree: Ratio,
    pub max_degree: usize,
    pub min_degree: usize,
    pub connected_components: usize,
}

/// How many nodes are of an `Other` kind.
pub open spec fn other_kind_count(nodes: Seq<GraphNode>) -> nat
    decreases nodes.len(),
{
    if nodes.len() == 0 {
        0
    } else {
        other_kind_count(nodes.drop_last()) + if nodes.last().node_type is Other {
            1nat
        } else {
            0nat
        }
    }
}

proof fn lemma_node_keys_len(nodes: Seq<GraphNode>)
    ensures
        all_node_type_keys(nodes).len() == nodes.len() + other_kind_count(nodes),
    decreases nodes.len(),
{
    if nodes.len() > 0 {
        lemma_node_keys_len(nodes.drop_last());
    }
}

proof fn lemma_smallest_le_largest(s: Seq<nat>)
    ensures
        smallest(s) <= largest(s),
    decreases s.len(),
{
    if s.len() > 1 {
        lemma_smallest_le_largest(s.drop_last());
    }
}

proof fn lemma_component_bounds(edges: Seq<GraphEdge>, ids: Seq<Seq<char>>, n: int)
    requires
        n >= 0,
    ensures
        component_count(edges, ids, n) <= n,
        n > 0 ==> component_count(edges, ids, n) >= 1,
    decreases n,
{
    if n > 0 {
        lemma_component_bounds(edges, ids, n - 1);
        if n == 1 {
            assert(starts_component(edges, ids, 0));
        }
    }
}

/// A key that counts the nodes of one `Other` kind: `other::<kind>`.
pub open spec fn names_other_kind(k: Seq<char>) -> bool {
    starts_with(k, "other::"@)
}

/// The keys that count kinds of nodes, one per node: every key but those
/// of [`names_other_kind`].
pub open spec fn counts_node_kind() -> spec_fn(Seq<char>) -> bool {
    |k: Seq<char>| !names_other_kind(k)
}

/// How many nodes are of the `Other` kind named `t`.
pub open spec fn others_named(nodes: Seq<GraphNode>, t: Seq<char>) -> nat
    decreases nodes.len(),
{
    if nodes.len() == 0 {
        0
    } else {
        others_named(nodes.drop_last(), t) + match nodes.last().node_type {
            NodeType::Other(s) => if s@ == t {
                1nat
            } else {
                0nat
            },
            _ => 0nat,
        }
    }
}

proof fn lemma_kind_keys(n: NodeType, t: Seq<char>)
    ensures
        node_type_keys(n).filter(counts_node_kind()).len() == 1,
        node_type_keys(n).filter(equal_to("other::"@ + t)).len() == match n {
            NodeType::Other(s) => if s@ == t {
                1nat
            } else {
                0nat
            },
            _ => 0nat,
        },
{
    reveal_strlit("other::");
    reveal_strlit("code");
    reveal_strlit("document");
    reveal_strlit("concept");
    reveal_strlit("person");
    reveal_strlit("organization");
    reveal_strlit("location");
    reveal_strlit("event");
    reveal_strlit("other");
    let ks = node_type_keys(n);
    let p = counts_node_kind();
    let q = equal_to("other::"@ + t);
    let o = "other::"@;
    assert(o.len() == 7);
    assert(("other::"@ + t).take(7) =~= o);
    reveal_with_fuel(Seq::filter, 3);
    assert(ks.len() >= 1);
    if ks.len() == 1 {
        let k = ks[0];
        assert(!names_other_kind(k)) by {
            if k.len() >= 7 {
                assert(k.take(7)[1] != o[1] || k.take(7)[0] != o[0]);
            }
        }
        assert(k != "other::"@ + t) by {
            if k == "other::"@ + t {
                assert(names_other_kind("other::"@ + t));
            }
        }
        assert(ks =~= seq![k]);
        assert(seq![k].drop_last() =~= Seq::<Seq<char>>::empty());
    } else {
        let s = n->Other_0;
        assert(ks =~= seq!["other"@, "other::"@ + s@]);
        assert(!names_other_kind("other"@));
        assert(names_other_kind("other::"@ + s@)) by {
            assert(("other::"@ + s@).take(7) =~= o);
        }
        assert("other"@ != "other::"@ + t);
        assert(("other::"@ + s@ == "other::"@ + t) == (s@ == t)) by {
            if "other::"@ + s@ == "other::"@ + t {
                assert(s@ =~= ("other::"@ + s@).skip(7));
                assert(t =~= ("other::"@ + t).skip(7));
            }
        }
        assert(ks.drop_last() =~= seq!["other"@]);
        assert(seq!["other"@].drop_last() =~= Seq::<Seq<char>>::empty());
    }
}

proof fn lemma_kind_key_counts(nodes: Seq<GraphNode>, t: Seq<char>)
    ensures
        all_node_type_keys(nodes).filter(counts_node_kind()).len() == nodes.len(),
        occurrences(all_node_type_keys(nodes), "other::"@ + t) == others_named(nodes, t),
    decreases nodes.len(),
{
    if nodes.len() == 0 {
        assert(all_node_type_keys(nodes).filter(counts_node_kind()) =~= Seq::<Seq<char>>::empty());
        lemma_occurrences_empty("other::"@ + t);
    } else {
        let init = nodes.drop_last();
        lemma_kind_key_counts(init, t);
        lemma_kind_keys(nodes.last().node_type, t);
        let a = all_node_type_keys(init);
        let b = node_type_keys(nodes.last().node_type);
        Seq::filter_distributes_over_add(a, b, counts_node_kind());
        Seq::filter_distributes_over_add(a, b, equal_to("other::"@ + t));
    }
}

/// What the statistics of a graph add up to: the node-kind counts come to
/// one per node and one more per node of an `Other` kind (counted both as
/// `other` and under its own name); those under keys other than
/// `other::<kind>` come to one per node, and the count under
/// `other::<t>` is the number of nodes of the `Other` kind `t`; the
/// edge-kind counts come to the number of edges; the smallest degree is
/// at most the largest; and a graph with nodes has between one and as
/// many connected components as nodes (none without nodes).
pub proof fn law_statistics_add_up(g: GraphData, s: GraphStatistics, t: Seq<char>)
    requires
        is_tally_of(tally_view(s.node_types@), all_node_type_keys(g.nodes@)),
        is_tally_of(tally_view(s.edge_types@), all_edge_type_keys(g.edges@)),
        s.max_degree == largest(degree_list(g)),
        s.min_degree == smallest(degree_list(g)),
        s.connected_components == component_count(g.edges@, node_ids(g.nodes@), g.nodes@.len() as int),
    ensures
        tally_total(tally_view(s.node_types@)) == g.nodes@.len() + other_kind_count(g.nodes@),
        tally_total(tally_view(s.edge_types@)) == g.edges@.len(),
        s.min_degree <= s.max_degree,
        g.nodes@.len() == 0 ==> s.connected_components == 0,
        g.nodes@.len() > 0 ==> 1 <= s.connected_components <= g.nodes@.len(),
        tally_total_where(tally_view(s.node_types@), counts_node_kind()) == g.nodes@.len(),
        forall|a: int|
            0 <= a < s.node_types@.len() && #[trigger] s.node_types@[a].0@ == "other::"@ + t ==> s.node_types@[a].1
                == others_named(g.nodes@, t),
{
    law_tally_total_where(tally_view(s.node_types@), all_node_type_keys(g.nodes@), counts_node_kind());
    lemma_kind_key_counts(g.nodes@, t);
    assert forall|a: int|
        0 <= a < s.node_types@.len() && #[trigger] s.node_types@[a].0@ == "other::"@ + t implies s.node_types@[a].1
            == others_named(g.nodes@, t) by {
        let tv = tally_view(s.node_types@);
        assert(tv[a].0 == "other::"@ + t);
        assert(tv[a].1 == occurrences(all_node_type_keys(g.nodes@), tv[a].0));
    }
    law_tally_total(tally_view(s.node_types@), all_node_type_keys(g.nodes@));
    lemma_node_keys_len(g.nodes@);
    law_tally_total(tally_view(s.edge_types@), all_edge_type_keys(g.edges@));
    lemma_smallest_le_largest(degree_list(g));
    lemma_component_bounds(g.edges@, node_ids(g.nodes@), g.nodes@.len() as int);
}

/// No node contributes a name twice, so no name is counted more often
/// than there are nodes.
pub proof fn lemma_node_key_bound(nodes: Seq<GraphNode>, k: Seq<char>)
    ensures
        occurrences(all_node_type_keys(nodes), k) <= nodes.len(),
    decreases nodes.len(),
{
    if nodes.len() > 0 {
        let init = nodes.drop_last();
        let ks = node_type_keys(nodes.last().node_type);
        lemma_node_key_bound(init, k);
        Seq::filter_distributes_over_add(all_node_type_keys(init), ks, equal_to(k));
        reveal_strlit("other");
        reveal_strlit("other::");
        assert(ks.filter(equal_to(k)).len() <= 1) by {
            if ks.len() == 1 {
                assert(ks =~= Seq::<Seq<char>>::empty().push(ks[0]));
                Seq::<Seq<char>>::empty().lemma_filter_push(ks[0], equal_to(k));
                assert(Seq::<Seq<char>>::empty().filter(equal_to(k)) =~= Seq::<Seq<char>>::empty());
            } else {
                assert(ks[0].len() != ks[1].len());
                assert(ks =~= Seq::<Seq<char>>::empty().push(ks[0]).push(ks[1]));
                Seq::<Seq<char>>::empty().lemma_filter_push(ks[0], equal_to(k));
                Seq::<Seq<char>>::empty().push(ks[0]).lemma_filter_push(ks[1], equal_to(k));
                assert(Seq::<Seq<char>>::empty().filter(equal_to(k)) =~= Seq::<Seq<char>>::empty());
            }
        }
    }
}

/// Analyses one graph.
pub struct GraphAnalyzer {
    graph: GraphData,
}

impl GraphAnalyzer {
    /// The graph analysed.
    pub closed spec fn graph(self) -> GraphData {
        self.graph
    }

    /// An analyser of `graph`.
    pub fn new(graph: GraphData) -> (r: Self)
        ensures
            r.graph() == graph,
    {
        GraphAnalyzer { graph }
    }

    /// Every walk from `start` to `end` on which no identifier repeats and
    /// which takes at most `max_depth` edges, found by depth-first search
    /// (a walk shows up once for each choice of parallel edges, so without
    /// parallel edges none shows up twice). The result holds exactly those
    /// walks; from a node to itself, just the one-node walk.
    pub fn find_all_paths(&self, start: &str, end: &str, max_depth: usize) -> (r: Vec<Vec<String>>)
        requires
            max_depth < usize::MAX,
        ensures
            forall|p: Seq<Seq<char>>|
                r.deep_view().contains(p) <==> simple_walk(
                    self.graph().edges@,
                    p,
                    start@,
                    end@,
                    max_depth + 1,
                ),
            start@ == end@ ==> r.deep_view() == seq![seq![start@]],
            no_parallel_edges(self.graph().edges@) ==> r.deep_view().no_duplicates(),
    {
        let mut paths: Vec<Vec<String>> = Vec::new();
        let mut current_path: Vec<String> = Vec::new();
        let first = owned(start);
        current_path.push(first.clone());
        proof {
            assert(current_path.deep_view() =~= seq![start@]);
            assert(is_walk(self.graph.edges@, seq![start@]));
        }
        self.dfs_find_paths(&first, end, max_depth, &mut current_path, &mut paths, Ghost(start@));
        proof {
            if no_parallel_edges(self.graph.edges@) {
                assert(added_distinct(paths.deep_view(), 0));
            }
            let es = self.graph.edges@;
            assert forall|p: Seq<Seq<char>>| simple_walk(es, p, start@, end@, max_depth + 1) implies #[trigger] paths.deep_view().contains(p) by {
                assert(p.take(1) =~= seq![start@]);
            }
        }
        paths
    }

    fn dfs_find_paths(
        &self,
        current: &String,
        end: &str,
        max_depth: usize,
        current_path: &mut Vec<String>,
        paths: &mut Vec<Vec<String>>,
        Ghost(start): Ghost<Seq<char>>,
    )
        requires
            max_depth < usize::MAX,
            old(current_path).deep_view().len() <= max_depth + 2,
            walk_between(self.graph.edges@, old(current_path).deep_view(), start, current@),
            old(current_path).deep_view().no_duplicates(),
            forall|p: Seq<Seq<char>>|
                #[trigger] old(paths).deep_view().contains(p) ==> simple_walk(
                    self.graph.edges@,
                    p,
                    start,
                    end@,
                    max_depth + 1,
                ),
        ensures
            final(current_path).deep_view() == old(current_path).deep_view(),
            forall|p: Seq<Seq<char>>|
                #[trigger] final(paths).deep_view().contains(p) ==> simple_walk(
                    self.graph.edges@,
                    p,
                    start,
                    end@,
                    max_depth + 1,
                ),
            forall|p: Seq<Seq<char>>|
                #[trigger] old(paths).deep_view().contains(p) ==> final(paths).deep_view().contains(p),
            current@ == end@ && old(current_path).deep_view().len() <= max_depth + 1 ==> final(paths).deep_view()
                == old(paths).deep_view().push(old(current_path).deep_view()),
            final(paths).deep_view().len() >= old(paths).deep_view().len(),
            final(paths).deep_view().take(old(paths).deep_view().len() as int) == old(paths).deep_view(),
            added_extend(final(paths).deep_view(), old(paths).deep_view().len() as int, old(current_path).deep_view()),
            no_parallel_edges(self.graph.edges@) ==> added_distinct(
                final(paths).deep_view(),
                old(paths).deep_view().len() as int,
            ),
            forall|q: Seq<Seq<char>>|
                simple_walk(self.graph.edges@, q, start, end@, max_depth + 1) && q.len()
                    >= old(current_path).deep_view().len() && #[trigger] q.take(
                    old(current_path).deep_view().len() as int,
                ) == old(current_path).deep_view() ==> final(paths).deep_view().contains(q),
        decreases max_depth + 2 - old(current_path).deep_view().len(),
    {
        let ghost es = self.graph.edges@;
        let ghost cp = current_path.deep_view();
        let ghost cur = current@;
        let ghost p0 = paths.deep_view();
        let ghost n0 = p0.len() as int;
        assert(p0.take(n0) =~= p0);
        if current_path.len() > max_depth + 1 {
            return;
        }
        if str_eq(current.as_str(), end) {
            let ghost before = paths.deep_view();
            paths.push(copy_string_vec(current_path));
            proof {
                assert(paths.deep_view() =~= before.push(cp));
                assert(paths.deep_view().take(n0) =~= p0);
                assert(cp.take(cp.len() as int) =~= cp);
                assert forall|q: Seq<Seq<char>>|
                    simple_walk(es, q, start, end@, max_depth + 1) && q.len() >= cp.len()
                        && #[trigger] q.take(cp.len() as int) == cp implies paths.deep_view().contains(q) by {
                    if q.len() > cp.len() {
                        assert(q[cp.len() - 1] == cp.last());
                        assert(q[q.len() - 1] == end@);
                    }
                    assert(q =~= cp);
                }
            }
            return;
        }
        let mut i: usize = 0;
        while i < self.graph.edges.len()
            invariant
                es == self.graph.edges@,
                max_depth < usize::MAX,
                cp.len() <= max_depth + 1,
                cp.len() >= 1,
                cur == current@,
                cur != end@,
                cp == old(current_path).deep_view(),
                walk_between(es, cp, start, cur),
                cp.no_duplicates(),
                current_path.deep_view() == cp,
                i <= es.len(),
                forall|p: Seq<Seq<char>>|
                    #[trigger] paths.deep_view().contains(p) ==> simple_walk(es, p, start, end@, max_depth + 1),
                forall|p: Seq<Seq<char>>|
                    #[trigger] old(paths).deep_view().contains(p) ==> paths.deep_view().contains(p),
                forall|q: Seq<Seq<char>>, e: int|
                    0 <= e < i && simple_walk(es, q, start, end@, max_depth + 1) && q.len() > cp.len()
                        && q.take(cp.len() as int) == cp && #[trigger] links(es[e], cur, q[cp.len() as int])
                        ==> paths.deep_view().contains(q),
                p0 == old(paths).deep_view(),
                n0 == p0.len(),
                paths.deep_view().len() >= n0,
                paths.deep_view().take(n0) == p0,
                forall|k: int|
                    n0 <= k < paths.deep_view().len() ==> (#[trigger] paths.deep_view()[k]).len() > cp.len()
                        && paths.deep_view()[k].take(cp.len() as int) == cp && exists|e: int|
                        0 <= e < i && #[trigger] links(es[e], cur, paths.deep_view()[k][cp.len() as int]),
                no_parallel_edges(es) ==> added_distinct(paths.deep_view(), n0),
            decreases es.len() - i,
        {
            let edge = &self.graph.edges[i];
            let neighbor: Option<&String> = if str_eq(edge.source.as_str(), current.as_str()) {
                Some(&edge.target)
            } else if str_eq(edge.target.as_str(), current.as_str()) {
                Some(&edge.source)
            } else {
                None
            };
            proof {
                assert forall|y: Seq<char>| #[trigger] links(es[i as int], cur, y) implies (
                neighbor is Some && y == neighbor->0@) by {}
            }
            if let Some(neighbor_id) = neighbor {
                if !contains_string(current_path, neighbor_id) {
                    let ghost nb = neighbor_id@;
                    let ghost before = paths.deep_view();
                    proof {
                        assert(links(es[i as int], cur, nb));
                        assert(adjacent(es, cur, nb));
                        lemma_walk_push(es, cp, nb);
                        let np = cp.push(nb);
                        assert forall|a: int, b: int| 0 <= a < np.len() && 0 <= b < np.len() && a != b implies np[a] != np[b] by {
                            if a == np.len() - 1 {
                                assert(cp.contains(np[b]));
                            } else if b == np.len() - 1 {
                                assert(cp.contains(np[a]));
                            }
                        }
                    }
                    let next = neighbor_id.clone();
                    current_path.push(neighbor_id.clone());
                    assert(current_path.deep_view() =~= cp.push(nb));
                    self.dfs_find_paths(&next, end, max_depth, current_path, paths, Ghost(start));
                    let ghost mid = current_path@;
                    assert(mid.len() == cp.len() + 1);
                    assert forall|k: int| 0 <= k < cp.len() implies mid[k]@ == cp[k] by {
                        assert(current_path.deep_view()[k] == mid[k]@);
                    }
                    current_path.pop();
                    assert(current_path@ =~= mid.drop_last());
                    assert(current_path.deep_view() =~= cp);
                    proof {
                        let fin = paths.deep_view();
                        let m = before.len() as int;
                        assert(fin.take(n0) =~= p0) by {
                            assert forall|k: int| 0 <= k < n0 implies fin[k] == p0[k] by {
                                assert(fin.take(m)[k] == before[k]);
                                assert(before.take(n0)[k] == p0[k]);
                            }
                        }
                        assert forall|k: int| n0 <= k < fin.len() implies (#[trigger] fin[k]).len() > cp.len()
                            && fin[k].take(cp.len() as int) == cp && exists|e: int|
                            0 <= e < i + 1 && #[trigger] links(es[e], cur, fin[k][cp.len() as int]) by {
                            if k < m {
                                assert(fin.take(m)[k] == before[k]);
                                let e = choose|e: int| 0 <= e < i && #[trigger] links(es[e], cur, before[k][cp.len() as int]);
                                assert(links(es[e], cur, fin[k][cp.len() as int]));
                            } else {
                                let np = cp.push(nb);
                                assert(fin[k].take(np.len() as int) == np);
                                assert(fin[k][cp.len() as int] == fin[k].take(np.len() as int)[cp.len() as int]);
                                assert(fin[k].take(cp.len() as int) =~= np.take(cp.len() as int));
                                assert(np.take(cp.len() as int) =~= cp);
                                assert(links(es[i as int], cur, fin[k][cp.len() as int]));
                            }
                        }
                        if no_parallel_edges(es) {
                            assert forall|a: int, b: int| n0 <= a < b < fin.len() implies fin[a] != fin[b] by {
                                if b < m {
                                    assert(fin.take(m)[a] == before[a]);
                                    assert(fin.take(m)[b] == before[b]);
                                } else if a >= m {
                                } else {
                                    assert(fin.take(m)[a] == before[a]);
                                    let np = cp.push(nb);
                                    assert(fin[b].take(np.len() as int) == np);
                                    assert(fin[b][cp.len() as int] == fin[b].take(np.len() as int)[cp.len() as int]);
                                    let e = choose|e: int| 0 <= e < i && #[trigger] links(es[e], cur, before[a][cp.len() as int]);
                                    if fin[a] == fin[b] {
                                        assert(links(es[e], cur, nb));
                                        assert(links(es[e], es[i as int].source@, es[i as int].target@));
                                    }
                                }
                            }
                        }
                        assert forall|q: Seq<Seq<char>>, e: int|
                            0 <= e < i + 1 && simple_walk(es, q, start, end@, max_depth + 1) && q.len() > cp.len()
                                && q.take(cp.len() as int) == cp && #[trigger] links(es[e], cur, q[cp.len() as int])
                                implies paths.deep_view().contains(q) by {
                            if e == i {
                                assert(q[cp.len() as int] == nb);
                                assert(q.take(cp.len() as int + 1) =~= cp.push(nb));
                            } else {
                                assert(before.contains(q));
                            }
                        }
                    }
                } else {
                    proof {
                        assert forall|q: Seq<Seq<char>>, e: int|
                            0 <= e < i + 1 && simple_walk(es, q, start, end@, max_depth + 1) && q.len() > cp.len()
                                && q.take(cp.len() as int) == cp && #[trigger] links(es[e], cur, q[cp.len() as int])
                                implies paths.deep_view().contains(q) by {
                            if e == i {
                                let y = q[cp.len() as int];
                                assert(y == neighbor_id@);
                                let x = choose|x: int| 0 <= x < cp.len() && cp[x] == y;
                                assert(q[x] == cp[x]);
                            }
                        }
                    }
                }
            }
            i = i + 1;
        }
        proof {
            assert forall|q: Seq<Seq<char>>|
                simple_walk(es, q, start, end@, max_depth + 1) && q.len() >= cp.len()
                    && #[trigger] q.take(cp.len() as int) == cp implies paths.deep_view().contains(q) by {
                if q.len() == cp.len() {
                    assert(q =~= cp);
                    assert(q.last() == cur);
                } else {
                    let n = cp.len() as int;
                    assert(q[n - 1] == cp[n - 1]);
                    assert(adjacent(es, q[n - 1], q[n]));
                    let e = choose|e: int| 0 <= e < es.len() && #[trigger] links(es[e], q[n - 1], q[n]);
                    assert(links(es[e], cur, q[n]));
                }
            }
        }
    }

    /// The node identifiers split, in order, into `k` groups of equal size
    /// (the last one possibly smaller): groups of `ceil(n / k)` identifiers
    /// for `n` nodes. No groups for an empty graph or for `k == 0`.
    pub fn cluster_nodes(&self, k: usize) -> (r: Vec<Vec<String>>)
        ensures
            self.graph().nodes@.len() == 0 || k == 0 ==> r@.len() == 0,
            self.graph().nodes@.len() > 0 && k > 0 ==> r.deep_view() == chunks(
                node_ids(self.graph().nodes@),
                ((self.graph().nodes@.len() - 1) / (k as int) + 1) as nat,
            ),
    {
        if self.graph.nodes.len() == 0 || k == 0 {
            return Vec::new();
        }
        let n = self.graph.nodes.len();
        let size = (n - 1) / k + 1;
        let ghost ids = node_ids(self.graph.nodes@);
        let mut groups: Vec<Vec<String>> = Vec::new();
        let mut pos: usize = 0;
        while pos < n
            invariant
                n == self.graph.nodes@.len(),
                ids == node_ids(self.graph.nodes@),
                size >= 1,
                pos <= n,
                groups.deep_view() + chunks(ids.skip(pos as int), size as nat) == chunks(ids, size as nat),
            decreases n - pos,
        {
            let stop = if n - pos <= size {
                n
            } else {
                pos + size
            };
            let ghost before = groups.deep_view();
            let mut group: Vec<String> = Vec::new();
            let mut q: usize = pos;
            while q < stop
                invariant
                    n == self.graph.nodes@.len(),
                    ids == node_ids(self.graph.nodes@),
                    pos <= q <= stop <= n,
                    group.deep_view() == ids.subrange(pos as int, q as int),
                decreases stop - q,
            {
                let ghost g0 = group.deep_view();
                group.push(self.graph.nodes[q].id.clone());
                assert(ids[q as int] == self.graph.nodes@[q as int].id@);
                assert(group.deep_view() =~= g0.push(ids[q as int]));
                assert(group.deep_view() =~= ids.subrange(pos as int, q + 1));
                q = q + 1;
            }
            groups.push(group);
            proof {
                let rest = ids.skip(pos as int);
                assert(groups.deep_view() =~= before.push(ids.subrange(pos as int, stop as int)));
                if n - pos <= size {
                    assert(rest =~= ids.subrange(pos as int, stop as int));
                    assert(ids.skip(stop as int) =~= Seq::<Seq<char>>::empty());
                    assert(chunks(ids.skip(stop as int), size as nat) =~= Seq::<Seq<Seq<char>>>::empty());
                    assert(chunks(rest, size as nat) == seq![rest]);
                } else {
                    assert(rest.take(size as int) =~= ids.subrange(pos as int, stop as int));
                    assert(rest.skip(size as int) =~= ids.skip(stop as int));
                }
                assert(groups.deep_view() + chunks(ids.skip(stop as int), size as nat) =~= before
                    + chunks(rest, size as nat));
            }
            pos = stop;
        }
        proof {
            assert(ids.skip(n as int) =~= Seq::<Seq<char>>::empty());
            assert(groups.deep_view() + Seq::<Seq<Seq<char>>>::empty() =~= groups.deep_view());
        }
        groups
    }

    /// The nodes other than those named `id`, in order.
    fn nodes_without(&self, id: &String) -> (r: Vec<GraphNode>)
        ensures
            r@ == other_nodes(self.graph.nodes@, id@),
    {
        let ghost ns = self.graph.nodes@;
        let ghost pred = |n: GraphNode| n.id@ != id@;
        let mut r: Vec<GraphNode> = Vec::new();
        let mut i: usize = 0;
        while i < self.graph.nodes.len()
            invariant
                ns == self.graph.nodes@,
                pred == (|n: GraphNode| n.id@ != id@),
                i <= ns.len(),
                r@ == ns.take(i as int).filter(pred),
            decreases ns.len() - i,
        {
            proof {
                assert(ns.take(i + 1) =~= ns.take(i as int).push(ns[i as int]));
                ns.take(i as int).lemma_filter_push(ns[i as int], pred);
            }
            if !str_eq(self.graph.nodes[i].id.as_str(), id.as_str()) {
                r.push(self.graph.nodes[i].copy());
            }
            i = i + 1;
        }
        assert(ns.take(ns.len() as int) =~= ns);
        r
    }

    /// The edges that do not touch `id`, in order.
    fn edges_without(&self, id: &String) -> (r: Vec<GraphEdge>)
        ensures
            r@ == edges_apart(self.graph.edges@, id@),
    {
        let ghost es = self.graph.edges@;
        let ghost pred = |e: GraphEdge| e.source@ != id@ && e.target@ != id@;
        let mut r: Vec<GraphEdge> = Vec::new();
        let mut i: usize = 0;
        while i < self.graph.edges.len()
            invariant
                es == self.graph.edges@,
                pred == (|e: GraphEdge| e.source@ != id@ && e.target@ != id@),
                i <= es.len(),
                r@ == es.take(i as int).filter(pred),
            decreases es.len() - i,
        {
            proof {
                assert(es.take(i + 1) =~= es.take(i as int).push(es[i as int]));
                es.take(i as int).lemma_filter_push(es[i as int], pred);
            }
            let e = &self.graph.edges[i];
            if !str_eq(e.source.as_str(), id.as_str()) && !str_eq(e.target.as_str(), id.as_str()) {
                r.push(e.copy());
            }
            i = i + 1;
        }
        assert(es.take(es.len() as int) =~= es);
        r
    }

    /// The identifiers of the bridge nodes (see [`is_bridge`]): the nodes
    /// whose removal splits the graph further, in order.
    pub fn find_bridge_nodes(&self) -> (r: Vec<String>)
        ensures
            r.deep_view() == self.graph().nodes@.filter(|n: GraphNode| is_bridge(self.graph(), n)).map_values(
                |n: GraphNode| n.id@,
            ),
    {
        let ghost ns = self.graph.nodes@;
        let ghost pred = |n: GraphNode| is_bridge(self.graph, n);
        let whole = self.count_connected_components();
        let mut bridges: Vec<String> = Vec::new();
        let mut i: usize = 0;
        while i < self.graph.nodes.len()
            invariant
                ns == self.graph.nodes@,
                pred == (|n: GraphNode| is_bridge(self.graph, n)),
                whole == components_of(self.graph.nodes@, self.graph.edges@),
                i <= ns.len(),
                bridges.deep_view() == ns.take(i as int).filter(pred).map_values(|n: GraphNode| n.id@),
            decreases ns.len() - i,
        {
            proof {
                assert(ns.take(i + 1) =~= ns.take(i as int).push(ns[i as int]));
                ns.take(i as int).lemma_filter_push(ns[i as int], pred);
            }
            let ghost before = bridges.deep_view();
            let id = &self.graph.nodes[i].id;
            let rest = GraphAnalyzer::new(
                GraphData { nodes: self.nodes_without(id), edges: self.edges_without(id), metadata: self.graph.metadata.copy() },
            );
            let parts = rest.count_connected_components();
            let ghost f0 = ns.take(i as int).filter(pred);
            if parts > whole {
                bridges.push(id.clone());
                assert(pred(ns[i as int]));
                assert(ns.take(i + 1).filter(pred) == f0.push(ns[i as int]));
                assert(bridges.deep_view() =~= before.push(ns[i as int].id@));
                assert(f0.push(ns[i as int]).map_values(|n: GraphNode| n.id@) =~= f0.map_values(
                    |n: GraphNode| n.id@,
                ).push(ns[i as int].id@));
                assert(bridges.deep_view() =~= ns.take(i + 1).filter(pred).map_values(
                    |n: GraphNode| n.id@,
                ));
            } else {
                assert(!pred(ns[i as int]));
                assert(bridges.deep_view() =~= ns.take(i + 1).filter(pred).map_values(
                    |n: GraphNode| n.id@,
                ));
            }
            i = i + 1;
        }
        assert(ns.take(ns.len() as int) =~= ns);
        bridges
    }

    /// The nodes whose identifiers are listed, and the edges between two
    /// of them, in their order in the graph; the metadata is copied as it
    /// stands.
    pub fn extract_subgraph(&self, node_ids: &[String]) -> (r: GraphData)
        ensures
            r.nodes@ == self.graph().nodes@.filter(|n: GraphNode| node_ids@.map_values(|s: String| s@).contains(n.id@)),
            r.edges@ == self.graph().edges@.filter(
                |e: GraphEdge|
                    node_ids@.map_values(|s: String| s@).contains(e.source@) && node_ids@.map_values(
                        |s: String| s@,
                    ).contains(e.target@),
            ),
            r.metadata == self.graph().metadata,
    {
        let keep: Vec<String> = copy_slice_strings(node_ids);
        let ghost kv = node_ids@.map_values(|s: String| s@);
        assert(keep.deep_view() =~= kv);
        let ghost ns = self.graph.nodes@;
        let ghost es = self.graph.edges@;
        let ghost npred = |n: GraphNode| kv.contains(n.id@);
        let ghost epred = |e: GraphEdge| kv.contains(e.source@) && kv.contains(e.target@);
        let mut nodes: Vec<GraphNode> = Vec::new();
        let mut i: usize = 0;
        while i < self.graph.nodes.len()
            invariant
                ns == self.graph.nodes@,
                keep.deep_view() == kv,
                npred == (|n: GraphNode| kv.contains(n.id@)),
                i <= ns.len(),
                nodes@ == ns.take(i as int).filter(npred),
            decreases ns.len() - i,
        {
            proof {
                assert(ns.take(i + 1) =~= ns.take(i as int).push(ns[i as int]));
                ns.take(i as int).lemma_filter_push(ns[i as int], npred);
            }
            if contains_string(&keep, &self.graph.nodes[i].id) {
                nodes.push(self.graph.nodes[i].copy());
            }
            i = i + 1;
        }
        let mut edges: Vec<GraphEdge> = Vec::new();
        let mut j: usize = 0;
        while j < self.graph.edges.len()
            invariant
                es == self.graph.edges@,
                keep.deep_view() == kv,
                epred == (|e: GraphEdge| kv.contains(e.source@) && kv.contains(e.target@)),
                j <= es.len(),
                edges@ == es.take(j as int).filter(epred),
            decreases es.len() - j,
        {
            proof {
                assert(es.take(j + 1) =~= es.take(j as int).push(es[j as int]));
                es.take(j as int).lemma_filter_push(es[j as int], epred);
            }
            let edge = &self.graph.edges[j];
            if contains_string(&keep, &edge.source) && contains_string(&keep, &edge.target) {
                edges.push(edge.copy());
            }
            j = j + 1;
        }
        assert(ns.take(ns.len() as int) =~= ns);
        assert(es.take(es.len() as int) =~= es);
        GraphData { nodes, edges, metadata: self.graph.metadata.copy() }
    }

    /// The identifiers that are neighbours of both nodes, each once, in
    /// the order in which they first occur among the neighbours of `node1`.
    pub fn find_common_neighbors(&self, node1: &str, node2: &str) -> (r: Vec<String>)
        ensures
            r.deep_view().no_duplicates(),
            forall|x: Seq<char>|
                r.deep_view().contains(x) <==> (neighbour_ids(self.graph(), node1@).contains(x)
                    && neighbour_ids(self.graph(), node2@).contains(x)),
    {
        let n1 = self.neighbor_id_list(node1);
        let n2 = self.neighbor_id_list(node2);
        let mut common: Vec<String> = Vec::new();
        let mut i: usize = 0;
        while i < n1.len()
            invariant
                n1.deep_view() == neighbour_ids(self.graph, node1@),
                n2.deep_view() == neighbour_ids(self.graph, node2@),
                i <= n1@.len(),
                common.deep_view().no_duplicates(),
                forall|x: Seq<char>|
                    common.deep_view().contains(x) <==> (n1.deep_view().take(i as int).contains(x)
                        && n2.deep_view().contains(x)),
            decreases n1@.len() - i,
        {
            let ghost before = common.deep_view();
            let ghost x0 = n1.deep_view()[i as int];
            assert(n1.deep_view().take(i + 1) =~= n1.deep_view().take(i as int).push(x0));
            if contains_string(&n2, &n1[i]) && !contains_string(&common, &n1[i]) {
                common.push(n1[i].clone());
                assert(common.deep_view() =~= before.push(x0));
            }
            i = i + 1;
        }
        assert(n1.deep_view().take(n1@.len() as int) =~= n1.deep_view());
        common
    }

    /// The Jaccard similarity of two nodes (see [`similarity_of`]).
    pub fn calculate_similarity(&self, node1: &str, node2: &str) -> (r: Ratio)
        ensures
            r == similarity_of(self.graph(), node1@, node2@),
            ratio_small(r),
    {
        let n1 = distinct_strings(&self.neighbor_id_list(node1));
        let n2 = distinct_strings(&self.neighbor_id_list(node2));
        let common = self.find_common_neighbors(node1, node2);
        let mut both = copy_string_vec(&n1);
        let mut i: usize = 0;
        while i < n2.len()
            invariant
                i <= n2@.len(),
                forall|x: Seq<char>| both.deep_view().contains(x) <==> (n1.deep_view().contains(x) || n2.deep_view().take(i as int).contains(x)),
            decreases n2@.len() - i,
        {
            let ghost b0 = both.deep_view();
            assert(n2.deep_view().take(i + 1) =~= n2.deep_view().take(i as int).push(n2.deep_view()[i as int]));
            assert(n2@[i as int]@ == n2.deep_view()[i as int]);
            both.push(n2[i].clone());
            assert(both.deep_view() =~= b0.push(n2.deep_view()[i as int]));
            i = i + 1;
        }
        let union = distinct_strings(&both);
        proof {
            let g = self.graph;
            let s1 = neighbour_set(g, node1@);
            let s2 = neighbour_set(g, node2@);
            assert(n2.deep_view().take(n2@.len() as int) =~= n2.deep_view());
            assert(common.deep_view().to_set() =~= s1.intersect(s2));
            assert(union.deep_view().to_set() =~= s1.union(s2));
            common.deep_view().unique_seq_to_set();
            union.deep_view().unique_seq_to_set();
        }
        Ratio { numerator: common.len() as u128, denominator: union.len() as u128 }
    }

    /// The nodes most similar to `node_id`, at most `limit` of them: the
    /// other nodes that share a neighbour with it, from the most similar
    /// down, equally similar ones in node order (see
    /// [`similar_candidates`]).
    pub fn find_similar_nodes(&self, node_id: &str, limit: usize) -> (r: Vec<(String, Ratio)>)
        ensures
            scored_view(r@) == leading(sorted_by_score(similar_candidates(self.graph(), node_id@, self.graph().nodes@.len())), limit as nat),
    {
        let ghost g = self.graph;
        let mut cands: Vec<(String, Ratio)> = Vec::new();
        let mut i: usize = 0;
        while i < self.graph.nodes.len()
            invariant
                g == self.graph,
                i <= g.nodes@.len(),
                scored_view(cands@) == similar_candidates(g, node_id@, i as nat),
                forall|k: int| 0 <= k < cands@.len() ==> ratio_small(#[trigger] cands@[k].1),
            decreases g.nodes@.len() - i,
        {
            let other = &self.graph.nodes[i].id;
            if !str_eq(other.as_str(), node_id) {
                let sim = self.calculate_similarity(node_id, other.as_str());
                if sim.denominator > 0 && sim.numerator > 0 {
                    let ghost c0 = cands@;
                    cands.push((other.clone(), sim));
                    assert(scored_view(cands@) =~= scored_view(c0).push((other@, sim)));
                }
            }
            i = i + 1;
        }
        let mut sorted = sort_by_score(cands);
        if limit < sorted.len() {
            sorted.truncate(limit);
        }
        proof {
            assert(scored_view(sorted@) =~= leading(sorted_by_score(similar_candidates(g, node_id@, g.nodes@.len())), limit as nat));
        }
        sorted
    }

    /// The `top_n` most central nodes, from the most central down, equally
    /// central ones in node order (see [`GraphData::calculate_centrality`]).
    pub fn find_key_nodes(&self, top_n: usize) -> (r: Vec<(String, Ratio)>)
        ensures
            scored_view(r@) == leading(sorted_by_score(centralities(self.graph().nodes@, self.graph().edges@, self.graph().nodes@.len())), top_n as nat),
    {
        let c = self.graph.calculate_centrality();
        let mut sorted = sort_by_score(c);
        if top_n < sorted.len() {
            sorted.truncate(top_n);
        }
        proof {
            assert(scored_view(sorted@) =~= leading(sorted_by_score(centralities(self.graph.nodes@, self.graph.edges@, self.graph.nodes@.len())), top_n as nat));
        }
        sorted
    }

    /// The nodes related to `node_id` through a common neighbour, at most
    /// `limit` of them, from the most mentioned down, ties in the order
    /// they were first met (see [`super::related::related_counts`]); each
    /// mention stands for a score of four tenths.
    pub fn find_related_nodes(&self, node_id: &str, limit: usize) -> (r: Vec<(String, u128)>)
        ensures
            super::related::counts_view(r@) == super::related::first_entries(
                super::related::sorted_by_count(
                    super::related::related_counts(self.graph(), node_id@, neighbour_ids(self.graph(), node_id@).len()),
                ),
                limit as nat,
            ),
    {
        super::related::top_counts(self.graph.related_mentions(node_id), limit)
    }

    /// The identifiers of the neighbours of `id` (see [`neighbour_ids`]).
    fn neighbor_id_list(&self, id: &str) -> (r: Vec<String>)
        ensures
            r.deep_view() == neighbour_ids(self.graph, id@),
    {
        let found = self.graph.find_neighbors(id);
        let ghost fv = found@.map_values(|n: &GraphNode| *n);
        let mut r: Vec<String> = Vec::new();
        let mut i: usize = 0;
        while i < found.len()
            invariant
                fv == found@.map_values(|n: &GraphNode| *n),
                fv == neighbour_nodes(self.graph.nodes@, self.graph.edges@, id@),
                i <= found@.len(),
                r.deep_view() == fv.take(i as int).map_values(|n: GraphNode| n.id@),
            decreases found@.len() - i,
        {
            let ghost r0 = r.deep_view();
            r.push(found[i].id.clone());
            assert(fv[i as int] == *found@[i as int]);
            assert(r.deep_view() =~= r0.push(fv[i as int].id@));
            assert(fv.take(i + 1) =~= fv.take(i as int).push(fv[i as int]));
            assert(r.deep_view() =~= fv.take(i + 1).map_values(|n: GraphNode| n.id@));
            i = i + 1;
        }
        assert(fv.take(fv.len() as int) =~= fv);
        r
    }

    /// The density of the graph: its edge count over the number of node
    /// pairs (see [`density_of`]).
    pub fn calculate_density(&self) -> (r: Ratio)
        ensures
            r == density_of(self.graph().nodes@.len(), self.graph().edges@.len()),
    {
        let n = self.graph.nodes.len();
        let e = self.graph.edges.len();
        if n < 2 {
            return Ratio { numerator: 0, denominator: 0 };
        }
        let n128 = n as u128;
        assert(n128 * (n128 - 1) <= 0xffff_ffff_ffff_ffff_ffff_ffff_ffff_ffffu128) by (nonlinear_arith)
            requires
                n128 <= 0xffff_ffff_ffff_ffffu128,
        {
            assert(n128 * (n128 - 1) <= n128 * n128);
            assert(n128 * n128 <= 0xffff_ffff_ffff_ffffu128 * 0xffff_ffff_ffff_ffffu128);
        }
        let pairs = n128 * (n128 - 1) / 2;
        Ratio { numerator: e as u128, denominator: pairs }
    }

    /// Visits, breadth first, everything reachable from `start` that is
    /// not yet in `visited`, adding it there.
    fn bfs_visit(&self, start: &String, visited: &mut Vec<String>)
        requires
            !old(visited).deep_view().contains(start@),
            old(visited).deep_view().no_duplicates(),
            closed_under(self.graph.edges@, members(old(visited).deep_view())),
        ensures
            final(visited).deep_view().no_duplicates(),
            forall|x: Seq<char>|
                #[trigger] final(visited).deep_view().contains(x) <==> (old(visited).deep_view().contains(x)
                    || reachable(self.graph.edges@, start@, x)),
    {
        let ghost es = self.graph.edges@;
        let ghost old_v = visited.deep_view();
        let ghost univ = endpoints(es).push(start@);
        let mut queue: Vec<String> = Vec::new();
        queue.push(start.clone());
        visited.push(start.clone());
        proof {
            assert(queue.deep_view() =~= seq![start@]);
            assert(visited.deep_view() =~= old_v + queue.deep_view());
            lemma_reachable_refl(es, start@);
        }
        let mut head: usize = 0;
        while head < queue.len()
            invariant
                es == self.graph.edges@,
                univ == endpoints(es).push(start@),
                closed_under(es, members(old_v)),
                head <= queue@.len(),
                visited.deep_view() == old_v + queue.deep_view(),
                queue.deep_view().len() >= 1,
                queue.deep_view()[0] == start@,
                visited.deep_view().no_duplicates(),
                queue.deep_view().no_duplicates(),
                queue.deep_view().len() <= univ.len(),
                forall|x: Seq<char>| #[trigger] queue.deep_view().contains(x) ==> reachable(es, start@, x),
                forall|x: Seq<char>| #[trigger] queue.deep_view().contains(x) ==> univ.contains(x),
                forall|k: int, y: Seq<char>|
                    0 <= k < head && #[trigger] adjacent(es, queue.deep_view()[k], y)
                        ==> visited.deep_view().contains(y),
            decreases univ.len() - head,
        {
            let current = queue[head].clone();
            let ghost cur = current@;
            assert(queue.deep_view()[head as int] == cur);
            assert(queue.deep_view().contains(cur));
            let mut i: usize = 0;
            while i < self.graph.edges.len()
                invariant
                    es == self.graph.edges@,
                    univ == endpoints(es).push(start@),
                    closed_under(es, members(old_v)),
                    head < queue@.len(),
                    cur == current@,
                    cur == queue.deep_view()[head as int],
                    reachable(es, start@, cur),
                    visited.deep_view() == old_v + queue.deep_view(),
                    queue.deep_view().len() >= 1,
                    queue.deep_view()[0] == start@,
                    visited.deep_view().no_duplicates(),
                    queue.deep_view().no_duplicates(),
                    queue.deep_view().len() <= univ.len(),
                    forall|x: Seq<char>| #[trigger] queue.deep_view().contains(x) ==> reachable(es, start@, x),
                    forall|x: Seq<char>| #[trigger] queue.deep_view().contains(x) ==> univ.contains(x),
                    forall|k: int, y: Seq<char>|
                        0 <= k < head && #[trigger] adjacent(es, queue.deep_view()[k], y)
                            ==> visited.deep_view().contains(y),
                    i <= es.len(),
                    forall|e: int, y: Seq<char>|
                        0 <= e < i && #[trigger] links(es[e], cur, y) ==> visited.deep_view().contains(y),
                decreases es.len() - i,
            {
                let edge = &self.graph.edges[i];
                let neighbor: Option<&String> = if str_eq(edge.source.as_str(), current.as_str()) {
                    Some(&edge.target)
                } else if str_eq(edge.target.as_str(), current.as_str()) {
                    Some(&edge.source)
                } else {
                    None
                };
                proof {
                    assert forall|y: Seq<char>| #[trigger] links(es[i as int], cur, y) implies (
                    neighbor is Some && y == neighbor->0@) by {}
                }
                if let Some(neighbor_id) = neighbor {
                    if !contains_string(visited, neighbor_id) {
                        let ghost nb = neighbor_id@;
                        let ghost q0 = queue.deep_view();
                        proof {
                            assert(links(es[i as int], cur, nb));
                            assert(adjacent(es, cur, nb));
                            lemma_neighbour_is_endpoint(es, cur, nb);
                            lemma_reachable_step(es, start@, cur, nb);
                        }
                        let ghost v0 = visited.deep_view();
                        visited.push(neighbor_id.clone());
                        queue.push(neighbor_id.clone());
                        proof {
                            assert(queue.deep_view() =~= q0.push(nb));
                            assert(visited.deep_view() =~= v0.push(nb));
                            assert(visited.deep_view() =~= old_v + queue.deep_view());
                            assert(visited.deep_view().no_duplicates()) by {
                                let v1 = visited.deep_view();
                                assert forall|a: int, b: int| 0 <= a < v1.len() && 0 <= b < v1.len() && a != b implies v1[a] != v1[b] by {
                                    if a == v0.len() {
                                        assert(v0.contains(v1[b]));
                                    } else if b == v0.len() {
                                        assert(v0.contains(v1[a]));
                                    }
                                }
                            }
                            assert(!q0.contains(nb)) by {
                                if q0.contains(nb) {
                                    let w = choose|w: int| 0 <= w < q0.len() && q0[w] == nb;
                                    assert((old_v + q0)[old_v.len() + w] == nb);
                                }
                            }
                            assert forall|x: Seq<char>| #[trigger] queue.deep_view().contains(x) implies reachable(
                                es,
                                start@,
                                x,
                            ) && univ.contains(x) by {
                                if x != nb {
                                    assert(q0.contains(x));
                                }
                            }
                            assert(queue.deep_view().no_duplicates()) by {
                                let q1 = queue.deep_view();
                                assert forall|a: int, b: int| 0 <= a < q1.len() && 0 <= b < q1.len() && a != b implies q1[a] != q1[b] by {
                                    if a == q0.len() {
                                        assert(q0.contains(q1[b]));
                                    } else if b == q0.len() {
                                        assert(q0.contains(q1[a]));
                                    }
                                }
                            }
                            lemma_distinct_within(queue.deep_view(), univ);
                        }
                    }
                }
                i = i + 1;
            }
            proof {
                assert forall|y: Seq<char>| #[trigger] adjacent(es, cur, y) implies visited.deep_view().contains(y) by {
                    let e = choose|e: int| 0 <= e < es.len() && #[trigger] links(es[e], cur, y);
                }
            }
            head = head + 1;
        }
        proof {
            let vd = visited.deep_view();
            let qd = queue.deep_view();
            assert forall|x: Seq<char>, y: Seq<char>| members(vd).contains(x) && adjacent(es, x, y) implies members(vd).contains(y) by {
                let w = choose|w: int| 0 <= w < vd.len() && vd[w] == x;
                if w < old_v.len() {
                    assert(old_v.contains(x));
                    assert(members(old_v).contains(x));
                    assert(old_v.contains(y));
                    let u = choose|u: int| 0 <= u < old_v.len() && old_v[u] == y;
                    assert(vd[u] == y);
                } else {
                    assert(qd[w - old_v.len()] == x);
                    assert(adjacent(es, qd[w - old_v.len()], y));
                }
            }
            assert(closed_under(es, members(vd)));
            assert(vd[old_v.len() as int] == start@);
            assert forall|x: Seq<char>| #[trigger] vd.contains(x) <==> (old_v.contains(x) || reachable(es, start@, x)) by {
                if vd.contains(x) {
                    let w = choose|w: int| 0 <= w < vd.len() && vd[w] == x;
                    if w >= old_v.len() {
                        assert(qd[w - old_v.len()] == x);
                        assert(qd.contains(x));
                    }
                }
                if old_v.contains(x) {
                    let u = choose|u: int| 0 <= u < old_v.len() && old_v[u] == x;
                    assert(vd[u] == x);
                }
                if reachable(es, start@, x) {
                    assert(members(vd).contains(start@));
                    lemma_closed_holds_reachable(es, members(vd), start@, x);
                }
            }
        }
    }

    /// The number of connected components (see [`component_count`]).
    fn count_connected_components(&self) -> (r: usize)
        ensures
            r == component_count(self.graph.edges@, node_ids(self.graph.nodes@), self.graph.nodes@.len() as int),
    {
        let ghost es = self.graph.edges@;
        let ghost ids = node_ids(self.graph.nodes@);
        let mut visited: Vec<String> = Vec::new();
        let mut components: usize = 0;
        let mut i: usize = 0;
        while i < self.graph.nodes.len()
            invariant
                es == self.graph.edges@,
                ids == node_ids(self.graph.nodes@),
                i <= ids.len(),
                components <= i,
                components == component_count(es, ids, i as int),
                visited.deep_view().no_duplicates(),
                forall|x: Seq<char>|
                    #[trigger] visited.deep_view().contains(x) <==> exists|j: int| 0 <= j < i && reachable(es, ids[j], x),
            decreases ids.len() - i,
        {
            let ghost v0 = visited.deep_view();
            let id = &self.graph.nodes[i].id;
            assert(id@ == ids[i as int]);
            if !contains_string(&visited, id) {
                proof {
                    assert forall|x: Seq<char>, y: Seq<char>| members(v0).contains(x) && adjacent(es, x, y) implies members(v0).contains(y) by {
                        assert(v0.contains(x));
                        let j = choose|j: int| 0 <= j < i && reachable(es, ids[j], x);
                        lemma_reachable_step(es, ids[j], x, y);
                        assert(v0.contains(y));
                    }
                    assert(starts_component(es, ids, i as int)) by {
                        assert forall|j: int| 0 <= j < i implies !reachable(es, ids[j], ids[i as int]) by {
                            if reachable(es, ids[j], ids[i as int]) {
                                assert(v0.contains(ids[i as int]));
                            }
                        }
                    }
                }
                components = components + 1;
                self.bfs_visit(id, &mut visited);
            } else {
                proof {
                    let j0 = choose|j: int| 0 <= j < i && reachable(es, ids[j], ids[i as int]);
                    assert(!starts_component(es, ids, i as int));
                }
            }
            proof {
                let v1 = visited.deep_view();
                assert forall|x: Seq<char>| #[trigger] v1.contains(x) <==> exists|j: int| 0 <= j < i + 1 && reachable(es, ids[j], x) by {
                    if v1.contains(x) {
                        if v0.contains(x) {
                            let j = choose|j: int| 0 <= j < i && reachable(es, ids[j], x);
                            assert(0 <= j < i + 1 && reachable(es, ids[j], x));
                        } else {
                            assert(reachable(es, ids[i as int], x));
                        }
                    }
                    if exists|j: int| 0 <= j < i + 1 && reachable(es, ids[j], x) {
                        let j = choose|j: int| 0 <= j < i + 1 && reachable(es, ids[j], x);
                        if j < i {
                            assert(v0.contains(x));
                        } else if !v0.contains(ids[i as int]) {
                            assert(v1.contains(x));
                        } else {
                            let j2 = choose|j2: int| 0 <= j2 < i && reachable(es, ids[j2], ids[i as int]);
                            lemma_reachable_trans(es, ids[j2], ids[i as int], x);
                            assert(v0.contains(x));
                        }
                    }
                }
            }
            i = i + 1;
        }
        components
    }

    /// Counts of node kinds, edge kinds, degrees, density and connected
    /// components. The node and edge counts are those recorded in the
    /// metadata; node kinds are counted by [`node_type_keys`], edge kinds by
    /// [`edge_stat_name`]; the mean degree is the sum of the degrees over
    /// the node count (zero for no nodes).
    pub fn get_statistics(&self) -> (r: GraphStatistics)
        ensures
            r.node_count == self.graph().metadata.node_count,
            r.edge_count == self.graph().metadata.edge_count,
            is_tally_of(tally_view(r.node_types@), all_node_type_keys(self.graph().nodes@)),
            is_tally_of(tally_view(r.edge_types@), all_edge_type_keys(self.graph().edges@)),
            r.density == density_of(self.graph().nodes@.len(), self.graph().edges@.len()),
            r.avg_degree.numerator == total(degree_list(self.graph())),
            r.avg_degree.denominator == self.graph().nodes@.len(),
            r.max_degree == largest(degree_list(self.graph())),
            r.min_degree == smallest(degree_list(self.graph())),
            r.connected_components == component_count(
                self.graph().edges@,
                node_ids(self.graph().nodes@),
                self.graph().nodes@.len() as int,
            ),
    {
        let ghost ns = self.graph.nodes@;
        let ghost es = self.graph.edges@;
        let ghost degs = degree_list(self.graph);
        let mut node_types: Vec<(String, usize)> = Vec::new();
        let mut degree_sum: u128 = 0;
        let mut max_degree: usize = 0;
        let mut min_degree: usize = 0;
        let mut i: usize = 0;
        proof {
            assert(all_node_type_keys(ns.take(0)) =~= Seq::<Seq<char>>::empty());
            assert(degs.take(0) =~= Seq::<nat>::empty());
        }
        while i < self.graph.nodes.len()
            invariant
                ns == self.graph.nodes@,
                es == self.graph.edges@,
                degs == degree_list(self.graph),
                i <= ns.len(),
                is_tally_of(tally_view(node_types@), all_node_type_keys(ns.take(i as int))),
                degree_sum == total(degs.take(i as int)),
                degree_sum <= i * 0x1_0000_0000_0000_0000,
                max_degree == largest(degs.take(i as int)),
                min_degree == smallest(degs.take(i as int)),
            decreases ns.len() - i,
        {
            let ghost keys = all_node_type_keys(ns.take(i as int));
            proof {
                assert(ns.take(i + 1).drop_last() =~= ns.take(i as int));
                assert(degs.take(i + 1).drop_last() =~= degs.take(i as int));
                assert forall|k: Seq<char>| #[trigger] occurrences(all_node_type_keys(ns.take(i as int)), k) < usize::MAX by {
                    lemma_node_key_bound(ns.take(i as int), k);
                }
            }
            let node = &self.graph.nodes[i];
            match &node.node_type {
                NodeType::Code => {
                    tally_add(&mut node_types, &owned("code"), Ghost(keys));
                },
                NodeType::Document => {
                    tally_add(&mut node_types, &owned("document"), Ghost(keys));
                },
                NodeType::Concept => {
                    tally_add(&mut node_types, &owned("concept"), Ghost(keys));
                },
                NodeType::Person => {
                    tally_add(&mut node_types, &owned("person"), Ghost(keys));
                },
                NodeType::Organization => {
                    tally_add(&mut node_types, &owned("organization"), Ghost(keys));
                },
                NodeType::Location => {
                    tally_add(&mut node_types, &owned("location"), Ghost(keys));
                },
                NodeType::Event => {
                    tally_add(&mut node_types, &owned("event"), Ghost(keys));
                },
                NodeType::Other(s) => {
                    let other = owned("other");
                    let qualified = concat("other::", s.as_str());
                    proof {
                        reveal_strlit("other");
                        reveal_strlit("other::");
                        assert(other@.len() != qualified@.len());
                        crate::tally::lemma_occurrences_push(keys, other@, qualified@);
                    }
                    tally_add(&mut node_types, &other, Ghost(keys));
                    tally_add(&mut node_types, &qualified, Ghost(keys.push(other@)));
                    assert(keys.push(other@).push(qualified@) =~= keys + node_type_keys(node.node_type));
                },
            }
            proof {
                if !(node.node_type is Other) {
                    assert(keys.push(node_type_keys(node.node_type)[0]) =~= keys + node_type_keys(node.node_type));
                }
            }
            let d = self.graph.calculate_degree(node.id.as_str());
            assert(d == degs[i as int]);
            degree_sum = degree_sum + d as u128;
            if i == 0 {
                max_degree = d;
                min_degree = d;
            } else {
                if d > max_degree {
                    max_degree = d;
                }
                if d < min_degree {
                    min_degree = d;
                }
            }
            i = i + 1;
        }
        proof {
            assert(ns.take(ns.len() as int) =~= ns);
            assert(degs.take(ns.len() as int) =~= degs);
        }
        let mut edge_types: Vec<(String, usize)> = Vec::new();
        let mut j: usize = 0;
        let ghost ekeys = all_edge_type_keys(es);
        proof {
            assert(ekeys.take(0) =~= Seq::<Seq<char>>::empty());
        }
        while j < self.graph.edges.len()
            invariant
                es == self.graph.edges@,
                ekeys == all_edge_type_keys(es),
                j <= es.len(),
                is_tally_of(tally_view(edge_types@), ekeys.take(j as int)),
            decreases es.len() - j,
        {
            let name = self.graph.edges[j].edge_type.stat_name();
            proof {
                assert(ekeys.take(j as int).filter(equal_to(name@)).len() <= ekeys.take(j as int).len());
                assert(ekeys.take(j + 1) =~= ekeys.take(j as int).push(name@));
            }
            tally_add(&mut edge_types, &name, Ghost(ekeys.take(j as int)));
            j = j + 1;
        }
        proof {
            assert(ekeys.take(es.len() as int) =~= ekeys);
        }
        GraphStatistics {
            node_count: self.graph.metadata.node_count,
            edge_count: self.graph.metadata.edge_count,
            node_types,
            edge_types,
            density: self.calculate_density(),
            avg_degree: Ratio { numerator: degree_sum, denominator: self.graph.nodes.len() as u128 },
            max_degree,
            min_degree,
            connected_components: self.count_connected_components(),
        }
    }
}

} // verus!
