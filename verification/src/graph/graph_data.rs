//! The graph itself: nodes, edges and metadata, with lookups, degrees,
//! shortest paths and greedy cliques.
use vstd::prelude::*;
use super::edge::GraphEdge;
use super::node::GraphNode;
use super::paths::{
    adjacent, closed_under, covered_below, endpoints, expanded_upto, is_walk,
    lemma_closed_holds_reachable, lemma_distinct_within, lemma_neighbour_is_endpoint,
    lemma_next_layer, lemma_unseen_is_far, lemma_walk_push, links, no_shorter_walk, reachable,
    walk_between,
};
use crate::runtime::{now_rfc3339, utc_rfc3339};
use crate::text::{contains_string, copy_string_vec, owned, str_eq};

verus! {

broadcast use vstd::seq_lib::group_seq_properties;

/// Bookkeeping about a graph.
#[derive(Debug, Clone)]
pub struct GraphMetadata {
    pub node_count: usize,
    pub edge_count: usize,
    pub created_at: String,
    pub updated_at: String,
    pub version: String,
}

impl GraphMetadata {
    /// A copy of this metadata.
    pub fn copy(&self) -> (r: GraphMetadata)
        ensures
            r == *self,
    {
        GraphMetadata {
            node_count: self.node_count,
            edge_count: self.edge_count,
            created_at: self.created_at.clone(),
            updated_at: self.updated_at.clone(),
            version: self.version.clone(),
        }
    }
}

/// A knowledge graph.
#[derive(Debug, Clone)]
pub struct GraphData {
    pub nodes: Vec<GraphNode>,
    pub edges: Vec<GraphEdge>,
    pub metadata: GraphMetadata,
}

/// Edge `e` touches the node `id`.
pub open spec fn touches(e: GraphEdge, id: Seq<char>) -> bool {
    e.source@ == id || e.target@ == id
}

/// The number of edges that touch `id` (an edge from `id` to itself counts
/// once).
pub open spec fn degree(edges: Seq<GraphEdge>, id: Seq<char>) -> nat {
    edges.filter(|e: GraphEdge| touches(e, id)).len()
}

/// The node of `id` joined to `id` by edge `e`, if `e` touches `id`: the
/// target of an edge leaving `id`, else the source of an edge entering it.
pub open spec fn other_end(e: GraphEdge, id: Seq<char>) -> Option<Seq<char>> {
    if e.source@ == id {
        Some(e.target@)
    } else if e.target@ == id {
        Some(e.source@)
    } else {
        None
    }
}

/// The first node with identifier `id`, if any.
pub open spec fn node_by_id(nodes: Seq<GraphNode>, id: Seq<char>) -> Option<GraphNode>
    decreases nodes.len(),
{
    if nodes.len() == 0 {
        None
    } else if nodes[0].id@ == id {
        Some(nodes[0])
    } else {
        node_by_id(nodes.drop_first(), id)
    }
}

/// For each edge that touches `id`, in order, the first node carrying the
/// identifier at its other end, where there is one.
pub open spec fn neighbour_nodes(nodes: Seq<GraphNode>, edges: Seq<GraphEdge>, id: Seq<char>) -> Seq<GraphNode>
    decreases edges.len(),
{
    if edges.len() == 0 {
        Seq::empty()
    } else {
        let rest = neighbour_nodes(nodes, edges.drop_last(), id);
        match other_end(edges.last(), id) {
            Some(o) => match node_by_id(nodes, o) {
                Some(n) => rest.push(n),
                None => rest,
            },
            None => rest,
        }
    }
}

/// The identifiers of the nodes, in order.
pub open spec fn node_ids(nodes: Seq<GraphNode>) -> Seq<Seq<char>> {
    nodes.map_values(|n: GraphNode| n.id@)
}

/// Each member of `c` is joined by an edge to every later member.
pub open spec fn is_clique(edges: Seq<GraphEdge>, c: Seq<Seq<char>>) -> bool {
    forall|a: int, b: int| 0 <= a < b < c.len() ==> #[trigger] adjacent(edges, c[a], c[b])
}

/// `x` is joined by an edge to every member of `c`.
pub open spec fn joined_to_all(edges: Seq<GraphEdge>, c: Seq<Seq<char>>, x: Seq<char>) -> bool {
    forall|a: int| 0 <= a < c.len() ==> #[trigger] adjacent(edges, c[a], x)
}

/// Greedy growth of `c`: the identifiers from position `k` on are taken in
/// order, each added when it is joined to every member so far.
pub open spec fn grow_clique(edges: Seq<GraphEdge>, ids: Seq<Seq<char>>, c: Seq<Seq<char>>, k: int) -> Seq<Seq<char>>
    decreases ids.len() - k,
{
    if k < 0 || k >= ids.len() {
        c
    } else if joined_to_all(edges, c, ids[k]) {
        grow_clique(edges, ids, c.push(ids[k]), k + 1)
    } else {
        grow_clique(edges, ids, c, k + 1)
    }
}

/// The cliques that the greedy search finds from the pair `(i, j)` on,
/// pairs taken in order (`i < j`): for each pair of joined identifiers, the
/// clique grown from the pair with the identifiers after `j`, kept when it
/// has at least `min_size` members.
pub open spec fn cliques_from(edges: Seq<GraphEdge>, ids: Seq<Seq<char>>, min_size: nat, i: int, j: int) -> Seq<Seq<Seq<char>>>
    decreases ids.len() - i, ids.len() - j,
{
    if i < 0 || i >= ids.len() {
        Seq::empty()
    } else if j >= ids.len() || j <= i {
        cliques_from(edges, ids, min_size, i + 1, i + 2)
    } else {
        let found = if adjacent(edges, ids[i], ids[j]) {
            let c = grow_clique(edges, ids, seq![ids[i], ids[j]], j + 1);
            if c.len() >= min_size {
                seq![c]
            } else {
                Seq::empty()
            }
        } else {
            Seq::empty()
        };
        found + cliques_from(edges, ids, min_size, i, j + 1)
    }
}

/// Growing a clique keeps it a clique.
pub proof fn lemma_grow_keeps_clique(edges: Seq<GraphEdge>, ids: Seq<Seq<char>>, c: Seq<Seq<char>>, k: int)
    requires
        is_clique(edges, c),
    ensures
        is_clique(edges, grow_clique(edges, ids, c, k)),
        grow_clique(edges, ids, c, k).len() >= c.len(),
    decreases ids.len() - k,
{
    if k < 0 || k >= ids.len() {
    } else if joined_to_all(edges, c, ids[k]) {
        let d = c.push(ids[k]);
        assert forall|a: int, b: int| 0 <= a < b < d.len() implies #[trigger] adjacent(edges, d[a], d[b]) by {
            if b == c.len() {
                assert(adjacent(edges, c[a], ids[k]));
            } else {
                assert(adjacent(edges, c[a], c[b]));
            }
        }
        lemma_grow_keeps_clique(edges, ids, d, k + 1);
    } else {
        lemma_grow_keeps_clique(edges, ids, c, k + 1);
    }
}

/// Every group that the greedy clique search returns is a clique of at
/// least the requested size.
pub proof fn law_found_cliques_are_cliques(edges: Seq<GraphEdge>, ids: Seq<Seq<char>>, min_size: nat, i: int, j: int, c: Seq<Seq<char>>)
    requires
        cliques_from(edges, ids, min_size, i, j).contains(c),
    ensures
        is_clique(edges, c),
        c.len() >= min_size,
    decreases ids.len() - i, ids.len() - j,
{
    if i < 0 || i >= ids.len() {
    } else if j >= ids.len() || j <= i {
        law_found_cliques_are_cliques(edges, ids, min_size, i + 1, i + 2, c);
    } else {
        let rest = cliques_from(edges, ids, min_size, i, j + 1);
        if adjacent(edges, ids[i], ids[j]) {
            let g = grow_clique(edges, ids, seq![ids[i], ids[j]], j + 1);
            if g.len() >= min_size && c == g {
                let p = seq![ids[i], ids[j]];
                assert(is_clique(edges, p)) by {
                    assert forall|a: int, b: int| 0 <= a < b < p.len() implies #[trigger] adjacent(edges, p[a], p[b]) by {
                        assert(a == 0 && b == 1);
                    }
                }
                lemma_grow_keeps_clique(edges, ids, p, j + 1);
                return;
            }
        }
        let found = if adjacent(edges, ids[i], ids[j]) {
            let g = grow_clique(edges, ids, seq![ids[i], ids[j]], j + 1);
            if g.len() >= min_size { seq![g] } else { Seq::empty() }
        } else {
            Seq::empty()
        };
        assert(cliques_from(edges, ids, min_size, i, j) == found + rest);
        if !rest.contains(c) {
            let x = choose|x: int| 0 <= x < (found + rest).len() && (found + rest)[x] == c;
            if x < found.len() {
                assert(found[x] == c);
            } else {
                assert(rest[x - found.len()] == c);
            }
        }
        law_found_cliques_are_cliques(edges, ids, min_size, i, j + 1, c);
    }
}

/// The centrality of a node: the share of the edges that touch it (zero
/// without edges).
pub open spec fn centrality_of(edges: Seq<GraphEdge>, id: Seq<char>) -> super::graph_analyzer::Ratio {
    super::graph_analyzer::Ratio { numerator: degree(edges, id) as u128, denominator: edges.len() as u128 }
}

/// The identifiers of the first `k` nodes, each once, in the order of
/// their first occurrence, with their centrality.
pub open spec fn centralities(nodes: Seq<GraphNode>, edges: Seq<GraphEdge>, k: nat) -> Seq<(Seq<char>, super::graph_analyzer::Ratio)>
    decreases k,
{
    if k == 0 || k > nodes.len() {
        Seq::empty()
    } else {
        let rest = centralities(nodes, edges, (k - 1) as nat);
        let id = nodes[k - 1].id@;
        if node_ids(nodes.take(k - 1)).contains(id) {
            rest
        } else {
            rest.push((id, centrality_of(edges, id)))
        }
    }
}

impl GraphData {
    /// An empty graph, created and updated now, at version "0.1.0".
    pub fn new() -> (g: Self)
        ensures
            g.nodes@.len() == 0,
            g.edges@.len() == 0,
            g.metadata.node_count == 0,
            g.metadata.edge_count == 0,
            g.metadata.created_at@ == g.metadata.updated_at@,
            utc_rfc3339(g.metadata.created_at@),
            g.metadata.version@ == "0.1.0"@,
    {
        let now = now_rfc3339();
        GraphData {
            nodes: Vec::new(),
            edges: Vec::new(),
            metadata: GraphMetadata {
                node_count: 0,
                edge_count: 0,
                created_at: now.clone(),
                updated_at: now,
                version: owned("0.1.0"),
            },
        }
    }

    /// Appends a node and records the new node count.
    pub fn add_node(&mut self, node: GraphNode)
        ensures
            final(self).nodes@ == old(self).nodes@.push(node),
            final(self).edges@ == old(self).edges@,
            final(self).metadata.node_count == final(self).nodes@.len(),
            final(self).metadata.edge_count == old(self).metadata.edge_count,
            final(self).metadata.created_at == old(self).metadata.created_at,
            final(self).metadata.version == old(self).metadata.version,
    {
        self.nodes.push(node);
        self.metadata.node_count = self.nodes.len();
        self.update_timestamp();
    }

    /// Appends an edge and records the new edge count.
    pub fn add_edge(&mut self, edge: GraphEdge)
        ensures
            final(self).edges@ == old(self).edges@.push(edge),
            final(self).nodes@ == old(self).nodes@,
            final(self).metadata.edge_count == final(self).edges@.len(),
            final(self).metadata.node_count == old(self).metadata.node_count,
            final(self).metadata.created_at == old(self).metadata.created_at,
            final(self).metadata.version == old(self).metadata.version,
    {
        self.edges.push(edge);
        self.metadata.edge_count = self.edges.len();
        self.update_timestamp();
    }

    /// The first node with identifier `id`.
    pub fn find_node(&self, id: &str) -> (r: Option<&GraphNode>)
        ensures
            match r {
                Some(n) => *n == node_by_id(self.nodes@, id@)->0 && node_by_id(self.nodes@, id@) is Some,
                None => node_by_id(self.nodes@, id@) is None,
            },
    {
        let ghost ns = self.nodes@;
        let mut i: usize = 0;
        while i < self.nodes.len()
            invariant
                i <= ns.len(),
                ns == self.nodes@,
                node_by_id(ns, id@) == node_by_id(ns.skip(i as int), id@),
            decreases ns.len() - i,
        {
            assert(ns.skip(i as int).drop_first() =~= ns.skip(i + 1));
            if str_eq(self.nodes[i].id.as_str(), id) {
                return Some(&self.nodes[i]);
            }
            i = i + 1;
        }
        None
    }

    /// The edges that leave `source_id`, in order.
    pub fn find_edges_by_source(&self, source_id: &str) -> (r: Vec<&GraphEdge>)
        ensures
            r@.map_values(|e: &GraphEdge| *e) == self.edges@.filter(
                |e: GraphEdge| e.source@ == source_id@,
            ),
    {
        let ghost es = self.edges@;
        let ghost pred = |e: GraphEdge| e.source@ == source_id@;
        let mut r: Vec<&GraphEdge> = Vec::new();
        let mut i: usize = 0;
        while i < self.edges.len()
            invariant
                i <= es.len(),
                es == self.edges@,
                pred == (|e: GraphEdge| e.source@ == source_id@),
                r@.map_values(|e: &GraphEdge| *e) == es.take(i as int).filter(pred),
            decreases es.len() - i,
        {
            proof {
                assert(es.take(i + 1) =~= es.take(i as int).push(es[i as int]));
                es.take(i as int).lemma_filter_push(es[i as int], pred);
            }
            if str_eq(self.edges[i].source.as_str(), source_id) {
                r.push(&self.edges[i]);
            }
            assert(r@.map_values(|e: &GraphEdge| *e) =~= es.take(i + 1).filter(pred));
            i = i + 1;
        }
        assert(es.take(es.len() as int) =~= es);
        r
    }

    /// The edges that enter `target_id`, in order.
    pub fn find_edges_by_target(&self, target_id: &str) -> (r: Vec<&GraphEdge>)
        ensures
            r@.map_values(|e: &GraphEdge| *e) == self.edges@.filter(
                |e: GraphEdge| e.target@ == target_id@,
            ),
    {
        let ghost es = self.edges@;
        let ghost pred = |e: GraphEdge| e.target@ == target_id@;
        let mut r: Vec<&GraphEdge> = Vec::new();
        let mut i: usize = 0;
        while i < self.edges.len()
            invariant
                i <= es.len(),
                es == self.edges@,
                pred == (|e: GraphEdge| e.target@ == target_id@),
                r@.map_values(|e: &GraphEdge| *e) == es.take(i as int).filter(pred),
            decreases es.len() - i,
        {
            proof {
                assert(es.take(i + 1) =~= es.take(i as int).push(es[i as int]));
                es.take(i as int).lemma_filter_push(es[i as int], pred);
            }
            if str_eq(self.edges[i].target.as_str(), target_id) {
                r.push(&self.edges[i]);
            }
            assert(r@.map_values(|e: &GraphEdge| *e) =~= es.take(i + 1).filter(pred));
            i = i + 1;
        }
        assert(es.take(es.len() as int) =~= es);
        r
    }

    /// For each edge touching `node_id`, in order, the node at its other
    /// end (see [`neighbour_nodes`]).
    pub fn find_neighbors(&self, node_id: &str) -> (r: Vec<&GraphNode>)
        ensures
            r@.map_values(|n: &GraphNode| *n) == neighbour_nodes(self.nodes@, self.edges@, node_id@),
    {
        let ghost es = self.edges@;
        let mut r: Vec<&GraphNode> = Vec::new();
        let mut i: usize = 0;
        while i < self.edges.len()
            invariant
                i <= es.len(),
                es == self.edges@,
                r@.map_values(|n: &GraphNode| *n) == neighbour_nodes(
                    self.nodes@,
                    es.take(i as int),
                    node_id@,
                ),
            decreases es.len() - i,
        {
            assert(es.take(i + 1).drop_last() =~= es.take(i as int));
            let edge = &self.edges[i];
            if str_eq(edge.source.as_str(), node_id) {
                if let Some(node) = self.find_node(edge.target.as_str()) {
                    r.push(node);
                }
            } else if str_eq(edge.target.as_str(), node_id) {
                if let Some(node) = self.find_node(edge.source.as_str()) {
                    r.push(node);
                }
            }
            assert(r@.map_values(|n: &GraphNode| *n) =~= neighbour_nodes(
                self.nodes@,
                es.take(i + 1),
                node_id@,
            ));
            i = i + 1;
        }
        assert(es.take(es.len() as int) =~= es);
        r
    }

    /// The number of edges touching `node_id`.
    pub fn calculate_degree(&self, node_id: &str) -> (r: usize)
        ensures
            r == degree(self.edges@, node_id@),
    {
        let ghost es = self.edges@;
        let ghost pred = |e: GraphEdge| touches(e, node_id@);
        let mut count: usize = 0;
        let mut i: usize = 0;
        while i < self.edges.len()
            invariant
                i <= es.len(),
                es == self.edges@,
                pred == (|e: GraphEdge| touches(e, node_id@)),
                count == es.take(i as int).filter(pred).len(),
                count <= i,
            decreases es.len() - i,
        {
            proof {
                assert(es.take(i + 1) =~= es.take(i as int).push(es[i as int]));
                es.take(i as int).lemma_filter_push(es[i as int], pred);
            }
            let edge = &self.edges[i];
            if str_eq(edge.source.as_str(), node_id) || str_eq(edge.target.as_str(), node_id) {
                count = count + 1;
            }
            i = i + 1;
        }
        assert(es.take(es.len() as int) =~= es);
        count
    }

    /// Every node identifier, once, in the order of its first occurrence,
    /// with its centrality (see [`centralities`]).
    pub fn calculate_centrality(&self) -> (r: Vec<(String, super::graph_analyzer::Ratio)>)
        ensures
            super::ranking::scored_view(r@) == centralities(self.nodes@, self.edges@, self.nodes@.len()),
            forall|k: int| 0 <= k < r@.len() ==> super::ranking::ratio_small(#[trigger] r@[k].1),
    {
        let ghost ns = self.nodes@;
        let mut seen: Vec<String> = Vec::new();
        let mut r: Vec<(String, super::graph_analyzer::Ratio)> = Vec::new();
        let total = self.edges.len();
        let mut i: usize = 0;
        while i < self.nodes.len()
            invariant
                ns == self.nodes@,
                total == self.edges@.len(),
                i <= ns.len(),
                seen.deep_view() == node_ids(ns.take(i as int)),
                super::ranking::scored_view(r@) == centralities(ns, self.edges@, i as nat),
                forall|k: int| 0 <= k < r@.len() ==> super::ranking::ratio_small(#[trigger] r@[k].1),
            decreases ns.len() - i,
        {
            let id = &self.nodes[i].id;
            proof {
                assert(ns.take(i + 1).take(i as int) =~= ns.take(i as int));
                assert(node_ids(ns.take(i + 1)) =~= node_ids(ns.take(i as int)).push(id@));
            }
            if !contains_string(&seen, id) {
                let d = self.calculate_degree(id.as_str());
                proof {
                    lemma_degree_bound(self.edges@, id@);
                }
                let ghost r0 = r@;
                r.push((id.clone(), super::graph_analyzer::Ratio { numerator: d as u128, denominator: total as u128 }));
                proof {
                    assert(super::ranking::scored_view(r@) =~= super::ranking::scored_view(r0).push((id@, centrality_of(self.edges@, id@))));
                }
            }
            seen.push(id.clone());
            i = i + 1;
        }
        assert(ns.take(ns.len() as int) =~= ns);
        r
    }

    /// Whether some edge joins `node1` and `node2`, in either direction.
    fn is_connected(&self, node1: &str, node2: &str) -> (r: bool)
        ensures
            r == adjacent(self.edges@, node1@, node2@),
    {
        let mut i: usize = 0;
        while i < self.edges.len()
            invariant
                i <= self.edges@.len(),
                forall|k: int| 0 <= k < i ==> !links(self.edges@[k], node1@, node2@),
            decreases self.edges@.len() - i,
        {
            let edge = &self.edges[i];
            if (str_eq(edge.source.as_str(), node1) && str_eq(edge.target.as_str(), node2)) || (
            str_eq(edge.source.as_str(), node2) && str_eq(edge.target.as_str(), node1)) {
                assert(links(self.edges@[i as int], node1@, node2@));
                return true;
            }
            i = i + 1;
        }
        false
    }

    /// A shortest walk from `start` to `end`, found by breadth-first search
    /// over the edges read in both directions: no walk between them has
    /// fewer identifiers, and no identifier occurs on it twice. The result
    /// is `None` exactly when no walk leads from `start` to `end`.
    pub fn find_shortest_path(&self, start: &str, end: &str) -> (r: Option<Vec<String>>)
        ensures
            match r {
                Some(p) => walk_between(self.edges@, p.deep_view(), start@, end@)
                    && p.deep_view().no_duplicates()
                    && no_shorter_walk(self.edges@, start@, end@, p@.len() as int),
                None => !reachable(self.edges@, start@, end@),
            },
    {
        let ghost es = self.edges@;
        let ghost univ = endpoints(es).push(start@);
        let mut first: Vec<String> = Vec::new();
        first.push(owned(start));
        let mut queue: Vec<Vec<String>> = Vec::new();
        queue.push(first);
        let mut visited: Vec<String> = Vec::new();
        visited.push(owned(start));
        proof {
            assert(queue@[0].deep_view() =~= seq![start@]);
            assert(visited.deep_view() =~= seq![start@]);
            assert(is_walk(es, seq![start@]));
        }
        let mut head: usize = 0;
        while head < queue.len()
            invariant
                es == self.edges@,
                univ == endpoints(es).push(start@),
                head <= queue@.len(),
                queue@.len() == visited@.len(),
                visited.deep_view().len() <= univ.len(),
                visited.deep_view().len() >= 1,
                visited.deep_view()[0] == start@,
                visited.deep_view().no_duplicates(),
                forall|x: Seq<char>| #[trigger] visited.deep_view().contains(x) ==> univ.contains(x),
                forall|k: int|
                    0 <= k < queue@.len() ==> walk_between(
                        es,
                        #[trigger] queue@[k].deep_view(),
                        start@,
                        visited.deep_view()[k],
                    ) && queue@[k].deep_view().no_duplicates(),
                forall|k: int, m: Seq<char>|
                    0 <= k < queue@.len() && #[trigger] queue@[k].deep_view().contains(m)
                        ==> visited.deep_view().contains(m),
                forall|k: int| 0 <= k < head ==> visited.deep_view()[k] != end@,
                expanded_upto(es, visited.deep_view(), head as int),
                forall|a: int, b: int| 0 <= a <= b < queue@.len() ==> #[trigger] queue@[a]@.len() <= #[trigger] queue@[b]@.len(),
                head < queue@.len() ==> queue@[queue@.len() - 1]@.len() <= queue@[head as int]@.len() + 1,
                forall|k: int| 0 <= k < queue@.len() ==> no_shorter_walk(es, start@, #[trigger] visited.deep_view()[k], queue@[k]@.len() as int),
                head < queue@.len() ==> covered_below(es, start@, visited.deep_view(), head as int, queue@[head as int]@.len() as int),
            decreases univ.len() - head,
        {
            let path = copy_string_vec(&queue[head]);
            let ghost pv = path.deep_view();
            assert(pv =~= queue@[head as int].deep_view());
            let current = &path[path.len() - 1];
            let ghost cur = current@;
            assert(cur == visited.deep_view()[head as int]);
            if str_eq(current.as_str(), end) {
                return Some(path);
            }
            let mut i: usize = 0;
            while i < self.edges.len()
                invariant
                    es == self.edges@,
                    univ == endpoints(es).push(start@),
                    head < queue@.len(),
                    queue@.len() == visited@.len(),
                    pv == path.deep_view(),
                    pv == queue@[head as int].deep_view(),
                    pv.len() > 0,
                    cur == pv.last(),
                    cur == current@,
                    cur == visited.deep_view()[head as int],
                    cur != end@,
                    visited.deep_view().len() <= univ.len(),
                    visited.deep_view().len() >= 1,
                    visited.deep_view()[0] == start@,
                    visited.deep_view().no_duplicates(),
                    forall|x: Seq<char>| #[trigger] visited.deep_view().contains(x) ==> univ.contains(x),
                    forall|k: int|
                        0 <= k < queue@.len() ==> walk_between(
                            es,
                            #[trigger] queue@[k].deep_view(),
                            start@,
                            visited.deep_view()[k],
                        ) && queue@[k].deep_view().no_duplicates(),
                    forall|k: int, m: Seq<char>|
                        0 <= k < queue@.len() && #[trigger] queue@[k].deep_view().contains(m)
                            ==> visited.deep_view().contains(m),
                    forall|k: int| 0 <= k < head ==> visited.deep_view()[k] != end@,
                    expanded_upto(es, visited.deep_view(), head as int),
                    forall|a: int, b: int| 0 <= a <= b < queue@.len() ==> #[trigger] queue@[a]@.len() <= #[trigger] queue@[b]@.len(),
                    queue@[queue@.len() - 1]@.len() <= pv.len() + 1,
                    pv.len() == queue@[head as int]@.len(),
                    forall|k: int| 0 <= k < queue@.len() ==> no_shorter_walk(es, start@, #[trigger] visited.deep_view()[k], queue@[k]@.len() as int),
                    covered_below(es, start@, visited.deep_view(), head as int, pv.len() as int),
                    i <= es.len(),
                    forall|e: int, y: Seq<char>|
                        0 <= e < i && #[trigger] links(es[e], cur, y)
                            ==> visited.deep_view().contains(y),
                decreases es.len() - i,
            {
                let edge = &self.edges[i];
                let neighbor: Option<&String> = if str_eq(edge.source.as_str(), current.as_str()) {
                    Some(&edge.target)
                } else if str_eq(edge.target.as_str(), current.as_str()) {
                    Some(&edge.source)
                } else {
                    None
                };
                proof {
                    assert forall|y: Seq<char>| #[trigger] links(es[i as int], cur, y) implies (
                    neighbor is Some && y == neighbor->0@) by {}
                }
                if let Some(neighbor_id) = neighbor {
                    if !contains_string(&visited, neighbor_id) {
                        let ghost old_visited = visited.deep_view();
                        let ghost old_queue = queue@;
                        let ghost nb = neighbor_id@;
                        proof {
                            assert(links(es[i as int], cur, nb));
                            assert(adjacent(es, cur, nb));
                            lemma_neighbour_is_endpoint(es, cur, nb);
                        }
                        visited.push(neighbor_id.clone());
                        let mut new_path = copy_string_vec(&path);
                        new_path.push(neighbor_id.clone());
                        queue.push(new_path);
                        proof {
                            assert(visited.deep_view() =~= old_visited.push(nb));
                            lemma_unseen_is_far(es, start@, old_visited, head as int, pv.len() as int, nb);
                            assert(old_visited.take(head as int) =~= visited.deep_view().take(head as int));
                            assert(queue@[queue@.len() - 1]@.len() == pv.len() + 1);
                            assert(queue@[queue@.len() - 1].deep_view() =~= pv.push(nb));
                            assert forall|k: int| 0 <= k < old_queue.len() implies queue@[k]
                                == old_queue[k] by {}
                            assert forall|k: int| 0 <= k < queue@.len() implies no_shorter_walk(es, start@, #[trigger] visited.deep_view()[k], queue@[k]@.len() as int) by {
                                if k < old_queue.len() {
                                    assert(visited.deep_view()[k] == old_visited[k]);
                                }
                            }
                            assert forall|k: int, y: Seq<char>| 0 <= k < head && #[trigger] adjacent(es, visited.deep_view()[k], y) implies visited.deep_view().contains(y) by {
                                assert(visited.deep_view()[k] == old_visited[k]);
                                assert(old_visited.contains(y));
                            }
                            lemma_walk_push(es, pv, nb);
                            assert(!pv.contains(nb)) by {
                                if pv.contains(nb) {
                                    assert(old_queue[head as int].deep_view().contains(nb));
                                }
                            }
                            let np = pv.push(nb);
                            assert forall|a: int, b: int| 0 <= a < np.len() && 0 <= b < np.len()
                                && a != b implies np[a] != np[b] by {
                                if a == np.len() - 1 {
                                    assert(pv.contains(np[b]));
                                } else if b == np.len() - 1 {
                                    assert(pv.contains(np[a]));
                                }
                            }
                            assert(np.no_duplicates());
                            assert forall|k: int| 0 <= k < queue@.len() implies walk_between(
                                es,
                                #[trigger] queue@[k].deep_view(),
                                start@,
                                visited.deep_view()[k],
                            ) && queue@[k].deep_view().no_duplicates() by {
                                if k < old_queue.len() {
                                    assert(queue@[k].deep_view() == old_queue[k].deep_view());
                                    assert(visited.deep_view()[k] == old_visited[k]);
                                }
                            }
                            assert forall|x: Seq<char>| #[trigger] visited.deep_view().contains(x)
                                implies univ.contains(x) by {
                                if x != nb {
                                    assert(old_visited.contains(x));
                                }
                            }
                            lemma_distinct_within(visited.deep_view(), univ);
                            assert forall|m: Seq<char>| #[trigger] pv.push(nb).contains(m)
                                implies visited.deep_view().contains(m) by {
                                if m != nb {
                                    assert(pv.contains(m));
                                }
                            }
                        }
                    }
                }
                i = i + 1;
            }
            proof {
                assert forall|y: Seq<char>| #[trigger] adjacent(es, cur, y) implies visited.deep_view().contains(
                    y,
                ) by {
                    let e = choose|e: int| 0 <= e < es.len() && #[trigger] links(es[e], cur, y);
                }
                lemma_distinct_within(visited.deep_view(), univ);
                if head + 1 < queue@.len() {
                    let lens = Seq::new(queue@.len(), |k: int| queue@[k]@.len() as int);
                    assert forall|k: int| 0 <= k < visited.deep_view().len() implies no_shorter_walk(es, start@, #[trigger] visited.deep_view()[k], lens[k]) by {
                        assert(lens[k] == queue@[k]@.len() as int);
                    }
                    assert forall|a: int, b: int| 0 <= a <= b < lens.len() implies lens[a] <= lens[b] by {
                        assert(queue@[a]@.len() <= queue@[b]@.len());
                    }
                    assert(queue@[head + 1]@.len() <= queue@[queue@.len() - 1]@.len());
                    lemma_next_layer(es, start@, visited.deep_view(), lens, head as int);
                }
            }
            head = head + 1;
        }
        proof {
            let vd = visited.deep_view();
            let s = Set::new(|x: Seq<char>| vd.contains(x));
            assert forall|x: Seq<char>, y: Seq<char>| s.contains(x) && adjacent(es, x, y) implies s.contains(
                y,
            ) by {
                let k = choose|k: int| 0 <= k < vd.len() && vd[k] == x;
                assert(adjacent(es, vd[k], y));
            }
            assert(closed_under(es, s));
            assert(s.contains(start@));
            assert(!s.contains(end@));
            if reachable(es, start@, end@) {
                lemma_closed_holds_reachable(es, s, start@, end@);
            }
        }
        None
    }

    /// Whether `id` is joined by an edge to every member of `clique`.
    fn joined_to_all_exec(&self, clique: &Vec<String>, id: &str) -> (r: bool)
        ensures
            r == joined_to_all(self.edges@, clique.deep_view(), id@),
    {
        let mut a: usize = 0;
        while a < clique.len()
            invariant
                a <= clique@.len(),
                forall|x: int| 0 <= x < a ==> #[trigger] adjacent(self.edges@, clique.deep_view()[x], id@),
            decreases clique@.len() - a,
        {
            if !self.is_connected(clique[a].as_str(), id) {
                assert(clique.deep_view()[a as int] == clique@[a as int]@);
                assert(!adjacent(self.edges@, clique.deep_view()[a as int], id@));
                return false;
            }
            a = a + 1;
        }
        true
    }

    /// Greedy search for cliques (see [`cliques_from`]): for every pair of
    /// joined nodes, in order, the pair grown with the later nodes that are
    /// joined to all members so far, kept when it has at least `min_size`
    /// members.
    pub fn find_cliques(&self, min_size: usize) -> (r: Vec<Vec<String>>)
        ensures
            r.deep_view() == cliques_from(self.edges@, node_ids(self.nodes@), min_size as nat, 0, 1),
    {
        let ghost es = self.edges@;
        let ghost ids = node_ids(self.nodes@);
        let ghost min = min_size as nat;
        let n = self.nodes.len();
        let mut cliques: Vec<Vec<String>> = Vec::new();
        let mut i: usize = 0;
        proof {
            if n == 0 {
                assert(cliques_from(es, ids, min, 0, 1) =~= Seq::<Seq<Seq<char>>>::empty());
            }
        }
        while i < n
            invariant
                n == self.nodes@.len(),
                es == self.edges@,
                ids == node_ids(self.nodes@),
                min == min_size as nat,
                i <= n,
                cliques.deep_view() + cliques_from(es, ids, min, i as int, i + 1) == cliques_from(
                    es,
                    ids,
                    min,
                    0,
                    1,
                ),
            decreases n - i,
        {
            let mut j: usize = i + 1;
            while j < n
                invariant
                    n == self.nodes@.len(),
                    es == self.edges@,
                    ids == node_ids(self.nodes@),
                    min == min_size as nat,
                    i < n,
                    i < j <= n,
                    cliques.deep_view() + cliques_from(es, ids, min, i as int, j as int)
                        == cliques_from(es, ids, min, 0, 1),
                decreases n - j,
            {
                let ghost before = cliques.deep_view();
                let ghost rest = cliques_from(es, ids, min, i as int, j + 1);
                if self.is_connected(self.nodes[i].id.as_str(), self.nodes[j].id.as_str()) {
                    let mut clique: Vec<String> = Vec::new();
                    clique.push(self.nodes[i].id.clone());
                    clique.push(self.nodes[j].id.clone());
                    let ghost start_clique = seq![ids[i as int], ids[j as int]];
                    assert(clique.deep_view() =~= start_clique);
                    let mut k: usize = j + 1;
                    while k < n
                        invariant
                            n == self.nodes@.len(),
                            es == self.edges@,
                            ids == node_ids(self.nodes@),
                            j < k <= n,
                            grow_clique(es, ids, clique.deep_view(), k as int) == grow_clique(
                                es,
                                ids,
                                start_clique,
                                j + 1,
                            ),
                        decreases n - k,
                    {
                        let ghost c0 = clique.deep_view();
                        if self.joined_to_all_exec(&clique, self.nodes[k].id.as_str()) {
                            clique.push(self.nodes[k].id.clone());
                            assert(clique.deep_view() =~= c0.push(ids[k as int]));
                        }
                        k = k + 1;
                    }
                    if clique.len() >= min_size {
                        cliques.push(clique);
                        assert(cliques.deep_view() =~= before + seq![grow_clique(es, ids, start_clique, j + 1)]);
                    }
                }
                assert(cliques_from(es, ids, min, i as int, j as int) =~= cliques_from(es, ids, min, i as int, j as int));
                assert(cliques.deep_view() + rest =~= before + cliques_from(es, ids, min, i as int, j as int));
                j = j + 1;
            }
            assert(cliques_from(es, ids, min, i as int, j as int) == cliques_from(es, ids, min, i + 1, i + 2));
            i = i + 1;
        }
        assert(cliques_from(es, ids, min, i as int, i + 1) =~= Seq::<Seq<Seq<char>>>::empty());
        assert(cliques.deep_view() =~= cliques.deep_view() + Seq::<Seq<Seq<char>>>::empty());
        cliques
    }

    /// Records the current time, in UTC, as the time of the last update.
    pub fn update_timestamp(&mut self)
        ensures
            utc_rfc3339(final(self).metadata.updated_at@),
            final(self).nodes == old(self).nodes,
            final(self).edges == old(self).edges,
            final(self).metadata.node_count == old(self).metadata.node_count,
            final(self).metadata.edge_count == old(self).metadata.edge_count,
            final(self).metadata.created_at == old(self).metadata.created_at,
            final(self).metadata.version == old(self).metadata.version,
    {
        self.metadata.updated_at = now_rfc3339();
    }

    /// Removes every node and edge.
    pub fn clear(&mut self)
        ensures
            final(self).nodes@.len() == 0,
            final(self).edges@.len() == 0,
            final(self).metadata.node_count == 0,
            final(self).metadata.edge_count == 0,
            final(self).metadata.created_at == old(self).metadata.created_at,
            final(self).metadata.version == old(self).metadata.version,
    {
        self.nodes.clear();
        self.edges.clear();
        self.metadata.node_count = 0;
        self.metadata.edge_count = 0;
        self.update_timestamp();
    }
}

impl Default for GraphData {
    fn default() -> (g: Self)
        ensures
            g.nodes@.len() == 0,
            g.edges@.len() == 0,
    {
        Self::new()
    }
}


/// No more edges touch a node than there are edges.
pub proof fn lemma_degree_bound(edges: Seq<GraphEdge>, id: Seq<char>)
    ensures
        degree(edges, id) <= edges.len(),
{
    broadcast use vstd::seq_lib::group_filter_ensures;
}

} // verus!
