//! Building a knowledge graph from code and documents: nodes are indexed
//! by label, edges join labelled nodes.
use vstd::prelude::*;
use super::edge::{EdgeType, GraphEdge};
use super::graph_data::GraphData;
use super::node::{GraphNode, NodeType};
use crate::json::{entries_text, entry_keys_distinct, json_object, json_text_member, JsonScalar};
use crate::search::query_optimizer::utf8_len_exceeds;
use crate::text::{
    alphanumeric, char_is_alphanumeric, chars_utf8_len, concat, decimal, decimal_string, from_chars,
    lemma_utf8_len_prefix, owned, replace_all, split_whitespace, split_words, str_eq, str_replace, to_chars,
    utf8_len,
};

verus! {

/// The identifier that `label` maps to in `ix`, the first entry for it.
pub open spec fn index_lookup(ix: Seq<(Seq<char>, Seq<char>)>, label: Seq<char>) -> Option<Seq<char>>
    decreases ix.len(),
{
    if ix.len() == 0 {
        None
    } else if ix[0].0 == label {
        Some(ix[0].1)
    } else {
        index_lookup(ix.drop_first(), label)
    }
}

/// `ix` with `label` mapped to `id`: the first entry for `label` replaced,
/// or a new entry at the end.
pub open spec fn index_insert(ix: Seq<(Seq<char>, Seq<char>)>, label: Seq<char>, id: Seq<char>) -> Seq<(Seq<char>, Seq<char>)>
    decreases ix.len(),
{
    if ix.len() == 0 {
        seq![(label, id)]
    } else if ix[0].0 == label {
        ix.update(0, (label, id))
    } else {
        seq![ix[0]] + index_insert(ix.drop_first(), label, id)
    }
}

/// After mapping a label, looking it up gives the new identifier, and
/// looking up any other label gives what it gave before.
pub proof fn law_index_insert_lookup(ix: Seq<(Seq<char>, Seq<char>)>, label: Seq<char>, id: Seq<char>, other: Seq<char>)
    ensures
        index_lookup(index_insert(ix, label, id), label) == Some(id),
        other != label ==> index_lookup(index_insert(ix, label, id), other) == index_lookup(ix, other),
    decreases ix.len(),
{
    if ix.len() == 0 {
        assert(seq![(label, id)].drop_first() =~= ix);
    } else if ix[0].0 == label {
        assert(ix.update(0, (label, id)).drop_first() =~= ix.drop_first());
    } else {
        law_index_insert_lookup(ix.drop_first(), label, id, other);
        let ins = index_insert(ix, label, id);
        assert(ins == seq![ix[0]] + index_insert(ix.drop_first(), label, id));
        assert(ins[0] == ix[0]);
        assert(ins.drop_first() =~= index_insert(ix.drop_first(), label, id));
    }
}

/// The identifier of the `n`-th item made by a builder, with its prefix.
pub open spec fn item_id(prefix: Seq<char>, n: nat) -> Seq<char> {
    prefix + decimal(n)
}

/// What `regex::Regex::captures_iter` finds in `text` for the regular
/// expression `pattern`: for each successive non-overlapping match, the
/// text of capture groups 1, 2, … in order (`None` for a group that took no
/// part in the match).
pub uninterp spec fn regex_captures(pattern: Seq<char>, text: Seq<char>) -> Seq<Seq<Option<Seq<char>>>>;

/// Whether `regex::Regex::new` accepts `pattern`.
pub uninterp spec fn regex_compiles(pattern: Seq<char>) -> bool;

/// Compiles `pattern` with `regex::Regex::new` and lists what
/// `captures_iter` finds in `text` (see [`regex_captures`]); `None` exactly
/// when the pattern does not compile (see [`regex_compiles`]).
#[verifier::external_body]
pub(crate) fn capture_groups(pattern: &str, text: &str) -> (r: Option<Vec<Vec<Option<String>>>>)
    ensures
        r is Some <==> regex_compiles(pattern@),
        r matches Some(v) ==> v.deep_view() == regex_captures(pattern@, text@),
{
    match regex::Regex::new(pattern) {
        Ok(re) => Some(
            re.captures_iter(text).map(
                |c| c.iter().skip(1).map(|m| m.map(|x| x.as_str().to_string())).collect(),
            ).collect(),
        ),
        Err(_) => None,
    }
}

/// The first capture group that took part in a match.
pub open spec fn first_group(groups: Seq<Option<Seq<char>>>) -> Option<Seq<char>>
    decreases groups.len(),
{
    if groups.len() == 0 {
        None
    } else {
        match groups[0] {
            Some(g) => Some(g),
            None => first_group(groups.drop_first()),
        }
    }
}

/// The label a capture gives: its first group, with every occurrence of
/// `rename.0` replaced by `rename.1` where a renaming is given.
pub open spec fn renamed(g: Seq<char>, rename: Option<(Seq<char>, Seq<char>)>) -> Seq<char> {
    match rename {
        Some((from, to)) => replace_all(g, from, to),
        None => g,
    }
}

/// The labels of the code nodes made from a list of captures: one per
/// capture with a group, in order.
pub open spec fn capture_labels(caps: Seq<Seq<Option<Seq<char>>>>, rename: Option<(Seq<char>, Seq<char>)>) -> Seq<Seq<char>>
    decreases caps.len(),
{
    if caps.len() == 0 {
        Seq::empty()
    } else {
        let rest = capture_labels(caps.drop_last(), rename);
        match first_group(caps.last()) {
            Some(g) => rest.push(renamed(g, rename)),
            None => rest,
        }
    }
}

/// The index after mapping `labels[k]` to the identifier of item
/// `first + k`, in order.
pub open spec fn index_insert_all(ix: Seq<(Seq<char>, Seq<char>)>, labels: Seq<Seq<char>>, prefix: Seq<char>, first: nat) -> Seq<(Seq<char>, Seq<char>)>
    decreases labels.len(),
{
    if labels.len() == 0 {
        ix
    } else {
        let before = index_insert_all(ix, labels.drop_last(), prefix, first);
        index_insert(before, labels.last(), item_id(prefix, (first + labels.len() - 1) as nat))
    }
}

/// Keep a character of a word: letters, digits and underscores.
pub open spec fn keyword_char(c: char) -> bool {
    alphanumeric(c) || c == '_'
}

/// The keywords of a document: its white-space separated words, cut down
/// to their letters, digits and underscores, kept when that leaves more
/// than three bytes.
pub open spec fn document_keywords(text: Seq<char>) -> Seq<Seq<char>> {
    split_whitespace(text).map_values(|w: Seq<char>| w.filter(|c: char| keyword_char(c))).filter(
        |w: Seq<char>| utf8_len(w) > 3,
    )
}

/// The renaming given to module names, by the text of its two parts.
pub open spec fn rename_view(rename: Option<(&str, &str)>) -> Option<(Seq<char>, Seq<char>)> {
    match rename {
        Some((from, to)) => Some((from@, to@)),
        None => None,
    }
}

/// Node properties that give the language of the code and the kind of
/// item (`class`, `function`, `module`, ...) as the texts of their
/// `language` and `type` members.
pub open spec fn code_properties(v: serde_json::Value, language: Seq<char>, kind: Seq<char>) -> bool {
    &&& json_text_member(v, "language"@) == Some(language)
    &&& json_text_member(v, "type"@) == Some(kind)
}

/// `b1` is `b0` with one code node added per capture that has a group,
/// labelled by [`capture_labels`], numbered from the counter of `b0` on,
/// with the language and kind as its properties (see
/// [`code_properties`]), and each label mapped to its node.
pub open spec fn nodes_captured(b0: GraphBuilder, b1: GraphBuilder, caps: Seq<Seq<Option<Seq<char>>>>, rename: Option<(Seq<char>, Seq<char>)>, language: Seq<char>, kind: Seq<char>) -> bool {
    let labels = capture_labels(caps, rename);
    let n0 = b0.graph().nodes@.len();
    &&& b1.counter() == b0.counter() + labels.len()
    &&& b1.graph().nodes@.len() == n0 + labels.len()
    &&& b1.graph().nodes@.take(n0 as int) == b0.graph().nodes@
    &&& forall|k: int|
        n0 <= k < n0 + labels.len() ==> (#[trigger] b1.graph().nodes@[k]).id@ == item_id(
            "code_"@,
            (b0.counter() + (k - n0)) as nat,
        ) && b1.graph().nodes@[k].label@ == labels[k - n0] && b1.graph().nodes@[k].node_type
            == NodeType::Code && code_properties(b1.graph().nodes@[k].properties, language, kind)
    &&& b1.graph().edges@ == b0.graph().edges@
    &&& labels.len() > 0 ==> b1.graph().metadata.node_count == b1.graph().nodes@.len()
    &&& b1.graph().metadata.edge_count == b0.graph().metadata.edge_count
    &&& b1.index() == index_insert_all(b0.index(), labels, "code_"@, b0.counter())
}

/// `b1` is `b0` after adding an edge of kind `t` from the node that
/// `source` maps to, to the node that `target` maps to, named
/// `edge_<source id>_<target id>_<n>`, when both labels are mapped; when
/// either is not, nothing changes.
pub open spec fn edge_step(b0: GraphBuilder, b1: GraphBuilder, source: Seq<char>, target: Seq<char>, t: EdgeType, properties: Option<serde_json::Value>) -> bool {
    &&& b1.graph().nodes@ == b0.graph().nodes@
    &&& b1.index() == b0.index()
    &&& match (index_lookup(b0.index(), source), index_lookup(b0.index(), target)) {
        (Some(s), Some(d)) => {
            &&& b1.counter() == b0.counter() + 1
            &&& b1.graph().edges@.len() == b0.graph().edges@.len() + 1
            &&& b1.graph().edges@.drop_last() == b0.graph().edges@
            &&& b1.graph().edges@.last().id@ == "edge_"@ + s + "_"@ + d + "_"@ + decimal(b0.counter())
            &&& b1.graph().edges@.last().source@ == s
            &&& b1.graph().edges@.last().target@ == d
            &&& b1.graph().edges@.last().edge_type == t
            &&& b1.graph().edges@.last().label is None
            &&& b1.graph().edges@.last().properties == properties
            &&& b1.graph().metadata.edge_count == b1.graph().edges@.len()
            &&& b1.graph().metadata.node_count == b0.graph().metadata.node_count
        },
        _ => b1 == b0,
    }
}

/// The node the title names once the first `k + 1` keywords are read:
/// the document node, unless one of those keywords is the title itself,
/// in which case the label was mapped anew to the last such concept node.
pub open spec fn title_node(ks: Seq<Seq<char>>, title: Seq<char>, c0: nat, k: int) -> Seq<char>
    decreases k + 1,
{
    if k < 0 {
        item_id("doc_"@, c0)
    } else if ks[k] == title {
        item_id("concept_"@, (c0 + 1 + 2 * k) as nat)
    } else {
        title_node(ks, title, c0, k - 1)
    }
}

/// `b1` is `b0` after reading a document: a document node `doc_<n>`
/// labelled by the title, then for each keyword (see
/// [`document_keywords`]) a concept node labelled by it and a `References`
/// edge to that concept node from the node the title names (see
/// [`title_node`]: the document node, unless a keyword repeats the
/// title); the node and edge counts are those of the new lists.
pub open spec fn document_read(b0: GraphBuilder, b1: GraphBuilder, content: Seq<char>, title: Seq<char>) -> bool {
    let ks = document_keywords(content);
    let n0 = b0.graph().nodes@.len();
    let e0 = b0.graph().edges@.len();
    let c0 = b0.counter();
    &&& b1.counter() == c0 + 1 + 2 * ks.len()
    &&& b1.graph().nodes@.len() == n0 + 1 + ks.len()
    &&& b1.graph().nodes@.take(n0 as int) == b0.graph().nodes@
    &&& b1.graph().nodes@[n0 as int].id@ == item_id("doc_"@, c0)
    &&& b1.graph().nodes@[n0 as int].label@ == title
    &&& b1.graph().nodes@[n0 as int].node_type == NodeType::Document
    &&& forall|k: int|
        n0 < k <= n0 + ks.len() ==> (#[trigger] b1.graph().nodes@[k]).id@ == item_id(
            "concept_"@,
            (c0 + 1 + 2 * (k - n0 - 1)) as nat,
        ) && b1.graph().nodes@[k].label@ == ks[k - n0 - 1] && b1.graph().nodes@[k].node_type
            == NodeType::Concept
    &&& b1.graph().edges@.len() == e0 + ks.len()
    &&& b1.graph().edges@.take(e0 as int) == b0.graph().edges@
    &&& forall|k: int|
        e0 <= k < e0 + ks.len() ==> (#[trigger] b1.graph().edges@[k]).target@ == item_id(
            "concept_"@,
            (c0 + 1 + 2 * (k - e0)) as nat,
        ) && b1.graph().edges@[k].edge_type == EdgeType::References && b1.graph().edges@[k].source@
            == title_node(ks, title, c0, k - e0)
    &&& b1.graph().metadata.node_count == b1.graph().nodes@.len()
    &&& ks.len() > 0 ==> b1.graph().metadata.edge_count == b1.graph().edges@.len()
    &&& ks.len() == 0 ==> b1.graph().metadata.edge_count == b0.graph().metadata.edge_count
}

/// One pass of a pattern over the code: the captures of the pattern
/// become code nodes; nothing changes when the pattern does not compile
/// or the counter would run out.
pub open spec fn pattern_pass(b0: GraphBuilder, b1: GraphBuilder, pattern: Seq<char>, code: Seq<char>, rename: Option<(Seq<char>, Seq<char>)>, language: Seq<char>, kind: Seq<char>) -> bool {
    if regex_compiles(pattern) && b0.counter() + regex_captures(pattern, code).len() <= usize::MAX {
        nodes_captured(b0, b1, regex_captures(pattern, code), rename, language, kind)
    } else {
        b1 == b0
    }
}

/// The three passes of the analysis of JavaScript or TypeScript code:
/// classes, functions, and imported modules (`/` read as `::`).
pub open spec fn javascript_passes(b0: GraphBuilder, b1: GraphBuilder, code: Seq<char>) -> bool {
    exists|x: GraphBuilder, y: GraphBuilder|
        pattern_pass(b0, x, "class\\s+(\\w+)"@, code, None, "typescript"@, "class"@) && pattern_pass(
            x,
            y,
            "(?:function\\s+(\\w+)|(?:const|let|var)\\s+(\\w+)\\s*=\\s*(?:async\\s+)?\\()"@,
            code,
            None,
            "typescript"@,
            "function"@,
        ) && pattern_pass(
            y,
            b1,
            "import\\s+(?:\\{[^}]*\\}|\\w+)\\s+from\\s+['\"]([^'\"]+)['\"]"@,
            code,
            Some(("/"@, "::"@)),
            "typescript"@,
            "module"@,
        )
}

/// The three passes of the analysis of Rust code: public structs, public
/// functions, and `use` paths (`::` read as `.`).
pub open spec fn rust_passes(b0: GraphBuilder, b1: GraphBuilder, code: Seq<char>) -> bool {
    exists|x: GraphBuilder, y: GraphBuilder|
        pattern_pass(b0, x, "pub\\s+struct\\s+(\\w+)"@, code, None, "rust"@, "struct"@) && pattern_pass(
            x,
            y,
            "pub\\s+fn\\s+(\\w+)"@,
            code,
            None,
            "rust"@,
            "function"@,
        ) && pattern_pass(y, b1, "use\\s+([^;]+);"@, code, Some(("::"@, "."@)), "rust"@, "module"@)
}

/// The three passes of the analysis of Python code: classes, functions,
/// and imported modules.
pub open spec fn python_passes(b0: GraphBuilder, b1: GraphBuilder, code: Seq<char>) -> bool {
    exists|x: GraphBuilder, y: GraphBuilder|
        pattern_pass(b0, x, "class\\s+(\\w+)"@, code, None, "python"@, "class"@) && pattern_pass(
            x,
            y,
            "def\\s+(\\w+)"@,
            code,
            None,
            "python"@,
            "function"@,
        ) && pattern_pass(y, b1, "(?:from\\s+(\\w+)\\s+import|import\\s+(\\w+))"@, code, None, "python"@, "module"@)
}

/// A capture yields at most one label.
pub proof fn lemma_capture_labels_len(caps: Seq<Seq<Option<Seq<char>>>>, rename: Option<(Seq<char>, Seq<char>)>)
    ensures
        capture_labels(caps, rename).len() <= caps.len(),
    decreases caps.len(),
{
    if caps.len() > 0 {
        lemma_capture_labels_len(caps.drop_last(), rename);
    }
}

/// The first group of a capture that took part in the match.
pub(crate) fn first_capture(groups: &Vec<Option<String>>) -> (r: Option<String>)
    ensures
        match r {
            Some(g) => first_group(groups.deep_view()) == Some(g@),
            None => first_group(groups.deep_view()) is None,
        },
{
    let ghost gs = groups.deep_view();
    let mut i: usize = 0;
    assert(gs.skip(0) =~= gs);
    while i < groups.len()
        invariant
            gs == groups.deep_view(),
            i <= gs.len(),
            first_group(gs) == first_group(gs.skip(i as int)),
        decreases gs.len() - i,
    {
        assert(gs.skip(i as int).drop_first() =~= gs.skip(i + 1));
        assert(gs[i as int] == groups@[i as int].deep_view());
        match &groups[i] {
            Some(g) => {
                return Some(g.clone());
            },
            None => {},
        }
        i = i + 1;
    }
    None
}

/// Builds a knowledge graph.
pub struct GraphBuilder {
    graph: GraphData,
    node_index: Vec<(String, String)>,
    id_counter: usize,
}

impl GraphBuilder {
    /// The graph built so far.
    pub closed spec fn graph(self) -> GraphData {
        self.graph
    }

    /// The label index: which identifier each label was last given.
    pub closed spec fn index(self) -> Seq<(Seq<char>, Seq<char>)> {
        self.node_index@.map_values(|p: (String, String)| (p.0@, p.1@))
    }

    /// How many items (nodes and edges) have been made so far; it numbers
    /// the next one.
    pub closed spec fn counter(self) -> nat {
        self.id_counter as nat
    }

    /// A builder of an empty graph.
    pub fn new() -> (b: Self)
        ensures
            b.graph().nodes@.len() == 0,
            b.graph().edges@.len() == 0,
            b.index().len() == 0,
            b.counter() == 0,
    {
        GraphBuilder { graph: GraphData::new(), node_index: Vec::new(), id_counter: 0 }
    }

    /// Maps `label` to `id` in the index.
    fn index_put(&mut self, label: String, id: String)
        ensures
            final(self).index() == index_insert(old(self).index(), label@, id@),
            final(self).graph == old(self).graph,
            final(self).id_counter == old(self).id_counter,
    {
        let ghost ix = self.index();
        let mut a: usize = 0;
        assert(ix.skip(0) =~= ix);
        assert(ix.take(0) + index_insert(ix, label@, id@) =~= index_insert(ix, label@, id@));
        while a < self.node_index.len()
            invariant
                ix == self.index(),
                self.graph == old(self).graph,
                self.id_counter == old(self).id_counter,
                self.node_index@ == old(self).node_index@,
                a <= ix.len(),
                forall|b: int| 0 <= b < a ==> ix[b].0 != label@,
                index_insert(ix, label@, id@) == ix.take(a as int) + index_insert(ix.skip(a as int), label@, id@),
            decreases ix.len() - a,
        {
            let ghost rest = ix.skip(a as int);
            assert(rest[0] == ix[a as int]);
            if str_eq(self.node_index[a].0.as_str(), label.as_str()) {
                self.node_index.set(a, (label, id));
                assert(rest.update(0, (label@, id@)) =~= seq![(label@, id@)] + rest.drop_first());
                assert(self.index() =~= ix.take(a as int) + rest.update(0, (label@, id@)));
                return;
            }
            assert(rest.drop_first() =~= ix.skip(a + 1));
            assert(ix.take(a as int) + (seq![rest[0]] + index_insert(rest.drop_first(), label@, id@))
                =~= ix.take(a + 1) + index_insert(ix.skip(a + 1), label@, id@));
            a = a + 1;
        }
        self.node_index.push((label, id));
        assert(ix.skip(a as int) =~= Seq::<(Seq<char>, Seq<char>)>::empty());
        assert(ix.take(a as int) =~= ix);
    }

    /// The identifier that `label` maps to.
    fn index_get(&self, label: &str) -> (r: Option<String>)
        ensures
            match r {
                Some(id) => index_lookup(self.index(), label@) == Some(id@),
                None => index_lookup(self.index(), label@) is None,
            },
    {
        let ghost ix = self.index();
        let mut a: usize = 0;
        assert(ix.skip(0) =~= ix);
        while a < self.node_index.len()
            invariant
                ix == self.index(),
                a <= ix.len(),
                index_lookup(ix, label@) == index_lookup(ix.skip(a as int), label@),
            decreases ix.len() - a,
        {
            assert(ix.skip(a as int).drop_first() =~= ix.skip(a + 1));
            if str_eq(self.node_index[a].0.as_str(), label) {
                return Some(self.node_index[a].1.clone());
            }
            a = a + 1;
        }
        None
    }

    /// Adds a node, named `prefix` and the counter, and maps its label.
    fn push_node(&mut self, prefix: &str, label: &str, node_type: NodeType, properties: serde_json::Value)
        requires
            old(self).counter() < usize::MAX,
        ensures
            final(self).counter() == old(self).counter() + 1,
            final(self).graph().nodes@.len() == old(self).graph().nodes@.len() + 1,
            final(self).graph().nodes@.drop_last() == old(self).graph().nodes@,
            final(self).graph().nodes@.last().id@ == item_id(prefix@, old(self).counter()),
            final(self).graph().nodes@.last().label@ == label@,
            final(self).graph().nodes@.last().node_type == node_type,
            final(self).graph().nodes@.last().properties == properties,
            final(self).graph().edges@ == old(self).graph().edges@,
            final(self).graph().metadata.node_count == final(self).graph().nodes@.len(),
            final(self).graph().metadata.edge_count == old(self).graph().metadata.edge_count,
            final(self).index() == index_insert(old(self).index(), label@, item_id(prefix@, old(self).counter())),
    {
        let id = concat(prefix, decimal_string(self.id_counter).as_str());
        self.id_counter = self.id_counter + 1;
        let node = GraphNode { id: id.clone(), label: owned(label), node_type, properties };
        let ghost n0 = self.graph.nodes@;
        self.graph.add_node(node);
        assert(self.graph.nodes@.drop_last() =~= n0);
        self.index_put(owned(label), id);
    }

    /// Adds a code node `code_<n>` labelled `name`; the file path is not
    /// kept.
    pub fn add_code_node(
        &mut self,
        name: &str,
        file_path: &str,
        node_type: NodeType,
        properties: serde_json::Value,
    ) -> (r: &mut Self)
        requires
            old(self).counter() < usize::MAX,
        ensures
            r.counter() == old(self).counter() + 1,
            r.graph().nodes@.drop_last() == old(self).graph().nodes@,
            r.graph().nodes@.len() == old(self).graph().nodes@.len() + 1,
            r.graph().nodes@.last().id@ == item_id("code_"@, old(self).counter()),
            r.graph().nodes@.last().label@ == name@,
            r.graph().nodes@.last().node_type == node_type,
            r.graph().nodes@.last().properties == properties,
            r.graph().edges@ == old(self).graph().edges@,
            r.index() == index_insert(old(self).index(), name@, item_id("code_"@, old(self).counter())),
            *final(self) == *final(r),
    {
        self.push_node("code_", name, node_type, properties);
        self
    }

    /// Adds a document node `doc_<n>` labelled `title`; the path and the
    /// content are not kept.
    pub fn add_document_node(
        &mut self,
        title: &str,
        path: &str,
        content: &str,
        properties: serde_json::Value,
    ) -> (r: &mut Self)
        requires
            old(self).counter() < usize::MAX,
        ensures
            r.counter() == old(self).counter() + 1,
            r.graph().nodes@.drop_last() == old(self).graph().nodes@,
            r.graph().nodes@.len() == old(self).graph().nodes@.len() + 1,
            r.graph().nodes@.last().id@ == item_id("doc_"@, old(self).counter()),
            r.graph().nodes@.last().label@ == title@,
            r.graph().nodes@.last().node_type == NodeType::Document,
            r.graph().nodes@.last().properties == properties,
            r.graph().edges@ == old(self).graph().edges@,
            r.graph().metadata.node_count == r.graph().nodes@.len(),
            r.graph().metadata.edge_count == old(self).graph().metadata.edge_count,
            r.index() == index_insert(old(self).index(), title@, item_id("doc_"@, old(self).counter())),
            *final(self) == *final(r),
    {
        self.push_node("doc_", title, NodeType::Document, properties);
        self
    }

    /// Adds a concept node `concept_<n>` labelled `concept`; the
    /// description is not kept.
    pub fn add_concept_node(&mut self, concept: &str, description: &str, properties: serde_json::Value) -> (r:
        &mut Self)
        requires
            old(self).counter() < usize::MAX,
        ensures
            r.counter() == old(self).counter() + 1,
            r.graph().nodes@.drop_last() == old(self).graph().nodes@,
            r.graph().nodes@.len() == old(self).graph().nodes@.len() + 1,
            r.graph().nodes@.last().id@ == item_id("concept_"@, old(self).counter()),
            r.graph().nodes@.last().label@ == concept@,
            r.graph().nodes@.last().node_type == NodeType::Concept,
            r.graph().nodes@.last().properties == properties,
            r.graph().edges@ == old(self).graph().edges@,
            r.graph().metadata.node_count == r.graph().nodes@.len(),
            r.graph().metadata.edge_count == old(self).graph().metadata.edge_count,
            r.index() == index_insert(old(self).index(), concept@, item_id("concept_"@, old(self).counter())),
            *final(self) == *final(r),
    {
        self.push_node("concept_", concept, NodeType::Concept, properties);
        self
    }

    /// Adds an edge between the nodes that the two labels map to, when
    /// both do, named `edge_<source>_<target>_<n>`; otherwise nothing
    /// changes.
    pub fn add_edge(
        &mut self,
        source_label: &str,
        target_label: &str,
        edge_type: EdgeType,
        properties: Option<serde_json::Value>,
    ) -> (r: &mut Self)
        requires
            old(self).counter() < usize::MAX,
        ensures
            edge_step(*old(self), *r, source_label@, target_label@, edge_type, properties),
            *final(self) == *final(r),
    {
        let source_id = self.index_get(source_label);
        let target_id = self.index_get(target_label);
        if let (Some(s), Some(t)) = (source_id, target_id) {
            let mut id = concat("edge_", s.as_str());
            id = concat(id.as_str(), "_");
            id = concat(id.as_str(), t.as_str());
            id = concat(id.as_str(), "_");
            id = concat(id.as_str(), decimal_string(self.id_counter).as_str());
            self.id_counter = self.id_counter + 1;
            let edge = GraphEdge { id, source: s, target: t, edge_type, label: None, properties };
            let ghost e0 = self.graph.edges@;
            self.graph.add_edge(edge);
            assert(self.graph.edges@.drop_last() =~= e0);
        }
        self
    }

    /// Adds a `Uses` edge for an import.
    pub fn add_import_edge(&mut self, source: &str, target: &str) -> (r: &mut Self)
        requires
            old(self).counter() < usize::MAX,
        ensures
            edge_step(*old(self), *r, source@, target@, EdgeType::Uses, None),
            *final(self) == *final(r),
    {
        let r = self.add_edge(source, target, EdgeType::Uses, None);
        r
    }

    /// Adds an `Extends` edge from a class to its parent.
    pub fn add_inheritance_edge(&mut self, child: &str, parent: &str) -> (r: &mut Self)
        requires
            old(self).counter() < usize::MAX,
        ensures
            edge_step(*old(self), *r, child@, parent@, EdgeType::Extends, None),
            *final(self) == *final(r),
    {
        let r = self.add_edge(child, parent, EdgeType::Extends, None);
        r
    }

    /// Adds an `Implements` edge from a class to an interface.
    pub fn add_implementation_edge(&mut self, class: &str, interface: &str) -> (r: &mut Self)
        requires
            old(self).counter() < usize::MAX,
        ensures
            edge_step(*old(self), *r, class@, interface@, EdgeType::Implements, None),
            *final(self) == *final(r),
    {
        let r = self.add_edge(class, interface, EdgeType::Implements, None);
        r
    }

    /// Adds a `References` edge from a caller to a callee.
    pub fn add_call_edge(&mut self, caller: &str, callee: &str) -> (r: &mut Self)
        requires
            old(self).counter() < usize::MAX,
        ensures
            edge_step(*old(self), *r, caller@, callee@, EdgeType::References, None),
            *final(self) == *final(r),
    {
        let r = self.add_edge(caller, callee, EdgeType::References, None);
        r
    }

    /// Adds a `References` edge between documents or concepts.
    pub fn add_reference_edge(&mut self, source: &str, target: &str) -> (r: &mut Self)
        requires
            old(self).counter() < usize::MAX,
        ensures
            edge_step(*old(self), *r, source@, target@, EdgeType::References, None),
            *final(self) == *final(r),
    {
        let r = self.add_edge(source, target, EdgeType::References, None);
        r
    }

    /// The graph built, handing the builder over.
    pub fn build(self) -> (g: GraphData)
        ensures
            g == self.graph(),
    {
        self.graph
    }

    /// The graph built so far.
    pub fn get_graph(&self) -> (g: &GraphData)
        ensures
            *g == self.graph(),
    {
        &self.graph
    }

    /// Starts again from an empty graph, index and counter.
    pub fn clear(&mut self)
        ensures
            final(self).graph().nodes@.len() == 0,
            final(self).graph().edges@.len() == 0,
            final(self).index().len() == 0,
            final(self).counter() == 0,
    {
        self.graph = GraphData::new();
        self.node_index = Vec::new();
        self.id_counter = 0;
    }

    /// Turns regular-expression captures into code nodes: for each capture
    /// with a group, a code node labelled by its first group (renamed where
    /// a renaming is given), with the language and the kind of item as its
    /// properties (see [`nodes_captured`]).
    pub fn add_captured_nodes(
        &mut self,
        captures: &Vec<Vec<Option<String>>>,
        language: &str,
        kind: &str,
        rename: Option<(&str, &str)>,
    )
        requires
            old(self).counter() + captures@.len() <= usize::MAX,
            rename matches Some((from, _)) ==> from@.len() > 0,
        ensures
            nodes_captured(*old(self), *final(self), captures.deep_view(), rename_view(rename), language@, kind@),
    {
        let ghost caps = captures.deep_view();
        let ghost rv = rename_view(rename);
        let ghost b0 = *self;
        let ghost n0 = self.graph.nodes@.len();
        let ghost c0 = self.counter();
        let mut i: usize = 0;
        proof {
            assert(caps.take(0) =~= Seq::<Seq<Option<Seq<char>>>>::empty());
            assert(self.graph.nodes@.take(n0 as int) =~= b0.graph().nodes@);
        }
        while i < captures.len()
            invariant
                caps == captures.deep_view(),
                rv == rename_view(rename),
                rename matches Some((from, _)) ==> from@.len() > 0,
                i <= caps.len(),
                c0 == b0.counter(),
                n0 == b0.graph().nodes@.len(),
                c0 + caps.len() <= usize::MAX,
                nodes_captured(b0, *self, caps.take(i as int), rv, language@, kind@),
            decreases caps.len() - i,
        {
            let ghost labels = capture_labels(caps.take(i as int), rv);
            proof {
                assert(caps.take(i + 1).drop_last() =~= caps.take(i as int));
                lemma_capture_labels_len(caps.take(i as int), rv);
            }
            let group = first_capture(&captures[i]);
            assert(captures.deep_view()[i as int] == captures@[i as int].deep_view());
            if let Some(g) = group {
                let label = match rename {
                    Some((from, to)) => str_replace(g.as_str(), from, to),
                    None => g,
                };
                let mut entries: Vec<(String, JsonScalar)> = Vec::new();
                entries.push((owned("language"), JsonScalar::Text(owned(language))));
                entries.push((owned("type"), JsonScalar::Text(owned(kind))));
                proof {
                    reveal_strlit("language");
                    reveal_strlit("type");
                    assert("language"@.len() == 8 && "type"@.len() == 4);
                    assert(entry_keys_distinct(entries@));
                    reveal_with_fuel(entries_text, 3);
                }
                let properties = json_object(entries);
                assert(code_properties(properties, language@, kind@));
                let ghost before = *self;
                self.push_node("code_", label.as_str(), NodeType::Code, properties);
                proof {
                    let nl = capture_labels(caps.take(i + 1), rv);
                    assert(nl == labels.push(label@));
                    assert(self.graph().nodes@.take(n0 as int) =~= b0.graph().nodes@) by {
                        assert(self.graph().nodes@.drop_last() == before.graph().nodes@);
                        assert(before.graph().nodes@.take(n0 as int) == b0.graph().nodes@);
                    }
                    assert forall|k: int| n0 <= k < n0 + nl.len() implies (#[trigger] self.graph().nodes@[k]).id@ == item_id(
                        "code_"@,
                        (c0 + (k - n0)) as nat,
                    ) && self.graph().nodes@[k].label@ == nl[k - n0] && self.graph().nodes@[k].node_type
                        == NodeType::Code && code_properties(self.graph().nodes@[k].properties, language@, kind@) by {
                        if k < n0 + labels.len() {
                            assert(self.graph().nodes@[k] == before.graph().nodes@[k]);
                            assert(before.graph().nodes@[k].id@ == item_id("code_"@, (c0 + (k - n0)) as nat));
                        }
                    }
                    assert(index_insert_all(b0.index(), nl, "code_"@, c0) == index_insert(
                        index_insert_all(b0.index(), labels, "code_"@, c0),
                        label@,
                        item_id("code_"@, (c0 + labels.len()) as nat),
                    )) by {
                        assert(nl.drop_last() =~= labels);
                    }
                }
            } else {
                assert(capture_labels(caps.take(i + 1), rv) == labels);
            }
            i = i + 1;
        }
        assert(caps.take(caps.len() as int) =~= caps);
    }

    /// Runs one pattern over the code and adds its captures as code nodes,
    /// unless the pattern does not compile or the counter would run out.
    fn add_pattern_nodes(
        &mut self,
        pattern: &str,
        code: &str,
        language: &str,
        kind: &str,
        rename: Option<(&str, &str)>,
    )
        requires
            rename matches Some((from, _)) ==> from@.len() > 0,
        ensures
            pattern_pass(*old(self), *final(self), pattern@, code@, rename_view(rename), language@, kind@),
    {
        if let Some(captures) = capture_groups(pattern, code) {
            if captures.len() <= usize::MAX - self.id_counter {
                self.add_captured_nodes(&captures, language, kind, rename);
            }
        }
    }

    /// Reads classes, functions and imported modules out of code in the
    /// given language (JavaScript or TypeScript, Rust, Python) as code
    /// nodes; other languages change nothing.
    pub fn analyze_code(&mut self, code: &str, language: &str) -> (r: &mut Self)
        ensures
            if language@ == "typescript"@ || language@ == "javascript"@ {
                javascript_passes(*old(self), *r, code@)
            } else if language@ == "rust"@ {
                rust_passes(*old(self), *r, code@)
            } else if language@ == "python"@ {
                python_passes(*old(self), *r, code@)
            } else {
                *r == *old(self)
            },
            *final(self) == *final(r),
    {
        if str_eq(language, "typescript") || str_eq(language, "javascript") {
            self.analyze_javascript_code(code)
        } else if str_eq(language, "rust") {
            self.analyze_rust_code(code)
        } else if str_eq(language, "python") {
            self.analyze_python_code(code)
        } else {
            self
        }
    }

    fn analyze_javascript_code(&mut self, code: &str) -> (r: &mut Self)
        ensures
            javascript_passes(*old(self), *r, code@),
            *final(self) == *final(r),
    {
        let ghost b0 = *self;
        self.add_pattern_nodes("class\\s+(\\w+)", code, "typescript", "class", None);
        let ghost x = *self;
        self.add_pattern_nodes(
            "(?:function\\s+(\\w+)|(?:const|let|var)\\s+(\\w+)\\s*=\\s*(?:async\\s+)?\\()",
            code,
            "typescript",
            "function",
            None,
        );
        let ghost y = *self;
        proof {
            reveal_strlit("/");
        }
        self.add_pattern_nodes(
            "import\\s+(?:\\{[^}]*\\}|\\w+)\\s+from\\s+['\"]([^'\"]+)['\"]",
            code,
            "typescript",
            "module",
            Some(("/", "::")),
        );
        assert(pattern_pass(b0, x, "class\\s+(\\w+)"@, code@, None, "typescript"@, "class"@));
        self
    }

    fn analyze_rust_code(&mut self, code: &str) -> (r: &mut Self)
        ensures
            rust_passes(*old(self), *r, code@),
            *final(self) == *final(r),
    {
        let ghost b0 = *self;
        self.add_pattern_nodes("pub\\s+struct\\s+(\\w+)", code, "rust", "struct", None);
        let ghost x = *self;
        self.add_pattern_nodes("pub\\s+fn\\s+(\\w+)", code, "rust", "function", None);
        let ghost y = *self;
        proof {
            reveal_strlit("::");
        }
        self.add_pattern_nodes("use\\s+([^;]+);", code, "rust", "module", Some(("::", ".")));
        assert(pattern_pass(b0, x, "pub\\s+struct\\s+(\\w+)"@, code@, None, "rust"@, "struct"@));
        self
    }

    fn analyze_python_code(&mut self, code: &str) -> (r: &mut Self)
        ensures
            python_passes(*old(self), *r, code@),
            *final(self) == *final(r),
    {
        let ghost b0 = *self;
        self.add_pattern_nodes("class\\s+(\\w+)", code, "python", "class", None);
        let ghost x = *self;
        self.add_pattern_nodes("def\\s+(\\w+)", code, "python", "function", None);
        let ghost y = *self;
        self.add_pattern_nodes(
            "(?:from\\s+(\\w+)\\s+import|import\\s+(\\w+))",
            code,
            "python",
            "module",
            None,
        );
        assert(pattern_pass(b0, x, "class\\s+(\\w+)"@, code@, None, "python"@, "class"@));
        self
    }

    /// The keywords of a document (see [`document_keywords`]).
    pub fn extract_keywords(&self, text: &str) -> (r: Vec<String>)
        ensures
            r.deep_view() == document_keywords(text@),
    {
        let words = split_words(text);
        let ghost ws = words.deep_view();
        let ghost keep = |c: char| keyword_char(c);
        let ghost strip = |w: Seq<char>| w.filter(|c: char| keyword_char(c));
        let ghost long = |w: Seq<char>| utf8_len(w) > 3;
        let mut r: Vec<String> = Vec::new();
        let mut i: usize = 0;
        while i < words.len()
            invariant
                ws == words.deep_view(),
                ws == split_whitespace(text@),
                keep == (|c: char| keyword_char(c)),
                strip == (|w: Seq<char>| w.filter(|c: char| keyword_char(c))),
                long == (|w: Seq<char>| utf8_len(w) > 3),
                i <= ws.len(),
                r.deep_view() == ws.take(i as int).map_values(strip).filter(long),
            decreases ws.len() - i,
        {
            let wc = to_chars(words[i].as_str());
            let ghost w = ws[i as int];
            assert(wc@ == w);
            let mut kept: Vec<char> = Vec::new();
            let mut j: usize = 0;
            while j < wc.len()
                invariant
                    wc@ == w,
                    keep == (|c: char| keyword_char(c)),
                    j <= w.len(),
                    kept@ == w.take(j as int).filter(keep),
                decreases w.len() - j,
            {
                proof {
                    assert(w.take(j + 1) =~= w.take(j as int).push(w[j as int]));
                    w.take(j as int).lemma_filter_push(w[j as int], keep);
                }
                let c = wc[j];
                if char_is_alphanumeric(c) || c == '_' {
                    kept.push(c);
                }
                j = j + 1;
            }
            proof {
                assert(w.take(w.len() as int) =~= w);
                assert(keep =~= (|c: char| keyword_char(c)));
                assert(kept@ == strip(w));
                let m = ws.take(i as int).map_values(strip);
                assert(ws.take(i + 1).map_values(strip) =~= m.push(strip(w)));
                m.lemma_filter_push(strip(w), long);
            }
            if utf8_len_exceeds(kept.as_slice(), 3) {
                let ghost r0 = r.deep_view();
                r.push(from_chars(kept.as_slice()));
                assert(r.deep_view() =~= r0.push(kept@));
            }
            i = i + 1;
        }
        assert(ws.take(ws.len() as int) =~= ws);
        r
    }

    /// Reads a document into the graph (see [`document_read`]): its node
    /// carries the content's byte length and word count. When the counter
    /// cannot number all the new items nothing changes.
    pub fn analyze_document(&mut self, content: &str, title: &str) -> (r: &mut Self)
        ensures
            document_read(*old(self), *r, content@, title@) || (*r == *old(self) && old(self).counter() + 1
                + 2 * document_keywords(content@).len() > usize::MAX),
            *final(self) == *final(r),
    {
        let keywords = self.extract_keywords(content);
        let ghost ks = keywords.deep_view();
        if keywords.len() > (usize::MAX - 1) / 2 || self.id_counter > usize::MAX - 1 - 2 * keywords.len() {
            return self;
        }
        let ghost b0 = *self;
        let ghost n0 = self.graph.nodes@.len();
        let ghost e0 = self.graph.edges@.len();
        let ghost c0 = self.counter();
        let word_count = split_words(content).len();
        let mut counts: Vec<(String, JsonScalar)> = Vec::new();
        counts.push((owned("content_length"), JsonScalar::Count(content.len() as u64)));
        counts.push((owned("word_count"), JsonScalar::Count(word_count as u64)));
        self.add_document_node(title, "", content, json_object(counts));
        proof {
            law_index_insert_lookup(b0.index(), title@, item_id("doc_"@, c0), title@);
            assert(self.graph().nodes@.take(n0 as int) =~= b0.graph().nodes@);
            assert(self.graph().edges@.take(e0 as int) =~= b0.graph().edges@);
        }
        let mut k: usize = 0;
        while k < keywords.len()
            invariant
                ks == keywords.deep_view(),
                ks == document_keywords(content@),
                c0 == b0.counter(),
                n0 == b0.graph().nodes@.len(),
                e0 == b0.graph().edges@.len(),
                c0 + 1 + 2 * ks.len() <= usize::MAX,
                k <= ks.len(),
                self.counter() == c0 + 1 + 2 * k,
                index_lookup(self.index(), title@) == Some(title_node(ks, title@, c0 as nat, k - 1)),
                self.graph().metadata.node_count == self.graph().nodes@.len(),
                k > 0 ==> self.graph().metadata.edge_count == self.graph().edges@.len(),
                k == 0 ==> self.graph().metadata.edge_count == b0.graph().metadata.edge_count,
                self.graph().nodes@.len() == n0 + 1 + k,
                self.graph().nodes@.take(n0 as int) == b0.graph().nodes@,
                self.graph().nodes@[n0 as int].id@ == item_id("doc_"@, c0),
                self.graph().nodes@[n0 as int].label@ == title@,
                self.graph().nodes@[n0 as int].node_type == NodeType::Document,
                forall|x: int|
                    n0 < x <= n0 + k ==> (#[trigger] self.graph().nodes@[x]).id@ == item_id(
                        "concept_"@,
                        (c0 + 1 + 2 * (x - n0 - 1)) as nat,
                    ) && self.graph().nodes@[x].label@ == ks[x - n0 - 1] && self.graph().nodes@[x].node_type
                        == NodeType::Concept,
                self.graph().edges@.len() == e0 + k,
                self.graph().edges@.take(e0 as int) == b0.graph().edges@,
                forall|x: int|
                    e0 <= x < e0 + k ==> (#[trigger] self.graph().edges@[x]).target@ == item_id(
                        "concept_"@,
                        (c0 + 1 + 2 * (x - e0)) as nat,
                    ) && self.graph().edges@[x].edge_type == EdgeType::References
                        && self.graph().edges@[x].source@ == title_node(ks, title@, c0 as nat, x - e0),
            decreases ks.len() - k,
        {
            let ghost before = *self;
            let ghost cid = item_id("concept_"@, self.counter());
            let mut props: Vec<(String, JsonScalar)> = Vec::new();
            props.push((owned("source"), JsonScalar::Text(owned("document"))));
            props.push((owned("source_document"), JsonScalar::Text(owned(title))));
            self.add_concept_node(keywords[k].as_str(), "", json_object(props));
            let ghost mid = *self;
            proof {
                law_index_insert_lookup(before.index(), ks[k as int], cid, title@);
                law_index_insert_lookup(before.index(), ks[k as int], cid, ks[k as int]);
                assert(mid.graph().nodes@.take(n0 as int) =~= b0.graph().nodes@) by {
                    assert(mid.graph().nodes@.drop_last() == before.graph().nodes@);
                }
                assert forall|x: int| n0 <= x < n0 + 1 + k implies #[trigger] mid.graph().nodes@[x] == before.graph().nodes@[x] by {
                    assert(mid.graph().nodes@.drop_last() == before.graph().nodes@);
                }
            }
            self.add_reference_edge(title, keywords[k].as_str());
            proof {
                assert(self.graph().nodes@ == mid.graph().nodes@);
                assert(self.graph().edges@.drop_last() == before.graph().edges@);
                assert(self.graph().edges@.take(e0 as int) =~= b0.graph().edges@) by {
                    assert(before.graph().edges@.take(e0 as int) == b0.graph().edges@);
                }
                assert forall|x: int| e0 <= x < e0 + k implies #[trigger] self.graph().edges@[x] == before.graph().edges@[x] by {}
                assert(self.graph().nodes@[n0 as int] == before.graph().nodes@[n0 as int]);
            }
            k = k + 1;
        }
        proof {
            assert(document_read(b0, *self, content@, title@));
        }
        self
    }
}

impl Default for GraphBuilder {
    fn default() -> (b: Self)
        ensures
            b.graph().nodes@.len() == 0,
            b.graph().edges@.len() == 0,
            b.index().len() == 0,
            b.counter() == 0,
    {
        Self::new()
    }
}

/// Every keyword of a document is made of letters, digits and
/// underscores only (punctuation is stripped), and is longer than three
/// bytes.
pub proof fn law_document_keywords_are_words(text: Seq<char>)
    ensures
        forall|i: int, j: int|
            0 <= i < document_keywords(text).len() && 0 <= j < document_keywords(text)[i].len() ==> {
                let c = #[trigger] document_keywords(text)[i][j];
                alphanumeric(c) || c == '_'
            },
        forall|i: int| 0 <= i < document_keywords(text).len() ==> utf8_len(#[trigger] document_keywords(text)[i]) > 3,
{
    let keep = |c: char| keyword_char(c);
    let strip = |w: Seq<char>| w.filter(keep);
    let long = |w: Seq<char>| utf8_len(w) > 3;
    let words = split_whitespace(text).map_values(strip);
    assert(document_keywords(text) == words.filter(long)) by {
        assert(strip =~= (|w: Seq<char>| w.filter(|c: char| keyword_char(c))));
    }
    assert forall|i: int, j: int|
        0 <= i < document_keywords(text).len() && 0 <= j < document_keywords(text)[i].len() implies {
            let c = #[trigger] document_keywords(text)[i][j];
            alphanumeric(c) || c == '_'
        } by {
        let ks = words.filter(long);
        assert(ks.contains(ks[i]));
        words.lemma_filter_contains_rev(long, ks[i]);
        assert(words.contains(ks[i]));
        let m = choose|m: int| 0 <= m < words.len() && words[m] == ks[i];
        let w = split_whitespace(text)[m];
        assert(words[m] == w.filter(keep));
        w.lemma_filter_pred(keep, j);
    }
    assert forall|i: int| 0 <= i < document_keywords(text).len() implies utf8_len(
        #[trigger] document_keywords(text)[i],
    ) > 3 by {
        words.lemma_filter_pred(long, i);
    }
}

/// Reading a document adds concept nodes whose labels are made of
/// letters, digits and underscores only.
pub proof fn law_document_concepts_are_words(b0: GraphBuilder, b1: GraphBuilder, content: Seq<char>, title: Seq<char>)
    requires
        document_read(b0, b1, content, title),
    ensures
        forall|k: int, j: int|
            b0.graph().nodes@.len() < k < b1.graph().nodes@.len() && 0 <= j < b1.graph().nodes@[k].label@.len()
                ==> {
                let c = #[trigger] b1.graph().nodes@[k].label@[j];
                alphanumeric(c) || c == '_'
            },
        forall|k: int|
            b0.graph().nodes@.len() < k < b1.graph().nodes@.len() ==> (#[trigger] b1.graph().nodes@[k]).node_type
                == NodeType::Concept,
{
    law_document_keywords_are_words(content);
    let n0 = b0.graph().nodes@.len();
    let ks = document_keywords(content);
    assert forall|k: int, j: int|
        n0 < k < b1.graph().nodes@.len() && 0 <= j < b1.graph().nodes@[k].label@.len() implies {
            let c = #[trigger] b1.graph().nodes@[k].label@[j];
            alphanumeric(c) || c == '_'
        } by {
        assert(b1.graph().nodes@[k].label@ == ks[k - n0 - 1]);
        assert(ks[k - n0 - 1][j] == b1.graph().nodes@[k].label@[j]);
    }
    assert forall|k: int| n0 < k < b1.graph().nodes@.len() implies (#[trigger] b1.graph().nodes@[k]).node_type
        == NodeType::Concept by {
        assert(b1.graph().nodes@[k].node_type == NodeType::Concept);
    }
}

/// No word of a document is lost: every white-space separated word whose
/// letters, digits and underscores make more than three bytes gives that
/// stripped word as a keyword.
pub proof fn law_document_keeps_long_words(text: Seq<char>, i: int)
    requires
        0 <= i < split_whitespace(text).len(),
        utf8_len(split_whitespace(text)[i].filter(|c: char| alphanumeric(c) || c == '_')) > 3,
    ensures
        document_keywords(text).contains(split_whitespace(text)[i].filter(|c: char| alphanumeric(c) || c == '_')),
{
    let keep = |c: char| keyword_char(c);
    let strip = |w: Seq<char>| w.filter(keep);
    let long = |w: Seq<char>| utf8_len(w) > 3;
    let words = split_whitespace(text).map_values(strip);
    assert(document_keywords(text) == words.filter(long)) by {
        assert(strip =~= (|w: Seq<char>| w.filter(|c: char| keyword_char(c))));
    }
    assert(keep =~= (|c: char| alphanumeric(c) || c == '_'));
    assert(words[i] == split_whitespace(text)[i].filter(|c: char| alphanumeric(c) || c == '_'));
    words.lemma_filter_contains(long, i);
}

} // verus!
