//! Filtering symbols of a graph, and neighbourhoods of a symbol.
use vstd::prelude::*;
use crate::symbol::{NodeId, SymbolKind, SymbolNode, SymbolView, Language};
use crate::relation::Edge;
use crate::graph::{CodeGraph, views, leaves, arrives, ids_distinct};
use crate::graph::contains_id;
use crate::text::{chars_of, contains, contains_chars};

verus! {

broadcast use vstd::seq_lib::group_seq_properties;

/// Builder for filtering the symbols of a graph.
pub struct GraphQuery<'a> {
    graph: &'a CodeGraph,
    kind_filter: Option<SymbolKind>,
    language_filter: Option<Language>,
    file_filter: Option<String>,
    name_filter: Option<String>,
}

/// A symbol passes every filter that is set: equal kind, equal language, file
/// path containing the file filter, name containing the name filter.
pub open spec fn passes(
    kind: Option<SymbolKind>,
    lang: Option<Language>,
    file: Option<Seq<char>>,
    name: Option<Seq<char>>,
) -> spec_fn(SymbolView) -> bool {
    |n: SymbolView|
        {
            &&& (kind matches Some(k) ==> n.kind == k)
            &&& (lang matches Some(l) ==> n.language == l)
            &&& (file matches Some(f) ==> contains(n.file_path, f))
            &&& (name matches Some(m) ==> contains(n.name, m))
        }
}

impl<'a> GraphQuery<'a> {
    pub closed spec fn spec_graph(&self) -> &'a CodeGraph {
        self.graph
    }

    pub closed spec fn spec_kind(&self) -> Option<SymbolKind> {
        self.kind_filter
    }

    pub closed spec fn spec_language(&self) -> Option<Language> {
        self.language_filter
    }

    pub closed spec fn spec_file(&self) -> Option<Seq<char>> {
        crate::symbol::opt_view(self.file_filter)
    }

    pub closed spec fn spec_name(&self) -> Option<Seq<char>> {
        crate::symbol::opt_view(self.name_filter)
    }

    /// A query over `graph` with no filter set.
    pub fn new(graph: &'a CodeGraph) -> (q: GraphQuery<'a>)
        ensures
            q.spec_graph() == graph,
            q.spec_kind() is None,
            q.spec_language() is None,
            q.spec_file() is None,
            q.spec_name() is None,
    {
        GraphQuery {
            graph,
            kind_filter: None,
            language_filter: None,
            file_filter: None,
            name_filter: None,
        }
    }

    /// Keeps only symbols of kind `kind`.
    pub fn kind(self, kind: SymbolKind) -> (q: GraphQuery<'a>)
        ensures
            q.spec_graph() == self.spec_graph(),
            q.spec_kind() == Some(kind),
            q.spec_language() == self.spec_language(),
            q.spec_file() == self.spec_file(),
            q.spec_name() == self.spec_name(),
    {
        GraphQuery { kind_filter: Some(kind), ..self }
    }

    /// Keeps only symbols of language `lang`.
    pub fn language(self, lang: Language) -> (q: GraphQuery<'a>)
        ensures
            q.spec_graph() == self.spec_graph(),
            q.spec_kind() == self.spec_kind(),
            q.spec_language() == Some(lang),
            q.spec_file() == self.spec_file(),
            q.spec_name() == self.spec_name(),
    {
        GraphQuery { language_filter: Some(lang), ..self }
    }

    /// Keeps only symbols whose file path contains `path`.
    pub fn file(self, path: &str) -> (q: GraphQuery<'a>)
        ensures
            q.spec_graph() == self.spec_graph(),
            q.spec_kind() == self.spec_kind(),
            q.spec_language() == self.spec_language(),
            q.spec_file() == Some(path@),
            q.spec_name() == self.spec_name(),
    {
        GraphQuery { file_filter: Some(path.to_owned()), ..self }
    }

    /// Keeps only symbols whose name contains `name`.
    pub fn name(self, name: &str) -> (q: GraphQuery<'a>)
        ensures
            q.spec_graph() == self.spec_graph(),
            q.spec_kind() == self.spec_kind(),
            q.spec_language() == self.spec_language(),
            q.spec_file() == self.spec_file(),
            q.spec_name() == Some(name@),
    {
        GraphQuery { name_filter: Some(name.to_owned()), ..self }
    }

    /// The symbols that pass every filter, in graph order; each once in a
    /// well-formed graph.
    pub fn execute(&self) -> (r: Vec<&'a SymbolNode>)
        ensures
            r@.map_values(|n: &SymbolNode| n@) == self.spec_graph().node_views().filter(
                passes(self.spec_kind(), self.spec_language(), self.spec_file(), self.spec_name()),
            ),
            self.spec_graph().wf() ==> ids_distinct(r@.map_values(|n: &SymbolNode| n@)),
    {
        let g = self.graph;
        let ghost p = passes(self.spec_kind(), self.spec_language(), self.spec_file(), self.spec_name());
        let ghost nv = g.node_views();
        let ff = match &self.file_filter {
            Some(f) => Some(chars_of(f.as_str())),
            None => None,
        };
        let nf = match &self.name_filter {
            Some(f) => Some(chars_of(f.as_str())),
            None => None,
        };
        let mut r: Vec<&'a SymbolNode> = Vec::new();
        let mut i: usize = 0;
        while i < g.nodes.len()
            invariant
                i <= g.nodes@.len(),
                nv == g.node_views(),
                g == self.spec_graph(),
                p == passes(self.spec_kind(), self.spec_language(), self.spec_file(), self.spec_name()),
                ff matches Some(f) ==> self.spec_file() == Some(f@),
                ff is None ==> self.spec_file() is None,
                nf matches Some(f) ==> self.spec_name() == Some(f@),
                nf is None ==> self.spec_name() is None,
                r@.map_values(|n: &SymbolNode| n@) == nv.take(i as int).filter(p),
            decreases g.nodes@.len() - i,
        {
            let n = &g.nodes[i];
            let ghost t = nv.take(i as int);
            proof {
                assert(nv.take(i as int + 1) =~= t.push(n@));
                t.lemma_filter_push(n@, p);
            }
            let mut ok = true;
            if let Some(k) = self.kind_filter {
                if n.kind != k {
                    ok = false;
                }
            }
            if let Some(l) = self.language_filter {
                if n.language != l {
                    ok = false;
                }
            }
            if let Some(f) = &ff {
                let fc = chars_of(n.file_path.as_str());
                if !contains_chars(&fc, f) {
                    ok = false;
                }
            }
            if let Some(f) = &nf {
                let nc = chars_of(n.name.as_str());
                if !contains_chars(&nc, f) {
                    ok = false;
                }
            }
            proof {
                assert(ok == p(n@));
            }
            if ok {
                let ghost r0 = r@.map_values(|n: &SymbolNode| n@);
                r.push(n);
                proof {
                    assert(r@.map_values(|n: &SymbolNode| n@) =~= r0.push(n@));
                }
            }
            i = i + 1;
        }
        proof {
            assert(nv.take(g.nodes@.len() as int) =~= nv);
            if g.wf() {
                crate::graph::lemma_filter_keeps_distinct(nv, p);
            }
        }
        r
    }
}

/// Symbols whose name contains `name`.
pub open spec fn name_contains(name: Seq<char>) -> spec_fn(SymbolView) -> bool {
    |n: SymbolView| contains(n.name, name)
}

proof fn lemma_filter_and(s: Seq<SymbolView>, p: spec_fn(SymbolView) -> bool, q: spec_fn(SymbolView) -> bool, pq: spec_fn(SymbolView) -> bool)
    requires
        forall|n: SymbolView| #[trigger] pq(n) == (p(n) && q(n)),
    ensures
        s.filter(pq) == s.filter(p).filter(q),
    decreases s.len(),
{
    reveal(Seq::filter);
    if s.len() > 0 {
        lemma_filter_and(s.drop_last(), p, q, pq);
        let f = s.drop_last().filter(p);
        if p(s.last()) {
            assert(f.push(s.last()).filter(q) =~= if q(s.last()) { f.filter(q).push(s.last()) } else { f.filter(q) }) by {
                f.lemma_filter_push(s.last(), q);
            }
        }
    }
}

/// The name filter narrows what the other filters keep to the symbols whose
/// name contains it (a case-sensitive substring test); setting it again
/// replaces it, as `name` states, so only the last name counts.
pub proof fn lemma_name_filter_narrows(
    nodes: Seq<SymbolView>,
    kind: Option<SymbolKind>,
    lang: Option<Language>,
    file: Option<Seq<char>>,
    name: Seq<char>,
)
    ensures
        nodes.filter(passes(kind, lang, file, Some(name))) == nodes.filter(passes(kind, lang, file, None)).filter(
            name_contains(name),
        ),
{
    lemma_filter_and(nodes, passes(kind, lang, file, None), name_contains(name), passes(kind, lang, file, Some(name)));
}

// ---------------------------------------------------------------------------
// Neighbourhoods.
// ---------------------------------------------------------------------------

/// One hop from `u` reaches `v`: along an edge leaving `u` to its target, or
/// back along an edge arriving at `u` to its source.
pub open spec fn step(edges: Seq<Edge>, u: NodeId, v: NodeId) -> bool {
    exists|e: Edge|
        #![trigger edges.contains(e)]
        edges.contains(e) && ((e.source == u && e.target == v) || (e.target == u && e.source == v))
}

/// The nodes one hop from `u`: the targets of the edges leaving it, then the
/// sources of the edges arriving at it.
fn hop_targets(graph: &CodeGraph, u: NodeId) -> (r: Vec<NodeId>)
    ensures
        forall|k: int| 0 <= k < r@.len() ==> step(graph.edges@, u, #[trigger] r@[k]),
        forall|v: NodeId| step(graph.edges@, u, v) ==> #[trigger] r@.contains(v),
{
    let ghost es = graph.edges@;
    let out = graph.outgoing(u);
    let inc = graph.incoming(u);
    let mut r: Vec<NodeId> = Vec::new();
    let mut i: usize = 0;
    while i < out.len()
        invariant
            i <= out@.len(),
            es == graph.edges@,
            out@ == es.filter(leaves(u)),
            r@.len() == i,
            forall|k: int| 0 <= k < i ==> r@[k] == (#[trigger] out@[k]).target,
        decreases out@.len() - i,
    {
        r.push(out[i].target);
        i = i + 1;
    }
    let n_out = r.len();
    let mut j: usize = 0;
    while j < inc.len()
        invariant
            j <= inc@.len(),
            es == graph.edges@,
            out@ == es.filter(leaves(u)),
            inc@ == es.filter(arrives(u)),
            n_out == out@.len(),
            r@.len() == n_out + j,
            forall|k: int| 0 <= k < n_out ==> r@[k] == (#[trigger] out@[k]).target,
            forall|k: int| 0 <= k < j ==> r@[n_out + k] == (#[trigger] inc@[k]).source,
        decreases inc@.len() - j,
    {
        r.push(inc[j].source);
        j = j + 1;
    }
    proof {
        assert forall|k: int| 0 <= k < r@.len() implies step(es, u, #[trigger] r@[k]) by {
            if k < n_out {
                let e = out@[k];
                es.lemma_filter_pred(leaves(u), k);
                assert(es.filter(leaves(u)).contains(e));
                lemma_filter_member(es, leaves(u), e);
                assert(es.contains(e) && e.source == u && e.target == r@[k]);
            } else {
                let e = inc@[k - n_out];
                es.lemma_filter_pred(arrives(u), k - n_out);
                assert(es.filter(arrives(u)).contains(e));
                lemma_filter_member(es, arrives(u), e);
                assert(es.contains(e) && e.target == u && e.source == r@[k]);
            }
        }
        assert forall|v: NodeId| step(es, u, v) implies #[trigger] r@.contains(v) by {
            let e = choose|e: Edge|
                #![trigger es.contains(e)]
                es.contains(e) && ((e.source == u && e.target == v) || (e.target == u && e.source == v));
            let idx = es.index_of(e);
            if e.source == u && e.target == v {
                es.lemma_filter_contains(leaves(u), idx);
                let k = out@.index_of(e);
                assert(r@[k] == v);
            } else {
                es.lemma_filter_contains(arrives(u), idx);
                let k = inc@.index_of(e);
                assert(r@[n_out + k] == v);
            }
        }
    }
    r
}

/// `v` is reached from `start` in at most `k` hops.
pub open spec fn in_reach(edges: Seq<Edge>, start: NodeId, k: nat, v: NodeId) -> bool
    decreases k, 0nat,
{
    if k == 0 {
        v == start
    } else {
        in_reach(edges, start, (k - 1) as nat, v) || one_more_hop(edges, start, (k - 1) as nat, v)
    }
}

/// `v` is one hop from some node reached in at most `k` hops.
pub open spec fn one_more_hop(edges: Seq<Edge>, start: NodeId, k: nat, v: NodeId) -> bool
    decreases k, 1nat,
{
    exists|u: NodeId| #![trigger step(edges, u, v)] in_reach(edges, start, k, u) && step(edges, u, v)
}

/// All symbols within `depth` hops of `start` (the start included), each once;
/// a hop follows an edge either way.
#[verifier::spinoff_prover]
pub fn neighbors(graph: &CodeGraph, start: NodeId, depth: usize) -> (r: Vec<NodeId>)
    ensures
        r@.no_duplicates(),
        forall|v: NodeId| #[trigger] r@.contains(v) <==> in_reach(graph.edges@, start, depth as nat, v),
{
    let ghost es = graph.edges@;
    let mut visited: Vec<NodeId> = vec![start];
    let mut frontier: Vec<NodeId> = vec![start];
    proof {
        assert(visited@ =~= seq![start]);
        assert(frontier@ =~= seq![start]);
        assert forall|v: NodeId| #[trigger] visited@.contains(v) <==> in_reach(es, start, 0, v) by {
            if v == start {
                assert(visited@[0] == v);
            }
        }
    }
    let mut level: usize = 0;
    while level < depth
        invariant
            level <= depth,
            es == graph.edges@,
            visited@.no_duplicates(),
            forall|v: NodeId| #[trigger] visited@.contains(v) <==> in_reach(es, start, level as nat, v),
            forall|v: NodeId| #[trigger] frontier@.contains(v) ==> in_reach(es, start, level as nat, v),
            forall|u: NodeId|
                #[trigger] in_reach(es, start, level as nat, u) ==> frontier@.contains(u) || (level > 0
                    && in_reach(es, start, (level - 1) as nat, u)),
        decreases depth - level,
    {
        let ghost lv = level as nat;
        let mut next: Vec<NodeId> = Vec::new();
        let mut fi: usize = 0;
        while fi < frontier.len()
            invariant
                fi <= frontier@.len(),
                es == graph.edges@,
                visited@.no_duplicates(),
                forall|v: NodeId| #[trigger] frontier@.contains(v) ==> in_reach(es, start, lv, v),
                forall|v: NodeId|
                    #[trigger] visited@.contains(v) <==> (in_reach(es, start, lv, v) || exists|j: int|
                        0 <= j < fi && step(es, #[trigger] frontier@[j], v)),
                forall|v: NodeId|
                    #[trigger] next@.contains(v) ==> in_reach(es, start, lv + 1, v),
                forall|v: NodeId|
                    #[trigger] visited@.contains(v) && !in_reach(es, start, lv, v) ==> next@.contains(v),
                lv == level as nat,
                forall|u: NodeId|
                    #[trigger] in_reach(es, start, lv, u) ==> frontier@.contains(u) || (lv > 0
                        && in_reach(es, start, (lv - 1) as nat, u)),
            decreases frontier@.len() - fi,
        {
            let u = frontier[fi];
            proof {
                assert(frontier@.contains(u));
            }
            let cand = hop_targets(graph, u);
            let mut ei: usize = 0;
            while ei < cand.len()
                invariant
                    ei <= cand@.len(),
                    fi < frontier@.len(),
                    u == frontier@[fi as int],
                    es == graph.edges@,
                    in_reach(es, start, lv, u),
                    visited@.no_duplicates(),
                    forall|k: int| 0 <= k < cand@.len() ==> step(es, u, #[trigger] cand@[k]),
                    forall|v: NodeId|
                        #[trigger] visited@.contains(v) <==> (in_reach(es, start, lv, v) || (exists|j: int|
                            0 <= j < fi && step(es, #[trigger] frontier@[j], v)) || (exists|k: int|
                            0 <= k < ei && #[trigger] cand@[k] == v)),
                    forall|v: NodeId| #[trigger] next@.contains(v) ==> in_reach(es, start, lv + 1, v),
                    forall|v: NodeId|
                        #[trigger] visited@.contains(v) && !in_reach(es, start, lv, v) ==> next@.contains(v),
                decreases cand@.len() - ei,
            {
                let v = cand[ei];
                proof {
                    assert(step(es, u, v));
                    lemma_reach_step(es, start, lv, u, v);
                }
                if !contains_id(&visited, v) {
                    let ghost v0 = visited@;
                    let ghost n0 = next@;
                    visited.push(v);
                    next.push(v);
                    proof {
                        assert forall|a: int, b: int| 0 <= a < visited@.len() && 0 <= b < visited@.len() && a != b implies visited@[a] != visited@[b] by {
                            if a < v0.len() && b < v0.len() {
                            } else if a == v0.len() {
                                assert(v0.contains(visited@[b]) || b == v0.len());
                            } else {
                                assert(v0.contains(visited@[a]) || a == v0.len());
                            }
                        }
                        assert forall|w: NodeId| #[trigger] visited@.contains(w) implies (w == v || v0.contains(w)) by {
                            let k = visited@.index_of(w);
                            if k < v0.len() {
                                assert(v0[k] == w);
                            }
                        }
                        assert forall|w: NodeId| #[trigger] next@.contains(w) implies (w == v || n0.contains(w)) by {
                            let k = next@.index_of(w);
                            if k < n0.len() {
                                assert(n0[k] == w);
                            }
                        }
                        assert(visited@[visited@.len() - 1] == v);
                        assert(next@[next@.len() - 1] == v);
                        assert forall|w: NodeId| #[trigger] n0.contains(w) implies next@.contains(w) by {
                            let k = n0.index_of(w);
                            assert(next@[k] == w);
                        }
                        assert forall|w: NodeId| #[trigger] v0.contains(w) implies visited@.contains(w) by {
                            let k = v0.index_of(w);
                            assert(visited@[k] == w);
                        }
                    }
                }
                proof {
                    assert(cand@[ei as int] == v);
                }
                ei = ei + 1;
            }
            proof {
                assert forall|v: NodeId| #[trigger] visited@.contains(v) <==> (in_reach(es, start, lv, v) || exists|j: int|
                    0 <= j < fi + 1 && step(es, #[trigger] frontier@[j], v)) by {
                    if visited@.contains(v) && !in_reach(es, start, lv, v) {
                        if exists|j: int| 0 <= j < fi && step(es, #[trigger] frontier@[j], v) {
                        } else {
                            let k = choose|k: int| 0 <= k < cand@.len() && #[trigger] cand@[k] == v;
                            assert(step(es, frontier@[fi as int], v));
                        }
                    }
                    if exists|j: int| 0 <= j < fi + 1 && step(es, #[trigger] frontier@[j], v) {
                        let j = choose|j: int| 0 <= j < fi + 1 && step(es, #[trigger] frontier@[j], v);
                        if j == fi {
                            assert(cand@.contains(v));
                            let k = cand@.index_of(v);
                            assert(cand@[k] == v);
                        }
                    }
                }
            }
            fi = fi + 1;
        }
        proof {
            assert forall|v: NodeId| #[trigger] visited@.contains(v) <==> in_reach(es, start, lv + 1, v) by {
                if in_reach(es, start, lv + 1, v) && !in_reach(es, start, lv, v) {
                    assert(((lv + 1) - 1) as nat == lv);
                    assert(one_more_hop(es, start, lv, v));
                    let u = choose|u: NodeId| #![trigger step(es, u, v)] in_reach(es, start, lv, u) && step(es, u, v);
                    if frontier@.contains(u) {
                        let j = choose|j: int| 0 <= j < frontier@.len() && frontier@[j] == u;
                        assert(step(es, frontier@[j], v));
                    } else {
                        assert(lv > 0 && in_reach(es, start, (lv - 1) as nat, u));
                        lemma_reach_step(es, start, (lv - 1) as nat, u, v);
                        assert((lv - 1) as nat + 1 == lv);
                    }
                }
                if visited@.contains(v) && !in_reach(es, start, lv, v) {
                    let j = choose|j: int| 0 <= j < frontier@.len() && step(es, #[trigger] frontier@[j], v);
                    assert(frontier@.contains(frontier@[j]));
                    assert(in_reach(es, start, lv, frontier@[j]));
                    lemma_reach_step(es, start, lv, frontier@[j], v);
                }
            }
            assert forall|u: NodeId| #[trigger] in_reach(es, start, lv + 1, u) implies next@.contains(u) || in_reach(es, start, lv, u) by {
                if in_reach(es, start, lv + 1, u) && !in_reach(es, start, lv, u) {
                    assert(visited@.contains(u));
                }
            }
        }
        frontier = next;
        level = level + 1;
        proof {
            assert(level as nat == lv + 1);
            assert forall|u: NodeId| #[trigger] in_reach(es, start, level as nat, u) implies frontier@.contains(u) || (
            level > 0 && in_reach(es, start, (level - 1) as nat, u)) by {
                assert(in_reach(es, start, lv + 1, u));
                assert((level - 1) as nat == lv);
            }
        }
    }
    visited
}

proof fn lemma_reach_step(edges: Seq<Edge>, start: NodeId, k: nat, u: NodeId, v: NodeId)
    requires
        in_reach(edges, start, k, u),
        step(edges, u, v),
    ensures
        in_reach(edges, start, k + 1, v),
{
    assert(in_reach(edges, start, k, u) && step(edges, u, v));
    assert(one_more_hop(edges, start, k, v)) by {
        reveal_with_fuel(one_more_hop, 2);
    }
    assert(((k + 1) - 1) as nat == k);
    reveal_with_fuel(in_reach, 2);
}

proof fn lemma_filter_member(s: Seq<Edge>, p: spec_fn(Edge) -> bool, e: Edge)
    requires
        s.filter(p).contains(e),
    ensures
        s.contains(e),
        p(e),
    decreases s.len(),
{
    reveal(Seq::filter);
    if s.len() > 0 {
        let d = s.drop_last();
        let f = d.filter(p);
        if p(s.last()) && e == s.last() {
            assert(s[s.len() - 1] == e);
        } else {
            if p(s.last()) {
                let k = s.filter(p).index_of(e);
                assert(k < f.len());
                assert(f[k] == e);
            }
            assert(f.contains(e));
            lemma_filter_member(d, p, e);
            let k = d.index_of(e);
            assert(s[k] == e);
        }
    }
}

} // verus!
