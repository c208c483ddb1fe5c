//! Cross-file resolution: turns raw edges (targets by name) into edges between
//! known symbols.
use vstd::prelude::*;
use crate::symbol::{NodeId, SymbolView};
use crate::relation::{Edge, EdgeKind, RawEdge, RawEdgeView};
use crate::graph::{CodeGraph, views, raw_views, has_id, distinct_paths, distinct_languages};
use crate::text::{
    after_last, before_first, trim_ws, after_last_chars, before_first_chars, trim_chars,
    eq_chars, chars_of, rfind_from, rfind, occurs_at,
};
use crate::num::parse_unsigned;

verus! {

broadcast use vstd::seq_lib::group_seq_properties;

/// The last `::`-separated segment of a name.
pub open spec fn last_colon_segment(name: Seq<char>) -> Seq<char> {
    after_last(name, "::"@)
}

/// The last `.`-separated segment of a name.
pub open spec fn last_dot_segment(name: Seq<char>) -> Seq<char> {
    after_last(name, "."@)
}

/// A symbol is found under its full name, and under its last `::` or `.`
/// segment where that differs from the full name.
pub open spec fn indexed_under(name: Seq<char>, key: Seq<char>) -> bool {
    key == name || (last_colon_segment(name) != name && key == last_colon_segment(name)) || (
    last_dot_segment(name) != name && key == last_dot_segment(name))
}

pub open spec fn under_key(key: Seq<char>) -> spec_fn(SymbolView) -> bool {
    |n: SymbolView| indexed_under(n.name, key)
}

/// The identifiers found under `key`, in symbol order.
pub open spec fn lookup(nodes: Seq<SymbolView>, key: Seq<char>) -> Seq<NodeId> {
    nodes.filter(under_key(key)).map_values(|n: SymbolView| n.id)
}

/// Targets of a call: the exact name, else the name with its `::` namespace
/// prefix stripped (its last `::` segment), else the bare name (its last `.`
/// segment).
pub open spec fn call_targets(nodes: Seq<SymbolView>, t: Seq<char>) -> Seq<NodeId> {
    let dot = last_dot_segment(t);
    let colon = last_colon_segment(t);
    if lookup(nodes, t).len() > 0 {
        lookup(nodes, t)
    } else if colon != t && lookup(nodes, colon).len() > 0 {
        lookup(nodes, colon)
    } else if dot != t && lookup(nodes, dot).len() > 0 {
        lookup(nodes, dot)
    } else {
        seq![]
    }
}

/// Targets of an import: the exact path, else its last `::` segment.
pub open spec fn import_targets(nodes: Seq<SymbolView>, t: Seq<char>) -> Seq<NodeId> {
    let colon = last_colon_segment(t);
    if lookup(nodes, t).len() > 0 {
        lookup(nodes, t)
    } else if colon != t && lookup(nodes, colon).len() > 0 {
        lookup(nodes, colon)
    } else {
        seq![]
    }
}

/// A type name without generic arguments and surrounding whitespace.
pub open spec fn clean_type(t: Seq<char>) -> Seq<char> {
    trim_ws(before_first(t, "<"@))
}

/// Targets of a type reference: the cleaned name, else its last `::` segment.
pub open spec fn type_targets(nodes: Seq<SymbolView>, t: Seq<char>) -> Seq<NodeId> {
    let clean = clean_type(t);
    let colon = last_colon_segment(clean);
    if lookup(nodes, clean).len() > 0 {
        lookup(nodes, clean)
    } else if colon != clean && lookup(nodes, colon).len() > 0 {
        lookup(nodes, colon)
    } else {
        seq![]
    }
}

/// One edge of kind `kind` from `source` to each target.
pub open spec fn edges_to(source: NodeId, targets: Seq<NodeId>, kind: EdgeKind, line: u32) -> Seq<
    Edge,
> {
    targets.map_values(|t: NodeId| Edge { source, target: t, kind, source_line: line })
}

/// The edges that one raw edge resolves to.
pub open spec fn resolve_one(nodes: Seq<SymbolView>, r: RawEdgeView) -> Seq<Edge> {
    match r.kind {
        EdgeKind::Contains => match parse_unsigned(r.target_name, 16, u64::MAX as int) {
            Some(v) => if has_id(nodes, NodeId(v as u64)) {
                seq![
                    Edge {
                        source: r.source,
                        target: NodeId(v as u64),
                        kind: EdgeKind::Contains,
                        source_line: r.source_line,
                    },
                ]
            } else {
                seq![]
            },
            None => seq![],
        },
        EdgeKind::Calls => edges_to(
            r.source,
            call_targets(nodes, r.target_name),
            EdgeKind::Calls,
            r.source_line,
        ),
        EdgeKind::Imports => edges_to(
            r.source,
            import_targets(nodes, r.target_name),
            EdgeKind::Imports,
            r.source_line,
        ),
        EdgeKind::Extends | EdgeKind::Implements | EdgeKind::References => edges_to(
            r.source,
            type_targets(nodes, r.target_name),
            r.kind,
            r.source_line,
        ),
        _ => seq![],
    }
}

/// The edges that a sequence of raw edges resolves to, in order.
pub open spec fn resolve_all(nodes: Seq<SymbolView>, raws: Seq<RawEdgeView>) -> Seq<Edge>
    decreases raws.len(),
{
    if raws.len() == 0 {
        seq![]
    } else {
        resolve_all(nodes, raws.drop_last()) + resolve_one(nodes, raws.last())
    }
}

/// Every identifier found under a key is a symbol's.
proof fn lemma_lookup_ids(nodes: Seq<SymbolView>, key: Seq<char>)
    ensures
        forall|j: int| 0 <= j < lookup(nodes, key).len() ==> has_id(nodes, #[trigger] lookup(nodes, key)[j]),
{
    let f = nodes.filter(under_key(key));
    assert forall|j: int| 0 <= j < lookup(nodes, key).len() implies has_id(nodes, #[trigger] lookup(nodes, key)[j]) by {
        assert(f.contains(f[j]));
        nodes.lemma_filter_contains_rev(under_key(key), f[j]);
        let i = choose|i: int| 0 <= i < nodes.len() && nodes[i] == f[j];
        assert(nodes[i].id == lookup(nodes, key)[j]);
    }
}

/// Every edge that resolution produces ends at a symbol of the graph.
pub proof fn lemma_resolved_targets_exist(nodes: Seq<SymbolView>, raws: Seq<RawEdgeView>)
    ensures
        forall|i: int| 0 <= i < resolve_all(nodes, raws).len() ==> has_id(nodes, (#[trigger] resolve_all(nodes, raws)[i]).target),
    decreases raws.len(),
{
    if raws.len() > 0 {
        lemma_resolved_targets_exist(nodes, raws.drop_last());
        let prev = resolve_all(nodes, raws.drop_last());
        let r = raws.last();
        let one = resolve_one(nodes, r);
        let t = r.target_name;
        lemma_lookup_ids(nodes, t);
        lemma_lookup_ids(nodes, last_dot_segment(t));
        lemma_lookup_ids(nodes, last_colon_segment(t));
        lemma_lookup_ids(nodes, clean_type(t));
        lemma_lookup_ids(nodes, last_colon_segment(clean_type(t)));
        assert forall|i: int| 0 <= i < one.len() implies has_id(nodes, (#[trigger] one[i]).target) by {
        }
        assert forall|i: int| 0 <= i < resolve_all(nodes, raws).len() implies has_id(nodes, (#[trigger] resolve_all(nodes, raws)[i]).target) by {
            if i >= prev.len() {
                assert(resolve_all(nodes, raws)[i] == one[i - prev.len()]);
            } else {
                assert(resolve_all(nodes, raws)[i] == prev[i]);
            }
        }
    }
}

/// What `rfind_from` finds is an occurrence, and none lies after it (up to `i`).
proof fn lemma_rfind_from_last(s: Seq<char>, p: Seq<char>, i: int)
    ensures
        rfind_from(s, p, i) >= 0 ==> rfind_from(s, p, i) <= i && occurs_at(s, p, rfind_from(s, p, i)),
        forall|j: int| rfind_from(s, p, i) < j <= i ==> !occurs_at(s, p, j),
    decreases i + 1,
{
    if i >= 0 && !occurs_at(s, p, i) {
        lemma_rfind_from_last(s, p, i - 1);
    }
}

/// The last `.` segment of a dotted name holds no `.`.
proof fn lemma_dot_segment_has_no_dot(name: Seq<char>)
    requires
        last_dot_segment(name) != name,
    ensures
        !last_dot_segment(name).contains('.'),
{
    reveal_strlit(".");
    let p = "."@;
    let r = rfind(name, p);
    lemma_rfind_from_last(name, p, name.len() - p.len());
    let seg = last_dot_segment(name);
    assert(r >= 0 && r + 1 <= name.len());
    assert(seg == name.subrange(r + 1, name.len() as int));
    assert forall|k: int| 0 <= k < seg.len() implies seg[k] != '.' by {
        let j = r + 1 + k;
        assert(!occurs_at(name, p, j));
        if seg[k] == '.' {
            assert(name.subrange(j, j + 1) =~= p);
        }
    }
}

/// Everything one raw edge resolves to is among what all of them resolve to.
proof fn lemma_resolve_all_includes(nodes: Seq<SymbolView>, raws: Seq<RawEdgeView>, i: int, e: Edge)
    requires
        0 <= i < raws.len(),
        resolve_one(nodes, raws[i]).contains(e),
    ensures
        resolve_all(nodes, raws).contains(e),
    decreases raws.len(),
{
    let prev = resolve_all(nodes, raws.drop_last());
    let one = resolve_one(nodes, raws.last());
    if i < raws.len() - 1 {
        assert(raws.drop_last()[i] == raws[i]);
        lemma_resolve_all_includes(nodes, raws.drop_last(), i, e);
        let k = choose|k: int| 0 <= k < prev.len() && prev[k] == e;
        assert(resolve_all(nodes, raws)[k] == e);
    } else {
        let k = choose|k: int| 0 <= k < one.len() && one[k] == e;
        assert(resolve_all(nodes, raws)[prev.len() + k] == e);
    }
}

/// A raw `CONTAINS` edge whose target reads as a hexadecimal identifier of a
/// symbol of the graph resolves to the edge from its source to that symbol,
/// with its line; any other raw `CONTAINS` edge resolves to nothing.
pub proof fn lemma_contains_resolution(nodes: Seq<SymbolView>, raws: Seq<RawEdgeView>, i: int)
    requires
        0 <= i < raws.len(),
        raws[i].kind == EdgeKind::Contains,
    ensures
        match parse_unsigned(raws[i].target_name, 16, u64::MAX as int) {
            Some(v) => if has_id(nodes, NodeId(v as u64)) {
                resolve_all(nodes, raws).contains(
                    Edge {
                        source: raws[i].source,
                        target: NodeId(v as u64),
                        kind: EdgeKind::Contains,
                        source_line: raws[i].source_line,
                    },
                )
            } else {
                resolve_one(nodes, raws[i]) == Seq::<Edge>::empty()
            },
            None => resolve_one(nodes, raws[i]) == Seq::<Edge>::empty(),
        },
{
    let r = raws[i];
    match parse_unsigned(r.target_name, 16, u64::MAX as int) {
        Some(v) => if has_id(nodes, NodeId(v as u64)) {
            let e = Edge { source: r.source, target: NodeId(v as u64), kind: EdgeKind::Contains, source_line: r.source_line };
            assert(resolve_one(nodes, r)[0] == e);
            lemma_resolve_all_includes(nodes, raws, i, e);
        } else {
        },
        None => {},
    }
}

/// Some symbol with identifier `id` is named `t`, or `t` behind a `::` path.
pub open spec fn id_named(nodes: Seq<SymbolView>, id: NodeId, t: Seq<char>) -> bool {
    exists|i: int| 0 <= i < nodes.len() && nodes[i].id == id && (nodes[i].name == t || last_colon_segment(nodes[i].name) == t)
}

/// A call whose target is qualified (`Class.method`, as extractors write
/// `this.m` / `self.m` inside a class) and names some symbol resolves to the
/// symbols of exactly that name (possibly behind a `::` path) and to nothing
/// else: never to a method of the same bare name in another class.
pub proof fn lemma_qualified_call_stays_in_class(nodes: Seq<SymbolView>, t: Seq<char>)
    requires
        t.contains('.'),
        lookup(nodes, t).len() > 0,
    ensures
        call_targets(nodes, t) == lookup(nodes, t),
        forall|j: int|
            0 <= j < call_targets(nodes, t).len() ==> id_named(nodes, #[trigger] call_targets(nodes, t)[j], t),
{
    let f = nodes.filter(under_key(t));
    assert forall|j: int| 0 <= j < call_targets(nodes, t).len() implies id_named(
        nodes,
        #[trigger] call_targets(nodes, t)[j],
        t,
    ) by {
        assert(f.contains(f[j]));
        nodes.lemma_filter_contains_rev(under_key(t), f[j]);
        let i = choose|i: int| 0 <= i < nodes.len() && nodes[i] == f[j];
        nodes.lemma_filter_pred(under_key(t), j);
        let nm = nodes[i].name;
        if last_dot_segment(nm) != nm && t == last_dot_segment(nm) {
            lemma_dot_segment_has_no_dot(nm);
        }
        assert(nodes[i].id == call_targets(nodes, t)[j]);
        assert(nodes[i].name == t || last_colon_segment(nodes[i].name) == t);
    }
}

/// The names under which one symbol is found.
struct NodeKeys {
    id: NodeId,
    name: Vec<char>,
    colon: Vec<char>,
    dot: Vec<char>,
}

spec fn keys_ok(k: NodeKeys, n: SymbolView) -> bool {
    &&& k.id == n.id
    &&& k.name@ == n.name
    &&& k.colon@ == last_colon_segment(n.name)
    &&& k.dot@ == last_dot_segment(n.name)
}

fn colon_sep() -> (r: Vec<char>)
    ensures
        r@ == "::"@,
{
    chars_of("::")
}

fn dot_sep() -> (r: Vec<char>)
    ensures
        r@ == "."@,
{
    chars_of(".")
}

fn build_keys(g: &CodeGraph) -> (r: Vec<NodeKeys>)
    ensures
        r@.len() == g.nodes@.len(),
        forall|i: int| 0 <= i < r@.len() ==> keys_ok(#[trigger] r@[i], g.node_views()[i]),
{
    let cs = colon_sep();
    let ds = dot_sep();
    let mut r: Vec<NodeKeys> = Vec::new();
    let mut i: usize = 0;
    while i < g.nodes.len()
        invariant
            i <= g.nodes@.len(),
            cs@ == "::"@,
            ds@ == "."@,
            r@.len() == i,
            forall|j: int| 0 <= j < i ==> keys_ok(#[trigger] r@[j], g.node_views()[j]),
        decreases g.nodes@.len() - i,
    {
        let name = chars_of(g.nodes[i].name.as_str());
        let colon = after_last_chars(&name, &cs);
        let dot = after_last_chars(&name, &ds);
        r.push(NodeKeys { id: g.nodes[i].id, name, colon, dot });
        i = i + 1;
    }
    r
}

fn key_matches(k: &NodeKeys, key: &[char]) -> (r: bool)
    ensures
        r == indexed_under(k.name@, key@) || !(k.colon@ == last_colon_segment(k.name@) && k.dot@
            == last_dot_segment(k.name@)),
        (k.colon@ == last_colon_segment(k.name@) && k.dot@ == last_dot_segment(k.name@)) ==> r
            == indexed_under(k.name@, key@),
{
    if eq_chars(&k.name, key) {
        return true;
    }
    if !eq_chars(&k.colon, &k.name) && eq_chars(&k.colon, key) {
        return true;
    }
    !eq_chars(&k.dot, &k.name) && eq_chars(&k.dot, key)
}

/// The identifiers found under `key`.
fn lookup_exec(keys: &Vec<NodeKeys>, key: &[char], Ghost(nodes): Ghost<Seq<SymbolView>>) -> (r:
    Vec<NodeId>)
    requires
        keys@.len() == nodes.len(),
        forall|i: int| 0 <= i < keys@.len() ==> keys_ok(#[trigger] keys@[i], nodes[i]),
    ensures
        r@ == lookup(nodes, key@),
{
    let mut r: Vec<NodeId> = Vec::new();
    let mut i: usize = 0;
    while i < keys.len()
        invariant
            i <= keys@.len(),
            keys@.len() == nodes.len(),
            forall|j: int| 0 <= j < keys@.len() ==> keys_ok(#[trigger] keys@[j], nodes[j]),
            r@ == lookup(nodes.take(i as int), key@),
        decreases keys@.len() - i,
    {
        let ghost t = nodes.take(i as int);
        proof {
            assert(nodes.take(i as int + 1) =~= t.push(nodes[i as int]));
            t.lemma_filter_push(nodes[i as int], under_key(key@));
            assert(keys_ok(keys@[i as int], nodes[i as int]));
        }
        if key_matches(&keys[i], key) {
            r.push(keys[i].id);
            proof {
                assert(lookup(nodes.take(i as int + 1), key@) =~= lookup(t, key@).push(
                    nodes[i as int].id,
                ));
            }
        } else {
            proof {
                assert(lookup(nodes.take(i as int + 1), key@) =~= lookup(t, key@));
            }
        }
        i = i + 1;
    }
    proof {
        assert(nodes.take(keys@.len() as int) =~= nodes);
    }
    r
}

fn call_targets_exec(keys: &Vec<NodeKeys>, t: &[char], Ghost(nodes): Ghost<Seq<SymbolView>>) -> (r:
    Vec<NodeId>)
    requires
        keys@.len() == nodes.len(),
        forall|i: int| 0 <= i < keys@.len() ==> keys_ok(#[trigger] keys@[i], nodes[i]),
    ensures
        r@ == call_targets(nodes, t@),
{
    let exact = lookup_exec(keys, t, Ghost(nodes));
    if exact.len() > 0 {
        return exact;
    }
    let cs = colon_sep();
    let colon = after_last_chars(t, &cs);
    if !eq_chars(&colon, t) {
        let by_colon = lookup_exec(keys, &colon, Ghost(nodes));
        if by_colon.len() > 0 {
            return by_colon;
        }
    }
    let ds = dot_sep();
    let dot = after_last_chars(t, &ds);
    if !eq_chars(&dot, t) {
        let by_dot = lookup_exec(keys, &dot, Ghost(nodes));
        if by_dot.len() > 0 {
            return by_dot;
        }
    }
    Vec::new()
}

fn import_targets_exec(keys: &Vec<NodeKeys>, t: &[char], Ghost(nodes): Ghost<Seq<SymbolView>>) -> (r:
    Vec<NodeId>)
    requires
        keys@.len() == nodes.len(),
        forall|i: int| 0 <= i < keys@.len() ==> keys_ok(#[trigger] keys@[i], nodes[i]),
    ensures
        r@ == import_targets(nodes, t@),
{
    let exact = lookup_exec(keys, t, Ghost(nodes));
    if exact.len() > 0 {
        return exact;
    }
    let cs = colon_sep();
    let colon = after_last_chars(t, &cs);
    if !eq_chars(&colon, t) {
        let by_colon = lookup_exec(keys, &colon, Ghost(nodes));
        if by_colon.len() > 0 {
            return by_colon;
        }
    }
    Vec::new()
}

fn type_targets_exec(keys: &Vec<NodeKeys>, t: &[char], Ghost(nodes): Ghost<Seq<SymbolView>>) -> (r:
    Vec<NodeId>)
    requires
        keys@.len() == nodes.len(),
        forall|i: int| 0 <= i < keys@.len() ==> keys_ok(#[trigger] keys@[i], nodes[i]),
    ensures
        r@ == type_targets(nodes, t@),
{
    let lt = chars_of("<");
    let head = before_first_chars(t, &lt);
    let clean = trim_chars(&head);
    let exact = lookup_exec(keys, &clean, Ghost(nodes));
    if exact.len() > 0 {
        return exact;
    }
    let cs = colon_sep();
    let colon = after_last_chars(&clean, &cs);
    if !eq_chars(&colon, &clean) {
        let by_colon = lookup_exec(keys, &colon, Ghost(nodes));
        if by_colon.len() > 0 {
            return by_colon;
        }
    }
    Vec::new()
}

/// Appends one edge per target.
fn push_edges(
    out: &mut Vec<Edge>,
    source: NodeId,
    targets: &Vec<NodeId>,
    kind: EdgeKind,
    line: u32,
)
    ensures
        final(out)@ == old(out)@ + edges_to(source, targets@, kind, line),
{
    let mut i: usize = 0;
    while i < targets.len()
        invariant
            i <= targets@.len(),
            out@ == old(out)@ + edges_to(source, targets@.take(i as int), kind, line),
        decreases targets@.len() - i,
    {
        out.push(Edge { source, target: targets[i], kind, source_line: line });
        proof {
            assert(edges_to(source, targets@.take(i as int + 1), kind, line) =~= edges_to(
                source,
                targets@.take(i as int),
                kind,
                line,
            ).push(Edge { source, target: targets@[i as int], kind, source_line: line }));
        }
        i = i + 1;
    }
    proof {
        assert(targets@.take(targets@.len() as int) =~= targets@);
    }
}

fn resolve_raw(
    g: &CodeGraph,
    keys: &Vec<NodeKeys>,
    raw: &RawEdge,
    out: &mut Vec<Edge>,
)
    requires
        keys@.len() == g.node_views().len(),
        forall|i: int| 0 <= i < keys@.len() ==> keys_ok(#[trigger] keys@[i], g.node_views()[i]),
    ensures
        final(out)@ == old(out)@ + resolve_one(g.node_views(), raw@),
{
    let ghost nodes = g.node_views();
    let t = chars_of(raw.target_name.as_str());
    match raw.kind {
        EdgeKind::Contains => {
            match crate::num::parse_unsigned_chars(&t, 16, u64::MAX) {
                Some(v) => {
                    let target = NodeId(v);
                    if g.contains_node(target) {
                        let ghost o = out@;
                        out.push(
                            Edge {
                                source: raw.source,
                                target,
                                kind: EdgeKind::Contains,
                                source_line: raw.source_line,
                            },
                        );
                        proof {
                            assert(out@ =~= o + resolve_one(nodes, raw@));
                        }
                    } else {
                        proof {
                            assert(out@ =~= old(out)@ + resolve_one(nodes, raw@));
                        }
                    }
                },
                None => {
                    proof {
                        assert(out@ =~= old(out)@ + resolve_one(nodes, raw@));
                    }
                },
            }
        },
        EdgeKind::Calls => {
            let targets = call_targets_exec(keys, &t, Ghost(nodes));
            push_edges(out, raw.source, &targets, EdgeKind::Calls, raw.source_line);
        },
        EdgeKind::Imports => {
            let targets = import_targets_exec(keys, &t, Ghost(nodes));
            push_edges(out, raw.source, &targets, EdgeKind::Imports, raw.source_line);
        },
        EdgeKind::Extends | EdgeKind::Implements | EdgeKind::References => {
            let targets = type_targets_exec(keys, &t, Ghost(nodes));
            push_edges(out, raw.source, &targets, raw.kind, raw.source_line);
        },
        _ => {
            proof {
                assert(out@ =~= old(out)@ + resolve_one(nodes, raw@));
            }
        },
    }
}

/// Resolves every raw edge of the graph into edges between known symbols and
/// clears the raw edges. Calls resolve by exact name, then by the last `.`
/// segment, then by the last `::` segment; imports by exact path, then by the
/// last `::` segment; type references (extends, implements, references) by the
/// name without generic arguments, then by its last `::` segment; containment
/// edges by the hexadecimal identifier of an existing symbol.
pub fn resolve_edges(graph: &mut CodeGraph)
    requires
        old(graph).wf(),
    ensures
        final(graph).wf(),
        final(graph).node_views() == old(graph).node_views(),
        final(graph).edges@ == old(graph).edges@ + resolve_all(
            old(graph).node_views(),
            raw_views(old(graph).raw_edges@),
        ),
        final(graph).raw_edges@.len() == 0,
        final(graph).file_hashes@ == old(graph).file_hashes@,
        final(graph).metadata.total_nodes == old(graph).nodes@.len(),
        final(graph).metadata.total_edges == final(graph).edges@.len(),
        final(graph).metadata.total_files == distinct_paths(old(graph).node_views()).len(),
{
    let keys = build_keys(graph);
    let mut raws: Vec<RawEdge> = Vec::new();
    std::mem::swap(&mut raws, &mut graph.raw_edges);
    let ghost rv = raw_views(raws@);
    let mut out: Vec<Edge> = Vec::new();
    let mut i: usize = 0;
    while i < raws.len()
        invariant
            i <= raws@.len(),
            rv == raw_views(raws@),
            keys@.len() == graph.node_views().len(),
            forall|j: int| 0 <= j < keys@.len() ==> keys_ok(#[trigger] keys@[j], graph.node_views()[j]),
            out@ == resolve_all(graph.node_views(), rv.take(i as int)),
        decreases raws@.len() - i,
    {
        resolve_raw(graph, &keys, &raws[i], &mut out);
        proof {
            assert(rv.take(i as int + 1).drop_last() =~= rv.take(i as int));
            assert(rv.take(i as int + 1).last() == raws@[i as int]@);
        }
        i = i + 1;
    }
    proof {
        assert(rv.take(raws@.len() as int) =~= rv);
    }
    graph.edges.append(&mut out);
    graph.refresh_metadata();
}


/// A symbol indexed under `key` is among the identifiers found under it.
proof fn lemma_lookup_finds(nodes: Seq<SymbolView>, key: Seq<char>, i: int)
    requires
        0 <= i < nodes.len(),
        indexed_under(nodes[i].name, key),
    ensures
        lookup(nodes, key).contains(nodes[i].id),
        lookup(nodes, key).len() > 0,
{
    let f = nodes.filter(under_key(key));
    assert(under_key(key)(nodes[i]));
    nodes.lemma_filter_contains(under_key(key), i);
    let k = choose|k: int| 0 <= k < f.len() && f[k] == nodes[i];
    assert(lookup(nodes, key)[k] == nodes[i].id);
}

/// Every identifier found under `key` is that of a symbol indexed under it.
proof fn lemma_lookup_sound(nodes: Seq<SymbolView>, key: Seq<char>, k: int)
    requires
        0 <= k < lookup(nodes, key).len(),
    ensures
        exists|j: int| 0 <= j < nodes.len() && nodes[j].id == lookup(nodes, key)[k] && indexed_under(#[trigger] nodes[j].name, key),
{
    let f = nodes.filter(under_key(key));
    assert(f.contains(f[k]));
    nodes.lemma_filter_contains_rev(under_key(key), f[k]);
    nodes.lemma_filter_pred(under_key(key), k);
    let j = choose|j: int| 0 <= j < nodes.len() && nodes[j] == f[k];
    assert(nodes[j].id == lookup(nodes, key)[k]);
}

/// Nothing is found under a key that no symbol is indexed under.
proof fn lemma_lookup_none(nodes: Seq<SymbolView>, key: Seq<char>)
    requires
        forall|j: int| 0 <= j < nodes.len() ==> !indexed_under(#[trigger] nodes[j].name, key),
    ensures
        lookup(nodes, key).len() == 0,
{
    if lookup(nodes, key).len() > 0 {
        lemma_lookup_sound(nodes, key, 0);
    }
}

/// A call whose full name some symbol is indexed under resolves to that
/// symbol, and only to symbols indexed under the full name.
pub proof fn lemma_call_exact_match(nodes: Seq<SymbolView>, t: Seq<char>, i: int)
    requires
        0 <= i < nodes.len(),
        indexed_under(nodes[i].name, t),
    ensures
        call_targets(nodes, t).contains(nodes[i].id),
        forall|k: int| 0 <= k < call_targets(nodes, t).len() ==> exists|j: int|
            0 <= j < nodes.len() && nodes[j].id == #[trigger] call_targets(nodes, t)[k]
                && indexed_under(nodes[j].name, t),
{
    lemma_lookup_finds(nodes, t, i);
    assert forall|k: int| 0 <= k < call_targets(nodes, t).len() implies exists|j: int|
        0 <= j < nodes.len() && nodes[j].id == #[trigger] call_targets(nodes, t)[k]
            && indexed_under(nodes[j].name, t) by {
        lemma_lookup_sound(nodes, t, k);
    }
}

/// A call with no exact match whose last `::` segment differs from it and has
/// a symbol indexed under it resolves to that symbol, and only to symbols
/// indexed under that segment (the namespace prefix is stripped).
pub proof fn lemma_call_strips_namespace(nodes: Seq<SymbolView>, t: Seq<char>, i: int)
    requires
        forall|j: int| 0 <= j < nodes.len() ==> !indexed_under(#[trigger] nodes[j].name, t),
        last_colon_segment(t) != t,
        0 <= i < nodes.len(),
        indexed_under(nodes[i].name, last_colon_segment(t)),
    ensures
        call_targets(nodes, t).contains(nodes[i].id),
        forall|k: int| 0 <= k < call_targets(nodes, t).len() ==> exists|j: int|
            0 <= j < nodes.len() && nodes[j].id == #[trigger] call_targets(nodes, t)[k]
                && indexed_under(nodes[j].name, last_colon_segment(t)),
{
    lemma_lookup_none(nodes, t);
    lemma_lookup_finds(nodes, last_colon_segment(t), i);
    assert forall|k: int| 0 <= k < call_targets(nodes, t).len() implies exists|j: int|
        0 <= j < nodes.len() && nodes[j].id == #[trigger] call_targets(nodes, t)[k]
            && indexed_under(nodes[j].name, last_colon_segment(t)) by {
        lemma_lookup_sound(nodes, last_colon_segment(t), k);
    }
}

/// A call with no exact match and no match on its last `::` segment, whose
/// last `.` segment differs from it, resolves to the symbols indexed under that
/// bare name, and only to them: `u.save` reaches `User.save`.
pub proof fn lemma_call_falls_back_to_bare_name(nodes: Seq<SymbolView>, t: Seq<char>, i: int)
    requires
        forall|j: int| 0 <= j < nodes.len() ==> !indexed_under(#[trigger] nodes[j].name, t),
        forall|j: int| 0 <= j < nodes.len() ==> !indexed_under(#[trigger] nodes[j].name, last_colon_segment(t)),
        last_dot_segment(t) != t,
        0 <= i < nodes.len(),
        indexed_under(nodes[i].name, last_dot_segment(t)),
    ensures
        call_targets(nodes, t).contains(nodes[i].id),
        forall|k: int| 0 <= k < call_targets(nodes, t).len() ==> exists|j: int|
            0 <= j < nodes.len() && nodes[j].id == #[trigger] call_targets(nodes, t)[k]
                && indexed_under(nodes[j].name, last_dot_segment(t)),
{
    lemma_lookup_none(nodes, t);
    lemma_lookup_none(nodes, last_colon_segment(t));
    lemma_lookup_finds(nodes, last_dot_segment(t), i);
    assert forall|k: int| 0 <= k < call_targets(nodes, t).len() implies exists|j: int|
        0 <= j < nodes.len() && nodes[j].id == #[trigger] call_targets(nodes, t)[k]
            && indexed_under(nodes[j].name, last_dot_segment(t)) by {
        lemma_lookup_sound(nodes, last_dot_segment(t), k);
    }
}

/// A call that neither its full name, nor its last `::` segment, nor its last
/// `.` segment finds resolves to nothing.
pub proof fn lemma_call_unresolved(nodes: Seq<SymbolView>, t: Seq<char>)
    requires
        forall|j: int| 0 <= j < nodes.len() ==> !indexed_under(#[trigger] nodes[j].name, t),
        forall|j: int| 0 <= j < nodes.len() ==> !indexed_under(#[trigger] nodes[j].name, last_colon_segment(t)),
        forall|j: int| 0 <= j < nodes.len() ==> !indexed_under(#[trigger] nodes[j].name, last_dot_segment(t)),
    ensures
        call_targets(nodes, t).len() == 0,
{
    lemma_lookup_none(nodes, t);
    lemma_lookup_none(nodes, last_colon_segment(t));
    lemma_lookup_none(nodes, last_dot_segment(t));
}

} // verus!
