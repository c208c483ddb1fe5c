//! Rendering the graph as Graphviz text and as a compact plain-text summary.
use vstd::prelude::*;
use crate::text::{
    chars_of, string_of, append_str, append_chars, contains, contains_chars, after_last,
    after_last_chars, join_with, join_chars, byte_len, utf8_byte_len,
};
use crate::commands::rows::{sorted_distinct, add_distinct_sorted};
use crate::num::{dec_nat, fmt_u64};
use crate::graph::{CodeGraph, GraphMetadata, leaves, arrives, distinct_paths};
use crate::symbol::{SymbolNode, SymbolView, SymbolKind, NodeId, id_hex, language_name};
use crate::relation::{Edge, EdgeKind, edge_kind_name};

verus! {

// ---------------------------------------------------------------------------
// Graphviz.
// ---------------------------------------------------------------------------

/// Fill colour of a symbol in the Graphviz rendering.
pub open spec fn dot_color(k: SymbolKind) -> Seq<char> {
    match k {
        SymbolKind::Function | SymbolKind::Method => "lightblue"@,
        SymbolKind::Class | SymbolKind::Struct | SymbolKind::Record => "lightyellow"@,
        SymbolKind::Trait | SymbolKind::Interface => "lightgreen"@,
        SymbolKind::Enum => "lightsalmon"@,
        _ => "white"@,
    }
}

/// The label of a symbol: its name after the last `::`.
pub open spec fn dot_label(name: Seq<char>) -> Seq<char> {
    if contains(name, "::"@) {
        after_last(name, "::"@)
    } else {
        name
    }
}

/// Imports and files are left out of the Graphviz rendering.
pub open spec fn dot_shown(k: SymbolKind) -> bool {
    k != SymbolKind::Import && k != SymbolKind::File
}

/// The Graphviz line of one symbol.
pub open spec fn dot_node_line(n: SymbolView) -> Seq<char> {
    "  \""@ + id_hex(n.id) + "\" [label=\""@ + dot_label(n.name) + "\" style=filled fillcolor=\""@
        + dot_color(n.kind) + "\"];\n"@
}

/// The Graphviz lines of the shown symbols, in order.
pub open spec fn dot_node_lines(nodes: Seq<SymbolView>) -> Seq<char>
    decreases nodes.len(),
{
    if nodes.len() == 0 {
        seq![]
    } else {
        let n = nodes.last();
        dot_node_lines(nodes.drop_last()) + if dot_shown(n.kind) {
            dot_node_line(n)
        } else {
            Seq::<char>::empty()
        }
    }
}

/// The Graphviz line of one edge.
pub open spec fn dot_edge_line(e: Edge) -> Seq<char> {
    "  \""@ + id_hex(e.source) + "\" -> \""@ + id_hex(e.target) + "\" [label=\""@
        + edge_kind_name(e.kind) + "\"];\n"@
}

/// The Graphviz lines of the edges other than containment, in order.
pub open spec fn dot_edge_lines(edges: Seq<Edge>) -> Seq<char>
    decreases edges.len(),
{
    if edges.len() == 0 {
        seq![]
    } else {
        let e = edges.last();
        dot_edge_lines(edges.drop_last()) + if e.kind != EdgeKind::Contains {
            dot_edge_line(e)
        } else {
            Seq::<char>::empty()
        }
    }
}

/// The whole Graphviz document.
pub open spec fn dot_text(nodes: Seq<SymbolView>, edges: Seq<Edge>) -> Seq<char> {
    "digraph CodeGraph {\n  rankdir=LR;\n  node [shape=box fontsize=10];\n\n"@ + dot_node_lines(nodes)
        + "\n"@ + dot_edge_lines(edges) + "}\n"@
}

fn dot_node_line_chars(n: &SymbolNode) -> (r: Vec<char>)
    ensures
        r@ == dot_node_line(n@),
{
    let mut out: Vec<char> = Vec::new();
    append_str(&mut out, "  \"");
    let hex = n.id.to_hex();
    append_str(&mut out, hex.as_str());
    append_str(&mut out, "\" [label=\"");
    let name = chars_of(n.name.as_str());
    let sep = chars_of("::");
    if contains_chars(&name, &sep) {
        let tail = after_last_chars(&name, &sep);
        append_chars(&mut out, &tail);
    } else {
        append_chars(&mut out, &name);
    }
    append_str(&mut out, "\" style=filled fillcolor=\"");
    let color = match n.kind {
        SymbolKind::Function | SymbolKind::Method => "lightblue",
        SymbolKind::Class | SymbolKind::Struct | SymbolKind::Record => "lightyellow",
        SymbolKind::Trait | SymbolKind::Interface => "lightgreen",
        SymbolKind::Enum => "lightsalmon",
        _ => "white",
    };
    append_str(&mut out, color);
    append_str(&mut out, "\"];\n");
    proof {
        assert(out@ =~= dot_node_line(n@));
    }
    out
}

fn dot_edge_line_chars(e: &Edge) -> (r: Vec<char>)
    ensures
        r@ == dot_edge_line(*e),
{
    let mut out: Vec<char> = Vec::new();
    append_str(&mut out, "  \"");
    let s = e.source.to_hex();
    append_str(&mut out, s.as_str());
    append_str(&mut out, "\" -> \"");
    let t = e.target.to_hex();
    append_str(&mut out, t.as_str());
    append_str(&mut out, "\" [label=\"");
    append_str(&mut out, e.kind.as_neo4j_type());
    append_str(&mut out, "\"];\n");
    proof {
        assert(out@ =~= dot_edge_line(*e));
    }
    out
}

/// The graph as a Graphviz document: one box per symbol other than imports
/// and files, coloured by kind, then one arrow per edge other than
/// containment, labelled with its kind.
pub fn export_dot(graph: &CodeGraph) -> (r: String)
    ensures
        r@ == dot_text(graph.node_views(), graph.edges@),
{
    let ghost nv = graph.node_views();
    let mut out: Vec<char> = Vec::new();
    append_str(&mut out, "digraph CodeGraph {\n  rankdir=LR;\n  node [shape=box fontsize=10];\n\n");
    let ghost head = out@;
    let mut i: usize = 0;
    while i < graph.nodes.len()
        invariant
            i <= graph.nodes@.len(),
            nv == graph.node_views(),
            head == "digraph CodeGraph {\n  rankdir=LR;\n  node [shape=box fontsize=10];\n\n"@,
            out@ == head + dot_node_lines(nv.take(i as int)),
        decreases graph.nodes@.len() - i,
    {
        let n = &graph.nodes[i];
        proof {
            assert(nv.take(i as int + 1).drop_last() =~= nv.take(i as int));
            assert(nv.take(i as int + 1).last() == n@);
        }
        if n.kind != SymbolKind::Import && n.kind != SymbolKind::File {
            let line = dot_node_line_chars(n);
            append_chars(&mut out, &line);
        }
        proof {
            assert(out@ =~= head + dot_node_lines(nv.take(i as int + 1)));
        }
        i = i + 1;
    }
    proof {
        assert(nv.take(graph.nodes@.len() as int) =~= nv);
    }
    append_str(&mut out, "\n");
    let ghost mid = out@;
    let mut j: usize = 0;
    while j < graph.edges.len()
        invariant
            j <= graph.edges@.len(),
            out@ == mid + dot_edge_lines(graph.edges@.take(j as int)),
        decreases graph.edges@.len() - j,
    {
        let e = graph.edges[j];
        proof {
            assert(graph.edges@.take(j as int + 1).drop_last() =~= graph.edges@.take(j as int));
            assert(graph.edges@.take(j as int + 1).last() == e);
        }
        if e.kind != EdgeKind::Contains {
            let line = dot_edge_line_chars(&e);
            append_chars(&mut out, &line);
        }
        proof {
            assert(out@ =~= mid + dot_edge_lines(graph.edges@.take(j as int + 1)));
        }
        j = j + 1;
    }
    proof {
        assert(graph.edges@.take(graph.edges@.len() as int) =~= graph.edges@);
    }
    append_str(&mut out, "}\n");
    proof {
        assert(out@ =~= dot_text(nv, graph.edges@));
    }
    string_of(&out)
}

// ---------------------------------------------------------------------------
// Plain-text summary.
// ---------------------------------------------------------------------------

/// The name of the first symbol with identifier `id`.
pub open spec fn name_of_id(nodes: Seq<SymbolView>, id: NodeId) -> Option<Seq<char>>
    decreases nodes.len(),
{
    if nodes.len() == 0 {
        None
    } else if nodes[0].id == id {
        Some(nodes[0].name)
    } else {
        name_of_id(nodes.drop_first(), id)
    }
}

/// The names of the symbols that the call edges among `es` point at, in
/// order; an edge whose target is not a symbol of `nodes` contributes nothing.
pub open spec fn call_target_names(nodes: Seq<SymbolView>, es: Seq<Edge>) -> Seq<Seq<char>>
    decreases es.len(),
{
    if es.len() == 0 {
        seq![]
    } else {
        let prev = call_target_names(nodes, es.drop_last());
        let e = es.last();
        if e.kind == EdgeKind::Calls {
            match name_of_id(nodes, e.target) {
                Some(nm) => prev.push(nm),
                None => prev,
            }
        } else {
            prev
        }
    }
}

/// A `label: a, b, c` line, or nothing when there are no names.
pub open spec fn name_list_line(label: Seq<char>, names: Seq<Seq<char>>) -> Seq<char> {
    if names.len() == 0 {
        seq![]
    } else {
        "    "@ + label + ": "@ + join_with(names, ", "@) + "\n"@
    }
}

/// The summary entry of one symbol: its signature (or name) with its line
/// range, then the symbols it calls, then the `called_by` list. The latter
/// follows each incoming call edge to its target, which is the symbol itself.
pub open spec fn ai_node_entry(nodes: Seq<SymbolView>, edges: Seq<Edge>, n: SymbolView) -> Seq<char> {
    let sig = match n.signature {
        Some(s) => s,
        None => n.name,
    };
    "  "@ + sig + "  [L"@ + dec_nat(n.line_range.0 as nat) + "-L"@ + dec_nat(n.line_range.1 as nat)
        + "]\n"@ + name_list_line("calls"@, call_target_names(nodes, edges.filter(leaves(n.id))))
        + name_list_line("called_by"@, call_target_names(nodes, edges.filter(arrives(n.id))))
}

/// The group a symbol is listed in: functions and methods, then classes,
/// structs and traits, then everything else.
pub open spec fn ai_rank(k: SymbolKind) -> int {
    match k {
        SymbolKind::Function | SymbolKind::Method => 0,
        SymbolKind::Class | SymbolKind::Struct | SymbolKind::Trait => 1,
        _ => 2,
    }
}

/// `n` belongs to the file `path`, is neither a file nor an import, and falls
/// in group `rank`.
pub open spec fn ai_listed(n: SymbolView, path: Seq<char>, rank: int) -> bool {
    n.file_path == path && n.kind != SymbolKind::File && n.kind != SymbolKind::Import && ai_rank(
        n.kind,
    ) == rank
}

/// The entries of the symbols of `ns` listed in group `rank` of `path`, in order.
pub open spec fn ai_group(
    nodes: Seq<SymbolView>,
    edges: Seq<Edge>,
    ns: Seq<SymbolView>,
    path: Seq<char>,
    rank: int,
) -> Seq<char>
    decreases ns.len(),
{
    if ns.len() == 0 {
        seq![]
    } else {
        ai_group(nodes, edges, ns.drop_last(), path, rank) + if ai_listed(ns.last(), path, rank) {
            ai_node_entry(nodes, edges, ns.last())
        } else {
            Seq::<char>::empty()
        }
    }
}

/// The summary section of the file `path`, headed by `relative`.
pub open spec fn ai_file_section(
    nodes: Seq<SymbolView>,
    edges: Seq<Edge>,
    path: Seq<char>,
    relative: Seq<char>,
) -> Seq<char> {
    "## "@ + relative + "\n"@ + ai_group(nodes, edges, nodes, path, 0) + ai_group(
        nodes,
        edges,
        nodes,
        path,
        1,
    ) + ai_group(nodes, edges, nodes, path, 2) + "\n"@
}

/// What `std::path::Path::strip_prefix` gives for `path` and `base`, as text.
pub uninterp spec fn path_without_prefix(path: Seq<char>, base: Seq<char>) -> Option<Seq<char>>;

/// The heading of a file: its path relative to the project root where the
/// root is a prefix of it, else the path itself.
pub open spec fn relative_of(path: Seq<char>, root: Seq<char>) -> Seq<char> {
    match path_without_prefix(path, root) {
        Some(r) => r,
        None => path,
    }
}

/// The first line of the summary.
pub open spec fn ai_header(langs: Seq<crate::symbol::Language>, total_nodes: nat, total_edges: nat) -> Seq<
    char,
> {
    "# Project ("@ + join_with(
        langs.map_values(|l: crate::symbol::Language| language_name(l)),
        ", "@,
    ) + ") — "@ + dec_nat(total_nodes) + " symbols, "@ + dec_nat(total_edges) + " relationships\n\n"@
}

/// Appends the sections in turn; where a limit is given and the next section
/// would take the text past it (in bytes), a truncation line ends the text.
pub open spec fn ai_fold(acc: Seq<char>, sections: Seq<Seq<char>>, max: Option<int>) -> Seq<char>
    decreases sections.len(),
{
    if sections.len() == 0 {
        acc
    } else if max is Some && byte_len(acc) + byte_len(sections[0]) > max->0 {
        acc + "... (truncated)\n"@
    } else {
        ai_fold(acc + sections[0], sections.drop_first(), max)
    }
}

/// The sections of the files, in ascending order of path.
pub open spec fn ai_sections(g: CodeGraph) -> Seq<Seq<char>> {
    sorted_distinct(distinct_paths(g.node_views())).map_values(
        |p: Seq<char>|
            ai_file_section(g.node_views(), g.edges@, p, relative_of(p, g.project_root@)),
    )
}

/// The whole summary of `g`, within `max` bytes where a limit is given.
pub open spec fn ai_context_text(g: CodeGraph, max: Option<int>) -> Seq<char> {
    ai_fold(
        ai_header(
            g.metadata.languages@,
            g.metadata.total_nodes as nat,
            g.metadata.total_edges as nat,
        ),
        ai_sections(g),
        max,
    )
}

/// Calls `std::path::Path::strip_prefix`: `path` relative to `base`, or `None`
/// where `base` is not a prefix of it. Its result is named, not described.
#[verifier::external_body]
fn strip_path_prefix(path: &str, base: &str) -> (r: Option<String>)
    ensures
        crate::symbol::opt_view(r) == path_without_prefix(path@, base@),
{
    match std::path::Path::new(path).strip_prefix(base) {
        Ok(p) => Some(p.to_string_lossy().into_owned()),
        Err(_) => None,
    }
}

fn name_of_symbol(graph: &CodeGraph, id: NodeId) -> (r: Option<Vec<char>>)
    ensures
        match r {
            Some(v) => name_of_id(graph.node_views(), id) == Some(v@),
            None => name_of_id(graph.node_views(), id) is None,
        },
{
    let ghost nv = graph.node_views();
    let mut i: usize = 0;
    proof {
        assert(nv.skip(0) =~= nv);
    }
    while i < graph.nodes.len()
        invariant
            i <= graph.nodes@.len(),
            nv == graph.node_views(),
            name_of_id(nv, id) == name_of_id(nv.skip(i as int), id),
        decreases graph.nodes@.len() - i,
    {
        proof {
            assert(nv.skip(i as int)[0] == graph.nodes@[i as int]@);
            assert(nv.skip(i as int).drop_first() =~= nv.skip(i as int + 1));
        }
        if graph.nodes[i].id == id {
            return Some(chars_of(graph.nodes[i].name.as_str()));
        }
        i = i + 1;
    }
    None
}

fn call_names(graph: &CodeGraph, es: &Vec<Edge>) -> (r: Vec<Vec<char>>)
    ensures
        r@.map_values(|v: Vec<char>| v@) == call_target_names(graph.node_views(), es@),
{
    let mut r: Vec<Vec<char>> = Vec::new();
    let mut i: usize = 0;
    while i < es.len()
        invariant
            i <= es@.len(),
            r@.map_values(|v: Vec<char>| v@) == call_target_names(
                graph.node_views(),
                es@.take(i as int),
            ),
        decreases es@.len() - i,
    {
        let e = es[i];
        let ghost prev = r@.map_values(|v: Vec<char>| v@);
        proof {
            assert(es@.take(i as int + 1).drop_last() =~= es@.take(i as int));
            assert(es@.take(i as int + 1).last() == e);
        }
        if e.kind == EdgeKind::Calls {
            match name_of_symbol(graph, e.target) {
                Some(nm) => {
                    r.push(nm);
                    proof {
                        assert(r@.map_values(|v: Vec<char>| v@) =~= prev.push(nm@));
                    }
                },
                None => {},
            }
        }
        i = i + 1;
    }
    proof {
        assert(es@.take(es@.len() as int) =~= es@);
    }
    r
}

fn append_name_list(out: &mut Vec<char>, label: &str, names: &Vec<Vec<char>>)
    ensures
        final(out)@ == old(out)@ + name_list_line(label@, names@.map_values(|v: Vec<char>| v@)),
{
    if names.len() > 0 {
        append_str(out, "    ");
        append_str(out, label);
        append_str(out, ": ");
        let joined = join_chars(names, &chars_of(", "));
        append_chars(out, &joined);
        append_str(out, "\n");
        proof {
            assert(final(out)@ =~= old(out)@ + name_list_line(
                label@,
                names@.map_values(|v: Vec<char>| v@),
            ));
        }
    } else {
        proof {
            assert(names@.map_values(|v: Vec<char>| v@).len() == 0);
            assert(final(out)@ =~= old(out)@ + name_list_line(
                label@,
                names@.map_values(|v: Vec<char>| v@),
            ));
        }
    }
}

fn ai_node_entry_chars(graph: &CodeGraph, n: &SymbolNode) -> (r: Vec<char>)
    ensures
        r@ == ai_node_entry(graph.node_views(), graph.edges@, n@),
{
    let mut out: Vec<char> = Vec::new();
    append_str(&mut out, "  ");
    match &n.signature {
        Some(s) => append_str(&mut out, s.as_str()),
        None => append_str(&mut out, n.name.as_str()),
    }
    append_str(&mut out, "  [L");
    append_chars(&mut out, &fmt_u64(n.line_range.0 as u64));
    append_str(&mut out, "-L");
    append_chars(&mut out, &fmt_u64(n.line_range.1 as u64));
    append_str(&mut out, "]\n");
    let outs = graph.outgoing(n.id);
    let calls = call_names(graph, &outs);
    append_name_list(&mut out, "calls", &calls);
    let ins = graph.incoming(n.id);
    let called_by = call_names(graph, &ins);
    append_name_list(&mut out, "called_by", &called_by);
    proof {
        assert(out@ =~= ai_node_entry(graph.node_views(), graph.edges@, n@));
    }
    out
}

fn append_group(out: &mut Vec<char>, graph: &CodeGraph, path: &str, rank: u8)
    requires
        rank <= 2,
    ensures
        final(out)@ == old(out)@ + ai_group(
            graph.node_views(),
            graph.edges@,
            graph.node_views(),
            path@,
            rank as int,
        ),
{
    let ghost nv = graph.node_views();
    let ghost start = out@;
    let mut i: usize = 0;
    while i < graph.nodes.len()
        invariant
            i <= graph.nodes@.len(),
            nv == graph.node_views(),
            out@ == start + ai_group(nv, graph.edges@, nv.take(i as int), path@, rank as int),
        decreases graph.nodes@.len() - i,
    {
        let n = &graph.nodes[i];
        proof {
            assert(nv.take(i as int + 1).drop_last() =~= nv.take(i as int));
            assert(nv.take(i as int + 1).last() == n@);
        }
        let r: u8 = match n.kind {
            SymbolKind::Function | SymbolKind::Method => 0,
            SymbolKind::Class | SymbolKind::Struct | SymbolKind::Trait => 1,
            _ => 2,
        };
        if r == rank && n.kind != SymbolKind::File && n.kind != SymbolKind::Import
            && crate::text::str_eq(n.file_path.as_str(), path) {
            let entry = ai_node_entry_chars(graph, n);
            append_chars(out, &entry);
        }
        proof {
            assert(out@ =~= start + ai_group(
                nv,
                graph.edges@,
                nv.take(i as int + 1),
                path@,
                rank as int,
            ));
        }
        i = i + 1;
    }
    proof {
        assert(nv.take(graph.nodes@.len() as int) =~= nv);
    }
}

/// The summary section of the file `path` under the heading `relative`: its
/// symbols other than files and imports, functions and methods first, then
/// classes, structs and traits, then the rest, each group in graph order.
pub fn ai_context_file_section(graph: &CodeGraph, path: &str, relative: &str) -> (r: String)
    ensures
        r@ == ai_file_section(graph.node_views(), graph.edges@, path@, relative@),
{
    let mut out: Vec<char> = Vec::new();
    append_str(&mut out, "## ");
    append_str(&mut out, relative);
    append_str(&mut out, "\n");
    append_group(&mut out, graph, path, 0);
    append_group(&mut out, graph, path, 1);
    append_group(&mut out, graph, path, 2);
    append_str(&mut out, "\n");
    proof {
        assert(out@ =~= ai_file_section(graph.node_views(), graph.edges@, path@, relative@));
    }
    string_of(&out)
}

/// The paths, each once, in ascending order.
fn sort_paths(paths: &Vec<String>) -> (r: Vec<String>)
    ensures
        r@.map_values(|s: String| s@) == sorted_distinct(paths@.map_values(|s: String| s@)),
{
    let ghost pv = paths@.map_values(|s: String| s@);
    let mut v: Vec<Vec<char>> = Vec::new();
    let mut i: usize = 0;
    while i < paths.len()
        invariant
            i <= paths@.len(),
            pv == paths@.map_values(|s: String| s@),
            v@.map_values(|c: Vec<char>| c@) == sorted_distinct(pv.take(i as int)),
        decreases paths@.len() - i,
    {
        proof {
            assert(pv.take(i as int + 1).drop_last() =~= pv.take(i as int));
            assert(pv.take(i as int + 1).last() == paths@[i as int]@);
        }
        let x = chars_of(paths[i].as_str());
        add_distinct_sorted(&mut v, &x);
        i = i + 1;
    }
    proof {
        assert(pv.take(paths@.len() as int) =~= pv);
    }
    let mut r: Vec<String> = Vec::new();
    let mut j: usize = 0;
    while j < v.len()
        invariant
            j <= v@.len(),
            r@.map_values(|s: String| s@) == v@.take(j as int).map_values(|c: Vec<char>| c@),
        decreases v@.len() - j,
    {
        let ghost prev = r@.map_values(|s: String| s@);
        let s = string_of(&v[j]);
        r.push(s);
        proof {
            assert(r@.map_values(|s: String| s@) =~= prev.push(v@[j as int]@));
            assert(v@.take(j as int + 1).map_values(|c: Vec<char>| c@) =~= v@.take(j as int).map_values(
                |c: Vec<char>| c@,
            ).push(v@[j as int]@));
        }
        j = j + 1;
    }
    proof {
        assert(v@.take(v@.len() as int) =~= v@);
    }
    r
}

/// The graph as a compact text for a reader with a bounded budget: a header
/// with the languages and the totals, then one section per file in ascending
/// order of path. With a budget of `t` tokens the text stops, with a
/// truncation line, before the first section that would take it past `4 * t`
/// bytes.
pub fn export_ai_context(graph: &CodeGraph, max_tokens: Option<usize>) -> (r: String)
    requires
        max_tokens matches Some(t) ==> t * 4 <= usize::MAX,
    ensures
        r@ == ai_context_text(
            *graph,
            match max_tokens {
                Some(t) => Some(t * 4),
                None => None,
            },
        ),
{
    let ghost max: Option<int> = match max_tokens {
        Some(t) => Some(t * 4),
        None => None,
    };
    let max_chars: Option<usize> = match max_tokens {
        Some(t) => Some(t * 4),
        None => None,
    };
    let mut langs: Vec<Vec<char>> = Vec::new();
    let mut li: usize = 0;
    while li < graph.metadata.languages.len()
        invariant
            li <= graph.metadata.languages@.len(),
            langs@.map_values(|v: Vec<char>| v@) == graph.metadata.languages@.take(
                li as int,
            ).map_values(|l: crate::symbol::Language| language_name(l)),
        decreases graph.metadata.languages@.len() - li,
    {
        let name = chars_of(graph.metadata.languages[li].as_str());
        let ghost before = langs@.map_values(|v: Vec<char>| v@);
        langs.push(name);
        proof {
            assert(graph.metadata.languages@.take(li as int + 1) =~= graph.metadata.languages@.take(
                li as int,
            ).push(graph.metadata.languages@[li as int]));
            assert(langs@.map_values(|v: Vec<char>| v@) =~= before.push(name@));
            assert(langs@.map_values(|v: Vec<char>| v@) =~= graph.metadata.languages@.take(
                li as int + 1,
            ).map_values(|l: crate::symbol::Language| language_name(l)));
        }
        li = li + 1;
    }
    proof {
        assert(graph.metadata.languages@.take(graph.metadata.languages@.len() as int)
            =~= graph.metadata.languages@);
    }
    let mut out: Vec<char> = Vec::new();
    append_str(&mut out, "# Project (");
    append_chars(&mut out, &join_chars(&langs, &chars_of(", ")));
    append_str(&mut out, ") — ");
    append_chars(&mut out, &fmt_u64(graph.metadata.total_nodes as u64));
    append_str(&mut out, " symbols, ");
    append_chars(&mut out, &fmt_u64(graph.metadata.total_edges as u64));
    append_str(&mut out, " relationships\n\n");
    let ghost head = ai_header(
        graph.metadata.languages@,
        graph.metadata.total_nodes as nat,
        graph.metadata.total_edges as nat,
    );
    proof {
        assert(out@ =~= head);
    }
    let paths = graph.file_paths();
    let files = sort_paths(&paths);
    let ghost secs = ai_sections(*graph);
    let ghost fv = files@.map_values(|s: String| s@);
    proof {
        assert(secs.skip(0) =~= secs);
    }
    let mut i: usize = 0;
    while i < files.len()
        invariant
            i <= files@.len(),
            fv == files@.map_values(|s: String| s@),
            fv == sorted_distinct(distinct_paths(graph.node_views())),
            secs == ai_sections(*graph),
            secs.len() == files@.len(),
            head == ai_header(
                graph.metadata.languages@,
                graph.metadata.total_nodes as nat,
                graph.metadata.total_edges as nat,
            ),
            max == (match max_tokens {
                Some(t) => Some(t * 4),
                None => None::<int>,
            }),
            max_chars == (match max_tokens {
                Some(t) => Some((t * 4) as usize),
                None => None::<usize>,
            }),
            max_tokens matches Some(t) ==> t * 4 <= usize::MAX,
            ai_fold(out@, secs.skip(i as int), max) == ai_fold(head, secs, max),
        decreases files@.len() - i,
    {
        let path = &files[i];
        let rel = match strip_path_prefix(path.as_str(), graph.project_root.as_str()) {
            Some(r) => r,
            None => path.clone(),
        };
        let sec_s = ai_context_file_section(graph, path.as_str(), rel.as_str());
        let sec = chars_of(sec_s.as_str());
        proof {
            assert(fv[i as int] == path@);
            assert(rel@ == relative_of(path@, graph.project_root@));
            assert(secs[i as int] == sec@);
            assert(secs.skip(i as int)[0] == sec@);
            assert(secs.skip(i as int).drop_first() =~= secs.skip(i as int + 1));
        }
        match max_chars {
            Some(m) => {
                let a = utf8_byte_len(&out);
                let b = utf8_byte_len(&sec);
                if a > m as u128 || b > m as u128 - a {
                    proof {
                        assert(max == Some(m as int));
                        assert(byte_len(out@) + byte_len(sec@) > m);
                        assert(ai_fold(out@, secs.skip(i as int), max) == out@
                            + "... (truncated)\n"@);
                    }
                    append_str(&mut out, "... (truncated)\n");
                    return string_of(&out);
                }
            },
            None => {},
        }
        proof {
            assert(max is Some ==> byte_len(out@) + byte_len(sec@) <= max->0);
        }
        append_chars(&mut out, &sec);
        i = i + 1;
    }
    proof {
        assert(secs.skip(i as int).len() == 0);
    }
    string_of(&out)
}


pub open spec fn not_containment() -> spec_fn(Edge) -> bool {
    |e: Edge| e.kind != EdgeKind::Contains
}

/// The edge lines of a graph are the lines of its edges other than
/// containment, each edge once, labelled with its kind, in edge order.
pub proof fn lemma_dot_edges_drawn(edges: Seq<Edge>)
    ensures
        dot_edge_lines(edges) == edges.filter(not_containment()).map_values(|e: Edge| dot_edge_line(e)).flatten(),
    decreases edges.len(),
{
    reveal(Seq::filter);
    if edges.len() > 0 {
        let d = edges.drop_last();
        lemma_dot_edges_drawn(d);
        let e = edges.last();
        let f = d.filter(not_containment());
        if not_containment()(e) {
            assert(edges.filter(not_containment()) == f.push(e));
            assert(f.push(e).map_values(|e: Edge| dot_edge_line(e)) =~= f.map_values(
                |e: Edge| dot_edge_line(e),
            ).push(dot_edge_line(e)));
            f.map_values(|e: Edge| dot_edge_line(e)).lemma_flatten_push(dot_edge_line(e));
        } else {
            assert(edges.filter(not_containment()) == f);
            assert(dot_edge_lines(edges) =~= dot_edge_lines(d));
        }
    }
}

/// The DOT text of a graph is its DOT text without edges, with one line per
/// edge other than containment inserted before the closing brace.
pub proof fn lemma_dot_text_edges(nodes: Seq<SymbolView>, edges: Seq<Edge>)
    ensures
        dot_text(nodes, edges) == dot_text(nodes, seq![]).take(dot_text(nodes, seq![]).len() - 2)
            + edges.filter(not_containment()).map_values(|e: Edge| dot_edge_line(e)).flatten()
            + "}\n"@,
{
    lemma_dot_edges_drawn(edges);
    reveal_strlit("}\n");
    let base = dot_text(nodes, seq![]);
    let pre = "digraph CodeGraph {\n  rankdir=LR;\n  node [shape=box fontsize=10];\n\n"@ + dot_node_lines(nodes) + "\n"@;
    assert(dot_edge_lines(seq![]) =~= Seq::<char>::empty());
    assert(base =~= pre + "}\n"@);
    assert(base.take(base.len() - 2) =~= pre);
}

} // verus!
