//! The rows a graph is stored as (one per symbol, resolved edge and file
//! hash), and the graph read back from such rows. Running the SQL is left to
//! the caller.
use vstd::prelude::*;
use crate::symbol::{
    SymbolNode, SymbolView, SymbolKind, Language, Visibility, NodeId, id_hex, kind_label,
    kind_of_label, language_name, language_of_name, visibility_name, visibility_of_name, opt_view,
    copy_opt, lemma_id_hex_roundtrip, lemma_kind_label_roundtrip, lemma_language_name_roundtrip,
    lemma_visibility_name_roundtrip,
};
use crate::relation::{Edge, EdgeKind, edge_kind_name, edge_kind_of_name, lemma_edge_kind_name_roundtrip};
use crate::graph::{CodeGraph, FileHash, FileHashView, views, hash_views, has_id, upsert_all, ids_distinct, upsert};
use crate::num::parse_unsigned;

verus! {

broadcast use vstd::seq_lib::group_seq_properties;

/// One stored symbol.
pub struct NodeRow {
    pub id: String,
    pub name: String,
    pub kind: String,
    pub file_path: String,
    pub line_start: i64,
    pub line_end: i64,
    pub signature: Option<String>,
    pub doc_comment: Option<String>,
    pub visibility: String,
    pub language: String,
    pub parent_id: Option<String>,
}

pub struct NodeRowView {
    pub id: Seq<char>,
    pub name: Seq<char>,
    pub kind: Seq<char>,
    pub file_path: Seq<char>,
    pub line_start: i64,
    pub line_end: i64,
    pub signature: Option<Seq<char>>,
    pub doc_comment: Option<Seq<char>>,
    pub visibility: Seq<char>,
    pub language: Seq<char>,
    pub parent_id: Option<Seq<char>>,
}

impl View for NodeRow {
    type V = NodeRowView;

    open spec fn view(&self) -> NodeRowView {
        NodeRowView {
            id: self.id@,
            name: self.name@,
            kind: self.kind@,
            file_path: self.file_path@,
            line_start: self.line_start,
            line_end: self.line_end,
            signature: opt_view(self.signature),
            doc_comment: opt_view(self.doc_comment),
            visibility: self.visibility@,
            language: self.language@,
            parent_id: opt_view(self.parent_id),
        }
    }
}

/// One stored resolved edge.
pub struct EdgeRow {
    pub source_id: String,
    pub target_id: String,
    pub kind: String,
}

pub struct EdgeRowView {
    pub source_id: Seq<char>,
    pub target_id: Seq<char>,
    pub kind: Seq<char>,
}

impl View for EdgeRow {
    type V = EdgeRowView;

    open spec fn view(&self) -> EdgeRowView {
        EdgeRowView { source_id: self.source_id@, target_id: self.target_id@, kind: self.kind@ }
    }
}

/// One stored file hash.
pub struct HashRow {
    pub file_path: String,
    pub hash: Vec<u8>,
}

impl View for HashRow {
    type V = FileHashView;

    open spec fn view(&self) -> FileHashView {
        FileHashView { path: self.file_path@, hash: self.hash@ }
    }
}

/// The rows of a whole graph.
pub struct GraphRows {
    pub nodes: Vec<NodeRow>,
    pub edges: Vec<EdgeRow>,
    pub hashes: Vec<HashRow>,
}

pub open spec fn node_row_views(r: Seq<NodeRow>) -> Seq<NodeRowView> {
    r.map_values(|x: NodeRow| x@)
}

pub open spec fn edge_row_views(r: Seq<EdgeRow>) -> Seq<EdgeRowView> {
    r.map_values(|x: EdgeRow| x@)
}

pub open spec fn hash_row_views(r: Seq<HashRow>) -> Seq<FileHashView> {
    r.map_values(|x: HashRow| x@)
}

// ---------------------------------------------------------------------------
// Writing.
// ---------------------------------------------------------------------------

/// The parent a stored symbol refers to: only one present among `nodes`.
pub open spec fn stored_parent(nodes: Seq<SymbolView>, n: SymbolView) -> Option<NodeId> {
    match n.parent {
        Some(p) => if has_id(nodes, p) {
            Some(p)
        } else {
            None
        },
        None => None,
    }
}

/// The row of symbol `n` of the graph whose symbols are `nodes`.
pub open spec fn node_row_of(nodes: Seq<SymbolView>, n: SymbolView) -> NodeRowView {
    NodeRowView {
        id: id_hex(n.id),
        name: n.name,
        kind: kind_label(n.kind),
        file_path: n.file_path,
        line_start: n.line_range.0 as i64,
        line_end: n.line_range.1 as i64,
        signature: n.signature,
        doc_comment: n.doc_comment,
        visibility: visibility_name(n.visibility),
        language: language_name(n.language),
        parent_id: match stored_parent(nodes, n) {
            Some(p) => Some(id_hex(p)),
            None => None,
        },
    }
}

/// The row of a resolved edge.
pub open spec fn edge_row_of(e: Edge) -> EdgeRowView {
    EdgeRowView { source_id: id_hex(e.source), target_id: id_hex(e.target), kind: edge_kind_name(e.kind) }
}

/// Edges both of whose ends are symbols of `nodes`.
pub open spec fn between(nodes: Seq<SymbolView>) -> spec_fn(Edge) -> bool {
    |e: Edge| has_id(nodes, e.source) && has_id(nodes, e.target)
}

/// The rows of a graph: one per symbol (a missing parent left out), one per
/// edge between present symbols (in order), one per file hash.
pub open spec fn node_rows_of(nodes: Seq<SymbolView>) -> Seq<NodeRowView> {
    nodes.map_values(|n: SymbolView| node_row_of(nodes, n))
}

pub open spec fn edge_rows_of(nodes: Seq<SymbolView>, edges: Seq<Edge>) -> Seq<EdgeRowView> {
    edges.filter(between(nodes)).map_values(|e: Edge| edge_row_of(e))
}

fn opt_string(o: &Option<String>) -> (r: Option<String>)
    ensures
        opt_view(r) == opt_view(*o),
{
    copy_opt(o)
}

/// The rows that store `graph`: each symbol (its parent only when that parent
/// is present), each edge whose two ends are present, each file hash.
pub fn rows_for_save(graph: &CodeGraph) -> (r: GraphRows)
    ensures
        node_row_views(r.nodes@) == node_rows_of(graph.node_views()),
        edge_row_views(r.edges@) == edge_rows_of(graph.node_views(), graph.edges@),
        hash_row_views(r.hashes@) == hash_views(graph.file_hashes@),
{
    let ghost nv = graph.node_views();
    let mut nodes: Vec<NodeRow> = Vec::new();
    let mut i: usize = 0;
    while i < graph.nodes.len()
        invariant
            i <= graph.nodes@.len(),
            nv == graph.node_views(),
            node_row_views(nodes@) == node_rows_of(nv).take(i as int),
        decreases graph.nodes@.len() - i,
    {
        let n = &graph.nodes[i];
        let parent_id = match n.parent {
            Some(p) => {
                if graph.contains_node(p) {
                    Some(p.to_hex())
                } else {
                    None
                }
            },
            None => None,
        };
        let row = NodeRow {
            id: n.id.to_hex(),
            name: n.name.clone(),
            kind: n.kind.label().to_string(),
            file_path: n.file_path.clone(),
            line_start: n.line_range.0 as i64,
            line_end: n.line_range.1 as i64,
            signature: opt_string(&n.signature),
            doc_comment: opt_string(&n.doc_comment),
            visibility: n.visibility.as_debug_str().to_string(),
            language: n.language.as_str().to_string(),
            parent_id,
        };
        let ghost before = node_row_views(nodes@);
        nodes.push(row);
        proof {
            assert(nv[i as int] == n@);
            assert(node_row_views(nodes@) =~= before.push(node_row_of(nv, nv[i as int])));
            assert(node_rows_of(nv).take(i as int + 1) =~= node_rows_of(nv).take(i as int).push(
                node_row_of(nv, nv[i as int]),
            ));
        }
        i = i + 1;
    }
    proof {
        assert(node_rows_of(nv).take(graph.nodes@.len() as int) =~= node_rows_of(nv));
    }
    let mut edges: Vec<EdgeRow> = Vec::new();
    let mut j: usize = 0;
    while j < graph.edges.len()
        invariant
            j <= graph.edges@.len(),
            nv == graph.node_views(),
            edge_row_views(edges@) == edge_rows_of(nv, graph.edges@.take(j as int)),
        decreases graph.edges@.len() - j,
    {
        let e = graph.edges[j];
        let ghost t = graph.edges@.take(j as int);
        proof {
            assert(graph.edges@.take(j as int + 1) =~= t.push(e));
            t.lemma_filter_push(e, between(nv));
        }
        if graph.contains_node(e.source) && graph.contains_node(e.target) {
            let ghost before = edge_row_views(edges@);
            edges.push(
                EdgeRow {
                    source_id: e.source.to_hex(),
                    target_id: e.target.to_hex(),
                    kind: e.kind.as_neo4j_type().to_string(),
                },
            );
            proof {
                assert(edge_row_views(edges@) =~= before.push(edge_row_of(e)));
                assert(edge_rows_of(nv, t.push(e)) =~= edge_rows_of(nv, t).push(edge_row_of(e)));
            }
        } else {
            proof {
                assert(edge_rows_of(nv, t.push(e)) =~= edge_rows_of(nv, t));
            }
        }
        j = j + 1;
    }
    proof {
        assert(graph.edges@.take(graph.edges@.len() as int) =~= graph.edges@);
    }
    let mut hashes: Vec<HashRow> = Vec::new();
    let mut k: usize = 0;
    while k < graph.file_hashes.len()
        invariant
            k <= graph.file_hashes@.len(),
            hash_row_views(hashes@) == hash_views(graph.file_hashes@).take(k as int),
        decreases graph.file_hashes@.len() - k,
    {
        let h = &graph.file_hashes[k];
        let ghost before = hash_row_views(hashes@);
        hashes.push(HashRow { file_path: h.path.clone(), hash: vstd::slice::slice_to_vec(h.hash.as_slice()) });
        proof {
            assert(hash_row_views(hashes@) =~= before.push(h@));
            assert(hash_views(graph.file_hashes@).take(k as int + 1) =~= hash_views(
                graph.file_hashes@,
            ).take(k as int).push(h@));
        }
        k = k + 1;
    }
    proof {
        assert(hash_views(graph.file_hashes@).take(graph.file_hashes@.len() as int) =~= hash_views(
            graph.file_hashes@,
        ));
    }
    GraphRows { nodes, edges, hashes }
}

// ---------------------------------------------------------------------------
// Reading.
// ---------------------------------------------------------------------------

/// A hexadecimal identifier.
pub open spec fn id_of_hex(s: Seq<char>) -> Option<NodeId> {
    match parse_unsigned(s, 16, u64::MAX as int) {
        Some(v) => Some(NodeId(v as u64)),
        None => None,
    }
}

/// The symbol a row stands for: `None` when its identifier, kind or language
/// cannot be read; an unknown visibility reads as private, an unreadable
/// parent as none.
pub open spec fn node_of_row(r: NodeRowView) -> Option<SymbolView> {
    match (id_of_hex(r.id), kind_of_label(r.kind), language_of_name(r.language)) {
        (Some(id), Some(kind), Some(lang)) => Some(
            SymbolView {
                id: id,
                name: r.name,
                kind: kind,
                file_path: r.file_path,
                line_range: (r.line_start as u32, r.line_end as u32),
                signature: r.signature,
                doc_comment: r.doc_comment,
                visibility: match visibility_of_name(r.visibility) {
                    Some(v) => v,
                    None => Visibility::Private,
                },
                language: lang,
                parent: match r.parent_id {
                    Some(p) => id_of_hex(p),
                    None => None,
                },
            },
        ),
        _ => None,
    }
}

/// The edge a row stands for (with no source line), if it can be read.
pub open spec fn edge_of_row(r: EdgeRowView) -> Option<Edge> {
    match (id_of_hex(r.source_id), id_of_hex(r.target_id), edge_kind_of_name(r.kind)) {
        (Some(s), Some(t), Some(k)) => Some(Edge { source: s, target: t, kind: k, source_line: 0 }),
        _ => None,
    }
}

/// The symbols of the readable rows, in order.
pub open spec fn nodes_of_rows(rows: Seq<NodeRowView>) -> Seq<SymbolView>
    decreases rows.len(),
{
    if rows.len() == 0 {
        seq![]
    } else {
        let prev = nodes_of_rows(rows.drop_last());
        match node_of_row(rows.last()) {
            Some(n) => prev.push(n),
            None => prev,
        }
    }
}

/// The edges of the readable rows, in order.
pub open spec fn edges_of_rows(rows: Seq<EdgeRowView>) -> Seq<Edge>
    decreases rows.len(),
{
    if rows.len() == 0 {
        seq![]
    } else {
        let prev = edges_of_rows(rows.drop_last());
        match edge_of_row(rows.last()) {
            Some(e) => prev.push(e),
            None => prev,
        }
    }
}

/// Records `h` for its path: replaces the first record of that path, or is appended.
pub open spec fn hash_upsert(hs: Seq<FileHashView>, h: FileHashView) -> Seq<FileHashView> {
    if exists|i: int| 0 <= i < hs.len() && #[trigger] hs[i].path == h.path {
        let i = choose|i: int| 0 <= i < hs.len() && #[trigger] hs[i].path == h.path && (forall|j: int| 0 <= j < i ==> hs[j].path != h.path);
        hs.update(i, h)
    } else {
        hs.push(h)
    }
}

/// The file hashes of the rows holding 32 bytes, recorded in order.
pub open spec fn hashes_of_rows(rows: Seq<FileHashView>) -> Seq<FileHashView>
    decreases rows.len(),
{
    if rows.len() == 0 {
        seq![]
    } else {
        let prev = hashes_of_rows(rows.drop_last());
        if rows.last().hash.len() == 32 {
            hash_upsert(prev, rows.last())
        } else {
            prev
        }
    }
}

fn id_from_hex(s: &String) -> (r: Option<NodeId>)
    ensures
        r == id_of_hex(s@),
{
    NodeId::from_hex(s.as_str())
}

/// The symbol a row stands for, if its identifier, kind and language can be read.
pub fn node_from_row(r: &NodeRow) -> (n: Option<SymbolNode>)
    ensures
        n matches Some(x) ==> node_of_row(r@) == Some(x@),
        n is None ==> node_of_row(r@) is None,
{
    let id = match id_from_hex(&r.id) {
        Some(i) => i,
        None => {
            return None;
        },
    };
    let kind = match SymbolKind::from_label(r.kind.as_str()) {
        Some(k) => k,
        None => {
            return None;
        },
    };
    let language = match Language::from_str(r.language.as_str()) {
        Some(l) => l,
        None => {
            return None;
        },
    };
    let parent = match &r.parent_id {
        Some(p) => id_from_hex(p),
        None => None,
    };
    Some(
        SymbolNode {
            id,
            name: r.name.clone(),
            kind,
            file_path: r.file_path.clone(),
            line_range: (r.line_start as u32, r.line_end as u32),
            signature: opt_string(&r.signature),
            doc_comment: opt_string(&r.doc_comment),
            visibility: Visibility::from_debug_str(r.visibility.as_str()),
            language,
            parent,
        },
    )
}

/// The edge a row stands for, if its ends and kind can be read.
pub fn edge_from_row(r: &EdgeRow) -> (e: Option<Edge>)
    ensures
        e == edge_of_row(r@),
{
    let s = match id_from_hex(&r.source_id) {
        Some(s) => s,
        None => {
            return None;
        },
    };
    let t = match id_from_hex(&r.target_id) {
        Some(t) => t,
        None => {
            return None;
        },
    };
    match EdgeKind::from_neo4j_type(r.kind.as_str()) {
        Some(k) => Some(Edge { source: s, target: t, kind: k, source_line: 0 }),
        None => None,
    }
}

/// Records a file hash in `hs`, replacing the first record of its path.
pub(crate) fn record_hash(hs: &mut Vec<FileHash>, h: FileHash)
    ensures
        hash_views(final(hs)@) == hash_upsert(hash_views(old(hs)@), h@),
{
    let ghost hv = hash_views(hs@);
    let mut i: usize = 0;
    while i < hs.len()
        invariant
            i <= hs@.len(),
            hv == hash_views(hs@),
            hs@ == old(hs)@,
            forall|j: int| 0 <= j < i ==> hv[j].path != h.path@,
        decreases hs@.len() - i,
    {
        if crate::text::str_eq(hs[i].path.as_str(), h.path.as_str()) {
            proof {
                assert(hv[i as int].path == h.path@);
                let c = choose|c: int| 0 <= c < hv.len() && #[trigger] hv[c].path == h@.path && (forall|j: int| 0 <= j < c ==> hv[j].path != h@.path);
                if c < i {
                    assert(hv[c].path != h.path@);
                }
                if c > i {
                    assert(hv[i as int].path != h@.path);
                }
            }
            hs.set(i, h);
            proof {
                assert(hash_views(hs@) =~= hv.update(i as int, hv[i as int]).update(i as int, h@));
            }
            return;
        }
        i = i + 1;
    }
    let ghost hh = h@;
    hs.push(h);
    proof {
        assert(hash_views(hs@) =~= hv.push(hh));
    }
}

/// The graph stored in `rows`: the readable symbols inserted in order, the
/// readable edges, and the 32-byte hashes recorded by path.
pub fn graph_from_rows(project_root: String, rows: &GraphRows) -> (g: CodeGraph)
    ensures
        g.wf(),
        g.project_root@ == project_root@,
        g.node_views() == upsert_all(seq![], nodes_of_rows(node_row_views(rows.nodes@))),
        g.edges@ == edges_of_rows(edge_row_views(rows.edges@)),
        hash_views(g.file_hashes@) == hashes_of_rows(hash_row_views(rows.hashes@)),
        g.raw_edges@.len() == 0,
{
    let mut g = CodeGraph::new(project_root);
    let ghost rn = node_row_views(rows.nodes@);
    let mut i: usize = 0;
    proof {
        assert(g.node_views() =~= Seq::<SymbolView>::empty());
        assert(rn.take(0) =~= Seq::<NodeRowView>::empty());
    }
    while i < rows.nodes.len()
        invariant
            i <= rows.nodes@.len(),
            rn == node_row_views(rows.nodes@),
            g.wf(),
            g.project_root@ == project_root@,
            g.node_views() == upsert_all(seq![], nodes_of_rows(rn.take(i as int))),
            g.edges@.len() == 0,
            g.raw_edges@.len() == 0,
            g.file_hashes@.len() == 0,
        decreases rows.nodes@.len() - i,
    {
        proof {
            assert(rn.take(i as int + 1).drop_last() =~= rn.take(i as int));
            assert(rn.take(i as int + 1).last() == rows.nodes@[i as int]@);
        }
        match node_from_row(&rows.nodes[i]) {
            Some(n) => {
                proof {
                    let s = nodes_of_rows(rn.take(i as int));
                    assert(nodes_of_rows(rn.take(i as int + 1)) == s.push(n@));
                    assert(s.push(n@).drop_last() =~= s);
                }
                g.add_node(n);
            },
            None => {},
        }
        i = i + 1;
    }
    proof {
        assert(rn.take(rows.nodes@.len() as int) =~= rn);
    }
    let ghost re = edge_row_views(rows.edges@);
    let mut j: usize = 0;
    proof {
        assert(re.take(0) =~= Seq::<EdgeRowView>::empty());
    }
    while j < rows.edges.len()
        invariant
            j <= rows.edges@.len(),
            re == edge_row_views(rows.edges@),
            g.wf(),
            g.project_root@ == project_root@,
            g.node_views() == upsert_all(seq![], nodes_of_rows(rn)),
            g.edges@ == edges_of_rows(re.take(j as int)),
            g.raw_edges@.len() == 0,
            g.file_hashes@.len() == 0,
        decreases rows.edges@.len() - j,
    {
        proof {
            assert(re.take(j as int + 1).drop_last() =~= re.take(j as int));
            assert(re.take(j as int + 1).last() == rows.edges@[j as int]@);
        }
        match edge_from_row(&rows.edges[j]) {
            Some(e) => g.add_edge(e),
            None => {},
        }
        j = j + 1;
    }
    proof {
        assert(re.take(rows.edges@.len() as int) =~= re);
    }
    let ghost rh = hash_row_views(rows.hashes@);
    let mut k: usize = 0;
    proof {
        assert(rh.take(0) =~= Seq::<FileHashView>::empty());
        assert(hash_views(g.file_hashes@) =~= Seq::<FileHashView>::empty());
    }
    while k < rows.hashes.len()
        invariant
            k <= rows.hashes@.len(),
            rh == hash_row_views(rows.hashes@),
            g.wf(),
            g.project_root@ == project_root@,
            g.node_views() == upsert_all(seq![], nodes_of_rows(rn)),
            g.edges@ == edges_of_rows(re),
            g.raw_edges@.len() == 0,
            hash_views(g.file_hashes@) == hashes_of_rows(rh.take(k as int)),
        decreases rows.hashes@.len() - k,
    {
        proof {
            assert(rh.take(k as int + 1).drop_last() =~= rh.take(k as int));
            assert(rh.take(k as int + 1).last() == rows.hashes@[k as int]@);
        }
        let row = &rows.hashes[k];
        if row.hash.len() == 32 {
            let mut arr = [0u8; 32];
            let mut b: usize = 0;
            while b < 32
                invariant
                    b <= 32,
                    row.hash@.len() == 32,
                    forall|x: int| 0 <= x < b ==> arr@[x] == row.hash@[x],
                decreases 32 - b,
            {
                arr[b] = row.hash[b];
                b = b + 1;
            }
            proof {
                assert(arr@ =~= row.hash@);
            }
            record_hash(&mut g.file_hashes, FileHash { path: row.file_path.clone(), hash: arr });
        }
        k = k + 1;
    }
    proof {
        assert(rh.take(rows.hashes@.len() as int) =~= rh);
    }
    g
}

// ---------------------------------------------------------------------------
// Reading back what was written.
// ---------------------------------------------------------------------------

/// A symbol as it is stored among `all`: its parent kept only when present.
pub open spec fn stored_node(all: Seq<SymbolView>, n: SymbolView) -> SymbolView {
    SymbolView { parent: stored_parent(all, n), ..n }
}

/// An edge as it is stored: without its source line.
pub open spec fn stored_edge(e: Edge) -> Edge {
    Edge { source_line: 0, ..e }
}

/// Reading back the hexadecimal rendering of an identifier gives the identifier.
pub proof fn lemma_id_of_hex(id: NodeId)
    ensures
        id_of_hex(id_hex(id)) == Some(id),
{
    lemma_id_hex_roundtrip(id);
}

/// Reading back the row of a symbol gives the symbol (a missing parent left out).
pub proof fn lemma_node_row_roundtrip(all: Seq<SymbolView>, n: SymbolView)
    ensures
        node_of_row(node_row_of(all, n)) == Some(stored_node(all, n)),
{
    lemma_id_of_hex(n.id);
    lemma_kind_label_roundtrip(n.kind);
    lemma_language_name_roundtrip(n.language);
    lemma_visibility_name_roundtrip(n.visibility);
    if let Some(p) = stored_parent(all, n) {
        lemma_id_of_hex(p);
    }
}

/// Reading back the row of an edge gives the edge, without its source line.
pub proof fn lemma_edge_row_roundtrip(e: Edge)
    ensures
        edge_of_row(edge_row_of(e)) == Some(stored_edge(e)),
{
    lemma_id_of_hex(e.source);
    lemma_id_of_hex(e.target);
    lemma_edge_kind_name_roundtrip(e.kind);
}

proof fn lemma_nodes_of_stored_rows(all: Seq<SymbolView>, s: Seq<SymbolView>)
    ensures
        nodes_of_rows(s.map_values(|n: SymbolView| node_row_of(all, n))) == s.map_values(
            |n: SymbolView| stored_node(all, n),
        ),
    decreases s.len(),
{
    let rows = s.map_values(|n: SymbolView| node_row_of(all, n));
    if s.len() > 0 {
        lemma_nodes_of_stored_rows(all, s.drop_last());
        assert(rows.drop_last() =~= s.drop_last().map_values(|n: SymbolView| node_row_of(all, n)));
        lemma_node_row_roundtrip(all, s.last());
        assert(s.map_values(|n: SymbolView| stored_node(all, n)) =~= s.drop_last().map_values(
            |n: SymbolView| stored_node(all, n),
        ).push(stored_node(all, s.last())));
    } else {
        assert(rows =~= Seq::<NodeRowView>::empty());
        assert(s.map_values(|n: SymbolView| stored_node(all, n)) =~= Seq::<SymbolView>::empty());
    }
}

/// Inserting symbols with distinct identifiers into nothing keeps them all, in order.
pub proof fn lemma_upsert_all_distinct(s: Seq<SymbolView>)
    requires
        ids_distinct(s),
    ensures
        upsert_all(seq![], s) == s,
    decreases s.len(),
{
    if s.len() > 0 {
        let d = s.drop_last();
        assert(ids_distinct(d)) by {
            assert forall|i: int, j: int|
                0 <= i < d.len() && 0 <= j < d.len() && i != j implies #[trigger] d[i].id != #[trigger] d[j].id by {
                assert(s[i].id != s[j].id);
            }
        }
        lemma_upsert_all_distinct(d);
        assert(!has_id(d, s.last().id)) by {
            if has_id(d, s.last().id) {
                let i = choose|i: int| 0 <= i < d.len() && #[trigger] d[i].id == s.last().id;
                assert(s[i].id != s[s.len() - 1].id);
            }
        }
        assert(d.push(s.last()) =~= s);
    }
}

/// Loading the rows that saving a graph writes gives back its symbols, in
/// order, each with its parent when that parent is a symbol of the graph.
pub proof fn lemma_load_saved_nodes(nodes: Seq<SymbolView>)
    requires
        ids_distinct(nodes),
    ensures
        upsert_all(seq![], nodes_of_rows(node_rows_of(nodes))) == nodes.map_values(
            |n: SymbolView| stored_node(nodes, n),
        ),
{
    lemma_nodes_of_stored_rows(nodes, nodes);
    let t = nodes.map_values(|n: SymbolView| stored_node(nodes, n));
    assert(ids_distinct(t)) by {
        assert forall|i: int, j: int|
            0 <= i < t.len() && 0 <= j < t.len() && i != j implies #[trigger] t[i].id != #[trigger] t[j].id by {
            assert(nodes[i].id != nodes[j].id);
        }
    }
    lemma_upsert_all_distinct(t);
}

proof fn lemma_edges_of_stored_rows(s: Seq<Edge>)
    ensures
        edges_of_rows(s.map_values(|e: Edge| edge_row_of(e))) == s.map_values(
            |e: Edge| stored_edge(e),
        ),
    decreases s.len(),
{
    let rows = s.map_values(|e: Edge| edge_row_of(e));
    if s.len() > 0 {
        lemma_edges_of_stored_rows(s.drop_last());
        assert(rows.drop_last() =~= s.drop_last().map_values(|e: Edge| edge_row_of(e)));
        lemma_edge_row_roundtrip(s.last());
        assert(s.map_values(|e: Edge| stored_edge(e)) =~= s.drop_last().map_values(
            |e: Edge| stored_edge(e),
        ).push(stored_edge(s.last())));
    } else {
        assert(rows =~= Seq::<EdgeRowView>::empty());
        assert(s.map_values(|e: Edge| stored_edge(e)) =~= Seq::<Edge>::empty());
    }
}

/// Loading the rows that saving a graph writes gives back the edges between
/// its symbols, in order, without their source lines.
pub proof fn lemma_load_saved_edges(nodes: Seq<SymbolView>, edges: Seq<Edge>)
    ensures
        edges_of_rows(edge_rows_of(nodes, edges)) == edges.filter(between(nodes)).map_values(
            |e: Edge| stored_edge(e),
        ),
{
    lemma_edges_of_stored_rows(edges.filter(between(nodes)));
}

/// Loading stored file hashes with distinct paths gives them back, in order.
pub proof fn lemma_load_saved_hashes(hs: Seq<FileHashView>)
    requires
        forall|i: int| 0 <= i < hs.len() ==> (#[trigger] hs[i]).hash.len() == 32,
        crate::hash::paths_distinct(hs),
    ensures
        hashes_of_rows(hs) == hs,
    decreases hs.len(),
{
    if hs.len() > 0 {
        let d = hs.drop_last();
        assert(crate::hash::paths_distinct(d)) by {
            assert forall|i: int, j: int|
                0 <= i < d.len() && 0 <= j < d.len() && i != j implies #[trigger] d[i].path != #[trigger] d[j].path by {
                assert(hs[i].path != hs[j].path);
            }
        }
        assert forall|i: int| 0 <= i < d.len() implies (#[trigger] d[i]).hash.len() == 32 by {
            assert(d[i] == hs[i]);
        }
        lemma_load_saved_hashes(d);
        assert(hs[hs.len() - 1].hash.len() == 32);
        assert(!(exists|i: int| 0 <= i < d.len() && #[trigger] d[i].path == hs.last().path)) by {
            if exists|i: int| 0 <= i < d.len() && #[trigger] d[i].path == hs.last().path {
                let i = choose|i: int| 0 <= i < d.len() && #[trigger] d[i].path == hs.last().path;
                assert(hs[i].path != hs[hs.len() - 1].path);
            }
        }
        assert(d.push(hs.last()) =~= hs);
    }
}

/// Recording a hash keeps the recorded paths distinct.
pub proof fn lemma_hash_upsert_distinct(hs: Seq<FileHashView>, h: FileHashView)
    requires
        crate::hash::paths_distinct(hs),
    ensures
        crate::hash::paths_distinct(hash_upsert(hs, h)),
{
    let u = hash_upsert(hs, h);
    if exists|i: int| 0 <= i < hs.len() && #[trigger] hs[i].path == h.path {
        let i = choose|i: int| 0 <= i < hs.len() && #[trigger] hs[i].path == h.path && (forall|j: int| 0 <= j < i ==> hs[j].path != h.path);
        assert(u == hs.update(i, h));
        assert forall|a: int, b: int| 0 <= a < u.len() && 0 <= b < u.len() && a != b implies #[trigger] u[a].path != #[trigger] u[b].path by {
            if a != i && b != i {
                assert(hs[a].path != hs[b].path);
            } else if a == i {
                assert(hs[i].path != hs[b].path);
            } else {
                assert(hs[a].path != hs[i].path);
            }
        }
    } else {
        assert(u == hs.push(h));
        assert forall|a: int, b: int| 0 <= a < u.len() && 0 <= b < u.len() && a != b implies #[trigger] u[a].path != #[trigger] u[b].path by {
            if a < hs.len() && b < hs.len() {
                assert(hs[a].path != hs[b].path);
            } else if a == hs.len() {
                assert(hs[b].path != h.path);
            } else {
                assert(hs[a].path != h.path);
            }
        }
    }
}

/// The hashes recorded from rows never name a path twice.
pub proof fn lemma_hashes_of_rows_distinct(rows: Seq<FileHashView>)
    ensures
        crate::hash::paths_distinct(hashes_of_rows(rows)),
    decreases rows.len(),
{
    if rows.len() > 0 {
        lemma_hashes_of_rows_distinct(rows.drop_last());
        if rows.last().hash.len() == 32 {
            lemma_hash_upsert_distinct(hashes_of_rows(rows.drop_last()), rows.last());
        }
    }
}

} // verus!
