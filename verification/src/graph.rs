//! The in-memory code graph: symbols, resolved edges, raw edges, file hashes.
use vstd::prelude::*;
use crate::symbol::{NodeId, SymbolNode, SymbolView, Language};
use crate::relation::{Edge, RawEdge, RawEdgeView};
use crate::text::{str_eq, chars_of, eq_chars};

verus! {

broadcast use vstd::seq_lib::group_seq_properties;

/// The content hash recorded for one file.
pub struct FileHash {
    pub path: String,
    pub hash: [u8; 32],
}

/// Summary figures of a graph.
pub struct GraphMetadata {
    pub total_nodes: usize,
    pub total_edges: usize,
    pub total_files: usize,
    /// Languages present, in order of first appearance.
    pub languages: Vec<Language>,
}

/// Symbols of a project together with the relationships between them.
pub struct CodeGraph {
    pub project_root: String,
    /// Symbols; no two share an identifier.
    pub nodes: Vec<SymbolNode>,
    /// Resolved edges, in the order they were added.
    pub edges: Vec<Edge>,
    /// Edges still waiting for resolution.
    pub raw_edges: Vec<RawEdge>,
    pub file_hashes: Vec<FileHash>,
    pub metadata: GraphMetadata,
}

pub open spec fn views(nodes: Seq<SymbolNode>) -> Seq<SymbolView> {
    nodes.map_values(|n: SymbolNode| n@)
}

pub open spec fn raw_views(raw: Seq<RawEdge>) -> Seq<RawEdgeView> {
    raw.map_values(|r: RawEdge| r@)
}

/// No two symbols share an identifier.
pub open spec fn ids_distinct(nodes: Seq<SymbolView>) -> bool {
    forall|i: int, j: int|
        0 <= i < nodes.len() && 0 <= j < nodes.len() && i != j ==> #[trigger] nodes[i].id
            != #[trigger] nodes[j].id
}

/// `id` names one of the symbols.
pub open spec fn has_id(nodes: Seq<SymbolView>, id: NodeId) -> bool {
    exists|i: int| 0 <= i < nodes.len() && #[trigger] nodes[i].id == id
}

/// Inserting a symbol: it replaces the symbol with the same identifier, or is appended.
pub open spec fn upsert(nodes: Seq<SymbolView>, n: SymbolView) -> Seq<SymbolView> {
    if has_id(nodes, n.id) {
        let i = choose|i: int| 0 <= i < nodes.len() && #[trigger] nodes[i].id == n.id;
        nodes.update(i, n)
    } else {
        nodes.push(n)
    }
}

/// Inserting several symbols in order.
pub open spec fn upsert_all(nodes: Seq<SymbolView>, new: Seq<SymbolView>) -> Seq<SymbolView>
    decreases new.len(),
{
    if new.len() == 0 {
        nodes
    } else {
        upsert(upsert_all(nodes, new.drop_last()), new.last())
    }
}

/// Distinct file paths over `nodes`, in order of first appearance.
pub open spec fn distinct_paths(nodes: Seq<SymbolView>) -> Seq<Seq<char>>
    decreases nodes.len(),
{
    if nodes.len() == 0 {
        seq![]
    } else {
        let d = distinct_paths(nodes.drop_last());
        if d.contains(nodes.last().file_path) {
            d
        } else {
            d.push(nodes.last().file_path)
        }
    }
}

/// Distinct languages over `nodes`, in order of first appearance.
pub open spec fn distinct_languages(nodes: Seq<SymbolView>) -> Seq<Language>
    decreases nodes.len(),
{
    if nodes.len() == 0 {
        seq![]
    } else {
        let d = distinct_languages(nodes.drop_last());
        if d.contains(nodes.last().language) {
            d
        } else {
            d.push(nodes.last().language)
        }
    }
}

/// Edges that leave `id`.
pub open spec fn leaves(id: NodeId) -> spec_fn(Edge) -> bool {
    |e: Edge| e.source == id
}

/// Edges that arrive at `id`.
pub open spec fn arrives(id: NodeId) -> spec_fn(Edge) -> bool {
    |e: Edge| e.target == id
}

/// Symbols of the file `path`.
pub open spec fn in_file(path: Seq<char>) -> spec_fn(SymbolView) -> bool {
    |n: SymbolView| n.file_path == path
}

/// Symbols outside the file `path`.
pub open spec fn not_in_file(path: Seq<char>) -> spec_fn(SymbolView) -> bool {
    |n: SymbolView| n.file_path != path
}

/// Edges touching no symbol of the file `path`.
pub open spec fn untouched_by_file(nodes: Seq<SymbolView>, path: Seq<char>) -> spec_fn(Edge) -> bool {
    |e: Edge| !id_in_file(nodes, path, e.source) && !id_in_file(nodes, path, e.target)
}

/// Raw edges whose source is no symbol of the file `path`.
pub open spec fn raw_untouched_by_file(nodes: Seq<SymbolView>, path: Seq<char>) -> spec_fn(
    RawEdgeView,
) -> bool {
    |r: RawEdgeView| !id_in_file(nodes, path, r.source)
}

/// The mathematical value of a file hash.
pub struct FileHashView {
    pub path: Seq<char>,
    pub hash: Seq<u8>,
}

impl View for FileHash {
    type V = FileHashView;

    open spec fn view(&self) -> FileHashView {
        FileHashView { path: self.path@, hash: self.hash@ }
    }
}

pub open spec fn hash_views(h: Seq<FileHash>) -> Seq<FileHashView> {
    h.map_values(|f: FileHash| f@)
}

/// Hash records of files other than `path`.
pub open spec fn other_path(path: Seq<char>) -> spec_fn(FileHashView) -> bool {
    |h: FileHashView| h.path != path
}

/// Whether `id` occurs in `ids`.
pub fn contains_id(ids: &Vec<NodeId>, id: NodeId) -> (r: bool)
    ensures
        r == ids@.contains(id),
{
    let mut i: usize = 0;
    while i < ids.len()
        invariant
            i <= ids@.len(),
            forall|j: int| 0 <= j < i ==> ids@[j] != id,
        decreases ids@.len() - i,
    {
        if ids[i] == id {
            proof {
                assert(ids@[i as int] == id);
            }
            return true;
        }
        i = i + 1;
    }
    false
}

/// A filtered sequence of symbols keeps identifiers distinct.
pub proof fn lemma_filter_keeps_distinct(nodes: Seq<SymbolView>, pred: spec_fn(SymbolView) -> bool)
    requires
        ids_distinct(nodes),
    ensures
        ids_distinct(nodes.filter(pred)),
        forall|n: SymbolView| #[trigger] nodes.filter(pred).contains(n) ==> nodes.contains(n),
    decreases nodes.len(),
{
    reveal(Seq::filter);
    if nodes.len() > 0 {
        let d = nodes.drop_last();
        assert(ids_distinct(d)) by {
            assert forall|a: int, b: int| 0 <= a < d.len() && 0 <= b < d.len() && a != b implies #[trigger] d[a].id != #[trigger] d[b].id by {
                assert(nodes[a].id != nodes[b].id);
            }
        }
        lemma_filter_keeps_distinct(d, pred);
        let f = d.filter(pred);
        if pred(nodes.last()) {
            let g = f.push(nodes.last());
            assert forall|a: int, b: int| 0 <= a < g.len() && 0 <= b < g.len() && a != b implies #[trigger] g[a].id != #[trigger] g[b].id by {
                if a < f.len() && b < f.len() {
                } else if a == f.len() {
                    assert(f.contains(g[b]));
                    assert(d.contains(g[b]));
                    let k = choose|k: int| 0 <= k < d.len() && d[k] == g[b];
                    assert(nodes[k].id != nodes[nodes.len() - 1].id);
                } else {
                    assert(f.contains(g[a]));
                    assert(d.contains(g[a]));
                    let k = choose|k: int| 0 <= k < d.len() && d[k] == g[a];
                    assert(nodes[k].id != nodes[nodes.len() - 1].id);
                }
            }
            assert forall|n: SymbolView| #[trigger] g.contains(n) implies nodes.contains(n) by {
                if f.contains(n) {
                    let k = choose|k: int| 0 <= k < d.len() && d[k] == n;
                    assert(nodes[k] == n);
                } else {
                    assert(n == nodes.last());
                    assert(nodes[nodes.len() - 1] == n);
                }
            }
        } else {
            assert forall|n: SymbolView| #[trigger] f.contains(n) implies nodes.contains(n) by {
                let k = choose|k: int| 0 <= k < d.len() && d[k] == n;
                assert(nodes[k] == n);
            }
        }
    }
}

/// The identifiers of the symbols of one file, in order.
pub open spec fn ids_in_file(nodes: Seq<SymbolView>, path: Seq<char>) -> Seq<NodeId> {
    nodes.filter(in_file(path)).map_values(|n: SymbolView| n.id)
}

/// `id` is the identifier of a symbol of the file `path`.
pub open spec fn id_in_file(nodes: Seq<SymbolView>, path: Seq<char>, id: NodeId) -> bool {
    exists|i: int| 0 <= i < nodes.len() && #[trigger] nodes[i].id == id && nodes[i].file_path == path
}

impl CodeGraph {
    pub open spec fn node_views(&self) -> Seq<SymbolView> {
        views(self.nodes@)
    }

    pub open spec fn wf(&self) -> bool {
        &&& ids_distinct(self.node_views())
        &&& crate::hash::paths_distinct(hash_views(self.file_hashes@))
    }

    /// An empty graph for the project at `project_root`.
    pub fn new(project_root: String) -> (g: CodeGraph)
        ensures
            g.wf(),
            g.project_root@ == project_root@,
            g.nodes@.len() == 0,
            g.edges@.len() == 0,
            g.raw_edges@.len() == 0,
            g.file_hashes@.len() == 0,
    {
        CodeGraph {
            project_root,
            nodes: Vec::new(),
            edges: Vec::new(),
            raw_edges: Vec::new(),
            file_hashes: Vec::new(),
            metadata: GraphMetadata {
                total_nodes: 0,
                total_edges: 0,
                total_files: 0,
                languages: Vec::new(),
            },
        }
    }

    /// The position of the symbol with identifier `id`.
    pub fn find_node(&self, id: NodeId) -> (r: Option<usize>)
        ensures
            r matches Some(i) ==> i < self.nodes@.len() && self.nodes@[i as int].id == id,
            r is None ==> !has_id(self.node_views(), id),
    {
        let mut i: usize = 0;
        while i < self.nodes.len()
            invariant
                i <= self.nodes@.len(),
                forall|j: int| 0 <= j < i ==> self.nodes@[j].id != id,
            decreases self.nodes@.len() - i,
        {
            if self.nodes[i].id == id {
                return Some(i);
            }
            i = i + 1;
        }
        proof {
            assert forall|j: int| 0 <= j < self.node_views().len() implies #[trigger] self.node_views()[j].id != id by {
                assert(self.node_views()[j].id == self.nodes@[j].id);
            }
        }
        None
    }

    /// Whether a symbol with identifier `id` is present.
    pub fn contains_node(&self, id: NodeId) -> (r: bool)
        ensures
            r == has_id(self.node_views(), id),
    {
        match self.find_node(id) {
            Some(i) => {
                proof {
                    assert(self.node_views()[i as int].id == id);
                }
                true
            },
            None => false,
        }
    }

    /// The symbol with identifier `id`, if present.
    pub fn get_node(&self, id: NodeId) -> (r: Option<&SymbolNode>)
        ensures
            r matches Some(n) ==> n.id == id && self.nodes@.contains(*n),
            r is None ==> !has_id(self.node_views(), id),
    {
        match self.find_node(id) {
            Some(i) => Some(&self.nodes[i]),
            None => None,
        }
    }

    /// Inserts a symbol, replacing the symbol with the same identifier if there is one.
    pub fn add_node(&mut self, node: SymbolNode)
        requires
            old(self).wf(),
        ensures
            final(self).wf(),
            has_id(old(self).node_views(), node.id) ==> exists|i: int|
                0 <= i < old(self).nodes@.len() && old(self).nodes@[i].id == node.id
                    && final(self).node_views() == old(self).node_views().update(i, node@),
            !has_id(old(self).node_views(), node.id) ==> final(self).node_views()
                == old(self).node_views().push(node@),
            final(self).node_views() == upsert(old(self).node_views(), node@),
            final(self).edges@ == old(self).edges@,
            final(self).raw_edges@ == old(self).raw_edges@,
            final(self).file_hashes@ == old(self).file_hashes@,
            final(self).project_root@ == old(self).project_root@,
    {
        let ghost nv = node@;
        let ghost id = node.id;
        match self.find_node(node.id) {
            Some(i) => {
                proof {
                    assert(old(self).node_views()[i as int].id == id);
                    assert(has_id(old(self).node_views(), id));
                }
                self.nodes.set(i, node);
                proof {
                    assert(self.node_views() =~= old(self).node_views().update(i as int, nv));
                    let c = choose|c: int| 0 <= c < old(self).node_views().len() && #[trigger] old(self).node_views()[c].id == id;
                    if c != i {
                        assert(old(self).node_views()[c].id != old(self).node_views()[i as int].id);
                    }
                    assert forall|a: int, b: int|
                        0 <= a < self.node_views().len() && 0 <= b < self.node_views().len() && a
                            != b implies #[trigger] self.node_views()[a].id != #[trigger] self.node_views()[b].id by {
                        if a != i && b != i {
                            assert(old(self).node_views()[a].id != old(self).node_views()[b].id);
                        } else if a == i {
                            assert(old(self).node_views()[i as int].id == id);
                            assert(old(self).node_views()[b].id != old(self).node_views()[i as int].id);
                        } else {
                            assert(old(self).node_views()[i as int].id == id);
                            assert(old(self).node_views()[a].id != old(self).node_views()[i as int].id);
                        }
                    }
                }
            },
            None => {
                self.nodes.push(node);
                proof {
                    assert(self.node_views() =~= old(self).node_views().push(nv));
                    assert forall|a: int, b: int|
                        0 <= a < self.node_views().len() && 0 <= b < self.node_views().len() && a
                            != b implies #[trigger] self.node_views()[a].id != #[trigger] self.node_views()[b].id by {
                        let n = old(self).node_views().len();
                        if a < n && b < n {
                            assert(old(self).node_views()[a].id != old(self).node_views()[b].id);
                        } else if a == n {
                            assert(old(self).node_views()[b].id != id);
                        } else {
                            assert(old(self).node_views()[a].id != id);
                        }
                    }
                }
            },
        }
    }

    /// Appends a resolved edge.
    pub fn add_edge(&mut self, edge: Edge)
        ensures
            final(self).edges@ == old(self).edges@.push(edge),
            final(self).nodes@ == old(self).nodes@,
            final(self).raw_edges@ == old(self).raw_edges@,
            final(self).file_hashes@ == old(self).file_hashes@,
            final(self).project_root@ == old(self).project_root@,
    {
        self.edges.push(edge);
    }

    /// Appends a raw edge.
    pub fn add_raw_edge(&mut self, edge: RawEdge)
        ensures
            final(self).raw_edges@ == old(self).raw_edges@.push(edge),
            final(self).nodes@ == old(self).nodes@,
            final(self).edges@ == old(self).edges@,
            final(self).file_hashes@ == old(self).file_hashes@,
            final(self).project_root@ == old(self).project_root@,
    {
        self.raw_edges.push(edge);
    }

    /// Edges leaving `id`, in insertion order.
    pub fn outgoing(&self, id: NodeId) -> (r: Vec<Edge>)
        ensures
            r@ == self.edges@.filter(leaves(id)),
    {
        let mut r: Vec<Edge> = Vec::new();
        let mut i: usize = 0;
        while i < self.edges.len()
            invariant
                i <= self.edges@.len(),
                r@ == self.edges@.take(i as int).filter(leaves(id)),
            decreases self.edges@.len() - i,
        {
            let e = self.edges[i];
            proof {
                assert(self.edges@.take(i as int + 1) =~= self.edges@.take(i as int).push(e));
            }
            proof {
                self.edges@.take(i as int).lemma_filter_push(e, leaves(id));
            }
            if e.source == id {
                r.push(e);
            }
            i = i + 1;
        }
        proof {
            assert(self.edges@.take(self.edges@.len() as int) =~= self.edges@);
        }
        r
    }

    /// Edges arriving at `id`, in insertion order.
    pub fn incoming(&self, id: NodeId) -> (r: Vec<Edge>)
        ensures
            r@ == self.edges@.filter(arrives(id)),
    {
        let mut r: Vec<Edge> = Vec::new();
        let mut i: usize = 0;
        while i < self.edges.len()
            invariant
                i <= self.edges@.len(),
                r@ == self.edges@.take(i as int).filter(arrives(id)),
            decreases self.edges@.len() - i,
        {
            let e = self.edges[i];
            proof {
                assert(self.edges@.take(i as int + 1) =~= self.edges@.take(i as int).push(e));
            }
            proof {
                self.edges@.take(i as int).lemma_filter_push(e, arrives(id));
            }
            if e.target == id {
                r.push(e);
            }
            i = i + 1;
        }
        proof {
            assert(self.edges@.take(self.edges@.len() as int) =~= self.edges@);
        }
        r
    }

    /// The files that symbols belong to, each once, in order of first appearance.
    pub fn file_paths(&self) -> (r: Vec<String>)
        ensures
            r@.map_values(|s: String| s@) == distinct_paths(self.node_views()),
    {
        let mut r: Vec<String> = Vec::new();
        let mut i: usize = 0;
        while i < self.nodes.len()
            invariant
                i <= self.nodes@.len(),
                r@.map_values(|s: String| s@) == distinct_paths(self.node_views().take(i as int)),
            decreases self.nodes@.len() - i,
        {
            let p = &self.nodes[i].file_path;
            let ghost prev = r@.map_values(|s: String| s@);
            let pc = chars_of(p.as_str());
            let mut found = false;
            let mut k: usize = 0;
            while k < r.len()
                invariant
                    k <= r@.len(),
                    prev == r@.map_values(|s: String| s@),
                    pc@ == p@,
                    !found ==> forall|j: int| 0 <= j < k ==> prev[j] != p@,
                    found ==> prev.contains(p@),
                decreases r@.len() - k,
            {
                let q = chars_of(r[k].as_str());
                if eq_chars(&q, &pc) {
                    proof {
                        assert(prev[k as int] == p@);
                    }
                    found = true;
                }
                k = k + 1;
            }
            proof {
                assert(self.node_views().take(i as int + 1).drop_last() =~= self.node_views().take(
                    i as int,
                ));
                assert(self.node_views().take(i as int + 1).last() == self.nodes@[i as int]@);
            }
            if !found {
                r.push(p.clone());
                proof {
                    assert(r@.map_values(|s: String| s@) =~= prev.push(p@));
                }
            }
            i = i + 1;
        }
        proof {
            assert(self.node_views().take(self.nodes@.len() as int) =~= self.node_views());
        }
        r
    }

    /// Identifiers of the symbols of the file `path`, in order.
    pub fn file_node_ids(&self, path: &str) -> (r: Vec<NodeId>)
        ensures
            r@ == ids_in_file(self.node_views(), path@),
    {
        let mut r: Vec<NodeId> = Vec::new();
        let mut i: usize = 0;
        while i < self.nodes.len()
            invariant
                i <= self.nodes@.len(),
                r@ == ids_in_file(self.node_views().take(i as int), path@),
            decreases self.nodes@.len() - i,
        {
            let ghost t = self.node_views().take(i as int);
            proof {
                assert(self.node_views().take(i as int + 1) =~= t.push(self.nodes@[i as int]@));
                t.lemma_filter_push(self.nodes@[i as int]@, in_file(path@));
            }
            if str_eq(self.nodes[i].file_path.as_str(), path) {
                r.push(self.nodes[i].id);
                proof {
                    assert(ids_in_file(self.node_views().take(i as int + 1), path@) =~= ids_in_file(
                        t,
                        path@,
                    ).push(self.nodes@[i as int].id));
                }
            } else {
                proof {
                    assert(ids_in_file(self.node_views().take(i as int + 1), path@) =~= ids_in_file(
                        t,
                        path@,
                    ));
                }
            }
            i = i + 1;
        }
        proof {
            assert(self.node_views().take(self.nodes@.len() as int) =~= self.node_views());
        }
        r
    }

    /// Recomputes the summary figures.
    pub fn refresh_metadata(&mut self)
        ensures
            final(self).nodes@ == old(self).nodes@,
            final(self).edges@ == old(self).edges@,
            final(self).raw_edges@ == old(self).raw_edges@,
            final(self).file_hashes@ == old(self).file_hashes@,
            final(self).project_root@ == old(self).project_root@,
            final(self).metadata.total_nodes == old(self).nodes@.len(),
            final(self).metadata.total_edges == old(self).edges@.len(),
            final(self).metadata.total_files == distinct_paths(old(self).node_views()).len(),
            final(self).metadata.languages@ == distinct_languages(old(self).node_views()),
    {
        let files = self.file_paths();
        let mut langs: Vec<Language> = Vec::new();
        let mut i: usize = 0;
        while i < self.nodes.len()
            invariant
                i <= self.nodes@.len(),
                langs@ == distinct_languages(self.node_views().take(i as int)),
            decreases self.nodes@.len() - i,
        {
            let l = self.nodes[i].language;
            let mut found = false;
            let mut k: usize = 0;
            while k < langs.len()
                invariant
                    k <= langs@.len(),
                    !found ==> forall|j: int| 0 <= j < k ==> langs@[j] != l,
                    found ==> langs@.contains(l),
                decreases langs@.len() - k,
            {
                if langs[k] == l {
                    proof {
                        assert(langs@[k as int] == l);
                    }
                    found = true;
                }
                k = k + 1;
            }
            proof {
                assert(self.node_views().take(i as int + 1).drop_last() =~= self.node_views().take(
                    i as int,
                ));
                assert(self.node_views().take(i as int + 1).last() == self.nodes@[i as int]@);
            }
            if !found {
                langs.push(l);
            }
            i = i + 1;
        }
        proof {
            assert(self.node_views().take(self.nodes@.len() as int) =~= self.node_views());
        }
        self.metadata = GraphMetadata {
            total_nodes: self.nodes.len(),
            total_edges: self.edges.len(),
            total_files: files.len(),
            languages: langs,
        };
    }

    /// Records the hash of a file, replacing an earlier record of its path.
    pub fn record_file_hash(&mut self, h: FileHash)
        requires
            old(self).wf(),
        ensures
            final(self).wf(),
            hash_views(final(self).file_hashes@) == crate::storage::hash_upsert(
                hash_views(old(self).file_hashes@),
                h@,
            ),
            final(self).nodes@ == old(self).nodes@,
            final(self).edges@ == old(self).edges@,
            final(self).raw_edges@ == old(self).raw_edges@,
            final(self).project_root@ == old(self).project_root@,
    {
        proof {
            crate::storage::lemma_hash_upsert_distinct(hash_views(self.file_hashes@), h@);
        }
        crate::storage::record_hash(&mut self.file_hashes, h);
    }

    /// Removes the symbols of the file `path`, the edges and raw edges that touch
    /// them, and the file's recorded hash.
    pub fn remove_file(&mut self, path: &str)
        requires
            old(self).wf(),
        ensures
            final(self).wf(),
            final(self).node_views() == old(self).node_views().filter(not_in_file(path@)),
            final(self).edges@ == old(self).edges@.filter(
                untouched_by_file(old(self).node_views(), path@),
            ),
            raw_views(final(self).raw_edges@) == raw_views(old(self).raw_edges@).filter(
                raw_untouched_by_file(old(self).node_views(), path@),
            ),
            hash_views(final(self).file_hashes@) == hash_views(old(self).file_hashes@).filter(
                other_path(path@),
            ),
            final(self).project_root@ == old(self).project_root@,
    {
        let ghost nv = self.node_views();
        let pc = chars_of(path);
        // Identifiers of the removed symbols.
        let mut gone: Vec<NodeId> = Vec::new();
        let mut kept: Vec<SymbolNode> = Vec::new();
        let mut i: usize = 0;
        while i < self.nodes.len()
            invariant
                i <= self.nodes@.len(),
                nv == self.node_views(),
                pc@ == path@,
                views(kept@) == nv.take(i as int).filter(not_in_file(path@)),
                forall|id: NodeId| #[trigger] gone@.contains(id) <==> id_in_file(nv.take(i as int), path@, id),
            decreases self.nodes@.len() - i,
        {
            let ghost t = nv.take(i as int);
            let ghost n = nv[i as int];
            proof {
                assert(nv.take(i as int + 1) =~= t.push(n));
                t.lemma_filter_push(n, not_in_file(path@));
            }
            let fc = chars_of(self.nodes[i].file_path.as_str());
            if eq_chars(&fc, &pc) {
                let ghost g0 = gone@;
                gone.push(self.nodes[i].id);
                proof {
                    assert forall|id: NodeId| #[trigger] gone@.contains(id) <==> id_in_file(nv.take(i as int + 1), path@, id) by {
                        if gone@.contains(id) && id != n.id {
                            let k = choose|k: int| 0 <= k < gone@.len() && gone@[k] == id;
                            assert(g0[k] == id);
                            assert(g0.contains(id));
                            let w = choose|w: int| 0 <= w < t.len() && #[trigger] t[w].id == id && t[w].file_path == path@;
                            assert(nv.take(i as int + 1)[w] == t[w]);
                        }
                        if id == n.id {
                            assert(gone@[gone@.len() - 1] == id);
                            assert(nv.take(i as int + 1)[i as int] == n);
                        }
                        if id_in_file(nv.take(i as int + 1), path@, id) && id != n.id {
                            let w = choose|w: int| 0 <= w < nv.take(i as int + 1).len() && #[trigger] nv.take(i as int + 1)[w].id == id && nv.take(i as int + 1)[w].file_path == path@;
                            assert(w < i);
                            assert(t[w].id == id);
                            assert(id_in_file(t, path@, id));
                            assert(g0.contains(id));
                            let k = choose|k: int| 0 <= k < g0.len() && g0[k] == id;
                            assert(gone@[k] == id);
                        }
                    }
                }
            } else {
                let ghost k0 = views(kept@);
                kept.push(self.nodes[i].duplicate());
                proof {
                    assert(views(kept@) =~= k0.push(n));
                    assert forall|id: NodeId| #[trigger] gone@.contains(id) <==> id_in_file(nv.take(i as int + 1), path@, id) by {
                        if id_in_file(nv.take(i as int + 1), path@, id) {
                            let w = choose|w: int| 0 <= w < nv.take(i as int + 1).len() && #[trigger] nv.take(i as int + 1)[w].id == id && nv.take(i as int + 1)[w].file_path == path@;
                            assert(w < i);
                            assert(t[w].id == id);
                            assert(id_in_file(t, path@, id));
                        }
                        if id_in_file(t, path@, id) {
                            let w = choose|w: int| 0 <= w < t.len() && #[trigger] t[w].id == id && t[w].file_path == path@;
                            assert(nv.take(i as int + 1)[w] == t[w]);
                        }
                    }
                }
            }
            i = i + 1;
        }
        proof {
            assert(nv.take(self.nodes@.len() as int) =~= nv);
            // Keeping a subsequence keeps identifiers distinct.
            lemma_filter_keeps_distinct(nv, not_in_file(path@));
        }
        // Edges.
        let mut ekept: Vec<Edge> = Vec::new();
        let mut k: usize = 0;
        while k < self.edges.len()
            invariant
                k <= self.edges@.len(),
                forall|id: NodeId| #[trigger] gone@.contains(id) <==> id_in_file(nv, path@, id),
                ekept@ == self.edges@.take(k as int).filter(untouched_by_file(nv, path@)),
            decreases self.edges@.len() - k,
        {
            let e = self.edges[k];
            proof {
                assert(self.edges@.take(k as int + 1) =~= self.edges@.take(k as int).push(e));
                self.edges@.take(k as int).lemma_filter_push(e, untouched_by_file(nv, path@));
            }
            if !contains_id(&gone, e.source) && !contains_id(&gone, e.target) {
                ekept.push(e);
            }
            k = k + 1;
        }
        proof {
            assert(self.edges@.take(self.edges@.len() as int) =~= self.edges@);
        }
        // Raw edges.
        let ghost rv = raw_views(self.raw_edges@);
        let mut rkept: Vec<RawEdge> = Vec::new();
        let mut k: usize = 0;
        while k < self.raw_edges.len()
            invariant
                k <= self.raw_edges@.len(),
                rv == raw_views(self.raw_edges@),
                forall|id: NodeId| #[trigger] gone@.contains(id) <==> id_in_file(nv, path@, id),
                raw_views(rkept@) == rv.take(k as int).filter(raw_untouched_by_file(nv, path@)),
            decreases self.raw_edges@.len() - k,
        {
            let ghost r = self.raw_edges@[k as int]@;
            proof {
                assert(rv.take(k as int + 1) =~= rv.take(k as int).push(r));
                rv.take(k as int).lemma_filter_push(r, raw_untouched_by_file(nv, path@));
            }
            if !contains_id(&gone, self.raw_edges[k].source) {
                let ghost r0 = raw_views(rkept@);
                rkept.push(self.raw_edges[k].duplicate());
                proof {
                    assert(raw_views(rkept@) =~= r0.push(r));
                }
            }
            k = k + 1;
        }
        proof {
            assert(rv.take(self.raw_edges@.len() as int) =~= rv);
        }
        // File hashes.
        let ghost hv = hash_views(self.file_hashes@);
        let mut hkept: Vec<FileHash> = Vec::new();
        let mut k: usize = 0;
        while k < self.file_hashes.len()
            invariant
                k <= self.file_hashes@.len(),
                hv == hash_views(self.file_hashes@),
                pc@ == path@,
                hash_views(hkept@) == hv.take(k as int).filter(other_path(path@)),
            decreases self.file_hashes@.len() - k,
        {
            let ghost h = self.file_hashes@[k as int]@;
            proof {
                assert(hv.take(k as int + 1) =~= hv.take(k as int).push(h));
                hv.take(k as int).lemma_filter_push(h, other_path(path@));
            }
            let hc = chars_of(self.file_hashes[k].path.as_str());
            if !eq_chars(&hc, &pc) {
                let ghost h0 = hash_views(hkept@);
                hkept.push(FileHash { path: self.file_hashes[k].path.clone(), hash: self.file_hashes[k].hash });
                proof {
                    assert(hash_views(hkept@) =~= h0.push(h));
                }
            }
            k = k + 1;
        }
        proof {
            assert(hv.take(self.file_hashes@.len() as int) =~= hv);
        }
        self.nodes = kept;
        self.edges = ekept;
        self.raw_edges = rkept;
        self.file_hashes = hkept;
        proof {
            crate::hash::lemma_filter_paths_distinct(hv, other_path(path@));
        }
    }
}

/// Inserting symbols whose identifiers the graph does not hold leaves every
/// symbol already there in its place.
pub proof fn lemma_upsert_all_keeps_prefix(old_nodes: Seq<SymbolView>, new: Seq<SymbolView>)
    requires
        forall|i: int| 0 <= i < new.len() ==> !has_id(old_nodes, (#[trigger] new[i]).id),
    ensures
        upsert_all(old_nodes, new).len() >= old_nodes.len(),
        forall|i: int| 0 <= i < old_nodes.len() ==> #[trigger] upsert_all(old_nodes, new)[i] == old_nodes[i],
    decreases new.len(),
{
    if new.len() > 0 {
        let d = new.drop_last();
        assert forall|i: int| 0 <= i < d.len() implies !has_id(old_nodes, (#[trigger] d[i]).id) by {
            assert(d[i] == new[i]);
        }
        lemma_upsert_all_keeps_prefix(old_nodes, d);
        let u = upsert_all(old_nodes, d);
        let n = new.last();
        assert(!has_id(old_nodes, n.id));
        if has_id(u, n.id) {
            let i = choose|i: int| 0 <= i < u.len() && #[trigger] u[i].id == n.id;
            if i < old_nodes.len() {
                assert(u[i] == old_nodes[i]);
                assert(old_nodes[i].id == n.id);
            }
        }
    }
}

} // verus!
