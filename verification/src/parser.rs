//! Building a graph from the extractions of a project's files, whole or
//! incrementally.
use vstd::prelude::*;
use crate::symbol::{Language, SymbolView};
use crate::relation::{RawEdgeView};
use crate::graph::{
    CodeGraph, FileHash, FileHashView, views, raw_views, hash_views, upsert_all, distinct_paths,
    distinct_languages, not_in_file, untouched_by_file, raw_untouched_by_file, other_path,
};
use crate::relation::Edge;
use crate::extract::{ExtractResult, extraction_of};
use crate::hash::{FileChanges, IncrementalState, string_views, is_added, is_modified, paths_of};
use crate::incremental::{DiscoveredFile, build_hash_map, discovered_hash, language_of_path, language_for_path};
use crate::grammar::{parse_source, grammar_for};
use crate::ts_bridge::{grammar_accepted, parsed_nodes};
use crate::lang::{extract_tree, extraction_for};
use crate::syntax::{SyntaxTree, built_from};

verus! {

/// Parses the text of the file `path` as `language` and extracts its symbols
/// and raw edges; `None` exactly when tree-sitter refuses the grammar.
pub fn parse_single_file(path: &str, language: Language, source: &[u8]) -> (r: Option<ExtractResult>)
    ensures
        r matches Some(x) ==> extraction_of(x, path@, language, source@) && exists|t: SyntaxTree|
            #[trigger] built_from(t, source@, parsed_nodes(grammar_for(language), source@)) && t.wf()
                && (x.syms(), x.raws()) == extraction_for(language, t, path@),
        r is Some <==> grammar_accepted(grammar_for(language)),
{
    match parse_source(language, source) {
        Some(tree) => Some(extract_tree(language, &tree, path)),
        None => None,
    }
}

/// The symbols of the extractions, in order.
pub open spec fn extracted_symbols(rs: Seq<ExtractResult>) -> Seq<SymbolView>
    decreases rs.len(),
{
    if rs.len() == 0 {
        seq![]
    } else {
        extracted_symbols(rs.drop_last()) + views(rs.last().symbols@)
    }
}

/// The raw edges of the extractions, in order.
pub open spec fn extracted_raws(rs: Seq<ExtractResult>) -> Seq<RawEdgeView>
    decreases rs.len(),
{
    if rs.len() == 0 {
        seq![]
    } else {
        extracted_raws(rs.drop_last()) + raw_views(rs.last().raw_edges@)
    }
}

/// Adds the symbols (each replacing any symbol with its identifier) and the
/// raw edges of each extraction, in order.
pub fn add_extractions(graph: &mut CodeGraph, results: &Vec<ExtractResult>)
    requires
        old(graph).wf(),
    ensures
        final(graph).wf(),
        final(graph).node_views() == upsert_all(old(graph).node_views(), extracted_symbols(results@)),
        raw_views(final(graph).raw_edges@) == raw_views(old(graph).raw_edges@) + extracted_raws(
            results@,
        ),
        final(graph).edges@ == old(graph).edges@,
        final(graph).file_hashes@ == old(graph).file_hashes@,
        final(graph).project_root@ == old(graph).project_root@,
{
    let ghost n0 = graph.node_views();
    let ghost r0 = raw_views(graph.raw_edges@);
    let mut i: usize = 0;
    while i < results.len()
        invariant
            i <= results@.len(),
            graph.wf(),
            graph.node_views() == upsert_all(n0, extracted_symbols(results@.take(i as int))),
            raw_views(graph.raw_edges@) == r0 + extracted_raws(results@.take(i as int)),
            graph.edges@ == old(graph).edges@,
            graph.file_hashes@ == old(graph).file_hashes@,
            graph.project_root@ == old(graph).project_root@,
        decreases results@.len() - i,
    {
        let res = &results[i];
        let ghost sym0 = extracted_symbols(results@.take(i as int));
        let ghost raw0 = extracted_raws(results@.take(i as int));
        let mut j: usize = 0;
        proof {
            assert(sym0 + views(res.symbols@.take(0)) =~= sym0);
        }
        while j < res.symbols.len()
            invariant
                j <= res.symbols@.len(),
                graph.wf(),
                graph.node_views() == upsert_all(n0, sym0 + views(res.symbols@.take(j as int))),
                raw_views(graph.raw_edges@) == r0 + raw0,
                graph.edges@ == old(graph).edges@,
                graph.file_hashes@ == old(graph).file_hashes@,
                graph.project_root@ == old(graph).project_root@,
            decreases res.symbols@.len() - j,
        {
            let s = res.symbols[j].duplicate();
            graph.add_node(s);
            proof {
                let a = sym0 + views(res.symbols@.take(j as int));
                let b = sym0 + views(res.symbols@.take(j as int + 1));
                assert(b.drop_last() =~= a);
                assert(b.last() == s@);
            }
            j = j + 1;
        }
        let mut k: usize = 0;
        proof {
            assert(res.symbols@.take(res.symbols@.len() as int) =~= res.symbols@);
            assert(raw_views(res.raw_edges@.take(0)) =~= Seq::<RawEdgeView>::empty());
        }
        while k < res.raw_edges.len()
            invariant
                k <= res.raw_edges@.len(),
                graph.wf(),
                graph.node_views() == upsert_all(n0, sym0 + views(res.symbols@)),
                raw_views(graph.raw_edges@) == r0 + raw0 + raw_views(res.raw_edges@.take(k as int)),
                graph.edges@ == old(graph).edges@,
                graph.file_hashes@ == old(graph).file_hashes@,
                graph.project_root@ == old(graph).project_root@,
            decreases res.raw_edges@.len() - k,
        {
            let ghost before = raw_views(graph.raw_edges@);
            let e = res.raw_edges[k].duplicate();
            graph.add_raw_edge(e);
            proof {
                assert(raw_views(graph.raw_edges@) =~= before.push(e@));
                assert(raw_views(res.raw_edges@.take(k as int + 1)) =~= raw_views(
                    res.raw_edges@.take(k as int),
                ).push(e@));
            }
            k = k + 1;
        }
        proof {
            assert(results@.take(i as int + 1).drop_last() =~= results@.take(i as int));
            assert(results@.take(i as int + 1).last() == *res);
            assert(res.raw_edges@.take(res.raw_edges@.len() as int) =~= res.raw_edges@);
            assert(r0 + raw0 + raw_views(res.raw_edges@) =~= r0 + extracted_raws(
                results@.take(i as int + 1),
            ));
        }
        i = i + 1;
    }
    proof {
        assert(results@.take(results@.len() as int) =~= results@);
    }
}

/// The graph of a project at `root`: the hashes of its discovered files, the
/// symbols and raw edges of the extractions of its files, and fresh summary
/// figures. No edge is resolved yet.
pub fn build_project_graph(
    root: String,
    files: &Vec<DiscoveredFile>,
    results: &Vec<ExtractResult>,
) -> (g: CodeGraph)
    ensures
        g.wf(),
        g.project_root@ == root@,
        g.node_views() == upsert_all(seq![], extracted_symbols(results@)),
        raw_views(g.raw_edges@) == extracted_raws(results@),
        g.edges@.len() == 0,
        hash_views(g.file_hashes@) == crate::storage::hashes_of_rows(files@.map_values(|f: DiscoveredFile| discovered_hash(f))),
        g.metadata.total_nodes == g.nodes@.len(),
        g.metadata.total_edges == 0,
        g.metadata.total_files == distinct_paths(g.node_views()).len(),
        g.metadata.languages@ == distinct_languages(g.node_views()),
{
    let mut g = CodeGraph::new(root);
    g.file_hashes = build_hash_map(files);
    proof {
        assert(g.node_views() =~= Seq::<SymbolView>::empty());
        assert(raw_views(g.raw_edges@) =~= Seq::<RawEdgeView>::empty());
    }
    add_extractions(&mut g, results);
    proof {
        assert(Seq::<RawEdgeView>::empty() + extracted_raws(results@) =~= extracted_raws(results@));
    }
    g.refresh_metadata();
    g
}

/// Counts of an incremental update.
pub struct IncrementalStats {
    pub added: usize,
    pub modified: usize,
    pub removed: usize,
    pub unchanged: usize,
}

/// The graph's symbols, edges, raw edges and hash records after the files of
/// `paths` are removed from it one after the other.
pub open spec fn after_removals(
    g: (Seq<SymbolView>, Seq<Edge>, Seq<RawEdgeView>, Seq<FileHashView>),
    paths: Seq<Seq<char>>,
) -> (Seq<SymbolView>, Seq<Edge>, Seq<RawEdgeView>, Seq<FileHashView>)
    decreases paths.len(),
{
    if paths.len() == 0 {
        g
    } else {
        let prev = after_removals(g, paths.drop_last());
        let p = paths.last();
        (
            prev.0.filter(not_in_file(p)),
            prev.1.filter(untouched_by_file(prev.0, p)),
            prev.2.filter(raw_untouched_by_file(prev.0, p)),
            prev.3.filter(other_path(p)),
        )
    }
}

/// The files to parse again, with their languages: those of `paths` whose
/// extension names a supported language, in order.
pub open spec fn parse_plan(paths: Seq<Seq<char>>) -> Seq<(Seq<char>, Language)>
    decreases paths.len(),
{
    if paths.len() == 0 {
        seq![]
    } else {
        let prev = parse_plan(paths.drop_last());
        match language_of_path(paths.last()) {
            Some(l) => prev.push((paths.last(), l)),
            None => prev,
        }
    }
}

proof fn lemma_disjoint_filters_len(s: Seq<FileHashView>, p: spec_fn(FileHashView) -> bool, q: spec_fn(FileHashView) -> bool)
    requires
        forall|x: FileHashView| !(#[trigger] p(x) && q(x)),
    ensures
        s.filter(p).len() + s.filter(q).len() <= s.len(),
    decreases s.len(),
{
    reveal(Seq::filter);
    if s.len() > 0 {
        lemma_disjoint_filters_len(s.drop_last(), p, q);
    }
}

fn remove_files(graph: &mut CodeGraph, paths: &Vec<String>)
    requires
        old(graph).wf(),
    ensures
        final(graph).wf(),
        ({
            let r = after_removals(
                (
                    old(graph).node_views(),
                    old(graph).edges@,
                    raw_views(old(graph).raw_edges@),
                    hash_views(old(graph).file_hashes@),
                ),
                string_views(paths@),
            );
            &&& final(graph).node_views() == r.0
            &&& final(graph).edges@ == r.1
            &&& raw_views(final(graph).raw_edges@) == r.2
            &&& hash_views(final(graph).file_hashes@) == r.3
        }),
        final(graph).project_root@ == old(graph).project_root@,
{
    let ghost g0 = (
        graph.node_views(),
        graph.edges@,
        raw_views(graph.raw_edges@),
        hash_views(graph.file_hashes@),
    );
    let mut i: usize = 0;
    while i < paths.len()
        invariant
            i <= paths@.len(),
            graph.wf(),
            graph.project_root@ == old(graph).project_root@,
            ({
                let r = after_removals(g0, string_views(paths@).take(i as int));
                &&& graph.node_views() == r.0
                &&& graph.edges@ == r.1
                &&& raw_views(graph.raw_edges@) == r.2
                &&& hash_views(graph.file_hashes@) == r.3
            }),
        decreases paths@.len() - i,
    {
        proof {
            assert(string_views(paths@).take(i as int + 1).drop_last() =~= string_views(paths@).take(
                i as int,
            ));
            assert(string_views(paths@).take(i as int + 1).last() == paths@[i as int]@);
        }
        graph.remove_file(paths[i].as_str());
        i = i + 1;
    }
    proof {
        assert(string_views(paths@).take(paths@.len() as int) =~= string_views(paths@));
    }
}

fn plan_parses(paths: &Vec<String>, out: &mut Vec<(String, Language)>)
    ensures
        final(out)@.map_values(|x: (String, Language)| (x.0@, x.1)) == old(out)@.map_values(
            |x: (String, Language)| (x.0@, x.1),
        ) + parse_plan(string_views(paths@)),
{
    let ghost start = out@.map_values(|x: (String, Language)| (x.0@, x.1));
    let mut i: usize = 0;
    proof {
        assert(start + parse_plan(string_views(paths@).take(0)) =~= start);
    }
    while i < paths.len()
        invariant
            i <= paths@.len(),
            out@.map_values(|x: (String, Language)| (x.0@, x.1)) == start + parse_plan(
                string_views(paths@).take(i as int),
            ),
        decreases paths@.len() - i,
    {
        let ghost before = out@.map_values(|x: (String, Language)| (x.0@, x.1));
        proof {
            assert(string_views(paths@).take(i as int + 1).drop_last() =~= string_views(paths@).take(
                i as int,
            ));
            assert(string_views(paths@).take(i as int + 1).last() == paths@[i as int]@);
        }
        match language_for_path(paths[i].as_str()) {
            Some(l) => {
                out.push((paths[i].clone(), l));
                proof {
                    assert(out@.map_values(|x: (String, Language)| (x.0@, x.1)) =~= before.push(
                        (paths@[i as int]@, l),
                    ));
                }
            },
            None => {},
        }
        i = i + 1;
    }
    proof {
        assert(string_views(paths@).take(paths@.len() as int) =~= string_views(paths@));
    }
}

/// First half of an incremental update against the current file hashes
/// (`current`, no path twice): the removed and then the modified files are
/// removed from the graph, and the added and modified files whose extension
/// names a supported language are returned, in that order, to be parsed again.
pub fn begin_incremental_update(graph: &mut CodeGraph, current: &Vec<FileHash>) -> (r: (
    IncrementalStats,
    Vec<(String, Language)>,
))
    requires
        old(graph).wf(),
        crate::hash::paths_distinct(hash_views(current@)),
    ensures
        final(graph).wf(),
        ({
            let prev = hash_views(old(graph).file_hashes@);
            let cur = hash_views(current@);
            let added = paths_of(cur.filter(is_added(prev)));
            let modified = paths_of(cur.filter(is_modified(prev)));
            let removed = paths_of(prev.filter(crate::hash::is_removed(cur)));
            let g = after_removals(
                (
                    old(graph).node_views(),
                    old(graph).edges@,
                    raw_views(old(graph).raw_edges@),
                    prev,
                ),
                removed + modified,
            );
            &&& r.0.added == added.len()
            &&& r.0.modified == modified.len()
            &&& r.0.removed == removed.len()
            &&& r.0.unchanged == cur.len() - added.len() - modified.len()
            &&& r.1@.map_values(|x: (String, Language)| (x.0@, x.1)) == parse_plan(added + modified)
            &&& final(graph).node_views() == g.0
            &&& final(graph).edges@ == g.1
            &&& raw_views(final(graph).raw_edges@) == g.2
            &&& hash_views(final(graph).file_hashes@) == g.3
        }),
        final(graph).project_root@ == old(graph).project_root@,
{
    let prev_state = IncrementalState::from_hashes(clone_hashes(&graph.file_hashes));
    let changes = prev_state.detect_changes(current);
    let ghost prev = hash_views(graph.file_hashes@);
    let ghost cur = hash_views(current@);
    proof {
        lemma_disjoint_filters_len(cur, is_added(prev), is_modified(prev));
        assert(changes.added@.len() == string_views(changes.added@).len());
        assert(changes.modified@.len() == string_views(changes.modified@).len());
        assert(current@.len() == cur.len());
    }
    let stats = IncrementalStats {
        added: changes.added.len(),
        modified: changes.modified.len(),
        removed: changes.removed.len(),
        unchanged: current.len() - changes.added.len() - changes.modified.len(),
    };
    let mut gone: Vec<String> = Vec::new();
    append_strings(&mut gone, &changes.removed);
    append_strings(&mut gone, &changes.modified);
    remove_files(graph, &gone);
    let mut to_parse: Vec<(String, Language)> = Vec::new();
    plan_parses(&changes.added, &mut to_parse);
    plan_parses(&changes.modified, &mut to_parse);
    proof {
        let a = string_views(changes.added@);
        let m = string_views(changes.modified@);
        lemma_parse_plan_concat(a, m);
        assert(Seq::<(Seq<char>, Language)>::empty() + parse_plan(a) =~= parse_plan(a));
    }
    (stats, to_parse)
}

proof fn lemma_parse_plan_concat(a: Seq<Seq<char>>, b: Seq<Seq<char>>)
    ensures
        parse_plan(a + b) == parse_plan(a) + parse_plan(b),
    decreases b.len(),
{
    if b.len() == 0 {
        assert(a + b =~= a);
        assert(parse_plan(a) + parse_plan(b) =~= parse_plan(a));
    } else {
        lemma_parse_plan_concat(a, b.drop_last());
        assert((a + b).drop_last() =~= a + b.drop_last());
        assert((a + b).last() == b.last());
        match language_of_path(b.last()) {
            Some(l) => {
                assert(parse_plan(a) + parse_plan(b) =~= (parse_plan(a) + parse_plan(b.drop_last())).push(
                    (b.last(), l),
                ));
            },
            None => {
                assert(parse_plan(a) + parse_plan(b) =~= parse_plan(a) + parse_plan(b.drop_last()));
            },
        }
    }
}

fn append_strings(out: &mut Vec<String>, more: &Vec<String>)
    ensures
        string_views(final(out)@) == string_views(old(out)@) + string_views(more@),
{
    let ghost start = string_views(out@);
    let mut i: usize = 0;
    while i < more.len()
        invariant
            i <= more@.len(),
            string_views(out@) == start + string_views(more@.take(i as int)),
        decreases more@.len() - i,
    {
        let ghost before = string_views(out@);
        out.push(more[i].clone());
        proof {
            assert(string_views(out@) =~= before.push(more@[i as int]@));
            assert(string_views(more@.take(i as int + 1)) =~= string_views(more@.take(i as int)).push(
                more@[i as int]@,
            ));
        }
        i = i + 1;
    }
    proof {
        assert(more@.take(more@.len() as int) =~= more@);
    }
}

fn clone_hashes(h: &Vec<FileHash>) -> (r: Vec<FileHash>)
    ensures
        hash_views(r@) == hash_views(h@),
{
    let mut r: Vec<FileHash> = Vec::new();
    let mut i: usize = 0;
    while i < h.len()
        invariant
            i <= h@.len(),
            hash_views(r@) == hash_views(h@.take(i as int)),
        decreases h@.len() - i,
    {
        let ghost before = hash_views(r@);
        r.push(FileHash { path: h[i].path.clone(), hash: h[i].hash });
        proof {
            assert(hash_views(r@) =~= before.push(h@[i as int]@));
            assert(hash_views(h@.take(i as int + 1)) =~= hash_views(h@.take(i as int)).push(
                h@[i as int]@,
            ));
        }
        i = i + 1;
    }
    proof {
        assert(h@.take(h@.len() as int) =~= h@);
    }
    r
}

/// Second half of an incremental update: adds the extractions of the files
/// parsed again, records the current hashes and refreshes the summary figures.
pub fn finish_incremental_update(
    graph: &mut CodeGraph,
    results: &Vec<ExtractResult>,
    current: Vec<FileHash>,
)
    requires
        old(graph).wf(),
        crate::hash::paths_distinct(hash_views(current@)),
    ensures
        final(graph).wf(),
        final(graph).node_views() == upsert_all(old(graph).node_views(), extracted_symbols(results@)),
        raw_views(final(graph).raw_edges@) == raw_views(old(graph).raw_edges@) + extracted_raws(
            results@,
        ),
        final(graph).edges@ == old(graph).edges@,
        final(graph).file_hashes@ == current@,
        final(graph).project_root@ == old(graph).project_root@,
        final(graph).metadata.total_nodes == final(graph).nodes@.len(),
        final(graph).metadata.total_edges == final(graph).edges@.len(),
        final(graph).metadata.total_files == distinct_paths(final(graph).node_views()).len(),
        final(graph).metadata.languages@ == distinct_languages(final(graph).node_views()),
{
    add_extractions(graph, results);
    graph.file_hashes = current;
    graph.refresh_metadata();
}

/// Removing files keeps every symbol of the other files: a file that an
/// incremental update neither removes nor parses again keeps its symbols.
pub proof fn lemma_removals_keep_other_files(
    g: (Seq<SymbolView>, Seq<Edge>, Seq<RawEdgeView>, Seq<FileHashView>),
    paths: Seq<Seq<char>>,
    n: SymbolView,
)
    requires
        g.0.contains(n),
        !paths.contains(n.file_path),
    ensures
        after_removals(g, paths).0.contains(n),
    decreases paths.len(),
{
    if paths.len() > 0 {
        let p = paths.drop_last();
        assert(!p.contains(n.file_path)) by {
            if p.contains(n.file_path) {
                let k = choose|k: int| 0 <= k < p.len() && p[k] == n.file_path;
                assert(paths[k] == n.file_path);
            }
        }
        lemma_removals_keep_other_files(g, p, n);
        let prev = after_removals(g, p).0;
        let k = choose|k: int| 0 <= k < prev.len() && prev[k] == n;
        assert(paths[paths.len() - 1] == paths.last());
        assert(not_in_file(paths.last())(prev[k]));
        prev.lemma_filter_contains(not_in_file(paths.last()), k);
    }
}

/// Removing files leaves no symbol of them.
pub proof fn lemma_removals_drop_files(
    g: (Seq<SymbolView>, Seq<Edge>, Seq<RawEdgeView>, Seq<FileHashView>),
    paths: Seq<Seq<char>>,
    n: SymbolView,
)
    requires
        after_removals(g, paths).0.contains(n),
    ensures
        !paths.contains(n.file_path),
        g.0.contains(n),
    decreases paths.len(),
{
    if paths.len() > 0 {
        let p = paths.drop_last();
        let prev = after_removals(g, p).0;
        prev.lemma_filter_contains_rev(not_in_file(paths.last()), n);
        lemma_removals_drop_files(g, p, n);
        let r = prev.filter(not_in_file(paths.last()));
        let k = choose|k: int| 0 <= k < r.len() && r[k] == n;
        prev.lemma_filter_pred(not_in_file(paths.last()), k);
        assert(n.file_path != paths.last());
        if paths.contains(n.file_path) {
            let k = choose|k: int| 0 <= k < paths.len() && paths[k] == n.file_path;
            if k < paths.len() - 1 {
                assert(p[k] == n.file_path);
            }
        }
    }
}

} // verus!
