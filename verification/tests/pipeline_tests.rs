use ast_graph::parser::{parse_single_file, build_project_graph, begin_incremental_update, finish_incremental_update};
use ast_graph::incremental::{DiscoveredFile, build_hash_map, language_for_path, path_extension};
use ast_graph::hash::hash_bytes;
use ast_graph::symbol::{Language, SymbolKind};
use ast_graph::relation::EdgeKind;
use ast_graph::graph::{CodeGraph, FileHash};
use ast_graph::resolve::resolve_edges;
use ast_graph::storage::{rows_for_save, graph_from_rows};

#[test]
fn language_follows_extension() {
    assert_eq!(language_for_path("src/main.rs"), Some(Language::Rust));
    assert_eq!(language_for_path("/a/b/c.tsx"), Some(Language::TypeScript));
    assert_eq!(language_for_path("lib/x.py"), Some(Language::Python));
    assert_eq!(language_for_path("dir/.rs"), None);
    assert_eq!(language_for_path("Makefile"), None);
    assert_eq!(path_extension("a/b.tar.gz"), Some("gz".to_string()));
    assert_eq!(path_extension("a/.bashrc"), None);
    assert_eq!(path_extension("a/b."), Some(String::new()));
}

fn discovered(path: &str, src: &[u8]) -> DiscoveredFile {
    DiscoveredFile { path: path.to_string(), language: language_for_path(path).unwrap(), hash: hash_bytes(src) }
}

#[test]
fn project_graph_holds_extractions() {
    let src: &[u8] = b"fn main() { helper(); }\nfn helper() {}\n";
    let r = parse_single_file("/p/main.rs", Language::Rust, src).unwrap();
    let files = vec![discovered("/p/main.rs", src)];
    let hm = build_hash_map(&files);
    assert_eq!(hm.len(), 1);
    assert_eq!(hm[0].path, "/p/main.rs");
    let mut g = build_project_graph("/p".to_string(), &files, &vec![r]);
    assert_eq!(g.file_hashes.len(), 1);
    assert!(g.nodes.iter().any(|n| n.name == "main" && n.kind == SymbolKind::Function));
    assert!(g.nodes.iter().any(|n| n.name == "helper" && n.kind == SymbolKind::Function));
    assert_eq!(g.metadata.total_nodes, g.nodes.len());
    assert_eq!(g.metadata.total_files, 1);
    assert_eq!(g.metadata.languages, vec![Language::Rust]);
    assert!(g.edges.is_empty());
    assert!(!g.raw_edges.is_empty());
    resolve_edges(&mut g);
    assert!(g.raw_edges.is_empty());
    let main_id = g.nodes.iter().find(|n| n.name == "main").unwrap().id;
    let helper_id = g.nodes.iter().find(|n| n.name == "helper").unwrap().id;
    assert!(g.edges.iter().any(|e| e.kind == EdgeKind::Calls && e.source == main_id && e.target == helper_id));
    // What is saved comes back.
    let rows = rows_for_save(&g);
    let back = graph_from_rows("/p".to_string(), &rows);
    assert_eq!(back.nodes.len(), g.nodes.len());
    assert_eq!(back.edges.len(), g.edges.len());
    for (a, b) in back.edges.iter().zip(g.edges.iter()) {
        // The store keeps no line for an edge.
        assert_eq!((a.source, a.target, a.kind, a.source_line), (b.source, b.target, b.kind, 0));
    }
    for (a, b) in back.nodes.iter().zip(g.nodes.iter()) {
        assert_eq!(a.id, b.id);
        assert_eq!(a.name, b.name);
        assert_eq!(a.kind, b.kind);
        assert_eq!(a.line_range, b.line_range);
    }
}

#[test]
fn unparsable_language_text_still_parses() {
    assert!(parse_single_file("x.py", Language::Python, b"def f(:\n").is_some());
}

#[test]
fn incremental_update_touches_changed_files_only() {
    let a: &[u8] = b"fn a() {}\n";
    let b: &[u8] = b"fn b() {}\n";
    let d: &[u8] = b"fn d() {}\n";
    let files = vec![discovered("/p/a.rs", a), discovered("/p/b.rs", b), discovered("/p/d.rs", d)];
    let results = vec![
        parse_single_file("/p/a.rs", Language::Rust, a).unwrap(),
        parse_single_file("/p/b.rs", Language::Rust, b).unwrap(),
        parse_single_file("/p/d.rs", Language::Rust, d).unwrap(),
    ];
    let mut g = build_project_graph("/p".to_string(), &files, &results);
    let b2: &[u8] = b"fn b2() {}\n";
    let c: &[u8] = b"def c():\n    pass\n";
    let current: Vec<FileHash> = vec![
        FileHash { path: "/p/a.rs".to_string(), hash: hash_bytes(a) },
        FileHash { path: "/p/b.rs".to_string(), hash: hash_bytes(b2) },
        FileHash { path: "/p/c.py".to_string(), hash: hash_bytes(c) },
    ];
    let (stats, to_parse) = begin_incremental_update(&mut g, &current);
    assert_eq!((stats.added, stats.modified, stats.removed, stats.unchanged), (1, 1, 1, 1));
    assert_eq!(to_parse, vec![("/p/c.py".to_string(), Language::Python), ("/p/b.rs".to_string(), Language::Rust)]);
    assert!(g.nodes.iter().all(|n| n.file_path == "/p/a.rs"));
    assert!(g.nodes.iter().any(|n| n.name == "a"));
    let again = vec![
        parse_single_file("/p/c.py", Language::Python, c).unwrap(),
        parse_single_file("/p/b.rs", Language::Rust, b2).unwrap(),
    ];
    finish_incremental_update(&mut g, &again, current);
    assert!(g.nodes.iter().any(|n| n.name == "b2"));
    assert!(g.nodes.iter().any(|n| n.name == "c"));
    assert!(!g.nodes.iter().any(|n| n.name == "d"));
    assert_eq!(g.file_hashes.len(), 3);
    assert_eq!(g.metadata.total_files, 3);
    assert_eq!(g.metadata.languages, vec![Language::Rust, Language::Python]);
}

#[test]
fn empty_graph_has_no_symbols() {
    let g = CodeGraph::new("/x".to_string());
    assert!(g.nodes.is_empty());
}

#[test]
fn self_call_resolves_within_its_class() {
    let src: &[u8] = b"class A:\n    def run(self):\n        self.go()\n    def go(self):\n        pass\n\nclass B:\n    def go(self):\n        pass\n";
    let r = parse_single_file("/p/m.py", Language::Python, src).unwrap();
    let files = vec![discovered("/p/m.py", src)];
    let mut g = build_project_graph("/p".to_string(), &files, &vec![r]);
    resolve_edges(&mut g);
    let id_of = |name: &str| g.nodes.iter().find(|n| n.name == name).map(|n| n.id).unwrap();
    let run = id_of("A.run");
    let a_go = id_of("A.go");
    let b_go = id_of("B.go");
    let calls: Vec<_> = g.edges.iter().filter(|e| e.kind == EdgeKind::Calls && e.source == run).map(|e| e.target).collect();
    assert_eq!(calls, vec![a_go]);
    assert!(!calls.contains(&b_go));
}

#[test]
fn hash_map_keeps_each_path_once() {
    let files = vec![discovered("/p/a.rs", b"one"), discovered("/p/b.rs", b"x"), discovered("/p/a.rs", b"two")];
    let hm = build_hash_map(&files);
    assert_eq!(hm.len(), 2);
    assert_eq!(hm[0].path, "/p/a.rs");
    assert_eq!(hm[0].hash, hash_bytes(b"two"));
    assert_eq!(hm[1].path, "/p/b.rs");
}
