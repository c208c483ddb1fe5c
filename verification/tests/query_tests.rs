use ast_graph::query::{GraphQuery, neighbors};
use ast_graph::graph::CodeGraph;
use ast_graph::symbol::{SymbolNode, SymbolKind, Language, Visibility, NodeId};
use ast_graph::relation::{Edge, EdgeKind};

fn node(id: u64, name: &str, kind: SymbolKind, file: &str, lang: Language) -> SymbolNode {
    SymbolNode {
        id: NodeId(id),
        name: name.to_string(),
        kind,
        file_path: file.to_string(),
        line_range: (1, 1),
        signature: None,
        doc_comment: None,
        visibility: Visibility::Public,
        language: lang,
        parent: None,
    }
}

fn graph() -> CodeGraph {
    let mut g = CodeGraph::new("/p".to_string());
    g.add_node(node(1, "load_user", SymbolKind::Function, "src/user.rs", Language::Rust));
    g.add_node(node(2, "User", SymbolKind::Struct, "src/user.rs", Language::Rust));
    g.add_node(node(3, "save_user", SymbolKind::Function, "lib/db.py", Language::Python));
    g.add_node(node(4, "helper", SymbolKind::Function, "lib/db.py", Language::Python));
    g.add_edge(Edge { source: NodeId(1), target: NodeId(2), kind: EdgeKind::References, source_line: 0 });
    g.add_edge(Edge { source: NodeId(3), target: NodeId(1), kind: EdgeKind::Calls, source_line: 0 });
    g.add_edge(Edge { source: NodeId(4), target: NodeId(3), kind: EdgeKind::Calls, source_line: 0 });
    g
}

#[test]
fn query_combines_filters() {
    let g = graph();
    let all = GraphQuery::new(&g).execute();
    assert_eq!(all.len(), 4);
    let funcs: Vec<&str> = GraphQuery::new(&g).kind(SymbolKind::Function).execute().iter().map(|n| n.name.as_str()).collect();
    assert_eq!(funcs, vec!["load_user", "save_user", "helper"]);
    let users: Vec<&str> = GraphQuery::new(&g).kind(SymbolKind::Function).name("user").execute().iter().map(|n| n.name.as_str()).collect();
    assert_eq!(users, vec!["load_user", "save_user"]);
    let py: Vec<u64> = GraphQuery::new(&g).language(Language::Python).file("db").execute().iter().map(|n| n.id.0).collect();
    assert_eq!(py, vec![3, 4]);
    assert!(GraphQuery::new(&g).file("nowhere").execute().is_empty());
}

#[test]
fn neighbors_follow_edges_both_ways() {
    let g = graph();
    let mut one = neighbors(&g, NodeId(3), 1);
    one.sort_by_key(|n| n.0);
    // From 3: its call to 1, and back along the call arriving from 4.
    assert_eq!(one, vec![NodeId(1), NodeId(3), NodeId(4)]);
    let mut two = neighbors(&g, NodeId(3), 2);
    two.sort_by_key(|n| n.0);
    assert_eq!(two, vec![NodeId(1), NodeId(2), NodeId(3), NodeId(4)]);
    let mut back = neighbors(&g, NodeId(2), 1);
    back.sort_by_key(|n| n.0);
    assert_eq!(back, vec![NodeId(1), NodeId(2)]);
    assert_eq!(neighbors(&g, NodeId(9), 0), vec![NodeId(9)]);
}

#[test]
fn every_stored_edge_label_reads_back() {
    assert_eq!(EdgeKind::from_neo4j_type("CALLS"), Some(EdgeKind::Calls));
    assert_eq!(EdgeKind::from_neo4j_type("OVERRIDES"), Some(EdgeKind::OverridesMethod));
    assert_eq!(EdgeKind::from_neo4j_type("calls"), None);
    assert_eq!(EdgeKind::from_neo4j_type("HANDLES_ROUTE"), Some(EdgeKind::HandlesRoute));
    assert_eq!(EdgeKind::HandlesRoute.as_neo4j_type(), "HANDLES_ROUTE");
}

#[test]
fn later_name_filter_replaces_earlier() {
    let g = graph();
    let twice: Vec<u64> = GraphQuery::new(&g).name("load").name("user").execute().iter().map(|n| n.id.0).collect();
    let once: Vec<u64> = GraphQuery::new(&g).name("user").execute().iter().map(|n| n.id.0).collect();
    assert_eq!(twice, once);
    assert_eq!(once, vec![1, 3]);
    assert!(GraphQuery::new(&g).name("User").execute().iter().all(|n| n.name.contains("User")));
}

#[test]
fn contains_edges_resolve_by_hex_identifier() {
    let mut g = graph();
    let before = g.edges.len();
    g.add_raw_edge(ast_graph::relation::RawEdge {
        source: NodeId(1),
        kind: EdgeKind::Contains,
        target_name: NodeId(2).to_hex(),
        target_module: None,
        source_line: 7,
    });
    g.add_raw_edge(ast_graph::relation::RawEdge {
        source: NodeId(1),
        kind: EdgeKind::Contains,
        target_name: "zz".to_string(),
        target_module: None,
        source_line: 8,
    });
    g.add_raw_edge(ast_graph::relation::RawEdge {
        source: NodeId(1),
        kind: EdgeKind::Contains,
        target_name: NodeId(99).to_hex(),
        target_module: None,
        source_line: 9,
    });
    ast_graph::resolve::resolve_edges(&mut g);
    let added: Vec<_> = g.edges[before..].iter().map(|e| (e.source, e.target, e.kind, e.source_line)).collect();
    assert_eq!(added, vec![(NodeId(1), NodeId(2), EdgeKind::Contains, 7)]);
}
