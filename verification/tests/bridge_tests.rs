use ast_graph::syntax::{syntax_from_records, NodeRecord};
use ast_graph::grammar::parse_source;
use ast_graph::parser::parse_single_file;
use ast_graph::symbol::{Language, NodeId, SymbolKind, SymbolNode, Visibility};
use ast_graph::relation::{EdgeKind, RawEdge};
use ast_graph::graph::{CodeGraph, FileHash};
use ast_graph::resolve::resolve_edges;
use ast_graph::hash::IncrementalState;
use ast_graph::git::{churn_entries, parse_hunks};
use ast_graph::text::utf8_longer_than;

fn rec(kind: &str, depth: u32, field: Option<&str>, bytes: (usize, usize)) -> NodeRecord {
    NodeRecord {
        kind: kind.to_string(),
        named: true,
        field: field.map(|f| f.to_string()),
        start_row: 0,
        end_row: 1,
        start_byte: bytes.0,
        end_byte: bytes.1,
        depth,
    }
}

#[test]
fn records_are_linked_by_depth() {
    let records = vec![
        rec("source_file", 0, None, (0, 20)),
        rec("function_item", 1, None, (0, 9)),
        rec("identifier", 2, Some("name"), (3, 4)),
        rec("block", 2, Some("body"), (7, 9)),
        rec("function_item", 1, None, (10, 40)),
        rec("identifier", 2, Some("name"), (30, 12)),
    ];
    let t = syntax_from_records(b"fn a() {}\nfn b() {}\n", &records);
    assert_eq!(t.len(), 6);
    assert_eq!(t.first_child, vec![Some(1), Some(2), None, None, Some(5), None]);
    assert_eq!(t.next_sibling, vec![None, Some(4), Some(3), None, None, None]);
    assert_eq!(t.children(0), vec![1, 4]);
    assert_eq!(t.children(1), vec![2, 3]);
    assert_eq!(t.child_by_field(1, "body"), Some(3));
    assert_eq!(t.text(2), "a");
    // The byte ranges are cut to the 20-byte source.
    assert_eq!((t.start_bytes[4], t.end_bytes[4]), (10, 20));
    assert_eq!((t.start_bytes[5], t.end_bytes[5]), (12, 12));
    assert_eq!(t.kind(5), "identifier");
}

#[test]
fn parsed_tree_holds_the_grammar_nodes() {
    let src: &[u8] = b"fn a() {}\nfn b() {}\n";
    let t = parse_source(Language::Rust, src).unwrap();
    assert_eq!(t.kind(0), "source_file");
    let kids = t.children(0);
    assert_eq!(kids.len(), 2);
    assert!(kids.iter().all(|&k| t.kind(k) == "function_item"));
    let name = t.child_by_field(kids[1], "name").unwrap();
    assert_eq!(t.text(name), "b");
    assert_eq!(t.start_row(kids[1]), 1);
    assert!(t.len() > 6);
}

#[test]
fn contains_edges_carry_no_line() {
    let r = parse_single_file("/p/m.rs", Language::Rust, b"\n\nfn a() {}\nstruct S { x: u8 }\n").unwrap();
    let contains: Vec<&RawEdge> = r.raw_edges.iter().filter(|e| e.kind == EdgeKind::Contains).collect();
    assert_eq!(contains.len(), 2);
    assert!(contains.iter().all(|e| e.source_line == 0));
}

fn sym(id: u64, name: &str) -> SymbolNode {
    SymbolNode {
        id: NodeId(id),
        name: name.to_string(),
        kind: SymbolKind::Method,
        file_path: "a.rs".to_string(),
        line_range: (1, 1),
        signature: None,
        doc_comment: None,
        visibility: Visibility::Public,
        language: Language::Rust,
        parent: None,
    }
}

#[test]
fn namespace_is_stripped_before_the_bare_name() {
    let mut g = CodeGraph::new("/p".to_string());
    g.add_node(sym(1, "caller"));
    g.add_node(sym(2, "B.run"));
    g.add_node(sym(3, "run"));
    g.add_raw_edge(RawEdge {
        source: NodeId(1),
        kind: EdgeKind::Calls,
        target_name: "a::B.run".to_string(),
        target_module: None,
        source_line: 4,
    });
    resolve_edges(&mut g);
    let targets: Vec<NodeId> = g.edges.iter().filter(|e| e.kind == EdgeKind::Calls).map(|e| e.target).collect();
    assert_eq!(targets, vec![NodeId(2)]);
}

fn fh(path: &str, b: u8) -> FileHash {
    FileHash { path: path.to_string(), hash: [b; 32] }
}

#[test]
fn changes_are_set_differences_of_paths() {
    let state = IncrementalState::from_hashes(vec![fh("a", 1), fh("b", 2), fh("c", 3)]);
    let changes = state.detect_changes(&vec![fh("d", 4), fh("b", 9), fh("a", 1)]);
    assert_eq!(changes.added, vec!["d".to_string()]);
    assert_eq!(changes.modified, vec!["b".to_string()]);
    assert_eq!(changes.removed, vec!["c".to_string()]);
    let same = vec![fh("a", 1), fh("b", 2)];
    let none = IncrementalState::from_hashes(vec![fh("a", 1), fh("b", 2)]).detect_changes(&same);
    assert!(none.added.is_empty() && none.modified.is_empty() && none.removed.is_empty());
}

#[test]
fn each_hunk_comes_from_its_own_header_line() {
    let text = "+++ b/x.rs\n@@ -1 +5,2 @@\n+++ /dev/null\n@@ -1 +9 @@\n+++ y.rs\n@@ -3,0 +7,0 @@\n@@ -3 +8 @@\n";
    let hs = parse_hunks(text);
    let got: Vec<(String, u32, u32)> = hs.iter().map(|h| (h.file_path.clone(), h.new_start, h.new_end)).collect();
    assert_eq!(got, vec![("x.rs".to_string(), 5, 6), ("y.rs".to_string(), 8, 8)]);
}

#[test]
fn churn_entries_skip_failed_runs() {
    let logs = vec![
        ("a.rs".to_string(), Some("300\n200\n".to_string())),
        ("b.rs".to_string(), None),
        ("c.rs".to_string(), Some(String::new())),
    ];
    let e = churn_entries(&logs);
    let got: Vec<(String, u32, i64)> = e.iter().map(|(p, c)| (p.clone(), c.commits_in_window, c.last_commit_ts)).collect();
    assert_eq!(got, vec![("a.rs".to_string(), 2, 300), ("c.rs".to_string(), 0, 0)]);
}

#[test]
fn byte_length_check_takes_any_limit() {
    let v: Vec<char> = "aé".chars().collect();
    assert!(utf8_longer_than(&v, 2));
    assert!(!utf8_longer_than(&v, 3));
    assert!(!utf8_longer_than(&v, usize::MAX));
}
