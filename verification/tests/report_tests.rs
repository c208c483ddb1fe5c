use ast_graph::commands::export::{export_dot, export_ai_context, ai_context_file_section};
use ast_graph::commands::blast_radius::{blast_target, blast_radius_report, involved_files, most_affected_files};
use ast_graph::commands::call_chain::{call_chain_target, call_chain_report};
use ast_graph::commands::dead_code::{dead_code_kinds, dead_code_excludes, dead_code_report};
use ast_graph::commands::changed_symbols::{changed_symbols_report, changed_symbol_order, no_diff_message};
use ast_graph::commands::hotspots::hotspots_report;
use ast_graph::commands::stats::{stats_report, GraphStats};
use ast_graph::commands::symbol::{symbol_listing, symbol_target, choose_target, symbol_detail_text, member_display_text, shows_members, shows_callers, shows_callees};
use ast_graph::commands::rows::Row;
use ast_graph::graph::CodeGraph;
use ast_graph::git::FileChurn;
use ast_graph::symbol::{SymbolNode, SymbolKind, Language, Visibility, NodeId};
use ast_graph::relation::{Edge, EdgeKind};

fn node(id: u64, name: &str, kind: SymbolKind, file: &str, lines: (u32, u32), sig: Option<&str>) -> SymbolNode {
    SymbolNode {
        id: NodeId(id),
        name: name.to_string(),
        kind,
        file_path: file.to_string(),
        line_range: lines,
        signature: sig.map(|s| s.to_string()),
        doc_comment: None,
        visibility: Visibility::Public,
        language: Language::Rust,
        parent: None,
    }
}

fn edge(s: u64, t: u64, kind: EdgeKind) -> Edge {
    Edge { source: NodeId(s), target: NodeId(t), kind, source_line: 0 }
}

fn row(id: Option<&str>, name: Option<&str>, kind: Option<&str>, file: Option<&str>) -> Row {
    let mut r = Row::empty();
    r.id = id.map(|s| s.to_string());
    r.name = name.map(|s| s.to_string());
    r.kind = kind.map(|s| s.to_string());
    r.file_path = file.map(|s| s.to_string());
    r
}

fn sample_graph() -> CodeGraph {
    let mut g = CodeGraph::new("/p".to_string());
    g.add_node(node(1, "foo", SymbolKind::Function, "/p/src/a.rs", (1, 3), Some("fn foo()")));
    g.add_node(node(2, "S", SymbolKind::Struct, "/p/src/a.rs", (5, 6), None));
    g.add_node(node(3, "T.m", SymbolKind::Method, "/p/b.rs", (2, 2), None));
    g.add_node(node(4, "a.rs", SymbolKind::File, "/p/src/a.rs", (0, 7), None));
    g.add_edge(edge(1, 2, EdgeKind::Calls));
    g.add_edge(edge(3, 1, EdgeKind::Calls));
    g.add_edge(edge(4, 1, EdgeKind::Contains));
    g.refresh_metadata();
    g
}

#[test]
fn dot_export_skips_files_and_containment() {
    let mut g = CodeGraph::new("/p".to_string());
    g.add_node(node(1, "m::foo", SymbolKind::Function, "a.rs", (1, 2), None));
    g.add_node(node(2, "Bar", SymbolKind::Class, "a.rs", (3, 4), None));
    g.add_node(node(3, "a.rs", SymbolKind::File, "a.rs", (0, 4), None));
    g.add_edge(edge(1, 2, EdgeKind::Calls));
    g.add_edge(edge(3, 1, EdgeKind::Contains));
    let dot = export_dot(&g);
    let expected = "digraph CodeGraph {\n  rankdir=LR;\n  node [shape=box fontsize=10];\n\n  \"0000000000000001\" [label=\"foo\" style=filled fillcolor=\"lightblue\"];\n  \"0000000000000002\" [label=\"Bar\" style=filled fillcolor=\"lightyellow\"];\n\n  \"0000000000000001\" -> \"0000000000000002\" [label=\"CALLS\"];\n}\n";
    assert_eq!(dot, expected);
}

#[test]
fn ai_context_sorts_files_and_groups_symbols() {
    let g = sample_graph();
    let text = export_ai_context(&g, None);
    let expected = "# Project (rust) — 4 symbols, 3 relationships\n\n\
## b.rs\n  T.m  [L2-L2]\n    calls: foo\n\n\
## src/a.rs\n  fn foo()  [L1-L3]\n    calls: S\n    called_by: foo\n  S  [L5-L6]\n    called_by: S\n\n";
    assert_eq!(text, expected);
}

#[test]
fn ai_context_truncates_at_budget() {
    let g = sample_graph();
    let text = export_ai_context(&g, Some(10));
    assert_eq!(text, "# Project (rust) — 4 symbols, 3 relationships\n\n... (truncated)\n");
    let roomy = export_ai_context(&g, Some(1000));
    assert_eq!(roomy, export_ai_context(&g, None));
}

#[test]
fn ai_context_section_uses_given_heading() {
    let g = sample_graph();
    let s = ai_context_file_section(&g, "/p/b.rs", "custom");
    assert_eq!(s, "## custom\n  T.m  [L2-L2]\n    calls: foo\n\n");
}

fn caller(id: &str, name: &str, kind: &str, file: &str, depth: i64, call_line: i64) -> Row {
    let mut r = row(Some(id), Some(name), Some(kind), Some(file));
    r.depth = Some(depth);
    r.call_line = Some(call_line);
    r
}

#[test]
fn blast_radius_groups_by_depth_and_ranks_files() {
    let up = vec![
        caller("a", "alpha", "Function", "x.rs", 1, 10),
        caller("b", "beta", "Method", "y.rs", 2, 0),
        caller("a", "alpha", "Function", "x.rs", 2, 5),
    ];
    let text = blast_radius_report("tgt", 3, &up, &None, 30, 1000);
    let mut expected = String::from("Blast radius for 'tgt' — 2 distinct callers within 3 hop(s):\n\n");
    expected.push_str("L1 (depth 1), 1 symbol(s):\n");
    expected.push_str(&format!("  ← {:<40} {:<14} @ {}{}{}\n", "alpha", "Function", "x.rs", ":10", ""));
    expected.push_str("\n");
    expected.push_str("L2 (depth 2), 2 symbol(s):\n");
    expected.push_str(&format!("  ← {:<40} {:<14} @ {}{}{}\n", "beta", "Method", "y.rs", "", ""));
    expected.push_str(&format!("  ← {:<40} {:<14} @ {}{}{}\n", "alpha", "Function", "x.rs", ":5", ""));
    expected.push_str("\n");
    expected.push_str("Most-affected files:\n");
    expected.push_str(&format!("  {:>4}  {}\n", 2, "x.rs"));
    expected.push_str(&format!("  {:>4}  {}\n", 1, "y.rs"));
    assert_eq!(text, expected);
}

#[test]
fn blast_radius_shows_churn_and_note() {
    let up = vec![caller("a", "alpha", "Function", "x.rs", 1, 0)];
    let churn = Some(vec![("x.rs".to_string(), FileChurn { commits_in_window: 3, last_commit_ts: 100 })]);
    let text = blast_radius_report("tgt", 1, &up, &churn, 30, 100 + 7200);
    assert!(text.contains("@ x.rs  [churn: 3 commits in 30d, last 2h ago]\n"), "{text}");
    assert!(text.ends_with("\nRecency is measured over the last 30 days. Hot-and-connected symbols are the ones worth double-checking before you change the target.\n"));
    let never = Some(vec![("x.rs".to_string(), FileChurn { commits_in_window: 0, last_commit_ts: 0 })]);
    let text2 = blast_radius_report("tgt", 1, &up, &never, 7, 50);
    assert!(text2.contains("[churn: 0 commits in 7d, last never]"));
    let plain = blast_radius_report("tgt", 1, &up, &None, 7, 50);
    assert!(!plain.contains("Recency"));
}

#[test]
fn blast_radius_without_callers() {
    let text = blast_radius_report("tgt", 2, &vec![], &None, 30, 0);
    assert_eq!(text, "'tgt' has no inbound CALLS edges — nothing breaks if you change it (as far as the graph knows).\n");
}

#[test]
fn blast_target_filters_kinds() {
    let ms = vec![
        row(Some("1"), Some("x"), Some("Import"), None),
        row(Some("2"), Some("Foo"), Some("Class"), None),
        row(Some("3"), Some("foo"), Some("Function"), None),
    ];
    let t = blast_target("foo", &ms).ok().unwrap();
    assert_eq!(t.id, "2");
    assert_eq!(t.name, "Foo");
    assert_eq!(t.preamble, "Multiple matches found — showing blast radius for the first:\n  Foo (Class)\n  foo (Function)\n\n");
    let none = blast_target("zz", &vec![row(Some("1"), Some("x"), Some("Import"), None)]);
    assert_eq!(none.err().unwrap(), "No symbol matching 'zz' found. Run 'ast-graph scan .' first.\n");
}

#[test]
fn most_affected_files_ties_by_path() {
    let up = vec![
        caller("a", "a", "Function", "b.rs", 1, 0),
        caller("b", "b", "Function", "a.rs", 1, 0),
        caller("c", "c", "Function", "c.rs", 1, 0),
        caller("d", "d", "Function", "c.rs", 1, 0),
    ];
    let r = most_affected_files(&up);
    assert_eq!(r, vec![("c.rs".to_string(), 2), ("a.rs".to_string(), 1), ("b.rs".to_string(), 1)]);
    assert_eq!(involved_files(&up), vec!["a.rs".to_string(), "b.rs".to_string(), "c.rs".to_string()]);
}

#[test]
fn call_chain_indents_by_depth() {
    let mut a = row(None, Some("a"), Some("Function"), None);
    a.depth = Some(1);
    a.call_line = Some(3);
    let mut b = row(None, Some("b"), Some("Method"), None);
    b.depth = Some(2);
    let text = call_chain_report("main", 2, &vec![a, b]);
    assert_eq!(text, "Call chain from 'main' (depth 2):\n\n  a (Function) @L3\n    b (Method)\n");
    assert_eq!(call_chain_report("main", 1, &vec![]), "Call chain from 'main' (depth 1):\n\n  (no outgoing calls found)\n");
}

#[test]
fn call_chain_target_lists_candidates() {
    let ms = vec![
        row(Some("i1"), Some("run"), Some("Function"), None),
        row(Some("i2"), Some("Runner"), Some("Class"), None),
        row(Some("i3"), Some("R.run"), Some("Method"), None),
    ];
    let t = call_chain_target("run", &ms).ok().unwrap();
    assert_eq!(t.id, "i1");
    assert_eq!(t.preamble, "Multiple matches found:\n  run (Function) - i1\n  R.run (Method) - i3\n\n");
}

#[test]
fn dead_code_kinds_and_excludes() {
    assert_eq!(dead_code_kinds(Some(" Function , Method")), vec!["Function".to_string(), "Method".to_string()]);
    assert_eq!(dead_code_kinds(None), vec!["Function".to_string(), "Method".to_string(), "Constructor".to_string()]);
    assert!(dead_code_excludes(true).is_empty());
    assert_eq!(dead_code_excludes(false).len(), 10);
    assert_eq!(dead_code_excludes(false)[0], "node_modules");
}

#[test]
fn dead_code_report_names_each_file_once() {
    let mut a = row(None, Some("f"), Some("Function"), Some("a.rs"));
    a.line_start = Some(12);
    a.visibility = Some("Public".to_string());
    let mut b = row(None, Some("g"), Some("Function"), Some("a.rs"));
    b.line_start = Some(30);
    let kinds = vec!["Function".to_string()];
    let text = dead_code_report(&kinds, &vec![a, b]);
    let mut expected = String::from("Found 2 Function with no inbound CALLS edges (likely dead):\n\n");
    expected.push_str("a.rs\n");
    expected.push_str(&format!("  L{:>5}  {:<12} {}{}\n", 12, "Function", "f", " [Public]"));
    expected.push_str(&format!("  L{:>5}  {:<12} {}{}\n", 30, "Function", "g", ""));
    expected.push_str("\nCaveats:\n");
    assert!(text.starts_with(&expected), "{text}");
    assert!(text.ends_with("  - Run with --include-all to disable vendored-file exclusions.\n"));
    let empty = dead_code_report(&vec!["Function".to_string(), "Method".to_string()], &vec![]);
    assert!(empty.starts_with("No dead Function/Method found.\n"));
}

#[test]
fn changed_symbols_dedupes_and_orders() {
    let mut s1 = row(Some("b"), Some("second"), Some("Function"), None);
    s1.line_start = Some(20);
    s1.line_end = Some(25);
    let mut s2 = row(Some("a"), Some("first"), Some("Function"), None);
    s2.line_start = Some(5);
    s2.line_end = Some(9);
    let mut s2b = row(Some("a"), Some("first"), Some("Function"), None);
    s2b.line_start = Some(5);
    s2b.line_end = Some(9);
    let hunks = vec![
        ("src/x.rs".to_string(), vec![s1, s2]),
        ("src/x.rs".to_string(), vec![s2b, row(None, Some("noid"), None, None)]),
    ];
    let text = changed_symbols_report(2, Some("main"), &hunks, None);
    let mut expected = String::from("Changed symbols (main..HEAD) — 2 symbols across 1 file(s):\n\n");
    expected.push_str("src/x.rs\n");
    expected.push_str(&format!("  L{:>5}-{:<5} {:<12} {}\n", 5, 9, "Function", "first"));
    expected.push_str(&format!("  L{:>5}-{:<5} {:<12} {}\n", 20, 25, "Function", "second"));
    assert_eq!(text, expected);
    let order = changed_symbol_order(&hunks);
    assert_eq!(order.len(), 2);
    assert_eq!(order[0].id.as_deref(), Some("a"));
    let mut c = row(None, Some("caller"), None, Some("y.rs"));
    c.call_site_line = Some(7);
    let with = changed_symbols_report(2, None, &hunks, Some(&vec![vec![c], vec![]]));
    assert!(with.starts_with("Changed symbols (HEAD..worktree)"));
    assert!(with.ends_with("\nDirect callers of each changed symbol (--callers):\n  first (1 caller):\n    ← caller @ y.rs:7\n  second — no callers in the graph\n"), "{with}");
    assert_eq!(no_diff_message(None), "No diff between HEAD and the working tree.\n");
}

#[test]
fn changed_symbols_without_overlap() {
    let hunks = vec![("a.rs".to_string(), vec![row(None, Some("x"), None, None)])];
    let text = changed_symbols_report(1, None, &hunks, None);
    assert_eq!(text, "Diff (HEAD..worktree) touched 1 hunk(s) but no tracked symbols overlapped.\nFiles may be outside the scanned language set, or changes may be in comments / whitespace.\n");
}

#[test]
fn hotspots_table() {
    let mut r = row(None, Some("a_very_long_function_name_that_goes_on"), Some("Function"), None);
    r.outgoing = Some(3);
    r.incoming = Some(4);
    r.connections = Some(7);
    let text = hotspots_report(&vec![r]);
    let mut expected = format!("{:<30} {:<15} {:>8} {:>8} {:>8}\n", "Name", "Kind", "Out", "In", "Total");
    expected.push_str(&"-".repeat(75));
    expected.push('\n');
    let name = "a_very_long_function_name_that_goes_on";
    expected.push_str(&format!("{:<30} {:<15} 3 4 7\n", format!("{}...", &name[..27]), "Function"));
    assert_eq!(text, expected);
    assert_eq!(hotspots_report(&vec![]), "No hotspots found. Run 'ast-graph scan .' first.\n");
}

#[test]
fn stats_listing() {
    let mut l = Row::empty();
    l.language = Some("rust".to_string());
    l.count = Some(5);
    let stats = GraphStats { nodes: Some(5), edges: Some(2), files: None, languages: Some(vec![l]), kinds: None };
    let text = stats_report("sqlite", &stats);
    assert_eq!(text, format!("Graph Statistics (sqlite):\n  Nodes: 5\n  Edges: 2\n  Files: null\n\n  By Language:\n    {:<15} 5\n", "rust"));
}

#[test]
fn symbol_detail_like_readme() {
    let mut n = row(Some("id"), Some("UserService.login"), Some("Method"), Some("/home/me/proj/src/services/user.service.ts"));
    n.line_start = Some(42);
    n.line_end = Some(78);
    n.signature = Some("login(email: string): Observable<User>\n  more".to_string());
    let mut c1 = row(None, Some("LoginComponent.onSubmit"), None, Some("/home/me/proj/src/pages/login.ts"));
    c1.line = Some(55);
    let c2 = row(None, Some("vendor"), None, Some("/x/node_modules/lib.js"));
    let e1 = row(None, Some("ApiService.post"), Some("Method"), Some("/home/me/proj/src/core/api.ts"));
    assert!(!shows_members("Method", false, false, false));
    assert!(shows_callers(false, false, false));
    assert!(shows_callees(false, false, false));
    let text = symbol_detail_text(&n, false, false, false, &vec![], &vec![c1, c2], &vec![e1]);
    let expected = "┌─ UserService.login [Method]\n│  File: src/services/user.service.ts L42-78\n│  Sig:  login(email: string): Observable<User>\n│\n├─ Callers (1):\n│  ← LoginComponent.onSubmit @ src/pages/login.ts L55\n│\n└─ Calls (1):\n   → ApiService.post [Method] @ src/core/api.ts\n\n";
    assert_eq!(text, expected);
}

#[test]
fn symbol_members_section() {
    let n = row(Some("id"), Some("Svc"), Some("Class"), Some("a/b.ts"));
    let mut m1 = row(None, Some("Svc.run"), Some("Method"), None);
    m1.signature = Some("run(x: number)".to_string());
    let m2 = row(None, Some("Svc.count"), Some("Field"), None);
    assert_eq!(member_display_text(&m2), "count");
    assert!(shows_members("Class", false, false, true));
    let text = symbol_detail_text(&n, false, false, true, &vec![m1, m2], &vec![], &vec![]);
    let expected = format!("┌─ Svc [Class]\n│  File: a/b.ts L0-0\n│\n├─ Members (2):\n│  [{:11}] run(x: number)\n│  [{:11}] count\n│\n\n", "Method", "Field");
    assert_eq!(text, expected);
}

#[test]
fn symbol_listing_and_target() {
    let mut a = row(Some("1"), Some("Foo"), Some("Class"), Some("/r/src/foo.ts"));
    a.line_start = Some(3);
    let b = row(Some("2"), Some("FooBar"), Some("Class"), Some("x/y/z/w.ts"));
    let ms = vec![b, a];
    let text = symbol_listing("foo", &ms);
    assert_eq!(text, "Found 2 matches for 'foo':\n\n  [1] FooBar (Class) @ y/z/w.ts L0\n  [2] Foo (Class) @ src/foo.ts L3\n\n");
    assert_eq!(symbol_target("foo", &ms, false, false, false), Some(1));
    assert_eq!(symbol_target("zzz", &ms, false, false, false), None);
    assert_eq!(symbol_target("zzz", &ms, true, false, false), Some(0));
    assert_eq!(choose_target(&vec![false], false, false, false), Some(0));
    assert_eq!(symbol_listing("q", &vec![]), "No symbols matching 'q' found.\n");
}
