use ast_graph::lang::go::{go_visibility, qualify_go_self_call, GoExtractor};
use ast_graph::grammar::parse_source;
use ast_graph::symbol::{SymbolNode, SymbolKind, Language, Visibility, NodeId};
use ast_graph::relation::{RawEdge, EdgeKind};

fn extract(src: &str) -> (Vec<SymbolNode>, Vec<RawEdge>) {
    let tree = parse_source(Language::Go, src.as_bytes()).expect("parse failed");
    let result = GoExtractor.extract(&tree, "test.go");
    (result.symbols, result.raw_edges)
}

fn find_symbol<'a>(symbols: &'a [SymbolNode], name: &str) -> Option<&'a SymbolNode> {
    symbols.iter().find(|s| s.name == name)
}

fn find_edges_from<'a>(edges: &'a [RawEdge], source_id: NodeId) -> Vec<&'a RawEdge> {
    edges.iter().filter(|e| e.source == source_id).collect()
}

fn edge_targets<'a>(edges: &[&'a RawEdge]) -> Vec<&'a str> {
    let mut v: Vec<&str> = edges.iter().map(|e| e.target_name.as_str()).collect();
    v.sort_unstable();
    v
}

#[test]
fn visibility_uppercase_is_public() {
    assert_eq!(go_visibility("Exported"), Visibility::Public);
    assert_eq!(go_visibility("MAX"), Visibility::Public);
}

#[test]
fn visibility_lowercase_is_private() {
    assert_eq!(go_visibility("unexported"), Visibility::Private);
    assert_eq!(go_visibility("count"), Visibility::Private);
}

#[test]
fn visibility_empty_is_private() {
    assert_eq!(go_visibility(""), Visibility::Private);
}

#[test]
fn qualify_short_receiver_var() {
    assert_eq!(qualify_go_self_call("s.Save", "Store"), "Store.Save");
    assert_eq!(qualify_go_self_call("g.Greet", "Greeter"), "Greeter.Greet");
}

#[test]
fn qualify_two_char_receiver_var() {
    assert_eq!(qualify_go_self_call("uc.Do", "UseCase"), "UseCase.Do");
}

#[test]
fn no_qualify_package_call() {
    assert_eq!(qualify_go_self_call("fmt.Sprintf", "Any"), "fmt.Sprintf");
    assert_eq!(qualify_go_self_call("strings.ToUpper", "Any"), "strings.ToUpper");
}

#[test]
fn no_qualify_bare_function() {
    assert_eq!(qualify_go_self_call("helper", "Any"), "helper");
}

#[test]
fn no_qualify_chained_call() {
    assert_eq!(qualify_go_self_call("s.db.Query", "Store"), "s.db.Query");
}

#[test]
fn receiver_operand_is_measured_in_bytes() {
    assert_eq!(qualify_go_self_call("é.Do", "T"), "T.Do");
    assert_eq!(qualify_go_self_call("éa.Do", "T"), "éa.Do");
    assert_eq!(qualify_go_self_call("ab.Do", "T"), "T.Do");
    assert_eq!(qualify_go_self_call("Ab.Do", "T"), "Ab.Do");
    assert_eq!(qualify_go_self_call(".Do", "T"), "T.Do");
}

#[test]
fn extracts_package_as_module() {
    let (symbols, _) = extract("package myapp\n");
    let pkg = find_symbol(&symbols, "myapp").expect("package symbol missing");
    assert_eq!(pkg.kind, SymbolKind::Module);
    assert_eq!(pkg.visibility, Visibility::Public);
    assert_eq!(pkg.language, Language::Go);
    assert_eq!(pkg.signature.as_deref(), Some("package myapp"));
}

#[test]
fn extracts_single_import() {
    let src = "package p\nimport \"fmt\"\n";
    let (symbols, edges) = extract(src);
    let imp = find_symbol(&symbols, "fmt").expect("import symbol missing");
    assert_eq!(imp.kind, SymbolKind::Import);
    assert_eq!(imp.signature.as_deref(), Some("import \"fmt\""));
    let import_edge = edges.iter().find(|e| e.kind == EdgeKind::Imports && e.target_name == "fmt");
    assert!(import_edge.is_some(), "IMPORTS edge for fmt missing");
}

#[test]
fn extracts_grouped_imports() {
    let src = "package p\nimport (\n\t\"fmt\"\n\t\"strings\"\n)\n";
    let (symbols, edges) = extract(src);
    assert!(find_symbol(&symbols, "fmt").is_some());
    assert!(find_symbol(&symbols, "strings").is_some());
    let import_edges: Vec<_> = edges.iter().filter(|e| e.kind == EdgeKind::Imports).collect();
    assert_eq!(import_edges.len(), 2);
}

#[test]
fn extracts_exported_function() {
    let src = "package p\nfunc Add(a, b int) int { return a + b }\n";
    let (symbols, _) = extract(src);
    let f = find_symbol(&symbols, "Add").expect("Add missing");
    assert_eq!(f.kind, SymbolKind::Function);
    assert_eq!(f.visibility, Visibility::Public);
    assert_eq!(f.language, Language::Go);
    assert!(f.signature.as_deref().unwrap_or("").contains("func Add"));
}

#[test]
fn extracts_unexported_function() {
    let src = "package p\nfunc helper() {}\n";
    let (symbols, _) = extract(src);
    let f = find_symbol(&symbols, "helper").expect("helper missing");
    assert_eq!(f.kind, SymbolKind::Function);
    assert_eq!(f.visibility, Visibility::Private);
}

#[test]
fn function_line_range_is_correct() {
    let src = "package p\n\nfunc Foo() {\n}\n";
    let (symbols, _) = extract(src);
    let f = find_symbol(&symbols, "Foo").expect("Foo missing");
    assert_eq!(f.line_range.0, 2);
}

#[test]
fn extracts_method_qualified_with_receiver_type() {
    let src = "package p\ntype Dog struct{}\nfunc (d *Dog) Bark() string { return \"woof\" }\n";
    let (symbols, _) = extract(src);
    let m = find_symbol(&symbols, "Dog.Bark").expect("Dog.Bark missing");
    assert_eq!(m.kind, SymbolKind::Method);
    assert_eq!(m.visibility, Visibility::Public);
    assert!(m.signature.as_deref().unwrap_or("").contains("func"));
    assert!(m.signature.as_deref().unwrap_or("").contains("Bark"));
}

#[test]
fn extracts_unexported_method() {
    let src = "package p\ntype T struct{}\nfunc (t T) reset() {}\n";
    let (symbols, _) = extract(src);
    let m = find_symbol(&symbols, "T.reset").expect("T.reset missing");
    assert_eq!(m.kind, SymbolKind::Method);
    assert_eq!(m.visibility, Visibility::Private);
}

#[test]
fn pointer_receiver_strips_star() {
    let src = "package p\ntype Dog struct{}\nfunc (d *Dog) Bark() {}\n";
    let (symbols, _) = extract(src);
    assert!(find_symbol(&symbols, "Dog.Bark").is_some());
    assert!(find_symbol(&symbols, "*Dog.Bark").is_none());
}

#[test]
fn go_extracts_struct() {
    let src = "package p\ntype Point struct {\n\tX float64\n\tY float64\n}\n";
    let (symbols, _) = extract(src);
    let s = find_symbol(&symbols, "Point").expect("Point missing");
    assert_eq!(s.kind, SymbolKind::Struct);
    assert_eq!(s.visibility, Visibility::Public);
    assert_eq!(s.signature.as_deref(), Some("type Point struct"));
}

#[test]
fn extracts_struct_fields_with_visibility() {
    let src = "package p\ntype Account struct {\n\tID string\n\tbalance float64\n}\n";
    let (symbols, _) = extract(src);
    let pub_field = find_symbol(&symbols, "Account.ID").expect("Account.ID missing");
    assert_eq!(pub_field.kind, SymbolKind::Field);
    assert_eq!(pub_field.visibility, Visibility::Public);
    let priv_field = find_symbol(&symbols, "Account.balance").expect("Account.balance missing");
    assert_eq!(priv_field.kind, SymbolKind::Field);
    assert_eq!(priv_field.visibility, Visibility::Private);
}

#[test]
fn struct_field_emits_references_edge_for_exported_type() {
    let src = "package p\ntype Order struct {\n\tUser User\n\tcount int\n}\n";
    let (symbols, edges) = extract(src);
    let field = find_symbol(&symbols, "Order.User").expect("Order.User missing");
    let refs: Vec<_> = edges
        .iter()
        .filter(|e| e.source == field.id && e.kind == EdgeKind::References)
        .collect();
    assert!(!refs.is_empty(), "REFERENCES edge from Order.User missing");
    assert_eq!(refs[0].target_name, "User");
    let int_field = find_symbol(&symbols, "Order.count").expect("Order.count missing");
    let int_refs: Vec<_> = edges
        .iter()
        .filter(|e| e.source == int_field.id && e.kind == EdgeKind::References)
        .collect();
    assert!(int_refs.is_empty(), "unexpected REFERENCES edge for builtin type");
}

#[test]
fn go_extracts_interface() {
    let src = "package p\ntype Writer interface {\n\tWrite(p []byte) (int, error)\n\tClose() error\n}\n";
    let (symbols, _) = extract(src);
    let iface = find_symbol(&symbols, "Writer").expect("Writer missing");
    assert_eq!(iface.kind, SymbolKind::Interface);
    assert_eq!(iface.signature.as_deref(), Some("type Writer interface"));
    let write_m = find_symbol(&symbols, "Writer.Write").expect("Writer.Write missing");
    assert_eq!(write_m.kind, SymbolKind::Method);
    let close_m = find_symbol(&symbols, "Writer.Close").expect("Writer.Close missing");
    assert_eq!(close_m.kind, SymbolKind::Method);
}

#[test]
fn extracts_type_alias() {
    let src = "package p\ntype MyInt = int\n";
    let (symbols, _) = extract(src);
    let t = find_symbol(&symbols, "MyInt").expect("MyInt missing");
    assert_eq!(t.kind, SymbolKind::TypeAlias);
}

#[test]
fn extracts_named_type() {
    let src = "package p\ntype Duration int64\n";
    let (symbols, _) = extract(src);
    let t = find_symbol(&symbols, "Duration").expect("Duration missing");
    assert_eq!(t.kind, SymbolKind::TypeAlias);
}

#[test]
fn extracts_constants() {
    let src = "package p\nconst MaxRetries = 3\nconst defaultTimeout = 30\n";
    let (symbols, _) = extract(src);
    let pub_c = find_symbol(&symbols, "MaxRetries").expect("MaxRetries missing");
    assert_eq!(pub_c.kind, SymbolKind::Constant);
    assert_eq!(pub_c.visibility, Visibility::Public);
    let priv_c = find_symbol(&symbols, "defaultTimeout").expect("defaultTimeout missing");
    assert_eq!(priv_c.kind, SymbolKind::Constant);
    assert_eq!(priv_c.visibility, Visibility::Private);
}

#[test]
fn emits_calls_edge_for_bare_function() {
    let src = "package p\nfunc helper() {}\nfunc Run() { helper() }\n";
    let (symbols, edges) = extract(src);
    let run = find_symbol(&symbols, "Run").expect("Run missing");
    let calls = find_edges_from(&edges, run.id);
    let targets = edge_targets(&calls);
    assert!(targets.contains(&"helper"), "expected CALLS helper, got: {:?}", targets);
}

#[test]
fn emits_calls_edge_qualified_for_receiver_var() {
    let src = "package p\ntype Store struct{}\nfunc (s *Store) Commit() { s.Save() }\nfunc (s *Store) Save() {}\n";
    let (symbols, edges) = extract(src);
    let commit = find_symbol(&symbols, "Store.Commit").expect("Store.Commit missing");
    let calls = find_edges_from(&edges, commit.id);
    let targets = edge_targets(&calls);
    assert!(targets.contains(&"Store.Save"), "expected CALLS Store.Save, got: {:?}", targets);
}

#[test]
fn preserves_package_qualified_calls() {
    let src = "package p\nimport \"fmt\"\nfunc Log(msg string) { fmt.Println(msg) }\n";
    let (symbols, edges) = extract(src);
    let log = find_symbol(&symbols, "Log").expect("Log missing");
    let calls = find_edges_from(&edges, log.id);
    let targets = edge_targets(&calls);
    assert!(targets.contains(&"fmt.Println"), "expected CALLS fmt.Println, got: {:?}", targets);
}

#[test]
fn full_file_symbol_count_and_kinds() {
    let src = r#"package store

import (
    "fmt"
    "errors"
)

type ErrNotFound struct{ ID string }

type Repository interface {
    Find(id string) (*ErrNotFound, error)
    Save(v interface{}) error
}

type UserRepo struct {
    db     interface{}
    Logger *fmt.Stringer
}

func NewUserRepo(db interface{}) *UserRepo {
    return &UserRepo{db: db}
}

func (r *UserRepo) Find(id string) (*ErrNotFound, error) {
    if id == "" {
        return nil, errors.New("empty id")
    }
    return nil, nil
}

func (r *UserRepo) Save(v interface{}) error {
    return nil
}

const MaxResults = 100
"#;
    let (symbols, edges) = extract(src);
    let kinds: Vec<_> = symbols.iter().map(|s| s.kind).collect();
    assert!(kinds.contains(&SymbolKind::File));
    assert!(kinds.contains(&SymbolKind::Module));
    assert!(kinds.contains(&SymbolKind::Import));
    assert!(kinds.contains(&SymbolKind::Struct));
    assert!(kinds.contains(&SymbolKind::Interface));
    assert!(kinds.contains(&SymbolKind::Method));
    assert!(kinds.contains(&SymbolKind::Function));
    assert!(kinds.contains(&SymbolKind::Constant));
    assert!(kinds.contains(&SymbolKind::Field));
    let import_edges: Vec<_> = edges.iter().filter(|e| e.kind == EdgeKind::Imports).collect();
    assert!(import_edges.len() >= 2);
    let call_edges: Vec<_> = edges.iter().filter(|e| e.kind == EdgeKind::Calls).collect();
    assert!(!call_edges.is_empty());
}

#[test]
fn file_symbol_opens_extraction() {
    let (symbols, edges) = extract("package p\n\nfunc A() {}\n");
    assert_eq!(symbols[0].kind, SymbolKind::File);
    assert_eq!(symbols[0].name, "test.go");
    assert_eq!(symbols[0].line_range, (0, 3));
    assert_eq!(symbols[0].id, NodeId::new("test.go", "test.go", SymbolKind::File, 0));
    for s in &symbols[1..] {
        assert_eq!(s.file_path, "test.go");
        assert!(s.parent.is_some());
    }
    for e in &edges {
        assert!(symbols.iter().any(|s| s.id == e.source));
    }
}
