use ast_graph::lang::swift::SwiftExtractor;
use ast_graph::grammar::parse_source;
use ast_graph::extract::ExtractResult;
use ast_graph::symbol::{SymbolKind, Language};
use ast_graph::relation::EdgeKind;

fn parse(source: &str) -> ExtractResult {
    let tree = parse_source(Language::Swift, source.as_bytes()).unwrap();
    SwiftExtractor.extract(&tree, "test.swift")
}

#[test]
fn swift_extracts_class_with_method() {
    let r = parse("class Greeter {\n    func hello() -> String { return \"hi\" }\n}\n");
    assert!(r.symbols.iter().any(|s| s.name == "Greeter" && s.kind == SymbolKind::Class));
    assert!(r.symbols.iter().any(|s| s.name == "Greeter.hello" && s.kind == SymbolKind::Method));
}

#[test]
fn swift_extracts_struct() {
    let r = parse("struct Point { let x: Int; let y: Int }\n");
    assert!(r.symbols.iter().any(|s| s.name == "Point" && s.kind == SymbolKind::Struct));
}

#[test]
fn extracts_protocol() {
    let r = parse("protocol Animal { func speak() -> String }\n");
    assert!(r.symbols.iter().any(|s| s.name == "Animal" && s.kind == SymbolKind::Interface));
}

#[test]
fn extracts_inheritance() {
    let r = parse("protocol Animal {}\nclass Dog: Animal {}\n");
    assert!(r.raw_edges.iter().any(|e| e.kind == EdgeKind::Extends && e.target_name == "Animal"));
}

#[test]
fn extracts_call_with_self_qualification() {
    let r = parse("class Greeter {\n  func a() { self.b() }\n  func b() {}\n}\n");
    assert!(r.raw_edges.iter().any(|e| e.kind == EdgeKind::Calls && e.target_name == "Greeter.b"));
}
