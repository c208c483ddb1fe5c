use ast_graph::lang::php::{PhpExtractor, qualify_php_call};
use ast_graph::grammar::parse_source;
use ast_graph::extract::ExtractResult;
use ast_graph::symbol::{SymbolKind, Language};
use ast_graph::relation::EdgeKind;

fn parse(source: &str) -> ExtractResult {
    let tree = parse_source(Language::Php, source.as_bytes()).unwrap();
    PhpExtractor.extract(&tree, "test.php")
}

#[test]
fn php_extracts_class_with_method() {
    let r = parse("<?php\nclass Greeter {\n    public function hello() { return 'hi'; }\n}\n");
    assert!(r.symbols.iter().any(|s| s.name == "Greeter" && s.kind == SymbolKind::Class));
    assert!(r.symbols.iter().any(|s| s.name == "Greeter.hello" && s.kind == SymbolKind::Method));
}

#[test]
fn php_extracts_interface() {
    let r = parse("<?php\ninterface Animal { public function speak(); }\n");
    assert!(r.symbols.iter().any(|s| s.name == "Animal" && s.kind == SymbolKind::Interface));
}

#[test]
fn extracts_trait() {
    let r = parse("<?php\ntrait Loggable { public function log() {} }\n");
    assert!(r.symbols.iter().any(|s| s.name == "Loggable" && s.kind == SymbolKind::Trait));
}

#[test]
fn extracts_extends_and_implements() {
    let r = parse("<?php\ninterface Animal {}\nclass Base {}\nclass Dog extends Base implements Animal {}\n");
    assert!(r.raw_edges.iter().any(|e| e.kind == EdgeKind::Extends && e.target_name == "Base"));
    assert!(r.raw_edges.iter().any(|e| e.kind == EdgeKind::Implements && e.target_name == "Animal"));
}

#[test]
fn this_call_qualifies_to_class() {
    let r = parse("<?php\nclass C {\n  public function a() { $this->b(); }\n  public function b() {}\n}\n");
    assert!(r.raw_edges.iter().any(|e| e.kind == EdgeKind::Calls && e.target_name == "C.b"));
}

#[test]
fn use_emits_imports_edge() {
    let r = parse("<?php\nuse App\\Http\\Controllers\\UserController;\n");
    assert!(r.raw_edges.iter().any(|e| e.kind == EdgeKind::Imports));
}

#[test]
fn php_call_drops_leading_backslashes() {
    assert_eq!(qualify_php_call("\\App\\run", Some("C")), "App\\run");
    assert_eq!(qualify_php_call("run", None), "run");
}
