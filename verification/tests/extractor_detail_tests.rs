use ast_graph::lang::csharp::CSharpExtractor;
use ast_graph::lang::java::JavaExtractor;
use ast_graph::lang::php::PhpExtractor;
use ast_graph::lang::swift::SwiftExtractor;
use ast_graph::grammar::parse_source;
use ast_graph::extract::ExtractResult;
use ast_graph::symbol::{SymbolKind, Language, Visibility};
use ast_graph::relation::EdgeKind;

fn run(lang: Language, src: &str) -> ExtractResult {
    let tree = parse_source(lang, src.as_bytes()).unwrap();
    match lang {
        Language::CSharp => CSharpExtractor.extract(&tree, "test.cs"),
        Language::Java => JavaExtractor.extract(&tree, "Test.java"),
        Language::Php => PhpExtractor.extract(&tree, "test.php"),
        _ => SwiftExtractor.extract(&tree, "test.swift"),
    }
}

#[test]
fn doc_comment_lines_keep_source_order() {
    let src = "namespace App {\n    /// first\n    /// second\n    public class Foo { }\n}\n";
    let r = run(Language::CSharp, src);
    let foo = r.symbols.iter().find(|s| s.name == "Foo").expect("Foo missing");
    assert_eq!(foo.doc_comment.as_deref(), Some("/// first\n/// second"));
}

#[test]
fn doc_comment_stops_at_a_plain_comment() {
    let src = "namespace App {\n    // plain\n    /// only\n    public class Foo { }\n}\n";
    let r = run(Language::CSharp, src);
    let foo = r.symbols.iter().find(|s| s.name == "Foo").expect("Foo missing");
    assert_eq!(foo.doc_comment.as_deref(), Some("/// only"));
}

#[test]
fn no_doc_comment_without_doc_lines() {
    let src = "namespace App {\n    public class Foo { }\n}\n";
    let r = run(Language::CSharp, src);
    let foo = r.symbols.iter().find(|s| s.name == "Foo").expect("Foo missing");
    assert_eq!(foo.doc_comment, None);
}

#[test]
fn csharp_using_edge_names_the_import_symbol() {
    let r = run(Language::CSharp, "using System.Text;\n");
    let imp = r.symbols.iter().find(|s| s.kind == SymbolKind::Import).expect("import missing");
    assert_eq!(imp.name, "using System.Text;");
    let e = r.raw_edges.iter().find(|e| e.kind == EdgeKind::Imports).expect("edge missing");
    assert_eq!(e.target_name, imp.id.to_hex());
}

#[test]
fn java_method_signature_and_visibility() {
    let src = "class Calc {\n    private int add(int a, int b) { return a + b; }\n}\n";
    let r = run(Language::Java, src);
    let m = r.symbols.iter().find(|s| s.name == "Calc.add").expect("Calc.add missing");
    assert_eq!(m.kind, SymbolKind::Method);
    assert_eq!(m.visibility, Visibility::Private);
    assert_eq!(m.signature.as_deref(), Some("int add(int a, int b)"));
}

#[test]
fn java_enum_constants_are_variants_of_the_enum() {
    let r = run(Language::Java, "enum Color { RED, GREEN }\n");
    let color = r.symbols.iter().find(|s| s.name == "Color").expect("Color missing");
    assert_eq!(color.kind, SymbolKind::Enum);
    let red = r.symbols.iter().find(|s| s.name == "RED").expect("RED missing");
    assert_eq!(red.kind, SymbolKind::EnumVariant);
    assert_eq!(red.parent, Some(color.id));
}

#[test]
fn java_class_heritage_edges() {
    let r = run(Language::Java, "class Dog extends Animal implements Pet, Named { }\n");
    assert!(r.raw_edges.iter().any(|e| e.kind == EdgeKind::Extends && e.target_name == "Animal"));
    assert!(r.raw_edges.iter().any(|e| e.kind == EdgeKind::Implements && e.target_name == "Pet"));
    assert!(r.raw_edges.iter().any(|e| e.kind == EdgeKind::Implements && e.target_name == "Named"));
}

#[test]
fn java_constructor_is_named_after_the_class() {
    let r = run(Language::Java, "class Box {\n    Box(int w) { }\n}\n");
    let c = r.symbols.iter().find(|s| s.kind == SymbolKind::Constructor).expect("ctor missing");
    assert_eq!(c.name, "Box..ctor");
    assert_eq!(c.signature.as_deref(), Some("Box(int w)"));
}

#[test]
fn php_static_and_constructor_calls() {
    let src = "<?php\nclass Foo {\n    public function run() {\n        self::make();\n        parent::boot();\n        new Bar();\n    }\n}\n";
    let r = run(Language::Php, src);
    let calls: Vec<&str> = r.raw_edges.iter().filter(|e| e.kind == EdgeKind::Calls).map(|e| e.target_name.as_str()).collect();
    assert!(calls.contains(&"Foo.make"), "calls: {calls:?}");
    assert!(calls.contains(&"parent.boot"), "calls: {calls:?}");
    assert!(calls.contains(&"Bar.__construct"), "calls: {calls:?}");
}

#[test]
fn php_private_method_visibility() {
    let src = "<?php\nclass Foo {\n    private function secret() { }\n}\n";
    let r = run(Language::Php, src);
    let m = r.symbols.iter().find(|s| s.name == "Foo.secret").expect("Foo.secret missing");
    assert_eq!(m.visibility, Visibility::Private);
    assert_eq!(m.signature.as_deref(), Some("function secret()"));
}

#[test]
fn swift_private_function_visibility() {
    let r = run(Language::Swift, "private func helper() { }\n");
    let f = r.symbols.iter().find(|s| s.name == "helper").expect("helper missing");
    assert_eq!(f.kind, SymbolKind::Function);
    assert_eq!(f.visibility, Visibility::Private);
}

#[test]
fn swift_default_visibility_is_internal() {
    let r = run(Language::Swift, "func helper() { }\n");
    let f = r.symbols.iter().find(|s| s.name == "helper").expect("helper missing");
    assert_eq!(f.visibility, Visibility::Internal);
}

#[test]
fn swift_struct_signature() {
    let r = run(Language::Swift, "struct Point {\n    let x: Int\n}\n");
    let p = r.symbols.iter().find(|s| s.name == "Point").expect("Point missing");
    assert_eq!(p.kind, SymbolKind::Struct);
    assert_eq!(p.signature.as_deref(), Some("struct Point"));
    assert!(r.symbols.iter().any(|s| s.name == "Point.x" && s.kind == SymbolKind::Property));
}
