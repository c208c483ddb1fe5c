use ast_graph::lang::csharp::CSharpExtractor;
use ast_graph::grammar::parse_source;
use ast_graph::symbol::{SymbolNode, SymbolKind, Language, Visibility};
use ast_graph::relation::RawEdge;

fn extract(src: &str) -> (Vec<SymbolNode>, Vec<RawEdge>) {
    let tree = parse_source(Language::CSharp, src.as_bytes()).unwrap();
    let r = CSharpExtractor.extract(&tree, "test.cs");
    (r.symbols, r.raw_edges)
}

fn find<'a>(syms: &'a [SymbolNode], name: &str) -> Option<&'a SymbolNode> {
    syms.iter().find(|s| s.name == name)
}

#[test]
fn extracts_class_and_method() {
    let src = "namespace App { public class Foo { public int Bar() { return 42; } } }\n";
    let (syms, _) = extract(src);
    assert!(find(&syms, "Foo").is_some());
    let m = find(&syms, "Foo.Bar").expect("Foo.Bar missing");
    assert_eq!(m.kind, SymbolKind::Method);
    assert_eq!(m.visibility, Visibility::Public);
}

#[test]
fn csharp_extracts_interface() {
    let src = "namespace App { public interface IFoo { void Bar(); } }\n";
    let (syms, _) = extract(src);
    assert_eq!(find(&syms, "IFoo").map(|s| s.kind), Some(SymbolKind::Interface));
}

#[test]
fn extracts_struct_and_record() {
    let src = "namespace App { public struct Point { } public record User(string Name); }\n";
    let (syms, _) = extract(src);
    assert_eq!(find(&syms, "Point").map(|s| s.kind), Some(SymbolKind::Struct));
    assert_eq!(find(&syms, "User").map(|s| s.kind), Some(SymbolKind::Record));
}

#[test]
fn extracts_enum() {
    let src = "namespace App { public enum Color { Red, Green, Blue } }\n";
    let (syms, _) = extract(src);
    assert_eq!(find(&syms, "Color").map(|s| s.kind), Some(SymbolKind::Enum));
}

#[test]
fn extracts_namespace() {
    let src = "namespace MyApp.Services { public class Foo { } }\n";
    let (syms, _) = extract(src);
    let ns = syms.iter().find(|s| s.kind == SymbolKind::Namespace);
    assert!(ns.is_some(), "expected a Namespace symbol");
}

#[test]
fn extracts_xml_doc_comment() {
    let src = "namespace App {\n    /// <summary>Adds two numbers.</summary>\n    public class Foo {\n        public int Bar() { return 42; }\n    }\n}\n";
    let (syms, _) = extract(src);
    let f = find(&syms, "Foo").expect("Foo missing");
    let doc = f.doc_comment.as_deref().unwrap_or("");
    assert!(doc.contains("Adds two numbers") || doc.contains("<summary>"), "doc was: {doc:?}");
}
