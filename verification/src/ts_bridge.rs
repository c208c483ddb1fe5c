//! The calls into tree-sitter that parsing goes through, and the tree-sitter
//! values they pass along. The structs here keep their fields private so that
//! only the calls below can put a parser, a tree and its source together.
use vstd::prelude::*;
use crate::symbol::Language;
use crate::syntax::{NodeRecord, NodeRecordView};

verus! {

#[verifier::external_type_specification]
#[verifier::external_body]
pub struct ExParser(tree_sitter::Parser);

#[verifier::external_type_specification]
#[verifier::external_body]
pub struct ExTree(tree_sitter::Tree);

#[verifier::external_type_specification]
#[verifier::external_body]
pub struct ExTreeCursor<'a>(tree_sitter::TreeCursor<'a>);

/// Whether `Parser::set_language` accepts the grammar that reads `grammar`
/// (for TypeScript, the TSX grammar): in tree-sitter this holds when the
/// grammar's ABI version lies in the range the linked tree-sitter supports and
/// the grammar is parseable, a property of the linked grammar alone.
pub uninterp spec fn grammar_accepted(grammar: Language) -> bool;

/// The nodes of the tree that `Parser::parse` builds from `source` with the
/// grammar that reads `grammar`, in preorder (the order of
/// `TreeCursor::goto_descendant`, the root first), each with its kind, whether
/// it is named, the field it fills in its parent, its first and last rows
/// (truncated to `u32`), its byte range and its depth below the root.
pub uninterp spec fn parsed_nodes(grammar: Language, source: Seq<u8>) -> Seq<NodeRecordView>;

/// A parser holding the grammar that reads `grammar`.
pub struct GrammarParser {
    parser: tree_sitter::Parser,
    grammar: Language,
}

impl GrammarParser {
    pub closed spec fn grammar(&self) -> Language {
        self.grammar
    }
}

/// A tree that `Parser::parse` built, with the grammar and the text it read.
pub struct Parsed {
    tree: tree_sitter::Tree,
    grammar: Language,
    source: Vec<u8>,
}

impl Parsed {
    pub closed spec fn grammar(&self) -> Language {
        self.grammar
    }

    pub closed spec fn source(&self) -> Seq<u8> {
        self.source@
    }
}

/// A cursor made on the root of a parsed tree, with that tree.
pub struct NodeWalk<'a> {
    cursor: tree_sitter::TreeCursor<'a>,
    parsed: &'a Parsed,
}

impl<'a> NodeWalk<'a> {
    pub closed spec fn grammar(&self) -> Language {
        self.parsed.grammar
    }

    pub closed spec fn source(&self) -> Seq<u8> {
        self.parsed.source@
    }
}

/// A new parser without a language (`Parser::new`).
#[verifier::external_body]
pub(crate) fn new_parser() -> tree_sitter::Parser {
    tree_sitter::Parser::new()
}

/// `Parser::set_language` with the Rust grammar (`tree_sitter_rust::LANGUAGE`); the parser holding it, when it was accepted.
#[verifier::external_body]
pub(crate) fn use_rust_grammar(p: tree_sitter::Parser) -> (r: Option<GrammarParser>)
    ensures
        r is Some <==> grammar_accepted(Language::Rust),
        r matches Some(g) ==> g.grammar() == Language::Rust,
{
    let mut parser = p;
    match parser.set_language(&tree_sitter_rust::LANGUAGE.into()) {
        Ok(()) => Some(GrammarParser { parser, grammar: Language::Rust }),
        Err(_) => None,
    }
}

/// `Parser::set_language` with the Python grammar (`tree_sitter_python::LANGUAGE`); the parser holding it, when it was accepted.
#[verifier::external_body]
pub(crate) fn use_python_grammar(p: tree_sitter::Parser) -> (r: Option<GrammarParser>)
    ensures
        r is Some <==> grammar_accepted(Language::Python),
        r matches Some(g) ==> g.grammar() == Language::Python,
{
    let mut parser = p;
    match parser.set_language(&tree_sitter_python::LANGUAGE.into()) {
        Ok(()) => Some(GrammarParser { parser, grammar: Language::Python }),
        Err(_) => None,
    }
}

/// `Parser::set_language` with the TSX grammar, which reads JavaScript and TypeScript alike (`tree_sitter_typescript::LANGUAGE_TSX`); the parser holding it, when it was accepted.
#[verifier::external_body]
pub(crate) fn use_tsx_grammar(p: tree_sitter::Parser) -> (r: Option<GrammarParser>)
    ensures
        r is Some <==> grammar_accepted(Language::TypeScript),
        r matches Some(g) ==> g.grammar() == Language::TypeScript,
{
    let mut parser = p;
    match parser.set_language(&tree_sitter_typescript::LANGUAGE_TSX.into()) {
        Ok(()) => Some(GrammarParser { parser, grammar: Language::TypeScript }),
        Err(_) => None,
    }
}

/// `Parser::set_language` with the C# grammar (`tree_sitter_c_sharp::LANGUAGE`); the parser holding it, when it was accepted.
#[verifier::external_body]
pub(crate) fn use_csharp_grammar(p: tree_sitter::Parser) -> (r: Option<GrammarParser>)
    ensures
        r is Some <==> grammar_accepted(Language::CSharp),
        r matches Some(g) ==> g.grammar() == Language::CSharp,
{
    let mut parser = p;
    match parser.set_language(&tree_sitter_c_sharp::LANGUAGE.into()) {
        Ok(()) => Some(GrammarParser { parser, grammar: Language::CSharp }),
        Err(_) => None,
    }
}

/// `Parser::set_language` with the Java grammar (`tree_sitter_java::LANGUAGE`); the parser holding it, when it was accepted.
#[verifier::external_body]
pub(crate) fn use_java_grammar(p: tree_sitter::Parser) -> (r: Option<GrammarParser>)
    ensures
        r is Some <==> grammar_accepted(Language::Java),
        r matches Some(g) ==> g.grammar() == Language::Java,
{
    let mut parser = p;
    match parser.set_language(&tree_sitter_java::LANGUAGE.into()) {
        Ok(()) => Some(GrammarParser { parser, grammar: Language::Java }),
        Err(_) => None,
    }
}

/// `Parser::set_language` with the Go grammar (`tree_sitter_go::LANGUAGE`); the parser holding it, when it was accepted.
#[verifier::external_body]
pub(crate) fn use_go_grammar(p: tree_sitter::Parser) -> (r: Option<GrammarParser>)
    ensures
        r is Some <==> grammar_accepted(Language::Go),
        r matches Some(g) ==> g.grammar() == Language::Go,
{
    let mut parser = p;
    match parser.set_language(&tree_sitter_go::LANGUAGE.into()) {
        Ok(()) => Some(GrammarParser { parser, grammar: Language::Go }),
        Err(_) => None,
    }
}

/// `Parser::set_language` with the PHP grammar, which reads HTML around `<?php` blocks (`tree_sitter_php::LANGUAGE_PHP`); the parser holding it, when it was accepted.
#[verifier::external_body]
pub(crate) fn use_php_grammar(p: tree_sitter::Parser) -> (r: Option<GrammarParser>)
    ensures
        r is Some <==> grammar_accepted(Language::Php),
        r matches Some(g) ==> g.grammar() == Language::Php,
{
    let mut parser = p;
    match parser.set_language(&tree_sitter_php::LANGUAGE_PHP.into()) {
        Ok(()) => Some(GrammarParser { parser, grammar: Language::Php }),
        Err(_) => None,
    }
}

/// `Parser::set_language` with the Swift grammar (`tree_sitter_swift::LANGUAGE`); the parser holding it, when it was accepted.
#[verifier::external_body]
pub(crate) fn use_swift_grammar(p: tree_sitter::Parser) -> (r: Option<GrammarParser>)
    ensures
        r is Some <==> grammar_accepted(Language::Swift),
        r matches Some(g) ==> g.grammar() == Language::Swift,
{
    let mut parser = p;
    match parser.set_language(&tree_sitter_swift::LANGUAGE.into()) {
        Ok(()) => Some(GrammarParser { parser, grammar: Language::Swift }),
        Err(_) => None,
    }
}

/// `Parser::parse` of the whole text, with no earlier tree; the tree is kept
/// with the parser's grammar and a copy of the text. Its source returns no tree
/// only when the parser has no language, and a `GrammarParser` always has one;
/// no timeout or cancellation applies to this call.
#[verifier::external_body]
pub(crate) fn parse_bytes(p: &mut GrammarParser, source: &[u8]) -> (r: Option<Parsed>)
    ensures
        final(p).grammar() == old(p).grammar(),
        r is Some,
        r matches Some(t) ==> t.grammar() == old(p).grammar() && t.source() == source@,
{
    match p.parser.parse(source, None) {
        Some(tree) => Some(Parsed { tree, grammar: p.grammar, source: source.to_vec() }),
        None => None,
    }
}

/// The number of nodes of a parsed tree: `Node::descendant_count` of the root,
/// which counts the root itself, so at least one.
#[verifier::external_body]
pub(crate) fn node_count(t: &Parsed) -> (r: usize)
    ensures
        r == parsed_nodes(t.grammar(), t.source()).len(),
        r >= 1,
{
    t.tree.root_node().descendant_count()
}

/// A cursor on the root of a parsed tree (`Tree::walk`).
#[verifier::external_body]
pub(crate) fn walk_tree<'a>(t: &'a Parsed) -> (r: NodeWalk<'a>)
    ensures
        r.grammar() == t.grammar(),
        r.source() == t.source(),
{
    NodeWalk { cursor: t.tree.walk(), parsed: t }
}

/// Node `i` of the tree in preorder: `TreeCursor::goto_descendant(i)`, then
/// the node's `kind`, `is_named`, the cursor's `field_name`, the rows of
/// `start_position` and `end_position` (as `u32`), `start_byte`, `end_byte`
/// and the cursor's `depth`, which is counted from the root it was made on.
#[verifier::external_body]
pub(crate) fn node_record(w: &mut NodeWalk, i: usize) -> (r: NodeRecord)
    requires
        i < parsed_nodes(old(w).grammar(), old(w).source()).len(),
    ensures
        final(w).grammar() == old(w).grammar(),
        final(w).source() == old(w).source(),
        r@ == parsed_nodes(old(w).grammar(), old(w).source())[i as int],
{
    w.cursor.goto_descendant(i);
    let n = w.cursor.node();
    let field = match w.cursor.field_name() {
        Some(f) => Some(f.to_string()),
        None => None,
    };
    let (start, end) = (n.start_position(), n.end_position());
    NodeRecord {
        kind: n.kind().to_string(), named: n.is_named(), field,
        start_row: start.row as u32, end_row: end.row as u32,
        start_byte: n.start_byte(), end_byte: n.end_byte(), depth: w.cursor.depth(),
    }
}

} // verus!
