//! Parsing source text with tree-sitter and reading the resulting tree into a
//! `SyntaxTree`.
use vstd::prelude::*;
use crate::symbol::Language;
use crate::syntax::{SyntaxTree, NodeRecord, record_views, built_from, syntax_from_records};
use crate::ts_bridge::{
    GrammarParser, Parsed, grammar_accepted, parsed_nodes, new_parser, parse_bytes, node_count,
    walk_tree, node_record, use_rust_grammar, use_python_grammar, use_tsx_grammar,
    use_csharp_grammar, use_java_grammar, use_go_grammar, use_php_grammar, use_swift_grammar,
};

verus! {

/// The grammar that reads `lang`: JavaScript and TypeScript alike go through the
/// TSX grammar.
pub open spec fn grammar_for(lang: Language) -> Language {
    match lang {
        Language::JavaScript => Language::TypeScript,
        _ => lang,
    }
}

/// Gives the parser the grammar that reads `lang`: JavaScript and TypeScript
/// both go through the TSX grammar.
fn use_grammar(p: tree_sitter::Parser, lang: Language) -> (r: Option<GrammarParser>)
    ensures
        r is Some <==> grammar_accepted(grammar_for(lang)),
        r matches Some(g) ==> g.grammar() == grammar_for(lang),
{
    match lang {
        Language::Rust => use_rust_grammar(p),
        Language::Python => use_python_grammar(p),
        Language::JavaScript => use_tsx_grammar(p),
        Language::TypeScript => use_tsx_grammar(p),
        Language::CSharp => use_csharp_grammar(p),
        Language::Java => use_java_grammar(p),
        Language::Go => use_go_grammar(p),
        Language::Php => use_php_grammar(p),
        Language::Swift => use_swift_grammar(p),
    }
}

/// Every node of a parsed tree, in preorder.
fn parsed_records(t: &Parsed) -> (r: Vec<NodeRecord>)
    ensures
        record_views(r@) == parsed_nodes(t.grammar(), t.source()),
        r@.len() >= 1,
{
    let ghost nodes = parsed_nodes(t.grammar(), t.source());
    let n = node_count(t);
    let mut w = walk_tree(t);
    let mut out: Vec<NodeRecord> = Vec::new();
    let mut i: usize = 0;
    while i < n
        invariant
            i <= n,
            n == nodes.len(),
            nodes == parsed_nodes(t.grammar(), t.source()),
            w.grammar() == t.grammar(),
            w.source() == t.source(),
            record_views(out@) == nodes.take(i as int),
        decreases n - i,
    {
        let r = node_record(&mut w, i);
        let ghost before = out@;
        out.push(r);
        proof {
            assert(record_views(before).len() == i);
            assert(record_views(out@) =~= nodes.take(i as int + 1)) by {
                assert forall|k: int| 0 <= k < i implies #[trigger] record_views(out@)[k] == nodes[k] by {
                    assert(out@[k] == before[k]);
                    assert(record_views(before)[k] == nodes.take(i as int)[k]);
                }
            }
        }
        i = i + 1;
    }
    proof {
        assert(nodes.take(n as int) =~= nodes);
        assert(record_views(out@).len() == out@.len());
    }
    out
}

/// Parses `source` as `lang` and reads the syntax tree that tree-sitter built;
/// `None` exactly when tree-sitter refuses the grammar.
pub fn parse_source(lang: Language, source: &[u8]) -> (r: Option<SyntaxTree>)
    ensures
        r matches Some(t) ==> t.wf() && built_from(
            t,
            source@,
            parsed_nodes(grammar_for(lang), source@),
        ),
        r is Some <==> grammar_accepted(grammar_for(lang)),
{
    let parser = new_parser();
    let mut gp = match use_grammar(parser, lang) {
        Some(g) => g,
        None => {
            return None;
        },
    };
    match parse_bytes(&mut gp, source) {
        Some(parsed) => {
            let records = parsed_records(&parsed);
            Some(syntax_from_records(source, &records))
        },
        None => None,
    }
}

} // verus!
