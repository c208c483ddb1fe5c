//! One extractor per language, and the dispatch between them.
pub mod go;
pub mod javascript;
pub mod rust;
pub mod swift;
pub mod php;
pub mod python;
pub mod java;
pub mod csharp;

use vstd::prelude::*;
use crate::symbol::Language;
use crate::syntax::SyntaxTree;
use crate::extract::{ExtractResult, extraction_of};
use crate::relation::RawEdgeView;
use crate::symbol::SymbolView;

verus! {

/// What the extractor of `lang` makes of the file `path` with tree `t`.
pub open spec fn extraction_for(lang: Language, t: SyntaxTree, path: Seq<char>) -> (Seq<SymbolView>, Seq<RawEdgeView>) {
    match lang {
        Language::Rust => rust::rust_extraction(t, path),
        Language::Python => python::python_extraction(t, path),
        Language::JavaScript => javascript::js_extraction(t, path, lang),
        Language::TypeScript => javascript::js_extraction(t, path, lang),
        Language::CSharp => csharp::csharp_extraction(t, path),
        Language::Java => java::java_extraction(t, path),
        Language::Go => go::go_extraction(t, path),
        Language::Php => php::php_extraction(t, path),
        Language::Swift => swift::swift_extraction(t, path),
    }
}

/// Extracts the file `path` of language `lang` from its syntax tree with that
/// language's extractor.
pub fn extract_tree(lang: Language, tree: &SyntaxTree, path: &str) -> (r: ExtractResult)
    requires
        tree.wf(),
    ensures
        extraction_of(r, path@, lang, tree.source@),
        (r.syms(), r.raws()) == extraction_for(lang, *tree, path@),
{
    match lang {
        Language::Rust => rust::RustExtractor.extract(tree, path),
        Language::Python => python::PythonExtractor.extract(tree, path),
        Language::JavaScript => javascript::JavaScriptExtractor::new(lang).extract(tree, path),
        Language::TypeScript => javascript::JavaScriptExtractor::new(lang).extract(tree, path),
        Language::CSharp => csharp::CSharpExtractor.extract(tree, path),
        Language::Java => java::JavaExtractor.extract(tree, path),
        Language::Go => go::GoExtractor.extract(tree, path),
        Language::Php => php::PhpExtractor.extract(tree, path),
        Language::Swift => swift::SwiftExtractor.extract(tree, path),
    }
}

} // verus!
