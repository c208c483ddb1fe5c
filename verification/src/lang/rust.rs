//! Rust: functions, structs with their fields, enums, traits, impl blocks with
//! their methods, `use` declarations, modules, constants, statics and type
//! aliases; calls inside functions, `CONTAINS` edges to functions and structs.
use vstd::prelude::*;
use crate::text::{
    chars_of, string_of, lines, lines_chars, trim_ws, trim_chars, starts_with, strip_prefix_chars,
    trim_end_char_chars, utf8_lossy, decode_utf8_lossy, cat2, cat3, cat4, is_prefix, strip_prefix,
    trim_end_char,
};
use crate::symbol::{SymbolKind, SymbolView, Language, Visibility, NodeId, node_id_of, id_hex};
use crate::relation::{EdgeKind, RawEdgeView};
use crate::graph::has_id;
use crate::syntax::SyntaxTree;
use crate::extract::{
    ExtractResult, make_symbol, make_edge, start_extraction, extraction_of, walk_ready, walk_kept,
    rows, symbol_at, file_symbol, field_child, node_rows,
};

verus! {

/// Extracts Rust symbols.
pub struct RustExtractor;

/// Line `line` (0-based) of the source, read as UTF-8 with invalid sequences
/// replaced, and trimmed; empty past the last line.
pub open spec fn line_text_of(source: Seq<u8>, line: int) -> Seq<char> {
    let ls = lines(utf8_lossy(source));
    if 0 <= line < ls.len() {
        trim_ws(ls[line])
    } else {
        seq![]
    }
}

/// The trimmed text of line `line` (0-based) of the source, or the empty
/// string past the last line.
pub fn get_line_text(source: &[u8], line: usize) -> (r: String)
    ensures
        r@ == line_text_of(source@, line as int),
{
    let text = decode_utf8_lossy(source);
    let tc = chars_of(text.as_str());
    let ls = lines_chars(&tc);
    proof {
        assert(ls@.map_values(|v: Vec<char>| v@).len() == ls@.len());
    }
    if line < ls.len() {
        proof {
            assert(ls@.map_values(|v: Vec<char>| v@)[line as int] == ls@[line as int]@);
        }
        string_of(&trim_chars(&ls[line]))
    } else {
        String::new()
    }
}

// ---------------------------------------------------------------------------
// What a Rust file yields.
// ---------------------------------------------------------------------------

/// Public when a `visibility_modifier` child from the `i`-th on starts with `pub`.
pub open spec fn rs_visibility_from(t: SyntaxTree, n: int, i: int) -> Visibility
    decreases t.children_of(n).len() - i,
{
    let kids = t.children_of(n);
    if i < 0 || i >= kids.len() {
        Visibility::Private
    } else if t.kind_of(kids[i]) == "visibility_modifier"@ && is_prefix("pub"@, t.text_of(kids[i])) {
        Visibility::Public
    } else {
        rs_visibility_from(t, n, i + 1)
    }
}

/// Public when some `visibility_modifier` child starts with `pub`.
pub open spec fn rs_visibility(t: SyntaxTree, n: int) -> Visibility {
    rs_visibility_from(t, n, 0)
}

/// `[pub ]fn name(params)[ -> ret]`.
pub open spec fn rs_fn_signature(t: SyntaxTree, n: int, name: Seq<char>) -> Seq<char> {
    let params = match field_child(t, n, "parameters"@) {
        Some(p) => t.text_of(p),
        None => "()"@,
    };
    let ret = match field_child(t, n, "return_type"@) {
        Some(r) => " -> "@ + t.text_of(r),
        None => Seq::<char>::empty(),
    };
    let vis = match rs_visibility(t, n) {
        Visibility::Public => "pub "@,
        _ => ""@,
    };
    vis + "fn "@ + name + params + ret
}

/// A named item whose signature is the keyword and the name.
pub open spec fn rs_named_item(
    t: SyntaxTree,
    n: int,
    path: Seq<char>,
    parent: NodeId,
    kind: SymbolKind,
    keyword: Seq<char>,
) -> Option<SymbolView> {
    match field_child(t, n, "name"@) {
        None => None,
        Some(nm) => Some(
            symbol_at(
                path,
                t.text_of(nm),
                kind,
                node_rows(t, n),
                Some(keyword + " "@ + t.text_of(nm)),
                rs_visibility(t, n),
                Language::Rust,
                Some(parent),
            ),
        ),
    }
}

/// An edge as extraction records it (no module hint).
pub open spec fn plain_edge(source: NodeId, kind: EdgeKind, target: Seq<char>, line: u32) -> RawEdgeView {
    RawEdgeView { source, kind, target_name: target, target_module: None, source_line: line }
}

/// The call edges of the calls below `n`, in document order, appended to `raws`.
pub open spec fn rs_calls(t: SyntaxTree, n: int, caller: NodeId, raws: Seq<RawEdgeView>) -> Seq<RawEdgeView>
    decreases t.size() - n, 1int, 0int,
{
    rs_calls_from(t, n, 0, caller, raws)
}

pub open spec fn rs_calls_from(
    t: SyntaxTree,
    n: int,
    i: int,
    caller: NodeId,
    raws: Seq<RawEdgeView>,
) -> Seq<RawEdgeView>
    decreases t.size() - n, 0int, t.children_of(n).len() - i,
{
    let kids = t.children_of(n);
    if i < 0 || i >= kids.len() || !(n < kids[i] < t.size()) {
        raws
    } else {
        let c = kids[i];
        let with_call = if t.kind_of(c) == "call_expression"@ {
            match field_child(t, c, "function"@) {
                Some(f) => raws.push(plain_edge(caller, EdgeKind::Calls, t.text_of(f), t.start_rows@[c])),
                None => raws,
            }
        } else {
            raws
        };
        rs_calls_from(t, n, i + 1, caller, rs_calls(t, c, caller, with_call))
    }
}

/// The symbol of a struct field named `name`, identified through its struct.
pub open spec fn rs_field_symbol(t: SyntaxTree, c: int, path: Seq<char>, parent: NodeId, name: Seq<char>) -> SymbolView {
    SymbolView {
        id: node_id_of(path, id_hex(parent) + "."@ + name, SymbolKind::Field, t.start_rows@[c]),
        name: name,
        kind: SymbolKind::Field,
        file_path: path,
        line_range: node_rows(t, c),
        signature: match field_child(t, c, "type"@) {
            Some(ty) => Some(t.text_of(ty)),
            None => None,
        },
        doc_comment: None,
        visibility: rs_visibility(t, c),
        language: Language::Rust,
        parent: Some(parent),
    }
}

/// The fields among the children of `body` from the `i`-th on: a symbol per
/// named field declaration, and a `REFERENCES` edge to its type.
pub open spec fn rs_fields_from(
    t: SyntaxTree,
    body: int,
    i: int,
    path: Seq<char>,
    parent: NodeId,
    acc: (Seq<SymbolView>, Seq<RawEdgeView>),
) -> (Seq<SymbolView>, Seq<RawEdgeView>)
    decreases t.children_of(body).len() - i,
{
    let kids = t.children_of(body);
    if i < 0 || i >= kids.len() {
        acc
    } else {
        let c = kids[i];
        let next = if t.kind_of(c) == "field_declaration"@ {
            match field_child(t, c, "name"@) {
                Some(nm) => {
                    let f = rs_field_symbol(t, c, path, parent, t.text_of(nm));
                    (
                        acc.0.push(f),
                        match field_child(t, c, "type"@) {
                            Some(ty) => acc.1.push(
                                plain_edge(f.id, EdgeKind::References, t.text_of(ty), t.start_rows@[c]),
                            ),
                            None => acc.1,
                        },
                    )
                },
                None => acc,
            }
        } else {
            acc
        };
        rs_fields_from(t, body, i + 1, path, parent, next)
    }
}

/// The fields of the struct `n`.
pub open spec fn rs_fields(
    t: SyntaxTree,
    n: int,
    path: Seq<char>,
    parent: NodeId,
    acc: (Seq<SymbolView>, Seq<RawEdgeView>),
) -> (Seq<SymbolView>, Seq<RawEdgeView>) {
    match t.first_with_kind(t.children_of(n), "field_declaration_list"@) {
        Some(b) => rs_fields_from(t, b, 0, path, parent, acc),
        None => acc,
    }
}

/// A `use` declaration: an `Import` symbol named by its path and an edge to it.
pub open spec fn rs_use(
    t: SyntaxTree,
    n: int,
    path: Seq<char>,
    parent: NodeId,
    acc: (Seq<SymbolView>, Seq<RawEdgeView>),
) -> (Seq<SymbolView>, Seq<RawEdgeView>) {
    let use_text = trim_ws(t.text_of(n));
    let a = match strip_prefix(use_text, "pub "@) {
        Some(x) => x,
        None => use_text,
    };
    let b = match strip_prefix(a, "use "@) {
        Some(x) => x,
        None => use_text,
    };
    let import_path = trim_end_char(b, ';');
    (
        acc.0.push(
            symbol_at(
                path,
                import_path,
                SymbolKind::Import,
                node_rows(t, n),
                Some(use_text),
                rs_visibility(t, n),
                Language::Rust,
                Some(parent),
            ),
        ),
        acc.1.push(plain_edge(parent, EdgeKind::Imports, import_path, t.start_rows@[n])),
    )
}

/// The methods among the children of `body` from the `i`-th on, named
/// `Type::method`, each followed by its calls.
pub open spec fn rs_methods_from(
    t: SyntaxTree,
    body: int,
    i: int,
    path: Seq<char>,
    parent: NodeId,
    impl_type: Seq<char>,
    acc: (Seq<SymbolView>, Seq<RawEdgeView>),
) -> (Seq<SymbolView>, Seq<RawEdgeView>)
    decreases t.children_of(body).len() - i,
{
    let kids = t.children_of(body);
    if i < 0 || i >= kids.len() {
        acc
    } else {
        let c = kids[i];
        let next = if t.kind_of(c) == "function_item"@ {
            match field_child(t, c, "name"@) {
                Some(nm) => {
                    let name = t.text_of(nm);
                    let s = symbol_at(
                        path,
                        impl_type + "::"@ + name,
                        SymbolKind::Method,
                        node_rows(t, c),
                        Some(rs_fn_signature(t, c, name)),
                        rs_visibility(t, c),
                        Language::Rust,
                        Some(parent),
                    );
                    (acc.0.push(s), rs_calls(t, c, s.id, acc.1))
                },
                None => acc,
            }
        } else {
            acc
        };
        rs_methods_from(t, body, i + 1, path, parent, impl_type, next)
    }
}

/// An `impl` block: for a trait impl an `IMPLEMENTS` edge from the type's
/// name, then its methods.
pub open spec fn rs_impl(
    t: SyntaxTree,
    n: int,
    path: Seq<char>,
    parent: NodeId,
    acc: (Seq<SymbolView>, Seq<RawEdgeView>),
) -> (Seq<SymbolView>, Seq<RawEdgeView>) {
    match field_child(t, n, "type"@) {
        None => acc,
        Some(ty) => {
            let impl_type = t.text_of(ty);
            let raws = match field_child(t, n, "trait"@) {
                Some(tr) => acc.1.push(
                    plain_edge(
                        node_id_of(path, impl_type, SymbolKind::Struct, 0),
                        EdgeKind::Implements,
                        t.text_of(tr),
                        t.start_rows@[n],
                    ),
                ),
                None => acc.1,
            };
            match t.first_with_kind(t.children_of(n), "declaration_list"@) {
                Some(b) => rs_methods_from(t, b, 0, path, parent, impl_type, (acc.0, raws)),
                None => (acc.0, raws),
            }
        },
    }
}

/// The symbols and edges of the items below `n`.
pub open spec fn rs_walk(
    t: SyntaxTree,
    n: int,
    path: Seq<char>,
    parent: NodeId,
    acc: (Seq<SymbolView>, Seq<RawEdgeView>),
) -> (Seq<SymbolView>, Seq<RawEdgeView>)
    decreases t.size() - n, 2int, 0int,
{
    rs_walk_from(t, n, 0, path, parent, acc)
}

pub open spec fn rs_walk_from(
    t: SyntaxTree,
    n: int,
    i: int,
    path: Seq<char>,
    parent: NodeId,
    acc: (Seq<SymbolView>, Seq<RawEdgeView>),
) -> (Seq<SymbolView>, Seq<RawEdgeView>)
    decreases t.size() - n, 1int, t.children_of(n).len() - i,
{
    let kids = t.children_of(n);
    if i < 0 || i >= kids.len() || !(n < kids[i] < t.size()) {
        acc
    } else {
        rs_walk_from(t, n, i + 1, path, parent, rs_item(t, kids[i], path, parent, acc))
    }
}

/// A symbol whose signature is its first source line.
pub open spec fn rs_line_symbol(t: SyntaxTree, c: int, path: Seq<char>, parent: NodeId, name: Seq<char>, kind: SymbolKind) -> SymbolView {
    symbol_at(
        path,
        name,
        kind,
        node_rows(t, c),
        Some(line_text_of(t.source@, t.start_rows@[c] as int)),
        rs_visibility(t, c),
        Language::Rust,
        Some(parent),
    )
}

/// One item: functions (with a `CONTAINS` edge and their calls), structs
/// (with a `CONTAINS` edge and their fields), enums, traits and modules (with
/// their items), impl blocks, `use` declarations, constants, statics and type
/// aliases; any other node has its children walked.
pub open spec fn rs_item(
    t: SyntaxTree,
    c: int,
    path: Seq<char>,
    parent: NodeId,
    acc: (Seq<SymbolView>, Seq<RawEdgeView>),
) -> (Seq<SymbolView>, Seq<RawEdgeView>)
    decreases t.size() - c, 4int, 0int,
{
    let k = t.kind_of(c);
    let line = t.start_rows@[c];
    if k == "function_item"@ {
        match field_child(t, c, "name"@) {
            Some(nm) => {
                let name = t.text_of(nm);
                let s = symbol_at(
                    path,
                    name,
                    SymbolKind::Function,
                    node_rows(t, c),
                    Some(rs_fn_signature(t, c, name)),
                    rs_visibility(t, c),
                    Language::Rust,
                    Some(parent),
                );
                (
                    acc.0.push(s),
                    rs_calls(t, c, s.id, acc.1.push(plain_edge(parent, EdgeKind::Contains, id_hex(s.id), 0))),
                )
            },
            None => acc,
        }
    } else if k == "struct_item"@ {
        match rs_named_item(t, c, path, parent, SymbolKind::Struct, "struct"@) {
            Some(s) => rs_fields(
                t,
                c,
                path,
                s.id,
                (acc.0.push(s), acc.1.push(plain_edge(parent, EdgeKind::Contains, id_hex(s.id), 0))),
            ),
            None => acc,
        }
    } else if k == "enum_item"@ {
        match rs_named_item(t, c, path, parent, SymbolKind::Enum, "enum"@) {
            Some(s) => (acc.0.push(s), acc.1),
            None => acc,
        }
    } else if k == "trait_item"@ {
        match rs_named_item(t, c, path, parent, SymbolKind::Trait, "trait"@) {
            Some(s) => rs_walk(t, c, path, s.id, (acc.0.push(s), acc.1)),
            None => acc,
        }
    } else if k == "impl_item"@ {
        rs_impl(t, c, path, parent, acc)
    } else if k == "use_declaration"@ {
        rs_use(t, c, path, parent, acc)
    } else if k == "mod_item"@ {
        match rs_named_item(t, c, path, parent, SymbolKind::Module, "mod"@) {
            Some(s) => rs_walk(t, c, path, s.id, (acc.0.push(s), acc.1)),
            None => acc,
        }
    } else if k == "const_item"@ || k == "static_item"@ {
        match field_child(t, c, "name"@) {
            Some(nm) => (
                acc.0.push(
                    rs_line_symbol(
                        t,
                        c,
                        path,
                        parent,
                        t.text_of(nm),
                        if k == "const_item"@ {
                            SymbolKind::Constant
                        } else {
                            SymbolKind::Static
                        },
                    ),
                ),
                acc.1,
            ),
            None => acc,
        }
    } else if k == "type_item"@ {
        match field_child(t, c, "name"@) {
            Some(nm) => (
                acc.0.push(rs_line_symbol(t, c, path, parent, t.text_of(nm), SymbolKind::TypeAlias)),
                acc.1,
            ),
            None => acc,
        }
    } else {
        rs_walk(t, c, path, parent, acc)
    }
}

/// The symbols and raw edges of a Rust file: its `File` symbol, then the
/// items of the tree in document order.
pub open spec fn rust_extraction(t: SyntaxTree, path: Seq<char>) -> (Seq<SymbolView>, Seq<RawEdgeView>) {
    let f = file_symbol(path, Language::Rust, t.source@);
    rs_walk(t, 0, path, f.id, (seq![f], Seq::<RawEdgeView>::empty()))
}

/// Public when some `visibility_modifier` child starts with `pub`.
fn extract_visibility(tree: &SyntaxTree, node: usize) -> (r: Visibility)
    requires
        tree.wf(),
        node < tree.size(),
    ensures
        r == rs_visibility(*tree, node as int),
{
    let pub_kw = chars_of("pub");
    let kids = tree.children(node);
    let mut k: usize = 0;
    while k < kids.len()
        invariant
            tree.wf(),
            forall|m: int| 0 <= m < kids@.len() ==> node < #[trigger] kids@[m] < tree.size(),
            kids@.map_values(|x: usize| x as int) == tree.children_of(node as int),
            pub_kw@ == "pub"@,
            rs_visibility_from(*tree, node as int, k as int) == rs_visibility(*tree, node as int),
        decreases kids@.len() - k,
    {
        let child = kids[k];
        proof {
            assert(tree.children_of(node as int)[k as int] == child as int);
        }
        if tree.is_kind(child, "visibility_modifier") {
            let t = tree.text_chars(child);
            if starts_with(&t, &pub_kw) {
                return Visibility::Public;
            }
        }
        k = k + 1;
    }
    Visibility::Private
}

/// `[pub ]fn name(params)[ -> ret]`.
fn build_fn_signature(tree: &SyntaxTree, node: usize, name: &str) -> (r: String)
    requires
        tree.wf(),
        node < tree.size(),
    ensures
        r@ == rs_fn_signature(*tree, node as int, name@),
{
    let params = match tree.child_by_field(node, "parameters") {
        Some(p) => tree.text(p),
        None => "()".to_string(),
    };
    let ret = match tree.child_by_field(node, "return_type") {
        Some(r) => cat2(" -> ", tree.text(r).as_str()),
        None => String::new(),
    };
    let vis = match extract_visibility(tree, node) {
        Visibility::Public => "pub ",
        _ => "",
    };
    let head = cat3(vis, "fn ", name);
    let r = cat3(head.as_str(), params.as_str(), ret.as_str());
    proof {
        assert(r@ =~= rs_fn_signature(*tree, node as int, name@));
    }
    r
}

/// A named item with a fixed signature prefix (`struct`, `enum`, `trait`, `mod`).
fn named_item(
    tree: &SyntaxTree,
    node: usize,
    path: &str,
    parent_id: NodeId,
    kind: SymbolKind,
    keyword: &str,
) -> (r: Option<crate::symbol::SymbolNode>)
    requires
        tree.wf(),
        node < tree.size(),
    ensures
        r matches Some(s) ==> s.file_path@ == path@ && s.language == Language::Rust && s.parent
            == Some(parent_id),
        match r {
            Some(s) => rs_named_item(*tree, node as int, path@, parent_id, kind, keyword@) == Some(s@),
            None => rs_named_item(*tree, node as int, path@, parent_id, kind, keyword@) is None,
        },
{
    let name_node = match tree.child_by_field(node, "name") {
        Some(n) => n,
        None => {
            return None;
        },
    };
    let name = tree.text(name_node);
    let sig = cat3(keyword, " ", name.as_str());
    let vis = extract_visibility(tree, node);
    Some(
        make_symbol(
            path,
            name,
            kind,
            rows(tree, node),
            Some(sig),
            vis,
            Language::Rust,
            Some(parent_id),
        ),
    )
}

fn walk_node(tree: &SyntaxTree, node: usize, path: &str, parent_id: NodeId, out: &mut ExtractResult)
    requires
        walk_ready(tree, node, path@, Language::Rust, old(out), parent_id),
    ensures
        walk_kept(old(out), final(out), path@, Language::Rust),
        (final(out).syms(), final(out).raws()) == rs_walk(
            *tree,
            node as int,
            path@,
            parent_id,
            (old(out).syms(), old(out).raws()),
        ),
    decreases tree.size() - node, 1nat,
{
    let ghost goal = rs_walk(*tree, node as int, path@, parent_id, (out.syms(), out.raws()));
    let kids = tree.children(node);
    let mut k: usize = 0;
    while k < kids.len()
        invariant
            tree.wf(),
            node < tree.size(),
            forall|m: int| 0 <= m < kids@.len() ==> node < #[trigger] kids@[m] < tree.size(),
            kids@.map_values(|x: usize| x as int) == tree.children_of(node as int),
            has_id(old(out).syms(), parent_id),
            walk_kept(old(out), out, path@, Language::Rust),
            rs_walk_from(*tree, node as int, k as int, path@, parent_id, (out.syms(), out.raws())) == goal,
        decreases kids@.len() - k,
    {
        let child = kids[k];
        let ghost before = (out.syms(), out.raws());
        proof {
            assert(tree.children_of(node as int)[k as int] == child as int);
        }
        rust_item(tree, child, path, parent_id, out);
        proof {
            assert((out.syms(), out.raws()) == rs_item(*tree, child as int, path@, parent_id, before));
        }
        k = k + 1;
    }
}

fn rust_item(tree: &SyntaxTree, child: usize, path: &str, parent_id: NodeId, out: &mut ExtractResult)
    requires
        walk_ready(tree, child, path@, Language::Rust, old(out), parent_id),
    ensures
        walk_kept(old(out), final(out), path@, Language::Rust),
        (final(out).syms(), final(out).raws()) == rs_item(
            *tree,
            child as int,
            path@,
            parent_id,
            (old(out).syms(), old(out).raws()),
        ),
    decreases tree.size() - child, 2nat,
{
    let line = tree.start_row(child);
    if tree.is_kind(child, "function_item") {
        if let Some(name_node) = tree.child_by_field(child, "name") {
            let name = tree.text(name_node);
            let sig = build_fn_signature(tree, child, name.as_str());
            let vis = extract_visibility(tree, child);
            let s = make_symbol(
                path,
                name,
                SymbolKind::Function,
                rows(tree, child),
                Some(sig),
                vis,
                Language::Rust,
                Some(parent_id),
            );
            let id = s.id;
            out.add_symbol(s, path, Language::Rust);
            let e = make_edge(parent_id, EdgeKind::Contains, id.to_hex(), 0);
            out.add_edge(e, Ghost(path@), Ghost(Language::Rust));
            extract_calls(tree, child, path, id, out);
        }
    } else if tree.is_kind(child, "struct_item") {
        if let Some(s) = named_item(tree, child, path, parent_id, SymbolKind::Struct, "struct") {
            let id = s.id;
            out.add_symbol(s, path, Language::Rust);
            let e = make_edge(parent_id, EdgeKind::Contains, id.to_hex(), 0);
            out.add_edge(e, Ghost(path@), Ghost(Language::Rust));
            extract_fields(tree, child, path, id, out);
        }
    } else if tree.is_kind(child, "enum_item") {
        if let Some(s) = named_item(tree, child, path, parent_id, SymbolKind::Enum, "enum") {
            out.add_symbol(s, path, Language::Rust);
        }
    } else if tree.is_kind(child, "trait_item") {
        if let Some(s) = named_item(tree, child, path, parent_id, SymbolKind::Trait, "trait") {
            let id = s.id;
            out.add_symbol(s, path, Language::Rust);
            walk_node(tree, child, path, id, out);
        }
    } else if tree.is_kind(child, "impl_item") {
        extract_impl(tree, child, path, parent_id, out);
    } else if tree.is_kind(child, "use_declaration") {
        extract_use(tree, child, path, parent_id, out);
    } else if tree.is_kind(child, "mod_item") {
        if let Some(s) = named_item(tree, child, path, parent_id, SymbolKind::Module, "mod") {
            let id = s.id;
            out.add_symbol(s, path, Language::Rust);
            walk_node(tree, child, path, id, out);
        }
    } else if tree.is_kind(child, "const_item") || tree.is_kind(child, "static_item") {
        if let Some(name_node) = tree.child_by_field(child, "name") {
            let name = tree.text(name_node);
            let kind = if tree.is_kind(child, "const_item") {
                SymbolKind::Constant
            } else {
                SymbolKind::Static
            };
            let sig = get_line_text(tree.source.as_slice(), line as usize);
            let vis = extract_visibility(tree, child);
            let s = make_symbol(
                path,
                name,
                kind,
                rows(tree, child),
                Some(sig),
                vis,
                Language::Rust,
                Some(parent_id),
            );
            out.add_symbol(s, path, Language::Rust);
        }
    } else if tree.is_kind(child, "type_item") {
        if let Some(name_node) = tree.child_by_field(child, "name") {
            let name = tree.text(name_node);
            let sig = get_line_text(tree.source.as_slice(), line as usize);
            let vis = extract_visibility(tree, child);
            let s = make_symbol(
                path,
                name,
                SymbolKind::TypeAlias,
                rows(tree, child),
                Some(sig),
                vis,
                Language::Rust,
                Some(parent_id),
            );
            out.add_symbol(s, path, Language::Rust);
        }
    } else {
        walk_node(tree, child, path, parent_id, out);
    }
}

fn extract_impl(tree: &SyntaxTree, node: usize, path: &str, parent_id: NodeId, out: &mut ExtractResult)
    requires
        walk_ready(tree, node, path@, Language::Rust, old(out), parent_id),
    ensures
        walk_kept(old(out), final(out), path@, Language::Rust),
        (final(out).syms(), final(out).raws()) == rs_impl(
            *tree,
            node as int,
            path@,
            parent_id,
            (old(out).syms(), old(out).raws()),
        ),
{
    let type_node = match tree.child_by_field(node, "type") {
        Some(n) => n,
        None => {
            return;
        },
    };
    let impl_type = tree.text(type_node);
    if let Some(t) = tree.child_by_field(node, "trait") {
        let trait_name = tree.text(t);
        let src = NodeId::new(path, impl_type.as_str(), SymbolKind::Struct, 0);
        let e = make_edge(src, EdgeKind::Implements, trait_name, tree.start_row(node));
        out.add_edge(e, Ghost(path@), Ghost(Language::Rust));
    }
    let ghost mid = (out.syms(), out.raws());
    if let Some(body) = tree.find_child_by_kind(node, "declaration_list") {
        let kids = tree.children(body);
        let mut k: usize = 0;
        while k < kids.len()
            invariant
                tree.wf(),
                body < tree.size(),
                forall|m: int| 0 <= m < kids@.len() ==> body < #[trigger] kids@[m] < tree.size(),
                kids@.map_values(|x: usize| x as int) == tree.children_of(body as int),
                has_id(old(out).syms(), parent_id),
                walk_kept(old(out), out, path@, Language::Rust),
                rs_methods_from(*tree, body as int, k as int, path@, parent_id, impl_type@, (out.syms(), out.raws()))
                    == rs_methods_from(*tree, body as int, 0, path@, parent_id, impl_type@, mid),
            decreases kids@.len() - k,
        {
            let child = kids[k];
            proof {
                assert(tree.children_of(body as int)[k as int] == child as int);
            }
            if tree.is_kind(child, "function_item") {
                if let Some(name_node) = tree.child_by_field(child, "name") {
                    let name = tree.text(name_node);
                    let qualified = cat3(impl_type.as_str(), "::", name.as_str());
                    let sig = build_fn_signature(tree, child, name.as_str());
                    let vis = extract_visibility(tree, child);
                    let s = make_symbol(
                        path,
                        qualified,
                        SymbolKind::Method,
                        rows(tree, child),
                        Some(sig),
                        vis,
                        Language::Rust,
                        Some(parent_id),
                    );
                    let id = s.id;
                    out.add_symbol(s, path, Language::Rust);
                    extract_calls(tree, child, path, id, out);
                }
            }
            k = k + 1;
        }
    }
}

fn extract_use(tree: &SyntaxTree, node: usize, path: &str, parent_id: NodeId, out: &mut ExtractResult)
    requires
        walk_ready(tree, node, path@, Language::Rust, old(out), parent_id),
    ensures
        walk_kept(old(out), final(out), path@, Language::Rust),
        (final(out).syms(), final(out).raws()) == rs_use(
            *tree,
            node as int,
            path@,
            parent_id,
            (old(out).syms(), old(out).raws()),
        ),
{
    let raw = tree.text_chars(node);
    let use_text = trim_chars(&raw);
    let a = match strip_prefix_chars(&use_text, &chars_of("pub ")) {
        Some(x) => x,
        None => crate::text::slice_range(&use_text, 0, use_text.len()),
    };
    let b = match strip_prefix_chars(&a, &chars_of("use ")) {
        Some(x) => x,
        None => crate::text::slice_range(&use_text, 0, use_text.len()),
    };
    proof {
        assert(use_text@.subrange(0, use_text@.len() as int) =~= use_text@);
    }
    let c = trim_end_char_chars(&b, ';');
    let import_path = string_of(&c);
    let vis = extract_visibility(tree, node);
    let s = make_symbol(
        path,
        import_path.clone(),
        SymbolKind::Import,
        rows(tree, node),
        Some(string_of(&use_text)),
        vis,
        Language::Rust,
        Some(parent_id),
    );
    out.add_symbol(s, path, Language::Rust);
    let e = make_edge(parent_id, EdgeKind::Imports, import_path, tree.start_row(node));
    out.add_edge(e, Ghost(path@), Ghost(Language::Rust));
}

fn extract_fields(tree: &SyntaxTree, node: usize, path: &str, parent_id: NodeId, out: &mut ExtractResult)
    requires
        walk_ready(tree, node, path@, Language::Rust, old(out), parent_id),
    ensures
        walk_kept(old(out), final(out), path@, Language::Rust),
        (final(out).syms(), final(out).raws()) == rs_fields(
            *tree,
            node as int,
            path@,
            parent_id,
            (old(out).syms(), old(out).raws()),
        ),
{
    let ghost start = (out.syms(), out.raws());
    let body = match tree.find_child_by_kind(node, "field_declaration_list") {
        Some(b) => b,
        None => {
            return;
        },
    };
    let parent_hex = parent_id.to_hex();
    let kids = tree.children(body);
    let mut k: usize = 0;
    while k < kids.len()
        invariant
            tree.wf(),
            body < tree.size(),
            forall|m: int| 0 <= m < kids@.len() ==> body < #[trigger] kids@[m] < tree.size(),
            kids@.map_values(|x: usize| x as int) == tree.children_of(body as int),
            has_id(old(out).syms(), parent_id),
            walk_kept(old(out), out, path@, Language::Rust),
            parent_hex@ == id_hex(parent_id),
            rs_fields_from(*tree, body as int, k as int, path@, parent_id, (out.syms(), out.raws()))
                == rs_fields_from(*tree, body as int, 0, path@, parent_id, start),
        decreases kids@.len() - k,
    {
        let child = kids[k];
        let ghost before = (out.syms(), out.raws());
        proof {
            assert(tree.children_of(body as int)[k as int] == child as int);
        }
        if tree.is_kind(child, "field_declaration") {
            if let Some(name_node) = tree.child_by_field(child, "name") {
                let name = tree.text(name_node);
                let type_text: Option<String> = match tree.child_by_field(child, "type") {
                    Some(t) => Some(tree.text(t)),
                    None => None,
                };
                let key = cat3(parent_hex.as_str(), ".", name.as_str());
                let row = tree.start_row(child);
                let id = NodeId::new(path, key.as_str(), SymbolKind::Field, row);
                let vis = extract_visibility(tree, child);
                let sig = match &type_text {
                    Some(t) => Some(t.clone()),
                    None => None,
                };
                let s = crate::symbol::SymbolNode {
                    id,
                    name,
                    kind: SymbolKind::Field,
                    file_path: path.to_string(),
                    line_range: rows(tree, child),
                    signature: sig,
                    doc_comment: None,
                    visibility: vis,
                    language: Language::Rust,
                    parent: Some(parent_id),
                };
                proof {
                    assert(s@ == rs_field_symbol(*tree, child as int, path@, parent_id, name@));
                }
                out.add_symbol(s, path, Language::Rust);
                if let Some(t) = type_text {
                    let e = make_edge(id, EdgeKind::References, t, row);
                    out.add_edge(e, Ghost(path@), Ghost(Language::Rust));
                }
            }
        }
        k = k + 1;
    }
}

fn extract_calls(tree: &SyntaxTree, node: usize, path: &str, caller_id: NodeId, out: &mut ExtractResult)
    requires
        walk_ready(tree, node, path@, Language::Rust, old(out), caller_id),
    ensures
        walk_kept(old(out), final(out), path@, Language::Rust),
        final(out).symbols@ == old(out).symbols@,
        final(out).raws() == rs_calls(*tree, node as int, caller_id, old(out).raws()),
    decreases tree.size() - node,
{
    let ghost goal = rs_calls(*tree, node as int, caller_id, out.raws());
    let kids = tree.children(node);
    let mut k: usize = 0;
    while k < kids.len()
        invariant
            tree.wf(),
            node < tree.size(),
            forall|m: int| 0 <= m < kids@.len() ==> node < #[trigger] kids@[m] < tree.size(),
            kids@.map_values(|x: usize| x as int) == tree.children_of(node as int),
            has_id(old(out).syms(), caller_id),
            walk_kept(old(out), out, path@, Language::Rust),
            out.symbols@ == old(out).symbols@,
            rs_calls_from(*tree, node as int, k as int, caller_id, out.raws()) == goal,
        decreases kids@.len() - k,
    {
        let child = kids[k];
        proof {
            assert(tree.children_of(node as int)[k as int] == child as int);
        }
        if tree.is_kind(child, "call_expression") {
            if let Some(func) = tree.child_by_field(child, "function") {
                let target = tree.text(func);
                let e = make_edge(caller_id, EdgeKind::Calls, target, tree.start_row(child));
                out.add_edge(e, Ghost(path@), Ghost(Language::Rust));
            }
        }
        extract_calls(tree, child, path, caller_id, out);
        k = k + 1;
    }
}

impl RustExtractor {
    pub fn language(&self) -> (r: Language)
        ensures
            r == Language::Rust,
    {
        Language::Rust
    }

    /// The file extensions read as Rust.
    pub fn file_extensions(&self) -> (r: Vec<&'static str>)
        ensures
            r@.len() == 1,
            r@[0]@ == "rs"@,
    {
        let mut v: Vec<&'static str> = Vec::new();
        v.push("rs");
        v
    }

    /// Extracts the symbols and raw edges of the Rust file `path` from its
    /// tree: the `File` symbol first, every symbol of the file and in Rust,
    /// parents before children, and every raw edge leaving an extracted symbol
    /// except the `IMPLEMENTS` edges of trait impls, which leave the
    /// implementing type's name.
    pub fn extract(&self, tree: &SyntaxTree, path: &str) -> (r: ExtractResult)
        requires
            tree.wf(),
        ensures
            extraction_of(r, path@, Language::Rust, tree.source@),
            (r.syms(), r.raws()) == rust_extraction(*tree, path@),
    {
        let mut out = start_extraction(tree, path, Language::Rust);
        proof {
            assert(out.raws() =~= Seq::<RawEdgeView>::empty());
        }
        let file_id = out.symbols[0].id;
        proof {
            assert(out.syms()[0].id == file_id);
        }
        walk_node(tree, 0, path, file_id, &mut out);
        out
    }
}


/// Whether node `n` has a `visibility_modifier` child whose text starts with `pub`.
pub open spec fn has_pub_modifier(t: SyntaxTree, n: int) -> bool {
    exists|i: int|
        0 <= i < t.children_of(n).len() && t.kind_of(#[trigger] t.children_of(n)[i]) == "visibility_modifier"@
            && is_prefix("pub"@, t.text_of(t.children_of(n)[i]))
}

proof fn lemma_visibility_from(t: SyntaxTree, n: int, i: int)
    requires
        0 <= i,
    ensures
        rs_visibility_from(t, n, i) == Visibility::Public <==> exists|j: int|
            i <= j < t.children_of(n).len() && t.kind_of(#[trigger] t.children_of(n)[j]) == "visibility_modifier"@
                && is_prefix("pub"@, t.text_of(t.children_of(n)[j])),
        rs_visibility_from(t, n, i) == Visibility::Public || rs_visibility_from(t, n, i)
            == Visibility::Private,
    decreases t.children_of(n).len() - i,
{
    let kids = t.children_of(n);
    if i < kids.len() {
        lemma_visibility_from(t, n, i + 1);
        if exists|j: int|
            i <= j < kids.len() && t.kind_of(#[trigger] kids[j]) == "visibility_modifier"@ && is_prefix(
                "pub"@,
                t.text_of(kids[j]),
            ) {
            let j = choose|j: int|
                i <= j < kids.len() && t.kind_of(#[trigger] kids[j]) == "visibility_modifier"@
                    && is_prefix("pub"@, t.text_of(kids[j]));
            if j > i {
                assert(i + 1 <= j);
            }
        }
    }
}

/// A Rust item is public exactly when it has a `visibility_modifier` child
/// whose text starts with `pub` (`pub`, `pub(crate)`, ...), and private
/// otherwise; a function's signature then starts with `pub ` or with `fn `.
pub proof fn lemma_rust_visibility(t: SyntaxTree, n: int, name: Seq<char>)
    ensures
        has_pub_modifier(t, n) ==> rs_visibility(t, n) == Visibility::Public,
        !has_pub_modifier(t, n) ==> rs_visibility(t, n) == Visibility::Private,
        has_pub_modifier(t, n) ==> is_prefix("pub fn "@, rs_fn_signature(t, n, name)),
        !has_pub_modifier(t, n) ==> is_prefix("fn "@, rs_fn_signature(t, n, name)),
{
    lemma_visibility_from(t, n, 0);
    reveal_strlit("pub ");
    reveal_strlit("fn ");
    reveal_strlit("pub fn ");
    reveal_strlit("");
    let sig = rs_fn_signature(t, n, name);
    if has_pub_modifier(t, n) {
        assert(sig.subrange(0, 7) =~= "pub fn "@);
    } else {
        assert(rs_visibility_from(t, n, 0) != Visibility::Public);
        assert(sig.subrange(0, 3) =~= "fn "@);
    }
}

} // verus!
