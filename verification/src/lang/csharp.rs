//! C#: namespaces, classes (with their bases), structs, interfaces, enums,
//! records, `using` directives, methods, constructors and properties; calls
//! (`this.m` qualified with the class) and `new` types.
use vstd::prelude::*;
use crate::text::{chars_of, string_of, str_eq, trim_chars, is_uppercase, cat2, cat3, trim_ws, uppercase_char};
use crate::symbol::{SymbolNode, SymbolView, SymbolKind, Language, Visibility, NodeId, node_id_of, opt_view, id_hex};
use crate::relation::{EdgeKind, RawEdgeView};
use crate::graph::has_id;
use crate::syntax::SyntaxTree;
use crate::extract::{
    ExtractResult, make_edge, start_extraction, extraction_of, walk_ready, walk_kept, rows,
    qualify_member_call, preceding_doc_comment, field_child, node_rows, file_symbol, doc_comment_of,
    member_call_of,
};

verus! {

/// Extracts C# symbols.
pub struct CSharpExtractor;

pub open spec fn cs_edge(source: NodeId, kind: EdgeKind, target: Seq<char>, line: u32) -> RawEdgeView {
    RawEdgeView { source, kind, target_name: target, target_module: None, source_line: line }
}

/// The visibility the first `modifier` child from the `i`-th on that spells
/// one out gives; private when none does.
pub open spec fn cs_visibility_from(t: SyntaxTree, kids: Seq<int>, i: int) -> Visibility
    decreases kids.len() - i,
{
    if i < 0 || i >= kids.len() {
        Visibility::Private
    } else {
        let c = kids[i];
        let x = t.text_of(c);
        if t.kind_of(c) == "modifier"@ {
            if x == "public"@ {
                Visibility::Public
            } else if x == "private"@ {
                Visibility::Private
            } else if x == "protected"@ {
                Visibility::Protected
            } else if x == "internal"@ {
                Visibility::Internal
            } else {
                cs_visibility_from(t, kids, i + 1)
            }
        } else {
            cs_visibility_from(t, kids, i + 1)
        }
    }
}

pub open spec fn cs_visibility(t: SyntaxTree, n: int) -> Visibility {
    cs_visibility_from(t, t.children_of(n), 0)
}

/// A C# symbol at node `n`, with its documentation comment where `with_doc`.
pub open spec fn cs_symbol_at(
    t: SyntaxTree,
    n: int,
    path: Seq<char>,
    name: Seq<char>,
    kind: SymbolKind,
    sig: Seq<char>,
    vis: Visibility,
    with_doc: bool,
    parent: NodeId,
) -> SymbolView {
    SymbolView {
        id: node_id_of(path, name, kind, t.start_rows@[n]),
        name: name,
        kind: kind,
        file_path: path,
        line_range: node_rows(t, n),
        signature: Some(sig),
        doc_comment: if with_doc {
            doc_comment_of(t, n)
        } else {
            None
        },
        visibility: vis,
        language: Language::CSharp,
        parent: Some(parent),
    }
}

/// A base type is taken for an interface when it is `I` followed by a capital.
pub open spec fn interface_like(name: Seq<char>) -> bool {
    name.len() >= 2 && name[0] == 'I' && uppercase_char(name[1])
}

/// The edges to the named base types from the `i`-th on: `IMPLEMENTS` for
/// interface-like names, else `EXTENDS`.
pub open spec fn cs_bases(t: SyntaxTree, kids: Seq<int>, i: int, id: NodeId, raws: Seq<RawEdgeView>) -> Seq<RawEdgeView>
    decreases kids.len() - i,
{
    if i < 0 || i >= kids.len() {
        raws
    } else {
        let b = kids[i];
        let next = if t.named@[b] {
            let bn = t.text_of(b);
            let ek = if interface_like(bn) {
                EdgeKind::Implements
            } else {
                EdgeKind::Extends
            };
            raws.push(cs_edge(id, ek, bn, t.start_rows@[b]))
        } else {
            raws
        };
        cs_bases(t, kids, i + 1, id, next)
    }
}

/// A namespace: its symbol, then its body and then the declaration itself
/// walked under it (a file-scoped namespace has its members as siblings of
/// its name).
pub open spec fn cs_namespace(
    t: SyntaxTree,
    n: int,
    path: Seq<char>,
    parent: NodeId,
    acc: (Seq<SymbolView>, Seq<RawEdgeView>),
) -> (Seq<SymbolView>, Seq<RawEdgeView>)
    decreases t.size() - n, 3int, 0int,
{
    match field_child(t, n, "name"@) {
        None => acc,
        Some(nm) => {
            let name = t.text_of(nm);
            let s = cs_symbol_at(t, n, path, name, SymbolKind::Namespace, "namespace "@ + name, Visibility::Public, true, parent);
            let a1 = (acc.0.push(s), acc.1);
            let a2 = match field_child(t, n, "body"@) {
                Some(b) => if n < b < t.size() {
                    cs_walk(t, b, path, s.id, None, a1)
                } else {
                    a1
                },
                None => a1,
            };
            cs_walk(t, n, path, s.id, None, a2)
        },
    }
}

/// A class, struct, interface or record: its symbol, a class's base edges,
/// then its body walked with it as the class.
pub open spec fn cs_type(
    t: SyntaxTree,
    n: int,
    path: Seq<char>,
    parent: NodeId,
    kind: SymbolKind,
    keyword: Seq<char>,
    acc: (Seq<SymbolView>, Seq<RawEdgeView>),
) -> (Seq<SymbolView>, Seq<RawEdgeView>)
    decreases t.size() - n, 3int, 0int,
{
    match field_child(t, n, "name"@) {
        None => acc,
        Some(nm) => {
            let name = t.text_of(nm);
            let s = cs_symbol_at(t, n, path, name, kind, keyword + name, cs_visibility(t, n), true, parent);
            let raws = if t.kind_of(n) == "class_declaration"@ {
                match field_child(t, n, "bases"@) {
                    Some(b) => cs_bases(t, t.children_of(b), 0, s.id, acc.1),
                    None => acc.1,
                }
            } else {
                acc.1
            };
            match field_child(t, n, "body"@) {
                Some(b) => if n < b < t.size() {
                    cs_walk(t, b, path, s.id, Some(name), (acc.0.push(s), raws))
                } else {
                    (acc.0.push(s), raws)
                },
                None => (acc.0.push(s), raws),
            }
        },
    }
}

/// A method, or (`is_ctor`) a constructor (`Class..ctor`), of `class`: its
/// symbol, then the calls of its body.
pub open spec fn cs_method(
    t: SyntaxTree,
    n: int,
    path: Seq<char>,
    parent: NodeId,
    class: Option<Seq<char>>,
    is_ctor: bool,
    acc: (Seq<SymbolView>, Seq<RawEdgeView>),
) -> (Seq<SymbolView>, Seq<RawEdgeView>) {
    match field_child(t, n, "name"@) {
        None => acc,
        Some(nm) => {
            let name = t.text_of(nm);
            let params = match field_child(t, n, "parameters"@) {
                Some(p) => t.text_of(p),
                None => "()"@,
            };
            let (kind, q, sig) = if is_ctor {
                (
                    SymbolKind::Constructor,
                    match class {
                        Some(cn) => cn + "..ctor"@,
                        None => name,
                    },
                    name + params,
                )
            } else {
                let ret = match field_child(t, n, "type"@) {
                    Some(x) => t.text_of(x),
                    None => "void"@,
                };
                (
                    SymbolKind::Method,
                    match class {
                        Some(cn) => cn + "."@ + name,
                        None => name,
                    },
                    ret + " "@ + (name + params),
                )
            };
            let s = cs_symbol_at(t, n, path, q, kind, sig, cs_visibility(t, n), true, parent);
            (
                acc.0.push(s),
                match field_child(t, n, "body"@) {
                    Some(b) => cs_calls(t, b, s.id, class, acc.1),
                    None => acc.1,
                },
            )
        },
    }
}

/// A property: `Type name`.
pub open spec fn cs_property(t: SyntaxTree, n: int, path: Seq<char>, parent: NodeId, syms: Seq<SymbolView>) -> Seq<
    SymbolView,
> {
    match field_child(t, n, "name"@) {
        None => syms,
        Some(nm) => {
            let name = t.text_of(nm);
            let ty = match field_child(t, n, "type"@) {
                Some(x) => t.text_of(x),
                None => seq![],
            };
            syms.push(cs_symbol_at(t, n, path, name, SymbolKind::Property, ty + " "@ + name, cs_visibility(t, n), true, parent))
        },
    }
}

/// A `using` directive: an `Import` symbol named by the directive, and an
/// `IMPORTS` edge that names that symbol by its identifier.
pub open spec fn cs_using(
    t: SyntaxTree,
    n: int,
    path: Seq<char>,
    parent: NodeId,
    acc: (Seq<SymbolView>, Seq<RawEdgeView>),
) -> (Seq<SymbolView>, Seq<RawEdgeView>) {
    let text = trim_ws(t.text_of(n));
    let s = cs_symbol_at(t, n, path, text, SymbolKind::Import, text, Visibility::Public, false, parent);
    (acc.0.push(s), acc.1.push(cs_edge(parent, EdgeKind::Imports, id_hex(s.id), t.start_rows@[n])))
}

/// The edges that node `c` makes itself: a call of what it invokes (`this.m`
/// qualified with the class), a reference to the type a `new` creates.
pub open spec fn cs_call_edge(t: SyntaxTree, c: int, caller: NodeId, class: Option<Seq<char>>, raws: Seq<RawEdgeView>) -> Seq<
    RawEdgeView,
> {
    let line = t.start_rows@[c];
    let r1 = if t.kind_of(c) == "invocation_expression"@ {
        match field_child(t, c, "function"@) {
            Some(f) => raws.push(
                cs_edge(
                    caller,
                    EdgeKind::Calls,
                    match class {
                        Some(cn) => member_call_of(t.text_of(f), cn),
                        None => t.text_of(f),
                    },
                    line,
                ),
            ),
            None => raws,
        }
    } else {
        raws
    };
    if t.kind_of(c) == "object_creation_expression"@ {
        match field_child(t, c, "type"@) {
            Some(x) => r1.push(cs_edge(caller, EdgeKind::References, t.text_of(x), line)),
            None => r1,
        }
    } else {
        r1
    }
}

/// The call edges of the calls below `n`, in document order, appended to `raws`.
pub open spec fn cs_calls(t: SyntaxTree, n: int, caller: NodeId, class: Option<Seq<char>>, raws: Seq<RawEdgeView>) -> Seq<
    RawEdgeView,
>
    decreases t.size() - n, 1int, 0int,
{
    cs_calls_from(t, n, 0, caller, class, raws)
}

pub open spec fn cs_calls_from(
    t: SyntaxTree,
    n: int,
    i: int,
    caller: NodeId,
    class: Option<Seq<char>>,
    raws: Seq<RawEdgeView>,
) -> Seq<RawEdgeView>
    decreases t.size() - n, 0int, t.children_of(n).len() - i,
{
    let kids = t.children_of(n);
    if i < 0 || i >= kids.len() || !(n < kids[i] < t.size()) {
        raws
    } else {
        let c = kids[i];
        cs_calls_from(t, n, i + 1, caller, class, cs_calls(t, c, caller, class, cs_call_edge(t, c, caller, class, raws)))
    }
}

pub open spec fn cs_walk(
    t: SyntaxTree,
    n: int,
    path: Seq<char>,
    parent: NodeId,
    class: Option<Seq<char>>,
    acc: (Seq<SymbolView>, Seq<RawEdgeView>),
) -> (Seq<SymbolView>, Seq<RawEdgeView>)
    decreases t.size() - n, 2int, 0int,
{
    cs_walk_from(t, n, 0, path, parent, class, acc)
}

pub open spec fn cs_walk_from(
    t: SyntaxTree,
    n: int,
    i: int,
    path: Seq<char>,
    parent: NodeId,
    class: Option<Seq<char>>,
    acc: (Seq<SymbolView>, Seq<RawEdgeView>),
) -> (Seq<SymbolView>, Seq<RawEdgeView>)
    decreases t.size() - n, 1int, t.children_of(n).len() - i,
{
    let kids = t.children_of(n);
    if i < 0 || i >= kids.len() || !(n < kids[i] < t.size()) {
        acc
    } else {
        cs_walk_from(t, n, i + 1, path, parent, class, cs_item(t, kids[i], path, parent, class, acc))
    }
}

/// One declaration: namespaces, types, enums, `using` directives, methods,
/// constructors and properties; any other node has its children walked.
pub open spec fn cs_item(
    t: SyntaxTree,
    c: int,
    path: Seq<char>,
    parent: NodeId,
    class: Option<Seq<char>>,
    acc: (Seq<SymbolView>, Seq<RawEdgeView>),
) -> (Seq<SymbolView>, Seq<RawEdgeView>)
    decreases t.size() - c, 4int, 0int,
{
    let k = t.kind_of(c);
    if k == "namespace_declaration"@ || k == "file_scoped_namespace_declaration"@ {
        cs_namespace(t, c, path, parent, acc)
    } else if k == "class_declaration"@ {
        cs_type(t, c, path, parent, SymbolKind::Class, "class "@, acc)
    } else if k == "struct_declaration"@ {
        cs_type(t, c, path, parent, SymbolKind::Struct, "struct "@, acc)
    } else if k == "interface_declaration"@ {
        cs_type(t, c, path, parent, SymbolKind::Interface, "interface "@, acc)
    } else if k == "enum_declaration"@ {
        match field_child(t, c, "name"@) {
            Some(nm) => (
                acc.0.push(
                    cs_symbol_at(
                        t,
                        c,
                        path,
                        t.text_of(nm),
                        SymbolKind::Enum,
                        "enum "@ + t.text_of(nm),
                        cs_visibility(t, c),
                        true,
                        parent,
                    ),
                ),
                acc.1,
            ),
            None => acc,
        }
    } else if k == "record_declaration"@ {
        cs_type(t, c, path, parent, SymbolKind::Record, "record "@, acc)
    } else if k == "using_directive"@ {
        cs_using(t, c, path, parent, acc)
    } else if k == "method_declaration"@ {
        cs_method(t, c, path, parent, class, false, acc)
    } else if k == "constructor_declaration"@ {
        cs_method(t, c, path, parent, class, true, acc)
    } else if k == "property_declaration"@ {
        (cs_property(t, c, path, parent, acc.0), acc.1)
    } else {
        cs_walk(t, c, path, parent, class, acc)
    }
}

/// The symbols and raw edges of a C# file: its `File` symbol, then the
/// declarations of the tree in document order.
pub open spec fn csharp_extraction(t: SyntaxTree, path: Seq<char>) -> (Seq<SymbolView>, Seq<RawEdgeView>) {
    let f = file_symbol(path, Language::CSharp, t.source@);
    cs_walk(t, 0, path, f.id, None, (seq![f], Seq::<RawEdgeView>::empty()))
}

/// The visibility a `modifier` child spells out; private when none does.
fn extract_cs_visibility(tree: &SyntaxTree, node: usize) -> (r: Visibility)
    requires
        tree.wf(),
        node < tree.size(),
    ensures
        r == cs_visibility(*tree, node as int),
{
    let kids = tree.children(node);
    let ghost ks = kids@.map_values(|x: usize| x as int);
    let mut k: usize = 0;
    while k < kids.len()
        invariant
            tree.wf(),
            ks == kids@.map_values(|x: usize| x as int),
            ks == tree.children_of(node as int),
            forall|m: int| 0 <= m < kids@.len() ==> node < #[trigger] kids@[m] < tree.size(),
            cs_visibility_from(*tree, ks, k as int) == cs_visibility(*tree, node as int),
        decreases kids@.len() - k,
    {
        let child = kids[k];
        proof {
            assert(ks[k as int] == child as int);
        }
        if tree.is_kind(child, "modifier") {
            let t = tree.text(child);
            if str_eq(t.as_str(), "public") {
                return Visibility::Public;
            } else if str_eq(t.as_str(), "private") {
                return Visibility::Private;
            } else if str_eq(t.as_str(), "protected") {
                return Visibility::Protected;
            } else if str_eq(t.as_str(), "internal") {
                return Visibility::Internal;
            }
        }
        k = k + 1;
    }
    Visibility::Private
}

/// A C# symbol with its documentation comment.
fn cs_symbol(
    tree: &SyntaxTree,
    node: usize,
    path: &str,
    name: String,
    kind: SymbolKind,
    sig: String,
    visibility: Visibility,
    with_doc: bool,
    parent_id: NodeId,
) -> (r: SymbolNode)
    requires
        tree.wf(),
        node < tree.size(),
    ensures
        r@ == cs_symbol_at(*tree, node as int, path@, name@, kind, sig@, visibility, with_doc, parent_id),
{
    let id = NodeId::new(path, name.as_str(), kind, tree.start_row(node));
    let doc = if with_doc {
        preceding_doc_comment(tree, node)
    } else {
        None
    };
    SymbolNode {
        id,
        name,
        kind,
        file_path: path.to_string(),
        line_range: rows(tree, node),
        signature: Some(sig),
        doc_comment: doc,
        visibility,
        language: Language::CSharp,
        parent: Some(parent_id),
    }
}

fn walk_csharp(
    tree: &SyntaxTree,
    node: usize,
    path: &str,
    parent_id: NodeId,
    class_name: &Option<String>,
    out: &mut ExtractResult,
)
    requires
        walk_ready(tree, node, path@, Language::CSharp, old(out), parent_id),
    ensures
        walk_kept(old(out), final(out), path@, Language::CSharp),
        (final(out).syms(), final(out).raws()) == cs_walk(
            *tree,
            node as int,
            path@,
            parent_id,
            opt_view(*class_name),
            (old(out).syms(), old(out).raws()),
        ),
    decreases tree.size() - node, 1nat,
{
    let ghost goal = cs_walk(*tree, node as int, path@, parent_id, opt_view(*class_name), (out.syms(), out.raws()));
    let kids = tree.children(node);
    let mut k: usize = 0;
    while k < kids.len()
        invariant
            tree.wf(),
            node < tree.size(),
            forall|m: int| 0 <= m < kids@.len() ==> node < #[trigger] kids@[m] < tree.size(),
            kids@.map_values(|x: usize| x as int) == tree.children_of(node as int),
            has_id(old(out).syms(), parent_id),
            walk_kept(old(out), out, path@, Language::CSharp),
            cs_walk_from(
                *tree,
                node as int,
                k as int,
                path@,
                parent_id,
                opt_view(*class_name),
                (out.syms(), out.raws()),
            ) == goal,
        decreases kids@.len() - k,
    {
        let child = kids[k];
        proof {
            assert(tree.children_of(node as int)[k as int] == child as int);
        }
        cs_item_exec(tree, child, path, parent_id, class_name, out);
        k = k + 1;
    }
}

fn cs_item_exec(
    tree: &SyntaxTree,
    child: usize,
    path: &str,
    parent_id: NodeId,
    class_name: &Option<String>,
    out: &mut ExtractResult,
)
    requires
        walk_ready(tree, child, path@, Language::CSharp, old(out), parent_id),
    ensures
        walk_kept(old(out), final(out), path@, Language::CSharp),
        (final(out).syms(), final(out).raws()) == cs_item(
            *tree,
            child as int,
            path@,
            parent_id,
            opt_view(*class_name),
            (old(out).syms(), old(out).raws()),
        ),
    decreases tree.size() - child, 3nat,
{
    if tree.is_kind(child, "namespace_declaration") || tree.is_kind(child, "file_scoped_namespace_declaration") {
        extract_cs_namespace(tree, child, path, parent_id, out);
    } else if tree.is_kind(child, "class_declaration") {
        extract_cs_type(tree, child, path, parent_id, SymbolKind::Class, "class ", out);
    } else if tree.is_kind(child, "struct_declaration") {
        extract_cs_type(tree, child, path, parent_id, SymbolKind::Struct, "struct ", out);
    } else if tree.is_kind(child, "interface_declaration") {
        extract_cs_type(tree, child, path, parent_id, SymbolKind::Interface, "interface ", out);
    } else if tree.is_kind(child, "enum_declaration") {
        if let Some(name_node) = tree.child_by_field(child, "name") {
            let name = tree.text(name_node);
            let sig = cat2("enum ", name.as_str());
            let vis = extract_cs_visibility(tree, child);
            let s = cs_symbol(tree, child, path, name, SymbolKind::Enum, sig, vis, true, parent_id);
            out.add_symbol(s, path, Language::CSharp);
        }
    } else if tree.is_kind(child, "record_declaration") {
        extract_cs_type(tree, child, path, parent_id, SymbolKind::Record, "record ", out);
    } else if tree.is_kind(child, "using_directive") {
        extract_cs_using(tree, child, path, parent_id, out);
    } else if tree.is_kind(child, "method_declaration") {
        extract_cs_method(tree, child, path, parent_id, class_name, false, out);
    } else if tree.is_kind(child, "constructor_declaration") {
        extract_cs_method(tree, child, path, parent_id, class_name, true, out);
    } else if tree.is_kind(child, "property_declaration") {
        extract_cs_property(tree, child, path, parent_id, out);
    } else {
        walk_csharp(tree, child, path, parent_id, class_name, out);
    }
}

/// A namespace: its body is walked, and then the declaration itself (a
/// file-scoped namespace has its members as siblings of its name).
fn extract_cs_namespace(tree: &SyntaxTree, node: usize, path: &str, parent_id: NodeId, out: &mut ExtractResult)
    requires
        walk_ready(tree, node, path@, Language::CSharp, old(out), parent_id),
    ensures
        walk_kept(old(out), final(out), path@, Language::CSharp),
        (final(out).syms(), final(out).raws()) == cs_namespace(
            *tree,
            node as int,
            path@,
            parent_id,
            (old(out).syms(), old(out).raws()),
        ),
    decreases tree.size() - node, 2nat,
{
    let name_node = match tree.child_by_field(node, "name") {
        Some(n) => n,
        None => {
            return;
        },
    };
    let name = tree.text(name_node);
    let sig = cat2("namespace ", name.as_str());
    let s = cs_symbol(
        tree,
        node,
        path,
        name,
        SymbolKind::Namespace,
        sig,
        Visibility::Public,
        true,
        parent_id,
    );
    let id = s.id;
    out.add_symbol(s, path, Language::CSharp);
    if let Some(body) = tree.child_by_field(node, "body") {
        walk_csharp(tree, body, path, id, &None, out);
    }
    walk_csharp(tree, node, path, id, &None, out);
}

/// Whether a base type is taken for an interface: `I` followed by a capital.
fn looks_like_interface(name: &[char]) -> (r: bool)
    ensures
        r == interface_like(name@),
{
    name.len() >= 2 && name[0] == 'I' && is_uppercase(name[1])
}

/// A class, struct, interface or record; a class's bases become `EXTENDS` or
/// (for interface-like names) `IMPLEMENTS` edges.
fn extract_cs_type(
    tree: &SyntaxTree,
    node: usize,
    path: &str,
    parent_id: NodeId,
    kind: SymbolKind,
    keyword: &str,
    out: &mut ExtractResult,
)
    requires
        walk_ready(tree, node, path@, Language::CSharp, old(out), parent_id),
    ensures
        walk_kept(old(out), final(out), path@, Language::CSharp),
        (final(out).syms(), final(out).raws()) == cs_type(
            *tree,
            node as int,
            path@,
            parent_id,
            kind,
            keyword@,
            (old(out).syms(), old(out).raws()),
        ),
    decreases tree.size() - node, 2nat,
{
    let name_node = match tree.child_by_field(node, "name") {
        Some(n) => n,
        None => {
            return;
        },
    };
    let name = tree.text(name_node);
    let sig = cat2(keyword, name.as_str());
    let vis = extract_cs_visibility(tree, node);
    let s = cs_symbol(tree, node, path, name.clone(), kind, sig, vis, true, parent_id);
    let id = s.id;
    out.add_symbol(s, path, Language::CSharp);
    let ghost syms1 = out.syms();
    if tree.is_kind(node, "class_declaration") {
        if let Some(bases) = tree.child_by_field(node, "bases") {
            let kids = tree.children(bases);
            let ghost ks = kids@.map_values(|x: usize| x as int);
            let ghost goal = cs_bases(*tree, ks, 0, id, out.raws());
            let mut k: usize = 0;
            while k < kids.len()
                invariant
                    tree.wf(),
                    ks == kids@.map_values(|x: usize| x as int),
                    forall|m: int| 0 <= m < kids@.len() ==> bases < #[trigger] kids@[m] < tree.size(),
                    has_id(old(out).syms(), parent_id),
                    has_id(out.syms(), id),
                    walk_kept(old(out), out, path@, Language::CSharp),
                    out.syms() == syms1,
                    cs_bases(*tree, ks, k as int, id, out.raws()) == goal,
                decreases kids@.len() - k,
            {
                let b = kids[k];
                proof {
                    assert(ks[k as int] == b as int);
                }
                if tree.is_named(b) {
                    let bn = tree.text_chars(b);
                    let ek = if looks_like_interface(&bn) {
                        EdgeKind::Implements
                    } else {
                        EdgeKind::Extends
                    };
                    let e = make_edge(id, ek, string_of(&bn), tree.start_row(b));
                    out.add_edge(e, Ghost(path@), Ghost(Language::CSharp));
                }
                k = k + 1;
            }
            proof {
                assert(tree.children_of(bases as int) == ks);
            }
        }
    }
    if let Some(body) = tree.child_by_field(node, "body") {
        walk_csharp(tree, body, path, id, &Some(name), out);
    }
}

/// A method, or (`is_ctor`) a constructor, of the class `class_name`.
fn extract_cs_method(
    tree: &SyntaxTree,
    node: usize,
    path: &str,
    parent_id: NodeId,
    class_name: &Option<String>,
    is_ctor: bool,
    out: &mut ExtractResult,
)
    requires
        walk_ready(tree, node, path@, Language::CSharp, old(out), parent_id),
    ensures
        walk_kept(old(out), final(out), path@, Language::CSharp),
        (final(out).syms(), final(out).raws()) == cs_method(
            *tree,
            node as int,
            path@,
            parent_id,
            opt_view(*class_name),
            is_ctor,
            (old(out).syms(), old(out).raws()),
        ),
{
    let name_node = match tree.child_by_field(node, "name") {
        Some(n) => n,
        None => {
            return;
        },
    };
    let name = tree.text(name_node);
    let params = match tree.child_by_field(node, "parameters") {
        Some(p) => tree.text(p),
        None => "()".to_string(),
    };
    let (kind, qualified, sig) = if is_ctor {
        (
            SymbolKind::Constructor,
            match class_name {
                Some(cn) => cat2(cn.as_str(), "..ctor"),
                None => name.clone(),
            },
            cat2(name.as_str(), params.as_str()),
        )
    } else {
        let return_type = match tree.child_by_field(node, "type") {
            Some(t) => tree.text(t),
            None => "void".to_string(),
        };
        (
            SymbolKind::Method,
            match class_name {
                Some(cn) => cat3(cn.as_str(), ".", name.as_str()),
                None => name.clone(),
            },
            cat3(return_type.as_str(), " ", cat2(name.as_str(), params.as_str()).as_str()),
        )
    };
    let vis = extract_cs_visibility(tree, node);
    let s = cs_symbol(tree, node, path, qualified, kind, sig, vis, true, parent_id);
    let id = s.id;
    out.add_symbol(s, path, Language::CSharp);
    if let Some(body) = tree.child_by_field(node, "body") {
        extract_cs_calls(tree, body, path, id, class_name, out);
    }
}

fn extract_cs_property(tree: &SyntaxTree, node: usize, path: &str, parent_id: NodeId, out: &mut ExtractResult)
    requires
        walk_ready(tree, node, path@, Language::CSharp, old(out), parent_id),
    ensures
        walk_kept(old(out), final(out), path@, Language::CSharp),
        final(out).raws() == old(out).raws(),
        final(out).syms() == cs_property(*tree, node as int, path@, parent_id, old(out).syms()),
{
    proof {
        reveal_strlit("");
    }
    let name_node = match tree.child_by_field(node, "name") {
        Some(n) => n,
        None => {
            return;
        },
    };
    let name = tree.text(name_node);
    let prop_type = match tree.child_by_field(node, "type") {
        Some(t) => tree.text(t),
        None => String::new(),
    };
    let sig = cat3(prop_type.as_str(), " ", name.as_str());
    let vis = extract_cs_visibility(tree, node);
    let s = cs_symbol(tree, node, path, name, SymbolKind::Property, sig, vis, true, parent_id);
    out.add_symbol(s, path, Language::CSharp);
}

/// A `using` directive; its `IMPORTS` edge names the import symbol itself by
/// identifier, so that identical directives of other files stay apart.
fn extract_cs_using(tree: &SyntaxTree, node: usize, path: &str, parent_id: NodeId, out: &mut ExtractResult)
    requires
        walk_ready(tree, node, path@, Language::CSharp, old(out), parent_id),
    ensures
        walk_kept(old(out), final(out), path@, Language::CSharp),
        (final(out).syms(), final(out).raws()) == cs_using(
            *tree,
            node as int,
            path@,
            parent_id,
            (old(out).syms(), old(out).raws()),
        ),
{
    let text = string_of(&trim_chars(&tree.text_chars(node)));
    let s = cs_symbol(
        tree,
        node,
        path,
        text.clone(),
        SymbolKind::Import,
        text,
        Visibility::Public,
        false,
        parent_id,
    );
    let id = s.id;
    out.add_symbol(s, path, Language::CSharp);
    let e = make_edge(parent_id, EdgeKind::Imports, id.to_hex(), tree.start_row(node));
    out.add_edge(e, Ghost(path@), Ghost(Language::CSharp));
}

/// The edges that node `child` makes itself.
fn cs_call_edge_exec(
    tree: &SyntaxTree,
    child: usize,
    path: &str,
    caller_id: NodeId,
    class_name: &Option<String>,
    out: &mut ExtractResult,
)
    requires
        walk_ready(tree, child, path@, Language::CSharp, old(out), caller_id),
    ensures
        walk_kept(old(out), final(out), path@, Language::CSharp),
        final(out).symbols@ == old(out).symbols@,
        final(out).raws() == cs_call_edge(*tree, child as int, caller_id, opt_view(*class_name), old(out).raws()),
{
    let line = tree.start_row(child);
    if tree.is_kind(child, "invocation_expression") {
        if let Some(func) = tree.child_by_field(child, "function") {
            let raw = tree.text(func);
            let target = match class_name {
                Some(cn) => qualify_member_call(raw.as_str(), cn.as_str()),
                None => raw,
            };
            let e = make_edge(caller_id, EdgeKind::Calls, target, line);
            out.add_edge(e, Ghost(path@), Ghost(Language::CSharp));
        }
    }
    if tree.is_kind(child, "object_creation_expression") {
        if let Some(t) = tree.child_by_field(child, "type") {
            let e = make_edge(caller_id, EdgeKind::References, tree.text(t), line);
            out.add_edge(e, Ghost(path@), Ghost(Language::CSharp));
        }
    }
}

fn extract_cs_calls(
    tree: &SyntaxTree,
    node: usize,
    path: &str,
    caller_id: NodeId,
    class_name: &Option<String>,
    out: &mut ExtractResult,
)
    requires
        walk_ready(tree, node, path@, Language::CSharp, old(out), caller_id),
    ensures
        walk_kept(old(out), final(out), path@, Language::CSharp),
        final(out).symbols@ == old(out).symbols@,
        final(out).raws() == cs_calls(*tree, node as int, caller_id, opt_view(*class_name), old(out).raws()),
    decreases tree.size() - node,
{
    let ghost cls = opt_view(*class_name);
    let ghost goal = cs_calls(*tree, node as int, caller_id, cls, out.raws());
    let kids = tree.children(node);
    let mut k: usize = 0;
    while k < kids.len()
        invariant
            tree.wf(),
            node < tree.size(),
            forall|m: int| 0 <= m < kids@.len() ==> node < #[trigger] kids@[m] < tree.size(),
            kids@.map_values(|x: usize| x as int) == tree.children_of(node as int),
            has_id(old(out).syms(), caller_id),
            walk_kept(old(out), out, path@, Language::CSharp),
            out.symbols@ == old(out).symbols@,
            cls == opt_view(*class_name),
            cs_calls_from(*tree, node as int, k as int, caller_id, cls, out.raws()) == goal,
        decreases kids@.len() - k,
    {
        let child = kids[k];
        proof {
            assert(tree.children_of(node as int)[k as int] == child as int);
        }
        cs_call_edge_exec(tree, child, path, caller_id, class_name, out);
        extract_cs_calls(tree, child, path, caller_id, class_name, out);
        k = k + 1;
    }
}

impl CSharpExtractor {
    pub fn language(&self) -> (r: Language)
        ensures
            r == Language::CSharp,
    {
        Language::CSharp
    }

    /// The file extensions read as C#.
    pub fn file_extensions(&self) -> (r: Vec<&'static str>)
        ensures
            r@.len() == 1,
            r@[0]@ == "cs"@,
    {
        let mut v: Vec<&'static str> = Vec::new();
        v.push("cs");
        v
    }

    /// Extracts the symbols and raw edges of the C# file `path` from its tree:
    /// the `File` symbol first, then each declaration in document order as
    /// `csharp_extraction` states.
    pub fn extract(&self, tree: &SyntaxTree, path: &str) -> (r: ExtractResult)
        requires
            tree.wf(),
        ensures
            extraction_of(r, path@, Language::CSharp, tree.source@),
            (r.syms(), r.raws()) == csharp_extraction(*tree, path@),
    {
        let mut out = start_extraction(tree, path, Language::CSharp);
        let file_id = out.symbols[0].id;
        proof {
            assert(out.syms()[0].id == file_id);
            assert(out.raws() =~= Seq::<RawEdgeView>::empty());
        }
        walk_csharp(tree, 0, path, file_id, &None, &mut out);
        out
    }
}

} // verus!
